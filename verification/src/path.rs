//! Resolving the paths a program names against the program's own location.
use vstd::prelude::*;

use crate::text::copy_str;

verus! {

/// Whether std's path rules take `path` as absolute
/// (`std::path::Path::is_absolute`).
pub uninterp spec fn path_is_absolute_of(path: Seq<char>) -> bool;

/// The parent std's path rules give `path` (`std::path::Path::parent`).
pub uninterp spec fn path_parent_of(path: Seq<char>) -> Option<Seq<char>>;

/// `base` joined with `tail` by std's path rules (`std::path::Path::join`).
pub uninterp spec fn path_join_of(base: Seq<char>, tail: Seq<char>) -> Seq<char>;

/// What is left of `path` after the leading components of `base`
/// (`std::path::Path::strip_prefix`), where `base` is a prefix of it.
pub uninterp spec fn path_strip_prefix_of(path: Seq<char>, base: Seq<char>) -> Option<Seq<char>>;

/// Calls `std::path::Path::strip_prefix` on `path` with `base`.
#[verifier::external_body]
fn path_strip_prefix(path: &str, base: &str) -> (r: Option<String>)
    ensures
        match r {
            Some(rest) => path_strip_prefix_of(path@, base@) == Some(rest@),
            None => path_strip_prefix_of(path@, base@) is None,
        },
{
    std::path::Path::new(path).strip_prefix(base).ok().map(|rest| rest.to_string_lossy().into_owned())
}

/// `path` relative to `base` where it lies under it, else `path` itself.
pub open spec fn relative_spec(base: Seq<char>, path: Seq<char>) -> Seq<char> {
    match path_strip_prefix_of(path, base) {
        Some(rest) => rest,
        None => path,
    }
}

/// `path` relative to `base` where it lies under it, else `path` itself.
pub fn relative(base: &str, path: &str) -> (r: String)
    ensures
        r@ == relative_spec(base@, path@),
{
    match path_strip_prefix(path, base) {
        Some(rest) => rest,
        None => copy_str(path),
    }
}

/// Calls `std::path::Path::is_absolute` on `path`. The result is what std's
/// rules for the build target say of the text; those rules are not written
/// out here.
#[verifier::external_body]
fn path_is_absolute(path: &str) -> (r: bool)
    ensures
        r == path_is_absolute_of(path@),
{
    std::path::Path::new(path).is_absolute()
}

/// Calls `std::path::Path::parent` on `path`. The parent std returns is a
/// leading part of the path's own text, which is what the `ensures` adds to
/// the name.
#[verifier::external_body]
fn path_parent(path: &str) -> (r: Option<String>)
    ensures
        match r {
            Some(p) => path_parent_of(path@) == Some(p@) && path@.take(p@.len() as int) == p@ && p@.len()
                <= path@.len(),
            None => path_parent_of(path@) is None,
        },
{
    std::path::Path::new(path).parent().map(|p| p.to_string_lossy().into_owned())
}

/// Calls `std::path::Path::join` on `base` and `tail`.
#[verifier::external_body]
fn path_join(base: &str, tail: &str) -> (r: String)
    ensures
        r@ == path_join_of(base@, tail@),
{
    std::path::Path::new(base).join(tail).to_string_lossy().into_owned()
}

/// `base` joined with `tail`.
pub fn join_path(base: &str, tail: &str) -> (r: String)
    ensures
        r@ == path_join_of(base@, tail@),
{
    path_join(base, tail)
}

/// Where an input that a program names as `source` lives: `source` itself
/// when it is absolute or the program has no parent directory, else
/// `source` under the program's directory.
pub open spec fn resolved_input_path(program_path: Seq<char>, source: Seq<char>) -> Seq<char> {
    if path_is_absolute_of(source) {
        source
    } else {
        match path_parent_of(program_path) {
            Some(parent) => path_join_of(parent, source),
            None => source,
        }
    }
}

/// Resolves an input path named in the program at `program_path`.
pub fn resolve_input_path(program_path: &str, source: &str) -> (r: String)
    ensures
        r@ == resolved_input_path(program_path@, source@),
{
    if path_is_absolute(source) {
        copy_str(source)
    } else {
        match path_parent(program_path) {
            Some(parent) => path_join(parent.as_str(), source),
            None => copy_str(source),
        }
    }
}

/// Resolves an output path: outputs are taken as written.
pub fn resolve_output_path(source: &str) -> (r: String)
    ensures
        r@ == source@,
{
    copy_str(source)
}

/// The directory of the program at `path` (its parent), or `.` when it
/// has none.
pub fn base_dir_of(path: &str) -> (r: String)
    ensures
        r@ == (match path_parent_of(path@) {
            Some(p) => p,
            None => "."@,
        }),
{
    match path_parent(path) {
        Some(p) => p,
        None => copy_str("."),
    }
}

} // verus!
