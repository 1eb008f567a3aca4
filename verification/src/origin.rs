//! Where a PDL program's text came from.
use vstd::prelude::*;

use crate::text::copy_str;

verus! {

/// The input a program was read from.
#[derive(Clone, Debug, Eq, PartialEq)]
pub enum SourceInput {
    Stdin,
    Inline { label: String },
    Path(String),
}

/// The origin of a program's source text.
#[derive(Clone, Debug, Eq, PartialEq)]
pub struct SourceOrigin {
    pub input: SourceInput,
}

impl SourceOrigin {
    /// A program read from a file.
    pub fn path(path: &str) -> (r: Self)
        ensures
            r.input matches SourceInput::Path(p) && p@ == path@,
    {
        SourceOrigin { input: SourceInput::Path(copy_str(path)) }
    }

    /// A program given inline under a label.
    pub fn inline(label: &str) -> (r: Self)
        ensures
            r.input matches SourceInput::Inline { label: l } && l@ == label@,
    {
        SourceOrigin { input: SourceInput::Inline { label: copy_str(label) } }
    }

    /// A program read from standard input.
    pub fn stdin() -> (r: Self)
        ensures
            r.input is Stdin,
    {
        SourceOrigin { input: SourceInput::Stdin }
    }

    /// A copy of this origin.
    pub fn duplicate(&self) -> (r: Self)
        ensures
            origin_view(r) == origin_view(*self),
    {
        let input = match &self.input {
            SourceInput::Stdin => SourceInput::Stdin,
            SourceInput::Inline { label } => SourceInput::Inline { label: crate::text::copy_string(label) },
            SourceInput::Path(p) => SourceInput::Path(crate::text::copy_string(p)),
        };
        SourceOrigin { input }
    }
}

/// An origin as plain values: a tag (0 stdin, 1 inline, 2 path) and text.
pub open spec fn origin_view(o: SourceOrigin) -> (int, Seq<char>) {
    match o.input {
        SourceInput::Stdin => (0, Seq::empty()),
        SourceInput::Inline { label } => (1, label@),
        SourceInput::Path(p) => (2, p@),
    }
}

} // verus!
