//! Keys and entries of the schema cache that hosts keep between runs.
use vstd::prelude::*;

use crate::diagnostic::Diagnostic;
use crate::schema::TableSchema;
use crate::text::{copy_str, str_eq};

verus! {

/// What a cached schema was read from.
#[derive(Clone, Debug, Eq, PartialEq)]
pub enum SourceIdentity {
    Path { resolved_path: String },
    Stdin { host_stream_id: String },
    InMemory { host_file_id: String },
}

/// An identity as plain values: a tag (0 path, 1 stdin, 2 in-memory) and
/// its text.
pub open spec fn identity_view(i: SourceIdentity) -> (int, Seq<char>) {
    match i {
        SourceIdentity::Path { resolved_path } => (0, resolved_path@),
        SourceIdentity::Stdin { host_stream_id } => (1, host_stream_id@),
        SourceIdentity::InMemory { host_file_id } => (2, host_file_id@),
    }
}

/// A cache key: the source's identity and a fingerprint of its contents.
#[derive(Clone, Debug, Eq, PartialEq)]
pub struct SchemaCacheKey {
    pub identity: SourceIdentity,
    pub fingerprint: String,
}

pub open spec fn key_view(k: SchemaCacheKey) -> ((int, Seq<char>), Seq<char>) {
    (identity_view(k.identity), k.fingerprint@)
}

impl SchemaCacheKey {
    /// The key of `identity` with contents fingerprinted as `fingerprint`.
    pub fn new(identity: SourceIdentity, fingerprint: &str) -> (r: Self)
        ensures
            r.identity == identity,
            r.fingerprint@ == fingerprint@,
    {
        SchemaCacheKey { identity, fingerprint: copy_str(fingerprint) }
    }

    /// Whether two keys name the same cache slot: same identity and same
    /// fingerprint.
    pub fn same_key(&self, other: &SchemaCacheKey) -> (r: bool)
        ensures
            r == (key_view(*self) == key_view(*other)),
    {
        let same_identity = match (&self.identity, &other.identity) {
            (SourceIdentity::Path { resolved_path: a }, SourceIdentity::Path { resolved_path: b }) => str_eq(
                a.as_str(),
                b.as_str(),
            ),
            (SourceIdentity::Stdin { host_stream_id: a }, SourceIdentity::Stdin { host_stream_id: b }) => str_eq(
                a.as_str(),
                b.as_str(),
            ),
            (SourceIdentity::InMemory { host_file_id: a }, SourceIdentity::InMemory { host_file_id: b }) => str_eq(
                a.as_str(),
                b.as_str(),
            ),
            _ => false,
        };
        same_identity && str_eq(self.fingerprint.as_str(), other.fingerprint.as_str())
    }
}

/// Two keys made by `SchemaCacheKey::new` name the same cache slot exactly
/// when their identities and their fingerprints are the same; an identity
/// of one kind never matches one of another kind.
pub proof fn lemma_cache_keys(
    a: SchemaCacheKey,
    b: SchemaCacheKey,
    ia: SourceIdentity,
    ib: SourceIdentity,
    fa: Seq<char>,
    fb: Seq<char>,
)
    requires
        a.identity == ia,
        a.fingerprint@ == fa,
        b.identity == ib,
        b.fingerprint@ == fb,
    ensures
        (key_view(a) == key_view(b)) <==> (identity_view(ia) == identity_view(ib) && fa == fb),
        identity_view(ia) == identity_view(ib) ==> identity_view(ia).0 == identity_view(ib).0,
        (ia is Path) != (ib is Path) ==> identity_view(ia) != identity_view(ib),
        (ia is Stdin) != (ib is Stdin) ==> identity_view(ia) != identity_view(ib),
{
}

/// What the cache holds for a key: a schema, or the diagnostics of a failed
/// load.
#[derive(Clone, Debug, PartialEq)]
pub enum SchemaCacheEntry {
    Schema(TableSchema),
    LoadError(Vec<Diagnostic>),
}

/// A request to preview a cached source, bounded in rows and bytes.
#[derive(Clone, Debug, Eq, PartialEq)]
pub struct PreviewRequest {
    pub key: SchemaCacheKey,
    pub max_rows: usize,
    pub max_bytes: usize,
}

} // verus!
