//! The command-line surface: its commands and engine choices, and the
//! small decisions the command handlers make on plain values.
use vstd::prelude::*;

use crate::diagnostic::{Diagnostic, DiagnosticView};
use crate::text::{chars_of, copy_str, push_char, push_str};

verus! {

/// Which engine a run asks for.
#[derive(Clone, Copy, Debug, Eq, PartialEq, Structural)]
pub enum EngineArg {
    Auto,
    Row,
    RowStrict,
    Native,
    NativeStrict,
}

/// The commands of the `pdl` tool, with their arguments.
#[derive(Clone, Debug, Eq, PartialEq)]
pub enum Command {
    Run {
        file: String,
        stdin_format: Option<String>,
        stdout_format: Option<String>,
        dry_run: bool,
        context: Vec<String>,
        engine: EngineArg,
    },
    Controls { file: String, json: bool, context: Vec<String> },
    Serve { file: String, host: String, port: u16 },
    Check { file: String },
    Fmt { file: String, check: bool },
    Schema { file: String, binding: Option<String>, json: bool },
    Plan {
        file: String,
        stdin_format: Option<String>,
        stdout_format: Option<String>,
        engine: EngineArg,
        json: bool,
    },
    Ast { file: String },
    Ir { file: String },
    Manifest { file: String, stdin_format: Option<String>, stdout_format: Option<String>, engine: EngineArg },
    Init { dir: String, codex: bool, claude: bool, agy: bool },
    Lsp,
    Version,
}

// ---------------------------------------------------------------------------
// Errors
// ---------------------------------------------------------------------------

/// An error of the toolchain: a diagnostic's text, or a failed I/O.
#[derive(Clone, Debug, Eq, PartialEq)]
pub enum PdlError {
    Diagnostic(String),
    Io(String),
}

impl PdlError {
    /// The error's message: the diagnostic text itself, or `I/O failed: `
    /// and the failure.
    pub fn message(&self) -> (r: String)
        ensures
            r@ == (match self {
                PdlError::Diagnostic(m) => m@,
                PdlError::Io(m) => "I/O failed: "@ + m@,
            }),
    {
        match self {
            PdlError::Diagnostic(m) => crate::text::copy_string(m),
            PdlError::Io(m) => {
                let mut t = copy_str("I/O failed: ");
                push_str(&mut t, m.as_str());
                t
            },
        }
    }
}

// ---------------------------------------------------------------------------
// Diagnostics merging
// ---------------------------------------------------------------------------

/// `target` extended by each incoming diagnostic that it does not already
/// hold, in incoming order.
pub open spec fn extend_new_spec(target: Seq<DiagnosticView>, incoming: Seq<DiagnosticView>) -> Seq<DiagnosticView>
    decreases incoming.len(),
{
    if incoming.len() == 0 {
        target
    } else {
        let t = extend_new_spec(target, incoming.drop_last());
        if t.contains(incoming.last()) {
            t
        } else {
            t.push(incoming.last())
        }
    }
}

pub open spec fn diagnostics_view(v: Seq<Diagnostic>) -> Seq<DiagnosticView> {
    v.map_values(|d: Diagnostic| d@)
}

fn holds(target: &Vec<Diagnostic>, d: &Diagnostic) -> (r: bool)
    ensures
        r == diagnostics_view(target@).contains(d@),
{
    let mut i: usize = 0;
    while i < target.len()
        invariant
            i <= target.len(),
            forall|k: int| 0 <= k < i ==> target@[k]@ != d@,
        decreases target.len() - i,
    {
        if target[i].same_as(d) {
            assert(diagnostics_view(target@)[i as int] == d@);
            return true;
        }
        i += 1;
    }
    false
}

/// Appends the incoming diagnostics that `target` does not already hold.
pub fn extend_new_diagnostics(target: &mut Vec<Diagnostic>, incoming: Vec<Diagnostic>)
    ensures
        diagnostics_view(final(target)@) == extend_new_spec(diagnostics_view(old(target)@), diagnostics_view(incoming@)),
{
    let ghost start = diagnostics_view(target@);
    let ghost inc = diagnostics_view(incoming@);
    let mut i: usize = 0;
    while i < incoming.len()
        invariant
            i <= incoming.len(),
            inc == diagnostics_view(incoming@),
            diagnostics_view(target@) == extend_new_spec(start, inc.take(i as int)),
        decreases incoming.len() - i,
    {
        let ghost before = diagnostics_view(target@);
        assert(inc.take(i + 1).drop_last() =~= inc.take(i as int));
        assert(inc.take(i + 1).last() == incoming@[i as int]@);
        if !holds(target, &incoming[i]) {
            target.push(incoming[i].duplicate());
            assert(diagnostics_view(target@) =~= before.push(incoming@[i as int]@));
        }
        i += 1;
    }
    assert(inc.take(incoming.len() as int) =~= inc);
}

/// Merging never drops or reorders what was there, and never adds a
/// diagnostic twice: the result starts with the target, and each
/// diagnostic it adds was incoming and absent before.
pub proof fn lemma_extend_new_keeps_prefix(target: Seq<DiagnosticView>, incoming: Seq<DiagnosticView>)
    ensures
        extend_new_spec(target, incoming).len() >= target.len(),
        extend_new_spec(target, incoming).take(target.len() as int) == target,
        forall|k: int|
            target.len() <= k < extend_new_spec(target, incoming).len() ==> incoming.contains(
                #[trigger] extend_new_spec(target, incoming)[k],
            ),
    decreases incoming.len(),
{
    if incoming.len() > 0 {
        lemma_extend_new_keeps_prefix(target, incoming.drop_last());
        let t = extend_new_spec(target, incoming.drop_last());
        let r = extend_new_spec(target, incoming);
        assert forall|k: int| target.len() <= k < r.len() implies incoming.contains(#[trigger] r[k]) by {
            if k < t.len() {
                assert(r[k] == t[k]);
                assert(incoming.drop_last().contains(t[k]));
                let j = choose|j: int| 0 <= j < incoming.drop_last().len() && incoming.drop_last()[j] == t[k];
                assert(incoming[j] == t[k]);
            } else {
                assert(r[k] == incoming.last());
                assert(incoming[incoming.len() - 1] == incoming.last());
            }
        }
        if !t.contains(incoming.last()) {
            assert(r.take(target.len() as int) =~= t.take(target.len() as int));
        }
    }
}

/// Whether no diagnostic occurs twice.
pub open spec fn no_repeats(s: Seq<DiagnosticView>) -> bool {
    forall|i: int, j: int| 0 <= i < j < s.len() ==> s[i] != s[j]
}

proof fn lemma_extend_new_holds_all(target: Seq<DiagnosticView>, incoming: Seq<DiagnosticView>)
    ensures
        forall|x: DiagnosticView| #[trigger] target.contains(x) ==> extend_new_spec(target, incoming).contains(x),
        forall|j: int| 0 <= j < incoming.len() ==> extend_new_spec(target, incoming).contains(#[trigger] incoming[j]),
    decreases incoming.len(),
{
    if incoming.len() > 0 {
        let d = incoming.drop_last();
        lemma_extend_new_holds_all(target, d);
        let t = extend_new_spec(target, d);
        let r = extend_new_spec(target, incoming);
        assert forall|x: DiagnosticView| t.contains(x) implies r.contains(x) by {
            if !t.contains(incoming.last()) {
                let k = choose|k: int| 0 <= k < t.len() && t[k] == x;
                assert(r[k] == x);
            }
        }
        assert forall|j: int| 0 <= j < incoming.len() implies r.contains(#[trigger] incoming[j]) by {
            if j < d.len() {
                assert(d[j] == incoming[j]);
                assert(t.contains(d[j]));
            } else if !t.contains(incoming.last()) {
                assert(r[r.len() - 1] == incoming[j]);
            }
        }
    }
}

proof fn lemma_extend_new_unchanged(target: Seq<DiagnosticView>, incoming: Seq<DiagnosticView>)
    requires
        forall|j: int| 0 <= j < incoming.len() ==> target.contains(#[trigger] incoming[j]),
    ensures
        extend_new_spec(target, incoming) == target,
    decreases incoming.len(),
{
    if incoming.len() > 0 {
        let d = incoming.drop_last();
        assert forall|j: int| 0 <= j < d.len() implies target.contains(#[trigger] d[j]) by {
            assert(d[j] == incoming[j]);
        }
        lemma_extend_new_unchanged(target, d);
        assert(target.contains(incoming[incoming.len() - 1]));
    }
}

/// `extend_new_diagnostics` (whose result is `extend_new_spec`) keeps a
/// list free of repeats, and merging the same incoming diagnostics a second
/// time changes nothing.
pub proof fn lemma_extend_new_no_repeats_and_idempotent(target: Seq<DiagnosticView>, incoming: Seq<DiagnosticView>)
    ensures
        no_repeats(target) ==> no_repeats(extend_new_spec(target, incoming)),
        extend_new_spec(extend_new_spec(target, incoming), incoming) == extend_new_spec(target, incoming),
    decreases incoming.len(),
{
    lemma_extend_new_holds_all(target, incoming);
    lemma_extend_new_unchanged(extend_new_spec(target, incoming), incoming);
    if incoming.len() > 0 {
        let d = incoming.drop_last();
        lemma_extend_new_no_repeats_and_idempotent(target, d);
        let t = extend_new_spec(target, d);
        let r = extend_new_spec(target, incoming);
        if no_repeats(target) && !t.contains(incoming.last()) {
            assert forall|i: int, j: int| 0 <= i < j < r.len() implies r[i] != r[j] by {
                if j == r.len() - 1 {
                    assert(r[i] == t[i]);
                    if r[i] == r[j] {
                        assert(t.contains(incoming.last()));
                    }
                } else {
                    assert(r[i] == t[i] && r[j] == t[j]);
                }
            }
        }
    }
}

// ---------------------------------------------------------------------------
// Serve responses
// ---------------------------------------------------------------------------

/// The reason phrase of the HTTP statuses the preview server sends.
pub fn status_text(status: u16) -> (r: &'static str)
    ensures
        r@ == (if status == 204 {
            "No Content"@
        } else if status == 404 {
            "Not Found"@
        } else {
            "OK"@
        }),
{
    if status == 200 {
        "OK"
    } else if status == 204 {
        "No Content"
    } else if status == 404 {
        "Not Found"
    } else {
        "OK"
    }
}

// ---------------------------------------------------------------------------
// Agent instruction files
// ---------------------------------------------------------------------------

/// The marker that opens the language-reference block.
pub open spec fn reference_marker() -> Seq<char> {
    "<!-- pdl-init-language-reference -->"@
}

/// The text of the language-reference block.
pub open spec fn reference_block_text() -> Seq<char> {
    "\n<!-- pdl-init-language-reference -->\n## PDL Language Reference\n\nThis project uses PDL. Before creating or editing `.pdl` files, read `PDL_LANG.md` at the project root. Use `pdl check file.pdl` for diagnostics and `pdl fmt file.pdl --check` before handing code back.\n<!-- /pdl-init-language-reference -->\n"@
}

/// The language-reference block that `pdl init` adds to agent files.
pub fn reference_block() -> (r: &'static str)
    ensures
        r@ == reference_block_text(),
{
    "\n<!-- pdl-init-language-reference -->\n## PDL Language Reference\n\nThis project uses PDL. Before creating or editing `.pdl` files, read `PDL_LANG.md` at the project root. Use `pdl check file.pdl` for diagnostics and `pdl fmt file.pdl --check` before handing code back.\n<!-- /pdl-init-language-reference -->\n"
}

/// Whether `needle` occurs in `hay` at offset `at`.
pub open spec fn occurs_at(hay: Seq<char>, needle: Seq<char>, at: int) -> bool {
    0 <= at && at + needle.len() <= hay.len() && hay.subrange(at, at + needle.len()) == needle
}

/// Whether `needle` occurs anywhere in `hay`.
pub open spec fn occurs_in(hay: Seq<char>, needle: Seq<char>) -> bool {
    exists|at: int| occurs_at(hay, needle, at)
}

/// Whether `needle` occurs in `hay` (`str::contains`).
pub fn str_contains(hay: &str, needle: &str) -> (r: bool)
    ensures
        r == occurs_in(hay@, needle@),
{
    let h = chars_of(hay);
    let n = chars_of(needle);
    if n.len() > h.len() {
        proof {
            assert forall|at: int| !occurs_at(hay@, needle@, at) by {}
        }
        return false;
    }
    let mut at: usize = 0;
    while at <= h.len() - n.len()
        invariant
            h@ == hay@,
            n@ == needle@,
            n.len() <= h.len(),
            at <= h.len() - n.len() + 1,
            forall|k: int| 0 <= k < at ==> !occurs_at(hay@, needle@, k),
        decreases h.len() - at,
    {
        let mut j: usize = 0;
        let mut same = true;
        while j < n.len()
            invariant
                h@ == hay@,
                n@ == needle@,
                at + n.len() <= h.len(),
                j <= n.len(),
                same == forall|q: int| 0 <= q < j ==> h@[at + q] == n@[q],
            decreases n.len() - j,
        {
            if h[at + j] != n[j] {
                same = false;
            }
            j += 1;
        }
        if same {
            assert(hay@.subrange(at as int, at + needle@.len()) =~= needle@);
            assert(occurs_at(hay@, needle@, at as int));
            return true;
        }
        proof {
            if occurs_at(hay@, needle@, at as int) {
                let q = choose|q: int| 0 <= q < n.len() && h@[at + q] != n@[q];
                assert(hay@.subrange(at as int, at + needle@.len())[q] == h@[at + q]);
            }
        }
        at += 1;
    }
    proof {
        assert forall|k: int| !occurs_at(hay@, needle@, k) by {
            if 0 <= k && k + needle@.len() <= hay@.len() {
                assert(k < at);
            }
        }
    }
    false
}

/// What `pdl init` writes into an existing agent file: nothing when it
/// already mentions the language reference (by marker or by file name),
/// else the text with a final newline ensured and the block appended.
pub open spec fn agent_file_update(existing: Seq<char>, block: Seq<char>) -> Option<Seq<char>> {
    if occurs_in(existing, reference_marker()) || occurs_in(existing, "PDL_LANG.md"@) {
        None
    } else if existing.len() > 0 && existing.last() == '\n' {
        Some(existing + block)
    } else {
        Some(existing.push('\n') + block)
    }
}

/// The new text of an existing agent file, or `None` to leave it as is.
pub fn agent_reference_update(existing: &str) -> (r: Option<String>)
    ensures
        match r {
            Some(t) => agent_file_update(existing@, reference_block_text()) == Some(t@),
            None => agent_file_update(existing@, reference_block_text()) is None,
        },
{
    if str_contains(existing, "<!-- pdl-init-language-reference -->") || str_contains(existing, "PDL_LANG.md") {
        return None;
    }
    let cs = chars_of(existing);
    let mut text = copy_str(existing);
    if !(cs.len() > 0 && cs[cs.len() - 1] == '\n') {
        push_char(&mut text, '\n');
    }
    push_str(&mut text, reference_block());
    Some(text)
}

/// The text of a new instructions file: a title heading, then the block.
pub fn new_agent_file(title: &str) -> (r: String)
    ensures
        r@ == "# "@ + title@ + reference_block_text(),
{
    let mut text = copy_str("# ");
    push_str(&mut text, title);
    push_str(&mut text, reference_block());
    text
}

/// The instruction files `pdl init` keeps, with their titles: `AGENTS.md`
/// for Codex or Antigravity. Choosing no target is refused, and so is the
/// third target, whose instruction file this build does not write.
pub open spec fn init_targets_spec(codex: bool, claude: bool, agy: bool) -> Result<Seq<(Seq<char>, Seq<char>)>, Seq<char>> {
    if !codex && !claude && !agy {
        Err("choose at least one agent target flag"@)
    } else if claude {
        Err("this build does not write the instruction file of that agent target"@)
    } else {
        Ok(seq![("AGENTS.md"@, "Agent Instructions"@)])
    }
}

pub fn init_targets(codex: bool, claude: bool, agy: bool) -> (r: Result<Vec<(&'static str, &'static str)>, String>)
    ensures
        match init_targets_spec(codex, claude, agy) {
            Ok(t) => r matches Ok(v) && v@.map_values(|p: (&'static str, &'static str)| (p.0@, p.1@)) == t,
            Err(e) => r matches Err(m) && m@ == e,
        },
{
    if !codex && !claude && !agy {
        return Err(copy_str("choose at least one agent target flag"));
    }
    if claude {
        return Err(copy_str("this build does not write the instruction file of that agent target"));
    }
    let mut targets: Vec<(&'static str, &'static str)> = Vec::new();
    targets.push(("AGENTS.md", "Agent Instructions"));
    assert(targets@.map_values(|p: (&'static str, &'static str)| (p.0@, p.1@)) =~= seq![("AGENTS.md"@, "Agent Instructions"@)]);
    Ok(targets)
}

} // verus!
