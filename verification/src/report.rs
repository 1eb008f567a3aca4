//! The preparation report: every diagnostic of a preparation run, tagged
//! with the phase that produced it, in the order they were produced.
use vstd::prelude::*;

use crate::diagnostic::{Diagnostic, DiagnosticView};

verus! {

/// The phase of preparation a diagnostic comes from.
#[derive(Clone, Copy, Debug, Eq, PartialEq, Structural)]
pub enum ReportPhase {
    Parse,
    SourceResolution,
    SchemaFacts,
    Semantic,
    Planning,
    Execution,
    Output,
}

/// One diagnostic with its phase.
#[derive(Clone, Debug, Eq, PartialEq)]
pub struct PhaseDiagnostic {
    pub phase: ReportPhase,
    pub diagnostic: Diagnostic,
}

/// The diagnostics of a preparation run, in order.
#[derive(Clone, Debug, Eq, PartialEq)]
pub struct PreparationReport {
    pub diagnostics: Vec<PhaseDiagnostic>,
}

pub open spec fn entry_view(e: PhaseDiagnostic) -> (ReportPhase, DiagnosticView) {
    (e.phase, e.diagnostic@)
}

impl View for PreparationReport {
    type V = Seq<(ReportPhase, DiagnosticView)>;

    open spec fn view(&self) -> Seq<(ReportPhase, DiagnosticView)> {
        self.diagnostics@.map_values(|e: PhaseDiagnostic| entry_view(e))
    }
}

/// The diagnostics of tagged entries, without their phases.
pub open spec fn untagged(entries: Seq<(ReportPhase, DiagnosticView)>) -> Seq<DiagnosticView> {
    entries.map_values(|e: (ReportPhase, DiagnosticView)| e.1)
}

/// Diagnostics tagged with one phase.
pub open spec fn tagged(phase: ReportPhase, ds: Seq<DiagnosticView>) -> Seq<(ReportPhase, DiagnosticView)> {
    ds.map_values(|d: DiagnosticView| (phase, d))
}

pub open spec fn diagnostics_view(ds: Seq<Diagnostic>) -> Seq<DiagnosticView> {
    ds.map_values(|d: Diagnostic| d@)
}

impl Default for PreparationReport {
    fn default() -> (r: Self)
        ensures
            r@ == Seq::<(ReportPhase, DiagnosticView)>::empty(),
    {
        let r = PreparationReport { diagnostics: Vec::new() };
        assert(r@ =~= Seq::<(ReportPhase, DiagnosticView)>::empty());
        r
    }
}

impl PreparationReport {
    /// Appends one diagnostic under `phase`.
    pub fn push(&mut self, phase: ReportPhase, diagnostic: Diagnostic)
        ensures
            final(self)@ == old(self)@.push((phase, diagnostic@)),
    {
        let ghost before = self@;
        self.diagnostics.push(PhaseDiagnostic { phase, diagnostic });
        assert(self@ =~= before.push((phase, diagnostic@)));
    }

    /// Appends diagnostics under `phase`, keeping their order.
    pub fn extend(&mut self, phase: ReportPhase, diagnostics: Vec<Diagnostic>)
        ensures
            final(self)@ == old(self)@ + tagged(phase, diagnostics_view(diagnostics@)),
    {
        let ghost before = self@;
        let ghost incoming = diagnostics_view(diagnostics@);
        let n = diagnostics.len();
        let mut i: usize = 0;
        while i < n
            invariant
                i <= n,
                n == diagnostics.len(),
                incoming == diagnostics_view(diagnostics@),
                self@ == before + tagged(phase, incoming.take(i as int)),
            decreases n - i,
        {
            let d = diagnostics[i].duplicate();
            self.push(phase, d);
            i += 1;
            proof {
                assert(tagged(phase, incoming.take(i as int)) =~= tagged(phase, incoming.take(i - 1)).push(
                    (phase, incoming[i - 1]),
                ));
            }
        }
        assert(incoming.take(n as int) =~= incoming);
    }

    /// The diagnostics without their phases, in report order.
    pub fn diagnostics(&self) -> (r: Vec<Diagnostic>)
        ensures
            diagnostics_view(r@) == untagged(self@),
    {
        let mut out: Vec<Diagnostic> = Vec::new();
        let mut i: usize = 0;
        while i < self.diagnostics.len()
            invariant
                i <= self.diagnostics.len(),
                out.len() == i,
                forall|k: int| 0 <= k < i ==> (#[trigger] out@[k])@ == self.diagnostics@[k].diagnostic@,
            decreases self.diagnostics.len() - i,
        {
            out.push(self.diagnostics[i].diagnostic.duplicate());
            i += 1;
        }
        assert(diagnostics_view(out@) =~= untagged(self@));
        out
    }
}

/// The report keeps production order: after diagnostics are extended under
/// one phase, the untagged diagnostics are the earlier ones followed by the
/// new ones in their own order.
pub proof fn lemma_extend_keeps_order(
    before: Seq<(ReportPhase, DiagnosticView)>,
    phase: ReportPhase,
    added: Seq<DiagnosticView>,
)
    ensures
        untagged(before + tagged(phase, added)) == untagged(before) + added,
        forall|k: int|
            before.len() <= k < before.len() + added.len() ==> (#[trigger] (before + tagged(phase, added))[k]).0
                == phase,
{
    assert(untagged(before + tagged(phase, added)) =~= untagged(before) + added);
}

} // verus!
