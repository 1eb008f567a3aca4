//! Diagnostic severities.
use vstd::prelude::*;

verus! {

/// How serious a diagnostic is.
#[derive(Clone, Copy, Debug, Eq, Hash, PartialEq, Structural)]
pub enum Severity {
    Error,
    Warning,
    Info,
    Hint,
}

impl Severity {
    /// The lower-case label printed before a diagnostic's code.
    pub open spec fn spec_label(self) -> Seq<char> {
        match self {
            Severity::Error => seq!['e', 'r', 'r', 'o', 'r'],
            Severity::Warning => seq!['w', 'a', 'r', 'n', 'i', 'n', 'g'],
            Severity::Info => seq!['i', 'n', 'f', 'o'],
            Severity::Hint => seq!['h', 'i', 'n', 't'],
        }
    }

    /// The lower-case label printed before a diagnostic's code.
    pub fn label(self) -> (r: &'static str)
        ensures
            r@ == self.spec_label(),
    {
        match self {
            Severity::Error => {
                proof {
                    reveal_strlit("error");
                }
                "error"
            },
            Severity::Warning => {
                proof {
                    reveal_strlit("warning");
                }
                "warning"
            },
            Severity::Info => {
                proof {
                    reveal_strlit("info");
                }
                "info"
            },
            Severity::Hint => {
                proof {
                    reveal_strlit("hint");
                }
                "hint"
            },
        }
    }

    /// Whether this is `Severity::Error`.
    pub fn is_error(self) -> (r: bool)
        ensures
            r == (self == Severity::Error),
    {
        match self {
            Severity::Error => true,
            _ => false,
        }
    }
}

} // verus!
