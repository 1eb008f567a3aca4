//! Diagnostic codes, the registry of codes PDL may report, and diagnostics.
use vstd::prelude::*;

use crate::severity::Severity;
use crate::span::Span;
use crate::text::{chars_of, copy_str, copy_string, digit, digit_char, digit_of, digit_value,
    push_char, str_eq, string_eq};

verus! {

/// The letter that opens a code of the given class: errors, warnings,
/// hints and runtime codes (`rank` 0, 1, 2, 3).
pub open spec fn class_letter(rank: int) -> char {
    if rank == 0 {
        'E'
    } else if rank == 1 {
        'W'
    } else if rank == 2 {
        'H'
    } else {
        'R'
    }
}

/// The class rank of a code's opening letter, or `-1`.
pub open spec fn class_rank(c: char) -> int {
    if c == 'E' {
        0
    } else if c == 'W' {
        1
    } else if c == 'H' {
        2
    } else if c == 'R' {
        3
    } else {
        -1
    }
}

/// The text of the code of class `rank` and number `n`: a letter and four
/// digits, such as `E1005`.
pub open spec fn code_text(rank: int, n: int) -> Seq<char> {
    seq![
        class_letter(rank),
        digit_char((n / 1000) % 10),
        digit_char((n / 100) % 10),
        digit_char((n / 10) % 10),
        digit_char(n % 10),
    ]
}

/// The registry: which numbers each class defines.
pub open spec fn registered_number(rank: int, n: int) -> bool {
    ||| rank == 0 && (
        (1 <= n <= 27) || (1001 <= n <= 1015) || (1201 <= n <= 1226) || (1230 <= n <= 1234)
        || (1301 <= n <= 1313) || (1401 <= n <= 1417) || (1501 <= n <= 1510) || (1601 <= n
        <= 1611) || (1701 <= n <= 1712) || (1801 <= n <= 1822) || (1901 <= n <= 1905) || (2001
        <= n <= 2013))
    ||| rank == 1 && 2001 <= n <= 2012
    ||| rank == 2 && 3001 <= n <= 3012
    ||| rank == 3 && 4001 <= n <= 4008
}

/// Whether `s` is the text of a registered code.
pub open spec fn is_registered_code(s: Seq<char>) -> bool {
    exists|rank: int, n: int| registered_number(rank, n) && s == code_text(rank, n)
}

/// The position of a five-character code in registry order: class first,
/// then number.
pub open spec fn code_order_key(s: Seq<char>) -> int {
    class_rank(s[0]) * 10000 + digit_value(s[1]) * 1000 + digit_value(s[2]) * 100 + digit_value(
        s[3],
    ) * 10 + digit_value(s[4])
}

proof fn lemma_digit_roundtrip(d: int)
    requires
        0 <= d < 10,
    ensures
        digit_value(digit_char(d)) == d,
{
}

proof fn lemma_digit_char_of_value(c: char)
    requires
        digit_value(c) != -1,
    ensures
        digit_char(digit_value(c)) == c,
        0 <= digit_value(c) < 10,
{
}

proof fn lemma_four_digits(n: int)
    requires
        0 <= n < 10000,
    ensures
        n == ((n / 1000) % 10) * 1000 + ((n / 100) % 10) * 100 + ((n / 10) % 10) * 10 + n % 10,
{
    assert(n == ((n / 1000) % 10) * 1000 + ((n / 100) % 10) * 100 + ((n / 10) % 10) * 10 + n % 10)
        by (nonlinear_arith)
        requires
            0 <= n < 10000,
    ;
}

proof fn lemma_compose_digits(d1: int, d2: int, d3: int, d4: int)
    requires
        0 <= d1 < 10,
        0 <= d2 < 10,
        0 <= d3 < 10,
        0 <= d4 < 10,
    ensures
        ({
            let n = d1 * 1000 + d2 * 100 + d3 * 10 + d4;
            &&& (n / 1000) % 10 == d1
            &&& (n / 100) % 10 == d2
            &&& (n / 10) % 10 == d3
            &&& n % 10 == d4
            &&& 0 <= n < 10000
        }),
{
    let n = d1 * 1000 + d2 * 100 + d3 * 10 + d4;
    assert((n / 1000) % 10 == d1 && (n / 100) % 10 == d2 && (n / 10) % 10 == d3 && n % 10 == d4)
        by (nonlinear_arith)
        requires
            0 <= d1 < 10,
            0 <= d2 < 10,
            0 <= d3 < 10,
            0 <= d4 < 10,
            n == d1 * 1000 + d2 * 100 + d3 * 10 + d4,
    ;
}

/// Code texts determine class and number, and their order key is
/// `rank * 10000 + n`.
proof fn lemma_code_text_key(rank: int, n: int)
    requires
        0 <= rank <= 3,
        0 <= n < 10000,
    ensures
        code_text(rank, n).len() == 5,
        code_order_key(code_text(rank, n)) == rank * 10000 + n,
        class_rank(code_text(rank, n)[0]) == rank,
{
    lemma_digit_roundtrip((n / 1000) % 10);
    lemma_digit_roundtrip((n / 100) % 10);
    lemma_digit_roundtrip((n / 10) % 10);
    lemma_digit_roundtrip(n % 10);
    lemma_four_digits(n);
}

/// A diagnostic code, such as `E1005`.
#[derive(Clone, Debug, Eq, Hash, Ord, PartialEq, PartialOrd)]
pub struct DiagnosticCode {
    text: String,
}

impl View for DiagnosticCode {
    type V = Seq<char>;

    closed spec fn view(&self) -> Seq<char> {
        self.text@
    }
}

impl DiagnosticCode {
    pub fn new(code: &str) -> (r: Self)
        ensures
            r@ == code@,
    {
        DiagnosticCode { text: copy_str(code) }
    }

    pub fn as_str(&self) -> (r: &str)
        ensures
            r@ == self@,
    {
        self.text.as_str()
    }

    /// Whether the code's text is `other`.
    pub fn eq_str(&self, other: &str) -> (r: bool)
        ensures
            r == (self@ == other@),
    {
        crate::text::str_eq(self.text.as_str(), other)
    }

    /// A copy of this code.
    pub fn duplicate(&self) -> (r: Self)
        ensures
            r@ == self@,
    {
        DiagnosticCode { text: copy_string(&self.text) }
    }

    /// The code of class `rank` and number `n`.
    pub fn from_parts(rank: u8, n: u16) -> (r: Self)
        requires
            rank <= 3,
            n < 10000,
        ensures
            r@ == code_text(rank as int, n as int),
    {
        let mut text = String::new();
        let letter = if rank == 0 {
            'E'
        } else if rank == 1 {
            'W'
        } else if rank == 2 {
            'H'
        } else {
            'R'
        };
        let n = n as usize;
        push_char(&mut text, letter);
        push_char(&mut text, digit((n / 1000) % 10));
        push_char(&mut text, digit((n / 100) % 10));
        push_char(&mut text, digit((n / 10) % 10));
        push_char(&mut text, digit(n % 10));
        assert(text@ =~= code_text(rank as int, n as int));
        DiagnosticCode { text }
    }

    /// The registered code whose text is `code`, if there is one.
    pub fn parse(code: &str) -> (r: Option<Self>)
        ensures
            r is Some <==> is_registered_code(code@),
            r matches Some(c) ==> c@ == code@,
    {
        let cs = chars_of(code);
        if cs.len() != 5 {
            return None;
        }
        let rank: u8 = if cs[0] == 'E' {
            0
        } else if cs[0] == 'W' {
            1
        } else if cs[0] == 'H' {
            2
        } else if cs[0] == 'R' {
            3
        } else {
            return None;
        };
        let d1 = match digit_of(cs[1]) {
            Some(d) => d,
            None => return None,
        };
        let d2 = match digit_of(cs[2]) {
            Some(d) => d,
            None => return None,
        };
        let d3 = match digit_of(cs[3]) {
            Some(d) => d,
            None => return None,
        };
        let d4 = match digit_of(cs[4]) {
            Some(d) => d,
            None => return None,
        };
        let n: u16 = d1 as u16 * 1000 + d2 as u16 * 100 + d3 as u16 * 10 + d4 as u16;
        proof {
            lemma_compose_digits(d1 as int, d2 as int, d3 as int, d4 as int);
            lemma_digit_char_of_value(cs@[1]);
            lemma_digit_char_of_value(cs@[2]);
            lemma_digit_char_of_value(cs@[3]);
            lemma_digit_char_of_value(cs@[4]);
            assert(code@ =~= code_text(rank as int, n as int));
        }
        if registered(rank, n) {
            Some(DiagnosticCode::new(code))
        } else {
            proof {
                if is_registered_code(code@) {
                    let (r2, n2) = choose|r2: int, n2: int|
                        registered_number(r2, n2) && code@ == code_text(r2, n2);
                    lemma_code_text_key(r2, n2);
                    lemma_code_text_key(rank as int, n as int);
                }
            }
            None
        }
    }
}

/// Whether class `rank` registers number `n`.
fn registered(rank: u8, n: u16) -> (r: bool)
    ensures
        r == registered_number(rank as int, n as int),
{
    if rank == 0 {
        (1 <= n && n <= 27) || (1001 <= n && n <= 1015) || (1201 <= n && n <= 1226) || (1230 <= n
            && n <= 1234) || (1301 <= n && n <= 1313) || (1401 <= n && n <= 1417) || (1501 <= n
            && n <= 1510) || (1601 <= n && n <= 1611) || (1701 <= n && n <= 1712) || (1801 <= n
            && n <= 1822) || (1901 <= n && n <= 1905) || (2001 <= n && n <= 2013)
    } else if rank == 1 {
        2001 <= n && n <= 2012
    } else if rank == 2 {
        3001 <= n && n <= 3012
    } else if rank == 3 {
        4001 <= n && n <= 4008
    } else {
        false
    }
}

spec fn pair_key(p: (int, int)) -> int {
    p.0 * 10000 + p.1
}

/// The registry built so far: `out` holds the codes `pairs` in increasing
/// order, and every registered code up to `bound` is among them.
spec fn registry_prefix(out: Seq<DiagnosticCode>, pairs: Seq<(int, int)>, bound: int) -> bool {
    &&& out.len() == pairs.len()
    &&& forall|i: int|
        0 <= i < pairs.len() ==> registered_number(#[trigger] pairs[i].0, pairs[i].1) && out[i]@
            == code_text(pairs[i].0, pairs[i].1) && pair_key(pairs[i]) <= bound
    &&& forall|i: int, j: int| 0 <= i < j < pairs.len() ==> pair_key(pairs[i]) < pair_key(pairs[j])
    &&& forall|rank: int, n: int|
        registered_number(rank, n) && rank * 10000 + n <= bound ==> exists|i: int|
            0 <= i < pairs.len() && #[trigger] pairs[i] == (rank, n)
}

fn push_range(
    out: &mut Vec<DiagnosticCode>,
    rank: u8,
    lo: u16,
    hi: u16,
    Ghost(pairs): Ghost<Seq<(int, int)>>,
    Ghost(bound): Ghost<int>,
) -> (new_pairs: Ghost<Seq<(int, int)>>)
    requires
        registry_prefix(old(out)@, pairs, bound),
        rank <= 3,
        lo <= hi < 10000,
        bound < rank * 10000 + lo,
        forall|r: int, n: int|
            registered_number(r, n) && bound < r * 10000 + n < rank * 10000 + lo ==> false,
        forall|n: int| lo <= n <= hi ==> registered_number(rank as int, n),
    ensures
        registry_prefix(final(out)@, new_pairs@, rank * 10000 + hi),
        final(out)@.len() == old(out)@.len() + hi - lo + 1,
{
    let ghost mut ps = pairs;
    let ghost start = out@.len();
    let mut n = lo;
    while n <= hi
        invariant
            lo <= n <= hi + 1,
            out@.len() == start + n - lo,
            hi < 10000,
            rank <= 3,
            registry_prefix(out@, ps, if n == lo { bound } else { rank * 10000 + n - 1 }),
            bound < rank * 10000 + lo,
            forall|r: int, m: int|
                registered_number(r, m) && bound < r * 10000 + m < rank * 10000 + lo ==> false,
            forall|m: int| lo <= m <= hi ==> registered_number(rank as int, m),
        decreases hi + 1 - n,
    {
        let code = DiagnosticCode::from_parts(rank, n);
        let ghost prev = if n == lo { bound } else { rank * 10000 + n - 1 };
        out.push(code);
        proof {
            let old_ps = ps;
            ps = ps.push((rank as int, n as int));
            assert forall|r: int, m: int|
                registered_number(r, m) && r * 10000 + m <= rank * 10000 + n implies exists|i: int|
                0 <= i < ps.len() && #[trigger] ps[i] == (r, m) by {
                if r * 10000 + m <= prev {
                    let i = choose|i: int| 0 <= i < old_ps.len() && #[trigger] old_ps[i] == (r, m);
                    assert(ps[i] == (r, m));
                } else {
                    assert(r == rank && m == n);
                    assert(ps[ps.len() - 1] == (r, m));
                }
            }
        }
        n += 1;
    }
    Ghost(ps)
}

/// `DiagnosticCode::parse` accepts exactly the codes `all_codes` lists: for
/// a list meeting `all_codes`' contract, a text is registered, which is when
/// `parse` gives `Some`, exactly when the list holds it.
pub proof fn lemma_parse_agrees_with_all_codes(listed: Seq<Seq<char>>, s: Seq<char>)
    requires
        forall|i: int| 0 <= i < listed.len() ==> #[trigger] is_registered_code(listed[i]),
        forall|t: Seq<char>| is_registered_code(t) ==> exists|i: int| 0 <= i < listed.len() && listed[i] == t,
    ensures
        is_registered_code(s) <==> listed.contains(s),
{
    if is_registered_code(s) {
        let i = choose|i: int| 0 <= i < listed.len() && listed[i] == s;
        assert(listed[i] == s);
    }
    if listed.contains(s) {
        let i = choose|i: int| 0 <= i < listed.len() && listed[i] == s;
        assert(is_registered_code(listed[i]));
    }
}

/// A code made by `DiagnosticCode::new` reads back as the text it was made
/// from, and two such codes are equal exactly when their texts are.
pub proof fn lemma_code_text_round_trip(a: DiagnosticCode, b: DiagnosticCode, s: Seq<char>, t: Seq<char>)
    requires
        a@ == s,
        b@ == t,
    ensures
        (a@ == b@) <==> (s == t),
{
}

/// Every registered diagnostic code, in registry order: errors, then
/// warnings, hints and runtime codes, each by number.
pub fn all_codes() -> (r: Vec<DiagnosticCode>)
    ensures
        forall|i: int|
            0 <= i < r.len() ==> #[trigger] is_registered_code(r@[i]@) && r@[i]@.len() == 5,
        forall|i: int, j: int|
            0 <= i < j < r.len() ==> code_order_key(r@[i]@) < code_order_key(r@[j]@),
        forall|i: int, j: int| 0 <= i < j < r.len() ==> r@[i]@ != r@[j]@,
        forall|s: Seq<char>| is_registered_code(s) ==> exists|i: int| 0 <= i < r.len() && r@[i]@ == s,
        r.len() == 208,
{
    let mut out: Vec<DiagnosticCode> = Vec::new();
    let ghost p0: Seq<(int, int)> = Seq::empty();
    let Ghost(p) = push_range(&mut out, 0, 1, 27, Ghost(p0), Ghost(-1));
    let Ghost(p) = push_range(&mut out, 0, 1001, 1015, Ghost(p), Ghost(27));
    let Ghost(p) = push_range(&mut out, 0, 1201, 1226, Ghost(p), Ghost(1015));
    let Ghost(p) = push_range(&mut out, 0, 1230, 1234, Ghost(p), Ghost(1226));
    let Ghost(p) = push_range(&mut out, 0, 1301, 1313, Ghost(p), Ghost(1234));
    let Ghost(p) = push_range(&mut out, 0, 1401, 1417, Ghost(p), Ghost(1313));
    let Ghost(p) = push_range(&mut out, 0, 1501, 1510, Ghost(p), Ghost(1417));
    let Ghost(p) = push_range(&mut out, 0, 1601, 1611, Ghost(p), Ghost(1510));
    let Ghost(p) = push_range(&mut out, 0, 1701, 1712, Ghost(p), Ghost(1611));
    let Ghost(p) = push_range(&mut out, 0, 1801, 1822, Ghost(p), Ghost(1712));
    let Ghost(p) = push_range(&mut out, 0, 1901, 1905, Ghost(p), Ghost(1822));
    let Ghost(p) = push_range(&mut out, 0, 2001, 2013, Ghost(p), Ghost(1905));
    let Ghost(p) = push_range(&mut out, 1, 2001, 2012, Ghost(p), Ghost(2013));
    let Ghost(p) = push_range(&mut out, 2, 3001, 3012, Ghost(p), Ghost(12012));
    let Ghost(p) = push_range(&mut out, 3, 4001, 4008, Ghost(p), Ghost(23012));
    proof {
        assert forall|i: int| 0 <= i < out.len() implies #[trigger] is_registered_code(out@[i]@)
            && out@[i]@.len() == 5 by {
            assert(registered_number(p[i].0, p[i].1) && out@[i]@ == code_text(p[i].0, p[i].1));
        }
        assert forall|i: int, j: int|
            0 <= i < j < out.len() implies code_order_key(out@[i]@) < code_order_key(
            out@[j]@) && out@[i]@ != out@[j]@ by {
            lemma_code_text_key(p[i].0, p[i].1);
            lemma_code_text_key(p[j].0, p[j].1);
        }
        assert forall|s: Seq<char>| is_registered_code(s) implies exists|i: int|
            0 <= i < out.len() && out@[i]@ == s by {
            let (r2, n2) = choose|r2: int, n2: int|
                registered_number(r2, n2) && s == code_text(r2, n2);
            let i = choose|i: int| 0 <= i < p.len() && #[trigger] p[i] == (r2, n2);
            assert(out@[i]@ == s);
        }
    }
    out
}

/// A secondary location that a diagnostic points at, with a note.
#[derive(Clone, Debug, Eq, PartialEq)]
pub struct RelatedSpan {
    pub span: Span,
    pub message: String,
}

/// A located message with a severity and a registered code.
#[derive(Clone, Debug, Eq, PartialEq)]
pub struct Diagnostic {
    pub severity: Severity,
    pub code: DiagnosticCode,
    pub message: String,
    pub span: Span,
    pub related: Vec<RelatedSpan>,
    pub help: Option<String>,
}

/// What a diagnostic says, as plain values.
pub struct DiagnosticView {
    pub severity: Severity,
    pub code: Seq<char>,
    pub message: Seq<char>,
    pub span: Span,
    pub related: Seq<(Span, Seq<char>)>,
    pub help: Option<Seq<char>>,
}

pub open spec fn related_view(r: RelatedSpan) -> (Span, Seq<char>) {
    (r.span, r.message@)
}

pub open spec fn option_string_view(o: Option<String>) -> Option<Seq<char>> {
    match o {
        Some(s) => Some(s@),
        None => None,
    }
}

impl View for Diagnostic {
    type V = DiagnosticView;

    open spec fn view(&self) -> DiagnosticView {
        DiagnosticView {
            severity: self.severity,
            code: self.code@,
            message: self.message@,
            span: self.span,
            related: self.related@.map_values(|r: RelatedSpan| related_view(r)),
            help: option_string_view(self.help),
        }
    }
}

impl Diagnostic {
    pub fn new(severity: Severity, code: DiagnosticCode, message: &str, span: Span) -> (r: Self)
        ensures
            r@ == (DiagnosticView {
                severity,
                code: code@,
                message: message@,
                span,
                related: Seq::empty(),
                help: None,
            }),
    {
        let d = Diagnostic {
            severity,
            code,
            message: copy_str(message),
            span,
            related: Vec::new(),
            help: None,
        };
        assert(d.related@.map_values(|r: RelatedSpan| related_view(r)) =~= Seq::empty());
        d
    }

    pub fn error(code: DiagnosticCode, message: &str, span: Span) -> (r: Self)
        ensures
            r@ == (DiagnosticView {
                severity: Severity::Error,
                code: code@,
                message: message@,
                span,
                related: Seq::empty(),
                help: None,
            }),
    {
        Self::new(Severity::Error, code, message, span)
    }

    pub fn warning(code: DiagnosticCode, message: &str, span: Span) -> (r: Self)
        ensures
            r@ == (DiagnosticView {
                severity: Severity::Warning,
                code: code@,
                message: message@,
                span,
                related: Seq::empty(),
                help: None,
            }),
    {
        Self::new(Severity::Warning, code, message, span)
    }

    pub fn info(code: DiagnosticCode, message: &str, span: Span) -> (r: Self)
        ensures
            r@ == (DiagnosticView {
                severity: Severity::Info,
                code: code@,
                message: message@,
                span,
                related: Seq::empty(),
                help: None,
            }),
    {
        Self::new(Severity::Info, code, message, span)
    }

    pub fn hint(code: DiagnosticCode, message: &str, span: Span) -> (r: Self)
        ensures
            r@ == (DiagnosticView {
                severity: Severity::Hint,
                code: code@,
                message: message@,
                span,
                related: Seq::empty(),
                help: None,
            }),
    {
        Self::new(Severity::Hint, code, message, span)
    }

    /// Adds a related location with a note after the existing ones.
    pub fn with_related(self, span: Span, message: &str) -> (r: Self)
        ensures
            r@ == (DiagnosticView { related: self@.related.push((span, message@)), ..self@ }),
    {
        let mut d = self;
        let ghost before = d.related@;
        d.related.push(RelatedSpan { span, message: copy_str(message) });
        assert(d.related@.map_values(|r: RelatedSpan| related_view(r)) =~= before.map_values(
            |r: RelatedSpan| related_view(r),
        ).push((span, message@)));
        d
    }

    /// Sets the help text, replacing any earlier one.
    pub fn with_help(self, help: &str) -> (r: Self)
        ensures
            r@ == (DiagnosticView { help: Some(help@), ..self@ }),
    {
        let mut d = self;
        d.help = Some(copy_str(help));
        d
    }

    /// A copy of this diagnostic.
    pub fn duplicate(&self) -> (r: Self)
        ensures
            r@ == self@,
    {
        let mut related: Vec<RelatedSpan> = Vec::new();
        let mut i: usize = 0;
        while i < self.related.len()
            invariant
                i <= self.related.len(),
                related@.len() == i,
                forall|j: int| 0 <= j < i ==> #[trigger] related_view(related@[j]) == related_view(self.related@[j]),
            decreases self.related.len() - i,
        {
            let item = &self.related[i];
            related.push(RelatedSpan { span: item.span, message: copy_string(&item.message) });
            i += 1;
        }
        let help = match &self.help {
            Some(h) => Some(copy_string(h)),
            None => None,
        };
        let d = Diagnostic {
            severity: self.severity,
            code: self.code.duplicate(),
            message: copy_string(&self.message),
            span: self.span,
            related,
            help,
        };
        assert(d.related@.map_values(|r: RelatedSpan| related_view(r)) =~= self.related@.map_values(
            |r: RelatedSpan| related_view(r),
        ));
        d
    }

    /// Whether two diagnostics say the same thing.
    pub fn same_as(&self, other: &Diagnostic) -> (r: bool)
        ensures
            r == (self@ == other@),
    {
        if self.severity != other.severity || self.span != other.span {
            return false;
        }
        if !str_eq(self.code.as_str(), other.code.as_str()) {
            return false;
        }
        if !string_eq(&self.message, &other.message) {
            return false;
        }
        let help_same = match (&self.help, &other.help) {
            (Some(a), Some(b)) => string_eq(a, b),
            (None, None) => true,
            _ => false,
        };
        if !help_same {
            return false;
        }
        let ghost ra = self.related@.map_values(|r: RelatedSpan| related_view(r));
        let ghost rb = other.related@.map_values(|r: RelatedSpan| related_view(r));
        if self.related.len() != other.related.len() {
            assert(ra.len() != rb.len());
            return false;
        }
        let mut i: usize = 0;
        while i < self.related.len()
            invariant
                self.related.len() == other.related.len(),
                i <= self.related.len(),
                ra == self.related@.map_values(|r: RelatedSpan| related_view(r)),
                rb == other.related@.map_values(|r: RelatedSpan| related_view(r)),
                forall|j: int| 0 <= j < i ==> ra[j] == rb[j],
            decreases self.related.len() - i,
        {
            let a = &self.related[i];
            let b = &other.related[i];
            if a.span != b.span || !string_eq(&a.message, &b.message) {
                assert(ra[i as int] != rb[i as int]);
                return false;
            }
            i += 1;
        }
        assert(ra =~= rb);
        true
    }
}

/// Whether any diagnostic is an error.
pub fn has_errors(diagnostics: &[Diagnostic]) -> (r: bool)
    ensures
        r == exists|i: int| 0 <= i < diagnostics.len() && diagnostics@[i].severity == Severity::Error,
{
    let mut i: usize = 0;
    while i < diagnostics.len()
        invariant
            i <= diagnostics.len(),
            forall|j: int| 0 <= j < i ==> diagnostics@[j].severity != Severity::Error,
        decreases diagnostics.len() - i,
    {
        if diagnostics[i].severity.is_error() {
            return true;
        }
        i += 1;
    }
    false
}

} // verus!
