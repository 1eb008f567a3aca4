//! Scalar functions of data expressions, applied to the values that their
//! arguments evaluated to.
use vstd::arithmetic::power2::{lemma2_to64, lemma_pow2_adds, pow2};
use vstd::prelude::*;

use crate::codes::{E1302, E1402, E1403, E1406};
use crate::diagnostic::{code_text, Diagnostic, DiagnosticView};
use crate::engine::DataScalarFunction;
use crate::readers::{trim_spec, trimmed};
use crate::severity::Severity;
use crate::span::Span;
use crate::temporal::{
    date_text, floor_date_spec, floor_temporal, format_spec, format_temporal,
    lemma_parse_temporal_functional, normalize_date, normalize_datetime, parse_temporal,
    parse_temporal_unit, pattern_check, rfc3339_of, temporal_day, temporal_month, temporal_of,
    temporal_unit_spec, temporal_year, validate_format_pattern, value_date, TemporalValue,
};
use crate::text::{chars_of, push_signed_decimal, signed_decimal, str_eq};
use crate::value::{cell_text, optional_text, Value, ValueView};

verus! {

// ---------------------------------------------------------------------------
// Integers as binary64 numbers
// ---------------------------------------------------------------------------

/// The position of the highest set bit of a positive number.
pub open spec fn high_bit(m: nat) -> nat
    decreases m,
{
    if m < 2 {
        0
    } else {
        1 + high_bit(m / 2)
    }
}

/// The binary64 bit pattern of an integer whose magnitude is below 2^53,
/// which binary64 holds exactly: sign, biased exponent of the highest set
/// bit, and the bits below it as the fraction.
pub open spec fn binary64_of_int(n: int) -> nat {
    let m: nat = if n < 0 { (-n) as nat } else { n as nat };
    let k = high_bit(m);
    let sign: nat = if n < 0 { pow2(63) } else { 0 };
    if n == 0 {
        0
    } else {
        sign + (1023 + k) * pow2(52) + (m - pow2(k)) as nat * pow2((52 - k) as nat)
    }
}

proof fn lemma_high_bit_step(m: nat, p: nat)
    requires
        0 < p,
        2 * p <= m,
    ensures
        high_bit(m / p) == 1 + high_bit(m / (p * 2)),
{
    vstd::arithmetic::div_mod::lemma_div_denominator(m as int, p as int, 2);
    assert(m / p >= 2) by (nonlinear_arith)
        requires
            0 < p,
            2 * p <= m,
    ;
}

/// The binary64 bit pattern of an integer of magnitude below 2^53, as
/// `(n as f64).to_bits()` gives it.
pub fn binary64_bits(n: i64) -> (r: u64)
    requires
        -9007199254740992 < n < 9007199254740992,
    ensures
        r as nat == binary64_of_int(n as int),
{
    if n == 0 {
        return 0;
    }
    proof {
        lemma2_to64();
        vstd::arithmetic::power2::lemma2_to64_rest();
    }
    let m: u64 = if n < 0 { (0i64 - n) as u64 } else { n as u64 };
    let ghost mn: nat = m as nat;
    assert(mn == if n < 0 { (-(n as int)) as nat } else { n as nat });
    let mut k: u64 = 0;
    let mut p: u64 = 1;
    while p <= m / 2
        invariant
            1 <= p <= m,
            m < 9007199254740992,
            p as nat == pow2(k as nat),
            k <= 52,
            high_bit(mn) == k + high_bit(mn / (p as nat)),
            mn == m,
            pow2(52) == 4503599627370496,
        decreases m - p,
    {
        proof {
            lemma_high_bit_step(mn, p as nat);
            if k == 52 {
                assert(false);
            }
        }
        p = p * 2;
        k = k + 1;
        proof {
            vstd::arithmetic::power2::lemma_pow2_unfold(k as nat);
        }
    }
    assert(mn / (p as nat) == 1) by (nonlinear_arith)
        requires
            1 <= p <= m,
            m < 2 * p,
            mn == m,
    ;
    let mut scale: u64 = 1;
    let mut i: u64 = 0;
    while i < 52 - k
        invariant
            i <= 52 - k,
            k <= 52,
            scale as nat == pow2(i as nat),
            pow2(52) == 4503599627370496,
        decreases 52 - k - i,
    {
        proof {
            vstd::arithmetic::power2::lemma_pow2_unfold((i + 1) as nat);
            if i + 1 < 52 {
                vstd::arithmetic::power2::lemma_pow2_strictly_increases((i + 1) as nat, 52);
            }
        }
        scale = scale * 2;
        i = i + 1;
    }
    proof {
        lemma_pow2_adds(k as nat, (52 - k) as nat);
        assert((m - p) * scale < 4503599627370496) by (nonlinear_arith)
            requires
                m - p < p,
                p * scale == 4503599627370496,
        ;
    }
    let fraction: u64 = (m - p) * scale;
    let magnitude: u64 = (1023 + k) * 4503599627370496 + fraction;
    proof {
        assert(high_bit(1) == 0);
        assert(high_bit(mn) == k);
        assert(i == 52 - k);
        assert(magnitude as nat == (1023 + k) * pow2(52) + (mn - pow2(high_bit(mn))) as nat * pow2((52 - high_bit(mn)) as nat));
    }
    if n < 0 {
        9223372036854775808 + magnitude
    } else {
        magnitude
    }
}

// ---------------------------------------------------------------------------
// Text predicates and replacement
// ---------------------------------------------------------------------------

/// Whether `p` starts `s` (`str::starts_with`).
pub open spec fn starts_with_spec(s: Seq<char>, p: Seq<char>) -> bool {
    p.len() <= s.len() && s.take(p.len() as int) == p
}

/// Whether `p` occurs in `s` (`str::contains`); the empty text occurs in
/// every text.
pub open spec fn contains_spec(s: Seq<char>, p: Seq<char>) -> bool {
    exists|i: int| 0 <= i && i + p.len() <= s.len() && #[trigger] s.subrange(i, i + p.len()) == p
}

/// `s` with every occurrence of `p` replaced by `r`, leftmost first and
/// without overlaps (`str::replace`). The empty pattern occurs before
/// every character and at the end.
pub open spec fn replace_spec(s: Seq<char>, p: Seq<char>, r: Seq<char>) -> Seq<char>
    decreases s.len(),
{
    if p.len() == 0 {
        if s.len() == 0 {
            r
        } else {
            r + seq![s[0]] + replace_spec(s.drop_first(), p, r)
        }
    } else if s.len() < p.len() {
        s
    } else if s.take(p.len() as int) == p {
        r + replace_spec(s.skip(p.len() as int), p, r)
    } else {
        seq![s[0]] + replace_spec(s.drop_first(), p, r)
    }
}

fn matches_at(s: &Vec<char>, p: &Vec<char>, i: usize) -> (r: bool)
    requires
        i <= s.len(),
    ensures
        r == (i + p.len() <= s.len() && s@.subrange(i as int, i + p.len()) == p@),
{
    if p.len() > s.len() - i {
        return false;
    }
    let mut j: usize = 0;
    while j < p.len()
        invariant
            j <= p.len(),
            i + p.len() <= s.len(),
            forall|t: int| 0 <= t < j ==> s@[i + t] == p@[t],
        decreases p.len() - j,
    {
        if s[i + j] != p[j] {
            assert(s@.subrange(i as int, i + p.len())[j as int] != p@[j as int]);
            return false;
        }
        j += 1;
    }
    assert(s@.subrange(i as int, i + p.len()) =~= p@);
    true
}

/// Whether `pattern` starts `text`.
pub fn text_starts_with(text: &str, pattern: &str) -> (r: bool)
    ensures
        r == starts_with_spec(text@, pattern@),
{
    let s = chars_of(text);
    let p = chars_of(pattern);
    let r = matches_at(&s, &p, 0);
    proof {
        if p.len() <= s.len() {
            assert(s@.subrange(0, p.len() as int) =~= s@.take(p.len() as int));
        }
    }
    r
}

/// Whether `pattern` occurs in `text`.
pub fn text_contains(text: &str, pattern: &str) -> (r: bool)
    ensures
        r == contains_spec(text@, pattern@),
{
    let s = chars_of(text);
    let p = chars_of(pattern);
    if p.len() > s.len() {
        return false;
    }
    let mut i: usize = 0;
    loop
        invariant
            s@ == text@,
            p@ == pattern@,
            p.len() <= s.len(),
            i <= s.len() - p.len(),
            forall|t: int| 0 <= t < i ==> #[trigger] s@.subrange(t, t + p.len()) != p@,
        decreases s.len() - p.len() - i,
    {
        if matches_at(&s, &p, i) {
            assert(text@.subrange(i as int, i + pattern@.len()) == pattern@);
            return true;
        }
        if i == s.len() - p.len() {
            assert forall|t: int| 0 <= t && t + pattern@.len() <= text@.len() implies #[trigger] text@.subrange(t, t + pattern@.len()) != pattern@ by {
                assert(t <= i);
                assert(s@.subrange(t, t + p.len()) != p@);
            }
            return false;
        }
        i += 1;
    }
}

/// `text` with every occurrence of `pattern` replaced by `replacement`.
pub fn text_replace(text: &str, pattern: &str, replacement: &str) -> (r: String)
    ensures
        r@ == replace_spec(text@, pattern@, replacement@),
{
    let s = chars_of(text);
    let p = chars_of(pattern);
    let mut out = String::new();
    let mut i: usize = 0;
    assert(s@.skip(0) =~= s@);
    assert(out@ + replace_spec(s@, p@, replacement@) =~= replace_spec(s@, p@, replacement@));
    if p.len() == 0 {
        while i < s.len()
            invariant
                i <= s.len(),
                p@.len() == 0,
                out@ + replace_spec(s@.skip(i as int), p@, replacement@) == replace_spec(s@, p@, replacement@),
            decreases s.len() - i,
        {
            proof {
                assert(s@.skip(i as int).drop_first() =~= s@.skip(i + 1));
                assert(out@ + (replacement@ + seq![s@[i as int]]) + replace_spec(s@.skip(i + 1), p@, replacement@)
                    =~= out@ + replace_spec(s@.skip(i as int), p@, replacement@));
            }
            out.append(replacement);
            crate::text::push_char(&mut out, s[i]);
            i += 1;
        }
        assert(s@.skip(i as int) =~= Seq::<char>::empty());
        out.append(replacement);
        return out;
    }
    while i < s.len()
        invariant
            i <= s.len(),
            p@.len() > 0,
            out@ + replace_spec(s@.skip(i as int), p@, replacement@) == replace_spec(s@, p@, replacement@),
        decreases s.len() - i,
    {
        let ghost rest = s@.skip(i as int);
        if matches_at(&s, &p, i) {
            proof {
                assert(rest.take(p.len() as int) =~= s@.subrange(i as int, i + p.len()));
                assert(rest.skip(p.len() as int) =~= s@.skip(i + p.len()));
                assert(out@ + replacement@ + replace_spec(s@.skip(i + p.len()), p@, replacement@)
                    =~= out@ + replace_spec(rest, p@, replacement@));
            }
            out.append(replacement);
            i += p.len();
        } else {
            proof {
                if rest.len() >= p.len() {
                    assert(rest.take(p.len() as int) =~= s@.subrange(i as int, i + p.len()));
                }
                assert(rest.drop_first() =~= s@.skip(i + 1));
                if rest.len() < p.len() {
                    let tail = replace_spec(rest.drop_first(), p@, replacement@);
                    assert(rest.drop_first().len() < p.len());
                    assert(tail == rest.drop_first());
                    assert(seq![rest[0]] + rest.drop_first() =~= rest);
                }
                assert(out@.push(s@[i as int]) + replace_spec(s@.skip(i + 1), p@, replacement@)
                    =~= out@ + replace_spec(rest, p@, replacement@));
            }
            crate::text::push_char(&mut out, s[i]);
            i += 1;
        }
    }
    proof {
        assert(s@.skip(i as int) =~= Seq::<char>::empty());
        assert(replace_spec(Seq::<char>::empty(), p@, replacement@) == Seq::<char>::empty());
        assert(out@ + Seq::<char>::empty() =~= out@);
    }
    out
}

// ---------------------------------------------------------------------------
// Case mapping
// ---------------------------------------------------------------------------

/// The text that std's `str::to_lowercase` gives: the Unicode lowercase
/// mapping, with a final capital sigma taken by its context.
pub uninterp spec fn lowercase_of(text: Seq<char>) -> Seq<char>;

/// The text that std's `str::to_uppercase` gives: the Unicode uppercase
/// mapping, where one character may become several.
pub uninterp spec fn uppercase_of(text: Seq<char>) -> Seq<char>;

/// Calls std's `str::to_lowercase`; the contract names its result.
#[verifier::external_body]
fn str_to_lowercase(text: &str) -> (r: String)
    ensures
        r@ == lowercase_of(text@),
{
    text.to_lowercase()
}

/// Calls std's `str::to_uppercase`; the contract names its result.
#[verifier::external_body]
fn str_to_uppercase(text: &str) -> (r: String)
    ensures
        r@ == uppercase_of(text@),
{
    text.to_uppercase()
}

// ---------------------------------------------------------------------------
// Applying a scalar function
// ---------------------------------------------------------------------------

/// What applying a scalar function gives: a value, or the binary64 step
/// that finishes it, which the caller computes in floating point.
#[derive(Debug)]
pub enum ScalarOutcome {
    Value(Value),
    /// The absolute value of this number.
    Abs(u64),
    /// This number rounded to `digits` decimal places, with a zero result
    /// made positive.
    Round { bits: u64, digits: u32 },
    /// The text read as a binary64 number, or null where it is none.
    ParseNumber(String),
}

pub enum ScalarOutcomeView {
    Value(ValueView),
    Abs(u64),
    Round(u64, u32),
    ParseNumber(Seq<char>),
}

impl View for ScalarOutcome {
    type V = ScalarOutcomeView;

    open spec fn view(&self) -> ScalarOutcomeView {
        match self {
            ScalarOutcome::Value(v) => ScalarOutcomeView::Value(v@),
            ScalarOutcome::Abs(b) => ScalarOutcomeView::Abs(*b),
            ScalarOutcome::Round { bits, digits } => ScalarOutcomeView::Round(*bits, *digits),
            ScalarOutcome::ParseNumber(t) => ScalarOutcomeView::ParseNumber(t@),
        }
    }
}

pub open spec fn arg_view(a: Result<Value, Diagnostic>) -> Result<ValueView, DiagnosticView> {
    match a {
        Ok(v) => Ok(v@),
        Err(e) => Err(e@),
    }
}

pub open spec fn args_view(args: Seq<Result<Value, Diagnostic>>) -> Seq<Result<ValueView, DiagnosticView>> {
    args.map_values(|a: Result<Value, Diagnostic>| arg_view(a))
}

pub open spec fn call_view(r: Result<ScalarOutcome, Diagnostic>) -> Result<ScalarOutcomeView, DiagnosticView> {
    match r {
        Ok(o) => Ok(o@),
        Err(e) => Err(e@),
    }
}

/// An error diagnostic with code `E<n>` at the zero span.
pub open spec fn error_view(n: int, message: Seq<char>) -> DiagnosticView {
    DiagnosticView {
        severity: Severity::Error,
        code: code_text(0, n),
        message,
        span: Span { start: 0, end: 0 },
        related: Seq::empty(),
        help: None,
    }
}

pub open spec fn lift(r: Result<ValueView, DiagnosticView>) -> Result<ScalarOutcomeView, DiagnosticView> {
    match r {
        Ok(v) => Ok(ScalarOutcomeView::Value(v)),
        Err(e) => Err(e),
    }
}

/// The first argument that is not null, or null; an argument that failed
/// before one is found fails the call.
pub open spec fn coalesce_spec(args: Seq<Result<ValueView, DiagnosticView>>) -> Result<ValueView, DiagnosticView>
    decreases args.len(),
{
    if args.len() == 0 {
        Ok(ValueView::Null)
    } else {
        match args[0] {
            Err(e) => Err(e),
            Ok(v) => if v is Null {
                coalesce_spec(args.drop_first())
            } else {
                Ok(v)
            },
        }
    }
}

/// The cell texts of the arguments joined, nulls adding nothing; the first
/// argument that failed fails the call.
pub open spec fn concat_spec(args: Seq<Result<ValueView, DiagnosticView>>) -> Result<Seq<char>, DiagnosticView>
    decreases args.len(),
{
    if args.len() == 0 {
        Ok(Seq::empty())
    } else {
        match args[0] {
            Err(e) => Err(e),
            Ok(v) => match concat_spec(args.drop_first()) {
                Err(e) => Err(e),
                Ok(t) => Ok(cell_text(v) + t),
            },
        }
    }
}

/// The temporal value that a value's text parses to.
pub open spec fn parsed_value(v: ValueView) -> Option<TemporalValue> {
    match optional_text(v) {
        Some(t) => temporal_of(t),
        None => None,
    }
}

/// A number holding an integer: its binary64 bits and its decimal text.
pub open spec fn integer_number(n: int) -> ValueView {
    ValueView::Number(binary64_of_int(n) as u64, signed_decimal(n))
}

/// A value with `f` applied to its text; null stays null.
pub open spec fn map_text_spec(v: ValueView, mapped: Seq<char>) -> ValueView {
    if v is Null {
        ValueView::Null
    } else {
        ValueView::String(mapped)
    }
}

/// The floored value rendered: a datetime as RFC 3339 where chrono renders
/// it, otherwise the floored date.
pub open spec fn floored_text(tv: TemporalValue, unit: crate::temporal::TemporalUnit) -> Seq<char> {
    let f = floor_date_spec(value_date(tv), unit);
    match tv {
        TemporalValue::Date(_) => date_text(f),
        TemporalValue::DateTime(t) => match rfc3339_of((f.0, f.1, f.2, 0, 0, 0, 0, t.parts().7)) {
            Some(s) => s,
            None => date_text(f),
        },
    }
}

/// What a function of one argument gives for the argument's value.
pub open spec fn unary_spec(f: DataScalarFunction, v: ValueView) -> Result<ScalarOutcomeView, DiagnosticView> {
    let value = |x: ValueView| Ok(ScalarOutcomeView::Value(x));
    match f {
        DataScalarFunction::IsNull => value(ValueView::Bool(v is Null)),
        DataScalarFunction::NotNull => value(ValueView::Bool(!(v is Null))),
        DataScalarFunction::Lower => value(map_text_spec(v, lowercase_of(cell_text(v)))),
        DataScalarFunction::Upper => value(map_text_spec(v, uppercase_of(cell_text(v)))),
        DataScalarFunction::Trim => value(map_text_spec(v, trim_spec(cell_text(v)))),
        DataScalarFunction::ToString => value(map_text_spec(v, cell_text(v))),
        DataScalarFunction::ToNumber => match v {
            ValueView::Null => value(ValueView::Null),
            ValueView::Number(..) => value(v),
            _ => Ok(ScalarOutcomeView::ParseNumber(trim_spec(cell_text(v)))),
        },
        DataScalarFunction::ToBoolean => match v {
            ValueView::Null => value(ValueView::Null),
            ValueView::Bool(_) => value(v),
            _ => {
                let t = trim_spec(cell_text(v));
                value(
                    if t == "true"@ {
                        ValueView::Bool(true)
                    } else if t == "false"@ {
                        ValueView::Bool(false)
                    } else {
                        ValueView::Null
                    },
                )
            },
        },
        DataScalarFunction::Abs => match v {
            ValueView::Null => value(ValueView::Null),
            ValueView::Number(bits, _) => Ok(ScalarOutcomeView::Abs(bits)),
            _ => Err(error_view(1302, "abs() requires a number"@)),
        },
        DataScalarFunction::Round { digits } => match v {
            ValueView::Null => value(ValueView::Null),
            ValueView::Number(bits, _) => Ok(ScalarOutcomeView::Round(bits, digits)),
            _ => Err(error_view(1302, "round() requires a number"@)),
        },
        DataScalarFunction::Date => value(
            match parsed_value(v) {
                Some(tv) => ValueView::String(date_text(value_date(tv))),
                None => ValueView::Null,
            },
        ),
        DataScalarFunction::Datetime => value(
            match parsed_value(v) {
                Some(TemporalValue::DateTime(t)) => match rfc3339_of(t.parts()) {
                    Some(s) => ValueView::String(s),
                    None => ValueView::Null,
                },
                _ => ValueView::Null,
            },
        ),
        DataScalarFunction::Year => value(
            match parsed_value(v) {
                Some(tv) => integer_number(value_date(tv).0),
                None => ValueView::Null,
            },
        ),
        DataScalarFunction::Month => value(
            match parsed_value(v) {
                Some(tv) => integer_number(value_date(tv).1),
                None => ValueView::Null,
            },
        ),
        DataScalarFunction::Day => value(
            match parsed_value(v) {
                Some(tv) => integer_number(value_date(tv).2),
                None => ValueView::Null,
            },
        ),
        _ => value(ValueView::Null),
    }
}

/// Whether a function takes exactly one argument.
pub open spec fn is_unary(f: DataScalarFunction) -> bool {
    !(f is Coalesce || f is Concat || f is IfElse || f is Contains || f is StartsWith || f is Replace
        || f is DateFloor || f is DateFormat)
}

/// What applying a scalar function to the results of evaluating its
/// arguments gives. Arguments are read in the order the function evaluates
/// them; one that failed fails the call only where it is read.
pub open spec fn scalar_call_spec(f: DataScalarFunction, args: Seq<Result<ValueView, DiagnosticView>>) -> Result<ScalarOutcomeView, DiagnosticView> {
    let value = |x: ValueView| Ok(ScalarOutcomeView::Value(x));
    match f {
        DataScalarFunction::Coalesce => lift(coalesce_spec(args)),
        DataScalarFunction::Concat => match concat_spec(args) {
            Ok(t) => value(ValueView::String(t)),
            Err(e) => Err(e),
        },
        DataScalarFunction::IfElse => if args.len() != 3 {
            Err(error_view(1402, "if_else() expects three arguments"@))
        } else {
            match args[0] {
                Err(e) => Err(e),
                Ok(ValueView::Bool(true)) => lift(args[1]),
                Ok(ValueView::Bool(false)) => lift(args[2]),
                Ok(ValueView::Null) => value(ValueView::Null),
                Ok(_) => Err(error_view(1302, "if_else() condition requires a boolean"@)),
            }
        },
        DataScalarFunction::Contains | DataScalarFunction::StartsWith => if args.len() != 2 {
            Err(error_view(1402, "text predicate expects two arguments"@))
        } else {
            match (args[0], args[1]) {
                (Err(e), _) => Err(e),
                (Ok(_), Err(e)) => Err(e),
                (Ok(a), Ok(b)) => value(
                    match (optional_text(a), optional_text(b)) {
                        (Some(s), Some(p)) => ValueView::Bool(
                            if f is Contains {
                                contains_spec(s, p)
                            } else {
                                starts_with_spec(s, p)
                            },
                        ),
                        _ => ValueView::Null,
                    },
                ),
            }
        },
        DataScalarFunction::Replace => if args.len() != 3 {
            Err(error_view(1402, "replace() expects three arguments"@))
        } else {
            match (args[0], args[1], args[2]) {
                (Err(e), _, _) => Err(e),
                (Ok(_), Err(e), _) => Err(e),
                (Ok(_), Ok(_), Err(e)) => Err(e),
                (Ok(a), Ok(b), Ok(c)) => value(
                    match (optional_text(a), optional_text(b), optional_text(c)) {
                        (Some(s), Some(p), Some(r)) => ValueView::String(replace_spec(s, p, r)),
                        _ => ValueView::Null,
                    },
                ),
            }
        },
        DataScalarFunction::DateFloor => if args.len() != 2 {
            Err(error_view(1402, "date_floor() expects two arguments"@))
        } else {
            match args[1] {
                Err(e) => Err(e),
                Ok(ValueView::String(u)) => match temporal_unit_spec(u) {
                    None => Err(error_view(1406, "date_floor() unit `"@ + u
                        + "` is not supported; use \"day\", \"week\", \"month\", or \"year\""@)),
                    Some(unit) => match args[0] {
                        Err(e) => Err(e),
                        Ok(v) => value(
                            match parsed_value(v) {
                                Some(tv) => ValueView::String(floored_text(tv, unit)),
                                None => ValueView::Null,
                            },
                        ),
                    },
                },
                Ok(_) => Err(error_view(1403, "date_floor() unit must be a string"@)),
            }
        },
        DataScalarFunction::DateFormat => if args.len() != 2 {
            Err(error_view(1402, "date_format() expects two arguments"@))
        } else {
            match args[1] {
                Err(e) => Err(e),
                Ok(ValueView::String(p)) => match pattern_check(p) {
                    Err(token) => Err(error_view(1406, "date_format() pattern token `"@ + token
                        + "` is not supported"@)),
                    Ok(()) => match args[0] {
                        Err(e) => Err(e),
                        Ok(v) => value(
                            match parsed_value(v) {
                                Some(tv) => match format_spec(tv, p) {
                                    Some(s) => ValueView::String(s),
                                    None => ValueView::Null,
                                },
                                None => ValueView::Null,
                            },
                        ),
                    },
                },
                Ok(_) => Err(error_view(1403, "date_format() pattern must be a string"@)),
            }
        },
        _ => if args.len() != 1 {
            Err(error_view(1402, "scalar function expects one argument"@))
        } else {
            match args[0] {
                Err(e) => Err(e),
                Ok(v) => unary_spec(f, v),
            }
        },
    }
}

fn arg_at(args: &Vec<Result<Value, Diagnostic>>, i: usize) -> (r: Result<Value, Diagnostic>)
    requires
        i < args.len(),
    ensures
        arg_view(r) == args_view(args@)[i as int],
{
    match &args[i] {
        Ok(v) => Ok(v.duplicate()),
        Err(e) => Err(e.duplicate()),
    }
}

fn error_at_zero(code: crate::diagnostic::DiagnosticCode, message: &str) -> (r: Diagnostic)
    ensures
        r@ == (DiagnosticView {
            severity: Severity::Error,
            code: code@,
            message: message@,
            span: Span { start: 0, end: 0 },
            related: Seq::empty(),
            help: None,
        }),
{
    Diagnostic::error(code, message, Span::zero())
}

/// The temporal value that a value's text parses to.
fn parsed_temporal_value(v: &Value) -> (r: Option<TemporalValue>)
    ensures
        r == parsed_value(v@),
{
    match v {
        Value::Null => None,
        _ => {
            let t = v.to_csv_cell();
            let r = parse_temporal(t.as_str());
            proof {
                lemma_parse_temporal_functional(t@, r);
            }
            r
        },
    }
}

/// A number holding an integer.
fn integer_value(n: i64) -> (r: Value)
    requires
        -9007199254740992 < n < 9007199254740992,
    ensures
        r@ == integer_number(n as int),
{
    let bits = binary64_bits(n);
    let mut text = String::new();
    push_signed_decimal(&mut text, n);
    assert(text@ == signed_decimal(n as int));
    Value::Number { bits, text }
}

fn is_null(v: &Value) -> (r: bool)
    ensures
        r == (v@ is Null),
{
    match v {
        Value::Null => true,
        _ => false,
    }
}

fn map_text_value(v: &Value, mapped: String) -> (r: Value)
    ensures
        r@ == map_text_spec(v@, mapped@),
{
    match v {
        Value::Null => Value::Null,
        _ => Value::String(mapped),
    }
}

fn unary_call(function: DataScalarFunction, v: Value) -> (r: Result<ScalarOutcome, Diagnostic>)
    requires
        is_unary(function),
    ensures
        call_view(r) == unary_spec(function, v@),
{
    match function {
        DataScalarFunction::IsNull => Ok(ScalarOutcome::Value(Value::Bool(is_null(&v)))),
        DataScalarFunction::NotNull => Ok(ScalarOutcome::Value(Value::Bool(!is_null(&v)))),
        DataScalarFunction::Lower => {
            let t = v.to_csv_cell();
            let mapped = str_to_lowercase(t.as_str());
            Ok(ScalarOutcome::Value(map_text_value(&v, mapped)))
        },
        DataScalarFunction::Upper => {
            let t = v.to_csv_cell();
            let mapped = str_to_uppercase(t.as_str());
            Ok(ScalarOutcome::Value(map_text_value(&v, mapped)))
        },
        DataScalarFunction::Trim => {
            let t = v.to_csv_cell();
            let mapped = trimmed(&chars_of(t.as_str()));
            Ok(ScalarOutcome::Value(map_text_value(&v, mapped)))
        },
        DataScalarFunction::ToString => {
            let t = v.to_csv_cell();
            Ok(ScalarOutcome::Value(map_text_value(&v, t)))
        },
        DataScalarFunction::ToNumber => match v {
            Value::Null => Ok(ScalarOutcome::Value(Value::Null)),
            Value::Number { .. } => Ok(ScalarOutcome::Value(v)),
            _ => {
                let t = v.to_csv_cell();
                Ok(ScalarOutcome::ParseNumber(trimmed(&chars_of(t.as_str()))))
            },
        },
        DataScalarFunction::ToBoolean => match v {
            Value::Null => Ok(ScalarOutcome::Value(Value::Null)),
            Value::Bool(_) => Ok(ScalarOutcome::Value(v)),
            _ => {
                let t = trimmed(&chars_of(v.to_csv_cell().as_str()));
                let b = if str_eq(t.as_str(), "true") {
                    Value::Bool(true)
                } else if str_eq(t.as_str(), "false") {
                    Value::Bool(false)
                } else {
                    Value::Null
                };
                Ok(ScalarOutcome::Value(b))
            },
        },
        DataScalarFunction::Abs => match v {
            Value::Null => Ok(ScalarOutcome::Value(Value::Null)),
            Value::Number { bits, .. } => Ok(ScalarOutcome::Abs(bits)),
            _ => Err(error_at_zero(E1302(), "abs() requires a number")),
        },
        DataScalarFunction::Round { digits } => match v {
            Value::Null => Ok(ScalarOutcome::Value(Value::Null)),
            Value::Number { bits, .. } => Ok(ScalarOutcome::Round { bits, digits }),
            _ => Err(error_at_zero(E1302(), "round() requires a number")),
        },
        DataScalarFunction::Date => Ok(ScalarOutcome::Value(
            match parsed_temporal_value(&v) {
                Some(parsed) => Value::String(normalize_date(&parsed)),
                None => Value::Null,
            },
        )),
        DataScalarFunction::Datetime => Ok(ScalarOutcome::Value(
            match parsed_temporal_value(&v) {
                Some(parsed) => match normalize_datetime(&parsed) {
                    Some(s) => Value::String(s),
                    None => Value::Null,
                },
                None => Value::Null,
            },
        )),
        DataScalarFunction::Year => Ok(ScalarOutcome::Value(
            match parsed_temporal_value(&v) {
                Some(parsed) => integer_value(temporal_year(&parsed) as i64),
                None => Value::Null,
            },
        )),
        DataScalarFunction::Month => Ok(ScalarOutcome::Value(
            match parsed_temporal_value(&v) {
                Some(parsed) => integer_value(temporal_month(&parsed) as i64),
                None => Value::Null,
            },
        )),
        DataScalarFunction::Day => Ok(ScalarOutcome::Value(
            match parsed_temporal_value(&v) {
                Some(parsed) => integer_value(temporal_day(&parsed) as i64),
                None => Value::Null,
            },
        )),
        _ => Ok(ScalarOutcome::Value(Value::Null)),
    }
}

fn coalesce_call(args: &Vec<Result<Value, Diagnostic>>) -> (r: Result<ScalarOutcome, Diagnostic>)
    ensures
        call_view(r) == lift(coalesce_spec(args_view(args@))),
{
    let ghost view = args_view(args@);
    let mut i: usize = 0;
    assert(view.skip(0) =~= view);
    while i < args.len()
        invariant
            i <= args.len(),
            view == args_view(args@),
            view.len() == args.len(),
            coalesce_spec(view) == coalesce_spec(view.skip(i as int)),
        decreases args.len() - i,
    {
        let a = arg_at(args, i);
        assert(view.skip(i as int)[0] == view[i as int]);
        assert(view.skip(i as int).drop_first() =~= view.skip(i + 1));
        match a {
            Err(e) => {
                return Err(e);
            },
            Ok(v) => {
                if !is_null(&v) {
                    return Ok(ScalarOutcome::Value(v));
                }
            },
        }
        i += 1;
    }
    assert(view.skip(i as int).len() == 0);
    Ok(ScalarOutcome::Value(Value::Null))
}

fn concat_call(args: &Vec<Result<Value, Diagnostic>>) -> (r: Result<ScalarOutcome, Diagnostic>)
    ensures
        call_view(r) == match concat_spec(args_view(args@)) {
            Ok(t) => Ok(ScalarOutcomeView::Value(ValueView::String(t))),
            Err(e) => Err(e),
        },
{
    let ghost view = args_view(args@);
    let mut text = String::new();
    let mut i: usize = 0;
    assert(view.skip(0) =~= view);
    while i < args.len()
        invariant
            i <= args.len(),
            view == args_view(args@),
            view.len() == args.len(),
            concat_spec(view) == match concat_spec(view.skip(i as int)) {
                Ok(t) => Ok(text@ + t),
                Err(e) => Err(e),
            },
        decreases args.len() - i,
    {
        let a = arg_at(args, i);
        assert(view.skip(i as int)[0] == view[i as int]);
        assert(view.skip(i as int).drop_first() =~= view.skip(i + 1));
        match a {
            Err(e) => {
                return Err(e);
            },
            Ok(v) => {
                let piece = v.to_csv_cell();
                proof {
                    match concat_spec(view.skip(i + 1)) {
                        Ok(t) => {
                            assert(text@ + (piece@ + t) =~= (text@ + piece@) + t);
                        },
                        Err(_) => {},
                    }
                }
                text.append(piece.as_str());
            },
        }
        i += 1;
    }
    assert(view.skip(i as int).len() == 0);
    assert(text@ + Seq::<char>::empty() =~= text@);
    Ok(ScalarOutcome::Value(Value::String(text)))
}

fn if_else_call(args: &Vec<Result<Value, Diagnostic>>) -> (r: Result<ScalarOutcome, Diagnostic>)
    requires
        args.len() == 3,
    ensures
        call_view(r) == scalar_call_spec(DataScalarFunction::IfElse, args_view(args@)),
{
    match arg_at(args, 0) {
        Err(e) => Err(e),
        Ok(Value::Bool(true)) => match arg_at(args, 1) {
            Ok(v) => Ok(ScalarOutcome::Value(v)),
            Err(e) => Err(e),
        },
        Ok(Value::Bool(false)) => match arg_at(args, 2) {
            Ok(v) => Ok(ScalarOutcome::Value(v)),
            Err(e) => Err(e),
        },
        Ok(Value::Null) => Ok(ScalarOutcome::Value(Value::Null)),
        Ok(_) => Err(error_at_zero(E1302(), "if_else() condition requires a boolean")),
    }
}

fn optional_text_of(v: &Value) -> (r: Option<String>)
    ensures
        match optional_text(v@) {
            Some(t) => r matches Some(s) && s@ == t,
            None => r is None,
        },
{
    match v {
        Value::Null => None,
        _ => Some(v.to_csv_cell()),
    }
}

fn text_predicate_call(function: DataScalarFunction, args: &Vec<Result<Value, Diagnostic>>) -> (r: Result<ScalarOutcome, Diagnostic>)
    requires
        args.len() == 2,
        function is Contains || function is StartsWith,
    ensures
        call_view(r) == scalar_call_spec(function, args_view(args@)),
{
    let value = match arg_at(args, 0) {
        Err(e) => return Err(e),
        Ok(v) => v,
    };
    let pattern = match arg_at(args, 1) {
        Err(e) => return Err(e),
        Ok(v) => v,
    };
    let result = match (optional_text_of(&value), optional_text_of(&pattern)) {
        (Some(s), Some(p)) => Value::Bool(
            match function {
                DataScalarFunction::Contains => text_contains(s.as_str(), p.as_str()),
                _ => text_starts_with(s.as_str(), p.as_str()),
            },
        ),
        _ => Value::Null,
    };
    Ok(ScalarOutcome::Value(result))
}

fn replace_call(args: &Vec<Result<Value, Diagnostic>>) -> (r: Result<ScalarOutcome, Diagnostic>)
    requires
        args.len() == 3,
    ensures
        call_view(r) == scalar_call_spec(DataScalarFunction::Replace, args_view(args@)),
{
    let value = match arg_at(args, 0) {
        Err(e) => return Err(e),
        Ok(v) => v,
    };
    let pattern = match arg_at(args, 1) {
        Err(e) => return Err(e),
        Ok(v) => v,
    };
    let replacement = match arg_at(args, 2) {
        Err(e) => return Err(e),
        Ok(v) => v,
    };
    let result = match (optional_text_of(&value), optional_text_of(&pattern), optional_text_of(&replacement)) {
        (Some(s), Some(p), Some(t)) => Value::String(text_replace(s.as_str(), p.as_str(), t.as_str())),
        _ => Value::Null,
    };
    Ok(ScalarOutcome::Value(result))
}

fn date_floor_call(args: &Vec<Result<Value, Diagnostic>>) -> (r: Result<ScalarOutcome, Diagnostic>)
    requires
        args.len() == 2,
    ensures
        call_view(r) == scalar_call_spec(DataScalarFunction::DateFloor, args_view(args@)),
{
    let unit = match arg_at(args, 1) {
        Err(e) => return Err(e),
        Ok(Value::String(u)) => match parse_temporal_unit(u.as_str()) {
            Some(unit) => unit,
            None => {
                let mut message = String::from_str("date_floor() unit `");
                message.append(u.as_str());
                message.append("` is not supported; use \"day\", \"week\", \"month\", or \"year\"");
                return Err(error_at_zero(E1406(), message.as_str()));
            },
        },
        Ok(_) => return Err(error_at_zero(E1403(), "date_floor() unit must be a string")),
    };
    let value = match arg_at(args, 0) {
        Err(e) => return Err(e),
        Ok(v) => v,
    };
    let result = match parsed_temporal_value(&value) {
        Some(parsed) => {
            let floored = floor_temporal(&parsed, unit);
            proof {
                if let (TemporalValue::DateTime(a), TemporalValue::DateTime(b)) = (parsed, floored) {
                    let f = floor_date_spec(value_date(parsed), unit);
                    assert(b.parts() == (f.0, f.1, f.2, 0int, 0int, 0int, 0int, a.parts().7));
                }
            }
            match normalize_datetime(&floored) {
                Some(s) => Value::String(s),
                None => Value::String(normalize_date(&floored)),
            }
        },
        None => Value::Null,
    };
    Ok(ScalarOutcome::Value(result))
}

fn date_format_call(args: &Vec<Result<Value, Diagnostic>>) -> (r: Result<ScalarOutcome, Diagnostic>)
    requires
        args.len() == 2,
    ensures
        call_view(r) == scalar_call_spec(DataScalarFunction::DateFormat, args_view(args@)),
{
    let pattern = match arg_at(args, 1) {
        Err(e) => return Err(e),
        Ok(Value::String(p)) => match validate_format_pattern(p.as_str()) {
            Ok(()) => p,
            Err(token) => {
                let mut message = String::from_str("date_format() pattern token `");
                message.append(token.as_str());
                message.append("` is not supported");
                return Err(error_at_zero(E1406(), message.as_str()));
            },
        },
        Ok(_) => return Err(error_at_zero(E1403(), "date_format() pattern must be a string")),
    };
    let value = match arg_at(args, 0) {
        Err(e) => return Err(e),
        Ok(v) => v,
    };
    let result = match parsed_temporal_value(&value) {
        Some(parsed) => match format_temporal(&parsed, pattern.as_str()) {
            Some(s) => Value::String(s),
            None => Value::Null,
        },
        None => Value::Null,
    };
    Ok(ScalarOutcome::Value(result))
}

/// Applies a scalar function to what evaluating each of its arguments gave,
/// reading them in the order the function evaluates them: `date_floor` and
/// `date_format` read their second argument first, `coalesce` stops at the
/// first non-null value and `if_else` reads one branch only.
pub fn eval_scalar_function(function: DataScalarFunction, args: &Vec<Result<Value, Diagnostic>>) -> (r: Result<ScalarOutcome, Diagnostic>)
    ensures
        call_view(r) == scalar_call_spec(function, args_view(args@)),
{
    match function {
        DataScalarFunction::Coalesce => coalesce_call(args),
        DataScalarFunction::Concat => concat_call(args),
        DataScalarFunction::IfElse => {
            if args.len() != 3 {
                return Err(error_at_zero(E1402(), "if_else() expects three arguments"));
            }
            if_else_call(args)
        },
        DataScalarFunction::Contains | DataScalarFunction::StartsWith => {
            if args.len() != 2 {
                return Err(error_at_zero(E1402(), "text predicate expects two arguments"));
            }
            text_predicate_call(function, args)
        },
        DataScalarFunction::Replace => {
            if args.len() != 3 {
                return Err(error_at_zero(E1402(), "replace() expects three arguments"));
            }
            replace_call(args)
        },
        DataScalarFunction::DateFloor => {
            if args.len() != 2 {
                return Err(error_at_zero(E1402(), "date_floor() expects two arguments"));
            }
            date_floor_call(args)
        },
        DataScalarFunction::DateFormat => {
            if args.len() != 2 {
                return Err(error_at_zero(E1402(), "date_format() expects two arguments"));
            }
            date_format_call(args)
        },
        _ => {
            if args.len() != 1 {
                return Err(error_at_zero(E1402(), "scalar function expects one argument"));
            }
            match arg_at(args, 0) {
                Err(e) => Err(e),
                Ok(v) => unary_call(function, v),
            }
        },
    }
}

} // verus!
