//! The `--context name=value` overrides of a run: each item's name and
//! value, a later item for a name replacing an earlier one.
use vstd::prelude::*;

use crate::assoc::{entry_map, keys_unique, put_entry};
use crate::text::{chars_of, copy_str, push_str, str_eq, string_from_chars};
use crate::value::{number_view, Value, ValueView};

verus! {

/// The position of the first `=` in `cs`.
pub open spec fn first_equals(cs: Seq<char>) -> Option<int>
    decreases cs.len(),
{
    if cs.len() == 0 {
        None
    } else {
        match first_equals(cs.drop_last()) {
            Some(i) => Some(i),
            None => if cs.last() == '=' {
                Some(cs.len() - 1)
            } else {
                None
            },
        }
    }
}

/// An item split at its first `=` into a name, which must not be empty,
/// and the raw value text.
pub open spec fn split_override_spec(item: Seq<char>) -> Result<(Seq<char>, Seq<char>), Seq<char>> {
    match first_equals(item) {
        None => Err("context override `"@ + item + "` must be `name=value`"@),
        Some(i) => if i == 0 {
            Err("context override `"@ + item + "` has an empty name"@)
        } else {
            Ok((item.take(i), item.skip(i + 1)))
        },
    }
}

pub open spec fn split_view(r: Result<(String, String), String>) -> Result<(Seq<char>, Seq<char>), Seq<char>> {
    match r {
        Ok((name, raw)) => Ok((name@, raw@)),
        Err(e) => Err(e@),
    }
}

proof fn lemma_first_equals_prefix(cs: Seq<char>, n: int)
    requires
        0 <= n <= cs.len(),
        first_equals(cs.take(n)) is None,
        n == cs.len() || cs[n] == '=',
    ensures
        first_equals(cs) == if n == cs.len() { None } else { Some(n) },
    decreases cs.len() - n,
{
    if n < cs.len() {
        if n + 1 < cs.len() {
            assert(cs.take(n + 1).drop_last() =~= cs.take(n));
            lemma_first_equals_settles(cs, n + 1);
        } else {
            assert(cs.drop_last() =~= cs.take(n));
        }
    } else {
        assert(cs.take(n) =~= cs);
    }
}

proof fn lemma_first_equals_settles(cs: Seq<char>, m: int)
    requires
        0 <= m <= cs.len(),
        first_equals(cs.take(m)) is Some,
    ensures
        first_equals(cs) == first_equals(cs.take(m)),
    decreases cs.len() - m,
{
    if m < cs.len() {
        assert(cs.drop_last().take(m) =~= cs.take(m));
        lemma_first_equals_settles(cs.drop_last(), m);
    } else {
        assert(cs.take(m) =~= cs);
    }
}

/// Splits an override item into its name and raw value.
pub fn split_context_override(item: &str) -> (r: Result<(String, String), String>)
    ensures
        split_view(r) == split_override_spec(item@),
{
    let cs = chars_of(item);
    let mut i: usize = 0;
    assert(cs@.take(0) =~= Seq::<char>::empty());
    while i < cs.len() && cs[i] != '='
        invariant
            i <= cs.len(),
            cs@ == item@,
            first_equals(cs@.take(i as int)) is None,
        decreases cs.len() - i,
    {
        assert(cs@.take(i + 1).drop_last() =~= cs@.take(i as int));
        i += 1;
    }
    proof {
        lemma_first_equals_prefix(cs@, i as int);
    }
    if i == cs.len() {
        let mut m = copy_str("context override `");
        push_str(&mut m, item);
        push_str(&mut m, "` must be `name=value`");
        return Err(m);
    }
    if i == 0 {
        let mut m = copy_str("context override `");
        push_str(&mut m, item);
        push_str(&mut m, "` has an empty name");
        return Err(m);
    }
    let name = string_from_chars(vstd::slice::slice_subrange(cs.as_slice(), 0, i));
    let raw = string_from_chars(vstd::slice::slice_subrange(cs.as_slice(), i + 1, cs.len()));
    assert(cs@.subrange(0, i as int) =~= item@.take(i as int));
    assert(cs@.subrange(i + 1, cs.len() as int) =~= item@.skip(i + 1));
    Ok((name, raw))
}

/// The text of the JSON string that `serde_json` reads from `text`, or its
/// error text.
pub uninterp spec fn json_string_of(text: Seq<char>) -> Result<Seq<char>, Seq<char>>;

/// Calls `serde_json::from_str::<String>` on `text`. The result is named,
/// not described.
#[verifier::external_body]
fn parse_json_string(text: &str) -> (r: Result<String, String>)
    ensures
        match r {
            Ok(s) => json_string_of(text@) == Ok::<Seq<char>, Seq<char>>(s@),
            Err(e) => json_string_of(text@) == Err::<Seq<char>, Seq<char>>(e@),
        },
{
    serde_json::from_str::<String>(text).map_err(|error| error.to_string())
}

/// The value of an override's raw text: `null`, `true` and `false`; a
/// quoted JSON string; else the number `number` says the text reads as
/// (its bit pattern and rendering); else the text itself.
pub open spec fn context_value_spec(raw: Seq<char>, number: Option<(u64, Seq<char>)>) -> Result<ValueView, Seq<char>> {
    if raw == "null"@ {
        Ok(ValueView::Null)
    } else if raw == "true"@ {
        Ok(ValueView::Bool(true))
    } else if raw == "false"@ {
        Ok(ValueView::Bool(false))
    } else if raw.len() > 0 && raw[0] == '"' {
        match json_string_of(raw) {
            Ok(s) => Ok(ValueView::String(s)),
            Err(e) => Err("invalid quoted context string `"@ + raw + "`: "@ + e),
        }
    } else {
        match number {
            Some((bits, text)) => Ok(ValueView::Number(bits, text)),
            None => Ok(ValueView::String(raw)),
        }
    }
}

pub open spec fn value_result_view(r: Result<Value, String>) -> Result<ValueView, Seq<char>> {
    match r {
        Ok(v) => Ok(v@),
        Err(e) => Err(e@),
    }
}

/// The value of an override's raw text, given what reading it as a
/// binary64 number gave.
pub fn parse_context_value(raw: &str, number: Option<(u64, String)>) -> (r: Result<Value, String>)
    ensures
        value_result_view(r) == context_value_spec(raw@, number_view(number)),
{
    if str_eq(raw, "null") {
        return Ok(Value::Null);
    }
    if str_eq(raw, "true") {
        return Ok(Value::Bool(true));
    }
    if str_eq(raw, "false") {
        return Ok(Value::Bool(false));
    }
    let cs = chars_of(raw);
    if cs.len() > 0 && cs[0] == '"' {
        return match parse_json_string(raw) {
            Ok(s) => Ok(Value::String(s)),
            Err(e) => {
                let mut m = copy_str("invalid quoted context string `");
                push_str(&mut m, raw);
                push_str(&mut m, "`: ");
                push_str(&mut m, e.as_str());
                Err(m)
            },
        };
    }
    match number {
        Some((bits, text)) => Ok(Value::Number { bits, text }),
        None => Ok(Value::String(copy_str(raw))),
    }
}

/// The overrides of the items in order, a later one for a name replacing
/// an earlier one, or the first item's failure. `numbers` holds, for each
/// item, what reading its raw value as a binary64 number gave.
pub open spec fn overrides_spec(items: Seq<Seq<char>>, numbers: Seq<Option<(u64, Seq<char>)>>) -> Result<
    Map<Seq<char>, ValueView>,
    Seq<char>,
>
    decreases items.len(),
{
    if items.len() == 0 || numbers.len() == 0 {
        Ok(Map::empty())
    } else {
        match overrides_spec(items.drop_last(), numbers.drop_last()) {
            Err(e) => Err(e),
            Ok(m) => match split_override_spec(items.last()) {
                Err(e) => Err(e),
                Ok((name, raw)) => match context_value_spec(raw, numbers.last()) {
                    Err(e) => Err(e),
                    Ok(v) => Ok(m.insert(name, v)),
                },
            },
        }
    }
}

pub open spec fn overrides_view(e: Seq<(String, Value)>) -> Map<Seq<char>, ValueView> {
    entry_map(e).map_values(|v: Value| v@)
}

proof fn lemma_overrides_settle(items: Seq<Seq<char>>, numbers: Seq<Option<(u64, Seq<char>)>>, m: int)
    requires
        items.len() == numbers.len(),
        0 <= m <= items.len(),
        overrides_spec(items.take(m), numbers.take(m)) is Err,
    ensures
        overrides_spec(items, numbers) == overrides_spec(items.take(m), numbers.take(m)),
    decreases items.len() - m,
{
    if m < items.len() {
        assert(items.drop_last().take(m) =~= items.take(m));
        assert(numbers.drop_last().take(m) =~= numbers.take(m));
        lemma_overrides_settle(items.drop_last(), numbers.drop_last(), m);
    } else {
        assert(items.take(m) =~= items);
        assert(numbers.take(m) =~= numbers);
    }
}

pub open spec fn numbers_view(numbers: Seq<Option<(u64, String)>>) -> Seq<Option<(u64, Seq<char>)>> {
    numbers.map_values(|n: Option<(u64, String)>| number_view(n))
}

/// Reads the `--context` items of a run into overrides by name, a later
/// item for a name replacing an earlier one; the first bad item is the
/// error. `numbers[i]` is what reading the raw value of `items[i]` as a
/// binary64 number gave.
pub fn parse_context_overrides(items: &Vec<String>, numbers: Vec<Option<(u64, String)>>) -> (r: Result<
    Vec<(String, Value)>,
    String,
>)
    requires
        numbers.len() == items.len(),
    ensures
        match overrides_spec(crate::text::strings_view(items@), numbers_view(numbers@)) {
            Ok(m) => r matches Ok(v) && keys_unique(v@) && overrides_view(v@) == m,
            Err(e) => r matches Err(m) && m@ == e,
        },
{
    let ghost iv = crate::text::strings_view(items@);
    let ghost nv = numbers_view(numbers@);
    let mut out: Vec<(String, Value)> = Vec::new();
    let mut i: usize = 0;
    assert(iv.take(0) =~= Seq::<Seq<char>>::empty());
    assert(overrides_view(out@) =~= Map::<Seq<char>, ValueView>::empty());
    while i < items.len()
        invariant
            i <= items.len(),
            numbers.len() == items.len(),
            iv == crate::text::strings_view(items@),
            nv == numbers_view(numbers@),
            keys_unique(out@),
            overrides_spec(iv.take(i as int), nv.take(i as int)) == Ok::<Map<Seq<char>, ValueView>, Seq<char>>(
                overrides_view(out@),
            ),
        decreases items.len() - i,
    {
        assert(iv.take(i + 1).drop_last() =~= iv.take(i as int));
        assert(nv.take(i + 1).drop_last() =~= nv.take(i as int));
        assert(iv.take(i + 1).last() == items@[i as int]@);
        assert(nv.take(i + 1).last() == number_view(numbers@[i as int]));
        let (name, raw) = match split_context_override(items[i].as_str()) {
            Ok(parts) => parts,
            Err(e) => {
                proof {
                    assert(overrides_spec(iv.take(i + 1), nv.take(i + 1)) == Err::<Map<Seq<char>, ValueView>, Seq<char>>(e@));
                    lemma_overrides_settle(iv, nv, i + 1);
                }
                return Err(e);
            },
        };
        let number = match &numbers[i] {
            Some((bits, text)) => Some((*bits, crate::text::copy_string(text))),
            None => None,
        };
        assert(number_view(number) == number_view(numbers@[i as int]));
        let value = match parse_context_value(raw.as_str(), number) {
            Ok(v) => v,
            Err(e) => {
                proof {
                    assert(overrides_spec(iv.take(i + 1), nv.take(i + 1)) == Err::<Map<Seq<char>, ValueView>, Seq<char>>(e@));
                    lemma_overrides_settle(iv, nv, i + 1);
                }
                return Err(e);
            },
        };
        let ghost before = out@;
        let ghost vv = value@;
        put_entry(&mut out, name, value);
        assert(overrides_view(out@) =~= overrides_view(before).insert(items@[i as int]@.take(
            crate::context::first_equals(items@[i as int]@).unwrap(),
        ), vv));
        i += 1;
    }
    assert(iv.take(i as int) =~= iv);
    assert(nv.take(i as int) =~= nv);
    Ok(out)
}

} // verus!
