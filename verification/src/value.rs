//! Cell values of tables.
use vstd::prelude::*;

verus! {

/// A table cell. A number keeps its binary64 bit pattern (`f64::to_bits`)
/// beside the text that a CSV cell holds for it, which rendering a binary64
/// number gives; a geometry is carried as an opaque marker, and its cell
/// text is empty.
#[derive(Debug)]
pub enum Value {
    Null,
    Bool(bool),
    Number { bits: u64, text: String },
    String(String),
    Geometry,
}

/// A cell value with its strings taken by their characters.
pub enum ValueView {
    Null,
    Bool(bool),
    Number(u64, Seq<char>),
    String(Seq<char>),
    Geometry,
}

impl View for Value {
    type V = ValueView;

    open spec fn view(&self) -> ValueView {
        match self {
            Value::Null => ValueView::Null,
            Value::Bool(b) => ValueView::Bool(*b),
            Value::Number { bits, text } => ValueView::Number(*bits, text@),
            Value::String(s) => ValueView::String(s@),
            Value::Geometry => ValueView::Geometry,
        }
    }
}

impl Value {
    /// An equal value.
    pub fn duplicate(&self) -> (r: Self)
        ensures
            r@ == self@,
    {
        match self {
            Value::Null => Value::Null,
            Value::Bool(b) => Value::Bool(*b),
            Value::Number { bits, text } => Value::Number {
                bits: *bits,
                text: text.clone(),
            },
            Value::String(s) => Value::String(s.clone()),
            Value::Geometry => Value::Geometry,
        }
    }
}

/// The text a CSV cell holds for a value.
pub open spec fn cell_text(v: ValueView) -> Seq<char> {
    match v {
        ValueView::Null => Seq::empty(),
        ValueView::Bool(b) => if b { "true"@ } else { "false"@ },
        ValueView::Number(_, text) => text,
        ValueView::String(s) => s,
        ValueView::Geometry => Seq::empty(),
    }
}

/// The text of a value where it has one: none for null.
pub open spec fn optional_text(v: ValueView) -> Option<Seq<char>> {
    match v {
        ValueView::Null => None,
        _ => Some(cell_text(v)),
    }
}

/// The value a CSV cell's text reads as: null when empty, a boolean for
/// `true` and `false`, else the number `number` says the text reads as (its
/// bit pattern and the text that rendering it gives), else the text.
pub open spec fn csv_cell_value(cell: Seq<char>, number: Option<(u64, Seq<char>)>) -> ValueView {
    if cell.len() == 0 {
        ValueView::Null
    } else if cell == "true"@ {
        ValueView::Bool(true)
    } else if cell == "false"@ {
        ValueView::Bool(false)
    } else {
        match number {
            Some((bits, text)) => ValueView::Number(bits, text),
            None => ValueView::String(cell),
        }
    }
}

pub open spec fn number_view(number: Option<(u64, String)>) -> Option<(u64, Seq<char>)> {
    match number {
        Some((bits, text)) => Some((bits, text@)),
        None => None,
    }
}

impl Value {
    /// Reads a CSV cell. `number` is what reading the text as a binary64
    /// number gave, where it reads as one: the bit pattern and its
    /// rendering.
    pub fn parse_csv_cell(cell: &str, number: Option<(u64, String)>) -> (r: Value)
        ensures
            r@ == csv_cell_value(cell@, number_view(number)),
    {
        if crate::text::chars_of(cell).len() == 0 {
            Value::Null
        } else if crate::text::str_eq(cell, "true") {
            Value::Bool(true)
        } else if crate::text::str_eq(cell, "false") {
            Value::Bool(false)
        } else {
            match number {
                Some((bits, text)) => Value::Number { bits, text },
                None => Value::String(crate::text::copy_str(cell)),
            }
        }
    }
}

impl Value {
    /// The text a CSV cell holds for the value: empty for null and geometry.
    pub fn to_csv_cell(&self) -> (r: String)
        ensures
            r@ == cell_text(self@),
    {
        match self {
            Value::Null => String::new(),
            Value::Bool(b) => {
                if *b {
                    String::from_str("true")
                } else {
                    String::from_str("false")
                }
            },
            Value::Number { text, .. } => text.clone(),
            Value::String(s) => s.clone(),
            Value::Geometry => String::new(),
        }
    }

    pub fn is_geometry(&self) -> (r: bool)
        ensures
            r == (self@ is Geometry),
    {
        match self {
            Value::Geometry => true,
            _ => false,
        }
    }

    /// Whether the value is the boolean `true`.
    pub fn is_truthy_true(&self) -> (r: bool)
        ensures
            r == (self@ == ValueView::Bool(true)),
    {
        match self {
            Value::Bool(b) => *b,
            _ => false,
        }
    }

    /// The bit pattern of a number.
    pub fn as_number(&self) -> (r: Option<u64>)
        ensures
            r == match self@ {
                ValueView::Number(bits, _) => Some(bits),
                _ => None::<u64>,
            },
    {
        match self {
            Value::Number { bits, .. } => Some(*bits),
            _ => None,
        }
    }
}

} // verus!
