use crate::value::{Value, ValueView};
use vstd::prelude::*;
use vstd::utf8::valid_utf8;

verus! {

/// The character of a decimal digit.
pub open spec fn digit_char(d: int) -> char {
    if d == 0 {
        '0'
    } else if d == 1 {
        '1'
    } else if d == 2 {
        '2'
    } else if d == 3 {
        '3'
    } else if d == 4 {
        '4'
    } else if d == 5 {
        '5'
    } else if d == 6 {
        '6'
    } else if d == 7 {
        '7'
    } else if d == 8 {
        '8'
    } else {
        '9'
    }
}

/// The decimal digits of a natural number, without leading zeros.
pub open spec fn digits_text(n: nat) -> Seq<char>
    decreases n,
{
    if n < 10 {
        seq![digit_char(n as int)]
    } else {
        digits_text(n / 10).push(digit_char((n % 10) as int))
    }
}

/// An integer in decimal, with a minus sign where it is negative.
pub open spec fn decimal_text(n: int) -> Seq<char> {
    if n < 0 {
        seq!['-'] + digits_text((-n) as nat)
    } else {
        digits_text(n as nat)
    }
}

/// What the standard library's `Debug` formatting makes of a string: the
/// text in double quotes, with its escapes.
pub uninterp spec fn quoted_text(s: Seq<char>) -> Seq<char>;

/// What the standard library's lossy UTF-8 decoding makes of a byte
/// sequence.
pub uninterp spec fn lossy_text(bytes: Seq<u8>) -> Seq<char>;

/// Calls `i128::to_string`. The contract claims that the result is the
/// number in decimal: a minus sign for a negative number, then its digits
/// without leading zeros.
#[verifier::external_body]
pub(crate) fn decimal(n: i128) -> (r: String)
    ensures
        r@ == decimal_text(n as int),
{
    n.to_string()
}

/// Calls `format!` with `{:?}` on a string slice. The contract only gives
/// the result its name, `quoted_text`, as a function of the text.
#[verifier::external_body]
pub(crate) fn quote(s: &str) -> (r: String)
    ensures
        r@ == quoted_text(s@),
{
    format!("{:?}", s)
}

/// Calls `String::from_utf8_lossy`. The contract only gives the result its
/// name, `lossy_text`, as a function of the bytes.
#[verifier::external_body]
pub(crate) fn text_of_bytes(bytes: &[u8]) -> (r: String)
    ensures
        r@ == lossy_text(bytes@),
{
    String::from_utf8_lossy(bytes).into_owned()
}

/// Calls `std::str::from_utf8` and says whether it accepted the bytes.
/// The contract claims that it accepts exactly the valid UTF-8 sequences.
#[verifier::external_body]
pub(crate) fn is_utf8(bytes: &[u8]) -> (r: bool)
    ensures
        r == valid_utf8(bytes@),
{
    std::str::from_utf8(bytes).is_ok()
}

/// The first `n` items of a list, each as `debug_text` writes it, parted
/// by a comma and a space.
pub open spec fn items_text(items: Seq<ValueView>, n: nat) -> Seq<char>
    decreases items, n,
{
    if n == 0 || n > items.len() {
        Seq::empty()
    } else if n == 1 {
        debug_text(items[0])
    } else {
        items_text(items, (n - 1) as nat) + ", "@ + debug_text(items[n - 1])
    }
}

/// A list in square brackets.
pub open spec fn list_text(items: Seq<ValueView>) -> Seq<char>
    decreases items, items.len() + 1,
{
    "["@ + items_text(items, items.len()) + "]"@
}

/// The text that `print` writes for a value: the name of its kind and, in
/// round brackets, its content; a function is written as a placeholder.
pub open spec fn debug_text(v: ValueView) -> Seq<char>
    decreases v,
{
    match v {
        ValueView::String(s) => "String("@ + quoted_text(s) + ")"@,
        ValueView::Array(items) => "Array("@ + list_text(items) + ")"@,
        ValueView::Number(n) => "Number("@ + decimal_text(n) + ")"@,
        ValueView::Bool(b) => if b {
            "Bool(true)"@
        } else {
            "Bool(false)"@
        },
        ValueView::Identifier(id) => "Identifier("@ + decimal_text(id as int) + ")"@,
        ValueView::Function { .. } => "<function>"@,
    }
}

/// The text a value turns into when it is joined to a string by `+`.
pub open spec fn plain_text(v: ValueView) -> Seq<char> {
    match v {
        ValueView::String(s) => s,
        ValueView::Array(items) => list_text(items),
        ValueView::Number(n) => decimal_text(n),
        ValueView::Bool(b) => if b {
            "true"@
        } else {
            "false"@
        },
        ValueView::Identifier(id) => "<id:"@ + decimal_text(id as int) + ">"@,
        ValueView::Function { .. } => "<function>"@,
    }
}

/// Writes a list of values in square brackets.
pub fn render_list(items: &Vec<Value>) -> (r: String)
    ensures
        r@ == list_text(crate::value::values_view(items@)),
    decreases items, 1int,
{
    let ghost views = crate::value::values_view(items@);
    let mut out = String::from_str("[");
    let mut i: usize = 0;
    while i < items.len()
        invariant
            i <= items.len(),
            views == crate::value::values_view(items@),
            out@ == "["@ + items_text(views, i as nat),
        decreases items.len() - i,
    {
        if i > 0 {
            out.append(", ");
        }
        let item = render(&items[i]);
        out.append(item.as_str());
        assert(out@ =~= "["@ + items_text(views, (i + 1) as nat));
        i += 1;
    }
    out.append("]");
    out
}

/// Writes a value as `print` shows it.
pub fn render(v: &Value) -> (r: String)
    ensures
        r@ == debug_text(v@),
    decreases v, 0int,
{
    match v {
        Value::String(s) => {
            let mut out = String::from_str("String(");
            let quoted = quote(s.as_str());
            out.append(quoted.as_str());
            out.append(")");
            out
        },
        Value::Array(items) => {
            let mut out = String::from_str("Array(");
            let list = render_list(items);
            out.append(list.as_str());
            out.append(")");
            out
        },
        Value::Number(n) => {
            let mut out = String::from_str("Number(");
            let digits = decimal(*n as i128);
            out.append(digits.as_str());
            out.append(")");
            out
        },
        Value::Bool(b) => if *b {
            String::from_str("Bool(true)")
        } else {
            String::from_str("Bool(false)")
        },
        Value::Identifier(id) => {
            let mut out = String::from_str("Identifier(");
            let digits = decimal(*id as i128);
            out.append(digits.as_str());
            out.append(")");
            out
        },
        Value::Function { .. } => String::from_str("<function>"),
    }
}

/// Writes a value as it is joined to a string.
pub fn display_text(v: &Value) -> (r: String)
    ensures
        r@ == plain_text(v@),
{
    match v {
        Value::String(s) => s.clone(),
        Value::Array(items) => render_list(items),
        Value::Number(n) => decimal(*n as i128),
        Value::Bool(b) => if *b {
            String::from_str("true")
        } else {
            String::from_str("false")
        },
        Value::Identifier(id) => {
            let mut out = String::from_str("<id:");
            let digits = decimal(*id as i128);
            out.append(digits.as_str());
            out.append(">");
            out
        },
        Value::Function { .. } => String::from_str("<function>"),
    }
}

} // verus!
