//! Textual encoding of values: a compact JSON-like notation used to
//! persist stores and schema field lists in text columns.  Rendering and
//! parsing are both defined against one specification grammar, and the
//! parser provably inverts the renderer.

use vstd::prelude::*;

use crate::value::{
    lemma_spec_entries_push, lemma_spec_items_push, spec_entries, spec_items, spec_val, SpecValue,
    Value,
};

verus! {

// ---------------------------------------------------------------------
// Specification: rendering
// ---------------------------------------------------------------------
/// The character for one decimal digit.
pub open spec fn digit_char(d: int) -> char {
    if d == 0 {
        '0'
    } else if d == 1 {
        '1'
    } else if d == 2 {
        '2'
    } else if d == 3 {
        '3'
    } else if d == 4 {
        '4'
    } else if d == 5 {
        '5'
    } else if d == 6 {
        '6'
    } else if d == 7 {
        '7'
    } else if d == 8 {
        '8'
    } else {
        '9'
    }
}

/// Canonical decimal rendering of a non-negative number.
pub open spec fn render_u64(n: int) -> Seq<char>
    decreases n,
{
    if n < 10 {
        seq![digit_char(n)]
    } else {
        render_u64(n / 10).push(digit_char(n % 10))
    }
}

/// Escape one character of a string body: quotes and backslashes get a
/// backslash prefix, everything else stands for itself.
pub open spec fn esc_char(c: char) -> Seq<char> {
    if c == '"' || c == '\\' {
        seq!['\\', c]
    } else {
        seq![c]
    }
}

/// Escaped form of a whole string body.
pub open spec fn esc_seq(s: Seq<char>) -> Seq<char>
    decreases s.len(),
{
    if s.len() == 0 {
        Seq::empty()
    } else {
        esc_char(s.first()) + esc_seq(s.drop_first())
    }
}

/// A string literal: escaped body between double quotes.
pub open spec fn render_string(s: Seq<char>) -> Seq<char> {
    seq!['"'] + esc_seq(s) + seq!['"']
}

/// Rendering of one value.
pub open spec fn render_value(v: SpecValue) -> Seq<char>
    decreases v, 0int,
{
    match v {
        SpecValue::Null => seq!['n', 'u', 'l', 'l'],
        SpecValue::Boolean(b) => if b {
            seq!['t', 'r', 'u', 'e']
        } else {
            seq!['f', 'a', 'l', 's', 'e']
        },
        SpecValue::Number(n) => render_u64(n as int),
        SpecValue::String(s) => render_string(s),
        SpecValue::Array(items) => seq!['['] + render_items(items) + seq![']'],
        SpecValue::Object(es) => seq!['{'] + render_members(es) + seq!['}'],
    }
}

/// Comma-separated rendering of array items.
pub open spec fn render_items(items: Seq<SpecValue>) -> Seq<char>
    decreases items, 1int,
{
    if items.len() == 0 {
        Seq::empty()
    } else if items.len() == 1 {
        render_value(items.first())
    } else {
        render_value(items.first()) + seq![','] + render_items(items.drop_first())
    }
}

/// Comma-separated rendering of object members, `"key":value` each.
pub open spec fn render_members(es: Seq<(Seq<char>, SpecValue)>) -> Seq<char>
    decreases es, 1int,
{
    if es.len() == 0 {
        Seq::empty()
    } else if es.len() == 1 {
        render_string(es.first().0) + seq![':'] + render_value(es.first().1)
    } else {
        render_string(es.first().0) + seq![':'] + render_value(es.first().1) + seq![',']
            + render_members(es.drop_first())
    }
}

// ---------------------------------------------------------------------
// Rendering lemmas used by the append-style executable renderer
// ---------------------------------------------------------------------
/// Escaping distributes over appending one character.
pub proof fn lemma_esc_seq_push(s: Seq<char>, c: char)
    ensures
        esc_seq(s.push(c)) == esc_seq(s) + esc_char(c),
    decreases s.len(),
{
    assert(s.push(c).first() == if s.len() == 0 {
        c
    } else {
        s.first()
    });
    if s.len() == 0 {
        assert(s.push(c).drop_first() =~= Seq::<char>::empty());
        assert(esc_seq(Seq::<char>::empty()) == Seq::<char>::empty());
        assert(esc_seq(s.push(c)) =~= esc_char(c));
        assert(esc_seq(s) + esc_char(c) =~= esc_char(c));
    } else {
        assert(s.push(c).drop_first() =~= s.drop_first().push(c));
        lemma_esc_seq_push(s.drop_first(), c);
        assert(esc_seq(s.push(c)) =~= esc_seq(s) + esc_char(c));
    }
}

/// Item rendering distributes over appending one item.
pub proof fn lemma_render_items_push(items: Seq<SpecValue>, v: SpecValue)
    ensures
        items.len() == 0 ==> render_items(items.push(v)) == render_value(v),
        items.len() >= 1 ==> render_items(items.push(v)) == render_items(items) + seq![',']
            + render_value(v),
    decreases items.len(),
{
    if items.len() == 0 {
        assert(items.push(v).first() == v);
    } else if items.len() == 1 {
        assert(items.push(v).first() == items.first());
        assert(items.push(v).drop_first() =~= seq![v]);
        assert(seq![v].first() == v);
        assert(render_items(seq![v]) == render_value(v));
        assert(render_items(items.push(v)) =~= render_items(items) + seq![','] + render_value(v));
    } else {
        assert(items.push(v).first() == items.first());
        assert(items.push(v).drop_first() =~= items.drop_first().push(v));
        lemma_render_items_push(items.drop_first(), v);
        assert(render_items(items.push(v)) =~= render_items(items) + seq![','] + render_value(v));
    }
}

/// Member rendering distributes over appending one member.
pub proof fn lemma_render_members_push(es: Seq<(Seq<char>, SpecValue)>, e: (Seq<char>, SpecValue))
    ensures
        es.len() == 0 ==> render_members(es.push(e)) == render_string(e.0) + seq![':']
            + render_value(e.1),
        es.len() >= 1 ==> render_members(es.push(e)) == render_members(es) + seq![',']
            + render_string(e.0) + seq![':'] + render_value(e.1),
    decreases es.len(),
{
    if es.len() == 0 {
        assert(es.push(e).first() == e);
    } else if es.len() == 1 {
        assert(es.push(e).first() == es.first());
        assert(es.push(e).drop_first() =~= seq![e]);
        assert(seq![e].first() == e);
        assert(render_members(seq![e]) == render_string(e.0) + seq![':'] + render_value(e.1));
        assert(render_members(es.push(e)) =~= render_members(es) + seq![','] + render_string(e.0)
            + seq![':'] + render_value(e.1));
    } else {
        assert(es.push(e).first() == es.first());
        assert(es.push(e).drop_first() =~= es.drop_first().push(e));
        lemma_render_members_push(es.drop_first(), e);
        assert(render_members(es.push(e)) =~= render_members(es) + seq![','] + render_string(e.0)
            + seq![':'] + render_value(e.1));
    }
}

// ---------------------------------------------------------------------
// Executable rendering
// ---------------------------------------------------------------------
/// The one-character text of a decimal digit.
fn digit_str(d: u64) -> (r: &'static str)
    requires
        d < 10,
    ensures
        r@ == seq![digit_char(d as int)],
{
    proof {
        reveal_strlit("0");
        reveal_strlit("1");
        reveal_strlit("2");
        reveal_strlit("3");
        reveal_strlit("4");
        reveal_strlit("5");
        reveal_strlit("6");
        reveal_strlit("7");
        reveal_strlit("8");
        reveal_strlit("9");
    }
    match d {
        0 => "0",
        1 => "1",
        2 => "2",
        3 => "3",
        4 => "4",
        5 => "5",
        6 => "6",
        7 => "7",
        8 => "8",
        _ => "9",
    }
}

/// Append the canonical decimal form of `n`.
fn write_u64(n: u64, out: &mut String)
    ensures
        final(out)@ == old(out)@ + render_u64(n as int),
    decreases n,
{
    if n < 10 {
        out.append(digit_str(n));
    } else {
        write_u64(n / 10, out);
        out.append(digit_str(n % 10));
        proof {
            assert(old(out)@ + render_u64(n as int / 10) + seq![digit_char(n as int % 10)] =~= old(
                out,
            )@ + render_u64(n as int));
        }
    }
}

/// Append the escaped body of `s`.
#[verifier::loop_isolation(false)]
fn write_escaped(s: &str, out: &mut String)
    ensures
        final(out)@ == old(out)@ + esc_seq(s@),
{
    let n = s.unicode_len();
    let mut i: usize = 0;
    while i < n
        invariant
            i <= n,
            out@ == old(out)@ + esc_seq(s@.subrange(0, i as int)),
        decreases n - i,
    {
        let c = s.get_char(i);
        if c == '"' {
            proof {
                reveal_strlit("\\\"");
            }
            out.append("\\\"");
        } else if c == '\\' {
            proof {
                reveal_strlit("\\\\");
            }
            out.append("\\\\");
        } else {
            out.append(s.substring_char(i, i + 1));
        }
        proof {
            assert(s@.subrange(0, i + 1).drop_last() =~= s@.subrange(0, i as int));
            lemma_esc_seq_push(s@.subrange(0, i as int), s@[i as int]);
            assert(s@.subrange(0, i + 1) =~= s@.subrange(0, i as int).push(s@[i as int]));
            assert(s@.subrange(i as int, i + 1) =~= seq![s@[i as int]]);
            assert(out@ =~= old(out)@ + esc_seq(s@.subrange(0, i + 1)));
        }
        i = i + 1;
    }
    proof {
        assert(s@.subrange(0, s@.len() as int) =~= s@);
    }
}

/// Append a quoted, escaped string literal.
fn write_string(s: &str, out: &mut String)
    ensures
        final(out)@ == old(out)@ + render_string(s@),
{
    proof {
        reveal_strlit("\"");
    }
    out.append("\"");
    write_escaped(s, out);
    out.append("\"");
    proof {
        assert(old(out)@ + seq!['"'] + esc_seq(s@) + seq!['"'] =~= old(out)@ + render_string(s@));
    }
}

/// Append the rendering of one value.
#[verifier::loop_isolation(false)]
pub fn write_value(v: &Value, out: &mut String)
    ensures
        final(out)@ == old(out)@ + render_value(v@),
    decreases *v,
{
    match v {
        Value::Null => {
            proof {
                reveal_strlit("null");
            }
            out.append("null");
            proof {
                assert(render_value(v@) =~= "null"@);
            }
        },
        Value::Boolean(b) => {
            proof {
                reveal_strlit("true");
                reveal_strlit("false");
            }
            if *b {
                out.append("true");
                proof {
                    assert(render_value(v@) =~= "true"@);
                }
            } else {
                out.append("false");
                proof {
                    assert(render_value(v@) =~= "false"@);
                }
            }
        },
        Value::Number(n) => {
            write_u64(*n, out);
        },
        Value::String(s) => {
            write_string(s.as_str(), out);
        },
        Value::Array(items) => {
            proof {
                reveal_strlit("[");
                reveal_strlit("]");
                reveal_strlit(",");
            }
            out.append("[");
            let ghost head = out@;
            let mut i: usize = 0;
            while i < items.len()
                invariant
                    i <= items.len(),
                    out@ == head + render_items(spec_items(items@.subrange(0, i as int))),
                decreases items.len() - i,
            {
                if i > 0 {
                    out.append(",");
                }
                proof {
                    assert(decreases_to!(*v => (*v)->Array_0));
                    assert(decreases_to!(*items => items@));
                    assert(decreases_to!(items@ => items@[i as int]));
                }
                write_value(&items[i], out);
                proof {
                    assert(items@.subrange(0, i + 1) =~= items@.subrange(0, i as int).push(
                        items@[i as int],
                    ));
                    lemma_spec_items_push(items@.subrange(0, i as int), items@[i as int]);
                    lemma_render_items_push(
                        spec_items(items@.subrange(0, i as int)),
                        spec_val(items@[i as int]),
                    );
                    assert(out@ =~= head + render_items(spec_items(items@.subrange(0, i + 1))));
                }
                i = i + 1;
            }
            out.append("]");
            proof {
                assert(items@.subrange(0, items@.len() as int) =~= items@);
                assert(out@ =~= old(out)@ + render_value(v@));
            }
        },
        Value::Object(entries) => {
            proof {
                reveal_strlit("{");
                reveal_strlit("}");
                reveal_strlit(",");
                reveal_strlit(":");
            }
            out.append("{");
            let ghost head = out@;
            let mut i: usize = 0;
            while i < entries.len()
                invariant
                    i <= entries.len(),
                    out@ == head + render_members(spec_entries(entries@.subrange(0, i as int))),
                decreases entries.len() - i,
            {
                if i > 0 {
                    out.append(",");
                }
                let ghost mid = out@;
                write_string(entries[i].0.as_str(), out);
                out.append(":");
                proof {
                    assert(decreases_to!(*v => (*v)->Object_0));
                    assert(decreases_to!(*entries => entries@));
                    assert(decreases_to!(entries@ => entries@[i as int]));
                    assert(decreases_to!(entries@[i as int] => entries@[i as int].1));
                }
                write_value(&entries[i].1, out);
                proof {
                    assert(entries@.subrange(0, i + 1) =~= entries@.subrange(0, i as int).push(
                        entries@[i as int],
                    ));
                    lemma_spec_entries_push(entries@.subrange(0, i as int), entries@[i as int]);
                    lemma_render_members_push(
                        spec_entries(entries@.subrange(0, i as int)),
                        (entries@[i as int].0@, spec_val(entries@[i as int].1)),
                    );
                    assert(out@ =~= head + render_members(
                        spec_entries(entries@.subrange(0, i + 1)),
                    ));
                }
                i = i + 1;
            }
            out.append("}");
            proof {
                assert(entries@.subrange(0, entries@.len() as int) =~= entries@);
                assert(out@ =~= old(out)@ + render_value(v@));
            }
        },
    }
}

/// Render one value to its full text.
pub fn value_to_text(v: &Value) -> (r: String)
    ensures
        r@ == render_value(v@),
{
    let mut out = String::new();
    write_value(v, &mut out);
    out
}

/// The display text of a value: scalars as their literal text, arrays
/// and objects as their structured rendering.
pub open spec fn spec_value_string(v: SpecValue) -> Seq<char> {
    match v {
        SpecValue::String(s) => s,
        SpecValue::Number(n) => render_u64(n as int),
        SpecValue::Null => seq!['n', 'u', 'l', 'l'],
        SpecValue::Boolean(b) => if b {
            seq!['t', 'r', 'u', 'e']
        } else {
            seq!['f', 'a', 'l', 's', 'e']
        },
        SpecValue::Array(_) => render_value(v),
        SpecValue::Object(_) => render_value(v),
    }
}

impl Value {
    /// Materialize the value for storage in a text column: scalars by
    /// their literal text, arrays and objects structurally.
    pub fn to_value_string(&self) -> (r: String)
        ensures
            r@ == spec_value_string(self@),
    {
        match self {
            Value::String(s) => s.clone(),
            Value::Number(n) => {
                let mut out = String::new();
                write_u64(*n, &mut out);
                proof {
                    assert(Seq::<char>::empty() + render_u64(*n as int) =~= render_u64(*n as int));
                }
                out
            },
            Value::Null => {
                proof {
                    reveal_strlit("null");
                    assert(("null")@ =~= seq!['n', 'u', 'l', 'l']);
                }
                "null".to_owned()
            },
            Value::Boolean(b) => {
                proof {
                    reveal_strlit("true");
                    reveal_strlit("false");
                    assert(("true")@ =~= seq!['t', 'r', 'u', 'e']);
                    assert(("false")@ =~= seq!['f', 'a', 'l', 's', 'e']);
                }
                if *b {
                    "true".to_owned()
                } else {
                    "false".to_owned()
                }
            },
            Value::Array(_) => value_to_text(self),
            Value::Object(_) => value_to_text(self),
        }
    }
}

// ---------------------------------------------------------------------
// Specification: parsing
// ---------------------------------------------------------------------
/// A decimal digit character.
pub open spec fn is_digit(c: char) -> bool {
    48 <= c as int <= 57
}

/// The numeric value of a digit character.
pub open spec fn digit_val(c: char) -> int {
    c as int - 48
}

/// The index just past the digit run starting at `i`.
pub open spec fn digits_end(s: Seq<char>, i: int) -> int
    decreases s.len() - i,
{
    if i < 0 || i >= s.len() {
        i
    } else if is_digit(s[i]) {
        digits_end(s, i + 1)
    } else {
        i
    }
}

/// The number denoted by the digits of `s` in `[i, j)`.
pub open spec fn digits_val(s: Seq<char>, i: int, j: int) -> int
    decreases j - i,
{
    if j <= i {
        0
    } else {
        digits_val(s, i, j - 1) * 10 + digit_val(s[j - 1])
    }
}

/// Parse a number at `i`: a canonical digit run (no leading zero) whose
/// value fits in the numeric payload type.
pub open spec fn parse_number(s: Seq<char>, i: int) -> Option<(u64, int)> {
    let j = digits_end(s, i);
    if j == i {
        None
    } else if s[i] == '0' && j != i + 1 {
        None
    } else if digits_val(s, i, j) > u64::MAX as int {
        None
    } else {
        Some((digits_val(s, i, j) as u64, j))
    }
}

/// Parse a string body starting just after the opening quote; stops at
/// the closing quote and understands the two escapes.
pub open spec fn parse_string_rest(s: Seq<char>, i: int) -> Option<(Seq<char>, int)>
    decreases s.len() - i,
{
    if i < 0 || i >= s.len() {
        None
    } else if s[i] == '"' {
        Some((Seq::empty(), i + 1))
    } else if s[i] == '\\' {
        if i + 1 < s.len() && (s[i + 1] == '"' || s[i + 1] == '\\') {
            match parse_string_rest(s, i + 2) {
                Some((cs, j)) => Some((seq![s[i + 1]] + cs, j)),
                None => None,
            }
        } else {
            None
        }
    } else {
        match parse_string_rest(s, i + 1) {
            Some((cs, j)) => Some((seq![s[i]] + cs, j)),
            None => None,
        }
    }
}

/// Parse one value at `i`.
pub open spec fn parse_value(s: Seq<char>, i: int) -> Option<(SpecValue, int)>
    decreases s.len() - i, 0int,
{
    if i < 0 || i >= s.len() {
        None
    } else if s[i] == 'n' {
        if i + 4 <= s.len() && s[i + 1] == 'u' && s[i + 2] == 'l' && s[i + 3] == 'l' {
            Some((SpecValue::Null, i + 4))
        } else {
            None
        }
    } else if s[i] == 't' {
        if i + 4 <= s.len() && s[i + 1] == 'r' && s[i + 2] == 'u' && s[i + 3] == 'e' {
            Some((SpecValue::Boolean(true), i + 4))
        } else {
            None
        }
    } else if s[i] == 'f' {
        if i + 5 <= s.len() && s[i + 1] == 'a' && s[i + 2] == 'l' && s[i + 3] == 's' && s[i + 4]
            == 'e' {
            Some((SpecValue::Boolean(false), i + 5))
        } else {
            None
        }
    } else if s[i] == '"' {
        match parse_string_rest(s, i + 1) {
            Some((cs, j)) => Some((SpecValue::String(cs), j)),
            None => None,
        }
    } else if s[i] == '[' {
        if i + 1 < s.len() && s[i + 1] == ']' {
            Some((SpecValue::Array(Seq::empty()), i + 2))
        } else {
            match parse_items(s, i + 1, Seq::empty()) {
                Some((vs, j)) => if j < s.len() && s[j] == ']' {
                    Some((SpecValue::Array(vs), j + 1))
                } else {
                    None
                },
                None => None,
            }
        }
    } else if s[i] == '{' {
        if i + 1 < s.len() && s[i + 1] == '}' {
            Some((SpecValue::Object(Seq::empty()), i + 2))
        } else {
            match parse_members(s, i + 1, Seq::empty()) {
                Some((es, j)) => if j < s.len() && s[j] == '}' {
                    Some((SpecValue::Object(es), j + 1))
                } else {
                    None
                },
                None => None,
            }
        }
    } else if is_digit(s[i]) {
        match parse_number(s, i) {
            Some((n, j)) => Some((SpecValue::Number(n), j)),
            None => None,
        }
    } else {
        None
    }
}

/// Parse a comma-separated run of values onto `acc`.
pub open spec fn parse_items(s: Seq<char>, i: int, acc: Seq<SpecValue>) -> Option<
    (Seq<SpecValue>, int),
>
    decreases s.len() - i, 1int,
{
    match parse_value(s, i) {
        None => None,
        Some((v, j)) => if j < s.len() && s[j] == ',' && i <= j {
            parse_items(s, j + 1, acc.push(v))
        } else {
            Some((acc.push(v), j))
        },
    }
}

/// Parse a comma-separated run of `"key":value` members onto `acc`.
pub open spec fn parse_members(s: Seq<char>, i: int, acc: Seq<(Seq<char>, SpecValue)>) -> Option<
    (Seq<(Seq<char>, SpecValue)>, int),
>
    decreases s.len() - i, 1int,
{
    if i < 0 || i >= s.len() {
        None
    } else if s[i] != '"' {
        None
    } else {
        match parse_string_rest(s, i + 1) {
            None => None,
            Some((k, j)) => if j < s.len() && s[j] == ':' && i <= j {
                match parse_value(s, j + 1) {
                    None => None,
                    Some((v, j2)) => if j2 < s.len() && s[j2] == ',' && i <= j2 {
                        parse_members(s, j2 + 1, acc.push((k, v)))
                    } else {
                        Some((acc.push((k, v)), j2))
                    },
                }
            } else {
                None
            },
        }
    }
}

/// Parse a full text: one value covering the whole input.
pub open spec fn parse_text(s: Seq<char>) -> Option<SpecValue> {
    match parse_value(s, 0) {
        Some((v, j)) => if j == s.len() {
            Some(v)
        } else {
            None
        },
        None => None,
    }
}

// ---------------------------------------------------------------------
// Parsing lemmas shared by the executable parser
// ---------------------------------------------------------------------
/// Prefixing a parsed string body with already-consumed characters.
pub open spec fn opt_prepend(p: Seq<char>, o: Option<(Seq<char>, int)>) -> Option<
    (Seq<char>, int),
> {
    match o {
        Some((cs, j)) => Some((p + cs, j)),
        None => None,
    }
}

proof fn lemma_opt_prepend_empty(o: Option<(Seq<char>, int)>)
    ensures
        opt_prepend(Seq::empty(), o) == o,
{
    match o {
        Some((cs, j)) => {
            assert(Seq::empty() + cs =~= cs);
        },
        None => {},
    }
}

/// A digit run is non-negative as a number.
proof fn lemma_digits_val_nonneg(s: Seq<char>, i: int, j: int)
    requires
        forall|m: int| i <= m < j ==> is_digit(s[m]),
    ensures
        digits_val(s, i, j) >= 0,
    decreases j - i,
{
    if j > i {
        lemma_digits_val_nonneg(s, i, j - 1);
        assert(is_digit(s[j - 1]));
    }
}

/// Extending a digit run never shrinks its value.
proof fn lemma_digits_val_mono(s: Seq<char>, i: int, j: int, k: int)
    requires
        i <= j <= k,
        forall|m: int| i <= m < k ==> is_digit(s[m]),
    ensures
        digits_val(s, i, k) >= digits_val(s, i, j),
    decreases k - j,
{
    if k > j {
        lemma_digits_val_mono(s, i, j, k - 1);
        lemma_digits_val_nonneg(s, i, k - 1);
        assert(digits_val(s, i, k - 1) * 10 >= digits_val(s, i, k - 1));
    }
}

/// Bounds and content of a digit run.
proof fn lemma_digits_end_props(s: Seq<char>, i: int)
    requires
        0 <= i <= s.len(),
    ensures
        i <= digits_end(s, i) <= s.len(),
        forall|m: int| i <= m < digits_end(s, i) ==> is_digit(s[m]),
    decreases s.len() - i,
{
    if i < s.len() && is_digit(s[i]) {
        lemma_digits_end_props(s, i + 1);
    }
}

// ---------------------------------------------------------------------
// Executable parsing
// ---------------------------------------------------------------------
/// Digit test matching the specification predicate.
fn is_digit_x(c: char) -> (r: bool)
    ensures
        r == is_digit(c),
{
    let u = c as u32;
    48 <= u && u <= 57
}

/// Parse a digit run into a number.
#[verifier::loop_isolation(false)]
fn p_number(s: &str, i: usize) -> (r: Option<(u64, usize)>)
    requires
        i < s@.len(),
        is_digit(s@[i as int]),
    ensures
        match r {
            Some((v, j)) => parse_number(s@, i as int) == Some((v, j as int)) && i < j && j
                <= s@.len(),
            None => parse_number(s@, i as int) is None,
        },
{
    let n = s.unicode_len();
    let c0 = s.get_char(i);
    proof {
        lemma_digits_end_props(s@, i as int);
    }
    if c0 == '0' {
        if i + 1 < n && is_digit_x(s.get_char(i + 1)) {
            proof {
                lemma_digits_end_props(s@, i + 2);
                assert(digits_end(s@, i as int) == digits_end(s@, i + 1));
                assert(digits_end(s@, i + 1) == digits_end(s@, i + 2));
            }
            None
        } else {
            proof {
                assert(digits_end(s@, i as int) == digits_end(s@, i + 1));
                assert(digits_end(s@, i + 1) == i + 1);
                assert(digits_val(s@, i as int, i + 1) == digits_val(s@, i as int, i as int) * 10
                    + digit_val(s@[i as int]));
            }
            Some((0, i + 1))
        }
    } else {
        let mut cur = i;
        let mut acc: u64 = 0;
        loop
            invariant
                i <= cur <= n,
                digits_end(s@, i as int) == digits_end(s@, cur as int),
                forall|m: int| i <= m < cur ==> is_digit(s@[m]),
                acc as int == digits_val(s@, i as int, cur as int),
            decreases n - cur,
        {
            if cur >= n || !is_digit_x(s.get_char(cur)) {
                proof {
                    assert(digits_end(s@, cur as int) == cur);
                    assert(cur > i);
                }
                return Some((acc, cur));
            }
            let c = s.get_char(cur);
            let d = (c as u32 - 48) as u64;
            proof {
                assert(d as int == digit_val(s@[cur as int]));
                assert(digits_end(s@, cur as int) == digits_end(s@, cur + 1));
                assert(digits_val(s@, i as int, cur + 1) == digits_val(s@, i as int, cur as int)
                    * 10 + digit_val(s@[cur as int]));
            }
            let overflowed: bool;
            match acc.checked_mul(10) {
                None => {
                    overflowed = true;
                },
                Some(m) => {
                    match m.checked_add(d) {
                        None => {
                            overflowed = true;
                        },
                        Some(a2) => {
                            overflowed = false;
                            acc = a2;
                        },
                    }
                },
            }
            if overflowed {
                proof {
                    let e = digits_end(s@, i as int);
                    lemma_digits_end_props(s@, cur + 1);
                    assert(forall|m: int| i <= m < e ==> is_digit(s@[m]));
                    lemma_digits_val_nonneg(s@, i as int, cur as int);
                    assert(digits_val(s@, i as int, cur + 1) > u64::MAX as int);
                    lemma_digits_val_mono(s@, i as int, cur + 1, e);
                    assert(digits_val(s@, i as int, e) > u64::MAX as int);
                }
                return None;
            }
            cur = cur + 1;
        }
    }
}

/// Parse a string body after its opening quote.
#[verifier::loop_isolation(false)]
fn p_string_rest(s: &str, i: usize) -> (r: Option<(String, usize)>)
    ensures
        match r {
            Some((st, j)) => parse_string_rest(s@, i as int) == Some((st@, j as int)) && i < j && j
                <= s@.len(),
            None => parse_string_rest(s@, i as int) is None,
        },
{
    let n = s.unicode_len();
    let mut cur = i;
    let mut acc = String::new();
    proof {
        lemma_opt_prepend_empty(parse_string_rest(s@, i as int));
    }
    loop
        invariant
            i <= cur,
            parse_string_rest(s@, i as int) == opt_prepend(
                acc@,
                parse_string_rest(s@, cur as int),
            ),
        decreases s@.len() - cur,
    {
        if cur >= n {
            return None;
        }
        let c = s.get_char(cur);
        if c == '"' {
            proof {
                assert(acc@ + Seq::<char>::empty() =~= acc@);
            }
            return Some((acc, cur + 1));
        } else if c == '\\' {
            if cur + 1 < n {
                let c2 = s.get_char(cur + 1);
                if c2 == '"' || c2 == '\\' {
                    let ghost prev = acc@;
                    if c2 == '"' {
                        proof {
                            reveal_strlit("\"");
                        }
                        acc.append("\"");
                    } else {
                        proof {
                            reveal_strlit("\\");
                        }
                        acc.append("\\");
                    }
                    proof {
                        let o = parse_string_rest(s@, cur + 2);
                        match o {
                            Some((cs, j)) => {
                                assert(prev + (seq![s@[cur + 1]] + cs) =~= (prev + seq![
                                    s@[cur + 1],
                                ]) + cs);
                                assert(acc@ =~= prev + seq![s@[cur + 1]]);
                            },
                            None => {},
                        }
                    }
                    cur = cur + 2;
                } else {
                    return None;
                }
            } else {
                return None;
            }
        } else {
            let ghost prev = acc@;
            acc.append(s.substring_char(cur, cur + 1));
            proof {
                assert(s@.subrange(cur as int, cur + 1) =~= seq![s@[cur as int]]);
                let o = parse_string_rest(s@, cur + 1);
                match o {
                    Some((cs, j)) => {
                        assert(prev + (seq![s@[cur as int]] + cs) =~= (prev + seq![
                            s@[cur as int],
                        ]) + cs);
                        assert(acc@ =~= prev + seq![s@[cur as int]]);
                    },
                    None => {},
                }
            }
            cur = cur + 1;
        }
    }
}

/// Parse one value at `i`.
#[verifier::loop_isolation(false)]
fn p_value(s: &str, i: usize) -> (r: Option<(Value, usize)>)
    ensures
        match r {
            Some((v, j)) => parse_value(s@, i as int) == Some((v@, j as int)) && i <= j && j
                <= s@.len(),
            None => parse_value(s@, i as int) is None,
        },
    decreases s@.len() - i, 0int,
{
    let n = s.unicode_len();
    if i >= n {
        return None;
    }
    let c = s.get_char(i);
    if c == 'n' {
        if n - i >= 4 && s.get_char(i + 1) == 'u' && s.get_char(i + 2) == 'l' && s.get_char(i + 3)
            == 'l' {
            Some((Value::Null, i + 4))
        } else {
            None
        }
    } else if c == 't' {
        if n - i >= 4 && s.get_char(i + 1) == 'r' && s.get_char(i + 2) == 'u' && s.get_char(i + 3)
            == 'e' {
            Some((Value::Boolean(true), i + 4))
        } else {
            None
        }
    } else if c == 'f' {
        if n - i >= 5 && s.get_char(i + 1) == 'a' && s.get_char(i + 2) == 'l' && s.get_char(i + 3)
            == 's' && s.get_char(i + 4) == 'e' {
            Some((Value::Boolean(false), i + 5))
        } else {
            None
        }
    } else if c == '"' {
        match p_string_rest(s, i + 1) {
            Some((st, j)) => Some((Value::String(st), j)),
            None => None,
        }
    } else if c == '[' {
        if i + 1 < n && s.get_char(i + 1) == ']' {
            let vs: Vec<Value> = Vec::new();
            proof {
                assert(spec_items(vs@) =~= Seq::<SpecValue>::empty());
            }
            Some((Value::Array(vs), i + 2))
        } else {
            match p_items(s, i + 1) {
                Some((vs, j)) => {
                    if j < n && s.get_char(j) == ']' {
                        Some((Value::Array(vs), j + 1))
                    } else {
                        None
                    }
                },
                None => None,
            }
        }
    } else if c == '{' {
        if i + 1 < n && s.get_char(i + 1) == '}' {
            let es: Vec<(String, Value)> = Vec::new();
            proof {
                assert(spec_entries(es@) =~= Seq::<(Seq<char>, SpecValue)>::empty());
            }
            Some((Value::Object(es), i + 2))
        } else {
            match p_members(s, i + 1) {
                Some((es, j)) => {
                    if j < n && s.get_char(j) == '}' {
                        Some((Value::Object(es), j + 1))
                    } else {
                        None
                    }
                },
                None => None,
            }
        }
    } else if is_digit_x(c) {
        match p_number(s, i) {
            Some((v, j)) => Some((Value::Number(v), j)),
            None => None,
        }
    } else {
        None
    }
}

/// Parse a comma-separated run of values.
#[verifier::loop_isolation(false)]
fn p_items(s: &str, i: usize) -> (r: Option<(Vec<Value>, usize)>)
    requires
        i <= s@.len(),
    ensures
        match r {
            Some((vs, j)) => parse_items(s@, i as int, Seq::empty()) == Some(
                (spec_items(vs@), j as int),
            ) && i <= j && j <= s@.len(),
            None => parse_items(s@, i as int, Seq::empty()) is None,
        },
    decreases s@.len() - i, 1int,
{
    let n = s.unicode_len();
    let mut out: Vec<Value> = Vec::new();
    let mut cur = i;
    proof {
        assert(spec_items(out@) =~= Seq::<SpecValue>::empty());
    }
    loop
        invariant
            i <= cur <= s@.len(),
            parse_items(s@, i as int, Seq::empty()) == parse_items(
                s@,
                cur as int,
                spec_items(out@),
            ),
        decreases s@.len() - cur,
    {
        match p_value(s, cur) {
            None => {
                return None;
            },
            Some((v, j)) => {
                let ghost prev = out@;
                let ghost vv = v@;
                out.push(v);
                proof {
                    lemma_spec_items_push(prev, out@.last());
                    assert(spec_items(out@) == spec_items(prev).push(vv));
                }
                if j < n && s.get_char(j) == ',' {
                    cur = j + 1;
                } else {
                    return Some((out, j));
                }
            },
        }
    }
}

/// Parse a comma-separated run of `"key":value` members.
#[verifier::loop_isolation(false)]
fn p_members(s: &str, i: usize) -> (r: Option<(Vec<(String, Value)>, usize)>)
    requires
        i <= s@.len(),
    ensures
        match r {
            Some((es, j)) => parse_members(s@, i as int, Seq::empty()) == Some(
                (spec_entries(es@), j as int),
            ) && i <= j && j <= s@.len(),
            None => parse_members(s@, i as int, Seq::empty()) is None,
        },
    decreases s@.len() - i, 1int,
{
    let n = s.unicode_len();
    let mut out: Vec<(String, Value)> = Vec::new();
    let mut cur = i;
    proof {
        assert(spec_entries(out@) =~= Seq::<(Seq<char>, SpecValue)>::empty());
    }
    loop
        invariant
            i <= cur <= s@.len(),
            parse_members(s@, i as int, Seq::empty()) == parse_members(
                s@,
                cur as int,
                spec_entries(out@),
            ),
        decreases s@.len() - cur,
    {
        if cur >= n {
            return None;
        }
        if s.get_char(cur) != '"' {
            return None;
        }
        match p_string_rest(s, cur + 1) {
            None => {
                return None;
            },
            Some((k, j)) => {
                if j < n && s.get_char(j) == ':' {
                    match p_value(s, j + 1) {
                        None => {
                            return None;
                        },
                        Some((v, j2)) => {
                            let ghost prev = out@;
                            let ghost kk = k@;
                            let ghost vv = v@;
                            out.push((k, v));
                            proof {
                                lemma_spec_entries_push(prev, out@.last());
                                assert(spec_entries(out@) == spec_entries(prev).push((kk, vv)));
                            }
                            if j2 < n && s.get_char(j2) == ',' {
                                cur = j2 + 1;
                            } else {
                                return Some((out, j2));
                            }
                        },
                    }
                } else {
                    return None;
                }
            },
        }
    }
}

// ---------------------------------------------------------------------
// The parser inverts the renderer
// ---------------------------------------------------------------------
/// Characters a rendered value can start with.
pub open spec fn lead_char(c: char) -> bool {
    c == 'n' || c == 't' || c == 'f' || c == '"' || c == '[' || c == '{' || is_digit(c)
}

/// A rendered number is a non-empty digit run, with a zero in front
/// exactly for the number zero.
proof fn lemma_render_u64_props(n: int)
    requires
        n >= 0,
    ensures
        render_u64(n).len() >= 1,
        forall|k: int| 0 <= k < render_u64(n).len() ==> is_digit(#[trigger] render_u64(n)[k]),
        (render_u64(n)[0] == '0') == (n == 0),
    decreases n,
{
    if n < 10 {
        assert(render_u64(n) =~= seq![digit_char(n)]);
    } else {
        lemma_render_u64_props(n / 10);
        let p = render_u64(n / 10);
        assert(render_u64(n) =~= p.push(digit_char(n % 10)));
        assert(is_digit(digit_char(n % 10)));
        assert(render_u64(n)[0] == p[0]);
        assert(n / 10 > 0);
    }
}

/// The value of a digit run depends only on its characters.
proof fn lemma_digits_val_congruence(s1: Seq<char>, s2: Seq<char>, i1: int, i2: int, len: int)
    requires
        len >= 0,
        forall|k: int| 0 <= k < len ==> s1[i1 + k] == #[trigger] s2[i2 + k],
    ensures
        digits_val(s1, i1, i1 + len) == digits_val(s2, i2, i2 + len),
    decreases len,
{
    if len > 0 {
        lemma_digits_val_congruence(s1, s2, i1, i2, len - 1);
        assert(s1[i1 + (len - 1)] == s2[i2 + (len - 1)]);
    }
}

/// A digit run bounded by a non-digit (or the end) stops exactly there.
proof fn lemma_digits_end_of(s: Seq<char>, i: int, e: int)
    requires
        0 <= i <= e <= s.len(),
        forall|k: int| i <= k < e ==> is_digit(s[k]),
        e == s.len() || !is_digit(s[e]),
    ensures
        digits_end(s, i) == e,
    decreases e - i,
{
    if i < e {
        lemma_digits_end_of(s, i + 1, e);
    }
}

/// Rendering then reading digits gives the number back.
proof fn lemma_render_u64_val(n: int)
    requires
        n >= 0,
    ensures
        digits_val(render_u64(n), 0, render_u64(n).len() as int) == n,
    decreases n,
{
    if n < 10 {
        let s = render_u64(n);
        assert(s =~= seq![digit_char(n)]);
        assert(digits_val(s, 0, 1) == digits_val(s, 0, 0) * 10 + digit_val(s[0]));
        assert(digit_val(digit_char(n)) == n);
    } else {
        lemma_render_u64_val(n / 10);
        let p = render_u64(n / 10);
        let s = render_u64(n);
        let lp = p.len() as int;
        assert(s =~= p.push(digit_char(n % 10)));
        assert(forall|k: int| 0 <= k < lp ==> s[0 + k] == #[trigger] p[0 + k]);
        lemma_digits_val_congruence(s, p, 0, 0, lp);
        assert(digits_val(s, 0, lp + 1) == digits_val(s, 0, lp) * 10 + digit_val(s[lp]));
        assert(digit_val(digit_char(n % 10)) == n % 10);
        assert(n / 10 * 10 + n % 10 == n);
    }
}

/// A rendered number embedded in a larger text parses to itself.
proof fn lemma_rt_number(s: Seq<char>, i: int, n: u64)
    requires
        0 <= i,
        i + render_u64(n as int).len() <= s.len(),
        s.subrange(i, i + render_u64(n as int).len() as int) == render_u64(n as int),
        i + render_u64(n as int).len() == s.len() || !is_digit(
            s[i + render_u64(n as int).len()],
        ),
    ensures
        parse_number(s, i) == Some((n, i + render_u64(n as int).len())),
{
    let r = render_u64(n as int);
    let rl = r.len() as int;
    lemma_render_u64_props(n as int);
    assert(forall|k: int| 0 <= k < rl ==> s[i + k] == #[trigger] r[k]) by {
        assert(forall|k: int|
            0 <= k < rl ==> s[i + k] == #[trigger] s.subrange(i, i + rl)[k]);
    }
    assert(forall|k: int| i <= k < i + rl ==> is_digit(s[k])) by {
        assert(forall|k: int| i <= k < i + rl ==> s[k] == r[k - i]);
    }
    lemma_digits_end_of(s, i, i + rl);
    lemma_render_u64_val(n as int);
    lemma_digits_val_congruence(s, r, i, 0, rl);
    assert(digits_val(s, i, i + rl) == n);
    assert(s[i] == r[0]);
    if n == 0 {
        assert(rl == 1);
    } else {
        assert(s[i] != '0');
    }
}

/// A rendered, escaped string body followed by a closing quote parses
/// back to the original characters.
proof fn lemma_rt_string_rest(s: Seq<char>, i: int, cs: Seq<char>)
    requires
        0 <= i,
        i + esc_seq(cs).len() + 1 <= s.len(),
        s.subrange(i, i + esc_seq(cs).len() as int) == esc_seq(cs),
        s[i + esc_seq(cs).len()] == '"',
    ensures
        parse_string_rest(s, i) == Some((cs, i + esc_seq(cs).len() + 1)),
    decreases cs.len(),
{
    let el = esc_seq(cs).len() as int;
    assert(forall|k: int| 0 <= k < el ==> s[i + k] == #[trigger] esc_seq(cs)[k]) by {
        assert(forall|k: int|
            0 <= k < el ==> s[i + k] == #[trigger] s.subrange(i, i + el)[k]);
    }
    if cs.len() == 0 {
        assert(s[i] == '"');
    } else {
        let c = cs.first();
        let rest = cs.drop_first();
        let ec = esc_char(c);
        assert(esc_seq(cs) == ec + esc_seq(rest));
        let el2 = esc_seq(rest).len() as int;
        assert(el == ec.len() + el2);
        assert(forall|k: int| 0 <= k < el2 ==> esc_seq(cs)[ec.len() + k] == #[trigger] esc_seq(
            rest,
        )[k]);
        if c == '"' || c == '\\' {
            assert(ec =~= seq!['\\', c]);
            assert(s[i + 0] == esc_seq(cs)[0] && esc_seq(cs)[0] == ec[0]);
            assert(s[i + 1] == esc_seq(cs)[1] && esc_seq(cs)[1] == ec[1]);
            assert(s[i] == '\\');
            assert(s[i + 1] == c);
            assert(s.subrange(i + 2, i + 2 + el2) =~= esc_seq(rest)) by {
                assert(forall|k: int|
                    0 <= k < el2 ==> #[trigger] s.subrange(i + 2, i + 2 + el2)[k] == s[i + 2 + k]);
                assert(forall|k: int| 0 <= k < el2 ==> s[i + 2 + k] == esc_seq(rest)[k]);
            }
            lemma_rt_string_rest(s, i + 2, rest);
            assert(seq![s[i + 1]] + rest =~= cs);
        } else {
            assert(ec =~= seq![c]);
            assert(s[i + 0] == esc_seq(cs)[0] && esc_seq(cs)[0] == ec[0]);
            assert(s[i] == c);
            assert(s[i] != '"' && s[i] != '\\');
            assert(s.subrange(i + 1, i + 1 + el2) =~= esc_seq(rest)) by {
                assert(forall|k: int|
                    0 <= k < el2 ==> #[trigger] s.subrange(i + 1, i + 1 + el2)[k] == s[i + 1 + k]);
                assert(forall|k: int| 0 <= k < el2 ==> s[i + 1 + k] == esc_seq(rest)[k]);
            }
            lemma_rt_string_rest(s, i + 1, rest);
            assert(seq![s[i]] + rest =~= cs);
        }
    }
}

/// Every rendered value is non-empty and starts with a lead character.
proof fn lemma_render_value_lead(v: SpecValue)
    ensures
        render_value(v).len() >= 1,
        lead_char(render_value(v)[0]),
    decreases v,
{
    match v {
        SpecValue::Null => {},
        SpecValue::Boolean(b) => {},
        SpecValue::Number(n) => {
            lemma_render_u64_props(n as int);
        },
        SpecValue::String(cs) => {},
        SpecValue::Array(items) => {},
        SpecValue::Object(es) => {},
    }
}

/// A rendered value embedded in a larger text parses back to itself,
/// provided a rendered number is not followed by a further digit.
#[verifier::spinoff_prover]
#[verifier::rlimit(60)]
proof fn lemma_rt_value(s: Seq<char>, i: int, v: SpecValue)
    requires
        0 <= i,
        i + render_value(v).len() <= s.len(),
        s.subrange(i, i + render_value(v).len() as int) == render_value(v),
        (v is Number) ==> (i + render_value(v).len() == s.len() || !is_digit(
            s[i + render_value(v).len()],
        )),
    ensures
        parse_value(s, i) == Some((v, i + render_value(v).len())),
    decreases v, 0int,
{
    let r = render_value(v);
    let rl = r.len() as int;
    lemma_render_value_lead(v);
    assert(forall|k: int| 0 <= k < rl ==> s[i + k] == #[trigger] r[k]) by {
        assert(forall|k: int|
            0 <= k < rl ==> s[i + k] == #[trigger] s.subrange(i, i + rl)[k]);
    }
    match v {
        SpecValue::Null => {
            assert(s[i + 0] == r[0] && r[0] == 'n');
            assert(s[i + 1] == r[1] && r[1] == 'u');
            assert(s[i + 2] == r[2] && r[2] == 'l');
            assert(s[i + 3] == r[3] && r[3] == 'l');
            assert(rl == 4);
            assert(parse_value(s, i) == Some((SpecValue::Null, i + 4)));
        },
        SpecValue::Boolean(b) => {
            if b {
                assert(s[i + 0] == r[0] && r[0] == 't');
                assert(s[i + 1] == r[1] && r[1] == 'r');
                assert(s[i + 2] == r[2] && r[2] == 'u');
                assert(s[i + 3] == r[3] && r[3] == 'e');
            } else {
                assert(s[i + 0] == r[0] && r[0] == 'f');
                assert(s[i + 1] == r[1] && r[1] == 'a');
                assert(s[i + 2] == r[2] && r[2] == 'l');
                assert(s[i + 3] == r[3] && r[3] == 's');
                assert(s[i + 4] == r[4] && r[4] == 'e');
            }
        },
        SpecValue::Number(n) => {
            lemma_render_u64_props(n as int);
            assert(s[i + 0] == r[0]);
            assert(is_digit(s[i]));
            lemma_rt_number(s, i, n);
        },
        SpecValue::String(cs) => {
            let el = esc_seq(cs).len() as int;
            assert(rl == el + 2);
            assert(s[i + 0] == r[0] && r[0] == '"');
            assert(s.subrange(i + 1, i + 1 + el) =~= esc_seq(cs)) by {
                assert(forall|k: int|
                    0 <= k < el ==> #[trigger] s.subrange(i + 1, i + 1 + el)[k] == s[i + 1 + k]);
                assert(forall|k: int| 0 <= k < el ==> r[1 + k] == #[trigger] esc_seq(cs)[k]);
            }
            assert(s[i + 1 + el] == r[1 + el] && r[1 + el] == '"');
            lemma_rt_string_rest(s, i + 1, cs);
        },
        SpecValue::Array(items) => {
            assert(s[i + 0] == r[0] && r[0] == '[');
            if items.len() == 0 {
                assert(render_items(items) == Seq::<char>::empty());
                assert(rl == 2);
                assert(s[i + 1] == r[1] && r[1] == ']');
            } else {
                let ril = render_items(items).len() as int;
                assert(rl == ril + 2);
                assert(s.subrange(i + 1, i + 1 + ril) =~= render_items(items)) by {
                    assert(forall|k: int|
                        0 <= k < ril ==> #[trigger] s.subrange(i + 1, i + 1 + ril)[k] == s[i + 1
                            + k]);
                    assert(forall|k: int|
                        0 <= k < ril ==> r[1 + k] == #[trigger] render_items(items)[k]);
                }
                lemma_render_value_lead(items.first());
                assert(render_items(items)[0] == render_value(items.first())[0]);
                assert(s[i + 1] == r[1]);
                assert(lead_char(s[i + 1]));
                assert(s[i + 1] != ']');
                assert(s[i + 1 + ril] == r[1 + ril] && r[1 + ril] == ']');
                assert(decreases_to!(v => v->Array_0));
                lemma_rt_items(s, i + 1, items, Seq::empty());
                assert(Seq::<SpecValue>::empty() + items =~= items);
            }
        },
        SpecValue::Object(es) => {
            assert(s[i + 0] == r[0] && r[0] == '{');
            if es.len() == 0 {
                assert(render_members(es) == Seq::<char>::empty());
                assert(rl == 2);
                assert(s[i + 1] == r[1] && r[1] == '}');
            } else {
                let rml = render_members(es).len() as int;
                assert(rl == rml + 2);
                assert(s.subrange(i + 1, i + 1 + rml) =~= render_members(es)) by {
                    assert(forall|k: int|
                        0 <= k < rml ==> #[trigger] s.subrange(i + 1, i + 1 + rml)[k] == s[i + 1
                            + k]);
                    assert(forall|k: int|
                        0 <= k < rml ==> r[1 + k] == #[trigger] render_members(es)[k]);
                }
                assert(render_members(es)[0] == render_string(es.first().0)[0]);
                assert(render_string(es.first().0)[0] == '"');
                assert(s[i + 1] == r[1]);
                assert(s[i + 1] != '}');
                assert(s[i + 1 + rml] == r[1 + rml] && r[1 + rml] == '}');
                assert(decreases_to!(v => v->Object_0));
                lemma_rt_members(s, i + 1, es, Seq::empty());
                assert(Seq::<(Seq<char>, SpecValue)>::empty() + es =~= es);
            }
        },
    }
}

/// A rendered, non-empty item list followed by `]` parses back to the
/// accumulated items.
proof fn lemma_rt_items(s: Seq<char>, i: int, items: Seq<SpecValue>, acc: Seq<SpecValue>)
    requires
        items.len() >= 1,
        0 <= i,
        i + render_items(items).len() < s.len(),
        s.subrange(i, i + render_items(items).len() as int) == render_items(items),
        s[i + render_items(items).len()] == ']',
    ensures
        parse_items(s, i, acc) == Some((acc + items, i + render_items(items).len())),
    decreases items, 1int,
{
    let r = render_items(items);
    let rl = r.len() as int;
    assert(forall|k: int| 0 <= k < rl ==> s[i + k] == #[trigger] r[k]) by {
        assert(forall|k: int|
            0 <= k < rl ==> s[i + k] == #[trigger] s.subrange(i, i + rl)[k]);
    }
    let v0 = items.first();
    let rv = render_value(v0);
    let rvl = rv.len() as int;
    lemma_render_value_lead(v0);
    assert(decreases_to!(items => items[0]));
    assert(items[0] == v0);
    if items.len() == 1 {
        assert(r == rv);
        assert(s.subrange(i, i + rvl) == render_value(v0));
        lemma_rt_value(s, i, v0);
        assert(acc.push(v0) =~= acc + items) by {
            assert(items =~= seq![v0]);
        }
    } else {
        let rest = items.drop_first();
        let rr = render_items(rest);
        let rrl = rr.len() as int;
        assert(r == rv + seq![','] + rr);
        assert(rl == rvl + 1 + rrl);
        assert(s.subrange(i, i + rvl) =~= rv) by {
            assert(forall|k: int|
                0 <= k < rvl ==> #[trigger] s.subrange(i, i + rvl)[k] == s[i + k]);
            assert(forall|k: int| 0 <= k < rvl ==> r[k] == #[trigger] rv[k]);
        }
        assert(s[i + rvl] == r[rvl] && r[rvl] == ',');
        lemma_rt_value(s, i, v0);
        assert(s.subrange(i + rvl + 1, i + rvl + 1 + rrl) =~= rr) by {
            assert(forall|k: int|
                0 <= k < rrl ==> #[trigger] s.subrange(i + rvl + 1, i + rvl + 1 + rrl)[k] == s[i
                    + rvl + 1 + k]);
            assert(forall|k: int| 0 <= k < rrl ==> r[rvl + 1 + k] == #[trigger] rr[k]);
        }
        assert(s[i + rvl + 1 + rrl] == ']');
        lemma_rt_items(s, i + rvl + 1, rest, acc.push(v0));
        assert(acc.push(v0) + rest =~= acc + items);
    }
}

/// A rendered, non-empty member list followed by `}` parses back to the
/// accumulated members.
proof fn lemma_rt_members(
    s: Seq<char>,
    i: int,
    es: Seq<(Seq<char>, SpecValue)>,
    acc: Seq<(Seq<char>, SpecValue)>,
)
    requires
        es.len() >= 1,
        0 <= i,
        i + render_members(es).len() < s.len(),
        s.subrange(i, i + render_members(es).len() as int) == render_members(es),
        s[i + render_members(es).len()] == '}',
    ensures
        parse_members(s, i, acc) == Some((acc + es, i + render_members(es).len())),
    decreases es, 1int,
{
    let r = render_members(es);
    let rl = r.len() as int;
    assert(forall|k: int| 0 <= k < rl ==> s[i + k] == #[trigger] r[k]) by {
        assert(forall|k: int|
            0 <= k < rl ==> s[i + k] == #[trigger] s.subrange(i, i + rl)[k]);
    }
    let e0 = es.first();
    let k0 = e0.0;
    let v0 = e0.1;
    let rk = render_string(k0);
    let rkl = rk.len() as int;
    let el = esc_seq(k0).len() as int;
    let rv = render_value(v0);
    let rvl = rv.len() as int;
    let head = rk + seq![':'] + rv;
    let hl = rkl + 1 + rvl;
    assert(decreases_to!(es => es[0]));
    assert(es[0] == e0);
    assert(decreases_to!(e0 => e0.1));
    lemma_render_value_lead(v0);
    assert(rkl == el + 2);
    if es.len() == 1 {
        assert(r == head);
    } else {
        assert(r == head + seq![','] + render_members(es.drop_first()));
    }
    assert(forall|k: int| 0 <= k < hl ==> r[k] == #[trigger] head[k]);
    assert(s[i + 0] == r[0] && r[0] == '"');
    assert(s.subrange(i + 1, i + 1 + el) =~= esc_seq(k0)) by {
        assert(forall|k: int|
            0 <= k < el ==> #[trigger] s.subrange(i + 1, i + 1 + el)[k] == s[i + 1 + k]);
        assert(forall|k: int| 0 <= k < el ==> head[1 + k] == #[trigger] esc_seq(k0)[k]);
        assert(forall|k: int| 0 <= k < el ==> rk[1 + k] == #[trigger] esc_seq(k0)[k]);
    }
    assert(s[i + 1 + el] == r[1 + el] && head[1 + el] == rk[1 + el] && rk[1 + el] == '"');
    lemma_rt_string_rest(s, i + 1, k0);
    assert(parse_string_rest(s, i + 1) == Some((k0, i + rkl)));
    assert(s[i + rkl] == r[rkl] && head[rkl] == ':');
    assert(s.subrange(i + rkl + 1, i + rkl + 1 + rvl) =~= rv) by {
        assert(forall|k: int|
            0 <= k < rvl ==> #[trigger] s.subrange(i + rkl + 1, i + rkl + 1 + rvl)[k] == s[i + rkl
                + 1 + k]);
        assert(forall|k: int| 0 <= k < rvl ==> head[rkl + 1 + k] == #[trigger] rv[k]);
    }
    if es.len() == 1 {
        assert(s[i + hl] == '}');
        lemma_rt_value(s, i + rkl + 1, v0);
        assert(parse_members(s, i, acc) == Some((acc.push((k0, v0)), i + hl)));
        assert(acc.push(e0) =~= acc + es) by {
            assert(es =~= seq![e0]);
        }
    } else {
        let rest = es.drop_first();
        let rr = render_members(rest);
        let rrl = rr.len() as int;
        assert(rl == hl + 1 + rrl);
        assert(s[i + hl] == r[hl] && r[hl] == ',');
        lemma_rt_value(s, i + rkl + 1, v0);
        assert(s.subrange(i + hl + 1, i + hl + 1 + rrl) =~= rr) by {
            assert(forall|k: int|
                0 <= k < rrl ==> #[trigger] s.subrange(i + hl + 1, i + hl + 1 + rrl)[k] == s[i + hl
                    + 1 + k]);
            assert(forall|k: int| 0 <= k < rrl ==> r[hl + 1 + k] == #[trigger] rr[k]);
        }
        assert(s[i + hl + 1 + rrl] == '}');
        lemma_rt_members(s, i + hl + 1, rest, acc.push(e0));
        assert(acc.push(e0) + rest =~= acc + es);
    }
}

/// Law: parsing inverts rendering.  The text of any value parses back
/// to exactly that value.
pub proof fn lemma_value_text_roundtrip(v: SpecValue)
    ensures
        parse_text(render_value(v)) == Some(v),
{
    let r = render_value(v);
    lemma_render_value_lead(v);
    assert(r.subrange(0, r.len() as int) =~= r);
    lemma_rt_value(r, 0, v);
}

/// Parse a full text into a value; the whole input must be one value.
pub fn value_from_text(s: &str) -> (r: Option<Value>)
    ensures
        match r {
            Some(v) => parse_text(s@) == Some(v@),
            None => parse_text(s@) is None,
        },
{
    match p_value(s, 0) {
        None => None,
        Some((v, j)) => {
            if j == s.unicode_len() {
                Some(v)
            } else {
                None
            }
        },
    }
}

} // verus!
