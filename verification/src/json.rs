//! JSON values, their text form, and the parser for it.
//!
//! The remote API speaks JSON; the records of this crate are encoded into and
//! decoded from the value tree defined here.  Numbers are restricted to
//! integers (the record fields are integral).  Strings carry every
//! character: the writer escapes the short forms and writes the remaining
//! controls as `\u00XY`; the reader takes the short forms and full `\uXXXX`
//! escapes, surrogate pairs included.

use vstd::prelude::*;

verus! {

broadcast use vstd::string::group_string_axioms;

/// The mathematical model of a JSON value: strings as character sequences,
/// integers unbounded, objects as key/value sequences in document order.
pub enum JsonV {
    Null,
    Bool(bool),
    Int(int),
    Str(Seq<char>),
    Arr(Seq<JsonV>),
    Obj(Seq<(Seq<char>, JsonV)>),
}

/// A JSON value as held at run time.
#[derive(Debug, PartialEq)]
pub enum Json {
    Null,
    Bool(bool),
    Int(i64),
    Str(String),
    Arr(Vec<Json>),
    Obj(Vec<(String, Json)>),
}

pub open spec fn views_of_items(s: Seq<Json>) -> Seq<JsonV>
    decreases s,
{
    if s.len() == 0 {
        Seq::empty()
    } else {
        seq![s[0].view()] + views_of_items(s.drop_first())
    }
}

pub open spec fn views_of_fields(s: Seq<(String, Json)>) -> Seq<(Seq<char>, JsonV)>
    decreases s,
{
    if s.len() == 0 {
        Seq::empty()
    } else {
        seq![(s[0].0@, s[0].1.view())] + views_of_fields(s.drop_first())
    }
}

impl View for Json {
    type V = JsonV;

    open spec fn view(&self) -> JsonV
        decreases self,
    {
        match self {
            Json::Null => JsonV::Null,
            Json::Bool(b) => JsonV::Bool(*b),
            Json::Int(n) => JsonV::Int(*n as int),
            Json::Str(s) => JsonV::Str(s@),
            Json::Arr(v) => JsonV::Arr(views_of_items(v@)),
            Json::Obj(v) => JsonV::Obj(views_of_fields(v@)),
        }
    }
}

/// Values the serializer can write and the parser hands back unchanged:
/// integers within `i64`; strings carry any characters.
pub open spec fn wf(v: JsonV) -> bool
    decreases v,
{
    match v {
        JsonV::Null => true,
        JsonV::Bool(_) => true,
        JsonV::Int(n) => i64::MIN <= n <= i64::MAX,
        JsonV::Str(_) => true,
        JsonV::Arr(items) => forall|i: int| 0 <= i < items.len() ==> wf(#[trigger] items[i]),
        JsonV::Obj(fields) => forall|i: int| 0 <= i < fields.len() ==> wf(
            #[trigger] fields[i].1,
        ),
    }
}

/// The codepoint of a character.
pub open spec fn code_of(c: char) -> int {
    c as int
}

/// The character with the given scalar value.
pub open spec fn char_of(v: int) -> char {
    choose|c: char| #[trigger] code_of(c) == v
}


/// The value of one hex digit, upper or lower case.
pub open spec fn hex_val(c: char) -> Option<int> {
    if '0' <= c && c <= '9' {
        Some(c as int - 48)
    } else if 'a' <= c && c <= 'f' {
        Some(c as int - 87)
    } else if 'A' <= c && c <= 'F' {
        Some(c as int - 55)
    } else {
        None
    }
}

/// The lower-case hex digit for a value below 16.
pub open spec fn hex_digit_char(d: int) -> char {
    if d < 10 {
        ((48 + d) as u8) as char
    } else {
        ((87 + d) as u8) as char
    }
}

/// The value of the four hex digits at `i`, if all four are hex digits.
pub open spec fn hex4(s: Seq<char>, i: int) -> Option<int> {
    if i + 4 <= s.len() && hex_val(s[i]) is Some && hex_val(s[i + 1]) is Some && hex_val(
        s[i + 2],
    ) is Some && hex_val(s[i + 3]) is Some {
        Some(
            hex_val(s[i])->0 * 4096 + hex_val(s[i + 1])->0 * 256 + hex_val(s[i + 2])->0 * 16
                + hex_val(s[i + 3])->0,
        )
    } else {
        None
    }
}

pub open spec fn is_digit(c: char) -> bool {
    '0' <= c && c <= '9'
}

pub open spec fn digit_char(d: int) -> char {
    ((48 + d) as u8) as char
}

/// Decimal digits of `n`, most significant first; `n` must be nonnegative.
pub open spec fn nat_chars(n: int) -> Seq<char>
    decreases n,
{
    if n < 10 {
        seq![digit_char(n)]
    } else {
        nat_chars(n / 10) + seq![digit_char(n % 10)]
    }
}

/// The decimal form of an integer, `-`-prefixed when negative.
pub open spec fn int_chars(n: int) -> Seq<char> {
    if n < 0 {
        seq!['-'] + nat_chars(-n)
    } else {
        nat_chars(n)
    }
}

/// The text standing for one string character: itself, a short escape, or
/// `\u00XY` for a control without a short form.
pub open spec fn esc_char(c: char) -> Seq<char> {
    if c == '"' {
        seq!['\\', '"']
    } else if c == '\\' {
        seq!['\\', '\\']
    } else if c == '\n' {
        seq!['\\', 'n']
    } else if c == '\t' {
        seq!['\\', 't']
    } else if c == '\r' {
        seq!['\\', 'r']
    } else if c == '\u{8}' {
        seq!['\\', 'b']
    } else if c == '\u{c}' {
        seq!['\\', 'f']
    } else if (c as u32) < 0x20 {
        seq!['\\', 'u', '0', '0', hex_digit_char((c as int) / 16), hex_digit_char((c as int) % 16)]
    } else {
        seq![c]
    }
}

pub open spec fn escape(s: Seq<char>) -> Seq<char>
    decreases s,
{
    if s.len() == 0 {
        Seq::empty()
    } else {
        esc_char(s[0]) + escape(s.drop_first())
    }
}

/// The text form of a value: no whitespace, fields in order, strings quoted
/// and escaped.
pub open spec fn ser(v: JsonV) -> Seq<char>
    decreases v, 1int,
{
    match v {
        JsonV::Null => "null"@,
        JsonV::Bool(b) => if b {
            "true"@
        } else {
            "false"@
        },
        JsonV::Int(n) => int_chars(n),
        JsonV::Str(s) => seq!['"'] + escape(s) + seq!['"'],
        JsonV::Arr(items) => seq!['['] + ser_items(items) + seq![']'],
        JsonV::Obj(fields) => seq!['{'] + ser_fields(fields) + seq!['}'],
    }
}

pub open spec fn ser_items(items: Seq<JsonV>) -> Seq<char>
    decreases items, 0int,
{
    if items.len() == 0 {
        Seq::empty()
    } else if items.len() == 1 {
        ser(items[0])
    } else {
        ser(items[0]) + seq![','] + ser_items(items.drop_first())
    }
}

pub open spec fn ser_field(f: (Seq<char>, JsonV)) -> Seq<char>
    decreases f, 2int,
{
    seq!['"'] + escape(f.0) + seq!['"', ':'] + ser(f.1)
}

pub open spec fn ser_fields(fields: Seq<(Seq<char>, JsonV)>) -> Seq<char>
    decreases fields, 0int,
{
    if fields.len() == 0 {
        Seq::empty()
    } else if fields.len() == 1 {
        ser_field(fields[0])
    } else {
        ser_field(fields[0]) + seq![','] + ser_fields(fields.drop_first())
    }
}

pub proof fn lemma_views_of_items_index(s: Seq<Json>, i: int)
    requires
        0 <= i < s.len(),
    ensures
        views_of_items(s).len() == s.len(),
        views_of_items(s)[i] == s[i]@,
    decreases s,
{
    lemma_views_of_items_len(s);
    assert(views_of_items(s) == seq![s[0]@] + views_of_items(s.drop_first()));
    if i > 0 {
        lemma_views_of_items_index(s.drop_first(), i - 1);
        assert(views_of_items(s)[i] == views_of_items(s.drop_first())[i - 1]);
    }
}

pub proof fn lemma_views_of_items_len(s: Seq<Json>)
    ensures
        views_of_items(s).len() == s.len(),
    decreases s,
{
    if s.len() > 0 {
        assert(views_of_items(s) == seq![s[0]@] + views_of_items(s.drop_first()));
        lemma_views_of_items_len(s.drop_first());
    } else {
        assert(views_of_items(s) == Seq::<JsonV>::empty());
    }
}

pub proof fn lemma_views_of_fields_index(s: Seq<(String, Json)>, i: int)
    requires
        0 <= i < s.len(),
    ensures
        views_of_fields(s).len() == s.len(),
        views_of_fields(s)[i] == (s[i].0@, s[i].1@),
    decreases s,
{
    lemma_views_of_fields_len(s);
    assert(views_of_fields(s) == seq![(s[0].0@, s[0].1@)] + views_of_fields(s.drop_first()));
    if i > 0 {
        lemma_views_of_fields_index(s.drop_first(), i - 1);
        assert(views_of_fields(s)[i] == views_of_fields(s.drop_first())[i - 1]);
    }
}

pub proof fn lemma_views_of_fields_len(s: Seq<(String, Json)>)
    ensures
        views_of_fields(s).len() == s.len(),
    decreases s,
{
    if s.len() > 0 {
        assert(views_of_fields(s) == seq![(s[0].0@, s[0].1@)] + views_of_fields(s.drop_first()));
        lemma_views_of_fields_len(s.drop_first());
    } else {
        assert(views_of_fields(s) == Seq::<(Seq<char>, JsonV)>::empty());
    }
}

pub proof fn lemma_views_of_items_push(s: Seq<Json>, j: Json)
    ensures
        views_of_items(s.push(j)) =~= views_of_items(s) + seq![j@],
    decreases s,
{
    if s.len() == 0 {
        assert(s.push(j).drop_first() =~= Seq::<Json>::empty());
        assert(views_of_items(s.push(j)) == seq![j@] + views_of_items(s.push(j).drop_first()));
        assert(views_of_items(s) == Seq::<JsonV>::empty());
        assert(views_of_items(s.push(j).drop_first()) == Seq::<JsonV>::empty());
    } else {
        assert(s.push(j)[0] == s[0]);
        assert(views_of_items(s.push(j)) == seq![s[0]@] + views_of_items(s.push(j).drop_first()));
        assert(views_of_items(s) == seq![s[0]@] + views_of_items(s.drop_first()));
        assert(s.push(j).drop_first() =~= s.drop_first().push(j));
        lemma_views_of_items_push(s.drop_first(), j);
    }
}

pub proof fn lemma_views_of_fields_push(s: Seq<(String, Json)>, f: (String, Json))
    ensures
        views_of_fields(s.push(f)) =~= views_of_fields(s) + seq![(f.0@, f.1@)],
    decreases s,
{
    if s.len() == 0 {
        assert(s.push(f).drop_first() =~= Seq::<(String, Json)>::empty());
        assert(views_of_fields(s.push(f)) == seq![(f.0@, f.1@)] + views_of_fields(
            s.push(f).drop_first(),
        ));
        assert(views_of_fields(s) == Seq::<(Seq<char>, JsonV)>::empty());
        assert(views_of_fields(s.push(f).drop_first()) == Seq::<(Seq<char>, JsonV)>::empty());
    } else {
        assert(s.push(f)[0] == s[0]);
        assert(views_of_fields(s.push(f)) == seq![(s[0].0@, s[0].1@)] + views_of_fields(
            s.push(f).drop_first(),
        ));
        assert(views_of_fields(s) == seq![(s[0].0@, s[0].1@)] + views_of_fields(s.drop_first()));
        assert(s.push(f).drop_first() =~= s.drop_first().push(f));
        lemma_views_of_fields_push(s.drop_first(), f);
    }
}

/// Relies on std's `String::push`: appends the given character at the end of
/// the string.
#[verifier::external_body]
fn push_char(s: &mut String, c: char)
    ensures
        final(s)@ == old(s)@.push(c),
{
    s.push(c);
}

/// The decimal digits of `n`, written most significant first.
fn write_nat(out: &mut String, n: u64)
    ensures
        final(out)@ == old(out)@ + nat_chars(n as int),
    decreases n,
{
    if n < 10 {
        push_char(out, (48 + (n as u8)) as char);
        assert(old(out)@.push(digit_char(n as int)) =~= old(out)@ + nat_chars(n as int));
    } else {
        assert(n / 10 < n && n / 10 >= 1) by (nonlinear_arith)
            requires n >= 10,
        ;
        write_nat(out, n / 10);
        push_char(out, (48 + ((n % 10) as u8)) as char);
        assert((old(out)@ + nat_chars(n as int / 10)).push(digit_char(n as int % 10)) =~= old(
            out,
        )@ + nat_chars(n as int));
    }
}

/// The decimal form of `n`, `-`-prefixed when negative.
pub fn int_to_string(n: i64) -> (r: String)
    ensures
        r@ == int_chars(n as int),
{
    let mut out = String::new();
    if n >= 0 {
        write_nat(&mut out, n as u64);
    } else {
        push_char(&mut out, '-');
        let mag: u64 = if n == i64::MIN {
            9223372036854775808u64
        } else {
            (-n) as u64
        };
        write_nat(&mut out, mag);
        assert(Seq::<char>::empty().push('-') + nat_chars(mag as int) =~= int_chars(n as int));
    }
    out
}

/// The lower-case hex digit for a value below 16.
fn hex_char_x(d: u32) -> (r: char)
    requires
        d < 16,
    ensures
        r == hex_digit_char(d as int),
{
    if d < 10 {
        (48 + d as u8) as char
    } else {
        (87 + d as u8) as char
    }
}

fn write_escaped_from(out: &mut String, s: &str, i: usize)
    requires
        i <= s@.len(),
    ensures
        final(out)@ == old(out)@ + escape(s@.subrange(i as int, s@.len() as int)),
    decreases s@.len() - i,
{
    let n = s.unicode_len();
    if i < n {
        let c = s.get_char(i);
        if c == '"' {
            push_char(out, '\\');
            push_char(out, '"');
        } else if c == '\\' {
            push_char(out, '\\');
            push_char(out, '\\');
        } else if c == '\n' {
            push_char(out, '\\');
            push_char(out, 'n');
        } else if c == '\t' {
            push_char(out, '\\');
            push_char(out, 't');
        } else if c == '\r' {
            push_char(out, '\\');
            push_char(out, 'r');
        } else if c == '\u{8}' {
            push_char(out, '\\');
            push_char(out, 'b');
        } else if c == '\u{c}' {
            push_char(out, '\\');
            push_char(out, 'f');
        } else if (c as u32) < 0x20 {
            push_char(out, '\\');
            push_char(out, 'u');
            push_char(out, '0');
            push_char(out, '0');
            let code: u32 = c as u32;
            push_char(out, hex_char_x(code / 16));
            push_char(out, hex_char_x(code % 16));
        } else {
            push_char(out, c);
        }
        assert(out@ =~= old(out)@ + esc_char(c));
        write_escaped_from(out, s, i + 1);
        proof {
            let whole = s@.subrange(i as int, s@.len() as int);
            assert(whole.drop_first() =~= s@.subrange(i + 1, s@.len() as int));
            assert((old(out)@ + esc_char(c)) + escape(whole.drop_first()) =~= old(out)@ + escape(
                whole,
            ));
        }
    } else {
        assert(escape(s@.subrange(i as int, s@.len() as int)) =~= Seq::<char>::empty());
        assert(out@ =~= old(out)@ + Seq::<char>::empty());
    }
}

fn write_quoted(out: &mut String, s: &str)
    ensures
        final(out)@ == old(out)@ + seq!['"'] + escape(s@) + seq!['"'],
{
    push_char(out, '"');
    write_escaped_from(out, s, 0);
    push_char(out, '"');
    assert(s@.subrange(0, s@.len() as int) =~= s@);
    assert(((old(out)@.push('"')) + escape(s@)).push('"') =~= old(out)@ + seq!['"'] + escape(s@)
        + seq!['"']);
}

fn write_value(out: &mut String, j: &Json)
    ensures
        final(out)@ == old(out)@ + ser(j@),
    decreases j, 1int,
{
    match j {
        Json::Null => {
            out.append("null");
        },
        Json::Bool(b) => {
            if *b {
                out.append("true");
            } else {
                out.append("false");
            }
        },
        Json::Int(n) => {
            let t = int_to_string(*n);
            out.append(t.as_str());
        },
        Json::Str(s) => {
            write_quoted(out, s.as_str());
            assert(old(out)@ + seq!['"'] + escape(s@) + seq!['"'] =~= old(out)@ + ser(j@));
        },
        Json::Arr(v) => {
            push_char(out, '[');
            if v.len() > 0 {
                write_items_from(out, v, 0);
                proof {
                    lemma_views_of_items_len(v@);
                    assert(views_of_items(v@).subrange(0, v@.len() as int) =~= views_of_items(v@));
                }
            } else {
                assert(views_of_items(v@) =~= Seq::<JsonV>::empty());
            }
            push_char(out, ']');
            assert(((old(out)@.push('[')) + ser_items(views_of_items(v@))).push(']') =~= old(
                out,
            )@ + ser(j@));
        },
        Json::Obj(v) => {
            push_char(out, '{');
            if v.len() > 0 {
                write_fields_from(out, v, 0);
                proof {
                    lemma_views_of_fields_len(v@);
                    assert(views_of_fields(v@).subrange(0, v@.len() as int) =~= views_of_fields(
                        v@,
                    ));
                }
            } else {
                assert(views_of_fields(v@) =~= Seq::<(Seq<char>, JsonV)>::empty());
            }
            push_char(out, '}');
            assert(((old(out)@.push('{')) + ser_fields(views_of_fields(v@))).push('}') =~= old(
                out,
            )@ + ser(j@));
        },
    }
}

fn write_items_from(out: &mut String, v: &Vec<Json>, i: usize)
    requires
        i < v@.len(),
    ensures
        final(out)@ == old(out)@ + ser_items(
            views_of_items(v@).subrange(i as int, v@.len() as int),
        ),
    decreases v, v@.len() - i, 0int,
{
    proof {
        lemma_views_of_items_index(v@, i as int);
    }
    let ghost part = views_of_items(v@).subrange(i as int, v@.len() as int);
    write_value(out, &v[i]);
    if i < v.len() - 1 {
        push_char(out, ',');
        write_items_from(out, v, i + 1);
        proof {
            assert(part.drop_first() =~= views_of_items(v@).subrange(i + 1, v@.len() as int));
            assert(part[0] == v@[i as int]@);
            assert(((old(out)@ + ser(v@[i as int]@)).push(',')) + ser_items(part.drop_first())
                =~= old(out)@ + ser_items(part));
        }
    } else {
        proof {
            assert(part.len() == 1);
            assert(part[0] == v@[i as int]@);
        }
    }
}

fn write_fields_from(out: &mut String, v: &Vec<(String, Json)>, i: usize)
    requires
        i < v@.len(),
    ensures
        final(out)@ == old(out)@ + ser_fields(
            views_of_fields(v@).subrange(i as int, v@.len() as int),
        ),
    decreases v, v@.len() - i, 0int,
{
    proof {
        lemma_views_of_fields_index(v@, i as int);
    }
    let ghost part = views_of_fields(v@).subrange(i as int, v@.len() as int);
    let ghost pre = out@;
    write_quoted(out, v[i].0.as_str());
    push_char(out, ':');
    write_value(out, &v[i].1);
    assert(out@ =~= pre + ser_field(part[0]));
    if i < v.len() - 1 {
        push_char(out, ',');
        write_fields_from(out, v, i + 1);
        proof {
            assert(part.drop_first() =~= views_of_fields(v@).subrange(i + 1, v@.len() as int));
            assert(((pre + ser_field(part[0])).push(',')) + ser_fields(part.drop_first()) =~= pre
                + ser_fields(part));
        }
    } else {
        proof {
            assert(part.len() == 1);
        }
    }
}

/// The text form of a value: field order kept, no whitespace written.
pub fn to_text(j: &Json) -> (r: String)
    ensures
        r@ == ser(j@),
{
    let mut out = String::new();
    write_value(&mut out, j);
    proof {
        assert(Seq::<char>::empty() + ser(j@) =~= ser(j@));
    }
    out
}

pub open spec fn is_ws(c: char) -> bool {
    c == ' ' || c == '\t' || c == '\n' || c == '\r'
}

pub open spec fn ws_count(s: Seq<char>, i: int) -> nat
    decreases s.len() - i,
{
    if i < s.len() && is_ws(s[i]) {
        (1 + ws_count(s, i + 1)) as nat
    } else {
        0
    }
}

/// First position at or after `i` holding no whitespace.
pub open spec fn skip_ws(s: Seq<char>, i: int) -> int {
    i + ws_count(s, i)
}

/// The character named by a two-character escape, if the second character is
/// a known escape name.
pub open spec fn unesc_char(c: char) -> Option<char> {
    if c == '"' {
        Some('"')
    } else if c == '\\' {
        Some('\\')
    } else if c == '/' {
        Some('/')
    } else if c == 'n' {
        Some('\n')
    } else if c == 't' {
        Some('\t')
    } else if c == 'r' {
        Some('\r')
    } else if c == 'b' {
        Some('\u{8}')
    } else if c == 'f' {
        Some('\u{c}')
    } else {
        None
    }
}

/// Reads a quoted string from just after its opening quote to just after its
/// closing quote, undoing escapes.
pub open spec fn parse_string_body(s: Seq<char>, i: int) -> Option<(Seq<char>, int)>
    decreases s.len() - i,
{
    if i >= s.len() {
        None
    } else if s[i] == '"' {
        Some((Seq::empty(), i + 1))
    } else if s[i] == '\\' {
        if i + 1 < s.len() {
            if s[i + 1] == 'u' {
                match hex4(s, i + 2) {
                    None => None,
                    Some(v) => if 0xD800 <= v < 0xDC00 {
                        // a high surrogate: the low half must follow at once
                        if i + 12 <= s.len() && s[i + 6] == '\\' && s[i + 7] == 'u' {
                            match hex4(s, i + 8) {
                                None => None,
                                Some(w) => if 0xDC00 <= w < 0xE000 {
                                    let cp = 0x10000 + (v - 0xD800) * 0x400 + (w - 0xDC00);
                                    match parse_string_body(s, i + 12) {
                                        Some(r) => Some((seq![char_of(cp)] + r.0, r.1)),
                                        None => None,
                                    }
                                } else {
                                    None
                                },
                            }
                        } else {
                            None
                        }
                    } else if 0xDC00 <= v < 0xE000 {
                        None
                    } else {
                        match parse_string_body(s, i + 6) {
                            Some(r) => Some((seq![char_of(v)] + r.0, r.1)),
                            None => None,
                        }
                    },
                }
            } else {
                match unesc_char(s[i + 1]) {
                    Some(c) => match parse_string_body(s, i + 2) {
                        Some(r) => Some((seq![c] + r.0, r.1)),
                        None => None,
                    },
                    None => None,
                }
            }
        } else {
            None
        }
    } else {
        match parse_string_body(s, i + 1) {
            Some(r) => Some((seq![s[i]] + r.0, r.1)),
            None => None,
        }
    }
}

pub open spec fn digit_count(s: Seq<char>, i: int) -> nat
    decreases s.len() - i,
{
    if i < s.len() && is_digit(s[i]) {
        (1 + digit_count(s, i + 1)) as nat
    } else {
        0
    }
}

/// Value of the digit run `s[i..j]`, most significant first.
pub open spec fn digits_val(s: Seq<char>, i: int, j: int) -> int
    decreases j - i,
{
    if i < j {
        digits_val(s, i, j - 1) * 10 + (s[j - 1] as int - 48)
    } else {
        0
    }
}

/// Reads an integer number token at `i`; a token carrying a fraction or an
/// exponent, or a value outside `i64`, is not taken.
pub open spec fn parse_number(s: Seq<char>, i: int) -> Option<(JsonV, int)> {
    let d0 = if s[i] == '-' { i + 1 } else { i };
    let d1 = d0 + digit_count(s, d0);
    if d1 == d0 {
        None
    } else if d1 < s.len() && (s[d1] == '.' || s[d1] == 'e' || s[d1] == 'E') {
        None
    } else {
        let mag = digits_val(s, d0, d1);
        let n: int = if s[i] == '-' { -mag } else { mag };
        if i64::MIN <= n <= i64::MAX {
            Some((JsonV::Int(n), d1))
        } else {
            None
        }
    }
}

/// Reads one value whose first character stands at `i`.
pub open spec fn parse_value(s: Seq<char>, i: int) -> Option<(JsonV, int)>
    decreases s.len() - i, 0int,
{
    if i >= s.len() {
        None
    } else if s[i] == 'n' {
        if i + 4 <= s.len() && s.subrange(i, i + 4) == "null"@ {
            Some((JsonV::Null, i + 4))
        } else {
            None
        }
    } else if s[i] == 't' {
        if i + 4 <= s.len() && s.subrange(i, i + 4) == "true"@ {
            Some((JsonV::Bool(true), i + 4))
        } else {
            None
        }
    } else if s[i] == 'f' {
        if i + 5 <= s.len() && s.subrange(i, i + 5) == "false"@ {
            Some((JsonV::Bool(false), i + 5))
        } else {
            None
        }
    } else if s[i] == '"' {
        match parse_string_body(s, i + 1) {
            Some(r) => Some((JsonV::Str(r.0), r.1)),
            None => None,
        }
    } else if s[i] == '-' || is_digit(s[i]) {
        parse_number(s, i)
    } else if s[i] == '[' {
        let j = skip_ws(s, i + 1);
        if j < s.len() && s[j] == ']' {
            Some((JsonV::Arr(Seq::empty()), j + 1))
        } else {
            match parse_items(s, i + 1) {
                Some(r) => Some((JsonV::Arr(r.0), r.1)),
                None => None,
            }
        }
    } else if s[i] == '{' {
        let j = skip_ws(s, i + 1);
        if j < s.len() && s[j] == '}' {
            Some((JsonV::Obj(Seq::empty()), j + 1))
        } else {
            match parse_fields(s, i + 1) {
                Some(r) => Some((JsonV::Obj(r.0), r.1)),
                None => None,
            }
        }
    } else {
        None
    }
}

/// Reads the elements of a nonempty array, from just after `[` or `,` to just
/// after the closing `]`.
pub open spec fn parse_items(s: Seq<char>, i: int) -> Option<(Seq<JsonV>, int)>
    decreases s.len() - i, 1int,
{
    let j = skip_ws(s, i);
    if j >= s.len() {
        None
    } else {
        match parse_value(s, j) {
            None => None,
            Some(r) => {
                let (v, j2) = r;
                if j2 <= j {
                    None
                } else {
                    let j3 = skip_ws(s, j2);
                    if j3 < s.len() && s[j3] == ',' {
                        match parse_items(s, j3 + 1) {
                            Some(rest) => Some((seq![v] + rest.0, rest.1)),
                            None => None,
                        }
                    } else if j3 < s.len() && s[j3] == ']' {
                        Some((seq![v], j3 + 1))
                    } else {
                        None
                    }
                }
            },
        }
    }
}

/// Reads the fields of a nonempty object, from just after `{` or `,` to just
/// after the closing `}`.
pub open spec fn parse_fields(s: Seq<char>, i: int) -> Option<(Seq<(Seq<char>, JsonV)>, int)>
    decreases s.len() - i, 1int,
{
    let j = skip_ws(s, i);
    if j < s.len() && s[j] == '"' {
        match parse_string_body(s, j + 1) {
            None => None,
            Some(kr) => {
                let (key, j2) = kr;
                if j2 <= j {
                    None
                } else {
                    let j3 = skip_ws(s, j2);
                    if j3 < s.len() && s[j3] == ':' {
                        let jv = skip_ws(s, j3 + 1);
                        if jv >= s.len() {
                            None
                        } else {
                            match parse_value(s, jv) {
                                None => None,
                                Some(vr) => {
                                    let (v, j4) = vr;
                                    if j4 <= jv {
                                        None
                                    } else {
                                        let j5 = skip_ws(s, j4);
                                        if j5 < s.len() && s[j5] == ',' {
                                            match parse_fields(s, j5 + 1) {
                                                Some(rest) => Some(
                                                    (seq![(key, v)] + rest.0, rest.1),
                                                ),
                                                None => None,
                                            }
                                        } else if j5 < s.len() && s[j5] == '}' {
                                            Some((seq![(key, v)], j5 + 1))
                                        } else {
                                            None
                                        }
                                    }
                                },
                            }
                        }
                    } else {
                        None
                    }
                }
            },
        }
    } else {
        None
    }
}

/// `o` with `p` prepended to the sequence it carries, when it carries one.
pub open spec fn opt_prepend<A>(p: Seq<A>, o: Option<(Seq<A>, int)>) -> Option<(Seq<A>, int)> {
    match o {
        Some(r) => Some((p + r.0, r.1)),
        None => None,
    }
}

proof fn lemma_prepend_nil<A>(o: Option<(Seq<A>, int)>)
    ensures
        opt_prepend(Seq::<A>::empty(), o) == o,
{
    match o {
        Some(r) => {
            assert(Seq::<A>::empty() + r.0 =~= r.0);
        },
        None => {},
    }
}

proof fn lemma_prepend_one<A>(p: Seq<A>, x: A, o: Option<(Seq<A>, int)>)
    ensures
        opt_prepend(p, opt_prepend(seq![x], o)) == opt_prepend(p.push(x), o),
{
    match o {
        Some(r) => {
            assert(p + (seq![x] + r.0) =~= p.push(x) + r.0);
        },
        None => {},
    }
}

/// First position at or after `i` holding no whitespace.
fn skip_ws_x(s: &str, i: usize) -> (r: usize)
    ensures
        r as int == skip_ws(s@, i as int),
        i <= r,
        i <= s@.len() ==> r <= s@.len(),
{
    let n = s.unicode_len();
    if i >= n {
        assert(ws_count(s@, i as int) == 0);
        return i;
    }
    let mut j = i;
    loop
        invariant
            i <= j <= n,
            n == s@.len(),
            skip_ws(s@, i as int) == skip_ws(s@, j as int),
        decreases n - j,
    {
        if j >= n {
            assert(ws_count(s@, j as int) == 0);
            return j;
        }
        let c = s.get_char(j);
        if c == ' ' || c == '\t' || c == '\n' || c == '\r' {
            assert(ws_count(s@, j as int) == 1 + ws_count(s@, j + 1));
            j = j + 1;
        } else {
            assert(ws_count(s@, j as int) == 0);
            return j;
        }
    }
}

fn unesc_x(c: char) -> (r: Option<char>)
    ensures
        r == unesc_char(c),
{
    if c == '"' {
        Some('"')
    } else if c == '\\' {
        Some('\\')
    } else if c == '/' {
        Some('/')
    } else if c == 'n' {
        Some('\n')
    } else if c == 't' {
        Some('\t')
    } else if c == 'r' {
        Some('\r')
    } else if c == 'b' {
        Some('\u{8}')
    } else if c == 'f' {
        Some('\u{c}')
    } else {
        None
    }
}

fn hex_val_x(c: char) -> (r: Option<u32>)
    ensures
        match r {
            Some(v) => hex_val(c) == Some(v as int) && v < 16,
            None => hex_val(c) is None,
        },
{
    if c >= '0' && c <= '9' {
        Some(c as u32 - 48)
    } else if c >= 'a' && c <= 'f' {
        Some(c as u32 - 87)
    } else if c >= 'A' && c <= 'F' {
        Some(c as u32 - 55)
    } else {
        None
    }
}

fn hex4_x(s: &str, i: usize) -> (r: Option<u32>)
    ensures
        match r {
            Some(v) => hex4(s@, i as int) == Some(v as int) && v < 0x10000,
            None => hex4(s@, i as int) is None,
        },
{
    let n = s.unicode_len();
    if i >= n || n - i < 4 {
        return None;
    }
    let d0 = match hex_val_x(s.get_char(i)) {
        Some(v) => v,
        None => {
            return None;
        },
    };
    let d1 = match hex_val_x(s.get_char(i + 1)) {
        Some(v) => v,
        None => {
            return None;
        },
    };
    let d2 = match hex_val_x(s.get_char(i + 2)) {
        Some(v) => v,
        None => {
            return None;
        },
    };
    let d3 = match hex_val_x(s.get_char(i + 3)) {
        Some(v) => v,
        None => {
            return None;
        },
    };
    Some(d0 * 4096 + d1 * 256 + d2 * 16 + d3)
}

/// Relies on std's `char::from_u32`: `Some` exactly for values below the
/// surrogate range or from its end up to 0x10FFFF, and the character
/// returned carries that scalar value.
#[verifier::external_body]
fn char_from_u32(v: u32) -> (r: Option<char>)
    ensures
        r matches Some(c) ==> c as u32 == v,
        r is Some <==> (v < 0xD800 || (0xE000 <= v && v <= 0x10FFFF)),
{
    char::from_u32(v)
}

/// A character's codepoint read as `int` and as `u32` is the same number.
proof fn lemma_char_cast(c: char)
    ensures
        c as int == (c as u32) as int,
        0 <= c as int <= 0x10FFFF,
{
}

proof fn lemma_char_of_code(c: char, v: int)
    requires
        c as int == v,
    ensures
        char_of(v) == c,
{
    assert(exists|x: char| #[trigger] code_of(x) == v) by {
        assert(code_of(c) == v);
    }
    assert(code_of(char_of(v)) == v);
}

fn parse_string_body_x(s: &str, i: usize) -> (r: Option<(String, usize)>)
    ensures
        match r {
            Some(p) => parse_string_body(s@, i as int) == Some((p.0@, p.1 as int)) && i < p.1
                <= s@.len(),
            None => parse_string_body(s@, i as int) is None,
        },
{
    let n = s.unicode_len();
    let mut j = i;
    let mut out = String::new();
    loop
        invariant
            i <= j,
            n == s@.len(),
            parse_string_body(s@, i as int) == opt_prepend(
                out@,
                parse_string_body(s@, j as int),
            ),
        decreases n - j,
    {
        if j >= n {
            return None;
        }
        let c = s.get_char(j);
        if c == '"' {
            proof {
                assert(parse_string_body(s@, j as int) == Some((Seq::<char>::empty(), j + 1)));
                assert(out@ + Seq::<char>::empty() =~= out@);
            }
            return Some((out, j + 1));
        } else if c == '\\' {
            if j + 1 >= n {
                return None;
            }
            let e = s.get_char(j + 1);
            if e == 'u' {
                let v = match hex4_x(s, j + 2) {
                    Some(v) => v,
                    None => {
                        return None;
                    },
                };
                if v >= 0xD800 && v < 0xDC00 {
                    if n - j >= 12 && s.get_char(j + 6) == '\\' && s.get_char(j + 7) == 'u' {
                        let w = match hex4_x(s, j + 8) {
                            Some(w) => w,
                            None => {
                                return None;
                            },
                        };
                        if w >= 0xDC00 && w < 0xE000 {
                            let cp: u32 = 0x10000 + (v - 0xD800) * 0x400 + (w - 0xDC00);
                            let ch = match char_from_u32(cp) {
                                Some(ch) => ch,
                                None => {
                                    proof {
                                        assert(false);
                                    }
                                    return None;
                                },
                            };
                            proof {
                                assert(cp as int == 0x10000 + (v as int - 0xD800) * 0x400 + (
                                w as int - 0xDC00));
                                assert(ch as u32 == cp);
                                lemma_char_cast(ch);
                                assert(ch as int == cp as int);
                                lemma_char_of_code(ch, cp as int);
                                assert(parse_string_body(s@, j as int) == opt_prepend(
                                    seq![char_of(cp as int)],
                                    parse_string_body(s@, j + 12),
                                ));
                                lemma_prepend_one(out@, ch, parse_string_body(s@, j + 12));
                            }
                            push_char(&mut out, ch);
                            j = j + 12;
                        } else {
                            return None;
                        }
                    } else {
                        return None;
                    }
                } else if v >= 0xDC00 && v < 0xE000 {
                    return None;
                } else {
                    let ch = match char_from_u32(v) {
                        Some(ch) => ch,
                        None => {
                            proof {
                                assert(false);
                            }
                            return None;
                        },
                    };
                    proof {
                        assert(ch as u32 == v);
                        lemma_char_cast(ch);
                        assert(ch as int == v as int);
                        lemma_char_of_code(ch, v as int);
                        assert(parse_string_body(s@, j as int) == opt_prepend(
                            seq![char_of(v as int)],
                            parse_string_body(s@, j + 6),
                        ));
                        lemma_prepend_one(out@, ch, parse_string_body(s@, j + 6));
                    }
                    push_char(&mut out, ch);
                    j = j + 6;
                }
            } else {
                match unesc_x(e) {
                    None => {
                        return None;
                    },
                    Some(u) => {
                        proof {
                            assert(parse_string_body(s@, j as int) == opt_prepend(
                                seq![unesc_char(s@[j as int + 1])->0],
                                parse_string_body(s@, j + 2),
                            ));
                            lemma_prepend_one(out@, u, parse_string_body(s@, j + 2));
                        }
                        push_char(&mut out, u);
                        j = j + 2;
                    },
                }
            }
        } else {
            proof {
                assert(parse_string_body(s@, j as int) == opt_prepend(
                    seq![s@[j as int]],
                    parse_string_body(s@, j + 1),
                ));
                lemma_prepend_one(out@, c, parse_string_body(s@, j + 1));
            }
            push_char(&mut out, c);
            j = j + 1;
        }
    }
}

proof fn lemma_digits_val_nonneg(s: Seq<char>, a: int, b: int)
    requires
        forall|k: int| a <= k < b ==> is_digit(#[trigger] s[k]),
    ensures
        0 <= digits_val(s, a, b),
    decreases b - a,
{
    if a < b {
        lemma_digits_val_nonneg(s, a, b - 1);
        assert(s[b - 1] as int - 48 >= 0);
        assert(digits_val(s, a, b - 1) * 10 >= 0) by (nonlinear_arith)
            requires digits_val(s, a, b - 1) >= 0,
        ;
    }
}

fn parse_number_x(s: &str, i: usize) -> (r: Option<(Json, usize)>)
    requires
        i < s@.len(),
        s@[i as int] == '-' || is_digit(s@[i as int]),
    ensures
        match r {
            Some(p) => parse_number(s@, i as int) == Some((p.0@, p.1 as int)) && i < p.1
                <= s@.len(),
            None => parse_number(s@, i as int) is None,
        },
{
    let n = s.unicode_len();
    let neg = s.get_char(i) == '-';
    let d0: usize = if neg {
        i + 1
    } else {
        i
    };
    let mut j = d0;
    let mut mag: u64 = 0;
    let mut over = false;
    loop
        invariant
            d0 <= j <= n,
            n == s@.len(),
            digit_count(s@, d0 as int) == (j - d0) + digit_count(s@, j as int),
            forall|k: int| d0 <= k < j ==> is_digit(#[trigger] s@[k]),
            !over ==> mag as int == digits_val(s@, d0 as int, j as int),
            over ==> digits_val(s@, d0 as int, j as int) > u64::MAX as int,
        ensures
            d0 <= j <= n,
            n == s@.len(),
            digit_count(s@, d0 as int) == (j - d0) + digit_count(s@, j as int),
            forall|k: int| d0 <= k < j ==> is_digit(#[trigger] s@[k]),
            !over ==> mag as int == digits_val(s@, d0 as int, j as int),
            over ==> digits_val(s@, d0 as int, j as int) > u64::MAX as int,
            j == n || !is_digit(s@[j as int]),
        decreases n - j,
    {
        if j >= n {
            break;
        }
        let c = s.get_char(j);
        if !(c >= '0' && c <= '9') {
            break;
        }
        let d: u64 = (c as u32 - 48) as u64;
        proof {
            assert(digits_val(s@, d0 as int, j + 1) == digits_val(s@, d0 as int, j as int) * 10 + (
            s@[j as int] as int - 48));
            assert(digit_count(s@, j as int) == 1 + digit_count(s@, j + 1));
        }
        if over {
            proof {
                assert(digits_val(s@, d0 as int, j as int) * 10 + (s@[j as int] as int - 48)
                    > u64::MAX as int) by (nonlinear_arith)
                    requires
                        digits_val(s@, d0 as int, j as int) > u64::MAX as int,
                        s@[j as int] as int - 48 >= 0,
                ;
            }
        } else {
            if mag > (u64::MAX - d) / 10 {
                proof {
                    assert(mag as int * 10 + d as int > u64::MAX as int) by (nonlinear_arith)
                        requires
                            mag as int > (u64::MAX as int - d as int) / 10,
                            0 <= d as int <= 9,
                            mag as int >= 0,
                    ;
                }
                over = true;
            } else {
                proof {
                    assert(mag as int * 10 + d as int <= u64::MAX as int) by (nonlinear_arith)
                        requires
                            mag as int <= (u64::MAX as int - d as int) / 10,
                            0 <= d as int <= 9,
                            mag as int >= 0,
                    ;
                }
                mag = mag * 10 + d;
            }
        }
        j = j + 1;
    }
    proof {
        assert(digit_count(s@, j as int) == 0);
        assert(digit_count(s@, d0 as int) == j - d0);
    }
    if j == d0 {
        return None;
    }
    if j < n {
        let c = s.get_char(j);
        if c == '.' || c == 'e' || c == 'E' {
            return None;
        }
    }
    proof {
        lemma_digits_val_nonneg(s@, d0 as int, j as int);
    }
    let ghost mag_s = digits_val(s@, d0 as int, j as int);
    if over {
        return None;
    }
    if !neg {
        if mag > 9223372036854775807u64 {
            None
        } else {
            Some((Json::Int(mag as i64), j))
        }
    } else {
        if mag > 9223372036854775808u64 {
            None
        } else if mag == 9223372036854775808u64 {
            Some((Json::Int(i64::MIN), j))
        } else {
            Some((Json::Int(-(mag as i64)), j))
        }
    }
}

fn parse_value_x(s: &str, i: usize) -> (r: Option<(Json, usize)>)
    ensures
        match r {
            Some(p) => parse_value(s@, i as int) == Some((p.0@, p.1 as int)) && i < p.1
                <= s@.len(),
            None => parse_value(s@, i as int) is None,
        },
    decreases s@.len() - i, 0int,
{
    let n = s.unicode_len();
    if i >= n {
        return None;
    }
    let c = s.get_char(i);
    if c == 'n' {
        proof {
            reveal_strlit("null");
        }
        if n - i >= 4 && s.get_char(i + 1) == 'u' && s.get_char(i + 2) == 'l' && s.get_char(i + 3)
            == 'l' {
            proof {
                assert(s@.subrange(i as int, i as int + 4) =~= "null"@);
            }
            Some((Json::Null, i + 4))
        } else {
            proof {
                if i as int + 4 <= s@.len() {
                    assert(s@.subrange(i as int, i as int + 4)[1] == s@[i as int + 1]);
                    assert(s@.subrange(i as int, i as int + 4)[2] == s@[i as int + 2]);
                    assert(s@.subrange(i as int, i as int + 4)[3] == s@[i as int + 3]);
                }
            }
            None
        }
    } else if c == 't' {
        proof {
            reveal_strlit("true");
        }
        if n - i >= 4 && s.get_char(i + 1) == 'r' && s.get_char(i + 2) == 'u' && s.get_char(i + 3)
            == 'e' {
            proof {
                assert(s@.subrange(i as int, i as int + 4) =~= "true"@);
            }
            Some((Json::Bool(true), i + 4))
        } else {
            proof {
                if i as int + 4 <= s@.len() {
                    assert(s@.subrange(i as int, i as int + 4)[1] == s@[i as int + 1]);
                    assert(s@.subrange(i as int, i as int + 4)[2] == s@[i as int + 2]);
                    assert(s@.subrange(i as int, i as int + 4)[3] == s@[i as int + 3]);
                }
            }
            None
        }
    } else if c == 'f' {
        proof {
            reveal_strlit("false");
        }
        if n - i >= 5 && s.get_char(i + 1) == 'a' && s.get_char(i + 2) == 'l' && s.get_char(i + 3)
            == 's' && s.get_char(i + 4) == 'e' {
            proof {
                assert(s@.subrange(i as int, i as int + 5) =~= "false"@);
            }
            Some((Json::Bool(false), i + 5))
        } else {
            proof {
                if i as int + 5 <= s@.len() {
                    assert(s@.subrange(i as int, i as int + 5)[1] == s@[i as int + 1]);
                    assert(s@.subrange(i as int, i as int + 5)[2] == s@[i as int + 2]);
                    assert(s@.subrange(i as int, i as int + 5)[3] == s@[i as int + 3]);
                    assert(s@.subrange(i as int, i as int + 5)[4] == s@[i as int + 4]);
                }
            }
            None
        }
    } else if c == '"' {
        match parse_string_body_x(s, i + 1) {
            Some(p) => Some((Json::Str(p.0), p.1)),
            None => None,
        }
    } else if c == '-' || (c >= '0' && c <= '9') {
        parse_number_x(s, i)
    } else if c == '[' {
        let j = skip_ws_x(s, i + 1);
        if j < n && s.get_char(j) == ']' {
            let v: Vec<Json> = Vec::new();
            proof {
                assert(views_of_items(v@) == Seq::<JsonV>::empty());
            }
            Some((Json::Arr(v), j + 1))
        } else {
            match parse_items_x(s, i + 1) {
                Some(p) => Some((Json::Arr(p.0), p.1)),
                None => None,
            }
        }
    } else if c == '{' {
        let j = skip_ws_x(s, i + 1);
        if j < n && s.get_char(j) == '}' {
            let v: Vec<(String, Json)> = Vec::new();
            proof {
                assert(views_of_fields(v@) == Seq::<(Seq<char>, JsonV)>::empty());
            }
            Some((Json::Obj(v), j + 1))
        } else {
            match parse_fields_x(s, i + 1) {
                Some(p) => Some((Json::Obj(p.0), p.1)),
                None => None,
            }
        }
    } else {
        None
    }
}

fn parse_items_x(s: &str, i: usize) -> (r: Option<(Vec<Json>, usize)>)
    ensures
        match r {
            Some(p) => parse_items(s@, i as int) == Some((views_of_items(p.0@), p.1 as int)) && i
                < p.1 <= s@.len(),
            None => parse_items(s@, i as int) is None,
        },
    decreases s@.len() - i, 1int,
{
    let n = s.unicode_len();
    let mut acc: Vec<Json> = Vec::new();
    let mut cur = i;
    proof {
        assert(views_of_items(acc@) == Seq::<JsonV>::empty());
        lemma_prepend_nil(parse_items(s@, i as int));
    }
    loop
        invariant
            i <= cur,
            n == s@.len(),
            parse_items(s@, i as int) == opt_prepend(
                views_of_items(acc@),
                parse_items(s@, cur as int),
            ),
        decreases n - cur,
    {
        let j = skip_ws_x(s, cur);
        if j >= n {
            return None;
        }
        match parse_value_x(s, j) {
            None => {
                return None;
            },
            Some(p) => {
                let (v, j2) = p;
                let j3 = skip_ws_x(s, j2);
                if j3 < n && s.get_char(j3) == ',' {
                    proof {
                        assert(parse_items(s@, cur as int) == opt_prepend(
                            seq![v@],
                            parse_items(s@, j3 + 1),
                        ));
                        lemma_prepend_one(views_of_items(acc@), v@, parse_items(s@, j3 + 1));
                        lemma_views_of_items_push(acc@, v);
                        assert(views_of_items(acc@).push(v@) =~= views_of_items(acc@.push(v)));
                    }
                    acc.push(v);
                    cur = j3 + 1;
                } else if j3 < n && s.get_char(j3) == ']' {
                    proof {
                        assert(parse_items(s@, cur as int) == Some((seq![v@], j3 + 1)));
                        lemma_views_of_items_push(acc@, v);
                        assert(views_of_items(acc@) + seq![v@] =~= views_of_items(acc@.push(v)));
                    }
                    acc.push(v);
                    return Some((acc, j3 + 1));
                } else {
                    return None;
                }
            },
        }
    }
}

fn parse_fields_x(s: &str, i: usize) -> (r: Option<(Vec<(String, Json)>, usize)>)
    ensures
        match r {
            Some(p) => parse_fields(s@, i as int) == Some((views_of_fields(p.0@), p.1 as int))
                && i < p.1 <= s@.len(),
            None => parse_fields(s@, i as int) is None,
        },
    decreases s@.len() - i, 1int,
{
    let n = s.unicode_len();
    let mut acc: Vec<(String, Json)> = Vec::new();
    let mut cur = i;
    proof {
        assert(views_of_fields(acc@) == Seq::<(Seq<char>, JsonV)>::empty());
        lemma_prepend_nil(parse_fields(s@, i as int));
    }
    loop
        invariant
            i <= cur,
            n == s@.len(),
            parse_fields(s@, i as int) == opt_prepend(
                views_of_fields(acc@),
                parse_fields(s@, cur as int),
            ),
        decreases n - cur,
    {
        let j = skip_ws_x(s, cur);
        if !(j < n && s.get_char(j) == '"') {
            return None;
        }
        match parse_string_body_x(s, j + 1) {
            None => {
                return None;
            },
            Some(kp) => {
                let (key, j2) = kp;
                let j3 = skip_ws_x(s, j2);
                if !(j3 < n && s.get_char(j3) == ':') {
                    return None;
                }
                let jv = skip_ws_x(s, j3 + 1);
                if jv >= n {
                    return None;
                }
                match parse_value_x(s, jv) {
                    None => {
                        return None;
                    },
                    Some(vp) => {
                        let (v, j4) = vp;
                        let j5 = skip_ws_x(s, j4);
                        if j5 < n && s.get_char(j5) == ',' {
                            proof {
                                assert(parse_fields(s@, cur as int) == opt_prepend(
                                    seq![(key@, v@)],
                                    parse_fields(s@, j5 + 1),
                                ));
                                lemma_prepend_one(
                                    views_of_fields(acc@),
                                    (key@, v@),
                                    parse_fields(s@, j5 + 1),
                                );
                                lemma_views_of_fields_push(acc@, (key, v));
                                assert(views_of_fields(acc@).push((key@, v@)) =~= views_of_fields(
                                    acc@.push((key, v)),
                                ));
                            }
                            acc.push((key, v));
                            cur = j5 + 1;
                        } else if j5 < n && s.get_char(j5) == '}' {
                            proof {
                                assert(parse_fields(s@, cur as int) == Some(
                                    (seq![(key@, v@)], j5 + 1),
                                ));
                                lemma_views_of_fields_push(acc@, (key, v));
                                assert(views_of_fields(acc@) + seq![(key@, v@)]
                                    =~= views_of_fields(acc@.push((key, v))));
                            }
                            acc.push((key, v));
                            return Some((acc, j5 + 1));
                        } else {
                            return None;
                        }
                    },
                }
            },
        }
    }
}

/// Reads a whole document from text; `None` exactly when the text is not a
/// single well-formed value.
pub fn from_text(s: &str) -> (r: Option<Json>)
    ensures
        match r {
            Some(j) => parse_text(s@) == Some(j@),
            None => parse_text(s@) is None,
        },
{
    let j = skip_ws_x(s, 0);
    match parse_value_x(s, j) {
        None => None,
        Some(p) => {
            let (v, k) = p;
            let e = skip_ws_x(s, k);
            if e == s.unicode_len() {
                Some(v)
            } else {
                None
            }
        },
    }
}

/// Reads a whole document: one value, whitespace allowed around it.
pub open spec fn parse_text(s: Seq<char>) -> Option<JsonV> {
    match parse_value(s, skip_ws(s, 0)) {
        Some(r) => if skip_ws(s, r.1) == s.len() {
            Some(r.0)
        } else {
            None
        },
        None => None,
    }
}

/// The value under `key`, first occurrence in document order.
pub open spec fn find_field(fields: Seq<(Seq<char>, JsonV)>, key: Seq<char>) -> Option<JsonV>
    decreases fields,
{
    if fields.len() == 0 {
        None
    } else if fields[0].0 == key {
        Some(fields[0].1)
    } else {
        find_field(fields.drop_first(), key)
    }
}

/// `find_field` lands on position `p` when the key first stands there.
pub proof fn lemma_find_field_at(fields: Seq<(Seq<char>, JsonV)>, key: Seq<char>, p: int)
    requires
        0 <= p < fields.len(),
        fields[p].0 == key,
        forall|q: int| 0 <= q < p ==> (#[trigger] fields[q]).0 != key,
    ensures
        find_field(fields, key) == Some(fields[p].1),
    decreases p,
{
    if p == 0 {
    } else {
        assert(fields[0].0 != key);
        lemma_find_field_at(fields.drop_first(), key, p - 1);
    }
}

pub open spec fn as_str(o: Option<JsonV>) -> Option<Seq<char>> {
    match o {
        Some(JsonV::Str(s)) => Some(s),
        _ => None,
    }
}

pub open spec fn as_int(o: Option<JsonV>) -> Option<int> {
    match o {
        Some(JsonV::Int(n)) => Some(n),
        _ => None,
    }
}

pub open spec fn as_bool(o: Option<JsonV>) -> Option<bool> {
    match o {
        Some(JsonV::Bool(b)) => Some(b),
        _ => None,
    }
}

pub open spec fn as_arr(o: Option<JsonV>) -> Option<Seq<JsonV>> {
    match o {
        Some(JsonV::Arr(items)) => Some(items),
        _ => None,
    }
}

/// An optional string field: absent or `null` is an accepted absence; a
/// string is an accepted value; anything else is a shape error (`None`).
pub open spec fn as_opt_str(o: Option<JsonV>) -> Option<Option<Seq<char>>> {
    match o {
        None => Some(None),
        Some(JsonV::Null) => Some(None),
        Some(JsonV::Str(s)) => Some(Some(s)),
        _ => None,
    }
}

/// Character-for-character string equality.
pub fn str_eq(a: &str, b: &str) -> (r: bool)
    ensures
        r == (a@ == b@),
{
    let na = a.unicode_len();
    let nb = b.unicode_len();
    if na != nb {
        return false;
    }
    let mut i: usize = 0;
    while i < na
        invariant
            i <= na,
            na == a@.len(),
            na == b@.len(),
            forall|k: int| 0 <= k < i ==> a@[k] == b@[k],
        decreases na - i,
    {
        if a.get_char(i) != b.get_char(i) {
            return false;
        }
        i = i + 1;
    }
    proof {
        assert(a@ =~= b@);
    }
    true
}

/// The field named `key`, by linear search in document order.
pub fn get_field<'a>(fields: &'a Vec<(String, Json)>, key: &str) -> (r: Option<&'a Json>)
    ensures
        match r {
            Some(j) => find_field(views_of_fields(fields@), key@) == Some(j@),
            None => find_field(views_of_fields(fields@), key@) is None,
        },
{
    let ghost whole = views_of_fields(fields@);
    let n = fields.len();
    proof {
        lemma_views_of_fields_len(fields@);
        assert(whole.subrange(0, n as int) =~= whole);
    }
    let mut i: usize = 0;
    while i < n
        invariant
            i <= n,
            n == fields@.len(),
            whole == views_of_fields(fields@),
            find_field(whole, key@) == find_field(
                whole.subrange(i as int, n as int),
                key@,
            ),
            whole.len() == n,
        decreases n - i,
    {
        proof {
            lemma_views_of_fields_index(fields@, i as int);
            assert(whole.subrange(i as int, n as int)[0] == whole[i as int]);
            assert(whole.subrange(i as int, n as int).drop_first() =~= whole.subrange(
                i + 1,
                n as int,
            ));
        }
        if str_eq(fields[i].0.as_str(), key) {
            return Some(&fields[i].1);
        }
        i = i + 1;
    }
    proof {
        assert(whole.subrange(n as int, n as int).len() == 0);
    }
    None
}

/// A string field's value, cloned out.
pub fn get_str(fields: &Vec<(String, Json)>, key: &str) -> (r: Option<String>)
    ensures
        match r {
            Some(s) => as_str(find_field(views_of_fields(fields@), key@)) == Some(s@),
            None => as_str(find_field(views_of_fields(fields@), key@)) is None,
        },
{
    match get_field(fields, key) {
        Some(Json::Str(s)) => Some(s.clone()),
        _ => None,
    }
}

/// An optional string field: `None` for a shape error, `Some(None)` for an
/// absent or `null` field.
pub fn get_opt_str(fields: &Vec<(String, Json)>, key: &str) -> (r: Option<Option<String>>)
    ensures
        match r {
            Some(Some(s)) => as_opt_str(find_field(views_of_fields(fields@), key@)) == Some(
                Some(s@),
            ),
            Some(None) => as_opt_str(find_field(views_of_fields(fields@), key@)) == Some(
                None::<Seq<char>>,
            ),
            None => as_opt_str(find_field(views_of_fields(fields@), key@)) is None,
        },
{
    match get_field(fields, key) {
        None => Some(None),
        Some(Json::Null) => Some(None),
        Some(Json::Str(s)) => Some(Some(s.clone())),
        Some(_) => None,
    }
}

pub fn get_bool(fields: &Vec<(String, Json)>, key: &str) -> (r: Option<bool>)
    ensures
        match r {
            Some(b) => as_bool(find_field(views_of_fields(fields@), key@)) == Some(b),
            None => as_bool(find_field(views_of_fields(fields@), key@)) is None,
        },
{
    match get_field(fields, key) {
        Some(Json::Bool(b)) => Some(*b),
        _ => None,
    }
}

/// An integer field within `i32`.
pub fn get_i32(fields: &Vec<(String, Json)>, key: &str) -> (r: Option<i32>)
    ensures
        match r {
            Some(v) => as_int(find_field(views_of_fields(fields@), key@)) == Some(v as int),
            None => {
                let o = as_int(find_field(views_of_fields(fields@), key@));
                o is None || o->0 < i32::MIN || o->0 > i32::MAX
            },
        },
{
    match get_field(fields, key) {
        Some(Json::Int(n)) => {
            let n = *n;
            if n >= -2147483648i64 && n <= 2147483647i64 {
                Some(n as i32)
            } else {
                None
            }
        },
        _ => None,
    }
}

/// An optional unsigned integer field within `u32`, absent or `null` taken
/// as absence.
pub fn get_opt_u32(fields: &Vec<(String, Json)>, key: &str) -> (r: Option<Option<u32>>)
    ensures
        match r {
            Some(Some(v)) => as_opt_int(find_field(views_of_fields(fields@), key@)) == Some(
                Some(v as int),
            ) && 0 <= v as int <= u32::MAX,
            Some(None) => as_opt_int(find_field(views_of_fields(fields@), key@)) == Some(
                None::<int>,
            ),
            None => {
                let o = as_opt_int(find_field(views_of_fields(fields@), key@));
                o is None || (o->0 matches Some(n) && (n < 0 || n > u32::MAX))
            },
        },
{
    match get_field(fields, key) {
        None => Some(None),
        Some(Json::Null) => Some(None),
        Some(Json::Int(n)) => {
            let n = *n;
            if n >= 0i64 && n <= 4294967295i64 {
                Some(Some(n as u32))
            } else {
                None
            }
        },
        Some(_) => None,
    }
}

/// An optional integer field: absent or `null` is an accepted absence.
pub open spec fn as_opt_int(o: Option<JsonV>) -> Option<Option<int>> {
    match o {
        None => Some(None),
        Some(JsonV::Null) => Some(None),
        Some(JsonV::Int(n)) => Some(Some(n)),
        _ => None,
    }
}

// ---------------------------------------------------------------------------
// The round trip: what the serializer writes, the parser reads back.
// ---------------------------------------------------------------------------

proof fn lemma_skip_ws_at(s: Seq<char>, i: int)
    requires
        0 <= i,
        i == s.len() || !is_ws(s[i]),
    ensures
        skip_ws(s, i) == i,
{
    assert(ws_count(s, i) == 0);
}

proof fn lemma_nat_chars_digits(n: int)
    requires
        n >= 0,
    ensures
        nat_chars(n).len() >= 1,
        forall|k: int| 0 <= k < nat_chars(n).len() ==> is_digit(#[trigger] nat_chars(n)[k]),
    decreases n,
{
    if n < 10 {
        assert(nat_chars(n) == seq![digit_char(n)]);
        assert(is_digit(digit_char(n)));
    } else {
        lemma_nat_chars_digits(n / 10);
        assert(nat_chars(n) == nat_chars(n / 10) + seq![digit_char(n % 10)]);
        assert(is_digit(digit_char(n % 10)));
    }
}

proof fn lemma_digits_val_nat(s: Seq<char>, i: int, n: int)
    requires
        n >= 0,
        0 <= i,
        i + nat_chars(n).len() <= s.len(),
        s.subrange(i, i + nat_chars(n).len()) == nat_chars(n),
    ensures
        digits_val(s, i, i + nat_chars(n).len()) == n,
    decreases n,
{
    let l = nat_chars(n).len() as int;
    if n < 10 {
        assert(nat_chars(n) == seq![digit_char(n)]);
        assert(s[i] == digit_char(n)) by {
            assert(s.subrange(i, i + 1)[0] == s[i]);
        }
        assert(digits_val(s, i, i) == 0);
        assert(digits_val(s, i, i + 1) == s[i] as int - 48);
        assert(digit_char(n) as int == 48 + n);
    } else {
        lemma_nat_chars_digits(n / 10);
        assert(nat_chars(n) == nat_chars(n / 10) + seq![digit_char(n % 10)]);
        assert(s.subrange(i, i + l - 1) =~= nat_chars(n / 10)) by {
            assert forall|k: int| 0 <= k < l - 1 implies #[trigger] s.subrange(i, i + l - 1)[k]
                == nat_chars(n / 10)[k] by {
                assert(s.subrange(i, i + l)[k] == s[i + k]);
            }
        }
        lemma_digits_val_nat(s, i, n / 10);
        assert(s[i + l - 1] == digit_char(n % 10)) by {
            assert(s.subrange(i, i + l)[l - 1] == s[i + l - 1]);
        }
        assert(digits_val(s, i, i + l) == digits_val(s, i, i + l - 1) * 10 + (s[i + l - 1] as int
            - 48));
        assert(digit_char(n % 10) as int == 48 + n % 10);
        assert((n / 10) * 10 + n % 10 == n);
    }
}

proof fn lemma_digit_count_run(s: Seq<char>, i: int, l: int)
    requires
        0 <= i,
        0 <= l,
        i + l <= s.len(),
        forall|k: int| 0 <= k < l ==> is_digit(#[trigger] s[i + k]),
        i + l == s.len() || !is_digit(s[i + l]),
    ensures
        digit_count(s, i) == l,
    decreases l,
{
    if l == 0 {
        assert(digit_count(s, i) == 0);
    } else {
        assert(is_digit(s[i + 0]));
        assert(digit_count(s, i) == 1 + digit_count(s, i + 1));
        assert forall|k: int| 0 <= k < l - 1 implies is_digit(#[trigger] s[i + 1 + k]) by {
            assert(is_digit(s[i + (k + 1)]));
        }
        lemma_digit_count_run(s, i + 1, l - 1);
    }
}

proof fn lemma_hex_digit_val(d: int)
    requires
        0 <= d < 16,
    ensures
        hex_val(hex_digit_char(d)) == Some(d),
{
    let c = hex_digit_char(d);
    if d < 10 {
        assert(c as int == 48 + d);
        assert('0' <= c && c <= '9');
    } else {
        assert(c as int == 87 + d);
        assert('a' <= c && c <= 'f');
        assert(!('0' <= c && c <= '9'));
    }
}

proof fn lemma_esc_char_props(c: char)
    ensures
        esc_char(c).len() == 1 || esc_char(c).len() == 2 || esc_char(c).len() == 6,
        esc_char(c).len() == 2 ==> esc_char(c)[0] == '\\' && esc_char(c)[1] != 'u'
            && unesc_char(esc_char(c)[1]) == Some(c),
        esc_char(c).len() == 1 ==> esc_char(c)[0] == c && c != '"' && c != '\\',
        esc_char(c).len() == 6 ==> esc_char(c) == seq![
            '\\',
            'u',
            '0',
            '0',
            hex_digit_char((c as int) / 16),
            hex_digit_char((c as int) % 16),
        ] && (c as u32) < 0x20,
{
    if c == '"' {
        assert(esc_char(c) == seq!['\\', '"']);
    } else if c == '\\' {
        assert(esc_char(c) == seq!['\\', '\\']);
    } else if c == '\n' {
        assert(esc_char(c) == seq!['\\', 'n']);
    } else if c == '\t' {
        assert(esc_char(c) == seq!['\\', 't']);
    } else if c == '\r' {
        assert(esc_char(c) == seq!['\\', 'r']);
    } else if c == '\u{8}' {
        assert(esc_char(c) == seq!['\\', 'b']);
    } else if c == '\u{c}' {
        assert(esc_char(c) == seq!['\\', 'f']);
    } else if (c as u32) < 0x20 {
        assert(esc_char(c) == seq![
            '\\',
            'u',
            '0',
            '0',
            hex_digit_char((c as int) / 16),
            hex_digit_char((c as int) % 16),
        ]);
    } else {
        assert(esc_char(c) == seq![c]);
    }
}

proof fn lemma_parse_escaped(t: Seq<char>, s: Seq<char>, i: int)
    requires
        0 <= i,
        i + escape(t).len() + 1 <= s.len(),
        s.subrange(i, i + escape(t).len()) == escape(t),
        s[i + escape(t).len()] == '"',
    ensures
        parse_string_body(s, i) == Some((t, i + escape(t).len() + 1)),
    decreases t.len(),
{
    let l = escape(t).len() as int;
    if t.len() == 0 {
        assert(escape(t) == Seq::<char>::empty());
        assert(s[i] == '"');
    } else {
        let e = esc_char(t[0]);
        assert(escape(t) == e + escape(t.drop_first()));
        let l0 = e.len() as int;
        assert forall|k: int| 0 <= k < l implies s[i + k] == escape(t)[k] by {
            assert(s.subrange(i, i + l)[k] == s[i + k]);
        }
        assert(s.subrange(i + l0, i + l) =~= escape(t.drop_first())) by {
            assert forall|k: int| 0 <= k < l - l0 implies s.subrange(i + l0, i + l)[k] == escape(
                t.drop_first(),
            )[k] by {
                assert(s[i + l0 + k] == escape(t)[l0 + k]);
            }
        }
        lemma_esc_char_props(t[0]);
        assert(s[i + 0] == escape(t)[0]);
        assert(escape(t)[0] == e[0]);
        if e.len() == 6 {
            let c = t[0];
            assert((c as u32) < 0x20);
            lemma_char_cast(c);
            assert(0 <= (c as int) && (c as int) < 0x20);
            let hi = (c as int) / 16;
            let lo = (c as int) % 16;
            assert(0 <= hi < 16 && 0 <= lo < 16);
            assert forall|k: int| 0 <= k < 6 implies s[i + k] == e[k] by {
                assert(s[i + k] == escape(t)[k]);
            }
            assert(s[i] == '\\');
            assert(s[i + 1] == 'u');
            assert(s[i + 2] == '0' && s[i + 3] == '0');
            assert(s[i + 4] == hex_digit_char(hi) && s[i + 5] == hex_digit_char(lo));
            lemma_hex_digit_val(hi);
            lemma_hex_digit_val(lo);
            assert(hex_val('0') == Some(0int));
            assert(hex4(s, i + 2) == Some(hi * 16 + lo));
            assert(hi * 16 + lo == c as int);
            assert((c as int) < 0x20);
            lemma_char_of_code(c, c as int);
            lemma_parse_escaped(t.drop_first(), s, i + 6);
            assert(seq![t[0]] + t.drop_first() =~= t);
        } else if e.len() == 2 {
            assert(s[i + 1] == escape(t)[1]);
            assert(escape(t)[1] == e[1]);
            assert(s[i] == '\\');
            assert(s[i + 1] == e[1]);
            assert(unesc_char(e[1]) == Some(t[0]));
            lemma_parse_escaped(t.drop_first(), s, i + 2);
            assert(seq![t[0]] + t.drop_first() =~= t);
        } else {
            assert(e == seq![t[0]]);
            assert(s[i] == t[0]);
            assert(t[0] != '"' && t[0] != '\\');
            lemma_parse_escaped(t.drop_first(), s, i + 1);
            assert(seq![t[0]] + t.drop_first() =~= t);
        }
    }
}

/// The first character the serializer writes: never whitespace, never a
/// closing bracket or separator, and it names the value's kind.
proof fn lemma_ser_first(v: JsonV)
    requires
        wf(v),
    ensures
        ser(v).len() >= 1,
        ser(v)[0] == 'n' || ser(v)[0] == 't' || ser(v)[0] == 'f' || ser(v)[0] == '"' || ser(v)[0]
            == '-' || is_digit(ser(v)[0]) || ser(v)[0] == '[' || ser(v)[0] == '{',
        !is_ws(ser(v)[0]),
        ser(v)[0] != ']' && ser(v)[0] != '}' && ser(v)[0] != ',' && ser(v)[0] != ':',
{
    match v {
        JsonV::Null => {
            reveal_strlit("null");
        },
        JsonV::Bool(b) => {
            reveal_strlit("true");
            reveal_strlit("false");
        },
        JsonV::Int(n) => {
            if n < 0 {
                assert(int_chars(n)[0] == '-');
            } else {
                lemma_nat_chars_digits(n);
                assert(int_chars(n) == nat_chars(n));
                assert(is_digit(int_chars(n)[0]));
            }
        },
        JsonV::Str(t) => {
            assert(ser(v)[0] == '"');
        },
        JsonV::Arr(items) => {
            assert(ser(v)[0] == '[');
        },
        JsonV::Obj(fields) => {
            assert(ser(v)[0] == '{');
        },
    }
}

/// An integer token must not be followed by a character that would extend it.
spec fn num_delim_ok(v: JsonV, s: Seq<char>, e: int) -> bool {
    v is Int ==> (e == s.len() || !(is_digit(s[e]) || s[e] == '.' || s[e] == 'e' || s[e] == 'E'))
}

proof fn lemma_parse_ser(v: JsonV, s: Seq<char>, i: int)
    requires
        wf(v),
        0 <= i,
        i + ser(v).len() <= s.len(),
        s.subrange(i, i + ser(v).len()) == ser(v),
        num_delim_ok(v, s, i + ser(v).len()),
    ensures
        parse_value(s, i) == Some((v, i + ser(v).len())),
    decreases v, 1int,
{
    let l = ser(v).len() as int;
    lemma_ser_first(v);
    assert forall|k: int| 0 <= k < l implies s[i + k] == ser(v)[k] by {
        assert(s.subrange(i, i + l)[k] == s[i + k]);
    }
    assert(s[i + 0] == ser(v)[0]);
    match v {
        JsonV::Null => {
            reveal_strlit("null");
            assert(s.subrange(i, i + 4) == "null"@);
        },
        JsonV::Bool(b) => {
            reveal_strlit("true");
            reveal_strlit("false");
            if b {
                assert(s.subrange(i, i + 4) == "true"@);
                assert(s[i + 0] == 't');
            } else {
                assert(s.subrange(i, i + 5) == "false"@);
                assert(s[i + 0] == 'f');
            }
        },
        JsonV::Int(n) => {
            if n >= 0 {
                lemma_nat_chars_digits(n);
                assert(ser(v) == nat_chars(n));
                assert forall|k: int| 0 <= k < l implies is_digit(#[trigger] s[i + k]) by {
                    assert(s.subrange(i, i + l)[k] == s[i + k]);
                    assert(nat_chars(n)[k] == ser(v)[k]);
                }
                assert(is_digit(s[i + 0]));
                lemma_digit_count_run(s, i, l);
                lemma_digits_val_nat(s, i, n);
                assert(digits_val(s, i, i + l) == n);
                assert(parse_number(s, i) == Some((JsonV::Int(n), i + l)));
            } else {
                lemma_nat_chars_digits(-n);
                assert(ser(v) == seq!['-'] + nat_chars(-n));
                assert(s[i + 0] == '-');
                assert(s.subrange(i + 1, i + l) =~= nat_chars(-n)) by {
                    assert forall|k: int| 0 <= k < l - 1 implies #[trigger] s.subrange(
                        i + 1,
                        i + l,
                    )[k] == nat_chars(-n)[k] by {
                        assert(s[i + (k + 1)] == ser(v)[k + 1]);
                    }
                }
                assert forall|k: int| 0 <= k < l - 1 implies is_digit(#[trigger] s[i + 1 + k]) by {
                    assert(s.subrange(i + 1, i + l)[k] == s[i + 1 + k]);
                }
                lemma_digit_count_run(s, i + 1, l - 1);
                lemma_digits_val_nat(s, i + 1, -n);
                assert(digits_val(s, i + 1, i + l) == -n);
                assert(parse_number(s, i) == Some((JsonV::Int(n), i + l)));
            }
        },
        JsonV::Str(t) => {
            let le = escape(t).len() as int;
            assert(ser(v) == seq!['"'] + escape(t) + seq!['"']);
            assert(s[i + 0] == '"');
            assert(s.subrange(i + 1, i + 1 + le) =~= escape(t)) by {
                assert forall|k: int| 0 <= k < le implies #[trigger] s.subrange(
                    i + 1,
                    i + 1 + le,
                )[k] == escape(t)[k] by {
                    assert(s[i + (k + 1)] == ser(v)[k + 1]);
                }
            }
            assert(s[i + (le + 1)] == ser(v)[le + 1]);
            assert(ser(v)[le + 1] == '"');
            lemma_parse_escaped(t, s, i + 1);
        },
        JsonV::Arr(items) => {
            assert(ser(v) == seq!['['] + ser_items(items) + seq![']']);
            assert(s[i + 0] == '[');
            let li = ser_items(items).len() as int;
            assert(s[i + (l - 1)] == ser(v)[l - 1]);
            assert(ser(v)[l - 1] == ']');
            if items.len() == 0 {
                assert(ser_items(items) == Seq::<char>::empty());
                assert(s[i + 1] == ']');
                lemma_skip_ws_at(s, i + 1);
                assert(items =~= Seq::<JsonV>::empty());
            } else {
                assert(wf(items[0]));
                lemma_ser_first(items[0]);
                assert(ser_items(items)[0] == ser(items[0])[0]);
                assert(s[i + 1] == ser(v)[1]);
                assert(ser(v)[1] == ser_items(items)[0]);
                lemma_skip_ws_at(s, i + 1);
                assert(s.subrange(i + 1, i + 1 + li) =~= ser_items(items)) by {
                    assert forall|k: int| 0 <= k < li implies #[trigger] s.subrange(
                        i + 1,
                        i + 1 + li,
                    )[k] == ser_items(items)[k] by {
                        assert(s[i + (k + 1)] == ser(v)[k + 1]);
                    }
                }
                lemma_parse_ser_items(items, s, i + 1);
            }
        },
        JsonV::Obj(fields) => {
            assert(ser(v) == seq!['{'] + ser_fields(fields) + seq!['}']);
            assert(s[i + 0] == '{');
            let lf = ser_fields(fields).len() as int;
            assert(s[i + (l - 1)] == ser(v)[l - 1]);
            assert(ser(v)[l - 1] == '}');
            if fields.len() == 0 {
                assert(ser_fields(fields) == Seq::<char>::empty());
                assert(s[i + 1] == '}');
                lemma_skip_ws_at(s, i + 1);
                assert(fields =~= Seq::<(Seq<char>, JsonV)>::empty());
            } else {
                assert(ser_fields(fields)[0] == ser_field(fields[0])[0]);
                assert(ser_field(fields[0])[0] == '"');
                assert(s[i + 1] == ser(v)[1]);
                assert(ser(v)[1] == ser_fields(fields)[0]);
                lemma_skip_ws_at(s, i + 1);
                assert(s.subrange(i + 1, i + 1 + lf) =~= ser_fields(fields)) by {
                    assert forall|k: int| 0 <= k < lf implies #[trigger] s.subrange(
                        i + 1,
                        i + 1 + lf,
                    )[k] == ser_fields(fields)[k] by {
                        assert(s.subrange(i, i + l)[k + 1] == s[i + (k + 1)]);
                        assert(s[i + (k + 1)] == ser(v)[k + 1]);
                    }
                }
                lemma_parse_ser_fields(fields, s, i + 1);
            }
        },
    }
}

proof fn lemma_parse_ser_items(items: Seq<JsonV>, s: Seq<char>, i: int)
    requires
        items.len() >= 1,
        forall|k: int| 0 <= k < items.len() ==> wf(#[trigger] items[k]),
        0 <= i,
        i + ser_items(items).len() + 1 <= s.len(),
        s.subrange(i, i + ser_items(items).len()) == ser_items(items),
        s[i + ser_items(items).len()] == ']',
    ensures
        parse_items(s, i) == Some((items, i + ser_items(items).len() + 1)),
    decreases items, 0int,
{
    let si = ser_items(items);
    let l = si.len() as int;
    let v0 = items[0];
    assert(wf(v0));
    lemma_ser_first(v0);
    let l0 = ser(v0).len() as int;
    assert forall|k: int| 0 <= k < l implies s[i + k] == si[k] by {
        assert(s.subrange(i, i + l)[k] == s[i + k]);
    }
    assert(s[i + 0] == si[0]);
    assert(si[0] == ser(v0)[0]);
    lemma_skip_ws_at(s, i);
    assert(s.subrange(i, i + l0) =~= ser(v0)) by {
        assert forall|k: int| 0 <= k < l0 implies #[trigger] s.subrange(i, i + l0)[k] == ser(
            v0,
        )[k] by {
            assert(s[i + k] == si[k]);
        }
    }
    if items.len() == 1 {
        assert(si == ser(v0));
        assert(s[i + l] == ']');
        assert(num_delim_ok(v0, s, i + l0));
        lemma_parse_ser(v0, s, i);
        let j2 = i + l0;
        lemma_skip_ws_at(s, j2);
        assert(seq![v0] =~= items);
    } else {
        assert(si == ser(v0) + seq![','] + ser_items(items.drop_first()));
        assert(s[i + l0] == si[l0]);
        assert(si[l0] == ',');
        assert(num_delim_ok(v0, s, i + l0));
        lemma_parse_ser(v0, s, i);
        let j2 = i + l0;
        lemma_skip_ws_at(s, j2);
        let rest = items.drop_first();
        let lr = ser_items(rest).len() as int;
        assert(l == l0 + 1 + lr);
        assert forall|k: int| 0 <= k < rest.len() implies wf(#[trigger] rest[k]) by {
            assert(wf(items[k + 1]));
        }
        assert(s.subrange(j2 + 1, j2 + 1 + lr) =~= ser_items(rest)) by {
            assert forall|k: int| 0 <= k < lr implies #[trigger] s.subrange(
                j2 + 1,
                j2 + 1 + lr,
            )[k] == ser_items(rest)[k] by {
                assert(s[i + (l0 + 1 + k)] == si[l0 + 1 + k]);
            }
        }
        assert(s[j2 + 1 + lr] == ']');
        lemma_parse_ser_items(rest, s, j2 + 1);
        assert(seq![v0] + rest =~= items);
    }
}

proof fn lemma_parse_ser_fields(fields: Seq<(Seq<char>, JsonV)>, s: Seq<char>, i: int)
    requires
        fields.len() >= 1,
        forall|k: int| 0 <= k < fields.len() ==> wf(#[trigger] fields[k].1),
        0 <= i,
        i + ser_fields(fields).len() + 1 <= s.len(),
        s.subrange(i, i + ser_fields(fields).len()) == ser_fields(fields),
        s[i + ser_fields(fields).len()] == '}',
    ensures
        parse_fields(s, i) == Some((fields, i + ser_fields(fields).len() + 1)),
    decreases fields, 0int,
{
    let sf = ser_fields(fields);
    let l = sf.len() as int;
    let f0 = fields[0];
    let key = f0.0;
    let v0 = f0.1;
    assert(wf(v0));
    lemma_ser_first(v0);
    let le = escape(key).len() as int;
    let lv = ser(v0).len() as int;
    let f0l = ser_field(f0).len() as int;
    assert(ser_field(f0) == seq!['"'] + escape(key) + seq!['"', ':'] + ser(v0));
    assert(f0l == le + 3 + lv);
    assert forall|k: int| 0 <= k < l implies s[i + k] == sf[k] by {
        assert(s.subrange(i, i + l)[k] == s[i + k]);
    }
    assert forall|k: int| 0 <= k < f0l implies sf[k] == ser_field(f0)[k] by {
        if fields.len() == 1 {
            assert(sf == ser_field(f0));
        } else {
            assert(sf == ser_field(f0) + seq![','] + ser_fields(fields.drop_first()));
        }
    }
    assert(s[i + 0] == sf[0]);
    assert(ser_field(f0)[0] == '"');
    lemma_skip_ws_at(s, i);
    // the key string: from just after the opening quote
    assert(s.subrange(i + 1, i + 1 + le) =~= escape(key)) by {
        assert forall|k: int| 0 <= k < le implies #[trigger] s.subrange(i + 1, i + 1 + le)[k]
            == escape(key)[k] by {
            assert(s[i + (k + 1)] == sf[k + 1]);
            assert(ser_field(f0)[k + 1] == escape(key)[k]);
        }
    }
    assert(s[i + (le + 1)] == sf[le + 1]);
    assert(ser_field(f0)[le + 1] == '"');
    lemma_parse_escaped(key, s, i + 1);
    let j2 = i + le + 2;
    assert(s[i + (le + 2)] == sf[le + 2]);
    assert(ser_field(f0)[le + 2] == ':');
    lemma_skip_ws_at(s, j2);
    let jv = j2 + 1;
    assert(s[i + (le + 3)] == sf[le + 3]);
    assert(ser_field(f0)[le + 3] == ser(v0)[0]);
    lemma_skip_ws_at(s, jv);
    assert(s.subrange(jv, jv + lv) =~= ser(v0)) by {
        assert forall|k: int| 0 <= k < lv implies #[trigger] s.subrange(jv, jv + lv)[k] == ser(
            v0,
        )[k] by {
            assert(s[i + (le + 3 + k)] == sf[le + 3 + k]);
            assert(ser_field(f0)[le + 3 + k] == ser(v0)[k]);
        }
    }
    let j4 = jv + lv;
    assert(j4 == i + f0l);
    if fields.len() == 1 {
        assert(sf == ser_field(f0));
        assert(s[i + l] == '}');
        assert(num_delim_ok(v0, s, j4));
        lemma_parse_ser(v0, s, jv);
        lemma_skip_ws_at(s, j4);
        assert((key, v0) == f0);
        assert(seq![f0] =~= fields);
    } else {
        assert(sf == ser_field(f0) + seq![','] + ser_fields(fields.drop_first()));
        assert(s[i + f0l] == sf[f0l]);
        assert(sf[f0l] == ',');
        assert(num_delim_ok(v0, s, j4));
        lemma_parse_ser(v0, s, jv);
        lemma_skip_ws_at(s, j4);
        let rest = fields.drop_first();
        let lr = ser_fields(rest).len() as int;
        assert(l == f0l + 1 + lr);
        assert forall|k: int| 0 <= k < rest.len() implies wf(#[trigger] rest[k].1) by {
            assert(wf(fields[k + 1].1));
        }
        assert(s.subrange(j4 + 1, j4 + 1 + lr) =~= ser_fields(rest)) by {
            assert forall|k: int| 0 <= k < lr implies #[trigger] s.subrange(
                j4 + 1,
                j4 + 1 + lr,
            )[k] == ser_fields(rest)[k] by {
                assert(s[i + (f0l + 1 + k)] == sf[f0l + 1 + k]);
            }
        }
        assert(s[j4 + 1 + lr] == '}');
        lemma_parse_ser_fields(rest, s, j4 + 1);
        assert((key, v0) == f0);
        assert(seq![f0] + rest =~= fields);
    }
}

/// The round trip: the parser reads back exactly the value the serializer
/// wrote, for every well-formed value.
pub proof fn lemma_text_roundtrip(v: JsonV)
    requires
        wf(v),
    ensures
        parse_text(ser(v)) == Some(v),
{
    let s = ser(v);
    lemma_ser_first(v);
    lemma_skip_ws_at(s, 0);
    assert(s.subrange(0, s.len() as int) =~= s);
    lemma_parse_ser(v, s, 0);
    lemma_skip_ws_at(s, s.len() as int);
}

} // verus!