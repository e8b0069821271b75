//! JSON values and the line codec.
//!
//! The wire format is one JSON object per line. Values are modelled by
//! [`Json`] (executable) and [`JsonV`] (its mathematical model). The encoder
//! is specified by [`jser`]; the decoder by [`jparse_value`].

use vstd::prelude::*;

verus! {

/// Mathematical model of a JSON value.
///
/// Numbers are modelled as unbounded integers; the codec handles integers in
/// the range `-u64::MAX ..= u64::MAX` and rejects fractions and exponents.
pub enum JsonV {
    Null,
    Bool(bool),
    Int(int),
    Str(Seq<char>),
    Arr(Seq<JsonV>),
    Obj(Seq<(Seq<char>, JsonV)>),
}

/// A JSON integer: `neg` selects the sign, `mag` the magnitude.
#[derive(Clone, Copy, Debug, PartialEq, Eq)]
pub struct JsonNum {
    pub neg: bool,
    pub mag: u64,
}

/// An executable JSON value.
#[derive(Debug, PartialEq, Eq)]
pub enum Json {
    Null,
    Bool(bool),
    Num(JsonNum),
    Str(String),
    Arr(Vec<Json>),
    Obj(Vec<(String, Json)>),
}

impl JsonNum {
    /// The integer this number stands for.
    pub open spec fn model(self) -> int {
        if self.neg {
            -(self.mag as int)
        } else {
            self.mag as int
        }
    }

    /// A canonical number never writes a negative zero.
    pub open spec fn wf(self) -> bool {
        self.neg ==> self.mag >= 1
    }
}

impl View for Json {
    type V = JsonV;

    open spec fn view(&self) -> JsonV {
        json_view(*self)
    }
}

/// The model of an executable JSON value.
pub open spec fn json_view(j: Json) -> JsonV
    decreases j,
{
    match j {
        Json::Null => JsonV::Null,
        Json::Bool(b) => JsonV::Bool(b),
        Json::Num(n) => JsonV::Int(n.model()),
        Json::Str(s) => JsonV::Str(s@),
        Json::Arr(v) => JsonV::Arr(json_seq_view(v@)),
        Json::Obj(v) => JsonV::Obj(json_obj_view(v@)),
    }
}

/// The models of the elements of an array, in order.
pub open spec fn json_seq_view(s: Seq<Json>) -> Seq<JsonV>
    decreases s,
{
    if s.len() == 0 {
        Seq::empty()
    } else {
        seq![json_view(s[0])] + json_seq_view(s.drop_first())
    }
}

/// The models of the members of an object, in order.
pub open spec fn json_obj_view(s: Seq<(String, Json)>) -> Seq<(Seq<char>, JsonV)>
    decreases s,
{
    if s.len() == 0 {
        Seq::empty()
    } else {
        seq![(s[0].0@, json_view(s[0].1))] + json_obj_view(s.drop_first())
    }
}

/// Element views distribute over array views index by index.
pub proof fn lemma_json_seq_view_index(s: Seq<Json>)
    ensures
        json_seq_view(s).len() == s.len(),
        forall|i: int| 0 <= i < s.len() ==> json_seq_view(s)[i] == json_view(s[i]),
    decreases s,
{
    if s.len() > 0 {
        lemma_json_seq_view_index(s.drop_first());
    }
}

/// Member views distribute over object views index by index.
pub proof fn lemma_json_obj_view_index(s: Seq<(String, Json)>)
    ensures
        json_obj_view(s).len() == s.len(),
        forall|i: int|
            0 <= i < s.len() ==> json_obj_view(s)[i] == (s[i].0@, json_view(s[i].1)),
    decreases s,
{
    if s.len() > 0 {
        lemma_json_obj_view_index(s.drop_first());
    }
}

// ---------------------------------------------------------------------------
// Character classes
// ---------------------------------------------------------------------------

/// Insignificant whitespace between tokens.
pub open spec fn is_ws(c: char) -> bool {
    c == ' ' || c == '\t' || c == '\r' || c == '\n'
}

/// A decimal digit.
pub open spec fn is_digit(c: char) -> bool {
    c == '0' || c == '1' || c == '2' || c == '3' || c == '4' || c == '5' || c == '6' || c == '7'
        || c == '8' || c == '9'
}

/// The numeric value of a decimal digit character.
pub open spec fn digit_val(c: char) -> int {
    if c == '0' {
        0
    } else if c == '1' {
        1
    } else if c == '2' {
        2
    } else if c == '3' {
        3
    } else if c == '4' {
        4
    } else if c == '5' {
        5
    } else if c == '6' {
        6
    } else if c == '7' {
        7
    } else if c == '8' {
        8
    } else {
        9
    }
}

/// The character for a decimal digit value.
pub open spec fn digit_char(d: int) -> char {
    if d == 0 {
        '0'
    } else if d == 1 {
        '1'
    } else if d == 2 {
        '2'
    } else if d == 3 {
        '3'
    } else if d == 4 {
        '4'
    } else if d == 5 {
        '5'
    } else if d == 6 {
        '6'
    } else if d == 7 {
        '7'
    } else if d == 8 {
        '8'
    } else {
        '9'
    }
}

// ---------------------------------------------------------------------------
// Serializer specification
// ---------------------------------------------------------------------------

/// The decimal digits of `n`, most significant first.
pub open spec fn dec_digits(n: nat) -> Seq<char>
    decreases n,
{
    if n < 10 {
        seq![digit_char(n as int)]
    } else {
        dec_digits(n / 10) + seq![digit_char((n % 10) as int)]
    }
}

/// The canonical text of an integer: a minus sign for negatives, then digits.
pub open spec fn int_chars(i: int) -> Seq<char> {
    if i < 0 {
        seq!['-'] + dec_digits((-i) as nat)
    } else {
        dec_digits(i as nat)
    }
}

/// How one character of string content is written: the seven standard short
/// escapes, every other character as itself.
pub open spec fn esc_char(c: char) -> Seq<char> {
    if c == '"' {
        seq!['\\', '"']
    } else if c == '\\' {
        seq!['\\', '\\']
    } else if c == '\n' {
        seq!['\\', 'n']
    } else if c == '\r' {
        seq!['\\', 'r']
    } else if c == '\t' {
        seq!['\\', 't']
    } else if c == '\u{8}' {
        seq!['\\', 'b']
    } else if c == '\u{c}' {
        seq!['\\', 'f']
    } else {
        seq![c]
    }
}

/// The escaped content of a string, without the surrounding quotes.
pub open spec fn esc_str(s: Seq<char>) -> Seq<char>
    decreases s,
{
    if s.len() == 0 {
        Seq::empty()
    } else {
        esc_char(s[0]) + esc_str(s.drop_first())
    }
}

/// The canonical serialization of a JSON value: no whitespace, object members
/// in their stored order, optional fields already absent from the model.
pub open spec fn jser(v: JsonV) -> Seq<char>
    decreases v,
{
    match v {
        JsonV::Null => seq!['n', 'u', 'l', 'l'],
        JsonV::Bool(b) => if b {
            seq!['t', 'r', 'u', 'e']
        } else {
            seq!['f', 'a', 'l', 's', 'e']
        },
        JsonV::Int(i) => int_chars(i),
        JsonV::Str(s) => seq!['"'] + esc_str(s) + seq!['"'],
        JsonV::Arr(es) => seq!['['] + jser_items(es) + seq![']'],
        JsonV::Obj(ms) => seq!['{'] + jser_members(ms) + seq!['}'],
    }
}

/// The serialized elements of an array, separated by commas.
pub open spec fn jser_items(es: Seq<JsonV>) -> Seq<char>
    decreases es,
{
    if es.len() == 0 {
        Seq::empty()
    } else if es.len() == 1 {
        jser(es[0])
    } else {
        jser(es[0]) + seq![','] + jser_items(es.drop_first())
    }
}

/// One serialized object member: quoted key, colon, value.
pub open spec fn jser_member(m: (Seq<char>, JsonV)) -> Seq<char>
    decreases m,
{
    seq!['"'] + esc_str(m.0) + seq!['"', ':'] + jser(m.1)
}

/// The serialized members of an object, separated by commas.
pub open spec fn jser_members(ms: Seq<(Seq<char>, JsonV)>) -> Seq<char>
    decreases ms,
{
    if ms.len() == 0 {
        Seq::empty()
    } else if ms.len() == 1 {
        jser_member(ms[0])
    } else {
        jser_member(ms[0]) + seq![','] + jser_members(ms.drop_first())
    }
}

/// The values the codec round-trips: integers within the signed range the
/// decoder accepts. Strings, arrays and objects carry no extra condition.
pub open spec fn wf_json(v: JsonV) -> bool
    decreases v,
{
    match v {
        JsonV::Null => true,
        JsonV::Bool(_) => true,
        JsonV::Int(i) => -0xffff_ffff_ffff_ffff <= i <= 0xffff_ffff_ffff_ffff,
        JsonV::Str(_) => true,
        JsonV::Arr(es) => wf_items(es),
        JsonV::Obj(ms) => wf_members(ms),
    }
}

/// Every element of an array is well formed.
pub open spec fn wf_items(es: Seq<JsonV>) -> bool
    decreases es,
{
    if es.len() == 0 {
        true
    } else {
        wf_json(es[0]) && wf_items(es.drop_first())
    }
}

/// Every value of an object member is well formed.
pub open spec fn wf_members(ms: Seq<(Seq<char>, JsonV)>) -> bool
    decreases ms,
{
    if ms.len() == 0 {
        true
    } else {
        wf_json(ms[0].1) && wf_members(ms.drop_first())
    }
}

// ---------------------------------------------------------------------------
// Parser specification
// ---------------------------------------------------------------------------

/// The input with its leading whitespace removed.
pub open spec fn skip_ws(s: Seq<char>) -> Seq<char>
    decreases s.len(),
{
    if s.len() > 0 && is_ws(s[0]) {
        skip_ws(s.drop_first())
    } else {
        s
    }
}

/// The length of the leading run of digits.
pub open spec fn digits_len(s: Seq<char>) -> nat
    decreases s.len(),
{
    if s.len() > 0 && is_digit(s[0]) {
        1 + digits_len(s.drop_first())
    } else {
        0
    }
}

/// The value of a sequence of digits, most significant first.
pub open spec fn digits_val(s: Seq<char>) -> int
    decreases s.len(),
{
    if s.len() == 0 {
        0
    } else {
        digits_val(s.drop_last()) * 10 + digit_val(s.last())
    }
}

/// What a short escape sequence `\c` stands for; `None` rejects the escape.
pub open spec fn unesc(c: char) -> Option<char> {
    if c == '"' {
        Some('"')
    } else if c == '\\' {
        Some('\\')
    } else if c == '/' {
        Some('/')
    } else if c == 'n' {
        Some('\n')
    } else if c == 'r' {
        Some('\r')
    } else if c == 't' {
        Some('\t')
    } else if c == 'b' {
        Some('\u{8}')
    } else if c == 'f' {
        Some('\u{c}')
    } else {
        None
    }
}

/// Parses string content after the opening quote, up to and including the
/// closing quote. Returns the content and the remaining input.
pub open spec fn jparse_str(s: Seq<char>) -> Option<(Seq<char>, Seq<char>)>
    decreases s.len(),
{
    if s.len() == 0 {
        None
    } else if s[0] == '"' {
        Some((Seq::empty(), s.drop_first()))
    } else if s[0] == '\\' {
        if s.len() < 2 {
            None
        } else {
            match unesc(s[1]) {
                None => None,
                Some(c) => match jparse_str(s.skip(2)) {
                    None => None,
                    Some((cs, r)) => Some((seq![c] + cs, r)),
                },
            }
        }
    } else {
        match jparse_str(s.drop_first()) {
            None => None,
            Some((cs, r)) => Some((seq![s[0]] + cs, r)),
        }
    }
}

/// Parses an unsigned decimal number at the head of the input by maximal
/// munch. Rejects an empty digit run and values beyond `u64::MAX`.
pub open spec fn jparse_digits(s: Seq<char>) -> Option<(int, Seq<char>)> {
    let k = digits_len(s);
    if k == 0 || k > s.len() {
        None
    } else {
        let v = digits_val(s.take(k as int));
        if v > 0xffff_ffff_ffff_ffff {
            None
        } else {
            Some((v, s.skip(k as int)))
        }
    }
}

/// Parses one JSON value at the head of the input. The first character picks
/// the category; arrays and objects recurse. Returns the value's model and
/// the remaining input.
pub open spec fn jparse_value(s: Seq<char>) -> Option<(JsonV, Seq<char>)>
    decreases s.len(), 1int,
{
    if s.len() == 0 {
        None
    } else if s[0] == 'n' {
        if s.len() >= 4 && s[1] == 'u' && s[2] == 'l' && s[3] == 'l' {
            Some((JsonV::Null, s.skip(4)))
        } else {
            None
        }
    } else if s[0] == 't' {
        if s.len() >= 4 && s[1] == 'r' && s[2] == 'u' && s[3] == 'e' {
            Some((JsonV::Bool(true), s.skip(4)))
        } else {
            None
        }
    } else if s[0] == 'f' {
        if s.len() >= 5 && s[1] == 'a' && s[2] == 'l' && s[3] == 's' && s[4] == 'e' {
            Some((JsonV::Bool(false), s.skip(5)))
        } else {
            None
        }
    } else if s[0] == '"' {
        match jparse_str(s.drop_first()) {
            None => None,
            Some((cs, r)) => Some((JsonV::Str(cs), r)),
        }
    } else if s[0] == '[' {
        match jparse_items(s.drop_first()) {
            None => None,
            Some((es, r)) => Some((JsonV::Arr(es), r)),
        }
    } else if s[0] == '{' {
        match jparse_members(s.drop_first()) {
            None => None,
            Some((ms, r)) => Some((JsonV::Obj(ms), r)),
        }
    } else if s[0] == '-' {
        match jparse_digits(s.drop_first()) {
            None => None,
            Some((v, r)) => Some((JsonV::Int(-v), r)),
        }
    } else if is_digit(s[0]) {
        match jparse_digits(s) {
            None => None,
            Some((v, r)) => Some((JsonV::Int(v), r)),
        }
    } else {
        None
    }
}

/// Parses the elements of an array after the opening bracket, up to and
/// including the closing bracket.
pub open spec fn jparse_items(s: Seq<char>) -> Option<(Seq<JsonV>, Seq<char>)>
    decreases s.len(), 2int,
{
    let t = skip_ws(s);
    if t.len() > s.len() || t.len() == 0 {
        None
    } else if t[0] == ']' {
        Some((Seq::empty(), t.drop_first()))
    } else {
        match jparse_value(t) {
            None => None,
            Some((v, r)) => {
                if r.len() >= s.len() {
                    None
                } else {
                    let u = skip_ws(r);
                    if u.len() > r.len() || u.len() == 0 {
                        None
                    } else if u[0] == ']' {
                        Some((seq![v], u.drop_first()))
                    } else if u[0] == ',' {
                        match jparse_items(u.drop_first()) {
                            None => None,
                            Some((vs, rr)) => Some((seq![v] + vs, rr)),
                        }
                    } else {
                        None
                    }
                }
            },
        }
    }
}

/// Parses the members of an object after the opening brace, up to and
/// including the closing brace. Duplicate keys are kept in order.
pub open spec fn jparse_members(s: Seq<char>) -> Option<(Seq<(Seq<char>, JsonV)>, Seq<char>)>
    decreases s.len(), 2int,
{
    let t = skip_ws(s);
    if t.len() > s.len() || t.len() == 0 {
        None
    } else if t[0] == '}' {
        Some((Seq::empty(), t.drop_first()))
    } else if t[0] != '"' {
        None
    } else {
        match jparse_str(t.drop_first()) {
            None => None,
            Some((k, r)) => {
                if r.len() >= s.len() {
                    None
                } else {
                    let u = skip_ws(r);
                    if u.len() > r.len() || u.len() == 0 || u[0] != ':' {
                        None
                    } else {
                        let w = skip_ws(u.drop_first());
                        if w.len() >= u.len() {
                            None
                        } else {
                            match jparse_value(w) {
                                None => None,
                                Some((v, r2)) => {
                                    if r2.len() >= s.len() {
                                        None
                                    } else {
                                        let u2 = skip_ws(r2);
                                        if u2.len() > r2.len() || u2.len() == 0 {
                                            None
                                        } else if u2[0] == '}' {
                                            Some((seq![(k, v)], u2.drop_first()))
                                        } else if u2[0] == ',' {
                                            match jparse_members(u2.drop_first()) {
                                                None => None,
                                                Some((ms, rr)) => Some(
                                                    (seq![(k, v)] + ms, rr),
                                                ),
                                            }
                                        } else {
                                            None
                                        }
                                    }
                                },
                            }
                        }
                    }
                }
            },
        }
    }
}

/// Parses a complete line: one JSON value with nothing but whitespace
/// around it.
pub open spec fn jparse(s: Seq<char>) -> Option<JsonV> {
    match jparse_value(skip_ws(s)) {
        None => None,
        Some((v, r)) => if skip_ws(r).len() == 0 {
            Some(v)
        } else {
            None
        },
    }
}

// ---------------------------------------------------------------------------
// Round trip: parsing a canonical serialization recovers the value
// ---------------------------------------------------------------------------

/// Every character of the sequence is a decimal digit.
pub open spec fn all_digits(s: Seq<char>) -> bool {
    forall|i: int| 0 <= i < s.len() ==> is_digit(s[i])
}

/// Decimal digits of a number are digits, and there is at least one.
proof fn lemma_dec_digits_shape(n: nat)
    ensures
        dec_digits(n).len() >= 1,
        all_digits(dec_digits(n)),
    decreases n,
{
    if n >= 10 {
        lemma_dec_digits_shape(n / 10);
        assert forall|i: int| 0 <= i < dec_digits(n).len() implies is_digit(
            dec_digits(n)[i],
        ) by {
            if i < dec_digits(n / 10).len() {
                assert(dec_digits(n)[i] == dec_digits(n / 10)[i]);
            }
        }
    }
}

/// Maximal munch stops exactly at the end of a digit run when what follows
/// does not begin with a digit.
proof fn lemma_digits_len_concat(a: Seq<char>, rest: Seq<char>)
    requires
        all_digits(a),
        rest.len() == 0 || !is_digit(rest[0]),
    ensures
        digits_len(a + rest) == a.len(),
    decreases a.len(),
{
    if a.len() == 0 {
        assert(a + rest =~= rest);
    } else {
        assert((a + rest)[0] == a[0]);
        assert((a + rest).drop_first() =~= a.drop_first() + rest);
        assert(all_digits(a.drop_first()));
        lemma_digits_len_concat(a.drop_first(), rest);
    }
}

/// Reading back the decimal digits of `n` yields `n`.
proof fn lemma_digits_val_dec(n: nat)
    ensures
        digits_val(dec_digits(n)) == n,
    decreases n,
{
    if n < 10 {
        let d = digit_char(n as int);
        assert(seq![d].drop_last() =~= Seq::<char>::empty());
        assert(digit_val(d) == n);
        assert(digits_val(seq![d]) == digits_val(Seq::<char>::empty()) * 10 + digit_val(d));
    } else {
        lemma_digits_val_dec(n / 10);
        let a = dec_digits(n / 10);
        let d = digit_char((n % 10) as int);
        assert(dec_digits(n) == a + seq![d]);
        assert((a + seq![d]).drop_last() =~= a);
        assert((a + seq![d]).last() == d);
        assert(digit_val(d) == n % 10);
        assert(digits_val(dec_digits(n)) == digits_val(a) * 10 + n % 10);
        assert(n / 10 * 10 + n % 10 == n) by {
            vstd::arithmetic::div_mod::lemma_fundamental_div_mod(n as int, 10);
        }
    }
}

/// Parsing a number at the head of its canonical digits, followed by text
/// that does not begin with a digit, recovers the number.
proof fn lemma_jparse_digits(n: nat, rest: Seq<char>)
    requires
        n <= 0xffff_ffff_ffff_ffff,
        rest.len() == 0 || !is_digit(rest[0]),
    ensures
        jparse_digits(dec_digits(n) + rest) == Some((n as int, rest)),
{
    let a = dec_digits(n);
    lemma_dec_digits_shape(n);
    lemma_digits_len_concat(a, rest);
    let s = a + rest;
    let k = digits_len(s);
    assert(k == a.len());
    assert(s.take(k as int) =~= a);
    lemma_digits_val_dec(n);
    assert(s.skip(k as int) =~= rest);
}

/// Escaping one character and reading it back gives the character back.
proof fn lemma_esc_char_inv(c: char)
    ensures
        esc_char(c).len() == 1 || esc_char(c).len() == 2,
        esc_char(c).len() == 2 ==> esc_char(c)[0] == '\\' && unesc(esc_char(c)[1]) == Some(c),
        esc_char(c).len() == 1 ==> esc_char(c)[0] == c && c != '"' && c != '\\',
{
}

/// A serialization is never empty, and its first character is a value
/// opener: never whitespace, a closer, a comma or a colon.
proof fn lemma_jser_shape(v: JsonV)
    ensures
        jser(v).len() >= 1,
        !is_ws(jser(v)[0]),
        jser(v)[0] != ']',
        jser(v)[0] != '}',
        jser(v)[0] != ',',
        jser(v)[0] != ':',
{
    match v {
        JsonV::Int(i) => {
            if i >= 0 {
                lemma_dec_digits_shape(i as nat);
                assert(jser(v)[0] == dec_digits(i as nat)[0]);
                assert(is_digit(dec_digits(i as nat)[0]));
            } else {
                lemma_dec_digits_shape((-i) as nat);
                assert(jser(v)[0] == '-');
            }
        },
        _ => {},
    }
}

/// Parsing string content that was produced by escaping, with the closing
/// quote and arbitrary following text, recovers the content.
proof fn lemma_jparse_str(cs: Seq<char>, rest: Seq<char>)
    ensures
        jparse_str(esc_str(cs) + seq!['"'] + rest) == Some((cs, rest)),
    decreases cs.len(),
{
    let s = esc_str(cs) + seq!['"'] + rest;
    if cs.len() == 0 {
        assert(s[0] == '"');
        assert(s.drop_first() =~= rest);
    } else {
        lemma_esc_char_inv(cs[0]);
        let e = esc_char(cs[0]);
        assert(esc_str(cs) == e + esc_str(cs.drop_first()));
        lemma_jparse_str(cs.drop_first(), rest);
        let s2 = esc_str(cs.drop_first()) + seq!['"'] + rest;
        if e.len() == 2 {
            assert(s[0] == '\\');
            assert(s[1] == e[1]);
            assert(s.len() >= 2);
            assert(s.skip(2) =~= s2);
            assert(seq![cs[0]] + cs.drop_first() =~= cs);
        } else {
            assert(s[0] == cs[0]);
            assert(s[0] != '"' && s[0] != '\\');
            assert(s.drop_first() =~= s2);
            assert(seq![cs[0]] + cs.drop_first() =~= cs);
        }
    }
}


/// Parsing the canonical serialization of a value, followed by text that a
/// number cannot run into, recovers exactly the value.
proof fn lemma_rt_value(v: JsonV, rest: Seq<char>)
    requires
        wf_json(v),
        (v matches JsonV::Int(_)) ==> rest.len() == 0 || !is_digit(rest[0]),
    ensures
        jparse_value(jser(v) + rest) == Some((v, rest)),
    decreases v, 1int,
{
    let s = jser(v) + rest;
    match v {
        JsonV::Null => {
            assert(s[0] == 'n' && s[1] == 'u' && s[2] == 'l' && s[3] == 'l');
            assert(s.skip(4) =~= rest);
        },
        JsonV::Bool(b) => {
            if b {
                assert(s[0] == 't' && s[1] == 'r' && s[2] == 'u' && s[3] == 'e');
                assert(s.skip(4) =~= rest);
            } else {
                assert(s[0] == 'f' && s[1] == 'a' && s[2] == 'l' && s[3] == 's' && s[4] == 'e');
                assert(s.skip(5) =~= rest);
            }
        },
        JsonV::Int(i) => {
            if i >= 0 {
                lemma_dec_digits_shape(i as nat);
                assert(s[0] == dec_digits(i as nat)[0]);
                assert(is_digit(s[0]));
                assert(s =~= dec_digits(i as nat) + rest);
                lemma_jparse_digits(i as nat, rest);
            } else {
                assert(s[0] == '-');
                assert(s.drop_first() =~= dec_digits((-i) as nat) + rest);
                lemma_jparse_digits((-i) as nat, rest);
            }
        },
        JsonV::Str(cs) => {
            assert(s[0] == '"');
            assert(s.drop_first() =~= esc_str(cs) + seq!['"'] + rest);
            lemma_jparse_str(cs, rest);
        },
        JsonV::Arr(es) => {
            assert(s[0] == '[');
            assert(s.drop_first() =~= jser_items(es) + seq![']'] + rest);
            lemma_rt_items(es, rest);
        },
        JsonV::Obj(ms) => {
            assert(s[0] == '{');
            assert(s.drop_first() =~= jser_members(ms) + seq!['}'] + rest);
            lemma_rt_members(ms, rest);
        },
    }
}

/// Parsing serialized array elements up to the closing bracket recovers the
/// elements.
proof fn lemma_rt_items(es: Seq<JsonV>, rest: Seq<char>)
    requires
        wf_items(es),
    ensures
        jparse_items(jser_items(es) + seq![']'] + rest) == Some((es, rest)),
    decreases es, 2int,
{
    let s = jser_items(es) + seq![']'] + rest;
    if es.len() == 0 {
        assert(s =~= seq![']'] + rest);
        assert(skip_ws(s) == s);
        assert(s.drop_first() =~= rest);
        assert(Seq::<JsonV>::empty() =~= es);
    } else {
        let v0 = es[0];
        let tail_src = if es.len() == 1 {
            seq![']'] + rest
        } else {
            seq![','] + jser_items(es.drop_first()) + seq![']'] + rest
        };
        assert(s =~= jser(v0) + tail_src);
        lemma_jser_shape(v0);
        assert(s[0] == jser(v0)[0]);
        assert(!is_ws(s[0]));
        assert(skip_ws(s) == s);
        assert(s[0] != ']');
        assert(tail_src[0] != ' ' && tail_src[0] != ']' || es.len() == 1);
        lemma_rt_value(v0, tail_src);
        assert(tail_src.len() < s.len());
        assert(!is_ws(tail_src[0]));
        assert(skip_ws(tail_src) == tail_src);
        if es.len() == 1 {
            assert(tail_src[0] == ']');
            assert(tail_src.drop_first() =~= rest);
            assert(seq![v0] =~= es);
        } else {
            assert(tail_src[0] == ',');
            assert(tail_src.drop_first() =~= jser_items(es.drop_first()) + seq![']'] + rest);
            lemma_rt_items(es.drop_first(), rest);
            assert(seq![v0] + es.drop_first() =~= es);
        }
    }
}

/// Parsing serialized object members up to the closing brace recovers the
/// members, keys and values alike.
proof fn lemma_rt_members(ms: Seq<(Seq<char>, JsonV)>, rest: Seq<char>)
    requires
        wf_members(ms),
    ensures
        jparse_members(jser_members(ms) + seq!['}'] + rest) == Some((ms, rest)),
    decreases ms, 2int,
{
    let s = jser_members(ms) + seq!['}'] + rest;
    if ms.len() == 0 {
        assert(s =~= seq!['}'] + rest);
        assert(skip_ws(s) == s);
        assert(s.drop_first() =~= rest);
        assert(Seq::<(Seq<char>, JsonV)>::empty() =~= ms);
    } else {
        let k0 = ms[0].0;
        let v0 = ms[0].1;
        let tail_src = if ms.len() == 1 {
            seq!['}'] + rest
        } else {
            seq![','] + jser_members(ms.drop_first()) + seq!['}'] + rest
        };
        assert(jser_member(ms[0]) == seq!['"'] + esc_str(k0) + seq!['"', ':'] + jser(v0));
        let rest1 = seq![':'] + jser(v0) + tail_src;
        assert(s =~= seq!['"'] + (esc_str(k0) + seq!['"'] + rest1));
        assert(s[0] == '"');
        assert(skip_ws(s) == s);
        assert(s.drop_first() =~= esc_str(k0) + seq!['"'] + rest1);
        lemma_jparse_str(k0, rest1);
        assert(rest1.len() < s.len());
        assert(skip_ws(rest1) == rest1);
        assert(rest1[0] == ':');
        assert(rest1.drop_first() =~= jser(v0) + tail_src);
        lemma_jser_shape(v0);
        assert(!is_ws((jser(v0) + tail_src)[0]));
        assert(skip_ws(jser(v0) + tail_src) == jser(v0) + tail_src);
        lemma_rt_value(v0, tail_src);
        assert(tail_src.len() < s.len());
        assert(!is_ws(tail_src[0]));
        assert(skip_ws(tail_src) == tail_src);
        if ms.len() == 1 {
            assert(tail_src[0] == '}');
            assert(tail_src.drop_first() =~= rest);
            assert((k0, v0) == ms[0]);
            assert(seq![(k0, v0)] =~= ms);
        } else {
            assert(tail_src[0] == ',');
            assert(tail_src.drop_first() =~= jser_members(ms.drop_first()) + seq!['}'] + rest);
            lemma_rt_members(ms.drop_first(), rest);
            assert((k0, v0) == ms[0]);
            assert(seq![(k0, v0)] + ms.drop_first() =~= ms);
        }
    }
}

/// Round trip at the line level: a canonical serialization parses back to
/// exactly the value it came from.
pub proof fn lemma_jparse_jser(v: JsonV)
    requires
        wf_json(v),
    ensures
        jparse(jser(v)) == Some(v),
{
    lemma_jser_shape(v);
    assert(skip_ws(jser(v)) == jser(v));
    assert(jser(v) + Seq::<char>::empty() =~= jser(v));
    lemma_rt_value(v, Seq::empty());
}


// ---------------------------------------------------------------------------
// Executable encoder
// ---------------------------------------------------------------------------

/// The digit character for a value below ten.
fn digit_char_of(n: u64) -> (c: char)
    requires
        n < 10,
    ensures
        c == digit_char(n as int),
{
    match n {
        0 => '0',
        1 => '1',
        2 => '2',
        3 => '3',
        4 => '4',
        5 => '5',
        6 => '6',
        7 => '7',
        8 => '8',
        _ => '9',
    }
}

/// Writes the decimal digits of `n`, most significant first.
fn write_u64(n: u64, out: &mut Vec<char>)
    ensures
        final(out)@ == old(out)@ + dec_digits(n as nat),
    decreases n,
{
    if n < 10 {
        out.push(digit_char_of(n));
    } else {
        write_u64(n / 10, out);
        out.push(digit_char_of(n % 10));
        assert(out@ =~= old(out)@ + (dec_digits(n as nat / 10) + seq![
            digit_char((n as nat % 10) as int),
        ]));
    }
}

/// Writes one character of string content, escaped as the grammar asks.
fn write_esc_char(c: char, out: &mut Vec<char>)
    ensures
        final(out)@ == old(out)@ + esc_char(c),
{
    if c == '"' {
        out.push('\\');
        out.push('"');
        assert(out@ =~= old(out)@ + esc_char(c));
    } else if c == '\\' {
        out.push('\\');
        out.push('\\');
        assert(out@ =~= old(out)@ + esc_char(c));
    } else if c == '\n' {
        out.push('\\');
        out.push('n');
        assert(out@ =~= old(out)@ + esc_char(c));
    } else if c == '\r' {
        out.push('\\');
        out.push('r');
        assert(out@ =~= old(out)@ + esc_char(c));
    } else if c == '\t' {
        out.push('\\');
        out.push('t');
        assert(out@ =~= old(out)@ + esc_char(c));
    } else if c == '\u{8}' {
        out.push('\\');
        out.push('b');
        assert(out@ =~= old(out)@ + esc_char(c));
    } else if c == '\u{c}' {
        out.push('\\');
        out.push('f');
        assert(out@ =~= old(out)@ + esc_char(c));
    } else {
        out.push(c);
        assert(out@ =~= old(out)@ + esc_char(c));
    }
}

/// Writes the escaped content of `s` from position `i` on.
fn write_esc_str(s: &String, i: usize, out: &mut Vec<char>)
    requires
        i <= s@.len(),
    ensures
        final(out)@ == old(out)@ + esc_str(s@.skip(i as int)),
    decreases s@.len() - i,
{
    let n = s.as_str().unicode_len();
    if i < n {
        let c = s.as_str().get_char(i);
        write_esc_char(c, out);
        write_esc_str(s, i + 1, out);
        proof {
            let t = s@.skip(i as int);
            assert(t[0] == s@[i as int]);
            assert(t.drop_first() =~= s@.skip(i as int + 1));
            assert(out@ =~= old(out)@ + (esc_char(s@[i as int]) + esc_str(
                s@.skip(i as int + 1),
            )));
        }
    } else {
        assert(s@.skip(i as int) =~= Seq::<char>::empty());
        assert(out@ =~= old(out)@ + esc_str(s@.skip(i as int)));
    }
}

/// Writes a quoted, escaped string.
fn write_string(s: &String, out: &mut Vec<char>)
    ensures
        final(out)@ == old(out)@ + jser(JsonV::Str(s@)),
{
    out.push('"');
    write_esc_str(s, 0, out);
    out.push('"');
    proof {
        assert(s@.skip(0) =~= s@);
        assert(out@ =~= old(out)@ + (seq!['"'] + esc_str(s@) + seq!['"']));
    }
}

/// Writes the canonical serialization of a value onto `out`.
pub fn write_json(j: &Json, out: &mut Vec<char>)
    ensures
        final(out)@ == old(out)@ + jser(j@),
    decreases j, 0int, 0int,
{
    match j {
        Json::Null => {
            out.push('n');
            out.push('u');
            out.push('l');
            out.push('l');
            assert(out@ =~= old(out)@ + jser(JsonV::Null));
        },
        Json::Bool(b) => {
            if *b {
                out.push('t');
                out.push('r');
                out.push('u');
                out.push('e');
            } else {
                out.push('f');
                out.push('a');
                out.push('l');
                out.push('s');
                out.push('e');
            }
            assert(out@ =~= old(out)@ + jser(JsonV::Bool(*b)));
        },
        Json::Num(num) => {
            if num.neg && num.mag > 0 {
                out.push('-');
                write_u64(num.mag, out);
                assert(out@ =~= old(out)@ + (seq!['-'] + dec_digits(num.mag as nat)));
            } else {
                write_u64(num.mag, out);
            }
        },
        Json::Str(s) => {
            write_string(s, out);
        },
        Json::Arr(v) => {
            out.push('[');
            write_items(v, 0, out);
            out.push(']');
            proof {
                lemma_json_seq_view_index(v@);
                assert(json_seq_view(v@).skip(0) =~= json_seq_view(v@));
                assert(out@ =~= old(out)@ + (seq!['['] + jser_items(json_seq_view(v@))
                    + seq![']']));
            }
        },
        Json::Obj(v) => {
            out.push('{');
            write_members(v, 0, out);
            out.push('}');
            proof {
                lemma_json_obj_view_index(v@);
                assert(json_obj_view(v@).skip(0) =~= json_obj_view(v@));
                assert(out@ =~= old(out)@ + (seq!['{'] + jser_members(json_obj_view(v@))
                    + seq!['}']));
            }
        },
    }
}

/// Writes the elements of an array from position `i` on, comma separated.
fn write_items(v: &Vec<Json>, i: usize, out: &mut Vec<char>)
    requires
        i <= v@.len(),
    ensures
        final(out)@ == old(out)@ + jser_items(json_seq_view(v@).skip(i as int)),
    decreases v, 1int, v@.len() - i,
{
    proof {
        lemma_json_seq_view_index(v@);
    }
    let ghost es = json_seq_view(v@).skip(i as int);
    if i < v.len() {
        write_json(&v[i], out);
        assert(es[0] == json_view(v@[i as int]));
        if i + 1 < v.len() {
            out.push(',');
            write_items(v, i + 1, out);
            proof {
                assert(es.drop_first() =~= json_seq_view(v@).skip(i as int + 1));
                assert(out@ =~= old(out)@ + (jser(es[0]) + seq![','] + jser_items(
                    es.drop_first(),
                )));
            }
        } else {
            assert(es.len() == 1);
            assert(out@ =~= old(out)@ + jser_items(es));
        }
    } else {
        assert(es =~= Seq::<JsonV>::empty());
        assert(out@ =~= old(out)@ + jser_items(es));
    }
}

/// Writes the members of an object from position `i` on, comma separated.
fn write_members(v: &Vec<(String, Json)>, i: usize, out: &mut Vec<char>)
    requires
        i <= v@.len(),
    ensures
        final(out)@ == old(out)@ + jser_members(json_obj_view(v@).skip(i as int)),
    decreases v, 1int, v@.len() - i,
{
    proof {
        lemma_json_obj_view_index(v@);
    }
    let ghost ms = json_obj_view(v@).skip(i as int);
    if i < v.len() {
        write_string(&v[i].0, out);
        out.push(':');
        write_json(&v[i].1, out);
        assert(ms[0] == (v@[i as int].0@, json_view(v@[i as int].1)));
        assert(out@ =~= old(out)@ + jser_member(ms[0])) by {
            assert(out@ =~= old(out)@ + ((seq!['"'] + esc_str(v@[i as int].0@) + seq!['"'])
                + seq![':'] + jser(json_view(v@[i as int].1))));
            assert(jser_member(ms[0]) =~= (seq!['"'] + esc_str(v@[i as int].0@) + seq!['"'])
                + seq![':'] + jser(json_view(v@[i as int].1)));
        }
        if i + 1 < v.len() {
            out.push(',');
            write_members(v, i + 1, out);
            proof {
                assert(ms.drop_first() =~= json_obj_view(v@).skip(i as int + 1));
                assert(out@ =~= old(out)@ + (jser_member(ms[0]) + seq![','] + jser_members(
                    ms.drop_first(),
                )));
            }
        } else {
            assert(ms.len() == 1);
            assert(out@ =~= old(out)@ + jser_members(ms));
        }
    } else {
        assert(ms =~= Seq::<(Seq<char>, JsonV)>::empty());
        assert(out@ =~= old(out)@ + jser_members(ms));
    }
}

/// Relies on `String::from_iter`: collecting characters yields the string of
/// exactly those characters.
#[verifier::external_body]
pub fn chars_to_string(v: &Vec<char>) -> (r: String)
    ensures
        r@ == v@,
{
    String::from_iter(v.iter().copied())
}

/// Serializes a value as one line of text.
pub fn json_to_string(j: &Json) -> (r: String)
    ensures
        r@ == jser(j@),
{
    let mut out: Vec<char> = Vec::new();
    write_json(j, &mut out);
    assert(out@ =~= jser(j@));
    chars_to_string(&out)
}


// ---------------------------------------------------------------------------
// Executable decoder
// ---------------------------------------------------------------------------

/// Digit values are never negative.
proof fn lemma_digits_val_nonneg(s: Seq<char>)
    ensures
        digits_val(s) >= 0,
    decreases s.len(),
{
    if s.len() > 0 {
        lemma_digits_val_nonneg(s.drop_last());
    }
}

/// The value of a digit run grows with its length.
proof fn lemma_digits_val_mono(s: Seq<char>, a: int, b: int)
    requires
        0 <= a <= b <= s.len(),
    ensures
        digits_val(s.take(a)) <= digits_val(s.take(b)),
    decreases b - a,
{
    if a < b {
        lemma_digits_val_mono(s, a, b - 1);
        let u = s.take(b);
        assert(u.drop_last() =~= s.take(b - 1));
        lemma_digits_val_nonneg(s.take(b - 1));
        assert(digits_val(u) == digits_val(s.take(b - 1)) * 10 + digit_val(u.last()));
        assert(digits_val(s.take(b - 1)) * 10 >= digits_val(s.take(b - 1)));
    }
}

/// The digit run of a sequence: its positions hold digits and it is maximal.
proof fn lemma_digits_len_char(s: Seq<char>)
    ensures
        digits_len(s) <= s.len(),
        forall|p: int| 0 <= p < digits_len(s) ==> is_digit(s[p]),
        digits_len(s) < s.len() ==> !is_digit(s[digits_len(s) as int]),
    decreases s.len(),
{
    if s.len() > 0 && is_digit(s[0]) {
        lemma_digits_len_char(s.drop_first());
        assert forall|p: int| 0 <= p < digits_len(s) implies is_digit(s[p]) by {
            if p > 0 {
                assert(s.drop_first()[p - 1] == s[p]);
            }
        }
        if digits_len(s) < s.len() {
            assert(s.drop_first()[digits_len(s.drop_first()) as int]
                == s[digits_len(s) as int]);
        }
    }
}

/// Whether a character is a decimal digit.
fn is_digit_exec(c: char) -> (b: bool)
    ensures
        b == is_digit(c),
{
    c == '0' || c == '1' || c == '2' || c == '3' || c == '4' || c == '5' || c == '6' || c == '7'
        || c == '8' || c == '9'
}

/// The value of a digit character.
fn digit_val_exec(c: char) -> (r: u64)
    requires
        is_digit(c),
    ensures
        r == digit_val(c),
        r < 10,
{
    if c == '0' {
        0
    } else if c == '1' {
        1
    } else if c == '2' {
        2
    } else if c == '3' {
        3
    } else if c == '4' {
        4
    } else if c == '5' {
        5
    } else if c == '6' {
        6
    } else if c == '7' {
        7
    } else if c == '8' {
        8
    } else {
        9
    }
}

/// Advances past leading whitespace, mirroring [`skip_ws`].
fn skip_ws_idx(s: &Vec<char>, i: usize) -> (r: usize)
    requires
        i <= s@.len(),
    ensures
        i <= r <= s@.len(),
        s@.skip(r as int) == skip_ws(s@.skip(i as int)),
    decreases s@.len() - i,
{
    if i < s.len() {
        let c = s[i];
        if c == ' ' || c == '\t' || c == '\r' || c == '\n' {
            proof {
                assert(s@.skip(i as int).drop_first() =~= s@.skip(i as int + 1));
            }
            return skip_ws_idx(s, i + 1);
        }
    }
    proof {
        let t = s@.skip(i as int);
        if i < s@.len() {
            assert(t[0] == s@[i as int]);
        }
        assert(skip_ws(t) == t);
    }
    i
}

/// The length of the digit run starting at `i`, mirroring [`digits_len`].
fn count_digits(s: &Vec<char>, i: usize) -> (k: usize)
    requires
        i <= s@.len(),
    ensures
        k == digits_len(s@.skip(i as int)),
        i + k <= s@.len(),
    decreases s@.len() - i,
{
    if i < s.len() && is_digit_exec(s[i]) {
        proof {
            assert(s@.skip(i as int)[0] == s@[i as int]);
            assert(s@.skip(i as int).drop_first() =~= s@.skip(i as int + 1));
        }
        let k = count_digits(s, i + 1);
        k + 1
    } else {
        proof {
            let t = s@.skip(i as int);
            if i < s@.len() {
                assert(t[0] == s@[i as int]);
            }
            assert(digits_len(t) == 0);
        }
        0
    }
}

/// Parses an unsigned decimal number at `i`, mirroring [`jparse_digits`].
fn parse_u64(s: &Vec<char>, i: usize) -> (r: Option<(u64, usize)>)
    requires
        i <= s@.len(),
    ensures
        match r {
            Some(p) => i < p.1 <= s@.len() && jparse_digits(s@.skip(i as int)) == Some(
                (p.0 as int, s@.skip(p.1 as int)),
            ),
            None => jparse_digits(s@.skip(i as int)) == None::<(int, Seq<char>)>,
        },
{
    let ghost t = s@.skip(i as int);
    let k = count_digits(s, i);
    proof {
        lemma_digits_len_char(t);
    }
    if k == 0 {
        return None;
    }
    let sl = s.len();
    assert(i + k <= sl);
    let end = i + k;
    let mut acc: u64 = 0;
    let mut p = i;
    proof {
        assert(t.take(0) =~= Seq::<char>::empty());
    }
    while p < end
        invariant
            i <= p <= end,
            end == i + k,
            i + k <= s@.len(),
            k == digits_len(t),
            t == s@.skip(i as int),
            acc == digits_val(t.take(p - i)),
        decreases end - p,
    {
        let ghost m = p - i;
        proof {
            lemma_digits_len_char(t);
        }
        assert(is_digit(t[m]));
        assert(t[m] == s@[p as int]);
        let d = digit_val_exec(s[p]);
        proof {
            assert(t.take(m + 1).drop_last() =~= t.take(m));
            assert(t.take(m + 1).last() == t[m]);
            assert(digits_val(t.take(m + 1)) == digits_val(t.take(m)) * 10 + digit_val(t[m]));
        }
        if acc > (0xffff_ffff_ffff_ffffu64 - d) / 10 {
            proof {
                let big = (0xffff_ffff_ffff_ffffu64 - d) as int;
                vstd::arithmetic::div_mod::lemma_fundamental_div_mod(big, 10);
                assert(10 * (big / 10) <= big);
                assert(acc * 10 + d > 0xffff_ffff_ffff_ffff);
                lemma_digits_val_mono(t, m + 1, k as int);
                assert(digits_val(t.take(k as int)) > 0xffff_ffff_ffff_ffff);
            }
            return None;
        }
        proof {
            let big = (0xffff_ffff_ffff_ffffu64 - d) as int;
            vstd::arithmetic::div_mod::lemma_fundamental_div_mod(big, 10);
            assert(10 * (big / 10) <= big);
            assert(acc * 10 + d <= 0xffff_ffff_ffff_ffff);
        }
        acc = acc * 10 + d;
        p = p + 1;
    }
    proof {
        assert(t.take(k as int).len() == k);
        assert(s@.skip(i as int).skip(k as int) =~= s@.skip(i as int + k as int));
    }
    Some((acc, i + k))
}

/// What a short escape stands for, mirroring [`unesc`].
fn unesc_char(c: char) -> (r: Option<char>)
    ensures
        r == unesc(c),
{
    if c == '"' {
        Some('"')
    } else if c == '\\' {
        Some('\\')
    } else if c == '/' {
        Some('/')
    } else if c == 'n' {
        Some('\n')
    } else if c == 'r' {
        Some('\r')
    } else if c == 't' {
        Some('\t')
    } else if c == 'b' {
        Some('\u{8}')
    } else if c == 'f' {
        Some('\u{c}')
    } else {
        None
    }
}

/// Parses string content after the opening quote onto `out`, mirroring
/// [`jparse_str`]. Returns the position after the closing quote.
fn parse_str_chars(s: &Vec<char>, i: usize, out: &mut Vec<char>) -> (r: Option<usize>)
    requires
        i <= s@.len(),
    ensures
        match r {
            Some(n) => i < n <= s@.len() && (jparse_str(s@.skip(i as int)) matches Some(p)
                && final(out)@ == old(out)@ + p.0 && p.1 == s@.skip(n as int)),
            None => jparse_str(s@.skip(i as int)) == None::<(Seq<char>, Seq<char>)>,
        },
    decreases s@.len() - i,
{
    let ghost t = s@.skip(i as int);
    if i >= s.len() {
        return None;
    }
    let c = s[i];
    assert(t[0] == c);
    if c == '"' {
        proof {
            assert(t.drop_first() =~= s@.skip(i as int + 1));
            assert(out@ =~= out@ + Seq::<char>::empty());
        }
        Some(i + 1)
    } else if c == '\\' {
        if s.len() - i < 2 {
            assert(t.len() < 2);
            return None;
        }
        assert(t[1] == s@[i as int + 1]);
        match unesc_char(s[i + 1]) {
            None => None,
            Some(u) => {
                out.push(u);
                proof {
                    assert(t.skip(2) =~= s@.skip(i as int + 2));
                }
                match parse_str_chars(s, i + 2, out) {
                    None => None,
                    Some(n) => {
                        proof {
                            let p = jparse_str(s@.skip(i as int + 2)).unwrap();
                            assert(out@ =~= old(out)@ + (seq![u] + p.0));
                        }
                        Some(n)
                    },
                }
            },
        }
    } else {
        out.push(c);
        proof {
            assert(t.drop_first() =~= s@.skip(i as int + 1));
        }
        match parse_str_chars(s, i + 1, out) {
            None => None,
            Some(n) => {
                proof {
                    let p = jparse_str(s@.skip(i as int + 1)).unwrap();
                    assert(out@ =~= old(out)@ + (seq![c] + p.0));
                }
                Some(n)
            },
        }
    }
}

/// Parses one value at `i`, mirroring [`jparse_value`].
pub fn parse_value(s: &Vec<char>, i: usize) -> (r: Option<(Json, usize)>)
    requires
        i <= s@.len(),
    ensures
        match r {
            Some(p) => i < p.1 <= s@.len() && jparse_value(s@.skip(i as int)) == Some(
                (p.0@, s@.skip(p.1 as int)),
            ),
            None => jparse_value(s@.skip(i as int)) == None::<(JsonV, Seq<char>)>,
        },
    decreases s@.len() - i, 1int,
{
    let ghost t = s@.skip(i as int);
    if i >= s.len() {
        return None;
    }
    let c = s[i];
    assert(t[0] == c);
    if c == 'n' {
        if s.len() - i >= 4 && s[i + 1] == 'u' && s[i + 2] == 'l' && s[i + 3] == 'l' {
            proof {
                assert(t[1] == s@[i as int + 1]);
                assert(t[2] == s@[i as int + 2]);
                assert(t[3] == s@[i as int + 3]);
                assert(t.skip(4) =~= s@.skip(i as int + 4));
            }
            Some((Json::Null, i + 4))
        } else {
            proof {
                if t.len() >= 4 {
                    assert(t[1] == s@[i as int + 1]);
                    assert(t[2] == s@[i as int + 2]);
                    assert(t[3] == s@[i as int + 3]);
                }
            }
            None
        }
    } else if c == 't' {
        if s.len() - i >= 4 && s[i + 1] == 'r' && s[i + 2] == 'u' && s[i + 3] == 'e' {
            proof {
                assert(t[1] == s@[i as int + 1]);
                assert(t[2] == s@[i as int + 2]);
                assert(t[3] == s@[i as int + 3]);
                assert(t.skip(4) =~= s@.skip(i as int + 4));
            }
            Some((Json::Bool(true), i + 4))
        } else {
            proof {
                if t.len() >= 4 {
                    assert(t[1] == s@[i as int + 1]);
                    assert(t[2] == s@[i as int + 2]);
                    assert(t[3] == s@[i as int + 3]);
                }
            }
            None
        }
    } else if c == 'f' {
        if s.len() - i >= 5 && s[i + 1] == 'a' && s[i + 2] == 'l' && s[i + 3] == 's' && s[i + 4]
            == 'e' {
            proof {
                assert(t[1] == s@[i as int + 1]);
                assert(t[2] == s@[i as int + 2]);
                assert(t[3] == s@[i as int + 3]);
                assert(t[4] == s@[i as int + 4]);
                assert(t.skip(5) =~= s@.skip(i as int + 5));
            }
            Some((Json::Bool(false), i + 5))
        } else {
            proof {
                if t.len() >= 5 {
                    assert(t[1] == s@[i as int + 1]);
                    assert(t[2] == s@[i as int + 2]);
                    assert(t[3] == s@[i as int + 3]);
                    assert(t[4] == s@[i as int + 4]);
                }
            }
            None
        }
    } else if c == '"' {
        let mut buf: Vec<char> = Vec::new();
        proof {
            assert(t.drop_first() =~= s@.skip(i as int + 1));
        }
        match parse_str_chars(s, i + 1, &mut buf) {
            None => None,
            Some(n) => {
                let content = chars_to_string(&buf);
                proof {
                    let p = jparse_str(s@.skip(i as int + 1)).unwrap();
                    assert(buf@ == Seq::<char>::empty() + p.0);
                    assert(content@ =~= p.0);
                }
                Some((Json::Str(content), n))
            },
        }
    } else if c == '[' {
        proof {
            assert(t.drop_first() =~= s@.skip(i as int + 1));
        }
        match parse_items(s, i + 1) {
            None => None,
            Some(p) => Some((Json::Arr(p.0), p.1)),
        }
    } else if c == '{' {
        proof {
            assert(t.drop_first() =~= s@.skip(i as int + 1));
        }
        match parse_members(s, i + 1) {
            None => None,
            Some(p) => Some((Json::Obj(p.0), p.1)),
        }
    } else if c == '-' {
        proof {
            assert(t.drop_first() =~= s@.skip(i as int + 1));
        }
        match parse_u64(s, i + 1) {
            None => None,
            Some(p) => {
                let num = JsonNum { neg: true, mag: p.0 };
                Some((Json::Num(num), p.1))
            },
        }
    } else if is_digit_exec(c) {
        match parse_u64(s, i) {
            None => None,
            Some(p) => {
                let num = JsonNum { neg: false, mag: p.0 };
                Some((Json::Num(num), p.1))
            },
        }
    } else {
        None
    }
}

/// Parses array elements after the opening bracket, mirroring
/// [`jparse_items`].
fn parse_items(s: &Vec<char>, i: usize) -> (r: Option<(Vec<Json>, usize)>)
    requires
        i <= s@.len(),
    ensures
        match r {
            Some(p) => i <= p.1 <= s@.len() && jparse_items(s@.skip(i as int)) == Some(
                (json_seq_view(p.0@), s@.skip(p.1 as int)),
            ),
            None => jparse_items(s@.skip(i as int)) == None::<(Seq<JsonV>, Seq<char>)>,
        },
    decreases s@.len() - i, 2int,
{
    let ghost src = s@.skip(i as int);
    let t = skip_ws_idx(s, i);
    let ghost tsuf = s@.skip(t as int);
    assert(tsuf.len() <= src.len());
    if t >= s.len() {
        assert(tsuf.len() == 0);
        return None;
    }
    let c = s[t];
    assert(tsuf[0] == c);
    if c == ']' {
        let out_v: Vec<Json> = Vec::new();
        proof {
            assert(tsuf.drop_first() =~= s@.skip(t as int + 1));
            assert(json_seq_view(out_v@) =~= Seq::<JsonV>::empty());
        }
        return Some((out_v, t + 1));
    }
    match parse_value(s, t) {
        None => None,
        Some((j0, n1)) => {
            assert(s@.skip(n1 as int).len() < src.len());
            let u = skip_ws_idx(s, n1);
            let ghost usuf = s@.skip(u as int);
            assert(usuf.len() <= s@.skip(n1 as int).len());
            if u >= s.len() {
                assert(usuf.len() == 0);
                return None;
            }
            let c2 = s[u];
            assert(usuf[0] == c2);
            if c2 == ']' {
                let mut out_v: Vec<Json> = Vec::new();
                out_v.push(j0);
                proof {
                    assert(usuf.drop_first() =~= s@.skip(u as int + 1));
                    assert(out_v@.len() == 1);
                    assert(out_v@[0] == j0);
                    assert(out_v@.drop_first() =~= Seq::<Json>::empty());
                    assert(json_seq_view(out_v@.drop_first()) == Seq::<JsonV>::empty());
                    assert(json_seq_view(out_v@) == seq![json_view(out_v@[0])] + json_seq_view(
                        out_v@.drop_first(),
                    ));
                    assert(json_seq_view(out_v@) =~= seq![j0@]);
                }
                Some((out_v, u + 1))
            } else if c2 == ',' {
                proof {
                    assert(usuf.drop_first() =~= s@.skip(u as int + 1));
                }
                match parse_items(s, u + 1) {
                    None => None,
                    Some((mut vs, n2)) => {
                        let ghost old_vs = vs@;
                        vs.insert(0, j0);
                        proof {
                            assert(vs@[0] == j0);
                            assert(vs@.drop_first() =~= old_vs);
                            assert(json_seq_view(vs@) =~= seq![j0@] + json_seq_view(old_vs));
                        }
                        Some((vs, n2))
                    },
                }
            } else {
                None
            }
        },
    }
}

/// Parses object members after the opening brace, mirroring
/// [`jparse_members`].
fn parse_members(s: &Vec<char>, i: usize) -> (r: Option<(Vec<(String, Json)>, usize)>)
    requires
        i <= s@.len(),
    ensures
        match r {
            Some(p) => i <= p.1 <= s@.len() && jparse_members(s@.skip(i as int)) == Some(
                (json_obj_view(p.0@), s@.skip(p.1 as int)),
            ),
            None => jparse_members(s@.skip(i as int)) == None::<
                (Seq<(Seq<char>, JsonV)>, Seq<char>),
            >,
        },
    decreases s@.len() - i, 2int,
{
    let ghost src = s@.skip(i as int);
    let t = skip_ws_idx(s, i);
    let ghost tsuf = s@.skip(t as int);
    assert(tsuf.len() <= src.len());
    if t >= s.len() {
        assert(tsuf.len() == 0);
        return None;
    }
    let c = s[t];
    assert(tsuf[0] == c);
    if c == '}' {
        let out_v: Vec<(String, Json)> = Vec::new();
        proof {
            assert(tsuf.drop_first() =~= s@.skip(t as int + 1));
            assert(json_obj_view(out_v@) =~= Seq::<(Seq<char>, JsonV)>::empty());
        }
        return Some((out_v, t + 1));
    }
    if c != '"' {
        return None;
    }
    let mut buf: Vec<char> = Vec::new();
    proof {
        assert(tsuf.drop_first() =~= s@.skip(t as int + 1));
    }
    match parse_str_chars(s, t + 1, &mut buf) {
        None => None,
        Some(nk) => {
            let key = chars_to_string(&buf);
            proof {
                let p = jparse_str(s@.skip(t as int + 1)).unwrap();
                assert(buf@ == Seq::<char>::empty() + p.0);
                assert(key@ =~= p.0);
                assert(s@.skip(nk as int).len() < src.len());
            }
            let u = skip_ws_idx(s, nk);
            let ghost usuf = s@.skip(u as int);
            assert(usuf.len() <= s@.skip(nk as int).len());
            if u >= s.len() {
                assert(usuf.len() == 0);
                return None;
            }
            let c2 = s[u];
            assert(usuf[0] == c2);
            if c2 != ':' {
                return None;
            }
            proof {
                assert(usuf.drop_first() =~= s@.skip(u as int + 1));
            }
            let w = skip_ws_idx(s, u + 1);
            let ghost wsuf = s@.skip(w as int);
            assert(wsuf.len() < usuf.len());
            match parse_value(s, w) {
                None => None,
                Some((v0, n1)) => {
                    assert(s@.skip(n1 as int).len() < src.len());
                    let u2 = skip_ws_idx(s, n1);
                    let ghost u2suf = s@.skip(u2 as int);
                    assert(u2suf.len() <= s@.skip(n1 as int).len());
                    if u2 >= s.len() {
                        assert(u2suf.len() == 0);
                        return None;
                    }
                    let c3 = s[u2];
                    assert(u2suf[0] == c3);
                    if c3 == '}' {
                        let ghost kview = key@;
                        let mut out_v: Vec<(String, Json)> = Vec::new();
                        out_v.push((key, v0));
                        proof {
                            assert(u2suf.drop_first() =~= s@.skip(u2 as int + 1));
                            assert(out_v@.len() == 1);
                            assert(out_v@.drop_first() =~= Seq::<(String, Json)>::empty());
                            assert(json_obj_view(out_v@.drop_first()) == Seq::<
                                (Seq<char>, JsonV),
                            >::empty());
                            assert(json_obj_view(out_v@) == seq![
                                (out_v@[0].0@, json_view(out_v@[0].1)),
                            ] + json_obj_view(out_v@.drop_first()));
                            assert(json_obj_view(out_v@) =~= seq![(kview, v0@)]);
                        }
                        Some((out_v, u2 + 1))
                    } else if c3 == ',' {
                        proof {
                            assert(u2suf.drop_first() =~= s@.skip(u2 as int + 1));
                        }
                        match parse_members(s, u2 + 1) {
                            None => None,
                            Some((mut ms, n2)) => {
                                let ghost old_ms = ms@;
                                let ghost kview = key@;
                                ms.insert(0, (key, v0));
                                proof {
                                    assert(ms@[0].0@ == kview && ms@[0].1 == v0);
                                    assert(ms@.drop_first() =~= old_ms);
                                    assert(json_obj_view(ms@) =~= seq![(kview, v0@)]
                                        + json_obj_view(old_ms));
                                }
                                Some((ms, n2))
                            },
                        }
                    } else {
                        None
                    }
                },
            }
        },
    }
}

/// The characters of a string, in order.
pub fn string_to_chars(s: &str) -> (r: Vec<char>)
    ensures
        r@ == s@,
{
    let n = s.unicode_len();
    let mut out: Vec<char> = Vec::new();
    let mut i: usize = 0;
    while i < n
        invariant
            i <= n,
            n == s@.len(),
            out@ == s@.take(i as int),
        decreases n - i,
    {
        out.push(s.get_char(i));
        proof {
            assert(out@ =~= s@.take(i as int + 1));
        }
        i = i + 1;
    }
    proof {
        assert(s@.take(n as int) =~= s@);
    }
    out
}

/// Parses one line of text as a JSON value, mirroring [`jparse`]: leading
/// and trailing whitespace is allowed, anything further is rejected.
pub fn json_from_str(s: &str) -> (r: Option<Json>)
    ensures
        match r {
            Some(j) => jparse(s@) == Some(j@),
            None => jparse(s@) == None::<JsonV>,
        },
{
    let cs = string_to_chars(s);
    proof {
        assert(cs@.skip(0) =~= s@);
    }
    let t = skip_ws_idx(&cs, 0);
    match parse_value(&cs, t) {
        None => None,
        Some((j, n)) => {
            let e = skip_ws_idx(&cs, n);
            if e == cs.len() {
                assert(cs@.skip(e as int).len() == 0);
                Some(j)
            } else {
                assert(cs@.skip(e as int).len() > 0);
                None
            }
        },
    }
}


// ---------------------------------------------------------------------------
// Deep clone
// ---------------------------------------------------------------------------

/// A structural copy of a value, equal to the original in the model.
pub fn json_clone(j: &Json) -> (r: Json)
    ensures
        r@ == j@,
    decreases j, 0int, 0int,
{
    match j {
        Json::Null => Json::Null,
        Json::Bool(b) => Json::Bool(*b),
        Json::Num(n) => Json::Num(*n),
        Json::Str(s) => Json::Str(s.clone()),
        Json::Arr(v) => {
            let mut out: Vec<Json> = Vec::new();
            clone_items(v, 0, &mut out);
            proof {
                lemma_json_seq_view_index(v@);
                lemma_json_seq_view_index(out@);
                assert(json_seq_view(out@) =~= json_seq_view(v@));
            }
            Json::Arr(out)
        },
        Json::Obj(v) => {
            let mut out: Vec<(String, Json)> = Vec::new();
            clone_members(v, 0, &mut out);
            proof {
                lemma_json_obj_view_index(v@);
                lemma_json_obj_view_index(out@);
                assert(json_obj_view(out@) =~= json_obj_view(v@));
            }
            Json::Obj(out)
        },
    }
}

/// Copies array elements from position `i` on.
fn clone_items(v: &Vec<Json>, i: usize, out: &mut Vec<Json>)
    requires
        i <= v@.len(),
    ensures
        final(out)@.len() == old(out)@.len() + v@.len() - i,
        forall|k: int| 0 <= k < old(out)@.len() ==> final(out)@[k] == old(out)@[k],
        forall|k: int|
            i <= k < v@.len() ==> json_view(final(out)@[old(out)@.len() + k - i]) == json_view(
                v@[k],
            ),
    decreases v, 1int, v@.len() - i,
{
    if i < v.len() {
        let c = json_clone(&v[i]);
        out.push(c);
        clone_items(v, i + 1, out);
    }
}

/// Copies object members from position `i` on.
fn clone_members(v: &Vec<(String, Json)>, i: usize, out: &mut Vec<(String, Json)>)
    requires
        i <= v@.len(),
    ensures
        final(out)@.len() == old(out)@.len() + v@.len() - i,
        forall|k: int| 0 <= k < old(out)@.len() ==> final(out)@[k] == old(out)@[k],
        forall|k: int|
            i <= k < v@.len() ==> final(out)@[old(out)@.len() + k - i].0@ == v@[k].0@
                && json_view(final(out)@[old(out)@.len() + k - i].1) == json_view(v@[k].1),
    decreases v, 1int, v@.len() - i,
{
    if i < v.len() {
        let key = v[i].0.clone();
        let val = json_clone(&v[i].1);
        out.push((key, val));
        clone_members(v, i + 1, out);
    }
}


/// The model of every executable value is well formed: executable numbers
/// cannot leave the range the grammar writes and reads back.
pub proof fn lemma_json_view_wf(j: Json)
    ensures
        wf_json(json_view(j)),
    decreases j, 0int,
{
    match j {
        Json::Arr(v) => {
            lemma_json_seq_view_wf(v@);
        },
        Json::Obj(v) => {
            lemma_json_obj_view_wf(v@);
        },
        _ => {},
    }
}

/// Element models of an array are well formed.
proof fn lemma_json_seq_view_wf(s: Seq<Json>)
    ensures
        wf_items(json_seq_view(s)),
    decreases s, 1int,
{
    if s.len() > 0 {
        lemma_json_view_wf(s[0]);
        lemma_json_seq_view_wf(s.drop_first());
        assert(json_seq_view(s).drop_first() =~= json_seq_view(s.drop_first()));
    }
}

/// Member value models of an object are well formed.
proof fn lemma_json_obj_view_wf(s: Seq<(String, Json)>)
    ensures
        wf_members(json_obj_view(s)),
    decreases s, 1int,
{
    if s.len() > 0 {
        lemma_json_view_wf(s[0].1);
        lemma_json_obj_view_wf(s.drop_first());
        assert(json_obj_view(s).drop_first() =~= json_obj_view(s.drop_first()));
    }
}

} // verus!
