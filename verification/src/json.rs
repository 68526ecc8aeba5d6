//! A canonical JSON codec for the wire protocol.
//!
//! The encoder prints one canonical text for every value: no whitespace,
//! object fields in the order given, strings with `"` and `\` escaped,
//! numbers in decimal without leading zeros. The parser accepts exactly
//! the canonical texts, so decoding an encoded value gives the value
//! back; that round trip is proved below (`lemma_parse_enc`).

use vstd::prelude::*;

verus! {

broadcast use vstd::seq::group_seq_axioms, vstd::std_specs::vec::group_vec_axioms;

/// The mathematical shape of a JSON value.
#[verifier::ext_equal]
pub enum JsonV {
    Null,
    Bool(bool),
    UInt(u64),
    Str(Seq<char>),
    Arr(Seq<JsonV>),
    Obj(Seq<(Seq<char>, JsonV)>),
}

// ---------------------------------------------------------------------
// Canonical encoding
// ---------------------------------------------------------------------

/// One decimal digit as a character.
pub open spec fn digit_char(n: nat) -> char
    recommends
        n < 10,
{
    if n == 0 { '0' }
    else if n == 1 { '1' }
    else if n == 2 { '2' }
    else if n == 3 { '3' }
    else if n == 4 { '4' }
    else if n == 5 { '5' }
    else if n == 6 { '6' }
    else if n == 7 { '7' }
    else if n == 8 { '8' }
    else { '9' }
}

/// The canonical decimal digits of a number, most significant first.
pub open spec fn dec_digits(n: nat) -> Seq<char>
    decreases n,
{
    if n < 10 {
        seq![digit_char(n)]
    } else {
        dec_digits(n / 10) + seq![digit_char(n % 10)]
    }
}

/// How one character appears inside a string body: `"` and `\` get a
/// backslash, everything else stands as itself.
pub open spec fn esc_seq(c: char) -> Seq<char> {
    if c == '"' || c == '\\' {
        seq!['\\', c]
    } else {
        seq![c]
    }
}

/// The body of an encoded string, without the surrounding quotes.
pub open spec fn enc_str_body(s: Seq<char>) -> Seq<char>
    decreases s.len(),
{
    if s.len() == 0 {
        Seq::empty()
    } else {
        esc_seq(s.first()) + enc_str_body(s.drop_first())
    }
}

/// A full encoded string: quote, escaped body, quote.
pub open spec fn enc_string(s: Seq<char>) -> Seq<char> {
    seq!['"'] + enc_str_body(s) + seq!['"']
}

/// The canonical text of a JSON value.
pub open spec fn enc_jsonv(v: JsonV) -> Seq<char>
    decreases v, 0int,
{
    match v {
        JsonV::Null => seq!['n', 'u', 'l', 'l'],
        JsonV::Bool(b) => if b {
            seq!['t', 'r', 'u', 'e']
        } else {
            seq!['f', 'a', 'l', 's', 'e']
        },
        JsonV::UInt(n) => dec_digits(n as nat),
        JsonV::Str(s) => enc_string(s),
        JsonV::Arr(items) => seq!['['] + enc_items(items) + seq![']'],
        JsonV::Obj(fields) => seq!['{'] + enc_fields(fields) + seq!['}'],
    }
}

/// The comma-separated encodings of an array's items.
pub open spec fn enc_items(items: Seq<JsonV>) -> Seq<char>
    decreases items, 1int,
{
    if items.len() == 0 {
        Seq::empty()
    } else if items.len() == 1 {
        enc_jsonv(items[0])
    } else {
        enc_jsonv(items[0]) + seq![','] + enc_items(items.drop_first())
    }
}

/// One encoded object field: quoted key, colon, value.
pub open spec fn enc_field(f: (Seq<char>, JsonV)) -> Seq<char>
    decreases f, 1int,
{
    enc_string(f.0) + seq![':'] + enc_jsonv(f.1)
}

/// The comma-separated encodings of an object's fields.
pub open spec fn enc_fields(fields: Seq<(Seq<char>, JsonV)>) -> Seq<char>
    decreases fields, 2int,
{
    if fields.len() == 0 {
        Seq::empty()
    } else if fields.len() == 1 {
        enc_field(fields[0])
    } else {
        enc_field(fields[0]) + seq![','] + enc_fields(fields.drop_first())
    }
}

// ---------------------------------------------------------------------
// Canonical parsing
// ---------------------------------------------------------------------

/// A decimal digit character.
pub open spec fn is_dec_digit(c: char) -> bool {
    '0' <= c && c <= '9'
}

/// The numeric value of a digit character.
pub open spec fn char_digit(c: char) -> nat
    recommends
        is_dec_digit(c),
{
    if c == '0' { 0nat }
    else if c == '1' { 1nat }
    else if c == '2' { 2nat }
    else if c == '3' { 3nat }
    else if c == '4' { 4nat }
    else if c == '5' { 5nat }
    else if c == '6' { 6nat }
    else if c == '7' { 7nat }
    else if c == '8' { 8nat }
    else { 9nat }
}

/// How many decimal digits stand at the front of the text.
pub open spec fn digit_run_len(t: Seq<char>) -> int
    decreases t.len(),
{
    if t.len() == 0 || !is_dec_digit(t[0]) {
        0
    } else {
        1 + digit_run_len(t.drop_first())
    }
}

/// The value of a digit string, most significant digit first.
pub open spec fn dec_val(ds: Seq<char>) -> nat
    decreases ds.len(),
{
    if ds.len() == 0 {
        0nat
    } else {
        dec_val(ds.drop_last()) * 10 + char_digit(ds.last())
    }
}

/// Parses a canonical unsigned number from the front of the text:
/// a nonempty digit run, no leading zero, value within `u64`.
pub open spec fn parse_uint(t: Seq<char>) -> Option<(u64, int)> {
    let k = digit_run_len(t);
    if k <= 0 || k > t.len() {
        None
    } else if k > 1 && t[0] == '0' {
        None
    } else {
        let v = dec_val(t.take(k));
        if v <= u64::MAX {
            Some(((v as u64), k))
        } else {
            None
        }
    }
}

/// Parses a string body up to and including the closing quote, undoing
/// the escapes the encoder makes and accepting no others.
pub open spec fn parse_str_body(t: Seq<char>) -> Option<(Seq<char>, int)>
    decreases t.len(),
{
    if t.len() == 0 {
        None
    } else if t[0] == '"' {
        Some((Seq::empty(), 1))
    } else if t[0] == '\\' {
        if t.len() >= 2 && (t[1] == '"' || t[1] == '\\') {
            match parse_str_body(t.skip(2)) {
                Some(p) => if p.1 >= 0 {
                    Some((seq![t[1]] + p.0, 2 + p.1))
                } else {
                    None
                },
                None => None,
            }
        } else {
            None
        }
    } else {
        match parse_str_body(t.skip(1)) {
            Some(p) => if p.1 >= 0 {
                Some((seq![t[0]] + p.0, 1 + p.1))
            } else {
                None
            },
            None => None,
        }
    }
}

/// Parses one canonical JSON value from the front of the text.
pub open spec fn parse_jsonv(t: Seq<char>) -> Option<(JsonV, int)>
    decreases t.len(), 0int,
{
    if t.len() == 0 {
        None
    } else if t[0] == 'n' {
        if t.len() >= 4 && t[1] == 'u' && t[2] == 'l' && t[3] == 'l' {
            Some((JsonV::Null, 4))
        } else {
            None
        }
    } else if t[0] == 't' {
        if t.len() >= 4 && t[1] == 'r' && t[2] == 'u' && t[3] == 'e' {
            Some((JsonV::Bool(true), 4))
        } else {
            None
        }
    } else if t[0] == 'f' {
        if t.len() >= 5 && t[1] == 'a' && t[2] == 'l' && t[3] == 's' && t[4] == 'e' {
            Some((JsonV::Bool(false), 5))
        } else {
            None
        }
    } else if t[0] == '"' {
        match parse_str_body(t.skip(1)) {
            Some(p) => if p.1 >= 0 {
                Some((JsonV::Str(p.0), 1 + p.1))
            } else {
                None
            },
            None => None,
        }
    } else if t[0] == '[' {
        if t.len() >= 2 && t[1] == ']' {
            Some((JsonV::Arr(Seq::empty()), 2))
        } else {
            match parse_items(t.skip(1)) {
                Some(p) => if p.1 >= 0 {
                    Some((JsonV::Arr(p.0), 1 + p.1))
                } else {
                    None
                },
                None => None,
            }
        }
    } else if t[0] == '{' {
        if t.len() >= 2 && t[1] == '}' {
            Some((JsonV::Obj(Seq::empty()), 2))
        } else {
            match parse_fields(t.skip(1)) {
                Some(p) => if p.1 >= 0 {
                    Some((JsonV::Obj(p.0), 1 + p.1))
                } else {
                    None
                },
                None => None,
            }
        }
    } else if is_dec_digit(t[0]) {
        match parse_uint(t) {
            Some(p) => Some((JsonV::UInt(p.0), p.1)),
            None => None,
        }
    } else {
        None
    }
}

/// Parses one or more comma-separated values followed by `]`,
/// consuming the closing bracket.
pub open spec fn parse_items(t: Seq<char>) -> Option<(Seq<JsonV>, int)>
    decreases t.len(), 1int,
{
    match parse_jsonv(t) {
        Some(p) => {
            let n = p.1;
            if 1 <= n && n < t.len() {
                if t[n] == ']' {
                    Some((seq![p.0], n + 1))
                } else if t[n] == ',' {
                    match parse_items(t.skip(n + 1)) {
                        Some(q) => if q.1 >= 0 {
                            Some((seq![p.0] + q.0, n + 1 + q.1))
                        } else {
                            None
                        },
                        None => None,
                    }
                } else {
                    None
                }
            } else {
                None
            }
        },
        None => None,
    }
}

/// Parses one key-value pair: quoted key, colon, value.
/// Returns the pair and the count of characters consumed.
pub open spec fn parse_field(t: Seq<char>) -> Option<((Seq<char>, JsonV), int)>
    decreases t.len(), 0int,
{
    if t.len() >= 1 && t[0] == '"' {
        match parse_str_body(t.skip(1)) {
            Some(kp) => {
                let kn = 1 + kp.1;
                if 1 <= kn && kn < t.len() && t[kn] == ':' {
                    match parse_jsonv(t.skip(kn + 1)) {
                        Some(vp) => if vp.1 >= 0 {
                            Some(((kp.0, vp.0), kn + 1 + vp.1))
                        } else {
                            None
                        },
                        None => None,
                    }
                } else {
                    None
                }
            },
            None => None,
        }
    } else {
        None
    }
}

// ---------------------------------------------------------------------
// Round trip: parsing a canonical encoding gives the value back
// ---------------------------------------------------------------------

/// Shape of a number's digits: nonempty, all decimal digits, and no
/// leading zero unless the number is zero itself.
pub proof fn lemma_dec_digits_props(n: nat)
    ensures
        dec_digits(n).len() >= 1,
        forall|i: int| 0 <= i < dec_digits(n).len() ==> is_dec_digit(#[trigger] dec_digits(n)[i]),
        n > 0 ==> dec_digits(n)[0] != '0',
        n < 10 ==> dec_digits(n).len() == 1,
        n >= 10 ==> dec_digits(n).len() >= 2,
    decreases n,
{
    if n >= 10 {
        lemma_dec_digits_props(n / 10);
    }
}

/// A digit run stops exactly where the digits stop.
proof fn lemma_digit_run(ds: Seq<char>, rest: Seq<char>)
    requires
        forall|i: int| 0 <= i < ds.len() ==> is_dec_digit(#[trigger] ds[i]),
        rest.len() == 0 || !is_dec_digit(rest[0]),
    ensures
        digit_run_len(ds + rest) == ds.len(),
    decreases ds.len(),
{
    if ds.len() == 0 {
        assert(ds + rest =~= rest);
    } else {
        assert((ds + rest)[0] == ds[0]);
        assert((ds + rest).drop_first() =~= ds.drop_first() + rest);
        lemma_digit_run(ds.drop_first(), rest);
    }
}

/// Reading the digits of a number back gives the number.
proof fn lemma_dec_val_of_digits(n: nat)
    ensures
        dec_val(dec_digits(n)) == n,
    decreases n,
{
    if n < 10 {
        let ds = dec_digits(n);
        assert(ds.drop_last() =~= Seq::empty());
        assert(char_digit(ds.last()) == n);
        assert(dec_val(ds) == dec_val(Seq::<char>::empty()) * 10 + n);
    } else {
        lemma_dec_val_of_digits(n / 10);
        let ds = dec_digits(n);
        let hi = dec_digits(n / 10);
        let d = digit_char(n % 10);
        lemma_dec_digits_props(n / 10);
        assert(ds == hi + seq![d]);
        assert(ds.last() == d);
        assert(ds.drop_last() =~= hi);
        assert(char_digit(d) == n % 10);
        assert(dec_val(ds) == dec_val(hi) * 10 + char_digit(d));
        assert(n == (n / 10) * 10 + n % 10) by {
            vstd::arithmetic::div_mod::lemma_fundamental_div_mod(n as int, 10);
        }
    }
}

/// Parsing the front of a canonical number, whatever follows it, gives
/// the number and consumes exactly its digits.
pub proof fn lemma_parse_uint_round(n: u64, rest: Seq<char>)
    requires
        rest.len() == 0 || !is_dec_digit(rest[0]),
    ensures
        parse_uint(dec_digits(n as nat) + rest) == Some((n, dec_digits(n as nat).len() as int)),
{
    let ds = dec_digits(n as nat);
    let t = ds + rest;
    lemma_dec_digits_props(n as nat);
    lemma_digit_run(ds, rest);
    lemma_dec_val_of_digits(n as nat);
    assert(t.take(ds.len() as int) =~= ds);
    if ds.len() > 1 {
        assert(t[0] == ds[0]);
        assert(n >= 10) by {
            lemma_dec_digits_props(n as nat);
        }
    }
}

/// Appending one character to a string appends its escape to the body.
proof fn lemma_enc_str_body_snoc(s: Seq<char>, c: char)
    ensures
        enc_str_body(s.push(c)) == enc_str_body(s) + esc_seq(c),
    decreases s.len(),
{
    if s.len() == 0 {
        assert(s.push(c).len() == 1);
        assert(s.push(c).first() == c);
        assert(s.push(c).drop_first() =~= Seq::empty());
        assert(enc_str_body(s.push(c)) == esc_seq(c) + enc_str_body(Seq::<char>::empty()));
        assert(esc_seq(c) + Seq::<char>::empty() =~= esc_seq(c));
        assert(enc_str_body(s) + esc_seq(c) =~= esc_seq(c));
    } else {
        assert(s.push(c).first() == s.first());
        assert(s.push(c).drop_first() =~= s.drop_first().push(c));
        lemma_enc_str_body_snoc(s.drop_first(), c);
        assert(enc_str_body(s.push(c)) =~= enc_str_body(s) + esc_seq(c));
    }
}

/// Parsing an encoded string body consumes it and the closing quote,
/// and gives the original characters back.
pub proof fn lemma_parse_str_body_round(s: Seq<char>, rest: Seq<char>)
    ensures
        parse_str_body(enc_str_body(s) + seq!['"'] + rest) == Some(
            (s, enc_str_body(s).len() + 1int),
        ),
    decreases s.len(),
{
    let t = enc_str_body(s) + seq!['"'] + rest;
    if s.len() == 0 {
        assert(t[0] == '"');
    } else {
        let c = s.first();
        lemma_parse_str_body_round(s.drop_first(), rest);
        if c == '"' || c == '\\' {
            assert(t[0] == '\\');
            assert(t[1] == c);
            assert(t.skip(2) =~= enc_str_body(s.drop_first()) + seq!['"'] + rest);
            assert(seq![c] + s.drop_first() =~= s);
        } else {
            assert(t[0] == c);
            assert(t.skip(1) =~= enc_str_body(s.drop_first()) + seq!['"'] + rest);
            assert(seq![c] + s.drop_first() =~= s);
        }
    }
}

/// Every encoding is nonempty, and its first character tells the value's
/// kind apart from any closing bracket or separator.
pub proof fn lemma_enc_first(v: JsonV)
    ensures
        enc_jsonv(v).len() >= 1,
        enc_jsonv(v)[0] != ']',
        enc_jsonv(v)[0] != '}',
        enc_jsonv(v)[0] != ',',
        enc_jsonv(v)[0] != ':',
{
    match v {
        JsonV::UInt(n) => {
            lemma_dec_digits_props(n as nat);
            assert(is_dec_digit(enc_jsonv(v)[0]));
        },
        _ => {},
    }
}

/// Parsing the canonical encoding of a value, followed by anything that
/// does not begin with a digit, gives the value back and consumes
/// exactly the encoding.
#[verifier::rlimit(50)]
pub proof fn lemma_parse_enc(v: JsonV, rest: Seq<char>)
    requires
        rest.len() == 0 || !is_dec_digit(rest[0]),
    ensures
        parse_jsonv(enc_jsonv(v) + rest) == Some((v, enc_jsonv(v).len() as int)),
    decreases v, 0int,
{
    let t = enc_jsonv(v) + rest;
    match v {
        JsonV::Null => {
            assert(t[0] == 'n' && t[1] == 'u' && t[2] == 'l' && t[3] == 'l');
            assert(parse_jsonv(t) == Some((JsonV::Null, 4int)));
            assert(enc_jsonv(v).len() == 4);
        },
        JsonV::Bool(b) => {
            if b {
                assert(t[0] == 't' && t[1] == 'r' && t[2] == 'u' && t[3] == 'e');
                assert(parse_jsonv(t) == Some((JsonV::Bool(true), 4int)));
                assert(enc_jsonv(v).len() == 4);
            } else {
                assert(t[0] == 'f' && t[1] == 'a' && t[2] == 'l' && t[3] == 's' && t[4] == 'e');
                assert(parse_jsonv(t) == Some((JsonV::Bool(false), 5int)));
                assert(enc_jsonv(v).len() == 5);
            }
        },
        JsonV::UInt(n) => {
            lemma_dec_digits_props(n as nat);
            assert(t[0] == dec_digits(n as nat)[0]);
            assert(is_dec_digit(t[0]));
            lemma_parse_uint_round(n, rest);
            assert(parse_jsonv(t) == Some((JsonV::UInt(n), enc_jsonv(v).len() as int)));
        },
        JsonV::Str(s) => {
            assert(t[0] == '"');
            assert(t.skip(1) =~= enc_str_body(s) + seq!['"'] + rest);
            lemma_parse_str_body_round(s, rest);
            assert(parse_jsonv(t) == Some((JsonV::Str(s), enc_jsonv(v).len() as int)));
        },
        JsonV::Arr(items) => {
            assert(t[0] == '[');
            if items.len() == 0 {
                assert(t[1] == ']');
                assert(items =~= Seq::<JsonV>::empty());
                assert(v == JsonV::Arr(Seq::<JsonV>::empty()));
                assert(parse_jsonv(t) == Some((v, 2int)));
                assert(enc_items(items) =~= Seq::<char>::empty());
                assert(enc_jsonv(v).len() == 2);
            } else {
                lemma_enc_first(items[0]);
                assert(enc_items(items)[0] == enc_jsonv(items[0])[0]);
                assert(t[1] == enc_items(items)[0]);
                assert(t[1] != ']');
                assert(t.skip(1) =~= enc_items(items) + seq![']'] + rest);
                lemma_parse_enc_items(items, rest);
                assert(parse_items(t.skip(1)) == Some((items, enc_items(items).len() + 1int)));
                assert(parse_jsonv(t) == Some((JsonV::Arr(items), enc_jsonv(v).len() as int)));
            }
        },
        JsonV::Obj(fields) => {
            assert(t[0] == '{');
            if fields.len() == 0 {
                assert(t[1] == '}');
                assert(fields =~= Seq::<(Seq<char>, JsonV)>::empty());
                assert(v == JsonV::Obj(Seq::<(Seq<char>, JsonV)>::empty()));
                assert(parse_jsonv(t) == Some((v, 2int)));
                assert(enc_fields(fields) =~= Seq::<char>::empty());
                assert(enc_jsonv(v).len() == 2);
            } else {
                assert(enc_field(fields[0])[0] == '"');
                assert(enc_fields(fields)[0] == enc_field(fields[0])[0]);
                assert(t[1] == enc_fields(fields)[0]);
                assert(t[1] != '}');
                assert(t.skip(1) =~= enc_fields(fields) + seq!['}'] + rest);
                lemma_parse_enc_fields(fields, rest);
                assert(parse_fields(t.skip(1)) == Some((fields, enc_fields(fields).len() + 1int)));
                assert(parse_jsonv(t) == Some((JsonV::Obj(fields), enc_jsonv(v).len() as int)));
            }
        },
    }
}

/// Parsing the encoded items of a nonempty array, followed by the
/// closing bracket, gives the items back.
pub proof fn lemma_parse_enc_items(items: Seq<JsonV>, rest: Seq<char>)
    requires
        items.len() >= 1,
    ensures
        parse_items(enc_items(items) + seq![']'] + rest) == Some(
            (items, enc_items(items).len() + 1int),
        ),
    decreases items, 1int,
{
    let t = enc_items(items) + seq![']'] + rest;
    if items.len() == 1 {
        let tail = seq![']'] + rest;
        assert(t =~= enc_jsonv(items[0]) + tail);
        assert(!is_dec_digit(']'));
        lemma_parse_enc(items[0], tail);
        let n0 = enc_jsonv(items[0]).len() as int;
        lemma_enc_first(items[0]);
        assert(t[n0] == ']');
        assert(seq![items[0]] =~= items);
    } else {
        let d = items.drop_first();
        let tail = seq![','] + enc_items(d) + seq![']'] + rest;
        assert(t =~= enc_jsonv(items[0]) + tail);
        assert(!is_dec_digit(','));
        lemma_parse_enc(items[0], tail);
        let n0 = enc_jsonv(items[0]).len() as int;
        lemma_enc_first(items[0]);
        assert(t[n0] == ',');
        assert(t.skip(n0 + 1) =~= enc_items(d) + seq![']'] + rest);
        lemma_parse_enc_items(d, rest);
        assert(seq![items[0]] + d =~= items);
    }
}

/// Parsing one encoded field, followed by a separator, gives the field
/// back and consumes exactly its encoding.
pub proof fn lemma_parse_enc_field(f: (Seq<char>, JsonV), rest: Seq<char>)
    requires
        rest.len() >= 1,
        !is_dec_digit(rest[0]),
    ensures
        parse_field(enc_field(f) + rest) == Some((f, enc_field(f).len() as int)),
    decreases f, 0int,
{
    let t = enc_field(f) + rest;
    assert(t[0] == '"');
    assert(t.skip(1) =~= enc_str_body(f.0) + seq!['"'] + (seq![':'] + enc_jsonv(f.1) + rest));
    lemma_parse_str_body_round(f.0, seq![':'] + enc_jsonv(f.1) + rest);
    let kn = 1 + (enc_str_body(f.0).len() + 1int);
    assert(t[kn] == ':');
    assert(t.skip(kn + 1) =~= enc_jsonv(f.1) + rest);
    lemma_parse_enc(f.1, rest);
    lemma_enc_first(f.1);
    assert((f.0, f.1) == f);
}

/// Parsing the encoded fields of a nonempty object, followed by the
/// closing brace, gives the fields back.
pub proof fn lemma_parse_enc_fields(fields: Seq<(Seq<char>, JsonV)>, rest: Seq<char>)
    requires
        fields.len() >= 1,
    ensures
        parse_fields(enc_fields(fields) + seq!['}'] + rest) == Some(
            (fields, enc_fields(fields).len() + 1int),
        ),
    decreases fields, 2int,
{
    let t = enc_fields(fields) + seq!['}'] + rest;
    if fields.len() == 1 {
        let tail = seq!['}'] + rest;
        assert(t =~= enc_field(fields[0]) + tail);
        assert(!is_dec_digit('}'));
        lemma_parse_enc_field(fields[0], tail);
        let n0 = enc_field(fields[0]).len() as int;
        assert(t[n0] == '}');
        assert(seq![fields[0]] =~= fields);
    } else {
        let d = fields.drop_first();
        let tail = seq![','] + enc_fields(d) + seq!['}'] + rest;
        assert(t =~= enc_field(fields[0]) + tail);
        assert(!is_dec_digit(','));
        lemma_parse_enc_field(fields[0], tail);
        let n0 = enc_field(fields[0]).len() as int;
        assert(t[n0] == ',');
        assert(t.skip(n0 + 1) =~= enc_fields(d) + seq!['}'] + rest);
        lemma_parse_enc_fields(d, rest);
        assert(seq![fields[0]] + d =~= fields);
    }
}

/// The canonical encoding is injective: equal texts mean equal values.
pub proof fn lemma_enc_injective(a: JsonV, b: JsonV)
    requires
        enc_jsonv(a) == enc_jsonv(b),
    ensures
        a == b,
{
    lemma_parse_enc(a, Seq::empty());
    lemma_parse_enc(b, Seq::empty());
    assert(enc_jsonv(a) + Seq::<char>::empty() =~= enc_jsonv(a));
    assert(enc_jsonv(b) + Seq::<char>::empty() =~= enc_jsonv(b));
}

/// Parses one or more comma-separated fields followed by `}`,
/// consuming the closing brace.
pub open spec fn parse_fields(t: Seq<char>) -> Option<(Seq<(Seq<char>, JsonV)>, int)>
    decreases t.len(), 1int,
{
    match parse_field(t) {
        Some(p) => {
            let n = p.1;
            if 1 <= n && n < t.len() {
                if t[n] == '}' {
                    Some((seq![p.0], n + 1))
                } else if t[n] == ',' {
                    match parse_fields(t.skip(n + 1)) {
                        Some(q) => if q.1 >= 0 {
                            Some((seq![p.0] + q.0, n + 1 + q.1))
                        } else {
                            None
                        },
                        None => None,
                    }
                } else {
                    None
                }
            } else {
                None
            }
        },
        None => None,
    }
}

} // verus!

use crate::outside::push_char as out_push;

verus! {

// ---------------------------------------------------------------------
// The executable JSON value and its view
// ---------------------------------------------------------------------

/// An executable JSON value; its view is the `JsonV` it stands for.
pub enum Json {
    Null,
    Bool(bool),
    UInt(u64),
    Str(String),
    Arr(Vec<Json>),
    Obj(Vec<(String, Json)>),
}

/// The mathematical value an executable value stands for.
pub open spec fn json_view(j: Json) -> JsonV
    decreases j, 0int,
{
    match j {
        Json::Null => JsonV::Null,
        Json::Bool(b) => JsonV::Bool(b),
        Json::UInt(n) => JsonV::UInt(n),
        Json::Str(s) => JsonV::Str(s@),
        Json::Arr(items) => JsonV::Arr(jsons_view(items@)),
        Json::Obj(fields) => JsonV::Obj(fields_view(fields@)),
    }
}

/// The views of a sequence of values.
pub open spec fn jsons_view(s: Seq<Json>) -> Seq<JsonV>
    decreases s, 1int,
{
    if s.len() == 0 {
        Seq::empty()
    } else {
        seq![json_view(s[0])] + jsons_view(s.drop_first())
    }
}

/// The views of a sequence of fields.
pub open spec fn fields_view(s: Seq<(String, Json)>) -> Seq<(Seq<char>, JsonV)>
    decreases s, 1int,
{
    if s.len() == 0 {
        Seq::empty()
    } else {
        seq![(s[0].0@, json_view(s[0].1))] + fields_view(s.drop_first())
    }
}

impl View for Json {
    type V = JsonV;

    open spec fn view(&self) -> JsonV {
        json_view(*self)
    }
}

/// Item views line up with the items.
pub proof fn lemma_jsons_view(s: Seq<Json>)
    ensures
        jsons_view(s).len() == s.len(),
        forall|i: int| 0 <= i < s.len() ==> #[trigger] jsons_view(s)[i] == json_view(s[i]),
    decreases s.len(),
{
    if s.len() > 0 {
        lemma_jsons_view(s.drop_first());
    }
}

/// Field views line up with the fields.
pub proof fn lemma_fields_view(s: Seq<(String, Json)>)
    ensures
        fields_view(s).len() == s.len(),
        forall|i: int|
            0 <= i < s.len() ==> #[trigger] fields_view(s)[i] == (s[i].0@, json_view(s[i].1)),
    decreases s.len(),
{
    if s.len() > 0 {
        lemma_fields_view(s.drop_first());
    }
}

// ---------------------------------------------------------------------
// Writing the canonical text
// ---------------------------------------------------------------------

/// One decimal digit as an executable character.
pub fn digit_char_exec(d: u64) -> (c: char)
    requires
        d < 10,
    ensures
        c == digit_char(d as nat),
{
    if d == 0 { '0' }
    else if d == 1 { '1' }
    else if d == 2 { '2' }
    else if d == 3 { '3' }
    else if d == 4 { '4' }
    else if d == 5 { '5' }
    else if d == 6 { '6' }
    else if d == 7 { '7' }
    else if d == 8 { '8' }
    else { '9' }
}

/// Appends a number's canonical decimal digits.
pub fn write_uint(n: u64, out: &mut String)
    ensures
        final(out)@ == old(out)@ + dec_digits(n as nat),
    decreases n,
{
    if n >= 10 {
        write_uint(n / 10, out);
        let d = digit_char_exec(n % 10);
        out_push(out, d);
        proof {
            assert(old(out)@ + dec_digits((n / 10) as nat) + seq![digit_char((n % 10) as nat)]
                =~= old(out)@ + dec_digits(n as nat));
        }
    } else {
        let d = digit_char_exec(n);
        out_push(out, d);
        proof {
            assert(old(out)@ + seq![digit_char(n as nat)] =~= old(out)@ + dec_digits(n as nat));
            assert(old(out)@.push(digit_char(n as nat)) =~= old(out)@ + seq![digit_char(n as nat)]);
        }
    }
}

/// Appends an encoded string: quote, escaped body, quote.
fn write_string(s: &str, out: &mut String)
    ensures
        final(out)@ == old(out)@ + enc_string(s@),
{
    let ghost orig = out@;
    out_push(out, '"');
    proof {
        assert(out@ =~= orig + seq!['"']);
    }
    let n = s.unicode_len();
    for i in 0..n
        invariant
            n == s@.len(),
            out@ == orig + seq!['"'] + enc_str_body(s@.take(i as int)),
    {
        let ghost before = out@;
        let c = s.get_char(i);
        if c == '"' || c == '\\' {
            out_push(out, '\\');
        }
        out_push(out, c);
        proof {
            if c == '"' || c == '\\' {
                assert(out@ =~= before + esc_seq(s@[i as int]));
            } else {
                assert(out@ =~= before + esc_seq(s@[i as int]));
            }
            assert(s@.take(i + 1) =~= s@.take(i as int).push(s@[i as int]));
            lemma_enc_str_body_snoc(s@.take(i as int), s@[i as int]);
            assert(out@ =~= orig + seq!['"'] + enc_str_body(s@.take(i + 1)));
        }
    }
    out_push(out, '"');
    proof {
        assert(s@.take(n as int) =~= s@);
        assert(out@ =~= orig + enc_string(s@));
    }
}

/// How the item encodings extend when one more item is taken.
proof fn lemma_enc_items_split(s: Seq<JsonV>, k: int)
    requires
        1 <= k < s.len(),
    ensures
        enc_items(s) == enc_items(s.take(k)) + seq![','] + enc_items(s.skip(k)),
    decreases k,
{
    if k == 1 {
        assert(s.take(1) =~= seq![s[0]]);
        assert(enc_items(seq![s[0]]) == enc_jsonv(s[0]));
        assert(s.skip(1) =~= s.drop_first());
        assert(enc_items(s) =~= enc_items(s.take(1)) + seq![','] + enc_items(s.skip(1)));
    } else {
        let d = s.drop_first();
        lemma_enc_items_split(d, k - 1);
        assert(d.take(k - 1) =~= s.take(k).drop_first());
        assert(d.skip(k - 1) =~= s.skip(k));
        assert(s.take(k)[0] == s[0]);
        assert(s.take(k).drop_first().len() >= 1);
        assert(enc_items(s.take(k)) == enc_jsonv(s[0]) + seq![','] + enc_items(s.take(k).drop_first()));
        assert(enc_items(s) == enc_jsonv(s[0]) + seq![','] + enc_items(d));
        assert(enc_items(s) =~= enc_items(s.take(k)) + seq![','] + enc_items(s.skip(k)));
    }
}

/// Appending one more item appends a comma and its encoding.
proof fn lemma_enc_items_snoc(s: Seq<JsonV>, k: int)
    requires
        1 <= k < s.len(),
    ensures
        enc_items(s.take(k + 1)) == enc_items(s.take(k)) + seq![','] + enc_jsonv(s[k]),
{
    let p = s.take(k + 1);
    lemma_enc_items_split(p, k);
    assert(p.take(k) =~= s.take(k));
    assert(p.skip(k) =~= seq![s[k]]);
    assert(enc_items(seq![s[k]]) == enc_jsonv(s[k]));
}

/// How the field encodings extend when one more field is taken.
proof fn lemma_enc_fields_split(s: Seq<(Seq<char>, JsonV)>, k: int)
    requires
        1 <= k < s.len(),
    ensures
        enc_fields(s) == enc_fields(s.take(k)) + seq![','] + enc_fields(s.skip(k)),
    decreases k,
{
    if k == 1 {
        assert(s.take(1) =~= seq![s[0]]);
        assert(enc_fields(seq![s[0]]) == enc_field(s[0]));
        assert(s.skip(1) =~= s.drop_first());
        assert(enc_fields(s) =~= enc_fields(s.take(1)) + seq![','] + enc_fields(s.skip(1)));
    } else {
        let d = s.drop_first();
        lemma_enc_fields_split(d, k - 1);
        assert(d.take(k - 1) =~= s.take(k).drop_first());
        assert(d.skip(k - 1) =~= s.skip(k));
        assert(s.take(k)[0] == s[0]);
        assert(s.take(k).drop_first().len() >= 1);
        assert(enc_fields(s.take(k)) == enc_field(s[0]) + seq![','] + enc_fields(
            s.take(k).drop_first(),
        ));
        assert(enc_fields(s) == enc_field(s[0]) + seq![','] + enc_fields(d));
        assert(enc_fields(s) =~= enc_fields(s.take(k)) + seq![','] + enc_fields(s.skip(k)));
    }
}

/// Appending one more field appends a comma and its encoding.
proof fn lemma_enc_fields_snoc(s: Seq<(Seq<char>, JsonV)>, k: int)
    requires
        1 <= k < s.len(),
    ensures
        enc_fields(s.take(k + 1)) == enc_fields(s.take(k)) + seq![','] + enc_field(s[k]),
{
    let p = s.take(k + 1);
    lemma_enc_fields_split(p, k);
    assert(p.take(k) =~= s.take(k));
    assert(p.skip(k) =~= seq![s[k]]);
    assert(enc_fields(seq![s[k]]) == enc_field(s[k]));
}

/// Appends the canonical text of a value.
#[verifier::loop_isolation(false)]
#[verifier::rlimit(80)]
pub fn write_json(j: &Json, out: &mut String)
    ensures
        final(out)@ == old(out)@ + enc_jsonv(j@),
    decreases *j,
{
    let ghost orig = out@;
    match j {
        Json::Null => {
            out_push(out, 'n');
            out_push(out, 'u');
            out_push(out, 'l');
            out_push(out, 'l');
            proof {
                assert(out@ =~= orig + enc_jsonv(j@));
            }
        },
        Json::Bool(b) => {
            if *b {
                out_push(out, 't');
                out_push(out, 'r');
                out_push(out, 'u');
                out_push(out, 'e');
            } else {
                out_push(out, 'f');
                out_push(out, 'a');
                out_push(out, 'l');
                out_push(out, 's');
                out_push(out, 'e');
            }
            proof {
                assert(out@ =~= orig + enc_jsonv(j@));
            }
        },
        Json::UInt(n) => {
            write_uint(*n, out);
        },
        Json::Str(s) => {
            write_string(s.as_str(), out);
        },
        Json::Arr(items) => {
            let ghost iv = jsons_view(items@);
            proof {
                lemma_jsons_view(items@);
            }
            out_push(out, '[');
            let m = items.len();
            for i in 0..m
                invariant
                    m == items@.len(),
                    i == 0 ==> out@ == orig + seq!['['],
                    i >= 1 ==> out@ == orig + seq!['['] + enc_items(iv.take(i as int)),
            {
                let ghost before = out@;
                if i > 0 {
                    out_push(out, ',');
                }
                write_json(&items[i], out);
                proof {
                    assert(json_view(items@[i as int]) == iv[i as int]);
                    if i == 0 {
                        assert(iv.take(1) =~= seq![iv[0]]);
                        assert(enc_items(iv.take(1)) == enc_jsonv(iv[0]));
                        assert(out@ =~= orig + seq!['['] + enc_items(iv.take(1)));
                    } else {
                        lemma_enc_items_snoc(iv, i as int);
                        assert(out@ =~= orig + seq!['['] + enc_items(iv.take(i + 1)));
                    }
                }
            }
            out_push(out, ']');
            proof {
                if m == 0 {
                    assert(iv =~= Seq::<JsonV>::empty());
                    assert(enc_items(iv) =~= Seq::<char>::empty());
                } else {
                    assert(iv.take(m as int) =~= iv);
                }
                assert(out@ =~= orig + enc_jsonv(j@));
            }
        },
        Json::Obj(fields) => {
            let ghost fv = fields_view(fields@);
            proof {
                lemma_fields_view(fields@);
            }
            out_push(out, '{');
            let m = fields.len();
            for i in 0..m
                invariant
                    m == fields@.len(),
                    i == 0 ==> out@ == orig + seq!['{'],
                    i >= 1 ==> out@ == orig + seq!['{'] + enc_fields(fv.take(i as int)),
            {
                let ghost before = out@;
                if i > 0 {
                    out_push(out, ',');
                }
                let ghost mid = out@;
                write_string(fields[i].0.as_str(), out);
                out_push(out, ':');
                write_json(&fields[i].1, out);
                proof {
                    assert(fields_view(fields@)[i as int] == (
                        fields@[i as int].0@,
                        json_view(fields@[i as int].1),
                    ));
                    assert(out@ =~= mid + enc_field(fv[i as int]));
                    if i == 0 {
                        assert(fv.take(1) =~= seq![fv[0]]);
                        assert(enc_fields(fv.take(1)) == enc_field(fv[0]));
                        assert(out@ =~= orig + seq!['{'] + enc_fields(fv.take(1)));
                    } else {
                        lemma_enc_fields_snoc(fv, i as int);
                        assert(out@ =~= orig + seq!['{'] + enc_fields(fv.take(i + 1)));
                    }
                }
            }
            out_push(out, '}');
            proof {
                if m == 0 {
                    assert(fv =~= Seq::<(Seq<char>, JsonV)>::empty());
                    assert(enc_fields(fv) =~= Seq::<char>::empty());
                } else {
                    assert(fv.take(m as int) =~= fv);
                }
                assert(out@ =~= orig + enc_jsonv(j@));
            }
        },
    }
}

/// The canonical text of a value, as a fresh string.
pub fn json_to_string(j: &Json) -> (r: String)
    ensures
        r@ == enc_jsonv(j@),
{
    let mut out = String::new();
    write_json(j, &mut out);
    proof {
        assert(Seq::<char>::empty() + enc_jsonv(j@) =~= enc_jsonv(j@));
    }
    out
}

} // verus!

verus! {

// ---------------------------------------------------------------------
// Parsing the canonical text
// ---------------------------------------------------------------------

/// Whether a character is a decimal digit.
pub fn is_digit_exec(c: char) -> (b: bool)
    ensures
        b == is_dec_digit(c),
{
    '0' <= c && c <= '9'
}

/// The value of a digit character.
pub fn char_digit_exec(c: char) -> (d: u64)
    requires
        is_dec_digit(c),
    ensures
        d == char_digit(c),
        d < 10,
{
    if c == '0' { 0 }
    else if c == '1' { 1 }
    else if c == '2' { 2 }
    else if c == '3' { 3 }
    else if c == '4' { 4 }
    else if c == '5' { 5 }
    else if c == '6' { 6 }
    else if c == '7' { 7 }
    else if c == '8' { 8 }
    else { 9 }
}

/// A digit run is as long as the digits at the front.
proof fn lemma_digit_run_chars(t: Seq<char>, m: int)
    requires
        0 <= m <= t.len(),
        forall|j: int| 0 <= j < m ==> is_dec_digit(#[trigger] t[j]),
        m == t.len() || !is_dec_digit(t[m]),
    ensures
        digit_run_len(t) == m,
    decreases m,
{
    if m == 0 {
    } else {
        assert(is_dec_digit(t[0]));
        assert(t.drop_first().len() == t.len() - 1);
        assert(forall|j: int| 0 <= j < m - 1 ==> is_dec_digit(#[trigger] t.drop_first()[j]));
        if m < t.len() {
            assert(t.drop_first()[m - 1] == t[m]);
        }
        lemma_digit_run_chars(t.drop_first(), m - 1);
    }
}

/// A digit string is worth at least any of its prefixes.
proof fn lemma_dec_val_prefix_bound(ds: Seq<char>, m: int)
    requires
        0 <= m <= ds.len(),
    ensures
        dec_val(ds) >= dec_val(ds.take(m)),
    decreases ds.len() - m,
{
    if m == ds.len() {
        assert(ds.take(m) =~= ds);
    } else {
        assert(ds.take(m + 1).drop_last() =~= ds.take(m));
        assert(dec_val(ds.take(m + 1)) == dec_val(ds.take(m)) * 10 + char_digit(
            ds.take(m + 1).last(),
        ));
        lemma_dec_val_prefix_bound(ds, m + 1);
    }
}

/// Parses a canonical number starting at `pos`.
pub fn parse_uint_at(s: &str, pos: usize, n: usize) -> (r: Option<(u64, usize)>)
    requires
        n == s@.len(),
        pos <= n,
    ensures
        match r {
            Some(p) => pos < p.1 <= n && parse_uint(s@.skip(pos as int)) == Some(
                (p.0, p.1 - pos as int),
            ),
            None => parse_uint(s@.skip(pos as int)) is None,
        },
{
    let ghost t = s@.skip(pos as int);
    let mut e: usize = pos;
    while e < n && is_digit_exec(s.get_char(e))
        invariant
            pos <= e <= n,
            n == s@.len(),
            forall|j: int| pos <= j < e ==> is_dec_digit(#[trigger] s@[j]),
        decreases n - e,
    {
        e = e + 1;
    }
    proof {
        assert(t.len() == n - pos);
        assert(forall|j: int| 0 <= j < e - pos ==> #[trigger] t[j] == s@[pos + j]);
        if e < n {
            assert(t[e - pos] == s@[e as int]);
        }
        lemma_digit_run_chars(t, e - pos);
    }
    let k = e - pos;
    if k == 0 {
        return None;
    }
    if k > 1 {
        let c0 = s.get_char(pos);
        if c0 == '0' {
            proof {
                assert(t[0] == s@[pos as int]);
            }
            return None;
        }
    }
    let mut acc: u64 = 0;
    let mut i: usize = pos;
    proof {
        assert(t.take(0) =~= Seq::<char>::empty());
    }
    while i < e
        invariant
            pos <= i <= e <= n,
            n == s@.len(),
            k == e - pos,
            t == s@.skip(pos as int),
            forall|j: int| pos <= j < e ==> is_dec_digit(#[trigger] s@[j]),
            digit_run_len(t) == k,
            acc == dec_val(t.take(i - pos)),
        decreases e - i,
    {
        let c = s.get_char(i);
        proof {
            assert(t[i - pos] == s@[i as int]);
            assert(t.take(i - pos + 1).drop_last() =~= t.take(i - pos));
            assert(t.take(i - pos + 1).last() == t[i - pos]);
        }
        let d = char_digit_exec(c);
        let acc10 = match acc.checked_mul(10) {
            Some(x) => x,
            None => {
                proof {
                    assert(dec_val(t.take(i - pos + 1)) > u64::MAX);
                    lemma_dec_val_prefix_bound(t.take(k as int), i - pos + 1);
                    assert(t.take(k as int).take(i - pos + 1) =~= t.take(i - pos + 1));
                }
                return None;
            },
        };
        let acc2 = match acc10.checked_add(d) {
            Some(x) => x,
            None => {
                proof {
                    assert(dec_val(t.take(i - pos + 1)) > u64::MAX);
                    lemma_dec_val_prefix_bound(t.take(k as int), i - pos + 1);
                    assert(t.take(k as int).take(i - pos + 1) =~= t.take(i - pos + 1));
                }
                return None;
            },
        };
        proof {
            assert(dec_val(t.take(i - pos + 1)) == acc * 10 + char_digit(t[i - pos]));
        }
        acc = acc2;
        i = i + 1;
    }
    proof {
        assert(k <= t.len());
        if k > 1 {
            assert(t[0] == s@[pos as int]);
        }
        assert(dec_val(t.take(k as int)) == acc);
    }
    Some((acc, e))
}

/// Parses a string body starting at `pos` (just past the opening
/// quote), through the closing quote.
pub fn parse_string_at(s: &str, pos: usize, n: usize) -> (r: Option<(String, usize)>)
    requires
        n == s@.len(),
        pos <= n,
    ensures
        match r {
            Some(p) => pos < p.1 <= n && parse_str_body(s@.skip(pos as int)) == Some(
                (p.0@, p.1 - pos as int),
            ),
            None => parse_str_body(s@.skip(pos as int)) is None,
        },
{
    let mut acc = String::new();
    let mut i: usize = pos;
    loop
        invariant
            n == s@.len(),
            pos <= i <= n,
            (match parse_str_body(s@.skip(i as int)) {
                Some(q) => q.1 >= 0 ==> parse_str_body(s@.skip(pos as int)) == Some(
                    (acc@ + q.0, (i - pos) + q.1),
                ),
                None => parse_str_body(s@.skip(pos as int)) is None,
            }),
            (parse_str_body(s@.skip(i as int)) is None ==> parse_str_body(
                s@.skip(pos as int),
            ) is None),
        decreases n - i,
    {
        let ghost ti = s@.skip(i as int);
        proof {
            lemma_parse_str_body_consumed(ti);
        }
        if i == n {
            proof {
                assert(ti =~= Seq::<char>::empty());
            }
            return None;
        }
        let c = s.get_char(i);
        proof {
            assert(ti[0] == s@[i as int]);
        }
        if c == '"' {
            proof {
                assert(parse_str_body(ti) == Some((Seq::<char>::empty(), 1int)));
                assert(acc@ + Seq::<char>::empty() =~= acc@);
            }
            return Some((acc, i + 1));
        } else if c == '\\' {
            if i + 1 < n {
                let c2 = s.get_char(i + 1);
                proof {
                    assert(ti.len() >= 2);
                    assert(ti[1] == s@[i + 1]);
                }
                if c2 == '"' || c2 == '\\' {
                    push_one(&mut acc, c2);
                    proof {
                        assert(ti.skip(2) =~= s@.skip(i + 2));
                        lemma_parse_str_body_consumed(s@.skip(i + 2));
                        match parse_str_body(s@.skip(i + 2)) {
                            Some(q2) => {
                                assert(parse_str_body(ti) == Some((seq![c2] + q2.0, 2 + q2.1)));
                                assert(acc@ + (seq![c2] + q2.0) =~= (acc@ + seq![c2]) + q2.0);
                            },
                            None => {
                                assert(parse_str_body(ti) is None);
                            },
                        }
                    }
                    i = i + 2;
                } else {
                    return None;
                }
            } else {
                proof {
                    assert(ti.len() < 2);
                }
                return None;
            }
        } else {
            push_one(&mut acc, c);
            proof {
                assert(ti.skip(1) =~= s@.skip(i + 1));
                lemma_parse_str_body_consumed(s@.skip(i + 1));
                match parse_str_body(s@.skip(i + 1)) {
                    Some(q2) => {
                        assert(parse_str_body(ti) == Some((seq![c] + q2.0, 1 + q2.1)));
                        assert(acc@ + (seq![c] + q2.0) =~= (acc@ + seq![c]) + q2.0);
                    },
                    None => {
                        assert(parse_str_body(ti) is None);
                    },
                }
            }
            i = i + 1;
        }
    }
}

/// A parsed string body consumes at least one character and at most the
/// whole text.
pub proof fn lemma_parse_str_body_consumed(t: Seq<char>)
    ensures
        parse_str_body(t) matches Some(q) ==> 1 <= q.1 <= t.len(),
    decreases t.len(),
{
    if t.len() == 0 {
    } else if t[0] == '"' {
    } else if t[0] == '\\' {
        if t.len() >= 2 && (t[1] == '"' || t[1] == '\\') {
            lemma_parse_str_body_consumed(t.skip(2));
        }
    } else {
        lemma_parse_str_body_consumed(t.skip(1));
    }
}

/// Appends one character to a string.
fn push_one(s: &mut String, c: char)
    ensures
        final(s)@ == old(s)@ + seq![c],
{
    crate::outside::push_char(s, c);
    proof {
        assert(old(s)@.push(c) =~= old(s)@ + seq![c]);
    }
}

} // verus!

verus! {

/// Parses one canonical value starting at `pos`.
#[verifier::rlimit(60)]
pub fn parse_value_at(s: &str, pos: usize, n: usize) -> (r: Option<(Json, usize)>)
    requires
        n == s@.len(),
        pos <= n,
    ensures
        match r {
            Some(p) => pos < p.1 <= n && parse_jsonv(s@.skip(pos as int)) == Some(
                (p.0@, p.1 - pos as int),
            ),
            None => parse_jsonv(s@.skip(pos as int)) is None,
        },
    decreases n - pos, 0int,
{
    let ghost t = s@.skip(pos as int);
    if pos == n {
        proof {
            assert(t =~= Seq::<char>::empty());
        }
        return None;
    }
    let c0 = s.get_char(pos);
    proof {
        assert(t[0] == s@[pos as int]);
        assert(forall|j: int| 0 <= j < t.len() ==> #[trigger] t[j] == s@[pos + j]);
    }
    if c0 == 'n' {
        if n - pos >= 4 && s.get_char(pos + 1) == 'u' && s.get_char(pos + 2) == 'l' && s.get_char(
            pos + 3,
        ) == 'l' {
            Some((Json::Null, pos + 4))
        } else {
            None
        }
    } else if c0 == 't' {
        if n - pos >= 4 && s.get_char(pos + 1) == 'r' && s.get_char(pos + 2) == 'u' && s.get_char(
            pos + 3,
        ) == 'e' {
            Some((Json::Bool(true), pos + 4))
        } else {
            None
        }
    } else if c0 == 'f' {
        if n - pos >= 5 && s.get_char(pos + 1) == 'a' && s.get_char(pos + 2) == 'l' && s.get_char(
            pos + 3,
        ) == 's' && s.get_char(pos + 4) == 'e' {
            Some((Json::Bool(false), pos + 5))
        } else {
            None
        }
    } else if c0 == '"' {
        proof {
            assert(t.skip(1) =~= s@.skip(pos + 1));
        }
        match parse_string_at(s, pos + 1, n) {
            Some(p) => Some((Json::Str(p.0), p.1)),
            None => None,
        }
    } else if c0 == '[' {
        if n - pos >= 2 && s.get_char(pos + 1) == ']' {
            let v: Vec<Json> = Vec::new();
            proof {
                assert(t.len() >= 2 && t[1] == ']');
                assert(jsons_view(v@) =~= Seq::<JsonV>::empty());
            }
            Some((Json::Arr(v), pos + 2))
        } else {
            proof {
                assert(t.skip(1) =~= s@.skip(pos + 1));
                if n - pos >= 2 {
                    assert(t[1] == s@[pos + 1]);
                }
            }
            match parse_items_at(s, pos + 1, n) {
                Some(p) => Some((Json::Arr(p.0), p.1)),
                None => None,
            }
        }
    } else if c0 == '{' {
        if n - pos >= 2 && s.get_char(pos + 1) == '}' {
            let v: Vec<(String, Json)> = Vec::new();
            proof {
                assert(t.len() >= 2 && t[1] == '}');
                assert(fields_view(v@) =~= Seq::<(Seq<char>, JsonV)>::empty());
            }
            Some((Json::Obj(v), pos + 2))
        } else {
            proof {
                assert(t.skip(1) =~= s@.skip(pos + 1));
                if n - pos >= 2 {
                    assert(t[1] == s@[pos + 1]);
                }
            }
            match parse_fields_at(s, pos + 1, n) {
                Some(p) => Some((Json::Obj(p.0), p.1)),
                None => None,
            }
        }
    } else {
        let digit = is_digit_exec(c0);
        if digit {
            match parse_uint_at(s, pos, n) {
                Some(p) => Some((Json::UInt(p.0), p.1)),
                None => None,
            }
        } else {
            None
        }
    }
}

/// Parses one or more comma-separated values and the closing `]`,
/// starting at `pos` (just past the opening bracket).
#[verifier::rlimit(60)]
pub fn parse_items_at(s: &str, pos: usize, n: usize) -> (r: Option<(Vec<Json>, usize)>)
    requires
        n == s@.len(),
        pos <= n,
    ensures
        match r {
            Some(p) => pos < p.1 <= n && parse_items(s@.skip(pos as int)) == Some(
                (jsons_view(p.0@), p.1 - pos as int),
            ),
            None => parse_items(s@.skip(pos as int)) is None,
        },
    decreases n - pos, 1int,
{
    let ghost t = s@.skip(pos as int);
    match parse_value_at(s, pos, n) {
        None => None,
        Some((j, vend)) => {
            if vend >= n {
                return None;
            }
            let c = s.get_char(vend);
            proof {
                assert(t[vend - pos] == s@[vend as int]);
            }
            if c == ']' {
                let mut v: Vec<Json> = Vec::new();
                v.push(j);
                proof {
                    assert(v@.drop_first() =~= Seq::<Json>::empty());
                    assert(jsons_view(v@.drop_first()) == Seq::<JsonV>::empty());
                    assert(jsons_view(v@) == seq![json_view(v@[0])] + jsons_view(v@.drop_first()));
                    assert(jsons_view(v@) =~= seq![json_view(v@[0])]);
                    assert(v@[0] == j);
                }
                Some((v, vend + 1))
            } else if c == ',' {
                proof {
                    assert(t.skip((vend - pos) + 1) =~= s@.skip(vend + 1));
                }
                match parse_items_at(s, vend + 1, n) {
                    None => None,
                    Some((rest, rend)) => {
                        let ghost qv = jsons_view(rest@);
                        let mut out_vec = rest;
                        out_vec.insert(0, j);
                        proof {
                            assert(out_vec@ =~= seq![j] + rest@);
                            assert(out_vec@.drop_first() =~= rest@);
                            assert(out_vec@[0] == j);
                            assert(jsons_view(out_vec@) == seq![json_view(j)] + jsons_view(
                                out_vec@.drop_first(),
                            ));
                            assert(jsons_view(out_vec@) =~= seq![j@] + qv);
                        }
                        Some((out_vec, rend))
                    },
                }
            } else {
                None
            }
        },
    }
}

/// Parses one key-value pair starting at `pos`.
#[verifier::rlimit(60)]
pub fn parse_field_at(s: &str, pos: usize, n: usize) -> (r: Option<((String, Json), usize)>)
    requires
        n == s@.len(),
        pos <= n,
    ensures
        match r {
            Some(p) => pos < p.1 <= n && parse_field(s@.skip(pos as int)) == Some(
                ((p.0.0@, p.0.1@), p.1 - pos as int),
            ),
            None => parse_field(s@.skip(pos as int)) is None,
        },
    decreases n - pos, 0int,
{
    let ghost t = s@.skip(pos as int);
    if pos == n {
        proof {
            assert(t =~= Seq::<char>::empty());
        }
        return None;
    }
    let c0 = s.get_char(pos);
    proof {
        assert(t[0] == s@[pos as int]);
    }
    if c0 != '"' {
        return None;
    }
    proof {
        assert(t.skip(1) =~= s@.skip(pos + 1));
    }
    match parse_string_at(s, pos + 1, n) {
        None => None,
        Some((key, kend)) => {
            // the spec's field offset: one for the quote plus the body
            let ghost kn = kend - pos as int;
            if kend >= n {
                return None;
            }
            let c = s.get_char(kend);
            proof {
                assert(t[kn] == s@[kend as int]);
            }
            if c != ':' {
                return None;
            }
            proof {
                assert(t.skip(kn + 1) =~= s@.skip(kend + 1));
            }
            match parse_value_at(s, kend + 1, n) {
                None => None,
                Some((j, vend)) => Some(((key, j), vend)),
            }
        },
    }
}

/// Parses one or more comma-separated fields and the closing `}`,
/// starting at `pos` (just past the opening brace).
#[verifier::rlimit(60)]
pub fn parse_fields_at(s: &str, pos: usize, n: usize) -> (r: Option<(Vec<(String, Json)>, usize)>)
    requires
        n == s@.len(),
        pos <= n,
    ensures
        match r {
            Some(p) => pos < p.1 <= n && parse_fields(s@.skip(pos as int)) == Some(
                (fields_view(p.0@), p.1 - pos as int),
            ),
            None => parse_fields(s@.skip(pos as int)) is None,
        },
    decreases n - pos, 1int,
{
    let ghost t = s@.skip(pos as int);
    match parse_field_at(s, pos, n) {
        None => None,
        Some((f, vend)) => {
            if vend >= n {
                return None;
            }
            let c = s.get_char(vend);
            proof {
                assert(t[vend - pos] == s@[vend as int]);
            }
            if c == '}' {
                let mut v: Vec<(String, Json)> = Vec::new();
                v.push(f);
                proof {
                    assert(v@.drop_first() =~= Seq::<(String, Json)>::empty());
                    assert(fields_view(v@.drop_first()) == Seq::<(Seq<char>, JsonV)>::empty());
                    assert(fields_view(v@) == seq![(v@[0].0@, json_view(v@[0].1))] + fields_view(
                        v@.drop_first(),
                    ));
                    assert(fields_view(v@) =~= seq![(v@[0].0@, json_view(v@[0].1))]);
                    assert(v@[0] == f);
                }
                Some((v, vend + 1))
            } else if c == ',' {
                proof {
                    assert(t.skip((vend - pos) + 1) =~= s@.skip(vend + 1));
                }
                match parse_fields_at(s, vend + 1, n) {
                    None => None,
                    Some((rest, rend)) => {
                        let ghost qv = fields_view(rest@);
                        let mut out_vec = rest;
                        out_vec.insert(0, f);
                        proof {
                            assert(out_vec@ =~= seq![f] + rest@);
                            assert(out_vec@.drop_first() =~= rest@);
                            assert(out_vec@[0] == f);
                            assert(fields_view(out_vec@) == seq![(out_vec@[0].0@, json_view(
                                out_vec@[0].1,
                            ))] + fields_view(out_vec@.drop_first()));
                            assert(fields_view(out_vec@) =~= seq![(f.0@, f.1@)] + qv);
                        }
                        Some((out_vec, rend))
                    },
                }
            } else {
                None
            }
        },
    }
}

/// Parses a whole text as one canonical JSON value; the text must be
/// consumed exactly.
pub fn parse_json_text(s: &str) -> (r: Option<Json>)
    ensures
        match r {
            Some(j) => parse_jsonv(s@) == Some((j@, s@.len() as int)),
            None => parse_jsonv(s@) is None || parse_jsonv(s@).unwrap().1 != s@.len(),
        },
{
    let n = s.unicode_len();
    proof {
        assert(s@.skip(0) =~= s@);
    }
    match parse_value_at(s, 0, n) {
        None => None,
        Some((j, end)) => {
            if end == n {
                Some(j)
            } else {
                None
            }
        },
    }
}

/// String equality over views.
pub fn str_eq(a: &str, b: &str) -> (r: bool)
    ensures
        r == (a@ == b@),
{
    let na = a.unicode_len();
    let nb = b.unicode_len();
    if na != nb {
        return false;
    }
    for i in 0..na
        invariant
            na == a@.len(),
            nb == b@.len(),
            na == nb,
            forall|j: int| 0 <= j < i ==> a@[j] == #[trigger] b@[j],
    {
        let ca = a.get_char(i);
        let cb = b.get_char(i);
        if ca != cb {
            return false;
        }
    }
    proof {
        assert(a@ =~= b@);
    }
    true
}

} // verus!
