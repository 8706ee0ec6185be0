//! The round-trip law: parsing a document this library serialized recovers
//! exactly the members that were present, with their values.

use vstd::prelude::*;
use crate::json::{
    ScalarModel, EntryModel, ValueModel, FieldModel,
    esc_byte, esc_bytes, ser_str, dec_digits, ser_int, true_lit, false_lit,
    ser_scalar, ser_entry, ser_entries, ser_value, ser_field,
    ser_fields, ser_top,
    QUOTE, BACKSLASH, LBRACE, RBRACE, COLON, COMMA, MINUS,
    JsonField, fields_model,
};
use crate::parser::{
    is_digit, unesc_byte, parse_str_body, digit_run_end, digits_val, parse_int,
    parse_scalar, parse_entries, parse_value, parse_members,
    parse_top, pow10, lemma_pow10_18,
};

verus! {

/// An integer model a 64-bit value can carry.
pub open spec fn wf_scalar(v: ScalarModel) -> bool {
    match v {
        ScalarModel::Int(n) => -0x8000000000000000 <= n <= 0x7fffffffffffffff,
        _ => true,
    }
}

pub open spec fn wf_value(v: ValueModel) -> bool {
    match v {
        ValueModel::Scalar(sc) => wf_scalar(sc),
        ValueModel::Object(es) => forall|k: int|
            0 <= k < es.len() ==> wf_scalar(#[trigger] es[k].value),
    }
}

pub open spec fn wf_fields(fs: Seq<FieldModel>) -> bool {
    forall|k: int| 0 <= k < fs.len() ==> wf_value(#[trigger] fs[k].value)
}

/// The model of executable wire values is always well formed: every
/// integer in it came from a 64-bit value.
pub proof fn lemma_fields_model_wf(fs: Seq<JsonField>)
    ensures
        wf_fields(fields_model(fs)),
{
    assert forall|k: int| 0 <= k < fields_model(fs).len() implies wf_value(
        #[trigger] fields_model(fs)[k].value,
    ) by {
        assert(fields_model(fs)[k] == fs[k]@);
    }
}

// ---------------------------------------------------------------------------
// Reading parts of a serialized region
// ---------------------------------------------------------------------------

/// A subrange known to hold `w` holds `w`'s subranges at the shifted
/// positions.
proof fn lemma_sub_split(s: Seq<u8>, i: int, w: Seq<u8>, a: int, b: int)
    requires
        0 <= i,
        i + w.len() <= s.len(),
        s.subrange(i, i + w.len()) == w,
        0 <= a <= b <= w.len(),
    ensures
        s.subrange(i + a, i + b) == w.subrange(a, b),
{
    assert forall|k: int| 0 <= k < b - a implies s.subrange(i + a, i + b)[k] == w.subrange(a, b)[k] by {
        assert(s.subrange(i, i + w.len())[a + k] == s[i + a + k]);
    }
    assert(s.subrange(i + a, i + b) =~= w.subrange(a, b));
}

/// A subrange known to hold `w` holds `w`'s bytes at the shifted positions.
proof fn lemma_sub_byte(s: Seq<u8>, i: int, w: Seq<u8>, a: int)
    requires
        0 <= i,
        i + w.len() <= s.len(),
        s.subrange(i, i + w.len()) == w,
        0 <= a < w.len(),
    ensures
        s[i + a] == w[a],
{
    assert(s.subrange(i, i + w.len())[a] == s[i + a]);
}

// ---------------------------------------------------------------------------
// Digits
// ---------------------------------------------------------------------------

proof fn lemma_dec_digits_are_digits(n: nat)
    ensures
        dec_digits(n).len() >= 1,
        forall|k: int| 0 <= k < dec_digits(n).len() ==> is_digit(#[trigger] dec_digits(n)[k]),
    decreases n,
{
    if n >= 10 {
        lemma_dec_digits_are_digits(n / 10);
    }
}

proof fn lemma_digits_val_dec(n: nat)
    ensures
        digits_val(dec_digits(n)) == n,
    decreases n,
{
    if n < 10 {
        assert(dec_digits(n) == seq![(48 + n) as u8]);
        assert(dec_digits(n).drop_last() =~= Seq::<u8>::empty());
        assert(digits_val(Seq::<u8>::empty()) == 0);
    } else {
        lemma_digits_val_dec(n / 10);
        assert(dec_digits(n).drop_last() =~= dec_digits(n / 10));
        assert(dec_digits(n).last() == (48 + n % 10) as u8);
    }
}

proof fn lemma_dec_digits_len(n: nat, k: nat)
    requires
        k >= 1,
        n < pow10(k),
    ensures
        dec_digits(n).len() <= k,
    decreases n,
{
    if n < 10 {
    } else {
        assert(pow10(k) == 10 * pow10((k - 1) as nat));
        assert(n / 10 < pow10((k - 1) as nat));
        assert(k - 1 >= 1) by {
            if k == 1 {
                assert(pow10(1nat) == 10 * pow10(0nat));
                assert(n < 10);
            }
        }
        lemma_dec_digits_len(n / 10, (k - 1) as nat);
    }
}

proof fn lemma_digit_run_exact(s: Seq<u8>, i: int, e: int)
    requires
        0 <= i <= e <= s.len(),
        forall|k: int| i <= k < e ==> is_digit(#[trigger] s[k]),
        e == s.len() || !is_digit(s[e]),
    ensures
        digit_run_end(s, i) == e,
    decreases e - i,
{
    if i < e {
        lemma_digit_run_exact(s, i + 1, e);
    }
}

/// Parsing an integer out of its own serialization, when the next byte (if
/// any) is not a digit.
proof fn lemma_parse_int_ser(s: Seq<u8>, i: int, n: int)
    requires
        -0x8000000000000000 <= n <= 0x7fffffffffffffff,
        0 <= i,
        i + ser_int(n).len() <= s.len(),
        s.subrange(i, i + ser_int(n).len()) == ser_int(n),
        i + ser_int(n).len() == s.len() || !is_digit(s[i + ser_int(n).len()]),
    ensures
        parse_int(s, i) == Some((n, i + ser_int(n).len())),
{
    let w = ser_int(n);
    let L = w.len() as int;
    lemma_pow10_18();
    assert(pow10(19) == 10 * pow10(18));
    if n >= 0 {
        let m = n as nat;
        lemma_dec_digits_are_digits(m);
        lemma_digits_val_dec(m);
        lemma_dec_digits_len(m, 19);
        assert(w == dec_digits(m));
        assert forall|k: int| i <= k < i + L implies is_digit(#[trigger] s[k]) by {
            lemma_sub_byte(s, i, w, k - i);
        }
        assert(is_digit(s[i])) by {
            lemma_sub_byte(s, i, w, 0);
        }
        assert(s[i] != MINUS);
        lemma_digit_run_exact(s, i, i + L);
        assert(digits_val(s.subrange(i, i + L)) == m);
    } else {
        let m = (-n) as nat;
        lemma_dec_digits_are_digits(m);
        lemma_digits_val_dec(m);
        lemma_dec_digits_len(m, 19);
        assert(w == seq![MINUS] + dec_digits(m));
        assert(s[i] == MINUS) by {
            lemma_sub_byte(s, i, w, 0);
        }
        assert(!is_digit(MINUS));
        assert forall|k: int| i + 1 <= k < i + L implies is_digit(#[trigger] s[k]) by {
            lemma_sub_byte(s, i, w, k - i);
            assert(w[k - i] == dec_digits(m)[k - i - 1]);
        }
        lemma_digit_run_exact(s, i + 1, i + L);
        lemma_sub_split(s, i, w, 1, L);
        assert(w.subrange(1, L) =~= dec_digits(m));
        assert(digits_val(s.subrange(i + 1, i + L)) == m);
        assert(L - 1 == dec_digits(m).len());
    }
}

// ---------------------------------------------------------------------------
// Strings
// ---------------------------------------------------------------------------

/// Parsing a string body out of its own escaped serialization, up to the
/// closing quote.
proof fn lemma_parse_esc(s: Seq<u8>, i: int, v: Seq<u8>)
    requires
        0 <= i,
        i + esc_bytes(v).len() + 1 <= s.len(),
        s.subrange(i, i + esc_bytes(v).len()) == esc_bytes(v),
        s[i + esc_bytes(v).len()] == QUOTE,
    ensures
        parse_str_body(s, i) == Some((v, i + esc_bytes(v).len() + 1)),
    decreases v.len(),
{
    let w = esc_bytes(v);
    let L = w.len() as int;
    if v.len() == 0 {
        assert(w =~= Seq::<u8>::empty());
        assert(s[i] == QUOTE);
    } else {
        let b = v[0];
        let rest = v.drop_first();
        assert(w == esc_byte(b) + esc_bytes(rest));
        let hl = esc_byte(b).len() as int;
        lemma_sub_split(s, i, w, hl, L);
        assert(w.subrange(hl, L) =~= esc_bytes(rest));
        assert(i + hl + esc_bytes(rest).len() == i + L);
        lemma_parse_esc(s, i + hl, rest);
        if b == QUOTE || b == BACKSLASH || b == 10 || b == 13 || b == 9 {
            assert(hl == 2);
            assert(s[i] == BACKSLASH) by {
                lemma_sub_byte(s, i, w, 0);
                assert(w[0] == esc_byte(b)[0]);
            }
            assert(unesc_byte(s[i + 1]) == Some(b)) by {
                lemma_sub_byte(s, i, w, 1);
                assert(w[1] == esc_byte(b)[1]);
            }
            assert(seq![b] + rest =~= v);
        } else {
            assert(hl == 1);
            assert(s[i] == b) by {
                lemma_sub_byte(s, i, w, 0);
                assert(w[0] == esc_byte(b)[0]);
            }
            assert(s[i] != QUOTE && s[i] != BACKSLASH);
            assert(seq![b] + rest =~= v);
        }
    }
}

/// Parsing a string out of its own serialization, from its opening quote.
proof fn lemma_parse_str_ser(s: Seq<u8>, i: int, v: Seq<u8>)
    requires
        0 <= i,
        i + ser_str(v).len() <= s.len(),
        s.subrange(i, i + ser_str(v).len()) == ser_str(v),
    ensures
        s[i] == QUOTE,
        parse_str_body(s, i + 1) == Some((v, i + ser_str(v).len())),
{
    let w = ser_str(v);
    let L = w.len() as int;
    let el = esc_bytes(v).len() as int;
    assert(L == el + 2);
    assert(s[i] == QUOTE) by {
        lemma_sub_byte(s, i, w, 0);
    }
    assert(s[i + 1 + el] == QUOTE) by {
        lemma_sub_byte(s, i, w, 1 + el);
    }
    lemma_sub_split(s, i, w, 1, 1 + el);
    assert(w.subrange(1, 1 + el) =~= esc_bytes(v));
    lemma_parse_esc(s, i + 1, v);
}

// ---------------------------------------------------------------------------
// Scalars
// ---------------------------------------------------------------------------

/// Parsing a scalar out of its own serialization, when the next byte (if
/// any) is not a digit.
proof fn lemma_parse_scalar_ser(s: Seq<u8>, i: int, v: ScalarModel)
    requires
        wf_scalar(v),
        0 <= i,
        i + ser_scalar(v).len() <= s.len(),
        s.subrange(i, i + ser_scalar(v).len()) == ser_scalar(v),
        i + ser_scalar(v).len() == s.len() || !is_digit(s[i + ser_scalar(v).len()]),
    ensures
        parse_scalar(s, i) == Some((v, i + ser_scalar(v).len())),
{
    let w = ser_scalar(v);
    let L = w.len() as int;
    match v {
        ScalarModel::Bool(b) => {
            if b {
                assert(s[i] == 116) by {
                    lemma_sub_byte(s, i, w, 0);
                }
                assert(s.subrange(i, i + 4) =~= true_lit());
            } else {
                assert(s[i] == 102) by {
                    lemma_sub_byte(s, i, w, 0);
                }
                assert(s.subrange(i, i + 5) =~= false_lit());
            }
        },
        ScalarModel::Int(n) => {
            assert(w == ser_int(n));
            if n >= 0 {
                lemma_dec_digits_are_digits(n as nat);
                assert(is_digit(s[i])) by {
                    lemma_sub_byte(s, i, w, 0);
                }
            } else {
                assert(s[i] == MINUS) by {
                    lemma_sub_byte(s, i, w, 0);
                }
            }
            assert(s[i] != QUOTE && s[i] != 116 && s[i] != 102);
            lemma_parse_int_ser(s, i, n);
        },
        ScalarModel::Str(t) => {
            lemma_parse_str_ser(s, i, t);
        },
    }
}

// ---------------------------------------------------------------------------
// Objects and the whole document
// ---------------------------------------------------------------------------

/// Parsing the members of a nested object out of their own serialization,
/// with the closing brace right after.
proof fn lemma_parse_entries_ser(s: Seq<u8>, i: int, es: Seq<EntryModel>, fuel: nat)
    requires
        es.len() >= 1,
        fuel >= es.len(),
        forall|k: int| 0 <= k < es.len() ==> wf_scalar(#[trigger] es[k].value),
        0 <= i,
        i + ser_entries(es).len() + 1 <= s.len(),
        s.subrange(i, i + ser_entries(es).len()) == ser_entries(es),
        s[i + ser_entries(es).len()] == RBRACE,
    ensures
        parse_entries(s, i, fuel) == Some((es, i + ser_entries(es).len() + 1)),
    decreases es.len(),
{
    let w = ser_entries(es);
    let L = w.len() as int;
    let e0 = es[0];
    let nl = ser_str(e0.name).len() as int;
    let vl = ser_scalar(e0.value).len() as int;
    let el = ser_entry(e0).len() as int;
    assert(el == nl + 1 + vl);
    if es.len() == 1 {
        assert(w == ser_entry(e0));
    } else {
        assert(w == ser_entry(e0) + seq![COMMA] + ser_entries(es.drop_first()));
    }
    lemma_sub_split(s, i, w, 0, nl);
    assert(w.subrange(0, nl) =~= ser_str(e0.name));
    assert(s.subrange(i, i + nl) == ser_str(e0.name));
    lemma_parse_str_ser(s, i, e0.name);
    assert(s[i] == QUOTE);
    let j = i + nl;
    assert(s[j] == COLON) by {
        lemma_sub_byte(s, i, w, nl);
        assert(w[nl] == ser_entry(e0)[nl]);
    }
    lemma_sub_split(s, i, w, nl + 1, el);
    assert(w.subrange(nl + 1, el) =~= ser_scalar(e0.value));
    assert(s.subrange(j + 1, j + 1 + vl) == ser_scalar(e0.value));
    let k0 = j + 1 + vl;
    assert(k0 == i + el);
    if es.len() == 1 {
        assert(s[k0] == RBRACE);
        assert(!is_digit(RBRACE));
        lemma_parse_scalar_ser(s, j + 1, e0.value);
        assert(s[k0] != COMMA);
        assert(seq![e0] =~= es);
    } else {
        assert(s[k0] == COMMA) by {
            lemma_sub_byte(s, i, w, el);
            assert(w[el] == COMMA);
        }
        assert(!is_digit(COMMA));
        lemma_parse_scalar_ser(s, j + 1, e0.value);
        let rest = es.drop_first();
        let rl = ser_entries(rest).len() as int;
        assert(L == el + 1 + rl);
        lemma_sub_split(s, i, w, el + 1, L);
        assert(w.subrange(el + 1, L) =~= ser_entries(rest));
        assert(s.subrange(k0 + 1, k0 + 1 + rl) == ser_entries(rest));
        assert forall|k: int| 0 <= k < rest.len() implies wf_scalar(#[trigger] rest[k].value) by {
            assert(rest[k] == es[k + 1]);
        }
        lemma_parse_entries_ser(s, k0 + 1, rest, (fuel - 1) as nat);
        assert(seq![e0] + rest =~= es);
    }
}

/// How much fuel a member value needs: the pair count of its nested object.
pub open spec fn value_weight(v: ValueModel) -> nat {
    match v {
        ValueModel::Object(es) => es.len(),
        _ => 0,
    }
}

/// Parsing a member value out of its own serialization.
proof fn lemma_parse_value_ser(s: Seq<u8>, i: int, v: ValueModel, fuel: nat)
    requires
        wf_value(v),
        fuel >= value_weight(v),
        0 <= i,
        i + ser_value(v).len() <= s.len(),
        s.subrange(i, i + ser_value(v).len()) == ser_value(v),
        i + ser_value(v).len() == s.len() || !is_digit(s[i + ser_value(v).len()]),
    ensures
        parse_value(s, i, fuel) == Some((v, i + ser_value(v).len())),
{
    let w = ser_value(v);
    let L = w.len() as int;
    match v {
        ValueModel::Scalar(sc) => {
            match sc {
                ScalarModel::Bool(b) => {
                    assert(s[i] == (if b { 116u8 } else { 102u8 })) by {
                        lemma_sub_byte(s, i, w, 0);
                    }
                },
                ScalarModel::Int(n) => {
                    if n >= 0 {
                        lemma_dec_digits_are_digits(n as nat);
                        assert(is_digit(s[i])) by {
                            lemma_sub_byte(s, i, w, 0);
                        }
                    } else {
                        assert(s[i] == MINUS) by {
                            lemma_sub_byte(s, i, w, 0);
                        }
                    }
                },
                ScalarModel::Str(t) => {
                    assert(s[i] == QUOTE) by {
                        lemma_sub_byte(s, i, w, 0);
                    }
                },
            }
            assert(s[i] != LBRACE);
            lemma_parse_scalar_ser(s, i, sc);
        },
        ValueModel::Object(es) => {
            assert(w == seq![LBRACE] + ser_entries(es) + seq![RBRACE]);
            assert(s[i] == LBRACE) by {
                lemma_sub_byte(s, i, w, 0);
            }
            let il = ser_entries(es).len() as int;
            assert(s[i + 1 + il] == RBRACE) by {
                lemma_sub_byte(s, i, w, 1 + il);
            }
            if es.len() == 0 {
                assert(ser_entries(es) =~= Seq::<u8>::empty());
                assert(s[i + 1] == RBRACE);
                assert(es =~= Seq::<EntryModel>::empty());
            } else {
                lemma_sub_split(s, i, w, 1, 1 + il);
                assert(w.subrange(1, 1 + il) =~= ser_entries(es));
                assert(s.subrange(i + 1, i + 1 + il) == ser_entries(es));
                lemma_parse_entries_ser(s, i + 1, es, fuel);
                assert(s[i + 1] == QUOTE) by {
                    lemma_sub_byte(s, i, w, 1);
                    assert(ser_entries(es)[0] == ser_entry(es[0])[0]);
                    assert(ser_entry(es[0])[0] == ser_str(es[0].name)[0]);
                }
                assert(s[i + 1] != RBRACE);
            }
        },
    }
}

/// How much fuel a member list needs: one per member plus its value's own
/// need.
pub open spec fn doc_weight(fs: Seq<FieldModel>) -> nat
    decreases fs.len(),
{
    if fs.len() == 0 {
        0
    } else {
        1 + value_weight(fs[0].value) + doc_weight(fs.drop_first())
    }
}

/// Parsing the members of the top-level object out of their own
/// serialization, with the closing brace right after.
proof fn lemma_parse_members_ser(s: Seq<u8>, i: int, fs: Seq<FieldModel>, fuel: nat)
    requires
        fs.len() >= 1,
        fuel >= doc_weight(fs),
        wf_fields(fs),
        0 <= i,
        i + ser_fields(fs).len() + 1 <= s.len(),
        s.subrange(i, i + ser_fields(fs).len()) == ser_fields(fs),
        s[i + ser_fields(fs).len()] == RBRACE,
    ensures
        parse_members(s, i, fuel) == Some((fs, i + ser_fields(fs).len() + 1)),
    decreases fs.len(),
{
    let w = ser_fields(fs);
    let L = w.len() as int;
    let f0 = fs[0];
    let nl = ser_str(f0.name).len() as int;
    let vl = ser_value(f0.value).len() as int;
    let el = ser_field(f0).len() as int;
    assert(el == nl + 1 + vl);
    if fs.len() == 1 {
        assert(w == ser_field(f0));
    } else {
        assert(w == ser_field(f0) + seq![COMMA] + ser_fields(fs.drop_first()));
    }
    lemma_sub_split(s, i, w, 0, nl);
    assert(w.subrange(0, nl) =~= ser_str(f0.name));
    assert(s.subrange(i, i + nl) == ser_str(f0.name));
    lemma_parse_str_ser(s, i, f0.name);
    assert(s[i] == QUOTE);
    let j = i + nl;
    assert(s[j] == COLON) by {
        lemma_sub_byte(s, i, w, nl);
        assert(w[nl] == ser_field(f0)[nl]);
    }
    lemma_sub_split(s, i, w, nl + 1, el);
    assert(w.subrange(nl + 1, el) =~= ser_value(f0.value));
    assert(s.subrange(j + 1, j + 1 + vl) == ser_value(f0.value));
    let k0 = j + 1 + vl;
    assert(k0 == i + el);
    assert(wf_value(f0.value));
    assert(fuel >= 1 + value_weight(f0.value));
    if fs.len() == 1 {
        assert(s[k0] == RBRACE);
        assert(!is_digit(RBRACE));
        lemma_parse_value_ser(s, j + 1, f0.value, fuel);
        assert(s[k0] != COMMA);
        assert(seq![f0] =~= fs);
    } else {
        assert(s[k0] == COMMA) by {
            lemma_sub_byte(s, i, w, el);
            assert(w[el] == COMMA);
        }
        assert(!is_digit(COMMA));
        lemma_parse_value_ser(s, j + 1, f0.value, fuel);
        let rest = fs.drop_first();
        let rl = ser_fields(rest).len() as int;
        assert(L == el + 1 + rl);
        lemma_sub_split(s, i, w, el + 1, L);
        assert(w.subrange(el + 1, L) =~= ser_fields(rest));
        assert(s.subrange(k0 + 1, k0 + 1 + rl) == ser_fields(rest));
        assert(wf_fields(rest) && doc_weight(fs) == 1 + value_weight(f0.value) + doc_weight(rest))
            by {
            assert(forall|k: int| 0 <= k < rest.len() ==> #[trigger] rest[k] == fs[k + 1]);
        }
        lemma_parse_members_ser(s, k0 + 1, rest, (fuel - 1) as nat);
        assert(seq![f0] + rest =~= fs);
    }
}

// ---------------------------------------------------------------------------
// Length bounds: the document is long enough to serve as its own fuel
// ---------------------------------------------------------------------------

proof fn lemma_ser_scalar_len(v: ScalarModel)
    ensures
        ser_scalar(v).len() >= 1,
{
    match v {
        ScalarModel::Int(n) => {
            if n >= 0 {
                lemma_dec_digits_are_digits(n as nat);
            } else {
                lemma_dec_digits_are_digits((-n) as nat);
            }
        },
        _ => {},
    }
}

proof fn lemma_ser_entries_len(es: Seq<EntryModel>)
    ensures
        ser_entries(es).len() >= es.len(),
    decreases es.len(),
{
    if es.len() > 0 {
        lemma_ser_entries_len(es.drop_first());
        lemma_ser_scalar_len(es[0].value);
    }
}

proof fn lemma_ser_value_len(v: ValueModel)
    ensures
        ser_value(v).len() >= 1 + value_weight(v),
{
    match v {
        ValueModel::Scalar(sc) => {
            lemma_ser_scalar_len(sc);
        },
        ValueModel::Object(es) => {
            lemma_ser_entries_len(es);
        },
    }
}

proof fn lemma_ser_fields_len(fs: Seq<FieldModel>)
    ensures
        ser_fields(fs).len() >= doc_weight(fs),
    decreases fs.len(),
{
    if fs.len() > 0 {
        lemma_ser_fields_len(fs.drop_first());
        lemma_ser_value_len(fs[0].value);
    }
}

// ---------------------------------------------------------------------------
// The round-trip law
// ---------------------------------------------------------------------------

/// Law: parsing a document this library serialized recovers exactly the
/// members that were present, in order, with their values.  It holds for
/// every payload whose integers fit 64 bits — every payload the library can
/// build.
pub proof fn lemma_round_trip(fs: Seq<FieldModel>)
    requires
        wf_fields(fs),
    ensures
        parse_top(ser_top(fs)) == Some(fs),
{
    let s = ser_top(fs);
    let w = ser_fields(fs);
    let il = w.len() as int;
    assert(s.len() == il + 2);
    assert(s[0] == LBRACE);
    assert(s[1 + il] == RBRACE);
    if fs.len() == 0 {
        assert(w =~= Seq::<u8>::empty());
        assert(s.len() == 2 && s[1] == RBRACE);
    } else {
        lemma_ser_fields_len(fs);
        assert(s.subrange(1, 1 + il) =~= w);
        lemma_parse_members_ser(s, 1, fs, s.len() as nat);
        assert(s[1] == QUOTE) by {
            assert(w[0] == ser_field(fs[0])[0]);
            assert(ser_field(fs[0])[0] == ser_str(fs[0].name)[0]);
        }
        assert(!(s.len() == 2 && s[1] == RBRACE));
    }
}

/// The law at the level of the executable values: what `render_json`
/// emits, `parse_document` accepts, and the recovered members are exactly
/// the serialized ones.
pub proof fn lemma_round_trip_fields(fs: Seq<JsonField>)
    ensures
        parse_top(ser_top(fields_model(fs))) == Some(fields_model(fs)),
{
    lemma_fields_model_wf(fs);
    lemma_round_trip(fields_model(fs));
}

} // verus!
