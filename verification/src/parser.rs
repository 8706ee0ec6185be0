//! The parsing half of the serialization contract.
//!
//! The spec functions here define what a wire document means; the
//! executable parser is proved to return exactly what they say.  The
//! grammar is the compact form this library emits: a top-level object whose
//! member values are booleans, integers, strings, or one nested object of
//! such scalars.

use vstd::prelude::*;
use crate::json::{
    ScalarModel, EntryModel, ValueModel, FieldModel,
    JsonScalar, JsonEntry, JsonValue, JsonField,
    QUOTE, BACKSLASH, LBRACE, RBRACE, COLON, COMMA, MINUS,
    true_lit, false_lit,
};

verus! {

pub open spec fn is_digit(b: u8) -> bool {
    48 <= b <= 57
}

/// What a two-byte escape stands for; anything else after a backslash is
/// rejected.
pub open spec fn unesc_byte(b: u8) -> Option<u8> {
    if b == QUOTE {
        Some(QUOTE)
    } else if b == BACKSLASH {
        Some(BACKSLASH)
    } else if b == 110 {
        Some(10u8)
    } else if b == 114 {
        Some(13u8)
    } else if b == 116 {
        Some(9u8)
    } else {
        None
    }
}

/// Parses a string's bytes after its opening quote; yields the unescaped
/// bytes and the position after the closing quote.
pub open spec fn parse_str_body(s: Seq<u8>, i: int) -> Option<(Seq<u8>, int)>
    decreases s.len() - i,
{
    if i < 0 || i >= s.len() {
        None
    } else if s[i] == QUOTE {
        Some((Seq::empty(), i + 1))
    } else if s[i] == BACKSLASH {
        if i + 1 < s.len() {
            match unesc_byte(s[i + 1]) {
                Some(b) => match parse_str_body(s, i + 2) {
                    Some((rest, j)) => Some((seq![b] + rest, j)),
                    None => None,
                },
                None => None,
            }
        } else {
            None
        }
    } else {
        match parse_str_body(s, i + 1) {
            Some((rest, j)) => Some((seq![s[i]] + rest, j)),
            None => None,
        }
    }
}

/// The first position at or after `i` holding no decimal digit.
pub open spec fn digit_run_end(s: Seq<u8>, i: int) -> int
    decreases s.len() - i,
{
    if 0 <= i < s.len() && is_digit(s[i]) {
        digit_run_end(s, i + 1)
    } else {
        i
    }
}

/// The value of a run of decimal digits, most significant first.
pub open spec fn digits_val(ds: Seq<u8>) -> nat
    decreases ds.len(),
{
    if ds.len() == 0 {
        0
    } else {
        digits_val(ds.drop_last()) * 10 + (ds.last() - 48) as nat
    }
}

/// Parses an integer: an optional minus sign, then the maximal digit run,
/// of at most nineteen digits and within the signed 64-bit range.
pub open spec fn parse_int(s: Seq<u8>, i: int) -> Option<(int, int)> {
    let neg = 0 <= i < s.len() && s[i] == MINUS;
    let d0 = if neg { i + 1 } else { i };
    let e = digit_run_end(s, d0);
    if e == d0 || e - d0 > 19 {
        None
    } else {
        let v = digits_val(s.subrange(d0, e)) as int;
        let sv: int = if neg { -v } else { v };
        if -0x8000000000000000 <= sv <= 0x7fffffffffffffff {
            Some((sv, e))
        } else {
            None
        }
    }
}

/// Parses one scalar value: a string, `true`, `false`, or an integer.
pub open spec fn parse_scalar(s: Seq<u8>, i: int) -> Option<(ScalarModel, int)> {
    if i < 0 || i >= s.len() {
        None
    } else if s[i] == QUOTE {
        match parse_str_body(s, i + 1) {
            Some((v, j)) => Some((ScalarModel::Str(v), j)),
            None => None,
        }
    } else if s[i] == 116 {
        if i + 4 <= s.len() && s.subrange(i, i + 4) == true_lit() {
            Some((ScalarModel::Bool(true), i + 4))
        } else {
            None
        }
    } else if s[i] == 102 {
        if i + 5 <= s.len() && s.subrange(i, i + 5) == false_lit() {
            Some((ScalarModel::Bool(false), i + 5))
        } else {
            None
        }
    } else {
        match parse_int(s, i) {
            Some((v, j)) => Some((ScalarModel::Int(v), j)),
            None => None,
        }
    }
}

/// Parses the members of a nested object from the start of its first pair,
/// through the closing brace.  The fuel bounds the number of pairs; any
/// value at least the pair count behaves the same.
pub open spec fn parse_entries(s: Seq<u8>, i: int, fuel: nat) -> Option<(Seq<EntryModel>, int)>
    decreases fuel,
{
    if fuel == 0 {
        None
    } else if 0 <= i < s.len() && s[i] == QUOTE {
        match parse_str_body(s, i + 1) {
            Some((name, j)) => if j < s.len() && s[j] == COLON {
                match parse_scalar(s, j + 1) {
                    Some((v, k)) => {
                        let e = EntryModel { name, value: v };
                        if k < s.len() && s[k] == COMMA {
                            match parse_entries(s, k + 1, (fuel - 1) as nat) {
                                Some((rest, m)) => Some((seq![e] + rest, m)),
                                None => None,
                            }
                        } else if k < s.len() && s[k] == RBRACE {
                            Some((seq![e], k + 1))
                        } else {
                            None
                        }
                    },
                    None => None,
                }
            } else {
                None
            },
            None => None,
        }
    } else {
        None
    }
}

/// Parses a nested object from its opening brace.
pub open spec fn parse_object(s: Seq<u8>, i: int, fuel: nat) -> Option<(Seq<EntryModel>, int)> {
    if 0 <= i < s.len() && s[i] == LBRACE {
        if i + 1 < s.len() && s[i + 1] == RBRACE {
            Some((Seq::empty(), i + 2))
        } else {
            parse_entries(s, i + 1, fuel)
        }
    } else {
        None
    }
}

/// Parses one member value of the top-level object: a scalar or a nested
/// object.
pub open spec fn parse_value(s: Seq<u8>, i: int, fuel: nat) -> Option<(ValueModel, int)> {
    if 0 <= i < s.len() && s[i] == LBRACE {
        match parse_object(s, i, fuel) {
            Some((es, j)) => Some((ValueModel::Object(es), j)),
            None => None,
        }
    } else {
        match parse_scalar(s, i) {
            Some((v, j)) => Some((ValueModel::Scalar(v), j)),
            None => None,
        }
    }
}

/// Parses the members of the top-level object from the start of its first
/// pair, through the closing brace.
pub open spec fn parse_members(s: Seq<u8>, i: int, fuel: nat) -> Option<(Seq<FieldModel>, int)>
    decreases fuel,
{
    if fuel == 0 {
        None
    } else if 0 <= i < s.len() && s[i] == QUOTE {
        match parse_str_body(s, i + 1) {
            Some((name, j)) => if j < s.len() && s[j] == COLON {
                match parse_value(s, j + 1, fuel) {
                    Some((v, k)) => {
                        let f = FieldModel { name, value: v };
                        if k < s.len() && s[k] == COMMA {
                            match parse_members(s, k + 1, (fuel - 1) as nat) {
                                Some((rest, m)) => Some((seq![f] + rest, m)),
                                None => None,
                            }
                        } else if k < s.len() && s[k] == RBRACE {
                            Some((seq![f], k + 1))
                        } else {
                            None
                        }
                    },
                    None => None,
                }
            } else {
                None
            },
            None => None,
        }
    } else {
        None
    }
}

/// Parses a whole document: the top-level object and nothing after it.
pub open spec fn parse_top(s: Seq<u8>) -> Option<Seq<FieldModel>> {
    if s.len() >= 2 && s[0] == LBRACE {
        if s.len() == 2 && s[1] == RBRACE {
            Some(Seq::empty())
        } else {
            match parse_members(s, 1, s.len() as nat) {
                Some((fs, j)) => if j == s.len() {
                    Some(fs)
                } else {
                    None
                },
                None => None,
            }
        }
    } else {
        None
    }
}

} // verus!

verus! {

/// Ten to the given power.
pub open spec fn pow10(n: nat) -> nat
    decreases n,
{
    if n == 0 {
        1
    } else {
        10 * pow10((n - 1) as nat)
    }
}

/// A digit run ends within the input, and everything before its end is a
/// digit.
pub proof fn lemma_digit_run(s: Seq<u8>, i: int)
    requires
        0 <= i <= s.len(),
    ensures
        i <= digit_run_end(s, i) <= s.len(),
        forall|k: int| i <= k < digit_run_end(s, i) ==> is_digit(s[k]),
    decreases s.len() - i,
{
    if i < s.len() && is_digit(s[i]) {
        lemma_digit_run(s, i + 1);
    }
}

/// The value of an all-digit run is below ten to its length.
pub proof fn lemma_digits_val_bound(ds: Seq<u8>)
    requires
        forall|k: int| 0 <= k < ds.len() ==> is_digit(ds[k]),
    ensures
        digits_val(ds) < pow10(ds.len() as nat),
    decreases ds.len(),
{
    if ds.len() > 0 {
        assert(forall|k: int| 0 <= k < ds.drop_last().len() ==> is_digit(#[trigger] ds.drop_last()[k]));
        lemma_digits_val_bound(ds.drop_last());
        assert(pow10(ds.len() as nat) == 10 * pow10(ds.drop_last().len() as nat));
    }
}

fn p_str_body(s: &[u8], i: usize) -> (r: Option<(Vec<u8>, usize)>)
    requires
        i <= s@.len(),
    ensures
        (r matches Some(p) ==> parse_str_body(s@, i as int) == Some((p.0@, p.1 as int))
            && i < p.1 <= s@.len()),
        r is None ==> parse_str_body(s@, i as int) is None,
    decreases s@.len() - i,
{
    if i >= s.len() {
        return None;
    }
    let b = s[i];
    if b == QUOTE {
        Some((Vec::new(), i + 1))
    } else if b == BACKSLASH {
        if i + 1 < s.len() {
            let e = s[i + 1];
            let u: Option<u8> = if e == QUOTE {
                Some(QUOTE)
            } else if e == BACKSLASH {
                Some(BACKSLASH)
            } else if e == 110 {
                Some(10)
            } else if e == 114 {
                Some(13)
            } else if e == 116 {
                Some(9)
            } else {
                None
            };
            match u {
                Some(ub) => match p_str_body(s, i + 2) {
                    Some((rest, j)) => {
                        let mut v = rest;
                        v.insert(0, ub);
                        proof {
                            assert(v@ =~= seq![ub] + v@.drop_first());
                        }
                        Some((v, j))
                    },
                    None => None,
                },
                None => None,
            }
        } else {
            None
        }
    } else {
        match p_str_body(s, i + 1) {
            Some((rest, j)) => {
                let mut v = rest;
                v.insert(0, b);
                proof {
                    assert(v@ =~= seq![b] + v@.drop_first());
                }
                Some((v, j))
            },
            None => None,
        }
    }
}

fn p_digit_run(s: &[u8], i: usize) -> (e: usize)
    requires
        i <= s@.len(),
    ensures
        e == digit_run_end(s@, i as int),
        i <= e <= s@.len(),
{
    let mut j = i;
    while j < s.len() && 48 <= s[j] && s[j] <= 57
        invariant
            i <= j <= s@.len(),
            digit_run_end(s@, i as int) == digit_run_end(s@, j as int),
        decreases s@.len() - j,
    {
        j = j + 1;
    }
    j
}

fn p_int(s: &[u8], i: usize) -> (r: Option<(i64, usize)>)
    requires
        i <= s@.len(),
    ensures
        (r matches Some(p) ==> parse_int(s@, i as int) == Some((p.0 as int, p.1 as int))
            && i < p.1 <= s@.len()),
        r is None ==> parse_int(s@, i as int) is None,
{
    let neg = i < s.len() && s[i] == MINUS;
    let d0 = if neg { i + 1 } else { i };
    let e = p_digit_run(s, d0);
    if e == d0 || e - d0 > 19 {
        return None;
    }
    proof {
        lemma_digit_run(s@, d0 as int);
    }
    let mut acc: u64 = 0;
    let mut j = d0;
    while j < e
        invariant
            d0 <= j <= e <= s@.len(),
            e - d0 <= 19,
            e == digit_run_end(s@, d0 as int),
            forall|k: int| d0 <= k < e ==> is_digit(s@[k]),
            acc == digits_val(s@.subrange(d0 as int, j as int)),
            acc < pow10((j - d0) as nat),
        decreases e - j,
    {
        let b = s[j];
        proof {
            let pre = s@.subrange(d0 as int, j as int);
            let post = s@.subrange(d0 as int, j + 1);
            assert(post.drop_last() =~= pre);
            assert(post.last() == s@[j as int]);
            assert(forall|k: int| 0 <= k < pre.len() ==> is_digit(pre[k]));
            lemma_pow10_18();
            assert((j - d0) as nat <= 18);
            lemma_pow10_le((j - d0) as nat, 18);
            assert(acc < 1000000000000000000);
        }
        acc = acc * 10 + ((b - 48) as u64);
        j = j + 1;
    }
    proof {
        assert(s@.subrange(d0 as int, e as int) =~= s@.subrange(d0 as int, j as int));
    }
    if neg {
        if acc > 9223372036854775808u64 {
            return None;
        }
        let v: i64 = if acc == 9223372036854775808u64 {
            i64::MIN
        } else {
            -(acc as i64)
        };
        Some((v, e))
    } else {
        if acc > 9223372036854775807u64 {
            return None;
        }
        Some((acc as i64, e))
    }
}

/// The concrete value of ten to the eighteenth.
pub proof fn lemma_pow10_18()
    ensures
        pow10(18) == 1000000000000000000,
{
    assert(pow10(0) == 1);
    assert(pow10(1) == 10);
    assert(pow10(2) == 100);
    assert(pow10(3) == 1000);
    assert(pow10(4) == 10000);
    assert(pow10(5) == 100000);
    assert(pow10(6) == 1000000);
    assert(pow10(7) == 10000000);
    assert(pow10(8) == 100000000);
    assert(pow10(9) == 1000000000);
    assert(pow10(10) == 10000000000);
    assert(pow10(11) == 100000000000);
    assert(pow10(12) == 1000000000000);
    assert(pow10(13) == 10000000000000);
    assert(pow10(14) == 100000000000000);
    assert(pow10(15) == 1000000000000000);
    assert(pow10(16) == 10000000000000000);
    assert(pow10(17) == 100000000000000000);
    assert(pow10(18) == 1000000000000000000);
}

/// Ten to a smaller power is no larger.
pub proof fn lemma_pow10_le(a: nat, b: nat)
    requires
        a <= b,
    ensures
        pow10(a) <= pow10(b),
    decreases b,
{
    if a < b {
        lemma_pow10_le(a, (b - 1) as nat);
        assert(pow10(b) == 10 * pow10((b - 1) as nat));
    }
}

fn p_scalar(s: &[u8], i: usize) -> (r: Option<(JsonScalar, usize)>)
    requires
        i <= s@.len(),
    ensures
        (r matches Some(p) ==> parse_scalar(s@, i as int) == Some((p.0@, p.1 as int))
            && i < p.1 <= s@.len()),
        r is None ==> parse_scalar(s@, i as int) is None,
    decreases s@.len() - i,
{
    if i >= s.len() {
        return None;
    }
    let b = s[i];
    if b == QUOTE {
        match p_str_body(s, i + 1) {
            Some((v, j)) => Some((JsonScalar::Str(v), j)),
            None => None,
        }
    } else if b == 116 {
        if s.len() - i >= 4 && s[i + 1] == 114 && s[i + 2] == 117 && s[i + 3] == 101 {
            proof {
                assert(s@.subrange(i as int, i + 4) =~= true_lit());
            }
            Some((JsonScalar::Bool(true), i + 4))
        } else {
            proof {
                if i + 4 <= s@.len() {
                    assert(s@.subrange(i as int, i + 4)[1] == s@[i + 1]);
                    assert(s@.subrange(i as int, i + 4)[2] == s@[i + 2]);
                    assert(s@.subrange(i as int, i + 4)[3] == s@[i + 3]);
                    assert(s@.subrange(i as int, i + 4) != true_lit());
                }
            }
            None
        }
    } else if b == 102 {
        if s.len() - i >= 5 && s[i + 1] == 97 && s[i + 2] == 108 && s[i + 3] == 115 && s[i + 4] == 101 {
            proof {
                assert(s@.subrange(i as int, i + 5) =~= false_lit());
            }
            Some((JsonScalar::Bool(false), i + 5))
        } else {
            proof {
                if i + 5 <= s@.len() {
                    assert(s@.subrange(i as int, i + 5)[1] == s@[i + 1]);
                    assert(s@.subrange(i as int, i + 5)[2] == s@[i + 2]);
                    assert(s@.subrange(i as int, i + 5)[3] == s@[i + 3]);
                    assert(s@.subrange(i as int, i + 5)[4] == s@[i + 4]);
                    assert(s@.subrange(i as int, i + 5) != false_lit());
                }
            }
            None
        }
    } else {
        match p_int(s, i) {
            Some((v, j)) => Some((JsonScalar::Int(v), j)),
            None => None,
        }
    }
}

fn p_entries(s: &[u8], i: usize, fuel: usize) -> (r: Option<(Vec<JsonEntry>, usize)>)
    requires
        i <= s@.len(),
    ensures
        (r matches Some(p) ==> parse_entries(s@, i as int, fuel as nat)
            == Some((p.0@.map_values(|e: JsonEntry| e@), p.1 as int))
            && i < p.1 <= s@.len()),
        r is None ==> parse_entries(s@, i as int, fuel as nat) is None,
    decreases fuel,
{
    if fuel == 0 {
        return None;
    }
    if !(i < s.len() && s[i] == QUOTE) {
        return None;
    }
    match p_str_body(s, i + 1) {
        Some((name, j)) => {
            if j < s.len() && s[j] == COLON {
                match p_scalar(s, j + 1) {
                    Some((v, k)) => {
                        let ghost em = EntryModel { name: name@, value: v@ };
                        if k < s.len() && s[k] == COMMA {
                            match p_entries(s, k + 1, fuel - 1) {
                                Some((rest, m)) => {
                                    let mut es = rest;
                                    es.insert(0, JsonEntry { name, value: v });
                                    proof {
                                        assert(es@.map_values(|e: JsonEntry| e@)
                                            =~= seq![em] + es@.drop_first().map_values(|e: JsonEntry| e@));
                                    }
                                    Some((es, m))
                                },
                                None => None,
                            }
                        } else if k < s.len() && s[k] == RBRACE {
                            let mut es: Vec<JsonEntry> = Vec::new();
                            es.push(JsonEntry { name, value: v });
                            proof {
                                assert(es@.map_values(|e: JsonEntry| e@) =~= seq![em]);
                            }
                            Some((es, k + 1))
                        } else {
                            None
                        }
                    },
                    None => None,
                }
            } else {
                None
            }
        },
        None => None,
    }
}

fn p_value(s: &[u8], i: usize, fuel: usize) -> (r: Option<(JsonValue, usize)>)
    requires
        i <= s@.len(),
    ensures
        (r matches Some(p) ==> parse_value(s@, i as int, fuel as nat)
            == Some((p.0@, p.1 as int))
            && i < p.1 <= s@.len()),
        r is None ==> parse_value(s@, i as int, fuel as nat) is None,
{
    if i < s.len() && s[i] == LBRACE {
        if i + 1 < s.len() && s[i + 1] == RBRACE {
            let es: Vec<JsonEntry> = Vec::new();
            proof {
                assert(es@.map_values(|e: JsonEntry| e@) =~= Seq::<EntryModel>::empty());
            }
            Some((JsonValue::Object(es), i + 2))
        } else {
            match p_entries(s, i + 1, fuel) {
                Some((es, j)) => Some((JsonValue::Object(es), j)),
                None => None,
            }
        }
    } else {
        match p_scalar(s, i) {
            Some((v, j)) => Some((JsonValue::Scalar(v), j)),
            None => None,
        }
    }
}

fn p_members(s: &[u8], i: usize, fuel: usize) -> (r: Option<(Vec<JsonField>, usize)>)
    requires
        i <= s@.len(),
    ensures
        (r matches Some(p) ==> parse_members(s@, i as int, fuel as nat)
            == Some((p.0@.map_values(|f: JsonField| f@), p.1 as int))
            && i < p.1 <= s@.len()),
        r is None ==> parse_members(s@, i as int, fuel as nat) is None,
    decreases fuel,
{
    if fuel == 0 {
        return None;
    }
    if !(i < s.len() && s[i] == QUOTE) {
        return None;
    }
    match p_str_body(s, i + 1) {
        Some((name, j)) => {
            if j < s.len() && s[j] == COLON {
                match p_value(s, j + 1, fuel) {
                    Some((v, k)) => {
                        let ghost fm = FieldModel { name: name@, value: v@ };
                        if k < s.len() && s[k] == COMMA {
                            match p_members(s, k + 1, fuel - 1) {
                                Some((rest, m)) => {
                                    let mut fs = rest;
                                    fs.insert(0, JsonField { name, value: v });
                                    proof {
                                        assert(fs@.map_values(|f: JsonField| f@)
                                            =~= seq![fm] + fs@.drop_first().map_values(|f: JsonField| f@));
                                    }
                                    Some((fs, m))
                                },
                                None => None,
                            }
                        } else if k < s.len() && s[k] == RBRACE {
                            let mut fs: Vec<JsonField> = Vec::new();
                            fs.push(JsonField { name, value: v });
                            proof {
                                assert(fs@.map_values(|f: JsonField| f@) =~= seq![fm]);
                            }
                            Some((fs, k + 1))
                        } else {
                            None
                        }
                    },
                    None => None,
                }
            } else {
                None
            }
        },
        None => None,
    }
}

/// Parses a whole wire document into the members of its top-level object.
pub fn parse_document(s: &[u8]) -> (r: Option<Vec<JsonField>>)
    ensures
        (r matches Some(fs) ==> parse_top(s@)
            == Some(fs@.map_values(|f: JsonField| f@))),
        r is None ==> parse_top(s@) is None,
{
    if s.len() >= 2 && s[0] == LBRACE {
        if s.len() == 2 && s[1] == RBRACE {
            let fs: Vec<JsonField> = Vec::new();
            proof {
                assert(fs@.map_values(|f: JsonField| f@) =~= Seq::<FieldModel>::empty());
            }
            Some(fs)
        } else {
            match p_members(s, 1, s.len()) {
                Some((fs, j)) => {
                    if j == s.len() {
                        Some(fs)
                    } else {
                        None
                    }
                },
                None => None,
            }
        }
    } else {
        None
    }
}

} // verus!
