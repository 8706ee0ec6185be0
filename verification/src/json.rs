//! The wire value model and the serializing half of the serialization
//! contract.
//!
//! A request payload and a response envelope are both flat JSON objects
//! whose member values are booleans, integers, strings, or one nested
//! object of such scalars.  Everything works on UTF-8 bytes; a string is
//! emitted between quotes with `"`, `\`, newline, carriage return and tab
//! escaped, and every other byte kept verbatim.

use vstd::prelude::*;

verus! {

pub const QUOTE: u8 = 34;
pub const BACKSLASH: u8 = 92;
pub const LBRACE: u8 = 123;
pub const RBRACE: u8 = 125;
pub const COLON: u8 = 58;
pub const COMMA: u8 = 44;
pub const MINUS: u8 = 45;

// ---------------------------------------------------------------------------
// Mathematical model of a wire value
// ---------------------------------------------------------------------------

/// Model of a scalar JSON value.
pub enum ScalarModel {
    Bool(bool),
    Int(int),
    Str(Seq<u8>),
}

/// Model of one member of a nested object.
pub struct EntryModel {
    pub name: Seq<u8>,
    pub value: ScalarModel,
}

/// Model of a member value of the top-level object: a scalar or one nested
/// object of scalars.
pub enum ValueModel {
    Scalar(ScalarModel),
    Object(Seq<EntryModel>),
}

/// Model of one member of the top-level object.
pub struct FieldModel {
    pub name: Seq<u8>,
    pub value: ValueModel,
}

// ---------------------------------------------------------------------------
// Executable wire values
// ---------------------------------------------------------------------------

/// A scalar JSON value as built and parsed at runtime.
#[derive(Debug, PartialEq, Eq)]
pub enum JsonScalar {
    Bool(bool),
    Int(i64),
    Str(Vec<u8>),
}

/// One member of a nested object.
#[derive(Debug, PartialEq, Eq)]
pub struct JsonEntry {
    pub name: Vec<u8>,
    pub value: JsonScalar,
}

/// A member value of the top-level object.
#[derive(Debug, PartialEq, Eq)]
pub enum JsonValue {
    Scalar(JsonScalar),
    Object(Vec<JsonEntry>),
}

/// One member of the top-level object.
#[derive(Debug, PartialEq, Eq)]
pub struct JsonField {
    pub name: Vec<u8>,
    pub value: JsonValue,
}

impl View for JsonScalar {
    type V = ScalarModel;

    open spec fn view(&self) -> ScalarModel {
        match self {
            JsonScalar::Bool(b) => ScalarModel::Bool(*b),
            JsonScalar::Int(n) => ScalarModel::Int(*n as int),
            JsonScalar::Str(s) => ScalarModel::Str(s@),
        }
    }
}

impl View for JsonEntry {
    type V = EntryModel;

    open spec fn view(&self) -> EntryModel {
        EntryModel { name: self.name@, value: self.value@ }
    }
}

impl View for JsonValue {
    type V = ValueModel;

    open spec fn view(&self) -> ValueModel {
        match self {
            JsonValue::Scalar(s) => ValueModel::Scalar(s@),
            JsonValue::Object(es) => ValueModel::Object(
                es@.map_values(|e: JsonEntry| e@),
            ),
        }
    }
}

impl View for JsonField {
    type V = FieldModel;

    open spec fn view(&self) -> FieldModel {
        FieldModel { name: self.name@, value: self.value@ }
    }
}

/// The model of a whole top-level object.
pub open spec fn fields_model(fs: Seq<JsonField>) -> Seq<FieldModel> {
    fs.map_values(|f: JsonField| f@)
}

impl Clone for JsonScalar {
    fn clone(&self) -> (r: JsonScalar)
        ensures
            r@ == self@,
    {
        match self {
            JsonScalar::Bool(b) => JsonScalar::Bool(*b),
            JsonScalar::Int(n) => JsonScalar::Int(*n),
            JsonScalar::Str(s) => JsonScalar::Str(vstd::slice::slice_to_vec(s.as_slice())),
        }
    }
}

impl Clone for JsonEntry {
    fn clone(&self) -> (r: JsonEntry)
        ensures
            r@ == self@,
    {
        JsonEntry {
            name: vstd::slice::slice_to_vec(self.name.as_slice()),
            value: self.value.clone(),
        }
    }
}

impl Clone for JsonValue {
    fn clone(&self) -> (r: JsonValue)
        ensures
            r@ == self@,
    {
        match self {
            JsonValue::Scalar(s) => JsonValue::Scalar(s.clone()),
            JsonValue::Object(es) => {
                let mut out: Vec<JsonEntry> = Vec::new();
                let mut i: usize = 0;
                while i < es.len()
                    invariant
                        i <= es@.len(),
                        out@.map_values(|e: JsonEntry| e@)
                            == es@.take(i as int).map_values(|e: JsonEntry| e@),
                    decreases es@.len() - i,
                {
                    out.push(es[i].clone());
                    proof {
                        assert(es@.take(i + 1).map_values(|e: JsonEntry| e@)
                            =~= es@.take(i as int).map_values(|e: JsonEntry| e@).push(es@[i as int]@));
                        assert(out@.map_values(|e: JsonEntry| e@)
                            =~= es@.take(i as int).map_values(|e: JsonEntry| e@).push(es@[i as int]@));
                    }
                    i = i + 1;
                }
                proof {
                    assert(es@.take(es@.len() as int) =~= es@);
                }
                JsonValue::Object(out)
            },
        }
    }
}

impl Clone for JsonField {
    fn clone(&self) -> (r: JsonField)
        ensures
            r@ == self@,
    {
        JsonField {
            name: vstd::slice::slice_to_vec(self.name.as_slice()),
            value: self.value.clone(),
        }
    }
}

// ---------------------------------------------------------------------------
// The serialization contract, as spec functions on the model
// ---------------------------------------------------------------------------

/// How one byte of a string is emitted: `"`, `\`, newline, carriage return
/// and tab take a two-byte escape; every other byte is kept verbatim.
pub open spec fn esc_byte(b: u8) -> Seq<u8> {
    if b == QUOTE {
        seq![BACKSLASH, QUOTE]
    } else if b == BACKSLASH {
        seq![BACKSLASH, BACKSLASH]
    } else if b == 10 {
        seq![BACKSLASH, 110u8]
    } else if b == 13 {
        seq![BACKSLASH, 114u8]
    } else if b == 9 {
        seq![BACKSLASH, 116u8]
    } else {
        seq![b]
    }
}

pub open spec fn esc_bytes(s: Seq<u8>) -> Seq<u8>
    decreases s.len(),
{
    if s.len() == 0 {
        Seq::empty()
    } else {
        esc_byte(s[0]) + esc_bytes(s.drop_first())
    }
}

/// A string value on the wire: quote, escaped bytes, quote.
pub open spec fn ser_str(s: Seq<u8>) -> Seq<u8> {
    seq![QUOTE] + esc_bytes(s) + seq![QUOTE]
}

/// Decimal digits of a natural number, most significant first.
pub open spec fn dec_digits(n: nat) -> Seq<u8>
    decreases n,
{
    if n < 10 {
        seq![(48 + n) as u8]
    } else {
        dec_digits(n / 10).push((48 + n % 10) as u8)
    }
}

/// An integer on the wire: an optional minus sign and decimal digits.
pub open spec fn ser_int(n: int) -> Seq<u8> {
    if n < 0 {
        seq![MINUS] + dec_digits((-n) as nat)
    } else {
        dec_digits(n as nat)
    }
}

pub open spec fn true_lit() -> Seq<u8> {
    seq![116u8, 114u8, 117u8, 101u8]
}

pub open spec fn false_lit() -> Seq<u8> {
    seq![102u8, 97u8, 108u8, 115u8, 101u8]
}

pub open spec fn ser_scalar(v: ScalarModel) -> Seq<u8> {
    match v {
        ScalarModel::Bool(b) => if b {
            true_lit()
        } else {
            false_lit()
        },
        ScalarModel::Int(n) => ser_int(n),
        ScalarModel::Str(s) => ser_str(s),
    }
}

/// One `"name":value` pair of a nested object.
pub open spec fn ser_entry(e: EntryModel) -> Seq<u8> {
    ser_str(e.name) + seq![COLON] + ser_scalar(e.value)
}

/// The members of a nested object, comma separated.
pub open spec fn ser_entries(es: Seq<EntryModel>) -> Seq<u8>
    decreases es.len(),
{
    if es.len() == 0 {
        Seq::empty()
    } else if es.len() == 1 {
        ser_entry(es[0])
    } else {
        ser_entry(es[0]) + seq![COMMA] + ser_entries(es.drop_first())
    }
}

/// A nested object on the wire.
pub open spec fn ser_object(es: Seq<EntryModel>) -> Seq<u8> {
    seq![LBRACE] + ser_entries(es) + seq![RBRACE]
}

pub open spec fn ser_value(v: ValueModel) -> Seq<u8> {
    match v {
        ValueModel::Scalar(s) => ser_scalar(s),
        ValueModel::Object(es) => ser_object(es),
    }
}

/// One `"name":value` pair of the top-level object.
pub open spec fn ser_field(f: FieldModel) -> Seq<u8> {
    ser_str(f.name) + seq![COLON] + ser_value(f.value)
}

/// The members of the top-level object, comma separated.
pub open spec fn ser_fields(fs: Seq<FieldModel>) -> Seq<u8>
    decreases fs.len(),
{
    if fs.len() == 0 {
        Seq::empty()
    } else if fs.len() == 1 {
        ser_field(fs[0])
    } else {
        ser_field(fs[0]) + seq![COMMA] + ser_fields(fs.drop_first())
    }
}

/// A whole payload on the wire: the canonical document this library emits.
pub open spec fn ser_top(fs: Seq<FieldModel>) -> Seq<u8> {
    seq![LBRACE] + ser_fields(fs) + seq![RBRACE]
}

// ---------------------------------------------------------------------------
// Executable serializer
// ---------------------------------------------------------------------------

fn write_esc(out: &mut Vec<u8>, s: &[u8], i: usize)
    requires
        i <= s@.len(),
    ensures
        final(out)@ == old(out)@ + esc_bytes(s@.skip(i as int)),
    decreases s@.len() - i,
{
    if i < s.len() {
        let b = s[i];
        if b == QUOTE || b == BACKSLASH {
            out.push(BACKSLASH);
            out.push(b);
        } else if b == 10 {
            out.push(BACKSLASH);
            out.push(110);
        } else if b == 13 {
            out.push(BACKSLASH);
            out.push(114);
        } else if b == 9 {
            out.push(BACKSLASH);
            out.push(116);
        } else {
            out.push(b);
        }
        let ghost mid = out@;
        write_esc(out, s, i + 1);
        proof {
            assert(s@.skip(i as int).drop_first() =~= s@.skip(i + 1));
            assert(s@.skip(i as int)[0] == s@[i as int]);
            assert(out@ =~= old(out)@ + esc_bytes(s@.skip(i as int)));
        }
    } else {
        proof {
            assert(s@.skip(i as int) =~= Seq::<u8>::empty());
            assert(out@ =~= old(out)@ + esc_bytes(s@.skip(i as int)));
        }
    }
}

/// Appends a string value in its wire form.
pub fn write_str(out: &mut Vec<u8>, s: &[u8])
    ensures
        final(out)@ == old(out)@ + ser_str(s@),
{
    out.push(QUOTE);
    write_esc(out, s, 0);
    out.push(QUOTE);
    proof {
        assert(s@.skip(0) =~= s@);
        assert(out@ =~= old(out)@ + ser_str(s@));
    }
}

fn write_digits(out: &mut Vec<u8>, n: u64)
    ensures
        final(out)@ == old(out)@ + dec_digits(n as nat),
    decreases n,
{
    if n < 10 {
        out.push(48 + n as u8);
        proof {
            assert(out@ =~= old(out)@ + dec_digits(n as nat));
        }
    } else {
        write_digits(out, n / 10);
        out.push(48 + (n % 10) as u8);
        proof {
            assert(out@ =~= old(out)@ + dec_digits(n as nat));
        }
    }
}

/// Appends an integer value in its wire form.
pub fn write_int(out: &mut Vec<u8>, n: i64)
    ensures
        final(out)@ == old(out)@ + ser_int(n as int),
{
    if n < 0 {
        out.push(MINUS);
        let m: u64 = if n == i64::MIN {
            9223372036854775808u64
        } else {
            (-n) as u64
        };
        assert(m as nat == (-(n as int)) as nat);
        write_digits(out, m);
        proof {
            assert(out@ =~= old(out)@ + ser_int(n as int));
        }
    } else {
        write_digits(out, n as u64);
    }
}

fn write_scalar(out: &mut Vec<u8>, v: &JsonScalar)
    ensures
        final(out)@ == old(out)@ + ser_scalar(v@),
{
    match v {
        JsonScalar::Bool(b) => {
            if *b {
                out.push(116);
                out.push(114);
                out.push(117);
                out.push(101);
            } else {
                out.push(102);
                out.push(97);
                out.push(108);
                out.push(115);
                out.push(101);
            }
            proof {
                assert(out@ =~= old(out)@ + ser_scalar(v@));
            }
        },
        JsonScalar::Int(n) => {
            write_int(out, *n);
        },
        JsonScalar::Str(s) => {
            write_str(out, s.as_slice());
        },
    }
}

fn write_entries(out: &mut Vec<u8>, es: &Vec<JsonEntry>, i: usize)
    requires
        i <= es@.len(),
    ensures
        final(out)@ == old(out)@ + ser_entries(es@.map_values(|e: JsonEntry| e@).skip(i as int)),
    decreases es@.len() - i,
{
    let ghost m = es@.map_values(|e: JsonEntry| e@);
    if i < es.len() {
        write_str(out, es[i].name.as_slice());
        out.push(COLON);
        write_scalar(out, &es[i].value);
        if i + 1 < es.len() {
            out.push(COMMA);
            write_entries(out, es, i + 1);
        } else {
            proof {
                assert(m.skip(i as int).len() == 1);
            }
        }
        proof {
            assert(m.skip(i as int)[0] == es@[i as int]@);
            assert(ser_entry(m.skip(i as int)[0]) == ser_str(es@[i as int].name@) + seq![COLON] + ser_scalar(es@[i as int].value@));
            if i + 1 < es.len() {
                assert(m.skip(i as int).drop_first() =~= m.skip(i + 1));
            }
            assert(out@ =~= old(out)@ + ser_entries(m.skip(i as int)));
        }
    } else {
        proof {
            assert(m.skip(i as int) =~= Seq::<EntryModel>::empty());
            assert(out@ =~= old(out)@ + ser_entries(m.skip(i as int)));
        }
    }
}

fn write_value(out: &mut Vec<u8>, v: &JsonValue)
    ensures
        final(out)@ == old(out)@ + ser_value(v@),
{
    match v {
        JsonValue::Scalar(s) => {
            write_scalar(out, s);
        },
        JsonValue::Object(es) => {
            out.push(LBRACE);
            write_entries(out, es, 0);
            out.push(RBRACE);
            proof {
                let m = es@.map_values(|e: JsonEntry| e@);
                assert(m.skip(0) =~= m);
                assert(out@ =~= old(out)@ + ser_value(v@));
            }
        },
    }
}

fn write_fields(out: &mut Vec<u8>, fs: &Vec<JsonField>, i: usize)
    requires
        i <= fs@.len(),
    ensures
        final(out)@ == old(out)@ + ser_fields(fields_model(fs@).skip(i as int)),
    decreases fs@.len() - i,
{
    let ghost m = fields_model(fs@);
    if i < fs.len() {
        write_str(out, fs[i].name.as_slice());
        out.push(COLON);
        write_value(out, &fs[i].value);
        if i + 1 < fs.len() {
            out.push(COMMA);
            write_fields(out, fs, i + 1);
        } else {
            proof {
                assert(m.skip(i as int).len() == 1);
            }
        }
        proof {
            assert(m.skip(i as int)[0] == fs@[i as int]@);
            assert(ser_field(m.skip(i as int)[0]) == ser_str(fs@[i as int].name@) + seq![COLON] + ser_value(fs@[i as int].value@));
            if i + 1 < fs.len() {
                assert(m.skip(i as int).drop_first() =~= m.skip(i + 1));
            }
            assert(out@ =~= old(out)@ + ser_fields(m.skip(i as int)));
        }
    } else {
        proof {
            assert(m.skip(i as int) =~= Seq::<FieldModel>::empty());
            assert(out@ =~= old(out)@ + ser_fields(m.skip(i as int)));
        }
    }
}

/// Serializes one member value alone: the form a text part of a multipart
/// body carries.
pub fn render_value(v: &JsonValue) -> (out: Vec<u8>)
    ensures
        out@ == ser_value(v@),
{
    let mut out: Vec<u8> = Vec::new();
    write_value(&mut out, v);
    out
}

/// Serializes a whole payload: the members in order inside one pair of
/// braces, nothing else.
pub fn render_json(fs: &Vec<JsonField>) -> (out: Vec<u8>)
    ensures
        out@ == ser_top(fields_model(fs@)),
{
    let mut out: Vec<u8> = Vec::new();
    out.push(LBRACE);
    write_fields(&mut out, fs, 0);
    out.push(RBRACE);
    proof {
        assert(fields_model(fs@).skip(0) =~= fields_model(fs@));
        assert(out@ =~= ser_top(fields_model(fs@)));
    }
    out
}

} // verus!
