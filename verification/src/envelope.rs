//! The response envelope: decoding a wire reply into a typed payload or a
//! structured error.
//!
//! A reply is either `{"ok":true,"result":<payload>}` or
//! `{"ok":false,"error_code":<int>,"description":<string>}` with optional
//! retry and migration hints under `"parameters"`.  The decoder surfaces
//! the error code and description verbatim; a reply fitting neither shape
//! is a decode failure, never a silent default.

use vstd::prelude::*;
use crate::True;
use crate::json::{
    JsonField, JsonEntry, JsonValue, JsonScalar,
    FieldModel, EntryModel, ValueModel, ScalarModel, fields_model,
};
use crate::parser::{parse_top, parse_document};
use crate::payload::text_bytes;

verus! {

/// A well-formed failure envelope: the remote service's own report.
#[derive(Clone, Debug, PartialEq, Eq)]
pub struct ApiError {
    /// The numeric error code of the reply.
    pub error_code: i64,
    /// The human-readable description, verbatim wire bytes.
    pub description: Vec<u8>,
    /// Seconds to wait, present under rate limiting.
    pub retry_after: Option<i64>,
    /// The chat's new identifier, present after a group migration.
    pub migrate_to_chat_id: Option<i64>,
}

/// Model of a failure envelope.
pub struct ApiErrorModel {
    pub error_code: int,
    pub description: Seq<u8>,
    pub retry_after: Option<int>,
    pub migrate_to_chat_id: Option<int>,
}

impl View for ApiError {
    type V = ApiErrorModel;

    open spec fn view(&self) -> ApiErrorModel {
        ApiErrorModel {
            error_code: self.error_code as int,
            description: self.description@,
            retry_after: match self.retry_after {
                Some(n) => Some(n as int),
                None => None,
            },
            migrate_to_chat_id: match self.migrate_to_chat_id {
                Some(n) => Some(n as int),
                None => None,
            },
        }
    }
}

/// Everything `send` can fail with: a transport failure before any
/// envelope, a well-formed failure envelope, or a reply that fits neither
/// shape of the envelope.
#[derive(Clone, Debug, PartialEq, Eq)]
pub enum RequestError {
    /// The network layer failed before an envelope was obtained; the bytes
    /// carry the transport layer's own message.
    Network(Vec<u8>),
    /// A well-formed `ok:false` envelope.
    Api(ApiError),
    /// The reply was not a well-formed envelope of either shape.
    Decode,
}

/// What a reply means: a success payload, the service's failure report, or
/// a malformed reply.
pub enum DecodedModel {
    Success(ValueModel),
    Failure(ApiErrorModel),
    Malformed,
}

/// The first member of the given name, if any.
pub open spec fn spec_lookup(fs: Seq<FieldModel>, name: Seq<u8>) -> Option<ValueModel>
    decreases fs.len(),
{
    if fs.len() == 0 {
        None
    } else if fs[0].name == name {
        Some(fs[0].value)
    } else {
        spec_lookup(fs.drop_first(), name)
    }
}

/// The first entry of the given name in a nested object, if any.
pub open spec fn spec_entry_lookup(es: Seq<EntryModel>, name: Seq<u8>) -> Option<ScalarModel>
    decreases es.len(),
{
    if es.len() == 0 {
        None
    } else if es[0].name == name {
        Some(es[0].value)
    } else {
        spec_entry_lookup(es.drop_first(), name)
    }
}

/// An integer hint under `"parameters"`, if present with that shape.
pub open spec fn spec_hint(fs: Seq<FieldModel>, name: Seq<u8>) -> Option<int> {
    match spec_lookup(fs, text_bytes("parameters"@)) {
        Some(v) => match v {
            ValueModel::Object(es) => match spec_entry_lookup(es, name) {
                Some(sc) => match sc {
                    ScalarModel::Int(n) => Some(n),
                    _ => None,
                },
                None => None,
            },
            _ => None,
        },
        None => None,
    }
}

/// What a whole reply decodes to under the envelope contract.
pub open spec fn spec_decode_envelope(s: Seq<u8>) -> DecodedModel {
    match parse_top(s) {
        None => DecodedModel::Malformed,
        Some(fs) => match spec_lookup(fs, text_bytes("ok"@)) {
            Some(okv) => if okv == ValueModel::Scalar(ScalarModel::Bool(true)) {
                match spec_lookup(fs, text_bytes("result"@)) {
                    Some(v) => DecodedModel::Success(v),
                    None => DecodedModel::Malformed,
                }
            } else if okv == ValueModel::Scalar(ScalarModel::Bool(false)) {
                match (spec_lookup(fs, text_bytes("error_code"@)), spec_lookup(
                    fs,
                    text_bytes("description"@),
                )) {
                    (Some(cv), Some(dv)) => match (cv, dv) {
                        (
                            ValueModel::Scalar(ScalarModel::Int(c)),
                            ValueModel::Scalar(ScalarModel::Str(d)),
                        ) => DecodedModel::Failure(ApiErrorModel {
                            error_code: c,
                            description: d,
                            retry_after: spec_hint(fs, text_bytes("retry_after"@)),
                            migrate_to_chat_id: spec_hint(fs, text_bytes("migrate_to_chat_id"@)),
                        }),
                        _ => DecodedModel::Malformed,
                    },
                    _ => DecodedModel::Malformed,
                }
            } else {
                DecodedModel::Malformed
            },
            None => DecodedModel::Malformed,
        },
    }
}

fn bytes_eq(a: &[u8], b: &[u8]) -> (r: bool)
    ensures
        r == (a@ == b@),
{
    if a.len() != b.len() {
        proof {
            assert(a@.len() != b@.len());
        }
        return false;
    }
    let mut i: usize = 0;
    while i < a.len()
        invariant
            i <= a@.len(),
            a@.len() == b@.len(),
            forall|k: int| 0 <= k < i ==> a@[k] == b@[k],
        decreases a@.len() - i,
    {
        if a[i] != b[i] {
            return false;
        }
        i = i + 1;
    }
    proof {
        assert(a@ =~= b@);
    }
    true
}

fn find_field<'a>(fs: &'a Vec<JsonField>, name: &[u8]) -> (r: Option<&'a JsonValue>)
    ensures
        (r matches Some(v) ==> spec_lookup(fields_model(fs@), name@) == Some(v@)),
        r is None ==> spec_lookup(fields_model(fs@), name@) is None,
{
    let ghost m = fields_model(fs@);
    proof {
        assert(m.skip(0) =~= m);
    }
    let mut i: usize = 0;
    while i < fs.len()
        invariant
            i <= fs@.len(),
            m == fields_model(fs@),
            spec_lookup(m, name@) == spec_lookup(m.skip(i as int), name@),
        decreases fs@.len() - i,
    {
        let hit = bytes_eq(fs[i].name.as_slice(), name);
        proof {
            assert(m.skip(i as int)[0] == fs@[i as int]@);
            assert(m.skip(i as int).drop_first() =~= m.skip(i + 1));
        }
        if hit {
            return Some(&fs[i].value);
        }
        i = i + 1;
    }
    proof {
        assert(m.skip(fs@.len() as int) =~= Seq::<FieldModel>::empty());
    }
    None
}

fn find_entry<'a>(es: &'a Vec<JsonEntry>, name: &[u8]) -> (r: Option<&'a JsonScalar>)
    ensures
        (r matches Some(v) ==> spec_entry_lookup(es@.map_values(|e: JsonEntry| e@), name@)
            == Some(v@)),
        r is None ==> spec_entry_lookup(es@.map_values(|e: JsonEntry| e@), name@) is None,
{
    let ghost m = es@.map_values(|e: JsonEntry| e@);
    proof {
        assert(m.skip(0) =~= m);
    }
    let mut i: usize = 0;
    while i < es.len()
        invariant
            i <= es@.len(),
            m == es@.map_values(|e: JsonEntry| e@),
            spec_entry_lookup(m, name@) == spec_entry_lookup(m.skip(i as int), name@),
        decreases es@.len() - i,
    {
        let hit = bytes_eq(es[i].name.as_slice(), name);
        proof {
            assert(m.skip(i as int)[0] == es@[i as int]@);
            assert(m.skip(i as int).drop_first() =~= m.skip(i + 1));
        }
        if hit {
            return Some(&es[i].value);
        }
        i = i + 1;
    }
    proof {
        assert(m.skip(es@.len() as int) =~= Seq::<EntryModel>::empty());
    }
    None
}

fn hint_of(fs: &Vec<JsonField>, name: &[u8]) -> (r: Option<i64>)
    ensures
        match r {
            Some(n) => spec_hint(fields_model(fs@), name@) == Some(n as int),
            None => spec_hint(fields_model(fs@), name@) is None,
        },
{
    match find_field(fs, "parameters".as_bytes()) {
        Some(v) => match v {
            JsonValue::Object(es) => match find_entry(es, name) {
                Some(sc) => match sc {
                    JsonScalar::Int(n) => Some(*n),
                    _ => None,
                },
                None => None,
            },
            _ => None,
        },
        None => None,
    }
}

/// Decodes a reply's bytes into the success payload or the structured
/// failure the envelope carries.  `Network` is never produced here: it is
/// the transport layer's own category.
pub fn decode_envelope(body: &[u8]) -> (r: Result<JsonValue, RequestError>)
    ensures
        (r matches Ok(v) ==> spec_decode_envelope(body@) == DecodedModel::Success(v@)),
        (r matches Err(e) ==> match e {
            RequestError::Api(a) => spec_decode_envelope(body@) == DecodedModel::Failure(a@),
            RequestError::Decode => spec_decode_envelope(body@) == DecodedModel::Malformed,
            RequestError::Network(_) => false,
        }),
{
    let fs = match parse_document(body) {
        Some(fs) => fs,
        None => {
            return Err(RequestError::Decode);
        },
    };
    let ok_true = match find_field(&fs, "ok".as_bytes()) {
        Some(v) => match v {
            JsonValue::Scalar(JsonScalar::Bool(b)) => *b,
            _ => {
                return Err(RequestError::Decode);
            },
        },
        None => {
            return Err(RequestError::Decode);
        },
    };
    if ok_true {
        match find_field(&fs, "result".as_bytes()) {
            Some(v) => Ok(v.clone()),
            None => Err(RequestError::Decode),
        }
    } else {
        let code = match find_field(&fs, "error_code".as_bytes()) {
            Some(v) => match v {
                JsonValue::Scalar(JsonScalar::Int(n)) => *n,
                _ => {
                    return Err(RequestError::Decode);
                },
            },
            None => {
                return Err(RequestError::Decode);
            },
        };
        let descr = match find_field(&fs, "description".as_bytes()) {
            Some(v) => match v {
                JsonValue::Scalar(JsonScalar::Str(d)) => vstd::slice::slice_to_vec(d.as_slice()),
                _ => {
                    return Err(RequestError::Decode);
                },
            },
            None => {
                return Err(RequestError::Decode);
            },
        };
        let retry_after = hint_of(&fs, "retry_after".as_bytes());
        let migrate_to_chat_id = hint_of(&fs, "migrate_to_chat_id".as_bytes());
        Err(RequestError::Api(ApiError { error_code: code, description: descr, retry_after, migrate_to_chat_id }))
    }
}

/// Decodes a reply for a method whose declared payload is the no-content
/// success marker: `result` must be the boolean `true`.
pub fn decode_true(body: &[u8]) -> (r: Result<True, RequestError>)
    ensures
        (r matches Ok(t) ==> spec_decode_envelope(body@) == DecodedModel::Success(
            ValueModel::Scalar(ScalarModel::Bool(true)),
        )),
        (r matches Err(e) ==> match e {
            RequestError::Api(a) => spec_decode_envelope(body@) == DecodedModel::Failure(a@),
            RequestError::Decode => spec_decode_envelope(body@) == DecodedModel::Malformed
                || (spec_decode_envelope(body@) matches DecodedModel::Success(v)
                    && v != ValueModel::Scalar(ScalarModel::Bool(true))),
            RequestError::Network(_) => false,
        }),
{
    match decode_envelope(body) {
        Ok(v) => match v {
            JsonValue::Scalar(JsonScalar::Bool(true)) => Ok(True),
            _ => Err(RequestError::Decode),
        },
        Err(e) => Err(e),
    }
}

} // verus!
