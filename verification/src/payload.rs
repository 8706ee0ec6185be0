//! The request payload: named parameters, their wire encoding, and the
//! choice between plain JSON and multipart transport.
//!
//! A builder assembles a `Payload`: the remote method's name and the
//! parameters that are present.  An optional parameter left unset never
//! appears here, so it is omitted from the wire bytes entirely; a parameter
//! that was set is emitted with the exact value given, even when that value
//! equals a default.

use vstd::prelude::*;
use crate::types::{ChatId, ChatIdModel, InputFile, InputFileModel};
use crate::json::{
    JsonField, JsonValue, JsonScalar, FieldModel, ValueModel, ScalarModel,
    fields_model, ser_top, render_json,
};
use vstd::string::StringSliceAdditionalSpecFns;
use vstd::string::StrSliceExecFns;
use vstd::string::StringExecFns;

verus! {

/// The bytes of a text value: its UTF-8 encoding.
pub open spec fn text_bytes(s: Seq<char>) -> Seq<u8> {
    vstd::utf8::encode_utf8(s)
}

/// The value of one named parameter of a method call.
#[derive(Clone, Debug, PartialEq, Eq)]
pub enum ParamValue {
    /// A chat identifier: serialized as a bare number or as the username
    /// string with its leading `@` kept verbatim.
    Id(ChatId),
    /// An attached file.
    Attach(InputFile),
    /// A plain text value.
    Text(String),
    /// A plain integer value.
    Integer(i64),
    /// A plain boolean value.
    Flag(bool),
}

/// One present parameter: a wire name and a value.
#[derive(Clone, Debug, PartialEq, Eq)]
pub struct Param {
    pub name: String,
    pub value: ParamValue,
}

/// A fully assembled method call: the remote method's name and every
/// parameter that is present.  Absent optional parameters have no entry.
#[derive(Clone, Debug, PartialEq, Eq)]
pub struct Payload {
    pub method: String,
    pub params: Vec<Param>,
}

/// The `attach://` placeholder prefix used to link a JSON field to the
/// binary multipart part carrying the bytes.
pub open spec fn attach_prefix() -> Seq<u8> {
    seq![97u8, 116u8, 116u8, 97u8, 99u8, 104u8, 58u8, 47u8, 47u8]
}

/// The placeholder value for an uploaded attachment under a given
/// parameter name.
pub open spec fn attach_token(name: Seq<u8>) -> Seq<u8> {
    attach_prefix() + name
}

/// True when the parameter carries content that must travel as a binary
/// multipart part.
pub open spec fn spec_is_upload(v: ParamValue) -> bool {
    match v {
        ParamValue::Attach(f) => f.spec_needs_upload(),
        _ => false,
    }
}

/// The JSON value a chat identifier serializes to: its active variant's
/// encoding, a bare number or the username string kept verbatim.
pub open spec fn chat_field_model(c: ChatIdModel) -> ValueModel {
    match c {
        ChatIdModel::Id(n) => ValueModel::Scalar(ScalarModel::Int(n)),
        ChatIdModel::ChannelUsername(u) => ValueModel::Scalar(ScalarModel::Str(text_bytes(u))),
    }
}

/// The JSON value an attachment serializes to under its parameter name: the
/// `attach://<name>` placeholder when it must be uploaded, else its plain
/// string reference.
pub open spec fn attach_field_model(f: InputFileModel, name: Seq<u8>) -> ValueModel {
    if f.needs_upload() {
        ValueModel::Scalar(ScalarModel::Str(attach_token(name)))
    } else {
        ValueModel::Scalar(ScalarModel::Str(text_bytes(f.reference())))
    }
}

/// The JSON value a parameter serializes to.  An attachment that needs an
/// upload serializes to its `attach://<name>` placeholder; one referencing
/// a remote resource serializes to that plain string.
pub open spec fn spec_value_of(name: Seq<u8>, v: ParamValue) -> ValueModel {
    match v {
        ParamValue::Id(c) => chat_field_model(c@),
        ParamValue::Attach(f) => attach_field_model(f@, name),
        ParamValue::Text(s) => ValueModel::Scalar(ScalarModel::Str(text_bytes(s@))),
        ParamValue::Integer(n) => ValueModel::Scalar(ScalarModel::Int(n as int)),
        ParamValue::Flag(b) => ValueModel::Scalar(ScalarModel::Bool(b)),
    }
}

/// The JSON member a parameter serializes to.
pub open spec fn spec_field_of(p: Param) -> FieldModel {
    FieldModel { name: text_bytes(p.name@), value: spec_value_of(text_bytes(p.name@), p.value) }
}

/// The JSON members of a whole parameter list, in order: exactly one per
/// present parameter.
pub open spec fn spec_fields_of(ps: Seq<Param>) -> Seq<FieldModel> {
    ps.map_values(|p: Param| spec_field_of(p))
}

// ---------------------------------------------------------------------------
// Binary parts of a multipart body
// ---------------------------------------------------------------------------

/// The content of a binary part: bytes already in memory, or a local path
/// that the transport layer reads when it assembles the multipart body.
#[derive(Clone, Debug, PartialEq, Eq)]
pub enum FileContent {
    Bytes(Vec<u8>),
    LocalPath(String),
}

/// One binary part of a multipart body, named to match its `attach://`
/// placeholder.
#[derive(Clone, Debug, PartialEq, Eq)]
pub struct FilePart {
    pub name: Vec<u8>,
    pub file_name: String,
    pub content: FileContent,
}

/// Model of a binary part's content.
pub enum ContentModel {
    Bytes(Seq<u8>),
    LocalPath(Seq<char>),
}

/// Model of one binary part.
pub struct PartModel {
    pub name: Seq<u8>,
    pub file_name: Seq<char>,
    pub content: ContentModel,
}

impl View for FileContent {
    type V = ContentModel;

    open spec fn view(&self) -> ContentModel {
        match self {
            FileContent::Bytes(b) => ContentModel::Bytes(b@),
            FileContent::LocalPath(p) => ContentModel::LocalPath(p@),
        }
    }
}

impl View for FilePart {
    type V = PartModel;

    open spec fn view(&self) -> PartModel {
        PartModel { name: self.name@, file_name: self.file_name@, content: self.content@ }
    }
}

/// The binary part an uploading attachment becomes under its parameter
/// name: raw bytes travel as they are; a local path is left for the
/// transport layer to read.
pub open spec fn attach_part_model(f: InputFileModel, name: Seq<u8>) -> PartModel {
    match f {
        InputFileModel::Memory { file_name, data } => PartModel {
            name,
            file_name,
            content: ContentModel::Bytes(data),
        },
        InputFileModel::File(path) => PartModel {
            name,
            file_name: path,
            content: ContentModel::LocalPath(path),
        },
        _ => PartModel {
            name,
            file_name: Seq::empty(),
            content: ContentModel::Bytes(Seq::empty()),
        },
    }
}

/// The binary part an uploading attachment becomes.
pub open spec fn spec_part_of(p: Param) -> PartModel {
    match p.value {
        ParamValue::Attach(f) => attach_part_model(f@, text_bytes(p.name@)),
        _ => PartModel {
            name: text_bytes(p.name@),
            file_name: Seq::empty(),
            content: ContentModel::Bytes(Seq::empty()),
        },
    }
}

/// The binary parts of a parameter list: exactly one per uploading
/// attachment, in parameter order.
pub open spec fn spec_parts_of(ps: Seq<Param>) -> Seq<PartModel>
    decreases ps.len(),
{
    if ps.len() == 0 {
        Seq::empty()
    } else {
        (if spec_is_upload(ps[0].value) {
            seq![spec_part_of(ps[0])]
        } else {
            Seq::empty()
        }) + spec_parts_of(ps.drop_first())
    }
}

/// True when some present parameter forces multipart transport.
pub open spec fn spec_needs_multipart(ps: Seq<Param>) -> bool {
    exists|i: int| 0 <= i < ps.len() && spec_is_upload(#[trigger] ps[i].value)
}

// ---------------------------------------------------------------------------
// The encoded body
// ---------------------------------------------------------------------------

/// The body of one wire request, ready for the transport layer.
#[derive(Clone, Debug, PartialEq, Eq)]
pub enum Body {
    /// A single JSON document.
    Json(Vec<u8>),
    /// A multipart body: each field becomes a text part holding its
    /// JSON-encoded value; each uploading attachment becomes a binary part.
    Multipart { fields: Vec<JsonField>, parts: Vec<FilePart> },
}

fn attach_prefix_vec() -> (v: Vec<u8>)
    ensures
        v@ == attach_prefix(),
{
    let mut v: Vec<u8> = Vec::new();
    v.push(97);
    v.push(116);
    v.push(116);
    v.push(97);
    v.push(99);
    v.push(104);
    v.push(58);
    v.push(47);
    v.push(47);
    proof {
        assert(v@ =~= attach_prefix());
    }
    v
}

/// Renders one parameter's JSON value; for an uploading attachment this is
/// its `attach://<name>` placeholder.
fn value_of(name: &String, v: &ParamValue) -> (r: JsonValue)
    ensures
        r@ == spec_value_of(text_bytes(name@), *v),
{
    match v {
        ParamValue::Id(c) => match c {
            ChatId::Id(n) => JsonValue::Scalar(JsonScalar::Int(*n)),
            ChatId::ChannelUsername(u) => JsonValue::Scalar(
                JsonScalar::Str(u.as_str().as_bytes_vec()),
            ),
        },
        ParamValue::Attach(f) => {
            if f.needs_upload() {
                let mut tok = attach_prefix_vec();
                let mut nb = name.as_str().as_bytes_vec();
                tok.append(&mut nb);
                proof {
                    assert(tok@ =~= attach_token(text_bytes(name@)));
                }
                JsonValue::Scalar(JsonScalar::Str(tok))
            } else {
                let r = match f {
                    InputFile::Url(u) => u.as_str().as_bytes_vec(),
                    InputFile::FileId(i) => i.as_str().as_bytes_vec(),
                    InputFile::File(p) => p.as_str().as_bytes_vec(),
                    InputFile::Memory { file_name, .. } => file_name.as_str().as_bytes_vec(),
                };
                JsonValue::Scalar(JsonScalar::Str(r))
            }
        },
        ParamValue::Text(s) => JsonValue::Scalar(JsonScalar::Str(s.as_str().as_bytes_vec())),
        ParamValue::Integer(n) => JsonValue::Scalar(JsonScalar::Int(*n)),
        ParamValue::Flag(b) => JsonValue::Scalar(JsonScalar::Bool(*b)),
    }
}

/// The JSON members of a payload, one per present parameter, in order.
pub fn fields_of(ps: &Vec<Param>) -> (fs: Vec<JsonField>)
    ensures
        fields_model(fs@) == spec_fields_of(ps@),
{
    let mut fs: Vec<JsonField> = Vec::new();
    let mut i: usize = 0;
    while i < ps.len()
        invariant
            i <= ps@.len(),
            fields_model(fs@) == spec_fields_of(ps@.take(i as int)),
        decreases ps@.len() - i,
    {
        let name = ps[i].name.as_str().as_bytes_vec();
        let value = value_of(&ps[i].name, &ps[i].value);
        fs.push(JsonField { name, value });
        proof {
            assert(ps@.take(i + 1).drop_last() =~= ps@.take(i as int));
            assert(ps@.take(i + 1).last() == ps@[i as int]);
            assert(spec_fields_of(ps@.take(i + 1)) =~= spec_fields_of(ps@.take(i as int)).push(spec_field_of(ps@[i as int])));
            assert(fields_model(fs@) =~= spec_fields_of(ps@.take(i + 1)));
        }
        i = i + 1;
    }
    proof {
        assert(ps@.take(ps@.len() as int) =~= ps@);
    }
    fs
}

/// Splitting a parameter list splits its binary parts.
pub proof fn lemma_parts_concat(a: Seq<Param>, b: Seq<Param>)
    ensures
        spec_parts_of(a + b) == spec_parts_of(a) + spec_parts_of(b),
    decreases a.len(),
{
    if a.len() == 0 {
        assert(a + b =~= b);
        assert(spec_parts_of(a) + spec_parts_of(b) =~= spec_parts_of(b));
    } else {
        assert((a + b).drop_first() =~= a.drop_first() + b);
        assert((a + b)[0] == a[0]);
        lemma_parts_concat(a.drop_first(), b);
        assert(spec_parts_of(a + b) =~= spec_parts_of(a) + spec_parts_of(b));
    }
}

/// Decides whether one parameter forces multipart transport.
pub fn is_upload(v: &ParamValue) -> (r: bool)
    ensures
        r == spec_is_upload(*v),
{
    match v {
        ParamValue::Attach(f) => f.needs_upload(),
        _ => false,
    }
}

/// The binary parts of a payload, one per uploading attachment, in order.
pub fn parts_of(ps: &Vec<Param>) -> (parts: Vec<FilePart>)
    ensures
        parts@.map_values(|p: FilePart| p@) == spec_parts_of(ps@),
{
    let mut parts: Vec<FilePart> = Vec::new();
    let mut i: usize = 0;
    while i < ps.len()
        invariant
            i <= ps@.len(),
            parts@.map_values(|p: FilePart| p@) == spec_parts_of(ps@.take(i as int)),
        decreases ps@.len() - i,
    {
        if is_upload(&ps[i].value) {
            let name = ps[i].name.as_str().as_bytes_vec();
            let part = match &ps[i].value {
                ParamValue::Attach(f) => match f {
                    InputFile::Memory { file_name, data } => FilePart {
                        name,
                        file_name: file_name.clone(),
                        content: FileContent::Bytes(vstd::slice::slice_to_vec(data.as_slice())),
                    },
                    InputFile::File(path) => FilePart {
                        name,
                        file_name: path.clone(),
                        content: FileContent::LocalPath(path.clone()),
                    },
                    InputFile::Url(_) | InputFile::FileId(_) => {
                        proof {
                            assert(false);
                        }
                        FilePart {
                            name,
                            file_name: String::new(),
                            content: FileContent::Bytes(Vec::new()),
                        }
                    },
                },
                _ => {
                    proof {
                        assert(false);
                    }
                    FilePart {
                        name,
                        file_name: String::new(),
                        content: FileContent::Bytes(Vec::new()),
                    }
                },
            };
            parts.push(part);
            proof {
                assert(part@ == spec_part_of(ps@[i as int]));
            }
        }
        proof {
            assert(ps@.take(i + 1) =~= ps@.take(i as int) + seq![ps@[i as int]]);
            lemma_parts_concat(ps@.take(i as int), seq![ps@[i as int]]);
            assert(seq![ps@[i as int]].drop_first() =~= Seq::<Param>::empty());
            assert(spec_parts_of(Seq::<Param>::empty()) =~= Seq::<PartModel>::empty());
            assert(seq![ps@[i as int]][0] == ps@[i as int]);
            assert(spec_parts_of(seq![ps@[i as int]]) == (if spec_is_upload(ps@[i as int].value) {
                seq![spec_part_of(ps@[i as int])]
            } else {
                Seq::<PartModel>::empty()
            }) + spec_parts_of(seq![ps@[i as int]].drop_first()));
            if spec_is_upload(ps@[i as int].value) {
                assert(spec_parts_of(seq![ps@[i as int]]) =~= seq![spec_part_of(ps@[i as int])]);
            } else {
                assert(spec_parts_of(seq![ps@[i as int]]) =~= Seq::<PartModel>::empty());
            }
            assert(parts@.map_values(|p: FilePart| p@) =~= spec_parts_of(ps@.take(i + 1)));
        }
        i = i + 1;
    }
    proof {
        assert(ps@.take(ps@.len() as int) =~= ps@);
    }
    parts
}

/// A parameter list has no binary parts exactly when nothing in it needs an
/// upload: the rule that picks the transport.
pub proof fn lemma_parts_empty(ps: Seq<Param>)
    ensures
        (spec_parts_of(ps).len() == 0) <==> !spec_needs_multipart(ps),
    decreases ps.len(),
{
    if ps.len() == 0 {
        assert(!spec_needs_multipart(ps));
    } else {
        lemma_parts_empty(ps.drop_first());
        if spec_is_upload(ps[0].value) {
            assert(spec_needs_multipart(ps));
            assert(spec_parts_of(ps).len() > 0);
        } else {
            assert(spec_parts_of(ps).len() == spec_parts_of(ps.drop_first()).len());
            if spec_needs_multipart(ps) {
                let i = choose|i: int| 0 <= i < ps.len() && spec_is_upload(ps[i].value);
                assert(i != 0);
                assert(ps.drop_first()[i - 1] == ps[i]);
                assert(spec_needs_multipart(ps.drop_first()));
            }
            if spec_needs_multipart(ps.drop_first()) {
                let i = choose|i: int| 0 <= i < ps.drop_first().len()
                    && spec_is_upload(ps.drop_first()[i].value);
                assert(ps[i + 1] == ps.drop_first()[i]);
                assert(spec_needs_multipart(ps));
            }
        }
    }
}

/// A parameter list in which nothing needs an upload has no binary parts:
/// such a call travels as plain JSON.
pub proof fn lemma_no_upload_no_parts(ps: Seq<Param>)
    requires
        forall|i: int| 0 <= i < ps.len() ==> !spec_is_upload(#[trigger] ps[i].value),
    ensures
        spec_parts_of(ps) == Seq::<PartModel>::empty(),
        !spec_needs_multipart(ps),
    decreases ps.len(),
{
    if ps.len() == 0 {
        assert(spec_parts_of(ps) =~= Seq::<PartModel>::empty());
    } else {
        assert(!spec_is_upload(ps[0].value));
        assert(forall|i: int| 0 <= i < ps.drop_first().len()
            ==> #[trigger] ps.drop_first()[i] == ps[i + 1]);
        lemma_no_upload_no_parts(ps.drop_first());
        assert(spec_parts_of(ps) =~= Seq::<PartModel>::empty());
    }
}

/// The parameters that must travel as binary parts, in order.
pub open spec fn upload_params(ps: Seq<Param>) -> Seq<Param>
    decreases ps.len(),
{
    if ps.len() == 0 {
        Seq::empty()
    } else {
        (if spec_is_upload(ps[0].value) {
            seq![ps[0]]
        } else {
            Seq::empty()
        }) + upload_params(ps.drop_first())
    }
}

/// Law: a payload's binary parts are exactly one per raw attachment, in
/// parameter order, and each raw attachment's JSON member is the
/// `attach://<name>` placeholder whose name the matching binary part
/// carries.
pub proof fn lemma_upload_parts_match(ps: Seq<Param>)
    ensures
        spec_parts_of(ps) == upload_params(ps).map_values(|p: Param| spec_part_of(p)),
        forall|i: int| 0 <= i < ps.len() && spec_is_upload(#[trigger] ps[i].value)
            ==> spec_fields_of(ps)[i].value == ValueModel::Scalar(
                ScalarModel::Str(attach_token(text_bytes(ps[i].name@))),
            ) && spec_part_of(ps[i]).name == text_bytes(ps[i].name@),
    decreases ps.len(),
{
    if ps.len() == 0 {
        assert(spec_parts_of(ps) =~= upload_params(ps).map_values(|p: Param| spec_part_of(p)));
    } else {
        lemma_upload_parts_match(ps.drop_first());
        assert(spec_parts_of(ps) =~= upload_params(ps).map_values(|p: Param| spec_part_of(p)));
        assert forall|i: int| 0 <= i < ps.len() && spec_is_upload(#[trigger] ps[i].value) implies
            spec_fields_of(ps)[i].value == ValueModel::Scalar(
                ScalarModel::Str(attach_token(text_bytes(ps[i].name@))),
            ) && spec_part_of(ps[i]).name == text_bytes(ps[i].name@) by {
            assert(spec_fields_of(ps)[i] == spec_field_of(ps[i]));
            match ps[i].value {
                ParamValue::Attach(f) => {
                    assert(f@.needs_upload());
                },
                _ => {},
            }
        }
    }
}

/// Law: an attachment referencing a remote resource (a file id or a URL)
/// never forces multipart; a payload whose attachments are all such
/// references travels as one JSON document.
pub proof fn lemma_reference_plain_json(ps: Seq<Param>)
    requires
        forall|i: int| 0 <= i < ps.len() ==> match #[trigger] ps[i].value {
            ParamValue::Attach(f) => f@ matches InputFileModel::FileId(_)
                || f@ matches InputFileModel::Url(_),
            _ => true,
        },
    ensures
        !spec_needs_multipart(ps),
        spec_parts_of(ps).len() == 0,
{
    assert forall|i: int| 0 <= i < ps.len() implies !spec_is_upload(#[trigger] ps[i].value) by {
        match ps[i].value {
            ParamValue::Attach(f) => {
                assert(!f@.needs_upload());
            },
            _ => {},
        }
    }
    lemma_no_upload_no_parts(ps);
}

/// Law: an integer identifier serializes to a bare number; a username
/// identifier to that exact string, its leading `@` untouched.
pub proof fn lemma_identifier_encoding(c: ChatIdModel)
    ensures
        (c matches ChatIdModel::Id(n) ==> chat_field_model(c) == ValueModel::Scalar(
            ScalarModel::Int(n),
        )),
        (c matches ChatIdModel::ChannelUsername(u) ==> chat_field_model(c)
            == ValueModel::Scalar(ScalarModel::Str(text_bytes(u)))),
{
}

/// Encodes an assembled method call for the transport layer.
///
/// When no parameter carries raw content the whole payload is one JSON
/// document; otherwise it is a multipart body whose text parts are the JSON
/// members and whose binary parts are the uploads, one per raw attachment.
pub fn encode_payload(p: &Payload) -> (b: Body)
    ensures
        !spec_needs_multipart(p.params@) ==> (b matches Body::Json(j)
            && j@ == ser_top(spec_fields_of(p.params@))),
        spec_needs_multipart(p.params@) ==> (b matches Body::Multipart { fields, parts }
            && fields_model(fields@) == spec_fields_of(p.params@)
            && parts@.map_values(|q: FilePart| q@) == spec_parts_of(p.params@)),
{
    let fields = fields_of(&p.params);
    let parts = parts_of(&p.params);
    proof {
        lemma_parts_empty(p.params@);
    }
    if parts.len() == 0 {
        Body::Json(render_json(&fields))
    } else {
        Body::Multipart { fields, parts }
    }
}

} // verus!
