//! Request builders: one value per intended remote call.
//!
//! A builder takes the agent handle and every required parameter at
//! construction; optional parameters default to absent and are set through
//! fluent setters that return the builder by value.  A builder performs no
//! network work: `payload` assembles the named parameters in the order the
//! wire contract expects, leaving every absent optional parameter out, and
//! `prepare` encodes them and builds the method URL for the transport layer.

use vstd::prelude::*;
use crate::types::{ChatId, InputFile};
use crate::json::{FieldModel, ValueModel, ScalarModel, fields_model, ser_top};
use crate::payload::{
    Param, ParamValue, Payload, Body, FilePart, PartModel,
    chat_field_model, attach_field_model, attach_part_model, text_bytes,
    spec_fields_of, spec_parts_of, spec_needs_multipart, spec_field_of,
    spec_is_upload, spec_part_of, encode_payload,
};
use crate::envelope::{decode_true, spec_decode_envelope, DecodedModel, RequestError};
use crate::True;
use vstd::string::StringExecFns;

verus! {

/// The long-lived agent handle: the API token shared by every request.
///
/// The underlying HTTP client stays outside this library; the transport
/// layer owns it and receives the prepared URL and body.
#[derive(Debug, PartialEq, Eq)]
pub struct Bot {
    token: String,
}

impl View for Bot {
    type V = Seq<char>;

    closed spec fn view(&self) -> Seq<char> {
        self.token@
    }
}

impl Clone for Bot {
    fn clone(&self) -> (r: Bot)
        ensures
            r@ == self@,
    {
        Bot { token: self.token.clone() }
    }
}

impl Bot {
    /// Creates the agent handle holding the API token.
    pub fn new(token: String) -> (r: Bot)
        ensures
            r@ == token@,
    {
        Bot { token }
    }

    /// The token, as embedded into the request URL.
    pub fn token(&self) -> (r: &String)
        ensures
            r@ == self@,
    {
        &self.token
    }
}

/// The fully qualified URL of one method call:
/// `<base>/bot<token>/<MethodName>`.
pub fn method_url(base: &str, token: &str, method: &str) -> (u: String)
    ensures
        u@ == base@ + "/bot"@ + token@ + "/"@ + method@,
{
    let mut u = String::from_str(base);
    u.append("/bot");
    u.append(token);
    u.append("/");
    u.append(method);
    u
}

// ---------------------------------------------------------------------------
// setChatPhoto
// ---------------------------------------------------------------------------

/// Sets a new profile photo for a chat.  Photos cannot be changed for
/// private chats; the bot must be an administrator in the chat and have the
/// appropriate admin rights.
#[derive(Clone, Debug, PartialEq, Eq)]
pub struct SetChatPhoto {
    pub bot: Bot,
    pub chat_id: ChatId,
    pub photo: InputFile,
}

impl SetChatPhoto {
    /// The JSON members this call serializes to: its two required
    /// parameters, nothing else, in wire order.
    pub open spec fn wire_fields(&self) -> Seq<FieldModel> {
        seq![
            FieldModel {
                name: text_bytes("chat_id"@),
                value: chat_field_model(self.chat_id@),
            },
            FieldModel {
                name: text_bytes("photo"@),
                value: attach_field_model(self.photo@, text_bytes("photo"@)),
            },
        ]
    }

    /// The binary parts this call uploads: the photo exactly when it
    /// carries raw content.
    pub open spec fn wire_parts(&self) -> Seq<PartModel> {
        if self.photo@.needs_upload() {
            seq![attach_part_model(self.photo@, text_bytes("photo"@))]
        } else {
            Seq::empty()
        }
    }

    pub fn new(bot: &Bot, chat_id: ChatId, photo: InputFile) -> (r: SetChatPhoto)
        ensures
            r.bot@ == bot@,
            r.chat_id == chat_id,
            r.photo == photo,
    {
        SetChatPhoto { bot: bot.clone(), chat_id, photo }
    }

    /// Unique identifier for the target chat or username of the target
    /// channel (in the format `@channelusername`).
    pub fn chat_id(self, val: ChatId) -> (r: SetChatPhoto)
        ensures
            r.chat_id == val,
            r.photo == self.photo,
            r.bot@ == self.bot@,
    {
        SetChatPhoto { chat_id: val, ..self }
    }

    /// New chat photo, uploaded via multipart transport when it carries raw
    /// content.
    pub fn photo(self, val: InputFile) -> (r: SetChatPhoto)
        ensures
            r.photo == val,
            r.chat_id == self.chat_id,
            r.bot@ == self.bot@,
    {
        SetChatPhoto { photo: val, ..self }
    }

    /// Assembles the method call: `setChatPhoto` with `chat_id` and
    /// `photo`, both required, no optional parameter.
    pub fn payload(&self) -> (p: Payload)
        ensures
            p.method@ == "setChatPhoto"@,
            spec_fields_of(p.params@) == self.wire_fields(),
            spec_parts_of(p.params@) == self.wire_parts(),
            spec_needs_multipart(p.params@) == self.photo@.needs_upload(),
    {
        let mut params: Vec<Param> = Vec::new();
        params.push(Param {
            name: String::from_str("chat_id"),
            value: ParamValue::Id(self.chat_id.clone()),
        });
        params.push(Param {
            name: String::from_str("photo"),
            value: ParamValue::Attach(self.photo.clone()),
        });
        proof {
            let ps = params@;
            assert(ps.len() == 2);
            assert(spec_fields_of(ps).len() == 2);
            assert(spec_fields_of(ps)[0] == spec_field_of(ps[0]));
            assert(spec_fields_of(ps)[1] == spec_field_of(ps[1]));
            assert(spec_fields_of(ps) =~= self.wire_fields());
            assert(ps.drop_first() =~= seq![ps[1]]);
            assert(seq![ps[1]].drop_first() =~= Seq::<Param>::empty());
            assert(seq![ps[1]][0] == ps[1]);
            assert(!spec_is_upload(ps[0].value));
            assert(spec_is_upload(ps[1].value) == self.photo@.needs_upload());
            assert(spec_parts_of(Seq::<Param>::empty()) =~= Seq::<PartModel>::empty());
            assert(spec_parts_of(seq![ps[1]]) =~= (if spec_is_upload(ps[1].value) {
                seq![spec_part_of(ps[1])]
            } else {
                Seq::<PartModel>::empty()
            }));
            assert(spec_parts_of(ps) =~= self.wire_parts());
            if self.photo@.needs_upload() {
                assert(spec_is_upload(ps[1].value));
                assert(spec_needs_multipart(ps));
            }
            if spec_needs_multipart(ps) {
                let i = choose|i: int| 0 <= i < ps.len() && spec_is_upload(ps[i].value);
                assert(i == 1);
                assert(self.photo@.needs_upload());
            }
        }
        Payload { method: String::from_str("setChatPhoto"), params }
    }

    /// Decodes the reply to this method: its declared payload is the
    /// no-content success marker, so `result` must be the boolean `true`.
    pub fn decode(&self, body: &[u8]) -> (r: Result<True, RequestError>)
        ensures
            (r matches Ok(t) ==> spec_decode_envelope(body@) == DecodedModel::Success(
                ValueModel::Scalar(ScalarModel::Bool(true)),
            )),
            (r matches Err(e) ==> match e {
                RequestError::Api(a) => spec_decode_envelope(body@) == DecodedModel::Failure(a@),
                RequestError::Decode => spec_decode_envelope(body@) == DecodedModel::Malformed
                    || (spec_decode_envelope(body@) matches DecodedModel::Success(v)
                        && v != ValueModel::Scalar(ScalarModel::Bool(true))),
                RequestError::Network(_) => false,
            }),
    {
        decode_true(body)
    }

    /// The verified half of dispatch: the method URL and the encoded body.
    ///
    /// The transport layer performs the single HTTPS POST with exactly
    /// these; multipart is chosen exactly when the photo carries raw
    /// content.
    pub fn prepare(&self, base: &str) -> (r: (String, Body))
        ensures
            r.0@ == base@ + "/bot"@ + self.bot@ + "/"@ + "setChatPhoto"@,
            !self.photo@.needs_upload() ==> (r.1 matches Body::Json(j)
                && j@ == ser_top(self.wire_fields())),
            self.photo@.needs_upload() ==> (r.1 matches Body::Multipart { fields, parts }
                && fields_model(fields@) == self.wire_fields()
                && parts@.map_values(|q: FilePart| q@) == self.wire_parts()),
    {
        let p = self.payload();
        let url = method_url(base, self.bot.token().as_str(), "setChatPhoto");
        let body = encode_payload(&p);
        (url, body)
    }
}

// ---------------------------------------------------------------------------
// sendMessage
// ---------------------------------------------------------------------------

/// Sends a text message.  `chat_id` and `text` are required; the two
/// optional parameters stay absent until their setters run, and an absent
/// one is omitted from the wire entirely.
#[derive(Clone, Debug, PartialEq, Eq)]
pub struct SendMessage {
    pub bot: Bot,
    pub chat_id: ChatId,
    pub text: String,
    pub disable_notification: Option<bool>,
    pub reply_to_message_id: Option<i64>,
}

impl SendMessage {
    /// The JSON members this call serializes to: the required parameters,
    /// then each optional one that was set, with the exact value given.
    pub open spec fn wire_fields(&self) -> Seq<FieldModel> {
        seq![
            FieldModel {
                name: text_bytes("chat_id"@),
                value: chat_field_model(self.chat_id@),
            },
            FieldModel {
                name: text_bytes("text"@),
                value: ValueModel::Scalar(ScalarModel::Str(text_bytes(self.text@))),
            },
        ] + (match self.disable_notification {
            Some(b) => seq![
                FieldModel {
                    name: text_bytes("disable_notification"@),
                    value: ValueModel::Scalar(ScalarModel::Bool(b)),
                },
            ],
            None => Seq::empty(),
        }) + (match self.reply_to_message_id {
            Some(n) => seq![
                FieldModel {
                    name: text_bytes("reply_to_message_id"@),
                    value: ValueModel::Scalar(ScalarModel::Int(n as int)),
                },
            ],
            None => Seq::empty(),
        })
    }

    pub fn new(bot: &Bot, chat_id: ChatId, text: String) -> (r: SendMessage)
        ensures
            r.bot@ == bot@,
            r.chat_id == chat_id,
            r.text == text,
            r.disable_notification is None,
            r.reply_to_message_id is None,
    {
        SendMessage {
            bot: bot.clone(),
            chat_id,
            text,
            disable_notification: None,
            reply_to_message_id: None,
        }
    }

    /// Unique identifier for the target chat or username of the target
    /// channel (in the format `@channelusername`).
    pub fn chat_id(self, val: ChatId) -> (r: SendMessage)
        ensures
            r.chat_id == val,
            r.text == self.text,
            r.disable_notification == self.disable_notification,
            r.reply_to_message_id == self.reply_to_message_id,
            r.bot@ == self.bot@,
    {
        SendMessage { chat_id: val, ..self }
    }

    /// Text of the message to be sent.
    pub fn text(self, val: String) -> (r: SendMessage)
        ensures
            r.text == val,
            r.chat_id == self.chat_id,
            r.disable_notification == self.disable_notification,
            r.reply_to_message_id == self.reply_to_message_id,
            r.bot@ == self.bot@,
    {
        SendMessage { text: val, ..self }
    }

    /// Sends the message silently; users receive a notification with no
    /// sound.  Setting the value emits it even when it equals the default.
    pub fn disable_notification(self, val: bool) -> (r: SendMessage)
        ensures
            r.disable_notification == Some(val),
            r.chat_id == self.chat_id,
            r.text == self.text,
            r.reply_to_message_id == self.reply_to_message_id,
            r.bot@ == self.bot@,
    {
        SendMessage { disable_notification: Some(val), ..self }
    }

    /// Identifier of the message replied to.  Setting the value emits it
    /// even when it equals the default.
    pub fn reply_to_message_id(self, val: i64) -> (r: SendMessage)
        ensures
            r.reply_to_message_id == Some(val),
            r.chat_id == self.chat_id,
            r.text == self.text,
            r.disable_notification == self.disable_notification,
            r.bot@ == self.bot@,
    {
        SendMessage { reply_to_message_id: Some(val), ..self }
    }

    /// Assembles the method call: `sendMessage` with the required
    /// parameters and exactly the optional ones that were set, in wire
    /// order.  Nothing here ever uploads, so transport is plain JSON.
    pub fn payload(&self) -> (p: Payload)
        ensures
            p.method@ == "sendMessage"@,
            spec_fields_of(p.params@) == self.wire_fields(),
            spec_parts_of(p.params@) == Seq::<PartModel>::empty(),
            !spec_needs_multipart(p.params@),
    {
        let mut params: Vec<Param> = Vec::new();
        params.push(Param {
            name: String::from_str("chat_id"),
            value: ParamValue::Id(self.chat_id.clone()),
        });
        params.push(Param {
            name: String::from_str("text"),
            value: ParamValue::Text(self.text.clone()),
        });
        if let Some(b) = self.disable_notification {
            params.push(Param {
                name: String::from_str("disable_notification"),
                value: ParamValue::Flag(b),
            });
        }
        if let Some(n) = self.reply_to_message_id {
            params.push(Param {
                name: String::from_str("reply_to_message_id"),
                value: ParamValue::Integer(n),
            });
        }
        proof {
            let ps = params@;
            assert(forall|i: int| 0 <= i < ps.len() ==> spec_fields_of(ps)[i] == spec_field_of(#[trigger] ps[i]));
            assert(spec_fields_of(ps) =~= self.wire_fields());
            assert(forall|i: int| 0 <= i < ps.len() ==> !spec_is_upload(#[trigger] ps[i].value));
            crate::payload::lemma_no_upload_no_parts(ps);
        }
        Payload { method: String::from_str("sendMessage"), params }
    }

    /// Law: with no optional parameter set, the serialized members are
    /// exactly the required ones — an absent optional is omitted entirely,
    /// never emitted as null.
    pub proof fn lemma_unset_optionals_omitted(self)
        requires
            self.disable_notification is None,
            self.reply_to_message_id is None,
        ensures
            self.wire_fields() == seq![
                FieldModel {
                    name: text_bytes("chat_id"@),
                    value: chat_field_model(self.chat_id@),
                },
                FieldModel {
                    name: text_bytes("text"@),
                    value: ValueModel::Scalar(ScalarModel::Str(text_bytes(self.text@))),
                },
            ],
    {
        assert(self.wire_fields() =~= seq![
            FieldModel { name: text_bytes("chat_id"@), value: chat_field_model(self.chat_id@) },
            FieldModel {
                name: text_bytes("text"@),
                value: ValueModel::Scalar(ScalarModel::Str(text_bytes(self.text@))),
            },
        ]);
    }

    /// Law: an optional parameter that was set is serialized with the
    /// exact value given, even when that value equals the type's default.
    pub proof fn lemma_set_optional_emitted(self, b: bool)
        requires
            self.disable_notification == Some(b),
        ensures
            self.wire_fields().len() > 2,
            self.wire_fields()[2] == (FieldModel {
                name: text_bytes("disable_notification"@),
                value: ValueModel::Scalar(ScalarModel::Bool(b)),
            }),
    {
    }

    /// Law: the other optional parameter behaves the same way: once set it
    /// is emitted with the exact value given, as the last member.
    pub proof fn lemma_set_reply_emitted(self, n: i64)
        requires
            self.reply_to_message_id == Some(n),
        ensures
            self.wire_fields().last() == (FieldModel {
                name: text_bytes("reply_to_message_id"@),
                value: ValueModel::Scalar(ScalarModel::Int(n as int)),
            }),
    {
    }

    /// The verified half of dispatch: the method URL and the encoded body,
    /// always a single JSON document for this method.
    pub fn prepare(&self, base: &str) -> (r: (String, Body))
        ensures
            r.0@ == base@ + "/bot"@ + self.bot@ + "/"@ + "sendMessage"@,
            r.1 matches Body::Json(j) && j@ == ser_top(self.wire_fields()),
    {
        let p = self.payload();
        let url = method_url(base, self.bot.token().as_str(), "sendMessage");
        let body = encode_payload(&p);
        (url, body)
    }
}

} // verus!
