//! End-to-end checks of the wire contract: builders, serialization,
//! transport selection, and the round trip through the crate's own parser.

use botapi::json::{render_json, render_value, JsonEntry, JsonField, JsonScalar, JsonValue};
use botapi::parser::parse_document;
use botapi::payload::{encode_payload, Body, FileContent, Param, ParamValue, Payload};
use botapi::requests::{method_url, Bot, SendMessage, SetChatPhoto};
use botapi::types::{ChatId, InputFile};

fn json_bytes(b: Body) -> Vec<u8> {
    match b {
        Body::Json(j) => j,
        Body::Multipart { .. } => panic!("expected plain JSON transport"),
    }
}

#[test]
fn required_fields_only_when_no_optional_set() {
    let bot = Bot::new("TOKEN".to_string());
    let m = SendMessage::new(&bot, ChatId::Id(123), "hi".to_string());
    let (_, body) = m.prepare("https://api.example.org");
    assert_eq!(json_bytes(body), b"{\"chat_id\":123,\"text\":\"hi\"}".to_vec());
}

#[test]
fn set_optional_equal_to_default_is_still_emitted() {
    let bot = Bot::new("TOKEN".to_string());
    let m = SendMessage::new(&bot, ChatId::Id(5), "x".to_string()).disable_notification(false);
    let (_, body) = m.prepare("https://api.example.org");
    assert_eq!(
        json_bytes(body),
        b"{\"chat_id\":5,\"text\":\"x\",\"disable_notification\":false}".to_vec()
    );
}

#[test]
fn set_both_optionals_in_wire_order() {
    let bot = Bot::new("TOKEN".to_string());
    let m = SendMessage::new(&bot, ChatId::Id(5), "x".to_string())
        .disable_notification(true)
        .reply_to_message_id(77);
    let (_, body) = m.prepare("https://api.example.org");
    assert_eq!(
        json_bytes(body),
        b"{\"chat_id\":5,\"text\":\"x\",\"disable_notification\":true,\"reply_to_message_id\":77}"
            .to_vec()
    );
}

#[test]
fn integer_identifier_is_a_bare_number() {
    let bot = Bot::new("TOKEN".to_string());
    let m = SendMessage::new(&bot, ChatId::Id(-42), "y".to_string());
    let (_, body) = m.prepare("https://api.example.org");
    assert_eq!(json_bytes(body), b"{\"chat_id\":-42,\"text\":\"y\"}".to_vec());
}

#[test]
fn username_identifier_is_the_exact_string() {
    let bot = Bot::new("TOKEN".to_string());
    let m = SendMessage::new(
        &bot,
        ChatId::ChannelUsername("@channelname".to_string()),
        "y".to_string(),
    );
    let (_, body) = m.prepare("https://api.example.org");
    assert_eq!(
        json_bytes(body),
        b"{\"chat_id\":\"@channelname\",\"text\":\"y\"}".to_vec()
    );
}

#[test]
fn fluent_setters_last_write_wins() {
    let bot = Bot::new("TOKEN".to_string());
    let m = SendMessage::new(&bot, ChatId::Id(1), "a".to_string())
        .chat_id(ChatId::Id(2))
        .text("b".to_string());
    let (_, body) = m.prepare("https://api.example.org");
    assert_eq!(json_bytes(body), b"{\"chat_id\":2,\"text\":\"b\"}".to_vec());
}

#[test]
fn set_chat_photo_local_file_uses_multipart() {
    let bot = Bot::new("TOKEN".to_string());
    let call = SetChatPhoto::new(
        &bot,
        ChatId::Id(123456),
        InputFile::File("photo.jpg".to_string()),
    );
    let (url, body) = call.prepare("https://api.example.org");
    assert_eq!(url, "https://api.example.org/botTOKEN/setChatPhoto");
    match body {
        Body::Multipart { fields, parts } => {
            assert_eq!(fields.len(), 2);
            assert_eq!(fields[0].name, b"chat_id".to_vec());
            assert_eq!(fields[0].value, JsonValue::Scalar(JsonScalar::Int(123456)));
            assert_eq!(fields[1].name, b"photo".to_vec());
            assert_eq!(
                fields[1].value,
                JsonValue::Scalar(JsonScalar::Str(b"attach://photo".to_vec()))
            );
            assert_eq!(parts.len(), 1);
            assert_eq!(parts[0].name, b"photo".to_vec());
            assert_eq!(parts[0].file_name, "photo.jpg");
            assert_eq!(
                parts[0].content,
                FileContent::LocalPath("photo.jpg".to_string())
            );
        }
        Body::Json(_) => panic!("a local file must force multipart transport"),
    }
}

#[test]
fn raw_bytes_attachment_one_binary_part_per_attachment() {
    let bot = Bot::new("T".to_string());
    let call = SetChatPhoto::new(
        &bot,
        ChatId::Id(9),
        InputFile::Memory {
            file_name: "pic.png".to_string(),
            data: vec![1, 2, 3],
        },
    );
    let (_, body) = call.prepare("https://api.example.org");
    match body {
        Body::Multipart { fields, parts } => {
            assert_eq!(parts.len(), 1);
            assert_eq!(parts[0].name, b"photo".to_vec());
            assert_eq!(parts[0].file_name, "pic.png");
            assert_eq!(parts[0].content, FileContent::Bytes(vec![1, 2, 3]));
            assert_eq!(
                fields[1].value,
                JsonValue::Scalar(JsonScalar::Str(b"attach://photo".to_vec()))
            );
        }
        Body::Json(_) => panic!("raw bytes must force multipart transport"),
    }
}

#[test]
fn file_id_attachment_uses_plain_json() {
    let bot = Bot::new("T".to_string());
    let call = SetChatPhoto::new(&bot, ChatId::Id(9), InputFile::FileId("AgACAg".to_string()));
    let (_, body) = call.prepare("https://api.example.org");
    assert_eq!(
        json_bytes(body),
        b"{\"chat_id\":9,\"photo\":\"AgACAg\"}".to_vec()
    );
}

#[test]
fn url_attachment_uses_plain_json() {
    let bot = Bot::new("T".to_string());
    let call = SetChatPhoto::new(
        &bot,
        ChatId::Id(9),
        InputFile::Url("https://example.org/a.png".to_string()),
    );
    let (_, body) = call.prepare("https://api.example.org");
    assert_eq!(
        json_bytes(body),
        b"{\"chat_id\":9,\"photo\":\"https://example.org/a.png\"}".to_vec()
    );
}

#[test]
fn identifier_conversions_pick_the_matching_variant() {
    assert_eq!(ChatId::from(123456i64), ChatId::Id(123456));
    assert_eq!(
        ChatId::from("@somewhere".to_string()),
        ChatId::ChannelUsername("@somewhere".to_string())
    );
}

#[test]
fn method_url_embeds_token_and_method() {
    let u = method_url("https://api.example.org", "123:abc", "sendMessage");
    assert_eq!(u, "https://api.example.org/bot123:abc/sendMessage");
}

#[test]
fn needs_upload_by_variant() {
    assert!(InputFile::File("p".to_string()).needs_upload());
    assert!(InputFile::Memory {
        file_name: "f".to_string(),
        data: vec![]
    }
    .needs_upload());
    assert!(!InputFile::Url("u".to_string()).needs_upload());
    assert!(!InputFile::FileId("i".to_string()).needs_upload());
}

#[test]
fn round_trip_recovers_present_fields() {
    let fields = vec![
        JsonField {
            name: b"chat_id".to_vec(),
            value: JsonValue::Scalar(JsonScalar::Int(-77)),
        },
        JsonField {
            name: b"text".to_vec(),
            value: JsonValue::Scalar(JsonScalar::Str(b"hello world".to_vec())),
        },
        JsonField {
            name: b"silent".to_vec(),
            value: JsonValue::Scalar(JsonScalar::Bool(true)),
        },
        JsonField {
            name: b"parameters".to_vec(),
            value: JsonValue::Object(vec![JsonEntry {
                name: b"retry_after".to_vec(),
                value: JsonScalar::Int(30),
            }]),
        },
    ];
    let bytes = render_json(&fields);
    let back = parse_document(&bytes).expect("own output must parse");
    assert_eq!(back, fields);
}

#[test]
fn round_trip_with_escaped_text() {
    let fields = vec![JsonField {
        name: b"text".to_vec(),
        value: JsonValue::Scalar(JsonScalar::Str(b"a\"b\\c\nd\te\rf".to_vec())),
    }];
    let bytes = render_json(&fields);
    assert_eq!(bytes, b"{\"text\":\"a\\\"b\\\\c\\nd\\te\\rf\"}".to_vec());
    let back = parse_document(&bytes).expect("escaped text must parse");
    assert_eq!(back, fields);
}

#[test]
fn round_trip_extreme_integers() {
    let fields = vec![
        JsonField {
            name: b"lo".to_vec(),
            value: JsonValue::Scalar(JsonScalar::Int(i64::MIN)),
        },
        JsonField {
            name: b"hi".to_vec(),
            value: JsonValue::Scalar(JsonScalar::Int(i64::MAX)),
        },
    ];
    let bytes = render_json(&fields);
    assert_eq!(
        bytes,
        b"{\"lo\":-9223372036854775808,\"hi\":9223372036854775807}".to_vec()
    );
    let back = parse_document(&bytes).expect("extreme integers must parse");
    assert_eq!(back, fields);
}

#[test]
fn round_trip_empty_payload() {
    let fields: Vec<JsonField> = vec![];
    let bytes = render_json(&fields);
    assert_eq!(bytes, b"{}".to_vec());
    let back = parse_document(&bytes).expect("the empty object must parse");
    assert_eq!(back, fields);
}

#[test]
fn parser_rejects_trailing_bytes() {
    assert!(parse_document(b"{\"a\":1}x").is_none());
    assert!(parse_document(b"").is_none());
    assert!(parse_document(b"[1]").is_none());
    assert!(parse_document(b"{\"a\":}").is_none());
}

#[test]
fn render_value_emits_the_member_value_alone() {
    let v = JsonValue::Scalar(JsonScalar::Str(b"@name".to_vec()));
    assert_eq!(render_value(&v), b"\"@name\"".to_vec());
    let n = JsonValue::Scalar(JsonScalar::Int(123456));
    assert_eq!(render_value(&n), b"123456".to_vec());
}

#[test]
fn encode_payload_directly_selects_transport() {
    let p = Payload {
        method: "sendMessage".to_string(),
        params: vec![Param {
            name: "chat_id".to_string(),
            value: ParamValue::Id(ChatId::Id(1)),
        }],
    };
    match encode_payload(&p) {
        Body::Json(j) => assert_eq!(j, b"{\"chat_id\":1}".to_vec()),
        Body::Multipart { .. } => panic!("no attachment, so no multipart"),
    }
}
