//! Checks of the response-envelope decoder: typed success, structured API
//! failure, and decode failure, never a silent default.

use botapi::envelope::{decode_envelope, decode_true, ApiError, RequestError};
use botapi::requests::{Bot, SetChatPhoto};
use botapi::types::{ChatId, InputFile};
use botapi::json::{JsonScalar, JsonValue};
use botapi::True;

#[test]
fn ok_true_result_true_yields_the_marker() {
    let r = decode_true(b"{\"ok\":true,\"result\":true}");
    assert_eq!(r, Ok(True));
}

#[test]
fn api_error_exposes_code_and_exact_description() {
    let body = b"{\"ok\":false,\"error_code\":400,\"description\":\"Bad Request: CHAT_NOT_FOUND\"}";
    let r = decode_true(body);
    assert_eq!(
        r,
        Err(RequestError::Api(ApiError {
            error_code: 400,
            description: b"Bad Request: CHAT_NOT_FOUND".to_vec(),
            retry_after: None,
            migrate_to_chat_id: None,
        }))
    );
}

#[test]
fn rate_limit_hint_is_surfaced() {
    let body =
        b"{\"ok\":false,\"error_code\":429,\"description\":\"Too Many Requests: retry after 30\",\"parameters\":{\"retry_after\":30}}";
    match decode_envelope(body) {
        Err(RequestError::Api(e)) => {
            assert_eq!(e.error_code, 429);
            assert_eq!(e.retry_after, Some(30));
            assert_eq!(e.migrate_to_chat_id, None);
        }
        other => panic!("expected an API error, got {:?}", other),
    }
}

#[test]
fn migration_hint_is_surfaced() {
    let body =
        b"{\"ok\":false,\"error_code\":400,\"description\":\"Bad Request: group chat was upgraded\",\"parameters\":{\"migrate_to_chat_id\":-100123}}";
    match decode_envelope(body) {
        Err(RequestError::Api(e)) => {
            assert_eq!(e.migrate_to_chat_id, Some(-100123));
            assert_eq!(e.retry_after, None);
        }
        other => panic!("expected an API error, got {:?}", other),
    }
}

#[test]
fn success_payload_is_returned_verbatim() {
    let body = b"{\"ok\":true,\"result\":\"file_abc\"}";
    let r = decode_envelope(body);
    assert_eq!(r, Ok(JsonValue::Scalar(JsonScalar::Str(b"file_abc".to_vec()))));
}

#[test]
fn malformed_reply_is_a_decode_error() {
    assert_eq!(decode_true(b"not json"), Err(RequestError::Decode));
    assert_eq!(decode_true(b"{\"ok\":true}"), Err(RequestError::Decode));
    assert_eq!(
        decode_true(b"{\"ok\":false,\"description\":\"x\"}"),
        Err(RequestError::Decode)
    );
    assert_eq!(decode_true(b"{\"result\":true}"), Err(RequestError::Decode));
}

#[test]
fn wrong_result_shape_for_marker_is_a_decode_error() {
    assert_eq!(
        decode_true(b"{\"ok\":true,\"result\":false}"),
        Err(RequestError::Decode)
    );
    assert_eq!(
        decode_true(b"{\"ok\":true,\"result\":42}"),
        Err(RequestError::Decode)
    );
}

#[test]
fn builder_decode_follows_the_envelope() {
    let bot = Bot::new("T".to_string());
    let call = SetChatPhoto::new(&bot, ChatId::Id(1), InputFile::FileId("f".to_string()));
    assert_eq!(call.decode(b"{\"ok\":true,\"result\":true}"), Ok(True));
    match call.decode(b"{\"ok\":false,\"error_code\":403,\"description\":\"Forbidden\"}") {
        Err(RequestError::Api(e)) => {
            assert_eq!(e.error_code, 403);
            assert_eq!(e.description, b"Forbidden".to_vec());
        }
        other => panic!("expected an API error, got {:?}", other),
    }
}

#[test]
fn first_member_wins_on_duplicate_names() {
    let body = b"{\"ok\":true,\"ok\":false,\"result\":true}";
    assert_eq!(decode_true(body), Ok(True));
}

#[test]
fn escaped_description_is_unescaped() {
    let body = b"{\"ok\":false,\"error_code\":400,\"description\":\"bad \\\"name\\\"\\nhere\"}";
    match decode_envelope(body) {
        Err(RequestError::Api(e)) => {
            assert_eq!(e.description, b"bad \"name\"\nhere".to_vec());
        }
        other => panic!("expected an API error, got {:?}", other),
    }
}
