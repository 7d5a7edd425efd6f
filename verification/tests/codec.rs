use puchi_sekai::codec::{decode, encode};
use puchi_sekai::event::{DecodeError, IPCEvent};

#[test]
fn encode_main_toggle_exact() {
    let s = encode(&IPCEvent::MainToggle);
    assert_eq!(s, "{\"type\":\"mainToggle\"}");
}

#[test]
fn encode_open_modal_exact() {
    let s = encode(&IPCEvent::OpenModal);
    assert_eq!(s, "{\"type\":\"openModal\"}");
}

#[test]
fn encode_chat_exact() {
    let s = encode(&IPCEvent::Chat { message: String::from("hello") });
    assert_eq!(s, "{\"type\":\"chat\",\"message\":\"hello\"}");
}

#[test]
fn encode_chat_escapes_exact() {
    let s = encode(&IPCEvent::Chat { message: String::from("a\"b\\c\nd\re\tf") });
    assert_eq!(s, "{\"type\":\"chat\",\"message\":\"a\\\"b\\\\c\\nd\\re\\tf\"}");
}

#[test]
fn round_trip_main_toggle() {
    let s = encode(&IPCEvent::MainToggle);
    assert!(matches!(decode(&s), Ok(IPCEvent::MainToggle)));
}

#[test]
fn round_trip_open_modal() {
    let s = encode(&IPCEvent::OpenModal);
    assert!(matches!(decode(&s), Ok(IPCEvent::OpenModal)));
}

#[test]
fn round_trip_chat_plain() {
    let s = encode(&IPCEvent::Chat { message: String::from("how are you?") });
    match decode(&s) {
        Ok(IPCEvent::Chat { message }) => assert_eq!(message, "how are you?"),
        _ => panic!("expected the chat event back"),
    }
}

#[test]
fn round_trip_chat_escapes() {
    let text = "quote \" backslash \\ newline \n return \r tab \t done";
    let s = encode(&IPCEvent::Chat { message: String::from(text) });
    match decode(&s) {
        Ok(IPCEvent::Chat { message }) => assert_eq!(message, text),
        _ => panic!("expected the chat event back"),
    }
}

#[test]
fn round_trip_chat_unicode() {
    let text = "héllo wörld — ありがとう";
    let s = encode(&IPCEvent::Chat { message: String::from(text) });
    match decode(&s) {
        Ok(IPCEvent::Chat { message }) => assert_eq!(message, text),
        _ => panic!("expected the chat event back"),
    }
}

#[test]
fn round_trip_chat_empty_message() {
    let s = encode(&IPCEvent::Chat { message: String::new() });
    assert_eq!(s, "{\"type\":\"chat\",\"message\":\"\"}");
    match decode(&s) {
        Ok(IPCEvent::Chat { message }) => assert_eq!(message, ""),
        _ => panic!("expected the chat event back"),
    }
}

#[test]
fn unknown_tag_rejected() {
    assert!(matches!(decode("{\"type\":\"bogus\"}"), Err(DecodeError::UnknownVariant)));
}

#[test]
fn unknown_tag_rejected_whatever_follows() {
    assert!(matches!(decode("{\"type\":\"shutDown\",\"force\":true}"), Err(DecodeError::UnknownVariant)));
    assert!(matches!(decode("{\"type\":\"\"}"), Err(DecodeError::UnknownVariant)));
}

#[test]
fn tag_case_matters() {
    assert!(matches!(decode("{\"type\":\"maintoggle\"}"), Err(DecodeError::UnknownVariant)));
}

#[test]
fn malformed_not_an_object() {
    assert!(matches!(decode("mainToggle"), Err(DecodeError::MalformedPayload)));
    assert!(matches!(decode(""), Err(DecodeError::MalformedPayload)));
    assert!(matches!(decode("[1,2,3]"), Err(DecodeError::MalformedPayload)));
}

#[test]
fn malformed_unterminated() {
    assert!(matches!(decode("{\"type\":\"mainToggle\""), Err(DecodeError::MalformedPayload)));
    assert!(matches!(decode("{\"type\":\"mainToggle"), Err(DecodeError::MalformedPayload)));
    assert!(matches!(decode("{\"type\":\"chat\",\"message\":\"hi"), Err(DecodeError::MalformedPayload)));
}

#[test]
fn malformed_trailing_garbage() {
    assert!(matches!(decode("{\"type\":\"mainToggle\"} "), Err(DecodeError::MalformedPayload)));
    assert!(matches!(decode("{\"type\":\"chat\",\"message\":\"hi\"}x"), Err(DecodeError::MalformedPayload)));
}

#[test]
fn malformed_chat_missing_message() {
    assert!(matches!(decode("{\"type\":\"chat\"}"), Err(DecodeError::MalformedPayload)));
    assert!(matches!(decode("{\"type\":\"chat\",\"text\":\"hi\"}"), Err(DecodeError::MalformedPayload)));
}

#[test]
fn malformed_bad_escape() {
    assert!(matches!(decode("{\"type\":\"chat\",\"message\":\"a\\qb\"}"), Err(DecodeError::MalformedPayload)));
}
