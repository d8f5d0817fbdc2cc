use epiphyte::requests::{MultiPayload, MultiPayloadRejection};

#[test]
fn empty_body_is_signal() {
    assert!(matches!(MultiPayload::from_body(&vec![]), Ok(MultiPayload::Signal)));
}

#[test]
fn json_message_is_text() {
    match MultiPayload::from_body(&br#"{"message":"World"}"#.to_vec()) {
        Ok(MultiPayload::Text(t)) => assert_eq!(t.message, "World"),
        _ => panic!("expected a text payload"),
    }
}

#[test]
fn other_body_is_rejected() {
    for body in [&b"hello"[..], br#"{"msg":"x"}"#, br#"{"message":3}"#] {
        match MultiPayload::from_body(&body.to_vec()) {
            Err(e) => assert_eq!(e.message(), "Request payload didn't match any known format"),
            Ok(_) => panic!("expected a rejection"),
        }
    }
}

#[test]
fn rejection_response_text() {
    let r = MultiPayloadRejection("broken".to_string());
    assert_eq!(r.response_text(), "Invalid or unreadable body: broken");
}

#[test]
fn payload_gives_argument() {
    let p = MultiPayload::from_body(&br#"{"message":"x"}"#.to_vec()).unwrap();
    assert_eq!(p.into_argument().as_deref(), Some("x"));
    assert_eq!(MultiPayload::Signal.into_argument(), None);
}
