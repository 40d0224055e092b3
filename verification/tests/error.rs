use openthread::error::{ot, OtError, OtErrorCodes, OT_ERROR_INVALID_STATE, OT_ERROR_NO_BUFS};

#[test]
fn ot_turns_a_code_into_a_result() {
    assert_eq!(ot(0), Ok(()));
    assert_eq!(ot(3), Err(OtError::new(OT_ERROR_NO_BUFS)));
    assert_eq!(ot(13).unwrap_err().into_inner(), OT_ERROR_INVALID_STATE);
}

#[test]
fn codes_have_their_names() {
    assert_eq!(OtErrorCodes::from(OtError::new(0)), OtErrorCodes::NoError);
    assert_eq!(OtErrorCodes::from(OtError::new(3)), OtErrorCodes::NoBufs);
    assert_eq!(OtErrorCodes::from(OtError::new(7)), OtErrorCodes::InvalidArgs);
    assert_eq!(OtErrorCodes::from(OtError::new(13)), OtErrorCodes::InvalidState);
    assert_eq!(OtErrorCodes::from(OtError::new(24)), OtErrorCodes::Already);
    assert_eq!(OtErrorCodes::from(OtError::new(26)), OtErrorCodes::Ip6AddressCreationFailure);
    assert_eq!(OtErrorCodes::from(OtError::new(37)), OtErrorCodes::Rejected);
    assert_eq!(OtErrorCodes::from(OtError::new(255)), OtErrorCodes::Generic);
}

#[test]
fn codes_without_a_name_are_generic() {
    assert_eq!(OtErrorCodes::from(OtError::new(25)), OtErrorCodes::Generic);
    assert_eq!(OtErrorCodes::from(OtError::new(33)), OtErrorCodes::Generic);
    assert_eq!(OtErrorCodes::from(OtError::new(38)), OtErrorCodes::Generic);
    assert_eq!(OtErrorCodes::from(OtError::new(1000)), OtErrorCodes::Generic);
}

#[test]
fn codes_have_their_numbers() {
    assert_eq!(OtErrorCodes::NoError.code(), 0);
    assert_eq!(OtErrorCodes::Already.code(), 24);
    assert_eq!(OtErrorCodes::Ip6AddressCreationFailure.code(), 26);
    assert_eq!(OtErrorCodes::LinkMarginLow.code(), 34);
    assert_eq!(OtErrorCodes::NumErrors.code(), 38);
    assert_eq!(OtErrorCodes::Generic.code(), 255);
}

#[test]
fn codes_render_as_name_and_description() {
    assert_eq!(OtErrorCodes::NoError.to_string(), "None (No error.)");
    assert_eq!(OtErrorCodes::NoBufs.to_string(), "NoBufs (Insufficient buffers.)");
    assert_eq!(
        OtErrorCodes::ChannelAccessFailure.to_string(),
        "ChannelAccessFailure (CSMA-CA mechanism has failed.)"
    );
    assert_eq!(OtErrorCodes::NumErrors.to_string(), "NumErrors (The number of defined errors.)");
}
