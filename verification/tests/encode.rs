use word_of_wisdom::{ErrorKind, Request, Response, Secret, Serializer, WordOfWisdom};

fn requests() -> Vec<Request> {
    let tokens = [0u128, u128::MAX, 1, 0x0102_0304_0506_0708_090A_0B0C_0D0E_0F10];
    let nonces = [0u64, u64::MAX, 1, 0x8000_0000_0000_0000];
    let mut all = Vec::new();
    for token in tokens {
        all.push(Request::Challenge { token });
        for result in nonces {
            all.push(Request::WordOfWisdom { token, result });
        }
    }
    all
}

fn responses() -> Vec<Response> {
    let mut all = Vec::new();
    for value in [0u128, u128::MAX, 42] {
        all.push(Response::Challenge { secret: Secret { value } });
    }
    for text in ["", "a", "Never break your promises.", "na\u{EF}ve \u{2014} \u{1F600}", "\u{0}"] {
        all.push(Response::WordOfWisdom {
            word_of_wisdom: WordOfWisdom::Result { result: text.to_string() },
        });
    }
    all.push(Response::WordOfWisdom { word_of_wisdom: WordOfWisdom::Fail });
    all
}

#[test]
fn every_request_comes_back_from_its_encoding() {
    for request in requests() {
        let data = Serializer::serialize(&request);
        assert_eq!(Serializer::deserialize::<Request>(&data), Ok(request));
    }
}

#[test]
fn every_response_comes_back_from_its_encoding() {
    for response in responses() {
        let data = Serializer::serialize(&response);
        assert_eq!(Serializer::deserialize::<Response>(&data), Ok(response));
    }
}

#[test]
fn every_secret_comes_back_from_its_encoding() {
    for value in [0u128, u128::MAX, 7, 1 << 127] {
        let secret = Secret { value };
        let data = Serializer::serialize(&secret);
        assert_eq!(Serializer::deserialize::<Secret>(&data), Ok(secret));
    }
}

#[test]
fn every_outcome_comes_back_from_its_encoding() {
    let outcomes = [
        WordOfWisdom::Fail,
        WordOfWisdom::Result { result: String::new() },
        WordOfWisdom::Result { result: "Happiness is a choice.".to_string() },
    ];
    for outcome in outcomes {
        let data = Serializer::serialize(&outcome);
        assert_eq!(Serializer::deserialize::<WordOfWisdom>(&data), Ok(outcome));
    }
}

#[test]
fn a_challenge_request_is_a_tag_and_the_token() {
    let request = Request::Challenge { token: 0x0102_0304_0506_0708_090A_0B0C_0D0E_0F10 };
    let mut expected = vec![0x01];
    expected.extend(1u8..=16);
    assert_eq!(Serializer::serialize(&request), expected);
}

#[test]
fn a_submission_is_a_tag_the_token_and_the_nonce() {
    let request = Request::WordOfWisdom { token: u128::MAX, result: 0x0102_0304_0506_0708 };
    let mut expected = vec![0x02];
    expected.extend_from_slice(&[0xFF; 16]);
    expected.extend(1u8..=8);
    assert_eq!(Serializer::serialize(&request), expected);
}

#[test]
fn a_challenge_response_is_a_tag_and_the_secret() {
    let response = Response::Challenge { secret: Secret { value: 1 } };
    let mut expected = vec![0x11];
    expected.extend_from_slice(&[0; 15]);
    expected.push(1);
    assert_eq!(Serializer::serialize(&response), expected);
}

#[test]
fn an_outcome_response_is_two_tags_and_the_quote() {
    let accepted = Response::WordOfWisdom {
        word_of_wisdom: WordOfWisdom::Result { result: "Hi\u{E9}".to_string() },
    };
    assert_eq!(Serializer::serialize(&accepted), vec![0x12, 0x21, 0x48, 0x69, 0xC3, 0xA9]);
    let rejected = Response::WordOfWisdom { word_of_wisdom: WordOfWisdom::Fail };
    assert_eq!(Serializer::serialize(&rejected), vec![0x12, 0x22]);
}

#[test]
fn a_secret_is_its_sixteen_bytes() {
    let secret = Secret { value: 0x0102_0304_0506_0708_090A_0B0C_0D0E_0F10 };
    assert_eq!(Serializer::serialize(&secret), (1u8..=16).collect::<Vec<u8>>());
}

#[test]
fn serialize_into_a_buffer_appends() {
    let mut buffer = vec![0xEE, 0xEE];
    Serializer::serialize_(&WordOfWisdom::Fail, &mut buffer);
    assert_eq!(buffer, vec![0xEE, 0xEE, 0x22]);
    Serializer::serialize_(&Secret { value: 0 }, &mut buffer);
    assert_eq!(buffer.len(), 19);
    assert_eq!(&buffer[3..], &[0u8; 16]);
}

#[test]
fn an_empty_payload_decodes_to_nothing() {
    assert_eq!(Serializer::deserialize::<Request>(&[]), Err(ErrorKind::Decode));
    assert_eq!(Serializer::deserialize::<Response>(&[]), Err(ErrorKind::Decode));
    assert_eq!(Serializer::deserialize::<Secret>(&[]), Err(ErrorKind::Decode));
    assert_eq!(Serializer::deserialize::<WordOfWisdom>(&[]), Err(ErrorKind::Decode));
}

#[test]
fn an_unknown_tag_decodes_to_nothing() {
    let mut data = vec![0x03];
    data.extend_from_slice(&[0; 16]);
    assert_eq!(Serializer::deserialize::<Request>(&data), Err(ErrorKind::Decode));
    data[0] = 0x13;
    assert_eq!(Serializer::deserialize::<Response>(&data), Err(ErrorKind::Decode));
    assert_eq!(Serializer::deserialize::<WordOfWisdom>(&[0x23]), Err(ErrorKind::Decode));
}

#[test]
fn a_payload_of_the_wrong_length_decodes_to_nothing() {
    let request = Request::Challenge { token: 5 };
    let mut data = Serializer::serialize(&request);
    data.push(0);
    assert_eq!(Serializer::deserialize::<Request>(&data), Err(ErrorKind::Decode));
    data.truncate(16);
    assert_eq!(Serializer::deserialize::<Request>(&data), Err(ErrorKind::Decode));

    let submission = Request::WordOfWisdom { token: 5, result: 6 };
    let mut data = Serializer::serialize(&submission);
    data.pop();
    assert_eq!(Serializer::deserialize::<Request>(&data), Err(ErrorKind::Decode));

    let response = Response::Challenge { secret: Secret { value: 5 } };
    let mut data = Serializer::serialize(&response);
    data.push(0);
    assert_eq!(Serializer::deserialize::<Response>(&data), Err(ErrorKind::Decode));

    assert_eq!(Serializer::deserialize::<Response>(&[0x12, 0x22, 0x00]), Err(ErrorKind::Decode));
    assert_eq!(Serializer::deserialize::<Response>(&[0x12]), Err(ErrorKind::Decode));
    assert_eq!(Serializer::deserialize::<Secret>(&[0; 15]), Err(ErrorKind::Decode));
    assert_eq!(Serializer::deserialize::<Secret>(&[0; 17]), Err(ErrorKind::Decode));
}

#[test]
fn a_quote_that_is_not_utf8_decodes_to_nothing() {
    assert_eq!(
        Serializer::deserialize::<Response>(&[0x12, 0x21, 0xFF]),
        Err(ErrorKind::Decode)
    );
    assert_eq!(
        Serializer::deserialize::<Response>(&[0x12, 0x21, 0xC3]),
        Err(ErrorKind::Decode)
    );
    assert_eq!(
        Serializer::deserialize::<WordOfWisdom>(&[0x21, 0xED, 0xA0, 0x80]),
        Err(ErrorKind::Decode)
    );
}

#[test]
fn a_request_is_no_response_and_a_response_no_request() {
    let request = Serializer::serialize(&Request::Challenge { token: 9 });
    assert_eq!(Serializer::deserialize::<Response>(&request), Err(ErrorKind::Decode));
    let response = Serializer::serialize(&Response::Challenge { secret: Secret { value: 9 } });
    assert_eq!(Serializer::deserialize::<Request>(&response), Err(ErrorKind::Decode));
}

#[test]
fn distinct_messages_have_distinct_encodings() {
    let all = requests();
    for (i, a) in all.iter().enumerate() {
        for (j, b) in all.iter().enumerate() {
            if i != j {
                assert_ne!(Serializer::serialize(a), Serializer::serialize(b));
            }
        }
    }
    let all = responses();
    for (i, a) in all.iter().enumerate() {
        for (j, b) in all.iter().enumerate() {
            if i != j {
                assert_ne!(Serializer::serialize(a), Serializer::serialize(b));
            }
        }
    }
}

#[test]
fn every_error_has_its_own_message() {
    let kinds = [
        ErrorKind::Transport,
        ErrorKind::FrameTooLarge,
        ErrorKind::Truncated,
        ErrorKind::Desync,
        ErrorKind::Decode,
        ErrorKind::UnexpectedVariant,
    ];
    assert_eq!(ErrorKind::Transport.message(), "Transport error.");
    assert_eq!(ErrorKind::FrameTooLarge.message(), "Frame too large.");
    assert_eq!(ErrorKind::Truncated.message(), "Truncated frame.");
    assert_eq!(ErrorKind::Desync.message(), "Framing out of step.");
    assert_eq!(ErrorKind::Decode.message(), "Undecodable payload.");
    assert_eq!(ErrorKind::UnexpectedVariant.message(), "Unexpected variant.");
    for (i, a) in kinds.iter().enumerate() {
        for (j, b) in kinds.iter().enumerate() {
            assert_eq!(i == j, a.message() == b.message());
        }
    }
}
