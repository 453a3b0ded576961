use word_of_wisdom::protocol::{MAXIMUM_BUFFER_SIZE, PREFIX_SIZE};
use word_of_wisdom::{ErrorKind, Protocol};

fn framed(payload: &[u8]) -> Vec<u8> {
    let mut stream = Vec::new();
    assert_eq!(Protocol::send(&mut stream, payload.to_vec()), Ok(()));
    stream
}

fn largest_payload() -> Vec<u8> {
    let length = MAXIMUM_BUFFER_SIZE as usize - PREFIX_SIZE;
    (0..length).map(|i| (i % 251) as u8).collect()
}

#[test]
fn the_limit_is_one_mebibyte_and_the_prefix_eight_bytes() {
    assert_eq!(MAXIMUM_BUFFER_SIZE, 1_048_576);
    assert_eq!(PREFIX_SIZE, 8);
}

#[test]
fn a_frame_is_its_length_and_the_payload() {
    assert_eq!(framed(&[1, 2, 3]), vec![0, 0, 0, 0, 0, 0, 0, 11, 1, 2, 3]);
    assert_eq!(framed(&[]), vec![0, 0, 0, 0, 0, 0, 0, 8]);
    let long = framed(&[7; 300]);
    assert_eq!(&long[..8], &[0, 0, 0, 0, 0, 0, 1, 52]);
    assert_eq!(&long[8..], &[7; 300]);
}

#[test]
fn send_appends_to_what_the_stream_holds() {
    let mut stream = vec![0xAB];
    assert_eq!(Protocol::send(&mut stream, vec![5]), Ok(()));
    assert_eq!(stream, vec![0xAB, 0, 0, 0, 0, 0, 0, 0, 9, 5]);
    assert_eq!(Protocol::send(&mut stream, vec![]), Ok(()));
    assert_eq!(stream.len(), 18);
}

#[test]
fn an_empty_payload_crosses_the_stream() {
    assert_eq!(Protocol::receive(&vec![framed(&[])]), Ok(vec![]));
}

#[test]
fn a_payload_of_one_byte_crosses_the_stream() {
    assert_eq!(Protocol::receive(&vec![framed(&[0x5A])]), Ok(vec![0x5A]));
}

#[test]
fn the_largest_payload_crosses_the_stream() {
    let payload = largest_payload();
    let stream = framed(&payload);
    assert_eq!(stream.len() as u64, MAXIMUM_BUFFER_SIZE);
    assert_eq!(&stream[..8], &[0, 0, 0, 0, 0, 0x10, 0, 0]);
    assert_eq!(Protocol::receive(&vec![stream]), Ok(payload));
}

#[test]
fn a_payload_one_byte_too_long_is_not_sent() {
    let mut payload = largest_payload();
    payload.push(0);
    let mut stream = vec![1, 2, 3];
    assert_eq!(Protocol::send(&mut stream, payload), Err(ErrorKind::FrameTooLarge));
    assert_eq!(stream, vec![1, 2, 3]);
}

#[test]
fn a_frame_crosses_the_stream_in_any_pieces() {
    let payload: Vec<u8> = (0u8..100).collect();
    let stream = framed(&payload);
    for size in [1usize, 2, 3, 7, 8, 9, 50, 107, 108, 200] {
        let reads: Vec<Vec<u8>> = stream.chunks(size).map(|chunk| chunk.to_vec()).collect();
        assert_eq!(Protocol::receive(&reads), Ok(payload.clone()));
    }
}

#[test]
fn reads_after_the_frame_is_whole_are_not_made() {
    let reads = vec![framed(&[1, 2]), vec![9, 9, 9], vec![]];
    assert_eq!(Protocol::receive(&reads), Ok(vec![1, 2]));
}

#[test]
fn a_stream_that_ends_at_once_is_truncated() {
    assert_eq!(Protocol::receive(&vec![]), Err(ErrorKind::Truncated));
    assert_eq!(Protocol::receive(&vec![vec![]]), Err(ErrorKind::Truncated));
}

#[test]
fn a_stream_that_ends_within_the_prefix_is_truncated() {
    let stream = framed(&[1, 2, 3]);
    for length in 1..8 {
        assert_eq!(
            Protocol::receive(&vec![stream[..length].to_vec()]),
            Err(ErrorKind::Truncated)
        );
        assert_eq!(
            Protocol::receive(&vec![stream[..length].to_vec(), vec![]]),
            Err(ErrorKind::Truncated)
        );
    }
}

#[test]
fn a_stream_that_ends_within_the_payload_is_truncated() {
    let stream = framed(&[1, 2, 3]);
    for length in 8..stream.len() {
        assert_eq!(
            Protocol::receive(&vec![stream[..length].to_vec()]),
            Err(ErrorKind::Truncated)
        );
    }
    let reads = vec![stream[..9].to_vec(), vec![], stream[9..].to_vec()];
    assert_eq!(Protocol::receive(&reads), Err(ErrorKind::Truncated));
}

#[test]
fn a_prefix_over_the_limit_is_refused_before_any_payload() {
    let mut prefix = vec![0, 0, 0, 0, 0, 0x10, 0, 1];
    assert_eq!(Protocol::receive(&vec![prefix.clone()]), Err(ErrorKind::FrameTooLarge));
    assert_eq!(
        Protocol::receive(&vec![prefix.clone(), vec![0; 16]]),
        Err(ErrorKind::FrameTooLarge)
    );
    prefix.extend_from_slice(&[0; 4]);
    assert_eq!(Protocol::receive(&vec![prefix]), Err(ErrorKind::FrameTooLarge));
    assert_eq!(Protocol::receive(&vec![vec![0xFF; 8]]), Err(ErrorKind::FrameTooLarge));
}

#[test]
fn more_bytes_than_announced_are_a_desync() {
    let mut stream = framed(&[1, 2, 3]);
    stream.push(4);
    assert_eq!(Protocol::receive(&vec![stream.clone()]), Err(ErrorKind::Desync));
    let reads = vec![stream[..10].to_vec(), stream[10..].to_vec()];
    assert_eq!(Protocol::receive(&reads), Err(ErrorKind::Desync));
}

#[test]
fn a_prefix_that_announces_less_than_itself_is_a_desync() {
    for total in 0u8..8 {
        let prefix = vec![0, 0, 0, 0, 0, 0, 0, total];
        assert_eq!(Protocol::receive(&vec![prefix]), Err(ErrorKind::Desync));
    }
}

#[test]
fn advance_gathers_the_bytes_and_reports_where_the_frame_stands() {
    let stream = framed(&[7, 8]);
    let mut buffer = Vec::new();
    assert_eq!(Protocol::advance(&mut buffer, &stream[..3]), Ok(None));
    assert_eq!(buffer, stream[..3].to_vec());
    assert_eq!(Protocol::advance(&mut buffer, &stream[3..9]), Ok(None));
    assert_eq!(buffer, stream[..9].to_vec());
    assert_eq!(Protocol::advance(&mut buffer, &stream[9..]), Ok(Some(vec![7, 8])));
    assert_eq!(buffer, stream);
    assert_eq!(Protocol::advance(&mut buffer, &[1]), Err(ErrorKind::Desync));
}

#[test]
fn advance_with_no_bytes_reports_a_closed_stream() {
    let stream = framed(&[7, 8]);
    let mut buffer = Vec::new();
    assert_eq!(Protocol::advance(&mut buffer, &[]), Err(ErrorKind::Truncated));
    assert_eq!(Protocol::advance(&mut buffer, &stream[..9]), Ok(None));
    assert_eq!(Protocol::advance(&mut buffer, &[]), Err(ErrorKind::Truncated));
    assert_eq!(buffer, stream[..9].to_vec());
}
