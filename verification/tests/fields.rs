use ws_tunnel::ext::{ReadError, SliceReader, StreamExt};
use ws_tunnel::websocket::{TransportEvent, WebSocketStream};

#[test]
fn numbers_are_read_most_significant_byte_first() {
    let bytes = [
        0x12u8, 0x34, 0x56, 0x78, 0x9a, 0xbc, 0xde, 0xf0, 0x01, 0x02, 0x03, 0x04, 0x05, 0x06, 0x07,
        0x08, 0xff,
    ];
    assert_eq!(SliceReader::new(&bytes, true).read_u8(), Ok(0x12));
    assert_eq!(SliceReader::new(&bytes, true).read_u16(), Ok(0x1234));
    assert_eq!(SliceReader::new(&bytes, true).read_u32(), Ok(0x1234_5678));
    assert_eq!(
        SliceReader::new(&bytes, true).read_u128(),
        Ok(0x1234_5678_9abc_def0_0102_0304_0506_0708)
    );
}

#[test]
fn numbers_agree_with_from_be_bytes() {
    assert_eq!(SliceReader::new(&[0x00, 0x50], true).read_u16(), Ok(80));
    assert_eq!(SliceReader::new(&[0xff; 16], true).read_u128(), Ok(u128::MAX));
    assert_eq!(SliceReader::new(&[0xff; 4], true).read_u32(), Ok(u32::MAX));
    assert_eq!(SliceReader::new(&[0xff; 2], true).read_u16(), Ok(u16::MAX));
    assert_eq!(SliceReader::new(&[0xff], true).read_u8(), Ok(u8::MAX));
    let bytes = [1u8, 2, 3, 4, 5, 6, 7, 8, 9, 10, 11, 12, 13, 14, 15, 16];
    assert_eq!(SliceReader::new(&bytes, true).read_u128(), Ok(u128::from_be_bytes(bytes)));
    assert_eq!(SliceReader::new(&bytes, true).read_u32(), Ok(u32::from_be_bytes([1, 2, 3, 4])));
    assert_eq!(SliceReader::new(&bytes, true).read_u16(), Ok(u16::from_be_bytes([1, 2])));
}

#[test]
fn reads_follow_each_other() {
    let bytes = [1u8, 0, 2, 0, 0, 0, 3, b'h', b'i', 9];
    let mut reader = SliceReader::new(&bytes, true);
    assert_eq!(reader.read_u8(), Ok(1));
    assert_eq!(reader.read_u16(), Ok(2));
    assert_eq!(reader.read_u32(), Ok(3));
    assert_eq!(reader.read_string(2), Ok(String::from("hi")));
    assert_eq!(reader.remaining(), 1);
    assert_eq!(reader.read_bytes(1), Ok(vec![9]));
    assert_eq!(reader.read_bytes(0), Ok(vec![]));
    assert_eq!(reader.read_u8(), Err(ReadError::UnexpectedEof));
}

#[test]
fn a_short_read_takes_nothing() {
    let bytes = [1u8, 2, 3];
    let mut reader = SliceReader::new(&bytes, false);
    assert_eq!(reader.read_u32(), Err(ReadError::Incomplete));
    assert_eq!(reader.read_bytes(4), Err(ReadError::Incomplete));
    assert_eq!(reader.read_string(4), Err(ReadError::Incomplete));
    assert_eq!(reader.read_u128(), Err(ReadError::Incomplete));
    assert_eq!(reader.remaining(), 3);
    assert_eq!(reader.read_u16(), Ok(0x0102));
    assert_eq!(reader.read_u16(), Err(ReadError::Incomplete));
    assert_eq!(reader.read_u8(), Ok(3));
}

#[test]
fn a_short_read_at_the_end_is_an_unexpected_end() {
    let bytes = [1u8];
    let mut reader = SliceReader::new(&bytes, true);
    assert_eq!(reader.read_u16(), Err(ReadError::UnexpectedEof));
    assert_eq!(reader.read_bytes(2), Err(ReadError::UnexpectedEof));
    assert_eq!(reader.remaining(), 1);
}

#[test]
fn text_that_is_not_utf8_is_refused_and_taken() {
    let bytes = [0xffu8, 0xfe, b'a'];
    let mut reader = SliceReader::new(&bytes, true);
    assert_eq!(reader.read_string(2), Err(ReadError::InvalidUtf8));
    assert_eq!(reader.remaining(), 1);
}

#[test]
fn text_of_several_bytes_a_character_is_read() {
    let text = "héllo → wörld";
    let mut reader = SliceReader::new(text.as_bytes(), true);
    assert_eq!(reader.read_string(text.len()), Ok(String::from(text)));
    let mut cut = SliceReader::new(text.as_bytes(), true);
    assert_eq!(cut.read_string(2), Err(ReadError::InvalidUtf8));
}

#[test]
fn fields_are_read_from_a_stream() {
    let mut stream = WebSocketStream::new(Some(vec![0x01, 0x02]));
    assert_eq!(stream.read_u32(), Err(ReadError::Incomplete));
    assert_eq!(stream.pending(), &[1, 2]);
    stream.on_event(TransportEvent::Frame(vec![0x03, 0x04, 0x05]));
    assert_eq!(stream.read_u32(), Ok(0x0102_0304));
    assert_eq!(stream.read_bytes(0), Ok(vec![]));
    assert_eq!(stream.read_u16(), Err(ReadError::Incomplete));
    stream.on_event(TransportEvent::Close);
    assert_eq!(stream.read_u16(), Err(ReadError::UnexpectedEof));
    assert_eq!(stream.read_u8(), Ok(5));
    assert_eq!(stream.read_u8(), Err(ReadError::UnexpectedEof));
    assert_eq!(stream.read_bytes(0), Ok(vec![]));
}
