use trinci_cli::client::bridge::BridgeChannel;
use trinci_cli::client::channel::{ChannelError, ClientChannel, ClientChannelClone};
use trinci_cli::client::file::FileChannel;
use trinci_cli::client::http::{HttpChannel, HttpOutcome};
use trinci_cli::client::stdio::StdioChannel;
use trinci_cli::hexcode::{decode, encode, HexError};
use trinci_cli::message::{ErrorKind, Message, RemoteError};

#[test]
fn bridge_frames_ten_bytes_as_fourteen() {
    let payload: Vec<u8> = vec![10, 11, 12, 13, 14, 15, 16, 17, 18, 19];
    let wire = BridgeChannel::frame(&payload);
    assert_eq!(wire.len(), 14);
    assert_eq!(&wire[..4], &[0, 0, 0, 10]);
    assert_eq!(&wire[4..], &payload[..]);
    assert_eq!(BridgeChannel::unframe(&wire), Some((payload, 14)));
}

#[test]
fn bridge_header_is_big_endian() {
    let payload = vec![7u8; 0x0102];
    let wire = BridgeChannel::frame(&payload);
    assert_eq!(&wire[..4], &[0, 0, 1, 2]);
    assert_eq!(BridgeChannel::payload_len(&[0, 0, 1, 2]), 0x0102);
    assert_eq!(BridgeChannel::payload_len(&[0xff, 0xff, 0xff, 0xff]), u32::MAX);
    assert_eq!(BridgeChannel::payload_len(&[1, 0, 0, 0]), 1 << 24);
}

#[test]
fn bridge_receives_the_first_buffer_only() {
    let mut wire = BridgeChannel::frame(&vec![1, 2, 3]);
    wire.extend_from_slice(&BridgeChannel::frame(&vec![4, 5]));
    assert_eq!(BridgeChannel::unframe(&wire), Some((vec![1, 2, 3], 7)));
    assert_eq!(BridgeChannel::unframe(&wire[7..].to_vec()), Some((vec![4, 5], 6)));
}

#[test]
fn bridge_incomplete_buffer_is_not_received() {
    let wire = BridgeChannel::frame(&vec![1, 2, 3]);
    for cut in 0..wire.len() {
        assert_eq!(BridgeChannel::unframe(&wire[..cut].to_vec()), None);
    }
    assert_eq!(BridgeChannel::unframe(&BridgeChannel::frame(&vec![])), Some((vec![], 4)));
}

#[test]
fn bridge_keeps_its_address() {
    let chan = BridgeChannel::new("localhost".to_string(), 8000);
    assert_eq!(chan.ip, "localhost");
    assert_eq!(chan.port, 8000);
}

#[test]
fn http_recv_without_send_is_buffer_empty() {
    let mut chan = HttpChannel::new("http://localhost:8000/api/v1".to_string());
    assert_eq!(chan.recv(), Err(ChannelError::BufferEmpty));
    assert_eq!(ChannelError::BufferEmpty.message(), "buffer empty");
}

#[test]
fn http_posts_to_the_message_endpoint() {
    let chan = HttpChannel::new("http://localhost:8000/api/v1".to_string());
    assert_eq!(chan.endpoint(), "http://localhost:8000/api/v1/message");
}

#[test]
fn http_keeps_one_answer_for_one_recv() {
    let mut chan = HttpChannel::new("http://h".to_string());
    assert_eq!(chan.sent(HttpOutcome::Success(vec![1, 2, 3])), Ok(()));
    assert_eq!(chan.recv(), Ok(vec![1, 2, 3]));
    assert_eq!(chan.recv(), Err(ChannelError::BufferEmpty));
}

#[test]
fn http_error_status_is_an_error_with_the_body() {
    let mut chan = HttpChannel::new("http://h".to_string());
    assert_eq!(chan.sent(HttpOutcome::Status(b"not allowed".to_vec())), Ok(()));
    assert_eq!(chan.recv(), Err(ChannelError::Status("not allowed".to_string())));
    assert_eq!(ChannelError::Status("not allowed".to_string()).message(), "not allowed");
    assert_eq!(chan.recv(), Err(ChannelError::BufferEmpty));
}

#[test]
fn http_error_status_body_is_read_as_text_whatever_it_holds() {
    let mut chan = HttpChannel::new("http://h".to_string());
    assert_eq!(chan.sent(HttpOutcome::Status(vec![b'n', 0xff, b'o', 0xc3])), Ok(()));
    assert_eq!(chan.recv(), Err(ChannelError::Status("n\u{fffd}o\u{fffd}".to_string())));
    assert_eq!(chan.sent(HttpOutcome::Status(vec![])), Ok(()));
    assert_eq!(chan.recv(), Err(ChannelError::Status(String::new())));
}

#[test]
fn http_failed_post_keeps_the_earlier_answer() {
    let mut chan = HttpChannel::new("http://h".to_string());
    assert_eq!(chan.sent(HttpOutcome::Success(vec![9])), Ok(()));
    let failure = chan.sent(HttpOutcome::Failure("connection refused".to_string()));
    assert_eq!(failure, Err(ChannelError::Post("connection refused".to_string())));
    assert_eq!(failure.unwrap_err().message(), "POST error connection refused");
    assert_eq!(chan.recv(), Ok(vec![9]));
}

#[test]
fn http_later_answer_replaces_the_earlier() {
    let mut chan = HttpChannel::new("http://h".to_string());
    assert_eq!(chan.sent(HttpOutcome::Success(vec![1])), Ok(()));
    assert_eq!(chan.sent(HttpOutcome::Success(vec![2])), Ok(()));
    assert_eq!(chan.recv(), Ok(vec![2]));
}

#[test]
fn http_clone_is_independent() {
    let mut chan = HttpChannel::new("http://h".to_string());
    assert_eq!(chan.sent(HttpOutcome::Success(vec![1])), Ok(()));
    let mut copy = chan.clone();
    assert_eq!(copy.recv(), Ok(vec![1]));
    assert_eq!(chan.recv(), Ok(vec![1]));
}

#[test]
fn stdio_shows_hex_under_a_label() {
    let chan = StdioChannel::new();
    assert_eq!(chan.output(&vec![1, 2, 3, 15, 16, 0xab]), "\nOUTPUT: 0102030f10ab");
    assert_eq!(chan.output(&vec![]), "\nOUTPUT: ");
    assert_eq!(chan.prompt(), "\nINPUT: ");
}

#[test]
fn stdio_reads_hex_in_either_case() {
    let chan = StdioChannel::new();
    assert_eq!(chan.input("0102030f10AbcD"), Ok(vec![1, 2, 3, 15, 16, 0xab, 0xcd]));
    assert_eq!(chan.input(""), Ok(vec![]));
}

#[test]
fn stdio_refuses_malformed_hex() {
    let chan = StdioChannel::new();
    assert_eq!(chan.input("123"), Err(ChannelError::Hex(HexError::OddLength)));
    assert_eq!(
        chan.input("12zz"),
        Err(ChannelError::Hex(HexError::InvalidHexCharacter { c: 'z', index: 2 }))
    );
    assert_eq!(
        chan.input("1g"),
        Err(ChannelError::Hex(HexError::InvalidHexCharacter { c: 'g', index: 1 }))
    );
    // An odd length is reported before a bad character.
    assert_eq!(chan.input("zzz"), Err(ChannelError::Hex(HexError::OddLength)));
    assert_eq!(
        ChannelError::Hex(HexError::OddLength).message(),
        "Odd number of digits"
    );
    assert_eq!(
        ChannelError::Hex(HexError::InvalidHexCharacter { c: 'z', index: 2 }).message(),
        "Invalid character 'z' at position 2"
    );
}

#[test]
fn hex_text_is_lower_case_pairs() {
    assert_eq!(encode(&b"Hello world!".to_vec()), "48656c6c6f20776f726c6421");
    assert_eq!(decode("48656c6c6f20776f726c6421"), Ok(b"Hello world!".to_vec()));
    assert_eq!(decode("foo"), Err(HexError::OddLength));
    // A character outside ASCII is reported by its first byte.
    assert_eq!(decode("é"), Err(HexError::InvalidHexCharacter { c: 'Ã', index: 0 }));
}

#[test]
fn file_channel_names_files_by_the_second() {
    let chan = FileChannel::new();
    assert_eq!(chan.file_name(0), "out-0.bin");
    assert_eq!(chan.file_name(1650000000), "out-1650000000.bin");
    assert_eq!(chan.file_name(u64::MAX), "out-18446744073709551615.bin");
}

#[test]
fn file_channel_answers_that_it_only_writes() {
    let mut chan = FileChannel::new();
    let expected = Message::Exception(RemoteError {
        kind: ErrorKind::Other,
        message: "write only channel".to_string(),
    });
    let buf = chan.recv().unwrap();
    assert_eq!(Message::deserialize(&buf), Some(expected.clone()));
    assert_eq!(chan.recv(), Ok(expected.serialize()));
}

#[test]
fn channels_without_state_copy_as_themselves() {
    let _stdio: StdioChannel = StdioChannel::new().clone();
    let _file: FileChannel = FileChannel::new().clone();
}

#[derive(Clone)]
struct Counting(u32);

impl ClientChannel for Counting {
    fn send(&mut self, _buf: Vec<u8>) -> Result<(), ChannelError> {
        self.0 += 1;
        Ok(())
    }

    fn recv(&mut self) -> Result<Vec<u8>, ChannelError> {
        Err(ChannelError::Io("closed".to_string()))
    }
}

#[test]
fn clone_box_gives_a_channel_of_its_own() {
    let mut first = Counting(0);
    first.send(vec![]).unwrap();
    let mut second = first.clone_box();
    second.send(vec![]).unwrap();
    assert_eq!(first.0, 1);
    assert_eq!(second.0, 2);
    assert_eq!(ChannelError::Io("closed".to_string()).message(), "closed");
}

#[test]
fn hex_faults_have_the_sentences_of_the_crate() {
    assert_eq!(HexError::OddLength.message(), "Odd number of digits");
    assert_eq!(HexError::InvalidStringLength.message(), "Invalid string length");
    assert_eq!(
        HexError::InvalidHexCharacter { c: '\n', index: 15 }.message(),
        "Invalid character '\\n' at position 15"
    );
    assert_eq!(
        HexError::InvalidHexCharacter { c: 'g', index: 0 }.message(),
        "Invalid character 'g' at position 0"
    );
}
