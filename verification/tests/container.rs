use trinci_cli::impexp::{
    blocks_differ, decode_container, encode_container, write_block, write_header, ContainerError,
    ContainerReader, FileBlock, MAGIC,
};
use trinci_cli::message::{Ticket, Transaction};

fn tx(n: u8) -> Transaction {
    Transaction {
        network: "skynet".to_string(),
        account: format!("account-{}", n),
        fuel_limit: 1000 + n as u64,
        nonce: vec![n; 8],
        contract: if n % 2 == 0 { None } else { Some(Ticket::new([n; 32])) },
        method: "transfer".to_string(),
        caller: vec![4, n],
        args: vec![n; n as usize],
        signature: vec![0x33; 64],
    }
}

fn chain() -> Vec<FileBlock> {
    vec![
        FileBlock { height: 0, txs: vec![tx(1)] },
        FileBlock { height: 1, txs: vec![] },
        FileBlock { height: 2, txs: vec![tx(4), tx(3), tx(2)] },
    ]
}

#[test]
fn magic_is_the_agreed_number() {
    assert_eq!(MAGIC, 0xe7aa30ddc4db5bdd);
}

#[test]
fn container_round_trips() {
    let bytes = encode_container(&chain());
    assert_eq!(decode_container(bytes), Ok(chain()));
}

#[test]
fn empty_container_is_header_only() {
    let bytes = encode_container(&vec![]);
    let expected: Vec<u8> = vec![
        0, 0, 0, 0, 0, 0, 0, 16, // the header record has sixteen bytes
        0xe7, 0xaa, 0x30, 0xdd, 0xc4, 0xdb, 0x5b, 0xdd, // the magic number
        0, 0, 0, 0, 0, 0, 0, 0, // no blocks
    ];
    assert_eq!(bytes, expected);
    assert_eq!(decode_container(bytes), Ok(vec![]));
}

#[test]
fn header_writes_the_count_big_endian() {
    let mut out = vec![0xEE];
    write_header(&mut out, 0x0102);
    assert_eq!(out.len(), 1 + 8 + 16);
    assert_eq!(out[0], 0xEE);
    assert_eq!(&out[1..9], &[0, 0, 0, 0, 0, 0, 0, 16]);
    assert_eq!(&out[17..25], &[0, 0, 0, 0, 0, 0, 1, 2]);
}

#[test]
fn block_record_starts_with_length_and_height() {
    let block = FileBlock { height: 0x0a0b, txs: vec![] };
    let mut out = Vec::new();
    write_block(&mut out, &block);
    // The record: the height, then a list of no transactions.
    assert_eq!(
        out,
        vec![0, 0, 0, 0, 0, 0, 0, 16, 0, 0, 0, 0, 0, 0, 0x0a, 0x0b, 0, 0, 0, 0, 0, 0, 0, 0]
    );
    assert_eq!(FileBlock::decode(&out[8..].to_vec()), Some(block));
}

#[test]
fn blocks_are_read_in_order_with_their_transactions_in_order() {
    let mut reader = ContainerReader::open(encode_container(&chain())).unwrap();
    assert_eq!(reader.num_blocks(), 3);
    for (i, expected) in chain().into_iter().enumerate() {
        assert_eq!(reader.blocks_left(), 3 - i as u64);
        assert_eq!(reader.next_block(), Ok(Some(expected)));
    }
    assert_eq!(reader.blocks_left(), 0);
    assert_eq!(reader.next_block(), Ok(None));
    assert_eq!(reader.next_block(), Ok(None));
}

#[test]
fn corrupted_magic_is_refused_before_any_block() {
    let mut bytes = encode_container(&chain());
    bytes[8] ^= 0x01;
    assert!(matches!(ContainerReader::open(bytes.clone()), Err(ContainerError::BadMagic)));
    assert_eq!(decode_container(bytes), Err(ContainerError::BadMagic));
}

#[test]
fn missing_or_short_header_is_bad_format() {
    assert_eq!(decode_container(vec![]), Err(ContainerError::BadFormat));
    assert_eq!(decode_container(vec![0, 0, 0, 0, 0, 0, 0]), Err(ContainerError::BadFormat));
    let whole = encode_container(&vec![]);
    assert_eq!(decode_container(whole[..23].to_vec()), Err(ContainerError::BadFormat));
    // A header record of the wrong size.
    let mut short = vec![0, 0, 0, 0, 0, 0, 0, 8];
    short.extend_from_slice(&MAGIC.to_be_bytes());
    assert_eq!(decode_container(short), Err(ContainerError::BadFormat));
}

#[test]
fn truncation_after_a_record_is_early_termination() {
    let blocks = chain();
    let whole = encode_container(&blocks);
    for k in 0..blocks.len() {
        // The bytes of the header and of the first k records.
        let mut kept = Vec::new();
        write_header(&mut kept, blocks.len() as u64);
        for block in &blocks[..k] {
            write_block(&mut kept, block);
        }
        assert_eq!(&whole[..kept.len()], &kept[..]);
        let mut reader = ContainerReader::open(kept.clone()).unwrap();
        for block in &blocks[..k] {
            assert_eq!(reader.next_block(), Ok(Some(block.clone())));
        }
        assert_eq!(reader.next_block(), Err(ContainerError::EarlyTermination));
        assert_eq!(reader.blocks_left(), (blocks.len() - k) as u64);
        assert_eq!(decode_container(kept), Err(ContainerError::EarlyTermination));
    }
}

#[test]
fn truncation_inside_a_length_is_early_termination() {
    let mut bytes = encode_container(&vec![]);
    bytes[23] = 1;
    bytes.extend_from_slice(&[0, 0, 0]);
    assert_eq!(decode_container(bytes), Err(ContainerError::EarlyTermination));
}

#[test]
fn truncation_inside_a_record_is_unexpected_content() {
    let whole = encode_container(&chain());
    let cut = whole[..whole.len() - 1].to_vec();
    assert_eq!(decode_container(cut), Err(ContainerError::UnexpectedContent));
}

#[test]
fn record_that_is_no_block_is_malformed() {
    let mut bytes = Vec::new();
    write_header(&mut bytes, 1);
    bytes.extend_from_slice(&[0, 0, 0, 0, 0, 0, 0, 3, 1, 2, 3]);
    assert_eq!(decode_container(bytes), Err(ContainerError::MalformedRecord));
}

#[test]
fn bytes_after_the_announced_blocks_are_not_read() {
    let mut bytes = encode_container(&chain());
    bytes.extend_from_slice(&[1, 2, 3]);
    assert_eq!(decode_container(bytes), Ok(chain()));
}

#[test]
fn height_check_compares_latest_plus_one() {
    assert!(!blocks_differ(2, 3));
    assert!(blocks_differ(3, 3));
    assert!(blocks_differ(0, 0));
    assert!(blocks_differ(u64::MAX, 0));
    assert!(!blocks_differ(u64::MAX - 1, u64::MAX));
}
