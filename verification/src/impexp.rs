//! The container format for bulk export and import of transactions.
//!
//! A container is a sequence of records. Every record is preceded by its
//! length in eight big-endian bytes. The first record is the header: the
//! magic number and the number of block records, eight big-endian bytes
//! each. Every other record is a block: its height in eight big-endian
//! bytes, then its transactions as a list, in their order in the block.
//!
//! Reading stops at the first fault. A header with another magic number is
//! refused before any block is looked at; a container that ends before the
//! announced number of blocks was read is refused as ended early.
//!
//! An export asks the channel for every block of the chain and for every
//! transaction of each, and gives the container that holds them. An import
//! reads a container block by block: it submits the transactions of a
//! block in their order and stops at the first that is not accepted, then
//! waits for the receipt of each before it reads the next block, and asks
//! for the latest block when none is left. What an import does is stated
//! as a machine over `Course`: `halts`, `due` and `effect` say what comes
//! next in every state, and the laws at the end of this file say what
//! follows for a whole import.

use crate::bytes::{
    append_bytes, be_bytes, be_value, copy_range, lemma_be_bytes_len, lemma_be_value_bound,
    lemma_be_value_of_bytes, lemma_pow256_values, push_u64, read_u64,
};
use crate::client::channel::ClientChannel;
use crate::client::{
    block_in, exchange, last_reply, message_of, receipt_in, received, ticket_in, transaction_in,
    Client, ClientError, ClientErrorView, Event, Reply,
};
use crate::envelope::enc_message;
use crate::lists::{
    dec_transactions, decode_transactions, enc_transactions, encode_transactions,
    lemma_transactions_round_trip, transactions_fit,
};
use crate::message::{
    tickets_view, transactions_view, Block, BlockView, ErrorKind, MessageView, ReceiptView, Ticket,
    Transaction, TransactionView,
};
use crate::poller::{attempt_of, next_action, Action, Attempt, Poller, Verdict};
use crate::wire::{
    enc_item, enc_items, lemma_enc_items_push, lemma_take_item, read_item, take_item, write_item,
    ItemError,
};
use vstd::prelude::*;

verus! {

/// The number that the header of every container starts with.
pub const MAGIC: u64 = 0xe7aa30ddc4db5bdd;

/// The first record of a container.
#[derive(Clone, Copy, Debug, PartialEq, Eq, Structural)]
pub struct FileHeader {
    pub magic: u64,
    pub num_blocks: u64,
}

/// A block record: the transactions of one block, in their order.
#[derive(Clone, Debug, PartialEq, Eq)]
pub struct FileBlock {
    pub height: u64,
    pub txs: Vec<Transaction>,
}

pub struct FileBlockView {
    pub height: u64,
    pub txs: Seq<TransactionView>,
}

impl View for FileBlock {
    type V = FileBlockView;

    open spec fn view(&self) -> FileBlockView {
        FileBlockView { height: self.height, txs: transactions_view(self.txs@) }
    }
}

/// The views of the blocks of `v`, in order.
pub open spec fn blocks_view(v: Seq<FileBlock>) -> Seq<FileBlockView> {
    Seq::new(v.len(), |i: int| v[i]@)
}

/// Why a container cannot be read.
#[derive(Clone, Copy, Debug, PartialEq, Eq, Structural)]
pub enum ContainerError {
    /// There is no header record, or it is not sixteen bytes long.
    BadFormat,
    /// The header holds another magic number.
    BadMagic,
    /// The container ends before the announced number of blocks was read.
    EarlyTermination,
    /// A record is shorter than the length written before it.
    UnexpectedContent,
    /// The bytes of a record are not those of a block.
    MalformedRecord,
}

// ---------------------------------------------------------------------
// The model

/// The record of a header: the magic number and the number of blocks, eight bytes each.
pub open spec fn header_body(h: FileHeader) -> Seq<u8> {
    be_bytes(h.magic as nat, 8) + be_bytes(h.num_blocks as nat, 8)
}

/// The header whose record is `b`, if `b` has sixteen bytes.
pub open spec fn header_of_body(b: Seq<u8>) -> Option<FileHeader> {
    if b.len() == 16 {
        Some(
            FileHeader {
                magic: be_value(b.subrange(0, 8)) as u64,
                num_blocks: be_value(b.subrange(8, 16)) as u64,
            },
        )
    } else {
        None
    }
}

/// The record of a block: its height in eight bytes, then its transactions.
pub open spec fn block_body(b: FileBlockView) -> Seq<u8> {
    be_bytes(b.height as nat, 8) + enc_transactions(b.txs)
}

/// The block whose record is `s`, if `s` is the record of one.
pub open spec fn block_of_body(s: Seq<u8>) -> Option<FileBlockView> {
    if s.len() < 8 {
        None
    } else {
        match dec_transactions(s.subrange(8, s.len() as int)) {
            Some(txs) => Some(FileBlockView { height: be_value(s.subrange(0, 8)) as u64, txs }),
            None => None,
        }
    }
}

/// The transactions of the block are valid, and the length of its record
/// fits in eight bytes.
pub open spec fn file_block_fits(b: FileBlockView) -> bool {
    &&& transactions_fit(b.txs)
    &&& block_body(b).len() <= u64::MAX
}

/// The number of blocks fits in eight bytes, and so does each block.
pub open spec fn container_fits(blocks: Seq<FileBlockView>) -> bool {
    &&& blocks.len() <= u64::MAX
    &&& forall|i: int| 0 <= i < blocks.len() ==> file_block_fits(#[trigger] blocks[i])
}

/// The records of the blocks of `blocks`, in order.
pub open spec fn block_bodies(blocks: Seq<FileBlockView>) -> Seq<Seq<u8>> {
    Seq::new(blocks.len(), |i: int| block_body(blocks[i]))
}

/// The bytes of a header that announces `count` blocks under `magic`.
pub open spec fn enc_header(magic: u64, count: u64) -> Seq<u8> {
    enc_item(header_body(FileHeader { magic, num_blocks: count }))
}

/// The bytes of the container that holds `blocks`.
pub open spec fn enc_container(blocks: Seq<FileBlockView>) -> Seq<u8> {
    enc_header(MAGIC, blocks.len() as u64) + enc_items(block_bodies(blocks))
}

/// The header at the front of `s`, and what follows it.
pub open spec fn read_header(s: Seq<u8>) -> Result<(FileHeader, Seq<u8>), ContainerError> {
    match take_item(s) {
        Err(_) => Err(ContainerError::BadFormat),
        Ok((body, rest)) => match header_of_body(body) {
            None => Err(ContainerError::BadFormat),
            Some(h) => if h.magic != MAGIC {
                Err(ContainerError::BadMagic)
            } else {
                Ok((h, rest))
            },
        },
    }
}

/// The block at the front of `s`, and what follows it.
pub open spec fn read_block(s: Seq<u8>) -> Result<(FileBlockView, Seq<u8>), ContainerError> {
    match take_item(s) {
        Err(ItemError::NoLength) => Err(ContainerError::EarlyTermination),
        Err(ItemError::Short) => Err(ContainerError::UnexpectedContent),
        Ok((body, rest)) => match block_of_body(body) {
            None => Err(ContainerError::MalformedRecord),
            Some(b) => Ok((b, rest)),
        },
    }
}

/// Reading `count` blocks from the front of `s`: the blocks that were read
/// before the first fault, and that fault if there is one.
pub open spec fn read_blocks(s: Seq<u8>, count: nat) -> (Seq<FileBlockView>, Option<ContainerError>)
    decreases count,
{
    if count == 0 {
        (Seq::empty(), None)
    } else {
        match read_block(s) {
            Err(e) => (Seq::empty(), Some(e)),
            Ok((b, rest)) => {
                let (more, fault) = read_blocks(rest, (count - 1) as nat);
                (seq![b] + more, fault)
            },
        }
    }
}

/// The blocks of the container `s`, or the fault that stops the reading.
pub open spec fn dec_container(s: Seq<u8>) -> Result<Seq<FileBlockView>, ContainerError> {
    match read_header(s) {
        Err(e) => Err(e),
        Ok((h, rest)) => {
            let (blocks, fault) = read_blocks(rest, h.num_blocks as nat);
            match fault {
                None => Ok(blocks),
                Some(e) => Err(e),
            }
        },
    }
}

// ---------------------------------------------------------------------
// What holds of the model

/// A header is read back from its record, which has sixteen bytes.
pub proof fn lemma_header_round_trip(h: FileHeader)
    ensures
        header_of_body(header_body(h)) == Some(h),
        header_body(h).len() == 16,
{
    let b = header_body(h);
    lemma_be_bytes_len(h.magic as nat, 8);
    lemma_be_bytes_len(h.num_blocks as nat, 8);
    lemma_pow256_values();
    lemma_be_value_of_bytes(h.magic as nat, 8);
    lemma_be_value_of_bytes(h.num_blocks as nat, 8);
    assert(b.subrange(0, 8) =~= be_bytes(h.magic as nat, 8));
    assert(b.subrange(8, 16) =~= be_bytes(h.num_blocks as nat, 8));
}

/// A header followed by `rest` is read whole, and `rest` is left.
pub proof fn lemma_take_header(h: FileHeader, rest: Seq<u8>)
    ensures
        take_item(enc_item(header_body(h)) + rest) == Ok::<_, ItemError>((header_body(h), rest)),
        header_of_body(header_body(h)) == Some(h),
{
    lemma_header_round_trip(h);
    lemma_take_item(header_body(h), rest);
}

/// A block with valid transactions is read back from its record.
pub proof fn lemma_block_body_round_trip(b: FileBlockView)
    requires
        transactions_fit(b.txs),
    ensures
        block_of_body(block_body(b)) == Some(b),
{
    let s = block_body(b);
    lemma_be_bytes_len(b.height as nat, 8);
    lemma_pow256_values();
    lemma_be_value_of_bytes(b.height as nat, 8);
    lemma_transactions_round_trip(b.txs);
    assert(s.subrange(0, 8) =~= be_bytes(b.height as nat, 8));
    assert(s.subrange(8, s.len() as int) =~= enc_transactions(b.txs));
}

/// A block record followed by `rest` is read whole, and `rest` is left.
pub proof fn lemma_read_block(b: FileBlockView, rest: Seq<u8>)
    requires
        file_block_fits(b),
    ensures
        read_block(enc_item(block_body(b)) + rest) == Ok::<_, ContainerError>((b, rest)),
{
    lemma_take_item(block_body(b), rest);
    lemma_block_body_round_trip(b);
}

/// Reading one or more blocks where a block record comes first: that
/// block is read, and the reading goes on behind it for one block less.
pub proof fn lemma_read_blocks_step(head: FileBlockView, behind: Seq<u8>, count: nat)
    requires
        file_block_fits(head),
        count > 0,
    ensures
        read_blocks(enc_item(block_body(head)) + behind, count) == (
            seq![head] + read_blocks(behind, (count - 1) as nat).0,
            read_blocks(behind, (count - 1) as nat).1,
        ),
{
    lemma_read_block(head, behind);
}

/// The records of the blocks but the first follow the record of the first.
pub proof fn lemma_block_bodies_split(blocks: Seq<FileBlockView>)
    requires
        blocks.len() > 0,
    ensures
        enc_items(block_bodies(blocks)) == enc_item(block_body(blocks.first())) + enc_items(
            block_bodies(blocks.drop_first()),
        ),
{
    assert(block_bodies(blocks).first() == block_body(blocks.first()));
    assert(block_bodies(blocks).drop_first() =~= block_bodies(blocks.drop_first()));
}

/// Asking for `extra` more blocks than `blocks` holds, from their records
/// followed by `rest`: all of `blocks` are read, and the reading goes on in
/// `rest` for the `extra` ones.
#[verifier::rlimit(50)]
pub proof fn lemma_read_blocks(blocks: Seq<FileBlockView>, rest: Seq<u8>, extra: nat)
    requires
        forall|i: int| 0 <= i < blocks.len() ==> file_block_fits(#[trigger] blocks[i]),
    ensures
        read_blocks(enc_items(block_bodies(blocks)) + rest, blocks.len() + extra) == (
            blocks + read_blocks(rest, extra).0,
            read_blocks(rest, extra).1,
        ),
    decreases blocks.len(),
{
    let s = enc_items(block_bodies(blocks)) + rest;
    let after = read_blocks(rest, extra);
    if blocks.len() == 0 {
        assert(enc_items(block_bodies(blocks)) =~= Seq::<u8>::empty());
        assert(s =~= rest);
        assert(blocks + after.0 =~= after.0);
    } else {
        let head = blocks.first();
        let tail = blocks.drop_first();
        let behind = enc_items(block_bodies(tail)) + rest;
        lemma_block_bodies_split(blocks);
        assert(s =~= enc_item(block_body(head)) + behind);
        assert(file_block_fits(head));
        assert forall|i: int| 0 <= i < tail.len() implies file_block_fits(#[trigger] tail[i]) by {
            assert(tail[i] == blocks[i + 1]);
        }
        lemma_read_blocks_step(head, behind, blocks.len() + extra);
        lemma_read_blocks(tail, rest, extra);
        assert((blocks.len() + extra - 1) as nat == tail.len() + extra);
        assert(seq![head] + (tail + after.0) =~= blocks + after.0);
    }
}

/// What was written is read back: a container made of valid blocks
/// decodes to the same blocks, in the same order, each with its transactions
/// in their order.
pub proof fn lemma_container_round_trip(blocks: Seq<FileBlockView>)
    requires
        container_fits(blocks),
    ensures
        dec_container(enc_container(blocks)) == Ok::<_, ContainerError>(blocks),
{
    let h = FileHeader { magic: MAGIC, num_blocks: blocks.len() as u64 };
    let records = enc_items(block_bodies(blocks));
    lemma_take_header(h, records);
    lemma_read_blocks(blocks, Seq::empty(), 0);
    assert(records + Seq::<u8>::empty() =~= records);
    assert(blocks + Seq::<FileBlockView>::empty() =~= blocks);
}

/// A container made of valid blocks is read whole: its header announces
/// as many blocks as it holds, and behind the header all of them are read,
/// in order, without a fault.
pub proof fn lemma_container_is_whole(blocks: Seq<FileBlockView>)
    requires
        container_fits(blocks),
    ensures
        read_header(enc_container(blocks)) matches Ok((h, rest)) && h.num_blocks == blocks.len()
            && read_blocks(rest, blocks.len()) == (blocks, None::<ContainerError>),
{
    let h = FileHeader { magic: MAGIC, num_blocks: blocks.len() as u64 };
    let records = enc_items(block_bodies(blocks));
    lemma_take_header(h, records);
    lemma_read_blocks(blocks, Seq::empty(), 0);
    assert(records + Seq::<u8>::empty() =~= records);
    assert(blocks + Seq::<FileBlockView>::empty() =~= blocks);
}

/// A container whose header holds another magic number is refused as such,
/// whatever the header announces and whatever follows it.
pub proof fn lemma_bad_magic(magic: u64, count: u64, rest: Seq<u8>)
    requires
        magic != MAGIC,
    ensures
        dec_container(enc_header(magic, count) + rest) == Err::<Seq<FileBlockView>, _>(
            ContainerError::BadMagic,
        ),
{
    lemma_take_header(FileHeader { magic, num_blocks: count }, rest);
}

/// A container cut off after its first `k` blocks, where it announces more:
/// those `k` blocks are read, then the reading fails as ended early.
pub proof fn lemma_truncated(blocks: Seq<FileBlockView>, k: nat)
    requires
        container_fits(blocks),
        k < blocks.len(),
    ensures
        ({
            let kept = blocks.subrange(0, k as int);
            let s = enc_header(MAGIC, blocks.len() as u64) + enc_items(block_bodies(kept));
            &&& read_header(s) matches Ok((h, rest))
            &&& h.num_blocks == blocks.len()
            &&& read_blocks(rest, blocks.len()) == (kept, Some(ContainerError::EarlyTermination))
            &&& dec_container(s) == Err::<Seq<FileBlockView>, _>(ContainerError::EarlyTermination)
        }),
{
    let kept = blocks.subrange(0, k as int);
    let h = FileHeader { magic: MAGIC, num_blocks: blocks.len() as u64 };
    let records = enc_items(block_bodies(kept));
    lemma_take_header(h, records);
    let extra = (blocks.len() - k) as nat;
    lemma_read_blocks(kept, Seq::empty(), extra);
    assert(records + Seq::<u8>::empty() =~= records);
    assert(read_blocks(Seq::<u8>::empty(), extra) == (
        Seq::<FileBlockView>::empty(),
        Some(ContainerError::EarlyTermination),
    ));
    assert(kept + Seq::<FileBlockView>::empty() =~= kept);
    assert(kept.len() + extra == blocks.len());
}

// ---------------------------------------------------------------------
// Writing

impl FileBlock {
    /// The bytes of the block's record, without the length before it.
    pub fn encode(&self) -> (out: Vec<u8>)
        ensures
            out@ == block_body(self@),
            file_block_fits(self@),
    {
        let mut out: Vec<u8> = Vec::new();
        push_u64(&mut out, self.height);
        let list = encode_transactions(&self.txs);
        append_bytes(&mut out, &list);
        assert(out@ =~= block_body(self@));
        let n: usize = out.len();
        assert(block_body(self@).len() == n);
        out
    }

    /// The block whose record, without the length before it, is `data`.
    pub fn decode(data: &Vec<u8>) -> (r: Option<FileBlock>)
        ensures
            match block_of_body(data@) {
                Some(v) => r matches Some(b) && b@ == v,
                None => r is None,
            },
    {
        if data.len() < 8 {
            return None;
        }
        let height: u64 = read_u64(data, 0);
        let list = copy_range(data, 8, data.len());
        let txs = decode_transactions(&list)?;
        Some(FileBlock { height, txs })
    }
}

/// Appends the header of a container of `num_blocks` blocks to `out`.
pub fn write_header(out: &mut Vec<u8>, num_blocks: u64)
    ensures
        final(out)@ == old(out)@ + enc_header(MAGIC, num_blocks),
{
    let mut body: Vec<u8> = Vec::new();
    push_u64(&mut body, MAGIC);
    push_u64(&mut body, num_blocks);
    assert(body@ =~= header_body(FileHeader { magic: MAGIC, num_blocks }));
    write_item(out, &body);
}

/// Appends the record of `block` to `out`.
pub fn write_block(out: &mut Vec<u8>, block: &FileBlock)
    ensures
        final(out)@ == old(out)@ + enc_item(block_body(block@)),
        file_block_fits(block@),
{
    let body = block.encode();
    write_item(out, &body);
}

/// The bytes of the container that holds `blocks`.
pub fn encode_container(blocks: &Vec<FileBlock>) -> (out: Vec<u8>)
    ensures
        out@ == enc_container(blocks_view(blocks@)),
        container_fits(blocks_view(blocks@)),
{
    let ghost all = blocks_view(blocks@);
    let n: usize = blocks.len();
    let mut out: Vec<u8> = Vec::new();
    write_header(&mut out, n as u64);
    let mut i: usize = 0;
    while i < n
        invariant
            i <= n,
            n == blocks.len(),
            all == blocks_view(blocks@),
            out@ == enc_header(MAGIC, n as u64) + enc_items(
                block_bodies(all.subrange(0, i as int)),
            ),
            forall|k: int| 0 <= k < i ==> file_block_fits(#[trigger] all[k]),
        decreases n - i,
    {
        let ghost done = block_bodies(all.subrange(0, i as int));
        write_block(&mut out, &blocks[i]);
        proof {
            lemma_enc_items_push(done, block_body(all[i as int]));
            assert(done.push(block_body(all[i as int])) =~= block_bodies(
                all.subrange(0, i + 1),
            ));
            assert(out@ =~= enc_header(MAGIC, n as u64) + enc_items(
                block_bodies(all.subrange(0, i + 1)),
            ));
        }
        i += 1;
    }
    assert(all.subrange(0, n as int) =~= all);
    out
}

// ---------------------------------------------------------------------
// Reading

/// A container that is being read, block by block.
pub struct ContainerReader {
    data: Vec<u8>,
    pos: usize,
    declared: u64,
    done: u64,
}

impl ContainerReader {
    #[verifier::type_invariant]
    spec fn inv(self) -> bool {
        &&& self.pos <= self.data@.len()
        &&& self.done <= self.declared
    }

    /// The bytes that were not read yet.
    pub closed spec fn remaining(&self) -> Seq<u8> {
        self.data@.subrange(self.pos as int, self.data@.len() as int)
    }

    /// The number of blocks that the header announces.
    pub closed spec fn announced(&self) -> nat {
        self.declared as nat
    }

    /// The number of announced blocks that were not read yet.
    pub closed spec fn left(&self) -> nat {
        (self.declared - self.done) as nat
    }

    /// Reads the header of `data`. A reader is made only if the header is
    /// whole and holds the magic number; no block has been looked at then.
    pub fn open(data: Vec<u8>) -> (r: Result<ContainerReader, ContainerError>)
        ensures
            match read_header(data@) {
                Ok((h, rest)) => r matches Ok(reader) && reader.remaining() == rest
                    && reader.announced() == h.num_blocks && reader.left() == h.num_blocks,
                Err(e) => r matches Err(x) && x == e,
            },
    {
        let (body, next) = match read_item(&data, 0) {
            Ok(x) => x,
            Err(_) => {
                assert(data@.subrange(0, data.len() as int) =~= data@);
                return Err(ContainerError::BadFormat);
            },
        };
        assert(data@.subrange(0, data.len() as int) =~= data@);
        if body.len() != 16 {
            return Err(ContainerError::BadFormat);
        }
        let magic: u64 = read_u64(&body, 0);
        let num_blocks: u64 = read_u64(&body, 8);
        if magic != MAGIC {
            return Err(ContainerError::BadMagic);
        }
        Ok(ContainerReader { data, pos: next, declared: num_blocks, done: 0 })
    }

    /// The number of blocks that the header announces.
    pub fn num_blocks(&self) -> (n: u64)
        ensures
            n == self.announced(),
    {
        self.declared
    }

    /// The number of announced blocks that were not read yet.
    pub fn blocks_left(&self) -> (n: u64)
        ensures
            n == self.left(),
    {
        proof {
            use_type_invariant(self);
        }
        self.declared - self.done
    }

    /// Reads the next block. Once all announced blocks were read there is
    /// none, whatever bytes follow. A fault leaves the reader where it was.
    pub fn next_block(&mut self) -> (r: Result<Option<FileBlock>, ContainerError>)
        ensures
            final(self).announced() == old(self).announced(),
            old(self).left() == 0 ==> (r matches Ok(None) && final(self).remaining() == old(
                self,
            ).remaining() && final(self).left() == 0),
            old(self).left() > 0 ==> match read_block(old(self).remaining()) {
                Ok((b, rest)) => r matches Ok(Some(x)) && x@ == b && final(self).remaining()
                    == rest && final(self).left() == old(self).left() - 1,
                Err(e) => r matches Err(x) && x == e && final(self).remaining() == old(
                    self,
                ).remaining() && final(self).left() == old(self).left(),
            },
    {
        proof {
            use_type_invariant(&*self);
        }
        if self.done == self.declared {
            return Ok(None);
        }
        let (body, next) = match read_item(&self.data, self.pos) {
            Ok(x) => x,
            Err(ItemError::NoLength) => {
                return Err(ContainerError::EarlyTermination);
            },
            Err(ItemError::Short) => {
                return Err(ContainerError::UnexpectedContent);
            },
        };
        let block = match FileBlock::decode(&body) {
            Some(b) => b,
            None => {
                return Err(ContainerError::MalformedRecord);
            },
        };
        self.pos = next;
        self.done = self.done + 1;
        Ok(Some(block))
    }
}

/// The blocks of the container `data`, or the first fault met in reading it.
pub fn decode_container(data: Vec<u8>) -> (r: Result<Vec<FileBlock>, ContainerError>)
    ensures
        match dec_container(data@) {
            Ok(blocks) => r matches Ok(v) && blocks_view(v@) == blocks,
            Err(e) => r matches Err(x) && x == e,
        },
{
    let ghost input = data@;
    let mut reader = match ContainerReader::open(data) {
        Ok(r) => r,
        Err(e) => {
            return Err(e);
        },
    };
    let ghost start = reader.remaining();
    let ghost count = reader.announced();
    let mut blocks: Vec<FileBlock> = Vec::new();
    loop
        invariant
            input == data@,
            count == reader.announced(),
            reader.left() <= count,
            read_blocks(start, count) == (
                blocks_view(blocks@) + read_blocks(reader.remaining(), reader.left()).0,
                read_blocks(reader.remaining(), reader.left()).1,
            ),
            read_header(input) matches Ok((h, rest)) && rest == start && h.num_blocks == count,
        decreases reader.left(),
    {
        let ghost before = blocks_view(blocks@);
        let ghost here = reader.remaining();
        let ghost left = reader.left();
        match reader.next_block() {
            Ok(Some(block)) => {
                blocks.push(block);
                proof {
                    let tail = read_blocks(reader.remaining(), reader.left());
                    assert(blocks_view(blocks@) =~= before.push(block@));
                    assert(before + (seq![block@] + tail.0) =~= blocks_view(blocks@) + tail.0);
                }
            },
            Ok(None) => {
                proof {
                    assert(blocks_view(blocks@) + Seq::<FileBlockView>::empty() =~= blocks_view(
                        blocks@,
                    ));
                }
                return Ok(blocks);
            },
            Err(e) => {
                return Err(e);
            },
        }
    }
}

// ---------------------------------------------------------------------
// Export and import

/// Why an export stopped.
#[derive(Clone, Debug, PartialEq, Eq)]
pub enum ExportError {
    /// The latest block could not be fetched.
    NoBlock(ClientError),
    /// The chain has more blocks than a container can announce.
    TooManyBlocks,
    /// The block at `height` could not be fetched.
    Block { height: u64, error: ClientError },
    /// A transaction of the block at `height` could not be fetched.
    Transaction { height: u64, error: ClientError },
}

/// The elements of `v` in reverse order.
pub fn reversed<T>(v: Vec<T>) -> (r: Vec<T>)
    ensures
        r@ == v@.reverse(),
{
    let mut v = v;
    let ghost all = v@;
    let mut r: Vec<T> = Vec::new();
    while v.len() > 0
        invariant
            v@.len() + r@.len() == all.len(),
            forall|k: int| 0 <= k < v@.len() ==> v@[k] == all[k],
            forall|k: int| 0 <= k < r@.len() ==> r@[k] == all[all.len() - 1 - k],
        decreases v@.len(),
    {
        let last = v.pop().unwrap();
        r.push(last);
    }
    assert(r@ =~= all.reverse());
    r
}

/// What comes of one request, as a message.
pub open spec fn said(reply: Reply) -> Result<MessageView, ClientErrorView> {
    message_of(received(reply))
}

/// The calls of the channel that fetch the transactions with the tickets
/// `tickets`, one exchange for each in order; `replies` is what came of
/// each request.
pub open spec fn fetches(tickets: Seq<Seq<u8>>, replies: Seq<Reply>) -> Seq<Event>
    recommends
        tickets.len() == replies.len(),
    decreases tickets.len(),
{
    if tickets.len() == 0 || replies.len() == 0 {
        Seq::empty()
    } else {
        fetches(tickets.drop_last(), replies.drop_last()) + exchange(
            enc_message(MessageView::GetTransactionRequest { hash: tickets.last() }),
            replies.last(),
        )
    }
}

/// The block at `height` was fetched whole: `first` came of the request
/// for the block and `replies` of the requests for its transactions, and
/// `txs` are the transactions that were answered with, in the order in
/// which the block lists their tickets.
pub open spec fn block_fetched(
    height: u64,
    first: Reply,
    replies: Seq<Reply>,
    txs: Seq<TransactionView>,
) -> bool {
    &&& block_in(said(first)) matches Ok((_, tickets))
    &&& replies.len() == tickets.len()
    &&& txs.len() == tickets.len()
    &&& forall|i: int|
        0 <= i < txs.len() ==> transaction_in(said(#[trigger] replies[i])) == Ok::<
            TransactionView,
            ClientErrorView,
        >(txs[i])
}

/// The calls of the channel that fetch the block at `height` whole.
pub open spec fn block_exchanges(height: u64, first: Reply, replies: Seq<Reply>) -> Seq<Event> {
    exchange(enc_message(MessageView::GetBlockRequest { height, txs: true }), first) + fetches(
        match block_in(said(first)) {
            Ok((_, tickets)) => tickets,
            Err(_) => Seq::empty(),
        },
        replies,
    )
}

/// The fetching of the block at `height` stopped with the failure `e`.
/// Either the request for the block, of which `first` came, gave no
/// block: then nothing else was asked, and the failure is the one that
/// the request came to. Or the block was had and its transactions were
/// asked for in the order of its tickets, `replies` being what came of
/// the requests: then all but the last gave a transaction, and the
/// failure is the one that the last came to.
pub open spec fn block_failed(
    before: Seq<Event>,
    after: Seq<Event>,
    height: u64,
    e: ExportError,
    first: Reply,
    replies: Seq<Reply>,
) -> bool {
    let head = exchange(enc_message(MessageView::GetBlockRequest { height, txs: true }), first);
    match e {
        ExportError::Block { height: h, error } => {
            &&& h == height
            &&& replies.len() == 0
            &&& after == before + head
            &&& block_in(said(first)) matches Err(x)
            &&& x == error@
        },
        ExportError::Transaction { height: h, error } => {
            &&& h == height
            &&& block_in(said(first)) matches Ok((_, tickets))
            &&& 0 < replies.len() <= tickets.len()
            &&& after == before + head + fetches(
                tickets.subrange(0, replies.len() as int),
                replies,
            )
            &&& forall|i: int|
                0 <= i < replies.len() - 1 ==> transaction_in(said(#[trigger] replies[i])) is Ok
            &&& transaction_in(said(replies.last())) matches Err(x)
            &&& x == error@
        },
        _ => false,
    }
}

/// The request for one more transaction of a block came to a failure:
/// the fetching of the block has failed with it.
pub proof fn lemma_transaction_failed(
    before: Seq<Event>,
    log: Seq<Event>,
    after: Seq<Event>,
    height: u64,
    e: ExportError,
    first: Reply,
    tickets: Seq<Seq<u8>>,
    replies: Seq<Reply>,
    reply: Reply,
)
    requires
        block_in(said(first)) matches Ok((_, found)) && found == tickets,
        replies.len() < tickets.len(),
        log == before + exchange(
            enc_message(MessageView::GetBlockRequest { height, txs: true }),
            first,
        ) + fetches(tickets.subrange(0, replies.len() as int), replies),
        after == log + exchange(
            enc_message(
                MessageView::GetTransactionRequest { hash: tickets[replies.len() as int] },
            ),
            reply,
        ),
        forall|k: int| 0 <= k < replies.len() ==> transaction_in(said(#[trigger] replies[k])) is Ok,
        e matches ExportError::Transaction { height: h, error } && h == height && (
        transaction_in(said(reply)) matches Err(x) && x == error@),
    ensures
        block_failed(before, after, height, e, first, replies.push(reply)),
{
    let n = replies.len() as int;
    let head = exchange(enc_message(MessageView::GetBlockRequest { height, txs: true }), first);
    let next = tickets.subrange(0, n + 1);
    let all = replies.push(reply);
    assert(next.drop_last() =~= tickets.subrange(0, n));
    assert(next.last() == tickets[n]);
    assert(all.drop_last() =~= replies);
    assert(all.last() == reply);
    assert(fetches(next, all) == fetches(tickets.subrange(0, n), replies) + exchange(
        enc_message(MessageView::GetTransactionRequest { hash: tickets[n] }),
        reply,
    ));
    assert(after =~= before + head + fetches(next, all));
    assert forall|k: int| 0 <= k < all.len() - 1 implies transaction_in(
        said(#[trigger] all[k]),
    ) is Ok by {
        assert(all[k] == replies[k]);
    }
}

/// There are replies of which `block_failed` holds.
pub open spec fn has_block_failed(
    before: Seq<Event>,
    after: Seq<Event>,
    height: u64,
    e: ExportError,
) -> bool {
    exists|first: Reply, replies: Seq<Reply>| #[trigger]
        block_failed(before, after, height, e, first, replies)
}

/// Fetches the block at `height` with all its transactions, in the order
/// in which the block lists them.
///
/// The block is asked for first; then each transaction is asked for by
/// its ticket, in the order of the tickets in the answer. Where all of
/// this succeeds, the transactions of the result are those that were
/// answered with, in that order. The first failure ends the fetching.
pub fn export_block<C: ClientChannel>(client: &mut Client<C>, height: u64) -> (r: Result<
    FileBlock,
    ExportError,
>)
    ensures
        final(client).settings() == old(client).settings(),
        final(client).failed() == old(client).failed(),
        r matches Ok(block) ==> block.height == height && exists|
            first: Reply,
            replies: Seq<Reply>,
        |
            final(client).transcript() == old(client).transcript() + #[trigger] block_exchanges(
                height,
                first,
                replies,
            ) && block_fetched(height, first, replies, block@.txs),
        r matches Err(e) ==> has_block_failed(
            old(client).transcript(),
            final(client).transcript(),
            height,
            e,
        ),
{
    let ghost before = client.transcript();
    let tx_hashes = match client.get_block_err(height) {
        Ok((_, hashes)) => hashes,
        Err(error) => {
            let e = ExportError::Block { height, error };
            proof {
                let first = last_reply(client.transcript());
                assert(block_failed(
                    before,
                    client.transcript(),
                    height,
                    e,
                    first,
                    Seq::<Reply>::empty(),
                ));
            }
            return Err(e);
        },
    };
    let ghost first = last_reply(client.transcript());
    let ghost tickets = tickets_view(tx_hashes@);
    let ghost head = exchange(
        enc_message(MessageView::GetBlockRequest { height, txs: true }),
        first,
    );
    let ghost mut replies: Seq<Reply> = Seq::empty();
    let mut txs: Vec<Transaction> = Vec::new();
    let mut i: usize = 0;
    proof {
        assert(tickets.subrange(0, 0) =~= Seq::<Seq<u8>>::empty());
        assert(before + head + fetches(tickets.subrange(0, 0), replies) =~= before + head);
    }
    while i < tx_hashes.len()
        invariant
            i <= tx_hashes.len(),
            txs@.len() == i,
            replies.len() == i,
            tickets == tickets_view(tx_hashes@),
            block_in(said(first)) matches Ok((_, found)) && found == tickets,
            before == old(client).transcript(),
            head == exchange(
                enc_message(MessageView::GetBlockRequest { height, txs: true }),
                first,
            ),
            client.transcript() == before + head + fetches(tickets.subrange(0, i as int), replies),
            forall|k: int|
                0 <= k < i ==> transaction_in(said(#[trigger] replies[k])) == Ok::<
                    TransactionView,
                    ClientErrorView,
                >(transactions_view(txs@)[k]),
            client.settings() == old(client).settings(),
            client.failed() == old(client).failed(),
        decreases tx_hashes.len() - i,
    {
        let ghost log = client.transcript();
        let ghost done = tickets.subrange(0, i as int);
        match client.get_transaction_err(tx_hashes[i]) {
            Ok(tx) => {
                proof {
                    let reply = last_reply(client.transcript());
                    let next = tickets.subrange(0, i + 1);
                    assert(next.drop_last() =~= done);
                    assert(next.last() == tx_hashes@[i as int]@);
                    assert(replies.push(reply).drop_last() =~= replies);
                    assert(client.transcript() =~= before + head + fetches(
                        next,
                        replies.push(reply),
                    ));
                    replies = replies.push(reply);
                }
                txs.push(tx);
            },
            Err(error) => {
                let e = ExportError::Transaction { height, error };
                proof {
                    let reply = last_reply(client.transcript());
                    lemma_transaction_failed(
                        before,
                        log,
                        client.transcript(),
                        height,
                        e,
                        first,
                        tickets,
                        replies,
                        reply,
                    );
                }
                return Err(e);
            },
        }
        i += 1;
    }
    proof {
        assert(tickets.subrange(0, tx_hashes@.len() as int) =~= tickets);
        assert(client.transcript() == before + block_exchanges(height, first, replies)) by {
            assert(before + head + fetches(tickets, replies) =~= before + (head + fetches(
                tickets,
                replies,
            )));
        }
    }
    let block = FileBlock { height, txs };
    proof {
        assert(block_fetched(height, first, replies, block@.txs));
    }
    Ok(block)
}

/// The calls of the channel that fetch the blocks at the heights from 0
/// on, one after the other; `firsts[i]` and `replies[i]` are what came of
/// the requests for the block at height `i`.
pub open spec fn chain_exchanges(firsts: Seq<Reply>, replies: Seq<Seq<Reply>>) -> Seq<Event>
    recommends
        firsts.len() == replies.len(),
    decreases firsts.len(),
{
    if firsts.len() == 0 || replies.len() == 0 {
        Seq::empty()
    } else {
        chain_exchanges(firsts.drop_last(), replies.drop_last()) + block_exchanges(
            (firsts.len() - 1) as u64,
            firsts.last(),
            replies.last(),
        )
    }
}

/// The blocks `blocks` are those that were fetched for the heights from 0
/// on: the block at place `i` has the height `i` and the transactions that
/// the requests for that height were answered with.
pub open spec fn chain_fetched(
    firsts: Seq<Reply>,
    replies: Seq<Seq<Reply>>,
    blocks: Seq<FileBlockView>,
) -> bool {
    &&& firsts.len() == blocks.len()
    &&& replies.len() == blocks.len()
    &&& forall|i: int|
        0 <= i < blocks.len() ==> (#[trigger] blocks[i]).height == i && block_fetched(
            i as u64,
            firsts[i],
            replies[i],
            blocks[i].txs,
        )
}

/// What an export did and gave: `latest` came of the request for the
/// latest block, whose header is `last`; then the blocks `blocks` were
/// fetched for the heights from 0 up to that of `last`; and `bytes` are
/// the bytes of the container that holds exactly these blocks.
pub open spec fn exported(
    before: Seq<Event>,
    after: Seq<Event>,
    bytes: Seq<u8>,
    last: Block,
    latest: Reply,
    firsts: Seq<Reply>,
    replies: Seq<Seq<Reply>>,
    blocks: Seq<FileBlockView>,
) -> bool {
    &&& block_in(said(latest)) matches Ok((header, _))
    &&& header == last@
    &&& blocks.len() == last.height + 1
    &&& chain_fetched(firsts, replies, blocks)
    &&& after == before + exchange(
        enc_message(MessageView::GetBlockRequest { height: u64::MAX, txs: true }),
        latest,
    ) + chain_exchanges(firsts, replies)
    &&& bytes == enc_container(blocks)
    &&& container_fits(blocks)
}

/// What an export gave is read back as what it fetched: the bytes decode
/// to the blocks that were fetched, one for each height from 0 up to that
/// of the latest block, in that order, each with its transactions in the
/// order in which they were fetched.
pub proof fn lemma_export_reads_back(
    before: Seq<Event>,
    after: Seq<Event>,
    bytes: Seq<u8>,
    last: Block,
    latest: Reply,
    firsts: Seq<Reply>,
    replies: Seq<Seq<Reply>>,
    blocks: Seq<FileBlockView>,
)
    requires
        exported(before, after, bytes, last, latest, firsts, replies, blocks),
    ensures
        dec_container(bytes) == Ok::<_, ContainerError>(blocks),
        blocks.len() == last.height + 1,
        forall|i: int| 0 <= i < blocks.len() ==> (#[trigger] blocks[i]).height == i,
{
    lemma_container_round_trip(blocks);
}

/// An export stopped with the failure `e`. The latest block was asked
/// for, and `latest` came of it. Either that gave no block, or one at the
/// largest height, whose chain cannot be counted: then nothing else was
/// asked. Or the blocks `blocks` were fetched whole for the heights from 0
/// on, and the fetching of the next one, at a height up to that of the
/// latest block, stopped with `e` (see `block_failed`).
pub open spec fn export_failed(
    before: Seq<Event>,
    after: Seq<Event>,
    e: ExportError,
    latest: Reply,
    firsts: Seq<Reply>,
    replies: Seq<Seq<Reply>>,
    blocks: Seq<FileBlockView>,
    first: Reply,
    answers: Seq<Reply>,
) -> bool {
    let start = before + exchange(
        enc_message(MessageView::GetBlockRequest { height: u64::MAX, txs: true }),
        latest,
    );
    match e {
        ExportError::NoBlock(error) => {
            &&& after == start
            &&& block_in(said(latest)) matches Err(x)
            &&& x == error@
        },
        ExportError::TooManyBlocks => {
            &&& after == start
            &&& block_in(said(latest)) matches Ok((header, _))
            &&& header.height == u64::MAX
        },
        ExportError::Block { height, .. } | ExportError::Transaction { height, .. } => {
            &&& block_in(said(latest)) matches Ok((header, _))
            &&& height <= header.height
            &&& header.height < u64::MAX
            &&& blocks.len() == height
            &&& chain_fetched(firsts, replies, blocks)
            &&& block_failed(
                start + chain_exchanges(firsts, replies),
                after,
                height,
                e,
                first,
                answers,
            )
        },
    }
}

/// There are replies and blocks of which `export_failed` holds.
pub open spec fn has_export_failed(before: Seq<Event>, after: Seq<Event>, e: ExportError) -> bool {
    exists|
        latest: Reply,
        firsts: Seq<Reply>,
        replies: Seq<Seq<Reply>>,
        blocks: Seq<FileBlockView>,
        first: Reply,
        answers: Seq<Reply>,
    | #[trigger]
        export_failed(before, after, e, latest, firsts, replies, blocks, first, answers)
}

/// One more block that was fetched whole, for the next height, comes last.
pub proof fn lemma_chain_grows(
    firsts: Seq<Reply>,
    replies: Seq<Seq<Reply>>,
    blocks: Seq<FileBlockView>,
    first: Reply,
    answers: Seq<Reply>,
    block: FileBlockView,
)
    requires
        chain_fetched(firsts, replies, blocks),
        blocks.len() < u64::MAX,
        block.height == blocks.len(),
        block_fetched(blocks.len() as u64, first, answers, block.txs),
    ensures
        chain_fetched(firsts.push(first), replies.push(answers), blocks.push(block)),
        chain_exchanges(firsts.push(first), replies.push(answers)) == chain_exchanges(
            firsts,
            replies,
        ) + block_exchanges(blocks.len() as u64, first, answers),
{
    assert(firsts.push(first).drop_last() =~= firsts);
    assert(replies.push(answers).drop_last() =~= replies);
}

/// The fetching of the block at `height` stopped with a failure after the
/// blocks below it were fetched whole: the export has failed with it.
pub proof fn lemma_export_failed(
    before: Seq<Event>,
    after: Seq<Event>,
    e: ExportError,
    height: u64,
    latest: Reply,
    firsts: Seq<Reply>,
    replies: Seq<Seq<Reply>>,
    blocks: Seq<FileBlockView>,
)
    requires
        block_in(said(latest)) matches Ok((header, _)) && height <= header.height
            && header.height < u64::MAX,
        blocks.len() == height,
        chain_fetched(firsts, replies, blocks),
        has_block_failed(
            before + exchange(
                enc_message(MessageView::GetBlockRequest { height: u64::MAX, txs: true }),
                latest,
            ) + chain_exchanges(firsts, replies),
            after,
            height,
            e,
        ),
    ensures
        has_export_failed(before, after, e),
{
    let mid = before + exchange(
        enc_message(MessageView::GetBlockRequest { height: u64::MAX, txs: true }),
        latest,
    ) + chain_exchanges(firsts, replies);
    let (first, answers) = choose|first: Reply, answers: Seq<Reply>| #[trigger]
        block_failed(mid, after, height, e, first, answers);
    assert(export_failed(before, after, e, latest, firsts, replies, blocks, first, answers));
}

/// An export made the transcript `after` of `before` and gave `bytes` and
/// `last`: there are replies and blocks of which `exported` holds.
pub open spec fn was_exported(
    before: Seq<Event>,
    after: Seq<Event>,
    bytes: Seq<u8>,
    last: Block,
) -> bool {
    exists|latest: Reply, firsts: Seq<Reply>, replies: Seq<Seq<Reply>>, blocks: Seq<FileBlockView>|
     #[trigger]
        exported(before, after, bytes, last, latest, firsts, replies, blocks)
}

/// Exports the whole chain: fetches the latest block to learn the height
/// of the chain, then every block from height 0 up to it, and gives the
/// bytes of the container that holds them, with the header of the latest
/// block.
///
/// The container announces as many blocks as it holds: one more than the
/// height of the latest block. The block at place `i` in it is the one
/// that was fetched for the height `i`, with its transactions in the order
/// in which they were fetched. The first failure ends the export.
pub fn export_txs<C: ClientChannel>(client: &mut Client<C>) -> (r: Result<
    (Vec<u8>, Block),
    ExportError,
>)
    ensures
        final(client).settings() == old(client).settings(),
        final(client).failed() == old(client).failed(),
        r matches Ok((bytes, last)) ==> was_exported(
            old(client).transcript(),
            final(client).transcript(),
            bytes@,
            last,
        ),
        r matches Err(e) ==> has_export_failed(
            old(client).transcript(),
            final(client).transcript(),
            e,
        ),
{
    let ghost before = client.transcript();
    let ghost none = Seq::<Reply>::empty();
    let ghost nothing = Seq::<Seq<Reply>>::empty();
    let ghost no_blocks = Seq::<FileBlockView>::empty();
    let last_block = match client.get_block_err(u64::MAX) {
        Ok((block, _)) => block,
        Err(error) => {
            let e = ExportError::NoBlock(error);
            proof {
                let latest = last_reply(client.transcript());
                assert(export_failed(
                    before,
                    client.transcript(),
                    e,
                    latest,
                    none,
                    nothing,
                    no_blocks,
                    latest,
                    none,
                ));
            }
            return Err(e);
        },
    };
    let ghost latest = last_reply(client.transcript());
    let ghost start = client.transcript();
    if last_block.height == u64::MAX {
        proof {
            assert(export_failed(
                before,
                client.transcript(),
                ExportError::TooManyBlocks,
                latest,
                none,
                nothing,
                no_blocks,
                latest,
                none,
            ));
        }
        return Err(ExportError::TooManyBlocks);
    }
    let count: u64 = last_block.height + 1;
    let mut out: Vec<u8> = Vec::new();
    write_header(&mut out, count);
    let ghost mut blocks: Seq<FileBlockView> = Seq::empty();
    let ghost mut firsts: Seq<Reply> = Seq::empty();
    let ghost mut replies: Seq<Seq<Reply>> = Seq::empty();
    let mut i: u64 = 0;
    proof {
        assert(enc_items(block_bodies(blocks)) =~= Seq::<u8>::empty());
        assert(out@ =~= enc_header(MAGIC, count) + enc_items(block_bodies(blocks)));
        assert(start + chain_exchanges(firsts, replies) =~= start);
    }
    while i < count
        invariant
            i <= count,
            blocks.len() == i,
            out@ == enc_header(MAGIC, count) + enc_items(block_bodies(blocks)),
            forall|k: int| 0 <= k < i ==> file_block_fits(#[trigger] blocks[k]),
            chain_fetched(firsts, replies, blocks),
            client.transcript() == start + chain_exchanges(firsts, replies),
            client.settings() == old(client).settings(),
            client.failed() == old(client).failed(),
            before == old(client).transcript(),
            start == before + exchange(
                enc_message(MessageView::GetBlockRequest { height: u64::MAX, txs: true }),
                latest,
            ),
            block_in(said(latest)) matches Ok((header, _)) && header.height + 1 == count,
        decreases count - i,
    {
        let ghost log = client.transcript();
        let block = match export_block(client, i) {
            Ok(b) => b,
            Err(e) => {
                proof {
                    lemma_export_failed(
                        before,
                        client.transcript(),
                        e,
                        i,
                        latest,
                        firsts,
                        replies,
                        blocks,
                    );
                }
                return Err(e);
            },
        };
        let ghost done = block_bodies(blocks);
        write_block(&mut out, &block);
        proof {
            lemma_enc_items_push(done, block_body(block@));
            assert(done.push(block_body(block@)) =~= block_bodies(blocks.push(block@)));
            assert(out@ =~= enc_header(MAGIC, count) + enc_items(
                block_bodies(blocks.push(block@)),
            ));
            let (first, answers) = choose|first: Reply, answers: Seq<Reply>|
                client.transcript() == log + #[trigger] block_exchanges(i, first, answers)
                    && block_fetched(i, first, answers, block@.txs);
            lemma_chain_grows(firsts, replies, blocks, first, answers, block@);
            assert(client.transcript() =~= start + chain_exchanges(
                firsts.push(first),
                replies.push(answers),
            ));
            firsts = firsts.push(first);
            replies = replies.push(answers);
            blocks = blocks.push(block@);
        }
        i += 1;
    }
    proof {
        assert(out@ == enc_container(blocks));
        assert(container_fits(blocks));
        assert(exported(
            old(client).transcript(),
            client.transcript(),
            out@,
            last_block,
            latest,
            firsts,
            replies,
            blocks,
        ));
        assert(was_exported(old(client).transcript(), client.transcript(), out@, last_block));
    }
    Ok((out, last_block))
}

/// The calls of the channel that submit the transactions `txs`, one
/// exchange for each in order; `replies` is what came of each request.
pub open spec fn submissions(txs: Seq<TransactionView>, replies: Seq<Reply>) -> Seq<Event>
    recommends
        txs.len() == replies.len(),
    decreases txs.len(),
{
    if txs.len() == 0 || replies.len() == 0 {
        Seq::empty()
    } else {
        submissions(txs.drop_last(), replies.drop_last()) + exchange(
            enc_message(MessageView::PutTransactionRequest { confirm: true, tx: txs.last() }),
            replies.last(),
        )
    }
}

/// The tickets that the submissions with the replies `replies` were
/// answered with, in order; a submission that was not accepted has none.
pub open spec fn accepted(replies: Seq<Reply>) -> Seq<Seq<u8>>
    decreases replies.len(),
{
    if replies.len() == 0 {
        Seq::empty()
    } else {
        match ticket_in(said(replies.last())) {
            Ok(ticket) => accepted(replies.drop_last()).push(ticket),
            Err(_) => accepted(replies.drop_last()),
        }
    }
}

/// The replies `replies` are those of a submission of the transactions
/// `all` that stops at the first failure: there is one reply for each
/// transaction up to the first that was not accepted, or for all of them
/// if all were accepted.
pub open spec fn strictly(all: Seq<TransactionView>, replies: Seq<Reply>) -> bool {
    &&& replies.len() <= all.len()
    &&& forall|i: int| 0 <= i < replies.len() - 1 ==> ticket_in(said(#[trigger] replies[i])) is Ok
    &&& replies.len() < all.len() ==> replies.len() > 0 && ticket_in(said(replies.last())) is Err
}

/// What a submission that stops at the first failure comes to: the failure
/// of the last reply, or the tickets of all replies.
pub open spec fn submit_outcome(replies: Seq<Reply>) -> Result<Seq<Seq<u8>>, ClientErrorView> {
    if replies.len() == 0 {
        Ok(Seq::empty())
    } else {
        match ticket_in(said(replies.last())) {
            Err(e) => Err(e),
            Ok(_) => Ok(accepted(replies)),
        }
    }
}

/// The transactions `all` of a block were submitted in their order up to
/// the first failure, `replies` is what came of the requests, and `r` is
/// what the submission came to.
pub open spec fn block_submitted(
    before: Seq<Event>,
    after: Seq<Event>,
    all: Seq<TransactionView>,
    r: Result<Vec<Ticket>, ClientError>,
    replies: Seq<Reply>,
) -> bool {
    &&& strictly(all, replies)
    &&& after == before + submissions(all.subrange(0, replies.len() as int), replies)
    &&& match submit_outcome(replies) {
        Ok(tickets) => r matches Ok(v) && tickets_view(v@) == tickets,
        Err(e) => r matches Err(x) && x@ == e,
    }
}

/// There are replies of which `block_submitted` holds.
pub open spec fn has_block_submitted(
    before: Seq<Event>,
    after: Seq<Event>,
    all: Seq<TransactionView>,
    r: Result<Vec<Ticket>, ClientError>,
) -> bool {
    exists|replies: Seq<Reply>| #[trigger] block_submitted(before, after, all, r, replies)
}

/// One more submission comes last.
pub proof fn lemma_submitted_one_more(
    all: Seq<TransactionView>,
    replies: Seq<Reply>,
    reply: Reply,
)
    requires
        replies.len() < all.len(),
    ensures
        submissions(all.subrange(0, replies.len() as int + 1), replies.push(reply)) == submissions(
            all.subrange(0, replies.len() as int),
            replies,
        ) + exchange(
            enc_message(
                MessageView::PutTransactionRequest {
                    confirm: true,
                    tx: all[replies.len() as int],
                },
            ),
            reply,
        ),
        accepted(replies.push(reply)) == match ticket_in(said(reply)) {
            Ok(ticket) => accepted(replies).push(ticket),
            Err(_) => accepted(replies),
        },
{
    let n = replies.len() as int;
    assert(all.subrange(0, n + 1).drop_last() =~= all.subrange(0, n));
    assert(replies.push(reply).drop_last() =~= replies);
}

/// Submits the transactions of `block` in their order, and stops at the
/// first that is not accepted.
///
/// One exchange is made for each transaction, in the order of the block,
/// up to the first whose answer is no ticket. Where every transaction was
/// accepted the result is the tickets of the answers, in order; else it is
/// the failure of the last submission, and no transaction after it was
/// submitted.
pub fn import_block<C: ClientChannel>(client: &mut Client<C>, block: FileBlock) -> (r: Result<
    Vec<Ticket>,
    ClientError,
>)
    ensures
        final(client).settings() == old(client).settings(),
        final(client).failed() == old(client).failed(),
        has_block_submitted(old(client).transcript(), final(client).transcript(), block@.txs, r),
{
    let ghost before = client.transcript();
    let ghost all = block@.txs;
    let mut rest = reversed(block.txs);
    let ghost total = rest@.len();
    let ghost mut replies: Seq<Reply> = Seq::empty();
    let mut hashes: Vec<Ticket> = Vec::new();
    proof {
        assert(all.subrange(0, 0) =~= Seq::<TransactionView>::empty());
        assert(before + submissions(all.subrange(0, 0), replies) =~= before);
        assert(tickets_view(hashes@) =~= accepted(replies));
    }
    while rest.len() > 0
        invariant
            total == all.len(),
            all == block@.txs,
            replies.len() + rest@.len() == total,
            before == old(client).transcript(),
            forall|k: int| 0 <= k < rest@.len() ==> (#[trigger] rest@[k])@ == all[total - 1 - k],
            forall|k: int| 0 <= k < replies.len() ==> ticket_in(said(#[trigger] replies[k])) is Ok,
            client.transcript() == before + submissions(
                all.subrange(0, replies.len() as int),
                replies,
            ),
            tickets_view(hashes@) == accepted(replies),
            client.settings() == old(client).settings(),
            client.failed() == old(client).failed(),
        decreases rest@.len(),
    {
        let ghost i = replies.len() as int;
        let ghost had = tickets_view(hashes@);
        let ghost log = client.transcript();
        let tx = rest.pop().unwrap();
        assert(tx@ == all[i]);
        let answer = client.put_transaction_err(tx);
        proof {
            let reply = last_reply(client.transcript());
            lemma_submitted_one_more(all, replies, reply);
            assert(client.transcript() =~= before + submissions(
                all.subrange(0, i + 1),
                replies.push(reply),
            ));
        }
        match answer {
            Ok(hash) => {
                hashes.push(hash);
                proof {
                    let reply = last_reply(client.transcript());
                    assert(tickets_view(hashes@) =~= had.push(hash@));
                    replies = replies.push(reply);
                }
            },
            Err(e) => {
                proof {
                    let reply = last_reply(client.transcript());
                    let all_replies = replies.push(reply);
                    assert forall|k: int| 0 <= k < all_replies.len() - 1 implies ticket_in(
                        said(#[trigger] all_replies[k]),
                    ) is Ok by {
                        assert(all_replies[k] == replies[k]);
                    }
                    assert(block_submitted(
                        before,
                        client.transcript(),
                        all,
                        Err::<Vec<Ticket>, ClientError>(e),
                        all_replies,
                    ));
                }
                return Err(e);
            },
        }
    }
    proof {
        assert(all.subrange(0, total as int) =~= all);
        assert(block_submitted(
            before,
            client.transcript(),
            all,
            Ok::<Vec<Ticket>, ClientError>(hashes),
            replies,
        ));
    }
    Ok(hashes)
}

/// Whether the chain that an import has made differs in length from the
/// container it was made from: the latest block is not the last of
/// `declared` blocks numbered from 0.
pub fn blocks_differ(last_height: u64, declared: u64) -> (b: bool)
    ensures
        b == (last_height + 1 != declared),
{
    if last_height == u64::MAX {
        true
    } else {
        last_height + 1 != declared
    }
}

// ---------------------------------------------------------------------
// Import, step by step

/// Why an import stopped.
#[derive(Clone, Debug, PartialEq, Eq)]
pub enum ImportError {
    /// The container cannot be read any further.
    Container(ContainerError),
    /// A transaction of the block at `height` was not accepted; no
    /// transaction after it was submitted.
    Submit { height: u64, error: ClientError },
    /// The receipt of the transaction with the ticket `ticket`, of the
    /// block at `height`, did not come within the budget.
    Timeout { ticket: Ticket, height: u64 },
    /// The receipt of the transaction with the ticket `ticket`, of the
    /// block at `height`, could not be fetched.
    Receipt { ticket: Ticket, height: u64, error: ClientError },
    /// The latest block could not be fetched when all was imported.
    NoBlock(ClientError),
}

pub enum ImportErrorView {
    Container(ContainerError),
    Submit { height: u64, error: ClientErrorView },
    Timeout { ticket: Seq<u8>, height: u64 },
    Receipt { ticket: Seq<u8>, height: u64, error: ClientErrorView },
    NoBlock(ClientErrorView),
}

impl View for ImportError {
    type V = ImportErrorView;

    open spec fn view(&self) -> ImportErrorView {
        match *self {
            ImportError::Container(e) => ImportErrorView::Container(e),
            ImportError::Submit { height, error } => ImportErrorView::Submit {
                height,
                error: error@,
            },
            ImportError::Timeout { ticket, height } => ImportErrorView::Timeout {
                ticket: ticket@,
                height,
            },
            ImportError::Receipt { ticket, height, error } => ImportErrorView::Receipt {
                ticket: ticket@,
                height,
                error: error@,
            },
            ImportError::NoBlock(e) => ImportErrorView::NoBlock(e@),
        }
    }
}

/// What an import asks of its caller.
#[derive(Clone, Debug, PartialEq, Eq)]
pub enum ImportStep {
    /// Pause for so many seconds, then go on.
    Pause(u64),
    /// All blocks of the container were imported. `last` is the latest
    /// block of the chain now, and `differs` says that the chain does not
    /// have as many blocks as the container announced: a warning, no
    /// failure.
    Finished { differs: bool, last: Block },
    /// The import stopped.
    Failed(ImportError),
}

pub enum ImportStepView {
    Pause(u64),
    Finished { differs: bool, last: BlockView },
    Failed(ImportErrorView),
}

impl View for ImportStep {
    type V = ImportStepView;

    open spec fn view(&self) -> ImportStepView {
        match *self {
            ImportStep::Pause(secs) => ImportStepView::Pause(secs),
            ImportStep::Finished { differs, last } => ImportStepView::Finished {
                differs,
                last: last@,
            },
            ImportStep::Failed(e) => ImportStepView::Failed(e@),
        }
    }
}

/// One piece of the work of an import over the channel.
pub enum Work {
    /// The transactions `txs` of a block were submitted in their order,
    /// and `replies` came of the requests.
    Submit { txs: Seq<TransactionView>, replies: Seq<Reply> },
    /// The receipt of the transaction with this ticket was asked for.
    Poll { ticket: Seq<u8>, reply: Reply },
    /// The latest block was asked for.
    Latest { reply: Reply },
}

/// The calls of the channel that a piece of work makes.
pub open spec fn work_events(w: Work) -> Seq<Event> {
    match w {
        Work::Submit { txs, replies } => submissions(txs, replies),
        Work::Poll { ticket, reply } => exchange(
            enc_message(MessageView::GetReceiptRequest { hash: ticket }),
            reply,
        ),
        Work::Latest { reply } => exchange(
            enc_message(MessageView::GetBlockRequest { height: u64::MAX, txs: true }),
            reply,
        ),
    }
}

/// The calls of the channel that pieces of work make, one after the other.
pub open spec fn works_events(ws: Seq<Work>) -> Seq<Event>
    decreases ws.len(),
{
    if ws.len() == 0 {
        Seq::empty()
    } else {
        works_events(ws.drop_last()) + work_events(ws.last())
    }
}

/// The state of an import, as far as its course depends on it.
pub struct Course {
    /// The blocks that are still to be read, as far as they can be read.
    pub ahead: Seq<FileBlockView>,
    /// The fault that stops the reading behind those blocks, if there is
    /// one.
    pub fault: Option<ContainerError>,
    /// The number of blocks that the container announces.
    pub announced: nat,
    /// The tickets of the block at hand that are still to be confirmed,
    /// in the order in which they were handed out.
    pub pending: Seq<Seq<u8>>,
    /// The attempts made for the first of them.
    pub made: nat,
    /// The attempts that may be made for each ticket.
    pub budget: nat,
    /// The seconds to pause between two attempts.
    pub delay_secs: u64,
    /// The height of the block at hand.
    pub height: u64,
    /// The number of blocks that were submitted and confirmed whole.
    pub imported: nat,
}

/// One more block imported, as far as the count goes.
pub open spec fn bump(n: nat) -> nat {
    if n < u64::MAX {
        n + 1
    } else {
        n
    }
}

/// What the answer to a request for a receipt is for the waiting: the
/// receipt, the answer "not found", or a failure.
pub open spec fn attempt_in(answer: Result<ReceiptView, ClientErrorView>) -> Attempt<
    ReceiptView,
    ClientErrorView,
> {
    match answer {
        Ok(rx) => Attempt::Found(rx),
        Err(e) => if e matches ClientErrorView::Remote(x) && x.kind == ErrorKind::ResourceNotFound {
            Attempt::NotFound
        } else {
            Attempt::Failed(e)
        },
    }
}

/// What an import does without the channel, where it does anything: it
/// fails as timed out for a ticket that no attempt may be made for, and
/// fails with the fault of the container when no ticket is pending, no
/// block is left to read and the container holds a fault. The ticket that
/// timed out is pending no longer.
pub open spec fn halts(s: Course) -> Option<(Course, ImportStepView)> {
    if s.pending.len() > 0 {
        if s.made >= s.budget {
            Some(
                (
                    Course { pending: s.pending.drop_first(), made: 0, ..s },
                    ImportStepView::Failed(
                        ImportErrorView::Timeout { ticket: s.pending[0], height: s.height },
                    ),
                ),
            )
        } else {
            None
        }
    } else if s.ahead.len() > 0 {
        None
    } else {
        match s.fault {
            Some(e) => Some((s, ImportStepView::Failed(ImportErrorView::Container(e)))),
            None => None,
        }
    }
}

/// The piece of work `w` is the one that is due in the state `s`: the
/// receipt of the first pending ticket is asked for; or, where no ticket
/// is pending, the transactions of the next block are submitted up to the
/// first failure; or, where no block is left either, the latest block is
/// asked for.
pub open spec fn due(s: Course, w: Work) -> bool {
    match w {
        Work::Poll { ticket, .. } => s.pending.len() > 0 && s.made < s.budget && ticket
            == s.pending[0],
        Work::Submit { txs, replies } => s.pending.len() == 0 && s.ahead.len() > 0 && strictly(
            s.ahead[0].txs,
            replies,
        ) && txs == s.ahead[0].txs.subrange(0, replies.len() as int),
        Work::Latest { .. } => s.pending.len() == 0 && s.ahead.len() == 0 && s.fault is None,
    }
}

/// The state after the poll of the first pending ticket came to `action`,
/// and the result if the import stops there.
pub open spec fn polled(
    s: Course,
    action: Action<ReceiptView, ClientErrorView>,
) -> (Course, Option<ImportStepView>) {
    let ticket = s.pending[0];
    let rest = Course { pending: s.pending.drop_first(), made: 0, ..s };
    match action {
        Action::Fetch { after_secs } => (
            Course { made: s.made + 1, ..s },
            if after_secs > 0 {
                Some(ImportStepView::Pause(after_secs))
            } else {
                None
            },
        ),
        Action::Finish(Verdict::Done(_)) => (
            Course {
                imported: if rest.pending.len() == 0 {
                    bump(s.imported)
                } else {
                    s.imported
                },
                ..rest
            },
            None,
        ),
        Action::Finish(Verdict::TimedOut) => (
            rest,
            Some(
                ImportStepView::Failed(ImportErrorView::Timeout { ticket, height: s.height }),
            ),
        ),
        Action::Finish(Verdict::Failed(error)) => (
            rest,
            Some(
                ImportStepView::Failed(
                    ImportErrorView::Receipt { ticket, height: s.height, error },
                ),
            ),
        ),
    }
}

/// The state after the piece of work `w`, which was due in the state `s`,
/// and the result if the import stops there.
///
/// A poll counts as one attempt for the first pending ticket, and what it
/// comes to is what the poller makes of the answer: a receipt confirms
/// the ticket, which is pending no longer; "not found" with attempts left
/// asks for a pause, if there is a delay; "not found" at the last attempt
/// of the budget is a timeout; any other failure is a failure of the
/// import. A submission takes the next block: the tickets of its answers
/// become pending, or its first failure is a failure of the import. The
/// answer to the request for the latest block ends the import.
pub open spec fn effect(s: Course, w: Work) -> (Course, Option<ImportStepView>) {
    match w {
        Work::Poll { reply, .. } => polled(
            s,
            next_action(
                s.budget,
                s.delay_secs,
                s.made + 1,
                attempt_in(receipt_in(said(reply))),
            ),
        ),
        Work::Submit { replies, .. } => {
            let block = s.ahead[0];
            let next = Course { ahead: s.ahead.drop_first(), height: block.height, ..s };
            match submit_outcome(replies) {
                Err(error) => (
                    next,
                    Some(
                        ImportStepView::Failed(
                            ImportErrorView::Submit { height: block.height, error },
                        ),
                    ),
                ),
                Ok(tickets) => (
                    Course {
                        pending: tickets,
                        made: 0,
                        imported: if tickets.len() == 0 {
                            bump(s.imported)
                        } else {
                            s.imported
                        },
                        ..next
                    },
                    None,
                ),
            }
        },
        Work::Latest { reply } => match block_in(said(reply)) {
            Ok((header, _)) => (
                s,
                Some(
                    ImportStepView::Finished {
                        differs: header.height + 1 != s.announced,
                        last: header,
                    },
                ),
            ),
            Err(e) => (s, Some(ImportStepView::Failed(ImportErrorView::NoBlock(e)))),
        },
    }
}

/// The state that the pieces of work `ws` lead to from the state `from`,
/// where each of them was due when it was done and none of them stopped
/// the import, nor did the import halt before any of them.
pub open spec fn reach(from: Course, ws: Seq<Work>) -> Option<Course>
    decreases ws.len(),
{
    if ws.len() == 0 {
        Some(from)
    } else {
        match reach(from, ws.drop_last()) {
            Some(s) => if halts(s) is None && due(s, ws.last()) && effect(s, ws.last()).1 is None {
                Some(effect(s, ws.last()).0)
            } else {
                None
            },
            None => None,
        }
    }
}

/// A stretch of an import from the state `from` did the work `ws`, ended in
/// the state `to` and gave `out`. Either all of the work went on and the
/// import then halted by itself; or the last piece of work stopped it.
pub open spec fn ended(from: Course, ws: Seq<Work>, to: Course, out: ImportStepView) -> bool {
    ||| match reach(from, ws) {
        Some(s) => halts(s) == Some((to, out)),
        None => false,
    }
    ||| ws.len() > 0 && match reach(from, ws.drop_last()) {
        Some(s) => halts(s) is None && due(s, ws.last()) && effect(s, ws.last()) == (
            to,
            Some(out),
        ),
        None => false,
    }
}

/// A stretch of an import led from the state `from` to the state `to`,
/// gave `out`, and made the transcript `after` of `before`: there is work
/// that it did, piece by piece as each was due, which made exactly these
/// calls of the channel.
pub open spec fn has_advanced(
    from: Course,
    to: Course,
    out: ImportStepView,
    before: Seq<Event>,
    after: Seq<Event>,
) -> bool {
    exists|ws: Seq<Work>| #[trigger] ended(from, ws, to, out) && after == before + works_events(ws)
}

/// One more piece of work that does not stop the import leads on.
pub proof fn lemma_reach_on(from: Course, ws: Seq<Work>, s: Course, w: Work)
    requires
        reach(from, ws) == Some(s),
        halts(s) is None,
        due(s, w),
        effect(s, w).1 is None,
    ensures
        reach(from, ws.push(w)) == Some(effect(s, w).0),
        works_events(ws.push(w)) == works_events(ws) + work_events(w),
{
    assert(ws.push(w).drop_last() =~= ws);
}

/// One more piece of work that stops the import ends the stretch.
pub proof fn lemma_ended_by(
    from: Course,
    ws: Seq<Work>,
    s: Course,
    w: Work,
    to: Course,
    out: ImportStepView,
)
    requires
        reach(from, ws) == Some(s),
        halts(s) is None,
        due(s, w),
        effect(s, w) == (to, Some(out)),
    ensures
        ended(from, ws.push(w), to, out),
        works_events(ws.push(w)) == works_events(ws) + work_events(w),
{
    assert(ws.push(w).drop_last() =~= ws);
}

/// The view of the result of a piece of an import: none where the
/// import goes on.
pub open spec fn step_view(r: Option<ImportStep>) -> Option<ImportStepView> {
    match r {
        Some(step) => Some(step@),
        None => None,
    }
}

/// The attempts that are left for the first pending ticket.
pub open spec fn steps_left(s: Course) -> nat {
    if s.made < s.budget {
        (s.budget - s.made) as nat
    } else {
        0
    }
}

/// One piece of an import led from the state `s` to the state `t`, gave
/// `out` where it stopped the import, and made the transcript `after` of
/// `before`: either the import halted by itself, without a call of the
/// channel, or the work that was due was done.
pub open spec fn stepped(
    s: Course,
    t: Course,
    out: Option<ImportStepView>,
    before: Seq<Event>,
    after: Seq<Event>,
) -> bool {
    match halts(s) {
        Some((to, o)) => t == to && out == Some(o) && after == before,
        None => exists|w: Work| #[trigger]
            due(s, w) && effect(s, w) == (t, out) && after == before + work_events(w),
    }
}

/// A piece of work that lets the import go on, with a pause or without,
/// brings it nearer to its end: a block less is ahead, or a ticket less is
/// pending, or an attempt less is left.
pub proof fn lemma_nearer(s: Course, w: Work)
    requires
        halts(s) is None,
        due(s, w),
        passes(effect(s, w).1),
    ensures
        ({
            let t = effect(s, w).0;
            ||| t.ahead.len() < s.ahead.len()
            ||| (t.ahead.len() == s.ahead.len() && t.pending.len() < s.pending.len())
            ||| (t.ahead.len() == s.ahead.len() && t.pending.len() == s.pending.len()
                && steps_left(t) < steps_left(s))
        }),
{
}

/// One piece after the work `ws`: the stretch has ended with it, or the
/// work with one piece more leads to the state after it, which is nearer
/// to the end.
pub proof fn lemma_stepped(
    from: Course,
    ws: Seq<Work>,
    s: Course,
    t: Course,
    out: Option<ImportStepView>,
    before: Seq<Event>,
    log: Seq<Event>,
    after: Seq<Event>,
)
    requires
        reach(from, ws) == Some(s),
        log == before + works_events(ws),
        stepped(s, t, out, log, after),
    ensures
        out matches Some(o) ==> has_advanced(from, t, o, before, after),
        out is None ==> (exists|longer: Seq<Work>|
            reach(from, longer) == Some(t) && after == before + #[trigger] works_events(longer)),
        out is None ==> {
            ||| t.ahead.len() < s.ahead.len()
            ||| (t.ahead.len() == s.ahead.len() && t.pending.len() < s.pending.len())
            ||| (t.ahead.len() == s.ahead.len() && t.pending.len() == s.pending.len()
                && steps_left(t) < steps_left(s))
        },
{
    match halts(s) {
        Some((to, o)) => {
            assert(ended(from, ws, t, o));
        },
        None => {
            let w = choose|w: Work| #[trigger]
                due(s, w) && effect(s, w) == (t, out) && after == log + work_events(w);
            match out {
                Some(o) => {
                    lemma_ended_by(from, ws, s, w, t, o);
                    assert(after =~= before + works_events(ws.push(w)));
                    assert(ended(from, ws.push(w), t, o));
                },
                None => {
                    lemma_reach_on(from, ws, s, w);
                    lemma_nearer(s, w);
                    assert(after =~= before + works_events(ws.push(w)));
                },
            }
        },
    }
}

/// An import that is under way: the container, the tickets of the block
/// at hand, and the waiting for the first of them that is not confirmed
/// yet.
pub struct ImportSession {
    reader: ContainerReader,
    /// The tickets of the block at hand, in the order of the block.
    tickets: Vec<Ticket>,
    /// The place in `tickets` of the first that is not confirmed yet.
    next: usize,
    poller: Poller,
    height: u64,
    imported: u64,
}

impl ImportSession {
    /// The state of the import.
    pub closed spec fn course(&self) -> Course {
        let ahead = read_blocks(self.reader.remaining(), self.reader.left());
        Course {
            ahead: ahead.0,
            fault: ahead.1,
            announced: self.reader.announced(),
            pending: if self.next <= self.tickets@.len() {
                tickets_view(self.tickets@).subrange(self.next as int, self.tickets@.len() as int)
            } else {
                Seq::empty()
            },
            made: self.poller.made(),
            budget: self.poller.budget(),
            delay_secs: self.poller.delay_secs(),
            height: self.height,
            imported: self.imported as nat,
        }
    }

    /// Starts the import of the container `data`, with `budget` attempts
    /// for every receipt and `delay_secs` seconds between two attempts.
    /// Only the header is read: a header that is missing, or holds another
    /// magic number, ends the import here, before any transaction can be
    /// submitted.
    pub fn begin(data: Vec<u8>, budget: u32, delay_secs: u64) -> (r: Result<
        ImportSession,
        ContainerError,
    >)
        ensures
            match read_header(data@) {
                Ok((h, rest)) => r matches Ok(session) && session.course() == (Course {
                    ahead: read_blocks(rest, h.num_blocks as nat).0,
                    fault: read_blocks(rest, h.num_blocks as nat).1,
                    announced: h.num_blocks as nat,
                    pending: Seq::empty(),
                    made: 0,
                    budget: budget as nat,
                    delay_secs,
                    height: 0,
                    imported: 0,
                }),
                Err(e) => r matches Err(x) && x == e,
            },
    {
        match ContainerReader::open(data) {
            Ok(reader) => {
                let session = ImportSession {
                    reader,
                    tickets: Vec::new(),
                    next: 0,
                    poller: Poller::new(budget, delay_secs),
                    height: 0,
                    imported: 0,
                };
                proof {
                    assert(session.course().pending =~= Seq::<Seq<u8>>::empty());
                }
                Ok(session)
            },
            Err(e) => Err(e),
        }
    }

    /// The number of blocks that the container announces.
    pub fn num_blocks(&self) -> (n: u64)
        ensures
            n == self.course().announced,
    {
        self.reader.num_blocks()
    }

    /// The number of blocks whose transactions were all submitted and
    /// confirmed.
    pub fn blocks_imported(&self) -> (n: u64)
        ensures
            n == self.course().imported,
    {
        self.imported
    }

    /// Asks once for the receipt of the first ticket that is not confirmed
    /// yet, or fails as timed out where no attempt may be made for it.
    fn poll<C: ClientChannel>(&mut self, client: &mut Client<C>) -> (r: Option<ImportStep>)
        requires
            old(self).course().pending.len() > 0,
        ensures
            final(client).settings() == old(client).settings(),
            final(client).failed() == old(client).failed(),
            stepped(
                old(self).course(),
                final(self).course(),
                step_view(r),
                old(client).transcript(),
                final(client).transcript(),
            ),
    {
        let ghost s = self.course();
        assert(self.next < self.tickets.len());
        let ticket = self.tickets[self.next];
        assert(s.pending[0] == ticket@);
        if !self.poller.attempts_left() {
            self.next = self.next + 1;
            self.poller = Poller::new(self.poller.limit(), self.poller.delay());
            let r = ImportStep::Failed(ImportError::Timeout { ticket, height: self.height });
            proof {
                assert(self.course().pending =~= s.pending.drop_first());
                assert(halts(s) == Some((self.course(), r@)));
            }
            return Some(r);
        }
        let fetched = client.get_receipt_err(ticket);
        let ghost w = Work::Poll { ticket: ticket@, reply: last_reply(client.transcript()) };
        let ghost wanted = next_action(
            s.budget,
            s.delay_secs,
            s.made + 1,
            attempt_in(receipt_in(said(last_reply(client.transcript())))),
        );
        let action = self.poller.step(attempt_of(fetched));
        assert(halts(s) is None);
        assert(due(s, w));
        match action {
            Action::Fetch { after_secs } => {
                proof {
                    assert(wanted == Action::<ReceiptView, ClientErrorView>::Fetch { after_secs });
                    assert(self.course().pending =~= s.pending);
                    assert(self.course() == polled(s, wanted).0);
                }
                if after_secs > 0 {
                    Some(ImportStep::Pause(after_secs))
                } else {
                    None
                }
            },
            Action::Finish(verdict) => {
                self.next = self.next + 1;
                self.poller = Poller::new(self.poller.limit(), self.poller.delay());
                proof {
                    assert(self.course().pending =~= s.pending.drop_first());
                }
                match verdict {
                    Verdict::Done(rx) => {
                        if self.next >= self.tickets.len() && self.imported < u64::MAX {
                            self.imported = self.imported + 1;
                        }
                        proof {
                            assert(wanted == Action::<ReceiptView, ClientErrorView>::Finish(
                                Verdict::Done(rx@),
                            ));
                            assert(self.course().pending =~= s.pending.drop_first());
                            assert(self.course() == polled(s, wanted).0);
                        }
                        None
                    },
                    Verdict::TimedOut => {
                        proof {
                            assert(wanted == Action::<ReceiptView, ClientErrorView>::Finish(
                                Verdict::TimedOut,
                            ));
                            assert(self.course() == polled(s, wanted).0);
                        }
                        Some(
                            ImportStep::Failed(
                                ImportError::Timeout { ticket, height: self.height },
                            ),
                        )
                    },
                    Verdict::Failed(error) => {
                        proof {
                            assert(wanted == Action::<ReceiptView, ClientErrorView>::Finish(
                                Verdict::Failed(error@),
                            ));
                            assert(self.course() == polled(s, wanted).0);
                        }
                        Some(
                            ImportStep::Failed(
                                ImportError::Receipt { ticket, height: self.height, error },
                            ),
                        )
                    },
                }
            },
        }
    }

    /// Reads the next block and submits its transactions; or, where no
    /// block is left, asks for the latest block; or fails with the fault
    /// of the container.
    fn take<C: ClientChannel>(&mut self, client: &mut Client<C>) -> (r: Option<ImportStep>)
        requires
            old(self).course().pending.len() == 0,
        ensures
            final(client).settings() == old(client).settings(),
            final(client).failed() == old(client).failed(),
            stepped(
                old(self).course(),
                final(self).course(),
                step_view(r),
                old(client).transcript(),
                final(client).transcript(),
            ),
    {
        let ghost s = self.course();
        let ghost log = client.transcript();
        match self.reader.next_block() {
            Err(e) => {
                let r = ImportStep::Failed(ImportError::Container(e));
                proof {
                    assert(halts(s) == Some((self.course(), r@)));
                }
                Some(r)
            },
            Ok(None) => {
                let latest = client.get_block_err(u64::MAX);
                let ghost w = Work::Latest { reply: last_reply(client.transcript()) };
                let r = match latest {
                    Ok((last, _)) => ImportStep::Finished {
                        differs: blocks_differ(last.height, self.reader.num_blocks()),
                        last,
                    },
                    Err(e) => ImportStep::Failed(ImportError::NoBlock(e)),
                };
                proof {
                    assert(halts(s) is None);
                    assert(due(s, w));
                    assert(effect(s, w) == (self.course(), Some(r@)));
                }
                Some(r)
            },
            Ok(Some(block)) => {
                let ghost read = block@;
                proof {
                    assert(s.ahead =~= seq![read] + self.course().ahead);
                    assert(self.course().ahead =~= s.ahead.drop_first());
                }
                self.height = block.height;
                let submitted = import_block(client, block);
                let ghost replies = choose|replies: Seq<Reply>| #[trigger]
                    block_submitted(log, client.transcript(), read.txs, submitted, replies);
                let ghost w = Work::Submit {
                    txs: read.txs.subrange(0, replies.len() as int),
                    replies,
                };
                proof {
                    assert(halts(s) is None);
                    assert(due(s, w));
                }
                match submitted {
                    Ok(tickets) => {
                        self.next = 0;
                        self.tickets = tickets;
                        self.poller = Poller::new(self.poller.limit(), self.poller.delay());
                        if self.tickets.len() == 0 && self.imported < u64::MAX {
                            self.imported = self.imported + 1;
                        }
                        proof {
                            assert(self.course().pending =~= tickets_view(self.tickets@));
                            assert(self.course().ahead =~= s.ahead.drop_first());
                            assert(effect(s, w) == (self.course(), None::<ImportStepView>));
                        }
                        None
                    },
                    Err(error) => {
                        let r = ImportStep::Failed(
                            ImportError::Submit { height: self.height, error },
                        );
                        proof {
                            assert(self.course().pending =~= s.pending);
                            assert(self.course().ahead =~= s.ahead.drop_first());
                            assert(effect(s, w) == (self.course(), Some(r@)));
                        }
                        Some(r)
                    },
                }
            },
        }
    }

    /// Goes on with the import until a pause is due or the import ends.
    ///
    /// Block after block is read from the container, in order. The
    /// transactions of a block are submitted in their order; the first
    /// that is not accepted ends the import. Then the receipt of each
    /// transaction is waited for, one after the other in the order of the
    /// block, before the next block is read: each is asked for until it
    /// comes, at most as often as the budget allows, and a pause is asked
    /// of the caller between two attempts. When no block is left, the
    /// latest block of the chain is asked for once and its height held
    /// against the number of blocks that the container announced. A fault
    /// of the container ends the import where the reading meets it, and
    /// nothing is asked of the channel after it.
    ///
    /// The result, the state after the call and the calls that were made
    /// of the channel are those of the work that was due, piece by piece
    /// (see `has_advanced`, `due`, `effect` and `halts`).
    pub fn advance<C: ClientChannel>(&mut self, client: &mut Client<C>) -> (r: ImportStep)
        ensures
            final(client).settings() == old(client).settings(),
            final(client).failed() == old(client).failed(),
            has_advanced(
                old(self).course(),
                final(self).course(),
                r@,
                old(client).transcript(),
                final(client).transcript(),
            ),
    {
        let ghost from = self.course();
        let ghost before = client.transcript();
        let ghost mut ws: Seq<Work> = Seq::empty();
        proof {
            assert(before + works_events(ws) =~= before);
        }
        loop
            invariant
                client.settings() == old(client).settings(),
                client.failed() == old(client).failed(),
                from == old(self).course(),
                before == old(client).transcript(),
                reach(from, ws) == Some(self.course()),
                client.transcript() == before + works_events(ws),
            decreases
                    self.course().ahead.len(),
                    self.course().pending.len(),
                    steps_left(self.course()),
        {
            let ghost s = self.course();
            let ghost log = client.transcript();
            let step = if self.next < self.tickets.len() {
                self.poll(client)
            } else {
                proof {
                    assert(s.pending =~= Seq::<Seq<u8>>::empty());
                }
                self.take(client)
            };
            proof {
                lemma_stepped(
                    from,
                    ws,
                    s,
                    self.course(),
                    step_view(step),
                    before,
                    log,
                    client.transcript(),
                );
                if step is None {
                    ws = choose|longer: Seq<Work>|
                        reach(from, longer) == Some(self.course()) && client.transcript() == before
                            + works_events(longer);
                }
            }
            match step {
                Some(r) => {
                    return r;
                },
                None => {},
            }
        }
    }
}

// ---------------------------------------------------------------------
// An import over any number of calls

/// The result of a piece of work lets the import go on: there is none, or
/// it is a pause.
pub open spec fn passes(out: Option<ImportStepView>) -> bool {
    out is None || out matches Some(ImportStepView::Pause(_))
}

/// The state that the pieces of work `ws` lead to from the state `from`,
/// over any number of calls of `advance`: each piece was due when it was
/// done and let the import go on, with a pause or without, and the import
/// did not halt before any of them.
pub open spec fn course_after(from: Course, ws: Seq<Work>) -> Option<Course>
    decreases ws.len(),
{
    if ws.len() == 0 {
        Some(from)
    } else {
        match course_after(from, ws.drop_last()) {
            Some(s) => if halts(s) is None && due(s, ws.last()) && passes(effect(s, ws.last()).1) {
                Some(effect(s, ws.last()).0)
            } else {
                None
            },
            None => None,
        }
    }
}

/// An import from the state `from` did the work `ws`, over any number of
/// calls of `advance`, and ended in the state `to` with `out`, which is no
/// pause.
pub open spec fn import_ended(from: Course, ws: Seq<Work>, to: Course, out: ImportStepView) -> bool {
    &&& !(out is Pause)
    &&& {
        ||| match course_after(from, ws) {
            Some(s) => halts(s) == Some((to, out)),
            None => false,
        }
        ||| ws.len() > 0 && match course_after(from, ws.drop_last()) {
            Some(s) => halts(s) is None && due(s, ws.last()) && effect(s, ws.last()) == (
                to,
                Some(out),
            ),
            None => false,
        }
    }
}

/// The calls that two runs of work make are those of the first and then
/// those of the second.
pub proof fn lemma_works_join(a: Seq<Work>, b: Seq<Work>)
    ensures
        works_events(a + b) == works_events(a) + works_events(b),
    decreases b.len(),
{
    if b.len() == 0 {
        assert(a + b =~= a);
        assert(works_events(a) + works_events(b) =~= works_events(a));
    } else {
        assert((a + b).drop_last() =~= a + b.drop_last());
        lemma_works_join(a, b.drop_last());
        assert(works_events(a + b) =~= works_events(a) + works_events(b));
    }
}

/// Work without a stop is work that lets the import go on.
pub proof fn lemma_reach_is_course(from: Course, ws: Seq<Work>)
    requires
        reach(from, ws) is Some,
    ensures
        course_after(from, ws) == reach(from, ws),
    decreases ws.len(),
{
    if ws.len() > 0 {
        lemma_reach_is_course(from, ws.drop_last());
    }
}

/// Work that goes on from where other work led goes on from where that
/// started.
pub proof fn lemma_course_joins(from: Course, a: Seq<Work>, mid: Course, b: Seq<Work>)
    requires
        course_after(from, a) == Some(mid),
        course_after(mid, b) is Some,
    ensures
        course_after(from, a + b) == course_after(mid, b),
    decreases b.len(),
{
    if b.len() == 0 {
        assert(a + b =~= a);
    } else {
        assert((a + b).drop_last() =~= a + b.drop_last());
        lemma_course_joins(from, a, mid, b.drop_last());
    }
}

/// One call of `advance` after the work `done`: where it asked for a pause
/// the import goes on from the state that it left, and where it did not
/// the import has ended, with all the work that was done.
pub proof fn lemma_advance_joins(
    from: Course,
    done: Seq<Work>,
    s: Course,
    ws: Seq<Work>,
    to: Course,
    out: ImportStepView,
)
    requires
        course_after(from, done) == Some(s),
        ended(s, ws, to, out),
    ensures
        out is Pause ==> course_after(from, done + ws) == Some(to),
        !(out is Pause) ==> import_ended(from, done + ws, to, out),
        works_events(done + ws) == works_events(done) + works_events(ws),
{
    lemma_works_join(done, ws);
    if reach(s, ws) matches Some(x) && halts(x) == Some((to, out)) {
        lemma_reach_is_course(s, ws);
        lemma_course_joins(from, done, s, ws);
    } else {
        let head = ws.drop_last();
        let x = reach(s, head)->0;
        lemma_reach_is_course(s, head);
        lemma_course_joins(from, done, s, head);
        assert((done + ws).drop_last() =~= done + head);
        assert((done + ws).last() == ws.last());
    }
}

/// The transactions that the work `ws` submitted, in order.
pub open spec fn submitted(ws: Seq<Work>) -> Seq<TransactionView>
    decreases ws.len(),
{
    if ws.len() == 0 {
        Seq::empty()
    } else {
        match ws.last() {
            Work::Submit { txs, .. } => submitted(ws.drop_last()) + txs,
            _ => submitted(ws.drop_last()),
        }
    }
}

/// The transactions of the blocks `blocks`, block after block.
pub open spec fn txs_of(blocks: Seq<FileBlockView>) -> Seq<TransactionView>
    decreases blocks.len(),
{
    if blocks.len() == 0 {
        Seq::empty()
    } else {
        txs_of(blocks.drop_last()) + blocks.last().txs
    }
}

/// The number of requests for the latest block among the work `ws`.
pub open spec fn latest_asked(ws: Seq<Work>) -> nat
    decreases ws.len(),
{
    if ws.len() == 0 {
        0
    } else if ws.last() is Latest {
        latest_asked(ws.drop_last()) + 1
    } else {
        latest_asked(ws.drop_last())
    }
}

/// While an import goes on, the blocks are taken one by one from the
/// front and all the transactions of each are submitted, in order; the
/// latest block is not asked for; and the fault of the container, what it
/// announces, the budget and the delay stay as they are.
pub proof fn lemma_course_takes_blocks(from: Course, ws: Seq<Work>)
    requires
        course_after(from, ws) is Some,
    ensures
        ({
            let s = course_after(from, ws)->0;
            let taken = from.ahead.len() - s.ahead.len();
            &&& 0 <= taken
            &&& s.ahead == from.ahead.skip(taken)
            &&& submitted(ws) == txs_of(from.ahead.take(taken))
            &&& latest_asked(ws) == 0
            &&& s.fault == from.fault
            &&& s.announced == from.announced
            &&& s.budget == from.budget
            &&& s.delay_secs == from.delay_secs
        }),
    decreases ws.len(),
{
    if ws.len() == 0 {
        assert(from.ahead.skip(0) =~= from.ahead);
        assert(from.ahead.take(0) =~= Seq::<FileBlockView>::empty());
    } else {
        let head = ws.drop_last();
        lemma_course_takes_blocks(from, head);
        let x = course_after(from, head)->0;
        let s = course_after(from, ws)->0;
        let k = from.ahead.len() - x.ahead.len();
        match ws.last() {
            Work::Submit { txs, replies } => {
                let all = x.ahead[0].txs;
                assert(txs =~= all);
                assert(x.ahead[0] == from.ahead[k]);
                assert(s.ahead =~= from.ahead.skip(k + 1));
                assert(from.ahead.take(k + 1).drop_last() =~= from.ahead.take(k));
                assert(from.ahead.take(k + 1).last() == from.ahead[k]);
            },
            Work::Poll { .. } => {},
            Work::Latest { .. } => {},
        }
    }
}

/// An import that ends as finished has read a container without a fault
/// to its end and has submitted all the transactions of its blocks, in
/// order. No ticket is pending. The last piece of its work, and no other,
/// is the request for the latest block; `last` is the header in the answer
/// to it, and `differs` says whether the height in it, and one, is another
/// number than the container announces.
pub proof fn lemma_finished(
    from: Course,
    ws: Seq<Work>,
    to: Course,
    differs: bool,
    last: BlockView,
)
    requires
        import_ended(from, ws, to, ImportStepView::Finished { differs, last }),
    ensures
        from.fault is None,
        submitted(ws) == txs_of(from.ahead),
        to.ahead.len() == 0,
        to.pending.len() == 0,
        ws.len() > 0,
        latest_asked(ws) == 1,
        ws.last() matches Work::Latest { reply } && (block_in(said(reply)) matches Ok(b) && b.0
            == last),
        differs == (last.height + 1 != from.announced),
{
    let head = ws.drop_last();
    lemma_course_takes_blocks(from, head);
    assert(from.ahead.take(from.ahead.len() as int) =~= from.ahead);
}

/// An import of a container with a fault behind its blocks never ends as
/// finished and never asks for the latest block. Where it ends with a
/// failure of the container, that failure is the fault, all the
/// transactions of the blocks before it were submitted, in order, and no
/// ticket is pending: each was confirmed.
pub proof fn lemma_fault_ends_the_import(
    from: Course,
    ws: Seq<Work>,
    to: Course,
    out: ImportStepView,
)
    requires
        import_ended(from, ws, to, out),
    ensures
        from.fault is Some ==> !(out is Finished) && latest_asked(ws) == 0,
        out matches ImportStepView::Failed(ImportErrorView::Container(e)) ==> {
            &&& from.fault == Some(e)
            &&& submitted(ws) == txs_of(from.ahead)
            &&& latest_asked(ws) == 0
            &&& course_after(from, ws) == Some(to)
            &&& to.ahead.len() == 0
            &&& to.pending.len() == 0
        },
{
    if course_after(from, ws) matches Some(s) && halts(s) == Some((to, out)) {
        lemma_course_takes_blocks(from, ws);
        assert(from.ahead.take(from.ahead.len() as int) =~= from.ahead);
    } else {
        lemma_course_takes_blocks(from, ws.drop_last());
    }
}

/// Once work was done, an attempt is left for the first pending ticket,
/// unless the budget allows none at all.
pub proof fn lemma_attempts_stay_within(from: Course, ws: Seq<Work>)
    requires
        course_after(from, ws) is Some,
        ws.len() > 0,
    ensures
        ({
            let s = course_after(from, ws)->0;
            s.budget == 0 || s.made < s.budget
        }),
{
}

/// Every failure of an import has its cause. A failure of the container
/// is the fault that the container holds. Each other failure comes of the
/// last piece of work: a submission whose last answer was that failure; a
/// request for the receipt of the ticket named that was answered "not
/// found", for a timeout, or failed otherwise, with the failure named; or
/// the request for the latest block, which gave that failure. A timeout
/// comes without such a request only where no attempt was left from the
/// start.
pub proof fn lemma_failure_has_a_cause(
    from: Course,
    ws: Seq<Work>,
    to: Course,
    e: ImportErrorView,
)
    requires
        import_ended(from, ws, to, ImportStepView::Failed(e)),
    ensures
        match e {
            ImportErrorView::Container(fault) => from.fault == Some(fault),
            ImportErrorView::Submit { error, .. } => ws.len() > 0 && (ws.last() matches Work::Submit {
                replies,
                ..
            } && replies.len() > 0 && ticket_in(said(replies.last())) == Err::<Seq<u8>, _>(error)),
            ImportErrorView::Timeout { ticket, .. } => {
                ||| from.budget == 0
                ||| (ws.len() == 0 && from.made >= from.budget)
                ||| (ws.len() > 0 && (ws.last() matches Work::Poll { ticket: asked, reply } && asked
                    == ticket && not_found(reply)))
            },
            ImportErrorView::Receipt { ticket, error, .. } => ws.len() > 0 && (
            ws.last() matches Work::Poll { ticket: asked, reply } && asked == ticket && attempt_in(
                receipt_in(said(reply)),
            ) == Attempt::<ReceiptView, ClientErrorView>::Failed(error)),
            ImportErrorView::NoBlock(error) => ws.len() > 0 && (ws.last() matches Work::Latest {
                reply,
            } && block_in(said(reply)) == Err::<(BlockView, Seq<Seq<u8>>), _>(error)),
        },
{
    if course_after(from, ws) matches Some(s) && halts(s) == Some(
        (to, ImportStepView::Failed(e)),
    ) {
        lemma_course_takes_blocks(from, ws);
        if ws.len() > 0 {
            lemma_attempts_stay_within(from, ws);
        }
    } else {
        lemma_course_takes_blocks(from, ws.drop_last());
    }
}

/// A call of `advance` asks for a pause exactly after a request for the
/// receipt of the first pending ticket was answered "not found" while an
/// attempt is left: the pause lasts as long as the delay, the ticket is
/// still pending, and it is asked for again after the pause.
pub proof fn lemma_pause_has_a_cause(from: Course, ws: Seq<Work>, to: Course, secs: u64)
    requires
        ended(from, ws, to, ImportStepView::Pause(secs)),
    ensures
        ws.len() > 0,
        ws.last() matches Work::Poll { ticket, reply } && not_found(reply) && to.pending.len() > 0
            && ticket == to.pending[0],
        secs == from.delay_secs,
        secs > 0,
        to.made < to.budget,
        halts(to) is None,
{
    lemma_reach_is_course(from, ws.drop_last());
    lemma_course_takes_blocks(from, ws.drop_last());
}

/// Work is done only where the import does not halt by itself.
pub proof fn lemma_course_starts(from: Course, ws: Seq<Work>)
    requires
        course_after(from, ws) is Some,
        ws.len() > 0,
    ensures
        halts(from) is None,
    decreases ws.len(),
{
    if ws.len() > 1 {
        lemma_course_starts(from, ws.drop_last());
    } else {
        assert(course_after(from, ws.drop_last()) == Some(from));
    }
}

/// A call of `advance` on an import that halts by itself ends there, and
/// nothing is asked of the channel: so for a container that announces a
/// block and holds none, which fails as ended early.
pub proof fn lemma_halts_at_once(from: Course, ws: Seq<Work>, to: Course, out: ImportStepView)
    requires
        halts(from) is Some,
        ended(from, ws, to, out),
    ensures
        ws.len() == 0,
        halts(from) == Some((to, out)),
        works_events(ws) == Seq::<Event>::empty(),
{
    if ws.len() > 0 {
        if reach(from, ws) is Some {
            lemma_reach_is_course(from, ws);
            lemma_course_starts(from, ws);
        } else if ws.len() > 1 {
            lemma_reach_is_course(from, ws.drop_last());
            lemma_course_starts(from, ws.drop_last());
        } else {
            assert(reach(from, ws.drop_last()) == Some(from));
        }
    }
}

/// The answer to a request for a receipt was "not found".
pub open spec fn not_found(reply: Reply) -> bool {
    attempt_in(receipt_in(said(reply))) is NotFound
}

/// The requests for the receipt of `ticket` that `replies` came of, one
/// after the other.
pub open spec fn polls(ticket: Seq<u8>, replies: Seq<Reply>) -> Seq<Work> {
    Seq::new(replies.len(), |i: int| Work::Poll { ticket, reply: replies[i] })
}

/// Answers "not found" that leave an attempt: the first pending ticket is
/// asked for once for each, and once more is due.
pub proof fn lemma_polls_not_found(s: Course, replies: Seq<Reply>)
    requires
        s.pending.len() > 0,
        s.made + replies.len() < s.budget,
        forall|i: int| 0 <= i < replies.len() ==> not_found(#[trigger] replies[i]),
    ensures
        course_after(s, polls(s.pending[0], replies)) == Some(
            Course { made: s.made + replies.len(), ..s },
        ),
    decreases replies.len(),
{
    let ws = polls(s.pending[0], replies);
    if replies.len() == 0 {
        assert(Course { made: s.made + replies.len(), ..s } == s);
    } else {
        let head = replies.drop_last();
        lemma_polls_not_found(s, head);
        assert(ws.drop_last() =~= polls(s.pending[0], head));
        let x = Course { made: s.made + head.len(), ..s };
        assert(halts(x) is None);
        assert(due(x, ws.last()));
        assert(not_found(replies[replies.len() - 1]));
        assert((Course { made: x.made + 1, ..x }) == (Course {
            made: s.made + replies.len(),
            ..s
        }));
    }
}

/// A receipt that comes at an attempt within the budget, after nothing
/// but answers "not found": the ticket was asked for once for each answer
/// and no more, it is confirmed and pending no longer, and the import goes
/// on with the next ticket or block.
pub proof fn lemma_receipt_found(s: Course, replies: Seq<Reply>)
    requires
        s.pending.len() > 0,
        replies.len() > 0,
        s.made + replies.len() <= s.budget,
        forall|i: int| 0 <= i < replies.len() - 1 ==> not_found(#[trigger] replies[i]),
        attempt_in(receipt_in(said(replies.last()))) is Found,
    ensures
        polls(s.pending[0], replies).len() == replies.len(),
        course_after(s, polls(s.pending[0], replies)) matches Some(t) && t.pending
            == s.pending.drop_first() && t.made == 0 && t.ahead == s.ahead && t.imported == (if s.pending.len()
            == 1 {
            bump(s.imported)
        } else {
            s.imported
        }),
{
    let ws = polls(s.pending[0], replies);
    let head = replies.drop_last();
    lemma_polls_not_found(s, head);
    assert(ws.drop_last() =~= polls(s.pending[0], head));
    let x = Course { made: s.made + head.len(), ..s };
    assert(halts(x) is None);
    assert(due(x, ws.last()));
}

/// As many answers "not found" as the budget allows attempts: the ticket
/// was asked for once for each and no more, and the import ends as timed
/// out for that ticket. Nothing was read or submitted meanwhile.
pub proof fn lemma_receipt_timed_out(s: Course, replies: Seq<Reply>)
    requires
        s.pending.len() > 0,
        replies.len() > 0,
        s.made + replies.len() == s.budget,
        forall|i: int| 0 <= i < replies.len() ==> not_found(#[trigger] replies[i]),
    ensures
        import_ended(
            s,
            polls(s.pending[0], replies),
            Course { pending: s.pending.drop_first(), made: 0, ..s },
            ImportStepView::Failed(
                ImportErrorView::Timeout { ticket: s.pending[0], height: s.height },
            ),
        ),
        submitted(polls(s.pending[0], replies)) == Seq::<TransactionView>::empty(),
{
    let ws = polls(s.pending[0], replies);
    let head = replies.drop_last();
    lemma_polls_not_found(s, head);
    assert(ws.drop_last() =~= polls(s.pending[0], head));
    let x = Course { made: s.made + head.len(), ..s };
    assert(halts(x) is None);
    assert(due(x, ws.last()));
    assert(not_found(replies[replies.len() - 1]));
    lemma_polls_submit_nothing(s.pending[0], replies);
}

/// Requests for a receipt submit nothing.
pub proof fn lemma_polls_submit_nothing(ticket: Seq<u8>, replies: Seq<Reply>)
    ensures
        submitted(polls(ticket, replies)) == Seq::<TransactionView>::empty(),
        latest_asked(polls(ticket, replies)) == 0,
    decreases replies.len(),
{
    if replies.len() > 0 {
        assert(polls(ticket, replies).drop_last() =~= polls(ticket, replies.drop_last()));
        lemma_polls_submit_nothing(ticket, replies.drop_last());
    }
}

/// A request for a receipt that fails otherwise than with "not found",
/// after nothing but answers "not found": the import ends with that
/// failure, which is no timeout, and the ticket is pending no longer, so
/// that it is not asked for again.
pub proof fn lemma_receipt_failed(s: Course, replies: Seq<Reply>, error: ClientErrorView)
    requires
        s.pending.len() > 0,
        replies.len() > 0,
        s.made + replies.len() <= s.budget,
        forall|i: int| 0 <= i < replies.len() - 1 ==> not_found(#[trigger] replies[i]),
        attempt_in(receipt_in(said(replies.last()))) == Attempt::<
            ReceiptView,
            ClientErrorView,
        >::Failed(error),
    ensures
        import_ended(
            s,
            polls(s.pending[0], replies),
            Course { pending: s.pending.drop_first(), made: 0, ..s },
            ImportStepView::Failed(
                ImportErrorView::Receipt { ticket: s.pending[0], height: s.height, error },
            ),
        ),
{
    let ws = polls(s.pending[0], replies);
    let head = replies.drop_last();
    lemma_polls_not_found(s, head);
    assert(ws.drop_last() =~= polls(s.pending[0], head));
    let x = Course { made: s.made + head.len(), ..s };
    assert(halts(x) is None);
    assert(due(x, ws.last()));
}

/// While a ticket is pending, the only work that is due is to ask for the
/// receipt of the first pending ticket: nothing is submitted, no block is
/// read and the latest block is not asked for. After it the same tickets
/// are pending, or all but the first.
pub proof fn lemma_one_ticket_at_a_time(s: Course, w: Work)
    requires
        s.pending.len() > 0,
        due(s, w),
    ensures
        w matches Work::Poll { ticket, .. } && ticket == s.pending[0],
        effect(s, w).0.ahead == s.ahead,
        effect(s, w).0.pending == s.pending || effect(s, w).0.pending == s.pending.drop_first(),
{
}

/// The submissions of a block come when no ticket is pending, and take
/// the first block that is ahead. Where all its transactions were
/// accepted, the tickets of the answers are pending after it, in the order
/// of the block; where one was not, the import ends with the failure of
/// that submission and no transaction after it was submitted.
pub proof fn lemma_block_then_tickets(s: Course, txs: Seq<TransactionView>, replies: Seq<Reply>)
    requires
        due(s, Work::Submit { txs, replies }),
    ensures
        s.pending.len() == 0,
        match effect(s, Work::Submit { txs, replies }).1 {
            None => txs == s.ahead[0].txs && effect(s, Work::Submit { txs, replies }).0.pending
                == accepted(replies) && accepted(replies).len() == txs.len(),
            Some(out) => replies.len() > 0 && txs == s.ahead[0].txs.subrange(
                0,
                replies.len() as int,
            ) && (ticket_in(said(replies.last())) matches Err(error) && out
                == ImportStepView::Failed(
                ImportErrorView::Submit { height: s.ahead[0].height, error },
            )),
        },
{
    let all = s.ahead[0].txs;
    if effect(s, Work::Submit { txs, replies }).1 is None {
        assert(txs =~= all);
        lemma_all_accepted(replies);
    }
}

/// Replies that all hold a ticket give as many tickets.
pub proof fn lemma_all_accepted(replies: Seq<Reply>)
    requires
        forall|i: int| 0 <= i < replies.len() ==> ticket_in(said(#[trigger] replies[i])) is Ok,
    ensures
        accepted(replies).len() == replies.len(),
    decreases replies.len(),
{
    if replies.len() > 0 {
        lemma_all_accepted(replies.drop_last());
    }
}

} // verus!
