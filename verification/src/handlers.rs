//! The handlers of the test index: each turns what the chain emitted into the
//! entities that are stored for it. Storing them is the caller's part.

use vstd::prelude::*;
use vstd::bytes::{spec_u64_to_le_bytes, u64_to_le_bytes};
use vstd::string::*;
use crate::text::copy_text;

verus! {

/// The SHA-256 digest of a message, as the crate `sha2` computes it.
pub uninterp spec fn sha256(message: Seq<u8>) -> Seq<u8>;

/// Calls `Sha256::digest` of the crate `sha2`. One thing is taken on trust:
/// that the 32 bytes which come back are a function of the message alone,
/// which `sha256` names.
#[verifier::external_body]
fn sha256_digest(message: &[u8]) -> (digest: [u8; 32])
    ensures
        digest@ == sha256(message@),
{
    <sha2::Sha256 as sha2::Digest>::digest(message).into()
}

/// The lower-case hexadecimal digit, as an ASCII code, of a number below 16.
pub open spec fn hex_digit(nibble: int) -> u8 {
    if nibble < 10 {
        (48 + nibble) as u8
    } else {
        (87 + nibble) as u8
    }
}

/// The lower-case hexadecimal text of bytes, as ASCII codes: two digits for
/// each byte, the high one first.
pub open spec fn hex_lower(bytes: Seq<u8>) -> Seq<u8> {
    Seq::new(
        2 * bytes.len(),
        |i: int|
            if i % 2 == 0 {
                hex_digit(bytes[i / 2] as int / 16)
            } else {
                hex_digit(bytes[i / 2] as int % 16)
            },
    )
}

/// The identifier derived from `id` and `data`: the first 32 characters of
/// the hexadecimal text of the SHA-256 digest of `id` followed by `data`.
pub open spec fn derived_id(id: Seq<u8>, data: Seq<u8>) -> Seq<u8> {
    hex_lower(sha256(id + data)).take(32)
}

/// The lower-case hexadecimal digit of a number below 16.
fn hex_code(nibble: u8) -> (code: u8)
    requires
        nibble < 16,
    ensures
        code == hex_digit(nibble as int),
{
    if nibble < 10 {
        48 + nibble
    } else {
        87 + nibble
    }
}

/// Derives an identifier from an identifier and further bytes.
pub fn derive_id(id: [u8; 32], data: Vec<u8>) -> (derived: [u8; 32])
    ensures
        derived@ == derived_id(id@, data@),
{
    let mut message: Vec<u8> = Vec::new();
    let mut i: usize = 0;
    while i < 32
        invariant
            i <= 32,
            message@ == id@.take(i as int),
        decreases 32 - i,
    {
        message.push(id[i]);
        assert(id@.take(i + 1) =~= id@.take(i as int).push(id@[i as int]));
        i += 1;
    }
    assert(id@.take(32) =~= id@);
    let mut j: usize = 0;
    while j < data.len()
        invariant
            j <= data.len(),
            message@ == id@ + data@.take(j as int),
        decreases data.len() - j,
    {
        message.push(data[j]);
        assert(id@ + data@.take(j + 1) =~= (id@ + data@.take(j as int)).push(data@[j as int]));
        j += 1;
    }
    assert(data@.take(j as int) =~= data@);
    let digest = sha256_digest(message.as_slice());
    let mut buff: [u8; 32] = [0u8; 32];
    let mut k: usize = 0;
    while k < 16
        invariant
            k <= 16,
            digest@.len() == 32,
            forall|n: int| 0 <= n < 2 * k ==> buff@[n] == hex_lower(digest@)[n],
        decreases 16 - k,
    {
        let byte = digest[k];
        buff.set(2 * k, hex_code(byte / 16));
        buff.set(2 * k + 1, hex_code(byte % 16));
        k += 1;
    }
    assert(buff@ =~= hex_lower(digest@).take(32));
    buff
}

/// The three identifiers one after the other.
fn concat3(a: &[u8; 32], b: &[u8; 32], c: &[u8; 32]) -> (joined: Vec<u8>)
    ensures
        joined@ == a@ + b@ + c@,
{
    let mut joined: Vec<u8> = Vec::new();
    let mut i: usize = 0;
    while i < 96
        invariant
            i <= 96,
            joined@ == (a@ + b@ + c@).take(i as int),
        decreases 96 - i,
    {
        let byte = if i < 32 {
            a[i]
        } else if i < 64 {
            b[i - 32]
        } else {
            c[i - 64]
        };
        joined.push(byte);
        assert((a@ + b@ + c@).take(i + 1) =~= (a@ + b@ + c@).take(i as int).push(byte));
        i += 1;
    }
    assert((a@ + b@ + c@).take(96) =~= a@ + b@ + c@);
    joined
}

/// The eight bytes of a number, the most significant first.
pub open spec fn be_bytes(x: u64) -> Seq<u8> {
    spec_u64_to_le_bytes(x).reverse()
}

/// The eight bytes of a number, the most significant first.
fn to_be_bytes(x: u64) -> (bytes: Vec<u8>)
    ensures
        bytes@ == be_bytes(x),
{
    let le = u64_to_le_bytes(x);
    let mut bytes: Vec<u8> = Vec::new();
    let mut i: usize = 0;
    while i < 8
        invariant
            i <= 8,
            le@.len() == 8,
            bytes@.len() == i,
            forall|k: int| 0 <= k < i ==> bytes@[k] == le@[7 - k],
        decreases 8 - i,
    {
        bytes.push(le[7 - i]);
        i += 1;
    }
    assert(bytes@ =~= le@.reverse());
    bytes
}

/// Who sent something: an address or a contract.
#[derive(Clone, Copy, Debug, PartialEq, Eq)]
pub enum Identity {
    Address([u8; 32]),
    ContractId([u8; 32]),
}

/// A ping that a contract logged.
#[derive(Clone, Debug, PartialEq, Eq)]
pub struct Ping {
    pub id: u64,
    pub value: u64,
    pub message: String,
}

/// What is stored for a ping.
#[derive(Clone, Debug, PartialEq, Eq)]
pub struct PingEntity {
    pub id: u64,
    pub value: u64,
    pub message: String,
}

/// A pong that a contract logged.
#[derive(Clone, Copy, Debug, PartialEq, Eq)]
pub struct Pong {
    pub id: u64,
    pub value: u64,
}

/// What is stored for a pong.
#[derive(Clone, Copy, Debug, PartialEq, Eq)]
pub struct PongEntity {
    pub id: u64,
    pub value: u64,
}

/// A pung that a contract logged or returned.
#[derive(Clone, Copy, Debug, PartialEq, Eq)]
pub struct Pung {
    pub id: u64,
    pub value: u64,
    pub is_pung: bool,
    pub pung_from: Identity,
}

/// What is stored for a pung.
#[derive(Clone, Copy, Debug, PartialEq, Eq)]
pub struct PungEntity {
    pub id: u64,
    pub value: u64,
    pub is_pung: bool,
    pub pung_from: Identity,
}

/// One transaction of a block, as the chain gives it.
#[derive(Clone, Copy, Debug, PartialEq, Eq)]
pub struct TransactionData {
    pub id: [u8; 32],
}

/// One block, as the chain gives it.
#[derive(Clone, Debug, PartialEq, Eq)]
pub struct BlockData {
    pub id: [u8; 32],
    pub height: u64,
    pub time: u64,
    pub transactions: Vec<TransactionData>,
}

/// What is stored for a block.
#[derive(Clone, Copy, Debug, PartialEq, Eq)]
pub struct Block {
    pub id: [u8; 32],
    pub height: u64,
    pub timestamp: u64,
}

/// What is stored for a transaction.
#[derive(Clone, Debug, PartialEq, Eq)]
pub struct Tx {
    pub id: [u8; 32],
    pub block: [u8; 32],
    pub timestamp: u64,
    /// A JSON text.
    pub input_data: String,
}

/// A transfer of coins to a contract.
#[derive(Clone, Copy, Debug, PartialEq, Eq)]
pub struct TransferEvent {
    pub contract_id: [u8; 32],
    pub to: [u8; 32],
    pub asset_id: [u8; 32],
    pub amount: u64,
}

/// What is stored for a transfer.
#[derive(Clone, Copy, Debug, PartialEq, Eq)]
pub struct Transfer {
    pub id: [u8; 32],
    pub contract_id: [u8; 32],
    pub recipient: [u8; 32],
    pub amount: u64,
    pub asset_id: [u8; 32],
}

/// A transfer of coins out of a contract.
#[derive(Clone, Copy, Debug, PartialEq, Eq)]
pub struct TransferOutEvent {
    pub contract_id: [u8; 32],
    pub to: [u8; 32],
    pub asset_id: [u8; 32],
    pub amount: u64,
}

/// What is stored for a transfer out of a contract.
#[derive(Clone, Copy, Debug, PartialEq, Eq)]
pub struct TransferOut {
    pub id: [u8; 32],
    pub contract_id: [u8; 32],
    pub recipient: [u8; 32],
    pub amount: u64,
    pub asset_id: [u8; 32],
}

/// Two registers that a contract logged.
#[derive(Clone, Copy, Debug, PartialEq, Eq)]
pub struct LogEvent {
    pub contract_id: [u8; 32],
    pub ra: u64,
    pub rb: u64,
}

/// What is stored for a log.
#[derive(Clone, Copy, Debug, PartialEq, Eq)]
pub struct Log {
    pub id: [u8; 32],
    pub contract_id: [u8; 32],
    pub ra: u64,
    pub rb: u64,
}

/// How a script ended.
#[derive(Clone, Copy, Debug, PartialEq, Eq)]
pub struct ScriptResultEvent {
    pub result: u64,
    pub gas_used: u64,
}

/// What is stored for the end of a script.
#[derive(Clone, Copy, Debug, PartialEq, Eq)]
pub struct ScriptResult {
    pub id: [u8; 32],
    pub result: u64,
    pub gas_used: u64,
}

/// A message that a contract sent out.
#[derive(Clone, Copy, Debug, PartialEq, Eq)]
pub struct MessageOutEvent {
    pub sender: [u8; 32],
    pub message_id: [u8; 32],
    pub recipient: [u8; 32],
    pub amount: u64,
    pub nonce: [u8; 32],
    pub len: u64,
    pub digest: [u8; 32],
}

/// What is stored for a message sent out.
#[derive(Clone, Copy, Debug, PartialEq, Eq)]
pub struct MessageOut {
    pub id: [u8; 32],
    pub sender: [u8; 32],
    pub recipient: [u8; 32],
    pub amount: u64,
    pub nonce: [u8; 32],
    pub len: u64,
    pub digest: [u8; 32],
}

/// The entity for a ping: the ping as it came.
pub fn fuel_indexer_test_ping(ping: Ping) -> (entity: PingEntity)
    ensures
        entity.id == ping.id,
        entity.value == ping.value,
        entity.message@ == ping.message@,
{
    PingEntity { id: ping.id, value: ping.value, message: copy_text(&ping.message) }
}

/// The block of the data.
pub open spec fn block_of(block_data: BlockData) -> Block {
    Block { id: block_data.id, height: block_data.height, timestamp: block_data.time }
}

/// The entities for a block: the block, and one transaction for each of
/// the block's, in their order, stamped with the block's time.
pub fn fuel_indexer_test_blocks(block_data: BlockData) -> (entities: (Block, Vec<Tx>))
    ensures
        entities.0 == block_of(block_data),
        entities.1@.len() == block_data.transactions@.len(),
        forall|i: int|
            0 <= i < entities.1@.len() ==> {
                let tx = #[trigger] entities.1@[i];
                &&& tx.id == block_data.transactions@[i].id
                &&& tx.block == block_data.id
                &&& tx.timestamp == block_data.time
                &&& tx.input_data@ == "{\"foo\":\"bar\"}"@
            },
{
    let block = Block { id: block_data.id, height: block_data.height, timestamp: block_data.time };
    let mut txs: Vec<Tx> = Vec::new();
    let mut i: usize = 0;
    while i < block_data.transactions.len()
        invariant
            i <= block_data.transactions.len(),
            txs@.len() == i,
            block.id == block_data.id,
            forall|k: int|
                0 <= k < i ==> {
                    let tx = #[trigger] txs@[k];
                    &&& tx.id == block_data.transactions@[k].id
                    &&& tx.block == block_data.id
                    &&& tx.timestamp == block_data.time
                    &&& tx.input_data@ == "{\"foo\":\"bar\"}"@
                },
        decreases block_data.transactions.len() - i,
    {
        let tx = Tx {
            id: block_data.transactions[i].id,
            block: block.id,
            timestamp: block_data.time,
            input_data: String::from_str("{\"foo\":\"bar\"}"),
        };
        txs.push(tx);
        i += 1;
    }
    (block, txs)
}

/// The entity for a transfer. Its identifier is derived from the contract
/// and from contract, recipient and asset, one after the other.
pub fn fuel_indexer_test_transfer(transfer: TransferEvent) -> (entity: Transfer)
    ensures
        entity.id@ == derived_id(
            transfer.contract_id@,
            transfer.contract_id@ + transfer.to@ + transfer.asset_id@,
        ),
        entity.contract_id == transfer.contract_id,
        entity.recipient == transfer.to,
        entity.amount == transfer.amount,
        entity.asset_id == transfer.asset_id,
{
    Transfer {
        id: derive_id(
            transfer.contract_id,
            concat3(&transfer.contract_id, &transfer.to, &transfer.asset_id),
        ),
        contract_id: transfer.contract_id,
        recipient: transfer.to,
        amount: transfer.amount,
        asset_id: transfer.asset_id,
    }
}

/// The entity for a transfer out of a contract. Its identifier is derived
/// as a transfer's is.
pub fn fuel_indexer_test_transferout(transferout: TransferOutEvent) -> (entity: TransferOut)
    ensures
        entity.id@ == derived_id(
            transferout.contract_id@,
            transferout.contract_id@ + transferout.to@ + transferout.asset_id@,
        ),
        entity.contract_id == transferout.contract_id,
        entity.recipient == transferout.to,
        entity.amount == transferout.amount,
        entity.asset_id == transferout.asset_id,
{
    TransferOut {
        id: derive_id(
            transferout.contract_id,
            concat3(&transferout.contract_id, &transferout.to, &transferout.asset_id),
        ),
        contract_id: transferout.contract_id,
        recipient: transferout.to,
        amount: transferout.amount,
        asset_id: transferout.asset_id,
    }
}

/// The entity for a log. Its identifier is derived from the contract and
/// the bytes of `rb`, the least significant first.
pub fn fuel_indexer_test_log(log: LogEvent) -> (entity: Log)
    ensures
        entity.id@ == derived_id(log.contract_id@, spec_u64_to_le_bytes(log.rb)),
        entity.contract_id == log.contract_id,
        entity.ra == log.ra,
        entity.rb == log.rb,
{
    Log {
        id: derive_id(log.contract_id, u64_to_le_bytes(log.rb)),
        contract_id: log.contract_id,
        ra: log.ra,
        rb: log.rb,
    }
}

/// The entity for logged data: the pung as it came.
pub fn fuel_indexer_test_logdata(logdata_entity: Pung) -> (entity: PungEntity)
    ensures
        entity.id == logdata_entity.id,
        entity.value == logdata_entity.value,
        entity.is_pung == logdata_entity.is_pung,
        entity.pung_from == logdata_entity.pung_from,
{
    PungEntity {
        id: logdata_entity.id,
        value: logdata_entity.value,
        is_pung: logdata_entity.is_pung,
        pung_from: logdata_entity.pung_from,
    }
}

/// The entity for a script's result. Its identifier is derived from 32 zero
/// bytes and the bytes of the result, the most significant first.
pub fn fuel_indexer_test_scriptresult(scriptresult: ScriptResultEvent) -> (entity: ScriptResult)
    ensures
        entity.id@ == derived_id(Seq::new(32, |i: int| 0u8), be_bytes(scriptresult.result)),
        entity.result == scriptresult.result,
        entity.gas_used == scriptresult.gas_used,
{
    let zero: [u8; 32] = [0u8; 32];
    assert(zero@ =~= Seq::new(32, |i: int| 0u8));
    ScriptResult {
        id: derive_id(zero, to_be_bytes(scriptresult.result)),
        result: scriptresult.result,
        gas_used: scriptresult.gas_used,
    }
}

/// The entity for a message sent out: the message, under its own identifier.
pub fn fuel_indexer_test_messageout(messageout: MessageOutEvent) -> (entity: MessageOut)
    ensures
        entity == (MessageOut {
            id: messageout.message_id,
            sender: messageout.sender,
            recipient: messageout.recipient,
            amount: messageout.amount,
            nonce: messageout.nonce,
            len: messageout.len,
            digest: messageout.digest,
        }),
{
    MessageOut {
        id: messageout.message_id,
        sender: messageout.sender,
        recipient: messageout.recipient,
        amount: messageout.amount,
        nonce: messageout.nonce,
        len: messageout.len,
        digest: messageout.digest,
    }
}

/// The entity for a value that a call returned: the pung as it came.
pub fn fuel_indexer_test_callreturn(pungentity: Pung) -> (entity: PungEntity)
    ensures
        entity.id == pungentity.id,
        entity.value == pungentity.value,
        entity.is_pung == pungentity.is_pung,
        entity.pung_from == pungentity.pung_from,
{
    PungEntity {
        id: pungentity.id,
        value: pungentity.value,
        is_pung: pungentity.is_pung,
        pung_from: pungentity.pung_from,
    }
}

/// The entities for a handler of several events, in the order in which
/// they are stored: block, pung, pong, ping.
pub fn fuel_indexer_test_multiargs(
    pung: Pung,
    pong: Pong,
    ping: Ping,
    block_data: BlockData,
) -> (entities: (Block, PungEntity, PongEntity, PingEntity))
    ensures
        entities.0 == block_of(block_data),
        entities.1 == (PungEntity {
            id: pung.id,
            value: pung.value,
            is_pung: pung.is_pung,
            pung_from: pung.pung_from,
        }),
        entities.2 == (PongEntity { id: pong.id, value: pong.value }),
        entities.3.id == ping.id,
        entities.3.value == ping.value,
        entities.3.message@ == ping.message@,
{
    let block = Block { id: block_data.id, height: block_data.height, timestamp: block_data.time };
    let pu = PungEntity {
        id: pung.id,
        value: pung.value,
        is_pung: pung.is_pung,
        pung_from: pung.pung_from,
    };
    let po = PongEntity { id: pong.id, value: pong.value };
    let pi = PingEntity { id: ping.id, value: ping.value, message: copy_text(&ping.message) };
    (block, pu, po, pi)
}

} // verus!
