use indexer_core::handlers::{
    derive_id, fuel_indexer_test_blocks, fuel_indexer_test_callreturn, fuel_indexer_test_log,
    fuel_indexer_test_logdata, fuel_indexer_test_messageout, fuel_indexer_test_multiargs,
    fuel_indexer_test_ping, fuel_indexer_test_scriptresult, fuel_indexer_test_transfer,
    fuel_indexer_test_transferout, Block, BlockData, Identity, Log, LogEvent, MessageOut,
    MessageOutEvent, Ping, PingEntity, Pong, PongEntity, Pung, PungEntity, ScriptResult,
    ScriptResultEvent, TransactionData, Transfer, TransferEvent, TransferOut, TransferOutEvent, Tx,
};

fn ascii(text: &str) -> [u8; 32] {
    let mut out = [0u8; 32];
    out.copy_from_slice(text.as_bytes());
    out
}

fn contract() -> [u8; 32] {
    let mut id = [0u8; 32];
    for (i, byte) in id.iter_mut().enumerate() {
        *byte = i as u8;
    }
    id
}

#[test]
fn derived_id_is_the_first_half_of_the_digest_in_hex() {
    assert_eq!(derive_id([0u8; 32], Vec::new()), ascii("66687aadf862bd776c8fc18b8e9f8e20"));
    assert_eq!(
        derive_id([0u8; 32], 42u64.to_be_bytes().to_vec()),
        ascii("81c1ba25bc4bab042375714d443e67a2")
    );
    assert_ne!(derive_id([0u8; 32], vec![0]), derive_id([0u8; 32], Vec::new()));
    assert_ne!(derive_id([1u8; 32], Vec::new()), derive_id([0u8; 32], Vec::new()));
}

#[test]
fn ping_handler_keeps_the_ping() {
    let ping = Ping { id: 1, value: 123, message: "hello".to_string() };
    assert_eq!(
        fuel_indexer_test_ping(ping),
        PingEntity { id: 1, value: 123, message: "hello".to_string() }
    );
}

#[test]
fn blocks_handler_gives_block_and_transactions() {
    let block_data = BlockData {
        id: [7u8; 32],
        height: 9,
        time: 1234,
        transactions: vec![TransactionData { id: [1u8; 32] }, TransactionData { id: [2u8; 32] }],
    };
    let (block, txs) = fuel_indexer_test_blocks(block_data);
    assert_eq!(block, Block { id: [7u8; 32], height: 9, timestamp: 1234 });
    assert_eq!(
        txs,
        vec![
            Tx {
                id: [1u8; 32],
                block: [7u8; 32],
                timestamp: 1234,
                input_data: "{\"foo\":\"bar\"}".to_string(),
            },
            Tx {
                id: [2u8; 32],
                block: [7u8; 32],
                timestamp: 1234,
                input_data: "{\"foo\":\"bar\"}".to_string(),
            },
        ]
    );
}

#[test]
fn transfer_handlers_derive_the_id_from_contract_recipient_and_asset() {
    let id = ascii("72d5ebf7bbc2f3a14d81b2842030cced");
    let transfer = TransferEvent {
        contract_id: contract(),
        to: [0xaa; 32],
        asset_id: [0x11; 32],
        amount: 5,
    };
    assert_eq!(
        fuel_indexer_test_transfer(transfer),
        Transfer {
            id,
            contract_id: contract(),
            recipient: [0xaa; 32],
            amount: 5,
            asset_id: [0x11; 32],
        }
    );
    let transferout = TransferOutEvent {
        contract_id: contract(),
        to: [0xaa; 32],
        asset_id: [0x11; 32],
        amount: 6,
    };
    assert_eq!(
        fuel_indexer_test_transferout(transferout),
        TransferOut {
            id,
            contract_id: contract(),
            recipient: [0xaa; 32],
            amount: 6,
            asset_id: [0x11; 32],
        }
    );
}

#[test]
fn log_handler_derives_the_id_from_contract_and_rb() {
    let log = LogEvent { contract_id: contract(), ra: 3, rb: 0x0102030405060708 };
    assert_eq!(
        fuel_indexer_test_log(log),
        Log {
            id: ascii("274f6dfc0ba0483101627cb1d7ce93fe"),
            contract_id: contract(),
            ra: 3,
            rb: 0x0102030405060708,
        }
    );
}

#[test]
fn scriptresult_handler_derives_the_id_from_the_result() {
    assert_eq!(
        fuel_indexer_test_scriptresult(ScriptResultEvent { result: 42, gas_used: 7 }),
        ScriptResult { id: ascii("81c1ba25bc4bab042375714d443e67a2"), result: 42, gas_used: 7 }
    );
}

#[test]
fn pung_handlers_keep_the_pung() {
    let pung = Pung { id: 2, value: 456, is_pung: true, pung_from: Identity::Address([3u8; 32]) };
    let entity =
        PungEntity { id: 2, value: 456, is_pung: true, pung_from: Identity::Address([3u8; 32]) };
    assert_eq!(fuel_indexer_test_logdata(pung), entity);
    assert_eq!(fuel_indexer_test_callreturn(pung), entity);
}

#[test]
fn messageout_handler_stores_the_message_under_its_id() {
    let messageout = MessageOutEvent {
        sender: [1u8; 32],
        message_id: [2u8; 32],
        recipient: [3u8; 32],
        amount: 4,
        nonce: [5u8; 32],
        len: 6,
        digest: [7u8; 32],
    };
    assert_eq!(
        fuel_indexer_test_messageout(messageout),
        MessageOut {
            id: [2u8; 32],
            sender: [1u8; 32],
            recipient: [3u8; 32],
            amount: 4,
            nonce: [5u8; 32],
            len: 6,
            digest: [7u8; 32],
        }
    );
}

#[test]
fn multiargs_handler_gives_block_pung_pong_and_ping() {
    let pung =
        Pung { id: 2, value: 456, is_pung: false, pung_from: Identity::ContractId([9u8; 32]) };
    let pong = Pong { id: 3, value: 789 };
    let ping = Ping { id: 1, value: 123, message: "hi".to_string() };
    let block_data = BlockData { id: [7u8; 32], height: 9, time: 1234, transactions: Vec::new() };
    assert_eq!(
        fuel_indexer_test_multiargs(pung, pong, ping, block_data),
        (
            Block { id: [7u8; 32], height: 9, timestamp: 1234 },
            PungEntity {
                id: 2,
                value: 456,
                is_pung: false,
                pung_from: Identity::ContractId([9u8; 32]),
            },
            PongEntity { id: 3, value: 789 },
            PingEntity { id: 1, value: 123, message: "hi".to_string() },
        )
    );
}
