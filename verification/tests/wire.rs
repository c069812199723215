use dmlog::batch::DMBatchContext;
use dmlog::encode::{put_messages, WireMessage};
use dmlog::identity::{AccountKey, BlockHash};
use dmlog::trace::{
    AccountChange, BalanceChange, Batch, Instruction, MessageHeader, Transaction,
};
use dmlog::wire::{put_blob, put_item, put_scalar, put_text, put_texts};
use protobuf::CodedInputStream;

/// One field as the protobuf reader finds it.
#[derive(Debug, PartialEq)]
enum Field {
    Varint(u32, u64),
    Bytes(u32, Vec<u8>),
}

/// Reads a message with the protobuf crate's reader.
fn read_fields(bytes: &[u8]) -> Vec<Field> {
    let mut input = CodedInputStream::from_bytes(bytes);
    let mut fields = Vec::new();
    while !input.eof().unwrap() {
        let (number, wire_type) = input.read_tag_unpack().unwrap();
        match wire_type {
            protobuf::wire_format::WireType::WireTypeVarint => {
                fields.push(Field::Varint(number, input.read_uint64().unwrap()));
            }
            protobuf::wire_format::WireType::WireTypeLengthDelimited => {
                fields.push(Field::Bytes(number, input.read_bytes().unwrap()));
            }
            other => panic!("unexpected wire type {:?}", other),
        }
    }
    fields
}

fn payloads(fields: &[Field], number: u32) -> Vec<Vec<u8>> {
    let mut found = Vec::new();
    for field in fields {
        if let Field::Bytes(n, payload) = field {
            if *n == number {
                found.push(payload.clone());
            }
        }
    }
    found
}

fn strings(fields: &[Field], number: u32) -> Vec<String> {
    payloads(fields, number).into_iter().map(|p| String::from_utf8(p).unwrap()).collect()
}

fn number(fields: &[Field], number: u32) -> u64 {
    let mut found = 0;
    for field in fields {
        if let Field::Varint(n, value) = field {
            if *n == number {
                found = *value;
            }
        }
    }
    found
}

fn read_balance_change(bytes: &[u8]) -> BalanceChange {
    let fields = read_fields(bytes);
    BalanceChange {
        pubkey: strings(&fields, 1).pop().unwrap_or_default(),
        prev_lamports: number(&fields, 2),
        new_lamports: number(&fields, 3),
    }
}

fn read_account_change(bytes: &[u8]) -> AccountChange {
    let fields = read_fields(bytes);
    AccountChange {
        pubkey: strings(&fields, 1).pop().unwrap_or_default(),
        prev_data: payloads(&fields, 2).pop().unwrap_or_default(),
        new_data: payloads(&fields, 3).pop().unwrap_or_default(),
        new_data_length: number(&fields, 4),
    }
}

fn read_instruction(bytes: &[u8]) -> Instruction {
    let fields = read_fields(bytes);
    Instruction {
        program_id: strings(&fields, 3).pop().unwrap_or_default(),
        account_keys: strings(&fields, 4),
        data: payloads(&fields, 5).pop().unwrap_or_default(),
        ordinal: number(&fields, 6) as u32,
        parent_ordinal: number(&fields, 7) as u32,
        depth: number(&fields, 8) as u32,
        balance_changes: payloads(&fields, 9).iter().map(|p| read_balance_change(p)).collect(),
        account_changes: payloads(&fields, 10).iter().map(|p| read_account_change(p)).collect(),
    }
}

fn read_header(bytes: &[u8]) -> MessageHeader {
    let fields = read_fields(bytes);
    MessageHeader {
        num_required_signatures: number(&fields, 1) as u32,
        num_readonly_signed_accounts: number(&fields, 2) as u32,
        num_readonly_unsigned_accounts: number(&fields, 3) as u32,
    }
}

fn read_transaction(bytes: &[u8]) -> Transaction {
    let fields = read_fields(bytes);
    Transaction {
        id: strings(&fields, 1).pop().unwrap_or_default(),
        additional_signatures: strings(&fields, 3),
        header: payloads(&fields, 4).pop().map(|p| read_header(&p)),
        account_keys: strings(&fields, 5),
        recent_blockhash: strings(&fields, 6).pop().unwrap_or_default(),
        log_messages: strings(&fields, 7),
        instructions: payloads(&fields, 8).iter().map(|p| read_instruction(p)).collect(),
    }
}

fn read_batch(bytes: &[u8]) -> Batch {
    let fields = read_fields(bytes);
    Batch {
        batch_number: number(&fields, 2),
        transactions: payloads(&fields, 1).iter().map(|p| read_transaction(p)).collect(),
    }
}

fn key(byte: u8) -> AccountKey {
    AccountKey::new([byte; 32])
}

#[test]
fn scalar_field_is_key_and_varint() {
    let mut out = vec![0xff];
    put_scalar(&mut out, 2, 100);
    assert_eq!(out, vec![0xff, 0x10, 100]);
    put_scalar(&mut out, 3, 300);
    assert_eq!(out, vec![0xff, 0x10, 100, 0x18, 0xac, 0x02]);
    put_scalar(&mut out, 1, 0);
    assert_eq!(out.len(), 6);
    let mut wide = Vec::new();
    put_scalar(&mut wide, 16, u64::MAX);
    assert_eq!(
        wide,
        vec![0x80, 0x01, 0xff, 0xff, 0xff, 0xff, 0xff, 0xff, 0xff, 0xff, 0xff, 0x01]
    );
    let mut edge = Vec::new();
    put_scalar(&mut edge, 1, 127);
    put_scalar(&mut edge, 1, 128);
    assert_eq!(edge, vec![0x08, 0x7f, 0x08, 0x80, 0x01]);
}

#[test]
fn bytes_field_is_key_length_and_payload() {
    let mut out = vec![7];
    assert!(put_item(&mut out, 1, &[0xaa, 0xbb]));
    assert_eq!(out, vec![7, 0x0a, 2, 0xaa, 0xbb]);
    assert!(put_item(&mut out, 4, &[]));
    assert_eq!(out, vec![7, 0x0a, 2, 0xaa, 0xbb, 0x22, 0]);
    assert!(put_blob(&mut out, 5, &[]));
    assert_eq!(out.len(), 7);
    assert!(put_blob(&mut out, 5, &[1]));
    assert_eq!(&out[7..], &[0x2a, 1, 1]);
    let long = vec![3u8; 200];
    let mut big = Vec::new();
    assert!(put_item(&mut big, 10, &long));
    assert_eq!(&big[..3], &[0x52, 0xc8, 0x01]);
    assert_eq!(&big[3..], &long[..]);
}

#[test]
fn text_fields_hold_utf8() {
    let mut out = Vec::new();
    assert!(put_text(&mut out, 1, "k1"));
    assert_eq!(out, vec![0x0a, 2, b'k', b'1']);
    assert!(put_text(&mut out, 1, ""));
    assert_eq!(out.len(), 4);
    let mut accents = Vec::new();
    assert!(put_text(&mut accents, 7, "é€"));
    assert_eq!(accents, vec![0x3a, 5, 0xc3, 0xa9, 0xe2, 0x82, 0xac]);
    let mut list = Vec::new();
    assert!(put_texts(&mut list, 4, &vec!["a".to_string(), String::new(), "bc".to_string()]));
    assert_eq!(list, vec![0x22, 1, b'a', 0x22, 0, 0x22, 2, b'b', b'c']);
}

#[test]
fn balance_change_bytes() {
    let change = BalanceChange { pubkey: "k1".to_string(), prev_lamports: 100, new_lamports: 80 };
    assert_eq!(change.encode().unwrap(), vec![0x0a, 2, b'k', b'1', 0x10, 100, 0x18, 80]);
    let empty = BalanceChange { pubkey: String::new(), prev_lamports: 0, new_lamports: 0 };
    assert!(empty.encode().unwrap().is_empty());
}

#[test]
fn account_change_bytes() {
    let change = AccountChange {
        pubkey: "k".to_string(),
        prev_data: vec![1, 2],
        new_data: vec![],
        new_data_length: 7,
    };
    assert_eq!(change.encode().unwrap(), vec![0x0a, 1, b'k', 0x12, 2, 1, 2, 0x20, 7]);
}

#[test]
fn header_bytes() {
    let header = MessageHeader {
        num_required_signatures: 2,
        num_readonly_signed_accounts: 0,
        num_readonly_unsigned_accounts: 255,
    };
    assert_eq!(header.encode().unwrap(), vec![0x08, 2, 0x18, 0xff, 0x01]);
}

#[test]
fn instruction_bytes() {
    let inst = Instruction {
        program_id: "p".to_string(),
        account_keys: vec!["a".to_string()],
        data: vec![0xaa],
        ordinal: 1,
        parent_ordinal: 0,
        depth: 0,
        balance_changes: vec![BalanceChange {
            pubkey: "a".to_string(),
            prev_lamports: 100,
            new_lamports: 80,
        }],
        account_changes: vec![],
    };
    assert_eq!(
        inst.encode().unwrap(),
        vec![
            0x1a, 1, b'p', 0x22, 1, b'a', 0x2a, 1, 0xaa, 0x30, 1, 0x4a, 7, 0x0a, 1, b'a', 0x10,
            100, 0x18, 80
        ]
    );
}

#[test]
fn repeated_messages_are_written_even_when_empty() {
    let mut out = Vec::new();
    let changes = vec![
        BalanceChange { pubkey: String::new(), prev_lamports: 0, new_lamports: 0 },
        BalanceChange { pubkey: String::new(), prev_lamports: 1, new_lamports: 0 },
    ];
    assert!(put_messages(&mut out, 9, &changes));
    assert_eq!(out, vec![0x4a, 0, 0x4a, 2, 0x10, 1]);
}

#[test]
fn transaction_and_batch_bytes() {
    let trx = Transaction {
        id: "s".to_string(),
        additional_signatures: vec!["t".to_string()],
        header: Some(MessageHeader {
            num_required_signatures: 0,
            num_readonly_signed_accounts: 0,
            num_readonly_unsigned_accounts: 0,
        }),
        account_keys: vec![],
        recent_blockhash: "h".to_string(),
        log_messages: vec!["m".to_string()],
        instructions: vec![],
    };
    let bytes = vec![0x0a, 1, b's', 0x1a, 1, b't', 0x22, 0, 0x32, 1, b'h', 0x3a, 1, b'm'];
    assert_eq!(trx.encode().unwrap(), bytes);
    let batch = Batch { batch_number: 3, transactions: vec![trx] };
    let mut expected = vec![0x0a, 14];
    expected.extend_from_slice(&bytes);
    expected.extend_from_slice(&[0x10, 3]);
    assert_eq!(batch.encode().unwrap(), expected);
}

#[test]
fn protobuf_reader_finds_what_was_recorded() {
    let mut ctx = DMBatchContext::new(42, 0, "/tmp/");
    ctx.start_trx(
        vec!["sigA".to_string(), "sigB".to_string()],
        2,
        1,
        3,
        vec!["k1".to_string(), "k2".to_string()],
        BlockHash::new([9u8; 32]),
    )
    .unwrap();
    ctx.add_log("Program log: é".to_string()).unwrap();
    ctx.start_instruction(key(1), &[key(2), key(3), key(2)], &[0xAA, 0, 0xBB]).unwrap();
    ctx.lamport_change(key(2), 100, 80).unwrap();
    ctx.account_change(key(3), &[1, 2, 3], &[]).unwrap();
    ctx.start_instruction(key(4), &[], &[]).unwrap();
    ctx.account_change(key(3), &[], &vec![7u8; 300]).unwrap();
    ctx.lamport_change(key(2), 80, 0).unwrap();
    ctx.lamport_change(key(2), 0, u64::MAX).unwrap();
    ctx.end_instruction().unwrap();
    ctx.end_instruction().unwrap();
    ctx.start_trx(vec!["bad".to_string()], 1, 0, 0, vec![], BlockHash::new([0u8; 32])).unwrap();
    assert!(ctx.end_instruction().is_err());
    ctx.start_trx(vec!["sigC".to_string()], 0, 0, 0, vec![], BlockHash::new([1u8; 32])).unwrap();
    ctx.start_instruction(key(5), &[key(5)], &[1]).unwrap();
    let recorded: Vec<Transaction> = vec![
        ctx.trxs[0].pb_transaction.clone(),
        ctx.trxs[2].pb_transaction.clone(),
    ];
    let artifact = ctx.flush().unwrap();
    assert_eq!(artifact.quarantined, vec!["bad".to_string()]);
    let batch = read_batch(&artifact.bytes);
    assert_eq!(batch.batch_number, 42);
    assert_eq!(batch.transactions, recorded);
    let inner = &batch.transactions[0].instructions[1];
    assert_eq!((inner.ordinal, inner.parent_ordinal, inner.depth), (2, 1, 1));
    assert_eq!(inner.account_changes[0].new_data_length, 300);
    assert_eq!(inner.balance_changes[1].new_lamports, u64::MAX);
}

#[test]
fn scenario_artifact_holds_one_transaction_one_instruction_one_change() {
    let mut ctx = DMBatchContext::new(1, 0, "/tmp/");
    ctx.start_trx(
        vec!["sigA".to_string()],
        1,
        0,
        0,
        vec!["k1".to_string(), "k2".to_string()],
        BlockHash::new([0u8; 32]),
    )
    .unwrap();
    ctx.start_instruction(key(0), &[key(1)], &[0xAA]).unwrap();
    ctx.lamport_change(key(1), 100, 80).unwrap();
    ctx.end_instruction().unwrap();
    let artifact = ctx.flush().unwrap();
    let batch = read_batch(&artifact.bytes);
    assert_eq!(batch.transactions.len(), 1);
    let trx = &batch.transactions[0];
    assert_eq!(trx.id, "sigA");
    assert_eq!(trx.account_keys, vec!["k1", "k2"]);
    assert_eq!(trx.instructions.len(), 1);
    let inst = &trx.instructions[0];
    assert_eq!((inst.ordinal, inst.parent_ordinal, inst.depth), (1, 0, 0));
    assert_eq!(inst.data, vec![0xAA]);
    assert_eq!(
        inst.balance_changes,
        vec![BalanceChange {
            pubkey: "4vJ9JU1bJJE96FWSJKvHsmmFADCg4gpZQff4P3bkLKi".to_string(),
            prev_lamports: 100,
            new_lamports: 80,
        }]
    );
    assert!(inst.account_changes.is_empty());
    let path = artifact.path.clone();
    assert_eq!(
        artifact.conclude(dmlog::batch::SinkReport::Persisted).unwrap(),
        format!("DMLOG BATCH_FILE {}", path)
    );
}

#[test]
fn payload_beyond_the_limit_is_too_large() {
    let big = vec![0u8; dmlog::wire::MAX_MESSAGE_BYTES + 1];
    let mut out = vec![1, 2];
    assert!(!put_item(&mut out, 1, &big));
    assert!(!put_blob(&mut out, 1, &big));
    assert_eq!(out, vec![1, 2]);
    let small = AccountChange {
        pubkey: "k".to_string(),
        prev_data: vec![],
        new_data: vec![1],
        new_data_length: 1,
    };
    let large = AccountChange {
        pubkey: String::new(),
        prev_data: vec![],
        new_data: big,
        new_data_length: 0,
    };
    assert_eq!(large.encode(), Err(dmlog::wire::EncodingError::TooLarge));
    assert!(small.encode().is_ok());
    let changes = vec![small, large];
    assert!(!put_messages(&mut out, 10, &changes));
    assert_eq!(out, vec![1, 2]);
    let inst = Instruction {
        program_id: "p".to_string(),
        account_keys: vec![],
        data: vec![],
        ordinal: 1,
        parent_ordinal: 0,
        depth: 0,
        balance_changes: vec![],
        account_changes: changes,
    };
    assert_eq!(inst.encode(), Err(dmlog::wire::EncodingError::TooLarge));
}

#[test]
fn flush_of_an_oversized_batch_fails_and_still_drains() {
    let mut ctx = DMBatchContext::new(1, 0, "/tmp/");
    ctx.start_trx(vec!["sig".to_string()], 1, 0, 0, vec![], BlockHash::new([0u8; 32])).unwrap();
    ctx.start_instruction(key(1), &[], &[]).unwrap();
    ctx.trxs[0].pb_transaction.instructions[0].data =
        vec![0u8; dmlog::wire::MAX_MESSAGE_BYTES + 1];
    assert_eq!(
        ctx.flush(),
        Err(dmlog::batch::FlushError::Encoding { path: "/tmp/dmlog-1-1".to_string() })
    );
    assert_eq!(ctx.pending(), 0);
}
