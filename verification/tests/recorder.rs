use dmlog::batch::{DMBatchContext, FlushError, SinkReport};
use dmlog::identity::{AccountKey, BlockHash};
use dmlog::trace::MessageHeader;
use dmlog::transaction::ProtocolError;

fn key(byte: u8) -> AccountKey {
    AccountKey::new([byte; 32])
}

fn start(ctx: &mut DMBatchContext, id: &str) {
    ctx.start_trx(vec![id.to_string()], 1, 0, 0, vec![], BlockHash::new([0u8; 32])).unwrap();
}

#[test]
fn file_path_names_shard_from_one_and_batch() {
    assert_eq!(DMBatchContext::new(7, 0, "/tmp/").path, "/tmp/dmlog-1-7");
    assert_eq!(DMBatchContext::new(0, 9, "/data/dm/").path, "/data/dm/dmlog-10-0");
    assert_eq!(DMBatchContext::new(120, 41, "").path, "dmlog-42-120");
    let ctx = DMBatchContext::new(u64::MAX, 4_294_967_295, "x/");
    assert_eq!(ctx.path, "x/dmlog-4294967296-18446744073709551615");
    assert_eq!(ctx.batch_number, u64::MAX);
    assert_eq!(ctx.pending(), 0);
}

#[test]
fn single_instruction_with_balance_change() {
    let mut ctx = DMBatchContext::new(7, 0, "/tmp/");
    let started = ctx.start_trx(
        vec!["sigA".to_string()],
        1,
        0,
        1,
        vec!["k1".to_string(), "k2".to_string()],
        BlockHash::new([9u8; 32]),
    );
    assert_eq!(started, Ok(()));
    assert_eq!(ctx.start_instruction(key(1), &[key(2)], &[0xAA]), Ok(()));
    assert_eq!(ctx.lamport_change(key(2), 100, 80), Ok(()));
    assert_eq!(ctx.end_instruction(), Ok(()));
    {
        let trx = &ctx.trxs[0].pb_transaction;
        assert_eq!(trx.id, "sigA");
        assert!(trx.additional_signatures.is_empty());
        assert_eq!(
            trx.header,
            Some(MessageHeader {
                num_required_signatures: 1,
                num_readonly_signed_accounts: 0,
                num_readonly_unsigned_accounts: 1,
            })
        );
        assert_eq!(trx.account_keys, vec!["k1", "k2"]);
        assert_eq!(trx.recent_blockhash, "cGfHiC6Kgg3FpFZvgwGcswsCRtp4aBP2fzuXRQPizuN");
        assert_eq!(trx.instructions.len(), 1);
        let inst = &trx.instructions[0];
        assert_eq!((inst.ordinal, inst.parent_ordinal, inst.depth), (1, 0, 0));
        assert_eq!(inst.data, vec![0xAA]);
        assert_eq!(inst.account_keys, vec![key(2).to_text()]);
        assert_eq!(inst.balance_changes.len(), 1);
        assert_eq!(inst.balance_changes[0].pubkey, key(2).to_text());
        assert_eq!(inst.balance_changes[0].prev_lamports, 100);
        assert_eq!(inst.balance_changes[0].new_lamports, 80);
    }
    let artifact = ctx.flush().unwrap();
    assert_eq!(ctx.pending(), 0);
    assert_eq!(artifact.path, "/tmp/dmlog-1-7");
    assert!(artifact.quarantined.is_empty());
    assert!(!artifact.bytes.is_empty());
    let line = artifact.conclude(SinkReport::Persisted).unwrap();
    assert_eq!(line, "DMLOG BATCH_FILE /tmp/dmlog-1-7");
}

#[test]
fn nested_instructions_get_parent_and_depth() {
    let mut ctx = DMBatchContext::new(1, 0, "/tmp/");
    start(&mut ctx, "sig");
    ctx.start_instruction(key(1), &[], &[]).unwrap();
    ctx.start_instruction(key(2), &[], &[]).unwrap();
    let frames = &ctx.trxs[0].pb_transaction.instructions;
    assert_eq!(frames.len(), 2);
    assert_eq!((frames[0].ordinal, frames[0].parent_ordinal, frames[0].depth), (1, 0, 0));
    assert_eq!((frames[1].ordinal, frames[1].parent_ordinal, frames[1].depth), (2, 1, 1));
}

#[test]
fn ordinals_restart_with_each_transaction() {
    let mut ctx = DMBatchContext::new(1, 0, "/tmp/");
    start(&mut ctx, "a");
    ctx.start_instruction(key(1), &[], &[]).unwrap();
    ctx.start_instruction(key(2), &[], &[]).unwrap();
    ctx.end_instruction().unwrap();
    ctx.end_instruction().unwrap();
    start(&mut ctx, "b");
    ctx.start_instruction(key(3), &[], &[]).unwrap();
    assert_eq!(ctx.pending(), 2);
    let second = &ctx.trxs[1].pb_transaction.instructions;
    assert_eq!(second.len(), 1);
    assert_eq!((second[0].ordinal, second[0].parent_ordinal, second[0].depth), (1, 0, 0));
    assert_eq!(ctx.trxs[0].pb_transaction.instructions.len(), 2);
}

#[test]
fn a_new_transaction_ends_the_previous_one_even_with_open_frames() {
    let mut ctx = DMBatchContext::new(1, 0, "/tmp/");
    start(&mut ctx, "a");
    ctx.start_instruction(key(1), &[], &[]).unwrap();
    start(&mut ctx, "b");
    ctx.add_log("for b".to_string()).unwrap();
    ctx.start_instruction(key(2), &[], &[]).unwrap();
    ctx.lamport_change(key(5), 1, 2).unwrap();
    assert!(ctx.trxs[0].pb_transaction.log_messages.is_empty());
    assert!(ctx.trxs[0].pb_transaction.instructions[0].balance_changes.is_empty());
    assert_eq!(ctx.trxs[1].pb_transaction.log_messages, vec!["for b"]);
    assert_eq!(ctx.trxs[1].pb_transaction.instructions[0].parent_ordinal, 0);
}

#[test]
fn first_signature_is_the_id_and_the_rest_are_additional() {
    let mut ctx = DMBatchContext::new(1, 0, "/tmp/");
    let sigs = vec!["s1".to_string(), "s2".to_string(), "s3".to_string()];
    ctx.start_trx(sigs, 3, 2, 1, vec!["k".to_string()], BlockHash::new([0u8; 32])).unwrap();
    let trx = &ctx.trxs[0].pb_transaction;
    assert_eq!(trx.id, "s1");
    assert_eq!(trx.additional_signatures, vec!["s2", "s3"]);
    assert_eq!(trx.header.unwrap().num_required_signatures, 3);
    assert_eq!(trx.header.unwrap().num_readonly_signed_accounts, 2);
    assert_eq!(trx.header.unwrap().num_readonly_unsigned_accounts, 1);
    assert!(ctx.trxs[0].call_stack.is_empty());
    assert!(!ctx.trxs[0].poisoned);
}

#[test]
fn empty_signature_list_is_rejected_and_changes_nothing() {
    let mut ctx = DMBatchContext::new(1, 0, "/tmp/");
    start(&mut ctx, "a");
    let before = ctx.trxs.clone();
    let result = ctx.start_trx(vec![], 1, 0, 0, vec!["k".to_string()], BlockHash::new([1u8; 32]));
    assert_eq!(result, Err(ProtocolError::EmptySignatureList));
    assert_eq!(ctx.trxs, before);
}

#[test]
fn calls_before_any_transaction_do_nothing() {
    let mut ctx = DMBatchContext::new(1, 0, "/tmp/");
    assert_eq!(ctx.start_instruction(key(1), &[], &[]), Err(ProtocolError::NoActiveTransaction));
    assert_eq!(ctx.end_instruction(), Err(ProtocolError::NoActiveTransaction));
    assert_eq!(ctx.account_change(key(1), &[1], &[2]), Err(ProtocolError::NoActiveTransaction));
    assert_eq!(ctx.lamport_change(key(1), 1, 2), Err(ProtocolError::NoActiveTransaction));
    assert_eq!(ctx.add_log("x".to_string()), Err(ProtocolError::NoActiveTransaction));
    assert_eq!(ctx.pending(), 0);
}

#[test]
fn end_without_open_frame_is_unbalanced() {
    let mut ctx = DMBatchContext::new(1, 0, "/tmp/");
    start(&mut ctx, "a");
    ctx.start_instruction(key(1), &[], &[1, 2]).unwrap();
    ctx.end_instruction().unwrap();
    start(&mut ctx, "b");
    ctx.start_instruction(key(2), &[], &[]).unwrap();
    ctx.end_instruction().unwrap();
    let first = ctx.trxs[0].clone();
    let second_trace = ctx.trxs[1].pb_transaction.clone();
    assert_eq!(ctx.end_instruction(), Err(ProtocolError::UnbalancedFrame));
    assert_eq!(ctx.trxs[0], first);
    assert_eq!(ctx.trxs[1].pb_transaction, second_trace);
    assert!(ctx.trxs[1].poisoned);
    start(&mut ctx, "c");
    let artifact = ctx.flush().unwrap();
    assert_eq!(artifact.quarantined, vec!["b".to_string()]);
    assert_eq!(ctx.pending(), 0);
}

#[test]
fn change_without_open_frame_poisons_the_transaction() {
    let mut ctx = DMBatchContext::new(1, 0, "/tmp/");
    start(&mut ctx, "a");
    assert_eq!(ctx.lamport_change(key(1), 1, 2), Err(ProtocolError::NoActiveInstruction));
    assert!(ctx.trxs[0].poisoned);
    start(&mut ctx, "b");
    ctx.start_instruction(key(1), &[], &[]).unwrap();
    ctx.end_instruction().unwrap();
    assert_eq!(ctx.account_change(key(1), &[], &[1]), Err(ProtocolError::NoActiveInstruction));
    assert!(ctx.trxs[1].poisoned);
    assert!(ctx.trxs[1].pb_transaction.instructions[0].account_changes.is_empty());
}

#[test]
fn changes_go_to_the_innermost_open_frame() {
    let mut ctx = DMBatchContext::new(1, 0, "/tmp/");
    start(&mut ctx, "a");
    ctx.start_instruction(key(1), &[], &[]).unwrap();
    ctx.account_change(key(8), &[0], &[1]).unwrap();
    ctx.start_instruction(key(2), &[], &[]).unwrap();
    ctx.account_change(key(8), &[1], &[2, 2]).unwrap();
    ctx.lamport_change(key(8), 10, 20).unwrap();
    ctx.end_instruction().unwrap();
    ctx.lamport_change(key(8), 20, 30).unwrap();
    let frames = &ctx.trxs[0].pb_transaction.instructions;
    assert_eq!(frames[0].account_changes.len(), 1);
    assert_eq!(frames[0].account_changes[0].new_data, vec![1]);
    assert_eq!(frames[0].balance_changes.len(), 1);
    assert_eq!(frames[0].balance_changes[0].new_lamports, 30);
    assert_eq!(frames[1].account_changes.len(), 1);
    assert_eq!(frames[1].account_changes[0].new_data, vec![2, 2]);
    assert_eq!(frames[1].account_changes[0].new_data_length, 2);
    assert_eq!(frames[1].balance_changes[0].new_lamports, 20);
}

#[test]
fn flush_drains_and_the_recorder_can_be_used_again() {
    let mut ctx = DMBatchContext::new(3, 1, "/tmp/");
    start(&mut ctx, "a");
    start(&mut ctx, "b");
    assert_eq!(ctx.pending(), 2);
    let first = ctx.flush().unwrap();
    assert_eq!(ctx.pending(), 0);
    assert_eq!(ctx.path, "/tmp/dmlog-2-3");
    assert_eq!(ctx.end_instruction(), Err(ProtocolError::NoActiveTransaction));
    start(&mut ctx, "c");
    ctx.start_instruction(key(1), &[], &[]).unwrap();
    assert_eq!(ctx.trxs[0].pb_transaction.instructions[0].ordinal, 1);
    let second = ctx.flush().unwrap();
    assert_eq!(ctx.pending(), 0);
    assert_ne!(first.bytes, second.bytes);
}

#[test]
fn flush_of_an_empty_batch_gives_an_empty_batch_artifact() {
    let mut ctx = DMBatchContext::new(0, 0, "/tmp/");
    let artifact = ctx.flush().unwrap();
    assert!(artifact.bytes.is_empty());
    assert!(artifact.quarantined.is_empty());
    assert_eq!(ctx.pending(), 0);
    let mut numbered = DMBatchContext::new(5, 0, "/tmp/");
    let artifact = numbered.flush().unwrap();
    assert_eq!(artifact.bytes, vec![0x10, 5]);
    assert_eq!(
        artifact.conclude(SinkReport::Persisted).unwrap(),
        "DMLOG BATCH_FILE /tmp/dmlog-1-5"
    );
}

#[test]
fn no_marker_without_durability() {
    let mut ctx = DMBatchContext::new(2, 0, "/var/dm/");
    start(&mut ctx, "a");
    let artifact = ctx.flush().unwrap();
    assert_eq!(
        artifact.conclude(SinkReport::SyncFailed),
        Err(FlushError::Sync { path: "/var/dm/dmlog-1-2".to_string() })
    );
    start(&mut ctx, "b");
    let artifact = ctx.flush().unwrap();
    assert_eq!(
        artifact.conclude(SinkReport::WriteFailed { offset: Some(12) }),
        Err(FlushError::Write { path: "/var/dm/dmlog-1-2".to_string(), offset: Some(12) })
    );
    let artifact = ctx.flush().unwrap();
    assert_eq!(
        artifact.conclude(SinkReport::WriteFailed { offset: None }),
        Err(FlushError::Write { path: "/var/dm/dmlog-1-2".to_string(), offset: None })
    );
}
