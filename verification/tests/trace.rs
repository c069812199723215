use dmlog::identity::AccountKey;
use dmlog::trace::{AccountChange, BalanceChange, Instruction, Transaction};
use dmlog::transaction::{DMTransaction, ProtocolError};

fn key(byte: u8) -> AccountKey {
    AccountKey::new([byte; 32])
}

fn frame() -> Instruction {
    Instruction {
        program_id: "prog".to_string(),
        account_keys: vec![],
        data: vec![],
        ordinal: 1,
        parent_ordinal: 0,
        depth: 0,
        balance_changes: vec![],
        account_changes: vec![],
    }
}

#[test]
fn account_change_copies_both_payloads_and_declares_length() {
    let mut inst = frame();
    let mut pre = vec![1u8, 2, 3];
    let mut post = vec![4u8, 5];
    inst.add_account_change(key(0), &pre, &post);
    pre[0] = 99;
    post[0] = 99;
    assert_eq!(
        inst.account_changes,
        vec![AccountChange {
            pubkey: "11111111111111111111111111111111".to_string(),
            prev_data: vec![1, 2, 3],
            new_data: vec![4, 5],
            new_data_length: 2,
        }]
    );
    assert!(inst.balance_changes.is_empty());
    assert_eq!((inst.ordinal, inst.parent_ordinal, inst.depth), (1, 0, 0));
}

#[test]
fn account_change_with_empty_payloads() {
    let mut inst = frame();
    inst.add_account_change(key(1), &[], &[]);
    assert_eq!(inst.account_changes.len(), 1);
    assert_eq!(inst.account_changes[0].new_data_length, 0);
    assert!(inst.account_changes[0].prev_data.is_empty());
    assert!(inst.account_changes[0].new_data.is_empty());
}

#[test]
fn repeated_changes_to_one_account_are_all_kept_in_order() {
    let mut inst = frame();
    inst.add_lamport_change(key(1), 100, 80);
    inst.add_lamport_change(key(1), 80, 60);
    inst.add_lamport_change(key(1), 100, 80);
    let text = "4vJ9JU1bJJE96FWSJKvHsmmFADCg4gpZQff4P3bkLKi".to_string();
    assert_eq!(
        inst.balance_changes,
        vec![
            BalanceChange { pubkey: text.clone(), prev_lamports: 100, new_lamports: 80 },
            BalanceChange { pubkey: text.clone(), prev_lamports: 80, new_lamports: 60 },
            BalanceChange { pubkey: text, prev_lamports: 100, new_lamports: 80 },
        ]
    );
    inst.add_account_change(key(1), &[1], &[2]);
    inst.add_account_change(key(1), &[2], &[3, 4]);
    assert_eq!(inst.account_changes.len(), 2);
    assert_eq!(inst.account_changes[0].new_data, vec![2]);
    assert_eq!(inst.account_changes[1].prev_data, vec![2]);
    assert_eq!(inst.account_changes[1].new_data_length, 2);
    assert_eq!(inst.balance_changes.len(), 3);
}

#[test]
fn default_transaction_is_empty() {
    let trx = Transaction::default();
    assert_eq!(trx.id, "");
    assert!(trx.header.is_none());
    assert!(trx.instructions.is_empty());
    let recording = DMTransaction::default();
    assert_eq!(recording.pb_transaction, trx);
    assert!(recording.call_stack.is_empty());
    assert!(!recording.poisoned);
}

#[test]
fn ordinals_are_assigned_in_preorder() {
    let mut rec = DMTransaction::new(Transaction::default());
    // a( b( c ) d ) e
    assert_eq!(rec.start_instruction(key(1), &[key(7), key(7)], &[1]), Ok(()));
    assert_eq!(rec.start_instruction(key(2), &[], &[2]), Ok(()));
    assert_eq!(rec.start_instruction(key(3), &[], &[3]), Ok(()));
    assert_eq!(rec.call_stack, vec![1, 2, 3]);
    assert_eq!(rec.end_instruction(), Ok(()));
    assert_eq!(rec.end_instruction(), Ok(()));
    assert_eq!(rec.start_instruction(key(4), &[], &[4]), Ok(()));
    assert_eq!(rec.call_stack, vec![1, 4]);
    assert_eq!(rec.end_instruction(), Ok(()));
    assert_eq!(rec.end_instruction(), Ok(()));
    assert_eq!(rec.start_instruction(key(5), &[], &[5]), Ok(()));
    assert_eq!(rec.call_stack, vec![5]);
    let shape: Vec<(u32, u32, u32)> = rec
        .pb_transaction
        .instructions
        .iter()
        .map(|i| (i.ordinal, i.parent_ordinal, i.depth))
        .collect();
    assert_eq!(shape, vec![(1, 0, 0), (2, 1, 1), (3, 2, 2), (4, 1, 1), (5, 0, 0)]);
    let first = &rec.pb_transaction.instructions[0];
    assert_eq!(first.program_id, "4vJ9JU1bJJE96FWSJKvHsmmFADCg4gpZQff4P3bkLKi");
    assert_eq!(first.account_keys.len(), 2);
    assert_eq!(first.account_keys[0], first.account_keys[1]);
    assert_eq!(first.data, vec![1]);
    assert!(!rec.poisoned);
}

#[test]
fn ended_frames_stay_recorded() {
    let mut rec = DMTransaction::new(Transaction::default());
    rec.start_instruction(key(1), &[], &[]).unwrap();
    rec.end_instruction().unwrap();
    assert_eq!(rec.pb_transaction.instructions.len(), 1);
    assert!(!rec.has_active_instruction());
}

#[test]
fn unmatched_end_poisons_the_transaction() {
    let mut rec = DMTransaction::new(Transaction::default());
    assert_eq!(rec.end_instruction(), Err(ProtocolError::UnbalancedFrame));
    assert!(rec.poisoned);
    assert!(rec.pb_transaction.instructions.is_empty());
    assert!(rec.call_stack.is_empty());
}

#[test]
fn active_instruction_is_the_innermost_open_frame() {
    let mut rec = DMTransaction::new(Transaction::default());
    rec.start_instruction(key(1), &[], &[]).unwrap();
    rec.start_instruction(key(2), &[], &[]).unwrap();
    assert_eq!(rec.active_instruction().ordinal, 2);
    rec.active_instruction().add_lamport_change(key(9), 5, 6);
    rec.end_instruction().unwrap();
    assert_eq!(rec.active_instruction().ordinal, 1);
    rec.active_instruction().add_lamport_change(key(9), 6, 7);
    let frames = &rec.pb_transaction.instructions;
    assert_eq!(frames[0].balance_changes[0].prev_lamports, 6);
    assert_eq!(frames[1].balance_changes[0].prev_lamports, 5);
}

#[test]
fn log_messages_are_kept_in_call_order() {
    let mut rec = DMTransaction::new(Transaction::default());
    rec.add_log("first".to_string());
    rec.start_instruction(key(1), &[], &[]).unwrap();
    rec.add_log("second".to_string());
    rec.add_log("first".to_string());
    assert_eq!(rec.pb_transaction.log_messages, vec!["first", "second", "first"]);
}
