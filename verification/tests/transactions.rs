use anchor_lang::solana_program::program_utils::limited_deserialize;
use eqm_miner::address::ASSOCIATED_TOKEN_ID;
use eqm_miner::instruction::{
    assemble_mine_data, build_mine_accounts, build_mine_data, AccountMeta, COMPUTE_BUDGET_ID,
    MINE_NAME, SLOT_HASHES_ID, SYSTEM_PROGRAM_ID,
};
use eqm_miner::transaction::{
    broadcast_result, sign_mine, Broadcast, SignedTransaction, MAX_DATA_LEN, MAX_SOLUTION_LEN,
};
use sha2::Digest;
use solana_sdk::compute_budget::ComputeBudgetInstruction;
use solana_sdk::instruction::Instruction;
use solana_sdk::message::Message;
use solana_sdk::pubkey::Pubkey;
use solana_sdk::signature::{Keypair, Signature, Signer};
use solana_sdk::transaction::Transaction;

/// A key pair that is the same in every run.
fn keypair() -> Keypair {
    solana_sdk::signer::keypair::keypair_from_seed(&[42u8; 32]).unwrap()
}

fn sign(keypair: &[u8; 64], soln_indices: &[u8], cu_limit: u32) -> Option<SignedTransaction> {
    sign_mine(
        keypair,
        &[10; 32],
        &[11; 32],
        &[12; 32],
        &[13; 32],
        &[14; 32],
        &[15; 32],
        &[16; 32],
        soln_indices,
        cu_limit,
        &[17; 32],
    )
}

fn answers(list: &[Result<&str, &str>]) -> Vec<Result<String, String>> {
    list.iter()
        .map(|r| match r {
            Ok(s) => Ok(s.to_string()),
            Err(e) => Err(e.to_string()),
        })
        .collect()
}

#[test]
fn well_known_addresses_are_those_of_the_chain() {
    assert_eq!(ASSOCIATED_TOKEN_ID, anchor_spl::associated_token::ID.to_bytes());
    assert_eq!(SYSTEM_PROGRAM_ID, solana_sdk::system_program::ID.to_bytes());
    assert_eq!(SLOT_HASHES_ID, solana_sdk::sysvar::slot_hashes::ID.to_bytes());
    assert_eq!(COMPUTE_BUDGET_ID, solana_sdk::compute_budget::ID.to_bytes());
    assert_eq!(&MINE_NAME, b"global:mine");
}

#[test]
fn accounts_stand_in_the_order_of_the_program() {
    let list = build_mine_accounts(&[1; 32], &[2; 32], &[3; 32], &[4; 32], &[5; 32], &[6; 32]);
    let expected = [
        ([1; 32], true, true),
        ([2; 32], false, true),
        ([3; 32], false, false),
        ([4; 32], false, true),
        ([5; 32], false, true),
        ([6; 32], false, false),
        (anchor_spl::associated_token::ID.to_bytes(), false, false),
        (solana_sdk::system_program::ID.to_bytes(), false, false),
        (solana_sdk::sysvar::slot_hashes::ID.to_bytes(), false, false),
    ];
    let found: Vec<([u8; 32], bool, bool)> =
        list.iter().map(|m| (m.pubkey, m.is_signer, m.is_writable)).collect();
    assert_eq!(found, expected.to_vec());
}

#[test]
fn account_metas_say_what_may_change() {
    let a = AccountMeta::new([1; 32], true);
    assert!(a.pubkey == [1; 32] && a.is_signer && a.is_writable);
    let b = AccountMeta::new_readonly([2; 32], false);
    assert!(b.pubkey == [2; 32] && !b.is_signer && !b.is_writable);
}

#[test]
fn data_are_put_together_from_a_digest() {
    let mut digest = [0u8; 32];
    for i in 0..32 {
        digest[i] = i as u8;
    }
    let mut expected: Vec<u8> = vec![0, 1, 2, 3, 4, 5, 6, 7];
    expected.extend_from_slice(&[9; 32]);
    expected.extend_from_slice(&[3, 0, 0, 0, 50, 51, 52]);
    assert_eq!(assemble_mine_data(&digest, &[9; 32], &[50, 51, 52]), expected);
}

#[test]
fn data_begin_with_the_digest_of_the_name() {
    let data = build_mine_data(&[9; 32], &[50, 51, 52]);
    assert_eq!(data[..8], sha2::Sha256::digest(b"global:mine")[..8]);
    assert_eq!(data[8..40], [9; 32]);
    assert_eq!(data[40..44], 3u32.to_le_bytes());
    assert_eq!(data[44..], [50, 51, 52]);
}

#[test]
fn data_can_be_read_again() {
    let soln: Vec<u8> = (0..300).map(|i| i as u8).collect();
    let data = build_mine_data(&[1; 32], &soln);
    assert_eq!(data.len(), 44 + 300);
    assert_eq!(u32::from_le_bytes([data[40], data[41], data[42], data[43]]), 300);
    assert_eq!(data[44..], soln[..]);
    assert_eq!(build_mine_data(&[1; 32], &[]).len(), 44);
}

#[test]
fn signed_transaction_is_that_of_the_chain() {
    let kp = keypair();
    let tx = sign(&kp.to_bytes(), &[1, 2, 3], 1_400_000).unwrap();

    let metas = build_mine_accounts(
        &kp.pubkey().to_bytes(),
        &[11; 32],
        &[12; 32],
        &[13; 32],
        &[14; 32],
        &[15; 32],
    );
    let ix = Instruction {
        program_id: Pubkey::new_from_array([10; 32]),
        accounts: metas
            .iter()
            .map(|m| anchor_lang::prelude::AccountMeta {
                pubkey: Pubkey::new_from_array(m.pubkey),
                is_signer: m.is_signer,
                is_writable: m.is_writable,
            })
            .collect(),
        data: build_mine_data(&[16; 32], &[1, 2, 3]),
    };
    let expected = Transaction::new_signed_with_payer(
        &[ComputeBudgetInstruction::set_compute_unit_limit(1_400_000), ix],
        Some(&kp.pubkey()),
        &[&kp],
        solana_sdk::hash::Hash::new_from_array([17; 32]),
    );
    assert_eq!(expected.signatures.len(), 1);
    assert_eq!(Signature::from(tx.signature), expected.signatures[0]);
    assert_eq!(tx.message, expected.message_data());
}

#[test]
fn message_holds_what_is_signed() {
    let kp = keypair();
    let tx = sign(&kp.to_bytes(), &[8; 20], 77).unwrap();
    assert!(Signature::from(tx.signature).verify(kp.pubkey().as_ref(), &tx.message));

    let message: Message = limited_deserialize(&tx.message, tx.message.len() as u64).unwrap();
    assert_eq!(message.account_keys[0], kp.pubkey());
    assert_eq!(message.header.num_required_signatures, 1);
    assert_eq!(message.recent_blockhash, solana_sdk::hash::Hash::new_from_array([17; 32]));
    assert_eq!(message.instructions.len(), 2);
    let limit = &message.instructions[0];
    assert_eq!(
        message.account_keys[limit.program_id_index as usize].to_bytes(),
        COMPUTE_BUDGET_ID
    );
    assert!(limit.accounts.is_empty());
    assert_eq!(limit.data, vec![2, 77, 0, 0, 0]);
    let mine = &message.instructions[1];
    assert_eq!(message.account_keys[mine.program_id_index as usize].to_bytes(), [10; 32]);
    assert_eq!(mine.accounts.len(), 9);
    assert_eq!(mine.data, build_mine_data(&[16; 32], &[8; 20]));
}

#[test]
fn every_argument_is_signed() {
    let kp = keypair().to_bytes();
    let tx = sign(&kp, &[1], 5).unwrap();
    assert_ne!(tx.signature, sign(&kp, &[2], 5).unwrap().signature);
    assert_ne!(tx.signature, sign(&kp, &[1], 6).unwrap().signature);
    assert_eq!(tx.signature, sign(&kp, &[1], 5).unwrap().signature);
}

#[test]
fn longest_solution_can_be_signed() {
    assert_eq!(MAX_SOLUTION_LEN + 44, MAX_DATA_LEN);
    let soln = vec![3u8; MAX_SOLUTION_LEN];
    assert!(sign(&keypair().to_bytes(), &soln, 1).is_some());
}

#[test]
fn bytes_that_are_no_key_pair_sign_nothing() {
    assert!(sign(&[1; 64], &[1], 1).is_none());
}

#[test]
fn broadcast_reaches_every_endpoint_once() {
    let tx = sign(&keypair().to_bytes(), &[1], 1).unwrap();
    let signature = tx.signature;
    let mut broadcast = Broadcast::new(tx, 3);
    let mut reached: Vec<(usize, [u8; 64])> = vec![];
    while let Some(i) = broadcast.next_rpc() {
        reached.push((i, broadcast.transaction.signature));
        assert!(broadcast.outcome().is_none());
        broadcast.record(Ok(format!("sig {}", i)));
    }
    assert_eq!(reached, vec![(0, signature), (1, signature), (2, signature)]);
    assert_eq!(broadcast.outcome(), Some(Ok("sig 0".to_string())));
    assert_eq!(broadcast.next_rpc(), None);
}

#[test]
fn broadcast_waits_for_every_answer() {
    let mut broadcast = Broadcast::new(sign(&keypair().to_bytes(), &[1], 1).unwrap(), 2);
    assert_eq!(broadcast.next_rpc(), Some(0));
    assert_eq!(broadcast.next_rpc(), Some(1));
    broadcast.record(Err("first".to_string()));
    assert_eq!(broadcast.outcome(), None);
    broadcast.record(Ok("second".to_string()));
    assert_eq!(broadcast.outcome(), Some(Ok("second".to_string())));
}

#[test]
fn broadcast_to_no_endpoint_fails() {
    let mut broadcast = Broadcast::new(sign(&keypair().to_bytes(), &[1], 1).unwrap(), 0);
    assert_eq!(broadcast.next_rpc(), None);
    assert_eq!(broadcast.outcome(), Some(Err("all RPCs failed".to_string())));
}

#[test]
fn first_acceptance_counts() {
    assert_eq!(
        broadcast_result(&answers(&[Err("a"), Ok("b"), Ok("c"), Err("d")])),
        Ok("b".to_string())
    );
    assert_eq!(broadcast_result(&answers(&[Ok("a"), Err("b")])), Ok("a".to_string()));
}

#[test]
fn first_refusal_counts_where_all_refuse() {
    assert_eq!(
        broadcast_result(&answers(&[Err("a"), Err("b"), Err("c")])),
        Err("a".to_string())
    );
    assert_eq!(broadcast_result(&answers(&[])), Err("all RPCs failed".to_string()));
}
