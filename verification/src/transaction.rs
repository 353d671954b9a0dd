//! Building, signing and broadcasting a mining transaction.

use solana_sdk::pubkey::Pubkey;
use solana_sdk::signature::{Keypair, Signer};
use solana_sdk::transaction::Transaction;
use vstd::prelude::*;
use vstd::string::*;

use crate::bytes::{le_bytes_read_back, le_value, read_array32};
use crate::codec::sha256_digest;
use crate::instruction::{
    build_mine_accounts, build_mine_data, compute_limit, mine_accounts, mine_data,
    mine_data_can_be_read, set_compute_unit_limit, AccountMeta, Call, Instruction, MINE_NAME,
};

verus! {

/// A transaction with the one signature that it needs.
#[derive(Debug)]
pub struct SignedTransaction {
    pub signature: [u8; 64],
    pub message: Vec<u8>,
}

/// What a [`SignedTransaction`] holds.
pub struct Signed {
    pub signature: Seq<u8>,
    pub message: Seq<u8>,
}

impl View for SignedTransaction {
    type V = Signed;

    open spec fn view(&self) -> Signed {
        Signed { signature: self.signature@, message: self.message@ }
    }
}

/// What an optional transaction holds.
pub open spec fn signed(r: Option<SignedTransaction>) -> Option<Signed> {
    match r {
        Some(tx) => Some(tx@),
        None => None,
    }
}

/// The transaction of two instructions that a key pair pays for and signs, or nothing where the
/// bytes are no key pair.
pub uninterp spec fn signed_transaction(
    first: Call,
    second: Call,
    keypair: Seq<u8>,
    recent_blockhash: Seq<u8>,
) -> Option<Signed>;

/// The address of a key pair: its second half.
pub open spec fn key_address(keypair: Seq<u8>) -> Seq<u8> {
    keypair.subrange(32, 64)
}

/// Whether no other account than `key` has to sign a call.
pub open spec fn signed_only_by(call: Call, key: Seq<u8>) -> bool {
    forall|i: int|
        0 <= i < call.accounts.len() && (#[trigger] call.accounts[i]).is_signer
            ==> call.accounts[i].pubkey == key
}

/// The most bytes that the data of an instruction can have in a transaction.
pub const MAX_DATA_LEN: usize = 65535;

/// Calls `solana_sdk::transaction::Transaction::new_signed_with_payer` with the two instructions,
/// the key pair as payer and only signer, and the blockhash; hands back the signature and the
/// bytes of the message that it signs, or nothing where `Keypair::from_bytes` refuses the key
/// pair. The outside function panics where an instruction's data are longer than a 16-bit length
/// can say, where there are more than 255 accounts, and where another signer is missing. What the
/// signature and the message are is left to the name.
#[verifier::external_body]
fn sign_transaction(
    first: &Instruction,
    second: &Instruction,
    keypair: &[u8; 64],
    recent_blockhash: &[u8; 32],
) -> (r: Option<SignedTransaction>)
    requires
        first@.data.len() <= MAX_DATA_LEN,
        second@.data.len() <= MAX_DATA_LEN,
        first@.accounts.len() + second@.accounts.len() + 3 <= 255,
        signed_only_by(first@, key_address(keypair@)),
        signed_only_by(second@, key_address(keypair@)),
    ensures
        signed(r) == signed_transaction(first@, second@, keypair@, recent_blockhash@),
{
    let keypair = Keypair::from_bytes(keypair).ok()?;
    let meta = |m: &AccountMeta| anchor_lang::prelude::AccountMeta {
        pubkey: Pubkey::new_from_array(m.pubkey),
        is_signer: m.is_signer,
        is_writable: m.is_writable,
    };
    let [a, b] = [first, second].map(|i| solana_sdk::instruction::Instruction {
        program_id: Pubkey::new_from_array(i.program_id),
        accounts: i.accounts.iter().map(meta).collect(),
        data: i.data.clone(),
    });
    let hash = solana_sdk::hash::Hash::new_from_array(*recent_blockhash);
    let tx = Transaction::new_signed_with_payer(&[a, b], Some(&keypair.pubkey()), &[&keypair], hash);
    Some(SignedTransaction { signature: tx.signatures[0].into(), message: tx.message_data() })
}

/// The mine instruction that `miner` signs.
pub open spec fn mine_call(
    miner: Seq<u8>,
    program_id: Seq<u8>,
    config_pda: Seq<u8>,
    mint: Seq<u8>,
    vault_pda: Seq<u8>,
    miner_ata: Seq<u8>,
    token_program_id: Seq<u8>,
    nonce: Seq<u8>,
    soln_indices: Seq<u8>,
) -> Call {
    Call {
        program_id,
        accounts: mine_accounts(miner, config_pda, mint, vault_pda, miner_ata, token_program_id),
        data: mine_data(sha256_digest(MINE_NAME@), nonce, soln_indices),
    }
}

/// Whether the data of a mine instruction carry this nonce, and this solution behind its length.
pub open spec fn carries(data: Seq<u8>, nonce: Seq<u8>, soln_indices: Seq<u8>) -> bool {
    &&& data.len() == 44 + soln_indices.len()
    &&& data.subrange(8, 40) == nonce
    &&& le_value(data.subrange(40, 44)) == soln_indices.len()
    &&& data.skip(44) == soln_indices
}

/// The longest solution that fits into a transaction's instruction.
pub const MAX_SOLUTION_LEN: usize = 65491;

/// Signs the transaction that submits a solution: the compute unit limit, then the mine
/// instruction, paid for and signed by the miner.
pub fn sign_mine(
    keypair: &[u8; 64],
    program_id: &[u8; 32],
    config_pda: &[u8; 32],
    mint: &[u8; 32],
    vault_pda: &[u8; 32],
    miner_ata: &[u8; 32],
    token_program_id: &[u8; 32],
    nonce: &[u8; 32],
    soln_indices: &[u8],
    cu_limit: u32,
    recent_blockhash: &[u8; 32],
) -> (r: Option<SignedTransaction>)
    requires
        soln_indices@.len() <= MAX_SOLUTION_LEN,
    ensures
        signed(r) == signed_transaction(
            compute_limit(cu_limit as nat),
            mine_call(
                key_address(keypair@),
                program_id@,
                config_pda@,
                mint@,
                vault_pda@,
                miner_ata@,
                token_program_id@,
                nonce@,
                soln_indices@,
            ),
            keypair@,
            recent_blockhash@,
        ),
        carries(
            mine_call(
                key_address(keypair@),
                program_id@,
                config_pda@,
                mint@,
                vault_pda@,
                miner_ata@,
                token_program_id@,
                nonce@,
                soln_indices@,
            ).data,
            nonce@,
            soln_indices@,
        ),
{
    let miner = read_array32(keypair, 32);
    let accounts = build_mine_accounts(
        &miner,
        config_pda,
        mint,
        vault_pda,
        miner_ata,
        token_program_id,
    );
    let data = build_mine_data(nonce, soln_indices);
    let ix = Instruction { program_id: *program_id, accounts, data };
    let cu_ix = set_compute_unit_limit(cu_limit);
    proof {
        le_bytes_read_back(cu_limit as nat, 4);
        le_bytes_read_back(soln_indices@.len(), 4);
        mine_data_can_be_read(sha256_digest(MINE_NAME@), nonce@, soln_indices@);
    }
    sign_transaction(&cu_ix, &ix, keypair, recent_blockhash)
}

/// What an RPC endpoint answers to a transaction.
pub enum Reply {
    /// The signature under which it was confirmed.
    Accepted(Seq<char>),
    /// Why it was not.
    Refused(Seq<char>),
}

/// What an answer says.
pub open spec fn reply(r: Result<String, String>) -> Reply {
    match r {
        Ok(signature) => Reply::Accepted(signature@),
        Err(error) => Reply::Refused(error@),
    }
}

/// What a list of answers says.
pub open spec fn replies(answers: Seq<Result<String, String>>) -> Seq<Reply> {
    answers.map_values(|r: Result<String, String>| reply(r))
}

/// The first answer that accepts, if there is one.
pub open spec fn first_accepted(answers: Seq<Reply>) -> Option<Reply>
    decreases answers.len(),
{
    if answers.len() == 0 {
        None
    } else if answers[0] is Accepted {
        Some(answers[0])
    } else {
        first_accepted(answers.drop_first())
    }
}

/// What a broadcast comes to: the first answer that accepts, else the first refusal.
pub open spec fn outcome_of(answers: Seq<Reply>) -> Reply {
    match first_accepted(answers) {
        Some(accepted) => accepted,
        None => if answers.len() > 0 {
            answers[0]
        } else {
            Reply::Refused("all RPCs failed"@)
        },
    }
}

/// The same transaction given to each of the first `n` endpoints.
pub open spec fn deliveries_to(n: nat, transaction: Signed) -> Seq<(int, Signed)> {
    Seq::new(n, |i: int| (i, transaction))
}

/// One signed transaction on its way to every RPC endpoint.
///
/// The endpoints are handed out one after another; the answers are recorded in the same order.
#[derive(Debug)]
pub struct Broadcast {
    pub transaction: SignedTransaction,
    pub rpc_count: usize,
    pub sent: usize,
    pub answers: Vec<Result<String, String>>,
}

impl Broadcast {
    /// No more are handed out than there are, and only those answer that were handed out.
    pub open spec fn wf(&self) -> bool {
        self.answers@.len() <= self.sent <= self.rpc_count
    }

    /// Which transaction each endpoint was given, in order.
    pub open spec fn deliveries(&self) -> Seq<(int, Signed)> {
        deliveries_to(self.sent as nat, self.transaction@)
    }

    /// A broadcast to `rpc_count` endpoints that has not begun.
    pub fn new(transaction: SignedTransaction, rpc_count: usize) -> (r: Self)
        ensures
            r.wf(),
            r.transaction == transaction,
            r.rpc_count == rpc_count,
            r.deliveries() == Seq::<(int, Signed)>::empty(),
            r.answers@ == Seq::<Result<String, String>>::empty(),
    {
        Broadcast { transaction, rpc_count, sent: 0, answers: Vec::new() }
    }

    /// The next endpoint to send to, whatever the others have answered; nothing when all have
    /// been sent to.
    pub fn next_rpc(&mut self) -> (r: Option<usize>)
        requires
            old(self).wf(),
        ensures
            final(self).wf(),
            final(self).rpc_count == old(self).rpc_count,
            final(self).transaction == old(self).transaction,
            final(self).answers == old(self).answers,
            match r {
                Some(i) => i == old(self).sent && i < old(self).rpc_count && final(self).sent
                    == i + 1 && final(self).deliveries() == old(self).deliveries().push(
                    (i as int, old(self).transaction@),
                ),
                None => old(self).sent == old(self).rpc_count && final(self).sent == old(
                    self,
                ).sent,
            },
    {
        if self.sent < self.rpc_count {
            let i: usize = self.sent;
            self.sent = i + 1;
            assert(self.deliveries() =~= old(self).deliveries().push(
                (i as int, old(self).transaction@),
            ));
            Some(i)
        } else {
            None
        }
    }

    /// Takes the answer of the first endpoint that has not answered yet.
    pub fn record(&mut self, answer: Result<String, String>)
        requires
            old(self).wf(),
            old(self).answers@.len() < old(self).sent,
        ensures
            final(self).wf(),
            final(self).rpc_count == old(self).rpc_count,
            final(self).sent == old(self).sent,
            final(self).transaction == old(self).transaction,
            final(self).answers@ == old(self).answers@.push(answer),
    {
        self.answers.push(answer);
    }

    /// What the broadcast comes to, once every endpoint has been sent to and has answered.
    pub fn outcome(&self) -> (r: Option<Result<String, String>>)
        requires
            self.wf(),
        ensures
            match r {
                Some(result) => self.answers@.len() == self.rpc_count && self.deliveries()
                    == deliveries_to(self.rpc_count as nat, self.transaction@) && reply(result)
                    == outcome_of(replies(self.answers@)),
                None => self.answers@.len() < self.rpc_count,
            },
    {
        if self.answers.len() < self.rpc_count {
            return None;
        }
        Some(broadcast_result(&self.answers))
    }
}

/// Picks what a broadcast comes to out of the answers.
pub fn broadcast_result(answers: &Vec<Result<String, String>>) -> (r: Result<String, String>)
    ensures
        reply(r) == outcome_of(replies(answers@)),
        match r {
            Ok(signature) => exists|k: int|
                0 <= k < answers@.len() && (#[trigger] answers@[k]) is Ok && signature@
                    == answers@[k]->Ok_0@ && forall|j: int|
                    0 <= j < k ==> (#[trigger] answers@[j]) is Err,
            Err(error) => (forall|j: int|
                0 <= j < answers@.len() ==> (#[trigger] answers@[j]) is Err) && error@ == (
            if answers@.len() > 0 {
                answers@[0]->Err_0@
            } else {
                "all RPCs failed"@
            }),
        },
{
    let ghost all = replies(answers@);
    let mut i: usize = 0;
    assert(all.skip(0) =~= all);
    while i < answers.len()
        invariant
            i <= answers@.len(),
            all == replies(answers@),
            first_accepted(all) == first_accepted(all.skip(i as int)),
            forall|j: int| 0 <= j < i ==> (#[trigger] answers@[j]) is Err,
        decreases answers@.len() - i,
    {
        assert(all.skip(i as int)[0] == reply(answers@[i as int]));
        assert(all.skip(i as int).drop_first() =~= all.skip(i + 1));
        match &answers[i] {
            Ok(signature) => {
                return Ok(signature.clone());
            },
            Err(_) => {},
        }
        i = i + 1;
    }
    if answers.len() > 0 {
        assert(all[0] == reply(answers@[0]));
        match &answers[0] {
            Ok(signature) => Ok(signature.clone()),
            Err(error) => Err(error.clone()),
        }
    } else {
        Err("all RPCs failed".to_string())
    }
}

/// One acceptance is enough, and the earliest one counts.
pub proof fn first_acceptance_wins(answers: Seq<Reply>, k: int)
    requires
        0 <= k < answers.len(),
        answers[k] is Accepted,
        forall|i: int| 0 <= i < k ==> answers[i] is Refused,
    ensures
        outcome_of(answers) == answers[k],
    decreases k,
{
    if k > 0 {
        assert(answers[0] is Refused);
        let rest = answers.drop_first();
        assert forall|i: int| 0 <= i < k - 1 implies rest[i] is Refused by {
            assert(rest[i] == answers[i + 1]);
        }
        first_acceptance_wins(rest, k - 1);
        lemma_first_accepted(rest, k - 1);
    }
}

/// An acceptance among the answers is found.
proof fn lemma_first_accepted(answers: Seq<Reply>, k: int)
    requires
        0 <= k < answers.len(),
        answers[k] is Accepted,
    ensures
        first_accepted(answers) is Some,
    decreases answers.len(),
{
    if answers[0] is Refused {
        assert(answers.drop_first()[k - 1] == answers[k]);
        lemma_first_accepted(answers.drop_first(), k - 1);
    }
}

/// Where every endpoint refuses, the first refusal is reported; where there is none to ask, that all
/// have failed.
pub proof fn first_refusal_is_reported(answers: Seq<Reply>)
    requires
        forall|i: int| 0 <= i < answers.len() ==> answers[i] is Refused,
    ensures
        answers.len() > 0 ==> outcome_of(answers) == answers[0],
        answers.len() == 0 ==> outcome_of(answers) == Reply::Refused("all RPCs failed"@),
{
    lemma_none_accepted(answers);
}

/// Refusals alone hold no acceptance.
proof fn lemma_none_accepted(answers: Seq<Reply>)
    requires
        forall|i: int| 0 <= i < answers.len() ==> answers[i] is Refused,
    ensures
        first_accepted(answers) is None,
    decreases answers.len(),
{
    if answers.len() > 0 {
        assert(answers[0] is Refused);
        assert forall|i: int| 0 <= i < answers.drop_first().len() implies answers.drop_first()[i] is Refused by {
            assert(answers.drop_first()[i] == answers[i + 1]);
        }
        lemma_none_accepted(answers.drop_first());
    }
}

/// The mine instruction that is signed carries the nonce and the whole solution, behind its length,
/// where the program looks for them. A SHA-256 digest has 32 bytes.
pub proof fn whole_solution_is_signed(
    miner: Seq<u8>,
    program_id: Seq<u8>,
    config_pda: Seq<u8>,
    mint: Seq<u8>,
    vault_pda: Seq<u8>,
    miner_ata: Seq<u8>,
    token_program_id: Seq<u8>,
    nonce: Seq<u8>,
    soln_indices: Seq<u8>,
)
    requires
        nonce.len() == 32,
        soln_indices.len() <= MAX_SOLUTION_LEN,
    ensures
        sha256_digest(MINE_NAME@).len() == 32 ==> ({
            let data = mine_call(
                miner,
                program_id,
                config_pda,
                mint,
                vault_pda,
                miner_ata,
                token_program_id,
                nonce,
                soln_indices,
            ).data;
            &&& data.len() == 44 + soln_indices.len()
            &&& data.subrange(0, 8) == sha256_digest(MINE_NAME@).take(8)
            &&& data.subrange(8, 40) == nonce
            &&& le_value(data.subrange(40, 44)) == soln_indices.len()
            &&& data.skip(44) == soln_indices
        }),
{
    if sha256_digest(MINE_NAME@).len() == 32 {
        mine_data_can_be_read(sha256_digest(MINE_NAME@), nonce, soln_indices);
    }
}

/// The mine instruction that is signed calls the program that was asked for, on the accounts that
/// were handed in, and only the miner has to sign it.
pub proof fn mine_call_is_for_the_program(
    miner: Seq<u8>,
    program_id: Seq<u8>,
    config_pda: Seq<u8>,
    mint: Seq<u8>,
    vault_pda: Seq<u8>,
    miner_ata: Seq<u8>,
    token_program_id: Seq<u8>,
    nonce: Seq<u8>,
    soln_indices: Seq<u8>,
)
    ensures
        ({
            let call = mine_call(
                miner,
                program_id,
                config_pda,
                mint,
                vault_pda,
                miner_ata,
                token_program_id,
                nonce,
                soln_indices,
            );
            &&& call.program_id == program_id
            &&& signed_only_by(call, miner)
            &&& call.accounts.len() == 9
            &&& call.accounts[0].pubkey == miner && call.accounts[0].is_signer
            &&& call.accounts[1].pubkey == config_pda && call.accounts[1].is_writable
            &&& call.accounts[2].pubkey == mint && !call.accounts[2].is_writable
            &&& call.accounts[3].pubkey == vault_pda && call.accounts[3].is_writable
            &&& call.accounts[4].pubkey == miner_ata && call.accounts[4].is_writable
            &&& call.accounts[5].pubkey == token_program_id && !call.accounts[5].is_writable
        }),
{
}

/// A key pair is its secret half, and then its address.
pub proof fn address_is_the_second_half(keypair: Seq<u8>)
    requires
        keypair.len() == 64,
    ensures
        key_address(keypair).len() == 32,
        keypair == keypair.take(32) + key_address(keypair),
{
    assert(keypair =~= keypair.take(32) + key_address(keypair));
}

/// A signed transaction holds its signature and all of its message.
pub proof fn transaction_holds_the_message(tx: SignedTransaction)
    ensures
        tx@.signature == tx.signature@,
        tx@.message == tx.message@,
        signed(Some(tx)) == Some(tx@),
        signed(None) is None,
{
}

/// A broadcast that has handed out all endpoints has reached each of them exactly once, with the
/// one transaction.
pub proof fn every_endpoint_is_reached_once(b: Broadcast)
    requires
        b.wf(),
        b.sent == b.rpc_count,
    ensures
        b.deliveries().len() == b.rpc_count,
        forall|i: int| 0 <= i < b.rpc_count ==> #[trigger] b.deliveries()[i] == (i, b.transaction@),
        forall|i: int, j: int|
            0 <= i < j < b.rpc_count ==> (#[trigger] b.deliveries()[i]).0 != (
            #[trigger] b.deliveries()[j]).0,
{
}

/// An answer says what the endpoint said, letter for letter, and the answers keep their order.
pub proof fn answers_are_taken_at_their_word(answers: Seq<Result<String, String>>, i: int)
    requires
        0 <= i < answers.len(),
    ensures
        replies(answers).len() == answers.len(),
        match answers[i] {
            Ok(signature) => replies(answers)[i] == Reply::Accepted(signature@),
            Err(error) => replies(answers)[i] == Reply::Refused(error@),
        },
{
}

} // verus!
