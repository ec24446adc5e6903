//! The processor: from a call's payload and accounts to what the host has to
//! do.
//!
//! A call is decided in one pass and in a fixed order: the payload is
//! decoded, the accounts and the memo are checked, the memo is hashed, and
//! only then is anything asked of the host. The answer is a [`Step`]. For
//! `OriginalMemo` it is the line to log. For `CreateCompressedMemo` it is the
//! digest to store, together with the account to create first where the
//! target holds no data; the host then lets [`store_digest`] write the digest
//! into the target's data. A call that fails asks nothing of the host.
//!
//! Storing is an upsert. A target that already holds data is not created
//! again and is not compared with what is about to be written: the new digest
//! replaces the first bytes of whatever the target held, an earlier digest
//! included. A target that holds data but less than a digest's width cannot
//! take the write; the call is refused with `AccountDataTooSmall`, so every
//! step that is handed to the host can be carried out.
pub use crate::digest::CompressedMemo;
use crate::digest::{memo_digest, DIGEST_LEN};
use crate::error::{ExtendedSPLMemoError, ProcessError};
use crate::instruction::{
    lemma_parse_wire_format, parse, wire_format, ExtendedSPLMemoInstruction, InstructionView,
};
use crate::provisioner::{ensure_provisioned, spec_ensure_provisioned, AccountState, Provision};
use vstd::prelude::*;
use vstd::string::*;
use vstd::utf8::*;

verus! {

/// Largest memo, in bytes of UTF-8, that the processor accepts.
pub const MAX_MEMO_LEN: usize = 128;

/// What the host has to do for a call that succeeded.
#[derive(Debug, PartialEq, Eq)]
pub enum Step {
    /// Append `line` to the log. No account changes.
    Log { line: String },
    /// Create the target as `provision` says, where there is one, then write
    /// `digest` over the first bytes of the target's data.
    Store { provision: Option<Provision>, digest: [u8; 32] },
}

/// A step as a mathematical value.
pub enum StepView {
    Log { line: Seq<char> },
    Store { provision: Option<Provision>, digest: Seq<u8> },
}

impl View for Step {
    type V = StepView;

    open spec fn view(&self) -> StepView {
        match self {
            Step::Log { line } => StepView::Log { line: line@ },
            Step::Store { provision, digest } => StepView::Store {
                provision: *provision,
                digest: digest@,
            },
        }
    }
}

/// The outcome of a call as a mathematical value.
pub open spec fn outcome(r: Result<Step, ProcessError>) -> Result<StepView, ProcessError> {
    match r {
        Ok(step) => Ok(step@),
        Err(e) => Err(e),
    }
}

/// The log entry for a memo: the memo after the prefix `Memo: `.
pub open spec fn memo_line(memo: Seq<char>) -> Seq<char> {
    "Memo: "@ + memo
}

/// Whether a memo is within the size limit, which counts bytes of UTF-8.
pub open spec fn memo_fits(memo: Seq<char>) -> bool {
    encode_utf8(memo).len() <= MAX_MEMO_LEN
}

/// `OriginalMemo`: a memo within the limit is logged, a longer one refused.
pub open spec fn spec_original_memo(memo: Seq<char>) -> Result<StepView, ProcessError> {
    if memo_fits(memo) {
        Ok(StepView::Log { line: memo_line(memo) })
    } else {
        Err(ProcessError::Custom(ExtendedSPLMemoError::MemoTooLong))
    }
}

/// Whether a target holds data, but too little for a digest to be written
/// over its first bytes.
pub open spec fn too_small(target: AccountState) -> bool {
    0 < target.data_len < DIGEST_LEN
}

/// The last decision of `CreateCompressedMemo`, once the memo has the digest
/// `digest`. A target that is too small for the digest is refused. Otherwise
/// the digest is stored in the target, which is created first where the
/// provisioner says so.
pub open spec fn spec_plan_store(
    program_id: [u8; 32],
    payer: AccountState,
    target: AccountState,
    digest: Seq<u8>,
) -> Result<StepView, ProcessError> {
    if too_small(target) {
        Err(ProcessError::Custom(ExtendedSPLMemoError::AccountDataTooSmall))
    } else {
        match spec_ensure_provisioned(target, payer, program_id, DIGEST_LEN) {
            Ok(provision) => Ok(StepView::Store { provision, digest }),
            Err(e) => Err(e),
        }
    }
}

/// `CreateCompressedMemo`: the checks in the order in which they are made,
/// each with its failure, and then the decision on the digest. The payer is
/// the first account, the target the second.
pub open spec fn spec_create_compressed_memo(
    program_id: [u8; 32],
    accounts: Seq<AccountState>,
    memo: Seq<char>,
) -> Result<StepView, ProcessError> {
    if accounts.len() < 2 {
        Err(ProcessError::Custom(ExtendedSPLMemoError::AccountDataTooSmall))
    } else if !accounts[0].is_signer {
        Err(ProcessError::MissingRequiredSignature)
    } else if !memo_fits(memo) {
        Err(ProcessError::Custom(ExtendedSPLMemoError::MemoTooLong))
    } else {
        match memo_digest(memo) {
            Some(digest) => spec_plan_store(program_id, accounts[0], accounts[1], digest),
            None => Err(ProcessError::Custom(ExtendedSPLMemoError::HashingError)),
        }
    }
}

/// A call: a payload that encodes no instruction is refused, and every other
/// is handled as its variant says.
pub open spec fn spec_process_instruction(
    program_id: [u8; 32],
    accounts: Seq<AccountState>,
    instruction_data: Seq<u8>,
) -> Result<StepView, ProcessError> {
    match parse(instruction_data) {
        Some(InstructionView::OriginalMemo { memo }) => spec_original_memo(memo),
        Some(InstructionView::CreateCompressedMemo { memo }) => spec_create_compressed_memo(
            program_id,
            accounts,
            memo,
        ),
        None => Err(ProcessError::Custom(ExtendedSPLMemoError::InvalidInstruction)),
    }
}

/// The data of an account after `digest` has been written over its first
/// bytes: the digest, then what lay behind it before.
pub open spec fn stored(data: Seq<u8>, digest: Seq<u8>) -> Seq<u8>
    recommends
        digest.len() <= data.len(),
{
    digest + data.skip(digest.len() as int)
}

/// Decides a call. `program_id` is the address of this program, which will
/// own the account it asks for; `accounts` are the accounts of the call in
/// their order; `instruction_data` is the payload.
pub fn process_instruction(
    program_id: &[u8; 32],
    accounts: &[AccountState],
    instruction_data: &[u8],
) -> (r: Result<Step, ProcessError>)
    ensures
        outcome(r) == spec_process_instruction(*program_id, accounts@, instruction_data@),
{
    match ExtendedSPLMemoInstruction::try_from_slice(instruction_data) {
        Ok(ExtendedSPLMemoInstruction::OriginalMemo { memo }) => process_original_memo(
            memo.as_str(),
        ),
        Ok(ExtendedSPLMemoInstruction::CreateCompressedMemo {
            memo,
        }) => process_create_compressed_memo(program_id, accounts, memo.as_str()),
        Err(e) => Err(ProcessError::Custom(e)),
    }
}

/// Decides an `OriginalMemo`: the line that the host logs.
pub fn process_original_memo(memo: &str) -> (r: Result<Step, ProcessError>)
    ensures
        outcome(r) == spec_original_memo(memo@),
{
    if memo.as_bytes().len() > MAX_MEMO_LEN {
        return Err(ProcessError::Custom(ExtendedSPLMemoError::MemoTooLong));
    }
    let mut line = "Memo: ".to_owned();
    line.append(memo);
    Ok(Step::Log { line })
}

/// Decides a `CreateCompressedMemo`: checks the accounts and the memo, hashes
/// the memo, and plans the storing of its digest.
pub fn process_create_compressed_memo(
    program_id: &[u8; 32],
    accounts: &[AccountState],
    memo: &str,
) -> (r: Result<Step, ProcessError>)
    ensures
        outcome(r) == spec_create_compressed_memo(*program_id, accounts@, memo@),
{
    if accounts.len() < 2 {
        return Err(ProcessError::Custom(ExtendedSPLMemoError::AccountDataTooSmall));
    }
    let payer = &accounts[0];
    let target = &accounts[1];
    if !payer.is_signer {
        return Err(ProcessError::MissingRequiredSignature);
    }
    if memo.as_bytes().len() > MAX_MEMO_LEN {
        return Err(ProcessError::Custom(ExtendedSPLMemoError::MemoTooLong));
    }
    let record = CompressedMemo { memo: memo.to_owned() };
    match record.hash() {
        Ok(digest) => plan_store(program_id, payer, target, digest),
        Err(e) => Err(ProcessError::Custom(e)),
    }
}

/// Plans the storing of a digest: the last decision of `CreateCompressedMemo`,
/// for whatever digest the memo has. A target with data that is narrower than
/// the digest is refused here, before anything is asked of the host.
pub fn plan_store(
    program_id: &[u8; 32],
    payer: &AccountState,
    target: &AccountState,
    digest: [u8; 32],
) -> (r: Result<Step, ProcessError>)
    ensures
        outcome(r) == spec_plan_store(*program_id, *payer, *target, digest@),
{
    if 0 < target.data_len && target.data_len < DIGEST_LEN {
        return Err(ProcessError::Custom(ExtendedSPLMemoError::AccountDataTooSmall));
    }
    match ensure_provisioned(target, payer, program_id, DIGEST_LEN) {
        Ok(provision) => Ok(Step::Store { provision, digest }),
        Err(e) => Err(e),
    }
}

/// Writes `digest` over the first bytes of `data`, the target's data. What
/// lies behind them stays, and so does the length.
pub fn store_digest(data: &mut [u8], digest: &[u8; 32])
    requires
        old(data)@.len() >= DIGEST_LEN,
    ensures
        final(data)@ == stored(old(data)@, digest@),
{
    let mut k: usize = 0;
    while k < DIGEST_LEN
        invariant
            k <= DIGEST_LEN,
            data@.len() == old(data)@.len(),
            data@.len() >= DIGEST_LEN,
            forall|j: int| 0 <= j < k ==> data@[j] == digest@[j],
            forall|j: int| k <= j < data@.len() ==> data@[j] == old(data)@[j],
        decreases DIGEST_LEN - k,
    {
        data[k] = digest[k];
        k += 1;
    }
    assert(data@ =~= stored(old(data)@, digest@));
}

/// Every instruction within the size limit has an encoding, and decoding that
/// encoding gives the instruction back.
pub proof fn lemma_accepted_instruction_round_trips(i: InstructionView)
    requires
        memo_fits(i.memo()),
    ensures
        i.encodable(),
        parse(wire_format(i)) == Some(i),
{
    lemma_parse_wire_format(i);
}

/// The size limit is 128 bytes, and it is sharp: an `OriginalMemo` of up to
/// 128 bytes, the empty one too, is logged word for word, and one of 129
/// bytes or more is refused as too long.
pub proof fn lemma_memo_length_boundary(memo: Seq<char>)
    ensures
        encode_utf8(memo).len() <= 128 ==> spec_original_memo(memo) == Ok::<
            StepView,
            ProcessError,
        >(StepView::Log { line: "Memo: "@ + memo }),
        encode_utf8(memo).len() >= 129 ==> spec_original_memo(memo) == Err::<
            StepView,
            ProcessError,
        >(ProcessError::Custom(ExtendedSPLMemoError::MemoTooLong)),
{
}

/// The same limit holds for `CreateCompressedMemo` with a signed payer: a
/// memo of 129 bytes or more is refused as too long, and one of up to 128
/// bytes is stored exactly where it has a digest and the target can take it.
pub proof fn lemma_compressed_memo_length_boundary(
    program_id: [u8; 32],
    accounts: Seq<AccountState>,
    memo: Seq<char>,
)
    requires
        accounts.len() >= 2,
        accounts[0].is_signer,
    ensures
        encode_utf8(memo).len() >= 129 ==> spec_create_compressed_memo(program_id, accounts, memo)
            == Err::<StepView, ProcessError>(
            ProcessError::Custom(ExtendedSPLMemoError::MemoTooLong),
        ),
        encode_utf8(memo).len() <= 128 ==> (spec_create_compressed_memo(
            program_id,
            accounts,
            memo,
        ) is Ok <==> memo_digest(memo) is Some && !too_small(accounts[1])),
{
}

/// A payer who did not sign gets `MissingRequiredSignature`, whatever the
/// memo: too long, without a digest, or in order.
pub proof fn lemma_unsigned_payer_is_refused(
    program_id: [u8; 32],
    accounts: Seq<AccountState>,
    instruction_data: Seq<u8>,
)
    requires
        accounts.len() >= 2,
        !accounts[0].is_signer,
        parse(instruction_data) matches Some(InstructionView::CreateCompressedMemo { .. }),
    ensures
        spec_process_instruction(program_id, accounts, instruction_data) == Err::<
            StepView,
            ProcessError,
        >(ProcessError::MissingRequiredSignature),
{
}

/// A call that fails before the target is looked at fails in the same way
/// whatever the target holds: the payload, the number of accounts, the
/// payer's signature and the memo are checked first, and nothing of the
/// target is read before the memo has its digest.
pub proof fn lemma_checks_come_before_storage(
    program_id: [u8; 32],
    accounts: Seq<AccountState>,
    other: Seq<AccountState>,
    instruction_data: Seq<u8>,
)
    requires
        accounts.len() == other.len(),
        accounts.len() >= 1 ==> accounts[0] == other[0],
        accounts.len() >= 2 ==> !too_small(accounts[1]),
        spec_process_instruction(program_id, accounts, instruction_data) is Err,
    ensures
        spec_process_instruction(program_id, other, instruction_data) == spec_process_instruction(
            program_id,
            accounts,
            instruction_data,
        ),
{
}

/// Every step that stores can be carried out. Where no account is asked for,
/// the target already holds at least a digest's width of data, so the write
/// meets what [`store_digest`] requires. Where one is asked for, the target
/// is empty and is created at exactly that width, by a payer who signed.
pub proof fn lemma_store_step_can_be_written(
    program_id: [u8; 32],
    accounts: Seq<AccountState>,
    instruction_data: Seq<u8>,
)
    requires
        spec_process_instruction(program_id, accounts, instruction_data) matches Ok(
            StepView::Store { .. },
        ),
    ensures
        accounts.len() >= 2,
        accounts[0].is_signer,
        match spec_process_instruction(program_id, accounts, instruction_data) {
            Ok(StepView::Store { provision: None, .. }) => accounts[1].data_len >= DIGEST_LEN,
            Ok(StepView::Store { provision: Some(provision), .. }) => {
                &&& accounts[1].data_len == 0
                &&& provision.space == DIGEST_LEN
                &&& provision.target == accounts[1].key
                &&& provision.payer == accounts[0].key
                &&& provision.owner == program_id
            },
            _ => false,
        },
{
}

/// The same of the last decision alone, for every digest: a plan without a
/// creation is made only for a target of at least a digest's width.
pub proof fn lemma_plan_without_creation_has_room(
    program_id: [u8; 32],
    payer: AccountState,
    target: AccountState,
    digest: Seq<u8>,
)
    ensures
        spec_plan_store(program_id, payer, target, digest) matches Ok(
            StepView::Store { provision: None, .. },
        ) ==> target.data_len >= DIGEST_LEN,
{
}

/// A target without data is created at exactly the width of a digest, for
/// this program and at the payer's cost, and once the host has created it,
/// zeroed, the write leaves the digest in it and nothing else.
pub proof fn lemma_fresh_target_holds_the_digest(
    program_id: [u8; 32],
    accounts: Seq<AccountState>,
    memo: Seq<char>,
    digest: [u8; 32],
)
    requires
        accounts.len() >= 2,
        accounts[0].is_signer,
        accounts[1].data_len == 0,
        memo_fits(memo),
        memo_digest(memo) == Some(digest@),
    ensures
        spec_create_compressed_memo(program_id, accounts, memo) == Ok::<StepView, ProcessError>(
            StepView::Store {
                provision: Some(
                    Provision {
                        payer: accounts[0].key,
                        target: accounts[1].key,
                        space: 32,
                        owner: program_id,
                    },
                ),
                digest: digest@,
            },
        ),
        stored(Seq::new(32, |j: int| 0u8), digest@) == digest@,
{
    assert(stored(Seq::new(32, |j: int| 0u8), digest@) =~= digest@);
}

/// A target that holds data is never created again, whatever it holds and
/// whoever pays: the plan for it has no creation, or the call is refused
/// because the target is too small.
pub proof fn lemma_populated_target_is_never_created(
    program_id: [u8; 32],
    payer: AccountState,
    target: AccountState,
    digest: Seq<u8>,
)
    requires
        target.data_len > 0,
    ensures
        spec_plan_store(program_id, payer, target, digest) == if target.data_len >= 32 {
            Ok::<StepView, ProcessError>(StepView::Store { provision: None, digest })
        } else {
            Err::<StepView, ProcessError>(
                ProcessError::Custom(ExtendedSPLMemoError::AccountDataTooSmall),
            )
        },
{
}

/// Storing into a target that holds a digest never asks for its creation, so
/// a second call on the same target charges the payer nothing. It is an
/// overwrite: after the two calls the target begins with the second digest,
/// and the first is gone. What lay behind the digest is as it was.
pub proof fn lemma_second_call_overwrites_without_creating(
    program_id: [u8; 32],
    accounts: Seq<AccountState>,
    data: Seq<u8>,
    first_memo: Seq<char>,
    first: [u8; 32],
    second_memo: Seq<char>,
    second: [u8; 32],
)
    requires
        accounts.len() >= 2,
        accounts[0].is_signer,
        accounts[1].data_len == data.len(),
        data.len() >= 32,
        memo_fits(first_memo),
        memo_digest(first_memo) == Some(first@),
        memo_fits(second_memo),
        memo_digest(second_memo) == Some(second@),
    ensures
        spec_create_compressed_memo(program_id, accounts, first_memo) == Ok::<
            StepView,
            ProcessError,
        >(StepView::Store { provision: None, digest: first@ }),
        stored(data, first@).len() == data.len(),
        spec_create_compressed_memo(program_id, accounts, second_memo) == Ok::<
            StepView,
            ProcessError,
        >(StepView::Store { provision: None, digest: second@ }),
        stored(stored(data, first@), second@) == second@ + data.skip(32),
{
    assert(stored(stored(data, first@), second@) =~= second@ + data.skip(32));
}

} // verus!
