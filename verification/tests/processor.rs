use extanded_spl::digest::CompressedMemo;
use extanded_spl::error::{ExtendedSPLMemoError, ProcessError};
use extanded_spl::instruction::ExtendedSPLMemoInstruction;
use extanded_spl::processor::{
    plan_store, process_create_compressed_memo, process_instruction, process_original_memo,
    store_digest, Step, MAX_MEMO_LEN,
};
use extanded_spl::provisioner::{ensure_provisioned, AccountState, CreateAccount, Provision};

const PROGRAM: [u8; 32] = [9; 32];
const PAYER: [u8; 32] = [1; 32];
const TARGET: [u8; 32] = [2; 32];
const RENT: u64 = 1_113_600;

/// The accounts of a call and what the host has done so far.
struct Host {
    payer_signed: bool,
    target: Vec<u8>,
    log: Vec<String>,
    requests: Vec<CreateAccount>,
    accepts_creation: bool,
}

fn host(payer_signed: bool, target: Vec<u8>) -> Host {
    Host { payer_signed, target, log: Vec::new(), requests: Vec::new(), accepts_creation: true }
}

fn accounts(host: &Host) -> Vec<AccountState> {
    vec![
        AccountState { key: PAYER, is_signer: host.payer_signed, data_len: 0 },
        AccountState { key: TARGET, is_signer: true, data_len: host.target.len() },
    ]
}

/// One call as the runtime makes it: the processor decides, the host carries
/// out what it is asked, and nothing changes where the call fails.
fn call(host: &mut Host, payload: &[u8]) -> Result<(), ProcessError> {
    match process_instruction(&PROGRAM, &accounts(host), payload)? {
        Step::Log { line } => host.log.push(line),
        Step::Store { provision, digest } => {
            if let Some(provision) = provision {
                let request = provision.fund(RENT);
                host.requests.push(request);
                request.settle(host.accepts_creation)?;
                host.target = vec![0; request.space as usize];
            }
            store_digest(&mut host.target, &digest);
        }
    }
    Ok(())
}

fn log_record(memo: &str) -> Vec<u8> {
    ExtendedSPLMemoInstruction::OriginalMemo { memo: memo.to_string() }.try_to_vec().unwrap()
}

fn create_digest_record(memo: &str) -> Vec<u8> {
    ExtendedSPLMemoInstruction::CreateCompressedMemo { memo: memo.to_string() }
        .try_to_vec()
        .unwrap()
}

fn digest_of(memo: &str) -> [u8; 32] {
    CompressedMemo { memo: memo.to_string() }.hash().unwrap()
}

const TOO_LONG: ProcessError = ProcessError::Custom(ExtendedSPLMemoError::MemoTooLong);

#[test]
fn test_create_compressed_memo_success() {
    let mut host = host(true, Vec::new());
    let memo_str = "Hello from LightHasher!";

    call(&mut host, &create_digest_record(memo_str)).unwrap();

    assert_eq!(host.target.len(), 32);
    let expected_hash = CompressedMemo { memo: memo_str.to_string() }.hash();
    assert_eq!(host.target[..32], expected_hash.expect("BD"));
}

#[test]
fn test_create_compressed_memo_max_length() {
    let mut host = host(true, Vec::new());
    let memo_str = "a".repeat(128);

    call(&mut host, &create_digest_record(&memo_str)).unwrap();

    assert_eq!(host.target.len(), 32);
    let expected_hash = CompressedMemo { memo: memo_str }.hash();
    assert_eq!(host.target[..32], expected_hash.expect("BD"));
}

#[test]
fn test_create_compressed_memo_exceed_max_length() {
    let mut host = host(true, Vec::new());
    let memo_str = "a".repeat(129);

    let result = call(&mut host, &create_digest_record(&memo_str));

    assert!(result.is_err());
    let err = result.unwrap_err();
    assert_eq!(err, ProcessError::Custom(ExtendedSPLMemoError::MemoTooLong));
    assert_eq!(ExtendedSPLMemoError::MemoTooLong.code(), 1);
}

#[test]
fn hello_is_logged_and_nothing_else_happens() {
    let mut host = host(false, Vec::new());
    assert_eq!(call(&mut host, &log_record("Hello")), Ok(()));
    assert_eq!(host.log, vec!["Memo: Hello".to_string()]);
    assert!(host.target.is_empty());
    assert!(host.requests.is_empty());
}

#[test]
fn log_record_reads_no_account() {
    let step = process_instruction(&PROGRAM, &[], &log_record("Hello"));
    assert_eq!(step, Ok(Step::Log { line: "Memo: Hello".to_string() }));
}

#[test]
fn max_length_memo_on_empty_target_is_stored_in_a_new_account() {
    let mut host = host(true, Vec::new());
    let memo = "a".repeat(128);
    assert_eq!(call(&mut host, &create_digest_record(&memo)), Ok(()));
    assert_eq!(host.target, digest_of(&memo).to_vec());
    assert_eq!(host.target.len(), 32);
    assert_eq!(
        host.requests,
        vec![CreateAccount { from: PAYER, to: TARGET, lamports: RENT, space: 32, owner: PROGRAM }]
    );
    assert!(host.log.is_empty());
}

#[test]
fn oversized_memo_leaves_the_target_unallocated() {
    let mut host = host(true, Vec::new());
    let memo = "a".repeat(129);
    assert_eq!(call(&mut host, &create_digest_record(&memo)), Err(TOO_LONG));
    assert!(host.target.is_empty());
    assert!(host.requests.is_empty());
}

#[test]
fn unknown_tag_fails_without_side_effects() {
    let mut host = host(true, Vec::new());
    assert_eq!(
        call(&mut host, &[7]),
        Err(ProcessError::Custom(ExtendedSPLMemoError::InvalidInstruction))
    );
    assert!(host.target.is_empty());
    assert!(host.requests.is_empty());
    assert!(host.log.is_empty());
}

#[test]
fn malformed_payloads_are_invalid_instructions() {
    let invalid = Err(ProcessError::Custom(ExtendedSPLMemoError::InvalidInstruction));
    let accounts = accounts(&host(true, Vec::new()));
    assert_eq!(process_instruction(&PROGRAM, &accounts, &[]), invalid);
    assert_eq!(process_instruction(&PROGRAM, &accounts, &[1, 5, 0, 0, 0, b'a']), invalid);
    assert_eq!(process_instruction(&PROGRAM, &accounts, &[1, 1, 0, 0, 0, b'a', b'b']), invalid);
    assert_eq!(process_instruction(&PROGRAM, &accounts, &[0, 1, 0, 0, 0, 0xff]), invalid);
}

#[test]
fn original_memo_length_boundary() {
    assert_eq!(MAX_MEMO_LEN, 128);
    assert_eq!(process_original_memo(""), Ok(Step::Log { line: "Memo: ".to_string() }));
    let at_limit = "a".repeat(128);
    assert_eq!(
        process_original_memo(&at_limit),
        Ok(Step::Log { line: format!("Memo: {}", at_limit) })
    );
    assert_eq!(process_original_memo(&"a".repeat(129)), Err(TOO_LONG));
    assert_eq!(process_original_memo(&"a".repeat(1000)), Err(TOO_LONG));
}

#[test]
fn compressed_memo_length_boundary() {
    let accounts = accounts(&host(true, Vec::new()));
    for len in [0, 1, 127, 128] {
        let memo = "a".repeat(len);
        let step = process_create_compressed_memo(&PROGRAM, &accounts, &memo);
        assert!(step.is_ok(), "length {}", len);
    }
    for len in [129, 130, 4096] {
        let memo = "a".repeat(len);
        let step = process_create_compressed_memo(&PROGRAM, &accounts, &memo);
        assert_eq!(step, Err(TOO_LONG), "length {}", len);
    }
}

#[test]
fn the_limit_counts_bytes_of_utf8() {
    let sixty_four = "é".repeat(64);
    assert_eq!(sixty_four.len(), 128);
    assert!(process_original_memo(&sixty_four).is_ok());
    let sixty_five = "é".repeat(65);
    assert_eq!(sixty_five.chars().count(), 65);
    assert_eq!(process_original_memo(&sixty_five), Err(TOO_LONG));
    let accounts = accounts(&host(true, Vec::new()));
    assert!(process_create_compressed_memo(&PROGRAM, &accounts, &sixty_four).is_ok());
    assert_eq!(process_create_compressed_memo(&PROGRAM, &accounts, &sixty_five), Err(TOO_LONG));
}

#[test]
fn unsigned_payer_is_refused_whatever_the_memo() {
    for memo in ["", "Hello", &"a".repeat(128), &"a".repeat(129), &"a".repeat(5000)] {
        for target in [Vec::new(), vec![0u8; 32]] {
            let mut host = host(false, target.clone());
            assert_eq!(
                call(&mut host, &create_digest_record(memo)),
                Err(ProcessError::MissingRequiredSignature)
            );
            assert_eq!(host.target, target);
            assert!(host.requests.is_empty());
        }
    }
}

#[test]
fn fewer_than_two_accounts_are_too_few() {
    let too_few = Err(ProcessError::Custom(ExtendedSPLMemoError::AccountDataTooSmall));
    let payer = AccountState { key: PAYER, is_signer: true, data_len: 0 };
    assert_eq!(process_create_compressed_memo(&PROGRAM, &[], "Hello"), too_few);
    assert_eq!(process_create_compressed_memo(&PROGRAM, &[payer], "Hello"), too_few);
    assert_eq!(process_instruction(&PROGRAM, &[payer], &create_digest_record("Hello")), too_few);
    let long = "a".repeat(129);
    assert_eq!(process_create_compressed_memo(&PROGRAM, &[payer], &long), too_few);
}

#[test]
fn accounts_after_the_second_are_not_read() {
    let extra = AccountState { key: [3; 32], is_signer: false, data_len: 7 };
    let mut with_extra = accounts(&host(true, Vec::new()));
    with_extra.push(extra);
    assert_eq!(
        process_instruction(&PROGRAM, &with_extra, &create_digest_record("Hello")),
        process_instruction(&PROGRAM, &with_extra[..2], &create_digest_record("Hello"))
    );
}

#[test]
fn populated_target_is_overwritten_and_not_created_again() {
    let mut host = host(true, Vec::new());
    assert_eq!(call(&mut host, &create_digest_record("first")), Ok(()));
    assert_eq!(host.requests.len(), 1);
    assert_eq!(host.target, digest_of("first").to_vec());

    assert_eq!(call(&mut host, &create_digest_record("second")), Ok(()));
    assert_eq!(host.requests.len(), 1);
    assert_eq!(host.target, digest_of("second").to_vec());

    assert_eq!(call(&mut host, &create_digest_record("second")), Ok(()));
    assert_eq!(host.requests.len(), 1);
    assert_eq!(host.target, digest_of("second").to_vec());
}

#[test]
fn data_behind_the_digest_is_kept() {
    let mut before = vec![0xaa; 40];
    before[39] = 0xbb;
    let mut host = host(true, before.clone());
    assert_eq!(call(&mut host, &create_digest_record("Hello")), Ok(()));
    assert!(host.requests.is_empty());
    assert_eq!(host.target.len(), 40);
    assert_eq!(host.target[..32], digest_of("Hello"));
    assert_eq!(host.target[32..], before[32..]);
}

#[test]
fn rejected_creation_ends_the_call_before_the_write() {
    let mut host = host(true, Vec::new());
    host.accepts_creation = false;
    assert_eq!(
        call(&mut host, &create_digest_record("Hello")),
        Err(ProcessError::CreationRejected)
    );
    assert!(host.target.is_empty());
    assert_eq!(host.requests.len(), 1);
}

#[test]
fn settle_follows_the_host() {
    let request = CreateAccount { from: PAYER, to: TARGET, lamports: 1, space: 32, owner: PROGRAM };
    assert_eq!(request.settle(true), Ok(()));
    assert_eq!(request.settle(false), Err(ProcessError::CreationRejected));
}

#[test]
fn provisioner_leaves_a_populated_target_alone() {
    let signer = AccountState { key: PAYER, is_signer: true, data_len: 0 };
    let stranger = AccountState { key: PAYER, is_signer: false, data_len: 0 };
    for data_len in [1, 31, 32, 33, 10_000] {
        let target = AccountState { key: TARGET, is_signer: false, data_len };
        assert_eq!(ensure_provisioned(&target, &signer, &PROGRAM, 32), Ok(None));
        assert_eq!(ensure_provisioned(&target, &stranger, &PROGRAM, 32), Ok(None));
    }
}

#[test]
fn provisioner_asks_for_an_empty_target() {
    let signer = AccountState { key: PAYER, is_signer: true, data_len: 500 };
    let stranger = AccountState { key: PAYER, is_signer: false, data_len: 500 };
    let target = AccountState { key: TARGET, is_signer: false, data_len: 0 };
    assert_eq!(
        ensure_provisioned(&target, &signer, &PROGRAM, 32),
        Ok(Some(Provision { payer: PAYER, target: TARGET, space: 32, owner: PROGRAM }))
    );
    assert_eq!(
        ensure_provisioned(&target, &signer, &PROGRAM, 77),
        Ok(Some(Provision { payer: PAYER, target: TARGET, space: 77, owner: PROGRAM }))
    );
    assert_eq!(
        ensure_provisioned(&target, &stranger, &PROGRAM, 32),
        Err(ProcessError::MissingRequiredSignature)
    );
}

#[test]
fn funding_is_what_the_rent_schedule_gave() {
    let provision = Provision { payer: PAYER, target: TARGET, space: 32, owner: PROGRAM };
    assert_eq!(
        provision.fund(1_113_600),
        CreateAccount { from: PAYER, to: TARGET, lamports: 1_113_600, space: 32, owner: PROGRAM }
    );
    assert_eq!(provision.fund(0).lamports, 0);
    assert_eq!(provision.fund(u64::MAX).lamports, u64::MAX);
}

#[test]
fn plan_carries_the_digest_it_was_given() {
    let payer = AccountState { key: PAYER, is_signer: true, data_len: 0 };
    let empty = AccountState { key: TARGET, is_signer: false, data_len: 0 };
    let full = AccountState { key: TARGET, is_signer: false, data_len: 32 };
    let digest = [7u8; 32];
    assert_eq!(
        plan_store(&PROGRAM, &payer, &empty, digest),
        Ok(Step::Store {
            provision: Some(Provision { payer: PAYER, target: TARGET, space: 32, owner: PROGRAM }),
            digest,
        })
    );
    assert_eq!(
        plan_store(&PROGRAM, &payer, &full, digest),
        Ok(Step::Store { provision: None, digest })
    );
}

#[test]
fn plan_holds_the_digest_of_the_memo() {
    let accounts = accounts(&host(true, vec![0; 32]));
    assert_eq!(
        process_create_compressed_memo(&PROGRAM, &accounts, "Hello"),
        Ok(Step::Store { provision: None, digest: digest_of("Hello") })
    );
}

#[test]
fn store_digest_writes_the_first_bytes_only() {
    let digest: [u8; 32] = core::array::from_fn(|k| k as u8 + 1);
    let mut exact = vec![0u8; 32];
    store_digest(&mut exact, &digest);
    assert_eq!(exact, digest.to_vec());

    let mut longer = vec![0xeeu8; 35];
    store_digest(&mut longer, &digest);
    assert_eq!(longer[..32], digest);
    assert_eq!(longer[32..], [0xee, 0xee, 0xee]);
}

#[test]
fn populated_target_too_small_for_a_digest_is_refused() {
    let too_small = Err(ProcessError::Custom(ExtendedSPLMemoError::AccountDataTooSmall));
    for len in [1usize, 2, 16, 31] {
        let before: Vec<u8> = (0..len).map(|k| k as u8 + 1).collect();
        let mut host = host(true, before.clone());
        assert_eq!(call(&mut host, &create_digest_record("Hello")), too_small, "length {}", len);
        assert_eq!(host.target, before, "length {}", len);
        assert!(host.requests.is_empty(), "length {}", len);
        assert!(host.log.is_empty(), "length {}", len);
    }
}

#[test]
fn plan_refuses_a_target_that_cannot_take_the_digest() {
    let too_small = Err(ProcessError::Custom(ExtendedSPLMemoError::AccountDataTooSmall));
    let payer = AccountState { key: PAYER, is_signer: true, data_len: 0 };
    let stranger = AccountState { key: PAYER, is_signer: false, data_len: 0 };
    let digest = [7u8; 32];
    for data_len in [1usize, 31] {
        let target = AccountState { key: TARGET, is_signer: false, data_len };
        assert_eq!(plan_store(&PROGRAM, &payer, &target, digest), too_small);
        assert_eq!(plan_store(&PROGRAM, &stranger, &target, digest), too_small);
        let accounts = [payer, target];
        assert_eq!(process_create_compressed_memo(&PROGRAM, &accounts, "Hello"), too_small);
        assert_eq!(
            process_instruction(&PROGRAM, &accounts, &create_digest_record("Hello")),
            too_small
        );
    }
    for data_len in [32usize, 33, 10_000] {
        let target = AccountState { key: TARGET, is_signer: false, data_len };
        assert_eq!(
            plan_store(&PROGRAM, &payer, &target, digest),
            Ok(Step::Store { provision: None, digest })
        );
    }
}

#[test]
fn earlier_checks_win_over_a_small_target() {
    let mut host = host(false, vec![5u8; 10]);
    assert_eq!(
        call(&mut host, &create_digest_record("Hello")),
        Err(ProcessError::MissingRequiredSignature)
    );
    host.payer_signed = true;
    assert_eq!(call(&mut host, &create_digest_record(&"a".repeat(129))), Err(TOO_LONG));
    assert_eq!(
        call(&mut host, &[7]),
        Err(ProcessError::Custom(ExtendedSPLMemoError::InvalidInstruction))
    );
    assert_eq!(call(&mut host, &log_record("Hello")), Ok(()));
    assert_eq!(host.target, vec![5u8; 10]);
    assert!(host.requests.is_empty());
}
