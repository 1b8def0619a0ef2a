use mdp::account::{authorize, check_address, check_owner, Account};
use mdp::consts::ER_RECORD_SEED;
use mdp::error::ProgramError;
use mdp::instructions::sync::SyncInstruction;
use mdp::instructions::version::v0::SyncRecordV0;
use mdp::processors::register::{process_registration, register_derived};
use mdp::processors::sync::{process_sync_record, sync_derived};
use mdp::processors::unregister::{process_unregistration, unregister_derived};
use mdp::pubkey::Pubkey;
use mdp::state::features::{Feature, FeaturesSet};
use mdp::state::record::{CountryCode, ErRecord};
use mdp::state::status::ErStatus;
use mdp::state::version::v0::RecordV0;

const LAMPORTS_PER_SOL: u64 = 1_000_000_000;
const RENT: u64 = 1_635_840;

fn registry_id() -> Pubkey {
    let id = solana_program::pubkey::Pubkey::from_str_const(
        "DmnRGfyyftzacFb1XadYhWF6vWqXwtQk5tbr6XgR3BA1",
    );
    Pubkey(id.to_bytes())
}

fn system_program() -> Account {
    Account {
        key: Pubkey([0u8; 32]),
        owner: Pubkey([1u8; 32]),
        lamports: 1,
        is_signer: false,
        data: Vec::new(),
    }
}

fn wallet(key: Pubkey) -> Account {
    Account {
        key,
        owner: system_program().key,
        lamports: LAMPORTS_PER_SOL,
        is_signer: true,
        data: Vec::new(),
    }
}

fn empty_slot(key: Pubkey) -> Account {
    Account {
        key,
        owner: system_program().key,
        lamports: 0,
        is_signer: false,
        data: Vec::new(),
    }
}

struct TestEnv {
    identity: Account,
    record: ErRecord,
}

fn setup() -> TestEnv {
    let identity = wallet(Pubkey([0x4b; 32]));
    let features = FeaturesSet::default().activate(Feature::Randomness);
    let record = ErRecord::V0(RecordV0 {
        identity: identity.key,
        status: ErStatus::Active,
        addr: "https://241.132.2.41:9324/".to_string(),
        block_time_ms: 50,
        base_fee: 1000,
        features,
        load_average: 1_000_000,
        country_code: CountryCode::from("083"),
    });
    TestEnv { identity, record }
}

fn register(record: ErRecord, identity: &Account) -> Result<Account, ProgramError> {
    let pda = record.pda(&registry_id()).unwrap().0;
    let slot = empty_slot(pda);
    let allocation = process_registration(identity, &slot, record, &registry_id())?;
    Ok(allocation.into_account(RENT))
}

fn sync(slot: &mut Account, identity: &Account, record: &ErRecord) -> Result<(), ProgramError> {
    let ix = SyncInstruction::V0(SyncRecordV0 {
        identity: *record.identity(),
        status: Some(record.status()),
        addr: Some(record.addr().to_owned()),
        block_time_ms: Some(record.block_time_ms()),
        base_fee: Some(record.base_fee()),
        features: Some(record.features().clone()),
        load_average: Some(record.load_average()),
        country_code: Some(record.country_code()),
    });
    process_sync_record(identity, slot, ix, &registry_id())
}

fn empty_patch(identity: Pubkey) -> SyncRecordV0 {
    SyncRecordV0 {
        identity,
        status: None,
        addr: None,
        block_time_ms: None,
        base_fee: None,
        features: None,
        load_average: None,
        country_code: None,
    }
}

#[test]
fn test_registration() {
    let TestEnv { identity, record } = setup();
    let addr = record.addr().to_owned();
    let pda = record.pda(&registry_id()).unwrap().0;

    let result = register(record, &identity);
    assert!(result.is_ok(), "error processing register transaction {:?}", result);
    let acc = result.unwrap();
    assert_eq!(acc.key, pda);
    assert_eq!(acc.owner, registry_id());
    let result = ErRecord::try_from_slice(&acc.data);
    assert!(result.is_ok(), "error querying registration PDA from banks {:?}", result);
    let record = result.unwrap();
    assert_eq!(*record.identity(), identity.key);
    assert_eq!(
        *record.features(),
        FeaturesSet::default().activate(Feature::Randomness)
    );
    assert_eq!(record.addr(), addr);
}

#[test]
fn test_sync_test_sync_info() {
    let TestEnv { mut identity, record } = setup();
    let initial = record.clone();

    let result = register(record, &identity);
    assert!(result.is_ok(), "error processing register transaction {:?}", result);
    let mut acc = result.unwrap();
    assert_eq!(acc.owner, registry_id());
    let result = ErRecord::try_from_slice(&acc.data);
    assert!(result.is_ok(), "error querying registration PDA from banks {:?}", result);
    let mut record = result.unwrap();
    assert_eq!(record, initial);

    const NEW_BLOCK_TIME: u16 = 1000;
    const NEW_ADDR: &str = "https://127.145.24.55:9324";

    record.set_block_time_ms(NEW_BLOCK_TIME);
    record.set_addr(NEW_ADDR.to_string());
    record.set_status(ErStatus::Draining);
    record.set_load_average(2_200_000);

    let result = sync(&mut acc, &identity, &record);
    assert!(result.is_ok(), "error processing sync info transaction {:?}", result);

    assert_eq!(acc.owner, registry_id());
    let result = ErRecord::try_from_slice(&acc.data);
    assert!(result.is_ok(), "error querying registration PDA post modification {:?}", result);
    let record = result.unwrap();
    assert_eq!(record.addr(), NEW_ADDR);
    assert_eq!(record.block_time_ms(), NEW_BLOCK_TIME);
    assert_eq!(record.status(), ErStatus::Draining);
    assert_eq!(record.load_average(), 2_200_000);

    let result =
        process_unregistration(&mut identity, &mut acc, &system_program(), *record.identity(), &registry_id());
    assert!(result.is_ok(), "error processing unregister transaction {:?}", result);
    assert!(
        acc.lamports == 0 && acc.data.is_empty(),
        "registration PDA hasn't been removed from banks"
    );
}

#[test]
fn test_unregistration() {
    let TestEnv { mut identity, record } = setup();
    let node_id = identity.key;

    let result = register(record, &identity);
    assert!(result.is_ok(), "error processing register transaction {:?}", result);
    let mut acc = result.unwrap();

    let result =
        process_unregistration(&mut identity, &mut acc, &system_program(), node_id, &registry_id());
    assert!(result.is_ok(), "error processing unregister transaction {:?}", result);
    assert!(
        acc.lamports == 0 && acc.data.is_empty(),
        "registration PDA hasn't been removed from banks"
    );
    assert_eq!(acc.owner, system_program().key);
    assert_eq!(identity.lamports, LAMPORTS_PER_SOL + RENT);
}

#[test]
fn partial_sync_scenario() {
    let TestEnv { identity, record } = setup();
    let initial = record.clone();
    let mut acc = register(record, &identity).unwrap();
    let ix = SyncInstruction::V0(SyncRecordV0 {
        block_time_ms: Some(1000),
        addr: Some("https://127.145.24.55:9324".to_string()),
        status: Some(ErStatus::Draining),
        load_average: Some(2_200_000),
        ..empty_patch(identity.key)
    });
    assert_eq!(process_sync_record(&identity, &mut acc, ix, &registry_id()), Ok(()));
    let stored = ErRecord::try_from_slice(&acc.data).unwrap();
    assert_eq!(stored.block_time_ms(), 1000);
    assert_eq!(stored.addr(), "https://127.145.24.55:9324");
    assert_eq!(stored.status(), ErStatus::Draining);
    assert_eq!(stored.load_average(), 2_200_000);
    assert_eq!(stored.identity(), initial.identity());
    assert_eq!(stored.base_fee(), 1000);
    assert_eq!(*stored.features(), FeaturesSet::default().activate(Feature::Randomness));
    assert_eq!(stored.country_code(), CountryCode::from("083"));
    assert_eq!(acc.data.len(), 81 + 26);
    assert_eq!(acc.lamports, RENT);
}

#[test]
fn block_time_patch_leaves_the_rest() {
    let TestEnv { identity, record } = setup();
    let mut expected = record.clone();
    let mut acc = register(record, &identity).unwrap();
    let ix = SyncInstruction::V0(SyncRecordV0 {
        block_time_ms: Some(1000),
        ..empty_patch(identity.key)
    });
    assert_eq!(process_sync_record(&identity, &mut acc, ix, &registry_id()), Ok(()));
    expected.set_block_time_ms(1000);
    assert_eq!(ErRecord::try_from_slice(&acc.data).unwrap(), expected);
}

#[test]
fn sync_patches_country_code_and_features() {
    let TestEnv { identity, record } = setup();
    let mut acc = register(record, &identity).unwrap();
    let ix = SyncInstruction::V0(SyncRecordV0 {
        country_code: Some(CountryCode::from("276")),
        features: Some(FeaturesSet::default().activate(Feature::HighResClock)),
        base_fee: Some(3),
        ..empty_patch(identity.key)
    });
    assert_eq!(process_sync_record(&identity, &mut acc, ix, &registry_id()), Ok(()));
    let stored = ErRecord::try_from_slice(&acc.data).unwrap();
    assert_eq!(stored.country_code(), CountryCode::from("276"));
    assert_eq!(*stored.features(), FeaturesSet::default().activate(Feature::HighResClock));
    assert_eq!(stored.base_fee(), 3);
    assert_eq!(stored.block_time_ms(), 50);
}

#[test]
fn sync_resizes_the_payload() {
    let TestEnv { identity, record } = setup();
    let mut acc = register(record, &identity).unwrap();
    assert_eq!(acc.data.len(), 81 + 26);
    let longer = SyncInstruction::V0(SyncRecordV0 {
        addr: Some("https://a-much-longer-name.example.org:9324/".to_string()),
        ..empty_patch(identity.key)
    });
    assert_eq!(process_sync_record(&identity, &mut acc, longer, &registry_id()), Ok(()));
    assert_eq!(acc.data.len(), 81 + 44);
    let stored = ErRecord::try_from_slice(&acc.data).unwrap();
    assert_eq!(stored.addr(), "https://a-much-longer-name.example.org:9324/");
    let shorter = SyncInstruction::V0(SyncRecordV0 {
        addr: Some("x".to_string()),
        ..empty_patch(identity.key)
    });
    assert_eq!(process_sync_record(&identity, &mut acc, shorter, &registry_id()), Ok(()));
    assert_eq!(acc.data.len(), 82);
    let stored = ErRecord::try_from_slice(&acc.data).unwrap();
    assert_eq!(stored.addr(), "x");
    assert_eq!(stored.load_average(), 1_000_000);
}

#[test]
fn sync_at_a_wrong_address_with_corrupt_bytes() {
    let TestEnv { identity, record } = setup();
    let registered = register(record.clone(), &identity).unwrap();
    let pda = registered.key;

    let mut slot = Account {
        key: Pubkey([3; 32]),
        data: vec![9, 9, 9],
        ..register(record.clone(), &identity).unwrap()
    };
    assert_eq!(sync(&mut slot, &identity, &record), Err(ProgramError::InvalidArgument));
    assert_eq!(slot.data, vec![9, 9, 9]);
    assert_eq!(slot.key, Pubkey([3; 32]));
    assert_eq!(slot.lamports, RENT);
    assert_eq!(slot.owner, registry_id());

    let ix = SyncInstruction::V0(empty_patch(identity.key));
    assert_eq!(
        sync_derived(&identity, &mut slot, ix, &registry_id(), None),
        Err(ProgramError::InvalidArgument)
    );
    let ix = SyncInstruction::V0(empty_patch(identity.key));
    assert_eq!(
        sync_derived(&identity, &mut slot, ix, &registry_id(), Some((pda, 255))),
        Err(ProgramError::InvalidArgument)
    );
    assert_eq!(slot.data, vec![9, 9, 9]);

    let mut empty = Account {
        key: Pubkey([3; 32]),
        data: Vec::new(),
        ..register(record.clone(), &identity).unwrap()
    };
    assert_eq!(sync(&mut empty, &identity, &record), Err(ProgramError::InvalidArgument));

    let mut at_home = Account { data: vec![9, 9, 9], ..register(record.clone(), &identity).unwrap() };
    assert_eq!(sync(&mut at_home, &identity, &record), Err(ProgramError::InvalidAccountData));
    assert_eq!(at_home.data, vec![9, 9, 9]);
}

#[test]
fn sync_at_a_wrong_address_with_a_record() {
    let TestEnv { identity, record } = setup();
    let stored = record.try_to_vec().unwrap();

    let mut own = Account { key: Pubkey([3; 32]), ..register(record.clone(), &identity).unwrap() };
    assert_eq!(sync(&mut own, &identity, &record), Err(ProgramError::InvalidArgument));
    assert_eq!(own.data, stored);

    let stranger = wallet(Pubkey([0x4c; 32]));
    let ix = SyncInstruction::V0(SyncRecordV0 { base_fee: Some(1), ..empty_patch(stranger.key) });
    let mut theirs = register(record.clone(), &identity).unwrap();
    assert_eq!(
        process_sync_record(&stranger, &mut theirs, ix, &registry_id()),
        Err(ProgramError::IncorrectAuthority)
    );
    assert_eq!(theirs.data, stored);
}

#[test]
fn sync_checks_the_stored_identity() {
    let TestEnv { identity, record } = setup();
    let stranger = wallet(Pubkey([0x4c; 32]));
    let theirs = ErRecord::V0(RecordV0 {
        identity: stranger.key,
        ..match record.clone() {
            ErRecord::V0(v) => v,
        }
    });
    let mut acc = register(record, &identity).unwrap();
    acc.data = theirs.try_to_vec().unwrap();
    let ix = SyncInstruction::V0(empty_patch(identity.key));
    assert_eq!(
        process_sync_record(&identity, &mut acc, ix, &registry_id()),
        Err(ProgramError::IncorrectAuthority)
    );
    let mut wallet_of_node = wallet(identity.key);
    assert_eq!(
        process_unregistration(
            &mut wallet_of_node,
            &mut acc,
            &system_program(),
            identity.key,
            &registry_id()
        ),
        Err(ProgramError::InvalidArgument)
    );
}

#[test]
fn apply_merges_present_fields() {
    let mut record = setup().record;
    let before = record.clone();
    SyncInstruction::V0(empty_patch(Pubkey([9; 32]))).apply(&mut record);
    assert_eq!(record, before);
    SyncInstruction::V0(SyncRecordV0 { load_average: Some(5), ..empty_patch(Pubkey([9; 32])) })
        .apply(&mut record);
    assert_eq!(record.load_average(), 5);
    assert_eq!(record.identity(), before.identity());
}

#[test]
fn patch_accessors_reach_the_fields() {
    let mut ix = SyncInstruction::V0(SyncRecordV0 {
        base_fee: Some(4),
        ..empty_patch(Pubkey([9; 32]))
    });
    assert_eq!(*ix.identity(), Pubkey([9; 32]));
    assert_eq!(ix.base_fee().take(), Some(4));
    assert_eq!(*ix.base_fee(), None);
    *ix.addr() = Some("a".to_string());
    assert_eq!(ix.addr().clone(), Some("a".to_string()));
    *ix.status() = Some(ErStatus::Offline);
    assert_eq!(*ix.status(), Some(ErStatus::Offline));
    assert_eq!(*ix.block_time_ms(), None);
    assert_eq!(*ix.load_average(), None);
    assert_eq!(*ix.country_code(), None);
    assert_eq!(*ix.features(), None);
}

#[test]
fn derived_address_is_the_platform_s() {
    let TestEnv { identity, record } = setup();
    let program = solana_program::pubkey::Pubkey::new_from_array(registry_id().0);
    let (address, bump) = solana_program::pubkey::Pubkey::find_program_address(
        &[b"er-record", &identity.key.0],
        &program,
    );
    assert_eq!(ER_RECORD_SEED, *b"er-record");
    let derived = record.pda(&registry_id());
    assert_eq!(derived, Some((Pubkey(address.to_bytes()), bump)));
    assert_ne!(derived.unwrap().0, identity.key);
    assert_eq!(record.pda(&registry_id()), derived);
    let ix = SyncInstruction::V0(empty_patch(identity.key));
    assert_eq!(ix.pda(&registry_id()), derived);
    let other = ErRecord::V0(RecordV0 { identity: Pubkey([0x4c; 32]), ..match record { ErRecord::V0(v) => v } });
    assert_ne!(other.pda(&registry_id()), derived);
    let seeds = other.seeds();
    assert_eq!(seeds[0], b"er-record");
    assert_eq!(seeds[1], &[0x4c; 32]);
}

#[test]
fn double_register_is_rejected() {
    let TestEnv { identity, record } = setup();
    let slot = register(record.clone(), &identity).unwrap();
    let stored = slot.data.clone();
    let result = process_registration(&identity, &slot, record, &registry_id());
    assert_eq!(result.err(), Some(ProgramError::AccountAlreadyInitialized));
    assert_eq!(slot.data, stored);
}

#[test]
fn registration_errors() {
    let TestEnv { identity, record } = setup();
    let pda = record.pda(&registry_id()).unwrap().0;

    let unsigned = Account { is_signer: false, ..wallet(identity.key) };
    let result = process_registration(&unsigned, &empty_slot(pda), record.clone(), &registry_id());
    assert_eq!(result.err(), Some(ProgramError::MissingRequiredSignature));

    let stranger = wallet(Pubkey([0x4c; 32]));
    let result = process_registration(&stranger, &empty_slot(pda), record.clone(), &registry_id());
    assert_eq!(result.err(), Some(ProgramError::IncorrectAuthority));

    let elsewhere = empty_slot(Pubkey([3; 32]));
    let result = process_registration(&identity, &elsewhere, record.clone(), &registry_id());
    assert_eq!(result.err(), Some(ProgramError::InvalidArgument));

    let result = register_derived(&identity, &empty_slot(pda), record.clone(), &registry_id(), None);
    assert_eq!(result.err(), Some(ProgramError::InvalidArgument));

    let result =
        register_derived(&identity, &empty_slot(pda), record.clone(), &registry_id(), Some((pda, 7)));
    let allocation = result.unwrap();
    assert_eq!(allocation.bump, 7);
    assert_eq!(allocation.address, pda);
    assert_eq!(allocation.payer, identity.key);
    assert_eq!(allocation.identity, identity.key);
    assert_eq!(allocation.owner, registry_id());
    assert_eq!(allocation.space(), 107);
    assert_eq!(allocation.data, record.try_to_vec().unwrap());
}

#[test]
fn unauthorized_sync_is_rejected() {
    let TestEnv { identity, record } = setup();
    let mut acc = register(record.clone(), &identity).unwrap();
    let stored = acc.data.clone();

    let stranger = wallet(Pubkey([0x4c; 32]));
    let result = sync(&mut acc, &stranger, &record);
    assert_eq!(result, Err(ProgramError::IncorrectAuthority));
    assert_eq!(acc.data, stored);

    let ix = SyncInstruction::V0(SyncRecordV0 {
        base_fee: Some(1),
        ..empty_patch(stranger.key)
    });
    let result = process_sync_record(&stranger, &mut acc, ix, &registry_id());
    assert_eq!(result, Err(ProgramError::IncorrectAuthority));
    assert_eq!(acc.data, stored);

    let unsigned = Account { is_signer: false, ..wallet(identity.key) };
    let result = sync(&mut acc, &unsigned, &record);
    assert_eq!(result, Err(ProgramError::MissingRequiredSignature));
    assert_eq!(acc.data, stored);
    assert_eq!(acc.lamports, RENT);
}

#[test]
fn sync_errors() {
    let TestEnv { identity, record } = setup();
    let registered = register(record.clone(), &identity).unwrap();
    let pda = registered.key;

    let mut foreign = Account { owner: Pubkey([8; 32]), ..register(record.clone(), &identity).unwrap() };
    assert_eq!(sync(&mut foreign, &identity, &record), Err(ProgramError::InvalidAccountOwner));

    let mut unfunded = Account { lamports: 0, ..register(record.clone(), &identity).unwrap() };
    assert_eq!(sync(&mut unfunded, &identity, &record), Err(ProgramError::UninitializedAccount));

    let mut corrupt = Account { data: vec![9, 9, 9], ..register(record.clone(), &identity).unwrap() };
    assert_eq!(sync(&mut corrupt, &identity, &record), Err(ProgramError::InvalidAccountData));
    assert_eq!(corrupt.data, vec![9, 9, 9]);

    let mut moved = Account { key: Pubkey([3; 32]), ..register(record.clone(), &identity).unwrap() };
    assert_eq!(sync(&mut moved, &identity, &record), Err(ProgramError::InvalidArgument));

    let mut slot = register(record.clone(), &identity).unwrap();
    let ix = SyncInstruction::V0(empty_patch(identity.key));
    assert_eq!(
        sync_derived(&identity, &mut slot, ix, &registry_id(), None),
        Err(ProgramError::InvalidArgument)
    );
    let ix = SyncInstruction::V0(SyncRecordV0 { base_fee: Some(2), ..empty_patch(identity.key) });
    assert_eq!(sync_derived(&identity, &mut slot, ix, &registry_id(), Some((pda, 0))), Ok(()));
    assert_eq!(ErRecord::try_from_slice(&slot.data).unwrap().base_fee(), 2);
}

#[test]
fn unregistration_errors() {
    let TestEnv { identity, record } = setup();
    let node_id = identity.key;
    let system = system_program();
    let id = registry_id();

    let mut payer = wallet(node_id);
    let mut foreign = Account { owner: Pubkey([8; 32]), ..register(record.clone(), &identity).unwrap() };
    assert_eq!(
        process_unregistration(&mut payer, &mut foreign, &system, node_id, &id),
        Err(ProgramError::InvalidAccountOwner)
    );

    let mut slot = register(record.clone(), &identity).unwrap();
    let stored = slot.data.clone();
    let mut unsigned = Account { is_signer: false, ..wallet(node_id) };
    assert_eq!(
        process_unregistration(&mut unsigned, &mut slot, &system, node_id, &id),
        Err(ProgramError::MissingRequiredSignature)
    );

    let mut stranger = wallet(Pubkey([0x4c; 32]));
    assert_eq!(
        process_unregistration(&mut stranger, &mut slot, &system, node_id, &id),
        Err(ProgramError::InvalidArgument)
    );
    let stranger_id = stranger.key;
    assert_eq!(
        process_unregistration(&mut stranger, &mut slot, &system, stranger_id, &id),
        Err(ProgramError::InvalidArgument)
    );
    assert_eq!(slot.data, stored);
    assert_eq!(slot.lamports, RENT);
    assert_eq!(slot.owner, id);
    assert_eq!(stranger.lamports, LAMPORTS_PER_SOL);

    let mut unfunded = Account { lamports: 0, ..register(record.clone(), &identity).unwrap() };
    assert_eq!(
        process_unregistration(&mut payer, &mut unfunded, &system, node_id, &id),
        Err(ProgramError::UninitializedAccount)
    );

    let mut corrupt = Account { data: vec![0; 81], ..register(record.clone(), &identity).unwrap() };
    corrupt.data[33] = 9;
    assert_eq!(
        process_unregistration(&mut payer, &mut corrupt, &system, node_id, &id),
        Err(ProgramError::InvalidAccountData)
    );

    let mut moved = Account { key: Pubkey([3; 32]), ..register(record.clone(), &identity).unwrap() };
    assert_eq!(
        process_unregistration(&mut payer, &mut moved, &system, node_id, &id),
        Err(ProgramError::InvalidArgument)
    );
    assert_eq!(
        unregister_derived(&mut payer, &mut slot, &system, node_id, &id, None),
        Err(ProgramError::InvalidArgument)
    );

    let mut rich = Account { lamports: u64::MAX - RENT + 1, ..wallet(node_id) };
    assert_eq!(
        process_unregistration(&mut rich, &mut slot, &system, node_id, &id),
        Err(ProgramError::ArithmeticOverflow)
    );
    assert_eq!(rich.lamports, u64::MAX - RENT + 1);
    assert_eq!(slot.lamports, RENT);
    assert_eq!(slot.data, stored);

    let mut nearly = Account { lamports: u64::MAX - RENT, ..wallet(node_id) };
    assert_eq!(process_unregistration(&mut nearly, &mut slot, &system, node_id, &id), Ok(()));
    assert_eq!(nearly.lamports, u64::MAX);
    assert_eq!(slot.lamports, 0);
    assert_eq!(slot.owner, system.key);
    assert!(slot.data.is_empty());
}

#[test]
fn validators() {
    let payer = wallet(Pubkey([1; 32]));
    assert_eq!(authorize(&payer, &Pubkey([1; 32])), Ok(()));
    assert_eq!(authorize(&payer, &Pubkey([2; 32])), Err(ProgramError::IncorrectAuthority));
    let unsigned = Account { is_signer: false, ..wallet(Pubkey([1; 32])) };
    assert_eq!(authorize(&unsigned, &Pubkey([2; 32])), Err(ProgramError::MissingRequiredSignature));
    assert_eq!(check_owner(&payer, &system_program().key), Ok(()));
    assert_eq!(check_owner(&payer, &Pubkey([5; 32])), Err(ProgramError::InvalidAccountOwner));
    assert_eq!(check_address(Some((Pubkey([1; 32]), 254)), &Pubkey([1; 32])), Ok(254));
    assert_eq!(
        check_address(Some((Pubkey([1; 32]), 254)), &Pubkey([2; 32])),
        Err(ProgramError::InvalidArgument)
    );
    assert_eq!(check_address(None, &Pubkey([2; 32])), Err(ProgramError::InvalidArgument));
}

#[test]
fn pubkey_bytes() {
    let key = Pubkey::new_from_array([6; 32]);
    assert_eq!(key.to_bytes(), [6; 32]);
    assert!(key.same_bytes(&Pubkey([6; 32])));
    let mut other = [6u8; 32];
    other[31] = 7;
    assert!(!key.same_bytes(&Pubkey(other)));
    assert_ne!(key, Pubkey(other));
}
