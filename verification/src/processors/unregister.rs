use crate::account::{address_error, check_address, check_owner, holds_record, Account};
use crate::error::ProgramError;
use crate::pubkey::{derived_view, find_record_address, record_address, Pubkey};
use crate::state::record::{decode_record, ErRecord};
use vstd::prelude::*;

verus! {

/// The first reason, if any, for which the removal of the record of
/// `node_id` is refused.
pub open spec fn unregistration_error(
    payer: Account,
    slot: Account,
    node_id: Seq<u8>,
    program_id: Seq<u8>,
    derived: Option<(Seq<u8>, u8)>,
) -> Option<ProgramError> {
    if slot.owner@ != program_id {
        Some(ProgramError::InvalidAccountOwner)
    } else if !payer.is_signer {
        Some(ProgramError::MissingRequiredSignature)
    } else if payer.key@ != node_id {
        Some(ProgramError::InvalidArgument)
    } else if slot.lamports == 0 {
        Some(ProgramError::UninitializedAccount)
    } else if decode_record(slot.data@) is None {
        Some(ProgramError::InvalidAccountData)
    } else if decode_record(slot.data@).unwrap().identity != node_id {
        Some(ProgramError::InvalidArgument)
    } else if address_error(derived, slot.key@) is Some {
        address_error(derived, slot.key@)
    } else if payer.lamports + slot.lamports > u64::MAX {
        Some(ProgramError::ArithmeticOverflow)
    } else {
        None
    }
}

/// Decides the removal of a record once the address of the node's slot has
/// been derived: the checks in their order, then the funds of the slot go to
/// the payer and the slot goes back, empty, to the base allocator.
pub fn unregister_derived(
    payer: &mut Account,
    pda_account: &mut Account,
    system_program: &Account,
    node_id: Pubkey,
    program_id: &Pubkey,
    derived: Option<(Pubkey, u8)>,
) -> (res: Result<(), ProgramError>)
    ensures
        match unregistration_error(
            *old(payer),
            *old(pda_account),
            node_id@,
            program_id@,
            derived_view(derived),
        ) {
            Some(e) => {
                &&& res == Err::<(), ProgramError>(e)
                &&& *final(pda_account) == *old(pda_account)
                &&& *final(payer) == *old(payer)
            },
            None => {
                &&& res is Ok
                &&& final(payer).lamports == old(payer).lamports + old(pda_account).lamports
                &&& final(payer).key == old(payer).key
                &&& final(payer).owner == old(payer).owner
                &&& final(payer).is_signer == old(payer).is_signer
                &&& final(payer).data == old(payer).data
                &&& final(pda_account).lamports == 0
                &&& final(pda_account).owner == system_program.key
                &&& final(pda_account).data@ == Seq::<u8>::empty()
                &&& final(pda_account).key == old(pda_account).key
                &&& final(pda_account).is_signer == old(pda_account).is_signer
            },
        },
{
    match check_owner(pda_account, program_id) {
        Err(e) => { return Err(e); },
        Ok(()) => {},
    }
    if !payer.is_signer {
        return Err(ProgramError::MissingRequiredSignature);
    }
    if !payer.key.same_bytes(&node_id) {
        return Err(ProgramError::InvalidArgument);
    }
    if pda_account.lamports == 0 {
        return Err(ProgramError::UninitializedAccount);
    }
    let record = match ErRecord::try_from_slice(pda_account.data.as_slice()) {
        Err(e) => { return Err(e); },
        Ok(record) => record,
    };
    if !node_id.same_bytes(record.identity()) {
        return Err(ProgramError::InvalidArgument);
    }
    match check_address(derived, &pda_account.key) {
        Err(e) => { return Err(e); },
        Ok(_) => {},
    }
    let payer_balance: u64 = payer.lamports;
    let pda_balance: u64 = pda_account.lamports;
    let total: u64 = match payer_balance.checked_add(pda_balance) {
        Some(total) => total,
        None => { return Err(ProgramError::ArithmeticOverflow); },
    };
    payer.lamports = total;
    pda_account.lamports = 0;
    pda_account.owner = system_program.key;
    pda_account.data.clear();
    Ok(())
}

/// Unregisters a node by removing its record from the registry: checks that
/// the slot belongs to the registry, that the payer is the node of the
/// stored record and that the slot is the one derived for it, then gives the
/// funds of the slot to the payer and releases the slot.
pub fn process_unregistration(
    payer: &mut Account,
    pda_account: &mut Account,
    system_program: &Account,
    node_id: Pubkey,
    program_id: &Pubkey,
) -> (res: Result<(), ProgramError>)
    ensures
        match unregistration_error(
            *old(payer),
            *old(pda_account),
            node_id@,
            program_id@,
            record_address(node_id@, program_id@),
        ) {
            Some(e) => {
                &&& res == Err::<(), ProgramError>(e)
                &&& *final(pda_account) == *old(pda_account)
                &&& *final(payer) == *old(payer)
            },
            None => {
                &&& res is Ok
                &&& final(payer).lamports == old(payer).lamports + old(pda_account).lamports
                &&& final(payer).key == old(payer).key
                &&& final(payer).owner == old(payer).owner
                &&& final(payer).is_signer == old(payer).is_signer
                &&& final(payer).data == old(payer).data
                &&& final(pda_account).lamports == 0
                &&& final(pda_account).owner == system_program.key
                &&& final(pda_account).data@ == Seq::<u8>::empty()
                &&& final(pda_account).key == old(pda_account).key
                &&& final(pda_account).is_signer == old(pda_account).is_signer
                &&& holds_record(*old(pda_account), program_id@)
                &&& !holds_record(*final(pda_account), program_id@)
            },
        },
{
    let derived = find_record_address(&node_id, program_id);
    unregister_derived(payer, pda_account, system_program, node_id, program_id, derived)
}

} // verus!
