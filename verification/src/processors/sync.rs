use crate::account::{
    address_error, authorization_error, authorize, check_address, check_owner, holds_record,
    Account,
};
use crate::error::ProgramError;
use crate::instructions::sync::{merged, PatchModel, SyncInstruction};
use crate::pubkey::{derived_view, record_address, Pubkey};
use crate::state::record::{decode_record, lemma_decode_encode, record_bytes, ErRecord};
use vstd::prelude::*;

verus! {

/// The first reason, if any, for which a sync is refused. A stored record
/// of another node than the payer is a want of authority, wherever the slot
/// lies; a slot at another address than the derived one is refused before
/// stored bytes that hold no record are.
pub open spec fn sync_error(
    payer: Account,
    slot: Account,
    patch: PatchModel,
    program_id: Seq<u8>,
    derived: Option<(Seq<u8>, u8)>,
) -> Option<ProgramError> {
    if slot.owner@ != program_id {
        Some(ProgramError::InvalidAccountOwner)
    } else if authorization_error(payer, patch.identity) is Some {
        authorization_error(payer, patch.identity)
    } else if slot.lamports == 0 {
        Some(ProgramError::UninitializedAccount)
    } else if decode_record(slot.data@) is Some && decode_record(slot.data@).unwrap().identity
        != payer.key@ {
        Some(ProgramError::IncorrectAuthority)
    } else if address_error(derived, slot.key@) is Some {
        address_error(derived, slot.key@)
    } else if decode_record(slot.data@) is None {
        Some(ProgramError::InvalidAccountData)
    } else if !merged(decode_record(slot.data@).unwrap(), patch).wf() {
        Some(ProgramError::InvalidAccountData)
    } else {
        None
    }
}

/// A sync against the stored record of a node is refused for want of
/// authority when the payer is not that node, whatever the patch claims.
pub proof fn lemma_unauthorized_sync_rejected(
    payer: Account,
    slot: Account,
    patch: PatchModel,
    program_id: Seq<u8>,
    derived: Option<(Seq<u8>, u8)>,
)
    requires
        slot.owner@ == program_id,
        slot.lamports != 0,
        decode_record(slot.data@) is Some,
        payer.key@ != decode_record(slot.data@).unwrap().identity,
    ensures
        sync_error(payer, slot, patch, program_id, derived) == Some(
            ProgramError::MissingRequiredSignature,
        ) || sync_error(payer, slot, patch, program_id, derived) == Some(
            ProgramError::IncorrectAuthority,
        ),
{
}

/// A sync by the node itself against a funded slot of the registry at
/// another address than the one derived for the node is refused as an
/// invalid argument, whether the stored bytes hold the node's record or no
/// record at all.
pub proof fn lemma_sync_wrong_address_rejected(
    payer: Account,
    slot: Account,
    patch: PatchModel,
    program_id: Seq<u8>,
    derived: Option<(Seq<u8>, u8)>,
)
    requires
        slot.owner@ == program_id,
        slot.lamports != 0,
        payer.is_signer,
        payer.key@ == patch.identity,
        address_error(derived, slot.key@) is Some,
        decode_record(slot.data@) is Some ==> decode_record(slot.data@).unwrap().identity
            == payer.key@,
    ensures
        sync_error(payer, slot, patch, program_id, derived) == Some(ProgramError::InvalidArgument),
{
}

/// Decides a sync once the address of the node's slot has been derived: the
/// checks in their order, then the stored record with the patch merged in,
/// written in place of the stored bytes.
pub fn sync_derived(
    payer: &Account,
    pda_account: &mut Account,
    ix: SyncInstruction,
    program_id: &Pubkey,
    derived: Option<(Pubkey, u8)>,
) -> (res: Result<(), ProgramError>)
    ensures
        match sync_error(*payer, *old(pda_account), ix@, program_id@, derived_view(derived)) {
            Some(e) => res == Err::<(), ProgramError>(e) && *final(pda_account) == *old(
                pda_account,
            ),
            None => {
                &&& res is Ok
                &&& final(pda_account).data@ == record_bytes(
                    merged(decode_record(old(pda_account).data@).unwrap(), ix@),
                )
                &&& decode_record(final(pda_account).data@) == Some(
                    merged(decode_record(old(pda_account).data@).unwrap(), ix@),
                )
                &&& final(pda_account).key == old(pda_account).key
                &&& final(pda_account).owner == old(pda_account).owner
                &&& final(pda_account).lamports == old(pda_account).lamports
                &&& final(pda_account).is_signer == old(pda_account).is_signer
            },
        },
{
    match check_owner(pda_account, program_id) {
        Err(e) => { return Err(e); },
        Ok(()) => {},
    }
    match authorize(payer, ix.identity()) {
        Err(e) => { return Err(e); },
        Ok(()) => {},
    }
    if pda_account.lamports == 0 {
        return Err(ProgramError::UninitializedAccount);
    }
    let stored = ErRecord::try_from_slice(pda_account.data.as_slice());
    if let Ok(record) = &stored {
        if !record.identity().same_bytes(&payer.key) {
            return Err(ProgramError::IncorrectAuthority);
        }
    }
    match check_address(derived, &pda_account.key) {
        Err(e) => { return Err(e); },
        Ok(_) => {},
    }
    let mut record = match stored {
        Err(e) => { return Err(e); },
        Ok(record) => record,
    };
    ix.apply(&mut record);
    let data = match record.try_to_vec() {
        Err(e) => { return Err(e); },
        Ok(data) => data,
    };
    proof {
        lemma_decode_encode(record@);
    }
    pda_account.data = data;
    Ok(())
}

/// Synchronizes updated node information with the stored record: checks
/// that the slot belongs to the registry, that the payer is the node of the
/// stored record and that the slot is the one derived for it, then merges
/// the patch into the stored record.
pub fn process_sync_record(
    payer: &Account,
    pda_account: &mut Account,
    ix: SyncInstruction,
    program_id: &Pubkey,
) -> (res: Result<(), ProgramError>)
    ensures
        match sync_error(
            *payer,
            *old(pda_account),
            ix@,
            program_id@,
            record_address(ix@.identity, program_id@),
        ) {
            Some(e) => res == Err::<(), ProgramError>(e) && *final(pda_account) == *old(
                pda_account,
            ),
            None => {
                &&& res is Ok
                &&& final(pda_account).data@ == record_bytes(
                    merged(decode_record(old(pda_account).data@).unwrap(), ix@),
                )
                &&& decode_record(final(pda_account).data@) == Some(
                    merged(decode_record(old(pda_account).data@).unwrap(), ix@),
                )
                &&& final(pda_account).key == old(pda_account).key
                &&& final(pda_account).owner == old(pda_account).owner
                &&& final(pda_account).lamports == old(pda_account).lamports
                &&& final(pda_account).is_signer == old(pda_account).is_signer
                &&& holds_record(*final(pda_account), program_id@)
            },
        },
{
    let derived = ix.pda(program_id);
    sync_derived(payer, pda_account, ix, program_id, derived)
}

} // verus!
