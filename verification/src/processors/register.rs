use crate::account::{
    address_error, authorization_error, authorize, check_address, holds_record, Account,
};
use crate::error::ProgramError;
use crate::pubkey::{derived_view, record_address, Pubkey};
use crate::state::record::{
    decode_record, lemma_decode_encode, record_bytes, ErRecord, RecordModel,
};
use vstd::prelude::*;

verus! {

/// The creation of a record slot that a registration asks the platform for:
/// the slot is allocated at `address` with room for `data`, funded by
/// `payer`, assigned to `owner` and filled with `data`. The slot cannot sign
/// for itself: the seed, `identity` and `bump` stand in for its signature.
#[derive(Debug)]
pub struct Allocation {
    /// Account that pays for the slot
    pub payer: Pubkey,
    /// Identity of the node, second seed of the slot's address
    pub identity: Pubkey,
    /// Address of the slot
    pub address: Pubkey,
    /// Nonce of the derivation of the address
    pub bump: u8,
    /// Program that the slot is assigned to
    pub owner: Pubkey,
    /// Bytes of the record
    pub data: Vec<u8>,
}

impl Allocation {
    /// The number of bytes to allocate for the slot.
    pub fn space(&self) -> (res: usize)
        ensures
            res == self.data@.len(),
    {
        self.data.len()
    }

    /// Whether the creation is the one that registers `record` under the
    /// registry `program_id`: at the address derived for the node, assigned to
    /// the registry, with the bytes of the record.
    pub open spec fn registers(self, record: RecordModel, program_id: Seq<u8>) -> bool {
        &&& self.identity@ == record.identity
        &&& Some((self.address@, self.bump)) == record_address(record.identity, program_id)
        &&& self.owner@ == program_id
        &&& self.data@ == record_bytes(record)
        &&& decode_record(self.data@) == Some(record)
    }

    /// The slot as the platform holds it once it has carried the creation
    /// out with the funding `lamports`.
    pub fn into_account(self, lamports: u64) -> (slot: Account)
        ensures
            slot.key@ == self.address@,
            slot.owner@ == self.owner@,
            slot.lamports == lamports,
            !slot.is_signer,
            slot.data@ == self.data@,
            forall|record: RecordModel, program_id: Seq<u8>|
                #[trigger] self.registers(record, program_id) && lamports != 0 ==> holds_record(
                    slot,
                    program_id,
                ) && decode_record(slot.data@) == Some(record),
    {
        Account {
            key: self.address,
            owner: self.owner,
            lamports,
            is_signer: false,
            data: self.data,
        }
    }
}

/// The first reason, if any, for which a registration is refused.
pub open spec fn registration_error(
    payer: Account,
    slot: Account,
    record: RecordModel,
    derived: Option<(Seq<u8>, u8)>,
) -> Option<ProgramError> {
    if authorization_error(payer, record.identity) is Some {
        authorization_error(payer, record.identity)
    } else if slot.lamports != 0 {
        Some(ProgramError::AccountAlreadyInitialized)
    } else if address_error(derived, slot.key@) is Some {
        address_error(derived, slot.key@)
    } else if !record.wf() {
        Some(ProgramError::InvalidAccountData)
    } else {
        None
    }
}

/// A registration by the node itself against a slot that already holds
/// funds is refused as already initialized, whatever the record says.
pub proof fn lemma_double_register_rejected(
    payer: Account,
    slot: Account,
    record: RecordModel,
    derived: Option<(Seq<u8>, u8)>,
)
    requires
        payer.is_signer,
        payer.key@ == record.identity,
        slot.lamports != 0,
    ensures
        registration_error(payer, slot, record, derived) == Some(
            ProgramError::AccountAlreadyInitialized,
        ),
{
}

/// Decides a registration once the address of the node's slot has been
/// derived: the checks in their order, then the bytes of the record.
pub fn register_derived(
    payer: &Account,
    pda_account: &Account,
    record: ErRecord,
    program_id: &Pubkey,
    derived: Option<(Pubkey, u8)>,
) -> (res: Result<Allocation, ProgramError>)
    ensures
        match registration_error(*payer, *pda_account, record@, derived_view(derived)) {
            Some(e) => res matches Err(err) && err == e,
            None => res matches Ok(allocation) && {
                &&& allocation.payer@ == payer.key@
                &&& allocation.identity@ == record@.identity
                &&& allocation.address@ == pda_account.key@
                &&& Some((allocation.address@, allocation.bump)) == derived_view(derived)
                &&& allocation.owner@ == program_id@
                &&& allocation.data@ == record_bytes(record@)
                &&& decode_record(allocation.data@) == Some(record@)
            },
        },
{
    match authorize(payer, record.identity()) {
        Err(e) => { return Err(e); },
        Ok(()) => {},
    }
    if pda_account.lamports != 0 {
        return Err(ProgramError::AccountAlreadyInitialized);
    }
    let bump: u8 = match check_address(derived, &pda_account.key) {
        Err(e) => { return Err(e); },
        Ok(bump) => bump,
    };
    let data = match record.try_to_vec() {
        Err(e) => { return Err(e); },
        Ok(data) => data,
    };
    proof {
        lemma_decode_encode(record@);
    }
    Ok(
        Allocation {
            payer: payer.key,
            identity: *record.identity(),
            address: pda_account.key,
            bump,
            owner: *program_id,
            data,
        },
    )
}

/// Registers a node in the registry: checks that the payer is the node and
/// that the supplied slot is the unfunded slot of the node's derived
/// address, and gives the creation of the slot with the record's bytes.
pub fn process_registration(
    payer: &Account,
    pda_account: &Account,
    record: ErRecord,
    program_id: &Pubkey,
) -> (res: Result<Allocation, ProgramError>)
    ensures
        match registration_error(
            *payer,
            *pda_account,
            record@,
            record_address(record@.identity, program_id@),
        ) {
            Some(e) => res matches Err(err) && err == e,
            None => res matches Ok(allocation) && {
                &&& allocation.payer@ == payer.key@
                &&& allocation.address@ == pda_account.key@
                &&& allocation.registers(record@, program_id@)
            },
        },
{
    let derived = record.pda(program_id);
    register_derived(payer, pda_account, record, program_id, derived)
}

} // verus!
