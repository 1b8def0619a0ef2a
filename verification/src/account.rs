use crate::error::ProgramError;
use crate::pubkey::{record_address, Pubkey};
use crate::state::record::decode_record;
use vstd::prelude::*;

verus! {

/// What an operation sees of one account of the platform: a storage slot,
/// or the payer of the operation.
#[derive(Debug)]
pub struct Account {
    /// Address of the account
    pub key: Pubkey,
    /// Program that owns the account
    pub owner: Pubkey,
    /// Funds held by the account
    pub lamports: u64,
    /// Whether the account signed the operation
    pub is_signer: bool,
    /// Bytes stored in the account
    pub data: Vec<u8>,
}

/// Whether `slot` is the live record slot of a node under the registry
/// `program_id`: it is owned by the registry, it holds funds, its bytes are
/// those of a record, and its address is the one derived for the node of
/// that record.
pub open spec fn holds_record(slot: Account, program_id: Seq<u8>) -> bool {
    &&& slot.owner@ == program_id
    &&& slot.lamports != 0
    &&& decode_record(slot.data@) is Some
    &&& address_error(
        record_address(decode_record(slot.data@).unwrap().identity, program_id),
        slot.key@,
    ) is None
}

/// The first reason, if any, for which `payer` may not act for the node
/// `identity`: it did not sign, or it is another key than the node's.
pub open spec fn authorization_error(payer: Account, identity: Seq<u8>) -> Option<ProgramError> {
    if !payer.is_signer {
        Some(ProgramError::MissingRequiredSignature)
    } else if payer.key@ != identity {
        Some(ProgramError::IncorrectAuthority)
    } else {
        None
    }
}

/// The reason, if any, for which the address that a slot was supplied under
/// is not the one derived for the node: no address was derived, or another.
pub open spec fn address_error(derived: Option<(Seq<u8>, u8)>, supplied: Seq<u8>) -> Option<
    ProgramError,
> {
    match derived {
        Some((address, _)) => if address == supplied {
            None
        } else {
            Some(ProgramError::InvalidArgument)
        },
        None => Some(ProgramError::InvalidArgument),
    }
}

/// Checks that `payer` signed the operation and is the node `identity`
/// itself.
pub fn authorize(payer: &Account, identity: &Pubkey) -> (res: Result<(), ProgramError>)
    ensures
        match authorization_error(*payer, identity@) {
            Some(e) => res == Err::<(), ProgramError>(e),
            None => res is Ok,
        },
{
    if !payer.is_signer {
        return Err(ProgramError::MissingRequiredSignature);
    }
    if !payer.key.same_bytes(identity) {
        return Err(ProgramError::IncorrectAuthority);
    }
    Ok(())
}

/// Checks that the slot `account` is owned by the registry `program_id`.
pub fn check_owner(account: &Account, program_id: &Pubkey) -> (res: Result<(), ProgramError>)
    ensures
        account.owner@ == program_id@ ==> res is Ok,
        account.owner@ != program_id@ ==> res == Err::<(), ProgramError>(
            ProgramError::InvalidAccountOwner,
        ),
{
    if account.owner.same_bytes(program_id) {
        Ok(())
    } else {
        Err(ProgramError::InvalidAccountOwner)
    }
}

/// Checks that the slot was supplied under the address derived for the
/// node, and gives the nonce of the derivation.
pub fn check_address(derived: Option<(Pubkey, u8)>, supplied: &Pubkey) -> (res: Result<
    u8,
    ProgramError,
>)
    ensures
        match address_error(crate::pubkey::derived_view(derived), supplied@) {
            Some(e) => res == Err::<u8, ProgramError>(e),
            None => res == Ok::<u8, ProgramError>(derived.unwrap().1),
        },
{
    match derived {
        Some((address, bump)) => {
            if address.same_bytes(supplied) {
                Ok(bump)
            } else {
                Err(ProgramError::InvalidArgument)
            }
        },
        None => Err(ProgramError::InvalidArgument),
    }
}

} // verus!
