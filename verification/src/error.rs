use vstd::prelude::*;

verus! {

/// Reasons for which an operation on the registry is refused.
#[derive(Clone, Copy, Debug, PartialEq, Eq, Structural)]
pub enum ProgramError {
    /// The operation was sent to a program other than this registry.
    IncorrectProgramId,
    /// The payer did not sign the operation.
    MissingRequiredSignature,
    /// The payer is not the node that the record belongs to.
    IncorrectAuthority,
    /// The claimed identity or the supplied slot does not fit the record.
    InvalidArgument,
    /// The slot to create already holds funds.
    AccountAlreadyInitialized,
    /// The slot to update or remove holds no funds.
    UninitializedAccount,
    /// Bytes that do not decode to a record or an instruction.
    InvalidAccountData,
    /// The slot is not owned by this registry.
    InvalidAccountOwner,
    /// A balance left the range of its type.
    ArithmeticOverflow,
}

} // verus!
