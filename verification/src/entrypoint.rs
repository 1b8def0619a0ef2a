use crate::error::ProgramError;
use crate::instructions::{decode_instruction, Instruction};
use crate::pubkey::Pubkey;
use vstd::prelude::*;

verus! {

/// Entry of every operation: checks that the operation was sent to the
/// registry `registry_id`, and decodes the instruction that `data` holds.
pub fn process(program_id: &Pubkey, registry_id: &Pubkey, data: &[u8]) -> (res: Result<
    Instruction,
    ProgramError,
>)
    ensures
        program_id@ != registry_id@ ==> res == Err::<Instruction, ProgramError>(
            ProgramError::IncorrectProgramId,
        ),
        program_id@ == registry_id@ ==> match decode_instruction(data@) {
            Some(m) => res matches Ok(ix) && ix@ == m,
            None => res matches Err(e) && e == ProgramError::InvalidAccountData,
        },
{
    if !program_id.same_bytes(registry_id) {
        return Err(ProgramError::IncorrectProgramId);
    }
    Instruction::try_from_slice(data)
}

} // verus!
