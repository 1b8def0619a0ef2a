use crate::codec::{lemma_concat_assoc, lemma_concat_skip, read_array32, write_bytes};
use crate::error::ProgramError;
use crate::instructions::sync::{
    lemma_parse_patch_bytes, lemma_patch_bytes_parse, parse_patch, patch_bytes, PatchModel,
    SyncInstruction,
};
use crate::pubkey::Pubkey;
use crate::state::record::{
    decode_record, lemma_decode_encode, lemma_encode_decode, record_bytes, ErRecord, RecordModel,
};
use vstd::prelude::*;
use vstd::slice::slice_subrange;

pub mod sync;
pub mod version;

verus! {

/// Supported program instructions
#[derive(Debug)]
pub enum Instruction {
    /// Create the record of a node
    Register(ErRecord),
    /// Remove the record of the node with this identity
    Unregister(Pubkey),
    /// Patch the record of a node
    Sync(SyncInstruction),
}

/// What an instruction says, as plain values.
pub enum InstructionModel {
    Register(RecordModel),
    Unregister(Seq<u8>),
    Sync(PatchModel),
}

impl InstructionModel {
    /// The values that an instruction can hold and that the format can
    /// carry.
    pub open spec fn wf(self) -> bool {
        match self {
            InstructionModel::Register(r) => r.wf(),
            InstructionModel::Unregister(k) => k.len() == 32,
            InstructionModel::Sync(p) => p.wf(),
        }
    }
}

impl View for Instruction {
    type V = InstructionModel;

    open spec fn view(&self) -> InstructionModel {
        match self {
            Instruction::Register(r) => InstructionModel::Register(r@),
            Instruction::Unregister(k) => InstructionModel::Unregister(k@),
            Instruction::Sync(p) => InstructionModel::Sync(p@),
        }
    }
}

/// The bytes of an instruction: a byte that says which operation it is,
/// then the bytes of what the operation takes.
pub open spec fn instruction_bytes(m: InstructionModel) -> Seq<u8> {
    match m {
        InstructionModel::Register(r) => seq![0u8] + record_bytes(r),
        InstructionModel::Unregister(k) => seq![1u8] + k,
        InstructionModel::Sync(p) => seq![2u8] + patch_bytes(p),
    }
}

/// The instruction that the bytes `b` stand for, all of them, or `None`.
pub open spec fn decode_instruction(b: Seq<u8>) -> Option<InstructionModel> {
    if b.len() == 0 {
        None
    } else if b[0] == 0 {
        match decode_record(b.skip(1)) {
            Some(r) => Some(InstructionModel::Register(r)),
            None => None,
        }
    } else if b[0] == 1 {
        if b.len() == 33 {
            Some(InstructionModel::Unregister(b.skip(1)))
        } else {
            None
        }
    } else if b[0] == 2 {
        match parse_patch(b.skip(1)) {
            Some((p, n)) => if 1 + n == b.len() {
                Some(InstructionModel::Sync(p))
            } else {
                None
            },
            None => None,
        }
    } else {
        None
    }
}

/// Decoding the bytes of an instruction gives the instruction.
pub proof fn lemma_decode_instruction_bytes(m: InstructionModel)
    requires
        m.wf(),
    ensures
        decode_instruction(instruction_bytes(m)) == Some(m),
{
    match m {
        InstructionModel::Register(r) => {
            lemma_concat_skip(seq![0u8], record_bytes(r));
            lemma_decode_encode(r);
        },
        InstructionModel::Unregister(k) => {
            lemma_concat_skip(seq![1u8], k);
        },
        InstructionModel::Sync(p) => {
            lemma_concat_skip(seq![2u8], patch_bytes(p));
            lemma_parse_patch_bytes(p, Seq::empty());
            assert(patch_bytes(p) + Seq::<u8>::empty() =~= patch_bytes(p));
        },
    }
}

/// Encoding what the bytes decode to gives the bytes.
pub proof fn lemma_instruction_bytes_decode(b: Seq<u8>)
    requires
        decode_instruction(b) is Some,
    ensures
        decode_instruction(b).unwrap().wf(),
        instruction_bytes(decode_instruction(b).unwrap()) == b,
{
    match decode_instruction(b).unwrap() {
        InstructionModel::Register(r) => {
            lemma_encode_decode(b.skip(1));
            assert(seq![0u8] + b.skip(1) =~= b);
        },
        InstructionModel::Unregister(k) => {
            assert(seq![1u8] + b.skip(1) =~= b);
        },
        InstructionModel::Sync(p) => {
            lemma_patch_bytes_parse(b.skip(1));
            assert(b.skip(1).subrange(0, b.len() - 1) =~= b.skip(1));
            assert(seq![2u8] + b.skip(1) =~= b);
        },
    }
}

impl Instruction {
    /// An instruction's fixed-length fields have the lengths that the format
    /// gives them.
    pub proof fn lemma_lengths(&self)
        ensures
            self@.wf() <==> match self@ {
                InstructionModel::Register(r) => crate::codec::string_fits(r.addr),
                InstructionModel::Unregister(k) => true,
                InstructionModel::Sync(p) => (p.addr matches Some(s)
                    ==> crate::codec::string_fits(s)),
            },
    {
        match self {
            Instruction::Register(r) => {
                r.lemma_lengths();
            },
            Instruction::Unregister(k) => {
                k.lemma_len();
            },
            Instruction::Sync(p) => {
                p.lemma_lengths();
            },
        }
    }

    /// Appends the bytes of the instruction to `out`. An instruction with an
    /// address string too long for the format is refused, and `out` is left
    /// as it was.
    pub fn serialize(&self, out: &mut Vec<u8>) -> (res: Result<(), ProgramError>)
        ensures
            self@.wf() ==> res is Ok && final(out)@ == old(out)@ + instruction_bytes(self@),
            !self@.wf() ==> res == Err::<(), ProgramError>(ProgramError::InvalidAccountData)
                && final(out)@ == old(out)@,
    {
        proof {
            self.lemma_lengths();
        }
        let mut body: Vec<u8> = Vec::new();
        let tag: u8 = match self {
            Instruction::Register(r) => {
                match r.serialize(&mut body) {
                    Err(e) => { return Err(e); },
                    Ok(()) => {},
                }
                assert(body@ =~= record_bytes(r@));
                0u8
            },
            Instruction::Unregister(k) => {
                write_bytes(&mut body, k.0.as_slice());
                assert(body@ =~= k@);
                1u8
            },
            Instruction::Sync(p) => {
                match p.serialize(&mut body) {
                    Err(e) => { return Err(e); },
                    Ok(()) => {},
                }
                assert(body@ =~= patch_bytes(p@));
                2u8
            },
        };
        out.push(tag);
        write_bytes(out, body.as_slice());
        proof {
            lemma_concat_assoc(old(out)@, seq![tag], body@);
        }
        Ok(())
    }

    /// The bytes of the instruction.
    pub fn try_to_vec(&self) -> (res: Result<Vec<u8>, ProgramError>)
        ensures
            self@.wf() ==> (res matches Ok(bytes) && bytes@ == instruction_bytes(self@)),
            !self@.wf() ==> res == Err::<Vec<u8>, ProgramError>(ProgramError::InvalidAccountData),
    {
        let mut out: Vec<u8> = Vec::new();
        match self.serialize(&mut out) {
            Ok(()) => {
                assert(out@ =~= instruction_bytes(self@));
                Ok(out)
            },
            Err(e) => Err(e),
        }
    }

    /// Decodes an instruction from the bytes that hold it and nothing else.
    pub fn try_from_slice(bytes: &[u8]) -> (res: Result<Instruction, ProgramError>)
        ensures
            match decode_instruction(bytes@) {
                Some(m) => res matches Ok(ix) && ix@ == m,
                None => res matches Err(e) && e == ProgramError::InvalidAccountData,
            },
    {
        if bytes.len() == 0 {
            return Err(ProgramError::InvalidAccountData);
        }
        let tag: u8 = bytes[0];
        if tag == 0 {
            let body = slice_subrange(bytes, 1, bytes.len());
            assert(body@ =~= bytes@.skip(1));
            match ErRecord::try_from_slice(body) {
                Ok(record) => Ok(Instruction::Register(record)),
                Err(e) => Err(e),
            }
        } else if tag == 1 {
            if bytes.len() != 33 {
                return Err(ProgramError::InvalidAccountData);
            }
            let key = Pubkey(read_array32(bytes, 1));
            assert(bytes@.subrange(1, 33) =~= bytes@.skip(1));
            Ok(Instruction::Unregister(key))
        } else if tag == 2 {
            match SyncInstruction::parse(bytes, 1) {
                Some((patch, next)) => {
                    if next == bytes.len() {
                        Ok(Instruction::Sync(patch))
                    } else {
                        Err(ProgramError::InvalidAccountData)
                    }
                },
                None => Err(ProgramError::InvalidAccountData),
            }
        } else {
            Err(ProgramError::InvalidAccountData)
        }
    }
}

} // verus!
