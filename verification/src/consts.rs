use vstd::prelude::*;

verus! {

/// Domain-separation seed of the record slots: the bytes of `er-record`.
pub const ER_RECORD_SEED: [u8; 9] = [101, 114, 45, 114, 101, 99, 111, 114, 100];

} // verus!
