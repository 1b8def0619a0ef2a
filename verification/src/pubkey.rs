use crate::consts::ER_RECORD_SEED;
use vstd::prelude::*;

verus! {

/// The 32 bytes of a public key: a node's identity, the address of a
/// storage slot, or the identity of a program.
#[derive(Clone, Copy, Debug)]
pub struct Pubkey(pub [u8; 32]);

impl View for Pubkey {
    type V = Seq<u8>;

    /// The bytes of the key, in order.
    open spec fn view(&self) -> Seq<u8> {
        self.0@
    }
}

impl Pubkey {
    /// A key keeps exactly 32 bytes.
    pub proof fn lemma_len(&self)
        ensures
            self@.len() == 32,
    {
        vstd::array::array_len_matches_n(&self.0);
    }

    /// The key made of the given bytes.
    pub fn new_from_array(bytes: [u8; 32]) -> (res: Pubkey)
        ensures
            res@ == bytes@,
    {
        Pubkey(bytes)
    }

    /// The bytes of the key.
    pub fn to_bytes(&self) -> (res: [u8; 32])
        ensures
            res@ == self@,
    {
        self.0
    }

    /// Whether two keys hold the same bytes.
    pub fn same_bytes(&self, other: &Pubkey) -> (res: bool)
        ensures
            res == (self@ == other@),
    {
        let mut i: usize = 0;
        while i < 32
            invariant
                i <= 32,
                forall|j: int| 0 <= j < i ==> self@[j] == other@[j],
            decreases 32 - i,
        {
            if self.0[i] != other.0[i] {
                return false;
            }
            i += 1;
        }
        assert(self@ =~= other@);
        true
    }
}

impl PartialEq for Pubkey {
    fn eq(&self, other: &Pubkey) -> (res: bool) {
        self.same_bytes(other)
    }
}

impl Eq for Pubkey {}

impl vstd::std_specs::cmp::PartialEqSpecImpl for Pubkey {
    open spec fn obeys_eq_spec() -> bool {
        true
    }

    open spec fn eq_spec(&self, other: &Pubkey) -> bool {
        self@ == other@
    }
}

/// The address and nonce that the platform derives for a slot from a
/// domain-separation seed, a node identity and a program identity, or `None`
/// where it finds no address for them.
pub uninterp spec fn program_address(seed: Seq<u8>, identity: Seq<u8>, program_id: Seq<u8>)
    -> Option<(Seq<u8>, u8)>;

/// A derived address and nonce as plain values.
pub open spec fn derived_view(derived: Option<(Pubkey, u8)>) -> Option<(Seq<u8>, u8)> {
    match derived {
        Some((address, bump)) => Some((address@, bump)),
        None => None,
    }
}

/// Calls `Pubkey::try_find_program_address` of `solana_program` with the two
/// seeds `seed` and the bytes of `identity`. The search it makes depends on
/// its arguments alone, so its outcome is named by `program_address`; nothing
/// else is claimed of it.
#[verifier::external_body]
fn try_find_program_address(seed: &[u8], identity: &Pubkey, program_id: &Pubkey) -> (res: Option<
    (Pubkey, u8),
>)
    ensures
        derived_view(res) == program_address(seed@, identity@, program_id@),
{
    let program = solana_program::pubkey::Pubkey::new_from_array(program_id.0);
    let seeds: [&[u8]; 2] = [seed, &identity.0];
    match solana_program::pubkey::Pubkey::try_find_program_address(&seeds, &program) {
        Some((address, bump)) => Some((Pubkey(address.to_bytes()), bump)),
        None => None,
    }
}

/// The address and nonce of the record slot of the node `identity` under
/// the registry `program_id`.
pub open spec fn record_address(identity: Seq<u8>, program_id: Seq<u8>) -> Option<(Seq<u8>, u8)> {
    program_address(ER_RECORD_SEED@, identity, program_id)
}

/// Derives the address of the record slot of the node `identity` under the
/// registry `program_id`, with the nonce that completes the derivation.
/// `None` where the platform finds no address for them.
pub fn find_record_address(identity: &Pubkey, program_id: &Pubkey) -> (res: Option<(Pubkey, u8)>)
    ensures
        derived_view(res) == record_address(identity@, program_id@),
{
    try_find_program_address(ER_RECORD_SEED.as_slice(), identity, program_id)
}

/// One node has one slot under one registry: the address and the nonce
/// depend on the identity and the registry alone.
pub proof fn lemma_one_slot_per_identity(a: Pubkey, b: Pubkey, program_id: Pubkey)
    requires
        a@ == b@,
    ensures
        record_address(a@, program_id@) == record_address(b@, program_id@),
{
}

} // verus!
