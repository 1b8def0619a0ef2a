use vstd::prelude::*;

verus! {

/// Number of bytes used for feature flags: 32 bytes give 256 bits,
/// one for each of up to 256 different features.
pub const FEATURESET_BYTES: usize = 32;

/// Number of feature bits held by one byte of the set.
pub const SEGMENT: u8 = 8;

/// Individual custom extra feature supported by a node.
///
/// The variants are the closed list of known capabilities; the ordinal of a
/// variant is its position in this list.
#[derive(Clone, Copy, Debug, PartialEq, Eq, Structural)]
pub enum Feature {
    Randomness,
    HighResClock,
}

impl Feature {
    /// The ordinal of the feature: the number of its bit in the set.
    pub open spec fn spec_ordinal(self) -> u8 {
        match self {
            Feature::Randomness => 0,
            Feature::HighResClock => 1,
        }
    }

    /// The byte of the set that holds the feature's bit.
    pub open spec fn spec_index(self) -> int {
        self.spec_ordinal() as int / 8
    }

    /// The position of the feature's bit inside its byte.
    pub open spec fn spec_offset(self) -> u8 {
        self.spec_ordinal() % 8
    }

    /// The byte with the feature's bit set and no other.
    pub open spec fn spec_mask(self) -> u8 {
        1u8 << self.spec_offset()
    }

    /// The ordinal of the feature.
    #[verifier::when_used_as_spec(spec_ordinal)]
    pub fn ordinal(self) -> (n: u8)
        ensures
            n == self.spec_ordinal(),
    {
        match self {
            Feature::Randomness => 0,
            Feature::HighResClock => 1,
        }
    }
}

/// Bit map of supported features.
#[derive(Debug)]
pub struct FeaturesSet(pub [u8; 32]);

impl View for FeaturesSet {
    type V = Seq<u8>;

    /// The bytes of the set, in order.
    open spec fn view(&self) -> Seq<u8> {
        self.0@
    }
}

/// The bytes `bytes` with the bit of `feature` set.
pub open spec fn with_feature(bytes: Seq<u8>, feature: Feature) -> Seq<u8> {
    bytes.update(feature.spec_index(), bytes[feature.spec_index()] | feature.spec_mask())
}

/// The bytes `bytes` with the bit of `feature` cleared.
pub open spec fn without_feature(bytes: Seq<u8>, feature: Feature) -> Seq<u8> {
    bytes.update(feature.spec_index(), bytes[feature.spec_index()] & !feature.spec_mask())
}

/// Whether the bit of `feature` is set in `bytes`.
pub open spec fn has_feature(bytes: Seq<u8>, feature: Feature) -> bool {
    bytes[feature.spec_index()] & feature.spec_mask() != 0
}

impl FeaturesSet {
    /// A set keeps exactly `FEATURESET_BYTES` bytes.
    pub proof fn lemma_len(&self)
        ensures
            self@.len() == 32,
    {
        vstd::array::array_len_matches_n(&self.0);
    }

    /// Whether the feature is enabled in the set.
    pub open spec fn spec_contains(&self, feature: Feature) -> bool {
        has_feature(self@, feature)
    }

    /// Enables the given feature in the set.
    pub fn activate(self, feature: Feature) -> (res: Self)
        ensures
            res@ == with_feature(self@, feature),
            res.spec_contains(feature),
    {
        let mut set = self;
        let (index, offset) = Self::locate(feature);
        let segment: u8 = set.0[index];
        let updated: u8 = segment | (1u8 << offset);
        proof {
            assert(offset < 8 ==> ((segment | (1u8 << offset)) & (1u8 << offset) != 0))
                by (bit_vector);
        }
        set.0[index] = updated;
        set
    }

    /// Disables the given feature in the set.
    pub fn deactivate(&mut self, feature: Feature)
        ensures
            final(self)@ == without_feature(old(self)@, feature),
            !final(self).spec_contains(feature),
    {
        let (index, offset) = Self::locate(feature);
        let segment: u8 = self.0[index];
        let updated: u8 = segment & !(1u8 << offset);
        proof {
            assert(offset < 8 ==> ((segment & !(1u8 << offset)) & (1u8 << offset) == 0))
                by (bit_vector);
        }
        self.0[index] = updated;
    }

    /// The byte that holds the bit of `feature`, and the bit's position in it.
    pub fn locate(feature: Feature) -> (place: (usize, u8))
        ensures
            place.0 == feature.spec_index(),
            place.1 == feature.spec_offset(),
            place.0 < FEATURESET_BYTES,
            place.1 < SEGMENT,
    {
        let ordinal: u8 = feature.ordinal();
        let index: u8 = ordinal / SEGMENT;
        let offset: u8 = ordinal % SEGMENT;
        (index as usize, offset)
    }

    /// Returns true if the set has the requested feature enabled.
    pub fn contains(&mut self, feature: Feature) -> (res: bool)
        ensures
            res == old(self).spec_contains(feature),
            *final(self) == *old(self),
    {
        let (index, offset) = Self::locate(feature);
        let segment: u8 = self.0[index];
        proof {
            assert(offset < 8 ==> (((segment & (1u8 << offset)) >> offset == 1) <==> (segment & (1u8
                << offset) != 0))) by (bit_vector);
        }
        (segment & (1u8 << offset)) >> offset == 1
    }

    /// Whether two sets hold the same bytes.
    pub fn same_bytes(&self, other: &FeaturesSet) -> (res: bool)
        ensures
            res == (self@ == other@),
    {
        let mut i: usize = 0;
        while i < 32
            invariant
                i <= 32,
                forall|j: int| 0 <= j < i ==> self@[j] == other@[j],
            decreases 32 - i,
        {
            if self.0[i] != other.0[i] {
                return false;
            }
            i += 1;
        }
        assert(self@ =~= other@);
        true
    }
}

impl Default for FeaturesSet {
    /// The set with no feature enabled.
    fn default() -> (res: Self)
        ensures
            res@ == Seq::new(32, |i: int| 0u8),
    {
        let res = FeaturesSet([0u8; 32]);
        assert(res@ =~= Seq::new(32, |i: int| 0u8));
        res
    }
}

impl Clone for FeaturesSet {
    fn clone(&self) -> (res: Self)
        ensures
            res@ == self@,
    {
        FeaturesSet(self.0)
    }
}

impl PartialEq for FeaturesSet {
    fn eq(&self, other: &FeaturesSet) -> (res: bool) {
        self.same_bytes(other)
    }
}

impl Eq for FeaturesSet {}

impl vstd::std_specs::cmp::PartialEqSpecImpl for FeaturesSet {
    open spec fn obeys_eq_spec() -> bool {
        true
    }

    open spec fn eq_spec(&self, other: &FeaturesSet) -> bool {
        self@ == other@
    }
}

/// Enabling a feature twice is the same as enabling it once.
pub proof fn lemma_activate_idempotent(bytes: Seq<u8>, feature: Feature)
    requires
        bytes.len() == 32,
    ensures
        with_feature(with_feature(bytes, feature), feature) == with_feature(bytes, feature),
{
    let x = bytes[feature.spec_index()];
    let m = feature.spec_mask();
    assert((x | m) | m == x | m) by (bit_vector);
    assert(with_feature(with_feature(bytes, feature), feature) =~= with_feature(bytes, feature));
}

/// Disabling a feature right after enabling it gives back the set as it was,
/// when the feature was not enabled in it before.
pub proof fn lemma_deactivate_inverts_activate(bytes: Seq<u8>, feature: Feature)
    requires
        bytes.len() == 32,
        !has_feature(bytes, feature),
    ensures
        without_feature(with_feature(bytes, feature), feature) == bytes,
{
    let x = bytes[feature.spec_index()];
    let m = feature.spec_mask();
    assert(x & m == 0 ==> (x | m) & !m == x) by (bit_vector);
    assert(without_feature(with_feature(bytes, feature), feature) =~= bytes);
}

/// Enabling or disabling one feature leaves every other feature as it was.
pub proof fn lemma_other_features_untouched(bytes: Seq<u8>, feature: Feature, other: Feature)
    requires
        bytes.len() == 32,
        other != feature,
    ensures
        has_feature(with_feature(bytes, feature), other) == has_feature(bytes, other),
        has_feature(without_feature(bytes, feature), other) == has_feature(bytes, other),
{
    let x = bytes[feature.spec_index()];
    let a = feature.spec_offset();
    let b = other.spec_offset();
    if feature.spec_index() == other.spec_index() {
        assert(a != b);
        assert(a < 8 && b < 8 && a != b ==> (((x | (1u8 << a)) & (1u8 << b) != 0) <==> (x & (1u8
            << b) != 0))) by (bit_vector);
        assert(a < 8 && b < 8 && a != b ==> (((x & !(1u8 << a)) & (1u8 << b) != 0) <==> (x & (1u8
            << b) != 0))) by (bit_vector);
    }
}

} // verus!
