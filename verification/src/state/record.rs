use crate::codec::{
    from_le16, from_le32, le16, le32, lemma_from_le16_round_trip, lemma_from_le32_round_trip,
    lemma_le16_round_trip, lemma_le32_round_trip, lemma_parse_string_bytes,
    lemma_string_bytes_parse, parse_string, read_array3, read_array32, read_string, read_u16,
    read_u32, string_bytes, string_fits, write_bytes, write_string, write_u16, write_u32,
};
use crate::consts::ER_RECORD_SEED;
use crate::error::ProgramError;
use crate::pubkey::{derived_view, find_record_address, record_address, Pubkey};
use crate::state::features::FeaturesSet;
use crate::state::status::ErStatus;
use crate::state::version::v0::RecordV0;
use vstd::prelude::*;
use vstd::string::StringSliceAdditionalSpecFns;
use vstd::utf8::*;

verus! {

/// What a record says, as plain values.
pub struct RecordModel {
    pub identity: Seq<u8>,
    pub status: ErStatus,
    pub block_time_ms: u16,
    pub base_fee: u16,
    pub features: Seq<u8>,
    pub load_average: u32,
    pub country_code: Seq<u8>,
    pub addr: Seq<char>,
}

/// The number of bytes that a stored record takes before its address string.
pub const RECORD_FIXED_LEN: usize = 77;

impl RecordModel {
    /// The values that a record can hold and that the format can carry.
    pub open spec fn wf(self) -> bool {
        &&& self.identity.len() == 32
        &&& self.features.len() == 32
        &&& self.country_code.len() == 3
        &&& string_fits(self.addr)
    }
}

/// The stored bytes of a record: the version tag, then the fields in their
/// declared order.
pub open spec fn record_bytes(m: RecordModel) -> Seq<u8> {
    seq![0u8] + m.identity + seq![m.status.spec_tag()] + le16(m.block_time_ms) + le16(m.base_fee)
        + m.features + le32(m.load_average) + m.country_code + string_bytes(m.addr)
}

/// The record at the start of `b` and the number of bytes it takes, or `None`
/// where `b` does not start with a record of a known version.
pub open spec fn parse_record(b: Seq<u8>) -> Option<(RecordModel, int)> {
    if b.len() >= 77 && b[0] == 0 && ErStatus::spec_from_tag(b[33]) is Some && parse_string(
        b.skip(77),
    ) is Some {
        Some(
            (
                RecordModel {
                    identity: b.subrange(1, 33),
                    status: ErStatus::spec_from_tag(b[33]).unwrap(),
                    block_time_ms: from_le16(b.subrange(34, 36)),
                    base_fee: from_le16(b.subrange(36, 38)),
                    features: b.subrange(38, 70),
                    load_average: from_le32(b.subrange(70, 74)),
                    country_code: b.subrange(74, 77),
                    addr: parse_string(b.skip(77)).unwrap().0,
                },
                77 + parse_string(b.skip(77)).unwrap().1,
            ),
        )
    } else {
        None
    }
}

/// The record that the bytes `b` stand for, all of them, or `None`.
pub open spec fn decode_record(b: Seq<u8>) -> Option<RecordModel> {
    match parse_record(b) {
        Some((m, n)) => if n == b.len() {
            Some(m)
        } else {
            None
        },
        None => None,
    }
}

/// A record is read back from its bytes, whatever follows them.
pub proof fn lemma_parse_record_bytes(m: RecordModel, rest: Seq<u8>)
    requires
        m.wf(),
    ensures
        parse_record(record_bytes(m) + rest) == Some((m, record_bytes(m).len() as int)),
        record_bytes(m).len() == 81 + encode_utf8(m.addr).len(),
{
    let b = record_bytes(m) + rest;
    lemma_le16_round_trip(m.block_time_ms);
    lemma_le16_round_trip(m.base_fee);
    lemma_le32_round_trip(m.load_average);
    lemma_parse_string_bytes(m.addr, rest);
    assert(b.skip(77) =~= string_bytes(m.addr) + rest);
    assert(b.subrange(1, 33) =~= m.identity);
    assert(b[33] == m.status.spec_tag());
    assert(b.subrange(34, 36) =~= le16(m.block_time_ms));
    assert(b.subrange(36, 38) =~= le16(m.base_fee));
    assert(b.subrange(38, 70) =~= m.features);
    assert(b.subrange(70, 74) =~= le32(m.load_average));
    assert(b.subrange(74, 77) =~= m.country_code);
}

/// Decoding the bytes of a record gives the record.
pub proof fn lemma_decode_encode(m: RecordModel)
    requires
        m.wf(),
    ensures
        decode_record(record_bytes(m)) == Some(m),
{
    lemma_parse_record_bytes(m, Seq::empty());
    assert(record_bytes(m) + Seq::<u8>::empty() =~= record_bytes(m));
}

/// What was read as a record is written back as the bytes it was read from.
pub proof fn lemma_record_bytes_parse(b: Seq<u8>)
    requires
        parse_record(b) is Some,
    ensures
        parse_record(b).unwrap().0.wf(),
        77 <= parse_record(b).unwrap().1 <= b.len(),
        record_bytes(parse_record(b).unwrap().0) == b.subrange(0, parse_record(b).unwrap().1),
{
    let (m, n) = parse_record(b).unwrap();
    lemma_string_bytes_parse(b.skip(77));
    lemma_from_le16_round_trip(b.subrange(34, 36));
    lemma_from_le16_round_trip(b.subrange(36, 38));
    lemma_from_le32_round_trip(b.subrange(70, 74));
    assert(b.subrange(34, 36).subrange(0, 2) =~= b.subrange(34, 36));
    assert(b.subrange(36, 38).subrange(0, 2) =~= b.subrange(36, 38));
    assert(b.subrange(70, 74).subrange(0, 4) =~= b.subrange(70, 74));
    assert(b.skip(77).subrange(0, n - 77) =~= b.subrange(77, n));
    assert(record_bytes(m) =~= b.subrange(0, n));
}

/// Encoding what the bytes decode to gives the bytes.
pub proof fn lemma_encode_decode(b: Seq<u8>)
    requires
        decode_record(b) is Some,
    ensures
        decode_record(b).unwrap().wf(),
        record_bytes(decode_record(b).unwrap()) == b,
{
    lemma_record_bytes_parse(b);
    assert(b.subrange(0, b.len() as int) =~= b);
}

/// 3 digit country code of the place where a node is deployed.
#[derive(Clone, Copy, Debug)]
pub struct CountryCode(pub [u8; 3]);

impl View for CountryCode {
    type V = Seq<u8>;

    /// The bytes of the code, in order.
    open spec fn view(&self) -> Seq<u8> {
        self.0@
    }
}

impl CountryCode {
    /// A code keeps exactly 3 bytes.
    pub proof fn lemma_len(&self)
        ensures
            self@.len() == 3,
    {
        vstd::array::array_len_matches_n(&self.0);
    }

    /// The code made of the first three bytes of the string `value`.
    pub fn from(value: &str) -> (res: CountryCode)
        requires
            value.spec_bytes().len() >= 3,
        ensures
            res@ == value.spec_bytes().subrange(0, 3),
    {
        Self::from_bytes(value.as_bytes())
    }

    /// The code made of the first three bytes of `value`.
    pub fn from_bytes(value: &[u8]) -> (res: CountryCode)
        requires
            value@.len() >= 3,
        ensures
            res@ == value@.subrange(0, 3),
    {
        CountryCode(read_array3(value, 0))
    }

    /// Whether two codes hold the same bytes.
    pub fn same_bytes(&self, other: &CountryCode) -> (res: bool)
        ensures
            res == (self@ == other@),
    {
        let res = self.0[0] == other.0[0] && self.0[1] == other.0[1] && self.0[2] == other.0[2];
        proof {
            self.lemma_len();
            other.lemma_len();
            if res {
                assert(self@ =~= other@);
            }
        }
        res
    }
}

impl PartialEq for CountryCode {
    fn eq(&self, other: &CountryCode) -> (res: bool) {
        self.same_bytes(other)
    }
}

impl Eq for CountryCode {}

impl vstd::std_specs::cmp::PartialEqSpecImpl for CountryCode {
    open spec fn obeys_eq_spec() -> bool {
        true
    }

    open spec fn eq_spec(&self, other: &CountryCode) -> bool {
        self@ == other@
    }
}

/// A registry record in the version it was written with.
#[derive(Debug)]
pub enum ErRecord {
    V0(RecordV0),
}

impl View for ErRecord {
    type V = RecordModel;

    open spec fn view(&self) -> RecordModel {
        match self {
            ErRecord::V0(v) => v@,
        }
    }
}

impl Clone for ErRecord {
    fn clone(&self) -> (res: Self)
        ensures
            res@ == self@,
    {
        match self {
            ErRecord::V0(v) => ErRecord::V0(v.clone()),
        }
    }
}

impl PartialEq for ErRecord {
    fn eq(&self, other: &ErRecord) -> (res: bool) {
        match (self, other) {
            (ErRecord::V0(a), ErRecord::V0(b)) => a.same_fields(b),
        }
    }
}

impl Eq for ErRecord {}

impl vstd::std_specs::cmp::PartialEqSpecImpl for ErRecord {
    open spec fn obeys_eq_spec() -> bool {
        true
    }

    open spec fn eq_spec(&self, other: &ErRecord) -> bool {
        self@ == other@
    }
}

impl ErRecord {
    /// A record's fixed-length fields have the lengths that the format gives
    /// them.
    pub proof fn lemma_lengths(&self)
        ensures
            self@.identity.len() == 32,
            self@.features.len() == 32,
            self@.country_code.len() == 3,
    {
        match self {
            ErRecord::V0(v) => {
                v.identity.lemma_len();
                v.features.lemma_len();
                v.country_code.lemma_len();
            },
        }
    }

    /// The address and nonce of the record's slot under the registry
    /// `program_id`.
    pub open spec fn spec_pda(&self, program_id: Pubkey) -> Option<(Seq<u8>, u8)> {
        record_address(self@.identity, program_id@)
    }

    /// Computes the address of the slot that holds the record of this node
    /// under the registry `program_id`, and the nonce of the derivation.
    pub fn pda(&self, program_id: &Pubkey) -> (res: Option<(Pubkey, u8)>)
        ensures
            derived_view(res) == self.spec_pda(*program_id),
    {
        find_record_address(self.identity(), program_id)
    }

    /// Returns the seeds of the derivation of the record's slot.
    pub fn seeds(&self) -> (res: [&[u8]; 2])
        ensures
            res[0]@ == ER_RECORD_SEED@,
            res[1]@ == self@.identity,
    {
        [ER_RECORD_SEED.as_slice(), self.identity().0.as_slice()]
    }

    /// Returns the identity pubkey of the node
    pub fn identity(&self) -> (res: &Pubkey)
        ensures
            res@ == self@.identity,
    {
        match self {
            Self::V0(r) => &r.identity,
        }
    }

    /// Returns the FQDN address of the node
    pub fn addr(&self) -> (res: &str)
        ensures
            res@ == self@.addr,
    {
        match self {
            Self::V0(v) => v.addr.as_str(),
        }
    }

    /// Returns the transaction fee of the node
    pub fn base_fee(&self) -> (res: u16)
        ensures
            res == self@.base_fee,
    {
        match self {
            Self::V0(v) => v.base_fee,
        }
    }

    /// Returns the set of features that the node supports
    pub fn features(&self) -> (res: &FeaturesSet)
        ensures
            res@ == self@.features,
    {
        match self {
            Self::V0(v) => &v.features,
        }
    }

    /// Returns the block time in ms of the node
    pub fn block_time_ms(&self) -> (res: u16)
        ensures
            res == self@.block_time_ms,
    {
        match self {
            Self::V0(v) => v.block_time_ms,
        }
    }

    /// Returns the current status of the node
    pub fn status(&self) -> (res: ErStatus)
        ensures
            res == self@.status,
    {
        match self {
            Self::V0(v) => v.status,
        }
    }

    /// Returns the load average of the node
    pub fn load_average(&self) -> (res: u32)
        ensures
            res == self@.load_average,
    {
        match self {
            Self::V0(v) => v.load_average,
        }
    }

    /// Returns the 3 digit country code of the node
    pub fn country_code(&self) -> (res: CountryCode)
        ensures
            res@ == self@.country_code,
    {
        match self {
            Self::V0(v) => v.country_code,
        }
    }

    /// Updates the FQDN address in the record
    pub fn set_addr(&mut self, addr: String)
        ensures
            final(self)@ == (RecordModel { addr: addr@, ..old(self)@ }),
    {
        match self {
            Self::V0(v) => v.addr = addr,
        }
    }

    /// Updates the base transaction fee in the record
    pub fn set_base_fee(&mut self, base_fee: u16)
        ensures
            final(self)@ == (RecordModel { base_fee, ..old(self)@ }),
    {
        match self {
            Self::V0(v) => v.base_fee = base_fee,
        }
    }

    /// Updates the features set in the record
    pub fn set_features(&mut self, features: FeaturesSet)
        ensures
            final(self)@ == (RecordModel { features: features@, ..old(self)@ }),
    {
        match self {
            Self::V0(v) => v.features = features,
        }
    }

    /// Updates the block time in ms in the record
    pub fn set_block_time_ms(&mut self, block_time_ms: u16)
        ensures
            final(self)@ == (RecordModel { block_time_ms, ..old(self)@ }),
    {
        match self {
            Self::V0(v) => v.block_time_ms = block_time_ms,
        }
    }

    /// Updates the node status in the record
    pub fn set_status(&mut self, status: ErStatus)
        ensures
            final(self)@ == (RecordModel { status, ..old(self)@ }),
    {
        match self {
            Self::V0(v) => v.status = status,
        }
    }

    /// Updates the load average in the record
    pub fn set_load_average(&mut self, load_average: u32)
        ensures
            final(self)@ == (RecordModel { load_average, ..old(self)@ }),
    {
        match self {
            Self::V0(v) => v.load_average = load_average,
        }
    }

    /// Updates the country code in the record
    pub fn set_country_code(&mut self, country_code: CountryCode)
        ensures
            final(self)@ == (RecordModel { country_code: country_code@, ..old(self)@ }),
    {
        match self {
            Self::V0(v) => v.country_code = country_code,
        }
    }

    /// Appends the bytes of the record to `out`. A record whose address
    /// string is too long for the format is refused, and `out` is left as it
    /// was.
    pub fn serialize(&self, out: &mut Vec<u8>) -> (res: Result<(), ProgramError>)
        ensures
            self@.wf() ==> res is Ok && final(out)@ == old(out)@ + record_bytes(self@),
            !self@.wf() ==> res == Err::<(), ProgramError>(ProgramError::InvalidAccountData)
                && final(out)@ == old(out)@,
    {
        proof {
            self.lemma_lengths();
        }
        match self {
            Self::V0(v) => {
                if v.addr.as_str().as_bytes().len() > 0xffff_ffff {
                    return Err(ProgramError::InvalidAccountData);
                }
                out.push(0u8);
                write_bytes(out, v.identity.0.as_slice());
                out.push(v.status.tag());
                write_u16(out, v.block_time_ms);
                write_u16(out, v.base_fee);
                write_bytes(out, v.features.0.as_slice());
                write_u32(out, v.load_average);
                write_bytes(out, v.country_code.0.as_slice());
                let written = write_string(out, v.addr.as_str());
                assert(written);
                assert(out@ =~= old(out)@ + record_bytes(self@));
                Ok(())
            },
        }
    }

    /// The bytes of the record.
    pub fn try_to_vec(&self) -> (res: Result<Vec<u8>, ProgramError>)
        ensures
            self@.wf() ==> (res matches Ok(bytes) && bytes@ == record_bytes(self@)),
            !self@.wf() ==> res == Err::<Vec<u8>, ProgramError>(ProgramError::InvalidAccountData),
    {
        let mut out: Vec<u8> = Vec::new();
        match self.serialize(&mut out) {
            Ok(()) => {
                assert(out@ =~= record_bytes(self@));
                Ok(out)
            },
            Err(e) => Err(e),
        }
    }

    /// Reads the record at the start of `bytes`, and says how many bytes it
    /// takes.
    pub fn parse(bytes: &[u8]) -> (res: Option<(ErRecord, usize)>)
        ensures
            match parse_record(bytes@) {
                Some((m, n)) => res matches Some((r, len)) && r@ == m && len == n,
                None => res is None,
            },
    {
        if bytes.len() < RECORD_FIXED_LEN {
            return None;
        }
        if bytes[0] != 0 {
            return None;
        }
        let identity = Pubkey(read_array32(bytes, 1));
        let status = match ErStatus::from_tag(bytes[33]) {
            Some(s) => s,
            None => { return None; },
        };
        let block_time_ms: u16 = read_u16(bytes, 34);
        let base_fee: u16 = read_u16(bytes, 36);
        let features = FeaturesSet(read_array32(bytes, 38));
        let load_average: u32 = read_u32(bytes, 70);
        let country_code = CountryCode(read_array3(bytes, 74));
        match read_string(bytes, RECORD_FIXED_LEN) {
            Some((addr, next)) => {
                let record = ErRecord::V0(
                    RecordV0 {
                        identity,
                        status,
                        block_time_ms,
                        base_fee,
                        features,
                        load_average,
                        country_code,
                        addr,
                    },
                );
                Some((record, next))
            },
            None => None,
        }
    }

    /// Decodes a record from the bytes that hold it and nothing else.
    pub fn try_from_slice(bytes: &[u8]) -> (res: Result<ErRecord, ProgramError>)
        ensures
            match decode_record(bytes@) {
                Some(m) => res matches Ok(r) && r@ == m,
                None => res matches Err(e) && e == ProgramError::InvalidAccountData,
            },
    {
        match Self::parse(bytes) {
            Some((record, len)) => {
                if len == bytes.len() {
                    Ok(record)
                } else {
                    Err(ProgramError::InvalidAccountData)
                }
            },
            None => Err(ProgramError::InvalidAccountData),
        }
    }
}

} // verus!
