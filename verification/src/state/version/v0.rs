use crate::pubkey::Pubkey;
use crate::state::features::FeaturesSet;
use crate::state::record::{CountryCode, RecordModel};
use crate::state::status::ErStatus;
use vstd::prelude::*;

verus! {

/// Version 0 of a registry record.
#[derive(Debug)]
pub struct RecordV0 {
    /// Identity of the node (pubkey from its keypair)
    pub identity: Pubkey,
    /// Current status of the node
    pub status: ErStatus,
    /// Block time of the node in ms
    pub block_time_ms: u16,
    /// Base fee charged by the node per transaction
    pub base_fee: u16,
    /// A bitmap of the custom features that the node supports
    pub features: FeaturesSet,
    /// An average value, which acts as an indicator
    /// of how loaded the node currently is
    pub load_average: u32,
    /// 3 digit country code, where the node is deployed
    pub country_code: CountryCode,
    /// Variable length string representing FQDN
    pub addr: String,
}

impl View for RecordV0 {
    type V = RecordModel;

    open spec fn view(&self) -> RecordModel {
        RecordModel {
            identity: self.identity@,
            status: self.status,
            block_time_ms: self.block_time_ms,
            base_fee: self.base_fee,
            features: self.features@,
            load_average: self.load_average,
            country_code: self.country_code@,
            addr: self.addr@,
        }
    }
}

impl Clone for RecordV0 {
    fn clone(&self) -> (res: Self)
        ensures
            res@ == self@,
    {
        RecordV0 {
            identity: self.identity,
            status: self.status,
            block_time_ms: self.block_time_ms,
            base_fee: self.base_fee,
            features: self.features.clone(),
            load_average: self.load_average,
            country_code: self.country_code,
            addr: self.addr.clone(),
        }
    }
}

impl RecordV0 {
    /// Whether two records say the same in every field.
    pub fn same_fields(&self, other: &RecordV0) -> (res: bool)
        ensures
            res == (self@ == other@),
    {
        self.identity.same_bytes(&other.identity) && self.status == other.status
            && self.block_time_ms == other.block_time_ms && self.base_fee == other.base_fee
            && self.features.same_bytes(&other.features) && self.load_average
            == other.load_average && self.country_code.same_bytes(&other.country_code)
            && self.addr == other.addr
    }
}

impl PartialEq for RecordV0 {
    fn eq(&self, other: &RecordV0) -> (res: bool) {
        self.same_fields(other)
    }
}

impl Eq for RecordV0 {}

impl vstd::std_specs::cmp::PartialEqSpecImpl for RecordV0 {
    open spec fn obeys_eq_spec() -> bool {
        true
    }

    open spec fn eq_spec(&self, other: &RecordV0) -> bool {
        self@ == other@
    }
}

} // verus!
