use crate::instructions::sync::{features_view, text_view, code_view, PatchModel};
use crate::pubkey::Pubkey;
use crate::state::features::FeaturesSet;
use crate::state::record::CountryCode;
use crate::state::status::ErStatus;
use vstd::prelude::*;

verus! {

/// Sync instruction data, version 0: the identity of the node, and for each
/// other field of its record either a new value or nothing.
#[derive(Debug)]
pub struct SyncRecordV0 {
    pub identity: Pubkey,
    pub status: Option<ErStatus>,
    pub block_time_ms: Option<u16>,
    pub base_fee: Option<u16>,
    pub features: Option<FeaturesSet>,
    pub load_average: Option<u32>,
    pub country_code: Option<CountryCode>,
    pub addr: Option<String>,
}

impl View for SyncRecordV0 {
    type V = PatchModel;

    open spec fn view(&self) -> PatchModel {
        PatchModel {
            identity: self.identity@,
            status: self.status,
            block_time_ms: self.block_time_ms,
            base_fee: self.base_fee,
            features: features_view(self.features),
            load_average: self.load_average,
            country_code: code_view(self.country_code),
            addr: text_view(self.addr),
        }
    }
}

} // verus!
