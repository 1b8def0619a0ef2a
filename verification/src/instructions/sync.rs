use crate::codec::{
    lemma_concat_assoc, lemma_concat_skip, lemma_opt_array_bytes_parse,
    lemma_opt_status_bytes_parse, lemma_opt_string_bytes_parse, lemma_opt_u16_bytes_parse,
    lemma_opt_u32_bytes_parse, lemma_parse_opt_array_bytes, lemma_parse_opt_status_bytes,
    lemma_parse_opt_string_bytes, lemma_parse_opt_u16_bytes, lemma_parse_opt_u32_bytes,
    lemma_skip_skip, lemma_skip_subrange, lemma_subrange_join, opt_status_bytes,
    opt_string_bytes, opt_u16_bytes, opt_u32_bytes, option_bytes, parse_opt_array,
    parse_opt_status, parse_opt_string, parse_opt_u16, parse_opt_u32, read_array32,
    read_opt_array3, read_opt_array32, read_opt_status, read_opt_string, read_opt_u16,
    read_opt_u32, string_fits, write_bytes, write_opt_bytes, write_opt_status, write_opt_string,
    write_opt_u16, write_opt_u32,
};
use crate::error::ProgramError;
use crate::instructions::version::v0::SyncRecordV0;
use crate::pubkey::{derived_view, find_record_address, record_address, Pubkey};
use crate::state::features::FeaturesSet;
use crate::state::record::{CountryCode, ErRecord, RecordModel};
use crate::state::status::ErStatus;
use vstd::prelude::*;

verus! {

/// What a patch says, as plain values: the identity of the node, and for
/// each other field of its record either a new value or nothing.
pub struct PatchModel {
    pub identity: Seq<u8>,
    pub status: Option<ErStatus>,
    pub block_time_ms: Option<u16>,
    pub base_fee: Option<u16>,
    pub features: Option<Seq<u8>>,
    pub load_average: Option<u32>,
    pub country_code: Option<Seq<u8>>,
    pub addr: Option<Seq<char>>,
}

/// An optional features set as plain values.
pub open spec fn features_view(features: Option<FeaturesSet>) -> Option<Seq<u8>> {
    match features {
        Some(f) => Some(f@),
        None => None,
    }
}

/// An optional country code as plain values.
pub open spec fn code_view(code: Option<CountryCode>) -> Option<Seq<u8>> {
    match code {
        Some(c) => Some(c@),
        None => None,
    }
}

/// An optional string as plain values.
pub open spec fn text_view(text: Option<String>) -> Option<Seq<char>> {
    match text {
        Some(s) => Some(s@),
        None => None,
    }
}

impl PatchModel {
    /// The values that a patch can hold and that the format can carry.
    pub open spec fn wf(self) -> bool {
        &&& self.identity.len() == 32
        &&& (self.features matches Some(f) ==> f.len() == 32)
        &&& (self.country_code matches Some(c) ==> c.len() == 3)
        &&& (self.addr matches Some(s) ==> string_fits(s))
    }
}

/// The bytes of a patch: the version tag, the identity, then each optional
/// field in its declared order.
pub open spec fn patch_bytes(p: PatchModel) -> Seq<u8> {
    seq![0u8] + p.identity + opt_status_bytes(p.status) + opt_u16_bytes(p.block_time_ms)
        + opt_u16_bytes(p.base_fee) + option_bytes(p.features) + opt_u32_bytes(p.load_average)
        + option_bytes(p.country_code) + opt_string_bytes(p.addr)
}

/// What a patch holds after its identity, as read so far.
pub struct PatchFields {
    pub status: Option<ErStatus>,
    pub block_time_ms: Option<u16>,
    pub base_fee: Option<u16>,
    pub features: Option<Seq<u8>>,
    pub load_average: Option<u32>,
    pub country_code: Option<Seq<u8>>,
    pub addr: Option<Seq<char>>,
}

/// The last optional fields of a patch, from the load average on, at the
/// start of `b`, and the number of bytes they take.
#[verifier::opaque]
pub open spec fn parse_patch_tail(b: Seq<u8>) -> Option<
    (Option<u32>, Option<Seq<u8>>, Option<Seq<char>>, int),
> {
    match parse_opt_u32(b) {
        None => None,
        Some((load_average, n5)) => match parse_opt_array(b.skip(n5), 3) {
            None => None,
            Some((country_code, n6)) => match parse_opt_string(b.skip(n5).skip(n6)) {
                None => None,
                Some((addr, n7)) => Some((load_average, country_code, addr, n5 + n6 + n7)),
            },
        },
    }
}

/// The first optional fields of a patch, from the status to the features,
/// at the start of `b`, and the number of bytes they take.
#[verifier::opaque]
pub open spec fn parse_patch_head(b: Seq<u8>) -> Option<
    (Option<ErStatus>, Option<u16>, Option<u16>, Option<Seq<u8>>, int),
> {
    match parse_opt_status(b) {
        None => None,
        Some((status, n1)) => match parse_opt_u16(b.skip(n1)) {
            None => None,
            Some((block_time_ms, n2)) => match parse_opt_u16(b.skip(n1).skip(n2)) {
                None => None,
                Some((base_fee, n3)) => match parse_opt_array(b.skip(n1).skip(n2).skip(n3), 32) {
                    None => None,
                    Some((features, n4)) => Some(
                        (status, block_time_ms, base_fee, features, n1 + n2 + n3 + n4),
                    ),
                },
            },
        },
    }
}

/// The patch at the start of `b` and the number of bytes it takes, or `None`
/// where `b` does not start with a patch of a known version.
pub open spec fn parse_patch(b: Seq<u8>) -> Option<(PatchModel, int)> {
    if b.len() >= 33 && b[0] == 0 {
        match parse_patch_head(b.skip(33)) {
            None => None,
            Some((status, block_time_ms, base_fee, features, n)) => match parse_patch_tail(
                b.skip(33).skip(n),
            ) {
                None => None,
                Some((load_average, country_code, addr, m)) => Some(
                    (
                        PatchModel {
                            identity: b.subrange(1, 33),
                            status,
                            block_time_ms,
                            base_fee,
                            features,
                            load_average,
                            country_code,
                            addr,
                        },
                        33 + n + m,
                    ),
                ),
            },
        }
    } else {
        None
    }
}

/// The first optional fields of a patch are read back from their bytes,
/// whatever follows them.
pub proof fn lemma_parse_patch_head_bytes(p: PatchModel, rest: Seq<u8>)
    requires
        p.wf(),
    ensures
        parse_patch_head(
            opt_status_bytes(p.status) + (opt_u16_bytes(p.block_time_ms) + (opt_u16_bytes(
                p.base_fee,
            ) + (option_bytes(p.features) + rest))),
        ) == Some(
            (
                p.status,
                p.block_time_ms,
                p.base_fee,
                p.features,
                (opt_status_bytes(p.status).len() + opt_u16_bytes(p.block_time_ms).len()
                    + opt_u16_bytes(p.base_fee).len() + option_bytes(p.features).len()) as int,
            ),
        ),
{
    reveal(parse_patch_head);
    let f1 = opt_status_bytes(p.status);
    let f2 = opt_u16_bytes(p.block_time_ms);
    let f3 = opt_u16_bytes(p.base_fee);
    let f4 = option_bytes(p.features);
    let t4 = f4 + rest;
    let t3 = f3 + t4;
    let t2 = f2 + t3;
    let t1 = f1 + t2;
    lemma_parse_opt_status_bytes(p.status, t2);
    lemma_concat_skip(f1, t2);
    lemma_parse_opt_u16_bytes(p.block_time_ms, t3);
    lemma_concat_skip(f2, t3);
    lemma_parse_opt_u16_bytes(p.base_fee, t4);
    lemma_concat_skip(f3, t4);
    lemma_parse_opt_array_bytes(p.features, 32, rest);
}

/// The last optional fields of a patch are read back from their bytes,
/// whatever follows them.
pub proof fn lemma_parse_patch_tail_bytes(p: PatchModel, rest: Seq<u8>)
    requires
        p.wf(),
    ensures
        parse_patch_tail(
            opt_u32_bytes(p.load_average) + (option_bytes(p.country_code) + (opt_string_bytes(
                p.addr,
            ) + rest)),
        ) == Some(
            (
                p.load_average,
                p.country_code,
                p.addr,
                (opt_u32_bytes(p.load_average).len() + option_bytes(p.country_code).len()
                    + opt_string_bytes(p.addr).len()) as int,
            ),
        ),
{
    reveal(parse_patch_tail);
    let f5 = opt_u32_bytes(p.load_average);
    let f6 = option_bytes(p.country_code);
    let f7 = opt_string_bytes(p.addr);
    let t7 = f7 + rest;
    let t6 = f6 + t7;
    lemma_parse_opt_u32_bytes(p.load_average, t6);
    lemma_concat_skip(f5, t6);
    lemma_parse_opt_array_bytes(p.country_code, 3, t7);
    lemma_concat_skip(f6, t7);
    lemma_parse_opt_string_bytes(p.addr, rest);
}

/// Eight runs of bytes joined one after the other, then a ninth, are the
/// first followed by the rest joined from the right.
proof fn lemma_regroup(
    x0: Seq<u8>,
    f1: Seq<u8>,
    f2: Seq<u8>,
    f3: Seq<u8>,
    f4: Seq<u8>,
    f5: Seq<u8>,
    f6: Seq<u8>,
    f7: Seq<u8>,
    rest: Seq<u8>,
)
    ensures
        (x0 + f1 + f2 + f3 + f4 + f5 + f6 + f7) + rest == x0 + (f1 + (f2 + (f3 + (f4 + (f5 + (f6
            + (f7 + rest))))))),
        (f1 + (f2 + (f3 + (f4 + (f5 + (f6 + (f7 + rest))))))).skip(
            (f1.len() + f2.len() + f3.len() + f4.len()) as int,
        ) == f5 + (f6 + (f7 + rest)),
        (x0 + f1 + f2 + f3 + f4 + f5 + f6 + f7).len() == x0.len() + f1.len() + f2.len() + f3.len()
            + f4.len() + f5.len() + f6.len() + f7.len(),
{
    let t5 = f5 + (f6 + (f7 + rest));
    assert((x0 + f1 + f2 + f3 + f4 + f5 + f6 + f7) + rest =~= x0 + (f1 + (f2 + (f3 + (f4 + t5)))));
    assert((f1 + (f2 + (f3 + (f4 + t5)))).skip(
        (f1.len() + f2.len() + f3.len() + f4.len()) as int,
    ) =~= t5);
}

/// After a tag and an identity the identity is found again, and what
/// follows them starts 33 bytes in.
proof fn lemma_header(identity: Seq<u8>, t: Seq<u8>)
    requires
        identity.len() == 32,
    ensures
        ((seq![0u8] + identity) + t).len() >= 33,
        ((seq![0u8] + identity) + t)[0] == 0,
        ((seq![0u8] + identity) + t).subrange(1, 33) == identity,
        ((seq![0u8] + identity) + t).skip(33) == t,
{
    let b = (seq![0u8] + identity) + t;
    assert(b.subrange(1, 33) =~= identity);
    assert(b.skip(33) =~= t);
}

/// A patch is read back from its bytes, whatever follows them.
pub proof fn lemma_parse_patch_bytes(p: PatchModel, rest: Seq<u8>)
    requires
        p.wf(),
    ensures
        parse_patch(patch_bytes(p) + rest) == Some((p, patch_bytes(p).len() as int)),
{
    let x0 = seq![0u8] + p.identity;
    let f1 = opt_status_bytes(p.status);
    let f2 = opt_u16_bytes(p.block_time_ms);
    let f3 = opt_u16_bytes(p.base_fee);
    let f4 = option_bytes(p.features);
    let f5 = opt_u32_bytes(p.load_average);
    let f6 = option_bytes(p.country_code);
    let f7 = opt_string_bytes(p.addr);
    let t5 = f5 + (f6 + (f7 + rest));
    let t1 = f1 + (f2 + (f3 + (f4 + t5)));
    lemma_regroup(x0, f1, f2, f3, f4, f5, f6, f7, rest);
    lemma_header(p.identity, t1);
    lemma_parse_patch_head_bytes(p, t5);
    lemma_parse_patch_tail_bytes(p, rest);
}

/// What was read as the first optional fields of a patch is written back
/// as the bytes it was read from.
pub proof fn lemma_patch_head_bytes_parse(b: Seq<u8>)
    requires
        parse_patch_head(b) is Some,
    ensures
        0 <= parse_patch_head(b).unwrap().4 <= b.len(),
        parse_patch_head(b).unwrap().3 matches Some(f) ==> f.len() == 32,
        opt_status_bytes(parse_patch_head(b).unwrap().0) + opt_u16_bytes(
            parse_patch_head(b).unwrap().1,
        ) + opt_u16_bytes(parse_patch_head(b).unwrap().2) + option_bytes(
            parse_patch_head(b).unwrap().3,
        ) == b.subrange(0, parse_patch_head(b).unwrap().4),
{
    reveal(parse_patch_head);
    let (status, n1) = parse_opt_status(b).unwrap();
    lemma_opt_status_bytes_parse(b);
    let b1 = b.skip(n1);
    let (block_time_ms, n2) = parse_opt_u16(b1).unwrap();
    lemma_opt_u16_bytes_parse(b1);
    lemma_skip_subrange(b, n1, n2);
    lemma_subrange_join(b, 0, n1, n1 + n2);
    let b2 = b1.skip(n2);
    lemma_skip_skip(b, n1, n2);
    let (base_fee, n3) = parse_opt_u16(b2).unwrap();
    lemma_opt_u16_bytes_parse(b2);
    lemma_skip_subrange(b, n1 + n2, n3);
    lemma_subrange_join(b, 0, n1 + n2, n1 + n2 + n3);
    let b3 = b2.skip(n3);
    lemma_skip_skip(b, n1 + n2, n3);
    let (features, n4) = parse_opt_array(b3, 32).unwrap();
    lemma_opt_array_bytes_parse(b3, 32);
    lemma_skip_subrange(b, n1 + n2 + n3, n4);
    lemma_subrange_join(b, 0, n1 + n2 + n3, n1 + n2 + n3 + n4);
}

/// What was read as the last optional fields of a patch is written back as
/// the bytes it was read from.
pub proof fn lemma_patch_tail_bytes_parse(b: Seq<u8>)
    requires
        parse_patch_tail(b) is Some,
    ensures
        0 <= parse_patch_tail(b).unwrap().3 <= b.len(),
        parse_patch_tail(b).unwrap().1 matches Some(c) ==> c.len() == 3,
        parse_patch_tail(b).unwrap().2 matches Some(s) ==> string_fits(s),
        opt_u32_bytes(parse_patch_tail(b).unwrap().0) + option_bytes(
            parse_patch_tail(b).unwrap().1,
        ) + opt_string_bytes(parse_patch_tail(b).unwrap().2) == b.subrange(
            0,
            parse_patch_tail(b).unwrap().3,
        ),
{
    reveal(parse_patch_tail);
    let (load_average, n5) = parse_opt_u32(b).unwrap();
    lemma_opt_u32_bytes_parse(b);
    let b5 = b.skip(n5);
    let (country_code, n6) = parse_opt_array(b5, 3).unwrap();
    lemma_opt_array_bytes_parse(b5, 3);
    lemma_skip_subrange(b, n5, n6);
    lemma_subrange_join(b, 0, n5, n5 + n6);
    let b6 = b5.skip(n6);
    lemma_skip_skip(b, n5, n6);
    let (addr, n7) = parse_opt_string(b6).unwrap();
    lemma_opt_string_bytes_parse(b6);
    lemma_skip_subrange(b, n5 + n6, n7);
    lemma_subrange_join(b, 0, n5 + n6, n5 + n6 + n7);
}

/// Eight runs of bytes joined one after the other are the first, then the
/// next four joined, then the last three joined.
proof fn lemma_regroup_parts(
    x0: Seq<u8>,
    f1: Seq<u8>,
    f2: Seq<u8>,
    f3: Seq<u8>,
    f4: Seq<u8>,
    f5: Seq<u8>,
    f6: Seq<u8>,
    f7: Seq<u8>,
)
    ensures
        x0 + f1 + f2 + f3 + f4 + f5 + f6 + f7 == x0 + ((f1 + f2 + f3 + f4) + (f5 + f6 + f7)),
{
    assert(x0 + f1 + f2 + f3 + f4 + f5 + f6 + f7 =~= x0 + ((f1 + f2 + f3 + f4) + (f5 + f6 + f7)));
}

/// What was read as a patch is written back as the bytes it was read from.
pub proof fn lemma_patch_bytes_parse(b: Seq<u8>)
    requires
        parse_patch(b) is Some,
    ensures
        parse_patch(b).unwrap().0.wf(),
        40 <= parse_patch(b).unwrap().1 <= b.len(),
        patch_bytes(parse_patch(b).unwrap().0) == b.subrange(0, parse_patch(b).unwrap().1),
{
    let (p, len) = parse_patch(b).unwrap();
    let c = b.skip(33);
    let n = parse_patch_head(c).unwrap().4;
    let m = parse_patch_tail(c.skip(n)).unwrap().3;
    lemma_patch_head_bytes_parse(c);
    lemma_patch_tail_bytes_parse(c.skip(n));
    let head = opt_status_bytes(p.status) + opt_u16_bytes(p.block_time_ms) + opt_u16_bytes(
        p.base_fee,
    ) + option_bytes(p.features);
    let tail = opt_u32_bytes(p.load_average) + option_bytes(p.country_code) + opt_string_bytes(
        p.addr,
    );
    let x0 = seq![0u8] + p.identity;
    assert(x0 =~= b.subrange(0, 33));
    lemma_skip_subrange(b, 33, n);
    lemma_skip_skip(b, 33, n);
    lemma_skip_subrange(b, 33 + n, m);
    lemma_subrange_join(b, 33, 33 + n, 33 + n + m);
    lemma_subrange_join(b, 0, 33, 33 + n + m);
    lemma_regroup_parts(
        x0,
        opt_status_bytes(p.status),
        opt_u16_bytes(p.block_time_ms),
        opt_u16_bytes(p.base_fee),
        option_bytes(p.features),
        opt_u32_bytes(p.load_average),
        option_bytes(p.country_code),
        opt_string_bytes(p.addr),
    );
}

/// The record `current` with each field that `patch` holds put in place of
/// the stored one. The identity is never replaced.
pub open spec fn merged(current: RecordModel, patch: PatchModel) -> RecordModel {
    RecordModel {
        identity: current.identity,
        status: match patch.status {
            Some(v) => v,
            None => current.status,
        },
        block_time_ms: match patch.block_time_ms {
            Some(v) => v,
            None => current.block_time_ms,
        },
        base_fee: match patch.base_fee {
            Some(v) => v,
            None => current.base_fee,
        },
        features: match patch.features {
            Some(v) => v,
            None => current.features,
        },
        load_average: match patch.load_average {
            Some(v) => v,
            None => current.load_average,
        },
        country_code: match patch.country_code {
            Some(v) => v,
            None => current.country_code,
        },
        addr: match patch.addr {
            Some(v) => v,
            None => current.addr,
        },
    }
}

/// A patch that holds nothing but a block time changes the block time of a
/// record and no other field.
pub proof fn lemma_block_time_patch(current: RecordModel, patch: PatchModel, block_time_ms: u16)
    requires
        patch.block_time_ms == Some(block_time_ms),
        patch.status is None,
        patch.base_fee is None,
        patch.features is None,
        patch.load_average is None,
        patch.country_code is None,
        patch.addr is None,
    ensures
        merged(current, patch) == (RecordModel { block_time_ms, ..current }),
{
}

/// A patch that holds no field leaves a record as it is, and merging never
/// touches the identity.
pub proof fn lemma_merge_keeps_absent_fields(current: RecordModel, patch: PatchModel)
    ensures
        merged(current, patch).identity == current.identity,
        patch.status is None ==> merged(current, patch).status == current.status,
        patch.block_time_ms is None ==> merged(current, patch).block_time_ms
            == current.block_time_ms,
        patch.base_fee is None ==> merged(current, patch).base_fee == current.base_fee,
        patch.features is None ==> merged(current, patch).features == current.features,
        patch.load_average is None ==> merged(current, patch).load_average
            == current.load_average,
        patch.country_code is None ==> merged(current, patch).country_code
            == current.country_code,
        patch.addr is None ==> merged(current, patch).addr == current.addr,
{
}

/// Versioned sync program instruction
#[derive(Debug)]
pub enum SyncInstruction {
    V0(SyncRecordV0),
}

impl View for SyncInstruction {
    type V = PatchModel;

    open spec fn view(&self) -> PatchModel {
        match self {
            SyncInstruction::V0(v) => v@,
        }
    }
}

impl SyncInstruction {
    /// The address and nonce of the slot of the patched record under the
    /// registry `program_id`.
    pub open spec fn spec_pda(&self, program_id: Pubkey) -> Option<(Seq<u8>, u8)> {
        record_address(self@.identity, program_id@)
    }

    /// Computes the address of the slot that holds the record of this node
    /// under the registry `program_id`.
    pub fn pda(&self, program_id: &Pubkey) -> (res: Option<(Pubkey, u8)>)
        ensures
            derived_view(res) == self.spec_pda(*program_id),
    {
        find_record_address(self.identity(), program_id)
    }

    /// Returns the identity pubkey of the node
    pub fn identity(&self) -> (res: &Pubkey)
        ensures
            res@ == self@.identity,
    {
        match self {
            Self::V0(r) => &r.identity,
        }
    }

    /// Returns the address of the node, if set
    pub fn addr(&mut self) -> (res: &mut Option<String>)
        ensures
            text_view(*res) == old(self)@.addr,
            final(self)@ == (PatchModel { addr: text_view(*final(res)), ..old(self)@ }),
    {
        match self {
            Self::V0(v) => &mut v.addr,
        }
    }

    /// Returns the base transaction fee charged by the node, if set
    pub fn base_fee(&mut self) -> (res: &mut Option<u16>)
        ensures
            *res == old(self)@.base_fee,
            final(self)@ == (PatchModel { base_fee: *final(res), ..old(self)@ }),
    {
        match self {
            Self::V0(v) => &mut v.base_fee,
        }
    }

    /// Returns the block time in ms of the node, if set
    pub fn block_time_ms(&mut self) -> (res: &mut Option<u16>)
        ensures
            *res == old(self)@.block_time_ms,
            final(self)@ == (PatchModel { block_time_ms: *final(res), ..old(self)@ }),
    {
        match self {
            Self::V0(v) => &mut v.block_time_ms,
        }
    }

    /// Returns the features set supported by the node, if set
    pub fn features(&mut self) -> (res: &mut Option<FeaturesSet>)
        ensures
            features_view(*res) == old(self)@.features,
            final(self)@ == (PatchModel { features: features_view(*final(res)), ..old(self)@ }),
    {
        match self {
            Self::V0(v) => &mut v.features,
        }
    }

    /// Returns the status of the node, if set
    pub fn status(&mut self) -> (res: &mut Option<ErStatus>)
        ensures
            *res == old(self)@.status,
            final(self)@ == (PatchModel { status: *final(res), ..old(self)@ }),
    {
        match self {
            Self::V0(v) => &mut v.status,
        }
    }

    /// Returns the last observed average load on the node, if set
    pub fn load_average(&mut self) -> (res: &mut Option<u32>)
        ensures
            *res == old(self)@.load_average,
            final(self)@ == (PatchModel { load_average: *final(res), ..old(self)@ }),
    {
        match self {
            Self::V0(v) => &mut v.load_average,
        }
    }

    /// Returns the country code of the node, if set
    pub fn country_code(&mut self) -> (res: &mut Option<CountryCode>)
        ensures
            code_view(*res) == old(self)@.country_code,
            final(self)@ == (PatchModel { country_code: code_view(*final(res)), ..old(self)@ }),
    {
        match self {
            Self::V0(v) => &mut v.country_code,
        }
    }

    /// A patch's fixed-length fields have the lengths that the format gives
    /// them.
    pub proof fn lemma_lengths(&self)
        ensures
            self@.identity.len() == 32,
            self@.features matches Some(f) ==> f.len() == 32,
            self@.country_code matches Some(c) ==> c.len() == 3,
    {
        match self {
            SyncInstruction::V0(v) => {
                v.identity.lemma_len();
                if let Some(f) = v.features {
                    f.lemma_len();
                }
                if let Some(c) = v.country_code {
                    c.lemma_len();
                }
            },
        }
    }

    /// Appends the bytes of the patch to `out`. A patch whose address string
    /// is too long for the format is refused, and `out` is left as it was.
    pub fn serialize(&self, out: &mut Vec<u8>) -> (res: Result<(), ProgramError>)
        ensures
            self@.wf() ==> res is Ok && final(out)@ == old(out)@ + patch_bytes(self@),
            !self@.wf() ==> res == Err::<(), ProgramError>(ProgramError::InvalidAccountData)
                && final(out)@ == old(out)@,
    {
        proof {
            self.lemma_lengths();
        }
        match self {
            Self::V0(v) => {
                if let Some(addr) = &v.addr {
                    if addr.as_str().as_bytes().len() > 0xffff_ffff {
                        return Err(ProgramError::InvalidAccountData);
                    }
                }
                let ghost base = out@;
                let ghost p = self@;
                out.push(0u8);
                let ghost a0 = seq![0u8];
                assert(out@ == base + a0);
                write_bytes(out, v.identity.0.as_slice());
                let ghost a1 = a0 + p.identity;
                proof {
                    lemma_concat_assoc(base, a0, p.identity);
                }
                write_opt_status(out, v.status);
                let ghost a2 = a1 + opt_status_bytes(p.status);
                proof {
                    lemma_concat_assoc(base, a1, opt_status_bytes(p.status));
                }
                write_opt_u16(out, v.block_time_ms);
                let ghost a3 = a2 + opt_u16_bytes(p.block_time_ms);
                proof {
                    lemma_concat_assoc(base, a2, opt_u16_bytes(p.block_time_ms));
                }
                write_opt_u16(out, v.base_fee);
                let ghost a4 = a3 + opt_u16_bytes(p.base_fee);
                proof {
                    lemma_concat_assoc(base, a3, opt_u16_bytes(p.base_fee));
                }
                write_opt_bytes(
                    out,
                    match &v.features {
                        Some(f) => Some(f.0.as_slice()),
                        None => None,
                    },
                );
                let ghost a5 = a4 + option_bytes(p.features);
                proof {
                    lemma_concat_assoc(base, a4, option_bytes(p.features));
                }
                assert(out@ == base + a5);
                write_opt_u32(out, v.load_average);
                let ghost a6 = a5 + opt_u32_bytes(p.load_average);
                proof {
                    lemma_concat_assoc(base, a5, opt_u32_bytes(p.load_average));
                }
                write_opt_bytes(
                    out,
                    match &v.country_code {
                        Some(c) => Some(c.0.as_slice()),
                        None => None,
                    },
                );
                let ghost a7 = a6 + option_bytes(p.country_code);
                proof {
                    lemma_concat_assoc(base, a6, option_bytes(p.country_code));
                }
                assert(out@ == base + a7);
                let written = write_opt_string(
                    out,
                    match &v.addr {
                        Some(s) => Some(s.as_str()),
                        None => None,
                    },
                );
                assert(written);
                proof {
                    lemma_concat_assoc(base, a7, opt_string_bytes(p.addr));
                }
                assert(out@ == base + patch_bytes(p));
                Ok(())
            },
        }
    }

    /// Reads the optional fields of a patch from the status to the features
    /// at `at`, and says where the bytes after them start.
    fn parse_head(bytes: &[u8], at: usize) -> (res: Option<
        (Option<ErStatus>, Option<u16>, Option<u16>, Option<FeaturesSet>, usize),
    >)
        requires
            at <= bytes.len(),
        ensures
            match parse_patch_head(bytes@.skip(at as int)) {
                Some((status, block_time_ms, base_fee, features, n)) => res matches Some(r) && r.0
                    == status && r.1 == block_time_ms && r.2 == base_fee && features_view(r.3)
                    == features && r.4 == at + n && at <= r.4 <= bytes.len(),
                None => res is None,
            },
    {
        proof {
            reveal(parse_patch_head);
        }
        let (status, p1) = match read_opt_status(bytes, at) {
            Some(r) => r,
            None => { return None; },
        };
        proof {
            lemma_skip_skip(bytes@, at as int, p1 - at);
        }
        let (block_time_ms, p2) = match read_opt_u16(bytes, p1) {
            Some(r) => r,
            None => { return None; },
        };
        proof {
            lemma_skip_skip(bytes@, p1 as int, p2 - p1);
        }
        let (base_fee, p3) = match read_opt_u16(bytes, p2) {
            Some(r) => r,
            None => { return None; },
        };
        proof {
            lemma_skip_skip(bytes@, p2 as int, p3 - p2);
        }
        let (features, p4) = match read_opt_array32(bytes, p3) {
            Some(r) => r,
            None => { return None; },
        };
        let features = match features {
            Some(f) => Some(FeaturesSet(f)),
            None => None,
        };
        Some((status, block_time_ms, base_fee, features, p4))
    }

    /// Reads the optional fields of a patch from the load average on at
    /// `at`, and says where the bytes after them start.
    fn parse_tail(bytes: &[u8], at: usize) -> (res: Option<
        (Option<u32>, Option<CountryCode>, Option<String>, usize),
    >)
        requires
            at <= bytes.len(),
        ensures
            match parse_patch_tail(bytes@.skip(at as int)) {
                Some((load_average, country_code, addr, n)) => res matches Some(r) && r.0
                    == load_average && code_view(r.1) == country_code && text_view(r.2) == addr
                    && r.3 == at + n && at <= r.3 <= bytes.len(),
                None => res is None,
            },
    {
        proof {
            reveal(parse_patch_tail);
        }
        let (load_average, p5) = match read_opt_u32(bytes, at) {
            Some(r) => r,
            None => { return None; },
        };
        proof {
            lemma_skip_skip(bytes@, at as int, p5 - at);
        }
        let (country_code, p6) = match read_opt_array3(bytes, p5) {
            Some(r) => r,
            None => { return None; },
        };
        proof {
            lemma_skip_skip(bytes@, p5 as int, p6 - p5);
        }
        let (addr, p7) = match read_opt_string(bytes, p6) {
            Some(r) => r,
            None => { return None; },
        };
        let country_code = match country_code {
            Some(code) => Some(CountryCode(code)),
            None => None,
        };
        Some((load_average, country_code, addr, p7))
    }

    /// Reads the patch at `at`, and says where the bytes after it start.
    pub fn parse(bytes: &[u8], at: usize) -> (res: Option<(SyncInstruction, usize)>)
        requires
            at <= bytes.len(),
        ensures
            match parse_patch(bytes@.skip(at as int)) {
                Some((p, n)) => res matches Some((r, next)) && r@ == p && next == at + n && at + n
                    <= bytes.len(),
                None => res is None,
            },
    {
        let ghost b = bytes@.skip(at as int);
        if bytes.len() - at < 33 {
            return None;
        }
        if bytes[at] != 0 {
            return None;
        }
        let identity = Pubkey(read_array32(bytes, at + 1));
        assert(bytes@.subrange(at + 1, at + 33) =~= b.subrange(1, 33));
        proof {
            lemma_skip_skip(bytes@, at as int, 33);
        }
        let (status, block_time_ms, base_fee, features, mid) = match Self::parse_head(
            bytes,
            at + 33,
        ) {
            Some(r) => r,
            None => { return None; },
        };
        proof {
            lemma_skip_skip(bytes@, at + 33, mid - (at + 33));
        }
        let (load_average, country_code, addr, next) = match Self::parse_tail(bytes, mid) {
            Some(r) => r,
            None => { return None; },
        };
        let patch = SyncRecordV0 {
            identity,
            status,
            block_time_ms,
            base_fee,
            features,
            load_average,
            country_code,
            addr,
        };
        Some((SyncInstruction::V0(patch), next))
    }

    /// Puts each field that the patch holds in place of the stored one in
    /// `record`, and leaves the other fields of `record` as they are.
    pub fn apply(self, record: &mut ErRecord)
        ensures
            final(record)@ == merged(old(record)@, self@),
    {
        let mut ix = self;
        if let Some(addr) = ix.addr().take() {
            record.set_addr(addr);
        }
        if let Some(base_fee) = ix.base_fee().take() {
            record.set_base_fee(base_fee);
        }
        if let Some(block_time_ms) = ix.block_time_ms().take() {
            record.set_block_time_ms(block_time_ms);
        }
        if let Some(features) = ix.features().take() {
            record.set_features(features);
        }
        if let Some(status) = ix.status().take() {
            record.set_status(status);
        }
        if let Some(load_average) = ix.load_average().take() {
            record.set_load_average(load_average);
        }
        if let Some(country_code) = ix.country_code().take() {
            record.set_country_code(country_code);
        }
    }
}

} // verus!
