//! Campaigns: what a new campaign must satisfy, and what a campaign shows.

use vstd::prelude::*;
use crate::text::{int_text, probability_text, push_int, push_probability};
use crate::types::{CampaignCouponType, MILLION};

verus! {

/// One coupon type of a campaign to be created. The probability is a count
/// of millionths; a quota of `None` is unlimited.
#[derive(Clone, Debug, PartialEq, Eq)]
pub struct CreateCampaignPayloadCouponType {
    pub description: String,
    pub probability: u32,
    pub total_quota: Option<i32>,
    pub daily_quota: Option<i32>,
}

/// What a `CreateCampaignPayloadCouponType` is, as plain values.
pub struct NewTypeView {
    pub description: Seq<char>,
    pub probability: u32,
    pub total_quota: Option<i32>,
    pub daily_quota: Option<i32>,
}

impl View for CreateCampaignPayloadCouponType {
    type V = NewTypeView;

    open spec fn view(&self) -> NewTypeView {
        NewTypeView {
            description: self.description@,
            probability: self.probability,
            total_quota: self.total_quota,
            daily_quota: self.daily_quota,
        }
    }
}

/// The views of the coupon types of a campaign to be created, in order.
pub open spec fn new_type_views(types: Seq<CreateCampaignPayloadCouponType>) -> Seq<NewTypeView> {
    Seq::new(types.len(), |i: int| types[i]@)
}

/// A campaign to be created.
#[derive(Clone, Debug, PartialEq, Eq)]
pub struct CreateCampaignPayload {
    pub coupon_types: Vec<CreateCampaignPayloadCouponType>,
}

/// What a campaign shows of one of its coupon types.
#[derive(Clone, Debug, PartialEq, Eq)]
pub struct GetCampaignResultCouponType {
    pub description: String,
    pub probability: u32,
    pub total_quota: Option<i32>,
    pub daily_quota: Option<i32>,
    pub current_quota: Option<i32>,
    pub current_daily_quota: Option<i32>,
}

/// Why a campaign was not created or not shown.
#[derive(Clone, Copy, Debug, PartialEq, Eq, Structural)]
pub enum CampaignError {
    /// The campaign would have no coupon types.
    NoCouponTypes,
    /// The probabilities sum to more than one; `total` is their sum in
    /// millionths.
    ProbabilityExceedsOne { total: u128 },
    /// A quota is negative.
    NegativeQuota,
    /// No coupon type belongs to the campaign, which is all that shows
    /// whether it exists.
    NotFound { campaign_id: i32 },
    /// The durable store failed.
    Internal,
}

/// The sum of the probabilities, in millionths.
pub open spec fn probability_total(types: Seq<CreateCampaignPayloadCouponType>) -> nat
    decreases types.len(),
{
    if types.len() == 0 {
        0
    } else {
        probability_total(types.drop_last()) + types.last().probability as nat
    }
}

/// Whether a quota is unlimited or not negative.
pub open spec fn quota_ok(quota: Option<i32>) -> bool {
    quota matches Some(q) ==> q >= 0
}

/// Whether no quota of any of the coupon types is negative.
pub open spec fn quotas_ok(types: Seq<CreateCampaignPayloadCouponType>) -> bool {
    forall|i: int|
        0 <= i < types.len() ==> quota_ok(#[trigger] types[i].total_quota) && quota_ok(
            types[i].daily_quota,
        )
}

/// What `validate` answers: the first of the rules that the coupon types
/// break, or nothing.
pub open spec fn verdict(types: Seq<CreateCampaignPayloadCouponType>) -> Result<
    (),
    CampaignError,
> {
    if types.len() == 0 {
        Err(CampaignError::NoCouponTypes)
    } else if probability_total(types) > MILLION {
        Err(CampaignError::ProbabilityExceedsOne { total: probability_total(types) as u128 })
    } else if !quotas_ok(types) {
        Err(CampaignError::NegativeQuota)
    } else {
        Ok(())
    }
}

/// The sum of the probabilities is at most as many times the largest value
/// that one probability can hold.
pub proof fn lemma_probability_total_bound(types: Seq<CreateCampaignPayloadCouponType>)
    ensures
        probability_total(types) <= types.len() * u32::MAX,
    decreases types.len(),
{
    if types.len() > 0 {
        lemma_probability_total_bound(types.drop_last());
        assert((types.len() - 1) * u32::MAX + u32::MAX == types.len() * u32::MAX)
            by (nonlinear_arith);
    }
}

/// The sum of the probabilities of a campaign to be created, in millionths.
pub fn sum_probabilities(payload: &CreateCampaignPayload) -> (r: u128)
    ensures
        r == probability_total(payload.coupon_types@),
{
    let types = &payload.coupon_types;
    let mut sum: u128 = 0;
    let mut i: usize = 0;
    while i < types.len()
        invariant
            i <= types.len(),
            sum == probability_total(types@.subrange(0, i as int)),
        decreases types.len() - i,
    {
        proof {
            let next = types@.subrange(0, i + 1);
            assert(next.drop_last() =~= types@.subrange(0, i as int));
            assert(next.last() == types@[i as int]);
            lemma_probability_total_bound(types@.subrange(0, i as int));
            assert(i * u32::MAX <= usize::MAX * u32::MAX) by (nonlinear_arith)
                requires
                    i <= usize::MAX,
            ;
        }
        sum = sum + types[i].probability as u128;
        i += 1;
    }
    assert(types@.subrange(0, types.len() as int) =~= types@);
    sum
}

/// Holds a campaign to be created to the rules: it has a coupon type, its
/// probabilities sum to at most one, where a sum of one is allowed, and no
/// quota is negative.
pub fn validate(payload: &CreateCampaignPayload) -> (r: Result<(), CampaignError>)
    ensures
        r == verdict(payload.coupon_types@),
{
    let types = &payload.coupon_types;
    if types.len() == 0 {
        return Err(CampaignError::NoCouponTypes);
    }
    let total = sum_probabilities(payload);
    if total > MILLION as u128 {
        return Err(CampaignError::ProbabilityExceedsOne { total });
    }
    let mut i: usize = 0;
    while i < types.len()
        invariant
            i <= types.len(),
            types@ == payload.coupon_types@,
            types.len() > 0,
            probability_total(types@) <= MILLION,
            forall|j: int|
                0 <= j < i ==> quota_ok(#[trigger] types@[j].total_quota) && quota_ok(
                    types@[j].daily_quota,
                ),
        decreases types.len() - i,
    {
        let total_ok = match types[i].total_quota {
            Some(q) => q >= 0,
            None => true,
        };
        let daily_ok = match types[i].daily_quota {
            Some(q) => q >= 0,
            None => true,
        };
        if !total_ok || !daily_ok {
            assert(!(quota_ok(types@[i as int].total_quota) && quota_ok(
                types@[i as int].daily_quota,
            )));
            return Err(CampaignError::NegativeQuota);
        }
        i += 1;
    }
    Ok(())
}

/// What a campaign shows of the coupon type `row`.
pub open spec fn shown(row: CampaignCouponType, shown: GetCampaignResultCouponType) -> bool {
    &&& shown.description@ == row.description@
    &&& shown.probability == row.probability
    &&& shown.total_quota == row.total_quota
    &&& shown.daily_quota == row.daily_quota
    &&& shown.current_quota == row.current_quota
    &&& shown.current_daily_quota == row.current_daily_quota
}

/// What a campaign shows, given the coupon types that the durable store
/// holds for it: each of them in order, or `NotFound` where there is none.
pub fn campaign_result(campaign_id: i32, rows: &Vec<CampaignCouponType>) -> (r: Result<
    Vec<GetCampaignResultCouponType>,
    CampaignError,
>)
    ensures
        rows.len() == 0 ==> r == Err::<Vec<GetCampaignResultCouponType>, CampaignError>(
            CampaignError::NotFound { campaign_id },
        ),
        rows.len() > 0 ==> r is Ok && r->Ok_0.len() == rows.len() && forall|i: int|
            0 <= i < rows.len() ==> shown(rows@[i], #[trigger] r->Ok_0@[i]),
{
    if rows.len() == 0 {
        return Err(CampaignError::NotFound { campaign_id });
    }
    let mut out: Vec<GetCampaignResultCouponType> = Vec::new();
    let mut i: usize = 0;
    while i < rows.len()
        invariant
            i <= rows.len(),
            out@.len() == i,
            forall|j: int| 0 <= j < i ==> shown(rows@[j], #[trigger] out@[j]),
        decreases rows.len() - i,
    {
        let row = &rows[i];
        out.push(
            GetCampaignResultCouponType {
                description: row.description.clone(),
                probability: row.probability,
                total_quota: row.total_quota,
                daily_quota: row.daily_quota,
                current_quota: row.current_quota,
                current_daily_quota: row.current_daily_quota,
            },
        );
        i += 1;
    }
    Ok(out)
}

impl CampaignError {
    /// The words of the error.
    pub open spec fn message_text(self) -> Seq<char> {
        match self {
            CampaignError::NoCouponTypes => "Campaign must have at least one coupon type"@,
            CampaignError::ProbabilityExceedsOne { total } => {
                "Sum of probabilities of coupon types in campaign exceed 1: "@ + probability_text(
                    total as nat,
                )
            },
            CampaignError::NegativeQuota => "Quota of a coupon type must not be negative"@,
            CampaignError::NotFound { campaign_id } => {
                "Campaign ID "@ + int_text(campaign_id as int)
                    + " doesn't exist, or campaign doesn't have any coupon types"@
            },
            CampaignError::Internal => "The campaign could not be stored"@,
        }
    }

    /// The words of the error.
    pub fn message(&self) -> (r: String)
        ensures
            r@ == self.message_text(),
    {
        match *self {
            CampaignError::NoCouponTypes => String::from_str(
                "Campaign must have at least one coupon type",
            ),
            CampaignError::ProbabilityExceedsOne { total } => {
                let mut out = String::from_str(
                    "Sum of probabilities of coupon types in campaign exceed 1: ",
                );
                push_probability(&mut out, total);
                out
            },
            CampaignError::NegativeQuota => String::from_str(
                "Quota of a coupon type must not be negative",
            ),
            CampaignError::NotFound { campaign_id } => {
                let mut out = String::from_str("Campaign ID ");
                push_int(&mut out, campaign_id);
                out.append(" doesn't exist, or campaign doesn't have any coupon types");
                out
            },
            CampaignError::Internal => String::from_str("The campaign could not be stored"),
        }
    }

    /// The status that answers a request that ended in this error: not
    /// found for a campaign that does not show, a server error for a failed
    /// store, and a conflict for the others.
    pub fn status(&self) -> (r: u16)
        ensures
            r == if self is NotFound {
                404u16
            } else if self is Internal {
                500u16
            } else {
                409u16
            },
    {
        match self {
            CampaignError::NotFound { .. } => 404,
            CampaignError::Internal => 500,
            _ => 409,
        }
    }
}

} // verus!
