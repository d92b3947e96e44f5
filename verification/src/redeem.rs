//! Redemption: a coupon is redeemed at most once.

use vstd::prelude::*;
use crate::campaign::NewTypeView;
use crate::ledger::{with_blank_draw, with_campaign, with_redeemed, with_user, with_win, LedgerView};
use crate::types::{CampaignCoupon, Date};

verus! {

/// Why a coupon was not redeemed.
#[derive(Clone, Copy, Debug, PartialEq, Eq, Structural)]
pub enum RedeemError {
    /// The coupon does not exist or was redeemed before.
    Conflict,
}

impl RedeemError {
    /// The words of the error.
    pub open spec fn message_text(self) -> Seq<char> {
        "Coupon not found, or it has already been redeemed"@
    }

    /// The words of the error.
    pub fn message(&self) -> (r: String)
        ensures
            r@ == self.message_text(),
    {
        String::from_str("Coupon not found, or it has already been redeemed")
    }

    /// The status that answers a request that ended in this error.
    pub fn status(&self) -> (r: u16)
        ensures
            r == 409,
    {
        409
    }
}

/// Whether the coupon can be redeemed: it exists and was not redeemed.
pub open spec fn can_redeem(l: LedgerView, coupon_id: i32) -> bool {
    l.coupon_exists(coupon_id) && !l.coupon_row(coupon_id).redeemed
}

/// What a redemption answers, given the row that the update of the
/// unredeemed coupon returned, if it returned one.
pub fn redeem_outcome(updated: Option<CampaignCoupon>) -> (r: Result<CampaignCoupon, RedeemError>)
    ensures
        match updated {
            Some(coupon) => r == Ok::<CampaignCoupon, RedeemError>(coupon),
            None => r == Err::<CampaignCoupon, RedeemError>(RedeemError::Conflict),
        },
{
    match updated {
        Some(coupon) => Ok(coupon),
        None => Err(RedeemError::Conflict),
    }
}

/// A coupon that was redeemed cannot be redeemed again, at once or after
/// anything else that the service does: a redeemed coupon stays redeemed.
pub proof fn redeemed_at_most_once(
    l: LedgerView,
    coupon_id: i32,
    other: i32,
    phone: Seq<char>,
    new: Seq<NewTypeView>,
    user_id: i32,
    campaign_id: i32,
    day: Date,
    type_id: i32,
    code: Seq<char>,
)
    requires
        l.coupon_exists(coupon_id),
        l.coupon_exists(other),
    ensures
        !can_redeem(with_redeemed(l, coupon_id), coupon_id),
        !can_redeem(l, coupon_id) ==> {
            &&& !can_redeem(with_redeemed(l, other), coupon_id)
            &&& !can_redeem(with_user(l, phone), coupon_id)
            &&& !can_redeem(with_campaign(l, new), coupon_id)
            &&& !can_redeem(with_blank_draw(l, user_id, campaign_id, day), coupon_id)
            &&& !can_redeem(with_win(l, user_id, campaign_id, day, type_id, code), coupon_id)
        },
{
}

} // verus!
