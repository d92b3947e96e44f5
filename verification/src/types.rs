//! The entities of the service and their mathematical views.

use vstd::prelude::*;

verus! {

/// One whole probability, counted in millionths.
pub const MILLION: u32 = 1_000_000;

/// A calendar day of the common era, as the server's UTC clock gives it.
#[derive(Clone, Copy, Debug, PartialEq, Eq, Structural)]
pub struct Date {
    pub year: u16,
    pub month: u8,
    pub day: u8,
}

impl Date {
    /// A four-digit year, a month of the year and a day that some month has.
    pub open spec fn wf(self) -> bool {
        &&& self.year <= 9999
        &&& 1 <= self.month <= 12
        &&& 1 <= self.day <= 31
    }

    /// The position of the day in the calendar's order: later days have larger
    /// ordinals, and two days with one ordinal are the same day.
    pub open spec fn ordinal(self) -> int {
        self.year * 65536 + self.month * 256 + self.day
    }

    /// Builds a day from calendar fields, if they name one that `wf` admits.
    pub fn new(year: i32, month: u32, day: u32) -> (r: Option<Date>)
        ensures
            r.is_some() <==> (0 <= year <= 9999 && 1 <= month <= 12 && 1 <= day <= 31),
            r matches Some(d) ==> d.wf() && d.year == year && d.month == month && d.day == day,
    {
        if 0 <= year && year <= 9999 && 1 <= month && month <= 12 && 1 <= day && day <= 31 {
            Some(Date { year: year as u16, month: month as u8, day: day as u8 })
        } else {
            None
        }
    }

    /// Whether `self` is the same day as `other` or an earlier one.
    pub fn not_after(&self, other: &Date) -> (r: bool)
        ensures
            r == (self.ordinal() <= other.ordinal()),
    {
        if self.year != other.year {
            self.year < other.year
        } else if self.month != other.month {
            self.month < other.month
        } else {
            self.day <= other.day
        }
    }
}

/// Two days with the same ordinal are equal.
pub proof fn date_ordinal_injective(a: Date, b: Date)
    requires
        a.ordinal() == b.ordinal(),
    ensures
        a == b,
{
}

/// A registered user.
#[derive(Clone, Debug, PartialEq, Eq)]
pub struct User {
    pub id: i32,
    pub phone: String,
}

/// What a `User` is, as plain values.
pub struct UserView {
    pub id: i32,
    pub phone: Seq<char>,
}

impl View for User {
    type V = UserView;

    open spec fn view(&self) -> UserView {
        UserView { id: self.id, phone: self.phone@ }
    }
}

/// A campaign: a set of coupon types that users draw from once a day.
#[derive(Clone, Copy, Debug, PartialEq, Eq, Structural)]
pub struct Campaign {
    pub id: i32,
}

/// A weighted category of a campaign, with its quotas and their counters.
/// The probability is a count of millionths; a quota of `None` is unlimited.
#[derive(Clone, Debug, PartialEq, Eq)]
pub struct CampaignCouponType {
    pub id: i32,
    pub campaign_id: i32,
    pub description: String,
    pub probability: u32,
    pub total_quota: Option<i32>,
    pub daily_quota: Option<i32>,
    pub current_quota: Option<i32>,
    pub current_daily_quota: Option<i32>,
    pub last_drawn_date: Option<Date>,
}

/// What a `CampaignCouponType` is, as plain values.
pub struct CouponTypeView {
    pub id: i32,
    pub campaign_id: i32,
    pub description: Seq<char>,
    pub probability: u32,
    pub total_quota: Option<i32>,
    pub daily_quota: Option<i32>,
    pub current_quota: Option<i32>,
    pub current_daily_quota: Option<i32>,
    pub last_drawn_date: Option<Date>,
}

impl View for CampaignCouponType {
    type V = CouponTypeView;

    open spec fn view(&self) -> CouponTypeView {
        CouponTypeView {
            id: self.id,
            campaign_id: self.campaign_id,
            description: self.description@,
            probability: self.probability,
            total_quota: self.total_quota,
            daily_quota: self.daily_quota,
            current_quota: self.current_quota,
            current_daily_quota: self.current_daily_quota,
            last_drawn_date: self.last_drawn_date,
        }
    }
}

impl CampaignCouponType {
    /// A copy with the same view.
    pub fn duplicate(&self) -> (r: CampaignCouponType)
        ensures
            r@ == self@,
    {
        CampaignCouponType {
            id: self.id,
            campaign_id: self.campaign_id,
            description: self.description.clone(),
            probability: self.probability,
            total_quota: self.total_quota,
            daily_quota: self.daily_quota,
            current_quota: self.current_quota,
            current_daily_quota: self.current_daily_quota,
            last_drawn_date: self.last_drawn_date,
        }
    }
}

/// One issued coupon, redeemable once.
#[derive(Clone, Debug, PartialEq, Eq)]
pub struct CampaignCoupon {
    pub id: i32,
    pub redeem_code: String,
    pub campaign_coupon_type_id: i32,
    pub redeemed: bool,
}

/// What a `CampaignCoupon` is, as plain values.
pub struct CouponView {
    pub id: i32,
    pub redeem_code: Seq<char>,
    pub campaign_coupon_type_id: i32,
    pub redeemed: bool,
}

impl View for CampaignCoupon {
    type V = CouponView;

    open spec fn view(&self) -> CouponView {
        CouponView {
            id: self.id,
            redeem_code: self.redeem_code@,
            campaign_coupon_type_id: self.campaign_coupon_type_id,
            redeemed: self.redeemed,
        }
    }
}

impl CampaignCoupon {
    /// A copy with the same view.
    pub fn duplicate(&self) -> (r: CampaignCoupon)
        ensures
            r@ == self@,
    {
        CampaignCoupon {
            id: self.id,
            redeem_code: self.redeem_code.clone(),
            campaign_coupon_type_id: self.campaign_coupon_type_id,
            redeemed: self.redeemed,
        }
    }
}

/// The record of one user's attempt at one campaign on one day, with the
/// coupon it gave, if any.
#[derive(Clone, Copy, Debug, PartialEq, Eq, Structural)]
pub struct Draw {
    pub id: i32,
    pub user_id: i32,
    pub campaign_id: i32,
    pub campaign_coupon_id: Option<i32>,
    pub date: Date,
}

/// The view of an optional coupon.
pub open spec fn coupon_option_view(c: Option<CampaignCoupon>) -> Option<CouponView> {
    match c {
        Some(c) => Some(c@),
        None => None,
    }
}

/// The views of a run of coupon types, in order.
pub open spec fn coupon_type_views(rows: Seq<CampaignCouponType>) -> Seq<CouponTypeView> {
    Seq::new(rows.len(), |i: int| rows[i]@)
}

} // verus!
