//! The durable state held in memory: the tables as vectors, each operation
//! one transaction of the model in `ledger`.

use vstd::prelude::*;
use crate::campaign::{
    campaign_result, new_type_views, probability_total, quotas_ok, validate, verdict,
    CampaignError, CreateCampaignPayload, CreateCampaignPayloadCouponType,
    GetCampaignResultCouponType,
};
use crate::ledger::{
    can_create, can_win, daily_wf, lemma_blank_draw_keeps_rules,
    lemma_campaign_keeps_rules, lemma_daily_kept_with_campaign, lemma_daily_kept_with_win,
    lemma_daily_kept_without_win, lemma_redeem_keeps_rules, lemma_user_keeps_rules,
    lemma_win_keeps_rules, new_weight, next_coupon, not_before_last, quota_available, table_limit,
    wf, fresh_type, fresh_types,
    with_blank_draw, with_campaign, with_redeemed, with_user, with_win, LedgerView, Span,
};
use crate::redeem::{can_redeem, RedeemError};
use crate::types::{
    coupon_type_views, Campaign, CampaignCoupon, CampaignCouponType, Date, Draw, User,
};

verus! {

/// The durable state in memory.
pub struct Ledger {
    users: Vec<User>,
    spans: Vec<(usize, usize)>,
    types: Vec<CampaignCouponType>,
    coupons: Vec<CampaignCoupon>,
    draws: Vec<Draw>,
}

/// Why an insert was refused.
#[derive(Clone, Copy, Debug, PartialEq, Eq, Structural)]
pub enum Refusal {
    /// The row would be a second one of its kind: a second draw of the user
    /// from the campaign on the day, a second coupon with the redeem code,
    /// or a second user with the phone number.
    Duplicate,
    /// The row names what does not exist, a quota does not allow it, or the
    /// table is full.
    Failed,
}

impl View for Ledger {
    type V = LedgerView;

    closed spec fn view(&self) -> LedgerView {
        LedgerView {
            users: Seq::new(self.users@.len(), |i: int| self.users@[i]@),
            campaigns: Seq::new(
                self.spans@.len(),
                |i: int| Span { first: self.spans@[i].0 as int, count: self.spans@[i].1 as int },
            ),
            types: coupon_type_views(self.types@),
            coupons: Seq::new(self.coupons@.len(), |i: int| self.coupons@[i]@),
            draws: self.draws@,
        }
    }
}

impl Ledger {
    /// The state before anything was stored.
    pub fn new() -> (r: Ledger)
        ensures
            wf(r@),
            daily_wf(r@),
            r@.users.len() == 0,
            r@.campaigns.len() == 0,
            r@.types.len() == 0,
            r@.coupons.len() == 0,
            r@.draws.len() == 0,
    {
        Ledger {
            users: Vec::new(),
            spans: Vec::new(),
            types: Vec::new(),
            coupons: Vec::new(),
            draws: Vec::new(),
        }
    }

    /// Whether the user exists.
    pub fn user_exists(&self, id: i32) -> (r: bool)
        ensures
            r == self@.user_exists(id),
    {
        1 <= id && id as usize <= self.users.len()
    }

    /// Whether the campaign exists.
    pub fn campaign_exists(&self, id: i32) -> (r: bool)
        ensures
            r == self@.campaign_exists(id),
    {
        1 <= id && id as usize <= self.spans.len()
    }

    /// Whether the user has a draw for the campaign on the day.
    pub fn has_draw(&self, user_id: i32, campaign_id: i32, day: Date) -> (r: bool)
        ensures
            r == self@.has_draw(user_id, campaign_id, day),
    {
        let mut i: usize = 0;
        while i < self.draws.len()
            invariant
                i <= self.draws.len(),
                forall|j: int|
                    0 <= j < i ==> !((#[trigger] self@.draws[j]).user_id == user_id
                        && self@.draws[j].campaign_id == campaign_id && self@.draws[j].date
                        == day),
            decreases self.draws.len() - i,
        {
            let d = &self.draws[i];
            if d.user_id == user_id && d.campaign_id == campaign_id && d.date == day {
                assert(self@.draws[i as int] == *d);
                return true;
            }
            i += 1;
        }
        false
    }

    /// Whether some user has the phone number.
    pub fn phone_taken(&self, phone: &String) -> (r: bool)
        ensures
            r == self@.phone_taken(phone@),
    {
        let mut i: usize = 0;
        while i < self.users.len()
            invariant
                i <= self.users.len(),
                forall|j: int| 0 <= j < i ==> (#[trigger] self@.users[j]).phone != phone@,
            decreases self.users.len() - i,
        {
            if self.users[i].phone == *phone {
                assert(self@.users[i as int].phone == phone@);
                return true;
            }
            i += 1;
        }
        false
    }

    /// Whether some coupon has the redeem code.
    pub fn code_taken(&self, code: &String) -> (r: bool)
        ensures
            r == self@.code_taken(code@),
    {
        let mut i: usize = 0;
        while i < self.coupons.len()
            invariant
                i <= self.coupons.len(),
                forall|j: int| 0 <= j < i ==> (#[trigger] self@.coupons[j]).redeem_code != code@,
            decreases self.coupons.len() - i,
        {
            if self.coupons[i].redeem_code == *code {
                assert(self@.coupons[i as int].redeem_code == code@);
                return true;
            }
            i += 1;
        }
        false
    }

    /// Stores a user under the next id. The insert is refused as a duplicate
    /// where the phone number is taken, and fails where the table is full.
    pub fn add_user(&mut self, phone: String) -> (r: Result<User, Refusal>)
        requires
            wf(old(self)@),
        ensures
            wf(final(self)@),
            daily_wf(old(self)@) ==> daily_wf(final(self)@),
            match r {
                Ok(user) => !old(self)@.phone_taken(phone@) && final(self)@ == with_user(
                    old(self)@,
                    phone@,
                ) && user@ == final(self)@.users.last(),
                Err(Refusal::Duplicate) => old(self)@.phone_taken(phone@) && final(self)@ == old(
                    self,
                )@,
                Err(Refusal::Failed) => !old(self)@.phone_taken(phone@) && old(self)@.users.len()
                    == table_limit() && final(self)@ == old(self)@,
            },
    {
        if self.phone_taken(&phone) {
            return Err(Refusal::Duplicate);
        }
        if self.users.len() >= i32::MAX as usize {
            return Err(Refusal::Failed);
        }
        let id = (self.users.len() + 1) as i32;
        let user = User { id, phone: phone.clone() };
        self.users.push(User { id, phone });
        proof {
            let l = old(self)@;
            assert(self@.users =~= with_user(l, phone@).users);
            assert(self@.campaigns =~= l.campaigns);
            assert(self@.types =~= l.types);
            assert(self@.coupons =~= l.coupons);
            lemma_user_keeps_rules(l, phone@);
            if daily_wf(l) {
                lemma_daily_kept_without_win(l, self@);
            }
        }
        Ok(user)
    }
}

impl Ledger {
    /// The coupon types of a campaign, in the order of their ids; none for
    /// a campaign that does not exist.
    pub fn coupon_types_of(&self, campaign_id: i32) -> (r: Vec<CampaignCouponType>)
        requires
            wf(self@),
        ensures
            coupon_type_views(r@) == self@.types_of(campaign_id),
    {
        let mut rows: Vec<CampaignCouponType> = Vec::new();
        if !self.campaign_exists(campaign_id) {
            assert(coupon_type_views(rows@) =~= self@.types_of(campaign_id));
            return rows;
        }
        let span = self.spans[(campaign_id - 1) as usize];
        proof {
            assert(crate::ledger::campaign_ok(self@, campaign_id - 1));
        }
        let mut i: usize = 0;
        while i < span.1
            invariant
                i <= span.1,
                span.0 + span.1 <= self.types.len(),
                rows@.len() == i,
                forall|j: int| 0 <= j < i ==> (#[trigger] rows@[j])@ == self.types@[span.0 + j]@,
            decreases span.1 - i,
        {
            rows.push(self.types[span.0 + i].duplicate());
            i += 1;
        }
        assert(coupon_type_views(rows@) =~= self@.types_of(campaign_id));
        rows
    }

    /// What the campaign shows of its coupon types, or `NotFound` where it
    /// has none.
    pub fn get_campaign(&self, campaign_id: i32) -> (r: Result<
        Vec<GetCampaignResultCouponType>,
        CampaignError,
    >)
        requires
            wf(self@),
        ensures
            !self@.campaign_exists(campaign_id) ==> r == Err::<
                Vec<GetCampaignResultCouponType>,
                CampaignError,
            >(CampaignError::NotFound { campaign_id }),
            self@.campaign_exists(campaign_id) ==> r is Ok && r->Ok_0.len()
                == self@.types_of(campaign_id).len() && forall|i: int|
                0 <= i < r->Ok_0.len() ==> {
                    let row = self@.types_of(campaign_id)[i];
                    let shown = #[trigger] r->Ok_0@[i];
                    &&& shown.description@ == row.description
                    &&& shown.probability == row.probability
                    &&& shown.total_quota == row.total_quota
                    &&& shown.daily_quota == row.daily_quota
                    &&& shown.current_quota == row.current_quota
                    &&& shown.current_daily_quota == row.current_daily_quota
                },
    {
        let rows = self.coupon_types_of(campaign_id);
        proof {
            if self@.campaign_exists(campaign_id) {
                assert(crate::ledger::campaign_ok(self@, campaign_id - 1));
            }
            assert(coupon_type_views(rows@).len() == rows@.len());
        }
        let r = campaign_result(campaign_id, &rows);
        proof {
            if r is Ok {
                let shown = r->Ok_0;
                assert forall|i: int| 0 <= i < shown.len() implies {
                    let row = self@.types_of(campaign_id)[i];
                    let s = #[trigger] shown@[i];
                    &&& s.description@ == row.description
                    &&& s.probability == row.probability
                    &&& s.total_quota == row.total_quota
                    &&& s.daily_quota == row.daily_quota
                    &&& s.current_quota == row.current_quota
                    &&& s.current_daily_quota == row.current_daily_quota
                } by {
                    assert(coupon_type_views(rows@)[i] == rows@[i]@);
                    assert(crate::campaign::shown(rows@[i], shown@[i]));
                }
            }
        }
        r
    }

    /// Whether one can be taken from the quotas of the coupon type on the
    /// day. Of a coupon type that does not exist nothing can be taken.
    pub fn quota_available(&self, type_id: i32, day: Date) -> (r: bool)
        ensures
            r == (self@.type_exists(type_id) && quota_available(self@.type_row(type_id), day)),
    {
        if !(1 <= type_id && type_id as usize <= self.types.len()) {
            return false;
        }
        let t = &self.types[(type_id - 1) as usize];
        assert(self@.type_row(type_id) == t@);
        let overall = match t.current_quota {
            Some(c) => c >= 1,
            None => true,
        };
        let rolls = match t.last_drawn_date {
            Some(last) => last != day,
            None => true,
        };
        let counter = if rolls {
            t.daily_quota
        } else {
            t.current_daily_quota
        };
        let daily = match counter {
            Some(c) => c >= 1,
            None => true,
        };
        overall && daily
    }

    /// Stores a draw of the user from the campaign on the day that gave no
    /// coupon. The insert is refused as a duplicate where the user has a
    /// draw for the campaign on the day, and fails where the user or the
    /// campaign does not exist or the table is full.
    pub fn insert_blank_draw(&mut self, user_id: i32, campaign_id: i32, day: Date) -> (r: Result<
        (),
        Refusal,
    >)
        requires
            wf(old(self)@),
        ensures
            wf(final(self)@),
            daily_wf(old(self)@) ==> daily_wf(final(self)@),
            r is Err ==> final(self)@ == old(self)@,
            r is Ok ==> final(self)@ == with_blank_draw(old(self)@, user_id, campaign_id, day),
            r == match (
                old(self)@.user_exists(user_id) && old(self)@.campaign_exists(campaign_id),
                old(self)@.has_draw(user_id, campaign_id, day),
                old(self)@.draws.len() < table_limit(),
            ) {
                (false, _, _) => Err::<(), Refusal>(Refusal::Failed),
                (true, true, _) => Err(Refusal::Duplicate),
                (true, false, false) => Err(Refusal::Failed),
                (true, false, true) => Ok(()),
            },
    {
        if !self.user_exists(user_id) || !self.campaign_exists(campaign_id) {
            return Err(Refusal::Failed);
        }
        if self.has_draw(user_id, campaign_id, day) {
            return Err(Refusal::Duplicate);
        }
        if self.draws.len() >= i32::MAX as usize {
            return Err(Refusal::Failed);
        }
        let id = (self.draws.len() + 1) as i32;
        self.draws.push(Draw { id, user_id, campaign_id, campaign_coupon_id: None, date: day });
        proof {
            let l = old(self)@;
            let n = with_blank_draw(l, user_id, campaign_id, day);
            assert(self@.users =~= n.users);
            assert(self@.campaigns =~= n.campaigns);
            assert(self@.types =~= n.types);
            assert(self@.coupons =~= n.coupons);
            assert(self@.draws =~= n.draws);
            lemma_blank_draw_keeps_rules(l, user_id, campaign_id, day);
            if daily_wf(l) {
                lemma_daily_kept_without_win(l, n);
            }
        }
        Ok(())
    }

    /// Redeems the coupon if it exists and was not redeemed, and gives it
    /// back as it then is.
    pub fn redeem(&mut self, coupon_id: i32) -> (r: Result<CampaignCoupon, RedeemError>)
        requires
            wf(old(self)@),
        ensures
            wf(final(self)@),
            daily_wf(old(self)@) ==> daily_wf(final(self)@),
            r is Ok <==> can_redeem(old(self)@, coupon_id),
            match r {
                Ok(coupon) => final(self)@ == with_redeemed(old(self)@, coupon_id) && coupon@
                    == final(self)@.coupon_row(coupon_id) && coupon.redeemed,
                Err(_) => final(self)@ == old(self)@,
            },
    {
        if !(1 <= coupon_id && coupon_id as usize <= self.coupons.len()) {
            return Err(RedeemError::Conflict);
        }
        let at = (coupon_id - 1) as usize;
        assert(self@.coupon_row(coupon_id) == self.coupons@[at as int]@);
        if self.coupons[at].redeemed {
            return Err(RedeemError::Conflict);
        }
        let mut coupon = self.coupons[at].duplicate();
        coupon.redeemed = true;
        let answer = coupon.duplicate();
        self.coupons.set(at, coupon);
        proof {
            let l = old(self)@;
            let n = with_redeemed(l, coupon_id);
            assert(self@.users =~= n.users);
            assert(self@.campaigns =~= n.campaigns);
            assert(self@.types =~= n.types);
            assert(self@.coupons =~= n.coupons);
            lemma_redeem_keeps_rules(l, coupon_id);
            if daily_wf(l) {
                assert forall|j: int| 0 <= j < l.draws.len() implies (#[trigger] n.draws[j])
                    == l.draws[j] && n.drawn_type(n.draws[j]) == l.drawn_type(l.draws[j]) by {
                    assert(crate::ledger::draw_ok(l, j));
                }
                lemma_daily_kept_without_win(l, n);
            }
        }
        Ok(answer)
    }
}

/// The probabilities of a campaign to be created sum to the same, counted
/// on the coupon types or on their views.
pub proof fn lemma_new_weight(types: Seq<CreateCampaignPayloadCouponType>)
    ensures
        new_weight(new_type_views(types)) == probability_total(types),
    decreases types.len(),
{
    if types.len() > 0 {
        lemma_new_weight(types.drop_last());
        assert(new_type_views(types).drop_last() =~= new_type_views(types.drop_last()));
    }
}

/// A campaign that `validate` accepts may be created, and no other.
pub proof fn lemma_verdict(types: Seq<CreateCampaignPayloadCouponType>)
    ensures
        verdict(types) is Ok <==> can_create(new_type_views(types)),
{
    lemma_new_weight(types);
    let new = new_type_views(types);
    if quotas_ok(types) {
        assert forall|k: int| 0 <= k < new.len() implies (
        (#[trigger] new[k]).total_quota matches Some(q) ==> q >= 0) && (
        new[k].daily_quota matches Some(q) ==> q >= 0) by {
            assert(crate::campaign::quota_ok(types[k].total_quota));
        }
    } else {
        let k = choose|k: int|
            0 <= k < types.len() && !(crate::campaign::quota_ok(#[trigger] types[k].total_quota)
                && crate::campaign::quota_ok(types[k].daily_quota));
        assert(new[k].total_quota == types[k].total_quota);
    }
}

impl Ledger {
    /// Creates a campaign of the given coupon types if `validate` accepts
    /// them: the campaign gets the next id, and each coupon type is stored
    /// with the whole of its quotas left. Nothing is stored otherwise. The
    /// store fails where a table is full.
    pub fn create_campaign(&mut self, payload: &CreateCampaignPayload) -> (r: Result<
        Campaign,
        CampaignError,
    >)
        requires
            wf(old(self)@),
        ensures
            wf(final(self)@),
            daily_wf(old(self)@) ==> daily_wf(final(self)@),
            match r {
                Ok(campaign) => verdict(payload.coupon_types@) is Ok && final(self)@
                    == with_campaign(old(self)@, new_type_views(payload.coupon_types@))
                    && campaign.id == final(self)@.campaigns.len(),
                Err(e) => final(self)@ == old(self)@ && match verdict(payload.coupon_types@) {
                    Err(v) => e == v,
                    Ok(_) => e == CampaignError::Internal && (old(self)@.campaigns.len()
                        == table_limit() || old(self)@.types.len() + payload.coupon_types@.len()
                        > table_limit()),
                },
            },
    {
        match validate(payload) {
            Err(e) => {
                return Err(e);
            },
            Ok(_) => {},
        }
        let new = &payload.coupon_types;
        let limit = i32::MAX as usize;
        if self.spans.len() >= limit || self.types.len() > limit || new.len() > limit
            - self.types.len() {
            return Err(CampaignError::Internal);
        }
        let first = self.types.len();
        let campaign_id = (self.spans.len() + 1) as i32;
        let ghost before = self@;
        let mut k: usize = 0;
        while k < new.len()
            invariant
                k <= new.len(),
                first + new.len() <= i32::MAX,
                new@ == payload.coupon_types@,
                self.types@.len() == first + k,
                first == before.types.len(),
                campaign_id == before.campaigns.len() + 1,
                self.users == old(self).users,
                self.spans == old(self).spans,
                self.coupons == old(self).coupons,
                self.draws == old(self).draws,
                forall|j: int| 0 <= j < first ==> (#[trigger] self.types@[j])@ == before.types[j],
                forall|j: int|
                    0 <= j < k ==> (#[trigger] self.types@[first + j])@ == fresh_type(
                        before,
                        j,
                        new@[j]@,
                    ),
            decreases new.len() - k,
        {
            let t = &new[k];
            self.types.push(
                CampaignCouponType {
                    id: (first + k + 1) as i32,
                    campaign_id,
                    description: t.description.clone(),
                    probability: t.probability,
                    total_quota: t.total_quota,
                    daily_quota: t.daily_quota,
                    current_quota: t.total_quota,
                    current_daily_quota: t.daily_quota,
                    last_drawn_date: None,
                },
            );
            k += 1;
        }
        self.spans.push((first, new.len()));
        proof {
            let l = old(self)@;
            let views = new_type_views(payload.coupon_types@);
            let n = with_campaign(l, views);
            lemma_verdict(payload.coupon_types@);
            assert(self@.users =~= n.users);
            assert(self@.campaigns =~= n.campaigns);
            assert(self@.coupons =~= n.coupons);
            assert(self@.types =~= n.types) by {
                assert forall|j: int| 0 <= j < self@.types.len() implies self@.types[j]
                    == n.types[j] by {
                    if j >= first {
                        assert(self.types@[first + (j - first)]@ == fresh_type(
                            l,
                            j - first,
                            new@[j - first]@,
                        ));
                        assert(fresh_types(l, views)[j - first] == fresh_type(
                            l,
                            j - first,
                            views[j - first],
                        ));
                    }
                }
            }
            lemma_campaign_keeps_rules(l, views);
            if daily_wf(l) {
                lemma_daily_kept_with_campaign(l, views);
            }
        }
        Ok(Campaign { id: campaign_id })
    }

    /// Stores what a draw that gives a coupon stores, all or nothing: one is
    /// taken from the quotas of the coupon type, a coupon of the type is
    /// inserted under the next id with the given redeem code, unredeemed,
    /// and so is the draw that holds it. The coupon is given back. It is
    /// refused as a duplicate where the user has a draw for the campaign on
    /// the day or the redeem code is taken, and fails where the user, the
    /// campaign or the coupon type does not exist, the type is of another
    /// campaign, its quotas allow no coupon, or a table is full.
    pub fn insert_win(
        &mut self,
        user_id: i32,
        campaign_id: i32,
        day: Date,
        type_id: i32,
        code: String,
    ) -> (r: Result<CampaignCoupon, Refusal>)
        requires
            wf(old(self)@),
        ensures
            wf(final(self)@),
            daily_wf(old(self)@) && (old(self)@.type_exists(type_id) ==> not_before_last(
                old(self)@.type_row(type_id),
                day,
            )) ==> daily_wf(final(self)@),
            r is Ok <==> can_win(old(self)@, user_id, campaign_id, day, type_id, code@),
            match r {
                Ok(coupon) => final(self)@ == with_win(
                    old(self)@,
                    user_id,
                    campaign_id,
                    day,
                    type_id,
                    code@,
                ) && coupon@ == next_coupon(old(self)@, type_id, code@),
                Err(refusal) => final(self)@ == old(self)@ && (refusal == Refusal::Duplicate
                    <==> old(self)@.user_exists(user_id) && old(self)@.campaign_exists(
                    campaign_id,
                ) && (old(self)@.has_draw(user_id, campaign_id, day) || old(self)@.code_taken(
                    code@,
                ))),
            },
    {
        if !self.user_exists(user_id) || !self.campaign_exists(campaign_id) {
            return Err(Refusal::Failed);
        }
        if self.has_draw(user_id, campaign_id, day) || self.code_taken(&code) {
            return Err(Refusal::Duplicate);
        }
        if !self.quota_available(type_id, day) {
            return Err(Refusal::Failed);
        }
        let at = (type_id - 1) as usize;
        assert(self@.type_row(type_id) == self.types@[at as int]@);
        if self.types[at].campaign_id != campaign_id {
            return Err(Refusal::Failed);
        }
        let limit = i32::MAX as usize;
        if self.coupons.len() >= limit || self.draws.len() >= limit {
            return Err(Refusal::Failed);
        }
        let mut row = self.types[at].duplicate();
        let rolls = match row.last_drawn_date {
            Some(last) => last != day,
            None => true,
        };
        let counter = if rolls {
            row.daily_quota
        } else {
            row.current_daily_quota
        };
        row.current_daily_quota = match counter {
            Some(c) => Some(c - 1),
            None => None,
        };
        row.current_quota = match row.current_quota {
            Some(c) => Some(c - 1),
            None => None,
        };
        row.last_drawn_date = Some(day);
        self.types.set(at, row);
        let coupon_id = (self.coupons.len() + 1) as i32;
        let coupon = CampaignCoupon {
            id: coupon_id,
            redeem_code: code.clone(),
            campaign_coupon_type_id: type_id,
            redeemed: false,
        };
        self.coupons.push(
            CampaignCoupon {
                id: coupon_id,
                redeem_code: code,
                campaign_coupon_type_id: type_id,
                redeemed: false,
            },
        );
        let draw_id = (self.draws.len() + 1) as i32;
        self.draws.push(
            Draw {
                id: draw_id,
                user_id,
                campaign_id,
                campaign_coupon_id: Some(coupon_id),
                date: day,
            },
        );
        proof {
            let l = old(self)@;
            let n = with_win(l, user_id, campaign_id, day, type_id, code@);
            assert(self@.users =~= n.users);
            assert(self@.campaigns =~= n.campaigns);
            assert(self@.types =~= n.types);
            assert(self@.coupons =~= n.coupons);
            assert(self@.draws =~= n.draws);
            lemma_win_keeps_rules(l, user_id, campaign_id, day, type_id, code@);
            if daily_wf(l) && not_before_last(l.type_row(type_id), day) {
                lemma_daily_kept_with_win(l, user_id, campaign_id, day, type_id, code@);
            }
        }
        Ok(coupon)
    }

    /// The coupon with the id, if there is one.
    pub fn coupon(&self, coupon_id: i32) -> (r: Option<CampaignCoupon>)
        ensures
            r is Some <==> self@.coupon_exists(coupon_id),
            r matches Some(coupon) ==> coupon@ == self@.coupon_row(coupon_id),
    {
        if 1 <= coupon_id && coupon_id as usize <= self.coupons.len() {
            Some(self.coupons[(coupon_id - 1) as usize].duplicate())
        } else {
            None
        }
    }

    /// How many coupons there are.
    pub fn coupon_count(&self) -> (r: usize)
        ensures
            r == self@.coupons.len(),
    {
        self.coupons.len()
    }

    /// The draws, in the order in which they were made.
    pub fn draws(&self) -> (r: Vec<Draw>)
        ensures
            r@ == self@.draws,
    {
        let mut out: Vec<Draw> = Vec::new();
        let mut i: usize = 0;
        while i < self.draws.len()
            invariant
                i <= self.draws.len(),
                out@.len() == i,
                forall|j: int| 0 <= j < i ==> out@[j] == self.draws@[j],
            decreases self.draws.len() - i,
        {
            out.push(self.draws[i]);
            i += 1;
        }
        assert(out@ =~= self@.draws);
        out
    }
}

} // verus!
