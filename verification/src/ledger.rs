//! The durable state as a mathematical model: the five tables, the rules
//! that every state obeys, and the transitions that the service makes.

use vstd::prelude::*;
use crate::campaign::NewTypeView;
use crate::types::{CouponTypeView, CouponView, Date, Draw, UserView, MILLION};

verus! {

/// Where the coupon types of one campaign stand among all coupon types:
/// they were inserted together, so they stand together.
pub struct Span {
    pub first: int,
    pub count: int,
}

/// The durable state. The campaign with id `i + 1` is `campaigns[i]`, and so
/// for each table.
pub struct LedgerView {
    pub users: Seq<UserView>,
    pub campaigns: Seq<Span>,
    pub types: Seq<CouponTypeView>,
    pub coupons: Seq<CouponView>,
    pub draws: Seq<Draw>,
}

/// The most rows that a table holds, as ids are 32-bit and start at one.
pub open spec fn table_limit() -> int {
    i32::MAX as int
}

impl LedgerView {
    /// Whether a user has the id.
    pub open spec fn user_exists(self, id: i32) -> bool {
        1 <= id <= self.users.len()
    }

    /// Whether a campaign has the id.
    pub open spec fn campaign_exists(self, id: i32) -> bool {
        1 <= id <= self.campaigns.len()
    }

    /// Whether a coupon type has the id.
    pub open spec fn type_exists(self, id: i32) -> bool {
        1 <= id <= self.types.len()
    }

    /// Whether a coupon has the id.
    pub open spec fn coupon_exists(self, id: i32) -> bool {
        1 <= id <= self.coupons.len()
    }

    /// The coupon type with the given id.
    pub open spec fn type_row(self, id: i32) -> CouponTypeView {
        self.types[id - 1]
    }

    /// The coupon with the given id.
    pub open spec fn coupon_row(self, id: i32) -> CouponView {
        self.coupons[id - 1]
    }

    /// Whether the user has a draw for the campaign on the day.
    pub open spec fn has_draw(self, user_id: i32, campaign_id: i32, day: Date) -> bool {
        exists|i: int|
            0 <= i < self.draws.len() && (#[trigger] self.draws[i]).user_id == user_id
                && self.draws[i].campaign_id == campaign_id && self.draws[i].date == day
    }

    /// Whether some user has the phone number.
    pub open spec fn phone_taken(self, phone: Seq<char>) -> bool {
        exists|i: int| 0 <= i < self.users.len() && (#[trigger] self.users[i]).phone == phone
    }

    /// Whether some coupon has the redeem code.
    pub open spec fn code_taken(self, code: Seq<char>) -> bool {
        exists|i: int|
            0 <= i < self.coupons.len() && (#[trigger] self.coupons[i]).redeem_code == code
    }

    /// The coupon types of a campaign, in the order of their ids; none for a
    /// campaign that does not exist.
    pub open spec fn types_of(self, campaign_id: i32) -> Seq<CouponTypeView> {
        if self.campaign_exists(campaign_id) {
            let span = self.campaigns[campaign_id - 1];
            self.types.subrange(span.first, span.first + span.count)
        } else {
            Seq::empty()
        }
    }

    /// The coupon type of the coupon that a draw gave, if it gave one.
    pub open spec fn drawn_type(self, draw: Draw) -> Option<i32> {
        match draw.campaign_coupon_id {
            Some(coupon_id) => Some(self.coupon_row(coupon_id).campaign_coupon_type_id),
            None => None,
        }
    }
}

/// How many coupons of a coupon type there are.
pub open spec fn issued(coupons: Seq<CouponView>, type_id: i32) -> nat
    decreases coupons.len(),
{
    if coupons.len() == 0 {
        0
    } else {
        issued(coupons.drop_last(), type_id) + if coupons.last().campaign_coupon_type_id
            == type_id {
            1nat
        } else {
            0nat
        }
    }
}

/// Whether a draw gave a coupon of the coupon type on the day.
pub open spec fn gave(l: LedgerView, draw: Draw, type_id: i32, day: Date) -> bool {
    draw.date == day && l.drawn_type(draw) == Some(type_id)
}

/// How many of the first `upto` draws gave a coupon of the coupon type on
/// the day.
pub open spec fn given_on(l: LedgerView, upto: int, type_id: i32, day: Date) -> nat
    decreases upto,
{
    if upto <= 0 {
        0
    } else {
        given_on(l, upto - 1, type_id, day) + if gave(l, l.draws[upto - 1], type_id, day) {
            1nat
        } else {
            0nat
        }
    }
}

/// How many coupons of the coupon type were drawn on the day.
pub open spec fn drawn_on(l: LedgerView, type_id: i32, day: Date) -> nat {
    given_on(l, l.draws.len() as int, type_id, day)
}

/// The sum of the probabilities of coupon types, in millionths.
pub open spec fn weight_of(types: Seq<CouponTypeView>) -> nat
    decreases types.len(),
{
    if types.len() == 0 {
        0
    } else {
        weight_of(types.drop_last()) + types.last().probability as nat
    }
}

/// A counter goes with its quota: both unlimited, or the counter between
/// zero and the quota.
pub open spec fn counter_ok(quota: Option<i32>, counter: Option<i32>) -> bool {
    match quota {
        Some(q) => counter matches Some(c) && 0 <= c <= q,
        None => counter is None,
    }
}

/// The rules on one user.
pub open spec fn user_ok(l: LedgerView, i: int) -> bool {
    &&& l.users[i].id == i + 1
    &&& forall|j: int|
        0 <= j < l.users.len() && j != i ==> (#[trigger] l.users[j]).phone != l.users[i].phone
}

/// The rules on one campaign: its coupon types are there, they are at least
/// one, they follow those of the campaign before, and their probabilities
/// sum to at most one.
pub open spec fn campaign_ok(l: LedgerView, i: int) -> bool {
    let span = l.campaigns[i];
    &&& span.count >= 1
    &&& span.first >= 0
    &&& span.first == if i == 0 {
        0
    } else {
        l.campaigns[i - 1].first + l.campaigns[i - 1].count
    }
    &&& span.first + span.count <= l.types.len()
    &&& weight_of(l.types.subrange(span.first, span.first + span.count)) <= MILLION
}

/// The rules on one coupon type: it belongs to a campaign and stands among
/// that campaign's types, and each counter goes with its quota.
pub open spec fn type_ok(l: LedgerView, i: int) -> bool {
    let t = l.types[i];
    &&& t.id == i + 1
    &&& l.campaign_exists(t.campaign_id)
    &&& l.campaigns[t.campaign_id - 1].first <= i < l.campaigns[t.campaign_id - 1].first
        + l.campaigns[t.campaign_id - 1].count
    &&& t.probability <= MILLION
    &&& counter_ok(t.total_quota, t.current_quota)
    &&& counter_ok(t.daily_quota, t.current_daily_quota)
}

/// The overall quota of a coupon type is kept: what was taken from it is
/// the number of its coupons.
pub open spec fn quota_kept(l: LedgerView, i: int) -> bool {
    let t = l.types[i];
    t.total_quota matches Some(q) ==> q - t.current_quota.unwrap() == issued(l.coupons, t.id)
}

/// The rules on one coupon: its type exists, and no other coupon has its
/// redeem code.
pub open spec fn coupon_ok(l: LedgerView, i: int) -> bool {
    &&& l.coupons[i].id == i + 1
    &&& l.type_exists(l.coupons[i].campaign_coupon_type_id)
    &&& forall|j: int|
        0 <= j < l.coupons.len() && j != i ==> (#[trigger] l.coupons[j]).redeem_code
            != l.coupons[i].redeem_code
}

/// The rules on one draw: its user and campaign exist, its coupon, if any,
/// is of a type of its campaign, and no other draw is of the same user,
/// campaign and day.
pub open spec fn draw_ok(l: LedgerView, i: int) -> bool {
    let d = l.draws[i];
    &&& d.id == i + 1
    &&& l.user_exists(d.user_id)
    &&& l.campaign_exists(d.campaign_id)
    &&& d.campaign_coupon_id matches Some(coupon_id) ==> l.coupon_exists(coupon_id)
        && l.type_row(l.coupon_row(coupon_id).campaign_coupon_type_id).campaign_id
        == d.campaign_id
    &&& forall|j: int|
        0 <= j < l.draws.len() && j != i ==> !((#[trigger] l.draws[j]).user_id == d.user_id
            && l.draws[j].campaign_id == d.campaign_id && l.draws[j].date == d.date)
}

/// Where the coupon types of the campaigns end: after those of the last one.
pub open spec fn types_end(l: LedgerView) -> int {
    if l.campaigns.len() == 0 {
        0
    } else {
        l.campaigns.last().first + l.campaigns.last().count
    }
}

/// The rules that every durable state obeys.
pub open spec fn wf(l: LedgerView) -> bool {
    &&& types_end(l) == l.types.len()
    &&& l.users.len() <= table_limit()
    &&& l.campaigns.len() <= table_limit()
    &&& l.types.len() <= table_limit()
    &&& l.coupons.len() <= table_limit()
    &&& l.draws.len() <= table_limit()
    &&& forall|i: int| 0 <= i < l.users.len() ==> #[trigger] user_ok(l, i)
    &&& forall|i: int| 0 <= i < l.campaigns.len() ==> #[trigger] campaign_ok(l, i)
    &&& forall|i: int| 0 <= i < l.types.len() ==> #[trigger] type_ok(l, i)
    &&& forall|i: int| 0 <= i < l.types.len() ==> #[trigger] quota_kept(l, i)
    &&& forall|i: int| 0 <= i < l.coupons.len() ==> #[trigger] coupon_ok(l, i)
    &&& forall|i: int| 0 <= i < l.draws.len() ==> #[trigger] draw_ok(l, i)
}

/// The state with one more user.
pub open spec fn with_user(l: LedgerView, phone: Seq<char>) -> LedgerView {
    LedgerView { users: l.users.push(UserView { id: (l.users.len() + 1) as i32, phone }), ..l }
}

/// The draw that is inserted next.
pub open spec fn next_draw(
    l: LedgerView,
    user_id: i32,
    campaign_id: i32,
    day: Date,
    coupon_id: Option<i32>,
) -> Draw {
    Draw {
        id: (l.draws.len() + 1) as i32,
        user_id,
        campaign_id,
        campaign_coupon_id: coupon_id,
        date: day,
    }
}

/// The state with one more draw, which gave no coupon.
pub open spec fn with_blank_draw(
    l: LedgerView,
    user_id: i32,
    campaign_id: i32,
    day: Date,
) -> LedgerView {
    LedgerView { draws: l.draws.push(next_draw(l, user_id, campaign_id, day, None)), ..l }
}

/// One less, where there is a count.
pub open spec fn one_less(counter: Option<i32>) -> Option<i32> {
    match counter {
        Some(c) => Some((c - 1) as i32),
        None => None,
    }
}

/// Whether a counter allows to take one: it is unlimited, or at least one.
pub open spec fn has_one(counter: Option<i32>) -> bool {
    counter matches Some(c) ==> c >= 1
}

/// Whether the first draw of a new day is about to be made of the coupon
/// type: it was never drawn, or last on another day.
pub open spec fn rolls_over(t: CouponTypeView, day: Date) -> bool {
    t.last_drawn_date != Some(day)
}

/// Whether one can be taken from the overall quota and from the quota of
/// the day, where on the first draw of a new day the whole daily quota
/// counts.
pub open spec fn quota_available(t: CouponTypeView, day: Date) -> bool {
    &&& has_one(t.current_quota)
    &&& if rolls_over(t, day) {
        has_one(t.daily_quota)
    } else {
        has_one(t.current_daily_quota)
    }
}

/// The coupon type after one was taken from its quotas on the day.
pub open spec fn taken(t: CouponTypeView, day: Date) -> CouponTypeView {
    CouponTypeView {
        current_quota: one_less(t.current_quota),
        current_daily_quota: if rolls_over(t, day) {
            one_less(t.daily_quota)
        } else {
            one_less(t.current_daily_quota)
        },
        last_drawn_date: Some(day),
        ..t
    }
}

/// The coupon that is inserted next.
pub open spec fn next_coupon(l: LedgerView, type_id: i32, code: Seq<char>) -> CouponView {
    CouponView {
        id: (l.coupons.len() + 1) as i32,
        redeem_code: code,
        campaign_coupon_type_id: type_id,
        redeemed: false,
    }
}

/// The state after a draw that gave a coupon: one is taken from the quotas
/// of the coupon type, the coupon is there, and so is the draw that holds it.
pub open spec fn with_win(
    l: LedgerView,
    user_id: i32,
    campaign_id: i32,
    day: Date,
    type_id: i32,
    code: Seq<char>,
) -> LedgerView {
    LedgerView {
        types: l.types.update(type_id - 1, taken(l.type_row(type_id), day)),
        coupons: l.coupons.push(next_coupon(l, type_id, code)),
        draws: l.draws.push(
            next_draw(l, user_id, campaign_id, day, Some(next_coupon(l, type_id, code).id)),
        ),
        ..l
    }
}

/// The state after the coupon was redeemed.
pub open spec fn with_redeemed(l: LedgerView, coupon_id: i32) -> LedgerView {
    LedgerView {
        coupons: l.coupons.update(
            coupon_id - 1,
            CouponView { redeemed: true, ..l.coupon_row(coupon_id) },
        ),
        ..l
    }
}

/// One more coupon adds one to the coupons of its type and nothing to those
/// of another.
pub proof fn lemma_issued_push(coupons: Seq<CouponView>, c: CouponView, type_id: i32)
    ensures
        issued(coupons.push(c), type_id) == issued(coupons, type_id) + if c.campaign_coupon_type_id
            == type_id {
            1nat
        } else {
            0nat
        },
{
    assert(coupons.push(c).drop_last() =~= coupons);
}

/// The number of coupons of a type depends on the types of the coupons only.
pub proof fn lemma_issued_same(a: Seq<CouponView>, b: Seq<CouponView>, type_id: i32)
    requires
        a.len() == b.len(),
        forall|i: int|
            0 <= i < a.len() ==> (#[trigger] a[i]).campaign_coupon_type_id
                == b[i].campaign_coupon_type_id,
    ensures
        issued(a, type_id) == issued(b, type_id),
    decreases a.len(),
{
    if a.len() > 0 {
        lemma_issued_same(a.drop_last(), b.drop_last(), type_id);
    }
}

/// The count of draws that gave a coupon of a type on a day is the same in
/// two states whose draws, as far as counted, are the same and gave the same.
pub proof fn lemma_given_same(a: LedgerView, b: LedgerView, upto: int, type_id: i32, day: Date)
    requires
        upto <= a.draws.len(),
        upto <= b.draws.len(),
        forall|i: int|
            0 <= i < upto ==> (#[trigger] a.draws[i]) == b.draws[i] && a.drawn_type(a.draws[i])
                == b.drawn_type(b.draws[i]),
    ensures
        given_on(a, upto, type_id, day) == given_on(b, upto, type_id, day),
    decreases upto,
{
    if upto > 0 {
        lemma_given_same(a, b, upto - 1, type_id, day);
        assert(a.draws[upto - 1] == b.draws[upto - 1]);
    }
}

/// Where none of the draws gave a coupon of the type on the day, the count
/// of those that did is zero.
pub proof fn lemma_none_given(l: LedgerView, upto: int, type_id: i32, day: Date)
    requires
        upto <= l.draws.len(),
        forall|i: int| 0 <= i < upto ==> !gave(l, #[trigger] l.draws[i], type_id, day),
    ensures
        given_on(l, upto, type_id, day) == 0,
    decreases upto,
{
    if upto > 0 {
        lemma_none_given(l, upto - 1, type_id, day);
        assert(!gave(l, l.draws[upto - 1], type_id, day));
    }
}

/// A state that obeys the rules still does with one more user, where the
/// phone number is new and the table has room.
pub proof fn lemma_user_keeps_rules(l: LedgerView, phone: Seq<char>)
    requires
        wf(l),
        !l.phone_taken(phone),
        l.users.len() < table_limit(),
    ensures
        wf(with_user(l, phone)),
{
    let n = with_user(l, phone);
    assert forall|i: int| 0 <= i < n.users.len() implies #[trigger] user_ok(n, i) by {
        if i < l.users.len() {
            assert(user_ok(l, i));
        }
    }
    assert forall|i: int| 0 <= i < n.campaigns.len() implies #[trigger] campaign_ok(n, i) by {
        assert(campaign_ok(l, i));
    }
    assert forall|i: int| 0 <= i < n.types.len() implies #[trigger] type_ok(n, i) by {
        assert(type_ok(l, i));
    }
    assert forall|i: int| 0 <= i < n.types.len() implies #[trigger] quota_kept(n, i) by {
        assert(quota_kept(l, i));
    }
    assert forall|i: int| 0 <= i < n.coupons.len() implies #[trigger] coupon_ok(n, i) by {
        assert(coupon_ok(l, i));
    }
    assert forall|i: int| 0 <= i < n.draws.len() implies #[trigger] draw_ok(n, i) by {
        assert(draw_ok(l, i));
    }
}

/// A state that obeys the rules still does with one more draw without a
/// coupon, where the user and the campaign exist, the user has no draw for
/// the campaign on the day, and the table has room.
pub proof fn lemma_blank_draw_keeps_rules(l: LedgerView, user_id: i32, campaign_id: i32, day: Date)
    requires
        wf(l),
        l.user_exists(user_id),
        l.campaign_exists(campaign_id),
        !l.has_draw(user_id, campaign_id, day),
        l.draws.len() < table_limit(),
    ensures
        wf(with_blank_draw(l, user_id, campaign_id, day)),
{
    let n = with_blank_draw(l, user_id, campaign_id, day);
    assert forall|i: int| 0 <= i < n.users.len() implies #[trigger] user_ok(n, i) by {
        assert(user_ok(l, i));
    }
    assert forall|i: int| 0 <= i < n.campaigns.len() implies #[trigger] campaign_ok(n, i) by {
        assert(campaign_ok(l, i));
    }
    assert forall|i: int| 0 <= i < n.types.len() implies #[trigger] type_ok(n, i) by {
        assert(type_ok(l, i));
    }
    assert forall|i: int| 0 <= i < n.types.len() implies #[trigger] quota_kept(n, i) by {
        assert(quota_kept(l, i));
    }
    assert forall|i: int| 0 <= i < n.coupons.len() implies #[trigger] coupon_ok(n, i) by {
        assert(coupon_ok(l, i));
    }
    assert forall|i: int| 0 <= i < n.draws.len() implies #[trigger] draw_ok(n, i) by {
        if i < l.draws.len() {
            assert(draw_ok(l, i));
        }
    }
}

/// A state that obeys the rules still does after a coupon was redeemed.
pub proof fn lemma_redeem_keeps_rules(l: LedgerView, coupon_id: i32)
    requires
        wf(l),
        l.coupon_exists(coupon_id),
    ensures
        wf(with_redeemed(l, coupon_id)),
{
    let n = with_redeemed(l, coupon_id);
    assert forall|i: int| 0 <= i < n.users.len() implies #[trigger] user_ok(n, i) by {
        assert(user_ok(l, i));
    }
    assert forall|i: int| 0 <= i < n.campaigns.len() implies #[trigger] campaign_ok(n, i) by {
        assert(campaign_ok(l, i));
    }
    assert forall|i: int| 0 <= i < n.types.len() implies #[trigger] type_ok(n, i) by {
        assert(type_ok(l, i));
    }
    assert forall|i: int| 0 <= i < n.types.len() implies #[trigger] quota_kept(n, i) by {
        assert(quota_kept(l, i));
        lemma_issued_same(l.coupons, n.coupons, l.types[i].id);
    }
    assert forall|i: int| 0 <= i < n.coupons.len() implies #[trigger] coupon_ok(n, i) by {
        assert(coupon_ok(l, i));
        assert(coupon_ok(l, coupon_id - 1));
    }
    assert forall|i: int| 0 <= i < n.draws.len() implies #[trigger] draw_ok(n, i) by {
        assert(draw_ok(l, i));
    }
}

/// The sum of the probabilities depends on the probabilities only.
pub proof fn lemma_weight_same(a: Seq<CouponTypeView>, b: Seq<CouponTypeView>)
    requires
        a.len() == b.len(),
        forall|i: int| 0 <= i < a.len() ==> (#[trigger] a[i]).probability == b[i].probability,
    ensures
        weight_of(a) == weight_of(b),
    decreases a.len(),
{
    if a.len() > 0 {
        lemma_weight_same(a.drop_last(), b.drop_last());
    }
}

/// What `with_win` asks of the state: the user and the campaign exist, the
/// user has no draw for the campaign on the day, the coupon type is one of
/// the campaign with something left of its quotas, the redeem code is new,
/// and the tables have room.
pub open spec fn can_win(
    l: LedgerView,
    user_id: i32,
    campaign_id: i32,
    day: Date,
    type_id: i32,
    code: Seq<char>,
) -> bool {
    &&& l.user_exists(user_id)
    &&& l.campaign_exists(campaign_id)
    &&& !l.has_draw(user_id, campaign_id, day)
    &&& l.type_exists(type_id)
    &&& l.type_row(type_id).campaign_id == campaign_id
    &&& quota_available(l.type_row(type_id), day)
    &&& !l.code_taken(code)
    &&& l.coupons.len() < table_limit()
    &&& l.draws.len() < table_limit()
}

/// A state that obeys the rules still does after a draw that gave a coupon.
pub proof fn lemma_win_keeps_rules(
    l: LedgerView,
    user_id: i32,
    campaign_id: i32,
    day: Date,
    type_id: i32,
    code: Seq<char>,
)
    requires
        wf(l),
        can_win(l, user_id, campaign_id, day, type_id, code),
    ensures
        wf(with_win(l, user_id, campaign_id, day, type_id, code)),
{
    let n = with_win(l, user_id, campaign_id, day, type_id, code);
    let coupon = next_coupon(l, type_id, code);
    assert(type_ok(l, type_id - 1));
    assert forall|i: int| 0 <= i < n.users.len() implies #[trigger] user_ok(n, i) by {
        assert(user_ok(l, i));
    }
    assert forall|i: int| 0 <= i < n.campaigns.len() implies #[trigger] campaign_ok(n, i) by {
        assert(campaign_ok(l, i));
        let span = l.campaigns[i];
        lemma_weight_same(
            l.types.subrange(span.first, span.first + span.count),
            n.types.subrange(span.first, span.first + span.count),
        );
    }
    assert forall|i: int| 0 <= i < n.types.len() implies #[trigger] type_ok(n, i) by {
        assert(type_ok(l, i));
    }
    assert forall|i: int| 0 <= i < n.types.len() implies #[trigger] quota_kept(n, i) by {
        assert(quota_kept(l, i));
        assert(type_ok(l, i));
        lemma_issued_push(l.coupons, coupon, l.types[i].id);
    }
    assert forall|i: int| 0 <= i < n.coupons.len() implies #[trigger] coupon_ok(n, i) by {
        if i < l.coupons.len() {
            assert(coupon_ok(l, i));
        }
    }
    assert forall|i: int| 0 <= i < n.draws.len() implies #[trigger] draw_ok(n, i) by {
        if i < l.draws.len() {
            assert(draw_ok(l, i));
            if let Some(coupon_id) = l.draws[i].campaign_coupon_id {
                assert(coupon_ok(l, coupon_id - 1));
            }
        }
    }
}

/// The sum of the probabilities of coupon types to be created, in millionths.
pub open spec fn new_weight(new: Seq<NewTypeView>) -> nat
    decreases new.len(),
{
    if new.len() == 0 {
        0
    } else {
        new_weight(new.drop_last()) + new.last().probability as nat
    }
}

/// Whether a campaign of these coupon types may be created: they are at
/// least one, their probabilities sum to at most one, and no quota is
/// negative.
pub open spec fn can_create(new: Seq<NewTypeView>) -> bool {
    &&& new.len() >= 1
    &&& new_weight(new) <= MILLION
    &&& forall|k: int|
        0 <= k < new.len() ==> ((#[trigger] new[k]).total_quota matches Some(q) ==> q >= 0) && (
        new[k].daily_quota matches Some(q) ==> q >= 0)
}

/// The `k`-th coupon type of a new campaign as it is stored: with the next
/// id, the whole of each quota left, and never drawn.
pub open spec fn fresh_type(l: LedgerView, k: int, new: NewTypeView) -> CouponTypeView {
    CouponTypeView {
        id: (l.types.len() + k + 1) as i32,
        campaign_id: (l.campaigns.len() + 1) as i32,
        description: new.description,
        probability: new.probability,
        total_quota: new.total_quota,
        daily_quota: new.daily_quota,
        current_quota: new.total_quota,
        current_daily_quota: new.daily_quota,
        last_drawn_date: None,
    }
}

/// The coupon types of a new campaign as they are stored.
pub open spec fn fresh_types(l: LedgerView, new: Seq<NewTypeView>) -> Seq<CouponTypeView> {
    Seq::new(new.len(), |k: int| fresh_type(l, k, new[k]))
}

/// The state with one more campaign and its coupon types.
pub open spec fn with_campaign(l: LedgerView, new: Seq<NewTypeView>) -> LedgerView {
    LedgerView {
        campaigns: l.campaigns.push(Span { first: l.types.len() as int, count: new.len() as int }),
        types: l.types + fresh_types(l, new),
        ..l
    }
}

/// Coupon types are stored with the probabilities they were created with.
pub proof fn lemma_fresh_weight(l: LedgerView, new: Seq<NewTypeView>)
    ensures
        weight_of(fresh_types(l, new)) == new_weight(new),
    decreases new.len(),
{
    if new.len() > 0 {
        lemma_fresh_weight(l, new.drop_last());
        lemma_weight_same(fresh_types(l, new).drop_last(), fresh_types(l, new.drop_last()));
    }
}

/// No probability is more than the sum of all.
pub proof fn lemma_new_weight_bounds(new: Seq<NewTypeView>, k: int)
    requires
        0 <= k < new.len(),
    ensures
        new[k].probability <= new_weight(new),
    decreases new.len(),
{
    if k < new.len() - 1 {
        lemma_new_weight_bounds(new.drop_last(), k);
    }
}

/// Where no coupon is of the type, the number of its coupons is zero.
pub proof fn lemma_none_issued(coupons: Seq<CouponView>, type_id: i32)
    requires
        forall|i: int|
            0 <= i < coupons.len() ==> (#[trigger] coupons[i]).campaign_coupon_type_id != type_id,
    ensures
        issued(coupons, type_id) == 0,
    decreases coupons.len(),
{
    if coupons.len() > 0 {
        lemma_none_issued(coupons.drop_last(), type_id);
    }
}

/// A state that obeys the rules still does with one more campaign that may
/// be created, where the tables have room.
pub proof fn lemma_campaign_keeps_rules(l: LedgerView, new: Seq<NewTypeView>)
    requires
        wf(l),
        can_create(new),
        l.campaigns.len() < table_limit(),
        l.types.len() + new.len() <= table_limit(),
    ensures
        wf(with_campaign(l, new)),
{
    let n = with_campaign(l, new);
    let fresh = fresh_types(l, new);
    let old_types = l.types.len() as int;
    assert forall|i: int| 0 <= i < n.users.len() implies #[trigger] user_ok(n, i) by {
        assert(user_ok(l, i));
    }
    assert forall|i: int| 0 <= i < n.campaigns.len() implies #[trigger] campaign_ok(n, i) by {
        if i < l.campaigns.len() {
            assert(campaign_ok(l, i));
            let span = l.campaigns[i];
            assert(n.types.subrange(span.first, span.first + span.count) =~= l.types.subrange(
                span.first,
                span.first + span.count,
            ));
        } else {
            assert(n.types.subrange(old_types, old_types + new.len()) =~= fresh);
            lemma_fresh_weight(l, new);
        }
    }
    assert forall|i: int| 0 <= i < n.types.len() implies #[trigger] type_ok(n, i) by {
        if i < old_types {
            assert(type_ok(l, i));
        } else {
            lemma_new_weight_bounds(new, i - old_types);
        }
    }
    assert forall|i: int| 0 <= i < n.types.len() implies #[trigger] quota_kept(n, i) by {
        if i < old_types {
            assert(quota_kept(l, i));
        } else {
            assert forall|j: int| 0 <= j < l.coupons.len() implies (
            #[trigger] l.coupons[j]).campaign_coupon_type_id != n.types[i].id by {
                assert(coupon_ok(l, j));
            }
            lemma_none_issued(l.coupons, n.types[i].id);
        }
    }
    assert forall|i: int| 0 <= i < n.coupons.len() implies #[trigger] coupon_ok(n, i) by {
        assert(coupon_ok(l, i));
    }
    assert forall|i: int| 0 <= i < n.draws.len() implies #[trigger] draw_ok(n, i) by {
        assert(draw_ok(l, i));
        if let Some(coupon_id) = l.draws[i].campaign_coupon_id {
            assert(coupon_ok(l, coupon_id - 1));
        }
    }
}

/// The daily quota of a coupon type is kept: every draw that gave a coupon
/// of the type was made on the last day the type was drawn or before, and
/// what was taken from the quota of that day is the number of coupons of
/// the type drawn on it. A type that was never drawn has its whole daily
/// quota left.
pub open spec fn day_kept(l: LedgerView, i: int) -> bool {
    let t = l.types[i];
    &&& forall|j: int|
        0 <= j < l.draws.len() && l.drawn_type(#[trigger] l.draws[j]) == Some(t.id)
            ==> (t.last_drawn_date matches Some(last) && l.draws[j].date.ordinal()
            <= last.ordinal())
    &&& t.daily_quota matches Some(q) ==> match t.last_drawn_date {
        Some(last) => q - t.current_daily_quota.unwrap() == drawn_on(l, t.id, last),
        None => t.current_daily_quota == Some(q),
    }
}

/// The rule on daily quotas, which a state obeys as long as the clock does
/// not go back behind a day on which a coupon was drawn.
pub open spec fn daily_wf(l: LedgerView) -> bool {
    forall|i: int| 0 <= i < l.types.len() ==> #[trigger] day_kept(l, i)
}

/// Whether the day is the last day the coupon type was drawn or a later one.
pub open spec fn not_before_last(t: CouponTypeView, day: Date) -> bool {
    t.last_drawn_date matches Some(last) ==> last.ordinal() <= day.ordinal()
}

/// The rule on daily quotas still holds in a state with the same coupon
/// types, the same draws giving the same, and at most one more draw, which
/// gave nothing.
pub proof fn lemma_daily_kept_without_win(l: LedgerView, n: LedgerView)
    requires
        daily_wf(l),
        n.types == l.types,
        l.draws.len() <= n.draws.len() <= l.draws.len() + 1,
        forall|j: int|
            0 <= j < l.draws.len() ==> (#[trigger] n.draws[j]) == l.draws[j] && n.drawn_type(
                n.draws[j],
            ) == l.drawn_type(l.draws[j]),
        n.draws.len() > l.draws.len() ==> n.draws.last().campaign_coupon_id is None,
    ensures
        daily_wf(n),
{
    assert forall|i: int| 0 <= i < n.types.len() implies #[trigger] day_kept(n, i) by {
        assert(day_kept(l, i));
        let t = l.types[i];
        assert forall|j: int|
            0 <= j < n.draws.len() && n.drawn_type(#[trigger] n.draws[j]) == Some(
                t.id,
            ) implies (t.last_drawn_date matches Some(last) && n.draws[j].date.ordinal()
            <= last.ordinal()) by {
            assert(n.draws[j] == l.draws[j]);
        }
        if let Some(last) = t.last_drawn_date {
            lemma_given_same(n, l, l.draws.len() as int, t.id, last);
        }
    }
}

/// The rule on daily quotas still holds with one more campaign.
pub proof fn lemma_daily_kept_with_campaign(l: LedgerView, new: Seq<NewTypeView>)
    requires
        wf(l),
        daily_wf(l),
        l.types.len() + new.len() <= table_limit(),
    ensures
        daily_wf(with_campaign(l, new)),
{
    let n = with_campaign(l, new);
    assert forall|i: int| 0 <= i < n.types.len() implies #[trigger] day_kept(n, i) by {
        let t = n.types[i];
        if i < l.types.len() {
            assert(day_kept(l, i));
            if let Some(last) = t.last_drawn_date {
                lemma_given_same(n, l, l.draws.len() as int, t.id, last);
            }
        } else {
            assert forall|j: int|
                0 <= j < n.draws.len() implies n.drawn_type(#[trigger] n.draws[j]) != Some(
                t.id,
            ) by {
                assert(draw_ok(l, j));
                if let Some(coupon_id) = l.draws[j].campaign_coupon_id {
                    assert(coupon_ok(l, coupon_id - 1));
                }
            }
        }
    }
}

/// The rule on daily quotas still holds after a draw that gave a coupon,
/// where the day of the draw is not before the last day on which the coupon
/// type was drawn.
pub proof fn lemma_daily_kept_with_win(
    l: LedgerView,
    user_id: i32,
    campaign_id: i32,
    day: Date,
    type_id: i32,
    code: Seq<char>,
)
    requires
        wf(l),
        daily_wf(l),
        can_win(l, user_id, campaign_id, day, type_id, code),
        not_before_last(l.type_row(type_id), day),
    ensures
        daily_wf(with_win(l, user_id, campaign_id, day, type_id, code)),
{
    let n = with_win(l, user_id, campaign_id, day, type_id, code);
    let count = l.draws.len() as int;
    assert(type_ok(l, type_id - 1));
    assert forall|j: int| 0 <= j < count implies (#[trigger] n.draws[j]) == l.draws[j]
        && n.drawn_type(n.draws[j]) == l.drawn_type(l.draws[j]) by {
        assert(draw_ok(l, j));
    }
    assert(n.drawn_type(n.draws[count]) == Some(type_id));
    assert forall|i: int| 0 <= i < n.types.len() implies #[trigger] day_kept(n, i) by {
        assert(day_kept(l, i));
        assert(type_ok(l, i));
        let t = l.types[i];
        let after = n.types[i];
        if i == type_id - 1 {
            assert forall|j: int|
                0 <= j < n.draws.len() && n.drawn_type(#[trigger] n.draws[j]) == Some(
                    after.id,
                ) implies n.draws[j].date.ordinal() <= day.ordinal() by {
                if j < count {
                    assert(l.drawn_type(l.draws[j]) == Some(t.id));
                }
            }
            lemma_given_same(n, l, count, type_id, day);
            if rolls_over(t, day) {
                assert forall|j: int| 0 <= j < count implies !gave(
                    l,
                    #[trigger] l.draws[j],
                    type_id,
                    day,
                ) by {
                    if gave(l, l.draws[j], type_id, day) {
                        crate::types::date_ordinal_injective(day, t.last_drawn_date.unwrap());
                    }
                }
                lemma_none_given(l, count, type_id, day);
            }
        } else {
            assert forall|j: int|
                0 <= j < n.draws.len() && n.drawn_type(#[trigger] n.draws[j]) == Some(
                    after.id,
                ) implies (t.last_drawn_date matches Some(last) && n.draws[j].date.ordinal()
                <= last.ordinal()) by {
                assert(j < count);
                assert(l.drawn_type(l.draws[j]) == Some(t.id));
            }
            if let Some(last) = t.last_drawn_date {
                lemma_given_same(n, l, count, t.id, last);
            }
        }
    }
}

/// Of any coupon type with an overall quota, what was taken from the quota
/// is the number of its coupons, so that never more than the quota are
/// issued.
pub proof fn total_quota_respected(l: LedgerView, type_id: i32)
    requires
        wf(l),
        l.type_exists(type_id),
        l.type_row(type_id).total_quota is Some,
    ensures
        l.type_row(type_id).total_quota.unwrap() - l.type_row(type_id).current_quota.unwrap()
            == issued(l.coupons, type_id),
        issued(l.coupons, type_id) <= l.type_row(type_id).total_quota.unwrap(),
{
    assert(type_ok(l, type_id - 1));
    assert(quota_kept(l, type_id - 1));
}

/// Of any coupon type with a daily quota that was ever drawn, the coupons
/// drawn on the last day it was drawn are at most the daily quota.
pub proof fn daily_quota_respected(l: LedgerView, type_id: i32)
    requires
        wf(l),
        daily_wf(l),
        l.type_exists(type_id),
        l.type_row(type_id).daily_quota is Some,
        l.type_row(type_id).last_drawn_date is Some,
    ensures
        drawn_on(l, type_id, l.type_row(type_id).last_drawn_date.unwrap()) <= l.type_row(
            type_id,
        ).daily_quota.unwrap(),
{
    assert(type_ok(l, type_id - 1));
    assert(day_kept(l, type_id - 1));
}

/// Two draws of one user from one campaign on one day are one draw.
pub proof fn one_draw_a_day(l: LedgerView, i: int, j: int)
    requires
        wf(l),
        0 <= i < l.draws.len(),
        0 <= j < l.draws.len(),
        l.draws[i].user_id == l.draws[j].user_id,
        l.draws[i].campaign_id == l.draws[j].campaign_id,
        l.draws[i].date == l.draws[j].date,
    ensures
        i == j,
{
    assert(draw_ok(l, i));
}

/// Two coupons with one redeem code are one coupon.
pub proof fn redeem_codes_unique(l: LedgerView, i: int, j: int)
    requires
        wf(l),
        0 <= i < l.coupons.len(),
        0 <= j < l.coupons.len(),
        l.coupons[i].redeem_code == l.coupons[j].redeem_code,
    ensures
        i == j,
{
    assert(coupon_ok(l, i));
}

/// The probabilities of the coupon types of any campaign sum to at most one.
pub proof fn probabilities_within_one(l: LedgerView, campaign_id: i32)
    requires
        wf(l),
    ensures
        weight_of(l.types_of(campaign_id)) <= MILLION,
{
    if l.campaign_exists(campaign_id) {
        assert(campaign_ok(l, campaign_id - 1));
    }
}

} // verus!
