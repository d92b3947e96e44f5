//! The draw engine as a state machine. A draw alternates work on the durable
//! store and the cache with decisions; the decisions are here. Each step
//! takes what the last action brought back and names the next action, until
//! the action is `Finish`.

use vstd::prelude::*;
use crate::chance::weight_sum;
use crate::parse::{entry_of, parse_entry};
use crate::text::{
    distribution_key, distribution_key_text, enrolment_key, enrolment_key_text, entry_string,
    entry_text, int_string, int_text,
};
use crate::types::{CampaignCoupon, CampaignCouponType, CouponTypeView, CouponView, Date, MILLION};

verus! {

/// Why a draw gave no result.
#[derive(Clone, Copy, Debug, PartialEq, Eq, Structural)]
pub enum DrawError {
    /// The user has drawn from the campaign today.
    Conflict,
    /// The user or the campaign does not exist, or the campaign has no
    /// coupon types.
    NotFound,
    /// The durable store failed in a way that is no outcome of a draw.
    Internal,
}

/// What the engine waits for.
#[derive(Clone, Copy, Debug, PartialEq, Eq, Structural)]
pub enum Phase {
    /// Today's enrolment list of the user, from the cache.
    Enrolment,
    /// Whether the user and the campaign exist.
    Existence,
    /// Whether the user has a draw for the campaign today.
    PriorDraw,
    /// The campaign's distribution, from the cache.
    Distribution,
    /// The campaign's coupon types, from the durable store.
    CouponTypes,
    /// The sampled index.
    Sampling,
    /// The draw without a coupon to be committed.
    Blank,
    /// Whether the chosen type's quota could be taken.
    Quota,
    /// The inserted coupon.
    Coupon,
    /// The draw with the coupon to be committed.
    Winning,
    /// The draw without a coupon that follows an exhausted quota.
    Starved,
    /// Nothing: the draw is over.
    Done,
}

/// Values to append to a list in the cache. Failure to do so is ignored.
#[derive(Debug, PartialEq, Eq)]
pub struct CacheAppend {
    pub key: String,
    pub values: Vec<String>,
}

/// What a `CacheAppend` is, as plain values.
pub struct CacheAppendView {
    pub key: Seq<char>,
    pub values: Seq<Seq<char>>,
}

impl View for CacheAppend {
    type V = CacheAppendView;

    open spec fn view(&self) -> CacheAppendView {
        CacheAppendView { key: self.key@, values: self.values.deep_view() }
    }
}

/// The view of an optional note for the cache.
pub open spec fn append_option_view(a: Option<CacheAppend>) -> Option<CacheAppendView> {
    match a {
        Some(a) => Some(a@),
        None => None,
    }
}

/// The result of a draw: a coupon, nothing, or the reason for neither.
pub type Outcome = Result<Option<CampaignCoupon>, DrawError>;

/// What an `Outcome` is, as plain values.
pub type OutcomeView = Result<Option<CouponView>, DrawError>;

/// The view of an outcome.
pub open spec fn outcome_view(o: Outcome) -> OutcomeView {
    match o {
        Ok(Some(c)) => Ok(Some(c@)),
        Ok(None) => Ok(None),
        Err(e) => Err(e),
    }
}

/// What the engine asks for next.
#[derive(Debug, PartialEq, Eq)]
pub enum Action {
    /// Read the whole list under `key` from the cache.
    ReadList { key: String },
    /// Open a transaction and ask whether the user and the campaign exist.
    CheckExistence { user_id: i32, campaign_id: i32 },
    /// Ask whether the user has a draw for the campaign on `date`.
    FindDraw { user_id: i32, campaign_id: i32, date: Date },
    /// Select the coupon types of the campaign, in the order of their ids.
    LoadCouponTypes { campaign_id: i32 },
    /// Append `remember` to the cache, if given, then sample an index with
    /// the given weights.
    Sample { weights: Vec<u32>, remember: Option<CacheAppend> },
    /// Insert a draw without a coupon and commit.
    InsertBlankDraw { user_id: i32, campaign_id: i32, date: Date },
    /// Take one from the type's overall and daily quota, if both allow it.
    TakeQuota { type_id: i32, date: Date },
    /// Insert an unredeemed coupon of the type under a fresh redeem code.
    InsertCoupon { type_id: i32 },
    /// Insert a draw with the coupon and commit.
    InsertWinningDraw { user_id: i32, campaign_id: i32, coupon_id: i32, date: Date },
    /// Roll the transaction back, then insert a draw without a coupon
    /// outside any transaction.
    InsertStarvedDraw { user_id: i32, campaign_id: i32, date: Date },
    /// Roll the transaction back if `rollback`, append `remember` to the
    /// cache, if given, and answer with `result`.
    Finish { result: Outcome, rollback: bool, remember: Option<CacheAppend> },
}

/// What an `Action` is, as plain values.
pub enum ActionView {
    ReadList { key: Seq<char> },
    CheckExistence { user_id: i32, campaign_id: i32 },
    FindDraw { user_id: i32, campaign_id: i32, date: Date },
    LoadCouponTypes { campaign_id: i32 },
    Sample { weights: Seq<u32>, remember: Option<CacheAppendView> },
    InsertBlankDraw { user_id: i32, campaign_id: i32, date: Date },
    TakeQuota { type_id: i32, date: Date },
    InsertCoupon { type_id: i32 },
    InsertWinningDraw { user_id: i32, campaign_id: i32, coupon_id: i32, date: Date },
    InsertStarvedDraw { user_id: i32, campaign_id: i32, date: Date },
    Finish { result: OutcomeView, rollback: bool, remember: Option<CacheAppendView> },
}

impl View for Action {
    type V = ActionView;

    open spec fn view(&self) -> ActionView {
        match *self {
            Action::ReadList { key } => ActionView::ReadList { key: key@ },
            Action::CheckExistence { user_id, campaign_id } => ActionView::CheckExistence {
                user_id,
                campaign_id,
            },
            Action::FindDraw { user_id, campaign_id, date } => ActionView::FindDraw {
                user_id,
                campaign_id,
                date,
            },
            Action::LoadCouponTypes { campaign_id } => ActionView::LoadCouponTypes { campaign_id },
            Action::Sample { weights, remember } => ActionView::Sample {
                weights: weights@,
                remember: append_option_view(remember),
            },
            Action::InsertBlankDraw { user_id, campaign_id, date } => ActionView::InsertBlankDraw {
                user_id,
                campaign_id,
                date,
            },
            Action::TakeQuota { type_id, date } => ActionView::TakeQuota { type_id, date },
            Action::InsertCoupon { type_id } => ActionView::InsertCoupon { type_id },
            Action::InsertWinningDraw {
                user_id,
                campaign_id,
                coupon_id,
                date,
            } => ActionView::InsertWinningDraw { user_id, campaign_id, coupon_id, date },
            Action::InsertStarvedDraw {
                user_id,
                campaign_id,
                date,
            } => ActionView::InsertStarvedDraw { user_id, campaign_id, date },
            Action::Finish { result, rollback, remember } => ActionView::Finish {
                result: outcome_view(result),
                rollback,
                remember: append_option_view(remember),
            },
        }
    }
}

/// What an action brought back.
#[derive(Debug, PartialEq, Eq)]
pub enum Event {
    /// The list that the cache holds; empty where it holds none.
    List(Vec<String>),
    /// The answer to a question, or whether a quota could be taken.
    Flag(bool),
    /// The coupon types of the campaign.
    CouponTypes(Vec<CampaignCouponType>),
    /// The sampled index.
    Picked(usize),
    /// The inserted coupon.
    Coupon(CampaignCoupon),
    /// The insert is committed.
    Done,
    /// The insert broke a uniqueness constraint.
    Duplicate,
    /// The action failed otherwise.
    Failed,
}

/// What an `Event` is, as plain values.
pub enum EventView {
    List(Seq<Seq<char>>),
    Flag(bool),
    CouponTypes(Seq<CouponTypeView>),
    Picked(usize),
    Coupon(CouponView),
    Done,
    Duplicate,
    Failed,
}

impl View for Event {
    type V = EventView;

    open spec fn view(&self) -> EventView {
        match *self {
            Event::List(v) => EventView::List(v.deep_view()),
            Event::Flag(b) => EventView::Flag(b),
            Event::CouponTypes(rows) => EventView::CouponTypes(
                crate::types::coupon_type_views(rows@),
            ),
            Event::Picked(k) => EventView::Picked(k),
            Event::Coupon(c) => EventView::Coupon(c@),
            Event::Done => EventView::Done,
            Event::Duplicate => EventView::Duplicate,
            Event::Failed => EventView::Failed,
        }
    }
}

/// A draw in progress.
#[derive(Debug, PartialEq, Eq)]
pub struct DrawState {
    pub phase: Phase,
    pub user_id: i32,
    pub campaign_id: i32,
    pub today: Date,
    /// The coupon types of the campaign, once the distribution is known.
    pub type_ids: Vec<i32>,
    /// The coupon type that the sample chose, once it chose one.
    pub chosen: Option<i32>,
    /// The coupon that was inserted, once it was.
    pub coupon: Option<CampaignCoupon>,
}

/// What a `DrawState` is, as plain values.
pub struct DrawStateView {
    pub phase: Phase,
    pub user_id: i32,
    pub campaign_id: i32,
    pub today: Date,
    pub type_ids: Seq<i32>,
    pub chosen: Option<i32>,
    pub coupon: Option<CouponView>,
}

impl View for DrawState {
    type V = DrawStateView;

    open spec fn view(&self) -> DrawStateView {
        DrawStateView {
            phase: self.phase,
            user_id: self.user_id,
            campaign_id: self.campaign_id,
            today: self.today,
            type_ids: self.type_ids@,
            chosen: self.chosen,
            coupon: crate::types::coupon_option_view(self.coupon),
        }
    }
}

/// Whether an enrolment list names the campaign.
pub open spec fn lists_campaign(entries: Seq<Seq<char>>, campaign_id: i32) -> bool {
    exists|i: int| 0 <= i < entries.len() && #[trigger] entries[i] == int_text(campaign_id as int)
}

/// Whether a cached list is a distribution: it is not empty and each entry
/// is the text of a coupon type and a probability.
pub open spec fn decodes(entries: Seq<Seq<char>>) -> bool {
    &&& entries.len() > 0
    &&& forall|i: int| 0 <= i < entries.len() ==> (#[trigger] entry_of(entries[i])).is_some()
}

/// The distribution that a cached list stands for.
pub open spec fn decoded(entries: Seq<Seq<char>>) -> Seq<(i32, u32)> {
    Seq::new(entries.len(), |i: int| entry_of(entries[i]).unwrap())
}

/// The sum of a distribution's probabilities, in millionths.
pub open spec fn total(dist: Seq<(i32, u32)>) -> nat
    decreases dist.len(),
{
    if dist.len() == 0 {
        0
    } else {
        total(dist.drop_last()) + dist.last().1 as nat
    }
}

/// The weight of drawing nothing: what the distribution leaves of one whole,
/// and zero where it leaves nothing.
pub open spec fn residual(dist: Seq<(i32, u32)>) -> u32 {
    if total(dist) >= MILLION {
        0
    } else {
        (MILLION - total(dist)) as u32
    }
}

/// The weights to sample with: one for each coupon type, in order, and the
/// residual last.
pub open spec fn draw_weights(dist: Seq<(i32, u32)>) -> Seq<u32> {
    Seq::new(dist.len(), |i: int| dist[i].1).push(residual(dist))
}

/// The coupon types of a distribution, in order.
pub open spec fn type_ids_of(dist: Seq<(i32, u32)>) -> Seq<i32> {
    Seq::new(dist.len(), |i: int| dist[i].0)
}

/// The distribution that a campaign's coupon types make.
pub open spec fn distribution_of(rows: Seq<CouponTypeView>) -> Seq<(i32, u32)> {
    Seq::new(rows.len(), |i: int| (rows[i].id, rows[i].probability))
}

/// The cache entries of a distribution.
pub open spec fn distribution_entries(dist: Seq<(i32, u32)>) -> Seq<Seq<char>> {
    Seq::new(dist.len(), |i: int| entry_text(dist[i].0 as int, dist[i].1 as nat))
}

/// Whether a transaction is open while the engine is in phase `p`.
pub open spec fn tx_open(p: Phase) -> bool {
    match p {
        Phase::Enrolment | Phase::Starved | Phase::Done => false,
        _ => true,
    }
}

/// How far a phase is from the end of the draw, at most.
pub open spec fn rank(p: Phase) -> nat {
    match p {
        Phase::Enrolment => 9,
        Phase::Existence => 8,
        Phase::PriorDraw => 7,
        Phase::Distribution => 6,
        Phase::CouponTypes => 5,
        Phase::Sampling => 4,
        Phase::Quota => 3,
        Phase::Coupon => 2,
        Phase::Winning => 1,
        Phase::Blank => 1,
        Phase::Starved => 1,
        Phase::Done => 0,
    }
}

/// The note that the user has drawn from the campaign today.
pub open spec fn enrolment_note(s: DrawStateView) -> CacheAppendView {
    CacheAppendView {
        key: enrolment_key_text(s.user_id as int, s.today),
        values: seq![int_text(s.campaign_id as int)],
    }
}

/// The note of a campaign's distribution.
pub open spec fn distribution_note(s: DrawStateView, dist: Seq<(i32, u32)>) -> CacheAppendView {
    CacheAppendView {
        key: distribution_key_text(s.campaign_id as int),
        values: distribution_entries(dist),
    }
}

/// The step to another phase with the given action.
pub open spec fn goto(s: DrawStateView, phase: Phase, action: ActionView) -> (
    DrawStateView,
    ActionView,
) {
    (DrawStateView { phase, ..s }, action)
}

/// The end of a draw with `result`, noting the enrolment in the cache where
/// `enrol` says so.
pub open spec fn finish(s: DrawStateView, result: OutcomeView, rollback: bool, enrol: bool) -> (
    DrawStateView,
    ActionView,
) {
    goto(
        s,
        Phase::Done,
        ActionView::Finish {
            result,
            rollback,
            remember: if enrol {
                Some(enrolment_note(s))
            } else {
                None
            },
        },
    )
}

/// The end of a draw that the durable store failed.
pub open spec fn fail(s: DrawStateView) -> (DrawStateView, ActionView) {
    finish(s, Err(DrawError::Internal), tx_open(s.phase), false)
}

/// The step to sampling, once the distribution is known. It is noted in the
/// cache where it came from the durable store.
pub open spec fn sampling(s: DrawStateView, dist: Seq<(i32, u32)>, fresh: bool) -> (
    DrawStateView,
    ActionView,
) {
    (
        DrawStateView { phase: Phase::Sampling, type_ids: type_ids_of(dist), ..s },
        ActionView::Sample {
            weights: draw_weights(dist),
            remember: if fresh {
                Some(distribution_note(s, dist))
            } else {
                None
            },
        },
    )
}

/// The first state of a draw and its first action: to read the user's
/// enrolment list of the day.
pub open spec fn start_spec(user_id: i32, campaign_id: i32, today: Date) -> (
    DrawStateView,
    ActionView,
) {
    (
        DrawStateView {
            phase: Phase::Enrolment,
            user_id,
            campaign_id,
            today,
            type_ids: Seq::<i32>::empty(),
            chosen: None,
            coupon: None,
        },
        ActionView::ReadList { key: enrolment_key_text(user_id as int, today) },
    )
}

/// The engine's transition: the state after `e` arrived in state `s`, and
/// the action to take next.
pub open spec fn step_spec(s: DrawStateView, e: EventView) -> (DrawStateView, ActionView) {
    match s.phase {
        Phase::Enrolment => match e {
            EventView::List(entries) => if lists_campaign(entries, s.campaign_id) {
                finish(s, Err(DrawError::Conflict), false, false)
            } else {
                goto(
                    s,
                    Phase::Existence,
                    ActionView::CheckExistence { user_id: s.user_id, campaign_id: s.campaign_id },
                )
            },
            EventView::Failed => goto(
                s,
                Phase::Existence,
                ActionView::CheckExistence { user_id: s.user_id, campaign_id: s.campaign_id },
            ),
            _ => fail(s),
        },
        Phase::Existence => match e {
            EventView::Flag(true) => goto(
                s,
                Phase::PriorDraw,
                ActionView::FindDraw {
                    user_id: s.user_id,
                    campaign_id: s.campaign_id,
                    date: s.today,
                },
            ),
            EventView::Flag(false) => finish(s, Err(DrawError::NotFound), true, false),
            _ => fail(s),
        },
        Phase::PriorDraw => match e {
            EventView::Flag(true) => finish(s, Err(DrawError::Conflict), true, true),
            EventView::Flag(false) => goto(
                s,
                Phase::Distribution,
                ActionView::ReadList { key: distribution_key_text(s.campaign_id as int) },
            ),
            _ => fail(s),
        },
        Phase::Distribution => match e {
            EventView::List(entries) => if decodes(entries) {
                sampling(s, decoded(entries), false)
            } else {
                goto(
                    s,
                    Phase::CouponTypes,
                    ActionView::LoadCouponTypes { campaign_id: s.campaign_id },
                )
            },
            EventView::Failed => goto(
                s,
                Phase::CouponTypes,
                ActionView::LoadCouponTypes { campaign_id: s.campaign_id },
            ),
            _ => fail(s),
        },
        Phase::CouponTypes => match e {
            EventView::CouponTypes(rows) => if rows.len() == 0 {
                finish(s, Err(DrawError::NotFound), true, false)
            } else {
                sampling(s, distribution_of(rows), true)
            },
            _ => fail(s),
        },
        Phase::Sampling => match e {
            EventView::Picked(k) => if k < s.type_ids.len() {
                (
                    DrawStateView { phase: Phase::Quota, chosen: Some(s.type_ids[k as int]), ..s },
                    ActionView::TakeQuota { type_id: s.type_ids[k as int], date: s.today },
                )
            } else if k == s.type_ids.len() {
                goto(
                    s,
                    Phase::Blank,
                    ActionView::InsertBlankDraw {
                        user_id: s.user_id,
                        campaign_id: s.campaign_id,
                        date: s.today,
                    },
                )
            } else {
                fail(s)
            },
            _ => fail(s),
        },
        Phase::Blank => match e {
            EventView::Done => finish(s, Ok(None), false, true),
            EventView::Duplicate => finish(s, Err(DrawError::Conflict), true, true),
            _ => fail(s),
        },
        Phase::Quota => match (e, s.chosen) {
            (EventView::Flag(true), Some(type_id)) => goto(
                s,
                Phase::Coupon,
                ActionView::InsertCoupon { type_id },
            ),
            (EventView::Flag(false), Some(_)) => goto(
                s,
                Phase::Starved,
                ActionView::InsertStarvedDraw {
                    user_id: s.user_id,
                    campaign_id: s.campaign_id,
                    date: s.today,
                },
            ),
            _ => fail(s),
        },
        Phase::Coupon => match e {
            EventView::Coupon(c) => (
                DrawStateView { phase: Phase::Winning, coupon: Some(c), ..s },
                ActionView::InsertWinningDraw {
                    user_id: s.user_id,
                    campaign_id: s.campaign_id,
                    coupon_id: c.id,
                    date: s.today,
                },
            ),
            _ => fail(s),
        },
        Phase::Winning => match (e, s.coupon) {
            (EventView::Done, Some(c)) => finish(s, Ok(Some(c)), false, true),
            (EventView::Duplicate, _) => finish(s, Err(DrawError::Conflict), true, true),
            _ => fail(s),
        },
        Phase::Starved => match e {
            EventView::Done => finish(s, Ok(None), false, true),
            EventView::Duplicate => finish(s, Err(DrawError::Conflict), false, true),
            _ => fail(s),
        },
        Phase::Done => fail(s),
    }
}

/// Whether an enrolment list names the campaign.
pub fn names_campaign(entries: &Vec<String>, campaign_id: i32) -> (r: bool)
    ensures
        r == lists_campaign(entries.deep_view(), campaign_id),
{
    let wanted = int_string(campaign_id);
    let mut i: usize = 0;
    while i < entries.len()
        invariant
            i <= entries.len(),
            wanted@ == int_text(campaign_id as int),
            forall|j: int| 0 <= j < i ==> entries.deep_view()[j] != wanted@,
        decreases entries.len() - i,
    {
        if entries[i] == wanted {
            assert(entries.deep_view()[i as int] == int_text(campaign_id as int));
            return true;
        }
        i += 1;
    }
    false
}

/// Reads a cached list as a distribution, if it is one.
pub fn decode_entries(entries: &Vec<String>) -> (r: Option<Vec<(i32, u32)>>)
    ensures
        match r {
            Some(dist) => decodes(entries.deep_view()) && dist@ == decoded(entries.deep_view()),
            None => !decodes(entries.deep_view()),
        },
{
    if entries.len() == 0 {
        return None;
    }
    let mut dist: Vec<(i32, u32)> = Vec::new();
    let mut i: usize = 0;
    while i < entries.len()
        invariant
            i <= entries.len(),
            dist@.len() == i,
            forall|j: int| 0 <= j < i ==> (#[trigger] entry_of(entries.deep_view()[j])).is_some(),
            forall|j: int|
                0 <= j < i ==> #[trigger] dist@[j] == entry_of(entries.deep_view()[j]).unwrap(),
        decreases entries.len() - i,
    {
        match parse_entry(entries[i].as_str()) {
            Some(pair) => {
                assert(entries.deep_view()[i as int] == entries[i as int]@);
                dist.push(pair);
            },
            None => {
                assert(entries.deep_view()[i as int] == entries[i as int]@);
                return None;
            },
        }
        i += 1;
    }
    assert(dist@ =~= decoded(entries.deep_view()));
    Some(dist)
}

/// The weight of drawing nothing under a distribution.
pub fn residual_of(dist: &Vec<(i32, u32)>) -> (r: u32)
    ensures
        r == residual(dist@),
{
    let mut rest: u32 = MILLION;
    let mut i: usize = 0;
    while i < dist.len()
        invariant
            i <= dist.len(),
            rest == residual(dist@.subrange(0, i as int)),
        decreases dist.len() - i,
    {
        proof {
            let next = dist@.subrange(0, i + 1);
            assert(next.drop_last() =~= dist@.subrange(0, i as int));
            assert(next.last() == dist@[i as int]);
        }
        let p = dist[i].1;
        rest = if p >= rest {
            0
        } else {
            rest - p
        };
        i += 1;
    }
    assert(dist@.subrange(0, dist.len() as int) =~= dist@);
    rest
}

/// The weights to sample with under a distribution.
pub fn weights_of(dist: &Vec<(i32, u32)>) -> (r: Vec<u32>)
    ensures
        r@ == draw_weights(dist@),
{
    let mut weights: Vec<u32> = Vec::new();
    let mut i: usize = 0;
    while i < dist.len()
        invariant
            i <= dist.len(),
            weights@.len() == i,
            forall|j: int| 0 <= j < i ==> weights@[j] == dist@[j].1,
        decreases dist.len() - i,
    {
        weights.push(dist[i].1);
        i += 1;
    }
    weights.push(residual_of(dist));
    assert(weights@ =~= draw_weights(dist@));
    weights
}

/// The coupon types of a distribution, in order.
pub fn ids_of(dist: &Vec<(i32, u32)>) -> (r: Vec<i32>)
    ensures
        r@ == type_ids_of(dist@),
{
    let mut ids: Vec<i32> = Vec::new();
    let mut i: usize = 0;
    while i < dist.len()
        invariant
            i <= dist.len(),
            ids@.len() == i,
            forall|j: int| 0 <= j < i ==> ids@[j] == dist@[j].0,
        decreases dist.len() - i,
    {
        ids.push(dist[i].0);
        i += 1;
    }
    assert(ids@ =~= type_ids_of(dist@));
    ids
}

/// The distribution that a campaign's coupon types make.
pub fn distribution_from(rows: &Vec<CampaignCouponType>) -> (r: Vec<(i32, u32)>)
    ensures
        r@ == distribution_of(crate::types::coupon_type_views(rows@)),
{
    let mut dist: Vec<(i32, u32)> = Vec::new();
    let mut i: usize = 0;
    while i < rows.len()
        invariant
            i <= rows.len(),
            dist@.len() == i,
            forall|j: int| 0 <= j < i ==> dist@[j] == (rows@[j].id, rows@[j].probability),
        decreases rows.len() - i,
    {
        dist.push((rows[i].id, rows[i].probability));
        i += 1;
    }
    assert(dist@ =~= distribution_of(crate::types::coupon_type_views(rows@)));
    dist
}

/// The cache entries of a distribution.
pub fn entries_of(dist: &Vec<(i32, u32)>) -> (r: Vec<String>)
    ensures
        r.deep_view() == distribution_entries(dist@),
{
    let mut entries: Vec<String> = Vec::new();
    let mut i: usize = 0;
    while i < dist.len()
        invariant
            i <= dist.len(),
            entries@.len() == i,
            forall|j: int|
                0 <= j < i ==> (#[trigger] entries@[j])@ == entry_text(
                    dist@[j].0 as int,
                    dist@[j].1 as nat,
                ),
        decreases dist.len() - i,
    {
        entries.push(entry_string(dist[i].0, dist[i].1));
        i += 1;
    }
    assert(entries.deep_view() =~= distribution_entries(dist@));
    entries
}

/// The note that the user has drawn from the campaign today.
fn enrolment_append(state: &DrawState) -> (r: CacheAppend)
    ensures
        r@ == enrolment_note(state@),
{
    let mut values: Vec<String> = Vec::new();
    values.push(int_string(state.campaign_id));
    let note = CacheAppend { key: enrolment_key(state.user_id, state.today), values };
    assert(note.values.deep_view() =~= seq![int_text(state.campaign_id as int)]);
    note
}

/// Moves to another phase with the given action.
fn go(state: DrawState, phase: Phase, action: Action) -> (r: (DrawState, Action))
    ensures
        (r.0@, r.1@) == goto(state@, phase, action@),
{
    let mut next = state;
    next.phase = phase;
    (next, action)
}

/// Ends the draw with `result`, noting the enrolment where `enrol` says so.
fn end(state: DrawState, result: Outcome, rollback: bool, enrol: bool) -> (r: (DrawState, Action))
    ensures
        (r.0@, r.1@) == finish(state@, outcome_view(result), rollback, enrol),
{
    let remember = if enrol {
        Some(enrolment_append(&state))
    } else {
        None
    };
    go(state, Phase::Done, Action::Finish { result, rollback, remember })
}

/// Whether a transaction is open in the phase.
fn in_transaction(phase: Phase) -> (r: bool)
    ensures
        r == tx_open(phase),
{
    match phase {
        Phase::Enrolment | Phase::Starved | Phase::Done => false,
        _ => true,
    }
}

/// Ends a draw that the durable store failed.
fn abort(state: DrawState) -> (r: (DrawState, Action))
    ensures
        (r.0@, r.1@) == fail(state@),
{
    let rollback = in_transaction(state.phase);
    end(state, Err(DrawError::Internal), rollback, false)
}

/// Moves to sampling under the distribution, which is noted in the cache
/// where it is fresh from the durable store.
fn sample(state: DrawState, dist: Vec<(i32, u32)>, fresh: bool) -> (r: (DrawState, Action))
    ensures
        (r.0@, r.1@) == sampling(state@, dist@, fresh),
{
    let remember = if fresh {
        Some(CacheAppend { key: distribution_key(state.campaign_id), values: entries_of(&dist) })
    } else {
        None
    };
    let weights = weights_of(&dist);
    let mut next = state;
    next.phase = Phase::Sampling;
    next.type_ids = ids_of(&dist);
    (next, Action::Sample { weights, remember })
}

/// Begins a draw of `user_id` from `campaign_id` on the day `today`.
pub fn start(user_id: i32, campaign_id: i32, today: Date) -> (r: (DrawState, Action))
    ensures
        (r.0@, r.1@) == start_spec(user_id, campaign_id, today),
{
    let state = DrawState {
        phase: Phase::Enrolment,
        user_id,
        campaign_id,
        today,
        type_ids: Vec::new(),
        chosen: None,
        coupon: None,
    };
    assert(state.type_ids@ =~= Seq::<i32>::empty());
    (state, Action::ReadList { key: enrolment_key(user_id, today) })
}

/// Takes what the last action brought back and names the next action. The
/// draw is over when the action is `Finish`.
pub fn step(state: DrawState, event: Event) -> (r: (DrawState, Action))
    ensures
        (r.0@, r.1@) == step_spec(state@, event@),
{
    let user_id = state.user_id;
    let campaign_id = state.campaign_id;
    let date = state.today;
    match state.phase {
        Phase::Enrolment => match event {
            Event::List(entries) => {
                if names_campaign(&entries, campaign_id) {
                    end(state, Err(DrawError::Conflict), false, false)
                } else {
                    go(state, Phase::Existence, Action::CheckExistence { user_id, campaign_id })
                }
            },
            Event::Failed => go(
                state,
                Phase::Existence,
                Action::CheckExistence { user_id, campaign_id },
            ),
            _ => abort(state),
        },
        Phase::Existence => match event {
            Event::Flag(true) => go(
                state,
                Phase::PriorDraw,
                Action::FindDraw { user_id, campaign_id, date },
            ),
            Event::Flag(false) => end(state, Err(DrawError::NotFound), true, false),
            _ => abort(state),
        },
        Phase::PriorDraw => match event {
            Event::Flag(true) => end(state, Err(DrawError::Conflict), true, true),
            Event::Flag(false) => go(
                state,
                Phase::Distribution,
                Action::ReadList { key: distribution_key(campaign_id) },
            ),
            _ => abort(state),
        },
        Phase::Distribution => match event {
            Event::List(entries) => match decode_entries(&entries) {
                Some(dist) => sample(state, dist, false),
                None => go(state, Phase::CouponTypes, Action::LoadCouponTypes { campaign_id }),
            },
            Event::Failed => go(
                state,
                Phase::CouponTypes,
                Action::LoadCouponTypes { campaign_id },
            ),
            _ => abort(state),
        },
        Phase::CouponTypes => match event {
            Event::CouponTypes(rows) => {
                if rows.len() == 0 {
                    end(state, Err(DrawError::NotFound), true, false)
                } else {
                    let dist = distribution_from(&rows);
                    sample(state, dist, true)
                }
            },
            _ => abort(state),
        },
        Phase::Sampling => match event {
            Event::Picked(k) => {
                if k < state.type_ids.len() {
                    let type_id = state.type_ids[k];
                    let mut next = state;
                    next.phase = Phase::Quota;
                    next.chosen = Some(type_id);
                    (next, Action::TakeQuota { type_id, date })
                } else if k == state.type_ids.len() {
                    go(state, Phase::Blank, Action::InsertBlankDraw { user_id, campaign_id, date })
                } else {
                    abort(state)
                }
            },
            _ => abort(state),
        },
        Phase::Blank => match event {
            Event::Done => end(state, Ok(None), false, true),
            Event::Duplicate => end(state, Err(DrawError::Conflict), true, true),
            _ => abort(state),
        },
        Phase::Quota => match state.chosen {
            Some(type_id) => match event {
                Event::Flag(true) => go(state, Phase::Coupon, Action::InsertCoupon { type_id }),
                Event::Flag(false) => go(
                    state,
                    Phase::Starved,
                    Action::InsertStarvedDraw { user_id, campaign_id, date },
                ),
                _ => abort(state),
            },
            None => abort(state),
        },
        Phase::Coupon => match event {
            Event::Coupon(coupon) => {
                let coupon_id = coupon.id;
                let mut next = state;
                next.phase = Phase::Winning;
                next.coupon = Some(coupon);
                (next, Action::InsertWinningDraw { user_id, campaign_id, coupon_id, date })
            },
            _ => abort(state),
        },
        Phase::Winning => match event {
            Event::Done => {
                let won = match &state.coupon {
                    Some(coupon) => Some(coupon.duplicate()),
                    None => None,
                };
                match won {
                    Some(coupon) => end(state, Ok(Some(coupon)), false, true),
                    None => abort(state),
                }
            },
            Event::Duplicate => end(state, Err(DrawError::Conflict), true, true),
            _ => abort(state),
        },
        Phase::Starved => match event {
            Event::Done => end(state, Ok(None), false, true),
            Event::Duplicate => end(state, Err(DrawError::Conflict), false, true),
            _ => abort(state),
        },
        Phase::Done => abort(state),
    }
}

impl DrawError {
    /// The words of the error.
    pub open spec fn message_text(self) -> Seq<char> {
        match self {
            DrawError::Conflict => "User has already drawn from this campaign. Come again tommorow"@,
            DrawError::NotFound => "Campaign or user doesn't exist"@,
            DrawError::Internal => "The draw could not be completed"@,
        }
    }

    /// The words of the error.
    pub fn message(&self) -> (r: String)
        ensures
            r@ == self.message_text(),
    {
        match self {
            DrawError::Conflict => String::from_str(
                "User has already drawn from this campaign. Come again tommorow",
            ),
            DrawError::NotFound => String::from_str("Campaign or user doesn't exist"),
            DrawError::Internal => String::from_str("The draw could not be completed"),
        }
    }

    /// The status that answers a request that ended in this error.
    pub fn status(&self) -> (r: u16)
        ensures
            r == match *self {
                DrawError::Conflict => 409u16,
                DrawError::NotFound => 404u16,
                DrawError::Internal => 500u16,
            },
    {
        match self {
            DrawError::Conflict => 409,
            DrawError::NotFound => 404,
            DrawError::Internal => 500,
        }
    }
}

/// Every step brings the draw nearer to its end, and the draw is over
/// exactly when the action is `Finish`: no draw takes more than nine steps.
pub proof fn step_makes_progress(s: DrawStateView, e: EventView)
    ensures
        s.phase != Phase::Done ==> rank(step_spec(s, e).0.phase) < rank(s.phase),
        step_spec(s, e).0.phase == Phase::Done <==> step_spec(s, e).1 is Finish,
        step_spec(s, e).0.user_id == s.user_id,
        step_spec(s, e).0.campaign_id == s.campaign_id,
        step_spec(s, e).0.today == s.today,
{
}

/// The enrolment is noted in the cache only once the durable store has
/// decided: after it showed a draw of today, or after an insert of a draw
/// was committed or refused as a duplicate. The note names this user, this
/// day and this campaign, and goes with a coupon, with nothing, or with the
/// conflict; never with another error.
pub proof fn enrolment_noted_after_decision(s: DrawStateView, e: EventView)
    requires
        step_spec(s, e).1 matches ActionView::Finish { remember: Some(_), .. },
    ensures
        step_spec(s, e).1 matches ActionView::Finish { result, remember: Some(note), .. } && {
            &&& note == enrolment_note(s)
            &&& result != Err::<Option<CouponView>, DrawError>(DrawError::NotFound)
            &&& result != Err::<Option<CouponView>, DrawError>(DrawError::Internal)
            &&& (s.phase == Phase::PriorDraw && e == EventView::Flag(true)) || ((s.phase
                == Phase::Blank || s.phase == Phase::Winning || s.phase == Phase::Starved) && (e
                == EventView::Done || e == EventView::Duplicate))
        },
{
}

/// A committed draw is answered with what it gave, and is noted in the
/// cache: the enrolment list of the user and the day gets the campaign.
pub proof fn commit_is_noted(s: DrawStateView, e: EventView)
    requires
        s.phase == Phase::Blank || s.phase == Phase::Starved || (s.phase == Phase::Winning
            && s.coupon is Some),
        e == EventView::Done,
    ensures
        step_spec(s, e).1 == (ActionView::Finish {
            result: if s.phase == Phase::Winning {
                Ok(s.coupon)
            } else {
                Ok(None)
            },
            rollback: false,
            remember: Some(enrolment_note(s)),
        }),
{
}

/// A believed cache hit ends the draw before the durable store is touched:
/// no transaction is open, so none is rolled back, and nothing is noted.
pub proof fn cache_hit_is_believed(s: DrawStateView, entries: Seq<Seq<char>>)
    requires
        s.phase == Phase::Enrolment,
        lists_campaign(entries, s.campaign_id),
    ensures
        step_spec(s, EventView::List(entries)).1 == (ActionView::Finish {
            result: Err(DrawError::Conflict),
            rollback: false,
            remember: None,
        }),
{
}

/// A coupon is inserted only after the quota of its type was taken, and a
/// coupon is won only after the draw that holds it was committed.
pub proof fn coupon_follows_quota(s: DrawStateView, e: EventView)
    ensures
        step_spec(s, e).1 matches ActionView::InsertCoupon { type_id } ==> s.phase == Phase::Quota
            && e == EventView::Flag(true) && s.chosen == Some(type_id),
        step_spec(s, e).1 matches ActionView::Finish { result: Ok(Some(c)), .. } ==> s.phase
            == Phase::Winning && e == EventView::Done && s.coupon == Some(c),
        step_spec(s, e).1 matches ActionView::TakeQuota { type_id, .. } ==> s.phase
            == Phase::Sampling && exists|k: int|
            0 <= k < s.type_ids.len() && #[trigger] s.type_ids[k] == type_id,
{
    if let ActionView::TakeQuota { type_id, .. } = step_spec(s, e).1 {
        if let EventView::Picked(k) = e {
            assert(s.type_ids[k as int] == type_id);
        }
    }
}

/// A transaction that is open when the draw ends without a commit is rolled
/// back, and only such a one.
pub proof fn open_transaction_is_closed(s: DrawStateView, e: EventView)
    requires
        step_spec(s, e).1 is Finish,
    ensures
        step_spec(s, e).1 matches ActionView::Finish { result, rollback, .. } && {
            &&& rollback ==> tx_open(s.phase)
            &&& result is Ok ==> !rollback
            &&& result is Err && tx_open(s.phase) ==> rollback
        },
{
}

/// The weights to sample with are as many as the coupon types and one more,
/// each type's weight is its probability, and where the probabilities sum to
/// at most one whole the weights sum to exactly one.
pub proof fn weights_cover_one_whole(dist: Seq<(i32, u32)>)
    ensures
        draw_weights(dist).len() == dist.len() + 1,
        forall|i: int| 0 <= i < dist.len() ==> draw_weights(dist)[i] == dist[i].1,
        draw_weights(dist).last() == residual(dist),
        total(dist) <= MILLION ==> total(dist) + residual(dist) == MILLION,
        total(dist) > MILLION ==> residual(dist) == 0,
{
}

/// The probabilities of a distribution, in order.
pub open spec fn probabilities_of(dist: Seq<(i32, u32)>) -> Seq<u32> {
    Seq::new(dist.len(), |i: int| dist[i].1)
}

/// The weights to sample with sum to what the probabilities sum to and the
/// residual: to exactly one whole where the probabilities sum to at most
/// one, so that sampling with them cannot fail.
pub proof fn weights_sum_to_one_whole(dist: Seq<(i32, u32)>)
    ensures
        weight_sum(probabilities_of(dist)) == total(dist),
        weight_sum(draw_weights(dist)) == total(dist) + residual(dist),
        total(dist) <= MILLION ==> weight_sum(draw_weights(dist)) == MILLION,
    decreases dist.len(),
{
    if dist.len() > 0 {
        weights_sum_to_one_whole(dist.drop_last());
        assert(probabilities_of(dist).drop_last() =~= probabilities_of(dist.drop_last()));
    }
    assert(draw_weights(dist).drop_last() =~= probabilities_of(dist));
}

/// The probabilities of a distribution sum to what those of the coupon
/// types it was made from sum to.
pub proof fn lemma_total_of_rows(rows: Seq<CouponTypeView>)
    ensures
        total(distribution_of(rows)) == crate::ledger::weight_of(rows),
    decreases rows.len(),
{
    if rows.len() > 0 {
        lemma_total_of_rows(rows.drop_last());
        assert(distribution_of(rows).drop_last() =~= distribution_of(rows.drop_last()));
    }
}

} // verus!
