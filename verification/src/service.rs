//! The service in memory: the draw engine run against the durable state and
//! the cache, and what every draw does to them.

use vstd::prelude::*;
use crate::cache::Cache;
use crate::campaign::{
    new_type_views, verdict, CampaignError, CreateCampaignPayload, GetCampaignResultCouponType,
};
use crate::chance::{is_code_text, pick, random_code};
use crate::clock::today_utc;
use crate::engine::{
    decoded, decodes, distribution_entries, distribution_of, draw_weights, lists_campaign,
    outcome_view, residual, start, step, type_ids_of, Action, CacheAppend, DrawError, DrawState,
    DrawStateView, Event, Outcome, OutcomeView, Phase,
};
use crate::ledger::{
    campaign_ok, can_win, daily_wf, draw_ok, next_coupon, not_before_last, quota_available,
    table_limit, type_ok, wf, with_blank_draw, with_campaign, with_redeemed, with_user, with_win,
    LedgerView,
};
use crate::parse::{
    lemma_distribution_key_injective, lemma_enrolment_key_injective, lemma_entry_of,
    lemma_int_text_injective, lemma_key_kinds_differ,
};
use crate::redeem::{can_redeem, RedeemError};
use crate::store::{Ledger, Refusal};
use crate::text::{distribution_key_text, enrolment_key_text, int_text};
use crate::types::{Campaign, CampaignCoupon, Date, User};

verus! {

/// The durable state and the cache of one service.
pub struct Service {
    pub ledger: Ledger,
    pub cache: Cache,
}

/// Whether the cache holds nothing but what the durable state bears out:
/// each campaign that an enrolment list names was drawn from by that user on
/// that day, and each distribution that it holds is the campaign's.
pub open spec fn cache_sound(cache: Cache, l: LedgerView) -> bool {
    &&& forall|u: i32, d: Date, c: i32|
        d.wf() && #[trigger] lists_campaign(cache.list(enrolment_key_text(u as int, d)), c)
            ==> l.has_draw(u, c, d)
    &&& forall|c: i32|
        (#[trigger] cache.list(distribution_key_text(c as int))).len() == 0 || cache.list(
            distribution_key_text(c as int),
        ) == distribution_entries(distribution_of(l.types_of(c)))
}

/// The durable state after a draw with the given outcome: with the coupon
/// and the draw that holds it, with a draw that holds none, or as it was.
pub open spec fn after_draw(
    l: LedgerView,
    user_id: i32,
    campaign_id: i32,
    day: Date,
    outcome: OutcomeView,
) -> LedgerView {
    match outcome {
        Ok(Some(coupon)) => with_win(
            l,
            user_id,
            campaign_id,
            day,
            coupon.campaign_coupon_type_id,
            coupon.redeem_code,
        ),
        Ok(None) => with_blank_draw(l, user_id, campaign_id, day),
        Err(_) => l,
    }
}

/// Whether a draw from the campaign on the day can give nothing: the
/// probabilities leave something of one whole, or a coupon type that can be
/// sampled has nothing left of its quotas.
pub open spec fn may_give_nothing(l: LedgerView, campaign_id: i32, day: Date) -> bool {
    let types = l.types_of(campaign_id);
    ||| residual(distribution_of(types)) > 0
    ||| exists|k: int|
        0 <= k < types.len() && (#[trigger] types[k]).probability > 0 && !quota_available(
            types[k],
            day,
        )
}

/// Whether a draw from the campaign on the day can give a coupon: a coupon
/// type that can be sampled has something left of its quotas.
pub open spec fn may_give_coupon(l: LedgerView, campaign_id: i32, day: Date) -> bool {
    let types = l.types_of(campaign_id);
    exists|k: int|
        0 <= k < types.len() && (#[trigger] types[k]).probability > 0 && quota_available(
            types[k],
            day,
        )
}

/// Whether a draw of the user from the campaign on the day can end with the
/// outcome in the state `l`. The cases exclude each other on the state: a
/// user who drew today gets the conflict and nothing else, a user or
/// campaign that does not exist gives `NotFound` and nothing else, and any
/// other draw gives a coupon or nothing. It fails only where the table of
/// draws is full, or where a coupon could be given and the table of coupons
/// is full or the fresh redeem code is taken.
pub open spec fn outcome_possible(
    l: LedgerView,
    user_id: i32,
    campaign_id: i32,
    day: Date,
    outcome: OutcomeView,
) -> bool {
    let known = l.user_exists(user_id) && l.campaign_exists(campaign_id);
    match outcome {
        Err(DrawError::Conflict) => l.has_draw(user_id, campaign_id, day),
        Err(DrawError::NotFound) => !l.has_draw(user_id, campaign_id, day) && !known,
        Err(DrawError::Internal) => {
            &&& !l.has_draw(user_id, campaign_id, day)
            &&& known
            &&& l.draws.len() == table_limit() || may_give_coupon(l, campaign_id, day)
        },
        Ok(None) => {
            &&& !l.has_draw(user_id, campaign_id, day)
            &&& known
            &&& l.draws.len() < table_limit()
            &&& may_give_nothing(l, campaign_id, day)
        },
        Ok(Some(coupon)) => {
            &&& can_win(
                l,
                user_id,
                campaign_id,
                day,
                coupon.campaign_coupon_type_id,
                coupon.redeem_code,
            )
            &&& coupon == next_coupon(l, coupon.campaign_coupon_type_id, coupon.redeem_code)
            &&& is_code_text(coupon.redeem_code)
            &&& l.type_row(coupon.campaign_coupon_type_id).probability > 0
        },
    }
}

/// Whether the day is not before the last day on which any coupon type was
/// drawn.
pub open spec fn clock_not_back(l: LedgerView, day: Date) -> bool {
    forall|i: int| 0 <= i < l.types.len() ==> not_before_last(#[trigger] l.types[i], day)
}

/// What a draw does: the durable state obeys its rules and is the state
/// before with what the outcome adds, whatever the cache held; and where
/// the cache held nothing but what the state bore out, the outcome is one
/// that the state allows, and the cache still holds nothing else.
pub open spec fn drew(
    before: Service,
    after: Service,
    user_id: i32,
    campaign_id: i32,
    day: Date,
    outcome: OutcomeView,
) -> bool {
    let l = before.ledger@;
    &&& wf(after.ledger@)
    &&& after.ledger@ == after_draw(l, user_id, campaign_id, day, outcome)
    &&& daily_wf(l) && clock_not_back(l, day) ==> daily_wf(after.ledger@)
    &&& cache_sound(before.cache, l) ==> outcome_possible(l, user_id, campaign_id, day, outcome)
        && cache_sound(after.cache, after.ledger@)
}

/// The campaigns' coupon types follow each other: those of an earlier
/// campaign end before those of a later one begin.
pub proof fn lemma_spans_ordered(l: LedgerView, a: int, b: int)
    requires
        wf(l),
        0 <= a < b < l.campaigns.len(),
    ensures
        l.campaigns[a].first + l.campaigns[a].count <= l.campaigns[b].first,
    decreases b - a,
{
    assert(campaign_ok(l, b));
    assert(campaign_ok(l, b - 1));
    if a < b - 1 {
        lemma_spans_ordered(l, a, b - 1);
    }
}

/// The `k`-th coupon type of a campaign belongs to it and is found under
/// its id.
pub proof fn lemma_type_of_campaign(l: LedgerView, campaign_id: i32, k: int)
    requires
        wf(l),
        0 <= k < l.types_of(campaign_id).len(),
    ensures
        l.campaign_exists(campaign_id),
        l.type_exists(l.types_of(campaign_id)[k].id),
        l.type_row(l.types_of(campaign_id)[k].id) == l.types_of(campaign_id)[k],
        l.types_of(campaign_id)[k].campaign_id == campaign_id,
        l.types_of(campaign_id)[k].probability <= crate::types::MILLION,
{
    let span = l.campaigns[campaign_id - 1];
    assert(campaign_ok(l, campaign_id - 1));
    let i = span.first + k;
    assert(type_ok(l, i));
    let owner = l.types[i].campaign_id;
    if owner < campaign_id {
        lemma_spans_ordered(l, owner - 1, campaign_id - 1);
    }
    if owner > campaign_id {
        lemma_spans_ordered(l, campaign_id - 1, owner - 1);
    }
}

/// The distribution that the cache holds of a campaign's coupon types reads
/// back as the distribution.
pub proof fn lemma_distribution_reads_back(l: LedgerView, campaign_id: i32)
    requires
        wf(l),
        l.types_of(campaign_id).len() > 0,
    ensures
        decodes(distribution_entries(distribution_of(l.types_of(campaign_id)))),
        decoded(distribution_entries(distribution_of(l.types_of(campaign_id))))
            == distribution_of(l.types_of(campaign_id)),
{
    let dist = distribution_of(l.types_of(campaign_id));
    let entries = distribution_entries(dist);
    assert forall|i: int| 0 <= i < entries.len() implies (#[trigger] crate::parse::entry_of(
        entries[i],
    )) == Some(dist[i]) by {
        lemma_type_of_campaign(l, campaign_id, i);
        lemma_entry_of(dist[i].0, dist[i].1);
    }
    assert(decoded(entries) =~= dist);
}

/// A cache that is borne out by the state still is after the note that a
/// user drew from a campaign on a day, where the user did.
pub proof fn lemma_enrolment_note_sound(
    before: Cache,
    after: Cache,
    l: LedgerView,
    user_id: i32,
    day: Date,
    campaign_id: i32,
)
    requires
        cache_sound(before, l),
        day.wf(),
        l.has_draw(user_id, campaign_id, day),
        after.list(enrolment_key_text(user_id as int, day)) == before.list(
            enrolment_key_text(user_id as int, day),
        ) + seq![int_text(campaign_id as int)],
        forall|other: Seq<char>|
            other != enrolment_key_text(user_id as int, day) ==> #[trigger] after.list(other)
                == before.list(other),
    ensures
        cache_sound(after, l),
{
    let key = enrolment_key_text(user_id as int, day);
    assert forall|u: i32, d: Date, c: i32|
        d.wf() && #[trigger] lists_campaign(
            after.list(enrolment_key_text(u as int, d)),
            c,
        ) implies l.has_draw(u, c, d) by {
        let k = enrolment_key_text(u as int, d);
        if k == key {
            lemma_enrolment_key_injective(u, d, user_id, day);
            let entries = after.list(k);
            let i = choose|i: int|
                0 <= i < entries.len() && #[trigger] entries[i] == int_text(c as int);
            if i < before.list(k).len() {
                assert(before.list(k)[i] == int_text(c as int));
                assert(lists_campaign(before.list(enrolment_key_text(u as int, d)), c));
            } else {
                lemma_int_text_injective(c, campaign_id);
            }
        } else {
            assert(lists_campaign(before.list(enrolment_key_text(u as int, d)), c));
        }
    }
    assert forall|c: i32|
        (#[trigger] after.list(distribution_key_text(c as int))).len() == 0 || after.list(
            distribution_key_text(c as int),
        ) == distribution_entries(distribution_of(l.types_of(c))) by {
        lemma_key_kinds_differ(user_id, day, c);
        assert(after.list(distribution_key_text(c as int)) == before.list(
            distribution_key_text(c as int),
        ));
    }
}

/// A cache that is borne out by the state still is after the note of a
/// campaign's distribution, where it held none of that campaign.
pub proof fn lemma_distribution_note_sound(
    before: Cache,
    after: Cache,
    l: LedgerView,
    campaign_id: i32,
)
    requires
        cache_sound(before, l),
        before.list(distribution_key_text(campaign_id as int)).len() == 0,
        after.list(distribution_key_text(campaign_id as int)) == before.list(
            distribution_key_text(campaign_id as int),
        ) + distribution_entries(distribution_of(l.types_of(campaign_id))),
        forall|other: Seq<char>|
            other != distribution_key_text(campaign_id as int) ==> #[trigger] after.list(other)
                == before.list(other),
    ensures
        cache_sound(after, l),
{
    let key = distribution_key_text(campaign_id as int);
    assert forall|u: i32, d: Date, c: i32|
        d.wf() && #[trigger] lists_campaign(
            after.list(enrolment_key_text(u as int, d)),
            c,
        ) implies l.has_draw(u, c, d) by {
        lemma_key_kinds_differ(u, d, campaign_id);
        assert(lists_campaign(before.list(enrolment_key_text(u as int, d)), c));
    }
    assert forall|c: i32|
        (#[trigger] after.list(distribution_key_text(c as int))).len() == 0 || after.list(
            distribution_key_text(c as int),
        ) == distribution_entries(distribution_of(l.types_of(c))) by {
        if distribution_key_text(c as int) == key {
            lemma_distribution_key_injective(c, campaign_id);
            assert(after.list(key) =~= distribution_entries(
                distribution_of(l.types_of(campaign_id)),
            ));
        } else {
            assert(after.list(distribution_key_text(c as int)) == before.list(
                distribution_key_text(c as int),
            ));
        }
    }
}

/// A cache that is borne out by the state before a draw is borne out by
/// the state after it.
pub proof fn lemma_sound_after_draw(
    cache: Cache,
    l: LedgerView,
    user_id: i32,
    campaign_id: i32,
    day: Date,
    outcome: OutcomeView,
)
    requires
        wf(l),
        cache_sound(cache, l),
        outcome matches Ok(Some(coupon)) ==> l.type_exists(coupon.campaign_coupon_type_id),
    ensures
        cache_sound(cache, after_draw(l, user_id, campaign_id, day, outcome)),
{
    let n = after_draw(l, user_id, campaign_id, day, outcome);
    if outcome is Ok {
        assert forall|u: i32, d: Date, c: i32|
            d.wf() && #[trigger] lists_campaign(
                cache.list(enrolment_key_text(u as int, d)),
                c,
            ) implies n.has_draw(u, c, d) by {
            assert(l.has_draw(u, c, d));
            let i = choose|i: int|
                0 <= i < l.draws.len() && (#[trigger] l.draws[i]).user_id == u
                    && l.draws[i].campaign_id == c && l.draws[i].date == d;
            assert(n.draws[i] == l.draws[i]);
        }
        assert forall|c: i32|
            (#[trigger] cache.list(distribution_key_text(c as int))).len() == 0 || cache.list(
                distribution_key_text(c as int),
            ) == distribution_entries(distribution_of(n.types_of(c))) by {
            assert(distribution_of(n.types_of(c)) =~= distribution_of(l.types_of(c))) by {
                if l.campaign_exists(c) {
                    assert(campaign_ok(l, c - 1));
                }
            }
        }
    }
}

/// What an insert of a draw brought back, as the engine is told.
fn insert_event(inserted: Result<(), Refusal>) -> (r: Event)
    ensures
        r@ == match inserted {
            Ok(_) => crate::engine::EventView::Done,
            Err(Refusal::Duplicate) => crate::engine::EventView::Duplicate,
            Err(Refusal::Failed) => crate::engine::EventView::Failed,
        },
{
    match inserted {
        Ok(_) => Event::Done,
        Err(Refusal::Duplicate) => Event::Duplicate,
        Err(Refusal::Failed) => Event::Failed,
    }
}

/// The state of a draw that has no distribution yet.
pub open spec fn early(phase: Phase, user_id: i32, campaign_id: i32, day: Date) -> DrawStateView {
    DrawStateView {
        phase,
        user_id,
        campaign_id,
        today: day,
        type_ids: Seq::<i32>::empty(),
        chosen: None,
        coupon: None,
    }
}

impl Service {
    /// A service that holds nothing.
    pub fn new() -> (r: Service)
        ensures
            wf(r.ledger@),
            daily_wf(r.ledger@),
            cache_sound(r.cache, r.ledger@),
            r.ledger@.users.len() == 0,
            r.ledger@.campaigns.len() == 0,
            r.ledger@.types.len() == 0,
            r.ledger@.coupons.len() == 0,
            r.ledger@.draws.len() == 0,
            forall|key: Seq<char>| #[trigger] r.cache.list(key) == Seq::<Seq<char>>::empty(),
    {
        let r = Service { ledger: Ledger::new(), cache: Cache::new() };
        proof {
            assert forall|u: i32, d: Date, c: i32|
                d.wf() && #[trigger] lists_campaign(
                    r.cache.list(enrolment_key_text(u as int, d)),
                    c,
                ) implies r.ledger@.has_draw(u, c, d) by {
                assert(r.cache.list(enrolment_key_text(u as int, d)).len() == 0);
            }
        }
        r
    }

    /// Appends to the cache what the engine asks to remember.
    fn remember(&mut self, note: Option<CacheAppend>)
        ensures
            final(self).ledger == old(self).ledger,
            match note {
                Some(note) => {
                    &&& final(self).cache.list(note@.key) == old(self).cache.list(note@.key)
                        + note@.values
                    &&& forall|other: Seq<char>|
                        other != note@.key ==> #[trigger] final(self).cache.list(other)
                            == old(self).cache.list(other)
                },
                None => final(self).cache == old(self).cache,
            },
    {
        match note {
            Some(note) => {
                self.cache.append(note.key, note.values);
            },
            None => {},
        }
    }

    /// The rest of a draw once the weights are known: the sample, and what
    /// follows from it.
    fn settle(&mut self, state: DrawState, weights: Vec<u32>, Ghost(faithful): Ghost<bool>) -> (r:
        Outcome)
        requires
            wf(old(self).ledger@),
            state@.phase == Phase::Sampling,
            state@.today.wf(),
            state@.chosen is None,
            state@.coupon is None,
            old(self).ledger@.user_exists(state@.user_id),
            old(self).ledger@.campaign_exists(state@.campaign_id),
            !old(self).ledger@.has_draw(state@.user_id, state@.campaign_id, state@.today),
            faithful ==> state@.type_ids == type_ids_of(
                distribution_of(old(self).ledger@.types_of(state@.campaign_id)),
            ) && weights@ == draw_weights(
                distribution_of(old(self).ledger@.types_of(state@.campaign_id)),
            ),
        ensures
            wf(final(self).ledger@),
            final(self).ledger@ == after_draw(
                old(self).ledger@,
                state@.user_id,
                state@.campaign_id,
                state@.today,
                outcome_view(r),
            ),
            daily_wf(old(self).ledger@) && clock_not_back(old(self).ledger@, state@.today)
                ==> daily_wf(final(self).ledger@),
            faithful ==> outcome_possible(
                old(self).ledger@,
                state@.user_id,
                state@.campaign_id,
                state@.today,
                outcome_view(r),
            ),
            cache_sound(old(self).cache, old(self).ledger@) ==> cache_sound(
                final(self).cache,
                final(self).ledger@,
            ),
    {
        let ghost l = self.ledger@;
        let ghost cache = self.cache;
        let ghost user_id = state@.user_id;
        let ghost campaign_id = state@.campaign_id;
        let ghost day = state@.today;
        let ghost types = l.types_of(campaign_id);
        proof {
            if faithful {
                assert(campaign_ok(l, campaign_id - 1));
                crate::engine::lemma_total_of_rows(types);
                crate::engine::weights_sum_to_one_whole(distribution_of(types));
            }
        }
        let picked = pick(&weights);
        let (state, action) = match picked {
            Some(k) => step(state, Event::Picked(k)),
            None => step(state, Event::Failed),
        };
        match action {
            Action::InsertBlankDraw { user_id: u, campaign_id: c, date } => {
                let inserted = self.ledger.insert_blank_draw(u, c, date);
                let (_, action) = step(state, insert_event(inserted));
                match action {
                    Action::Finish { result, rollback: _, remember } => {
                        self.remember(remember);
                        proof {
                            if cache_sound(cache, l) {
                                lemma_sound_after_draw(cache, l, u, c, date, outcome_view(result));
                                if result is Ok {
                                    let n = self.ledger@;
                                    assert(n.draws[l.draws.len() as int].user_id == u);
                                    lemma_enrolment_note_sound(cache, self.cache, n, u, date, c);
                                }
                            }
                        }
                        result
                    },
                    _ => vstd::pervasive::unreached(),
                }
            },
            Action::TakeQuota { type_id, date } => {
                let ghost k = picked.unwrap() as int;
                proof {
                    if faithful {
                        lemma_type_of_campaign(l, campaign_id, k);
                    }
                }
                let available = self.ledger.quota_available(type_id, date);
                let (state, action) = step(state, Event::Flag(available));
                match action {
                    Action::InsertStarvedDraw { user_id: u, campaign_id: c, date } => {
                        let inserted = self.ledger.insert_blank_draw(u, c, date);
                        let (_, action) = step(state, insert_event(inserted));
                        match action {
                            Action::Finish { result, rollback: _, remember } => {
                                self.remember(remember);
                                proof {
                                    if faithful && result is Ok {
                                        assert(types[k].probability > 0);
                                        assert(!quota_available(types[k], day));
                                    }
                                    if cache_sound(cache, l) {
                                        lemma_sound_after_draw(
                                            cache,
                                            l,
                                            u,
                                            c,
                                            date,
                                            outcome_view(result),
                                        );
                                        if result is Ok {
                                            let n = self.ledger@;
                                            assert(n.draws[l.draws.len() as int].user_id == u);
                                            lemma_enrolment_note_sound(
                                                cache,
                                                self.cache,
                                                n,
                                                u,
                                                date,
                                                c,
                                            );
                                        }
                                    }
                                }
                                result
                            },
                            _ => vstd::pervasive::unreached(),
                        }
                    },
                    Action::InsertCoupon { type_id } => {
                        let code = random_code();
                        let event = if self.ledger.code_taken(&code) {
                            Event::Duplicate
                        } else if self.ledger.coupon_count() >= i32::MAX as usize {
                            Event::Failed
                        } else {
                            Event::Coupon(
                                CampaignCoupon {
                                    id: (self.ledger.coupon_count() + 1) as i32,
                                    redeem_code: code.clone(),
                                    campaign_coupon_type_id: type_id,
                                    redeemed: false,
                                },
                            )
                        };
                        let (state, action) = step(state, event);
                        match action {
                            Action::InsertWinningDraw {
                                user_id: u,
                                campaign_id: c,
                                coupon_id: _,
                                date,
                            } => {
                                let inserted = match self.ledger.insert_win(
                                    u,
                                    c,
                                    date,
                                    type_id,
                                    code,
                                ) {
                                    Ok(_) => Ok(()),
                                    Err(refusal) => Err(refusal),
                                };
                                let (_, action) = step(state, insert_event(inserted));
                                match action {
                                    Action::Finish { result, rollback: _, remember } => {
                                        self.remember(remember);
                                        proof {
                                            if faithful {
                                                assert(types[k].probability > 0
                                                    && quota_available(types[k], day));
                                            }
                                            if clock_not_back(l, day) {
                                                assert(not_before_last(l.types[type_id - 1], day));
                                            }
                                            if cache_sound(cache, l) {
                                                lemma_sound_after_draw(
                                                    cache,
                                                    l,
                                                    u,
                                                    c,
                                                    date,
                                                    outcome_view(result),
                                                );
                                                if result is Ok {
                                                    let n = self.ledger@;
                                                    assert(n.draws[l.draws.len() as int].user_id
                                                        == u);
                                                    lemma_enrolment_note_sound(
                                                        cache,
                                                        self.cache,
                                                        n,
                                                        u,
                                                        date,
                                                        c,
                                                    );
                                                }
                                            }
                                        }
                                        result
                                    },
                                    _ => vstd::pervasive::unreached(),
                                }
                            },
                            Action::Finish { result, rollback: _, remember } => {
                                self.remember(remember);
                                proof {
                                    if faithful {
                                        assert(types[k].probability > 0 && quota_available(
                                            types[k],
                                            day,
                                        ));
                                    }
                                }
                                result
                            },
                            _ => vstd::pervasive::unreached(),
                        }
                    },
                    _ => vstd::pervasive::unreached(),
                }
            },
            Action::Finish { result, rollback: _, remember } => {
                self.remember(remember);
                result
            },
            _ => vstd::pervasive::unreached(),
        }
    }
}

impl Service {
    /// The part of a draw that works on the durable state: the checks that
    /// the user and the campaign exist and that the user has not drawn
    /// today, the distribution, and what `settle` does with it.
    fn authoritative(&mut self, state: DrawState) -> (r: Outcome)
        requires
            wf(old(self).ledger@),
            state@.today.wf(),
            state@ == early(Phase::Existence, state@.user_id, state@.campaign_id, state@.today),
            cache_sound(old(self).cache, old(self).ledger@) ==> !lists_campaign(
                old(self).cache.list(enrolment_key_text(state@.user_id as int, state@.today)),
                state@.campaign_id,
            ),
        ensures
            drew(
                *old(self),
                *final(self),
                state@.user_id,
                state@.campaign_id,
                state@.today,
                outcome_view(r),
            ),
    {
        let ghost l = self.ledger@;
        let ghost cache = self.cache;
        let ghost user_id = state@.user_id;
        let ghost campaign_id = state@.campaign_id;
        let ghost day = state@.today;
        let known = self.ledger.user_exists(state.user_id) && self.ledger.campaign_exists(
            state.campaign_id,
        );
        let (state, action) = step(state, Event::Flag(known));
        let (u, c, date) = match action {
            Action::FindDraw { user_id, campaign_id, date } => (user_id, campaign_id, date),
            Action::Finish { result, rollback: _, remember } => {
                self.remember(remember);
                proof {
                    if l.has_draw(user_id, campaign_id, day) {
                        let i = choose|i: int|
                            0 <= i < l.draws.len() && (#[trigger] l.draws[i]).user_id == user_id
                                && l.draws[i].campaign_id == campaign_id && l.draws[i].date == day;
                        assert(draw_ok(l, i));
                    }
                }
                return result;
            },
            _ => vstd::pervasive::unreached(),
        };
        let found = self.ledger.has_draw(u, c, date);
        let (state, action) = step(state, Event::Flag(found));
        let key = match action {
            Action::ReadList { key } => key,
            Action::Finish { result, rollback: _, remember } => {
                self.remember(remember);
                proof {
                    if cache_sound(cache, l) {
                        lemma_enrolment_note_sound(cache, self.cache, l, u, date, c);
                    }
                }
                return result;
            },
            _ => vstd::pervasive::unreached(),
        };
        let entries = self.cache.read(&key);
        let (state, action) = step(state, Event::List(entries));
        proof {
            assert(campaign_ok(l, campaign_id - 1));
            if cache_sound(cache, l) {
                assert(cache.list(distribution_key_text(campaign_id as int)).len() == 0
                    || cache.list(distribution_key_text(campaign_id as int))
                    == distribution_entries(distribution_of(l.types_of(campaign_id))));
                lemma_distribution_reads_back(l, campaign_id);
            }
        }
        match action {
            Action::Sample { weights, remember } => {
                self.remember(remember);
                self.settle(state, weights, Ghost(cache_sound(cache, l)))
            },
            Action::LoadCouponTypes { campaign_id: c } => {
                let rows = self.ledger.coupon_types_of(c);
                let (state, action) = step(state, Event::CouponTypes(rows));
                match action {
                    Action::Sample { weights, remember } => {
                        self.remember(remember);
                        proof {
                            if cache_sound(cache, l) {
                                lemma_distribution_note_sound(cache, self.cache, l, c);
                            }
                        }
                        self.settle(state, weights, Ghost(true))
                    },
                    _ => vstd::pervasive::unreached(),
                }
            },
            _ => vstd::pervasive::unreached(),
        }
    }

    /// A draw of the user from the campaign on the day `day`: a coupon,
    /// nothing, or the reason for neither. The durable state changes by what
    /// the outcome adds and by nothing else, whatever the cache holds.
    pub fn draw(&mut self, user_id: i32, campaign_id: i32, day: Date) -> (r: Outcome)
        requires
            wf(old(self).ledger@),
            day.wf(),
        ensures
            drew(*old(self), *final(self), user_id, campaign_id, day, outcome_view(r)),
    {
        let (state, action) = start(user_id, campaign_id, day);
        let key = match action {
            Action::ReadList { key } => key,
            _ => vstd::pervasive::unreached(),
        };
        let entries = self.cache.read(&key);
        let (state, action) = step(state, Event::List(entries));
        match action {
            Action::CheckExistence { user_id: _, campaign_id: _ } => self.authoritative(state),
            Action::Finish { result, rollback: _, remember } => {
                self.remember(remember);
                result
            },
            _ => vstd::pervasive::unreached(),
        }
    }
}

/// A cache that is borne out by a state is borne out by any state with the
/// same draws and the same coupon types of every campaign that had some.
pub proof fn lemma_sound_carried(cache: Cache, l: LedgerView, n: LedgerView)
    requires
        cache_sound(cache, l),
        n.draws == l.draws,
        forall|c: i32|
            l.types_of(c).len() > 0 ==> #[trigger] distribution_of(n.types_of(c))
                == distribution_of(l.types_of(c)),
    ensures
        cache_sound(cache, n),
{
    assert forall|u: i32, d: Date, c: i32|
        d.wf() && #[trigger] lists_campaign(
            cache.list(enrolment_key_text(u as int, d)),
            c,
        ) implies n.has_draw(u, c, d) by {
        assert(l.has_draw(u, c, d));
    }
    assert forall|c: i32|
        (#[trigger] cache.list(distribution_key_text(c as int))).len() == 0 || cache.list(
            distribution_key_text(c as int),
        ) == distribution_entries(distribution_of(n.types_of(c))) by {
        if l.types_of(c).len() > 0 {
            assert(distribution_of(n.types_of(c)) == distribution_of(l.types_of(c)));
        } else {
            assert(distribution_entries(distribution_of(l.types_of(c))).len() == 0);
        }
    }
}

impl Service {
    /// Registers a user under the next id, unless the phone number is taken
    /// or the table is full.
    pub fn add_user(&mut self, phone: String) -> (r: Result<User, Refusal>)
        requires
            wf(old(self).ledger@),
        ensures
            wf(final(self).ledger@),
            daily_wf(old(self).ledger@) ==> daily_wf(final(self).ledger@),
            cache_sound(old(self).cache, old(self).ledger@) ==> cache_sound(
                final(self).cache,
                final(self).ledger@,
            ),
            final(self).cache == old(self).cache,
            match r {
                Ok(user) => {
                    &&& !old(self).ledger@.phone_taken(phone@)
                    &&& final(self).ledger@ == with_user(old(self).ledger@, phone@)
                    &&& user@ == final(self).ledger@.users.last()
                },
                Err(Refusal::Duplicate) => {
                    &&& old(self).ledger@.phone_taken(phone@)
                    &&& final(self).ledger@ == old(self).ledger@
                },
                Err(Refusal::Failed) => {
                    &&& !old(self).ledger@.phone_taken(phone@)
                    &&& old(self).ledger@.users.len() == table_limit()
                    &&& final(self).ledger@ == old(self).ledger@
                },
            },
    {
        let r = self.ledger.add_user(phone);
        proof {
            if cache_sound(old(self).cache, old(self).ledger@) {
                lemma_sound_carried(self.cache, old(self).ledger@, self.ledger@);
            }
        }
        r
    }

    /// Creates a campaign of the given coupon types if `validate` accepts
    /// them, and gives it back with its id. The cache is not touched: the
    /// distribution is noted on the first draw.
    pub fn create_campaign(&mut self, payload: &CreateCampaignPayload) -> (r: Result<
        Campaign,
        CampaignError,
    >)
        requires
            wf(old(self).ledger@),
        ensures
            wf(final(self).ledger@),
            daily_wf(old(self).ledger@) ==> daily_wf(final(self).ledger@),
            cache_sound(old(self).cache, old(self).ledger@) ==> cache_sound(
                final(self).cache,
                final(self).ledger@,
            ),
            final(self).cache == old(self).cache,
            match r {
                Ok(campaign) => verdict(payload.coupon_types@) is Ok && final(self).ledger@
                    == with_campaign(old(self).ledger@, new_type_views(payload.coupon_types@))
                    && campaign.id == final(self).ledger@.campaigns.len(),
                Err(e) => final(self).ledger@ == old(self).ledger@ && match verdict(
                    payload.coupon_types@,
                ) {
                    Err(v) => e == v,
                    Ok(_) => e == CampaignError::Internal && (old(self).ledger@.campaigns.len()
                        == table_limit() || old(self).ledger@.types.len()
                        + payload.coupon_types@.len() > table_limit()),
                },
            },
    {
        let r = self.ledger.create_campaign(payload);
        proof {
            let l = old(self).ledger@;
            let n = self.ledger@;
            if cache_sound(old(self).cache, l) && r is Ok {
                assert forall|c: i32| l.types_of(c).len() > 0 implies #[trigger] distribution_of(
                    n.types_of(c),
                ) == distribution_of(l.types_of(c)) by {
                    assert(campaign_ok(l, c - 1));
                    assert(n.types_of(c) =~= l.types_of(c));
                }
                lemma_sound_carried(self.cache, l, n);
            }
        }
        r
    }

    /// What the campaign shows of its coupon types, or `NotFound` where it
    /// does not exist.
    pub fn get_campaign(&self, campaign_id: i32) -> (r: Result<
        Vec<GetCampaignResultCouponType>,
        CampaignError,
    >)
        requires
            wf(self.ledger@),
        ensures
            !self.ledger@.campaign_exists(campaign_id) ==> r == Err::<
                Vec<GetCampaignResultCouponType>,
                CampaignError,
            >(CampaignError::NotFound { campaign_id }),
            self.ledger@.campaign_exists(campaign_id) ==> r is Ok && r->Ok_0.len()
                == self.ledger@.types_of(campaign_id).len() && forall|i: int|
                0 <= i < r->Ok_0.len() ==> {
                    let row = self.ledger@.types_of(campaign_id)[i];
                    let shown = #[trigger] r->Ok_0@[i];
                    &&& shown.description@ == row.description
                    &&& shown.probability == row.probability
                    &&& shown.total_quota == row.total_quota
                    &&& shown.daily_quota == row.daily_quota
                    &&& shown.current_quota == row.current_quota
                    &&& shown.current_daily_quota == row.current_daily_quota
                },
    {
        self.ledger.get_campaign(campaign_id)
    }

    /// Redeems the coupon if it exists and was not redeemed, and gives it
    /// back as it then is; a conflict otherwise. Whose coupon it is, is not
    /// asked: `user_id` is taken and not looked at.
    pub fn redeem(&mut self, coupon_id: i32, user_id: i32) -> (r: Result<
        CampaignCoupon,
        RedeemError,
    >)
        requires
            wf(old(self).ledger@),
        ensures
            wf(final(self).ledger@),
            daily_wf(old(self).ledger@) ==> daily_wf(final(self).ledger@),
            cache_sound(old(self).cache, old(self).ledger@) ==> cache_sound(
                final(self).cache,
                final(self).ledger@,
            ),
            final(self).cache == old(self).cache,
            r is Ok <==> can_redeem(old(self).ledger@, coupon_id),
            match r {
                Ok(coupon) => final(self).ledger@ == with_redeemed(old(self).ledger@, coupon_id)
                    && coupon@ == final(self).ledger@.coupon_row(coupon_id) && coupon.redeemed,
                Err(_) => final(self).ledger@ == old(self).ledger@,
            },
    {
        let r = self.ledger.redeem(coupon_id);
        proof {
            if cache_sound(old(self).cache, old(self).ledger@) {
                lemma_sound_carried(self.cache, old(self).ledger@, self.ledger@);
            }
        }
        r
    }

    /// A draw of the user from the campaign on the day that the server's
    /// clock shows. Where the clock shows no day that `Date` holds, the draw
    /// fails and nothing changes; otherwise it is `draw` on that day.
    pub fn draw_today(&mut self, user_id: i32, campaign_id: i32) -> (r: Outcome)
        requires
            wf(old(self).ledger@),
        ensures
            wf(final(self).ledger@),
            (r == Err::<Option<CampaignCoupon>, DrawError>(DrawError::Internal) && *final(self)
                == *old(self)) || exists|day: Date|
                day.wf() && #[trigger] drew(
                    *old(self),
                    *final(self),
                    user_id,
                    campaign_id,
                    day,
                    outcome_view(r),
                ),
    {
        match today_utc() {
            Some(day) => {
                let r = self.draw(user_id, campaign_id, day);
                assert(drew(*old(self), *self, user_id, campaign_id, day, outcome_view(r)));
                r
            },
            None => Err(DrawError::Internal),
        }
    }
}

/// The cache decides nothing. Of two services with one durable state, one
/// with a cache that the state bears out and one whose cache was drained, a
/// draw that ends with the same outcome leaves one and the same durable
/// state; the drained cache is borne out as well, so that the outcomes that
/// can be are the same for both: those that the durable state allows.
pub proof fn cache_decides_nothing(
    cached: Service,
    cached_after: Service,
    drained: Service,
    drained_after: Service,
    user_id: i32,
    campaign_id: i32,
    day: Date,
    outcome: OutcomeView,
)
    requires
        cached.ledger@ == drained.ledger@,
        cache_sound(cached.cache, cached.ledger@),
        forall|key: Seq<char>| (#[trigger] drained.cache.list(key)).len() == 0,
        drew(cached, cached_after, user_id, campaign_id, day, outcome),
        drew(drained, drained_after, user_id, campaign_id, day, outcome),
    ensures
        cached_after.ledger@ == drained_after.ledger@,
        cache_sound(drained.cache, drained.ledger@),
        outcome_possible(drained.ledger@, user_id, campaign_id, day, outcome),
        cache_sound(cached_after.cache, cached_after.ledger@),
        cache_sound(drained_after.cache, drained_after.ledger@),
{
    assert forall|u: i32, d: Date, c: i32|
        d.wf() && #[trigger] lists_campaign(
            drained.cache.list(enrolment_key_text(u as int, d)),
            c,
        ) implies drained.ledger@.has_draw(u, c, d) by {
        assert(drained.cache.list(enrolment_key_text(u as int, d)).len() == 0);
    }
}

/// A user who has a draw for the campaign on the day gets the conflict from
/// any further draw on that day, and the durable state stays as it is: no
/// second draw is stored, no quota is taken and no coupon is issued.
pub proof fn second_draw_conflicts(
    before: Service,
    after: Service,
    user_id: i32,
    campaign_id: i32,
    day: Date,
    outcome: OutcomeView,
)
    requires
        cache_sound(before.cache, before.ledger@),
        before.ledger@.has_draw(user_id, campaign_id, day),
        drew(before, after, user_id, campaign_id, day, outcome),
    ensures
        outcome == Err::<Option<crate::types::CouponView>, DrawError>(DrawError::Conflict),
        after.ledger@ == before.ledger@,
{
}

/// After a draw that gave a coupon or nothing, the user has a draw for the
/// campaign on the day.
pub proof fn draw_is_recorded(
    before: Service,
    after: Service,
    user_id: i32,
    campaign_id: i32,
    day: Date,
    outcome: OutcomeView,
)
    requires
        outcome is Ok,
        drew(before, after, user_id, campaign_id, day, outcome),
    ensures
        after.ledger@.has_draw(user_id, campaign_id, day),
        after.ledger@.draws.len() == before.ledger@.draws.len() + 1,
{
    let n = after.ledger@;
    assert(n.draws[before.ledger@.draws.len() as int].user_id == user_id);
}

/// A draw of a user or from a campaign that does not exist is not found,
/// and nothing is stored.
pub proof fn unknown_is_not_found(
    before: Service,
    after: Service,
    user_id: i32,
    campaign_id: i32,
    day: Date,
    outcome: OutcomeView,
)
    requires
        wf(before.ledger@),
        cache_sound(before.cache, before.ledger@),
        !(before.ledger@.user_exists(user_id) && before.ledger@.campaign_exists(campaign_id)),
        drew(before, after, user_id, campaign_id, day, outcome),
    ensures
        outcome == Err::<Option<crate::types::CouponView>, DrawError>(DrawError::NotFound),
        after.ledger@ == before.ledger@,
{
    let l = before.ledger@;
    if l.has_draw(user_id, campaign_id, day) {
        let i = choose|i: int|
            0 <= i < l.draws.len() && (#[trigger] l.draws[i]).user_id == user_id
                && l.draws[i].campaign_id == campaign_id && l.draws[i].date == day;
        assert(draw_ok(l, i));
    }
}

/// A first draw of the day from a campaign that can give no coupon, because
/// every coupon type that can be sampled has nothing left of its quotas,
/// gives nothing and is stored, as long as the table of draws has room: an
/// exhausted quota is an outcome and no error.
pub proof fn exhausted_gives_nothing(
    before: Service,
    after: Service,
    user_id: i32,
    campaign_id: i32,
    day: Date,
    outcome: OutcomeView,
)
    requires
        wf(before.ledger@),
        cache_sound(before.cache, before.ledger@),
        before.ledger@.user_exists(user_id),
        before.ledger@.campaign_exists(campaign_id),
        !before.ledger@.has_draw(user_id, campaign_id, day),
        before.ledger@.draws.len() < table_limit(),
        !may_give_coupon(before.ledger@, campaign_id, day),
        drew(before, after, user_id, campaign_id, day, outcome),
    ensures
        outcome == Ok::<Option<crate::types::CouponView>, DrawError>(None),
        after.ledger@ == with_blank_draw(before.ledger@, user_id, campaign_id, day),
{
    let l = before.ledger@;
    if let Ok(Some(coupon)) = outcome {
        let type_id = coupon.campaign_coupon_type_id;
        let span = l.campaigns[campaign_id - 1];
        assert(campaign_ok(l, campaign_id - 1));
        assert(type_ok(l, type_id - 1));
        let k = type_id - 1 - span.first;
        assert(l.types_of(campaign_id)[k] == l.type_row(type_id));
    }
}

} // verus!
