use coupon_draw::engine::{
    decode_entries, distribution_from, entries_of, ids_of, names_campaign, residual_of, start,
    step, weights_of, Action, CacheAppend, DrawError, DrawState, Event, Phase,
};
use coupon_draw::types::{CampaignCoupon, CampaignCouponType, Date};

fn today() -> Date {
    Date::new(2024, 3, 1).unwrap()
}

fn strings(items: &[&str]) -> Vec<String> {
    items.iter().map(|s| s.to_string()).collect()
}

fn enrolment_note() -> CacheAppend {
    CacheAppend { key: "user-5:enrolled-campaigns:2024-03-01".to_string(), values: strings(&["7"]) }
}

fn coupon_type(id: i32, probability: u32) -> CampaignCouponType {
    CampaignCouponType {
        id,
        campaign_id: 7,
        description: format!("type {}", id),
        probability,
        total_quota: None,
        daily_quota: None,
        current_quota: None,
        current_daily_quota: None,
        last_drawn_date: None,
    }
}

fn coupon() -> CampaignCoupon {
    CampaignCoupon {
        id: 31,
        redeem_code: "0b0e4a3c-5d6f-4a1b-8c2d-3e4f5a6b7c8d".to_string(),
        campaign_coupon_type_id: 12,
        redeemed: false,
    }
}

/// The state after the distribution of types 11, 12, 13 was read from the
/// durable store.
fn at_sampling() -> DrawState {
    let (state, _) = start(5, 7, today());
    let (state, _) = step(state, Event::List(vec![]));
    let (state, _) = step(state, Event::Flag(true));
    let (state, _) = step(state, Event::Flag(false));
    let (state, _) = step(state, Event::List(vec![]));
    let rows = vec![coupon_type(11, 500_000), coupon_type(12, 300_000), coupon_type(13, 0)];
    let (state, _) = step(state, Event::CouponTypes(rows));
    state
}

fn finish(result: Result<Option<CampaignCoupon>, DrawError>, rollback: bool, note: bool) -> Action {
    Action::Finish { result, rollback, remember: if note { Some(enrolment_note()) } else { None } }
}

#[test]
fn a_draw_begins_by_reading_the_enrolment_list() {
    let (state, action) = start(5, 7, today());
    assert_eq!(state.phase, Phase::Enrolment);
    assert_eq!(state.user_id, 5);
    assert_eq!(state.campaign_id, 7);
    assert_eq!(state.today, today());
    assert_eq!(state.type_ids, Vec::<i32>::new());
    assert_eq!(state.chosen, None);
    assert_eq!(state.coupon, None);
    assert_eq!(
        action,
        Action::ReadList { key: "user-5:enrolled-campaigns:2024-03-01".to_string() }
    );
}

#[test]
fn a_cache_hit_ends_the_draw_without_the_store() {
    let (state, _) = start(5, 7, today());
    let (state, action) = step(state, Event::List(strings(&["3", "7"])));
    assert_eq!(state.phase, Phase::Done);
    assert_eq!(action, finish(Err(DrawError::Conflict), false, false));
}

#[test]
fn a_cache_miss_goes_on_to_the_store() {
    for event in [
        Event::List(vec![]),
        Event::List(strings(&["3", "77", "07", " 7", "7 "])),
        Event::Failed,
    ] {
        let (state, _) = start(5, 7, today());
        let (state, action) = step(state, event);
        assert_eq!(state.phase, Phase::Existence);
        assert_eq!(action, Action::CheckExistence { user_id: 5, campaign_id: 7 });
    }
}

#[test]
fn a_missing_user_or_campaign_is_not_found() {
    let (state, _) = start(5, 7, today());
    let (state, _) = step(state, Event::List(vec![]));
    let (state, action) = step(state, Event::Flag(false));
    assert_eq!(state.phase, Phase::Done);
    assert_eq!(action, finish(Err(DrawError::NotFound), true, false));
}

#[test]
fn a_draw_found_in_the_store_repairs_the_cache() {
    let (state, _) = start(5, 7, today());
    let (state, _) = step(state, Event::List(vec![]));
    let (state, action) = step(state, Event::Flag(true));
    assert_eq!(state.phase, Phase::PriorDraw);
    assert_eq!(action, Action::FindDraw { user_id: 5, campaign_id: 7, date: today() });
    let (state, action) = step(state, Event::Flag(true));
    assert_eq!(state.phase, Phase::Done);
    assert_eq!(action, finish(Err(DrawError::Conflict), true, true));
}

#[test]
fn a_cached_distribution_is_sampled_without_the_store() {
    let (state, _) = start(5, 7, today());
    let (state, _) = step(state, Event::List(vec![]));
    let (state, _) = step(state, Event::Flag(true));
    let (state, action) = step(state, Event::Flag(false));
    assert_eq!(state.phase, Phase::Distribution);
    assert_eq!(action, Action::ReadList { key: "campaign-7:prob-dist".to_string() });
    let (state, action) = step(state, Event::List(strings(&["11:0.5", "12:0.3", "13:0"])));
    assert_eq!(state.phase, Phase::Sampling);
    assert_eq!(state.type_ids, vec![11, 12, 13]);
    assert_eq!(
        action,
        Action::Sample { weights: vec![500_000, 300_000, 0, 200_000], remember: None }
    );
}

#[test]
fn a_missing_or_unreadable_distribution_is_loaded_from_the_store() {
    for event in [
        Event::List(vec![]),
        Event::List(strings(&["11:0.5", "12:0.30"])),
        Event::List(strings(&["11:0.5", "garbage"])),
        Event::Failed,
    ] {
        let (state, _) = start(5, 7, today());
        let (state, _) = step(state, Event::List(vec![]));
        let (state, _) = step(state, Event::Flag(true));
        let (state, _) = step(state, Event::Flag(false));
        let (state, action) = step(state, event);
        assert_eq!(state.phase, Phase::CouponTypes);
        assert_eq!(action, Action::LoadCouponTypes { campaign_id: 7 });
    }
}

#[test]
fn a_loaded_distribution_is_noted_in_the_cache() {
    let (state, _) = start(5, 7, today());
    let (state, _) = step(state, Event::List(vec![]));
    let (state, _) = step(state, Event::Flag(true));
    let (state, _) = step(state, Event::Flag(false));
    let (state, _) = step(state, Event::List(vec![]));
    let rows = vec![coupon_type(11, 500_000), coupon_type(12, 300_000), coupon_type(13, 0)];
    let (state, action) = step(state, Event::CouponTypes(rows));
    assert_eq!(state.phase, Phase::Sampling);
    assert_eq!(state.type_ids, vec![11, 12, 13]);
    assert_eq!(
        action,
        Action::Sample {
            weights: vec![500_000, 300_000, 0, 200_000],
            remember: Some(CacheAppend {
                key: "campaign-7:prob-dist".to_string(),
                values: strings(&["11:0.5", "12:0.3", "13:0"]),
            }),
        }
    );
}

#[test]
fn a_campaign_without_coupon_types_is_not_found() {
    let (state, _) = start(5, 7, today());
    let (state, _) = step(state, Event::List(vec![]));
    let (state, _) = step(state, Event::Flag(true));
    let (state, _) = step(state, Event::Flag(false));
    let (state, _) = step(state, Event::List(vec![]));
    let (state, action) = step(state, Event::CouponTypes(vec![]));
    assert_eq!(state.phase, Phase::Done);
    assert_eq!(action, finish(Err(DrawError::NotFound), true, false));
}

#[test]
fn the_last_index_is_the_draw_of_nothing() {
    let (state, action) = step(at_sampling(), Event::Picked(3));
    assert_eq!(state.phase, Phase::Blank);
    assert_eq!(action, Action::InsertBlankDraw { user_id: 5, campaign_id: 7, date: today() });
    let (state, action) = step(state, Event::Done);
    assert_eq!(state.phase, Phase::Done);
    assert_eq!(action, finish(Ok(None), false, true));
}

#[test]
fn an_index_beyond_the_weights_fails_the_draw() {
    let (state, action) = step(at_sampling(), Event::Picked(4));
    assert_eq!(state.phase, Phase::Done);
    assert_eq!(action, finish(Err(DrawError::Internal), true, false));
}

#[test]
fn a_sampled_type_has_its_quota_taken_first() {
    let (state, action) = step(at_sampling(), Event::Picked(1));
    assert_eq!(state.phase, Phase::Quota);
    assert_eq!(state.chosen, Some(12));
    assert_eq!(action, Action::TakeQuota { type_id: 12, date: today() });
    let (state, action) = step(state, Event::Flag(true));
    assert_eq!(state.phase, Phase::Coupon);
    assert_eq!(action, Action::InsertCoupon { type_id: 12 });
    let (state, action) = step(state, Event::Coupon(coupon()));
    assert_eq!(state.phase, Phase::Winning);
    assert_eq!(state.coupon, Some(coupon()));
    assert_eq!(
        action,
        Action::InsertWinningDraw { user_id: 5, campaign_id: 7, coupon_id: 31, date: today() }
    );
    let (state, action) = step(state, Event::Done);
    assert_eq!(state.phase, Phase::Done);
    assert_eq!(action, finish(Ok(Some(coupon())), false, true));
}

#[test]
fn an_exhausted_quota_gives_nothing_and_uses_the_attempt() {
    let (state, _) = step(at_sampling(), Event::Picked(0));
    let (state, action) = step(state, Event::Flag(false));
    assert_eq!(state.phase, Phase::Starved);
    assert_eq!(action, Action::InsertStarvedDraw { user_id: 5, campaign_id: 7, date: today() });
    let (state, action) = step(state, Event::Done);
    assert_eq!(state.phase, Phase::Done);
    assert_eq!(action, finish(Ok(None), false, true));
}

#[test]
fn a_duplicate_draw_is_the_conflict_and_is_noted() {
    let (state, _) = step(at_sampling(), Event::Picked(3));
    let (_, action) = step(state, Event::Duplicate);
    assert_eq!(action, finish(Err(DrawError::Conflict), true, true));

    let (state, _) = step(at_sampling(), Event::Picked(0));
    let (state, _) = step(state, Event::Flag(false));
    let (_, action) = step(state, Event::Duplicate);
    assert_eq!(action, finish(Err(DrawError::Conflict), false, true));

    let (state, _) = step(at_sampling(), Event::Picked(0));
    let (state, _) = step(state, Event::Flag(true));
    let (state, _) = step(state, Event::Coupon(coupon()));
    let (_, action) = step(state, Event::Duplicate);
    assert_eq!(action, finish(Err(DrawError::Conflict), true, true));
}

#[test]
fn a_failed_store_ends_the_draw_and_rolls_back() {
    let (state, _) = start(5, 7, today());
    let (state, _) = step(state, Event::List(vec![]));
    let (done, action) = step(state, Event::Failed);
    assert_eq!(done.phase, Phase::Done);
    assert_eq!(action, finish(Err(DrawError::Internal), true, false));

    let (state, _) = step(at_sampling(), Event::Failed);
    assert_eq!(state.phase, Phase::Done);

    let (state, _) = step(at_sampling(), Event::Picked(0));
    let (_, action) = step(state, Event::Failed);
    assert_eq!(action, finish(Err(DrawError::Internal), true, false));

    let (state, _) = step(at_sampling(), Event::Picked(0));
    let (state, _) = step(state, Event::Flag(true));
    let (_, action) = step(state, Event::Duplicate);
    assert_eq!(action, finish(Err(DrawError::Internal), true, false));

    let (state, _) = step(at_sampling(), Event::Picked(0));
    let (state, _) = step(state, Event::Flag(false));
    let (_, action) = step(state, Event::Failed);
    assert_eq!(action, finish(Err(DrawError::Internal), false, false));
}

#[test]
fn an_event_out_of_turn_fails_the_draw() {
    let (state, _) = start(5, 7, today());
    let (state, action) = step(state, Event::Picked(0));
    assert_eq!(state.phase, Phase::Done);
    assert_eq!(action, finish(Err(DrawError::Internal), false, false));
    let (state, action) = step(state, Event::Done);
    assert_eq!(state.phase, Phase::Done);
    assert_eq!(action, finish(Err(DrawError::Internal), false, false));
    let (state, _) = start(5, 7, today());
    let (state, _) = step(state, Event::List(vec![]));
    let (_, action) = step(state, Event::Coupon(coupon()));
    assert_eq!(action, finish(Err(DrawError::Internal), true, false));
}

#[test]
fn no_draw_takes_more_than_nine_steps() {
    let mut longest = 0;
    for pick in 0..5usize {
        for quota in [true, false] {
            let (mut state, _) = start(5, 7, today());
            let rows = vec![coupon_type(11, 500_000), coupon_type(12, 300_000)];
            let events = vec![
                Event::List(vec![]),
                Event::Flag(true),
                Event::Flag(false),
                Event::List(vec![]),
                Event::CouponTypes(rows),
                Event::Picked(pick),
                if pick < 2 { Event::Flag(quota) } else { Event::Done },
                if quota { Event::Coupon(coupon()) } else { Event::Done },
                Event::Done,
                Event::Done,
            ];
            let mut steps = 0;
            for event in events {
                if state.phase == Phase::Done {
                    break;
                }
                let (next, _) = step(state, event);
                state = next;
                steps += 1;
            }
            assert_eq!(state.phase, Phase::Done);
            assert!(steps <= 9);
            longest = longest.max(steps);
        }
    }
    assert_eq!(longest, 9);
}

#[test]
fn the_enrolment_list_is_searched_for_the_campaign() {
    assert!(names_campaign(&strings(&["7"]), 7));
    assert!(names_campaign(&strings(&["1", "2", "7"]), 7));
    assert!(names_campaign(&strings(&["-7"]), -7));
    assert!(!names_campaign(&strings(&[]), 7));
    assert!(!names_campaign(&strings(&["70", "17", "+7", "07", ""]), 7));
}

#[test]
fn the_residual_is_what_is_left_of_one() {
    assert_eq!(residual_of(&vec![]), 1_000_000);
    assert_eq!(residual_of(&vec![(1, 500_000), (2, 300_000)]), 200_000);
    assert_eq!(residual_of(&vec![(1, 1_000_000)]), 0);
    assert_eq!(residual_of(&vec![(1, 1), (2, 2), (3, 3)]), 999_994);
}

#[test]
fn the_residual_is_never_negative() {
    assert_eq!(residual_of(&vec![(1, 700_000), (2, 700_000)]), 0);
    assert_eq!(residual_of(&vec![(1, u32::MAX), (2, u32::MAX), (3, 1)]), 0);
    assert_eq!(weights_of(&vec![(1, 700_000), (2, 700_000)]), vec![700_000, 700_000, 0]);
}

#[test]
fn weights_ids_and_entries_follow_the_distribution() {
    let dist = vec![(11, 500_000), (12, 300_000), (13, 0)];
    assert_eq!(weights_of(&dist), vec![500_000, 300_000, 0, 200_000]);
    assert_eq!(ids_of(&dist), vec![11, 12, 13]);
    assert_eq!(entries_of(&dist), strings(&["11:0.5", "12:0.3", "13:0"]));
    assert_eq!(decode_entries(&entries_of(&dist)), Some(dist));
    assert_eq!(weights_of(&vec![]), vec![1_000_000]);
    let rows = vec![coupon_type(11, 500_000), coupon_type(12, 300_000)];
    assert_eq!(distribution_from(&rows), vec![(11, 500_000), (12, 300_000)]);
}

#[test]
fn a_list_is_a_distribution_only_if_every_entry_is() {
    assert_eq!(decode_entries(&vec![]), None);
    assert_eq!(decode_entries(&strings(&["1:0.5", "x"])), None);
    assert_eq!(decode_entries(&strings(&["1:0.5", "2:1.5"])), None);
    assert_eq!(
        decode_entries(&strings(&["1:0.5", "2:0.5", "3:0.5"])),
        Some(vec![(1, 500_000), (2, 500_000), (3, 500_000)])
    );
}

#[test]
fn draw_errors_have_their_words_and_status() {
    assert_eq!(
        DrawError::Conflict.message(),
        "User has already drawn from this campaign. Come again tommorow"
    );
    assert_eq!(DrawError::NotFound.message(), "Campaign or user doesn't exist");
    assert_eq!(DrawError::Conflict.status(), 409);
    assert_eq!(DrawError::NotFound.status(), 404);
    assert_eq!(DrawError::Internal.status(), 500);
    assert!(!DrawError::Internal.message().is_empty());
}
