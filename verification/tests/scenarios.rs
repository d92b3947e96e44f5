use coupon_draw::campaign::{
    campaign_result, sum_probabilities, validate, CampaignError, CreateCampaignPayload,
    CreateCampaignPayloadCouponType, GetCampaignResultCouponType,
};
use coupon_draw::engine::DrawError;
use coupon_draw::redeem::{redeem_outcome, RedeemError};
use coupon_draw::service::Service;
use coupon_draw::store::{Ledger, Refusal};
use coupon_draw::text::{distribution_key, enrolment_key};
use coupon_draw::types::{Campaign, CampaignCoupon, CampaignCouponType, Date, Draw, User};

fn new_type(
    description: &str,
    probability: u32,
    total_quota: Option<i32>,
    daily_quota: Option<i32>,
) -> CreateCampaignPayloadCouponType {
    CreateCampaignPayloadCouponType {
        description: description.to_string(),
        probability,
        total_quota,
        daily_quota,
    }
}

fn payload(coupon_types: Vec<CreateCampaignPayloadCouponType>) -> CreateCampaignPayload {
    CreateCampaignPayload { coupon_types }
}

fn always(total_quota: Option<i32>, daily_quota: Option<i32>) -> CreateCampaignPayload {
    payload(vec![
        new_type("100%", 1_000_000, total_quota, daily_quota),
        new_type("0%", 0, None, None),
        new_type("0%", 0, None, None),
    ])
}

fn day(d: u32) -> Date {
    Date::new(2024, 3, d).unwrap()
}

fn with_users(n: usize) -> (Service, Vec<i32>) {
    let mut service = Service::new();
    let mut ids = Vec::new();
    for i in 0..n {
        ids.push(service.add_user(format!("+852 0000 {:04}", i)).unwrap().id);
    }
    (service, ids)
}

fn shown(service: &Service, campaign_id: i32) -> GetCampaignResultCouponType {
    service.get_campaign(campaign_id).unwrap().remove(0)
}

#[test]
fn create_campaign_fail_if_prob_exceed_1() {
    let mut service = Service::new();
    let request = payload(vec![
        new_type("50%", 500_000, None, None),
        new_type("30%", 300_000, None, None),
        new_type("30%", 300_000, None, None),
    ]);
    let error = service.create_campaign(&request).unwrap_err();
    assert_eq!(error, CampaignError::ProbabilityExceedsOne { total: 1_100_000 });
    assert_eq!(error.status(), 409);
    assert_eq!(
        error.message(),
        format!("Sum of probabilities of coupon types in campaign exceed 1: {}", 1.1)
    );
    assert_eq!(service.get_campaign(1), Err(CampaignError::NotFound { campaign_id: 1 }));
}

#[test]
fn create_campaign_and_draw_coupon() {
    let (mut service, users) = with_users(2);
    let campaign_id = service.create_campaign(&always(Some(50), Some(10))).unwrap().id;
    let user_id = users[0];
    let user_2_id = users[1];
    let today = day(1);

    let coupon = service.draw(user_id, campaign_id, today).unwrap().unwrap();
    assert_eq!(coupon.redeem_code.len(), 36);
    assert!(!coupon.redeemed);

    let missing = service.draw(999999, campaign_id, today);
    assert_eq!(missing, Err(DrawError::NotFound));
    assert_eq!(missing.unwrap_err().status(), 404);

    let redeemed = service.redeem(coupon.id, user_id).unwrap();
    assert!(redeemed.redeemed);
    assert_eq!(redeemed.id, coupon.id);
    assert_eq!(redeemed.redeem_code, coupon.redeem_code);
    let again = service.redeem(coupon.id, user_id);
    assert_eq!(again, Err(RedeemError::Conflict));
    assert_eq!(again.unwrap_err().status(), 409);

    let enrolled_key = enrolment_key(user_id, today);
    assert_eq!(enrolled_key, format!("user-{}:enrolled-campaigns:{}", user_id, "2024-03-01"));
    let enrolled = service.cache.read(&enrolled_key);
    assert_eq!(enrolled.len(), 1);
    assert_eq!(enrolled[0], campaign_id.to_string());

    let types_key = distribution_key(campaign_id);
    assert_eq!(types_key, format!("campaign-{}:prob-dist", campaign_id));
    let cached_types = service.cache.read(&types_key);
    assert_eq!(cached_types.len(), 3);
    for c in &cached_types {
        let parts: Vec<&str> = c.split(":").collect();
        assert!(parts.len() == 2);
    }
    assert_eq!(cached_types, vec!["1:1", "2:0", "3:0"]);

    let coupon_types = service.get_campaign(campaign_id).unwrap();
    assert_eq!(coupon_types.len(), 3);
    let hundred = &coupon_types[0];
    assert_eq!(hundred.description, "100%");
    assert_eq!(hundred.total_quota, Some(50));
    assert_eq!(hundred.daily_quota, Some(10));
    assert_eq!(hundred.current_quota, Some(49));
    assert_eq!(hundred.current_daily_quota, Some(9));

    let second = service.draw(user_id, campaign_id, today);
    assert_eq!(second, Err(DrawError::Conflict));
    assert_eq!(second.unwrap_err().status(), 409);
    assert_eq!(shown(&service, campaign_id).current_quota, Some(49));

    let other = service.draw(user_2_id, campaign_id, today).unwrap();
    assert!(other.is_some());
    let hundred = shown(&service, campaign_id);
    assert_eq!(hundred.current_quota, Some(48));
    assert_eq!(hundred.current_daily_quota, Some(8));

    service.cache.delete(enrolled_key.clone());
    assert_eq!(service.cache.read(&enrolled_key).len(), 0);
    let repaired = service.draw(user_id, campaign_id, today);
    assert_eq!(repaired, Err(DrawError::Conflict));
    assert_eq!(
        repaired.unwrap_err().message(),
        "User has already drawn from this campaign. Come again tommorow"
    );
    let enrolled = service.cache.read(&enrolled_key);
    assert_eq!(enrolled.len(), 1);
    assert_eq!(enrolled[0], campaign_id.to_string());

    let tomorrow = service.draw(user_id, campaign_id, day(2)).unwrap();
    assert!(tomorrow.is_some());
    let hundred = shown(&service, campaign_id);
    assert_eq!(hundred.current_quota, Some(47));
    assert_eq!(hundred.current_daily_quota, Some(9));
}

#[test]
fn a_drained_quota_gives_nothing_and_records_the_draw() {
    let (mut service, users) = with_users(1);
    let campaign_id = service.create_campaign(&always(Some(0), None)).unwrap().id;
    assert_eq!(shown(&service, campaign_id).current_quota, Some(0));
    let outcome = service.draw(users[0], campaign_id, day(1));
    assert_eq!(outcome, Ok(None));
    assert_eq!(service.ledger.coupon_count(), 0);
    assert_eq!(
        service.ledger.draws(),
        vec![Draw {
            id: 1,
            user_id: users[0],
            campaign_id,
            campaign_coupon_id: None,
            date: day(1),
        }]
    );
    assert_eq!(shown(&service, campaign_id).current_quota, Some(0));
    assert_eq!(service.cache.read(&enrolment_key(users[0], day(1))), vec![campaign_id.to_string()]);
    assert_eq!(service.draw(users[0], campaign_id, day(1)), Err(DrawError::Conflict));
}

#[test]
fn the_overall_quota_is_never_exceeded() {
    let (mut service, users) = with_users(6);
    let campaign_id = service.create_campaign(&always(Some(4), None)).unwrap().id;
    let mut won = 0;
    for (i, user) in users.iter().enumerate() {
        let outcome = service.draw(*user, campaign_id, day(1 + i as u32)).unwrap();
        if let Some(coupon) = outcome {
            won += 1;
            assert_eq!(coupon.campaign_coupon_type_id, 1);
            assert_eq!(coupon.id, won);
        }
        let left = shown(&service, campaign_id).current_quota.unwrap();
        assert_eq!(4 - left, service.ledger.coupon_count() as i32);
    }
    assert_eq!(won, 4);
    assert_eq!(service.ledger.coupon_count(), 4);
    assert_eq!(service.ledger.draws().len(), 6);
    assert_eq!(shown(&service, campaign_id).current_quota, Some(0));
}

#[test]
fn the_daily_quota_is_reset_on_the_first_draw_of_a_day() {
    let (mut service, users) = with_users(4);
    let campaign_id = service.create_campaign(&always(None, Some(2))).unwrap().id;
    assert_eq!(shown(&service, campaign_id).current_daily_quota, Some(2));
    assert!(service.draw(users[0], campaign_id, day(1)).unwrap().is_some());
    assert_eq!(shown(&service, campaign_id).current_daily_quota, Some(1));
    assert!(service.draw(users[1], campaign_id, day(1)).unwrap().is_some());
    assert_eq!(shown(&service, campaign_id).current_daily_quota, Some(0));
    assert_eq!(service.draw(users[2], campaign_id, day(1)), Ok(None));
    assert_eq!(shown(&service, campaign_id).current_daily_quota, Some(0));
    assert_eq!(service.ledger.coupon_count(), 2);

    assert!(service.draw(users[2], campaign_id, day(2)).unwrap().is_some());
    assert_eq!(shown(&service, campaign_id).current_daily_quota, Some(1));
    assert!(service.draw(users[3], campaign_id, day(2)).unwrap().is_some());
    assert_eq!(service.draw(users[0], campaign_id, day(2)), Ok(None));
    assert_eq!(shown(&service, campaign_id).current_daily_quota, Some(0));
    assert_eq!(shown(&service, campaign_id).current_quota, None);
    assert_eq!(service.ledger.coupon_count(), 4);

    let on_day_two = service
        .ledger
        .draws()
        .iter()
        .filter(|d| d.date == day(2) && d.campaign_coupon_id.is_some())
        .count();
    assert_eq!(on_day_two, 2);
}

#[test]
fn a_daily_quota_of_zero_gives_nothing_on_any_day() {
    let (mut service, users) = with_users(1);
    let campaign_id = service.create_campaign(&always(Some(5), Some(0))).unwrap().id;
    for d in 1..=3 {
        assert_eq!(service.draw(users[0], campaign_id, day(d)), Ok(None));
    }
    let hundred = shown(&service, campaign_id);
    assert_eq!(hundred.current_quota, Some(5));
    assert_eq!(hundred.current_daily_quota, Some(0));
    assert_eq!(service.ledger.coupon_count(), 0);
    assert_eq!(service.ledger.draws().len(), 3);
}

#[test]
fn unlimited_types_always_give_a_coupon() {
    let (mut service, users) = with_users(3);
    let campaign_id = service.create_campaign(&always(None, None)).unwrap().id;
    for d in 1..=5 {
        for user in &users {
            assert!(service.draw(*user, campaign_id, day(d)).unwrap().is_some());
        }
    }
    let hundred = shown(&service, campaign_id);
    assert_eq!(hundred.current_quota, None);
    assert_eq!(hundred.current_daily_quota, None);
    assert_eq!(service.ledger.coupon_count(), 15);
}

#[test]
fn a_campaign_of_zero_probability_gives_nothing() {
    let (mut service, users) = with_users(1);
    let campaign_id =
        service.create_campaign(&payload(vec![new_type("never", 0, Some(5), None)])).unwrap().id;
    for d in 1..=10 {
        assert_eq!(service.draw(users[0], campaign_id, day(d)), Ok(None));
    }
    assert_eq!(shown(&service, campaign_id).current_quota, Some(5));
    assert_eq!(service.ledger.coupon_count(), 0);
}

#[test]
fn one_draw_per_user_campaign_and_day() {
    let (mut service, users) = with_users(2);
    let first = service.create_campaign(&always(None, None)).unwrap().id;
    let second = service.create_campaign(&always(None, None)).unwrap().id;
    assert_ne!(first, second);
    for _ in 0..3 {
        for user in &users {
            for campaign in [first, second] {
                for d in [1, 2] {
                    let _ = service.draw(*user, campaign, day(d));
                }
            }
        }
    }
    let draws = service.ledger.draws();
    assert_eq!(draws.len(), 8);
    for (i, a) in draws.iter().enumerate() {
        assert_eq!(a.id, i as i32 + 1);
        for b in &draws[i + 1..] {
            assert!(
                !(a.user_id == b.user_id && a.campaign_id == b.campaign_id && a.date == b.date)
            );
        }
    }
}

#[test]
fn redeem_codes_are_unique_and_of_one_shape() {
    let (mut service, users) = with_users(40);
    let campaign_id = service.create_campaign(&always(None, None)).unwrap().id;
    let mut codes = Vec::new();
    for user in &users {
        let coupon = service.draw(*user, campaign_id, day(1)).unwrap().unwrap();
        assert_eq!(service.ledger.coupon(coupon.id), Some(coupon.clone()));
        codes.push(coupon.redeem_code);
    }
    for (i, code) in codes.iter().enumerate() {
        assert!(!codes[i + 1..].contains(code));
        assert_eq!(code.len(), 36);
        for (at, c) in code.chars().enumerate() {
            if at == 8 || at == 13 || at == 18 || at == 23 {
                assert_eq!(c, '-');
            } else {
                assert!(c.is_ascii_digit() || ('a'..='f').contains(&c));
            }
        }
    }
}

#[test]
fn a_drained_cache_changes_no_outcome() {
    let (mut cached, users) = with_users(3);
    let (mut drained, _) = with_users(3);
    let request = always(Some(2), Some(1));
    let campaign_id = cached.create_campaign(&request).unwrap().id;
    assert_eq!(drained.create_campaign(&request).unwrap().id, campaign_id);
    for d in 1..=3 {
        for user in &users {
            for _ in 0..2 {
                drained.cache.delete(enrolment_key(*user, day(d)));
                drained.cache.delete(distribution_key(campaign_id));
                let a = cached.draw(*user, campaign_id, day(d));
                let b = drained.draw(*user, campaign_id, day(d));
                assert_eq!(a.is_ok(), b.is_ok());
                assert_eq!(a.clone().err(), b.clone().err());
                assert_eq!(
                    a.clone().ok().flatten().map(|c| (c.id, c.campaign_coupon_type_id)),
                    b.clone().ok().flatten().map(|c| (c.id, c.campaign_coupon_type_id))
                );
            }
        }
    }
    assert_eq!(cached.ledger.draws(), drained.ledger.draws());
    assert_eq!(cached.get_campaign(campaign_id), drained.get_campaign(campaign_id));
    assert_eq!(cached.ledger.coupon_count(), 2);
    assert_eq!(drained.ledger.coupon_count(), 2);
}

#[test]
fn a_stale_enrolment_is_believed() {
    let (mut service, users) = with_users(1);
    let campaign_id = service.create_campaign(&always(None, None)).unwrap().id;
    service.cache.append(enrolment_key(users[0], day(1)), vec![campaign_id.to_string()]);
    assert_eq!(service.draw(users[0], campaign_id, day(1)), Err(DrawError::Conflict));
    assert_eq!(service.ledger.draws().len(), 0);
    assert!(service.draw(users[0], campaign_id, day(2)).unwrap().is_some());
}

#[test]
fn a_draw_from_an_unknown_campaign_is_not_found() {
    let (mut service, users) = with_users(1);
    assert_eq!(service.draw(users[0], 1, day(1)), Err(DrawError::NotFound));
    assert_eq!(service.draw(users[0], 0, day(1)), Err(DrawError::NotFound));
    assert_eq!(service.draw(users[0], -1, day(1)), Err(DrawError::NotFound));
    let campaign_id = service.create_campaign(&always(None, None)).unwrap().id;
    assert_eq!(service.draw(0, campaign_id, day(1)), Err(DrawError::NotFound));
    assert_eq!(service.draw(2, campaign_id, day(1)), Err(DrawError::NotFound));
    assert_eq!(service.ledger.draws().len(), 0);
    assert_eq!(service.cache.read(&enrolment_key(2, day(1))).len(), 0);
}

#[test]
fn a_draw_today_is_a_draw_on_the_day_of_the_clock() {
    let (mut service, users) = with_users(1);
    let campaign_id = service.create_campaign(&always(None, None)).unwrap().id;
    let coupon = service.draw_today(users[0], campaign_id).unwrap().unwrap();
    assert_eq!(coupon.id, 1);
    let draws = service.ledger.draws();
    assert_eq!(draws.len(), 1);
    assert!(draws[0].date.year >= 2024);
    assert_eq!(draws[0].campaign_coupon_id, Some(1));
    let again = service.draw_today(users[0], campaign_id);
    assert!(again == Err(DrawError::Conflict) || service.ledger.draws().len() == 2);
}

#[test]
fn draws_between_types_follow_the_probabilities() {
    let (mut service, users) = with_users(1);
    let request = payload(vec![
        new_type("half", 500_000, None, None),
        new_type("never", 0, None, None),
        new_type("quarter", 250_000, None, None),
    ]);
    let campaign_id = service.create_campaign(&request).unwrap().id;
    let mut seen = [0usize; 4];
    let mut days = Vec::new();
    for year in 2000..2003 {
        for month in 1..=12 {
            for d in 1..=28 {
                days.push(Date::new(year, month, d).unwrap());
            }
        }
    }
    for date in &days {
        match service.draw(users[0], campaign_id, *date).unwrap() {
            Some(coupon) => seen[coupon.campaign_coupon_type_id as usize] += 1,
            None => seen[0] += 1,
        }
    }
    assert_eq!(seen[2], 0);
    assert!(seen[1] > seen[3]);
    assert!(seen[3] > 0);
    assert!(seen[0] > 0);
    assert_eq!(seen[0] + seen[1] + seen[3], days.len());
    assert_eq!(service.cache.read(&distribution_key(campaign_id)), vec!["1:0.5", "2:0", "3:0.25"]);
}

#[test]
fn campaigns_are_held_to_the_rules() {
    assert_eq!(validate(&payload(vec![])), Err(CampaignError::NoCouponTypes));
    assert_eq!(validate(&payload(vec![new_type("a", 1_000_000, None, None)])), Ok(()));
    assert_eq!(
        validate(&payload(vec![
            new_type("a", 500_000, None, None),
            new_type("b", 500_000, Some(0), Some(0)),
        ])),
        Ok(())
    );
    assert_eq!(
        validate(&payload(vec![
            new_type("a", 500_000, None, None),
            new_type("b", 500_001, None, None),
        ])),
        Err(CampaignError::ProbabilityExceedsOne { total: 1_000_001 })
    );
    assert_eq!(
        validate(&payload(vec![new_type("a", 1, Some(-1), None)])),
        Err(CampaignError::NegativeQuota)
    );
    assert_eq!(
        validate(&payload(vec![new_type("a", 1, Some(1), None), new_type("b", 1, None, Some(-5))])),
        Err(CampaignError::NegativeQuota)
    );
    assert_eq!(
        validate(&payload(vec![new_type("a", u32::MAX, Some(-1), None)])),
        Err(CampaignError::ProbabilityExceedsOne { total: u32::MAX as u128 })
    );
    assert_eq!(validate(&payload(vec![new_type("a", 0, None, None)])), Ok(()));
}

#[test]
fn probabilities_are_summed_exactly() {
    assert_eq!(sum_probabilities(&payload(vec![])), 0);
    let ten_tenths = payload((0..10).map(|_| new_type("tenth", 100_000, None, None)).collect());
    assert_eq!(sum_probabilities(&ten_tenths), 1_000_000);
    assert_eq!(validate(&ten_tenths), Ok(()));
    let huge = payload((0..3).map(|_| new_type("max", u32::MAX, None, None)).collect());
    assert_eq!(sum_probabilities(&huge), 3 * (u32::MAX as u128));
}

#[test]
fn campaign_errors_have_their_words_and_status() {
    let not_found = CampaignError::NotFound { campaign_id: 12 };
    assert_eq!(
        not_found.message(),
        "Campaign ID 12 doesn't exist, or campaign doesn't have any coupon types"
    );
    assert_eq!(not_found.status(), 404);
    let too_much = CampaignError::ProbabilityExceedsOne { total: 2_500_000 };
    assert_eq!(
        too_much.message(),
        "Sum of probabilities of coupon types in campaign exceed 1: 2.5"
    );
    assert_eq!(too_much.status(), 409);
    assert_eq!(CampaignError::NoCouponTypes.status(), 409);
    assert_eq!(CampaignError::NegativeQuota.status(), 409);
    assert_eq!(CampaignError::Internal.status(), 500);
    assert!(!CampaignError::NoCouponTypes.message().is_empty());
    assert!(!CampaignError::NegativeQuota.message().is_empty());
    assert!(!CampaignError::Internal.message().is_empty());
}

#[test]
fn a_created_campaign_shows_its_types_with_whole_quotas() {
    let mut service = Service::new();
    let request = payload(vec![
        new_type("10% off", 100_000, Some(100), Some(30)),
        new_type("free", 1_000, Some(1), None),
        new_type("sticker", 0, None, Some(7)),
    ]);
    assert_eq!(service.create_campaign(&request), Ok(Campaign { id: 1 }));
    assert_eq!(service.create_campaign(&request), Ok(Campaign { id: 2 }));
    let types = service.get_campaign(2).unwrap();
    assert_eq!(
        types,
        vec![
            GetCampaignResultCouponType {
                description: "10% off".to_string(),
                probability: 100_000,
                total_quota: Some(100),
                daily_quota: Some(30),
                current_quota: Some(100),
                current_daily_quota: Some(30),
            },
            GetCampaignResultCouponType {
                description: "free".to_string(),
                probability: 1_000,
                total_quota: Some(1),
                daily_quota: None,
                current_quota: Some(1),
                current_daily_quota: None,
            },
            GetCampaignResultCouponType {
                description: "sticker".to_string(),
                probability: 0,
                total_quota: None,
                daily_quota: Some(7),
                current_quota: None,
                current_daily_quota: Some(7),
            },
        ]
    );
    let rows = service.ledger.coupon_types_of(2);
    assert_eq!(rows.iter().map(|r| r.id).collect::<Vec<_>>(), vec![4, 5, 6]);
    assert!(rows.iter().all(|r| r.campaign_id == 2 && r.last_drawn_date.is_none()));
    assert_eq!(service.ledger.coupon_types_of(3), vec![]);
    assert_eq!(service.get_campaign(3), Err(CampaignError::NotFound { campaign_id: 3 }));
    assert_eq!(service.get_campaign(0), Err(CampaignError::NotFound { campaign_id: 0 }));
    assert_eq!(service.cache.read(&distribution_key(1)).len(), 0);
}

#[test]
fn a_refused_campaign_stores_nothing() {
    let mut service = Service::new();
    assert_eq!(service.create_campaign(&payload(vec![])), Err(CampaignError::NoCouponTypes));
    assert_eq!(
        service.create_campaign(&payload(vec![new_type("a", 1, Some(-1), None)])),
        Err(CampaignError::NegativeQuota)
    );
    assert!(!service.ledger.campaign_exists(1));
    assert_eq!(service.create_campaign(&always(None, None)), Ok(Campaign { id: 1 }));
    assert!(service.ledger.campaign_exists(1));
    assert!(!service.ledger.campaign_exists(2));
}

#[test]
fn what_a_campaign_shows_follows_its_rows() {
    assert_eq!(campaign_result(9, &vec![]), Err(CampaignError::NotFound { campaign_id: 9 }));
    let row = CampaignCouponType {
        id: 4,
        campaign_id: 9,
        description: "10% off".to_string(),
        probability: 100_000,
        total_quota: Some(50),
        daily_quota: Some(10),
        current_quota: Some(49),
        current_daily_quota: Some(9),
        last_drawn_date: Some(day(1)),
    };
    assert_eq!(
        campaign_result(9, &vec![row]),
        Ok(vec![GetCampaignResultCouponType {
            description: "10% off".to_string(),
            probability: 100_000,
            total_quota: Some(50),
            daily_quota: Some(10),
            current_quota: Some(49),
            current_daily_quota: Some(9),
        }])
    );
}

#[test]
fn users_get_the_next_id_and_a_phone_of_their_own() {
    let mut service = Service::new();
    assert_eq!(
        service.add_user("+852 0000 0000".to_string()),
        Ok(User { id: 1, phone: "+852 0000 0000".to_string() })
    );
    assert_eq!(service.add_user("+852 0000 0000".to_string()), Err(Refusal::Duplicate));
    assert_eq!(
        service.add_user("+852 1234 5678".to_string()),
        Ok(User { id: 2, phone: "+852 1234 5678".to_string() })
    );
    assert!(service.ledger.user_exists(1));
    assert!(service.ledger.user_exists(2));
    assert!(!service.ledger.user_exists(3));
    assert!(!service.ledger.user_exists(0));
    assert!(service.ledger.phone_taken(&"+852 1234 5678".to_string()));
    assert!(!service.ledger.phone_taken(&"+852 1234 567".to_string()));
}

#[test]
fn a_coupon_is_redeemed_once() {
    let (mut service, users) = with_users(2);
    let campaign_id = service.create_campaign(&always(None, None)).unwrap().id;
    let first = service.draw(users[0], campaign_id, day(1)).unwrap().unwrap();
    let second = service.draw(users[1], campaign_id, day(1)).unwrap().unwrap();
    assert_eq!(service.redeem(0, users[0]), Err(RedeemError::Conflict));
    assert_eq!(service.redeem(3, users[0]), Err(RedeemError::Conflict));
    assert_eq!(service.redeem(-1, users[0]), Err(RedeemError::Conflict));
    let redeemed = service.redeem(first.id, users[1]).unwrap();
    assert_eq!(redeemed, CampaignCoupon { redeemed: true, ..first.clone() });
    assert_eq!(service.ledger.coupon(first.id), Some(redeemed));
    assert_eq!(service.ledger.coupon(second.id), Some(second.clone()));
    for _ in 0..3 {
        assert_eq!(service.redeem(first.id, users[0]), Err(RedeemError::Conflict));
    }
    assert!(service.draw(users[0], campaign_id, day(2)).unwrap().is_some());
    assert_eq!(service.redeem(first.id, users[0]), Err(RedeemError::Conflict));
    assert!(service.redeem(second.id, users[1]).unwrap().redeemed);
    assert_eq!(service.redeem(second.id, users[1]), Err(RedeemError::Conflict));
    assert_eq!(
        RedeemError::Conflict.message(),
        "Coupon not found, or it has already been redeemed"
    );
}

#[test]
fn a_redemption_answers_with_the_updated_row() {
    let coupon = CampaignCoupon {
        id: 3,
        redeem_code: "code".to_string(),
        campaign_coupon_type_id: 1,
        redeemed: true,
    };
    assert_eq!(redeem_outcome(Some(coupon.clone())), Ok(coupon));
    assert_eq!(redeem_outcome(None), Err(RedeemError::Conflict));
}

#[test]
fn the_ledger_refuses_what_breaks_its_rules() {
    let mut ledger = Ledger::new();
    let user = ledger.add_user("1".to_string()).unwrap().id;
    assert_eq!(ledger.insert_blank_draw(user, 1, day(1)), Err(Refusal::Failed));
    let campaign = ledger.create_campaign(&always(Some(1), None)).unwrap().id;
    let other = ledger.create_campaign(&always(None, None)).unwrap().id;
    assert_eq!(ledger.insert_blank_draw(9, campaign, day(1)), Err(Refusal::Failed));
    assert_eq!(
        ledger.insert_win(user, campaign, day(1), 4, "a".to_string()),
        Err(Refusal::Failed)
    );
    assert_eq!(
        ledger.insert_win(user, campaign, day(1), 99, "a".to_string()),
        Err(Refusal::Failed)
    );
    assert!(ledger.quota_available(1, day(1)));
    assert!(!ledger.quota_available(0, day(1)));
    assert!(!ledger.quota_available(7, day(1)));
    let coupon = ledger.insert_win(user, campaign, day(1), 1, "a".to_string()).unwrap();
    assert_eq!(
        coupon,
        CampaignCoupon {
            id: 1,
            redeem_code: "a".to_string(),
            campaign_coupon_type_id: 1,
            redeemed: false,
        }
    );
    assert!(!ledger.quota_available(1, day(2)));
    assert!(ledger.code_taken(&"a".to_string()));
    assert!(!ledger.code_taken(&"b".to_string()));
    assert!(ledger.has_draw(user, campaign, day(1)));
    assert!(!ledger.has_draw(user, campaign, day(2)));
    assert!(!ledger.has_draw(user, other, day(1)));
    assert_eq!(
        ledger.insert_win(user, campaign, day(1), 1, "b".to_string()),
        Err(Refusal::Duplicate)
    );
    assert_eq!(
        ledger.insert_win(user, other, day(1), 4, "a".to_string()),
        Err(Refusal::Duplicate)
    );
    assert_eq!(
        ledger.insert_win(user, campaign, day(2), 1, "b".to_string()),
        Err(Refusal::Failed)
    );
    assert_eq!(ledger.insert_blank_draw(user, campaign, day(1)), Err(Refusal::Duplicate));
    assert_eq!(ledger.insert_blank_draw(user, campaign, day(2)), Ok(()));
    assert_eq!(ledger.draws().len(), 2);
    assert_eq!(ledger.coupon_count(), 1);
    assert_eq!(ledger.coupon(2), None);
    assert_eq!(ledger.redeem(1).map(|c| c.redeemed), Ok(true));
    assert_eq!(ledger.redeem(1), Err(RedeemError::Conflict));
}

#[test]
fn a_clock_set_back_begins_the_daily_quota_anew() {
    let (mut service, users) = with_users(6);
    let campaign_id = service.create_campaign(&always(None, Some(2))).unwrap().id;
    assert!(service.draw(users[0], campaign_id, day(5)).unwrap().is_some());
    assert!(service.draw(users[1], campaign_id, day(5)).unwrap().is_some());
    assert_eq!(service.draw(users[2], campaign_id, day(5)), Ok(None));
    assert!(service.draw(users[0], campaign_id, day(4)).unwrap().is_some());
    assert_eq!(shown(&service, campaign_id).current_daily_quota, Some(1));
    assert!(service.draw(users[3], campaign_id, day(5)).unwrap().is_some());
    assert_eq!(shown(&service, campaign_id).current_daily_quota, Some(1));
    let on_day_five = service
        .ledger
        .draws()
        .iter()
        .filter(|d| d.date == day(5) && d.campaign_coupon_id.is_some())
        .count();
    assert_eq!(on_day_five, 3);
}
