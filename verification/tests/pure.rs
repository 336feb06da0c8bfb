use game_rooms::codes::{random_room_code, validate_room_code};
use game_rooms::errors::{CustomError, GameError};
use game_rooms::foods::FoodCategory;
use game_rooms::protocol::Role;
use game_rooms::roles::{build_reveals, deal_witness_werewolf_roles, wolf_count};
use game_rooms::sign::{generate_user_sig, usersig_encode_urlsafe};
use game_rooms::tally::tally_votes;

#[test]
fn wolf_count_follows_step_function() {
    assert_eq!(wolf_count(0), 0);
    assert_eq!(wolf_count(1), 1);
    assert_eq!(wolf_count(5), 1);
    assert_eq!(wolf_count(6), 2);
    assert_eq!(wolf_count(8), 2);
    assert_eq!(wolf_count(9), 3);
    assert_eq!(wolf_count(11), 3);
    assert_eq!(wolf_count(12), 4);
    assert_eq!(wolf_count(15), 4);
    assert_eq!(wolf_count(16), 5);
    assert_eq!(wolf_count(18), 6);
    assert_eq!(wolf_count(30), 10);
}

fn count_role(assignments: &[(i64, Role)], role: Role) -> usize {
    assignments.iter().filter(|(_, r)| *r == role).count()
}

#[test]
fn deal_counts_for_small_table() {
    let ids: Vec<i64> = vec![10, 20, 30, 40];
    let dealt = deal_witness_werewolf_roles(&ids);
    assert_eq!(dealt.len(), 4);
    assert_eq!(count_role(&dealt, Role::Wolf), 1);
    assert_eq!(count_role(&dealt, Role::Witness), 0);
    assert_eq!(count_role(&dealt, Role::Villager), 3);
    let mut got: Vec<i64> = dealt.iter().map(|(u, _)| *u).collect();
    got.sort();
    assert_eq!(got, vec![10, 20, 30, 40]);
}

#[test]
fn deal_includes_witness_from_five_players() {
    let ids: Vec<i64> = vec![1, 2, 3, 4, 5];
    let dealt = deal_witness_werewolf_roles(&ids);
    assert_eq!(count_role(&dealt, Role::Wolf), 1);
    assert_eq!(count_role(&dealt, Role::Witness), 1);
    assert_eq!(count_role(&dealt, Role::Villager), 3);
}

#[test]
fn deal_counts_for_nine_players() {
    let ids: Vec<i64> = (1..=9).collect();
    let dealt = deal_witness_werewolf_roles(&ids);
    assert_eq!(count_role(&dealt, Role::Wolf), 3);
    assert_eq!(count_role(&dealt, Role::Witness), 1);
    assert_eq!(count_role(&dealt, Role::Villager), 5);
}

#[test]
fn reveal_asymmetry_holds_for_every_role() {
    let ids: Vec<i64> = (1..=7).collect();
    let dealt = deal_witness_werewolf_roles(&ids);
    let mut wolves: Vec<i64> = dealt
        .iter()
        .filter(|(_, r)| *r == Role::Wolf)
        .map(|(u, _)| *u)
        .collect();
    wolves.sort();
    let reveals = build_reveals(&dealt);
    assert_eq!(reveals.len(), dealt.len());
    for (i, (to, reveal)) in reveals.iter().enumerate() {
        assert_eq!(*to, dealt[i].0);
        assert_eq!(reveal.to_user_id, dealt[i].0);
        assert_eq!(reveal.role, dealt[i].1);
        assert_eq!(reveal.wolf_count, wolves.len() as i64);
        assert_eq!(reveal.total_players, 7);
        let mut listed = reveal.wolf_user_ids.clone();
        listed.sort();
        match reveal.role {
            Role::Villager => assert!(listed.is_empty()),
            Role::Witness => assert_eq!(listed, wolves),
            Role::Wolf => {
                let mut expected: Vec<i64> =
                    wolves.iter().copied().filter(|w| *w != *to).collect();
                expected.sort();
                assert_eq!(listed, expected);
            }
        }
    }
}

#[test]
fn tally_eliminates_the_sole_top_candidate() {
    // alive = {A,B,C} = {1,2,3}; votes A->B, B->B, C->A: B falls 2 to 1
    let votes: Vec<(i64, Option<i64>)> = vec![(1, Some(2)), (2, Some(2)), (3, Some(1))];
    let alive: Vec<i64> = vec![1, 2, 3];
    assert_eq!(tally_votes(&votes, &alive), Some(2));
}

#[test]
fn tally_tie_eliminates_nobody() {
    let votes: Vec<(i64, Option<i64>)> = vec![(1, Some(2)), (2, Some(1)), (3, None)];
    let alive: Vec<i64> = vec![1, 2, 3];
    assert_eq!(tally_votes(&votes, &alive), None);
}

#[test]
fn tally_all_abstain_eliminates_nobody() {
    let votes: Vec<(i64, Option<i64>)> = vec![(1, None), (2, None), (3, None)];
    let alive: Vec<i64> = vec![1, 2, 3];
    assert_eq!(tally_votes(&votes, &alive), None);
}

#[test]
fn tally_ignores_votes_for_dead_targets() {
    let votes: Vec<(i64, Option<i64>)> = vec![(1, Some(99)), (2, Some(1))];
    let alive: Vec<i64> = vec![1, 2];
    assert_eq!(tally_votes(&votes, &alive), Some(1));
}

#[test]
fn room_code_format_is_enforced() {
    assert!(validate_room_code("AB12C9").is_ok());
    assert_eq!(validate_room_code("ab12c9"), Err(GameError::InvalidFormat));
    assert_eq!(validate_room_code("AB12C"), Err(GameError::InvalidFormat));
    assert_eq!(validate_room_code("AB12C99"), Err(GameError::InvalidFormat));
    assert_eq!(validate_room_code("AB12C!"), Err(GameError::InvalidFormat));
    assert_eq!(validate_room_code(""), Err(GameError::InvalidFormat));
}

#[test]
fn random_room_codes_are_well_formed() {
    for _ in 0..50 {
        let code = random_room_code();
        assert!(validate_room_code(&code).is_ok());
    }
}

#[test]
fn urlsafe_encoding_replaces_the_three_specials() {
    assert_eq!(usersig_encode_urlsafe("a+b/c=".to_string()), "a*b-c_");
    assert_eq!(usersig_encode_urlsafe(String::new()), "");
    assert_eq!(usersig_encode_urlsafe("plain".to_string()), "plain");
}

#[test]
fn user_sig_round_trips_through_its_layers() {
    let sig = generate_user_sig("4242", 1400000000, "test-signing-key", 86400, 1700000000)
        .expect("minting cannot fail");
    assert!(!sig.is_empty());
    // undo the URL-safe mapping, the base64, and the compression
    let b64: String = sig
        .chars()
        .map(|c| match c {
            '*' => '+',
            '-' => '/',
            '_' => '=',
            other => other,
        })
        .collect();
    let compressed = base64::Engine::decode(&base64::engine::general_purpose::STANDARD, b64)
        .expect("valid base64");
    let mut decoder = flate2::read::ZlibDecoder::new(compressed.as_slice());
    let mut payload = String::new();
    std::io::Read::read_to_string(&mut decoder, &mut payload).expect("valid zlib stream");
    let value: serde_json::Value = serde_json::from_str(&payload).expect("valid JSON payload");
    assert_eq!(value["TLS.ver"], "2.0");
    assert_eq!(value["TLS.identifier"], "4242");
    assert_eq!(value["TLS.sdkappid"], 1400000000u64);
    assert_eq!(value["TLS.expire"], 86400u64);
    assert_eq!(value["TLS.time"], 1700000000i64);
    let tag = value["TLS.sig"].as_str().expect("signature present");
    // 32 HMAC bytes encode to 44 base64 characters
    assert_eq!(tag.len(), 44);
    // a different key must change the inner signature
    let sig2 = generate_user_sig("4242", 1400000000, "other-key", 86400, 1700000000).unwrap();
    assert_ne!(sig, sig2);
    // the pipeline is deterministic
    let sig3 = generate_user_sig("4242", 1400000000, "test-signing-key", 86400, 1700000000).unwrap();
    assert_eq!(sig, sig3);
}

#[test]
fn food_categories_map_to_their_codes() {
    assert_eq!(FoodCategory::from_i32(1), Some(FoodCategory::Breakfast));
    assert_eq!(FoodCategory::from_i32(2), Some(FoodCategory::Lunch));
    assert_eq!(FoodCategory::from_i32(3), Some(FoodCategory::AfternoonTea));
    assert_eq!(FoodCategory::from_i32(4), Some(FoodCategory::Dinner));
    assert_eq!(FoodCategory::from_i32(5), Some(FoodCategory::MidnightSnack));
    assert_eq!(FoodCategory::from_i32(0), None);
    assert_eq!(FoodCategory::from_i32(6), None);
    for (category, code) in [
        (FoodCategory::Breakfast, 1),
        (FoodCategory::Lunch, 2),
        (FoodCategory::AfternoonTea, 3),
        (FoodCategory::Dinner, 4),
        (FoodCategory::MidnightSnack, 5),
    ] {
        assert_eq!(category.to_i32(), code);
        assert_eq!(FoodCategory::from_i32(category.to_i32()), Some(category));
    }
    assert_eq!(FoodCategory::Breakfast.zh_label(), "早餐");
    assert_eq!(FoodCategory::Lunch.zh_label(), "午餐");
    assert_eq!(FoodCategory::AfternoonTea.zh_label(), "下午茶");
    assert_eq!(FoodCategory::Dinner.zh_label(), "晚餐");
    assert_eq!(FoodCategory::MidnightSnack.zh_label(), "夜宵");
}

#[test]
fn game_errors_map_onto_the_transport_error() {
    let e = CustomError::from_game(&GameError::RoomNotFound);
    assert!(matches!(e, CustomError::NotFound(_)));
    assert_eq!(e.message(), "room not found");
    let e = CustomError::from_game(&GameError::ResourceExhausted);
    assert!(matches!(e, CustomError::InternalServerError(_)));
    let e = CustomError::from_game(&GameError::RateLimited);
    assert!(matches!(e, CustomError::BadRequest(_)));
    assert_eq!(e.message(), "sending too fast");
}
