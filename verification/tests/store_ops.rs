use brdgme_api::models::{NewGame, NewGameLog, NewGameType, NewGameVersion, NewUserEmail};
use brdgme_api::store::Store;

const NOW: i64 = 1_700_000_000;

fn store_with_version(store: &mut Store) -> u64 {
    let gt = store
        .create_game_type(&NewGameType { name: "Lost Cities".to_string() }, NOW)
        .expect("expected to create a game type");
    let gv = store
        .create_game_version(
            &NewGameVersion {
                game_type_id: gt.id,
                name: "v1".to_string(),
                uri: "https://example.com/lost-cities-1".to_string(),
                is_public: true,
                is_deprecated: false,
            },
            NOW,
        )
        .expect("expected to create a game version");
    gv.id
}

#[test]
fn create_and_find_user() {
    let mut store = Store::new();
    assert!(store.find_user(42).is_none());
    let u = store.create_user_by_name("beefsack", NOW).expect("expected to create a user");
    let found = store.find_user(u.id).expect("user exists");
    assert_eq!(found.name, "beefsack");
}

#[test]
fn user_email_uniqueness() {
    let mut store = Store::new();
    let u = store.create_user_by_name("beefsack", NOW).unwrap();
    store
        .create_user_email(
            &NewUserEmail {
                user_id: u.id,
                email: "beefsack@example.com".to_string(),
                is_primary: true,
            },
            NOW,
        )
        .expect("first address is accepted");
    let again = store.create_user_email(
        &NewUserEmail {
            user_id: u.id,
            email: "beefsack@example.com".to_string(),
            is_primary: false,
        },
        NOW,
    );
    assert!(again.is_err(), "duplicate addresses are refused");
}

#[test]
fn find_or_create_user_by_email_reuses() {
    let mut store = Store::new();
    let email = "beefsack@example.com".to_string();
    let (_, u1) = store.find_or_create_user_by_email(&email, NOW).unwrap();
    let (_, u2) = store.find_or_create_user_by_email(&email, NOW).unwrap();
    assert_eq!(u1.id, u2.id);
    assert_eq!(u1.name, "beefsack@example.com");
}

#[test]
fn login_works() {
    let mut store = Store::new();
    let email = "beefsack@example.com".to_string();
    let confirmation = store.user_login_request(&email, NOW).unwrap();
    let uat = store
        .user_login_confirm(&email, confirmation, NOW + 60)
        .expect("error confirming auth")
        .expect("invalid confirm code");
    assert!(store.authenticate(&email, uat.id, NOW + 120).is_some());
    let other = "beefsacke@example.com".to_string();
    assert!(store.authenticate(&other, uat.id, NOW + 120).is_none());
}

#[test]
fn login_confirmation_expires() {
    let mut store = Store::new();
    let email = "beefsack@example.com".to_string();
    let confirmation = store.user_login_request(&email, NOW).unwrap();
    let late = NOW + 1800;
    assert!(store.user_login_confirm(&email, confirmation, late).unwrap().is_none());
}

#[test]
fn wrong_confirmation_rejected() {
    let mut store = Store::new();
    let email = "beefsack@example.com".to_string();
    let confirmation = store.user_login_request(&email, NOW).unwrap();
    let wrong = if confirmation == 100000 { 100001 } else { 100000 };
    assert!(store.user_login_confirm(&email, wrong, NOW).unwrap().is_none());
}

#[test]
fn auth_token_expires() {
    let mut store = Store::new();
    let email = "beefsack@example.com".to_string();
    let confirmation = store.user_login_request(&email, NOW).unwrap();
    let uat = store.user_login_confirm(&email, confirmation, NOW).unwrap().unwrap();
    assert!(store.authenticate(&email, uat.id, NOW + 2591999).is_some());
    assert!(store.authenticate(&email, uat.id, NOW + 2592000).is_none());
}

#[test]
fn create_game_works() {
    let mut store = Store::new();
    let version_id = store_with_version(&mut store);
    let game = store
        .create_game(
            &NewGame {
                game_version_id: version_id,
                is_finished: false,
                game_state: "blah".to_string(),
            },
            NOW,
        )
        .expect("expected to create a game");
    assert!(!game.is_finished);
    assert_eq!(game.game_state, "blah");
    assert!(store.create_game(
        &NewGame {
            game_version_id: version_id + 100,
            is_finished: false,
            game_state: "blah".to_string(),
        },
        NOW,
    ).is_err(), "an unknown ruleset is refused");
}

#[test]
fn game_logs_visibility() {
    let mut store = Store::new();
    let version_id = store_with_version(&mut store);
    let creator = store.create_user_by_name("blah", NOW).unwrap();
    let opponent = store.create_user_by_name("egg", NOW).unwrap();
    assert!(store
        .create_game_with_users(
            &brdgme_api::store::CreateGameOpts {
                new_game: NewGame {
                    game_version_id: version_id,
                    is_finished: false,
                    game_state: "egg".to_string(),
                },
                whose_turn: vec![0],
                eliminated: vec![],
                winners: vec![],
                creator_id: creator.id,
                opponent_ids: vec![opponent.id],
                opponent_emails: vec![],
            },
            NOW,
        )
        .is_err(), "opponents referenced by identifier need a primary email");
    store
        .create_user_email(
            &NewUserEmail {
                user_id: opponent.id,
                email: "egg@example.com".to_string(),
                is_primary: true,
            },
            NOW,
        )
        .unwrap();
    let created = store
        .create_game_with_users(
            &brdgme_api::store::CreateGameOpts {
                new_game: NewGame {
                    game_version_id: version_id,
                    is_finished: false,
                    game_state: "egg".to_string(),
                },
                whose_turn: vec![0],
                eliminated: vec![],
                winners: vec![],
                creator_id: creator.id,
                opponent_ids: vec![opponent.id],
                opponent_emails: vec![],
            },
            NOW,
        )
        .expect("expected to create the game");
    let game_id = created.game.id;
    let seat0 = created.players[0].clone();
    let seat1 = created.players[1].clone();

    // One public entry, one entry targeted at seat 1, one entry for nobody.
    store
        .create_game_log(
            &NewGameLog {
                game_id,
                body: "public move".to_string(),
                is_public: true,
                logged_at: NOW,
            },
            &vec![],
            NOW,
        )
        .unwrap();
    store
        .create_game_log(
            &NewGameLog {
                game_id,
                body: "whisper to seat one".to_string(),
                is_public: false,
                logged_at: NOW + 1,
            },
            &vec![seat1.id],
            NOW + 1,
        )
        .unwrap();
    store
        .create_game_log(
            &NewGameLog {
                game_id,
                body: "for nobody".to_string(),
                is_public: false,
                logged_at: NOW + 2,
            },
            &vec![],
            NOW + 2,
        )
        .unwrap();

    let public = store.find_public_game_logs_for_game(game_id);
    assert_eq!(public.len(), 1);
    assert_eq!(public[0].body, "public move");

    let seat0_logs = store.find_game_logs_for_player(seat0.id).unwrap();
    assert_eq!(seat0_logs.len(), 1);
    assert_eq!(seat0_logs[0].body, "public move");

    let seat1_logs = store.find_game_logs_for_player(seat1.id).unwrap();
    assert_eq!(seat1_logs.len(), 2);
    assert_eq!(seat1_logs[0].body, "public move");
    assert_eq!(seat1_logs[1].body, "whisper to seat one");
}

#[test]
fn create_players_works() {
    let mut store = Store::new();
    let version_id = store_with_version(&mut store);
    let mut emails = Vec::new();
    emails.push("p1@example.com".to_string());
    emails.push("p2@example.com".to_string());
    let creator = store.create_user_by_name("host", NOW).unwrap();
    let created = store
        .create_game_with_users(
            &brdgme_api::store::CreateGameOpts {
                new_game: NewGame {
                    game_version_id: version_id,
                    is_finished: false,
                    game_state: "egg".to_string(),
                },
                whose_turn: vec![1],
                eliminated: vec![],
                winners: vec![],
                creator_id: creator.id,
                opponent_ids: vec![],
                opponent_emails: emails,
            },
            NOW,
        )
        .expect("expected to create the game");
    assert_eq!(created.players.len(), 3);
    for (pos, p) in created.players.iter().enumerate() {
        assert_eq!(p.position, pos);
        assert_eq!(p.is_turn, pos == 1);
        assert!(!p.is_winner);
        assert!(!p.is_eliminated);
    }
    for i in 0..created.players.len() {
        for j in 0..i {
            assert_ne!(created.players[i].color, created.players[j].color);
        }
    }
    let count = store.find_player_count_by_game(created.game.id);
    assert_eq!(count, 3);
}

#[test]
fn mark_read_sets_flag() {
    let mut store = Store::new();
    let version_id = store_with_version(&mut store);
    let creator = store.create_user_by_name("host", NOW).unwrap();
    let created = store
        .create_game_with_users(
            &brdgme_api::store::CreateGameOpts {
                new_game: NewGame {
                    game_version_id: version_id,
                    is_finished: false,
                    game_state: "s".to_string(),
                },
                whose_turn: vec![0],
                eliminated: vec![],
                winners: vec![],
                creator_id: creator.id,
                opponent_ids: vec![],
                opponent_emails: vec!["p2@example.com".to_string()],
            },
            NOW,
        )
        .unwrap();
    let updated = store
        .mark_game_read(created.game.id, creator.id, NOW + 5)
        .unwrap()
        .expect("the creator holds a seat");
    assert!(updated.is_read);
    let stored = store
        .find_game_player_by_user_and_game(creator.id, created.game.id)
        .expect("the creator's row is stored");
    assert!(stored.is_read, "the read flag is persisted, not only returned");
    assert_eq!(stored.updated_at, NOW + 5);
    assert!(store.mark_game_read(created.game.id, 424242, NOW + 5).unwrap().is_none());
}

#[test]
fn game_logs_come_back_in_timestamp_order() {
    let mut store = Store::new();
    let version_id = store_with_version(&mut store);
    let creator = store.create_user_by_name("host", NOW).unwrap();
    let created = store
        .create_game_with_users(
            &brdgme_api::store::CreateGameOpts {
                new_game: NewGame {
                    game_version_id: version_id,
                    is_finished: false,
                    game_state: "s".to_string(),
                },
                whose_turn: vec![0],
                eliminated: vec![],
                winners: vec![],
                creator_id: creator.id,
                opponent_ids: vec![],
                opponent_emails: vec!["p2@example.com".to_string()],
            },
            NOW,
        )
        .unwrap();
    let game_id = created.game.id;
    for (body, at) in [("second", NOW + 20), ("first", NOW + 10), ("third", NOW + 30)] {
        store
            .create_game_log(
                &NewGameLog {
                    game_id,
                    body: body.to_string(),
                    is_public: true,
                    logged_at: at,
                },
                &vec![],
                NOW,
            )
            .unwrap();
    }
    let public = store.find_public_game_logs_for_game(game_id);
    let bodies: Vec<&str> = public.iter().map(|l| l.body.as_str()).collect();
    assert_eq!(bodies, vec!["first", "second", "third"]);
    let seat0_logs = store.find_game_logs_for_player(created.players[0].id).unwrap();
    let seat_bodies: Vec<&str> = seat0_logs.iter().map(|l| l.body.as_str()).collect();
    assert_eq!(seat_bodies, vec!["first", "second", "third"]);
}

#[test]
fn login_request_reuses_current_code() {
    let mut store = Store::new();
    let email = "beefsack@example.com".to_string();
    let first = store.user_login_request(&email, NOW).unwrap();
    let again = store.user_login_request(&email, NOW + 60).unwrap();
    assert_eq!(first, again, "a still-current code is reused, not regenerated");
    let expired = store.user_login_request(&email, NOW + 1800).unwrap();
    let confirm = store.user_login_confirm(&email, expired, NOW + 1860).unwrap();
    assert!(confirm.is_some(), "after expiry a fresh code is persisted");
}
