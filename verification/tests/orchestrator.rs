use brdgme_api::engine::{CliLog, EngineGame, Render, Request, Response, Status};
use brdgme_api::game::{
    command_apply, command_prepare, concede_apply, concede_prepare, create_apply, create_prepare,
    undo_apply, undo_prepare, CreateRequest,
};
use brdgme_api::models::{NewGameType, NewGameVersion};
use brdgme_api::store::{CreatedGame, Store};

const NOW: i64 = 1_700_000_000;

fn empty_render() -> Render {
    Render {
        render: "{{player 0}} to move".to_string(),
        pub_state: "pub".to_string(),
        command_spec: None,
    }
}

fn new_version(store: &mut Store) -> u64 {
    let gt = store
        .create_game_type(&NewGameType { name: "Lost Cities".to_string() }, NOW)
        .unwrap();
    store
        .create_game_version(
            &NewGameVersion {
                game_type_id: gt.id,
                name: "v1".to_string(),
                uri: "https://example.com/lost-cities-1".to_string(),
                is_public: true,
                is_deprecated: false,
            },
            NOW,
        )
        .unwrap()
        .id
}

fn two_player_game(store: &mut Store, whose_turn: Vec<usize>) -> (u64, CreatedGame) {
    let version_id = new_version(store);
    let creator = store.create_user_by_name("host", NOW).unwrap();
    let data = CreateRequest {
        game_version_id: version_id,
        opponent_ids: None,
        opponent_emails: Some(vec!["guest@example.com".to_string()]),
    };
    let (gv, req) = create_prepare(store, &data).expect("the ruleset exists");
    assert_eq!(gv.id, version_id);
    assert!(matches!(req, Request::New { players: 2 }));
    let resp = Response::New {
        game: EngineGame {
            state: "state-0".to_string(),
            status: Status::Active { whose_turn, eliminated: vec![] },
        },
        logs: vec![CliLog {
            content: "the game begins".to_string(),
            at: NOW,
            public: true,
            to: vec![],
        }],
        public_render: empty_render(),
        player_renders: vec![empty_render(), empty_render()],
    };
    let (created, created_logs) =
        create_apply(store, creator.id, &data, &resp, NOW).expect("creation succeeds");
    assert_eq!(created_logs.len(), 1);
    (creator.id, created)
}

#[test]
fn create_assigns_contiguous_seats_and_distinct_colors() {
    let mut store = Store::new();
    let (_creator, created) = two_player_game(&mut store, vec![0]);
    assert_eq!(created.players.len(), 2);
    for (pos, p) in created.players.iter().enumerate() {
        assert_eq!(p.position, pos);
        assert_eq!(p.game_id, created.game.id);
    }
    assert_ne!(created.players[0].color, created.players[1].color);
}

#[test]
fn create_active_status_sets_turn_flags() {
    let mut store = Store::new();
    let (_creator, created) = two_player_game(&mut store, vec![0]);
    assert!(created.players[0].is_turn);
    assert!(!created.players[1].is_turn);
    assert!(!created.game.is_finished);
}

#[test]
fn engine_caller_error_changes_nothing() {
    let mut store = Store::new();
    let (creator, created) = two_player_game(&mut store, vec![0]);
    let game_id = created.game.id;
    let state_before = store.find_game_with_version(game_id).unwrap().0.game_state;
    let logs_before = store.find_public_game_logs_for_game(game_id).len();
    let resp = Response::UserError { message: "not your turn".to_string() };
    let err = match command_apply(&mut store, game_id, creator, &resp, NOW + 10) {
        Err(e) => e,
        Ok(_) => panic!("a caller error is surfaced"),
    };
    assert!(err.is_user_error());
    assert_eq!(err.message().as_str(), "not your turn");
    let state_after = store.find_game_with_version(game_id).unwrap().0.game_state;
    assert_eq!(state_before, state_after, "the stored engine state is unchanged");
    assert_eq!(
        logs_before,
        store.find_public_game_logs_for_game(game_id).len(),
        "no log entries were created"
    );
}

fn play_response(state: &str, status: Status, can_undo: bool) -> Response {
    Response::Play {
        game: EngineGame { state: state.to_string(), status },
        logs: vec![],
        can_undo,
        remaining_input: "".to_string(),
        public_render: empty_render(),
        player_renders: vec![empty_render(), empty_render()],
    }
}

#[test]
fn undoable_move_stores_snapshot_for_acting_player_only() {
    let mut store = Store::new();
    let (creator, created) = two_player_game(&mut store, vec![0, 1]);
    let game_id = created.game.id;
    let resp = play_response(
        "state-1",
        Status::Active { whose_turn: vec![1], eliminated: vec![] },
        true,
    );
    let outcome = command_apply(&mut store, game_id, creator, &resp, NOW + 10).unwrap();
    assert!(outcome.can_undo);
    let players = store.find_game_players_by_game(game_id);
    let mut with_snapshot = 0;
    for p in &players {
        match &p.undo_game_state {
            Some(s) => {
                with_snapshot += 1;
                assert_eq!(s.as_str(), "state-0", "the snapshot is the pre-move state");
                assert_eq!(p.user_id, creator, "only the acting participant keeps one");
            }
            None => {}
        }
    }
    assert_eq!(with_snapshot, 1);
}

#[test]
fn non_undoable_move_clears_every_snapshot() {
    let mut store = Store::new();
    let (creator, created) = two_player_game(&mut store, vec![0, 1]);
    let game_id = created.game.id;
    let undoable = play_response(
        "state-1",
        Status::Active { whose_turn: vec![0, 1], eliminated: vec![] },
        true,
    );
    command_apply(&mut store, game_id, creator, &undoable, NOW + 10).unwrap();
    let plain = play_response(
        "state-2",
        Status::Active { whose_turn: vec![0, 1], eliminated: vec![] },
        false,
    );
    command_apply(&mut store, game_id, creator, &plain, NOW + 20).unwrap();
    for p in store.find_game_players_by_game(game_id) {
        assert!(p.undo_game_state.is_none());
    }
}

#[test]
fn undo_is_single_shot() {
    let mut store = Store::new();
    let (creator, created) = two_player_game(&mut store, vec![0, 1]);
    let game_id = created.game.id;
    let undoable = play_response(
        "state-1",
        Status::Active { whose_turn: vec![1], eliminated: vec![] },
        true,
    );
    command_apply(&mut store, game_id, creator, &undoable, NOW + 10).unwrap();

    let (_gv, req) = undo_prepare(&store, game_id, creator).expect("a snapshot is stored");
    match &req {
        Request::Status { game } => assert_eq!(game.as_str(), "state-0"),
        _ => panic!("an undo asks for a status"),
    }
    let resp = Response::Status {
        game: EngineGame {
            state: "state-0".to_string(),
            status: Status::Active { whose_turn: vec![0], eliminated: vec![] },
        },
        public_render: empty_render(),
        player_renders: vec![empty_render(), empty_render()],
    };
    let outcome = undo_apply(&mut store, game_id, creator, &resp, NOW + 20).unwrap();
    assert_eq!(outcome.game.game_state, "state-0");
    assert!(outcome.log.game_log.is_public);
    assert!(outcome.log.game_log.body.contains("used an undo"));

    let second = match undo_prepare(&store, game_id, creator) {
        Err(e) => e,
        Ok(_) => panic!("the second undo in a row is refused"),
    };
    assert!(second.is_user_error());
    assert_eq!(second.message().as_str(), "you can't undo at the moment");
}

#[test]
fn finished_game_rejects_commands() {
    let mut store = Store::new();
    let (creator, created) = two_player_game(&mut store, vec![0, 1]);
    let game_id = created.game.id;
    let finish = play_response("state-end", Status::Finished { winners: vec![0] }, false);
    command_apply(&mut store, game_id, creator, &finish, NOW + 10).unwrap();

    let (game, _) = store.find_game_with_version(game_id).unwrap();
    assert!(game.is_finished);
    let players = store.find_game_players_by_game(game_id);
    assert!(players[0].is_winner);
    assert!(!players[1].is_winner);

    let cmd = "play card".to_string();
    let err = match command_prepare(&store, game_id, creator, &cmd) {
        Err(e) => e,
        Ok(_) => panic!("a finished session rejects further commands"),
    };
    assert!(err.is_user_error());
    assert_eq!(err.message().as_str(), "game is already finished");
}

#[test]
fn concede_rejected_with_three_players() {
    let mut store = Store::new();
    let version_id = new_version(&mut store);
    let creator = store.create_user_by_name("host", NOW).unwrap();
    let data = CreateRequest {
        game_version_id: version_id,
        opponent_ids: None,
        opponent_emails: Some(vec![
            "a@example.com".to_string(),
            "b@example.com".to_string(),
        ]),
    };
    let resp = Response::New {
        game: EngineGame {
            state: "s0".to_string(),
            status: Status::Active { whose_turn: vec![0], eliminated: vec![] },
        },
        logs: vec![],
        public_render: empty_render(),
        player_renders: vec![empty_render(), empty_render(), empty_render()],
    };
    let (created, _) = create_apply(&mut store, creator.id, &data, &resp, NOW).unwrap();
    for p in &created.players {
        let err = match concede_prepare(&store, created.game.id, p.user_id) {
            Err(e) => e,
            Ok(_) => panic!("three-player concessions are refused for every seat"),
        };
        assert!(err.is_user_error());
        assert_eq!(err.message().as_str(), "cannot concede games with more than two players");
    }
}

#[test]
fn concede_finishes_two_player_game() {
    let mut store = Store::new();
    let (creator, created) = two_player_game(&mut store, vec![0, 1]);
    let game_id = created.game.id;
    let (_gv, req) = concede_prepare(&store, game_id, creator).unwrap();
    assert!(matches!(req, Request::Status { .. }));
    let resp = Response::Status {
        game: EngineGame {
            state: "state-0".to_string(),
            status: Status::Active { whose_turn: vec![0], eliminated: vec![] },
        },
        public_render: empty_render(),
        player_renders: vec![empty_render(), empty_render()],
    };
    let outcome = concede_apply(&mut store, game_id, creator, &resp, NOW + 5).unwrap();
    assert!(outcome.game.is_finished);
    assert!(outcome.log.game_log.body.contains("conceded"));
    for p in store.find_game_players_by_game(game_id) {
        if p.user_id == creator {
            assert!(p.is_eliminated);
            assert!(!p.is_winner);
        } else {
            assert!(p.is_winner);
        }
        assert!(!p.is_turn);
    }
}
