use brdgme_api::engine::Render;
use brdgme_api::models::{
    GameLog, GameLogTarget, PublicGame, PublicGamePlayerUser, PublicGameVersion, PublicUser,
    GamePlayer, GameType, UserAuthToken,
};
use brdgme_api::store::{CreatedGameLog, PublicGameExtended};
use brdgme_api::websocket::{created_logs_for_player, game_update, Channel, GameUpdateOpts};
use brdgme_api::color::Color;

const NOW: i64 = 1_700_000_000;

fn log(id: u64, body: &str, public: bool, target_players: Vec<u64>) -> CreatedGameLog {
    CreatedGameLog {
        game_log: GameLog {
            id,
            created_at: NOW,
            updated_at: NOW,
            game_id: 1,
            body: body.to_string(),
            is_public: public,
            logged_at: NOW,
        },
        targets: target_players
            .into_iter()
            .enumerate()
            .map(|(i, pid)| GameLogTarget {
                id: 1000 + id * 10 + i as u64,
                created_at: NOW,
                updated_at: NOW,
                game_log_id: id,
                game_player_id: pid,
            })
            .collect(),
    }
}

fn seat(player_id: u64, user_id: u64, position: usize) -> PublicGamePlayerUser {
    PublicGamePlayerUser {
        game_player: GamePlayer {
            id: player_id,
            created_at: NOW,
            updated_at: NOW,
            game_id: 1,
            user_id,
            position,
            color: if position == 0 { Color::Green } else { Color::Red },
            has_accepted: true,
            is_turn: position == 0,
            is_eliminated: false,
            is_winner: false,
            is_read: false,
            undo_game_state: None,
        },
        user: PublicUser {
            id: user_id,
            created_at: NOW,
            updated_at: NOW,
            name: format!("user {}", user_id),
        },
    }
}

fn render(text: &str) -> Render {
    Render { render: text.to_string(), pub_state: "pub".to_string(), command_spec: None }
}

fn sample_opts() -> GameUpdateOpts {
    GameUpdateOpts {
        game: PublicGameExtended {
            game: PublicGame {
                id: 1,
                created_at: NOW,
                updated_at: NOW,
                game_version_id: 7,
                is_finished: false,
            },
            game_type: GameType {
                id: 5,
                created_at: NOW,
                updated_at: NOW,
                name: "Lost Cities".to_string(),
            },
            game_version: PublicGameVersion {
                id: 7,
                created_at: NOW,
                updated_at: NOW,
                game_type_id: 5,
                name: "v1".to_string(),
                is_public: true,
                is_deprecated: false,
            },
            game_players: vec![seat(11, 101, 0), seat(12, 102, 1)],
        },
        game_logs: vec![
            log(1, "public move", true, vec![]),
            log(2, "secret for seat one", false, vec![12]),
            log(3, "for nobody", false, vec![]),
        ],
        public_render: render("public render"),
        player_renders: vec![render("seat zero render"), render("seat one render")],
        user_auth_tokens: vec![
            UserAuthToken { id: 900, created_at: NOW, updated_at: NOW, user_id: 101 },
            UserAuthToken { id: 901, created_at: NOW, updated_at: NOW, user_id: 102 },
            UserAuthToken { id: 902, created_at: NOW, updated_at: NOW, user_id: 102 },
        ],
    }
}

#[test]
fn private_untargeted_log_visible_to_nobody() {
    let logs = sample_opts().game_logs;
    let public_view = created_logs_for_player(None, &logs);
    assert!(public_view.iter().all(|l| l.body != "for nobody"));
    for pid in [11u64, 12u64] {
        let view = created_logs_for_player(Some(pid), &logs);
        assert!(view.iter().all(|l| l.body != "for nobody"));
    }
}

#[test]
fn public_log_identical_in_every_view() {
    let logs = sample_opts().game_logs;
    let public_view = created_logs_for_player(None, &logs);
    assert_eq!(public_view.len(), 1);
    assert_eq!(public_view[0].body, "public move");
    for pid in [11u64, 12u64] {
        let view = created_logs_for_player(Some(pid), &logs);
        assert_eq!(view[0].body, "public move", "same text for every audience");
    }
}

#[test]
fn targeted_log_only_in_target_seat_view() {
    let logs = sample_opts().game_logs;
    let seat_zero = created_logs_for_player(Some(11), &logs);
    assert_eq!(seat_zero.len(), 1);
    let seat_one = created_logs_for_player(Some(12), &logs);
    assert_eq!(seat_one.len(), 2);
    assert_eq!(seat_one[1].body, "secret for seat one");
}

#[test]
fn game_update_fans_out_per_token() {
    let opts = sample_opts();
    let msgs = game_update(&opts);
    // One public message plus one message per valid token of each seat:
    // user 101 has one token, user 102 has two.
    assert_eq!(msgs.len(), 4);
    match &msgs[0].channel {
        Channel::Game { game_id } => assert_eq!(*game_id, 1),
        _ => panic!("the first message goes to the session topic"),
    }
    assert!(msgs[0].payload.game_player.is_none());
    assert_eq!(msgs[0].payload.render, "public render");
    assert_eq!(msgs[0].payload.game_logs.len(), 1);

    let mut token_ids: Vec<u64> = msgs[1..]
        .iter()
        .map(|m| match &m.channel {
            Channel::User { token_id } => *token_id,
            _ => panic!("later messages go to token topics"),
        })
        .collect();
    token_ids.sort();
    assert_eq!(token_ids, vec![900, 901, 902]);
    for m in &msgs[1..] {
        let gp = m.payload.game_player.as_ref().expect("private views carry the seat");
        if gp.id == 12 {
            assert_eq!(m.payload.render, "seat one render");
            assert_eq!(m.payload.game_logs.len(), 2);
        } else {
            assert_eq!(m.payload.render, "seat zero render");
            assert_eq!(m.payload.game_logs.len(), 1);
        }
    }
}
