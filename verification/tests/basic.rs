use brdgme_api::color::{choose_colors, palette, Color};
use brdgme_api::config::Mail;
use brdgme_api::controller::options;
use brdgme_api::engine::Status;
use brdgme_api::game::{dec_string, game_status_values};
use brdgme_api::mail::{extract_bodies, html_layout, MailMessage};
use brdgme_api::store::rand_code;

#[test]
fn it_works() {}

#[test]
fn rand_code_works() {
    for _ in 1..100000 {
        let n = rand_code();
        assert!(n > 99999, "n <= 99999");
        assert!(n < 1000000, "n >= 1000000");
    }
}

#[test]
fn html_layout_wraps_content() {
    let html = html_layout("hello");
    assert!(html.starts_with("\n        <link"));
    assert!(html.contains("<pre"));
    assert!(html.contains(">hello</pre>"));
    assert!(html.ends_with("</pre>"));
}

#[test]
fn mail_from_env_picks_smtp_only_when_complete() {
    let m = Mail::from_env(
        Some("smtp.example.com".to_string()),
        Some("user".to_string()),
        Some("SECRET-REDACTED".to_string()),
    );
    match m {
        Mail::Smtp { addr, user, .. } => {
            assert_eq!(addr, "smtp.example.com");
            assert_eq!(user, "user");
        }
        Mail::File => panic!("expected smtp transport"),
    }
    let m = Mail::from_env(Some("smtp.example.com".to_string()), None, None);
    assert!(matches!(m, Mail::File));
}

#[test]
fn options_is_empty() {
    let r = options("any/path");
    let () = r.0;
}

#[test]
fn status_values_active() {
    let sv = game_status_values(&Status::Active {
        whose_turn: vec![0, 2],
        eliminated: vec![1],
    });
    assert!(!sv.is_finished);
    assert_eq!(sv.whose_turn, vec![0, 2]);
    assert_eq!(sv.eliminated, vec![1]);
    assert!(sv.winners.is_empty());
}

#[test]
fn status_values_finished() {
    let sv = game_status_values(&Status::Finished { winners: vec![1] });
    assert!(sv.is_finished);
    assert!(sv.whose_turn.is_empty());
    assert!(sv.eliminated.is_empty());
    assert_eq!(sv.winners, vec![1]);
}

#[test]
fn dec_string_renders_decimals() {
    assert_eq!(dec_string(0), "0");
    assert_eq!(dec_string(7), "7");
    assert_eq!(dec_string(10), "10");
    assert_eq!(dec_string(90210), "90210");
}

#[test]
fn palette_has_nine_distinct_colors() {
    let pal = palette();
    assert_eq!(pal.len(), 9);
    for i in 0..pal.len() {
        for j in 0..i {
            assert_ne!(pal[i], pal[j]);
        }
    }
}

#[test]
fn choose_colors_honors_preferences() {
    let pal = palette();
    let prefs = vec![vec![Color::Red], vec![Color::Red, Color::Blue], vec![]];
    let colors = choose_colors(&pal, &prefs).expect("palette is large enough");
    assert_eq!(colors.len(), 3);
    assert_eq!(colors[0], Color::Red);
    assert_eq!(colors[1], Color::Blue);
    // The third participant has no preference and receives the first free
    // palette color.
    assert_eq!(colors[2], Color::Green);
}

#[test]
fn choose_colors_is_deterministic_and_total_under_collisions() {
    let pal = palette();
    // Every participant asks for the same color.
    let prefs: Vec<Vec<Color>> = (0..9).map(|_| vec![Color::Purple]).collect();
    let a = choose_colors(&pal, &prefs).expect("palette size equals roster size");
    let b = choose_colors(&pal, &prefs).expect("palette size equals roster size");
    assert_eq!(a, b, "same palette and preferences give the same colors");
    assert_eq!(a.len(), 9);
    for i in 0..a.len() {
        for j in 0..i {
            assert_ne!(a[i], a[j], "every participant still gets a distinct color");
        }
    }
    assert_eq!(a[0], Color::Purple, "the first participant wins the collision");
}

#[test]
fn choose_colors_fails_when_palette_too_small() {
    let pal = palette();
    let prefs: Vec<Vec<Color>> = (0..10).map(|_| vec![]).collect();
    assert!(choose_colors(&pal, &prefs).is_err());
}

#[test]
fn extract_bodies_lists_message_first() {
    let mm = MailMessage {
        body: "outer".to_string(),
        children: vec![
            MailMessage { body: "inner a".to_string(), children: vec![] },
            MailMessage { body: "inner b".to_string(), children: vec![] },
        ],
    };
    let bodies = extract_bodies(&mm);
    assert_eq!(bodies, vec!["outer", "inner a", "inner b"]);
}
