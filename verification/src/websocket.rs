//! The broadcast dispatcher: after every committed mutation, one update
//! event fans out as per-audience messages over the publish/subscribe bus.
//!
//! The dispatcher computes, from one already-committed event, the exact
//! list of messages to publish: one public view on the session's topic,
//! and one private view per currently-valid authentication token of each
//! participant. Publishing itself is best-effort and happens outside the
//! library; nothing here touches the store that produced the event.

use vstd::prelude::*;

use crate::engine::Render;
use crate::game::ShowResponse;
use crate::models::{GameLog, UserAuthToken};
use crate::store::{CreatedGameLog, PublicGameExtended, lemma_filter_take_step};

verus! {

/// One committed "session updated" event, queued for the dispatcher: the
/// public form of the session, the log entries the mutation created, the
/// renders for every audience, and the currently-valid tokens of the
/// participants.
pub struct GameUpdateOpts {
    pub game: PublicGameExtended,
    pub game_logs: Vec<CreatedGameLog>,
    pub public_render: Render,
    pub player_renders: Vec<Render>,
    pub user_auth_tokens: Vec<UserAuthToken>,
}

/// Where a message is published: the session's public topic, or the
/// private topic of one authentication token.
pub enum Channel {
    Game { game_id: u64 },
    User { token_id: u64 },
}

/// One message for the bus: a channel and the view to publish there.
pub struct PublishMessage {
    pub channel: Channel,
    pub payload: ShowResponse,
}

/// A freshly created log entry is visible to a viewer: every public entry
/// is, and a private entry only to a seat in its target set. The public
/// audience is `None`.
pub open spec fn created_log_visible(l: CreatedGameLog, viewer: Option<u64>) -> bool {
    l.game_log.is_public || (match viewer {
        Some(player_id) => exists|t: int|
            0 <= t < l.targets@.len() && (#[trigger] l.targets@[t]).game_player_id == player_id,
        None => false,
    })
}

/// Selects the freshly created log entries a viewer may see.
pub open spec fn created_logs_pred(viewer: Option<u64>) -> spec_fn(CreatedGameLog) -> bool {
    |l: CreatedGameLog| created_log_visible(l, viewer)
}

/// Whether one viewer may see one freshly created entry.
fn is_visible_to(l: &CreatedGameLog, player_id: Option<u64>) -> (b: bool)
    ensures
        b == created_log_visible(*l, player_id),
{
    if l.game_log.is_public {
        return true;
    }
    match player_id {
        Some(pid) => {
            let mut t: usize = 0;
            while t < l.targets.len()
                invariant
                    t <= l.targets@.len(),
                    player_id == Some(pid),
                    forall|tt: int| 0 <= tt < t ==> (#[trigger] l.targets@[tt]).game_player_id != pid,
                decreases l.targets@.len() - t,
            {
                if l.targets[t].game_player_id == pid {
                    proof {
                        assert(l.targets@[t as int].game_player_id == pid);
                    }
                    return true;
                }
                t += 1;
            }
            false
        },
        None => false,
    }
}

/// The entries of a batch that one audience may see, in order: the
/// public ones, and, for a participant, the private ones targeted at
/// their seat. Entries are returned as stored, so an entry visible to
/// several audiences shows every audience the same text.
pub fn created_logs_for_player(player_id: Option<u64>, logs: &Vec<CreatedGameLog>) -> (r: Vec<
    GameLog,
>)
    ensures
        r@ == logs@.filter(created_logs_pred(player_id)).map_values(
            |l: CreatedGameLog| l.game_log,
        ),
{
    let ghost pred = created_logs_pred(player_id);
    let ghost f = |l: CreatedGameLog| l.game_log;
    let mut out: Vec<GameLog> = Vec::new();
    let mut i: usize = 0;
    proof {
        reveal(Seq::filter);
        assert(logs@.take(0) =~= Seq::<CreatedGameLog>::empty());
        assert(logs@.take(0).filter(pred).map_values(f) =~= out@);
    }
    while i < logs.len()
        invariant
            i <= logs@.len(),
            pred == created_logs_pred(player_id),
            f == (|l: CreatedGameLog| l.game_log),
            out@ == logs@.take(i as int).filter(pred).map_values(f),
        decreases logs@.len() - i,
    {
        proof {
            lemma_filter_take_step(logs@, i as int, pred);
        }
        let l = &logs[i];
        let visible = is_visible_to(l, player_id);
        if visible {
            out.push(l.game_log.clone());
            proof {
                assert(logs@.take(i as int).filter(pred).push(logs@[i as int]).map_values(f)
                    =~= logs@.take(i as int).filter(pred).map_values(f).push(
                    logs@[i as int].game_log,
                ));
            }
        }
        i += 1;
    }
    proof {
        assert(logs@.take(logs@.len() as int) =~= logs@);
    }
    out
}

/// The public view published on the session topic for one event.
pub open spec fn public_message(opts: GameUpdateOpts, m: PublishMessage) -> bool {
    &&& m.channel == (Channel::Game { game_id: opts.game.game.id })
    &&& m.payload.game_player is None
    &&& m.payload.game == opts.game.game
    &&& m.payload.game_logs@ == opts.game_logs@.filter(created_logs_pred(None)).map_values(
        |l: CreatedGameLog| l.game_log,
    )
    &&& m.payload.render == opts.public_render.render
    &&& m.payload.pub_state == opts.public_render.pub_state
    &&& m.payload.command_spec is None
}

/// A private view published on one token's topic: the token belongs to
/// the participant's user, the participant has a render, and the log
/// entries are the ones that seat may see.
pub open spec fn token_message(opts: GameUpdateOpts, p: int, t: int, m: PublishMessage) -> bool {
    &&& 0 <= p < opts.game.game_players@.len()
    &&& 0 <= t < opts.user_auth_tokens@.len()
    &&& opts.user_auth_tokens@[t].user_id == opts.game.game_players@[p].user.id
    &&& opts.game.game_players@[p].game_player.position < opts.player_renders@.len()
    &&& m.channel == (Channel::User { token_id: opts.user_auth_tokens@[t].id })
    &&& m.payload.game_player == Some(opts.game.game_players@[p].game_player)
    &&& m.payload.game == opts.game.game
    &&& m.payload.game_logs@ == opts.game_logs@.filter(
        created_logs_pred(Some(opts.game.game_players@[p].game_player.id)),
    ).map_values(|l: CreatedGameLog| l.game_log)
    &&& m.payload.render == opts.player_renders@[opts.game.game_players@[p].game_player.position as int].render
    &&& m.payload.pub_state == opts.player_renders@[opts.game.game_players@[p].game_player.position as int].pub_state
}

/// The message is the private view of some (seat, token) pair of the
/// event: nothing else is ever published after the public view.
pub open spec fn some_token_message(opts: GameUpdateOpts, m: PublishMessage) -> bool {
    exists|p: int, t: int| token_message(opts, p, t, m)
}

/// Number of tokens in `tokens` held by user `uid`.
pub open spec fn matching_tokens(tokens: Seq<UserAuthToken>, uid: u64) -> nat
    decreases tokens.len(),
{
    if tokens.len() == 0 {
        0
    } else {
        matching_tokens(tokens.drop_last(), uid) + if tokens.last().user_id == uid {
            1nat
        } else {
            0nat
        }
    }
}

pub proof fn lemma_matching_tokens_take_step(tokens: Seq<UserAuthToken>, uid: u64, t: int)
    requires
        0 <= t < tokens.len(),
    ensures
        matching_tokens(tokens.take(t + 1), uid) == matching_tokens(tokens.take(t), uid) + if tokens[t].user_id == uid {
            1nat
        } else {
            0nat
        },
{
    assert(tokens.take(t + 1).drop_last() =~= tokens.take(t));
    assert(tokens.take(t + 1).last() == tokens[t]);
}

/// Number of (seat, token) pairs among the first `p` participants that the
/// dispatcher addresses: seats with a render, paired with each token of
/// their user.
pub open spec fn pair_count_partial(opts: GameUpdateOpts, p: int) -> nat
    decreases p,
{
    if p <= 0 {
        0
    } else {
        pair_count_partial(opts, p - 1) + if 0 <= p - 1 < opts.game.game_players@.len()
            && opts.game.game_players@[p - 1].game_player.position < opts.player_renders@.len() {
            matching_tokens(opts.user_auth_tokens@, opts.game.game_players@[p - 1].user.id)
        } else {
            0nat
        }
    }
}

/// Number of (seat, token) pairs one event addresses.
pub open spec fn pair_count(opts: GameUpdateOpts) -> nat {
    pair_count_partial(opts, opts.game.game_players@.len() as int)
}

/// Compute the messages one committed event fans out to: the public view
/// once on the session topic, then, for each participant with a render,
/// their private view once per valid token of their user — one message per
/// (seat, token) pair and nothing else, so a token whose user holds no
/// seat receives nothing. The event is already committed: this reads
/// nothing but the event itself.
#[verifier::rlimit(100)]
#[verifier::spinoff_prover]
pub fn game_update(opts: &GameUpdateOpts) -> (msgs: Vec<PublishMessage>)
    ensures
        msgs@.len() >= 1,
        public_message(*opts, msgs@[0]),
        forall|m: int| 1 <= m < msgs@.len() ==> (#[trigger] msgs@[m]).channel is User,
        forall|p: int, t: int|
            #![trigger opts.game.game_players@[p], opts.user_auth_tokens@[t]]
            0 <= p < opts.game.game_players@.len() && 0 <= t < opts.user_auth_tokens@.len()
                && opts.user_auth_tokens@[t].user_id == opts.game.game_players@[p].user.id
                && opts.game.game_players@[p].game_player.position < opts.player_renders@.len()
                ==> exists|m: int|
                1 <= m < msgs@.len() && token_message(*opts, p, t, #[trigger] msgs@[m]),
        forall|m: int| 1 <= m < msgs@.len() ==> some_token_message(*opts, #[trigger] msgs@[m]),
        msgs@.len() == 1 + pair_count(*opts),
{
    let mut msgs: Vec<PublishMessage> = Vec::new();
    let public_logs = created_logs_for_player(None, &opts.game_logs);
    msgs.push(
        PublishMessage {
            channel: Channel::Game { game_id: opts.game.game.id },
            payload: ShowResponse {
                game: opts.game.game.clone(),
                pub_state: opts.public_render.pub_state.clone(),
                game_version: opts.game.game_version.clone(),
                game_type: opts.game.game_type.clone(),
                game_player: None,
                game_players: clone_player_users(&opts.game.game_players),
                render: opts.public_render.render.clone(),
                game_logs: public_logs,
                command_spec: None,
            },
        },
    );
    let mut p: usize = 0;
    while p < opts.game.game_players.len()
        invariant
            p <= opts.game.game_players@.len(),
            msgs@.len() >= 1,
            public_message(*opts, msgs@[0]),
            forall|m: int| 1 <= m < msgs@.len() ==> (#[trigger] msgs@[m]).channel is User,
            forall|pp: int, tt: int|
                #![trigger opts.game.game_players@[pp], opts.user_auth_tokens@[tt]]
                0 <= pp < p && 0 <= tt < opts.user_auth_tokens@.len()
                    && opts.user_auth_tokens@[tt].user_id
                    == opts.game.game_players@[pp].user.id
                    && opts.game.game_players@[pp].game_player.position
                    < opts.player_renders@.len() ==> exists|m: int|
                    1 <= m < msgs@.len() && token_message(*opts, pp, tt, #[trigger] msgs@[m]),
            forall|m: int| 1 <= m < msgs@.len() ==> some_token_message(*opts, #[trigger] msgs@[m]),
            msgs@.len() == 1 + pair_count_partial(*opts, p as int),
        decreases opts.game.game_players@.len() - p,
    {
        let gp = &opts.game.game_players[p];
        if gp.game_player.position < opts.player_renders.len() {
            let render = &opts.player_renders[gp.game_player.position];
            let player_logs = created_logs_for_player(Some(gp.game_player.id), &opts.game_logs);
            let mut t: usize = 0;
            while t < opts.user_auth_tokens.len()
                invariant
                    p < opts.game.game_players@.len(),
                    t <= opts.user_auth_tokens@.len(),
                    msgs@.len() >= 1,
                    public_message(*opts, msgs@[0]),
                    gp == opts.game.game_players@[p as int],
                    gp.game_player.position < opts.player_renders@.len(),
                    render == opts.player_renders@[gp.game_player.position as int],
                    player_logs@ == opts.game_logs@.filter(
                        created_logs_pred(Some(gp.game_player.id)),
                    ).map_values(|l: CreatedGameLog| l.game_log),
                    forall|m: int| 1 <= m < msgs@.len() ==> (#[trigger] msgs@[m]).channel is User,
                    forall|pp: int, tt: int|
                        #![trigger opts.game.game_players@[pp], opts.user_auth_tokens@[tt]]
                        0 <= pp < p && 0 <= tt < opts.user_auth_tokens@.len()
                            && opts.user_auth_tokens@[tt].user_id
                            == opts.game.game_players@[pp].user.id
                            && opts.game.game_players@[pp].game_player.position
                            < opts.player_renders@.len() ==> exists|m: int|
                            1 <= m < msgs@.len() && token_message(*opts, pp, tt, #[trigger] msgs@[m]),
                    forall|tt: int|
                        0 <= tt < t && (#[trigger] opts.user_auth_tokens@[tt]).user_id
                            == opts.game.game_players@[p as int].user.id ==> exists|m: int|
                            1 <= m < msgs@.len() && token_message(*opts, p as int, tt, #[trigger] msgs@[m]),
                    forall|m: int|
                        1 <= m < msgs@.len() ==> some_token_message(*opts, #[trigger] msgs@[m]),
                    msgs@.len() == 1 + pair_count_partial(*opts, p as int) + matching_tokens(
                        opts.user_auth_tokens@.take(t as int),
                        gp.user.id,
                    ),
                decreases opts.user_auth_tokens@.len() - t,
            {
                let uat = &opts.user_auth_tokens[t];
                if uat.user_id == gp.user.id {
                    let ghost before = msgs@;
                    msgs.push(
                        PublishMessage {
                            channel: Channel::User { token_id: uat.id },
                            payload: ShowResponse {
                                game: opts.game.game.clone(),
                                pub_state: render.pub_state.clone(),
                                game_version: opts.game.game_version.clone(),
                                game_type: opts.game.game_type.clone(),
                                game_player: Some(gp.game_player.clone()),
                                game_players: clone_player_users(&opts.game.game_players),
                                render: render.render.clone(),
                                game_logs: clone_logs(&player_logs),
                                command_spec: crate::models::clone_opt_string(
                                    &render.command_spec,
                                ),
                            },
                        },
                    );
                    proof {
                        assert(token_message(
                            *opts,
                            p as int,
                            t as int,
                            msgs@[msgs@.len() - 1],
                        ));
                        assert forall|m: int| 1 <= m < msgs@.len() implies (
                        #[trigger] msgs@[m]).channel is User by {
                            if m < before.len() {
                                assert(msgs@[m] == before[m]);
                            }
                        }
                        assert forall|pp: int, tt: int|
                            #![trigger opts.game.game_players@[pp], opts.user_auth_tokens@[tt]]
                            0 <= pp < p && 0 <= tt < opts.user_auth_tokens@.len()
                                && opts.user_auth_tokens@[tt].user_id
                                == opts.game.game_players@[pp].user.id
                                && opts.game.game_players@[pp].game_player.position
                                < opts.player_renders@.len() implies exists|m: int|
                            1 <= m < msgs@.len() && token_message(*opts, pp, tt, #[trigger] msgs@[m]) by {
                            let m0 = choose|m0: int|
                                1 <= m0 < before.len() && token_message(
                                    *opts,
                                    pp,
                                    tt,
                                    #[trigger] before[m0],
                                );
                            assert(msgs@[m0] == before[m0]);
                        }
                        assert forall|tt: int|
                            0 <= tt < t + 1 && (#[trigger] opts.user_auth_tokens@[tt]).user_id
                                == opts.game.game_players@[p as int].user.id implies exists|m: int|
                            1 <= m < msgs@.len() && token_message(*opts, p as int, tt, #[trigger] msgs@[m]) by {
                            if tt < t {
                                let m0 = choose|m0: int|
                                    1 <= m0 < before.len() && token_message(
                                        *opts,
                                        p as int,
                                        tt,
                                        #[trigger] before[m0],
                                    );
                                assert(msgs@[m0] == before[m0]);
                            } else {
                                assert(token_message(*opts, p as int, tt, msgs@[msgs@.len() - 1]));
                            }
                        }
                        assert forall|m: int| 1 <= m < msgs@.len() implies some_token_message(
                            *opts,
                            #[trigger] msgs@[m],
                        ) by {
                            if m < before.len() {
                                assert(msgs@[m] == before[m]);
                            } else {
                                assert(token_message(*opts, p as int, t as int, msgs@[m]));
                            }
                        }
                    }
                }
                proof {
                    lemma_matching_tokens_take_step(
                        opts.user_auth_tokens@,
                        gp.user.id,
                        t as int,
                    );
                }
                t += 1;
            }
            proof {
                assert(opts.user_auth_tokens@.take(opts.user_auth_tokens@.len() as int)
                    =~= opts.user_auth_tokens@);
            }
        }
        proof {
            assert(pair_count_partial(*opts, p as int + 1) == pair_count_partial(*opts, p as int)
                + if opts.game.game_players@[p as int].game_player.position
                < opts.player_renders@.len() {
                matching_tokens(
                    opts.user_auth_tokens@,
                    opts.game.game_players@[p as int].user.id,
                )
            } else {
                0nat
            });
        }
        p += 1;
    }
    msgs
}

fn clone_logs(v: &Vec<GameLog>) -> (r: Vec<GameLog>)
    ensures
        r@ == v@,
{
    let mut r: Vec<GameLog> = Vec::new();
    let mut i: usize = 0;
    while i < v.len()
        invariant
            i <= v@.len(),
            r@ == v@.take(i as int),
        decreases v@.len() - i,
    {
        r.push(v[i].clone());
        proof {
            assert(r@ =~= v@.take(i + 1));
        }
        i += 1;
    }
    proof {
        assert(r@ =~= v@);
    }
    r
}

fn clone_player_users(v: &Vec<crate::models::PublicGamePlayerUser>) -> (r: Vec<
    crate::models::PublicGamePlayerUser,
>)
    ensures
        r@ == v@,
{
    let mut r: Vec<crate::models::PublicGamePlayerUser> = Vec::new();
    let mut i: usize = 0;
    while i < v.len()
        invariant
            i <= v@.len(),
            r@ == v@.take(i as int),
        decreases v@.len() - i,
    {
        r.push(v[i].clone());
        proof {
            assert(r@ =~= v@.take(i + 1));
        }
        i += 1;
    }
    proof {
        assert(r@ =~= v@);
    }
    r
}

/// Law: a log entry that is not public and has no targets is visible to
/// no audience — neither the public one nor any seat's.
pub proof fn lemma_private_untargeted_log_invisible(l: CreatedGameLog, viewer: Option<u64>)
    requires
        !l.game_log.is_public,
        l.targets@.len() == 0,
    ensures
        !created_log_visible(l, viewer),
{
}

/// Law: no audience's view holds a log entry that is not public and has
/// no targets.
pub proof fn lemma_private_untargeted_absent(logs: Seq<CreatedGameLog>, viewer: Option<u64>)
    ensures
        forall|k: int|
            0 <= k < logs.filter(created_logs_pred(viewer)).len() ==> ((#[trigger] logs.filter(
                created_logs_pred(viewer),
            )[k]).game_log.is_public || logs.filter(created_logs_pred(viewer))[k].targets@.len()
                > 0),
{
    let pred = created_logs_pred(viewer);
    assert forall|k: int| 0 <= k < logs.filter(pred).len() implies ((#[trigger] logs.filter(
        pred,
    )[k]).game_log.is_public || logs.filter(pred)[k].targets@.len() > 0) by {
        Seq::lemma_filter_pred(logs, pred, k);
        let l = logs.filter(pred)[k];
        if !l.game_log.is_public && l.targets@.len() == 0 {
            lemma_private_untargeted_log_invisible(l, viewer);
        }
    }
}

/// Law: a public log entry appears, with the same text, in the view of
/// every audience — the public one and every seat's.
pub proof fn lemma_public_log_in_every_view(logs: Seq<CreatedGameLog>, k: int, viewer: Option<u64>)
    requires
        0 <= k < logs.len(),
        logs[k].game_log.is_public,
    ensures
        logs.filter(created_logs_pred(viewer)).map_values(
            |l: CreatedGameLog| l.game_log,
        ).contains(logs[k].game_log),
{
    let pred = created_logs_pred(viewer);
    let f = |l: CreatedGameLog| l.game_log;
    Seq::lemma_filter_contains(logs, pred, k);
    let w = choose|w: int|
        0 <= w < logs.filter(pred).len() && logs.filter(pred)[w] == logs[k];
    assert(logs.filter(pred).map_values(f)[w] == logs[k].game_log);
}

} // verus!
