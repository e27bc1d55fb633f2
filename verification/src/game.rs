//! The turn orchestrator: the session lifecycle (create, play a command,
//! undo, concede, mark read) against the external rules engine.
//!
//! Every operation is split in two pure steps around the engine's network
//! round trip. A `*_prepare` function validates the request against the
//! store and produces the engine request together with the ruleset that
//! names the engine's address; the surrounding process performs the call;
//! a `*_apply` function validates the response and commits the outcome to
//! the store in one all-or-nothing transition. Caller errors are surfaced
//! verbatim and never change the store.

use vstd::prelude::*;

use crate::engine::{CliLog, Render, Request, Response, Status};
use crate::errors::Error;
use crate::models::{GamePlayer, GameVersion, NewGame, NewGameLog, PublicGamePlayerUser};
use crate::store::{
    CreatedGameLog, GameExtended, Store, total_targets, total_targets_partial,
};

verus! {

/// The seat sets derived from an engine status report, as one record.
pub struct StatusValues {
    pub is_finished: bool,
    pub whose_turn: Vec<usize>,
    pub eliminated: Vec<usize>,
    pub winners: Vec<usize>,
}

pub(crate) fn clone_positions(v: &Vec<usize>) -> (r: Vec<usize>)
    ensures
        r@ == v@,
{
    let mut r: Vec<usize> = Vec::new();
    let mut i: usize = 0;
    while i < v.len()
        invariant
            i <= v@.len(),
            r@ == v@.take(i as int),
        decreases v@.len() - i,
    {
        r.push(v[i]);
        proof {
            assert(r@ =~= v@.take(i + 1));
        }
        i += 1;
    }
    proof {
        assert(r@ =~= v@);
    }
    r
}

/// Convert an engine status into the flags and seat sets that are
/// persisted: an active session has a turn set and an eliminated set and
/// is not finished; a finished session has only winners.
pub fn game_status_values(status: &Status) -> (r: StatusValues)
    ensures
        status is Active ==> !r.is_finished && r.whose_turn@ == status->Active_whose_turn@
            && r.eliminated@ == status->Active_eliminated@ && r.winners@.len() == 0,
        status is Finished ==> r.is_finished && r.whose_turn@.len() == 0 && r.eliminated@.len()
            == 0 && r.winners@ == status->Finished_winners@,
{
    match status {
        Status::Active { whose_turn, eliminated } => StatusValues {
            is_finished: false,
            whose_turn: clone_positions(whose_turn),
            eliminated: clone_positions(eliminated),
            winners: Vec::new(),
        },
        Status::Finished { winners } => StatusValues {
            is_finished: true,
            whose_turn: Vec::new(),
            eliminated: Vec::new(),
            winners: clone_positions(winners),
        },
    }
}

/// The decimal digit `d` as a character.
pub open spec fn dec_digit(d: int) -> char {
    if d == 0 {
        '0'
    } else if d == 1 {
        '1'
    } else if d == 2 {
        '2'
    } else if d == 3 {
        '3'
    } else if d == 4 {
        '4'
    } else if d == 5 {
        '5'
    } else if d == 6 {
        '6'
    } else if d == 7 {
        '7'
    } else if d == 8 {
        '8'
    } else {
        '9'
    }
}

/// The decimal rendering of a non-negative number.
pub open spec fn dec_seq(n: int) -> Seq<char>
    decreases n,
{
    if n < 10 {
        seq![dec_digit(n)]
    } else {
        dec_seq(n / 10) + seq![dec_digit(n % 10)]
    }
}

fn digit_str(d: usize) -> (r: &'static str)
    requires
        d < 10,
    ensures
        r@ == seq![dec_digit(d as int)],
{
    proof {
        reveal_strlit("0");
        reveal_strlit("1");
        reveal_strlit("2");
        reveal_strlit("3");
        reveal_strlit("4");
        reveal_strlit("5");
        reveal_strlit("6");
        reveal_strlit("7");
        reveal_strlit("8");
        reveal_strlit("9");
    }
    match d {
        0 => "0",
        1 => "1",
        2 => "2",
        3 => "3",
        4 => "4",
        5 => "5",
        6 => "6",
        7 => "7",
        8 => "8",
        _ => "9",
    }
}

/// The decimal rendering of a seat position.
pub fn dec_string(n: usize) -> (r: String)
    ensures
        r@ == dec_seq(n as int),
    decreases n,
{
    if n < 10 {
        String::from_str(digit_str(n))
    } else {
        let s = dec_string(n / 10);
        s.concat(digit_str(n % 10))
    }
}

/// A templated reference to the seat at `pos`, as it appears in log
/// bodies: seats are referred to by position, never by name.
pub open spec fn player_ref_seq(pos: int) -> Seq<char> {
    "{{player "@ + dec_seq(pos) + "}}"@
}

/// The body of the system log entry recording an undo by seat `pos`.
pub open spec fn undo_log_body(pos: int) -> Seq<char> {
    player_ref_seq(pos) + " used an undo"@
}

/// The body of the system log entry recording a concession by seat `pos`.
pub open spec fn concede_log_body(pos: int) -> Seq<char> {
    player_ref_seq(pos) + " conceded"@
}

fn player_ref_string(pos: usize) -> (r: String)
    ensures
        r@ == player_ref_seq(pos as int),
{
    let s = String::from_str("{{player ");
    let s = s.concat(dec_string(pos).as_str());
    s.concat("}}")
}

fn undo_log_string(pos: usize) -> (r: String)
    ensures
        r@ == undo_log_body(pos as int),
{
    player_ref_string(pos).concat(" used an undo")
}

fn concede_log_string(pos: usize) -> (r: String)
    ensures
        r@ == concede_log_body(pos as int),
{
    player_ref_string(pos).concat(" conceded")
}

/// A request to create a session: the ruleset, and the opponents by user
/// identifier or by email address.
pub struct CreateRequest {
    pub game_version_id: u64,
    pub opponent_ids: Option<Vec<u64>>,
    pub opponent_emails: Option<Vec<String>>,
}

impl CreateRequest {
    /// The opponents by identifier, absent meaning none.
    pub open spec fn ids_view(self) -> Seq<u64> {
        match self.opponent_ids {
            Some(v) => v@,
            None => Seq::empty(),
        }
    }

    /// The opponents by email, absent meaning none.
    pub open spec fn emails_view(self) -> Seq<String> {
        match self.opponent_emails {
            Some(v) => v@,
            None => Seq::empty(),
        }
    }
}

/// A session is stored and marked finished.
pub open spec fn game_finished(store: Store, game_id: u64) -> bool {
    exists|k: int|
        0 <= k < store.games@.len() && (#[trigger] store.games@[k]).id == game_id
            && store.games@[k].is_finished
}

/// Validate a session-creation request and build the engine call: a
/// `New` request for the full player count, addressed to the requested
/// ruleset's engine.
pub fn create_prepare(store: &Store, data: &CreateRequest) -> (r: Result<
    (GameVersion, Request),
    Error,
>)
    requires
        data.ids_view().len() + data.emails_view().len() + 1 <= usize::MAX,
    ensures
        r is Ok <==> store.has_game_version(data.game_version_id),
        r is Err ==> r->Err_0 is UserError && r->Err_0->UserError_0@
            == "could not find game version"@,
        r is Ok ==> ({
            let (gv, req) = r->Ok_0;
            &&& gv.id == data.game_version_id
            &&& exists|k: int|
                0 <= k < store.game_versions@.len() && (#[trigger] store.game_versions@[k]) == gv
            &&& req == (Request::New {
                players: (1 + data.ids_view().len() + data.emails_view().len()) as usize,
            })
        }),
{
    let game_version = match store.find_game_version(data.game_version_id) {
        Some(gv) => gv,
        None => {
            return Err(Error::UserError(String::from_str("could not find game version")));
        },
    };
    let ids_len: usize = match &data.opponent_ids {
        Some(v) => v.len(),
        None => 0,
    };
    let emails_len: usize = match &data.opponent_emails {
        Some(v) => v.len(),
        None => 0,
    };
    let players: usize = 1 + ids_len + emails_len;
    Ok((game_version, Request::New { players }))
}

/// The turn set reported by a status: empty once the session finished.
pub open spec fn status_whose_turn(s: Status) -> Seq<usize> {
    match s {
        Status::Active { whose_turn, .. } => whose_turn@,
        Status::Finished { .. } => Seq::empty(),
    }
}

/// The eliminated set reported by a status.
pub open spec fn status_eliminated(s: Status) -> Seq<usize> {
    match s {
        Status::Active { eliminated, .. } => eliminated@,
        Status::Finished { .. } => Seq::empty(),
    }
}

/// The winner set reported by a status: empty while the session is
/// active.
pub open spec fn status_winners(s: Status) -> Seq<usize> {
    match s {
        Status::Active { .. } => Seq::empty(),
        Status::Finished { winners } => winners@,
    }
}

/// A participant row after a successful move: flags derived from the
/// engine status, and the undo snapshot held by the acting participant
/// alone.
pub open spec fn played_player_row(
    p: GamePlayer,
    s: Status,
    acting_id: u64,
    undo: Option<String>,
    now: i64,
) -> GamePlayer {
    GamePlayer {
        is_turn: status_whose_turn(s).contains(p.position),
        is_eliminated: status_eliminated(s).contains(p.position),
        is_winner: status_winners(s).contains(p.position),
        updated_at: now,
        undo_game_state: if p.id == acting_id {
            undo
        } else {
            None
        },
        ..p
    }
}

/// The tables after a committed move: the session row carries the new
/// engine state and finished flag; every participant of the session has
/// status-derived flags, and only the acting participant may hold an
/// undo snapshot.
pub open spec fn play_committed(
    pre_games: Seq<crate::models::Game>,
    post_games: Seq<crate::models::Game>,
    pre_players: Seq<GamePlayer>,
    post_players: Seq<GamePlayer>,
    game_id: u64,
    acting_id: u64,
    s: Status,
    undo: Option<String>,
    new_state: String,
    now: i64,
) -> bool {
    &&& post_games.len() == pre_games.len()
    &&& exists|k: int|
        0 <= k < pre_games.len() && (#[trigger] pre_games[k]).id == game_id
            && post_games[k].game_state == new_state && (post_games[k].is_finished <==> s
            is Finished) && post_games[k].updated_at == now && post_games[k].id == game_id
    &&& forall|k: int|
        0 <= k < pre_games.len() && (#[trigger] pre_games[k]).id != game_id ==> post_games[k]
            == pre_games[k]
    &&& post_players.len() == pre_players.len()
    &&& forall|t: int|
        0 <= t < pre_players.len() && (#[trigger] pre_players[t]).game_id != game_id
            ==> post_players[t] == pre_players[t]
    &&& forall|t: int|
        0 <= t < pre_players.len() && (#[trigger] pre_players[t]).game_id == game_id
            ==> post_players[t] == played_player_row(pre_players[t], s, acting_id, undo, now)
}

fn clone_strings(v: &Vec<String>) -> (r: Vec<String>)
    ensures
        r@ == v@,
{
    let mut r: Vec<String> = Vec::new();
    let mut i: usize = 0;
    while i < v.len()
        invariant
            i <= v@.len(),
            r@ == v@.take(i as int),
        decreases v@.len() - i,
    {
        r.push(v[i].clone());
        proof {
            assert(r@ =~= v@.take(i + 1));
        }
        i += 1;
    }
    proof {
        assert(r@ =~= v@);
    }
    r
}

fn clone_ids(v: &Vec<u64>) -> (r: Vec<u64>)
    ensures
        r@ == v@,
{
    let mut r: Vec<u64> = Vec::new();
    let mut i: usize = 0;
    while i < v.len()
        invariant
            i <= v@.len(),
            r@ == v@.take(i as int),
        decreases v@.len() - i,
    {
        r.push(v[i]);
        proof {
            assert(r@ =~= v@.take(i + 1));
        }
        i += 1;
    }
    proof {
        assert(r@ =~= v@);
    }
    r
}

/// Copies of a batch of engine log entries, field for field.
fn clone_cli_logs(v: &Vec<CliLog>) -> (r: Vec<CliLog>)
    ensures
        r@.len() == v@.len(),
        forall|i: int|
            0 <= i < v@.len() ==> (#[trigger] r@[i]).content == v@[i].content && r@[i].at
                == v@[i].at && r@[i].public == v@[i].public && r@[i].to@ == v@[i].to@,
{
    let mut r: Vec<CliLog> = Vec::new();
    let mut i: usize = 0;
    while i < v.len()
        invariant
            i <= v@.len(),
            r@.len() == i,
            forall|j: int|
                0 <= j < i ==> (#[trigger] r@[j]).content == v@[j].content && r@[j].at == v@[j].at
                    && r@[j].public == v@[j].public && r@[j].to@ == v@[j].to@,
        decreases v@.len() - i,
    {
        let l = &v[i];
        r.push(
            CliLog {
                content: l.content.clone(),
                at: l.at,
                public: l.public,
                to: clone_positions(&l.to),
            },
        );
        i += 1;
    }
    r
}

/// Batches that agree on their target counts have the same budget.
pub proof fn lemma_total_targets_congruent(a: Seq<CliLog>, b: Seq<CliLog>, i: int)
    requires
        a.len() == b.len(),
        forall|j: int| 0 <= j < a.len() ==> (#[trigger] a[j]).to@.len() == b[j].to@.len(),
        0 <= i <= a.len(),
    ensures
        total_targets_partial(a, i) == total_targets_partial(b, i),
    decreases i,
{
    if i > 0 {
        lemma_total_targets_congruent(a, b, i - 1);
    }
}

/// Every target seat of every entry is below `n`.
fn targets_below(logs: &Vec<CliLog>, n: usize) -> (b: bool)
    ensures
        b == (forall|i: int, t: int|
            0 <= i < logs@.len() && 0 <= t < logs@[i].to@.len() ==> (#[trigger] logs@[i].to@[t])
                < n),
{
    let mut i: usize = 0;
    while i < logs.len()
        invariant
            i <= logs@.len(),
            forall|ii: int, t: int|
                0 <= ii < i && 0 <= t < logs@[ii].to@.len() ==> (#[trigger] logs@[ii].to@[t]) < n,
        decreases logs@.len() - i,
    {
        let mut t: usize = 0;
        while t < logs[i].to.len()
            invariant
                i < logs@.len(),
                t <= logs@[i as int].to@.len(),
                forall|ii: int, tt: int|
                    0 <= ii < i && 0 <= tt < logs@[ii].to@.len() ==> (#[trigger] logs@[ii].to@[tt])
                        < n,
                forall|tt: int| 0 <= tt < t ==> (#[trigger] logs@[i as int].to@[tt]) < n,
            decreases logs@[i as int].to@.len() - t,
        {
            if logs[i].to[t] >= n {
                return false;
            }
            t += 1;
        }
        i += 1;
    }
    true
}

/// Commit a session creation: the engine has answered the `New` request,
/// so persist the session, its randomized roster with distinct colors,
/// and the engine's opening log entries, all or nothing.
#[verifier::spinoff_prover]
pub fn create_apply(
    store: &mut Store,
    user_id: u64,
    data: &CreateRequest,
    resp: &Response,
    now: i64,
) -> (r: Result<(crate::store::CreatedGame, Vec<CreatedGameLog>), Error>)
    requires
        old(store).wf(),
        data.ids_view().len() + data.emails_view().len() + 1 <= usize::MAX,
        old(store).next_id as int + 2 + 3 * data.emails_view().len() + data.ids_view().len() + (
        match resp {
            Response::New { logs, .. } => logs@.len() + total_targets(logs@),
            _ => 0,
        }) <= u64::MAX as int,
    ensures
        final(store).wf(),
        r is Err ==> Store::unchanged(*old(store), *final(store)),
        r is Ok ==> resp is New,
        r is Ok <==> ({
            let n = 1 + data.ids_view().len() + data.emails_view().len();
            &&& resp is New
            &&& (forall|i: int, t: int|
                0 <= i < resp->New_logs@.len() && 0 <= t < resp->New_logs@[i].to@.len() ==> (
                #[trigger] resp->New_logs@[i].to@[t]) < n)
            &&& old(store).has_game_version(data.game_version_id)
            &&& old(store).has_user(user_id)
            &&& n <= crate::color::palette_seq().len()
            &&& (forall|t: int|
                0 <= t < data.ids_view().len() ==> old(store).has_primary_email(
                    #[trigger] data.ids_view()[t],
                ))
            &&& (forall|j: int, i: int|
                0 <= j < data.emails_view().len() && 0 <= i < old(store).user_emails@.len() && (
                #[trigger] old(store).user_emails@[i]).email@ == (
                #[trigger] data.emails_view()[j])@ ==> old(store).has_primary_email(
                    old(store).user_emails@[i].user_id,
                ))
        }),
        r is Ok ==> ({
            let (cg, created_logs) = r->Ok_0;
            let n = 1 + data.ids_view().len() + data.emails_view().len();
            &&& cg.game.game_version_id == data.game_version_id
            &&& cg.game.game_state == resp->New_game.state
            &&& (cg.game.is_finished <==> resp->New_game.status is Finished)
            &&& final(store).games@.last() == cg.game
            &&& cg.players@.len() == n
            &&& cg.opponents@.len() == data.ids_view().len() + data.emails_view().len()
            &&& (forall|t: int|
                0 <= t < data.ids_view().len() ==> (#[trigger] cg.opponents@[t]).1.id
                    == data.ids_view()[t])
            &&& (cg.players@.map_values(crate::store::player_user_of()).to_multiset()
                == cg.opponents@.map_values(crate::store::opponent_user_of()).to_multiset().insert(
                user_id,
            ))
            &&& (forall|p: int| 0 <= p < n ==> (#[trigger] cg.players@[p]).position == p)
            &&& (forall|p: int| 0 <= p < n ==> (#[trigger] cg.players@[p]).game_id == cg.game.id)
            &&& (forall|p: int|
                0 <= p < n ==> crate::color::palette_seq().contains(
                    (#[trigger] cg.players@[p]).color,
                ))
            &&& (forall|p: int, q: int|
                0 <= p < q < n ==> cg.players@[p].color != cg.players@[q].color)
            &&& (forall|p: int|
                0 <= p < n ==> (#[trigger] cg.players@[p]).is_turn == (resp->New_game.status
                    is Active && resp->New_game.status->Active_whose_turn@.contains(
                    cg.players@[p].position,
                )))
            &&& (forall|p: int|
                0 <= p < n ==> (#[trigger] cg.players@[p]).is_winner == (resp->New_game.status
                    is Finished && resp->New_game.status->Finished_winners@.contains(
                    cg.players@[p].position,
                )))
            &&& created_logs@.len() == resp->New_logs@.len()
            &&& (forall|i: int|
                0 <= i < created_logs@.len() ==> (#[trigger] created_logs@[i]).game_log.game_id
                    == cg.game.id && created_logs@[i].game_log.body
                    == resp->New_logs@[i].content && created_logs@[i].game_log.is_public
                    == resp->New_logs@[i].public)
        }),
{
    let (game_info, logs) = match resp {
        Response::New { game, logs, .. } => (game, logs),
        _ => {
            return Err(Error::SystemError(String::from_str("expected a new session response")));
        },
    };
    let status = game_status_values(&game_info.status);
    let opponent_ids: Vec<u64> = match &data.opponent_ids {
        Some(v) => clone_ids(v),
        None => Vec::new(),
    };
    let opponent_emails: Vec<String> = match &data.opponent_emails {
        Some(v) => clone_strings(v),
        None => Vec::new(),
    };
    let n: usize = 1 + opponent_ids.len() + opponent_emails.len();
    if !targets_below(logs, n) {
        return Err(Error::SystemError(String::from_str("no player with that position exists")));
    }
    let opts = crate::store::CreateGameOpts {
        new_game: NewGame {
            game_version_id: data.game_version_id,
            is_finished: status.is_finished,
            game_state: game_info.state.clone(),
        },
        whose_turn: status.whose_turn,
        eliminated: status.eliminated,
        winners: status.winners,
        creator_id: user_id,
        opponent_ids,
        opponent_emails,
    };
    let created = match store.create_game_with_users(&opts, now) {
        Ok(cg) => cg,
        Err(e) => {
            return Err(e);
        },
    };
    let cloned_logs = clone_cli_logs(logs);
    proof {
        lemma_total_targets_congruent(
            cloned_logs@,
            logs@,
            cloned_logs@.len() as int,
        );
        assert forall|ii: int, t: int|
            0 <= ii < cloned_logs@.len() && 0 <= t < cloned_logs@[ii].to@.len() implies
            store.has_player_at(created.game.id, #[trigger] cloned_logs@[ii].to@[t]) by {
            let pos = cloned_logs@[ii].to@[t];
            assert(logs@[ii].to@[t] == pos);
            assert(pos < created.players@.len());
            assert(store.game_players@[old(store).game_players@.len() + pos]
                == created.players@[pos as int]);
            assert(created.players@[pos as int].position == pos);
            assert(created.players@[pos as int].game_id == created.game.id);
        }
    }
    match store.create_game_logs_from_cli(created.game.id, cloned_logs, now) {
        Ok(created_logs) => Ok((created, created_logs)),
        Err(_) => vstd::pervasive::unreached(),
    }
}

/// Every target seat of every engine log entry names an occupied seat of
/// the session.
pub open spec fn engine_logs_addressable(store: Store, game_id: u64, logs: Seq<CliLog>) -> bool {
    forall|i: int, t: int|
        0 <= i < logs.len() && 0 <= t < logs[i].to@.len() ==> store.has_player_at(
            game_id,
            #[trigger] logs[i].to@[t],
        )
}

/// Seat `a` is the lowest-indexed participant row of `game_id` held by
/// `user_id`.
pub open spec fn acting_seat(players: Seq<GamePlayer>, game_id: u64, user_id: u64, a: int) -> bool {
    &&& 0 <= a < players.len()
    &&& players[a].game_id == game_id
    &&& players[a].user_id == user_id
    &&& forall|j: int|
        0 <= j < a ==> !((#[trigger] players[j]).game_id == game_id && players[j].user_id
            == user_id)
}

/// Every target seat of every entry names an occupied seat of the
/// session.
fn targets_resolvable(store: &Store, game_id: u64, logs: &Vec<CliLog>) -> (b: bool)
    ensures
        b == engine_logs_addressable(*store, game_id, logs@),
{
    let mut i: usize = 0;
    while i < logs.len()
        invariant
            i <= logs@.len(),
            forall|ii: int, t: int|
                0 <= ii < i && 0 <= t < logs@[ii].to@.len() ==> store.has_player_at(
                    game_id,
                    #[trigger] logs@[ii].to@[t],
                ),
        decreases logs@.len() - i,
    {
        let mut t: usize = 0;
        while t < logs[i].to.len()
            invariant
                i < logs@.len(),
                t <= logs@[i as int].to@.len(),
                forall|ii: int, tt: int|
                    0 <= ii < i && 0 <= tt < logs@[ii].to@.len() ==> store.has_player_at(
                        game_id,
                        #[trigger] logs@[ii].to@[tt],
                    ),
                forall|tt: int|
                    0 <= tt < t ==> store.has_player_at(
                        game_id,
                        #[trigger] logs@[i as int].to@[tt],
                    ),
            decreases logs@[i as int].to@.len() - t,
        {
            if !store.has_player_at_exec(game_id, logs[i].to[t]) {
                return false;
            }
            t += 1;
        }
        i += 1;
    }
    true
}

fn clone_renders(v: &Vec<Render>) -> (r: Vec<Render>)
    ensures
        r@ == v@,
{
    let mut r: Vec<Render> = Vec::new();
    let mut i: usize = 0;
    while i < v.len()
        invariant
            i <= v@.len(),
            r@ == v@.take(i as int),
        decreases v@.len() - i,
    {
        r.push(v[i].clone());
        proof {
            assert(r@ =~= v@.take(i + 1));
        }
        i += 1;
    }
    proof {
        assert(r@ =~= v@);
    }
    r
}

/// Validate a play request and build the engine call: the session must
/// exist, not be finished, and the acting user must hold a seat. The
/// request carries the stored engine state, the command text, and the
/// full player-name list in seat order.
#[verifier::rlimit(100)]
#[verifier::spinoff_prover]
pub fn command_prepare(store: &Store, game_id: u64, user_id: u64, command: &String) -> (r: Result<
    (GameVersion, Request),
    Error,
>)
    requires
        store.wf(),
    ensures
        r is Ok <==> store.has_game(game_id) && !game_finished(*store, game_id)
            && store.has_player_for(game_id, user_id),
        r is Err ==> r->Err_0 is UserError,
        !store.has_game(game_id) ==> r is Err && r->Err_0->UserError_0@ == "game does not exist"@,
        store.has_game(game_id) && game_finished(*store, game_id) ==> r is Err && r->Err_0->UserError_0@
            == "game is already finished"@,
        store.has_game(game_id) && !game_finished(*store, game_id) && !store.has_player_for(
            game_id,
            user_id,
        ) ==> r is Err && r->Err_0->UserError_0@ == "you are not a player in this game"@,
        r is Ok ==> ({
            let (gv, req) = r->Ok_0;
            &&& req is Play
            &&& req->Play_command == *command
            &&& exists|k: int|
                0 <= k < store.games@.len() && (#[trigger] store.games@[k]).id == game_id
                    && gv.id == store.games@[k].game_version_id && req->Play_game
                    == store.games@[k].game_state
            &&& exists|k: int|
                0 <= k < store.game_versions@.len() && (#[trigger] store.game_versions@[k]) == gv
            &&& exists|k: int|
                0 <= k < store.game_players@.len() && (#[trigger] store.game_players@[k]).game_id
                    == game_id && store.game_players@[k].user_id == user_id && req->Play_player
                    == store.game_players@[k].position && (forall|j: int|
                    0 <= j < k ==> !((#[trigger] store.game_players@[j]).game_id == game_id
                        && store.game_players@[j].user_id == user_id))
            &&& req->Play_names@.len() == store.game_players@.filter(
                crate::store::players_pred(game_id),
            ).len()
            &&& forall|j: int|
                0 <= j < req->Play_names@.len() ==> (#[trigger] req->Play_names@[j])@
                    == crate::store::user_name_of(
                    *store,
                    store.game_players@.filter(crate::store::players_pred(game_id))[j].user_id,
                )
        }),
{
    let (game, game_version) = match store.find_game_with_version(game_id) {
        Some(v) => v,
        None => {
            return Err(Error::UserError(String::from_str("game does not exist")));
        },
    };
    if game.is_finished {
        proof {
            let k = choose|k: int|
                0 <= k < store.games@.len() && (#[trigger] store.games@[k]) == game;
        }
        return Err(Error::UserError(String::from_str("game is already finished")));
    }
    let player = match store.find_game_player_by_user_and_game(user_id, game_id) {
        Some(p) => p,
        None => {
            return Err(Error::UserError(String::from_str("you are not a player in this game")));
        },
    };
    proof {
        if game_finished(*store, game_id) {
            let k = choose|k: int|
                0 <= k < store.games@.len() && (#[trigger] store.games@[k]).id == game_id
                    && store.games@[k].is_finished;
            let k2 = choose|k2: int|
                0 <= k2 < store.games@.len() && (#[trigger] store.games@[k2]) == game;
            assert(k == k2);
        }
    }
    let players = store.find_game_players_with_user_by_game(game_id);
    let ghost flt = store.game_players@.filter(crate::store::players_pred(game_id));
    let mut names: Vec<String> = Vec::new();
    let mut j: usize = 0;
    while j < players.len()
        invariant
            store.wf(),
            j <= players@.len(),
            names@.len() == j,
            flt == store.game_players@.filter(crate::store::players_pred(game_id)),
            players@.len() == flt.len(),
            forall|t: int|
                0 <= t < players@.len() ==> (#[trigger] players@[t]).0 == flt[t],
            forall|t: int|
                0 <= t < players@.len() ==> (#[trigger] players@[t]).1.id == players@[t].0.user_id
                    && exists|w: int|
                    0 <= w < store.users@.len() && (#[trigger] store.users@[w]).id
                        == players@[t].0.user_id && crate::models::user_equal(
                        players@[t].1,
                        store.users@[w],
                    ),
            forall|t: int|
                0 <= t < j ==> (#[trigger] names@[t])@ == crate::store::user_name_of(
                    *store,
                    flt[t].user_id,
                ),
        decreases players@.len() - j,
    {
        names.push(players[j].1.name.clone());
        proof {
            let w = choose|w: int|
                0 <= w < store.users@.len() && (#[trigger] store.users@[w]).id
                    == players@[j as int].0.user_id && crate::models::user_equal(
                    players@[j as int].1,
                    store.users@[w],
                );
            assert(store.has_user(players@[j as int].0.user_id));
            crate::store::lemma_user_row_index(*store, players@[j as int].0.user_id);
            assert(w == crate::store::user_row_index(*store, players@[j as int].0.user_id));
            assert(names@[j as int] == store.users@[w].name);
        }
        j += 1;
    }
    let req = Request::Play {
        player: player.position,
        game: game.game_state,
        command: command.clone(),
        names,
    };
    Ok((game_version, req))
}

/// The outcome of a committed move: the updated session row, the created
/// log entries, the renders the engine produced for every audience, and
/// whether the move can be undone.
pub struct PlayOutcome {
    pub game: crate::models::Game,
    pub created_logs: Vec<CreatedGameLog>,
    pub public_render: Render,
    pub player_renders: Vec<Render>,
    pub can_undo: bool,
    pub remaining_input: String,
}

/// Commit a validated play: persist the new engine state, the
/// status-derived flags and undo snapshots, and the move's log entries.
#[verifier::rlimit(100)]
#[verifier::spinoff_prover]
fn play_commit(
    store: &mut Store,
    game_id: u64,
    acting_id: u64,
    prestate: &String,
    version_id: u64,
    new_state: &String,
    status_src: &Status,
    logs: &Vec<CliLog>,
    can_undo: bool,
    now: i64,
) -> (r: (crate::models::Game, Vec<CreatedGameLog>))
    requires
        old(store).wf(),
        old(store).has_game(game_id),
        old(store).has_game_version(version_id),
        old(store).next_id as int + logs@.len() + total_targets(logs@) <= u64::MAX as int,
        engine_logs_addressable(*old(store), game_id, logs@),
    ensures
        final(store).wf(),
        play_committed(
            old(store).games@,
            final(store).games@,
            old(store).game_players@,
            final(store).game_players@,
            game_id,
            acting_id,
            *status_src,
            if can_undo {
                Some(*prestate)
            } else {
                None
            },
            *new_state,
            now,
        ),
        r.0.game_state == *new_state,
        r.0.id == game_id,
        (r.0.is_finished <==> *status_src is Finished),
        r.1@.len() == logs@.len(),
        forall|i: int|
            0 <= i < logs@.len() ==> (#[trigger] r.1@[i]).game_log.game_id == game_id
                && r.1@[i].game_log.body == logs@[i].content && r.1@[i].game_log.is_public
                == logs@[i].public && r.1@[i].game_log.logged_at == logs@[i].at,
        final(store).game_logs@.len() == old(store).game_logs@.len() + logs@.len(),
        final(store).next_id as int <= old(store).next_id as int + logs@.len() + total_targets(
            logs@,
        ),
{
    let status = game_status_values(status_src);
    let undo_arg: Option<&String> = if can_undo {
        Some(prestate)
    } else {
        None
    };
    let ghost s0 = *store;
    let updated = match store.update_game_command_success(
        game_id,
        acting_id,
        &NewGame {
            game_version_id: version_id,
            is_finished: status.is_finished,
            game_state: new_state.clone(),
        },
        undo_arg,
        &status.whose_turn,
        &status.eliminated,
        &status.winners,
        now,
    ) {
        Ok(u) => u,
        Err(_) => vstd::pervasive::unreached(),
    };
    let updated_game = match updated.game {
        Some(g) => g,
        None => vstd::pervasive::unreached(),
    };
    proof {
        let k = choose|k: int|
            0 <= k < s0.games@.len() && (#[trigger] s0.games@[k]).id == game_id
                && store.games@ == s0.games@.update(
                k,
                crate::store::updated_game_row(
                    s0.games@[k],
                    NewGame {
                        game_version_id: version_id,
                        is_finished: status.is_finished,
                        game_state: *new_state,
                    },
                    now,
                ),
            );
        assert(store.games@[k].id == game_id);
        assert forall|kk: int|
            0 <= kk < s0.games@.len() && (#[trigger] s0.games@[kk]).id != game_id implies
            store.games@[kk] == s0.games@[kk] by {
            assert(kk != k);
        }
    }
    let cloned = clone_cli_logs(logs);
    proof {
        lemma_total_targets_congruent(cloned@, logs@, cloned@.len() as int);
        assert forall|ii: int, t: int|
            0 <= ii < cloned@.len() && 0 <= t < cloned@[ii].to@.len() implies store.has_player_at(
            game_id,
            #[trigger] cloned@[ii].to@[t],
        ) by {
            let pos = cloned@[ii].to@[t];
            assert(logs@[ii].to@[t] == pos);
            assert(s0.has_player_at(game_id, pos));
            let w = choose|w: int|
                0 <= w < s0.game_players@.len() && (#[trigger] s0.game_players@[w]).game_id
                    == game_id && s0.game_players@[w].position == pos;
            assert(store.game_players@[w].game_id == game_id);
            assert(store.game_players@[w].position == pos);
        }
        assert(store.has_game(game_id)) by {
            let w = choose|w: int|
                0 <= w < s0.games@.len() && (#[trigger] s0.games@[w]).id == game_id;
            assert(store.games@[w].id == game_id);
        }
        let ghost mid = *store;
        assert(play_committed(
            s0.games@,
            mid.games@,
            s0.game_players@,
            mid.game_players@,
            game_id,
            acting_id,
            *status_src,
            if can_undo {
                Some(*prestate)
            } else {
                None
            },
            *new_state,
            now,
        ));
    }
    let created_logs = match store.create_game_logs_from_cli(game_id, cloned, now) {
        Ok(v) => v,
        Err(_) => vstd::pervasive::unreached(),
    };
    (updated_game, created_logs)
}

/// Commit the engine's answer to a play request. A `UserError` response
/// is surfaced verbatim and leaves the store untouched; a `Play` response
/// is persisted in one step: new engine state, status-derived flags, undo
/// snapshots, and the move's log entries.
#[verifier::rlimit(100)]
#[verifier::spinoff_prover]
pub fn command_apply(
    store: &mut Store,
    game_id: u64,
    user_id: u64,
    resp: &Response,
    now: i64,
) -> (r: Result<PlayOutcome, Error>)
    requires
        old(store).wf(),
        old(store).next_id as int + (match resp {
            Response::Play { logs, .. } => logs@.len() + total_targets(logs@),
            _ => 0,
        }) <= u64::MAX as int,
    ensures
        final(store).wf(),
        r is Err ==> Store::unchanged(*old(store), *final(store)),
        old(store).has_game(game_id) && !game_finished(*old(store), game_id) && old(
            store,
        ).has_player_for(game_id, user_id) && resp is UserError ==> r is Err && r->Err_0
            == (Error::UserError(resp->UserError_message)),
        r is Ok <==> old(store).has_game(game_id) && !game_finished(*old(store), game_id) && old(
            store,
        ).has_player_for(game_id, user_id) && resp is Play && engine_logs_addressable(
            *old(store),
            game_id,
            resp->Play_logs@,
        ),
        r is Ok ==> ({
            let o = r->Ok_0;
            &&& o.can_undo == resp->Play_can_undo
            &&& o.public_render == resp->Play_public_render
            &&& o.player_renders@ == resp->Play_player_renders@
            &&& o.remaining_input == resp->Play_remaining_input
            &&& o.game.game_state == resp->Play_game.state
            &&& o.game.id == game_id
            &&& (o.game.is_finished <==> resp->Play_game.status is Finished)
            &&& exists|k: int, a: int|
                0 <= k < old(store).games@.len() && (#[trigger] old(store).games@[k]).id
                    == game_id && #[trigger] acting_seat(
                    old(store).game_players@,
                    game_id,
                    user_id,
                    a,
                ) && play_committed(
                    old(store).games@,
                    final(store).games@,
                    old(store).game_players@,
                    final(store).game_players@,
                    game_id,
                    old(store).game_players@[a].id,
                    resp->Play_game.status,
                    if resp->Play_can_undo {
                        Some(old(store).games@[k].game_state)
                    } else {
                        None
                    },
                    resp->Play_game.state,
                    now,
                )
            &&& o.created_logs@.len() == resp->Play_logs@.len()
            &&& (forall|i: int|
                0 <= i < o.created_logs@.len() ==> (#[trigger] o.created_logs@[i]).game_log.game_id
                    == game_id && o.created_logs@[i].game_log.body == resp->Play_logs@[i].content
                    && o.created_logs@[i].game_log.is_public == resp->Play_logs@[i].public
                    && o.created_logs@[i].game_log.logged_at == resp->Play_logs@[i].at)
            &&& final(store).game_logs@.len() == old(store).game_logs@.len()
                + resp->Play_logs@.len()
        }),
{
    let (game, _game_version) = match store.find_game_with_version(game_id) {
        Some(v) => v,
        None => {
            return Err(Error::UserError(String::from_str("game does not exist")));
        },
    };
    if game.is_finished {
        proof {
            let k = choose|k: int|
                0 <= k < store.games@.len() && (#[trigger] store.games@[k]) == game;
        }
        return Err(Error::UserError(String::from_str("game is already finished")));
    }
    proof {
        if game_finished(*store, game_id) {
            let k = choose|k: int|
                0 <= k < store.games@.len() && (#[trigger] store.games@[k]).id == game_id
                    && store.games@[k].is_finished;
            let k2 = choose|k2: int|
                0 <= k2 < store.games@.len() && (#[trigger] store.games@[k2]) == game;
            assert(k == k2);
        }
    }
    let player = match store.find_game_player_by_user_and_game(user_id, game_id) {
        Some(p) => p,
        None => {
            return Err(Error::UserError(String::from_str("you are not a player in this game")));
        },
    };
    match resp {
        Response::UserError { message } => Err(Error::UserError(message.clone())),
        Response::Play { game: g2, logs, can_undo, remaining_input, public_render, player_renders }
        => {
            if !targets_resolvable(store, game_id, logs) {
                return Err(
                    Error::SystemError(String::from_str("no player with that position exists")),
                );
            }
            proof {
                let k = choose|k: int|
                    0 <= k < store.games@.len() && (#[trigger] store.games@[k]) == game;
                assert(store.has_game_version(store.games@[k].game_version_id));
                assert(store.has_game(game_id));
            }
            let ghost s0 = *store;
            let (updated_game, created_logs) = play_commit(
                store,
                game_id,
                player.id,
                &game.game_state,
                game.game_version_id,
                &g2.state,
                &g2.status,
                logs,
                *can_undo,
                now,
            );
            proof {
                let k = choose|k: int|
                    0 <= k < s0.games@.len() && (#[trigger] s0.games@[k]) == game;
                let a = choose|a: int|
                    0 <= a < s0.game_players@.len() && (#[trigger] s0.game_players@[a]) == player
                        && s0.game_players@[a].game_id == game_id
                        && s0.game_players@[a].user_id == user_id && (forall|j: int|
                        0 <= j < a ==> !((#[trigger] s0.game_players@[j]).game_id == game_id
                            && s0.game_players@[j].user_id == user_id));
                assert(s0.games@[k].id == game_id);
                assert(s0.games@[k].game_state == game.game_state);
                assert(s0.game_players@[a].id == player.id);
                assert(acting_seat(s0.game_players@, game_id, user_id, a));
            }
            Ok(
                PlayOutcome {
                    game: updated_game,
                    created_logs,
                    public_render: public_render.clone(),
                    player_renders: clone_renders(player_renders),
                    can_undo: *can_undo,
                    remaining_input: remaining_input.clone(),
                },
            )
        },
        _ => Err(Error::SystemError(String::from_str("invalid response type"))),
    }
}

/// The tables after a concession: the session finished, the conceding
/// participant eliminated and defeated, every other participant a winner.
pub open spec fn concede_committed(
    pre_games: Seq<crate::models::Game>,
    post_games: Seq<crate::models::Game>,
    pre_players: Seq<GamePlayer>,
    post_players: Seq<GamePlayer>,
    game_id: u64,
    acting_id: u64,
    now: i64,
) -> bool {
    &&& post_games.len() == pre_games.len()
    &&& exists|k: int|
        0 <= k < pre_games.len() && (#[trigger] pre_games[k]).id == game_id
            && post_games[k] == (crate::models::Game {
            is_finished: true,
            updated_at: now,
            ..pre_games[k]
        })
    &&& post_players.len() == pre_players.len()
    &&& forall|t: int|
        0 <= t < pre_players.len() && (#[trigger] pre_players[t]).game_id != game_id
            ==> post_players[t] == pre_players[t]
    &&& forall|t: int|
        0 <= t < pre_players.len() && (#[trigger] pre_players[t]).game_id == game_id
            ==> post_players[t] == (GamePlayer {
            is_turn: false,
            is_eliminated: pre_players[t].id == acting_id,
            is_winner: pre_players[t].id != acting_id,
            updated_at: now,
            ..pre_players[t]
        })
}

/// The acting user may undo right now: the session exists, is not
/// finished, and their seat holds a snapshot.
pub open spec fn undo_allowed(store: Store, game_id: u64, user_id: u64) -> bool {
    &&& store.has_game(game_id)
    &&& !game_finished(store, game_id)
    &&& exists|a: int|
        #[trigger] acting_seat(store.game_players@, game_id, user_id, a)
            && store.game_players@[a].undo_game_state is Some
}

/// Shared validation of an undo request: the session must exist and be
/// unfinished, and the acting user's seat must hold a snapshot.
#[verifier::rlimit(100)]
#[verifier::spinoff_prover]
fn undo_validate(store: &Store, game_id: u64, user_id: u64) -> (r: Result<
    (crate::models::Game, GameVersion, GamePlayer),
    Error,
>)
    requires
        store.wf(),
    ensures
        r is Ok <==> undo_allowed(*store, game_id, user_id),
        r is Err ==> r->Err_0 is UserError,
        !store.has_game(game_id) ==> r is Err && r->Err_0->UserError_0@ == "game does not exist"@,
        store.has_game(game_id) && game_finished(*store, game_id) ==> r is Err
            && r->Err_0->UserError_0@ == "game is already finished"@,
        store.has_game(game_id) && !game_finished(*store, game_id) && store.has_player_for(
            game_id,
            user_id,
        ) && !undo_allowed(*store, game_id, user_id) ==> r is Err && r->Err_0->UserError_0@
            == "you can't undo at the moment"@,
        r is Ok ==> ({
            let (g, gv, p) = r->Ok_0;
            &&& g.id == game_id
            &&& !g.is_finished
            &&& exists|k: int|
                0 <= k < store.games@.len() && (#[trigger] store.games@[k]) == g
            &&& gv.id == g.game_version_id
            &&& exists|k: int|
                0 <= k < store.game_versions@.len() && (#[trigger] store.game_versions@[k]) == gv
            &&& p.undo_game_state is Some
            &&& p.game_id == game_id
            &&& exists|a: int|
                #[trigger] acting_seat(store.game_players@, game_id, user_id, a)
                    && store.game_players@[a] == p
        }),
{
    let (game, game_version) = match store.find_game_with_version(game_id) {
        Some(v) => v,
        None => {
            return Err(Error::UserError(String::from_str("game does not exist")));
        },
    };
    if game.is_finished {
        proof {
            let k = choose|k: int|
                0 <= k < store.games@.len() && (#[trigger] store.games@[k]) == game;
        }
        return Err(Error::UserError(String::from_str("game is already finished")));
    }
    proof {
        if game_finished(*store, game_id) {
            let k = choose|k: int|
                0 <= k < store.games@.len() && (#[trigger] store.games@[k]).id == game_id
                    && store.games@[k].is_finished;
            let k2 = choose|k2: int|
                0 <= k2 < store.games@.len() && (#[trigger] store.games@[k2]) == game;
            assert(k == k2);
        }
    }
    let player = match store.find_game_player_by_user_and_game(user_id, game_id) {
        Some(p) => p,
        None => {
            proof {
                if undo_allowed(*store, game_id, user_id) {
                    let a = choose|a: int|
                        #[trigger] acting_seat(store.game_players@, game_id, user_id, a)
                            && store.game_players@[a].undo_game_state is Some;
                    assert(store.has_player_for(game_id, user_id));
                }
            }
            return Err(Error::UserError(String::from_str("you aren't a player in this game")));
        },
    };
    proof {
        let a = choose|a: int|
            0 <= a < store.game_players@.len() && (#[trigger] store.game_players@[a]) == player
                && store.game_players@[a].game_id == game_id && store.game_players@[a].user_id
                == user_id && (forall|j: int|
                0 <= j < a ==> !((#[trigger] store.game_players@[j]).game_id == game_id
                    && store.game_players@[j].user_id == user_id));
        assert(acting_seat(store.game_players@, game_id, user_id, a));
        if undo_allowed(*store, game_id, user_id) {
            let a2 = choose|a2: int|
                #[trigger] acting_seat(store.game_players@, game_id, user_id, a2)
                    && store.game_players@[a2].undo_game_state is Some;
            assert(a2 == a) by {
                if a2 < a {
                    assert(store.game_players@[a2].game_id == game_id);
                } else if a < a2 {
                    assert(store.game_players@[a].game_id == game_id);
                }
            }
        }
    }
    if player.undo_game_state.is_none() {
        return Err(Error::UserError(String::from_str("you can't undo at the moment")));
    }
    Ok((game, game_version, player))
}

/// Validate an undo request and build the engine call: a `Status` request
/// against the acting participant's saved snapshot, since an undo is a
/// pure state re-derivation, not a move.
#[verifier::rlimit(100)]
#[verifier::spinoff_prover]
pub fn undo_prepare(store: &Store, game_id: u64, user_id: u64) -> (r: Result<
    (GameVersion, Request),
    Error,
>)
    requires
        store.wf(),
    ensures
        r is Ok <==> undo_allowed(*store, game_id, user_id),
        r is Err ==> r->Err_0 is UserError,
        !store.has_game(game_id) ==> r is Err && r->Err_0->UserError_0@ == "game does not exist"@,
        store.has_game(game_id) && game_finished(*store, game_id) ==> r is Err
            && r->Err_0->UserError_0@ == "game is already finished"@,
        store.has_game(game_id) && !game_finished(*store, game_id) && store.has_player_for(
            game_id,
            user_id,
        ) && !undo_allowed(*store, game_id, user_id) ==> r is Err && r->Err_0->UserError_0@
            == "you can't undo at the moment"@,
        r is Ok ==> ({
            let (gv, req) = r->Ok_0;
            &&& req is Status
            &&& exists|a: int|
                #[trigger] acting_seat(store.game_players@, game_id, user_id, a)
                    && store.game_players@[a].undo_game_state == Some(req->Status_game)
            &&& exists|k: int|
                0 <= k < store.games@.len() && (#[trigger] store.games@[k]).id == game_id
                    && gv.id == store.games@[k].game_version_id
            &&& exists|k: int|
                0 <= k < store.game_versions@.len() && (#[trigger] store.game_versions@[k]) == gv
        }),
{
    match undo_validate(store, game_id, user_id) {
        Ok((_game, game_version, player)) => {
            let snapshot = match &player.undo_game_state {
                Some(s) => s.clone(),
                None => vstd::pervasive::unreached(),
            };
            Ok((game_version, Request::Status { game: snapshot }))
        },
        Err(e) => Err(e),
    }
}

/// The outcome of a committed undo or concession: the updated session
/// row, the system log entry recording it, and the renders for every
/// audience.
pub struct SystemOutcome {
    pub game: crate::models::Game,
    pub log: CreatedGameLog,
    pub public_render: Render,
    pub player_renders: Vec<Render>,
}

/// Commit the engine's answer to an undo request: the snapshot's status
/// becomes the session's state, every participant's undo snapshot is
/// cleared (an undo is single-shot), and a public system log entry names
/// the seat that undid.
#[verifier::rlimit(100)]
#[verifier::spinoff_prover]
pub fn undo_apply(
    store: &mut Store,
    game_id: u64,
    user_id: u64,
    resp: &Response,
    now: i64,
) -> (r: Result<SystemOutcome, Error>)
    requires
        old(store).wf(),
        old(store).next_id < u64::MAX,
    ensures
        final(store).wf(),
        r is Err ==> Store::unchanged(*old(store), *final(store)),
        r is Ok <==> undo_allowed(*old(store), game_id, user_id) && resp is Status,
        old(store).has_game(game_id) && !game_finished(*old(store), game_id) && old(
            store,
        ).has_player_for(game_id, user_id) && !undo_allowed(*old(store), game_id, user_id) ==> r
            is Err && r->Err_0->UserError_0@ == "you can't undo at the moment"@,
        r is Ok ==> ({
            let o = r->Ok_0;
            &&& o.public_render == resp->Status_public_render
            &&& o.player_renders@ == resp->Status_player_renders@
            &&& o.game.game_state == resp->Status_game.state
            &&& o.game.id == game_id
            &&& (o.game.is_finished <==> resp->Status_game.status is Finished)
            &&& exists|a: int|
                #[trigger] acting_seat(old(store).game_players@, game_id, user_id, a)
                    && play_committed(
                    old(store).games@,
                    final(store).games@,
                    old(store).game_players@,
                    final(store).game_players@,
                    game_id,
                    old(store).game_players@[a].id,
                    resp->Status_game.status,
                    None,
                    resp->Status_game.state,
                    now,
                ) && o.log.game_log.body@ == undo_log_body(
                    old(store).game_players@[a].position as int,
                )
            &&& o.log.game_log.is_public
            &&& o.log.game_log.game_id == game_id
            &&& o.log.game_log.logged_at == now
            &&& final(store).game_logs@.len() == old(store).game_logs@.len() + 1
            &&& final(store).game_logs@.last() == o.log.game_log
            &&& forall|t: int|
                0 <= t < old(store).game_players@.len()
                    && (#[trigger] final(store).game_players@[t]).game_id == game_id
                    ==> final(store).game_players@[t].undo_game_state is None
        }),
{
    let (game, _game_version, player) = match undo_validate(store, game_id, user_id) {
        Ok(v) => v,
        Err(e) => {
            return Err(e);
        },
    };
    let ghost s0 = *store;
    match resp {
        Response::Status { game: g2, public_render, player_renders } => {
            proof {
                let k = choose|k: int|
                    0 <= k < store.games@.len() && (#[trigger] store.games@[k]) == game;
                assert(store.has_game_version(store.games@[k].game_version_id));
                assert(store.has_game(game_id));
            }
            let (updated_game, log) = undo_commit(
                store,
                game_id,
                player.id,
                player.position,
                &game.game_state,
                game.game_version_id,
                g2,
                now,
            );
            proof {
                let a = choose|a: int|
                    #[trigger] acting_seat(s0.game_players@, game_id, user_id, a)
                        && s0.game_players@[a] == player;
                assert(s0.game_players@[a].id == player.id);
                assert(s0.game_players@[a].position == player.position);
                assert forall|t: int|
                    0 <= t < s0.game_players@.len()
                        && (#[trigger] final(store).game_players@[t]).game_id == game_id implies
                    final(store).game_players@[t].undo_game_state is None by {
                    if s0.game_players@[t].game_id == game_id {
                        assert(final(store).game_players@[t] == played_player_row(
                            s0.game_players@[t],
                            g2.status,
                            player.id,
                            None,
                            now,
                        ));
                    } else {
                        assert(final(store).game_players@[t] == s0.game_players@[t]);
                    }
                }
            }
            Ok(
                SystemOutcome {
                    game: updated_game,
                    log,
                    public_render: public_render.clone(),
                    player_renders: clone_renders(player_renders),
                },
            )
        },
        _ => Err(Error::SystemError(String::from_str("invalid response type"))),
    }
}

/// Commit a validated undo: re-derive the session from the snapshot's
/// status, clear every undo snapshot, and record the public system log
/// entry naming the seat that undid.
#[verifier::rlimit(100)]
#[verifier::spinoff_prover]
fn undo_commit(
    store: &mut Store,
    game_id: u64,
    acting_id: u64,
    acting_position: usize,
    prestate: &String,
    version_id: u64,
    g2: &crate::engine::EngineGame,
    now: i64,
) -> (r: (crate::models::Game, CreatedGameLog))
    requires
        old(store).wf(),
        old(store).has_game(game_id),
        old(store).has_game_version(version_id),
        old(store).next_id < u64::MAX,
    ensures
        final(store).wf(),
        play_committed(
            old(store).games@,
            final(store).games@,
            old(store).game_players@,
            final(store).game_players@,
            game_id,
            acting_id,
            g2.status,
            None,
            g2.state,
            now,
        ),
        r.0.game_state == g2.state,
        r.0.id == game_id,
        (r.0.is_finished <==> g2.status is Finished),
        r.1.game_log.body@ == undo_log_body(acting_position as int),
        r.1.game_log.is_public,
        r.1.game_log.game_id == game_id,
        r.1.game_log.logged_at == now,
        final(store).game_logs@.len() == old(store).game_logs@.len() + 1,
        final(store).game_logs@.last() == r.1.game_log,
{
    let ghost s0 = *store;
    let empty_logs: Vec<CliLog> = Vec::new();
    let (updated_game, _no_logs) = play_commit(
        store,
        game_id,
        acting_id,
        prestate,
        version_id,
        &g2.state,
        &g2.status,
        &empty_logs,
        false,
        now,
    );
    proof {
        assert(store.has_game(game_id)) by {
            let w = choose|w: int|
                0 <= w < s0.games@.len() && (#[trigger] s0.games@[w]).id == game_id;
            assert(store.games@[w].id == game_id);
        }
    }
    let body = undo_log_string(acting_position);
    let log = match store.create_game_log(
        &NewGameLog { game_id, body, is_public: true, logged_at: now },
        &Vec::new(),
        now,
    ) {
        Ok(l) => l,
        Err(_) => vstd::pervasive::unreached(),
    };
    proof {
        assert(store.game_logs@.last() == store.game_logs@[store.game_logs@.len() - 1]);
    }
    (updated_game, log)
}

/// The acting user may concede right now: the session exists, is not
/// finished, has at most two participants, and the user holds a seat.
pub open spec fn concede_allowed(store: Store, game_id: u64, user_id: u64) -> bool {
    &&& store.has_game(game_id)
    &&& !game_finished(store, game_id)
    &&& crate::store::count_players(store.game_players@, game_id) <= 2
    &&& store.has_player_for(game_id, user_id)
}

/// Shared validation of a concession: concession is only well defined
/// for sessions of at most two participants.
#[verifier::rlimit(100)]
#[verifier::spinoff_prover]
fn concede_validate(store: &Store, game_id: u64, user_id: u64) -> (r: Result<
    (crate::models::Game, GameVersion, GamePlayer),
    Error,
>)
    requires
        store.wf(),
    ensures
        r is Ok <==> concede_allowed(*store, game_id, user_id),
        r is Err ==> r->Err_0 is UserError,
        !store.has_game(game_id) ==> r is Err && r->Err_0->UserError_0@ == "game does not exist"@,
        store.has_game(game_id) && game_finished(*store, game_id) ==> r is Err
            && r->Err_0->UserError_0@ == "game is already finished"@,
        store.has_game(game_id) && !game_finished(*store, game_id) && crate::store::count_players(
            store.game_players@,
            game_id,
        ) > 2 ==> r is Err && r->Err_0->UserError_0@
            == "cannot concede games with more than two players"@,
        r is Ok ==> ({
            let (g, gv, p) = r->Ok_0;
            &&& g.id == game_id
            &&& !g.is_finished
            &&& exists|k: int| 0 <= k < store.games@.len() && (#[trigger] store.games@[k]) == g
            &&& gv.id == g.game_version_id
            &&& exists|k: int|
                0 <= k < store.game_versions@.len() && (#[trigger] store.game_versions@[k]) == gv
            &&& p.game_id == game_id
            &&& exists|a: int|
                #[trigger] acting_seat(store.game_players@, game_id, user_id, a)
                    && store.game_players@[a] == p
        }),
{
    let (game, game_version) = match store.find_game_with_version(game_id) {
        Some(v) => v,
        None => {
            return Err(Error::UserError(String::from_str("game does not exist")));
        },
    };
    if game.is_finished {
        proof {
            let k = choose|k: int|
                0 <= k < store.games@.len() && (#[trigger] store.games@[k]) == game;
        }
        return Err(Error::UserError(String::from_str("game is already finished")));
    }
    proof {
        if game_finished(*store, game_id) {
            let k = choose|k: int|
                0 <= k < store.games@.len() && (#[trigger] store.games@[k]).id == game_id
                    && store.games@[k].is_finished;
            let k2 = choose|k2: int|
                0 <= k2 < store.games@.len() && (#[trigger] store.games@[k2]) == game;
            assert(k == k2);
        }
    }
    let player_count = store.find_player_count_by_game(game_id);
    if player_count > 2 {
        return Err(
            Error::UserError(String::from_str("cannot concede games with more than two players")),
        );
    }
    let player = match store.find_game_player_by_user_and_game(user_id, game_id) {
        Some(p) => p,
        None => {
            return Err(Error::UserError(String::from_str("you aren't a player in this game")));
        },
    };
    proof {
        let a = choose|a: int|
            0 <= a < store.game_players@.len() && (#[trigger] store.game_players@[a]) == player
                && store.game_players@[a].game_id == game_id && store.game_players@[a].user_id
                == user_id && (forall|j: int|
                0 <= j < a ==> !((#[trigger] store.game_players@[j]).game_id == game_id
                    && store.game_players@[j].user_id == user_id));
        assert(acting_seat(store.game_players@, game_id, user_id, a));
    }
    Ok((game, game_version, player))
}

/// Validate a concession and build the engine call: a `Status` request on
/// the current state, since conceding does not change the engine state;
/// the response is only needed to render the final position.
pub fn concede_prepare(store: &Store, game_id: u64, user_id: u64) -> (r: Result<
    (GameVersion, Request),
    Error,
>)
    requires
        store.wf(),
    ensures
        r is Ok <==> concede_allowed(*store, game_id, user_id),
        r is Err ==> r->Err_0 is UserError,
        store.has_game(game_id) && !game_finished(*store, game_id) && crate::store::count_players(
            store.game_players@,
            game_id,
        ) > 2 ==> r is Err && r->Err_0->UserError_0@
            == "cannot concede games with more than two players"@,
        r is Ok ==> ({
            let (gv, req) = r->Ok_0;
            &&& req is Status
            &&& exists|k: int|
                0 <= k < store.games@.len() && (#[trigger] store.games@[k]).id == game_id
                    && req->Status_game == store.games@[k].game_state && gv.id
                    == store.games@[k].game_version_id
            &&& exists|k: int|
                0 <= k < store.game_versions@.len() && (#[trigger] store.game_versions@[k]) == gv
        }),
{
    match concede_validate(store, game_id, user_id) {
        Ok((game, game_version, _player)) => Ok(
            (game_version, Request::Status { game: game.game_state }),
        ),
        Err(e) => Err(e),
    }
}

/// Commit a concession: the session finishes, the conceding participant
/// is eliminated and loses, every other participant wins, and a public
/// system log entry names the seat that conceded. The engine state is
/// unchanged; the response only carries the final renders.
#[verifier::rlimit(100)]
#[verifier::spinoff_prover]
pub fn concede_apply(
    store: &mut Store,
    game_id: u64,
    user_id: u64,
    resp: &Response,
    now: i64,
) -> (r: Result<SystemOutcome, Error>)
    requires
        old(store).wf(),
        old(store).next_id < u64::MAX,
    ensures
        final(store).wf(),
        r is Err ==> Store::unchanged(*old(store), *final(store)),
        r is Ok <==> concede_allowed(*old(store), game_id, user_id) && resp is Status,
        r is Ok ==> ({
            let o = r->Ok_0;
            &&& o.public_render == resp->Status_public_render
            &&& o.player_renders@ == resp->Status_player_renders@
            &&& o.game.id == game_id
            &&& o.game.is_finished
            &&& exists|a: int|
                #[trigger] acting_seat(old(store).game_players@, game_id, user_id, a)
                    && concede_committed(
                    old(store).games@,
                    final(store).games@,
                    old(store).game_players@,
                    final(store).game_players@,
                    game_id,
                    old(store).game_players@[a].id,
                    now,
                ) && o.log.game_log.body@ == concede_log_body(
                    old(store).game_players@[a].position as int,
                )
            &&& o.log.game_log.is_public
            &&& o.log.game_log.game_id == game_id
            &&& o.log.game_log.logged_at == now
            &&& final(store).game_logs@.len() == old(store).game_logs@.len() + 1
            &&& final(store).game_logs@.last() == o.log.game_log
        }),
{
    let (_game, _game_version, player) = match concede_validate(store, game_id, user_id) {
        Ok(v) => v,
        Err(e) => {
            return Err(e);
        },
    };
    let ghost s0 = *store;
    match resp {
        Response::Status { game: _g2, public_render, player_renders } => {
            let updated_game = match store.concede_game(game_id, player.id, now) {
                Ok(g) => g,
                Err(_) => {
                    proof {
                        let a = choose|a: int|
                            #[trigger] acting_seat(s0.game_players@, game_id, user_id, a)
                                && s0.game_players@[a] == player;
                        assert(s0.has_game(game_id));
                    }
                    vstd::pervasive::unreached()
                },
            };
            proof {
                assert(store.has_game(game_id)) by {
                    let w = choose|w: int|
                        0 <= w < s0.games@.len() && (#[trigger] s0.games@[w]).id == game_id;
                    assert(store.games@[w].id == game_id);
                }
            }
            let body = concede_log_string(player.position);
            let log = match store.create_game_log(
                &NewGameLog { game_id, body, is_public: true, logged_at: now },
                &Vec::new(),
                now,
            ) {
                Ok(l) => l,
                Err(_) => vstd::pervasive::unreached(),
            };
            proof {
                let a = choose|a: int|
                    #[trigger] acting_seat(s0.game_players@, game_id, user_id, a)
                        && s0.game_players@[a] == player;
                assert(s0.game_players@[a].id == player.id);
                assert(s0.game_players@[a].position == player.position);
                assert(store.game_logs@.last() == store.game_logs@[store.game_logs@.len() - 1]);
            }
            Ok(
                SystemOutcome {
                    game: updated_game,
                    log,
                    public_render: public_render.clone(),
                    player_renders: clone_renders(player_renders),
                },
            )
        },
        _ => Err(Error::SystemError(String::from_str("invalid response type"))),
    }
}

/// Mark the acting user's seat of a session as read. No engine call and
/// no broadcast: this is the one mutation that stays request-local. The
/// only change is that one participant row, which gains its read flag.
pub fn mark_read(store: &mut Store, game_id: u64, user_id: u64, now: i64) -> (r: Result<
    Option<GamePlayer>,
    Error,
>)
    requires
        old(store).wf(),
    ensures
        final(store).wf(),
        r is Ok,
        (r->Ok_0 is Some) <==> old(store).has_player_for(game_id, user_id),
        r->Ok_0 is None ==> Store::unchanged(*old(store), *final(store)),
        r->Ok_0 is Some ==> (r->Ok_0->0).is_read,
        r->Ok_0 is Some ==> exists|k: int|
            0 <= k < old(store).game_players@.len() && (#[trigger] old(
                store,
            ).game_players@[k]).game_id == game_id && old(store).game_players@[k].user_id == user_id
                && final(store).game_players@ == old(store).game_players@.update(
                k,
                (GamePlayer { is_read: true, updated_at: now, ..old(store).game_players@[k] }),
            ) && r->Ok_0->0 == final(store).game_players@[k],
        final(store).next_id == old(store).next_id,
        Store::same_users(*old(store), *final(store)),
        Store::same_user_emails(*old(store), *final(store)),
        Store::same_user_auth_tokens(*old(store), *final(store)),
        Store::same_game_types(*old(store), *final(store)),
        Store::same_game_versions(*old(store), *final(store)),
        Store::same_games(*old(store), *final(store)),
        Store::same_game_logs(*old(store), *final(store)),
        Store::same_game_log_targets(*old(store), *final(store)),
    {
    store.mark_game_read(game_id, user_id, now)
}

/// One personalized view of a session, as returned to the acting user
/// and published to subscribers: the public rows, the viewer's own seat
/// if any, the render for that audience, and the log entries that
/// audience may see.
pub struct ShowResponse {
    pub game: crate::models::PublicGame,
    pub pub_state: String,
    pub game_version: crate::models::PublicGameVersion,
    pub game_type: crate::models::PublicGameType,
    pub game_player: Option<GamePlayer>,
    pub game_players: Vec<PublicGamePlayerUser>,
    pub render: String,
    pub game_logs: Vec<crate::models::GameLog>,
    pub command_spec: Option<String>,
}

/// Assemble the view of a session for one audience: the public audience
/// when `game_player` is absent, that participant's audience otherwise.
/// The visible log entries are exactly the public ones, plus, for a
/// participant, the private ones targeted at their seat.
pub fn game_extended_to_show_response(
    store: &Store,
    game_player: Option<GamePlayer>,
    game_extended: GameExtended,
    render: &Render,
) -> (r: Result<ShowResponse, Error>)
    requires
        store.wf(),
    ensures
        r is Ok <==> (match game_player {
            Some(gp) => store.has_game_player(gp.id),
            None => true,
        }),
        r is Ok ==> ({
            let o = r->Ok_0;
            &&& o.render == render.render
            &&& o.pub_state == render.pub_state
            &&& o.command_spec == render.command_spec
            &&& o.game_player == game_player
            &&& o.game.id == game_extended.game.id
            &&& o.game == (crate::models::PublicGame {
                id: game_extended.game.id,
                created_at: game_extended.game.created_at,
                updated_at: game_extended.game.updated_at,
                game_version_id: game_extended.game.game_version_id,
                is_finished: game_extended.game.is_finished,
            })
            &&& o.game_version == (crate::models::PublicGameVersion {
                id: game_extended.game_version.id,
                created_at: game_extended.game_version.created_at,
                updated_at: game_extended.game_version.updated_at,
                game_type_id: game_extended.game_version.game_type_id,
                name: game_extended.game_version.name,
                is_public: game_extended.game_version.is_public,
                is_deprecated: game_extended.game_version.is_deprecated,
            })
            &&& o.game_type == game_extended.game_type
            &&& o.game_players@.len() == game_extended.game_players@.len()
            &&& (forall|k: int|
                0 <= k < game_extended.game_players@.len() ==> (
                #[trigger] o.game_players@[k]).game_player == game_extended.game_players@[k].0
                    && o.game_players@[k].user == (crate::models::PublicUser {
                    id: game_extended.game_players@[k].1.id,
                    created_at: game_extended.game_players@[k].1.created_at,
                    updated_at: game_extended.game_players@[k].1.updated_at,
                    name: game_extended.game_players@[k].1.name,
                }))
            &&& crate::store::logs_time_ordered(o.game_logs@)
            &&& (match game_player {
                Some(gp) => exists|k: int|
                    0 <= k < store.game_players@.len() && (#[trigger] store.game_players@[k]).id
                        == gp.id && o.game_logs@.to_multiset() == store.game_logs@.filter(
                        store.player_logs_pred(store.game_players@[k].game_id, gp.id),
                    ).to_multiset(),
                None => o.game_logs@.to_multiset() == store.game_logs@.filter(
                    crate::store::public_logs_pred(game_extended.game.id),
                ).to_multiset(),
            })
        }),
{
    let game_id = game_extended.game.id;
    let game_logs = match &game_player {
        Some(gp) => {
            match store.find_game_logs_for_player(gp.id) {
                Ok(v) => v,
                Err(_) => {
                    return Err(Error::SystemError(String::from_str("error finding game logs")));
                },
            }
        },
        None => store.find_public_game_logs_for_game(game_id),
    };
    let public = game_extended.into_public();
    Ok(
        ShowResponse {
            game: public.game,
            pub_state: render.pub_state.clone(),
            game_version: public.game_version,
            game_type: public.game_type,
            game_player,
            game_players: public.game_players,
            render: render.render.clone(),
            game_logs,
            command_spec: crate::models::clone_opt_string(&render.command_spec),
        },
    )
}

/// Law: undo is single-shot. Once a committed undo has cleared every
/// participant's snapshot of a session, no user can undo that session
/// again until a new undoable move stores a fresh snapshot.
pub proof fn lemma_undo_single_shot(store: Store, game_id: u64, user_id: u64)
    requires
        forall|t: int|
            0 <= t < store.game_players@.len() && (#[trigger] store.game_players@[t]).game_id
                == game_id ==> store.game_players@[t].undo_game_state is None,
    ensures
        !undo_allowed(store, game_id, user_id),
{
    if undo_allowed(store, game_id, user_id) {
        let a = choose|a: int|
            #[trigger] acting_seat(store.game_players@, game_id, user_id, a)
                && store.game_players@[a].undo_game_state is Some;
        assert(store.game_players@[a].game_id == game_id);
    }
}

} // verus!
