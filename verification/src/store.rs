//! The game state store: transactional persistence over sessions, players
//! and logs, modelled as in-memory tables.
//!
//! The store is the single source of truth for every session mutation. Each
//! operation here is the state transition of one query of the service; the
//! surrounding process maps them onto the relational database. Row
//! identifiers are issued from a single counter, so they are unique across
//! a table; `wf` captures that, referential integrity between the tables,
//! and the seat layout of every session: the participants of a session
//! occupy seat positions `0..N-1` in storage order.

use vstd::prelude::*;

use crate::color::{Color, lemma_palette_no_duplicates, palette_seq};
use crate::engine::CliLog;
use crate::errors::Error;
use crate::models::{
    Game, GameLog, GameLogTarget, GamePlayer, GameType, GameVersion, NewGame, NewGameLog,
    NewGameLogTarget, NewGamePlayer, NewGameType, NewGameVersion, NewUserEmail, PublicGame,
    PublicGamePlayerUser, PublicGameType, PublicGameVersion, PublicUser, User, UserAuthToken,
    UserEmail, clone_colors, clone_opt_string, user_equal,
};

verus! {

/// How long a login confirmation code stays valid, in seconds.
pub const CONFIRMATION_EXPIRY_SECS: i64 = 1800;

/// How long an authentication token stays valid, in seconds.
pub const TOKEN_EXPIRY_SECS: i64 = 2592000;

/// How long a finished session stays relevant to its unread participants,
/// in seconds.
pub const FINISHED_GAME_RELEVANCE_SECS: i64 = 259200;

pub struct Store {
    pub next_id: u64,
    pub users: Vec<User>,
    pub user_emails: Vec<UserEmail>,
    pub user_auth_tokens: Vec<UserAuthToken>,
    pub game_types: Vec<GameType>,
    pub game_versions: Vec<GameVersion>,
    pub games: Vec<Game>,
    pub game_players: Vec<GamePlayer>,
    pub game_logs: Vec<GameLog>,
    pub game_log_targets: Vec<GameLogTarget>,
}

/// Number of participant rows of the session `gid` in `gp`.
pub open spec fn count_players(gp: Seq<GamePlayer>, gid: u64) -> nat
    decreases gp.len(),
{
    if gp.len() == 0 {
        0
    } else {
        count_players(gp.drop_last(), gid) + if gp.last().game_id == gid {
            1nat
        } else {
            0nat
        }
    }
}

/// Each participant row's seat position equals the number of earlier rows
/// of the same session: per session, positions are `0..N-1` in storage
/// order.
pub open spec fn seats_ok(gp: Seq<GamePlayer>) -> bool {
    forall|i: int|
        0 <= i < gp.len() ==> (#[trigger] gp[i]).position == count_players(
            gp.take(i),
            gp[i].game_id,
        )
}

/// A log entry together with the target rows created for it.
pub struct CreatedGameLog {
    pub game_log: GameLog,
    pub targets: Vec<GameLogTarget>,
}

/// Field-wise equality of created log entries; the target rows are
/// compared by contents.
pub open spec fn created_log_equal(a: CreatedGameLog, b: CreatedGameLog) -> bool {
    a.game_log == b.game_log && a.targets@ == b.targets@
}

fn clone_targets(v: &Vec<GameLogTarget>) -> (r: Vec<GameLogTarget>)
    ensures
        r@ == v@,
{
    let mut r: Vec<GameLogTarget> = Vec::new();
    let mut i: usize = 0;
    while i < v.len()
        invariant
            i <= v@.len(),
            r@ == v@.take(i as int),
        decreases v@.len() - i,
    {
        r.push(v[i].clone());
        proof {
            assert(r@ =~= v@.take(i + 1));
        }
        i += 1;
    }
    proof {
        assert(r@ =~= v@);
    }
    r
}

impl Clone for CreatedGameLog {
    fn clone(&self) -> (r: Self)
        ensures
            created_log_equal(r, *self),
    {
        CreatedGameLog { game_log: self.game_log.clone(), targets: clone_targets(&self.targets) }
    }
}

/// Selects the participant rows of session `gid`.
pub open spec fn players_pred(gid: u64) -> spec_fn(GamePlayer) -> bool {
    |p: GamePlayer| p.game_id == gid
}

/// Projects a user row to its identifier.
pub open spec fn user_id_of() -> spec_fn(User) -> u64 {
    |u: User| u.id
}

/// Projects a participant row to the identifier of its user.
pub open spec fn player_user_of() -> spec_fn(GamePlayer) -> u64 {
    |p: GamePlayer| p.user_id
}

/// Projects a resolved opponent to the identifier of its user.
pub open spec fn opponent_user_of() -> spec_fn((UserEmail, User)) -> u64 {
    |o: (UserEmail, User)| o.1.id
}

pub proof fn lemma_count_players_congruent(a: Seq<GamePlayer>, b: Seq<GamePlayer>, gid: u64)
    requires
        a.len() == b.len(),
        forall|i: int| 0 <= i < a.len() ==> (#[trigger] a[i]).game_id == b[i].game_id,
    ensures
        count_players(a, gid) == count_players(b, gid),
    decreases a.len(),
{
    if a.len() > 0 {
        lemma_count_players_congruent(a.drop_last(), b.drop_last(), gid);
    }
}

pub proof fn lemma_count_players_push(gp: Seq<GamePlayer>, p: GamePlayer, gid: u64)
    ensures
        count_players(gp.push(p), gid) == count_players(gp, gid) + if p.game_id == gid {
            1nat
        } else {
            0nat
        },
{
    assert(gp.push(p).drop_last() =~= gp);
}

/// A session with no participant rows has count zero.
pub proof fn lemma_count_players_zero(gp: Seq<GamePlayer>, gid: u64)
    requires
        forall|i: int| 0 <= i < gp.len() ==> (#[trigger] gp[i]).game_id != gid,
    ensures
        count_players(gp, gid) == 0,
    decreases gp.len(),
{
    if gp.len() > 0 {
        lemma_count_players_zero(gp.drop_last(), gid);
    }
}

/// Seat layout only depends on the session and position columns.
pub proof fn lemma_seats_ok_congruent(a: Seq<GamePlayer>, b: Seq<GamePlayer>)
    requires
        a.len() == b.len(),
        forall|i: int|
            0 <= i < a.len() ==> (#[trigger] a[i]).game_id == b[i].game_id && a[i].position
                == b[i].position,
        seats_ok(a),
    ensures
        seats_ok(b),
{
    assert forall|i: int| 0 <= i < b.len() implies (#[trigger] b[i]).position == count_players(
        b.take(i),
        b[i].game_id,
    ) by {
        assert(a[i].position == count_players(a.take(i), a[i].game_id));
        assert forall|j: int| 0 <= j < i implies (#[trigger] a.take(i)[j]).game_id == b.take(
            i,
        )[j].game_id by {
            assert(a.take(i)[j] == a[j]);
            assert(b.take(i)[j] == b[j]);
        }
        lemma_count_players_congruent(a.take(i), b.take(i), b[i].game_id);
    }
}

/// One step of a scan that mirrors `Seq::filter`.
pub proof fn lemma_filter_take_step<A>(s: Seq<A>, i: int, pred: spec_fn(A) -> bool)
    requires
        0 <= i < s.len(),
    ensures
        s.take(i + 1).filter(pred) == if pred(s[i]) {
            s.take(i).filter(pred).push(s[i])
        } else {
            s.take(i).filter(pred)
        },
{
    reveal(Seq::filter);
    assert(s.take(i + 1).drop_last() =~= s.take(i));
    assert(s.take(i + 1).last() == s[i]);
}

/// Sequences with the same rows, in any order, project to the same rows:
/// mapping element by element preserves the multiset.
pub proof fn lemma_to_multiset_map<A, B>(a: Seq<A>, b: Seq<A>, f: spec_fn(A) -> B)
    requires
        a.to_multiset() == b.to_multiset(),
    ensures
        a.map_values(f).to_multiset() == b.map_values(f).to_multiset(),
    decreases a.len(),
{
    a.to_multiset_ensures();
    b.to_multiset_ensures();
    if a.len() == 0 {
        assert(b.to_multiset().len() == 0);
        assert(a.map_values(f) =~= b.map_values(f));
    } else {
        let x = a.last();
        assert(a.contains(x));
        assert(b.to_multiset().count(x) > 0);
        assert(b.contains(x));
        let j = choose|j: int| 0 <= j < b.len() && b[j] == x;
        let a1 = a.drop_last();
        let b1 = b.remove(j);
        assert(a.remove(a.len() - 1) =~= a1);
        vstd::seq_lib::to_multiset_remove(a, a.len() - 1);
        vstd::seq_lib::to_multiset_remove(b, j);
        assert(a1.to_multiset() == a.to_multiset().remove(x));
        assert(b1.to_multiset() == b.to_multiset().remove(x));
        lemma_to_multiset_map(a1, b1, f);
        assert(a.map_values(f) =~= a1.map_values(f).push(f(x)));
        a1.map_values(f).to_multiset_ensures();
        assert(a.map_values(f).to_multiset() == a1.map_values(f).to_multiset().insert(f(x)));
        assert(b.map_values(f).remove(j) =~= b1.map_values(f));
        vstd::seq_lib::to_multiset_remove(b.map_values(f), j);
        assert(b.map_values(f)[j] == f(x));
        assert(b1.map_values(f).to_multiset() == b.map_values(f).to_multiset().remove(f(x)));
        b.map_values(f).to_multiset_ensures();
        assert(b.map_values(f).contains(f(x)));
        assert(b.map_values(f).to_multiset().count(f(x)) > 0);
        assert(a.map_values(f).to_multiset() =~= b.map_values(f).to_multiset()) by {
            broadcast use vstd::multiset::group_multiset_axioms;

            assert(a.map_values(f).to_multiset() == b.map_values(f).to_multiset().remove(
                f(x),
            ).insert(f(x)));
        }
    }
}

/// Projecting a roster of user rows — the resolved opponents' users
/// followed by the creator — to identifiers.
proof fn lemma_ids_projection(users: Seq<User>, opponents: Seq<(UserEmail, User)>, creator_id: u64)
    requires
        users.len() == opponents.len() + 1,
        forall|t: int| 0 <= t < opponents.len() ==> (#[trigger] users[t]).id == opponents[t].1.id,
        users.last().id == creator_id,
    ensures
        users.map_values(user_id_of()) == opponents.map_values(opponent_user_of()).push(creator_id),
{
    assert(users.map_values(user_id_of()) =~= opponents.map_values(opponent_user_of()).push(
        creator_id,
    ));
}

/// The seated participants hold exactly the shuffled roster's users: the
/// resolved opponents plus the creator, one seat each.
proof fn lemma_roster_multiset(
    players: Seq<GamePlayer>,
    users: Seq<User>,
    pre_shuffle: Seq<User>,
    opponents: Seq<(UserEmail, User)>,
    creator_id: u64,
)
    requires
        players.len() == users.len(),
        forall|p: int| 0 <= p < players.len() ==> (#[trigger] players[p]).user_id == users[p].id,
        users.to_multiset() == pre_shuffle.to_multiset(),
        pre_shuffle.map_values(user_id_of()) == opponents.map_values(opponent_user_of()).push(
            creator_id,
        ),
    ensures
        players.map_values(player_user_of()).to_multiset() == opponents.map_values(
            opponent_user_of(),
        ).to_multiset().insert(creator_id),
{
    assert(players.map_values(player_user_of()) =~= users.map_values(user_id_of()));
    lemma_to_multiset_map(users, pre_shuffle, user_id_of());
    opponents.map_values(opponent_user_of()).to_multiset_ensures();
}

/// The entries stand in ascending logical-timestamp order.
pub open spec fn logs_time_ordered(s: Seq<GameLog>) -> bool {
    forall|i: int, j: int| 0 <= i < j < s.len() ==> s[i].logged_at <= s[j].logged_at
}

/// Insert one entry into a timestamp-ordered list, keeping the order.
fn sorted_insert_log(out: &mut Vec<GameLog>, x: GameLog)
    requires
        logs_time_ordered(old(out)@),
    ensures
        logs_time_ordered(final(out)@),
        final(out)@.to_multiset() == old(out)@.to_multiset().insert(x),
        final(out)@.len() == old(out)@.len() + 1,
{
    let mut k: usize = 0;
    while k < out.len() && out[k].logged_at <= x.logged_at
        invariant
            k <= out@.len(),
            out@ == old(out)@,
            forall|a: int| 0 <= a < k ==> (#[trigger] out@[a]).logged_at <= x.logged_at,
        decreases out@.len() - k,
    {
        k += 1;
    }
    let ghost pre = out@;
    out.insert(k, x);
    proof {
        vstd::seq_lib::to_multiset_insert(pre, k as int, x);
        assert forall|i: int, j: int| 0 <= i < j < out@.len() implies out@[i].logged_at
            <= out@[j].logged_at by {
            if j < k {
                assert(out@[i] == pre[i] && out@[j] == pre[j]);
            } else if i > k {
                assert(out@[i] == pre[i - 1] && out@[j] == pre[j - 1]);
            } else if j == k {
                assert(out@[i] == pre[i]);
            } else if i == k {
                assert(out@[j] == pre[j - 1]);
                if k < pre.len() {
                    assert(pre[k as int].logged_at > x.logged_at);
                    assert(pre[k as int].logged_at <= pre[j - 1].logged_at);
                }
            } else {
                assert(i < k && j > k);
                assert(out@[i] == pre[i] && out@[j] == pre[j - 1]);
                if k < pre.len() {
                    assert(pre[i].logged_at <= x.logged_at);
                    assert(pre[k as int].logged_at <= pre[j - 1].logged_at);
                } else {
                    assert(j >= out@.len());
                }
            }
        }
    }
}

/// Order a batch of log entries by their logical timestamps, ascending.
/// The result holds exactly the given rows.
fn sort_logs_by_time(v: Vec<GameLog>) -> (r: Vec<GameLog>)
    ensures
        logs_time_ordered(r@),
        r@.to_multiset() == v@.to_multiset(),
{
    let mut out: Vec<GameLog> = Vec::new();
    let mut i: usize = 0;
    proof {
        assert(v@.take(0) =~= Seq::<GameLog>::empty());
        Seq::<GameLog>::empty().to_multiset_ensures();
        assert(out@.to_multiset() =~= v@.take(0).to_multiset());
    }
    while i < v.len()
        invariant
            i <= v@.len(),
            logs_time_ordered(out@),
            out@.to_multiset() == v@.take(i as int).to_multiset(),
        decreases v@.len() - i,
    {
        sorted_insert_log(&mut out, v[i].clone());
        proof {
            v@.take(i as int).to_multiset_ensures();
            assert(v@.take(i + 1) =~= v@.take(i as int).push(v@[i as int]));
            assert(v@.take(i + 1).to_multiset() == v@.take(i as int).to_multiset().insert(
                v@[i as int],
            ));
        }
        i += 1;
    }
    proof {
        assert(v@.take(v@.len() as int) =~= v@);
    }
    out
}

impl Store {
    pub open spec fn users_ok(self) -> bool {
        &&& forall|i: int| 0 <= i < self.users@.len() ==> (#[trigger] self.users@[i]).id < self.next_id
        &&& forall|i: int, j: int|
            0 <= i < j < self.users@.len() ==> self.users@[i].id != self.users@[j].id
    }

    pub open spec fn user_emails_ok(self) -> bool {
        &&& forall|i: int|
            0 <= i < self.user_emails@.len() ==> (#[trigger] self.user_emails@[i]).id < self.next_id
        &&& forall|i: int, j: int|
            0 <= i < j < self.user_emails@.len() ==> self.user_emails@[i].id
                != self.user_emails@[j].id
        &&& forall|i: int, j: int|
            0 <= i < j < self.user_emails@.len() ==> self.user_emails@[i].email@
                != self.user_emails@[j].email@
    }

    pub open spec fn user_auth_tokens_ok(self) -> bool {
        &&& forall|i: int|
            0 <= i < self.user_auth_tokens@.len() ==> (#[trigger] self.user_auth_tokens@[i]).id
                < self.next_id
        &&& forall|i: int, j: int|
            0 <= i < j < self.user_auth_tokens@.len() ==> self.user_auth_tokens@[i].id
                != self.user_auth_tokens@[j].id
    }

    pub open spec fn game_types_ok(self) -> bool {
        &&& forall|i: int|
            0 <= i < self.game_types@.len() ==> (#[trigger] self.game_types@[i]).id < self.next_id
        &&& forall|i: int, j: int|
            0 <= i < j < self.game_types@.len() ==> self.game_types@[i].id
                != self.game_types@[j].id
    }

    pub open spec fn game_versions_ok(self) -> bool {
        &&& forall|i: int|
            0 <= i < self.game_versions@.len() ==> (#[trigger] self.game_versions@[i]).id
                < self.next_id
        &&& forall|i: int, j: int|
            0 <= i < j < self.game_versions@.len() ==> self.game_versions@[i].id
                != self.game_versions@[j].id
    }

    pub open spec fn games_ok(self) -> bool {
        &&& forall|i: int| 0 <= i < self.games@.len() ==> (#[trigger] self.games@[i]).id < self.next_id
        &&& forall|i: int, j: int|
            0 <= i < j < self.games@.len() ==> self.games@[i].id != self.games@[j].id
    }

    pub open spec fn game_players_ok(self) -> bool {
        &&& forall|i: int|
            0 <= i < self.game_players@.len() ==> (#[trigger] self.game_players@[i]).id
                < self.next_id
        &&& forall|i: int, j: int|
            0 <= i < j < self.game_players@.len() ==> self.game_players@[i].id
                != self.game_players@[j].id
    }

    pub open spec fn game_logs_ok(self) -> bool {
        &&& forall|i: int|
            0 <= i < self.game_logs@.len() ==> (#[trigger] self.game_logs@[i]).id < self.next_id
        &&& forall|i: int, j: int|
            0 <= i < j < self.game_logs@.len() ==> self.game_logs@[i].id != self.game_logs@[j].id
    }

    pub open spec fn game_log_targets_ok(self) -> bool {
        &&& forall|i: int|
            0 <= i < self.game_log_targets@.len() ==> (#[trigger] self.game_log_targets@[i]).id
                < self.next_id
        &&& forall|i: int, j: int|
            0 <= i < j < self.game_log_targets@.len() ==> self.game_log_targets@[i].id
                != self.game_log_targets@[j].id
    }

    pub open spec fn has_user(self, id: u64) -> bool {
        exists|i: int| 0 <= i < self.users@.len() && (#[trigger] self.users@[i]).id == id
    }

    pub open spec fn has_game(self, id: u64) -> bool {
        exists|i: int| 0 <= i < self.games@.len() && (#[trigger] self.games@[i]).id == id
    }

    pub open spec fn has_game_version(self, id: u64) -> bool {
        exists|i: int|
            0 <= i < self.game_versions@.len() && (#[trigger] self.game_versions@[i]).id == id
    }

    pub open spec fn has_game_type(self, id: u64) -> bool {
        exists|i: int| 0 <= i < self.game_types@.len() && (#[trigger] self.game_types@[i]).id == id
    }

    pub open spec fn has_game_log(self, id: u64) -> bool {
        exists|i: int| 0 <= i < self.game_logs@.len() && (#[trigger] self.game_logs@[i]).id == id
    }

    pub open spec fn has_game_player(self, id: u64) -> bool {
        exists|i: int|
            0 <= i < self.game_players@.len() && (#[trigger] self.game_players@[i]).id == id
    }

    /// Referential integrity between the tables.
    pub open spec fn refs_ok(self) -> bool {
        &&& forall|i: int|
            0 <= i < self.game_versions@.len() ==> self.has_game_type(
                (#[trigger] self.game_versions@[i]).game_type_id,
            )
        &&& forall|i: int|
            0 <= i < self.games@.len() ==> self.has_game_version(
                (#[trigger] self.games@[i]).game_version_id,
            )
        &&& forall|i: int|
            0 <= i < self.game_players@.len() ==> self.has_game(
                (#[trigger] self.game_players@[i]).game_id,
            ) && self.has_user(self.game_players@[i].user_id)
        &&& forall|i: int|
            0 <= i < self.game_logs@.len() ==> self.has_game(
                (#[trigger] self.game_logs@[i]).game_id,
            )
        &&& forall|i: int|
            0 <= i < self.game_log_targets@.len() ==> self.has_game_log(
                (#[trigger] self.game_log_targets@[i]).game_log_id,
            ) && self.has_game_player(self.game_log_targets@[i].game_player_id)
        &&& forall|i: int|
            0 <= i < self.user_emails@.len() ==> self.has_user(
                (#[trigger] self.user_emails@[i]).user_id,
            )
        &&& forall|i: int|
            0 <= i < self.user_auth_tokens@.len() ==> self.has_user(
                (#[trigger] self.user_auth_tokens@[i]).user_id,
            )
    }

    /// The store's invariant: fresh unique identifiers, referential
    /// integrity, and per-session seat layout.
    pub open spec fn wf(self) -> bool {
        &&& self.users_ok()
        &&& self.user_emails_ok()
        &&& self.user_auth_tokens_ok()
        &&& self.game_types_ok()
        &&& self.game_versions_ok()
        &&& self.games_ok()
        &&& self.game_players_ok()
        &&& self.game_logs_ok()
        &&& self.game_log_targets_ok()
        &&& self.refs_ok()
        &&& seats_ok(self.game_players@)
    }

    pub open spec fn same_users(pre: Store, post: Store) -> bool {
        post.users@ == pre.users@
    }

    pub open spec fn same_user_emails(pre: Store, post: Store) -> bool {
        post.user_emails@ == pre.user_emails@
    }

    pub open spec fn same_user_auth_tokens(pre: Store, post: Store) -> bool {
        post.user_auth_tokens@ == pre.user_auth_tokens@
    }

    pub open spec fn same_game_types(pre: Store, post: Store) -> bool {
        post.game_types@ == pre.game_types@
    }

    pub open spec fn same_game_versions(pre: Store, post: Store) -> bool {
        post.game_versions@ == pre.game_versions@
    }

    pub open spec fn same_games(pre: Store, post: Store) -> bool {
        post.games@ == pre.games@
    }

    pub open spec fn same_game_players(pre: Store, post: Store) -> bool {
        post.game_players@ == pre.game_players@
    }

    pub open spec fn same_game_logs(pre: Store, post: Store) -> bool {
        post.game_logs@ == pre.game_logs@
    }

    pub open spec fn same_game_log_targets(pre: Store, post: Store) -> bool {
        post.game_log_targets@ == pre.game_log_targets@
    }

    /// No table changed.
    pub open spec fn unchanged(pre: Store, post: Store) -> bool {
        &&& post.next_id == pre.next_id
        &&& Self::same_users(pre, post)
        &&& Self::same_user_emails(pre, post)
        &&& Self::same_user_auth_tokens(pre, post)
        &&& Self::same_game_types(pre, post)
        &&& Self::same_game_versions(pre, post)
        &&& Self::same_games(pre, post)
        &&& Self::same_game_players(pre, post)
        &&& Self::same_game_logs(pre, post)
        &&& Self::same_game_log_targets(pre, post)
    }

    /// An empty store.
    pub fn new() -> (r: Store)
        ensures
            r.wf(),
            r.next_id == 0,
            r.users@.len() == 0,
            r.user_emails@.len() == 0,
            r.user_auth_tokens@.len() == 0,
            r.game_types@.len() == 0,
            r.game_versions@.len() == 0,
            r.games@.len() == 0,
            r.game_players@.len() == 0,
            r.game_log_targets@.len() == 0,
            r.game_logs@.len() == 0,
    {
        Store {
            next_id: 0,
            users: Vec::new(),
            user_emails: Vec::new(),
            user_auth_tokens: Vec::new(),
            game_types: Vec::new(),
            game_versions: Vec::new(),
            games: Vec::new(),
            game_players: Vec::new(),
            game_logs: Vec::new(),
            game_log_targets: Vec::new(),
        }
    }

    /// Membership test for a vector of identifiers.
    pub fn contains_id(v: &Vec<u64>, x: u64) -> (b: bool)
        ensures
            b == v@.contains(x),
    {
        let mut i: usize = 0;
        while i < v.len()
            invariant
                i <= v@.len(),
                forall|j: int| 0 <= j < i ==> v@[j] != x,
            decreases v@.len() - i,
        {
            if v[i] == x {
                return true;
            }
            i += 1;
        }
        false
    }

    /// Membership test for a vector of seat positions.
    pub fn contains_position(v: &Vec<usize>, x: usize) -> (b: bool)
        ensures
            b == v@.contains(x),
    {
        let mut i: usize = 0;
        while i < v.len()
            invariant
                i <= v@.len(),
                forall|j: int| 0 <= j < i ==> v@[j] != x,
            decreases v@.len() - i,
        {
            if v[i] == x {
                return true;
            }
            i += 1;
        }
        false
    }

    /// Issue a fresh identifier.
    fn fresh_id(&mut self) -> (r: u64)
        requires
            old(self).next_id < u64::MAX,
        ensures
            r == old(self).next_id,
            final(self).next_id == old(self).next_id + 1,
            Self::same_users(*old(self), *final(self)),
            Self::same_user_emails(*old(self), *final(self)),
            Self::same_user_auth_tokens(*old(self), *final(self)),
            Self::same_game_types(*old(self), *final(self)),
            Self::same_game_versions(*old(self), *final(self)),
            Self::same_games(*old(self), *final(self)),
            Self::same_game_players(*old(self), *final(self)),
            Self::same_game_logs(*old(self), *final(self)),
            Self::same_game_log_targets(*old(self), *final(self)),
    {
        let id = self.next_id;
        self.next_id = self.next_id + 1;
        id
    }
}

/// Total number of target seats over the first `i` entries of a batch of
/// engine log entries.
pub open spec fn total_targets_partial(logs: Seq<CliLog>, i: int) -> nat
    decreases i,
{
    if i <= 0 {
        0
    } else {
        total_targets_partial(logs, i - 1) + if 0 <= i - 1 < logs.len() {
            logs[i - 1].to@.len()
        } else {
            0
        }
    }
}

/// Total number of target seats over a batch of engine log entries.
pub open spec fn total_targets(logs: Seq<CliLog>) -> nat {
    total_targets_partial(logs, logs.len() as int)
}

pub proof fn lemma_total_targets_partial_step(logs: Seq<CliLog>, i: int)
    requires
        0 <= i < logs.len(),
    ensures
        total_targets_partial(logs, i + 1) == total_targets_partial(logs, i) + logs[i].to@.len(),
{
}

/// A partial total never exceeds the total.
pub proof fn lemma_total_targets_partial_le(logs: Seq<CliLog>, i: int)
    requires
        0 <= i <= logs.len(),
    ensures
        total_targets_partial(logs, i) <= total_targets(logs),
    decreases logs.len() - i,
{
    if i < logs.len() {
        lemma_total_targets_partial_step(logs, i);
        lemma_total_targets_partial_le(logs, i + 1);
    }
}

/// The index of the user row with identifier `id`, when one exists.
pub open spec fn user_row_index(s: Store, id: u64) -> int {
    choose|k: int| 0 <= k < s.users@.len() && (#[trigger] s.users@[k]).id == id
}

pub proof fn lemma_user_row_index(s: Store, id: u64)
    requires
        s.wf(),
        s.has_user(id),
    ensures
        0 <= user_row_index(s, id) < s.users@.len(),
        s.users@[user_row_index(s, id)].id == id,
        forall|k: int|
            0 <= k < s.users@.len() && (#[trigger] s.users@[k]).id == id ==> k == user_row_index(
                s,
                id,
            ),
{
    let w = choose|w: int| 0 <= w < s.users@.len() && (#[trigger] s.users@[w]).id == id;
    assert(s.users@[user_row_index(s, id)].id == id);
    assert forall|k: int|
        0 <= k < s.users@.len() && (#[trigger] s.users@[k]).id == id implies k == user_row_index(
        s,
        id,
    ) by {
        assert(s.users@[k].id == s.users@[user_row_index(s, id)].id);
    }
}

/// The display name of the user with identifier `uid`.
pub open spec fn user_name_of(s: Store, uid: u64) -> Seq<char> {
    s.users@[user_row_index(s, uid)].name@
}

/// The participant row of session `gid` at seat `pos` has identifier
/// `pid`.
pub open spec fn player_id_at(gp: Seq<GamePlayer>, gid: u64, pos: usize, pid: u64) -> bool {
    exists|w: int|
        0 <= w < gp.len() && (#[trigger] gp[w]).game_id == gid && gp[w].position == pos && gp[w].id
            == pid
}

/// Each target seat in `to` resolves to the identifier in `ids` of the
/// participant row occupying it.
pub open spec fn seats_resolved(
    gp: Seq<GamePlayer>,
    gid: u64,
    to: Seq<usize>,
    ids: Seq<u64>,
) -> bool {
    &&& ids.len() == to.len()
    &&& forall|t: int|
        0 <= t < to.len() ==> player_id_at(gp, gid, to[t], #[trigger] ids[t])
}

/// The target rows of `c` point at its own log entry and at the
/// participant rows occupying the seats in `to`.
pub open spec fn log_targets_ok(
    gp: Seq<GamePlayer>,
    gid: u64,
    to: Seq<usize>,
    c: CreatedGameLog,
) -> bool {
    &&& c.targets@.len() == to.len()
    &&& forall|t: int|
        0 <= t < to.len() ==> (#[trigger] c.targets@[t]).game_log_id == c.game_log.id
            && player_id_at(gp, gid, to[t], c.targets@[t].game_player_id)
}

/// The row `row` is stored in the table `tbl`.
pub open spec fn target_stored(tbl: Seq<GameLogTarget>, row: GameLogTarget) -> bool {
    exists|w: int| 0 <= w < tbl.len() && (#[trigger] tbl[w]) == row
}

/// Every target row of `c` is stored in the table `tbl`.
pub open spec fn log_targets_stored(tbl: Seq<GameLogTarget>, c: CreatedGameLog) -> bool {
    forall|t: int| 0 <= t < c.targets@.len() ==> target_stored(tbl, #[trigger] c.targets@[t])
}

/// Stored target rows stay stored when the table only grows at the end.
pub proof fn lemma_log_targets_stored_grow(
    tbl1: Seq<GameLogTarget>,
    tbl2: Seq<GameLogTarget>,
    c: CreatedGameLog,
)
    requires
        log_targets_stored(tbl1, c),
        tbl1.len() <= tbl2.len(),
        forall|t: int| 0 <= t < tbl1.len() ==> tbl2[t] == tbl1[t],
    ensures
        log_targets_stored(tbl2, c),
{
    assert forall|t: int| 0 <= t < c.targets@.len() implies target_stored(
        tbl2,
        #[trigger] c.targets@[t],
    ) by {
        assert(target_stored(tbl1, c.targets@[t]));
        let w = choose|w: int| 0 <= w < tbl1.len() && (#[trigger] tbl1[w]) == c.targets@[t];
        assert(tbl2[w] == c.targets@[t]);
    }
}

/// Everything a new session needs: the session row to create, the
/// engine-reported seat sets, and the roster.
pub struct CreateGameOpts {
    pub new_game: NewGame,
    pub whose_turn: Vec<usize>,
    pub eliminated: Vec<usize>,
    pub winners: Vec<usize>,
    pub creator_id: u64,
    pub opponent_ids: Vec<u64>,
    pub opponent_emails: Vec<String>,
}

/// A freshly created session: its row, the resolved opponents, and one
/// participant row per seat.
pub struct CreatedGame {
    pub game: Game,
    pub opponents: Vec<(UserEmail, User)>,
    pub players: Vec<GamePlayer>,
}

/// The session row and derived participant rows coming out of a status
/// update.
pub struct UpdatedGame {
    pub game: Option<Game>,
    pub whose_turn: Vec<GamePlayer>,
    pub eliminated: Vec<GamePlayer>,
    pub winners: Vec<GamePlayer>,
}

/// A session joined with its ruleset, game type, and participants.
pub struct GameExtended {
    pub game: Game,
    pub game_type: GameType,
    pub game_version: GameVersion,
    pub game_players: Vec<(GamePlayer, User)>,
}

/// The public form of a joined session: engine state, login data and
/// engine addresses stripped.
pub struct PublicGameExtended {
    pub game: PublicGame,
    pub game_type: PublicGameType,
    pub game_version: PublicGameVersion,
    pub game_players: Vec<PublicGamePlayerUser>,
}

impl GameExtended {
    /// The publicly visible part of a joined session.
    pub fn into_public(self) -> (r: PublicGameExtended)
        ensures
            r.game == (PublicGame {
                id: self.game.id,
                created_at: self.game.created_at,
                updated_at: self.game.updated_at,
                game_version_id: self.game.game_version_id,
                is_finished: self.game.is_finished,
            }),
            r.game_type == self.game_type,
            r.game_version == (PublicGameVersion {
                id: self.game_version.id,
                created_at: self.game_version.created_at,
                updated_at: self.game_version.updated_at,
                game_type_id: self.game_version.game_type_id,
                name: self.game_version.name,
                is_public: self.game_version.is_public,
                is_deprecated: self.game_version.is_deprecated,
            }),
            r.game_players@.len() == self.game_players@.len(),
            forall|k: int|
                0 <= k < self.game_players@.len() ==> (#[trigger] r.game_players@[k]).game_player
                    == self.game_players@[k].0 && r.game_players@[k].user == (PublicUser {
                    id: self.game_players@[k].1.id,
                    created_at: self.game_players@[k].1.created_at,
                    updated_at: self.game_players@[k].1.updated_at,
                    name: self.game_players@[k].1.name,
                }),
    {
        let GameExtended { game, game_type, game_version, game_players } = self;
        let mut pub_players: Vec<PublicGamePlayerUser> = Vec::new();
        let mut i: usize = 0;
        while i < game_players.len()
            invariant
                i <= game_players@.len(),
                pub_players@.len() == i,
                forall|k: int|
                    0 <= k < i ==> (#[trigger] pub_players@[k]).game_player == game_players@[k].0
                        && pub_players@[k].user == (PublicUser {
                        id: game_players@[k].1.id,
                        created_at: game_players@[k].1.created_at,
                        updated_at: game_players@[k].1.updated_at,
                        name: game_players@[k].1.name,
                    }),
            decreases game_players@.len() - i,
        {
            let gp = game_players[i].0.clone();
            let u = &game_players[i].1;
            pub_players.push(
                PublicGamePlayerUser {
                    game_player: gp,
                    user: PublicUser {
                        id: u.id,
                        created_at: u.created_at,
                        updated_at: u.updated_at,
                        name: u.name.clone(),
                    },
                },
            );
            i += 1;
        }
        PublicGameExtended {
            game: game.into_public(),
            game_type,
            game_version: game_version.into_public(),
            game_players: pub_players,
        }
    }
}

/// Selects the tokens of the listed users that are still valid at `now`.
pub open spec fn valid_tokens_pred(user_ids: Seq<u64>, now: i64) -> spec_fn(UserAuthToken) -> bool {
    |t: UserAuthToken| user_ids.contains(t.user_id) && token_valid(t.created_at, now)
}

/// The user row `post` is `pre` with a fresh login confirmation stored.
pub open spec fn confirmation_set(pre: User, post: User, code: u64, now: i64) -> bool {
    &&& post.id == pre.id
    &&& post.created_at == pre.created_at
    &&& post.updated_at == pre.updated_at
    &&& post.name == pre.name
    &&& post.pref_colors@ == pre.pref_colors@
    &&& post.login_confirmation == Some(code)
    &&& post.login_confirmation_at == Some(now)
}

/// Selects the rulesets that are open for play.
pub open spec fn open_versions_pred() -> spec_fn(GameVersion) -> bool {
    |v: GameVersion| v.is_public && !v.is_deprecated
}

/// Selects the log rows of session `gid` that are public.
pub open spec fn public_logs_pred(gid: u64) -> spec_fn(GameLog) -> bool {
    |l: GameLog| l.game_id == gid && l.is_public
}

/// A session row updated by `update` at time `now`.
pub open spec fn updated_game_row(g: Game, update: NewGame, now: i64) -> Game {
    Game {
        id: g.id,
        created_at: g.created_at,
        updated_at: now,
        game_version_id: update.game_version_id,
        is_finished: update.is_finished,
        game_state: update.game_state,
    }
}

/// Rows already present keep satisfying the existence predicates when the
/// identifier columns stay in place.
pub proof fn lemma_has_preserved_pointwise(s: Store, t: Store)
    requires
        t.users@.len() == s.users@.len(),
        forall|i: int| 0 <= i < s.users@.len() ==> (#[trigger] t.users@[i]).id == s.users@[i].id,
        t.games@.len() == s.games@.len(),
        forall|i: int| 0 <= i < s.games@.len() ==> (#[trigger] t.games@[i]).id == s.games@[i].id,
        t.game_versions@.len() == s.game_versions@.len(),
        forall|i: int|
            0 <= i < s.game_versions@.len() ==> (#[trigger] t.game_versions@[i]).id
                == s.game_versions@[i].id,
        t.game_types@.len() == s.game_types@.len(),
        forall|i: int|
            0 <= i < s.game_types@.len() ==> (#[trigger] t.game_types@[i]).id
                == s.game_types@[i].id,
        t.game_logs@.len() == s.game_logs@.len(),
        forall|i: int|
            0 <= i < s.game_logs@.len() ==> (#[trigger] t.game_logs@[i]).id == s.game_logs@[i].id,
        t.game_players@.len() == s.game_players@.len(),
        forall|i: int|
            0 <= i < s.game_players@.len() ==> (#[trigger] t.game_players@[i]).id
                == s.game_players@[i].id,
    ensures
        forall|x: u64| s.has_user(x) ==> t.has_user(x),
        forall|x: u64| s.has_game(x) ==> t.has_game(x),
        forall|x: u64| s.has_game_version(x) ==> t.has_game_version(x),
        forall|x: u64| s.has_game_type(x) ==> t.has_game_type(x),
        forall|x: u64| s.has_game_log(x) ==> t.has_game_log(x),
        forall|x: u64| s.has_game_player(x) ==> t.has_game_player(x),
{
    assert forall|x: u64| s.has_user(x) implies t.has_user(x) by {
        let w = choose|w: int| 0 <= w < s.users@.len() && s.users@[w].id == x;
        assert(t.users@[w].id == x);
    }
    assert forall|x: u64| s.has_game(x) implies t.has_game(x) by {
        let w = choose|w: int| 0 <= w < s.games@.len() && s.games@[w].id == x;
        assert(t.games@[w].id == x);
    }
    assert forall|x: u64| s.has_game_version(x) implies t.has_game_version(x) by {
        let w = choose|w: int| 0 <= w < s.game_versions@.len() && s.game_versions@[w].id == x;
        assert(t.game_versions@[w].id == x);
    }
    assert forall|x: u64| s.has_game_type(x) implies t.has_game_type(x) by {
        let w = choose|w: int| 0 <= w < s.game_types@.len() && s.game_types@[w].id == x;
        assert(t.game_types@[w].id == x);
    }
    assert forall|x: u64| s.has_game_log(x) implies t.has_game_log(x) by {
        let w = choose|w: int| 0 <= w < s.game_logs@.len() && s.game_logs@[w].id == x;
        assert(t.game_logs@[w].id == x);
    }
    assert forall|x: u64| s.has_game_player(x) implies t.has_game_player(x) by {
        let w = choose|w: int| 0 <= w < s.game_players@.len() && s.game_players@[w].id == x;
        assert(t.game_players@[w].id == x);
    }
}

/// A store whose tables keep their lengths and identifier columns stays
/// well formed, provided the seat columns and reference columns also stay.
pub proof fn lemma_wf_pointwise(s: Store, t: Store)
    requires
        s.wf(),
        t.next_id == s.next_id,
        t.users@.len() == s.users@.len(),
        forall|i: int| 0 <= i < s.users@.len() ==> (#[trigger] t.users@[i]).id == s.users@[i].id,
        t.user_emails@ == s.user_emails@,
        t.user_auth_tokens@ == s.user_auth_tokens@,
        t.game_types@ == s.game_types@,
        t.game_versions@.len() == s.game_versions@.len(),
        forall|i: int|
            0 <= i < s.game_versions@.len() ==> (#[trigger] t.game_versions@[i]).id
                == s.game_versions@[i].id && t.game_versions@[i].game_type_id
                == s.game_versions@[i].game_type_id,
        t.games@.len() == s.games@.len(),
        forall|i: int|
            0 <= i < s.games@.len() ==> (#[trigger] t.games@[i]).id == s.games@[i].id
                && t.games@[i].game_version_id == s.games@[i].game_version_id,
        t.game_players@.len() == s.game_players@.len(),
        forall|i: int|
            0 <= i < s.game_players@.len() ==> (#[trigger] t.game_players@[i]).id
                == s.game_players@[i].id && t.game_players@[i].game_id
                == s.game_players@[i].game_id && t.game_players@[i].position
                == s.game_players@[i].position && t.game_players@[i].user_id
                == s.game_players@[i].user_id,
        t.game_logs@.len() == s.game_logs@.len(),
        forall|i: int|
            0 <= i < s.game_logs@.len() ==> (#[trigger] t.game_logs@[i]).id == s.game_logs@[i].id
                && t.game_logs@[i].game_id == s.game_logs@[i].game_id,
        t.game_log_targets@ == s.game_log_targets@,
    ensures
        t.wf(),
{
    lemma_has_preserved_pointwise(s, t);
    lemma_has_preserved_pointwise(t, s);
    lemma_seats_ok_congruent(s.game_players@, t.game_players@);
    assert forall|i: int, j: int| 0 <= i < j < t.users@.len() implies t.users@[i].id
        != t.users@[j].id by {
        assert(s.users@[i].id != s.users@[j].id);
    }
    assert forall|i: int, j: int| 0 <= i < j < t.games@.len() implies t.games@[i].id
        != t.games@[j].id by {
        assert(s.games@[i].id != s.games@[j].id);
    }
    assert forall|i: int, j: int|
        0 <= i < j < t.game_versions@.len() implies t.game_versions@[i].id
        != t.game_versions@[j].id by {
        assert(s.game_versions@[i].id != s.game_versions@[j].id);
    }
    assert forall|i: int, j: int| 0 <= i < j < t.game_players@.len() implies t.game_players@[i].id
        != t.game_players@[j].id by {
        assert(s.game_players@[i].id != s.game_players@[j].id);
    }
    assert forall|i: int, j: int| 0 <= i < j < t.game_logs@.len() implies t.game_logs@[i].id
        != t.game_logs@[j].id by {
        assert(s.game_logs@[i].id != s.game_logs@[j].id);
    }
}

/// Rows already present keep satisfying the existence predicates when a
/// store only grows.
pub proof fn lemma_has_preserved(s: Store, t: Store)
    requires
        s.users@.len() <= t.users@.len(),
        forall|i: int| 0 <= i < s.users@.len() ==> t.users@[i] == s.users@[i],
        s.games@.len() <= t.games@.len(),
        forall|i: int| 0 <= i < s.games@.len() ==> t.games@[i] == s.games@[i],
        s.game_versions@.len() <= t.game_versions@.len(),
        forall|i: int| 0 <= i < s.game_versions@.len() ==> t.game_versions@[i] == s.game_versions@[i],
        s.game_types@.len() <= t.game_types@.len(),
        forall|i: int| 0 <= i < s.game_types@.len() ==> t.game_types@[i] == s.game_types@[i],
        s.game_logs@.len() <= t.game_logs@.len(),
        forall|i: int| 0 <= i < s.game_logs@.len() ==> t.game_logs@[i] == s.game_logs@[i],
        s.game_players@.len() <= t.game_players@.len(),
        forall|i: int| 0 <= i < s.game_players@.len() ==> t.game_players@[i] == s.game_players@[i],
    ensures
        forall|x: u64| s.has_user(x) ==> t.has_user(x),
        forall|x: u64| s.has_game(x) ==> t.has_game(x),
        forall|x: u64| s.has_game_version(x) ==> t.has_game_version(x),
        forall|x: u64| s.has_game_type(x) ==> t.has_game_type(x),
        forall|x: u64| s.has_game_log(x) ==> t.has_game_log(x),
        forall|x: u64| s.has_game_player(x) ==> t.has_game_player(x),
{
    assert forall|x: u64| s.has_user(x) implies t.has_user(x) by {
        let w = choose|w: int| 0 <= w < s.users@.len() && s.users@[w].id == x;
        assert(t.users@[w].id == x);
    }
    assert forall|x: u64| s.has_game(x) implies t.has_game(x) by {
        let w = choose|w: int| 0 <= w < s.games@.len() && s.games@[w].id == x;
        assert(t.games@[w].id == x);
    }
    assert forall|x: u64| s.has_game_version(x) implies t.has_game_version(x) by {
        let w = choose|w: int| 0 <= w < s.game_versions@.len() && s.game_versions@[w].id == x;
        assert(t.game_versions@[w].id == x);
    }
    assert forall|x: u64| s.has_game_type(x) implies t.has_game_type(x) by {
        let w = choose|w: int| 0 <= w < s.game_types@.len() && s.game_types@[w].id == x;
        assert(t.game_types@[w].id == x);
    }
    assert forall|x: u64| s.has_game_log(x) implies t.has_game_log(x) by {
        let w = choose|w: int| 0 <= w < s.game_logs@.len() && s.game_logs@[w].id == x;
        assert(t.game_logs@[w].id == x);
    }
    assert forall|x: u64| s.has_game_player(x) implies t.has_game_player(x) by {
        let w = choose|w: int| 0 <= w < s.game_players@.len() && s.game_players@[w].id == x;
        assert(t.game_players@[w].id == x);
    }
}

/// Relies on rand::Rng::gen_range over `0..n`: the result is below `n`;
/// the range is non-empty, so the call does not panic.
#[verifier::external_body]
fn rand_below(n: u64) -> (r: u64)
    requires
        n > 0,
    ensures
        r < n,
{
    rand::Rng::gen_range(&mut rand::thread_rng(), 0..n)
}

/// Relies on rand::seq::SliceRandom::shuffle: the slice is permuted in
/// place, so it holds the same rows afterwards.
#[verifier::external_body]
fn shuffle_users(users: &mut Vec<User>)
    ensures
        final(users)@.to_multiset() == old(users)@.to_multiset(),
{
    rand::seq::SliceRandom::shuffle(users.as_mut_slice(), &mut rand::thread_rng())
}

/// A six-digit login confirmation code: a leading digit 1-9, then five more
/// digits.
pub fn rand_code() -> (r: u64)
    ensures
        100000 <= r <= 999999,
{
    let lead = rand_below(9);
    let rest = rand_below(100000);
    (lead + 1) * 100000 + rest
}

/// A login confirmation issued at `at` is still current at `now`.
pub open spec fn confirmation_current(at: i64, now: i64) -> bool {
    at + CONFIRMATION_EXPIRY_SECS > now
}

/// An authentication token created at `created_at` is still valid at `now`.
pub open spec fn token_valid(created_at: i64, now: i64) -> bool {
    created_at + TOKEN_EXPIRY_SECS > now
}

/// Exec counterpart of `confirmation_current`, free of overflow.
pub fn confirmation_current_at(at: i64, now: i64) -> (b: bool)
    ensures
        b == confirmation_current(at, now),
{
    (at as i128) + (CONFIRMATION_EXPIRY_SECS as i128) > (now as i128)
}

/// Exec counterpart of `token_valid`, free of overflow.
pub fn token_valid_at(created_at: i64, now: i64) -> (b: bool)
    ensures
        b == token_valid(created_at, now),
{
    (created_at as i128) + (TOKEN_EXPIRY_SECS as i128) > (now as i128)
}

impl Store {
    fn user_index(&self, id: u64) -> (r: Option<usize>)
        ensures
            match r {
                Some(k) => k < self.users@.len() && self.users@[k as int].id == id,
                None => !self.has_user(id),
            },
    {
        let mut i: usize = 0;
        while i < self.users.len()
            invariant
                i <= self.users@.len(),
                forall|j: int| 0 <= j < i ==> (#[trigger] self.users@[j]).id != id,
            decreases self.users@.len() - i,
        {
            if self.users[i].id == id {
                return Some(i);
            }
            i += 1;
        }
        None
    }

    /// Find a user row by identifier.
    pub fn find_user(&self, find_id: u64) -> (r: Option<User>)
        ensures
            r is Some <==> self.has_user(find_id),
            r is Some ==> exists|k: int|
                0 <= k < self.users@.len() && (#[trigger] self.users@[k]).id == find_id
                    && user_equal(r->0, self.users@[k]),
    {
        match self.user_index(find_id) {
            Some(k) => Some(self.users[k].clone()),
            None => None,
        }
    }

    /// There is an email row whose address is `e`.
    pub open spec fn has_user_email(self, e: Seq<char>) -> bool {
        exists|i: int|
            0 <= i < self.user_emails@.len() && (#[trigger] self.user_emails@[i]).email@ == e
    }

    /// Some email row carries the address `e` and belongs to user `uid`:
    /// the address resolves to that user.
    pub open spec fn email_resolves_to(self, e: Seq<char>, uid: u64) -> bool {
        exists|i: int|
            0 <= i < self.user_emails@.len() && (#[trigger] self.user_emails@[i]).email@ == e
                && self.user_emails@[i].user_id == uid
    }

    /// Create a user with the given display name and no color preferences.
    pub fn create_user_by_name(&mut self, name: &str, now: i64) -> (r: Result<User, Error>)
        requires
            old(self).wf(),
            old(self).next_id < u64::MAX,
        ensures
            final(self).wf(),
            r is Ok,
            final(self).next_id == old(self).next_id + 1,
            final(self).users@.len() == old(self).users@.len() + 1,
            forall|i: int|
                0 <= i < old(self).users@.len() ==> final(self).users@[i] == old(self).users@[i],
            ({
                let u = r->Ok_0;
                &&& u.id == old(self).next_id
                &&& u.created_at == now
                &&& u.updated_at == now
                &&& u.name@ == name@
                &&& u.pref_colors@.len() == 0
                &&& u.login_confirmation is None
                &&& u.login_confirmation_at is None
                &&& user_equal(final(self).users@.last(), u)
            }),
            Self::same_user_emails(*old(self), *final(self)),
            Self::same_user_auth_tokens(*old(self), *final(self)),
            Self::same_game_types(*old(self), *final(self)),
            Self::same_game_versions(*old(self), *final(self)),
            Self::same_games(*old(self), *final(self)),
            Self::same_game_players(*old(self), *final(self)),
            Self::same_game_logs(*old(self), *final(self)),
            Self::same_game_log_targets(*old(self), *final(self)),
    {
        let id = self.fresh_id();
        let row = User {
            id,
            created_at: now,
            updated_at: now,
            name: name.to_owned(),
            pref_colors: Vec::new(),
            login_confirmation: None,
            login_confirmation_at: None,
        };
        let out = row.clone();
        self.users.push(row);
        proof {
            let s = *old(self);
            lemma_has_preserved(s, *self);
            assert forall|i: int, j: int| 0 <= i < j < self.users@.len() implies self.users@[i].id
                != self.users@[j].id by {
                if j == self.users@.len() - 1 {
                    assert(self.users@[i] == s.users@[i]);
                }
            }
            assert forall|i: int| 0 <= i < self.users@.len() implies (#[trigger] self.users@[i]).id
                < self.next_id by {
                if i < s.users@.len() {
                    assert(self.users@[i] == s.users@[i]);
                }
            }
        }
        Ok(out)
    }

    fn email_index(&self, by_email: &String) -> (r: Option<usize>)
        ensures
            match r {
                Some(k) => k < self.user_emails@.len() && self.user_emails@[k as int].email@
                    == by_email@,
                None => !self.has_user_email(by_email@),
            },
    {
        let mut i: usize = 0;
        while i < self.user_emails.len()
            invariant
                i <= self.user_emails@.len(),
                forall|j: int| 0 <= j < i ==> (#[trigger] self.user_emails@[j]).email@ != by_email@,
            decreases self.user_emails@.len() - i,
        {
            if self.user_emails[i].email == *by_email {
                return Some(i);
            }
            i += 1;
        }
        None
    }

    /// Record an email address for a user. Fails when the user does not
    /// exist or the address is already recorded.
    pub fn create_user_email(&mut self, ue: &NewUserEmail, now: i64) -> (r: Result<
        UserEmail,
        Error,
    >)
        requires
            old(self).wf(),
            old(self).next_id < u64::MAX,
        ensures
            final(self).wf(),
            r is Ok <==> old(self).has_user(ue.user_id) && !old(self).has_user_email(ue.email@),
            r is Err ==> Self::unchanged(*old(self), *final(self)) && r->Err_0 is SystemError,
            r is Ok ==> final(self).next_id == old(self).next_id + 1 && final(self).user_emails@
                == old(self).user_emails@.push(
                (UserEmail {
                    id: old(self).next_id,
                    created_at: now,
                    updated_at: now,
                    user_id: ue.user_id,
                    email: ue.email,
                    is_primary: ue.is_primary,
                }),
            ) && r->Ok_0 == (UserEmail {
                id: old(self).next_id,
                created_at: now,
                updated_at: now,
                user_id: ue.user_id,
                email: ue.email,
                is_primary: ue.is_primary,
            }),
            Self::same_users(*old(self), *final(self)),
            Self::same_user_auth_tokens(*old(self), *final(self)),
            Self::same_game_types(*old(self), *final(self)),
            Self::same_game_versions(*old(self), *final(self)),
            Self::same_games(*old(self), *final(self)),
            Self::same_game_players(*old(self), *final(self)),
            Self::same_game_logs(*old(self), *final(self)),
            Self::same_game_log_targets(*old(self), *final(self)),
    {
        if self.user_index(ue.user_id).is_none() || self.email_index(&ue.email).is_some() {
            return Err(Error::SystemError(String::from_str("error creating user email")));
        }
        let id = self.fresh_id();
        let row = UserEmail {
            id,
            created_at: now,
            updated_at: now,
            user_id: ue.user_id,
            email: ue.email.clone(),
            is_primary: ue.is_primary,
        };
        let out = row.clone();
        self.user_emails.push(row);
        proof {
            let s = *old(self);
            lemma_has_preserved(s, *self);
            assert forall|i: int, j: int|
                0 <= i < j < self.user_emails@.len() implies self.user_emails@[i].id
                != self.user_emails@[j].id by {
                if j == self.user_emails@.len() - 1 {
                    assert(self.user_emails@[i] == s.user_emails@[i]);
                }
            }
            assert forall|i: int|
                0 <= i < self.user_emails@.len() implies (#[trigger] self.user_emails@[i]).id
                < self.next_id by {
                if i < s.user_emails@.len() {
                    assert(self.user_emails@[i] == s.user_emails@[i]);
                }
            }
            assert forall|i: int, j: int|
                0 <= i < j < self.user_emails@.len() implies self.user_emails@[i].email@
                != self.user_emails@[j].email@ by {
                if j == self.user_emails@.len() - 1 {
                    assert(self.user_emails@[i] == s.user_emails@[i]);
                    if self.user_emails@[i].email@ == ue.email@ {
                        assert(s.has_user_email(ue.email@));
                    }
                }
            }
            assert forall|i: int| 0 <= i < self.user_emails@.len() implies self.has_user(
                (#[trigger] self.user_emails@[i]).user_id,
            ) by {
                if i < s.user_emails@.len() {
                    assert(s.has_user(s.user_emails@[i].user_id));
                }
            }
        }
        Ok(out)
    }

    /// Issue a fresh authentication token for a user. Fails when the user
    /// does not exist.
    pub fn create_auth_token(&mut self, for_user_id: u64, now: i64) -> (r: Result<
        UserAuthToken,
        Error,
    >)
        requires
            old(self).wf(),
            old(self).next_id < u64::MAX,
        ensures
            final(self).wf(),
            r is Ok <==> old(self).has_user(for_user_id),
            r is Err ==> Self::unchanged(*old(self), *final(self)) && r->Err_0 is SystemError,
            r is Ok ==> final(self).next_id == old(self).next_id + 1
                && final(self).user_auth_tokens@ == old(self).user_auth_tokens@.push(
                (UserAuthToken {
                    id: old(self).next_id,
                    created_at: now,
                    updated_at: now,
                    user_id: for_user_id,
                }),
            ) && r->Ok_0 == (UserAuthToken {
                id: old(self).next_id,
                created_at: now,
                updated_at: now,
                user_id: for_user_id,
            }),
            Self::same_users(*old(self), *final(self)),
            Self::same_user_emails(*old(self), *final(self)),
            Self::same_game_types(*old(self), *final(self)),
            Self::same_game_versions(*old(self), *final(self)),
            Self::same_games(*old(self), *final(self)),
            Self::same_game_players(*old(self), *final(self)),
            Self::same_game_logs(*old(self), *final(self)),
            Self::same_game_log_targets(*old(self), *final(self)),
    {
        if self.user_index(for_user_id).is_none() {
            return Err(Error::SystemError(String::from_str("error creating auth token")));
        }
        let id = self.fresh_id();
        let row = UserAuthToken { id, created_at: now, updated_at: now, user_id: for_user_id };
        let out = row.clone();
        self.user_auth_tokens.push(row);
        proof {
            let s = *old(self);
            lemma_has_preserved(s, *self);
            assert forall|i: int, j: int|
                0 <= i < j < self.user_auth_tokens@.len() implies self.user_auth_tokens@[i].id
                != self.user_auth_tokens@[j].id by {
                if j == self.user_auth_tokens@.len() - 1 {
                    assert(self.user_auth_tokens@[i] == s.user_auth_tokens@[i]);
                }
            }
            assert forall|i: int|
                0 <= i < self.user_auth_tokens@.len() implies (#[trigger] self.user_auth_tokens@[i]).id
                < self.next_id by {
                if i < s.user_auth_tokens@.len() {
                    assert(self.user_auth_tokens@[i] == s.user_auth_tokens@[i]);
                }
            }
            assert forall|i: int| 0 <= i < self.user_auth_tokens@.len() implies self.has_user(
                (#[trigger] self.user_auth_tokens@[i]).user_id,
            ) by {
                if i < s.user_auth_tokens@.len() {
                    assert(s.has_user(s.user_auth_tokens@[i].user_id));
                }
            }
        }
        Ok(out)
    }

    /// Find an email row by address, joined with its user.
    pub fn find_user_by_email(&self, by_email: &String) -> (r: Option<(UserEmail, User)>)
        requires
            self.wf(),
        ensures
            r is Some <==> self.has_user_email(by_email@),
            r is Some ==> ({
                let ue = (r->0).0;
                let u = (r->0).1;
                &&& ue.email@ == by_email@
                &&& u.id == ue.user_id
                &&& exists|i: int|
                    0 <= i < self.user_emails@.len() && (#[trigger] self.user_emails@[i]) == ue
                &&& exists|k: int|
                    0 <= k < self.users@.len() && (#[trigger] self.users@[k]).id == ue.user_id
                        && user_equal(u, self.users@[k])
            }),
    {
        match self.email_index(by_email) {
            Some(k) => {
                let ue = self.user_emails[k].clone();
                match self.user_index(ue.user_id) {
                    Some(uk) => Some((ue, self.users[uk].clone())),
                    None => {
                        proof {
                            assert(self.has_user(self.user_emails@[k as int].user_id));
                        }
                        vstd::pervasive::unreached()
                    },
                }
            },
            None => None,
        }
    }

    /// Create a user from an email address: the address doubles as the
    /// display name, and becomes the user's primary email.
    pub fn create_user_by_email(&mut self, email: &String, now: i64) -> (r: Result<
        (UserEmail, User),
        Error,
    >)
        requires
            old(self).wf(),
            old(self).next_id < u64::MAX - 1,
        ensures
            final(self).wf(),
            r is Ok <==> !old(self).has_user_email(email@),
            r is Err ==> Self::unchanged(*old(self), *final(self)) && r->Err_0 is SystemError,
            r is Ok ==> ({
                let ue = (r->Ok_0).0;
                let u = (r->Ok_0).1;
                &&& final(self).next_id == old(self).next_id + 2
                &&& u.name@ == email@
                &&& u.id == ue.user_id
                &&& ue.email == *email
                &&& ue.is_primary
                &&& u.login_confirmation is None
                &&& u.login_confirmation_at is None
                &&& final(self).users@.len() == old(self).users@.len() + 1
                &&& final(self).user_emails@ == old(self).user_emails@.push(ue)
                &&& forall|i: int|
                    0 <= i < old(self).users@.len() ==> final(self).users@[i] == old(self).users@[i]
                &&& user_equal(final(self).users@.last(), u)
                &&& final(self).has_user_email(email@)
            }),
            Self::same_user_auth_tokens(*old(self), *final(self)),
            Self::same_game_types(*old(self), *final(self)),
            Self::same_game_versions(*old(self), *final(self)),
            Self::same_games(*old(self), *final(self)),
            Self::same_game_players(*old(self), *final(self)),
            Self::same_game_logs(*old(self), *final(self)),
            Self::same_game_log_targets(*old(self), *final(self)),
    {
        if self.email_index(email).is_some() {
            return Err(Error::SystemError(String::from_str("error creating user")));
        }
        let u = match self.create_user_by_name(email.as_str(), now) {
            Ok(u) => u,
            Err(_) => {
                return Err(Error::SystemError(String::from_str("error creating user")));
            },
        };
        proof {
            assert(self.users@.last().id == u.id);
            assert(self.has_user(u.id));
        }
        let ue = NewUserEmail { user_id: u.id, email: email.clone(), is_primary: true };
        match self.create_user_email(&ue, now) {
            Ok(created) => {
                proof {
                    assert(final(self).user_emails@.last() == created);
                    assert(final(self).has_user_email(email@));
                }
                Ok((created, u))
            },
            Err(_) => vstd::pervasive::unreached(),
        }
    }

    /// Find the user owning an email address, or create one.
    pub fn find_or_create_user_by_email(&mut self, email: &String, now: i64) -> (r: Result<
        (UserEmail, User),
        Error,
    >)
        requires
            old(self).wf(),
            old(self).next_id < u64::MAX - 1,
        ensures
            final(self).wf(),
            r is Ok,
            old(self).has_user_email(email@) ==> Self::unchanged(*old(self), *final(self)),
            !old(self).has_user_email(email@) ==> (r->Ok_0).1.login_confirmation is None,
            old(self).next_id <= final(self).next_id,
            final(self).next_id as int <= old(self).next_id as int + 2,
            ({
                let ue = (r->Ok_0).0;
                let u = (r->Ok_0).1;
                &&& ue.email@ == email@
                &&& u.id == ue.user_id
                &&& exists|i: int|
                    0 <= i < final(self).user_emails@.len() && (#[trigger] final(self).user_emails@[i])
                        == ue
                &&& exists|k: int|
                    0 <= k < final(self).users@.len() && (#[trigger] final(self).users@[k]).id
                        == ue.user_id && user_equal(u, final(self).users@[k])
                &&& final(self).has_user_email(email@)
            }),
            Self::same_user_auth_tokens(*old(self), *final(self)),
            Self::same_game_types(*old(self), *final(self)),
            Self::same_game_versions(*old(self), *final(self)),
            Self::same_games(*old(self), *final(self)),
            Self::same_game_players(*old(self), *final(self)),
            Self::same_game_logs(*old(self), *final(self)),
            Self::same_game_log_targets(*old(self), *final(self)),
    {
        if let Some(v) = self.find_user_by_email(email) {
            return Ok(v);
        }
        let r = self.create_user_by_email(email, now);
        match r {
            Ok(v) => {
                proof {
                    assert(self.users@.last() == self.users@[self.users@.len() - 1]);
                    assert(self.user_emails@.last() == self.user_emails@[self.user_emails@.len() - 1]);
                }
                Ok(v)
            },
            Err(_) => vstd::pervasive::unreached(),
        }
    }

    /// Register a game type.
    pub fn create_game_type(&mut self, new_game_type: &NewGameType, now: i64) -> (r: Result<
        GameType,
        Error,
    >)
        requires
            old(self).wf(),
            old(self).next_id < u64::MAX,
        ensures
            final(self).wf(),
            r is Ok,
            final(self).next_id == old(self).next_id + 1,
            final(self).game_types@ == old(self).game_types@.push(
                (GameType {
                    id: old(self).next_id,
                    created_at: now,
                    updated_at: now,
                    name: new_game_type.name,
                }),
            ),
            r->Ok_0 == (GameType {
                id: old(self).next_id,
                created_at: now,
                updated_at: now,
                name: new_game_type.name,
            }),
            Self::same_users(*old(self), *final(self)),
            Self::same_user_emails(*old(self), *final(self)),
            Self::same_user_auth_tokens(*old(self), *final(self)),
            Self::same_game_versions(*old(self), *final(self)),
            Self::same_games(*old(self), *final(self)),
            Self::same_game_players(*old(self), *final(self)),
            Self::same_game_logs(*old(self), *final(self)),
            Self::same_game_log_targets(*old(self), *final(self)),
    {
        let id = self.fresh_id();
        let row = GameType { id, created_at: now, updated_at: now, name: new_game_type.name.clone() };
        let out = row.clone();
        self.game_types.push(row);
        proof {
            let s = *old(self);
            lemma_has_preserved(s, *self);
            assert forall|i: int, j: int|
                0 <= i < j < self.game_types@.len() implies self.game_types@[i].id
                != self.game_types@[j].id by {
                if j == self.game_types@.len() - 1 {
                    assert(self.game_types@[i] == s.game_types@[i]);
                }
            }
            assert forall|i: int|
                0 <= i < self.game_types@.len() implies (#[trigger] self.game_types@[i]).id
                < self.next_id by {
                if i < s.game_types@.len() {
                    assert(self.game_types@[i] == s.game_types@[i]);
                }
            }
        }
        Ok(out)
    }

    /// Register a versioned ruleset, with the network address of the engine
    /// implementing it. Fails when the game type does not exist.
    pub fn create_game_version(&mut self, new_game_version: &NewGameVersion, now: i64) -> (r:
        Result<GameVersion, Error>)
        requires
            old(self).wf(),
            old(self).next_id < u64::MAX,
        ensures
            final(self).wf(),
            r is Ok <==> old(self).has_game_type(new_game_version.game_type_id),
            r is Err ==> Self::unchanged(*old(self), *final(self)) && r->Err_0 is SystemError,
            r is Ok ==> final(self).next_id == old(self).next_id + 1 && final(self).game_versions@
                == old(self).game_versions@.push(
                (GameVersion {
                    id: old(self).next_id,
                    created_at: now,
                    updated_at: now,
                    game_type_id: new_game_version.game_type_id,
                    name: new_game_version.name,
                    uri: new_game_version.uri,
                    is_public: new_game_version.is_public,
                    is_deprecated: new_game_version.is_deprecated,
                }),
            ) && r->Ok_0 == final(self).game_versions@.last(),
            Self::same_users(*old(self), *final(self)),
            Self::same_user_emails(*old(self), *final(self)),
            Self::same_user_auth_tokens(*old(self), *final(self)),
            Self::same_game_types(*old(self), *final(self)),
            Self::same_games(*old(self), *final(self)),
            Self::same_game_players(*old(self), *final(self)),
            Self::same_game_logs(*old(self), *final(self)),
            Self::same_game_log_targets(*old(self), *final(self)),
    {
        if self.game_type_index(new_game_version.game_type_id).is_none() {
            return Err(Error::SystemError(String::from_str("error inserting game version")));
        }
        let id = self.fresh_id();
        let row = GameVersion {
            id,
            created_at: now,
            updated_at: now,
            game_type_id: new_game_version.game_type_id,
            name: new_game_version.name.clone(),
            uri: new_game_version.uri.clone(),
            is_public: new_game_version.is_public,
            is_deprecated: new_game_version.is_deprecated,
        };
        let out = row.clone();
        self.game_versions.push(row);
        proof {
            let s = *old(self);
            lemma_has_preserved(s, *self);
            assert forall|i: int, j: int|
                0 <= i < j < self.game_versions@.len() implies self.game_versions@[i].id
                != self.game_versions@[j].id by {
                if j == self.game_versions@.len() - 1 {
                    assert(self.game_versions@[i] == s.game_versions@[i]);
                }
            }
            assert forall|i: int|
                0 <= i < self.game_versions@.len() implies (#[trigger] self.game_versions@[i]).id
                < self.next_id by {
                if i < s.game_versions@.len() {
                    assert(self.game_versions@[i] == s.game_versions@[i]);
                }
            }
            assert forall|i: int| 0 <= i < self.game_versions@.len() implies self.has_game_type(
                (#[trigger] self.game_versions@[i]).game_type_id,
            ) by {
                if i < s.game_versions@.len() {
                    assert(s.has_game_type(s.game_versions@[i].game_type_id));
                }
            }
        }
        Ok(out)
    }

    /// Create a session row. Fails when the ruleset does not exist.
    pub fn create_game(&mut self, new_game: &NewGame, now: i64) -> (r: Result<Game, Error>)
        requires
            old(self).wf(),
            old(self).next_id < u64::MAX,
        ensures
            final(self).wf(),
            r is Ok <==> old(self).has_game_version(new_game.game_version_id),
            r is Err ==> Self::unchanged(*old(self), *final(self)) && r->Err_0 is SystemError,
            r is Ok ==> final(self).next_id == old(self).next_id + 1 && final(self).games@ == old(
                self,
            ).games@.push(
                (Game {
                    id: old(self).next_id,
                    created_at: now,
                    updated_at: now,
                    game_version_id: new_game.game_version_id,
                    is_finished: new_game.is_finished,
                    game_state: new_game.game_state,
                }),
            ) && r->Ok_0 == final(self).games@.last(),
            Self::same_users(*old(self), *final(self)),
            Self::same_user_emails(*old(self), *final(self)),
            Self::same_user_auth_tokens(*old(self), *final(self)),
            Self::same_game_types(*old(self), *final(self)),
            Self::same_game_versions(*old(self), *final(self)),
            Self::same_game_players(*old(self), *final(self)),
            Self::same_game_logs(*old(self), *final(self)),
            Self::same_game_log_targets(*old(self), *final(self)),
    {
        if self.game_version_index(new_game.game_version_id).is_none() {
            return Err(Error::SystemError(String::from_str("error inserting game")));
        }
        let id = self.fresh_id();
        let row = Game {
            id,
            created_at: now,
            updated_at: now,
            game_version_id: new_game.game_version_id,
            is_finished: new_game.is_finished,
            game_state: new_game.game_state.clone(),
        };
        let out = row.clone();
        self.games.push(row);
        proof {
            let s = *old(self);
            lemma_has_preserved(s, *self);
            assert forall|i: int, j: int| 0 <= i < j < self.games@.len() implies self.games@[i].id
                != self.games@[j].id by {
                if j == self.games@.len() - 1 {
                    assert(self.games@[i] == s.games@[i]);
                }
            }
            assert forall|i: int| 0 <= i < self.games@.len() implies (#[trigger] self.games@[i]).id
                < self.next_id by {
                if i < s.games@.len() {
                    assert(self.games@[i] == s.games@[i]);
                }
            }
            assert forall|i: int| 0 <= i < self.games@.len() implies self.has_game_version(
                (#[trigger] self.games@[i]).game_version_id,
            ) by {
                if i < s.games@.len() {
                    assert(s.has_game_version(s.games@[i].game_version_id));
                }
            }
        }
        Ok(out)
    }

    /// Seat a participant. The new row must take the next free seat of its
    /// session; fails when the session or the user does not exist.
    pub fn create_game_player(&mut self, player: &NewGamePlayer, now: i64) -> (r: Result<
        GamePlayer,
        Error,
    >)
        requires
            old(self).wf(),
            old(self).next_id < u64::MAX,
            player.position == count_players(old(self).game_players@, player.game_id),
        ensures
            final(self).wf(),
            r is Ok <==> old(self).has_game(player.game_id) && old(self).has_user(player.user_id),
            r is Err ==> Self::unchanged(*old(self), *final(self)) && r->Err_0 is SystemError,
            r is Ok ==> final(self).next_id == old(self).next_id + 1 && final(self).game_players@
                == old(self).game_players@.push(
                (GamePlayer {
                    id: old(self).next_id,
                    created_at: now,
                    updated_at: now,
                    game_id: player.game_id,
                    user_id: player.user_id,
                    position: player.position,
                    color: player.color,
                    has_accepted: player.has_accepted,
                    is_turn: player.is_turn,
                    is_eliminated: player.is_eliminated,
                    is_winner: player.is_winner,
                    is_read: player.is_read,
                    undo_game_state: None,
                }),
            ) && r->Ok_0 == final(self).game_players@.last(),
            Self::same_users(*old(self), *final(self)),
            Self::same_user_emails(*old(self), *final(self)),
            Self::same_user_auth_tokens(*old(self), *final(self)),
            Self::same_game_types(*old(self), *final(self)),
            Self::same_game_versions(*old(self), *final(self)),
            Self::same_games(*old(self), *final(self)),
            Self::same_game_logs(*old(self), *final(self)),
            Self::same_game_log_targets(*old(self), *final(self)),
    {
        if self.game_index(player.game_id).is_none() || self.user_index(player.user_id).is_none() {
            return Err(Error::SystemError(String::from_str("error inserting game player")));
        }
        let id = self.fresh_id();
        let row = GamePlayer {
            id,
            created_at: now,
            updated_at: now,
            game_id: player.game_id,
            user_id: player.user_id,
            position: player.position,
            color: player.color,
            has_accepted: player.has_accepted,
            is_turn: player.is_turn,
            is_eliminated: player.is_eliminated,
            is_winner: player.is_winner,
            is_read: player.is_read,
            undo_game_state: None,
        };
        let out = row.clone();
        self.game_players.push(row);
        proof {
            let s = *old(self);
            lemma_has_preserved(s, *self);
            assert forall|i: int, j: int|
                0 <= i < j < self.game_players@.len() implies self.game_players@[i].id
                != self.game_players@[j].id by {
                if j == self.game_players@.len() - 1 {
                    assert(self.game_players@[i] == s.game_players@[i]);
                }
            }
            assert forall|i: int|
                0 <= i < self.game_players@.len() implies (#[trigger] self.game_players@[i]).id
                < self.next_id by {
                if i < s.game_players@.len() {
                    assert(self.game_players@[i] == s.game_players@[i]);
                }
            }
            assert forall|i: int| 0 <= i < self.game_players@.len() implies self.has_game(
                (#[trigger] self.game_players@[i]).game_id,
            ) && self.has_user(self.game_players@[i].user_id) by {
                if i < s.game_players@.len() {
                    assert(s.has_game(s.game_players@[i].game_id));
                    assert(s.has_user(s.game_players@[i].user_id));
                }
            }
            assert forall|i: int|
                0 <= i < self.game_players@.len() implies (#[trigger] self.game_players@[i]).position
                == count_players(self.game_players@.take(i), self.game_players@[i].game_id) by {
                if i < s.game_players@.len() {
                    assert(self.game_players@.take(i) =~= s.game_players@.take(i));
                    assert(s.game_players@[i].position == count_players(
                        s.game_players@.take(i),
                        s.game_players@[i].game_id,
                    ));
                } else {
                    assert(self.game_players@.take(i) =~= s.game_players@);
                }
            }
        }
        Ok(out)
    }

    fn game_index(&self, id: u64) -> (r: Option<usize>)
        ensures
            match r {
                Some(k) => k < self.games@.len() && self.games@[k as int].id == id,
                None => !self.has_game(id),
            },
    {
        let mut i: usize = 0;
        while i < self.games.len()
            invariant
                i <= self.games@.len(),
                forall|j: int| 0 <= j < i ==> (#[trigger] self.games@[j]).id != id,
            decreases self.games@.len() - i,
        {
            if self.games[i].id == id {
                return Some(i);
            }
            i += 1;
        }
        None
    }

    fn game_version_index(&self, id: u64) -> (r: Option<usize>)
        ensures
            match r {
                Some(k) => k < self.game_versions@.len() && self.game_versions@[k as int].id == id,
                None => !self.has_game_version(id),
            },
    {
        let mut i: usize = 0;
        while i < self.game_versions.len()
            invariant
                i <= self.game_versions@.len(),
                forall|j: int| 0 <= j < i ==> (#[trigger] self.game_versions@[j]).id != id,
            decreases self.game_versions@.len() - i,
        {
            if self.game_versions[i].id == id {
                return Some(i);
            }
            i += 1;
        }
        None
    }

    fn game_type_index(&self, id: u64) -> (r: Option<usize>)
        ensures
            match r {
                Some(k) => k < self.game_types@.len() && self.game_types@[k as int].id == id,
                None => !self.has_game_type(id),
            },
    {
        let mut i: usize = 0;
        while i < self.game_types.len()
            invariant
                i <= self.game_types@.len(),
                forall|j: int| 0 <= j < i ==> (#[trigger] self.game_types@[j]).id != id,
            decreases self.game_types@.len() - i,
        {
            if self.game_types[i].id == id {
                return Some(i);
            }
            i += 1;
        }
        None
    }

    fn game_log_index(&self, id: u64) -> (r: Option<usize>)
        ensures
            match r {
                Some(k) => k < self.game_logs@.len() && self.game_logs@[k as int].id == id,
                None => !self.has_game_log(id),
            },
    {
        let mut i: usize = 0;
        while i < self.game_logs.len()
            invariant
                i <= self.game_logs@.len(),
                forall|j: int| 0 <= j < i ==> (#[trigger] self.game_logs@[j]).id != id,
            decreases self.game_logs@.len() - i,
        {
            if self.game_logs[i].id == id {
                return Some(i);
            }
            i += 1;
        }
        None
    }

    fn game_player_index(&self, id: u64) -> (r: Option<usize>)
        ensures
            match r {
                Some(k) => k < self.game_players@.len() && self.game_players@[k as int].id == id,
                None => !self.has_game_player(id),
            },
    {
        let mut i: usize = 0;
        while i < self.game_players.len()
            invariant
                i <= self.game_players@.len(),
                forall|j: int| 0 <= j < i ==> (#[trigger] self.game_players@[j]).id != id,
            decreases self.game_players@.len() - i,
        {
            if self.game_players[i].id == id {
                return Some(i);
            }
            i += 1;
        }
        None
    }

    /// Some participant of session `gid` sits at seat `pos`.
    pub open spec fn has_player_at(self, gid: u64, pos: usize) -> bool {
        exists|i: int|
            0 <= i < self.game_players@.len() && (#[trigger] self.game_players@[i]).game_id == gid
                && self.game_players@[i].position == pos
    }

    /// User `uid` occupies some seat of session `gid`.
    pub open spec fn has_player_for(self, gid: u64, uid: u64) -> bool {
        exists|i: int|
            0 <= i < self.game_players@.len() && (#[trigger] self.game_players@[i]).game_id == gid
                && self.game_players@[i].user_id == uid
    }

    fn player_index_by_position(&self, game_id: u64, pos: usize) -> (r: Option<usize>)
        ensures
            match r {
                Some(k) => k < self.game_players@.len() && self.game_players@[k as int].game_id
                    == game_id && self.game_players@[k as int].position == pos,
                None => !self.has_player_at(game_id, pos),
            },
    {
        let mut i: usize = 0;
        while i < self.game_players.len()
            invariant
                i <= self.game_players@.len(),
                forall|j: int|
                    0 <= j < i ==> !((#[trigger] self.game_players@[j]).game_id == game_id
                        && self.game_players@[j].position == pos),
            decreases self.game_players@.len() - i,
        {
            if self.game_players[i].game_id == game_id && self.game_players[i].position == pos {
                return Some(i);
            }
            i += 1;
        }
        None
    }

    /// Exec counterpart of `has_player_at`.
    pub fn has_player_at_exec(&self, gid: u64, pos: usize) -> (b: bool)
        ensures
            b == self.has_player_at(gid, pos),
    {
        self.player_index_by_position(gid, pos).is_some()
    }

    fn player_index_by_user(&self, game_id: u64, user_id: u64) -> (r: Option<usize>)
        ensures
            match r {
                Some(k) => k < self.game_players@.len() && self.game_players@[k as int].game_id
                    == game_id && self.game_players@[k as int].user_id == user_id && forall|j: int|
                    0 <= j < k ==> !((#[trigger] self.game_players@[j]).game_id == game_id
                        && self.game_players@[j].user_id == user_id),
                None => !self.has_player_for(game_id, user_id),
            },
    {
        let mut i: usize = 0;
        while i < self.game_players.len()
            invariant
                i <= self.game_players@.len(),
                forall|j: int|
                    0 <= j < i ==> !((#[trigger] self.game_players@[j]).game_id == game_id
                        && self.game_players@[j].user_id == user_id),
            decreases self.game_players@.len() - i,
        {
            if self.game_players[i].game_id == game_id && self.game_players[i].user_id == user_id {
                return Some(i);
            }
            i += 1;
        }
        None
    }

    /// The seat of `user_id` in session `game_id`: the lowest matching seat,
    /// when the user holds one.
    pub fn find_game_player_by_user_and_game(&self, user_id: u64, game_id: u64) -> (r: Option<
        GamePlayer,
    >)
        ensures
            r is Some <==> self.has_player_for(game_id, user_id),
            r is Some ==> exists|k: int|
                0 <= k < self.game_players@.len() && (#[trigger] self.game_players@[k]) == r->0
                    && self.game_players@[k].game_id == game_id && self.game_players@[k].user_id
                    == user_id && (forall|j: int|
                    0 <= j < k ==> !((#[trigger] self.game_players@[j]).game_id == game_id
                        && self.game_players@[j].user_id == user_id)),
    {
        match self.player_index_by_user(game_id, user_id) {
            Some(k) => Some(self.game_players[k].clone()),
            None => None,
        }
    }

    /// How many participants session `game_id` has.
    pub fn find_player_count_by_game(&self, game_id: u64) -> (r: usize)
        ensures
            r as nat == count_players(self.game_players@, game_id),
    {
        let mut n: usize = 0;
        let mut i: usize = 0;
        proof {
            assert(self.game_players@.take(0) =~= Seq::<GamePlayer>::empty());
        }
        while i < self.game_players.len()
            invariant
                i <= self.game_players@.len(),
                n <= i,
                n as nat == count_players(self.game_players@.take(i as int), game_id),
            decreases self.game_players@.len() - i,
        {
            proof {
                lemma_count_players_push(self.game_players@.take(i as int), self.game_players@[i as int], game_id);
                assert(self.game_players@.take(i as int).push(self.game_players@[i as int])
                    =~= self.game_players@.take(i + 1));
            }
            if self.game_players[i].game_id == game_id {
                n += 1;
            }
            i += 1;
        }
        proof {
            assert(self.game_players@.take(self.game_players@.len() as int) =~= self.game_players@);
        }
        n
    }

    /// The participants of session `game_id`, in seat order.
    pub fn find_game_players_by_game(&self, game_id: u64) -> (r: Vec<GamePlayer>)
        ensures
            r@ == self.game_players@.filter(players_pred(game_id)),
    {
        let mut out: Vec<GamePlayer> = Vec::new();
        let mut i: usize = 0;
        proof {
            reveal(Seq::filter);
            assert(self.game_players@.take(0) =~= Seq::<GamePlayer>::empty());
        }
        while i < self.game_players.len()
            invariant
                i <= self.game_players@.len(),
                out@ == self.game_players@.take(i as int).filter(players_pred(game_id)),
            decreases self.game_players@.len() - i,
        {
            proof {
                lemma_filter_take_step(self.game_players@, i as int, players_pred(game_id));
            }
            if self.game_players[i].game_id == game_id {
                out.push(self.game_players[i].clone());
            }
            i += 1;
        }
        proof {
            assert(self.game_players@.take(self.game_players@.len() as int) =~= self.game_players@);
        }
        out
    }

    /// The participants of session `game_id`, in seat order, each joined
    /// with their user row.
    pub fn find_game_players_with_user_by_game(&self, game_id: u64) -> (r: Vec<(GamePlayer, User)>)
        requires
            self.wf(),
        ensures
            r@.len() == self.game_players@.filter(players_pred(game_id)).len(),
            forall|k: int|
                0 <= k < r@.len() ==> (#[trigger] r@[k]).0 == self.game_players@.filter(
                    players_pred(game_id),
                )[k],
            forall|k: int|
                0 <= k < r@.len() ==> (#[trigger] r@[k]).1.id == r@[k].0.user_id && exists|w: int|
                    0 <= w < self.users@.len() && (#[trigger] self.users@[w]).id == r@[k].0.user_id
                        && user_equal(r@[k].1, self.users@[w]),
    {
        let ghost pred = players_pred(game_id);
        let mut out: Vec<(GamePlayer, User)> = Vec::new();
        let mut i: usize = 0;
        proof {
            reveal(Seq::filter);
            assert(self.game_players@.take(0) =~= Seq::<GamePlayer>::empty());
        }
        while i < self.game_players.len()
            invariant
                self.wf(),
                i <= self.game_players@.len(),
                out@.len() == self.game_players@.take(i as int).filter(pred).len(),
                pred == players_pred(game_id),
                forall|k: int|
                    0 <= k < out@.len() ==> (#[trigger] out@[k]).0 == self.game_players@.take(
                        i as int,
                    ).filter(pred)[k],
                forall|k: int|
                    0 <= k < out@.len() ==> (#[trigger] out@[k]).1.id == out@[k].0.user_id
                        && exists|w: int|
                        0 <= w < self.users@.len() && (#[trigger] self.users@[w]).id
                            == out@[k].0.user_id && user_equal(out@[k].1, self.users@[w]),
            decreases self.game_players@.len() - i,
        {
            proof {
                lemma_filter_take_step(self.game_players@, i as int, pred);
            }
            if self.game_players[i].game_id == game_id {
                let p = self.game_players[i].clone();
                match self.user_index(p.user_id) {
                    Some(uk) => {
                        out.push((p, self.users[uk].clone()));
                    },
                    None => {
                        proof {
                            assert(self.has_user(self.game_players@[i as int].user_id));
                        }
                        vstd::pervasive::unreached()
                    },
                }
            }
            i += 1;
        }
        proof {
            assert(self.game_players@.take(self.game_players@.len() as int) =~= self.game_players@);
        }
        out
    }

    /// Find a ruleset by identifier.
    pub fn find_game_version(&self, id: u64) -> (r: Option<GameVersion>)
        ensures
            r is Some <==> self.has_game_version(id),
            r is Some ==> exists|k: int|
                0 <= k < self.game_versions@.len() && (#[trigger] self.game_versions@[k]).id == id
                    && r->0 == self.game_versions@[k],
    {
        match self.game_version_index(id) {
            Some(k) => Some(self.game_versions[k].clone()),
            None => None,
        }
    }

    /// There is a target row making log `log_id` visible to participant
    /// `player_id`.
    pub open spec fn log_targeted(self, log_id: u64, player_id: u64) -> bool {
        exists|i: int|
            0 <= i < self.game_log_targets@.len() && (#[trigger] self.game_log_targets@[i]).game_log_id
                == log_id && self.game_log_targets@[i].game_player_id == player_id
    }

    /// Exec counterpart of `log_targeted`.
    pub fn is_log_targeted(&self, log_id: u64, player_id: u64) -> (b: bool)
        ensures
            b == self.log_targeted(log_id, player_id),
    {
        let mut i: usize = 0;
        while i < self.game_log_targets.len()
            invariant
                i <= self.game_log_targets@.len(),
                forall|j: int|
                    0 <= j < i ==> !((#[trigger] self.game_log_targets@[j]).game_log_id == log_id
                        && self.game_log_targets@[j].game_player_id == player_id),
            decreases self.game_log_targets@.len() - i,
        {
            if self.game_log_targets[i].game_log_id == log_id && self.game_log_targets[i].game_player_id
                == player_id {
                return true;
            }
            i += 1;
        }
        false
    }

    /// Every identifier in `ids` names an existing participant row.
    pub fn all_players_exist(&self, ids: &Vec<u64>) -> (b: bool)
        ensures
            b == (forall|j: int| 0 <= j < ids@.len() ==> self.has_game_player(#[trigger] ids@[j])),
    {
        let mut j: usize = 0;
        while j < ids.len()
            invariant
                j <= ids@.len(),
                forall|jj: int| 0 <= jj < j ==> self.has_game_player(#[trigger] ids@[jj]),
            decreases ids@.len() - j,
        {
            if self.game_player_index(ids[j]).is_none() {
                return false;
            }
            j += 1;
        }
        true
    }

    /// Mark a private log entry as visible to one participant. Fails when
    /// the log or the participant does not exist.
    pub fn create_game_log_target(&mut self, new_target: &NewGameLogTarget, now: i64) -> (r: Result<
        GameLogTarget,
        Error,
    >)
        requires
            old(self).wf(),
            old(self).next_id < u64::MAX,
        ensures
            final(self).wf(),
            r is Ok <==> old(self).has_game_log(new_target.game_log_id) && old(self).has_game_player(
                new_target.game_player_id,
            ),
            r is Err ==> Self::unchanged(*old(self), *final(self)) && r->Err_0 is SystemError,
            r is Ok ==> final(self).next_id == old(self).next_id + 1
                && final(self).game_log_targets@ == old(self).game_log_targets@.push(
                (GameLogTarget {
                    id: old(self).next_id,
                    created_at: now,
                    updated_at: now,
                    game_log_id: new_target.game_log_id,
                    game_player_id: new_target.game_player_id,
                }),
            ) && r->Ok_0 == final(self).game_log_targets@.last(),
            Self::same_users(*old(self), *final(self)),
            Self::same_user_emails(*old(self), *final(self)),
            Self::same_user_auth_tokens(*old(self), *final(self)),
            Self::same_game_types(*old(self), *final(self)),
            Self::same_game_versions(*old(self), *final(self)),
            Self::same_games(*old(self), *final(self)),
            Self::same_game_players(*old(self), *final(self)),
            Self::same_game_logs(*old(self), *final(self)),
    {
        if self.game_log_index(new_target.game_log_id).is_none() || self.game_player_index(
            new_target.game_player_id,
        ).is_none() {
            return Err(Error::SystemError(String::from_str("error inserting game log target")));
        }
        let id = self.fresh_id();
        let row = GameLogTarget {
            id,
            created_at: now,
            updated_at: now,
            game_log_id: new_target.game_log_id,
            game_player_id: new_target.game_player_id,
        };
        let out = row.clone();
        self.game_log_targets.push(row);
        proof {
            let s = *old(self);
            lemma_has_preserved(s, *self);
            assert forall|i: int, j: int|
                0 <= i < j < self.game_log_targets@.len() implies self.game_log_targets@[i].id
                != self.game_log_targets@[j].id by {
                if j == self.game_log_targets@.len() - 1 {
                    assert(self.game_log_targets@[i] == s.game_log_targets@[i]);
                }
            }
            assert forall|i: int|
                0 <= i < self.game_log_targets@.len() implies (#[trigger] self.game_log_targets@[i]).id
                < self.next_id by {
                if i < s.game_log_targets@.len() {
                    assert(self.game_log_targets@[i] == s.game_log_targets@[i]);
                }
            }
            assert forall|i: int| 0 <= i < self.game_log_targets@.len() implies self.has_game_log(
                (#[trigger] self.game_log_targets@[i]).game_log_id,
            ) && self.has_game_player(self.game_log_targets@[i].game_player_id) by {
                if i < s.game_log_targets@.len() {
                    assert(s.has_game_log(s.game_log_targets@[i].game_log_id));
                    assert(s.has_game_player(s.game_log_targets@[i].game_player_id));
                }
            }
        }
        Ok(out)
    }

    /// Mark a private log entry as visible to each of the given
    /// participants.
    #[verifier::rlimit(100)]
    pub fn create_game_log_targets(&mut self, log_id: u64, player_ids: &Vec<u64>, now: i64) -> (r:
        Result<Vec<GameLogTarget>, Error>)
        requires
            old(self).wf(),
            old(self).next_id as int + player_ids@.len() <= u64::MAX as int,
        ensures
            final(self).wf(),
            r is Ok <==> old(self).has_game_log(log_id) && (forall|j: int|
                0 <= j < player_ids@.len() ==> old(self).has_game_player(
                    #[trigger] player_ids@[j],
                )),
            r is Err ==> Self::unchanged(*old(self), *final(self)) && r->Err_0 is SystemError,
            r is Ok ==> ({
                &&& final(self).next_id == old(self).next_id + player_ids@.len()
                &&& final(self).game_log_targets@.len() == old(self).game_log_targets@.len()
                    + player_ids@.len()
                &&& forall|t: int|
                    0 <= t < old(self).game_log_targets@.len() ==> final(self).game_log_targets@[t]
                        == old(self).game_log_targets@[t]
                &&& forall|j: int|
                    0 <= j < player_ids@.len() ==> final(self).game_log_targets@[old(
                        self,
                    ).game_log_targets@.len() + j] == (GameLogTarget {
                        id: (old(self).next_id + j) as u64,
                        created_at: now,
                        updated_at: now,
                        game_log_id: log_id,
                        game_player_id: player_ids@[j],
                    })
                &&& r->Ok_0@.len() == player_ids@.len()
                &&& forall|j: int|
                    0 <= j < player_ids@.len() ==> r->Ok_0@[j] == final(self).game_log_targets@[old(
                        self,
                    ).game_log_targets@.len() + j]
            }),
            Self::same_users(*old(self), *final(self)),
            Self::same_user_emails(*old(self), *final(self)),
            Self::same_user_auth_tokens(*old(self), *final(self)),
            Self::same_game_types(*old(self), *final(self)),
            Self::same_game_versions(*old(self), *final(self)),
            Self::same_games(*old(self), *final(self)),
            Self::same_game_players(*old(self), *final(self)),
            Self::same_game_logs(*old(self), *final(self)),
    {
        if self.game_log_index(log_id).is_none() || !self.all_players_exist(player_ids) {
            return Err(Error::SystemError(String::from_str("error inserting game log target")));
        }
        let ghost s = *self;
        let mut created: Vec<GameLogTarget> = Vec::new();
        let mut i: usize = 0;
        while i < player_ids.len()
            invariant
                i <= player_ids@.len(),
                self.wf(),
                s.wf(),
                s.has_game_log(log_id),
                forall|jj: int| 0 <= jj < player_ids@.len() ==> s.has_game_player(#[trigger] player_ids@[jj]),
                s.next_id as int + player_ids@.len() <= u64::MAX as int,
                self.next_id == s.next_id + i,
                self.game_log_targets@.len() == s.game_log_targets@.len() + i,
                forall|t: int|
                    0 <= t < s.game_log_targets@.len() ==> self.game_log_targets@[t]
                        == s.game_log_targets@[t],
                forall|jj: int|
                    0 <= jj < i ==> self.game_log_targets@[s.game_log_targets@.len() + jj] == (GameLogTarget {
                        id: (s.next_id + jj) as u64,
                        created_at: now,
                        updated_at: now,
                        game_log_id: log_id,
                        game_player_id: player_ids@[jj],
                    }),
                created@.len() == i,
                forall|jj: int|
                    0 <= jj < i ==> created@[jj] == self.game_log_targets@[s.game_log_targets@.len()
                        + jj],
                Self::same_users(s, *self),
                Self::same_user_emails(s, *self),
                Self::same_user_auth_tokens(s, *self),
                Self::same_game_types(s, *self),
                Self::same_game_versions(s, *self),
                Self::same_games(s, *self),
                Self::same_game_players(s, *self),
                Self::same_game_logs(s, *self),
            decreases player_ids@.len() - i,
        {
            let nt = NewGameLogTarget { game_log_id: log_id, game_player_id: player_ids[i] };
            proof {
                lemma_has_preserved(s, *self);
            }
            match self.create_game_log_target(&nt, now) {
                Ok(t) => {
                    created.push(t);
                },
                Err(_) => {
                    proof {
                        assert(self.has_game_log(log_id));
                        assert(self.has_game_player(player_ids@[i as int]));
                    }
                    vstd::pervasive::unreached()
                },
            }
            i += 1;
        }
        Ok(created)
    }

    /// Append a log entry to a session, with its target seats. An entry
    /// with no targets and `is_public` false is visible to nobody. Fails
    /// when the session or a target participant does not exist.
    #[verifier::rlimit(60)]
    pub fn create_game_log(&mut self, log: &NewGameLog, to: &Vec<u64>, now: i64) -> (r: Result<
        CreatedGameLog,
        Error,
    >)
        requires
            old(self).wf(),
            old(self).next_id as int + 1 + to@.len() <= u64::MAX as int,
        ensures
            final(self).wf(),
            r is Ok <==> old(self).has_game(log.game_id) && (forall|j: int|
                0 <= j < to@.len() ==> old(self).has_game_player(#[trigger] to@[j])),
            r is Err ==> Self::unchanged(*old(self), *final(self)) && r->Err_0 is SystemError,
            r is Ok ==> ({
                let row = (GameLog {
                    id: old(self).next_id,
                    created_at: now,
                    updated_at: now,
                    game_id: log.game_id,
                    body: log.body,
                    is_public: log.is_public,
                    logged_at: log.logged_at,
                });
                &&& final(self).next_id == old(self).next_id + 1 + to@.len()
                &&& final(self).game_logs@ == old(self).game_logs@.push(row)
                &&& r->Ok_0.game_log == row
                &&& final(self).game_log_targets@.len() == old(self).game_log_targets@.len()
                    + to@.len()
                &&& forall|t: int|
                    0 <= t < old(self).game_log_targets@.len() ==> final(self).game_log_targets@[t]
                        == old(self).game_log_targets@[t]
                &&& forall|j: int|
                    0 <= j < to@.len() ==> final(self).game_log_targets@[old(
                        self,
                    ).game_log_targets@.len() + j] == (GameLogTarget {
                        id: (old(self).next_id + 1 + j) as u64,
                        created_at: now,
                        updated_at: now,
                        game_log_id: old(self).next_id,
                        game_player_id: to@[j],
                    })
                &&& r->Ok_0.targets@.len() == to@.len()
                &&& forall|j: int|
                    0 <= j < to@.len() ==> r->Ok_0.targets@[j] == final(self).game_log_targets@[old(
                        self,
                    ).game_log_targets@.len() + j]
            }),
            Self::same_users(*old(self), *final(self)),
            Self::same_user_emails(*old(self), *final(self)),
            Self::same_user_auth_tokens(*old(self), *final(self)),
            Self::same_game_types(*old(self), *final(self)),
            Self::same_game_versions(*old(self), *final(self)),
            Self::same_games(*old(self), *final(self)),
            Self::same_game_players(*old(self), *final(self)),
    {
        if self.game_index(log.game_id).is_none() || !self.all_players_exist(to) {
            return Err(Error::SystemError(String::from_str("error inserting game log")));
        }
        let id = self.fresh_id();
        let row = GameLog {
            id,
            created_at: now,
            updated_at: now,
            game_id: log.game_id,
            body: log.body.clone(),
            is_public: log.is_public,
            logged_at: log.logged_at,
        };
        let out_log = row.clone();
        self.game_logs.push(row);
        proof {
            let s = *old(self);
            lemma_has_preserved(s, *self);
            assert forall|i: int, j2: int|
                0 <= i < j2 < self.game_logs@.len() implies self.game_logs@[i].id
                != self.game_logs@[j2].id by {
                if j2 == self.game_logs@.len() - 1 {
                    assert(self.game_logs@[i] == s.game_logs@[i]);
                }
            }
            assert forall|i: int|
                0 <= i < self.game_logs@.len() implies (#[trigger] self.game_logs@[i]).id
                < self.next_id by {
                if i < s.game_logs@.len() {
                    assert(self.game_logs@[i] == s.game_logs@[i]);
                }
            }
            assert forall|i: int| 0 <= i < self.game_logs@.len() implies self.has_game(
                (#[trigger] self.game_logs@[i]).game_id,
            ) by {
                if i < s.game_logs@.len() {
                    assert(s.has_game(s.game_logs@[i].game_id));
                }
            }
            assert(self.has_game_log(id)) by {
                assert(self.game_logs@.last().id == id);
            }
            lemma_has_preserved(s, *self);
        }
        match self.create_game_log_targets(id, to, now) {
            Ok(targets) => Ok(CreatedGameLog { game_log: out_log, targets }),
            Err(_) => {
                proof {
                    assert(self.has_game_log(id));
                }
                vstd::pervasive::unreached()
            },
        }
    }

    /// Overwrite a session's engine state, ruleset reference and finished
    /// flag. Returns `None` when the session does not exist; fails when the
    /// ruleset does not.
    pub fn update_game(&mut self, update_id: u64, update: &NewGame, now: i64) -> (r: Result<
        Option<Game>,
        Error,
    >)
        requires
            old(self).wf(),
        ensures
            final(self).wf(),
            r is Ok <==> old(self).has_game_version(update.game_version_id),
            r is Err ==> Self::unchanged(*old(self), *final(self)) && r->Err_0 is SystemError,
            r is Ok ==> ((r->Ok_0 is Some) <==> old(self).has_game(update_id)),
            r is Ok && r->Ok_0 is None ==> Self::unchanged(*old(self), *final(self)),
            r is Ok && r->Ok_0 is Some ==> ({
                &&& final(self).games@.len() == old(self).games@.len()
                &&& exists|k: int|
                    0 <= k < old(self).games@.len() && (#[trigger] old(self).games@[k]).id
                        == update_id && final(self).games@ == old(self).games@.update(
                        k,
                        updated_game_row(old(self).games@[k], *update, now),
                    ) && r->Ok_0->0 == final(self).games@[k]
                &&& final(self).next_id == old(self).next_id
            }),
            Self::same_users(*old(self), *final(self)),
            Self::same_user_emails(*old(self), *final(self)),
            Self::same_user_auth_tokens(*old(self), *final(self)),
            Self::same_game_types(*old(self), *final(self)),
            Self::same_game_versions(*old(self), *final(self)),
            Self::same_game_players(*old(self), *final(self)),
            Self::same_game_logs(*old(self), *final(self)),
            Self::same_game_log_targets(*old(self), *final(self)),
    {
        if self.game_version_index(update.game_version_id).is_none() {
            return Err(Error::SystemError(String::from_str("error updating game")));
        }
        match self.game_index(update_id) {
            None => Ok(None),
            Some(k) => {
                let ghost s = *self;
                let g = &self.games[k];
                let row = Game {
                    id: g.id,
                    created_at: g.created_at,
                    updated_at: now,
                    game_version_id: update.game_version_id,
                    is_finished: update.is_finished,
                    game_state: update.game_state.clone(),
                };
                let out = row.clone();
                self.games.set(k, row);
                proof {
                    lemma_has_preserved_pointwise(s, *self);
                    lemma_has_preserved_pointwise(*self, s);
                    assert forall|i: int, j: int|
                        0 <= i < j < self.games@.len() implies self.games@[i].id
                        != self.games@[j].id by {
                        assert(s.games@[i].id != s.games@[j].id);
                    }
                    assert forall|i: int|
                        0 <= i < self.games@.len() implies (#[trigger] self.games@[i]).id
                        < self.next_id by {
                        assert(s.games@[i].id < s.next_id);
                    }
                    assert forall|i: int|
                        0 <= i < self.games@.len() implies self.has_game_version(
                        (#[trigger] self.games@[i]).game_version_id,
                    ) by {
                        if i != k as int {
                            assert(self.games@[i] == s.games@[i]);
                            assert(s.has_game_version(s.games@[i].game_version_id));
                        } else {
                            assert(s.has_game_version(update.game_version_id));
                        }
                    }
                }
                Ok(Some(out))
            },
        }
    }

    /// Set the turn flag of every participant of a session: on for the
    /// listed seat positions, off for the rest. Returns the session's
    /// participants after the update.
    pub fn update_game_whose_turn(&mut self, id: u64, positions: &Vec<usize>, now: i64) -> (r:
        Result<Vec<GamePlayer>, Error>)
        requires
            old(self).wf(),
        ensures
            final(self).wf(),
            r is Ok,
            final(self).game_players@.len() == old(self).game_players@.len(),
            forall|t: int|
                0 <= t < old(self).game_players@.len() && old(self).game_players@[t].game_id != id
                    ==> final(self).game_players@[t] == old(self).game_players@[t],
            forall|t: int|
                0 <= t < old(self).game_players@.len() && old(self).game_players@[t].game_id == id
                    ==> final(self).game_players@[t] == (GamePlayer {
                    is_turn: positions@.contains(old(self).game_players@[t].position),
                    updated_at: now,
                    ..old(self).game_players@[t]
                }),
            r->Ok_0@ == final(self).game_players@.filter(players_pred(id)),
            final(self).next_id == old(self).next_id,
            Self::same_users(*old(self), *final(self)),
            Self::same_user_emails(*old(self), *final(self)),
            Self::same_user_auth_tokens(*old(self), *final(self)),
            Self::same_game_types(*old(self), *final(self)),
            Self::same_game_versions(*old(self), *final(self)),
            Self::same_games(*old(self), *final(self)),
            Self::same_game_logs(*old(self), *final(self)),
            Self::same_game_log_targets(*old(self), *final(self)),
    {
        let ghost s = *self;
        let mut i: usize = 0;
        while i < self.game_players.len()
            invariant
                i <= self.game_players@.len(),
                self.game_players@.len() == s.game_players@.len(),
                forall|t: int|
                    0 <= t < s.game_players@.len() && t >= i ==> self.game_players@[t]
                        == s.game_players@[t],
                forall|t: int|
                    0 <= t < i && s.game_players@[t].game_id != id ==> self.game_players@[t]
                        == s.game_players@[t],
                forall|t: int|
                    0 <= t < i && s.game_players@[t].game_id == id ==> self.game_players@[t]
                        == (GamePlayer {
                        is_turn: positions@.contains(s.game_players@[t].position),
                        updated_at: now,
                        ..s.game_players@[t]
                    }),
                self.next_id == s.next_id,
                Self::same_users(s, *self),
                Self::same_user_emails(s, *self),
                Self::same_user_auth_tokens(s, *self),
                Self::same_game_types(s, *self),
                Self::same_game_versions(s, *self),
                Self::same_games(s, *self),
                Self::same_game_logs(s, *self),
                Self::same_game_log_targets(s, *self),
            decreases self.game_players@.len() - i,
        {
            if self.game_players[i].game_id == id {
                let p = &self.game_players[i];
                let row = GamePlayer {
                    id: p.id,
                    created_at: p.created_at,
                    updated_at: now,
                    game_id: p.game_id,
                    user_id: p.user_id,
                    position: p.position,
                    color: p.color,
                    has_accepted: p.has_accepted,
                    is_turn: Self::contains_position(positions, p.position),
                    is_eliminated: p.is_eliminated,
                    is_winner: p.is_winner,
                    is_read: p.is_read,
                    undo_game_state: clone_opt_string(&p.undo_game_state),
                };
                self.game_players.set(i, row);
            }
            i += 1;
        }
        proof {
            lemma_wf_pointwise(s, *self);
        }
        Ok(self.find_game_players_by_game(id))
    }

    /// Set the eliminated flag of every participant of a session: on for
    /// the listed seat positions, off for the rest.
    pub fn update_game_eliminated(&mut self, id: u64, positions: &Vec<usize>, now: i64) -> (r:
        Result<Vec<GamePlayer>, Error>)
        requires
            old(self).wf(),
        ensures
            final(self).wf(),
            r is Ok,
            final(self).game_players@.len() == old(self).game_players@.len(),
            forall|t: int|
                0 <= t < old(self).game_players@.len() && old(self).game_players@[t].game_id != id
                    ==> final(self).game_players@[t] == old(self).game_players@[t],
            forall|t: int|
                0 <= t < old(self).game_players@.len() && old(self).game_players@[t].game_id == id
                    ==> final(self).game_players@[t] == (GamePlayer {
                    is_eliminated: positions@.contains(old(self).game_players@[t].position),
                    updated_at: now,
                    ..old(self).game_players@[t]
                }),
            r->Ok_0@ == final(self).game_players@.filter(players_pred(id)),
            final(self).next_id == old(self).next_id,
            Self::same_users(*old(self), *final(self)),
            Self::same_user_emails(*old(self), *final(self)),
            Self::same_user_auth_tokens(*old(self), *final(self)),
            Self::same_game_types(*old(self), *final(self)),
            Self::same_game_versions(*old(self), *final(self)),
            Self::same_games(*old(self), *final(self)),
            Self::same_game_logs(*old(self), *final(self)),
            Self::same_game_log_targets(*old(self), *final(self)),
    {
        let ghost s = *self;
        let mut i: usize = 0;
        while i < self.game_players.len()
            invariant
                i <= self.game_players@.len(),
                self.game_players@.len() == s.game_players@.len(),
                forall|t: int|
                    0 <= t < s.game_players@.len() && t >= i ==> self.game_players@[t]
                        == s.game_players@[t],
                forall|t: int|
                    0 <= t < i && s.game_players@[t].game_id != id ==> self.game_players@[t]
                        == s.game_players@[t],
                forall|t: int|
                    0 <= t < i && s.game_players@[t].game_id == id ==> self.game_players@[t]
                        == (GamePlayer {
                        is_eliminated: positions@.contains(s.game_players@[t].position),
                        updated_at: now,
                        ..s.game_players@[t]
                    }),
                self.next_id == s.next_id,
                Self::same_users(s, *self),
                Self::same_user_emails(s, *self),
                Self::same_user_auth_tokens(s, *self),
                Self::same_game_types(s, *self),
                Self::same_game_versions(s, *self),
                Self::same_games(s, *self),
                Self::same_game_logs(s, *self),
                Self::same_game_log_targets(s, *self),
            decreases self.game_players@.len() - i,
        {
            if self.game_players[i].game_id == id {
                let p = &self.game_players[i];
                let row = GamePlayer {
                    id: p.id,
                    created_at: p.created_at,
                    updated_at: now,
                    game_id: p.game_id,
                    user_id: p.user_id,
                    position: p.position,
                    color: p.color,
                    has_accepted: p.has_accepted,
                    is_turn: p.is_turn,
                    is_eliminated: Self::contains_position(positions, p.position),
                    is_winner: p.is_winner,
                    is_read: p.is_read,
                    undo_game_state: clone_opt_string(&p.undo_game_state),
                };
                self.game_players.set(i, row);
            }
            i += 1;
        }
        proof {
            lemma_wf_pointwise(s, *self);
        }
        Ok(self.find_game_players_by_game(id))
    }

    /// Set the winner flag of every participant of a session: on for the
    /// listed seat positions, off for the rest.
    pub fn update_game_winners(&mut self, id: u64, positions: &Vec<usize>, now: i64) -> (r: Result<
        Vec<GamePlayer>,
        Error,
    >)
        requires
            old(self).wf(),
        ensures
            final(self).wf(),
            r is Ok,
            final(self).game_players@.len() == old(self).game_players@.len(),
            forall|t: int|
                0 <= t < old(self).game_players@.len() && old(self).game_players@[t].game_id != id
                    ==> final(self).game_players@[t] == old(self).game_players@[t],
            forall|t: int|
                0 <= t < old(self).game_players@.len() && old(self).game_players@[t].game_id == id
                    ==> final(self).game_players@[t] == (GamePlayer {
                    is_winner: positions@.contains(old(self).game_players@[t].position),
                    updated_at: now,
                    ..old(self).game_players@[t]
                }),
            r->Ok_0@ == final(self).game_players@.filter(players_pred(id)),
            final(self).next_id == old(self).next_id,
            Self::same_users(*old(self), *final(self)),
            Self::same_user_emails(*old(self), *final(self)),
            Self::same_user_auth_tokens(*old(self), *final(self)),
            Self::same_game_types(*old(self), *final(self)),
            Self::same_game_versions(*old(self), *final(self)),
            Self::same_games(*old(self), *final(self)),
            Self::same_game_logs(*old(self), *final(self)),
            Self::same_game_log_targets(*old(self), *final(self)),
    {
        let ghost s = *self;
        let mut i: usize = 0;
        while i < self.game_players.len()
            invariant
                i <= self.game_players@.len(),
                self.game_players@.len() == s.game_players@.len(),
                forall|t: int|
                    0 <= t < s.game_players@.len() && t >= i ==> self.game_players@[t]
                        == s.game_players@[t],
                forall|t: int|
                    0 <= t < i && s.game_players@[t].game_id != id ==> self.game_players@[t]
                        == s.game_players@[t],
                forall|t: int|
                    0 <= t < i && s.game_players@[t].game_id == id ==> self.game_players@[t]
                        == (GamePlayer {
                        is_winner: positions@.contains(s.game_players@[t].position),
                        updated_at: now,
                        ..s.game_players@[t]
                    }),
                self.next_id == s.next_id,
                Self::same_users(s, *self),
                Self::same_user_emails(s, *self),
                Self::same_user_auth_tokens(s, *self),
                Self::same_game_types(s, *self),
                Self::same_game_versions(s, *self),
                Self::same_games(s, *self),
                Self::same_game_logs(s, *self),
                Self::same_game_log_targets(s, *self),
            decreases self.game_players@.len() - i,
        {
            if self.game_players[i].game_id == id {
                let p = &self.game_players[i];
                let row = GamePlayer {
                    id: p.id,
                    created_at: p.created_at,
                    updated_at: now,
                    game_id: p.game_id,
                    user_id: p.user_id,
                    position: p.position,
                    color: p.color,
                    has_accepted: p.has_accepted,
                    is_turn: p.is_turn,
                    is_eliminated: p.is_eliminated,
                    is_winner: Self::contains_position(positions, p.position),
                    is_read: p.is_read,
                    undo_game_state: clone_opt_string(&p.undo_game_state),
                };
                self.game_players.set(i, row);
            }
            i += 1;
        }
        proof {
            lemma_wf_pointwise(s, *self);
        }
        Ok(self.find_game_players_by_game(id))
    }

    /// Update a session's state and all of its participants' status flags
    /// in one step, from the engine-reported seat sets.
    pub fn update_game_and_players(
        &mut self,
        game_id: u64,
        update: &NewGame,
        whose_turn: &Vec<usize>,
        eliminated: &Vec<usize>,
        winners: &Vec<usize>,
        now: i64,
    ) -> (r: Result<UpdatedGame, Error>)
        requires
            old(self).wf(),
        ensures
            final(self).wf(),
            r is Ok <==> old(self).has_game_version(update.game_version_id),
            r is Err ==> Self::unchanged(*old(self), *final(self)) && r->Err_0 is SystemError,
            r is Ok ==> ((r->Ok_0.game is Some) <==> old(self).has_game(game_id)),
            r is Ok && r->Ok_0.game is None ==> Self::unchanged(*old(self), *final(self)),
            r is Ok && r->Ok_0.game is Some ==> ({
                &&& final(self).games@.len() == old(self).games@.len()
                &&& exists|k: int|
                    0 <= k < old(self).games@.len() && (#[trigger] old(self).games@[k]).id
                        == game_id && final(self).games@ == old(self).games@.update(
                        k,
                        updated_game_row(old(self).games@[k], *update, now),
                    ) && r->Ok_0.game->0 == final(self).games@[k]
                &&& final(self).game_players@.len() == old(self).game_players@.len()
                &&& forall|t: int|
                    0 <= t < old(self).game_players@.len() && old(self).game_players@[t].game_id
                        != game_id ==> final(self).game_players@[t] == old(self).game_players@[t]
                &&& forall|t: int|
                    0 <= t < old(self).game_players@.len() && old(self).game_players@[t].game_id
                        == game_id ==> final(self).game_players@[t] == (GamePlayer {
                        is_turn: whose_turn@.contains(old(self).game_players@[t].position),
                        is_eliminated: eliminated@.contains(old(self).game_players@[t].position),
                        is_winner: winners@.contains(old(self).game_players@[t].position),
                        updated_at: now,
                        ..old(self).game_players@[t]
                    })
                &&& r->Ok_0.winners@ == final(self).game_players@.filter(players_pred(game_id))
                &&& final(self).next_id == old(self).next_id
            }),
            Self::same_users(*old(self), *final(self)),
            Self::same_user_emails(*old(self), *final(self)),
            Self::same_user_auth_tokens(*old(self), *final(self)),
            Self::same_game_types(*old(self), *final(self)),
            Self::same_game_versions(*old(self), *final(self)),
            Self::same_game_logs(*old(self), *final(self)),
            Self::same_game_log_targets(*old(self), *final(self)),
    {
        let game = match self.update_game(game_id, update, now) {
            Ok(g) => g,
            Err(e) => {
                return Err(e);
            },
        };
        if game.is_none() {
            return Ok(
                UpdatedGame {
                    game: None,
                    whose_turn: Vec::new(),
                    eliminated: Vec::new(),
                    winners: Vec::new(),
                },
            );
        }
        let wt = match self.update_game_whose_turn(game_id, whose_turn, now) {
            Ok(v) => v,
            Err(_) => vstd::pervasive::unreached(),
        };
        let el = match self.update_game_eliminated(game_id, eliminated, now) {
            Ok(v) => v,
            Err(_) => vstd::pervasive::unreached(),
        };
        let wn = match self.update_game_winners(game_id, winners, now) {
            Ok(v) => v,
            Err(_) => vstd::pervasive::unreached(),
        };
        Ok(UpdatedGame { game, whose_turn: wt, eliminated: el, winners: wn })
    }

    /// Persist the outcome of a successfully played command: the new engine
    /// state, the status-derived flags, and the undo snapshots. When
    /// `undo_state` is present (the move can be undone) it becomes the
    /// acting participant's snapshot; every other participant's snapshot is
    /// cleared, and so is the acting one's when the move cannot be undone.
    pub fn update_game_command_success(
        &mut self,
        game_id: u64,
        player_id: u64,
        update: &NewGame,
        undo_state: Option<&String>,
        whose_turn: &Vec<usize>,
        eliminated: &Vec<usize>,
        winners: &Vec<usize>,
        now: i64,
    ) -> (r: Result<UpdatedGame, Error>)
        requires
            old(self).wf(),
        ensures
            final(self).wf(),
            r is Ok <==> old(self).has_game_version(update.game_version_id),
            r is Err ==> Self::unchanged(*old(self), *final(self)) && r->Err_0 is SystemError,
            r is Ok ==> ((r->Ok_0.game is Some) <==> old(self).has_game(game_id)),
            r is Ok && r->Ok_0.game is None ==> Self::unchanged(*old(self), *final(self)),
            r is Ok && r->Ok_0.game is Some ==> ({
                &&& final(self).games@.len() == old(self).games@.len()
                &&& exists|k: int|
                    0 <= k < old(self).games@.len() && (#[trigger] old(self).games@[k]).id
                        == game_id && final(self).games@ == old(self).games@.update(
                        k,
                        updated_game_row(old(self).games@[k], *update, now),
                    ) && r->Ok_0.game->0 == final(self).games@[k]
                &&& final(self).game_players@.len() == old(self).game_players@.len()
                &&& forall|t: int|
                    0 <= t < old(self).game_players@.len() && old(self).game_players@[t].game_id
                        != game_id ==> final(self).game_players@[t] == old(self).game_players@[t]
                &&& forall|t: int|
                    0 <= t < old(self).game_players@.len() && old(self).game_players@[t].game_id
                        == game_id ==> final(self).game_players@[t] == (GamePlayer {
                        is_turn: whose_turn@.contains(old(self).game_players@[t].position),
                        is_eliminated: eliminated@.contains(old(self).game_players@[t].position),
                        is_winner: winners@.contains(old(self).game_players@[t].position),
                        updated_at: now,
                        undo_game_state: if old(self).game_players@[t].id == player_id {
                            match undo_state {
                                Some(u) => Some(*u),
                                None => None,
                            }
                        } else {
                            None
                        },
                        ..old(self).game_players@[t]
                    })
                &&& final(self).next_id == old(self).next_id
            }),
            Self::same_users(*old(self), *final(self)),
            Self::same_user_emails(*old(self), *final(self)),
            Self::same_user_auth_tokens(*old(self), *final(self)),
            Self::same_game_types(*old(self), *final(self)),
            Self::same_game_versions(*old(self), *final(self)),
            Self::same_game_logs(*old(self), *final(self)),
            Self::same_game_log_targets(*old(self), *final(self)),
    {
        let updated = match self.update_game_and_players(
            game_id,
            update,
            whose_turn,
            eliminated,
            winners,
            now,
        ) {
            Ok(u) => u,
            Err(e) => {
                return Err(e);
            },
        };
        if updated.game.is_none() {
            return Ok(updated);
        }
        let ghost s = *self;
        let mut i: usize = 0;
        while i < self.game_players.len()
            invariant
                i <= self.game_players@.len(),
                self.game_players@.len() == s.game_players@.len(),
                forall|t: int|
                    0 <= t < s.game_players@.len() && t >= i ==> self.game_players@[t]
                        == s.game_players@[t],
                forall|t: int|
                    0 <= t < i && s.game_players@[t].game_id != game_id ==> self.game_players@[t]
                        == s.game_players@[t],
                forall|t: int|
                    0 <= t < i && s.game_players@[t].game_id == game_id ==> self.game_players@[t]
                        == (GamePlayer {
                        undo_game_state: if s.game_players@[t].id == player_id {
                            match undo_state {
                                Some(u) => Some(*u),
                                None => None,
                            }
                        } else {
                            None
                        },
                        ..s.game_players@[t]
                    }),
                self.next_id == s.next_id,
                Self::same_users(s, *self),
                Self::same_user_emails(s, *self),
                Self::same_user_auth_tokens(s, *self),
                Self::same_game_types(s, *self),
                Self::same_game_versions(s, *self),
                Self::same_games(s, *self),
                Self::same_game_logs(s, *self),
                Self::same_game_log_targets(s, *self),
            decreases self.game_players@.len() - i,
        {
            if self.game_players[i].game_id == game_id {
                let p = &self.game_players[i];
                let snapshot: Option<String> = if p.id == player_id {
                    match undo_state {
                        Some(u) => Some(u.clone()),
                        None => None,
                    }
                } else {
                    None
                };
                let row = GamePlayer {
                    id: p.id,
                    created_at: p.created_at,
                    updated_at: p.updated_at,
                    game_id: p.game_id,
                    user_id: p.user_id,
                    position: p.position,
                    color: p.color,
                    has_accepted: p.has_accepted,
                    is_turn: p.is_turn,
                    is_eliminated: p.is_eliminated,
                    is_winner: p.is_winner,
                    is_read: p.is_read,
                    undo_game_state: snapshot,
                };
                self.game_players.set(i, row);
            }
            i += 1;
        }
        proof {
            lemma_wf_pointwise(s, *self);
        }
        Ok(updated)
    }

    /// Record a concession in a session with at most two participants: the
    /// session finishes, the conceding participant is eliminated and loses,
    /// every other participant wins. Fails when the session does not exist.
    pub fn concede_game(&mut self, game_id: u64, player_id: u64, now: i64) -> (r: Result<
        Game,
        Error,
    >)
        requires
            old(self).wf(),
        ensures
            final(self).wf(),
            r is Ok <==> old(self).has_game(game_id),
            r is Err ==> Self::unchanged(*old(self), *final(self)) && r->Err_0 is SystemError,
            r is Ok ==> ({
                &&& final(self).games@.len() == old(self).games@.len()
                &&& exists|k: int|
                    0 <= k < old(self).games@.len() && (#[trigger] old(self).games@[k]).id
                        == game_id && final(self).games@ == old(self).games@.update(
                        k,
                        (Game {
                            is_finished: true,
                            updated_at: now,
                            ..old(self).games@[k]
                        }),
                    ) && r->Ok_0 == final(self).games@[k]
                &&& final(self).game_players@.len() == old(self).game_players@.len()
                &&& forall|t: int|
                    0 <= t < old(self).game_players@.len() && old(self).game_players@[t].game_id
                        != game_id ==> final(self).game_players@[t] == old(self).game_players@[t]
                &&& forall|t: int|
                    0 <= t < old(self).game_players@.len() && old(self).game_players@[t].game_id
                        == game_id ==> final(self).game_players@[t] == (GamePlayer {
                        is_turn: false,
                        is_eliminated: old(self).game_players@[t].id == player_id,
                        is_winner: old(self).game_players@[t].id != player_id,
                        updated_at: now,
                        ..old(self).game_players@[t]
                    })
                &&& final(self).next_id == old(self).next_id
            }),
            Self::same_users(*old(self), *final(self)),
            Self::same_user_emails(*old(self), *final(self)),
            Self::same_user_auth_tokens(*old(self), *final(self)),
            Self::same_game_types(*old(self), *final(self)),
            Self::same_game_versions(*old(self), *final(self)),
            Self::same_game_logs(*old(self), *final(self)),
            Self::same_game_log_targets(*old(self), *final(self)),
    {
        let k = match self.game_index(game_id) {
            Some(k) => k,
            None => {
                return Err(Error::SystemError(String::from_str("error conceding game")));
            },
        };
        let ghost s0 = *self;
        let g = &self.games[k];
        let row = Game {
            id: g.id,
            created_at: g.created_at,
            updated_at: now,
            game_version_id: g.game_version_id,
            is_finished: true,
            game_state: g.game_state.clone(),
        };
        let out = row.clone();
        self.games.set(k, row);
        proof {
            lemma_wf_pointwise(s0, *self);
        }
        let ghost s = *self;
        let mut i: usize = 0;
        while i < self.game_players.len()
            invariant
                i <= self.game_players@.len(),
                self.game_players@.len() == s.game_players@.len(),
                forall|t: int|
                    0 <= t < s.game_players@.len() && t >= i ==> self.game_players@[t]
                        == s.game_players@[t],
                forall|t: int|
                    0 <= t < i && s.game_players@[t].game_id != game_id ==> self.game_players@[t]
                        == s.game_players@[t],
                forall|t: int|
                    0 <= t < i && s.game_players@[t].game_id == game_id ==> self.game_players@[t]
                        == (GamePlayer {
                        is_turn: false,
                        is_eliminated: s.game_players@[t].id == player_id,
                        is_winner: s.game_players@[t].id != player_id,
                        updated_at: now,
                        ..s.game_players@[t]
                    }),
                self.next_id == s.next_id,
                Self::same_users(s, *self),
                Self::same_user_emails(s, *self),
                Self::same_user_auth_tokens(s, *self),
                Self::same_game_types(s, *self),
                Self::same_game_versions(s, *self),
                Self::same_games(s, *self),
                Self::same_game_logs(s, *self),
                Self::same_game_log_targets(s, *self),
            decreases self.game_players@.len() - i,
        {
            if self.game_players[i].game_id == game_id {
                let p = &self.game_players[i];
                let row = GamePlayer {
                    id: p.id,
                    created_at: p.created_at,
                    updated_at: now,
                    game_id: p.game_id,
                    user_id: p.user_id,
                    position: p.position,
                    color: p.color,
                    has_accepted: p.has_accepted,
                    is_turn: false,
                    is_eliminated: p.id == player_id,
                    is_winner: p.id != player_id,
                    is_read: p.is_read,
                    undo_game_state: clone_opt_string(&p.undo_game_state),
                };
                self.game_players.set(i, row);
            }
            i += 1;
        }
        proof {
            lemma_wf_pointwise(s, *self);
        }
        Ok(out)
    }

    /// Mark the acting user's participant row of a session as read.
    /// Returns `None` when the user holds no seat there.
    pub fn mark_game_read(&mut self, game_id: u64, user_id: u64, now: i64) -> (r: Result<
        Option<GamePlayer>,
        Error,
    >)
        requires
            old(self).wf(),
        ensures
            final(self).wf(),
            r is Ok,
            (r->Ok_0 is Some) <==> old(self).has_player_for(game_id, user_id),
            r->Ok_0 is None ==> Self::unchanged(*old(self), *final(self)),
            r->Ok_0 is Some ==> ({
                &&& final(self).game_players@.len() == old(self).game_players@.len()
                &&& exists|k: int|
                    0 <= k < old(self).game_players@.len() && (#[trigger] old(
                        self,
                    ).game_players@[k]).game_id == game_id && old(self).game_players@[k].user_id
                        == user_id && final(self).game_players@ == old(self).game_players@.update(
                        k,
                        (GamePlayer {
                            is_read: true,
                            updated_at: now,
                            ..old(self).game_players@[k]
                        }),
                    ) && r->Ok_0->0 == final(self).game_players@[k]
                &&& final(self).next_id == old(self).next_id
            }),
            Self::same_users(*old(self), *final(self)),
            Self::same_user_emails(*old(self), *final(self)),
            Self::same_user_auth_tokens(*old(self), *final(self)),
            Self::same_game_types(*old(self), *final(self)),
            Self::same_game_versions(*old(self), *final(self)),
            Self::same_games(*old(self), *final(self)),
            Self::same_game_logs(*old(self), *final(self)),
            Self::same_game_log_targets(*old(self), *final(self)),
    {
        let k = match self.player_index_by_user(game_id, user_id) {
            Some(k) => k,
            None => {
                return Ok(None);
            },
        };
        let ghost s = *self;
        let p = &self.game_players[k];
        let row = GamePlayer {
            id: p.id,
            created_at: p.created_at,
            updated_at: now,
            game_id: p.game_id,
            user_id: p.user_id,
            position: p.position,
            color: p.color,
            has_accepted: p.has_accepted,
            is_turn: p.is_turn,
            is_eliminated: p.is_eliminated,
            is_winner: p.is_winner,
            is_read: true,
            undo_game_state: clone_opt_string(&p.undo_game_state),
        };
        let out = row.clone();
        self.game_players.set(k, row);
        proof {
            lemma_wf_pointwise(s, *self);
        }
        Ok(Some(out))
    }

    /// The log entries of a session that are visible to the public
    /// audience: exactly those whose public flag is set, in ascending
    /// logical-timestamp order.
    pub fn find_public_game_logs_for_game(&self, game_id: u64) -> (r: Vec<GameLog>)
        ensures
            r@.to_multiset() == self.game_logs@.filter(public_logs_pred(game_id)).to_multiset(),
            logs_time_ordered(r@),
    {
        let mut out: Vec<GameLog> = Vec::new();
        let mut i: usize = 0;
        proof {
            reveal(Seq::filter);
            assert(self.game_logs@.take(0) =~= Seq::<GameLog>::empty());
        }
        while i < self.game_logs.len()
            invariant
                i <= self.game_logs@.len(),
                out@ == self.game_logs@.take(i as int).filter(public_logs_pred(game_id)),
            decreases self.game_logs@.len() - i,
        {
            proof {
                lemma_filter_take_step(self.game_logs@, i as int, public_logs_pred(game_id));
            }
            if self.game_logs[i].game_id == game_id && self.game_logs[i].is_public {
                out.push(self.game_logs[i].clone());
            }
            i += 1;
        }
        proof {
            assert(self.game_logs@.take(self.game_logs@.len() as int) =~= self.game_logs@);
        }
        sort_logs_by_time(out)
    }

    /// The log entries of a participant's session that are visible to that
    /// participant: the public ones, and the private ones targeted at their
    /// seat, in ascending logical-timestamp order. Fails when the
    /// participant does not exist.
    pub fn find_game_logs_for_player(&self, game_player_id: u64) -> (r: Result<Vec<GameLog>, Error>)
        ensures
            r is Ok <==> self.has_game_player(game_player_id),
            r is Err ==> r->Err_0 is SystemError,
            r is Ok ==> exists|k: int|
                0 <= k < self.game_players@.len() && (#[trigger] self.game_players@[k]).id
                    == game_player_id && r->Ok_0@.to_multiset() == self.game_logs@.filter(
                    self.player_logs_pred(self.game_players@[k].game_id, game_player_id),
                ).to_multiset(),
            r is Ok ==> logs_time_ordered(r->Ok_0@),
    {
        let k = match self.game_player_index(game_player_id) {
            Some(k) => k,
            None => {
                return Err(Error::SystemError(String::from_str("error finding game logs")));
            },
        };
        let gid = self.game_players[k].game_id;
        let ghost pred = self.player_logs_pred(gid, game_player_id);
        let mut out: Vec<GameLog> = Vec::new();
        let mut i: usize = 0;
        proof {
            reveal(Seq::filter);
            assert(self.game_logs@.take(0) =~= Seq::<GameLog>::empty());
        }
        while i < self.game_logs.len()
            invariant
                i <= self.game_logs@.len(),
                pred == self.player_logs_pred(gid, game_player_id),
                out@ == self.game_logs@.take(i as int).filter(pred),
            decreases self.game_logs@.len() - i,
        {
            proof {
                lemma_filter_take_step(self.game_logs@, i as int, pred);
            }
            if self.game_logs[i].game_id == gid && (self.game_logs[i].is_public
                || self.is_log_targeted(self.game_logs[i].id, game_player_id)) {
                out.push(self.game_logs[i].clone());
            }
            i += 1;
        }
        proof {
            assert(self.game_logs@.take(self.game_logs@.len() as int) =~= self.game_logs@);
        }
        Ok(sort_logs_by_time(out))
    }

    /// The joined session `ge` agrees with the store's tables: its rows are
    /// stored, its ruleset and game type are the session's own, and its
    /// participant list is exactly the session's roster in seat order, each
    /// seat joined with its user.
    pub open spec fn game_extended_linked(self, ge: GameExtended) -> bool {
        let id = ge.game.id;
        &&& exists|k: int| 0 <= k < self.games@.len() && (#[trigger] self.games@[k]) == ge.game
        &&& ge.game_version.id == ge.game.game_version_id
        &&& exists|k: int|
            0 <= k < self.game_versions@.len() && (#[trigger] self.game_versions@[k])
                == ge.game_version
        &&& ge.game_type.id == ge.game_version.game_type_id
        &&& exists|k: int|
            0 <= k < self.game_types@.len() && (#[trigger] self.game_types@[k]) == ge.game_type
        &&& ge.game_players@.len() == self.game_players@.filter(players_pred(id)).len()
        &&& forall|k: int|
            0 <= k < ge.game_players@.len() ==> (#[trigger] ge.game_players@[k]).0
                == self.game_players@.filter(players_pred(id))[k]
        &&& forall|k: int|
            0 <= k < ge.game_players@.len() ==> (#[trigger] ge.game_players@[k]).1.id
                == ge.game_players@[k].0.user_id && exists|w: int|
                0 <= w < self.users@.len() && (#[trigger] self.users@[w]).id
                    == ge.game_players@[k].0.user_id && user_equal(
                    ge.game_players@[k].1,
                    self.users@[w],
                )
    }

    /// A session joined with everything a view of it needs: its ruleset,
    /// its game type, and its participants with their users, in seat order.
    pub fn find_game_extended(&self, id: u64) -> (r: Result<GameExtended, Error>)
        requires
            self.wf(),
        ensures
            r is Ok <==> self.has_game(id),
            r is Err ==> r->Err_0 is SystemError,
            r is Ok ==> r->Ok_0.game.id == id && self.game_extended_linked(r->Ok_0),
    {
        let (game, game_version) = match self.find_game_with_version(id) {
            Some(v) => v,
            None => {
                return Err(Error::SystemError(String::from_str("error finding game")));
            },
        };
        let game_type = match self.game_type_index(game_version.game_type_id) {
            Some(tk) => self.game_types[tk].clone(),
            None => {
                proof {
                    let w = choose|w: int|
                        0 <= w < self.game_versions@.len() && (#[trigger] self.game_versions@[w])
                            == game_version;
                    assert(self.has_game_type(self.game_versions@[w].game_type_id));
                }
                vstd::pervasive::unreached()
            },
        };
        let game_players = self.find_game_players_with_user_by_game(id);
        Ok(GameExtended { game, game_type, game_version, game_players })
    }

    /// The authentication tokens of the given users that are still valid
    /// at `now`, in storage order.
    pub fn find_valid_user_auth_tokens_for_users(&self, user_ids: &Vec<u64>, now: i64) -> (r: Vec<
        UserAuthToken,
    >)
        ensures
            r@ == self.user_auth_tokens@.filter(valid_tokens_pred(user_ids@, now)),
    {
        let ghost pred = valid_tokens_pred(user_ids@, now);
        let mut out: Vec<UserAuthToken> = Vec::new();
        let mut i: usize = 0;
        proof {
            reveal(Seq::filter);
            assert(self.user_auth_tokens@.take(0) =~= Seq::<UserAuthToken>::empty());
        }
        while i < self.user_auth_tokens.len()
            invariant
                i <= self.user_auth_tokens@.len(),
                pred == valid_tokens_pred(user_ids@, now),
                out@ == self.user_auth_tokens@.take(i as int).filter(pred),
            decreases self.user_auth_tokens@.len() - i,
        {
            proof {
                lemma_filter_take_step(self.user_auth_tokens@, i as int, pred);
            }
            let t = &self.user_auth_tokens[i];
            if Self::contains_id(user_ids, t.user_id) && token_valid_at(t.created_at, now) {
                out.push(self.user_auth_tokens[i].clone());
            }
            i += 1;
        }
        proof {
            assert(self.user_auth_tokens@.take(self.user_auth_tokens@.len() as int)
                =~= self.user_auth_tokens@);
        }
        out
    }

    /// User `uid` has a primary email row.
    pub open spec fn has_primary_email(self, uid: u64) -> bool {
        exists|i: int|
            0 <= i < self.user_emails@.len() && (#[trigger] self.user_emails@[i]).user_id == uid
                && self.user_emails@[i].is_primary
    }

    fn primary_email_index(&self, uid: u64) -> (r: Option<usize>)
        ensures
            match r {
                Some(k) => k < self.user_emails@.len() && self.user_emails@[k as int].user_id
                    == uid && self.user_emails@[k as int].is_primary,
                None => !self.has_primary_email(uid),
            },
    {
        let mut i: usize = 0;
        while i < self.user_emails.len()
            invariant
                i <= self.user_emails@.len(),
                forall|j: int|
                    0 <= j < i ==> !((#[trigger] self.user_emails@[j]).user_id == uid
                        && self.user_emails@[j].is_primary),
            decreases self.user_emails@.len() - i,
        {
            if self.user_emails[i].user_id == uid && self.user_emails[i].is_primary {
                return Some(i);
            }
            i += 1;
        }
        None
    }

    /// A user's primary email row, joined with the user.
    pub fn find_user_with_primary_email(&self, find_user_id: u64) -> (r: Option<(UserEmail, User)>)
        requires
            self.wf(),
        ensures
            r is Some <==> self.has_primary_email(find_user_id),
            r is Some ==> ({
                let ue = (r->0).0;
                let u = (r->0).1;
                &&& ue.user_id == find_user_id
                &&& ue.is_primary
                &&& u.id == find_user_id
                &&& exists|i: int|
                    0 <= i < self.user_emails@.len() && (#[trigger] self.user_emails@[i]) == ue
                &&& exists|k: int|
                    0 <= k < self.users@.len() && (#[trigger] self.users@[k]).id == find_user_id
                        && user_equal(u, self.users@[k])
            }),
    {
        match self.primary_email_index(find_user_id) {
            Some(k) => {
                let ue = self.user_emails[k].clone();
                match self.user_index(ue.user_id) {
                    Some(uk) => Some((ue, self.users[uk].clone())),
                    None => {
                        proof {
                            assert(self.has_user(self.user_emails@[k as int].user_id));
                        }
                        vstd::pervasive::unreached()
                    },
                }
            },
            None => None,
        }
    }

    /// The user owning an email address, returned with their primary email
    /// row. `Ok(None)` when nobody owns the address; fails when the owner
    /// has no primary email.
    pub fn find_user_with_primary_email_by_email(&self, search_email: &String) -> (r: Result<
        Option<(UserEmail, User)>,
        Error,
    >)
        requires
            self.wf(),
        ensures
            r is Err ==> r->Err_0 is SystemError && self.has_user_email(search_email@)
                && exists|i: int|
                    0 <= i < self.user_emails@.len() && (#[trigger] self.user_emails@[i]).email@
                        == search_email@ && !self.has_primary_email(self.user_emails@[i].user_id),
            r is Ok ==> ((r->Ok_0 is Some) <==> self.has_user_email(search_email@)
                && exists|i: int|
                    0 <= i < self.user_emails@.len() && (#[trigger] self.user_emails@[i]).email@
                        == search_email@ && self.has_primary_email(self.user_emails@[i].user_id)),
            r is Ok && r->Ok_0 is None ==> !self.has_user_email(search_email@),
            r is Ok && r->Ok_0 is Some ==> ({
                let ue = (r->Ok_0->0).0;
                let u = (r->Ok_0->0).1;
                &&& ue.is_primary
                &&& u.id == ue.user_id
                &&& exists|i: int|
                    0 <= i < self.user_emails@.len() && (#[trigger] self.user_emails@[i]).email@
                        == search_email@ && self.user_emails@[i].user_id == ue.user_id
                &&& exists|i: int|
                    0 <= i < self.user_emails@.len() && (#[trigger] self.user_emails@[i]) == ue
                &&& exists|k: int|
                    0 <= k < self.users@.len() && (#[trigger] self.users@[k]).id == ue.user_id
                        && user_equal(u, self.users@[k])
            }),
    {
        let k = match self.email_index(search_email) {
            Some(k) => k,
            None => {
                return Ok(None);
            },
        };
        let uid = self.user_emails[k].user_id;
        match self.find_user_with_primary_email(uid) {
            Some(v) => Ok(Some(v)),
            None => {
                proof {
                    assert(self.user_emails@[k as int].email@ == search_email@);
                }
                Err(Error::SystemError(String::from_str("error finding user")))
            },
        }
    }

    /// Store a fresh login confirmation code for a user, issued at `now`.
    /// Fails when the user does not exist.
    pub fn generate_user_login_confirmation(&mut self, user_id: u64, now: i64) -> (r: Result<
        u64,
        Error,
    >)
        requires
            old(self).wf(),
        ensures
            final(self).wf(),
            r is Ok <==> old(self).has_user(user_id),
            r is Err ==> Self::unchanged(*old(self), *final(self)) && r->Err_0 is SystemError,
            r is Ok ==> ({
                &&& 100000 <= r->Ok_0 <= 999999
                &&& final(self).users@.len() == old(self).users@.len()
                &&& exists|k: int|
                    0 <= k < old(self).users@.len() && (#[trigger] old(self).users@[k]).id
                        == user_id && confirmation_set(
                        old(self).users@[k],
                        final(self).users@[k],
                        r->Ok_0,
                        now,
                    ) && (forall|i: int|
                        0 <= i < old(self).users@.len() && i != k ==> final(self).users@[i] == old(
                            self,
                        ).users@[i])
                &&& final(self).next_id == old(self).next_id
            }),
            Self::same_user_emails(*old(self), *final(self)),
            Self::same_user_auth_tokens(*old(self), *final(self)),
            Self::same_game_types(*old(self), *final(self)),
            Self::same_game_versions(*old(self), *final(self)),
            Self::same_games(*old(self), *final(self)),
            Self::same_game_players(*old(self), *final(self)),
            Self::same_game_logs(*old(self), *final(self)),
            Self::same_game_log_targets(*old(self), *final(self)),
    {
        let k = match self.user_index(user_id) {
            Some(k) => k,
            None => {
                return Err(Error::SystemError(String::from_str("error generating confirmation")));
            },
        };
        let code = rand_code();
        let ghost s = *self;
        let u = &self.users[k];
        let row = User {
            id: u.id,
            created_at: u.created_at,
            updated_at: u.updated_at,
            name: u.name.clone(),
            pref_colors: clone_colors(&u.pref_colors),
            login_confirmation: Some(code),
            login_confirmation_at: Some(now),
        };
        self.users.set(k, row);
        proof {
            assert(user_equal(self.users@[k as int], self.users@[k as int]));
            assert forall|i: int| 0 <= i < self.users@.len() implies (#[trigger] self.users@[i]).id
                == s.users@[i].id by {
                if i != k as int {
                    assert(self.users@[i] == s.users@[i]);
                }
            }
            lemma_has_preserved_pointwise(s, *self);
            lemma_has_preserved_pointwise(*self, s);
            assert forall|i: int, j: int| 0 <= i < j < self.users@.len() implies self.users@[i].id
                != self.users@[j].id by {
                assert(s.users@[i].id != s.users@[j].id);
            }
            assert forall|i: int| 0 <= i < self.users@.len() implies (#[trigger] self.users@[i]).id
                < self.next_id by {
                assert(s.users@[i].id < s.next_id);
            }
        }
        Ok(code)
    }

    /// Some email row matches `e` and its owner holds the login
    /// confirmation `code`, still current at `now`.
    pub open spec fn confirmation_for_email(self, e: Seq<char>, code: u64, now: i64) -> bool {
        exists|i: int, k: int|
            0 <= i < self.user_emails@.len() && (#[trigger] self.user_emails@[i]).email@ == e && 0
                <= k < self.users@.len() && (#[trigger] self.users@[k]).id
                == self.user_emails@[i].user_id && self.users@[k].login_confirmation == Some(code)
                && self.users@[k].login_confirmation_at is Some && confirmation_current(
                self.users@[k].login_confirmation_at->0,
                now,
            )
    }

    /// Hand out a login confirmation code for the owner of an email
    /// address, creating the user when the address is unknown. A stored
    /// code that is still current is reused, and the store is then left
    /// untouched; otherwise a fresh code is generated and persisted
    /// together with its issue time.
    pub fn user_login_request(&mut self, email: &String, now: i64) -> (r: Result<u64, Error>)
        requires
            old(self).wf(),
            old(self).next_id < u64::MAX - 1,
        ensures
            final(self).wf(),
            r is Ok,
            final(self).confirmation_for_email(email@, r->Ok_0, now),
            old(self).next_id <= final(self).next_id,
            final(self).next_id as int <= old(self).next_id as int + 2,
            (exists|c: u64| old(self).confirmation_for_email(email@, c, now))
                ==> Self::unchanged(*old(self), *final(self)),
            forall|c: u64|
                old(self).confirmation_for_email(email@, c, now) ==> r->Ok_0 == c,
            (forall|c: u64| !old(self).confirmation_for_email(email@, c, now)) ==> exists|
                i: int,
                k: int,
            |
                0 <= i < final(self).user_emails@.len()
                    && (#[trigger] final(self).user_emails@[i]).email@ == email@
                    && 0 <= k < final(self).users@.len()
                    && (#[trigger] final(self).users@[k]).id == final(self).user_emails@[i].user_id
                    && final(self).users@[k].login_confirmation == Some(r->Ok_0)
                    && final(self).users@[k].login_confirmation_at == Some(now),
            Self::same_user_auth_tokens(*old(self), *final(self)),
            Self::same_game_types(*old(self), *final(self)),
            Self::same_game_versions(*old(self), *final(self)),
            Self::same_games(*old(self), *final(self)),
            Self::same_game_players(*old(self), *final(self)),
            Self::same_game_logs(*old(self), *final(self)),
            Self::same_game_log_targets(*old(self), *final(self)),
    {
        let (ue, u) = match self.find_or_create_user_by_email(email, now) {
            Ok(v) => v,
            Err(_) => vstd::pervasive::unreached(),
        };
        let reuse: Option<u64> = match (u.login_confirmation, u.login_confirmation_at) {
            (Some(uc), Some(at)) => if confirmation_current_at(at, now) {
                Some(uc)
            } else {
                None
            },
            _ => None,
        };
        match reuse {
            Some(code) => {
                proof {
                    let i = choose|i: int|
                        0 <= i < self.user_emails@.len() && (#[trigger] self.user_emails@[i]) == ue;
                    let k = choose|k: int|
                        0 <= k < self.users@.len() && (#[trigger] self.users@[k]).id == ue.user_id
                            && user_equal(u, self.users@[k]);
                    assert(self.user_emails@[i].email@ == email@);
                    assert(self.users@[k].login_confirmation == Some(code));
                    assert(old(self).has_user_email(email@)) by {
                        if !old(self).has_user_email(email@) {
                            assert(u.login_confirmation is None);
                        }
                    }
                    assert(Self::unchanged(*old(self), *self));
                    assert(old(self).users@ == self.users@);
                    assert(old(self).user_emails@ == self.user_emails@);
                    assert(old(self).confirmation_for_email(email@, code, now)) by {
                        assert(old(self).user_emails@[i].email@ == email@);
                        assert(old(self).users@[k].id == old(self).user_emails@[i].user_id);
                        assert(old(self).users@[k].login_confirmation_at == u.login_confirmation_at);
                    }
                    assert forall|c: u64|
                        old(self).confirmation_for_email(email@, c, now) implies code == c by {
                        let (i2, k2): (int, int) = choose|i2: int, k2: int|
                            0 <= i2 < old(self).user_emails@.len() && (#[trigger] old(
                                self,
                            ).user_emails@[i2]).email@ == email@ && 0 <= k2 < old(self).users@.len()
                                && (#[trigger] old(self).users@[k2]).id == old(
                                self,
                            ).user_emails@[i2].user_id && old(self).users@[k2].login_confirmation
                                == Some(c) && old(self).users@[k2].login_confirmation_at is Some
                                && confirmation_current(
                                old(self).users@[k2].login_confirmation_at->0,
                                now,
                            );
                        assert(i2 == i) by {
                            if i2 < i {
                                assert(old(self).user_emails@[i2].email@ != old(
                                    self,
                                ).user_emails@[i].email@);
                            } else if i < i2 {
                                assert(old(self).user_emails@[i].email@ != old(
                                    self,
                                ).user_emails@[i2].email@);
                            }
                        }
                        assert(k2 == k) by {
                            if k2 < k {
                                assert(old(self).users@[k2].id != old(self).users@[k].id);
                            } else if k < k2 {
                                assert(old(self).users@[k].id != old(self).users@[k2].id);
                            }
                        }
                    }
                }
                Ok(code)
            },
            None => {
                proof {
                    let k = choose|k: int|
                        0 <= k < self.users@.len() && (#[trigger] self.users@[k]).id == ue.user_id
                            && user_equal(u, self.users@[k]);
                    assert(self.has_user(u.id));
                }
                let ghost mid = *self;
                proof {
                    assert forall|c: u64| !old(self).confirmation_for_email(email@, c, now) by {
                        if old(self).confirmation_for_email(email@, c, now) {
                            let (i2, k2): (int, int) = choose|i2: int, k2: int|
                                0 <= i2 < old(self).user_emails@.len() && (#[trigger] old(
                                    self,
                                ).user_emails@[i2]).email@ == email@ && 0 <= k2 < old(
                                    self,
                                ).users@.len() && (#[trigger] old(self).users@[k2]).id == old(
                                    self,
                                ).user_emails@[i2].user_id && old(
                                    self,
                                ).users@[k2].login_confirmation == Some(c) && old(
                                    self,
                                ).users@[k2].login_confirmation_at is Some && confirmation_current(
                                    old(self).users@[k2].login_confirmation_at->0,
                                    now,
                                );
                            assert(old(self).has_user_email(email@));
                            assert(Self::unchanged(*old(self), mid));
                            assert(old(self).user_emails@ == mid.user_emails@);
                            assert(old(self).users@ == mid.users@);
                            let im = choose|im: int|
                                0 <= im < mid.user_emails@.len() && (
                                #[trigger] mid.user_emails@[im]) == ue;
                            let km = choose|km: int|
                                0 <= km < mid.users@.len() && (#[trigger] mid.users@[km]).id
                                    == ue.user_id && user_equal(u, mid.users@[km]);
                            assert(i2 == im) by {
                                if i2 < im {
                                    assert(old(self).user_emails@[i2].email@ != old(
                                        self,
                                    ).user_emails@[im].email@);
                                } else if im < i2 {
                                    assert(old(self).user_emails@[im].email@ != old(
                                        self,
                                    ).user_emails@[i2].email@);
                                }
                            }
                            assert(k2 == km) by {
                                if k2 < km {
                                    assert(old(self).users@[k2].id != old(self).users@[km].id);
                                } else if km < k2 {
                                    assert(old(self).users@[km].id != old(self).users@[k2].id);
                                }
                            }
                            assert(u.login_confirmation == Some(c));
                            assert(u.login_confirmation_at == old(
                                self,
                            ).users@[k2].login_confirmation_at);
                            assert(false);
                        }
                    }
                }
                match self.generate_user_login_confirmation(u.id, now) {
                    Ok(code) => {
                        proof {
                            let i = choose|i: int|
                                0 <= i < mid.user_emails@.len() && (#[trigger] mid.user_emails@[i])
                                    == ue;
                            let k = choose|k: int|
                                0 <= k < mid.users@.len() && (#[trigger] mid.users@[k]).id
                                    == u.id && confirmation_set(
                                    mid.users@[k],
                                    self.users@[k],
                                    code,
                                    now,
                                ) && (forall|t: int|
                                    0 <= t < mid.users@.len() && t != k ==> self.users@[t]
                                        == mid.users@[t]);
                            assert(self.user_emails@[i].email@ == email@);
                            assert(self.user_emails@[i].user_id == u.id);
                            assert(self.users@[k].id == u.id);
                            assert(self.users@[k].login_confirmation == Some(code));
                            assert(self.users@[k].login_confirmation_at == Some(now));
                        }
                        Ok(code)
                    },
                    Err(_) => vstd::pervasive::unreached(),
                }
            },
        }
    }

    /// Some email row matches `e`, and its owner's stored confirmation is
    /// `code` and still current at `now`.
    pub open spec fn login_confirmable(self, e: Seq<char>, code: u64, now: i64) -> bool {
        self.confirmation_for_email(e, code, now)
    }

    /// Exchange a login confirmation code for a fresh authentication
    /// token. `Ok(None)` when the address is unknown, the code does not
    /// match, or the stored confirmation has expired.
    pub fn user_login_confirm(&mut self, email: &String, confirmation: u64, now: i64) -> (r: Result<
        Option<UserAuthToken>,
        Error,
    >)
        requires
            old(self).wf(),
            old(self).next_id < u64::MAX,
        ensures
            final(self).wf(),
            r is Ok,
            (r->Ok_0 is Some) <==> old(self).login_confirmable(email@, confirmation, now),
            r->Ok_0 is None ==> Self::unchanged(*old(self), *final(self)),
            r->Ok_0 is Some ==> ({
                let t = r->Ok_0->0;
                &&& final(self).user_auth_tokens@ == old(self).user_auth_tokens@.push(t)
                &&& t.created_at == now
                &&& exists|i: int|
                    0 <= i < old(self).user_emails@.len() && (#[trigger] old(
                        self,
                    ).user_emails@[i]).email@ == email@ && old(self).user_emails@[i].user_id
                        == t.user_id
            }),
            Self::same_users(*old(self), *final(self)),
            Self::same_user_emails(*old(self), *final(self)),
            Self::same_game_types(*old(self), *final(self)),
            Self::same_game_versions(*old(self), *final(self)),
            Self::same_games(*old(self), *final(self)),
            Self::same_game_players(*old(self), *final(self)),
            Self::same_game_logs(*old(self), *final(self)),
            Self::same_game_log_targets(*old(self), *final(self)),
    {
        let (ue, u) = match self.find_user_by_email(email) {
            Some(v) => v,
            None => {
                return Ok(None);
            },
        };
        let ghost s = *self;
        let matched: bool = match (u.login_confirmation, u.login_confirmation_at) {
            (Some(uc), Some(at)) => uc == confirmation && confirmation_current_at(at, now),
            _ => false,
        };
        proof {
            let fi = choose|i: int|
                0 <= i < s.user_emails@.len() && (#[trigger] s.user_emails@[i]) == ue;
            let fk = choose|k: int|
                0 <= k < s.users@.len() && (#[trigger] s.users@[k]).id == ue.user_id && user_equal(
                    u,
                    s.users@[k],
                );
            if matched {
                assert(s.user_emails@[fi].email@ == email@);
                assert(s.users@[fk].login_confirmation == Some(confirmation));
                assert(s.login_confirmable(email@, confirmation, now));
            } else {
                if s.login_confirmable(email@, confirmation, now) {
                    let (i, k): (int, int) = choose|i: int, k: int|
                        0 <= i < s.user_emails@.len() && (#[trigger] s.user_emails@[i]).email@
                            == email@ && 0 <= k < s.users@.len() && (#[trigger] s.users@[k]).id
                            == s.user_emails@[i].user_id && s.users@[k].login_confirmation == Some(
                            confirmation,
                        ) && s.users@[k].login_confirmation_at is Some && confirmation_current(
                            s.users@[k].login_confirmation_at->0,
                            now,
                        );
                    assert(s.user_emails@[i].email@ == s.user_emails@[fi].email@);
                    assert(i == fi);
                    assert(s.users@[k].id == s.users@[fk].id);
                    assert(k == fk);
                    assert(false);
                }
            }
        }
        if !matched {
            return Ok(None);
        }
        proof {
            let fk = choose|k: int|
                0 <= k < s.users@.len() && (#[trigger] s.users@[k]).id == ue.user_id && user_equal(
                    u,
                    s.users@[k],
                );
            assert(self.has_user(u.id));
        }
        match self.create_auth_token(u.id, now) {
            Ok(t) => {
                proof {
                    let fi = choose|i: int|
                        0 <= i < s.user_emails@.len() && (#[trigger] s.user_emails@[i]) == ue;
                    assert(s.user_emails@[fi].email@ == email@);
                    assert(s.user_emails@[fi].user_id == t.user_id);
                }
                Ok(Some(t))
            },
            Err(_) => vstd::pervasive::unreached(),
        }
    }

    /// A valid token with identifier `tok` exists whose user owns an email
    /// row matching `e`.
    pub open spec fn auth_match(self, e: Seq<char>, tok: u64, now: i64) -> bool {
        exists|t: int, i: int|
            0 <= t < self.user_auth_tokens@.len() && (#[trigger] self.user_auth_tokens@[t]).id
                == tok && token_valid(self.user_auth_tokens@[t].created_at, now) && 0 <= i
                < self.user_emails@.len() && (#[trigger] self.user_emails@[i]).email@ == e
                && self.user_emails@[i].user_id == self.user_auth_tokens@[t].user_id
    }

    fn token_index(&self, id: u64) -> (r: Option<usize>)
        ensures
            match r {
                Some(k) => k < self.user_auth_tokens@.len() && self.user_auth_tokens@[k as int].id
                    == id,
                None => forall|j: int|
                    0 <= j < self.user_auth_tokens@.len() ==> (#[trigger] self.user_auth_tokens@[j]).id
                        != id,
            },
    {
        let mut i: usize = 0;
        while i < self.user_auth_tokens.len()
            invariant
                i <= self.user_auth_tokens@.len(),
                forall|j: int| 0 <= j < i ==> (#[trigger] self.user_auth_tokens@[j]).id != id,
            decreases self.user_auth_tokens@.len() - i,
        {
            if self.user_auth_tokens[i].id == id {
                return Some(i);
            }
            i += 1;
        }
        None
    }

    /// Authenticate a request: the bearer of a valid token, presenting an
    /// email address owned by the token's user, is that user.
    pub fn authenticate(&self, search_email: &String, search_token: u64, now: i64) -> (r: Option<
        (UserEmail, User),
    >)
        requires
            self.wf(),
        ensures
            r is Some <==> self.auth_match(search_email@, search_token, now),
            r is Some ==> ({
                let ue = (r->0).0;
                let u = (r->0).1;
                &&& ue.email@ == search_email@
                &&& u.id == ue.user_id
                &&& exists|i: int|
                    0 <= i < self.user_emails@.len() && (#[trigger] self.user_emails@[i]) == ue
                &&& exists|k: int|
                    0 <= k < self.users@.len() && (#[trigger] self.users@[k]).id == ue.user_id
                        && user_equal(u, self.users@[k])
                &&& exists|t: int|
                    0 <= t < self.user_auth_tokens@.len() && (#[trigger] self.user_auth_tokens@[t]).id
                        == search_token && self.user_auth_tokens@[t].user_id == ue.user_id
                        && token_valid(self.user_auth_tokens@[t].created_at, now)
            }),
    {
        let tk = match self.token_index(search_token) {
            Some(tk) => tk,
            None => {
                return None;
            },
        };
        let token_user = self.user_auth_tokens[tk].user_id;
        if !token_valid_at(self.user_auth_tokens[tk].created_at, now) {
            proof {
                if self.auth_match(search_email@, search_token, now) {
                    let (t, i): (int, int) = choose|t: int, i: int|
                        0 <= t < self.user_auth_tokens@.len() && (#[trigger] self.user_auth_tokens@[t]).id
                            == search_token && token_valid(
                            self.user_auth_tokens@[t].created_at,
                            now,
                        ) && 0 <= i < self.user_emails@.len() && (#[trigger] self.user_emails@[i]).email@
                            == search_email@ && self.user_emails@[i].user_id
                            == self.user_auth_tokens@[t].user_id;
                    assert(self.user_auth_tokens@[t].id == self.user_auth_tokens@[tk as int].id);
                    assert(t == tk as int);
                    assert(false);
                }
            }
            return None;
        }
        let mut i: usize = 0;
        while i < self.user_emails.len()
            invariant
                self.wf(),
                i <= self.user_emails@.len(),
                tk < self.user_auth_tokens@.len(),
                self.user_auth_tokens@[tk as int].id == search_token,
                token_user == self.user_auth_tokens@[tk as int].user_id,
                token_valid(self.user_auth_tokens@[tk as int].created_at, now),
                forall|j: int|
                    0 <= j < i ==> !((#[trigger] self.user_emails@[j]).email@ == search_email@
                        && self.user_emails@[j].user_id == token_user),
            decreases self.user_emails@.len() - i,
        {
            if self.user_emails[i].email == *search_email && self.user_emails[i].user_id
                == token_user {
                let ue = self.user_emails[i].clone();
                match self.user_index(ue.user_id) {
                    Some(uk) => {
                        proof {
                            assert(self.user_auth_tokens@[tk as int].id == search_token);
                            assert(self.user_emails@[i as int].email@ == search_email@);
                            assert(self.user_emails@[i as int].user_id == self.user_auth_tokens@[
                                tk as int
                            ].user_id);
                            assert(self.auth_match(search_email@, search_token, now));
                            assert(self.users@[uk as int].id == ue.user_id);
                        }
                        return Some((ue, self.users[uk].clone()));
                    },
                    None => {
                        proof {
                            assert(self.has_user(self.user_emails@[i as int].user_id));
                        }
                        vstd::pervasive::unreached()
                    },
                }
            }
            i += 1;
        }
        proof {
            if self.auth_match(search_email@, search_token, now) {
                let (t, i): (int, int) = choose|t: int, i: int|
                    0 <= t < self.user_auth_tokens@.len() && (#[trigger] self.user_auth_tokens@[t]).id
                        == search_token && token_valid(self.user_auth_tokens@[t].created_at, now)
                        && 0 <= i < self.user_emails@.len() && (#[trigger] self.user_emails@[i]).email@
                        == search_email@ && self.user_emails@[i].user_id
                        == self.user_auth_tokens@[t].user_id;
                assert(self.user_auth_tokens@[t].id == self.user_auth_tokens@[tk as int].id);
                assert(t == tk as int);
                assert(false);
            }
        }
        None
    }

    /// Resolve the opponents of a new session: each identifier must name a
    /// user with a primary email; each email address resolves to its owner
    /// or to a freshly created user. All-or-nothing: on failure the store
    /// is untouched.
    pub fn create_game_users(&mut self, ids: &Vec<u64>, emails: &Vec<String>, now: i64) -> (r:
        Result<Vec<(UserEmail, User)>, Error>)
        requires
            old(self).wf(),
            old(self).next_id as int + 2 * emails@.len() <= u64::MAX as int,
        ensures
            final(self).wf(),
            r is Err ==> Self::unchanged(*old(self), *final(self)),
            r is Ok <==> (forall|t: int|
                0 <= t < ids@.len() ==> old(self).has_primary_email(#[trigger] ids@[t])) && (forall|
                j: int,
                i: int,
            |
                0 <= j < emails@.len() && 0 <= i < old(self).user_emails@.len() && (#[trigger] old(
                    self,
                ).user_emails@[i]).email@ == (#[trigger] emails@[j])@ ==> old(
                    self,
                ).has_primary_email(old(self).user_emails@[i].user_id)),
            r is Ok ==> ({
                let v = r->Ok_0;
                &&& v@.len() == ids@.len() + emails@.len()
                &&& forall|t: int|
                    0 <= t < ids@.len() ==> (#[trigger] v@[t]).1.id == ids@[t]
                &&& forall|t: int|
                    0 <= t < v@.len() ==> (#[trigger] v@[t]).1.id == v@[t].0.user_id
                        && final(self).has_user(v@[t].1.id)
                &&& forall|t: int| 0 <= t < v@.len() ==> (#[trigger] v@[t]).0.is_primary
                &&& forall|j: int|
                    #![trigger emails@[j]]
                    0 <= j < emails@.len() ==> final(self).email_resolves_to(
                        emails@[j]@,
                        v@[ids@.len() + j].1.id,
                    )
                &&& forall|j: int, i: int|
                    0 <= j < emails@.len() && 0 <= i < old(self).user_emails@.len() && (
                    #[trigger] old(self).user_emails@[i]).email@ == (#[trigger] emails@[j])@
                        ==> v@[ids@.len() + j].1.id == old(self).user_emails@[i].user_id
                &&& final(self).users@.len() >= old(self).users@.len()
                &&& forall|t: int|
                    0 <= t < old(self).users@.len() ==> final(self).users@[t] == old(
                        self,
                    ).users@[t]
                &&& final(self).next_id >= old(self).next_id
                &&& final(self).next_id as int <= old(self).next_id as int + 2 * emails@.len()
            }),
            Self::same_user_auth_tokens(*old(self), *final(self)),
            Self::same_game_types(*old(self), *final(self)),
            Self::same_game_versions(*old(self), *final(self)),
            Self::same_games(*old(self), *final(self)),
            Self::same_game_players(*old(self), *final(self)),
            Self::same_game_logs(*old(self), *final(self)),
            Self::same_game_log_targets(*old(self), *final(self)),
    {
        let mut t: usize = 0;
        while t < ids.len()
            invariant
                *self == *old(self),
                t <= ids@.len(),
                self.wf(),
                forall|tt: int| 0 <= tt < t ==> self.has_primary_email(#[trigger] ids@[tt]),
            decreases ids@.len() - t,
        {
            if self.primary_email_index(ids[t]).is_none() {
                return Err(Error::SystemError(String::from_str("unable to find user")));
            }
            t += 1;
        }
        let mut j: usize = 0;
        while j < emails.len()
            invariant
                *self == *old(self),
                j <= emails@.len(),
                self.wf(),
                forall|jj: int, i: int|
                    0 <= jj < j && 0 <= i < self.user_emails@.len()
                        && (#[trigger] self.user_emails@[i]).email@ == (#[trigger] emails@[jj])@
                        ==> self.has_primary_email(self.user_emails@[i].user_id),
            decreases emails@.len() - j,
        {
            match self.email_index(&emails[j]) {
                Some(k) => {
                    let owner = self.user_emails[k].user_id;
                    if self.primary_email_index(owner).is_none() {
                        proof {
                            assert(self.user_emails@[k as int].email@ == emails@[j as int]@);
                        }
                        return Err(Error::SystemError(String::from_str("error finding user")));
                    }
                    proof {
                        assert forall|i: int|
                            0 <= i < self.user_emails@.len()
                                && (#[trigger] self.user_emails@[i]).email@ == emails@[j as int]@
                            implies self.has_primary_email(self.user_emails@[i].user_id) by {
                            assert(i == k as int);
                        }
                    }
                },
                None => {},
            }
            j += 1;
        }
        let ghost s = *self;
        let mut users: Vec<(UserEmail, User)> = Vec::new();
        let mut t: usize = 0;
        while t < ids.len()
            invariant
                *self == *old(self),
                s == *old(self),
                t <= ids@.len(),
                self.wf(),
                forall|tt: int| 0 <= tt < ids@.len() ==> s.has_primary_email(#[trigger] ids@[tt]),
                users@.len() == t,
                forall|tt: int| 0 <= tt < t ==> (#[trigger] users@[tt]).1.id == ids@[tt],
                forall|tt: int|
                    0 <= tt < t ==> (#[trigger] users@[tt]).1.id == users@[tt].0.user_id
                        && self.has_user(users@[tt].1.id),
                forall|tt: int| 0 <= tt < t ==> (#[trigger] users@[tt]).0.is_primary,
            decreases ids@.len() - t,
        {
            match self.find_user_with_primary_email(ids[t]) {
                Some(v) => {
                    users.push(v);
                },
                None => vstd::pervasive::unreached(),
            }
            t += 1;
        }
        let mut j: usize = 0;
        while j < emails.len()
            invariant
                j <= emails@.len(),
                self.wf(),
                s == *old(self),
                s.next_id as int + 2 * emails@.len() <= u64::MAX as int,
                self.next_id as int <= s.next_id as int + 2 * j,
                forall|jj: int, i: int|
                    0 <= jj < emails@.len() && 0 <= i < s.user_emails@.len()
                        && (#[trigger] s.user_emails@[i]).email@ == (#[trigger] emails@[jj])@
                        ==> s.has_primary_email(s.user_emails@[i].user_id),
                users@.len() == ids@.len() + j,
                forall|tt: int| 0 <= tt < ids@.len() ==> (#[trigger] users@[tt]).1.id == ids@[tt],
                forall|tt: int|
                    0 <= tt < users@.len() ==> (#[trigger] users@[tt]).1.id == users@[tt].0.user_id
                        && self.has_user(users@[tt].1.id),
                forall|tt: int| 0 <= tt < users@.len() ==> (#[trigger] users@[tt]).0.is_primary,
                forall|jj: int|
                    #![trigger emails@[jj]]
                    0 <= jj < j ==> self.email_resolves_to(
                        emails@[jj]@,
                        users@[ids@.len() + jj].1.id,
                    ),
                forall|jj: int, i: int|
                    0 <= jj < j && 0 <= i < s.user_emails@.len() && (
                    #[trigger] s.user_emails@[i]).email@ == (#[trigger] emails@[jj])@
                        ==> users@[ids@.len() + jj].1.id == s.user_emails@[i].user_id,
                self.users@.len() >= s.users@.len(),
                forall|tt: int|
                    0 <= tt < s.users@.len() ==> self.users@[tt] == s.users@[tt],
                self.user_emails@.len() >= s.user_emails@.len(),
                forall|tt: int|
                    0 <= tt < s.user_emails@.len() ==> self.user_emails@[tt]
                        == s.user_emails@[tt],
                forall|tt: int|
                    s.user_emails@.len() <= tt < self.user_emails@.len()
                        ==> (#[trigger] self.user_emails@[tt]).is_primary
                            && self.has_primary_email(self.user_emails@[tt].user_id),
                self.next_id >= s.next_id,
                Self::same_user_auth_tokens(s, *self),
                Self::same_game_types(s, *self),
                Self::same_game_versions(s, *self),
                Self::same_games(s, *self),
                Self::same_game_players(s, *self),
                Self::same_game_logs(s, *self),
                Self::same_game_log_targets(s, *self),
            decreases emails@.len() - j,
        {
            let ghost before = *self;
            let pair = match self.find_user_with_primary_email_by_email(&emails[j]) {
                Ok(Some(v)) => {
                    proof {
                        let i1 = choose|i1: int|
                            0 <= i1 < self.user_emails@.len() && (
                            #[trigger] self.user_emails@[i1]).email@ == emails@[j as int]@
                                && self.user_emails@[i1].user_id == v.0.user_id;
                        assert(self.user_emails@[i1].user_id == v.1.id);
                        assert(self.email_resolves_to(emails@[j as int]@, v.1.id));
                        assert forall|i: int|
                            0 <= i < s.user_emails@.len() && (#[trigger] s.user_emails@[i]).email@
                                == emails@[j as int]@ implies v.1.id
                            == s.user_emails@[i].user_id by {
                            assert(self.user_emails@[i] == s.user_emails@[i]);
                            if i < i1 {
                                assert(self.user_emails@[i].email@
                                    != self.user_emails@[i1].email@);
                            } else if i1 < i {
                                assert(self.user_emails@[i1].email@
                                    != self.user_emails@[i].email@);
                            }
                        }
                    }
                    v
                },
                Ok(None) => {
                    match self.create_user_by_email(&emails[j], now) {
                        Ok(v) => {
                            proof {
                                assert(self.user_emails@.last().is_primary);
                                assert(self.user_emails@.last()
                                    == self.user_emails@[self.user_emails@.len() - 1]);
                                assert(self.user_emails@.last() == v.0);
                                assert(v.0.email@ == emails@[j as int]@);
                                assert(v.0.user_id == v.1.id);
                                assert(self.email_resolves_to(emails@[j as int]@, v.1.id));
                                assert forall|jj: int|
                                    #![trigger emails@[jj]]
                                    0 <= jj < j implies self.email_resolves_to(
                                    emails@[jj]@,
                                    users@[ids@.len() + jj].1.id,
                                ) by {
                                    let i0 = choose|i0: int|
                                        0 <= i0 < before.user_emails@.len() && (
                                        #[trigger] before.user_emails@[i0]).email@ == emails@[jj]@
                                            && before.user_emails@[i0].user_id == users@[ids@.len()
                                            + jj].1.id;
                                    assert(self.user_emails@[i0] == before.user_emails@[i0]);
                                }
                                assert forall|i: int|
                                    0 <= i < s.user_emails@.len() && (
                                    #[trigger] s.user_emails@[i]).email@ == emails@[j as int]@
                                    implies v.1.id == s.user_emails@[i].user_id by {
                                    assert(before.user_emails@[i] == s.user_emails@[i]);
                                    assert(before.has_user_email(emails@[j as int]@));
                                    assert(false);
                                }
                            }
                            v
                        },
                        Err(_) => vstd::pervasive::unreached(),
                    }
                },
                Err(_) => {
                    proof {
                        let i = choose|i: int|
                            0 <= i < before.user_emails@.len()
                                && (#[trigger] before.user_emails@[i]).email@
                                == emails@[j as int]@ && !before.has_primary_email(
                                before.user_emails@[i].user_id,
                            );
                        if i < s.user_emails@.len() {
                            assert(s.user_emails@[i].email@ == emails@[j as int]@);
                            assert(s.has_primary_email(s.user_emails@[i].user_id));
                            let w = choose|w: int|
                                0 <= w < s.user_emails@.len()
                                    && (#[trigger] s.user_emails@[w]).user_id
                                    == s.user_emails@[i].user_id && s.user_emails@[w].is_primary;
                            assert(before.user_emails@[w] == s.user_emails@[w]);
                            assert(before.user_emails@[w].user_id
                                == before.user_emails@[i].user_id);
                            assert(before.has_primary_email(before.user_emails@[i].user_id));
                        } else {
                            assert(before.has_primary_email(before.user_emails@[i].user_id));
                        }
                        assert(false);
                    }
                    vstd::pervasive::unreached()
                },
            };
            proof {
                let w = choose|w: int|
                    0 <= w < self.users@.len() && (#[trigger] self.users@[w]).id
                        == pair.0.user_id && user_equal(pair.1, self.users@[w]);
                assert(self.has_user(pair.1.id));
                assert forall|tt: int|
                    0 <= tt < users@.len() implies self.has_user(
                    (#[trigger] users@[tt]).1.id,
                ) by {
                    assert(before.has_user(users@[tt].1.id));
                    let w2 = choose|w2: int|
                        0 <= w2 < before.users@.len() && (#[trigger] before.users@[w2]).id
                            == users@[tt].1.id;
                    assert(self.users@[w2].id == users@[tt].1.id);
                }
            }
            users.push(pair);
            j += 1;
        }
        Ok(users)
    }

    /// Create a session with its full roster in one transaction: resolve
    /// the opponents, randomize the seating order, assign every
    /// participant a distinct color from their preferences, and persist
    /// the session, one participant row per seat. All-or-nothing: on
    /// failure the store is untouched.
    #[verifier::rlimit(100)]
    pub fn create_game_with_users(&mut self, opts: &CreateGameOpts, now: i64) -> (r: Result<
        CreatedGame,
        Error,
    >)
        requires
            old(self).wf(),
            opts.opponent_ids@.len() + opts.opponent_emails@.len() + 1 <= usize::MAX,
            old(self).next_id as int + 2 + 3 * opts.opponent_emails@.len()
                + opts.opponent_ids@.len() <= u64::MAX as int,
        ensures
            final(self).wf(),
            r is Err ==> Self::unchanged(*old(self), *final(self)),
            final(self).next_id as int <= old(self).next_id as int + 2 + 3
                * opts.opponent_emails@.len() + opts.opponent_ids@.len(),
            r is Ok <==> old(self).has_game_version(opts.new_game.game_version_id) && old(
                self,
            ).has_user(opts.creator_id) && opts.opponent_ids@.len() + opts.opponent_emails@.len()
                + 1 <= palette_seq().len() && (forall|t: int|
                0 <= t < opts.opponent_ids@.len() ==> old(self).has_primary_email(
                    #[trigger] opts.opponent_ids@[t],
                )) && (forall|j: int, i: int|
                0 <= j < opts.opponent_emails@.len() && 0 <= i < old(self).user_emails@.len()
                    && (#[trigger] old(self).user_emails@[i]).email@
                    == (#[trigger] opts.opponent_emails@[j])@ ==> old(self).has_primary_email(
                    old(self).user_emails@[i].user_id,
                )),
            r is Ok ==> ({
                let cg = r->Ok_0;
                let n = 1 + opts.opponent_ids@.len() + opts.opponent_emails@.len();
                &&& cg.game.game_version_id == opts.new_game.game_version_id
                &&& cg.game.is_finished == opts.new_game.is_finished
                &&& cg.game.game_state == opts.new_game.game_state
                &&& final(self).games@.len() == old(self).games@.len() + 1
                &&& final(self).games@.last() == cg.game
                &&& forall|t: int|
                    0 <= t < old(self).games@.len() ==> final(self).games@[t] == old(
                        self,
                    ).games@[t]
                &&& cg.opponents@.len() == opts.opponent_ids@.len() + opts.opponent_emails@.len()
                &&& forall|t: int|
                    0 <= t < opts.opponent_ids@.len() ==> (#[trigger] cg.opponents@[t]).1.id
                        == opts.opponent_ids@[t]
                &&& forall|j: int|
                    #![trigger opts.opponent_emails@[j]]
                    0 <= j < opts.opponent_emails@.len() ==> final(self).email_resolves_to(
                        opts.opponent_emails@[j]@,
                        cg.opponents@[opts.opponent_ids@.len() + j].1.id,
                    )
                &&& forall|j: int, i: int|
                    0 <= j < opts.opponent_emails@.len() && 0 <= i < old(self).user_emails@.len()
                        && (#[trigger] old(self).user_emails@[i]).email@ == (
                    #[trigger] opts.opponent_emails@[j])@ ==> cg.opponents@[opts.opponent_ids@.len()
                        + j].1.id == old(self).user_emails@[i].user_id
                &&& (cg.players@.map_values(player_user_of()).to_multiset()
                    == cg.opponents@.map_values(opponent_user_of()).to_multiset().insert(
                    opts.creator_id,
                ))
                &&& cg.players@.len() == n
                &&& forall|p: int|
                    0 <= p < n ==> (#[trigger] cg.players@[p]).position == p
                &&& forall|p: int|
                    0 <= p < n ==> (#[trigger] cg.players@[p]).game_id == cg.game.id
                &&& forall|p: int|
                    0 <= p < n ==> palette_seq().contains((#[trigger] cg.players@[p]).color)
                &&& forall|p: int, q: int|
                    0 <= p < q < n ==> cg.players@[p].color != cg.players@[q].color
                &&& forall|p: int|
                    0 <= p < n ==> (#[trigger] cg.players@[p]).is_turn
                        == opts.whose_turn@.contains(cg.players@[p].position)
                &&& forall|p: int|
                    0 <= p < n ==> (#[trigger] cg.players@[p]).is_eliminated
                        == opts.eliminated@.contains(cg.players@[p].position)
                &&& forall|p: int|
                    0 <= p < n ==> (#[trigger] cg.players@[p]).is_winner
                        == opts.winners@.contains(cg.players@[p].position)
                &&& forall|p: int|
                    0 <= p < n ==> !(#[trigger] cg.players@[p]).is_read && cg.players@[p].undo_game_state is None
                &&& forall|p: int|
                    0 <= p < n ==> ((#[trigger] cg.players@[p]).has_accepted <==> cg.players@[p].user_id
                        == opts.creator_id)
                &&& forall|p: int|
                    0 <= p < n ==> final(self).has_user((#[trigger] cg.players@[p]).user_id)
                &&& final(self).game_players@.len() == old(self).game_players@.len() + n
                &&& forall|t: int|
                    0 <= t < old(self).game_players@.len() ==> final(self).game_players@[t] == old(
                        self,
                    ).game_players@[t]
                &&& forall|p: int|
                    0 <= p < n ==> final(self).game_players@[old(self).game_players@.len() + p]
                        == cg.players@[p]
                &&& final(self).game_logs@ == old(self).game_logs@
                &&& final(self).game_log_targets@ == old(self).game_log_targets@
            }),
            Self::same_user_auth_tokens(*old(self), *final(self)),
            Self::same_game_types(*old(self), *final(self)),
            Self::same_game_versions(*old(self), *final(self)),
            Self::same_game_logs(*old(self), *final(self)),
            Self::same_game_log_targets(*old(self), *final(self)),
    {
        if self.game_version_index(opts.new_game.game_version_id).is_none() {
            return Err(Error::SystemError(String::from_str("could not create new game")));
        }
        let creator = match self.find_user(opts.creator_id) {
            Some(u) => u,
            None => {
                return Err(Error::SystemError(String::from_str("could not find creator")));
            },
        };
        let n: usize = 1 + opts.opponent_ids.len() + opts.opponent_emails.len();
        let pal = crate::color::palette();
        if n > pal.len() {
            return Err(
                Error::UserError(String::from_str("not enough colors for the number of players")),
            );
        }
        let opponents = match self.create_game_users(&opts.opponent_ids, &opts.opponent_emails, now)
            {
            Ok(v) => v,
            Err(e) => {
                return Err(e);
            },
        };
        let ghost s1 = *self;
        let mut users: Vec<User> = Vec::new();
        let mut t: usize = 0;
        while t < opponents.len()
            invariant
                *self == s1,
                s1.wf(),
                t <= opponents@.len(),
                users@.len() == t,
                forall|tt: int|
                    0 <= tt < opponents@.len() ==> s1.has_user((#[trigger] opponents@[tt]).1.id),
                forall|tt: int|
                    0 <= tt < t ==> (#[trigger] users@[tt]).id == opponents@[tt].1.id
                        && s1.has_user(users@[tt].id),
            decreases opponents@.len() - t,
        {
            users.push(opponents[t].1.clone());
            t += 1;
        }
        proof {
            let k = choose|k: int|
                0 <= k < old(self).users@.len() && (#[trigger] old(self).users@[k]).id
                    == opts.creator_id && user_equal(creator, old(self).users@[k]);
            assert(self.users@[k].id == opts.creator_id);
            assert(self.has_user(creator.id));
            assert(creator.id == opts.creator_id);
        }
        users.push(creator);
        let ghost pre_shuffle = users@;
        proof {
            lemma_ids_projection(pre_shuffle, opponents@, opts.creator_id);
        }
        shuffle_users(&mut users);
        proof {
            pre_shuffle.to_multiset_ensures();
            users@.to_multiset_ensures();
            assert(users@.len() == pre_shuffle.len());
            assert forall|tt: int| 0 <= tt < users@.len() implies s1.has_user(
                (#[trigger] users@[tt]).id,
            ) by {
                assert(users@.contains(users@[tt]));
                assert(users@.to_multiset().count(users@[tt]) > 0);
                assert(pre_shuffle.contains(users@[tt]));
                let w = choose|w: int| 0 <= w < pre_shuffle.len() && pre_shuffle[w] == users@[tt];
            }
        }
        let mut prefs: Vec<Vec<Color>> = Vec::new();
        let mut t: usize = 0;
        while t < users.len()
            invariant
                t <= users@.len(),
                prefs@.len() == t,
            decreases users@.len() - t,
        {
            prefs.push(clone_colors(&users[t].pref_colors));
            t += 1;
        }
        proof {
            lemma_palette_no_duplicates();
        }
        let colors = match crate::color::choose_colors(&pal, &prefs) {
            Ok(c) => c,
            Err(_) => vstd::pervasive::unreached(),
        };
        proof {
            crate::color::lemma_color_assignment_total(
                pal@,
                crate::color::prefs_view(prefs@),
            );
        }
        let ghost s2 = *self;
        let game = match self.create_game(&opts.new_game, now) {
            Ok(g) => g,
            Err(_) => vstd::pervasive::unreached(),
        };
        proof {
            assert(self.games@.last() == self.games@[self.games@.len() - 1]);
            assert(self.has_game(game.id));
            assert forall|i: int| 0 <= i < self.game_players@.len() implies (
            #[trigger] self.game_players@[i]).game_id != game.id by {
                assert(s2.has_game(s2.game_players@[i].game_id));
                let w = choose|w: int|
                    0 <= w < s2.games@.len() && (#[trigger] s2.games@[w]).id
                        == s2.game_players@[i].game_id;
                assert(s2.games@[w].id < s2.next_id);
            }
            lemma_count_players_zero(self.game_players@, game.id);
        }
        let ghost s3 = *self;
        let mut players: Vec<GamePlayer> = Vec::new();
        let mut pos: usize = 0;
        while pos < users.len()
            invariant
                pos <= users@.len(),
                self.wf(),
                users@.len() == colors@.len(),
                users@.len() == 1 + opts.opponent_ids@.len() + opts.opponent_emails@.len(),
                forall|p: int, q: int| 0 <= p < q < colors@.len() ==> colors@[p] != colors@[q],
                forall|p: int| 0 <= p < colors@.len() ==> palette_seq().contains(#[trigger] colors@[p]),
                forall|tt: int| 0 <= tt < users@.len() ==> self.has_user((#[trigger] users@[tt]).id),
                self.has_game(game.id),
                count_players(self.game_players@, game.id) == pos,
                self.next_id as int + (users@.len() - pos) <= u64::MAX as int,
                self.next_id as int == s3.next_id as int + pos,
                s3.next_id as int <= old(self).next_id as int + 2 * opts.opponent_emails@.len()
                    + 1,
                players@.len() == pos,
                self.game_players@.len() == s3.game_players@.len() + pos,
                forall|tt: int|
                    0 <= tt < s3.game_players@.len() ==> self.game_players@[tt]
                        == s3.game_players@[tt],
                forall|p: int|
                    0 <= p < pos ==> self.game_players@[s3.game_players@.len() + p]
                        == players@[p],
                forall|p: int|
                    0 <= p < pos ==> (#[trigger] players@[p]).position == p
                        && players@[p].game_id == game.id && players@[p].color == colors@[p]
                        && players@[p].user_id == users@[p].id && !players@[p].is_read
                        && players@[p].undo_game_state is None,
                forall|p: int|
                    0 <= p < pos ==> ((#[trigger] players@[p]).has_accepted <==> players@[p].user_id
                        == opts.creator_id),
                forall|p: int|
                    0 <= p < pos ==> (#[trigger] players@[p]).is_turn == opts.whose_turn@.contains(
                        players@[p].position,
                    ) && players@[p].is_eliminated == opts.eliminated@.contains(
                        players@[p].position,
                    ) && players@[p].is_winner == opts.winners@.contains(players@[p].position),
                Self::same_users(s3, *self),
                Self::same_user_emails(s3, *self),
                Self::same_user_auth_tokens(s3, *self),
                Self::same_game_types(s3, *self),
                Self::same_game_versions(s3, *self),
                Self::same_games(s3, *self),
                Self::same_game_logs(s3, *self),
                Self::same_game_log_targets(s3, *self),
            decreases users@.len() - pos,
        {
            let ngp = NewGamePlayer {
                game_id: game.id,
                user_id: users[pos].id,
                position: pos,
                color: colors[pos],
                has_accepted: users[pos].id == opts.creator_id,
                is_turn: Self::contains_position(&opts.whose_turn, pos),
                is_eliminated: Self::contains_position(&opts.eliminated, pos),
                is_winner: Self::contains_position(&opts.winners, pos),
                is_read: false,
            };
            let ghost before = *self;
            match self.create_game_player(&ngp, now) {
                Ok(p) => {
                    proof {
                        lemma_count_players_push(
                            before.game_players@,
                            self.game_players@.last(),
                            game.id,
                        );
                        assert(self.game_players@.drop_last() =~= before.game_players@);
                        assert(self.game_players@.last()
                            == self.game_players@[self.game_players@.len() - 1]);
                    }
                    players.push(p);
                },
                Err(_) => vstd::pervasive::unreached(),
            }
            pos += 1;
        }
        proof {
            lemma_roster_multiset(players@, users@, pre_shuffle, opponents@, opts.creator_id);
        }
        Ok(CreatedGame { game, opponents, players })
    }

    /// Persist the log entries reported by the engine for one session,
    /// translating each entry's target seat positions into participant
    /// rows. All-or-nothing: fails, leaving the store untouched, when the
    /// session is unknown or a target seat is unoccupied.
    #[verifier::rlimit(100)]
    pub fn create_game_logs_from_cli(&mut self, game_id: u64, logs: Vec<CliLog>, now: i64) -> (r:
        Result<Vec<CreatedGameLog>, Error>)
        requires
            old(self).wf(),
            old(self).next_id as int + logs@.len() + total_targets(logs@) <= u64::MAX as int,
        ensures
            final(self).wf(),
            r is Err ==> Self::unchanged(*old(self), *final(self)),
            r is Ok <==> old(self).has_game(game_id) && (forall|i: int, t: int|
                0 <= i < logs@.len() && 0 <= t < logs@[i].to@.len() ==> old(self).has_player_at(
                    game_id,
                    #[trigger] logs@[i].to@[t],
                )),
            !old(self).has_game(game_id) ==> r is Err && r->Err_0 is SystemError
                && r->Err_0->SystemError_0@ == "unable to create game logs"@,
            old(self).has_game(game_id) && r is Err ==> r->Err_0 is SystemError
                && r->Err_0->SystemError_0@ == "no player with that position exists"@,
            final(self).next_id as int <= old(self).next_id as int + logs@.len()
                + total_targets(logs@),
            r is Ok ==> ({
                let v = r->Ok_0;
                &&& v@.len() == logs@.len()
                &&& forall|i: int|
                    0 <= i < logs@.len() ==> (#[trigger] v@[i]).game_log.game_id == game_id
                        && v@[i].game_log.body == logs@[i].content && v@[i].game_log.is_public
                        == logs@[i].public && v@[i].game_log.logged_at == logs@[i].at
                &&& forall|i: int|
                    0 <= i < logs@.len() ==> log_targets_ok(
                        old(self).game_players@,
                        game_id,
                        logs@[i].to@,
                        #[trigger] v@[i],
                    )
                &&& forall|i: int|
                    0 <= i < logs@.len() ==> log_targets_stored(
                        final(self).game_log_targets@,
                        #[trigger] v@[i],
                    )
                &&& final(self).game_logs@.len() == old(self).game_logs@.len() + logs@.len()
                &&& forall|t: int|
                    0 <= t < old(self).game_logs@.len() ==> final(self).game_logs@[t] == old(
                        self,
                    ).game_logs@[t]
                &&& forall|i: int|
                    0 <= i < logs@.len() ==> final(self).game_logs@[old(self).game_logs@.len() + i]
                        == (#[trigger] v@[i]).game_log
                &&& forall|t: int|
                    0 <= t < old(self).game_log_targets@.len() ==> final(self).game_log_targets@[t]
                        == old(self).game_log_targets@[t]
            }),
            Self::same_users(*old(self), *final(self)),
            Self::same_user_emails(*old(self), *final(self)),
            Self::same_user_auth_tokens(*old(self), *final(self)),
            Self::same_game_types(*old(self), *final(self)),
            Self::same_game_versions(*old(self), *final(self)),
            Self::same_games(*old(self), *final(self)),
            Self::same_game_players(*old(self), *final(self)),
    {
        if self.game_index(game_id).is_none() {
            return Err(Error::SystemError(String::from_str("unable to create game logs")));
        }
        let mut resolved: Vec<Vec<u64>> = Vec::new();
        let mut i: usize = 0;
        while i < logs.len()
            invariant
                *self == *old(self),
                self.wf(),
                old(self).has_game(game_id),
                i <= logs@.len(),
                resolved@.len() == i,
                forall|ii: int, t: int|
                    0 <= ii < i && 0 <= t < logs@[ii].to@.len() ==> self.has_player_at(
                        game_id,
                        #[trigger] logs@[ii].to@[t],
                    ),
                forall|ii: int|
                    0 <= ii < i ==> seats_resolved(
                        self.game_players@,
                        game_id,
                        logs@[ii].to@,
                        (#[trigger] resolved@[ii])@,
                    ),
            decreases logs@.len() - i,
        {
            let mut ids: Vec<u64> = Vec::new();
            let mut t: usize = 0;
            while t < logs[i].to.len()
                invariant
                    *self == *old(self),
                    self.wf(),
                    old(self).has_game(game_id),
                    i < logs@.len(),
                    t <= logs@[i as int].to@.len(),
                    ids@.len() == t,
                    forall|tt: int|
                        0 <= tt < t ==> self.has_player_at(
                            game_id,
                            #[trigger] logs@[i as int].to@[tt],
                        ),
                    forall|tt: int|
                        0 <= tt < t ==> player_id_at(
                            self.game_players@,
                            game_id,
                            logs@[i as int].to@[tt],
                            #[trigger] ids@[tt],
                        ),
                decreases logs@[i as int].to@.len() - t,
            {
                match self.player_index_by_position(game_id, logs[i].to[t]) {
                    Some(w) => {
                        proof {
                            assert(player_id_at(
                                self.game_players@,
                                game_id,
                                logs@[i as int].to@[t as int],
                                self.game_players@[w as int].id,
                            ));
                        }
                        ids.push(self.game_players[w].id);
                    },
                    None => {
                        return Err(
                            Error::SystemError(
                                String::from_str("no player with that position exists"),
                            ),
                        );
                    },
                }
                t += 1;
            }
            proof {
                assert(seats_resolved(self.game_players@, game_id, logs@[i as int].to@, ids@));
            }
            resolved.push(ids);
            i += 1;
        }
        let ghost s = *self;
        let mut created: Vec<CreatedGameLog> = Vec::new();
        let mut i: usize = 0;
        proof {
            assert(total_targets_partial(logs@, 0) == 0);
        }
        while i < logs.len()
            invariant
                i <= logs@.len(),
                self.wf(),
                s.wf(),
                s == *old(self),
                logs@.len() == resolved@.len(),
                s.has_game(game_id),
                s.next_id as int + logs@.len() + total_targets(logs@) <= u64::MAX as int,
                self.next_id as int <= s.next_id as int + i + total_targets_partial(
                    logs@,
                    i as int,
                ),
                forall|ii: int|
                    0 <= ii < logs@.len() ==> seats_resolved(
                        s.game_players@,
                        game_id,
                        logs@[ii].to@,
                        (#[trigger] resolved@[ii])@,
                    ),
                created@.len() == i,
                forall|ii: int|
                    0 <= ii < i ==> (#[trigger] created@[ii]).game_log.game_id == game_id
                        && created@[ii].game_log.body == logs@[ii].content
                        && created@[ii].game_log.is_public == logs@[ii].public
                        && created@[ii].game_log.logged_at == logs@[ii].at,
                forall|ii: int|
                    0 <= ii < i ==> log_targets_ok(
                        s.game_players@,
                        game_id,
                        logs@[ii].to@,
                        #[trigger] created@[ii],
                    ),
                forall|ii: int|
                    0 <= ii < i ==> log_targets_stored(
                        self.game_log_targets@,
                        #[trigger] created@[ii],
                    ),
                self.game_logs@.len() == s.game_logs@.len() + i,
                forall|t: int|
                    0 <= t < s.game_logs@.len() ==> self.game_logs@[t] == s.game_logs@[t],
                forall|ii: int|
                    0 <= ii < i ==> self.game_logs@[s.game_logs@.len() + ii] == (
                    #[trigger] created@[ii]).game_log,
                self.game_log_targets@.len() >= s.game_log_targets@.len(),
                forall|t: int|
                    0 <= t < s.game_log_targets@.len() ==> self.game_log_targets@[t]
                        == s.game_log_targets@[t],
                Self::same_users(s, *self),
                Self::same_user_emails(s, *self),
                Self::same_user_auth_tokens(s, *self),
                Self::same_game_types(s, *self),
                Self::same_game_versions(s, *self),
                Self::same_games(s, *self),
                Self::same_game_players(s, *self),
            decreases logs@.len() - i,
        {
            proof {
                lemma_total_targets_partial_step(logs@, i as int);
                lemma_total_targets_partial_le(logs@, i + 1);
                assert(seats_resolved(
                    s.game_players@,
                    game_id,
                    logs@[i as int].to@,
                    resolved@[i as int]@,
                ));
                assert forall|t: int|
                    0 <= t < resolved@[i as int]@.len() implies self.has_game_player(
                    #[trigger] resolved@[i as int]@[t],
                ) by {
                    assert(player_id_at(
                        s.game_players@,
                        game_id,
                        logs@[i as int].to@[t],
                        resolved@[i as int]@[t],
                    ));
                    let w = choose|w: int|
                        0 <= w < s.game_players@.len() && (#[trigger] s.game_players@[w]).game_id
                            == game_id && s.game_players@[w].position == logs@[i as int].to@[t]
                            && s.game_players@[w].id == resolved@[i as int]@[t];
                    assert(self.game_players@[w].id == resolved@[i as int]@[t]);
                }
                assert(self.has_game(game_id)) by {
                    let w = choose|w: int|
                        0 <= w < s.games@.len() && (#[trigger] s.games@[w]).id == game_id;
                    assert(self.games@[w].id == game_id);
                }
            }
            let nl = NewGameLog {
                game_id,
                body: logs[i].content.clone(),
                is_public: logs[i].public,
                logged_at: logs[i].at,
            };
            let ghost pre_store = *self;
            match self.create_game_log(&nl, &resolved[i], now) {
                Ok(cl) => {
                    proof {
                        assert forall|t: int|
                            0 <= t < logs@[i as int].to@.len() implies (
                        #[trigger] cl.targets@[t]).game_log_id == cl.game_log.id && player_id_at(
                            s.game_players@,
                            game_id,
                            logs@[i as int].to@[t],
                            cl.targets@[t].game_player_id,
                        ) by {
                            assert(cl.targets@[t].game_player_id == resolved@[i as int]@[t]);
                            assert(player_id_at(
                                s.game_players@,
                                game_id,
                                logs@[i as int].to@[t],
                                resolved@[i as int]@[t],
                            ));
                        }
                        assert(log_targets_ok(s.game_players@, game_id, logs@[i as int].to@, cl));
                        assert forall|t: int| 0 <= t < cl.targets@.len() implies target_stored(
                            self.game_log_targets@,
                            #[trigger] cl.targets@[t],
                        ) by {
                            assert(cl.targets@[t] == self.game_log_targets@[
                                pre_store.game_log_targets@.len() + t
                            ]);
                        }
                        assert(log_targets_stored(self.game_log_targets@, cl));
                        assert forall|ii: int| 0 <= ii < i implies log_targets_stored(
                            self.game_log_targets@,
                            #[trigger] created@[ii],
                        ) by {
                            lemma_log_targets_stored_grow(
                                pre_store.game_log_targets@,
                                self.game_log_targets@,
                                created@[ii],
                            );
                        }
                    }
                    created.push(cl);
                },
                Err(_) => vstd::pervasive::unreached(),
            }
            i += 1;
        }
        Ok(created)
    }

    /// Sessions that matter to a user right now: every unfinished session
    /// they play in, and recently finished ones they have not read yet.
    /// Each result carries the session's own ruleset, game type and full
    /// seat-ordered roster.
    pub fn find_active_games_for_user(&self, id: u64, now: i64) -> (r: Vec<GameExtended>)
        requires
            self.wf(),
        ensures
            r@.len() == self.game_players@.filter(self.active_pred(id, now)).len(),
            forall|k: int|
                0 <= k < r@.len() ==> (#[trigger] r@[k]).game.id == self.game_players@.filter(
                    self.active_pred(id, now),
                )[k].game_id && exists|w: int|
                    0 <= w < self.games@.len() && (#[trigger] self.games@[w]) == r@[k].game,
            forall|k: int| 0 <= k < r@.len() ==> self.game_extended_linked(#[trigger] r@[k]),
    {
        let ghost pred = self.active_pred(id, now);
        let mut out: Vec<GameExtended> = Vec::new();
        let mut i: usize = 0;
        proof {
            reveal(Seq::filter);
            assert(self.game_players@.take(0) =~= Seq::<GamePlayer>::empty());
        }
        while i < self.game_players.len()
            invariant
                self.wf(),
                i <= self.game_players@.len(),
                pred == self.active_pred(id, now),
                out@.len() == self.game_players@.take(i as int).filter(pred).len(),
                forall|k: int|
                    0 <= k < out@.len() ==> (#[trigger] out@[k]).game.id
                        == self.game_players@.take(i as int).filter(pred)[k].game_id && exists|
                        w: int,
                    |
                        0 <= w < self.games@.len() && (#[trigger] self.games@[w]) == out@[k].game,
                forall|k: int| 0 <= k < out@.len() ==> self.game_extended_linked(#[trigger] out@[k]),
            decreases self.game_players@.len() - i,
        {
            proof {
                lemma_filter_take_step(self.game_players@, i as int, pred);
            }
            let p = &self.game_players[i];
            let mut keep: bool = false;
            if p.user_id == id {
                match self.game_index(p.game_id) {
                    Some(gk) => {
                        let g = &self.games[gk];
                        if !g.is_finished || ((g.updated_at as i128)
                            + (FINISHED_GAME_RELEVANCE_SECS as i128) > (now as i128) && !p.is_read)
                        {
                            keep = true;
                        }
                        proof {
                            assert forall|w: int|
                                0 <= w < self.games@.len() && (#[trigger] self.games@[w]).id
                                    == self.game_players@[i as int].game_id implies w
                                == gk as int by {
                                assert(self.games@[w].id == self.games@[gk as int].id);
                            }
                        }
                    },
                    None => {
                        proof {
                            assert(self.has_game(self.game_players@[i as int].game_id));
                        }
                        vstd::pervasive::unreached()
                    },
                }
            }
            if keep {
                match self.find_game_extended(self.game_players[i].game_id) {
                    Ok(ge) => {
                        out.push(ge);
                    },
                    Err(_) => {
                        proof {
                            assert(self.has_game(self.game_players@[i as int].game_id));
                        }
                        vstd::pervasive::unreached()
                    },
                }
            }
            i += 1;
        }
        proof {
            assert(self.game_players@.take(self.game_players@.len() as int)
                =~= self.game_players@);
        }
        out
    }

    /// Selects the participant rows that make a session relevant to user
    /// `uid` at `now`: their seats in unfinished sessions, and in recently
    /// finished sessions they have not read.
    pub open spec fn active_pred(self, uid: u64, now: i64) -> spec_fn(GamePlayer) -> bool {
        |p: GamePlayer|
            p.user_id == uid && exists|w: int|
                0 <= w < self.games@.len() && (#[trigger] self.games@[w]).id == p.game_id && (
                !self.games@[w].is_finished || (self.games@[w].updated_at
                    + FINISHED_GAME_RELEVANCE_SECS > now && !p.is_read))
    }

    /// Selects the log rows of session `gid` that seat `pid` may see:
    /// public entries, and private entries targeted at that seat.
    pub open spec fn player_logs_pred(self, gid: u64, pid: u64) -> spec_fn(GameLog) -> bool {
        |l: GameLog| l.game_id == gid && (l.is_public || self.log_targeted(l.id, pid))
    }

    /// The rulesets open for play: public and not deprecated, each joined
    /// with its game type.
    pub fn public_game_versions(&self) -> (r: Vec<(GameVersion, GameType)>)
        requires
            self.wf(),
        ensures
            r@.len() == self.game_versions@.filter(open_versions_pred()).len(),
            forall|k: int|
                0 <= k < r@.len() ==> (#[trigger] r@[k]).0 == self.game_versions@.filter(
                    open_versions_pred(),
                )[k],
            forall|k: int|
                0 <= k < r@.len() ==> (#[trigger] r@[k]).1.id == r@[k].0.game_type_id && exists|
                    w: int,
                |
                    0 <= w < self.game_types@.len() && (#[trigger] self.game_types@[w])
                        == r@[k].1,
    {
        let ghost pred = open_versions_pred();
        let mut out: Vec<(GameVersion, GameType)> = Vec::new();
        let mut i: usize = 0;
        proof {
            reveal(Seq::filter);
            assert(self.game_versions@.take(0) =~= Seq::<GameVersion>::empty());
        }
        while i < self.game_versions.len()
            invariant
                self.wf(),
                i <= self.game_versions@.len(),
                out@.len() == self.game_versions@.take(i as int).filter(pred).len(),
                pred == open_versions_pred(),
                forall|k: int|
                    0 <= k < out@.len() ==> (#[trigger] out@[k]).0 == self.game_versions@.take(
                        i as int,
                    ).filter(pred)[k],
                forall|k: int|
                    0 <= k < out@.len() ==> (#[trigger] out@[k]).1.id == out@[k].0.game_type_id
                        && exists|w: int|
                        0 <= w < self.game_types@.len() && (#[trigger] self.game_types@[w])
                            == out@[k].1,
            decreases self.game_versions@.len() - i,
        {
            proof {
                lemma_filter_take_step(self.game_versions@, i as int, pred);
            }
            if self.game_versions[i].is_public && !self.game_versions[i].is_deprecated {
                let v = self.game_versions[i].clone();
                match self.game_type_index(v.game_type_id) {
                    Some(tk) => {
                        out.push((v, self.game_types[tk].clone()));
                    },
                    None => {
                        proof {
                            assert(self.has_game_type(
                                self.game_versions@[i as int].game_type_id,
                            ));
                        }
                        vstd::pervasive::unreached()
                    },
                }
            }
            i += 1;
        }
        proof {
            assert(self.game_versions@.take(self.game_versions@.len() as int)
                =~= self.game_versions@);
        }
        out
    }

    /// Find a session by identifier, joined with its ruleset.
    pub fn find_game_with_version(&self, id: u64) -> (r: Option<(Game, GameVersion)>)
        requires
            self.wf(),
        ensures
            r is Some <==> self.has_game(id),
            r is Some ==> ({
                let g = (r->0).0;
                let gv = (r->0).1;
                &&& g.id == id
                &&& exists|k: int|
                    0 <= k < self.games@.len() && (#[trigger] self.games@[k]) == g
                &&& gv.id == g.game_version_id
                &&& exists|k: int|
                    0 <= k < self.game_versions@.len() && (#[trigger] self.game_versions@[k]) == gv
            }),
    {
        match self.game_index(id) {
            Some(k) => {
                let g = self.games[k].clone();
                match self.game_version_index(g.game_version_id) {
                    Some(vk) => Some((g, self.game_versions[vk].clone())),
                    None => {
                        proof {
                            assert(self.has_game_version(self.games@[k as int].game_version_id));
                        }
                        vstd::pervasive::unreached()
                    },
                }
            },
            None => None,
        }
    }
}

} // verus!
