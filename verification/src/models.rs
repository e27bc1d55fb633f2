//! Rows of the relational store, modelled with plain values.
//!
//! Identifiers are opaque unique tokens, modelled as `u64`; timestamps are
//! UTC instants, modelled as seconds (`i64`). The `Public*` forms strip
//! fields that must not leave the service (engine state, login codes, engine
//! addresses).

use vstd::prelude::*;

use crate::color::Color;

verus! {

pub struct User {
    pub id: u64,
    pub created_at: i64,
    pub updated_at: i64,
    pub name: String,
    pub pref_colors: Vec<Color>,
    pub login_confirmation: Option<u64>,
    pub login_confirmation_at: Option<i64>,
}

/// Field-wise equality of user rows; the preference list is compared by
/// contents.
pub open spec fn user_equal(a: User, b: User) -> bool {
    &&& a.id == b.id
    &&& a.created_at == b.created_at
    &&& a.updated_at == b.updated_at
    &&& a.name == b.name
    &&& a.pref_colors@ == b.pref_colors@
    &&& a.login_confirmation == b.login_confirmation
    &&& a.login_confirmation_at == b.login_confirmation_at
}

impl Clone for User {
    fn clone(&self) -> (r: Self)
        ensures
            user_equal(r, *self),
    {
        User {
            id: self.id,
            created_at: self.created_at,
            updated_at: self.updated_at,
            name: self.name.clone(),
            pref_colors: clone_colors(&self.pref_colors),
            login_confirmation: self.login_confirmation,
            login_confirmation_at: self.login_confirmation_at,
        }
    }
}

pub(crate) fn clone_colors(v: &Vec<Color>) -> (r: Vec<Color>)
    ensures
        r@ == v@,
{
    let mut r: Vec<Color> = Vec::new();
    let mut i: usize = 0;
    while i < v.len()
        invariant
            i <= v@.len(),
            r@ == v@.take(i as int),
        decreases v@.len() - i,
    {
        r.push(v[i]);
        proof {
            assert(r@ =~= v@.take(i + 1));
        }
        i += 1;
    }
    proof {
        assert(r@ =~= v@);
    }
    r
}

pub(crate) fn clone_opt_string(v: &Option<String>) -> (r: Option<String>)
    ensures
        r == *v,
{
    match v {
        Some(s) => Some(s.clone()),
        None => None,
    }
}

pub struct PublicUser {
    pub id: u64,
    pub created_at: i64,
    pub updated_at: i64,
    pub name: String,
}

impl Clone for PublicUser {
    fn clone(&self) -> (r: Self)
        ensures
            r == *self,
    {
        PublicUser {
            id: self.id,
            created_at: self.created_at,
            updated_at: self.updated_at,
            name: self.name.clone(),
        }
    }
}

impl User {
    /// The publicly visible part of a user row: the login confirmation and
    /// color preferences stay behind.
    pub fn into_public(self) -> (r: PublicUser)
        ensures
            r == (PublicUser {
                id: self.id,
                created_at: self.created_at,
                updated_at: self.updated_at,
                name: self.name,
            }),
    {
        PublicUser {
            id: self.id,
            created_at: self.created_at,
            updated_at: self.updated_at,
            name: self.name,
        }
    }
}

pub struct UserEmail {
    pub id: u64,
    pub created_at: i64,
    pub updated_at: i64,
    pub user_id: u64,
    pub email: String,
    pub is_primary: bool,
}

impl Clone for UserEmail {
    fn clone(&self) -> (r: Self)
        ensures
            r == *self,
    {
        UserEmail {
            id: self.id,
            created_at: self.created_at,
            updated_at: self.updated_at,
            user_id: self.user_id,
            email: self.email.clone(),
            is_primary: self.is_primary,
        }
    }
}

pub struct NewUserEmail {
    pub user_id: u64,
    pub email: String,
    pub is_primary: bool,
}

pub struct UserAuthToken {
    pub id: u64,
    pub created_at: i64,
    pub updated_at: i64,
    pub user_id: u64,
}

impl Clone for UserAuthToken {
    fn clone(&self) -> (r: Self)
        ensures
            r == *self,
    {
        UserAuthToken {
            id: self.id,
            created_at: self.created_at,
            updated_at: self.updated_at,
            user_id: self.user_id,
        }
    }
}

pub struct GameType {
    pub id: u64,
    pub created_at: i64,
    pub updated_at: i64,
    pub name: String,
}

impl Clone for GameType {
    fn clone(&self) -> (r: Self)
        ensures
            r == *self,
    {
        GameType {
            id: self.id,
            created_at: self.created_at,
            updated_at: self.updated_at,
            name: self.name.clone(),
        }
    }
}

pub type PublicGameType = GameType;

pub struct NewGameType {
    pub name: String,
}

pub struct GameVersion {
    pub id: u64,
    pub created_at: i64,
    pub updated_at: i64,
    pub game_type_id: u64,
    pub name: String,
    pub uri: String,
    pub is_public: bool,
    pub is_deprecated: bool,
}

impl Clone for GameVersion {
    fn clone(&self) -> (r: Self)
        ensures
            r == *self,
    {
        GameVersion {
            id: self.id,
            created_at: self.created_at,
            updated_at: self.updated_at,
            game_type_id: self.game_type_id,
            name: self.name.clone(),
            uri: self.uri.clone(),
            is_public: self.is_public,
            is_deprecated: self.is_deprecated,
        }
    }
}

pub struct PublicGameVersion {
    pub id: u64,
    pub created_at: i64,
    pub updated_at: i64,
    pub game_type_id: u64,
    pub name: String,
    pub is_public: bool,
    pub is_deprecated: bool,
}

impl Clone for PublicGameVersion {
    fn clone(&self) -> (r: Self)
        ensures
            r == *self,
    {
        PublicGameVersion {
            id: self.id,
            created_at: self.created_at,
            updated_at: self.updated_at,
            game_type_id: self.game_type_id,
            name: self.name.clone(),
            is_public: self.is_public,
            is_deprecated: self.is_deprecated,
        }
    }
}

impl GameVersion {
    /// The publicly visible part of a game version: the engine address is
    /// internal and stays behind.
    pub fn into_public(self) -> (r: PublicGameVersion)
        ensures
            r == (PublicGameVersion {
                id: self.id,
                created_at: self.created_at,
                updated_at: self.updated_at,
                game_type_id: self.game_type_id,
                name: self.name,
                is_public: self.is_public,
                is_deprecated: self.is_deprecated,
            }),
    {
        PublicGameVersion {
            id: self.id,
            created_at: self.created_at,
            updated_at: self.updated_at,
            game_type_id: self.game_type_id,
            name: self.name,
            is_public: self.is_public,
            is_deprecated: self.is_deprecated,
        }
    }
}

pub struct NewGameVersion {
    pub game_type_id: u64,
    pub name: String,
    pub uri: String,
    pub is_public: bool,
    pub is_deprecated: bool,
}

pub struct Game {
    pub id: u64,
    pub created_at: i64,
    pub updated_at: i64,
    pub game_version_id: u64,
    pub is_finished: bool,
    pub game_state: String,
}

impl Clone for Game {
    fn clone(&self) -> (r: Self)
        ensures
            r == *self,
    {
        Game {
            id: self.id,
            created_at: self.created_at,
            updated_at: self.updated_at,
            game_version_id: self.game_version_id,
            is_finished: self.is_finished,
            game_state: self.game_state.clone(),
        }
    }
}

pub struct PublicGame {
    pub id: u64,
    pub created_at: i64,
    pub updated_at: i64,
    pub game_version_id: u64,
    pub is_finished: bool,
}

impl Clone for PublicGame {
    fn clone(&self) -> (r: Self)
        ensures
            r == *self,
    {
        PublicGame {
            id: self.id,
            created_at: self.created_at,
            updated_at: self.updated_at,
            game_version_id: self.game_version_id,
            is_finished: self.is_finished,
        }
    }
}

impl Game {
    /// The publicly visible part of a session row: the serialized engine
    /// state is internal and stays behind.
    pub fn into_public(self) -> (r: PublicGame)
        ensures
            r == (PublicGame {
                id: self.id,
                created_at: self.created_at,
                updated_at: self.updated_at,
                game_version_id: self.game_version_id,
                is_finished: self.is_finished,
            }),
    {
        PublicGame {
            id: self.id,
            created_at: self.created_at,
            updated_at: self.updated_at,
            game_version_id: self.game_version_id,
            is_finished: self.is_finished,
        }
    }
}

pub struct NewGame {
    pub game_version_id: u64,
    pub is_finished: bool,
    pub game_state: String,
}

impl Clone for NewGame {
    fn clone(&self) -> (r: Self)
        ensures
            r == *self,
    {
        NewGame {
            game_version_id: self.game_version_id,
            is_finished: self.is_finished,
            game_state: self.game_state.clone(),
        }
    }
}

pub struct GamePlayer {
    pub id: u64,
    pub created_at: i64,
    pub updated_at: i64,
    pub game_id: u64,
    pub user_id: u64,
    pub position: usize,
    pub color: Color,
    pub has_accepted: bool,
    pub is_turn: bool,
    pub is_eliminated: bool,
    pub is_winner: bool,
    pub is_read: bool,
    pub undo_game_state: Option<String>,
}

impl Clone for GamePlayer {
    fn clone(&self) -> (r: Self)
        ensures
            r == *self,
    {
        GamePlayer {
            id: self.id,
            created_at: self.created_at,
            updated_at: self.updated_at,
            game_id: self.game_id,
            user_id: self.user_id,
            position: self.position,
            color: self.color,
            has_accepted: self.has_accepted,
            is_turn: self.is_turn,
            is_eliminated: self.is_eliminated,
            is_winner: self.is_winner,
            is_read: self.is_read,
            undo_game_state: clone_opt_string(&self.undo_game_state),
        }
    }
}

pub type PublicGamePlayer = GamePlayer;

pub struct NewGamePlayer {
    pub game_id: u64,
    pub user_id: u64,
    pub position: usize,
    pub color: Color,
    pub has_accepted: bool,
    pub is_turn: bool,
    pub is_eliminated: bool,
    pub is_winner: bool,
    pub is_read: bool,
}

pub struct PublicGamePlayerUser {
    pub game_player: PublicGamePlayer,
    pub user: PublicUser,
}

impl Clone for PublicGamePlayerUser {
    fn clone(&self) -> (r: Self)
        ensures
            r == *self,
    {
        PublicGamePlayerUser { game_player: self.game_player.clone(), user: self.user.clone() }
    }
}

pub struct GameLog {
    pub id: u64,
    pub created_at: i64,
    pub updated_at: i64,
    pub game_id: u64,
    pub body: String,
    pub is_public: bool,
    pub logged_at: i64,
}

impl Clone for GameLog {
    fn clone(&self) -> (r: Self)
        ensures
            r == *self,
    {
        GameLog {
            id: self.id,
            created_at: self.created_at,
            updated_at: self.updated_at,
            game_id: self.game_id,
            body: self.body.clone(),
            is_public: self.is_public,
            logged_at: self.logged_at,
        }
    }
}

pub type PublicGameLog = GameLog;

pub struct NewGameLog {
    pub game_id: u64,
    pub body: String,
    pub is_public: bool,
    pub logged_at: i64,
}

pub struct GameLogTarget {
    pub id: u64,
    pub created_at: i64,
    pub updated_at: i64,
    pub game_log_id: u64,
    pub game_player_id: u64,
}

impl Clone for GameLogTarget {
    fn clone(&self) -> (r: Self)
        ensures
            r == *self,
    {
        GameLogTarget {
            id: self.id,
            created_at: self.created_at,
            updated_at: self.updated_at,
            game_log_id: self.game_log_id,
            game_player_id: self.game_player_id,
        }
    }
}

pub struct NewGameLogTarget {
    pub game_log_id: u64,
    pub game_player_id: u64,
}

} // verus!
