//! The request/response protocol of the external game rules engine.
//!
//! The engine is a stateless process reached over the network: the service
//! sends one `Request` and decodes one `Response` per call. Both sides are
//! closed sum types, so an unexpected variant at a call site is surfaced as
//! an engine error. The process boundary (HTTP, JSON) lives outside the
//! library; here the protocol is plain values.

use vstd::prelude::*;

verus! {

/// One log line reported by the engine: templated text, a logical
/// timestamp, a public flag, and the seat positions that may see it when it
/// is not public.
pub struct CliLog {
    pub content: String,
    pub at: i64,
    pub public: bool,
    pub to: Vec<usize>,
}

/// The engine-reported status of a session.
pub enum Status {
    Active { whose_turn: Vec<usize>, eliminated: Vec<usize> },
    Finished { winners: Vec<usize> },
}

/// The engine's view of a session: its opaque serialized state and its
/// status.
pub struct EngineGame {
    pub state: String,
    pub status: Status,
}

/// A rendered view of a session: templated markup, the public state blob,
/// and the command schema offered to the viewer, if any.
pub struct Render {
    pub render: String,
    pub pub_state: String,
    pub command_spec: Option<String>,
}

impl Clone for Render {
    fn clone(&self) -> (r: Self)
        ensures
            r == *self,
    {
        Render {
            render: self.render.clone(),
            pub_state: self.pub_state.clone(),
            command_spec: match &self.command_spec {
                Some(s) => Some(s.clone()),
                None => None,
            },
        }
    }
}

/// A request to the engine. `Render` with no seat asks for the public
/// render.
pub enum Request {
    New { players: usize },
    Play { player: usize, game: String, command: String, names: Vec<String> },
    Render { player: Option<usize>, game: String },
    Status { game: String },
}

/// A response from the engine. `UserError` is a caller error to surface
/// verbatim; `SystemError` is an internal engine failure.
pub enum Response {
    New { game: EngineGame, logs: Vec<CliLog>, public_render: Render, player_renders: Vec<Render> },
    Play {
        game: EngineGame,
        logs: Vec<CliLog>,
        can_undo: bool,
        remaining_input: String,
        public_render: Render,
        player_renders: Vec<Render>,
    },
    Render { render: Render },
    Status { game: EngineGame, public_render: Render, player_renders: Vec<Render> },
    UserError { message: String },
    SystemError { message: String },
}

} // verus!
