//! Protocol types shared between the connection handlers and the player
//! control loop: the command vocabulary, payload validation, and responses.

use vstd::prelude::*;

verus! {

/// The closed vocabulary of control requests understood by the player loop.
#[derive(Clone, Copy, Debug, PartialEq, Eq, Structural)]
pub enum CommandTypes {
    Skip,
    Clear,
    Pause,
    Resume,
    Shutdown,
    AddQueue,
    LoopSong,
    LoopQueue,
    SetVolume,
    AddPlaylist,
    Status,
}

/// The command kinds that carry a mandatory payload string.
pub open spec fn requires_payload(kind: CommandTypes) -> bool {
    kind == CommandTypes::AddQueue || kind == CommandTypes::AddPlaylist
        || kind == CommandTypes::SetVolume
}

/// One inbound control request: a command kind plus an optional payload.
pub struct Command {
    pub command: CommandTypes,
    pub payload: Option<String>,
}

impl Command {
    /// A command is well-formed when every kind that needs a payload has one.
    pub open spec fn payload_ok(&self) -> bool {
        requires_payload(self.command) ==> self.payload is Some
    }

    /// Validates the `payload` field of a Command object for ADD_QUEUE,
    /// ADD_PLAYLIST and SET_VOLUME.  If the command is not one of these 3,
    /// it returns true.
    pub fn validate_payload(&self) -> (r: bool)
        ensures
            r == self.payload_ok(),
    {
        match self.command {
            CommandTypes::AddQueue | CommandTypes::AddPlaylist | CommandTypes::SetVolume => {
                self.payload.is_some()
            },
            _ => true,
        }
    }
}

/// One reply to a control request: status `"OK"`, or `"ERR"` with a message.
pub struct Response {
    pub status: String,
    pub errmsg: Option<String>,
}

impl Response {
    /// A successful reply: status `"OK"` and no error message.
    pub open spec fn is_success(&self) -> bool {
        self.status@ == "OK"@ && self.errmsg is None
    }

    /// A failed reply: status `"ERR"` and some error message.
    pub open spec fn is_failure(&self) -> bool {
        self.status@ == "ERR"@ && self.errmsg is Some
    }

    /// A failed reply carrying exactly the message `m`.
    pub open spec fn is_failure_with(&self, m: Seq<char>) -> bool {
        self.status@ == "ERR"@ && (self.errmsg matches Some(e) && e@ == m)
    }

    pub fn ok() -> (r: Response)
        ensures
            r.is_success(),
    {
        Response { status: "OK".to_owned(), errmsg: None }
    }

    pub fn err(message: &str) -> (r: Response)
        ensures
            r.is_failure_with(message@),
            r.is_failure(),
    {
        Response { status: "ERR".to_owned(), errmsg: Some(message.to_owned()) }
    }
}

} // verus!
