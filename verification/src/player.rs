//! The player control state machine.  The control loop that owns the queue
//! multiplexes three event sources — inbound commands, a periodic tick, and
//! the sink's end-of-track notification — and this module decides, for every
//! such event, the next state, the change to the queue, the reply to the
//! caller, and the order to hand to the audio sink.  The loop around it only
//! performs I/O: it reads commands and playlist files, drives the sink, and
//! reports the decisions back.

use vstd::prelude::*;

use crate::playlist;
use crate::queue::{Queue, QueueView};
use crate::shared::{Command, CommandTypes, Response};

verus! {

/// The playback state the control loop tracks.  `Playing` and `Paused` both
/// mean that a track is loaded in the sink.
#[derive(Clone, Copy, Debug, PartialEq, Eq, Structural)]
pub enum PlayerState {
    Idle,
    Playing,
    Paused,
}

/// The order a command hands to the audio sink.  The state machine never
/// touches the sink itself; the loop around it carries the order out.
#[derive(Clone, Copy, Debug, PartialEq, Eq, Structural)]
pub enum SinkAction {
    Stay,
    Stop,
    Pause,
    Resume,
}

/// Whether a track is loaded in the sink (playing or paused).
pub open spec fn track_loaded(s: PlayerState) -> bool {
    s != PlayerState::Idle
}

/// Mathematical model of the control loop state.
#[verifier::ext_equal]
pub ghost struct PlayerView {
    pub queue: QueueView,
    pub state: PlayerState,
    pub stopping: bool,
}

/// The control loop state: the queue it owns, the playback state, and
/// whether a shutdown has been requested.
pub struct PlayerContext {
    pub queue: Queue,
    state: PlayerState,
    stopping: bool,
}

impl View for PlayerContext {
    type V = PlayerView;

    closed spec fn view(&self) -> PlayerView {
        PlayerView { queue: self.queue@, state: self.state, stopping: self.stopping }
    }
}

/// SKIP stops the loaded track (the advancement itself follows from the
/// end-of-track notification this provokes) and is an error when nothing
/// is loaded.
pub open spec fn skip_post(pre: PlayerView, post: PlayerView, resp: Response, act: SinkAction) -> bool {
    if track_loaded(pre.state) {
        &&& resp.is_success()
        &&& act == SinkAction::Stop
        &&& post == pre
    } else {
        &&& resp.is_failure_with("no song is currently playing"@)
        &&& act == SinkAction::Stay
        &&& post == pre
    }
}

/// CLEAR always succeeds: the queue is emptied, both repeat flags fall, and
/// a loaded track is stopped.
pub open spec fn clear_post(pre: PlayerView, post: PlayerView, resp: Response, act: SinkAction) -> bool {
    &&& resp.is_success()
    &&& act == if track_loaded(pre.state) {
        SinkAction::Stop
    } else {
        SinkAction::Stay
    }
    &&& post == (PlayerView { queue: QueueView::empty(), ..pre })
}

/// PAUSE pauses a playing track and is an error when nothing is loaded or
/// the track is already paused.
pub open spec fn pause_post(pre: PlayerView, post: PlayerView, resp: Response, act: SinkAction) -> bool {
    match pre.state {
        PlayerState::Idle => {
            &&& resp.is_failure_with("no song is currently playing"@)
            &&& act == SinkAction::Stay
            &&& post == pre
        },
        PlayerState::Paused => {
            &&& resp.is_failure_with("the current song is already paused"@)
            &&& act == SinkAction::Stay
            &&& post == pre
        },
        PlayerState::Playing => {
            &&& resp.is_success()
            &&& act == SinkAction::Pause
            &&& post == (PlayerView { state: PlayerState::Paused, ..pre })
        },
    }
}

/// RESUME always succeeds: resuming a sink that is not paused is a
/// documented no-op, not an error.
pub open spec fn resume_post(pre: PlayerView, post: PlayerView, resp: Response, act: SinkAction) -> bool {
    &&& resp.is_success()
    &&& act == SinkAction::Resume
    &&& post == (PlayerView {
        state: if pre.state == PlayerState::Paused {
            PlayerState::Playing
        } else {
            pre.state
        },
        ..pre
    })
}

/// SHUTDOWN always succeeds: the queue is emptied, the sink is stopped, and
/// the stopping flag tells the control loop to terminate after replying.
pub open spec fn shutdown_post(pre: PlayerView, post: PlayerView, resp: Response, act: SinkAction) -> bool {
    &&& resp.is_success()
    &&& act == SinkAction::Stop
    &&& post == (PlayerView { queue: QueueView::empty(), stopping: true, ..pre })
}

/// ADD_QUEUE appends its payload to the back of the queue and fails only on
/// a missing payload.
pub open spec fn add_queue_post(
    pre: PlayerView,
    post: PlayerView,
    resp: Response,
    act: SinkAction,
    payload: Option<String>,
) -> bool {
    match payload {
        Option::None => {
            &&& resp.is_failure_with("ADD_QUEUE packet is missing its payload"@)
            &&& act == SinkAction::Stay
            &&& post == pre
        },
        Option::Some(p) => {
            &&& resp.is_success()
            &&& act == SinkAction::Stay
            &&& post == (PlayerView { queue: pre.queue.appended(p@), ..pre })
        },
    }
}

/// LOOP_SONG toggles the repeat-one flag and requires a loaded track.
pub open spec fn loop_song_post(pre: PlayerView, post: PlayerView, resp: Response, act: SinkAction) -> bool {
    if track_loaded(pre.state) {
        &&& resp.is_success()
        &&& act == SinkAction::Stay
        &&& post == (PlayerView {
            queue: QueueView { loop_current: !pre.queue.loop_current, ..pre.queue },
            ..pre
        })
    } else {
        &&& resp.is_failure_with("no song is currently playing"@)
        &&& act == SinkAction::Stay
        &&& post == pre
    }
}

/// LOOP_QUEUE toggles the repeat-all flag and requires a non-empty queue.
pub open spec fn loop_queue_post(pre: PlayerView, post: PlayerView, resp: Response, act: SinkAction) -> bool {
    if pre.queue.entries.len() == 0 {
        &&& resp.is_failure_with("the queue is currently empty, nothing to loop"@)
        &&& act == SinkAction::Stay
        &&& post == pre
    } else {
        &&& resp.is_success()
        &&& act == SinkAction::Stay
        &&& post == (PlayerView {
            queue: QueueView { loop_all: !pre.queue.loop_all, ..pre.queue },
            ..pre
        })
    }
}

/// ADD_PLAYLIST fails without mutation on a missing payload; with one, the
/// queue is first cleared (and a loaded track stopped), then the playlist
/// replaces it wholesale.  When the load fails — wrong extension or an
/// unreadable file, `contents` being the text the loop could read — the
/// caller gets a generic error and the queue stays empty.
pub open spec fn add_playlist_post(
    pre: PlayerView,
    post: PlayerView,
    resp: Response,
    act: SinkAction,
    payload: Option<String>,
    contents: Option<&str>,
) -> bool {
    match payload {
        Option::None => {
            &&& resp.is_failure_with("ADD_PLAYLIST packet is missing its payload"@)
            &&& act == SinkAction::Stay
            &&& post == pre
        },
        Option::Some(p) => {
            &&& act == if track_loaded(pre.state) {
                SinkAction::Stop
            } else {
                SinkAction::Stay
            }
            &&& post.state == pre.state
            &&& post.stopping == pre.stopping
            &&& if playlist::is_m3u_path(p@) && contents is Some {
                &&& resp.is_success()
                &&& post.queue == QueueView::empty().extended(
                    playlist::playlist_entries(contents.unwrap()@),
                )
            } else {
                &&& resp.is_failure_with(
                    "failed to process playlist file, check your logs for more information"@,
                )
                &&& post.queue == QueueView::empty()
            }
        },
    }
}

/// SET_VOLUME and STATUS are part of the command vocabulary but not carried
/// out by the control loop.
pub open spec fn not_implemented_post(pre: PlayerView, post: PlayerView, resp: Response, act: SinkAction) -> bool {
    &&& resp.is_failure_with("this command is not implemented"@)
    &&& act == SinkAction::Stay
    &&& post == pre
}

/// What one dispatched command does, by kind: the reply it earns, the order
/// the sink receives, and the state the control loop moves to.
pub open spec fn read_packet_post(
    pre: PlayerView,
    post: PlayerView,
    resp: Response,
    act: SinkAction,
    command: Command,
    playlist_text: Option<&str>,
) -> bool {
    match command.command {
        CommandTypes::Skip => skip_post(pre, post, resp, act),
        CommandTypes::Clear => clear_post(pre, post, resp, act),
        CommandTypes::Pause => pause_post(pre, post, resp, act),
        CommandTypes::Resume => resume_post(pre, post, resp, act),
        CommandTypes::Shutdown => shutdown_post(pre, post, resp, act),
        CommandTypes::AddQueue => add_queue_post(pre, post, resp, act, command.payload),
        CommandTypes::LoopSong => loop_song_post(pre, post, resp, act),
        CommandTypes::LoopQueue => loop_queue_post(pre, post, resp, act),
        CommandTypes::AddPlaylist => add_playlist_post(
            pre,
            post,
            resp,
            act,
            command.payload,
            playlist_text,
        ),
        CommandTypes::SetVolume => not_implemented_post(pre, post, resp, act),
        CommandTypes::Status => not_implemented_post(pre, post, resp, act),
    }
}

impl PlayerContext {
    pub fn new() -> (p: PlayerContext)
        ensures
            p@.queue == QueueView::empty(),
            p@.state == PlayerState::Idle,
            !p@.stopping,
    {
        PlayerContext { queue: Queue::new(), state: PlayerState::Idle, stopping: false }
    }

    pub fn skip(&mut self) -> (r: (Response, SinkAction))
        ensures
            skip_post(old(self)@, final(self)@, r.0, r.1),
    {
        if self.state == PlayerState::Idle {
            return (Response::err("no song is currently playing"), SinkAction::Stay);
        }

        (Response::ok(), SinkAction::Stop)
    }

    pub fn clear(&mut self) -> (r: (Response, SinkAction))
        ensures
            clear_post(old(self)@, final(self)@, r.0, r.1),
    {
        self.queue.clear();
        let act = if self.state != PlayerState::Idle {
            SinkAction::Stop
        } else {
            SinkAction::Stay
        };
        proof {
            assert(self@ =~= (PlayerView { queue: QueueView::empty(), ..old(self)@ }));
        }
        (Response::ok(), act)
    }

    pub fn pause(&mut self) -> (r: (Response, SinkAction))
        ensures
            pause_post(old(self)@, final(self)@, r.0, r.1),
    {
        if self.state == PlayerState::Idle {
            return (Response::err("no song is currently playing"), SinkAction::Stay);
        }

        if self.state == PlayerState::Paused {
            return (Response::err("the current song is already paused"), SinkAction::Stay);
        }

        self.state = PlayerState::Paused;
        (Response::ok(), SinkAction::Pause)
    }

    pub fn resume(&mut self) -> (r: (Response, SinkAction))
        ensures
            resume_post(old(self)@, final(self)@, r.0, r.1),
    {
        // resuming a sink that is not paused does nothing, so this needs no
        // state check
        if self.state == PlayerState::Paused {
            self.state = PlayerState::Playing;
        }

        (Response::ok(), SinkAction::Resume)
    }

    pub fn shutdown(&mut self) -> (r: (Response, SinkAction))
        ensures
            shutdown_post(old(self)@, final(self)@, r.0, r.1),
    {
        self.queue.clear();
        self.stopping = true;
        proof {
            assert(self@ =~= (PlayerView {
                queue: QueueView::empty(),
                stopping: true,
                ..old(self)@
            }));
        }
        (Response::ok(), SinkAction::Stop)
    }

    pub fn add_queue(&mut self, command: Command) -> (r: (Response, SinkAction))
        requires
            command.command == CommandTypes::AddQueue,
        ensures
            add_queue_post(old(self)@, final(self)@, r.0, r.1, command.payload),
    {
        if !command.validate_payload() {
            return (Response::err("ADD_QUEUE packet is missing its payload"), SinkAction::Stay);
        }

        let path = command.payload.unwrap();
        self.queue.append(path);
        proof {
            assert(self@ =~= (PlayerView {
                queue: old(self)@.queue.appended(command.payload.unwrap()@),
                ..old(self)@
            }));
        }
        (Response::ok(), SinkAction::Stay)
    }

    pub fn loop_song(&mut self) -> (r: (Response, SinkAction))
        ensures
            loop_song_post(old(self)@, final(self)@, r.0, r.1),
    {
        if self.state == PlayerState::Idle {
            return (Response::err("no song is currently playing"), SinkAction::Stay);
        }

        self.queue.loop_song();
        proof {
            assert(self@ =~= (PlayerView {
                queue: QueueView { loop_current: !old(self)@.queue.loop_current, ..old(self)@.queue },
                ..old(self)@
            }));
        }
        (Response::ok(), SinkAction::Stay)
    }

    pub fn loop_queue(&mut self) -> (r: (Response, SinkAction))
        ensures
            loop_queue_post(old(self)@, final(self)@, r.0, r.1),
    {
        if self.queue.is_empty() {
            return (
                Response::err("the queue is currently empty, nothing to loop"),
                SinkAction::Stay,
            );
        }

        self.queue.loop_queue();
        proof {
            assert(self@ =~= (PlayerView {
                queue: QueueView { loop_all: !old(self)@.queue.loop_all, ..old(self)@.queue },
                ..old(self)@
            }));
        }
        (Response::ok(), SinkAction::Stay)
    }

    /// `contents` is the text of the playlist file named by the payload, as
    /// far as the loop could read it; the decision what to do with it is
    /// made here.
    pub fn add_playlist(&mut self, command: Command, contents: Option<&str>) -> (r: (
        Response,
        SinkAction,
    ))
        requires
            command.command == CommandTypes::AddPlaylist,
        ensures
            add_playlist_post(old(self)@, final(self)@, r.0, r.1, command.payload, contents),
    {
        if !command.validate_payload() {
            return (
                Response::err("ADD_PLAYLIST packet is missing its payload"),
                SinkAction::Stay,
            );
        }

        self.queue.clear();
        let act = if self.state != PlayerState::Idle {
            SinkAction::Stop
        } else {
            SinkAction::Stay
        };

        let path = command.payload.unwrap();
        match self.queue.load_m3u(path.as_str(), contents) {
            Some(_count) => {
                proof {
                    assert(self@.queue =~= QueueView::empty().extended(
                        playlist::playlist_entries(contents.unwrap()@),
                    ));
                }
                (Response::ok(), act)
            },
            None => {
                (
                    Response::err(
                        "failed to process playlist file, check your logs for more information",
                    ),
                    act,
                )
            },
        }
    }

    /// Routes one dispatched command to its handler.
    pub fn read_packet(&mut self, command: Command, playlist_text: Option<&str>) -> (r: (
        Response,
        SinkAction,
    ))
        ensures
            read_packet_post(old(self)@, final(self)@, r.0, r.1, command, playlist_text),
    {
        match command.command {
            CommandTypes::Skip => self.skip(),
            CommandTypes::Clear => self.clear(),
            CommandTypes::Pause => self.pause(),
            CommandTypes::Resume => self.resume(),
            CommandTypes::Shutdown => self.shutdown(),
            CommandTypes::AddQueue => self.add_queue(command),
            CommandTypes::LoopSong => self.loop_song(),
            CommandTypes::LoopQueue => self.loop_queue(),
            CommandTypes::AddPlaylist => self.add_playlist(command, playlist_text),
            CommandTypes::SetVolume => (
                Response::err("this command is not implemented"),
                SinkAction::Stay,
            ),
            CommandTypes::Status => (
                Response::err("this command is not implemented"),
                SinkAction::Stay,
            ),
        }
    }

    /// Decides whether the periodic tick should start a track: the locator
    /// under the cursor, when nothing is loaded and the queue has one.
    pub fn poll_tick(&self) -> (r: Option<String>)
        ensures
            match r {
                Some(s) => self@.state == PlayerState::Idle && self@.queue.peek() == Some(s@),
                None => self@.state != PlayerState::Idle || self@.queue.peek() is None,
            },
    {
        if self.state == PlayerState::Idle {
            self.queue.peek()
        } else {
            None
        }
    }

    /// Records that the sink accepted the track under the cursor: the state
    /// turns `Playing` and the queue advances by one policy step, so that
    /// the next start attempt finds the next entry.
    pub fn track_started(&mut self)
        ensures
            final(self)@ == (PlayerView {
                state: PlayerState::Playing,
                queue: old(self)@.queue.stepped(),
                ..old(self)@
            }),
    {
        self.state = PlayerState::Playing;
        self.queue.move_next();
        proof {
            assert(self@ =~= (PlayerView {
                state: PlayerState::Playing,
                queue: old(self)@.queue.stepped(),
                ..old(self)@
            }));
        }
    }

    /// Records that the track under the cursor failed to open or decode:
    /// the entry is dropped from the queue and the state stays as it is;
    /// the loop will retry at its next advancement opportunity.
    pub fn track_failed(&mut self)
        ensures
            final(self)@ == (PlayerView {
                queue: old(self)@.queue.dropped_current(),
                ..old(self)@
            }),
    {
        self.queue.remove_curr();
        proof {
            assert(self@ =~= (PlayerView {
                queue: old(self)@.queue.dropped_current(),
                ..old(self)@
            }));
        }
    }

    /// Records the sink's end-of-track notification: nothing is loaded any
    /// more.
    pub fn track_finished(&mut self)
        ensures
            final(self)@ == (PlayerView { state: PlayerState::Idle, ..old(self)@ }),
    {
        self.state = PlayerState::Idle;
    }

    pub fn current_state(&self) -> (s: PlayerState)
        ensures
            s == self@.state,
    {
        self.state
    }

    /// Whether a SHUTDOWN command has been handled; once set it never falls,
    /// and the control loop stops taking dispatches as soon as it sees it.
    pub fn is_stopping(&self) -> (b: bool)
        ensures
            b == self@.stopping,
    {
        self.stopping
    }
}

/// PAUSE while idle is an error and changes nothing.
pub proof fn lemma_pause_idle(pre: PlayerView, post: PlayerView, resp: Response, act: SinkAction)
    requires
        pre.state == PlayerState::Idle,
        pause_post(pre, post, resp, act),
    ensures
        resp.is_failure_with("no song is currently playing"@),
        post == pre,
{
}

/// Two PAUSEs in a row on a playing track answer OK, then the
/// "already paused" error.
pub proof fn lemma_pause_twice(
    pre: PlayerView,
    mid: PlayerView,
    post: PlayerView,
    resp1: Response,
    act1: SinkAction,
    resp2: Response,
    act2: SinkAction,
)
    requires
        pre.state == PlayerState::Playing,
        pause_post(pre, mid, resp1, act1),
        pause_post(mid, post, resp2, act2),
    ensures
        resp1.is_success(),
        resp2.is_failure_with("the current song is already paused"@),
        post == mid,
{
}

/// CLEAR always succeeds and leaves the queue empty with both repeat flags
/// unset, whatever the prior state.
pub proof fn lemma_clear_resets(pre: PlayerView, post: PlayerView, resp: Response, act: SinkAction)
    requires
        clear_post(pre, post, resp, act),
    ensures
        resp.is_success(),
        post.queue.entries.len() == 0,
        !post.queue.loop_current,
        !post.queue.loop_all,
{
}

/// A failing ADD_PLAYLIST — a payload naming a file without the recognized
/// extension, or one whose text could not be read — answers ERR and leaves
/// the queue empty: the clear that precedes the load is not rolled back.
pub proof fn lemma_add_playlist_failure_clears(
    pre: PlayerView,
    post: PlayerView,
    resp: Response,
    act: SinkAction,
    payload: Option<String>,
    contents: Option<&str>,
)
    requires
        (payload matches Some(p) && !(playlist::is_m3u_path(p@) && contents is Some)),
        add_playlist_post(pre, post, resp, act, payload, contents),
    ensures
        resp.is_failure_with("failed to process playlist file, check your logs for more information"@),
        post.queue == QueueView::empty(),
{
}

/// SHUTDOWN always succeeds and raises the stopping flag on which the
/// control loop stops accepting further dispatches.
pub proof fn lemma_shutdown_stops(pre: PlayerView, post: PlayerView, resp: Response, act: SinkAction)
    requires
        shutdown_post(pre, post, resp, act),
    ensures
        resp.is_success(),
        post.stopping,
        post.queue.entries.len() == 0,
{
}

} // verus!
