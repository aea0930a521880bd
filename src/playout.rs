use vstd::prelude::*;

use crate::media::{decoder_args, decoder_args_spec, texts, MediaItem};

verus! {

/// An unrecoverable environment failure: the session cannot go on.
#[derive(Clone, Copy, Debug, PartialEq, Eq, Structural)]
pub enum FatalError {
    /// The decoder process could not be spawned.
    DecoderSpawn,
    /// Reading the decoder's output failed other than by a clean end of stream.
    DecoderRead,
    /// Waiting for the decoder's exit failed.
    DecoderReap,
    /// The encoder process could not be spawned.
    EncoderSpawn,
    /// The configured source mode is neither folder nor playlist.
    UnknownSourceMode,
    /// The configured output mode is not known.
    UnknownOutputMode,
    /// The folder to play from does not exist.
    MissingSourcePath,
}

/// Why a playout session ended.
#[derive(Clone, Copy, Debug, PartialEq, Eq, Structural)]
pub enum SessionEnd {
    /// The media source reported that the schedule is exhausted.
    Exhausted,
    /// The session-ending signal was observed at an item boundary.
    Cancelled,
    /// Writing to the encoder's input failed: the sink is unusable.
    SinkClosed,
    /// An unrecoverable failure.
    Fatal(FatalError),
}

/// Where the forwarding loop stands.
#[derive(Clone, Copy, Debug, PartialEq, Eq, Structural)]
pub enum Phase {
    /// Between items: the session-ending signal is checked and the next item
    /// is requested.
    AwaitItem,
    /// A decoder for the current item is being spawned.
    Spawning,
    /// Bytes of the current item, or of live ingest, are being forwarded.
    Forwarding,
    /// The current item is done; its decoder is to be reaped.
    Reaping,
    /// The session is over.
    Ended(SessionEnd),
}

/// What the loop does with one iteration's observations.
#[derive(Clone, Copy, Debug, PartialEq, Eq, Structural)]
pub enum Step {
    /// Write the pending ingest chunk to the encoder. When `takeover` is set
    /// this chunk starts live playback: ask the current decoder to terminate
    /// and signal the media source to resynchronise its schedule.
    ForwardLive { takeover: bool },
    /// Write exactly the bytes just read from the decoder to the encoder.
    ForwardDecoded,
    /// The current item is done; `handback` is set when live playback ends
    /// here and scheduled playback resumes.
    EndItem { handback: bool },
}

/// What to do with an item pulled from the media source.
#[derive(Debug)]
pub enum ItemPlan {
    /// The schedule is exhausted: end the session.
    EndSession,
    /// A placeholder: do not decode it, request the next item.
    Skip,
    /// Spawn a decoder with these arguments.
    Decode(Vec<String>),
}

/// The slots of termination handles, as the shutdown sequence visits them.
#[derive(Clone, Copy, Debug, PartialEq, Eq, Structural)]
pub enum Slot {
    Decoder,
    Encoder,
    Listener,
}

/// The decisions of the forwarding loop, kept apart from the I/O it drives.
///
/// `live` is set while ingest bytes are being forwarded; `stop_pending` is
/// set while the current item's decoder has not yet been asked to stop (and
/// is therefore still read); `resync_signalled` records that the current
/// item was interrupted by a takeover and the media source was told to
/// realign.
#[derive(Clone, Copy, Debug)]
pub struct PlayoutLoop {
    pub phase: Phase,
    pub live: bool,
    pub stop_pending: bool,
    pub resync_signalled: bool,
}

/// The item pulled from the media source ends the schedule.
pub open spec fn ends_schedule(item: Option<MediaItem>) -> bool {
    match item {
        Some(it) => it.cmd is None,
        None => true,
    }
}

/// The item is a placeholder that is skipped without decoding.
pub open spec fn is_placeholder(item: Option<MediaItem>) -> bool {
    !ends_schedule(item) && !item->0.playable
}

/// The state after an item was pulled from the media source.
pub open spec fn after_item(s: PlayoutLoop, item: Option<MediaItem>) -> PlayoutLoop {
    if ends_schedule(item) {
        PlayoutLoop { phase: Phase::Ended(SessionEnd::Exhausted), ..s }
    } else if is_placeholder(item) {
        s
    } else {
        PlayoutLoop { phase: Phase::Spawning, ..s }
    }
}

/// The state in which forwarding of a freshly spawned decoder begins.
pub open spec fn item_start(s: PlayoutLoop) -> bool {
    &&& s.phase == Phase::Forwarding
    &&& s.stop_pending
    &&& !s.live
    &&& !s.resync_signalled
}

/// The state after an attempt to spawn the decoder.
pub open spec fn after_spawn(s: PlayoutLoop, ok: bool) -> PlayoutLoop {
    if ok {
        PlayoutLoop { phase: Phase::Forwarding, live: false, stop_pending: true, resync_signalled: false }
    } else {
        PlayoutLoop { phase: Phase::Ended(SessionEnd::Fatal(FatalError::DecoderSpawn)), ..s }
    }
}

/// One iteration of the forwarding loop: `read_len` is what the decoder
/// read returned (taken as zero once the decoder was asked to stop, as it is
/// then no longer read) and `chunk` tells whether an ingest chunk was pending.
///
/// A pending chunk always wins; otherwise decoded bytes are forwarded;
/// otherwise the item is done.
pub open spec fn step_spec(s: PlayoutLoop, read_len: nat, chunk: bool) -> (PlayoutLoop, Step) {
    let read = if s.stop_pending {
        read_len
    } else {
        0
    };
    if chunk {
        (
            PlayoutLoop {
                live: true,
                stop_pending: false,
                resync_signalled: s.resync_signalled || s.stop_pending,
                ..s
            },
            Step::ForwardLive { takeover: s.stop_pending },
        )
    } else if read > 0 {
        (PlayoutLoop { live: false, ..s }, Step::ForwardDecoded)
    } else {
        (PlayoutLoop { phase: Phase::Reaping, live: false, ..s }, Step::EndItem { handback: s.live })
    }
}

/// The state after the decoder was reaped.
pub open spec fn after_reap(s: PlayoutLoop, ok: bool) -> PlayoutLoop {
    if ok {
        PlayoutLoop { phase: Phase::AwaitItem, ..s }
    } else {
        PlayoutLoop { phase: Phase::Ended(SessionEnd::Fatal(FatalError::DecoderReap)), ..s }
    }
}

/// The step asks the decoder to stop and the media source to resynchronise.
pub open spec fn is_takeover(a: Step) -> bool {
    match a {
        Step::ForwardLive { takeover } => takeover,
        _ => false,
    }
}

impl PlayoutLoop {
    /// A loop that waits for its first item.
    pub fn new() -> (r: Self)
        ensures
            r.phase == Phase::AwaitItem,
            !r.live,
            !r.stop_pending,
            !r.resync_signalled,
    {
        PlayoutLoop { phase: Phase::AwaitItem, live: false, stop_pending: false, resync_signalled: false }
    }

    /// At an item boundary, ends the session if its ending signal is set.
    pub fn check_shutdown(&mut self, ending: bool) -> (stop: bool)
        requires
            old(self).phase == Phase::AwaitItem,
        ensures
            stop == ending,
            *final(self) == if ending {
                PlayoutLoop { phase: Phase::Ended(SessionEnd::Cancelled), ..*old(self) }
            } else {
                *old(self)
            },
    {
        if ending {
            self.phase = Phase::Ended(SessionEnd::Cancelled);
        }
        ending
    }

    /// Decides what to do with the item pulled from the media source:
    /// end the session when no command is present, skip a placeholder, or
    /// compose the decoder invocation.
    pub fn next_item(&mut self, item: &Option<MediaItem>, log_format: &str, settings: &Vec<String>) -> (r:
        ItemPlan)
        requires
            old(self).phase == Phase::AwaitItem,
        ensures
            *final(self) == after_item(*old(self), *item),
            (r is EndSession) == ends_schedule(*item),
            (r is Skip) == is_placeholder(*item),
            r is Decode ==> texts(r->0@) == decoder_args_spec(
                log_format@,
                item->0.cmd->0@,
                item->0.filter,
                settings@,
            ),
    {
        match item {
            None => {
                self.phase = Phase::Ended(SessionEnd::Exhausted);
                ItemPlan::EndSession
            },
            Some(it) => match &it.cmd {
                None => {
                    self.phase = Phase::Ended(SessionEnd::Exhausted);
                    ItemPlan::EndSession
                },
                Some(cmd) => {
                    if !it.playable {
                        ItemPlan::Skip
                    } else {
                        self.phase = Phase::Spawning;
                        ItemPlan::Decode(decoder_args(log_format, cmd, &it.filter, settings))
                    }
                },
            },
        }
    }

    /// Records the outcome of spawning the decoder: on success forwarding
    /// begins with the decoder still to be read; a failure is fatal.
    pub fn decoder_started(&mut self, ok: bool)
        requires
            old(self).phase == Phase::Spawning,
        ensures
            *final(self) == after_spawn(*old(self), ok),
            ok ==> item_start(*final(self)),
    {
        if ok {
            self.phase = Phase::Forwarding;
            self.live = false;
            self.stop_pending = true;
            self.resync_signalled = false;
        } else {
            self.phase = Phase::Ended(SessionEnd::Fatal(FatalError::DecoderSpawn));
        }
    }

    /// Whether the decoder's output is to be read in this iteration: only
    /// until the decoder has been asked to stop.
    pub fn wants_read(&self) -> (r: bool)
        requires
            self.phase == Phase::Forwarding,
        ensures
            r == self.stop_pending,
    {
        self.stop_pending
    }

    /// One iteration of the forwarding loop; see `step_spec`.
    pub fn step(&mut self, read_len: usize, chunk: bool) -> (r: Step)
        requires
            old(self).phase == Phase::Forwarding,
        ensures
            (*final(self), r) == step_spec(*old(self), read_len as nat, chunk),
            chunk ==> r is ForwardLive && final(self).live,
            (r is EndItem) == (!chunk && (read_len == 0 || !old(self).stop_pending)),
            is_takeover(r) == (chunk && old(self).stop_pending),
    {
        let read = if self.stop_pending {
            read_len
        } else {
            0
        };
        if chunk {
            let takeover = self.stop_pending;
            self.live = true;
            self.stop_pending = false;
            self.resync_signalled = self.resync_signalled || takeover;
            Step::ForwardLive { takeover }
        } else if read > 0 {
            self.live = false;
            Step::ForwardDecoded
        } else {
            let handback = self.live;
            self.phase = Phase::Reaping;
            self.live = false;
            Step::EndItem { handback }
        }
    }

    /// Reading the decoder's output failed: the session ends with a fatal
    /// error.
    pub fn read_failed(&mut self)
        requires
            old(self).phase == Phase::Forwarding,
        ensures
            *final(self) == (PlayoutLoop {
                phase: Phase::Ended(SessionEnd::Fatal(FatalError::DecoderRead)),
                ..*old(self)
            }),
    {
        self.phase = Phase::Ended(SessionEnd::Fatal(FatalError::DecoderRead));
    }

    /// Writing to the encoder failed: the whole session ends, not just the
    /// item.
    pub fn write_failed(&mut self)
        requires
            old(self).phase == Phase::Forwarding,
        ensures
            *final(self) == (PlayoutLoop { phase: Phase::Ended(SessionEnd::SinkClosed), ..*old(self) }),
    {
        self.phase = Phase::Ended(SessionEnd::SinkClosed);
    }

    /// Records the outcome of reaping the decoder: on success the next item
    /// is requested; a wait failure is fatal.
    pub fn decoder_reaped(&mut self, ok: bool)
        requires
            old(self).phase == Phase::Reaping,
        ensures
            *final(self) == after_reap(*old(self), ok),
    {
        if ok {
            self.phase = Phase::AwaitItem;
        } else {
            self.phase = Phase::Ended(SessionEnd::Fatal(FatalError::DecoderReap));
        }
    }

    /// The session's result once it has ended: `Ok` with the reason of a
    /// regular end, `Err` with a fatal error; `None` while it runs.
    pub fn outcome(&self) -> (r: Option<Result<SessionEnd, FatalError>>)
        ensures
            match self.phase {
                Phase::Ended(SessionEnd::Fatal(e)) => r == Some(Err::<SessionEnd, FatalError>(e)),
                Phase::Ended(end) => r == Some(Ok::<SessionEnd, FatalError>(end)),
                _ => r is None,
            },
    {
        match self.phase {
            Phase::Ended(SessionEnd::Fatal(e)) => Some(Err(e)),
            Phase::Ended(end) => Some(Ok(end)),
            _ => None,
        }
    }
}

/// The order in which the shutdown sequence terminates what is still
/// registered: the decoder, then the encoder, then the ingest listener.
pub fn shutdown_order() -> (r: Vec<Slot>)
    ensures
        r@ == seq![Slot::Decoder, Slot::Encoder, Slot::Listener],
{
    let mut r: Vec<Slot> = Vec::new();
    r.push(Slot::Decoder);
    r.push(Slot::Encoder);
    r.push(Slot::Listener);
    r
}

} // verus!
