//! The one place through which the rest of a program emits log events. It
//! is set up once; until then every event is dropped.

use crate::error::CoreError;
use crate::level::{filter_named, parse_level_filter, Level, LevelFilter};
use crate::logger::{LogBuffer, LogEntry, LogState};
use vstd::prelude::*;

verus! {

/// The state that a sink has after an event was offered to it: before the
/// set-up the event is dropped, afterwards the buffer decides.
pub open spec fn emitted(
    sink: Option<LogState>,
    level: Level,
    target: Seq<char>,
    message: Seq<char>,
    ts: Seq<char>,
) -> Option<LogState> {
    match sink {
        Some(s) => Some(s.append(level, target, message, ts)),
        None => None,
    }
}

/// Whether a sink accepts an event of `level`.
pub open spec fn accepts(sink: Option<LogState>, level: Level) -> bool {
    sink matches Some(s) && s.level.allows(level)
}

/// The state that a sink has after a set-up was asked for: the first
/// request creates the empty buffer, every later one is ignored.
pub open spec fn set_up(sink: Option<LogState>, max_len: nat, level: LevelFilter) -> Option<
    LogState,
> {
    match sink {
        Some(s) => Some(s),
        None => Some(LogState::empty(max_len, level)),
    }
}

/// A log buffer that may not have been set up yet.
pub struct LogSink {
    buffer: Option<LogBuffer>,
}

impl View for LogSink {
    type V = Option<LogState>;

    closed spec fn view(&self) -> Option<LogState> {
        match self.buffer {
            Some(b) => Some(b@),
            None => None,
        }
    }
}

impl LogSink {
    /// The buffer of a sink that was set up is well-formed.
    pub open spec fn wf(&self) -> bool {
        self@ matches Some(s) ==> s.wf()
    }

    /// A sink that is not set up yet.
    pub fn new() -> (sink: Self)
        ensures
            sink.wf(),
            sink@ is None,
    {
        LogSink { buffer: None }
    }

    /// Whether the sink was set up.
    pub fn is_initialized(&self) -> (b: bool)
        ensures
            b == self@ is Some,
    {
        self.buffer.is_some()
    }

    /// Sets the sink up with an empty buffer of the given capacity and
    /// threshold. Returns whether this call did it: on a sink that was set
    /// up before, nothing changes.
    pub fn init(&mut self, max_len: usize, level: LevelFilter) -> (first: bool)
        requires
            old(self).wf(),
        ensures
            final(self).wf(),
            first == old(self)@ is None,
            final(self)@ == set_up(old(self)@, max_len as nat, level),
    {
        if self.buffer.is_some() {
            false
        } else {
            self.buffer = Some(LogBuffer::new(max_len, level));
            true
        }
    }

    /// The buffer, once the sink is set up.
    pub fn buffer(&self) -> (buffer: Option<&LogBuffer>)
        ensures
            buffer is Some <==> self@ is Some,
            buffer matches Some(b) ==> Some(b@) == self@,
    {
        self.buffer.as_ref()
    }

    /// Whether an event of `level` would be accepted now: the threshold is
    /// looked up at each call.
    pub fn enabled(&self, level: Level) -> (b: bool)
        ensures
            b == accepts(self@, level),
    {
        match &self.buffer {
            Some(buffer) => buffer.enabled(level),
            None => false,
        }
    }

    /// Offers an event with `ts` as its time stamp. Returns the entry that
    /// was stored where it was accepted, for the caller to pass on to
    /// whoever listens.
    pub fn emit(&mut self, level: Level, target: &str, msg: String, ts: String) -> (accepted:
        Option<LogEntry>)
        requires
            old(self).wf(),
            old(self)@ matches Some(s) ==> (s.level.allows(level) ==> s.seq < u64::MAX),
        ensures
            final(self).wf(),
            accepted is Some <==> accepts(old(self)@, level),
            accepted matches Some(entry) ==> entry@ == old(self)@->0.next_record(
                level,
                target@,
                msg@,
                ts@,
            ),
            final(self)@ == emitted(old(self)@, level, target@, msg@, ts@),
    {
        let mut buffer = match self.buffer.take() {
            Some(buffer) => buffer,
            None => {
                return None;
            },
        };
        let accepted = buffer.append(level, target, msg, ts);
        self.buffer = Some(buffer);
        accepted
    }

    /// Sets the threshold of a sink that is set up; returns whether it is.
    pub fn set_level(&mut self, level: LevelFilter) -> (done: bool)
        requires
            old(self).wf(),
        ensures
            final(self).wf(),
            done == old(self)@ is Some,
            final(self)@ == match old(self)@ {
                Some(s) => Some(s.set_level(level)),
                None => None,
            },
    {
        let mut buffer = match self.buffer.take() {
            Some(buffer) => buffer,
            None => {
                return false;
            },
        };
        buffer.set_level(level);
        self.buffer = Some(buffer);
        true
    }

    /// Sets the threshold to the one that `name` stands for. An unknown name
    /// is refused and leaves the threshold as it was.
    pub fn set_level_by_name(&mut self, name: &str) -> (done: Result<LevelFilter, CoreError>)
        requires
            old(self).wf(),
        ensures
            final(self).wf(),
            match filter_named(name@) {
                Some(filter) => {
                    &&& done == Ok::<LevelFilter, CoreError>(filter)
                    &&& final(self)@ == match old(self)@ {
                        Some(s) => Some(s.set_level(filter)),
                        None => None,
                    }
                },
                None => {
                    &&& done == Err::<LevelFilter, CoreError>(CoreError::InvalidLevel)
                    &&& final(self)@ == old(self)@
                },
            },
    {
        match parse_level_filter(name) {
            Ok(filter) => {
                self.set_level(filter);
                Ok(filter)
            },
            Err(e) => Err(e),
        }
    }

    /// Drops the stored entries of a sink that is set up; returns whether it
    /// is. The counter stays.
    pub fn clear(&mut self) -> (done: bool)
        requires
            old(self).wf(),
        ensures
            final(self).wf(),
            done == old(self)@ is Some,
            final(self)@ == match old(self)@ {
                Some(s) => Some(s.clear()),
                None => None,
            },
    {
        let mut buffer = match self.buffer.take() {
            Some(buffer) => buffer,
            None => {
                return false;
            },
        };
        buffer.clear();
        self.buffer = Some(buffer);
        true
    }
}

/// Setting a sink up twice is the same as setting it up once: the second
/// request changes nothing, whatever capacity and threshold it names.
pub proof fn lemma_init_is_idempotent(
    sink: Option<LogState>,
    max_len: nat,
    level: LevelFilter,
    other_len: nat,
    other_level: LevelFilter,
)
    ensures
        set_up(set_up(sink, max_len, level), other_len, other_level) == set_up(
            sink,
            max_len,
            level,
        ),
        set_up(sink, max_len, level) is Some,
        sink is None ==> set_up(sink, max_len, level) == Some(LogState::empty(max_len, level)),
{
}

/// An event that is emitted before the set-up is dropped.
pub proof fn lemma_emit_before_init_is_dropped(
    level: Level,
    target: Seq<char>,
    message: Seq<char>,
    ts: Seq<char>,
)
    ensures
        !accepts(None, level),
        emitted(None, level, target, message, ts) is None,
{
}

/// Whether an event is accepted goes by the threshold of the moment: after
/// the threshold was set, the events that pass are those that the new one
/// lets pass.
pub proof fn lemma_enabled_follows_the_threshold(s: LogState, filter: LevelFilter, level: Level)
    ensures
        accepts(Some(s.set_level(filter)), level) == filter.allows(level),
        s.set_level(filter).entries == s.entries,
        s.set_level(filter).seq == s.seq,
{
}

} // verus!
