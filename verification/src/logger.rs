//! A bounded buffer of log entries. Every accepted entry gets the next
//! sequence id; when the buffer is full the oldest entry leaves.

use crate::error::CoreError;
use crate::level::{filter_named, parse_level_filter, Level, LevelFilter};
use std::collections::VecDeque;
use vstd::prelude::*;

verus! {

/// The topic under which accepted entries are published.
pub const TOPIC_LOG: &'static str = "log";

/// Number of entries that a read returns when the caller names no limit.
pub const DEFAULT_READ_LIMIT: usize = 500;

/// One stored log event.
#[derive(Debug)]
pub struct LogEntry {
    pub id: u64,
    pub ts: String,
    pub level: Level,
    pub target: String,
    pub message: String,
}

/// What a `LogEntry` says: its id as a number, its texts as characters.
pub struct LogRecord {
    pub id: nat,
    pub ts: Seq<char>,
    pub level: Level,
    pub target: Seq<char>,
    pub message: Seq<char>,
}

impl View for LogEntry {
    type V = LogRecord;

    open spec fn view(&self) -> LogRecord {
        LogRecord {
            id: self.id as nat,
            ts: self.ts@,
            level: self.level,
            target: self.target@,
            message: self.message@,
        }
    }
}

impl Clone for LogEntry {
    fn clone(&self) -> (copy: Self)
        ensures
            copy@ == self@,
    {
        LogEntry {
            id: self.id,
            ts: self.ts.clone(),
            level: self.level,
            target: self.target.clone(),
            message: self.message.clone(),
        }
    }
}

/// The records of a run of entries, in the same order.
pub open spec fn records(entries: Seq<LogEntry>) -> Seq<LogRecord> {
    entries.map_values(|e: LogEntry| e@)
}

/// The last `n` items of `s`, or all of `s` where it has fewer.
pub open spec fn newest<A>(s: Seq<A>, n: nat) -> Seq<A> {
    if s.len() <= n {
        s
    } else {
        s.skip(s.len() - n)
    }
}

/// The test that a record's id is above `since_id`.
pub open spec fn newer_than(since_id: nat) -> spec_fn(LogRecord) -> bool {
    |r: LogRecord| r.id > since_id
}

/// The lower bound on ids that a read with `since_id` uses.
pub open spec fn read_floor(since_id: Option<u64>) -> nat {
    match since_id {
        Some(id) => id as nat,
        None => 0,
    }
}

/// The state of a log buffer as a mathematical value.
#[verifier::ext_equal]
pub struct LogState {
    /// The id that was assigned last; 0 before the first entry.
    pub seq: nat,
    /// The stored records, oldest first.
    pub entries: Seq<LogRecord>,
    /// The current threshold.
    pub level: LevelFilter,
    /// The most records that are ever stored.
    pub max_len: nat,
}

impl LogState {
    /// At most `max_len` records are stored, their ids rise strictly from
    /// the oldest to the newest, and none is above the counter.
    pub open spec fn wf(self) -> bool {
        &&& self.entries.len() <= self.max_len
        &&& forall|i: int, j: int|
            0 <= i < j < self.entries.len() ==> self.entries[i].id < self.entries[j].id
        &&& forall|i: int|
            0 <= i < self.entries.len() ==> 1 <= #[trigger] self.entries[i].id <= self.seq
    }

    /// The state of a buffer that has never been written to.
    pub open spec fn empty(max_len: nat, level: LevelFilter) -> LogState {
        LogState { seq: 0, entries: Seq::empty(), level, max_len }
    }

    /// The record that the next accepted event becomes.
    pub open spec fn next_record(
        self,
        level: Level,
        target: Seq<char>,
        message: Seq<char>,
        ts: Seq<char>,
    ) -> LogRecord {
        LogRecord { id: self.seq + 1, ts, level, target, message }
    }

    /// The state after `record` was accepted: the counter has moved to its
    /// id, and the newest `max_len` records are kept.
    pub open spec fn push(self, record: LogRecord) -> LogState {
        LogState {
            seq: record.id,
            entries: newest(self.entries.push(record), self.max_len),
            ..self
        }
    }

    /// The state after an event of `level` was offered: it is stored where
    /// the threshold lets it pass, and dropped otherwise.
    pub open spec fn append(
        self,
        level: Level,
        target: Seq<char>,
        message: Seq<char>,
        ts: Seq<char>,
    ) -> LogState {
        if self.level.allows(level) {
            self.push(self.next_record(level, target, message, ts))
        } else {
            self
        }
    }

    /// The state after the stored records were dropped. The counter stays.
    pub open spec fn clear(self) -> LogState {
        LogState { entries: Seq::empty(), ..self }
    }

    /// The state after the threshold was set.
    pub open spec fn set_level(self, level: LevelFilter) -> LogState {
        LogState { level, ..self }
    }

    /// The stored records with an id above `since_id`, oldest first.
    pub open spec fn since(self, since_id: nat) -> Seq<LogRecord> {
        self.entries.filter(newer_than(since_id))
    }

    /// The most records that one read returns for a requested `limit`.
    pub open spec fn read_limit(self, limit: Option<usize>) -> nat {
        let wanted = match limit {
            Some(n) => n as nat,
            None => DEFAULT_READ_LIMIT as nat,
        };
        if wanted <= self.max_len {
            wanted
        } else {
            self.max_len
        }
    }

    /// What a read returns: the first `most` records of `since`, or all of
    /// them where they are fewer.
    pub open spec fn read(self, since_id: nat, most: nat) -> Seq<LogRecord> {
        let found = self.since(since_id);
        if found.len() <= most {
            found
        } else {
            found.take(most as int)
        }
    }
}

/// The buffer itself.
#[derive(Debug)]
pub struct LogBuffer {
    seq: u64,
    buf: VecDeque<LogEntry>,
    level: LevelFilter,
    max_len: usize,
}

impl View for LogBuffer {
    type V = LogState;

    closed spec fn view(&self) -> LogState {
        LogState {
            seq: self.seq as nat,
            entries: records(self.buf@),
            level: self.level,
            max_len: self.max_len as nat,
        }
    }
}

impl LogBuffer {
    /// The invariant of the buffer, stated on its state.
    pub open spec fn wf(&self) -> bool {
        self@.wf()
    }

    /// An empty buffer that stores at most `max_len` entries and accepts
    /// what `level` lets pass. With a `max_len` of 0 it never stores
    /// anything.
    pub fn new(max_len: usize, level: LevelFilter) -> (buffer: Self)
        ensures
            buffer.wf(),
            buffer@ == LogState::empty(max_len as nat, level),
    {
        LogBuffer { seq: 0, buf: VecDeque::new(), level, max_len }
    }

    /// Sets the threshold. It decides on the events offered from now on;
    /// what is stored stays.
    pub fn set_level(&mut self, level: LevelFilter)
        requires
            old(self).wf(),
        ensures
            final(self).wf(),
            final(self)@ == old(self)@.set_level(level),
    {
        self.level = level;
    }

    /// The current threshold.
    pub fn level(&self) -> (level: LevelFilter)
        ensures
            level == self@.level,
    {
        self.level
    }

    /// The id that was assigned last.
    pub fn latest_seq(&self) -> (seq: u64)
        ensures
            seq == self@.seq,
    {
        self.seq
    }

    /// The most entries that the buffer stores.
    pub fn max_len(&self) -> (n: usize)
        ensures
            n == self@.max_len,
    {
        self.max_len
    }

    /// Number of entries that are stored now.
    pub fn len(&self) -> (n: usize)
        ensures
            n == self@.entries.len(),
    {
        self.buf.len()
    }

    /// Whether an event of `level` would be accepted now.
    pub fn enabled(&self, level: Level) -> (b: bool)
        ensures
            b == self@.level.allows(level),
    {
        self.level.enabled(level)
    }

    /// Stores an event under the next id, with `ts` as its time stamp, and
    /// returns the entry. The threshold is not consulted.
    pub fn push(&mut self, level: Level, target: &str, msg: String, ts: String) -> (entry:
        LogEntry)
        requires
            old(self).wf(),
            old(self)@.seq < u64::MAX,
        ensures
            final(self).wf(),
            entry@ == old(self)@.next_record(level, target@, msg@, ts@),
            final(self)@ == old(self)@.push(entry@),
    {
        self.seq = self.seq + 1;
        let entry = LogEntry { id: self.seq, ts, level, target: target.to_owned(), message: msg };
        if self.max_len > 0 {
            if self.buf.len() >= self.max_len {
                self.buf.pop_front();
            }
            self.buf.push_back(entry.clone());
        }
        proof {
            let before = old(self)@;
            lemma_push_keeps_wf(before, entry@);
            assert(records(self.buf@) =~= newest(before.entries.push(entry@), before.max_len));
        }
        entry
    }

    /// Offers an event with `ts` as its time stamp. It is stored and
    /// returned where the threshold lets its level pass; otherwise nothing
    /// changes. The entry that is returned is the one stored, for the
    /// caller to pass on to whoever listens.
    pub fn append(&mut self, level: Level, target: &str, msg: String, ts: String) -> (accepted:
        Option<LogEntry>)
        requires
            old(self).wf(),
            old(self)@.level.allows(level) ==> old(self)@.seq < u64::MAX,
        ensures
            final(self).wf(),
            accepted is Some <==> old(self)@.level.allows(level),
            accepted matches Some(entry) ==> entry@ == old(self)@.next_record(
                level,
                target@,
                msg@,
                ts@,
            ),
            final(self)@ == old(self)@.append(level, target@, msg@, ts@),
    {
        if self.enabled(level) {
            Some(self.push(level, target, msg, ts))
        } else {
            None
        }
    }

    /// Sets the threshold to the one that `name` stands for. An unknown
    /// name is refused and leaves the threshold as it was.
    pub fn set_level_by_name(&mut self, name: &str) -> (done: Result<LevelFilter, CoreError>)
        requires
            old(self).wf(),
        ensures
            final(self).wf(),
            match filter_named(name@) {
                Some(filter) => {
                    &&& done == Ok::<LevelFilter, CoreError>(filter)
                    &&& final(self)@ == old(self)@.set_level(filter)
                },
                None => {
                    &&& done == Err::<LevelFilter, CoreError>(CoreError::InvalidLevel)
                    &&& final(self)@ == old(self)@
                },
            },
    {
        match parse_level_filter(name) {
            Ok(filter) => {
                self.set_level(filter);
                Ok(filter)
            },
            Err(e) => Err(e),
        }
    }

    /// Returns the stored entries with an id above `since_id` (above 0
    /// where none is given), oldest first and at most as many as the read
    /// limit allows, together with the id that was assigned last.
    pub fn get_since(&self, since_id: Option<u64>, limit: Option<usize>) -> (out: (
        Vec<LogEntry>,
        u64,
    ))
        ensures
            records(out.0@) == self@.read(read_floor(since_id), self@.read_limit(limit)),
            out.1 == self@.seq,
    {
        let wanted = limit.unwrap_or(DEFAULT_READ_LIMIT);
        let lim = if wanted <= self.max_len {
            wanted
        } else {
            self.max_len
        };
        let start_id = since_id.unwrap_or(0);
        let ghost stored = self@.entries;
        let ghost test = newer_than(start_id as nat);
        let mut out: Vec<LogEntry> = Vec::new();
        let mut i: usize = 0;
        while i < self.buf.len() && out.len() < lim
            invariant
                i <= self.buf.len(),
                out.len() <= lim,
                stored == records(self.buf@),
                test == newer_than(start_id as nat),
                records(out@) == stored.take(i as int).filter(test),
            decreases self.buf.len() - i,
        {
            let e = &self.buf[i];
            proof {
                assert(stored.take(i + 1) =~= stored.take(i as int).push(e@));
                stored.take(i as int).lemma_filter_push(e@, test);
            }
            if e.id > start_id {
                out.push(e.clone());
                assert(records(out@) =~= stored.take(i as int).filter(test).push(e@));
            }
            i += 1;
        }
        proof {
            let head = stored.take(i as int);
            let tail = stored.skip(i as int);
            assert(stored =~= head + tail);
            Seq::filter_distributes_over_add(head, tail, test);
            if i == self.buf.len() {
                assert(tail =~= Seq::empty());
                assert(tail.filter(test) =~= Seq::empty()) by {
                    tail.lemma_filter_len(test);
                }
            }
            assert(records(out@) =~= self@.read(read_floor(since_id), self@.read_limit(limit)));
        }
        (out, self.seq)
    }

    /// Drops the stored entries. The counter of ids stays, so that no id is
    /// ever assigned twice.
    pub fn clear(&mut self)
        requires
            old(self).wf(),
        ensures
            final(self).wf(),
            final(self)@ == old(self)@.clear(),
    {
        self.buf.clear();
        assert(records(self.buf@) =~= Seq::empty());
    }
}

/// One event as it is offered to a buffer.
pub struct LogEvent {
    pub level: Level,
    pub target: Seq<char>,
    pub message: Seq<char>,
    pub ts: Seq<char>,
}

impl LogState {
    /// The state after the events were offered one after the other.
    pub open spec fn append_all(self, events: Seq<LogEvent>) -> LogState
        decreases events.len(),
    {
        if events.len() == 0 {
            self
        } else {
            let e = events.last();
            self.append_all(events.drop_last()).append(e.level, e.target, e.message, e.ts)
        }
    }

    /// Number of stored records whose id is `since_id` or less.
    pub open spec fn count_up_to(self, since_id: nat) -> nat {
        (self.entries.len() - self.since(since_id).len()) as nat
    }
}

/// Accepting the record with the next id keeps a state well-formed, and in
/// a buffer that stores anything at all the record is then the newest one
/// stored.
pub proof fn lemma_push_keeps_wf(s: LogState, record: LogRecord)
    requires
        s.wf(),
        record.id == s.seq + 1,
    ensures
        s.push(record).wf(),
        s.max_len > 0 ==> s.push(record).entries.len() > 0 && s.push(record).entries.last()
            == record,
{
    let all = s.entries.push(record);
    let kept = newest(all, s.max_len);
    let off = all.len() - kept.len();
    assert forall|i: int| 0 <= i < kept.len() implies kept[i] == all[i + off] by {}
    assert forall|i: int, j: int| 0 <= i < j < kept.len() implies kept[i].id < kept[j].id by {
        assert(kept[i] == all[i + off]);
        assert(kept[j] == all[j + off]);
    }
}

/// Whatever events are offered, and whatever their number, the buffer never
/// holds more than `max_len` records, the ids of the stored records rise
/// strictly, and the counter never goes back.
pub proof fn lemma_appends_keep_wf(s: LogState, events: Seq<LogEvent>)
    requires
        s.wf(),
    ensures
        s.append_all(events).wf(),
        s.append_all(events).max_len == s.max_len,
        s.append_all(events).entries.len() <= s.max_len,
        forall|i: int, j: int|
            0 <= i < j < s.append_all(events).entries.len() ==> s.append_all(events).entries[i].id
                < s.append_all(events).entries[j].id,
        s.seq <= s.append_all(events).seq <= s.seq + events.len(),
    decreases events.len(),
{
    if events.len() > 0 {
        let before = s.append_all(events.drop_last());
        lemma_appends_keep_wf(s, events.drop_last());
        let e = events.last();
        if before.level.allows(e.level) {
            lemma_push_keeps_wf(before, before.next_record(e.level, e.target, e.message, e.ts));
        }
    }
}

/// In a well-formed state the records above `since_id` are the stored
/// records from some place on: those before it have an id of `since_id` or
/// less, those from it on an id above `since_id`.
pub proof fn lemma_since_is_suffix(s: LogState, since_id: nat)
    requires
        s.wf(),
    ensures
        s.since(since_id).len() <= s.entries.len(),
        s.since(since_id) == s.entries.skip(s.count_up_to(since_id) as int),
        forall|i: int| 0 <= i < s.count_up_to(since_id) ==> s.entries[i].id <= since_id,
        forall|i: int|
            s.count_up_to(since_id) <= i < s.entries.len() ==> s.entries[i].id > since_id,
    decreases s.entries.len(),
{
    let test = newer_than(since_id);
    reveal(Seq::filter);
    if s.entries.len() > 0 {
        let shorter = LogState { entries: s.entries.drop_last(), ..s };
        let last = s.entries.last();
        lemma_since_is_suffix(shorter, since_id);
        let k = shorter.count_up_to(since_id) as int;
        assert(s.entries.drop_last().filter(test) == shorter.since(since_id));
        assert forall|i: int| 0 <= i < shorter.entries.len() implies shorter.entries[i]
            == s.entries[i] by {}
        if test(last) {
            assert(s.since(since_id) == shorter.since(since_id).push(last));
            assert(s.since(since_id) =~= s.entries.skip(k));
        } else {
            assert(s.since(since_id) == shorter.since(since_id));
            if k < shorter.entries.len() {
                assert(shorter.entries[k].id > since_id);
                assert(s.entries[k].id < last.id);
            }
            assert(k == shorter.entries.len());
            assert(s.since(since_id) =~= s.entries.skip(k + 1));
            assert forall|i: int| 0 <= i < k + 1 implies s.entries[i].id <= since_id by {
                if i < k {
                    assert(shorter.entries[i].id <= since_id);
                }
            }
        }
    } else {
        assert(s.since(since_id) =~= s.entries.skip(0));
    }
}

/// A read on a well-formed state returns a run of neighbouring stored
/// records, in their stored order: it starts at the oldest record with an id
/// above `since_id` and has `most` records, or ends with the newest stored
/// record where fewer are left. So the ids of what it returns rise strictly
/// and are all above `since_id`.
pub proof fn lemma_read_is_run(s: LogState, since_id: nat, most: nat)
    requires
        s.wf(),
    ensures
        ({
            let from = s.count_up_to(since_id) as int;
            let left = s.entries.len() - from;
            let got = s.read(since_id, most);
            &&& 0 <= from <= s.entries.len()
            &&& got.len() == if left <= most { left } else { most as int }
            &&& got == s.entries.subrange(from, from + got.len())
            &&& forall|i: int| 0 <= i < got.len() ==> (#[trigger] got[i]).id > since_id
            &&& forall|i: int, j: int| 0 <= i < j < got.len() ==> got[i].id < got[j].id
        }),
{
    lemma_since_is_suffix(s, since_id);
    let from = s.count_up_to(since_id) as int;
    let got = s.read(since_id, most);
    assert(got =~= s.entries.subrange(from, from + got.len()));
    assert forall|i: int| 0 <= i < got.len() implies (#[trigger] got[i]).id > since_id by {
        assert(got[i] == s.entries[from + i]);
    }
    assert forall|i: int, j: int| 0 <= i < j < got.len() implies got[i].id < got[j].id by {
        assert(got[i] == s.entries[from + i]);
        assert(got[j] == s.entries[from + j]);
    }
}

/// Where a read returned something and the limit cut nothing off, a second
/// read that starts above the last id returned, with nothing written in
/// between, returns nothing.
pub proof fn lemma_reread_is_empty(s: LogState, since_id: nat, most: nat)
    requires
        s.wf(),
        s.read(since_id, most).len() > 0,
        s.since(since_id).len() <= most,
    ensures
        s.read(s.read(since_id, most).last().id, most).len() == 0,
{
    lemma_since_is_suffix(s, since_id);
    let got = s.read(since_id, most);
    let last_id = got.last().id;
    assert(got.last() == s.entries.last());
    lemma_since_is_suffix(s, last_id);
    let from = s.count_up_to(last_id) as int;
    if from < s.entries.len() {
        assert(s.entries[from].id > last_id);
    }
}

/// A read that starts at the counter returns nothing.
pub proof fn lemma_read_from_latest_is_empty(s: LogState, most: nat)
    requires
        s.wf(),
    ensures
        s.read(s.seq, most).len() == 0,
{
    lemma_since_is_suffix(s, s.seq);
    let from = s.count_up_to(s.seq) as int;
    if from < s.entries.len() {
        assert(s.entries[from].id > s.seq);
    }
}

/// Clearing drops the stored records and leaves the counter alone: the
/// record accepted next gets the id after the last one assigned, which is
/// above the id of every record that was stored before.
pub proof fn lemma_clear_keeps_counter(s: LogState, e: LogEvent)
    requires
        s.wf(),
    ensures
        s.clear().wf(),
        s.clear().entries.len() == 0,
        s.clear().seq == s.seq,
        s.clear().next_record(e.level, e.target, e.message, e.ts).id == s.seq + 1,
        forall|i: int|
            0 <= i < s.entries.len() ==> (#[trigger] s.entries[i]).id < s.clear().next_record(
                e.level,
                e.target,
                e.message,
                e.ts,
            ).id,
        s.clear().level.allows(e.level) ==> {
            let after = s.clear().append(e.level, e.target, e.message, e.ts);
            &&& after.seq == s.seq + 1
            &&& s.max_len > 0 ==> after.entries == seq![
                s.next_record(e.level, e.target, e.message, e.ts),
            ]
        },
{
    let after = s.clear().append(e.level, e.target, e.message, e.ts);
    if s.clear().level.allows(e.level) && s.max_len > 0 {
        assert(after.entries =~= seq![s.next_record(e.level, e.target, e.message, e.ts)]);
    }
}

} // verus!
