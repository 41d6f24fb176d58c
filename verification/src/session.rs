use vstd::prelude::*;

use crate::clock::get_seconds;
use crate::duration::{dec_seq, dec_string, elapsed, hms_seq, sec_to_hms_string};
use crate::errors::OpError;
use crate::event::{merged_note, note_view, Event, EventKind};

verus! {

/// One continuous span of tracked work: an ordered event log between a
/// start and an end timestamp, a set of touched branch names, and a
/// running/finalized flag. Once finalized (`running == false`) a session
/// accepts no further mutation.
pub struct Session {
    /// Seconds since the epoch at which the session began.
    pub start: u64,
    /// One past the last recorded instant: re-derived as
    /// `timestamp + 1` on every successful event append and on
    /// finalization, so the span always covers the most recent event.
    pub end: u64,
    /// True from creation until the session is finalized exactly once.
    pub running: bool,
    /// Distinct branch names touched while the session was running.
    pub branches: Vec<String>,
    /// Append-only log, in strictly increasing timestamp order.
    pub events: Vec<Event>,
}

/// Events are in strictly increasing timestamp order.
pub open spec fn events_ordered(events: Seq<Event>) -> bool {
    forall|i: int, j: int|
        #![trigger events[i], events[j]]
        0 <= i < j < events.len() ==> events[i].timestamp < events[j].timestamp
}

/// Pauses and resumes alternate properly: a `Resume` directly follows an
/// open `Pause`, and a `Pause` never follows another `Pause`.
pub open spec fn events_paired(events: Seq<Event>) -> bool {
    &&& (events.len() > 0 ==> !(events[0].kind is Resume))
    &&& forall|i: int, j: int|
        #![trigger events[i], events[j]]
        0 <= i && j == i + 1 && j < events.len() ==> {
            &&& (events[j].kind is Resume ==> events[i].kind is Pause)
            &&& (events[j].kind is Pause ==> !(events[i].kind is Pause))
        }
}

/// Total length of the closed pause intervals in `events`, scanned in
/// order: each `Resume` contributes the span since the `Pause` it closes.
/// An unterminated trailing `Pause` contributes nothing.
pub open spec fn pt_scan(events: Seq<Event>, last_pause: int) -> int
    decreases events.len(),
{
    if events.len() == 0 {
        0
    } else {
        let ev = events[0];
        match ev.kind {
            EventKind::Pause => pt_scan(events.drop_first(), ev.timestamp as int),
            EventKind::Resume => (ev.timestamp - last_pause) + pt_scan(
                events.drop_first(),
                last_pause,
            ),
            _ => pt_scan(events.drop_first(), last_pause),
        }
    }
}

/// Total pause time of an event log; see [`pt_scan`].
pub open spec fn spec_pause_time(events: Seq<Event>) -> int {
    pt_scan(events, 0)
}

impl Session {
    /// The timestamp that the next event must strictly exceed: the last
    /// event's, or the session start while the log is empty.
    pub open spec fn last_ts(self) -> int {
        if self.events@.len() == 0 {
            self.start as int
        } else {
            self.events@.last().timestamp as int
        }
    }

    /// A pause is open iff the most recent event is a `Pause`.
    pub open spec fn spec_paused(self) -> bool {
        self.events@.len() > 0 && self.events@.last().kind is Pause
    }

    /// A timestamp at which an event may be recorded: strictly after
    /// everything already recorded, and small enough that `timestamp + 1`
    /// still fits the session span.
    pub open spec fn valid_ts(self, ts: u64) -> bool {
        self.last_ts() < ts < u64::MAX
    }

    /// Well-formedness: the span covers at least one second and every
    /// event, events are strictly ordered and properly paired, and branch
    /// names are distinct.
    pub open spec fn wf(self) -> bool {
        &&& self.start < self.end
        &&& (self.events@.len() > 0 ==> self.start < self.events@[0].timestamp)
        &&& events_ordered(self.events@)
        &&& (self.events@.len() > 0 ==> self.events@.last().timestamp < self.end)
        &&& events_paired(self.events@)
        &&& (forall|i: int, j: int|
            0 <= i < j < self.branches@.len() ==> (#[trigger] self.branches@[i]@) != (
            #[trigger] self.branches@[j]@))
    }

    /// Whether [`Session::push_event_at`] accepts or refuses, and with
    /// which error: refused while not running, on a timestamp that is not
    /// strictly after the log, on a `Pause` while paused, and on a
    /// `Resume` while not paused. A `Commit` while paused needs room for
    /// two timestamps.
    pub open spec fn push_outcome(self, ts: u64, kind: EventKind) -> Result<(), OpError> {
        if !self.running {
            Err(OpError::NotRunning)
        } else if !self.valid_ts(ts) {
            Err(OpError::InvalidTimestamp)
        } else {
            match kind {
                EventKind::Pause => if self.spec_paused() {
                    Err(OpError::AlreadyPaused)
                } else {
                    Ok(())
                },
                EventKind::Resume => if !self.spec_paused() {
                    Err(OpError::NotPaused)
                } else {
                    Ok(())
                },
                EventKind::Note => Ok(()),
                EventKind::Commit { .. } => if self.spec_paused() && ts >= u64::MAX - 1 {
                    Err(OpError::InvalidTimestamp)
                } else {
                    Ok(())
                },
            }
        }
    }

    /// How [`Session::push_event_at`] transforms a session: unchanged on
    /// refusal; otherwise the event is appended at `ts` and the span
    /// re-derived, except that a note while paused merges into the open
    /// pause's note, and a commit while paused is preceded by one
    /// synthetic `Resume`.
    pub open spec fn push_post(
        pre: Session,
        post: Session,
        ts: u64,
        note: Option<String>,
        kind: EventKind,
    ) -> bool {
        if pre.push_outcome(ts, kind) is Err {
            post == pre
        } else {
            &&& post.start == pre.start
            &&& post.running == pre.running
            &&& post.branches == pre.branches
            &&& if kind is Note && pre.spec_paused() {
                let n = pre.events@.len() as int;
                &&& post.events@.len() == n
                &&& (forall|i: int| 0 <= i < n - 1 ==> post.events@[i] == #[trigger] pre.events@[i])
                &&& post.events@[n - 1].timestamp == pre.events@[n - 1].timestamp
                &&& post.events@[n - 1].kind == pre.events@[n - 1].kind
                &&& note_view(post.events@[n - 1].note) == merged_note(pre.events@[n - 1].note, note)
                &&& post.end == ts + 1
            } else if kind is Commit && pre.spec_paused() {
                &&& post.events@ == pre.events@.push(
                    Event { timestamp: ts, note: None, kind: EventKind::Resume },
                ).push(Event { timestamp: (ts + 1) as u64, note: note, kind: kind })
                &&& post.end == ts + 2
            } else {
                &&& post.events@ == pre.events@.push(Event { timestamp: ts, note: note, kind: kind })
                &&& post.end == ts + 1
            }
        }
    }

    /// How finalization at a valid `ts` changes a running session: any
    /// open pause is closed by a synthetic `Resume` at `ts`, the session
    /// stops running and its span ends one past `ts`.
    pub open spec fn finalize_post(pre: Session, post: Session, ts: u64) -> bool {
        &&& post.start == pre.start
        &&& post.branches == pre.branches
        &&& !post.running
        &&& post.end == ts + 1
        &&& (pre.spec_paused() ==> post.events@ == pre.events@.push(
            Event { timestamp: ts, note: None, kind: EventKind::Resume },
        ))
        &&& (!pre.spec_paused() ==> post.events@ == pre.events@)
    }

    /// How [`Session::add_branch`] changes a session: only the branch
    /// list, as [`Session::branches_after`] says.
    pub open spec fn add_branch_post(pre: Session, post: Session, name: String) -> bool {
        &&& post.start == pre.start
        &&& post.end == pre.end
        &&& post.running == pre.running
        &&& post.events == pre.events
        &&& post.branches@ == pre.branches_after(name)
    }

    /// The branch list after [`Session::add_branch`] records `name`:
    /// unchanged while the session is not running or the name is already
    /// present, extended by `name` otherwise.
    pub open spec fn branches_after(self, name: String) -> Seq<String> {
        if !self.running {
            self.branches@
        } else if exists|i: int|
            0 <= i < self.branches@.len() && (#[trigger] self.branches@[i]@) == name@ {
            self.branches@
        } else {
            self.branches@.push(name)
        }
    }

    /// Creates a running session starting at `timestamp`, with an empty
    /// log and no branches.
    pub fn new(timestamp: u64) -> (s: Session)
        requires
            timestamp < u64::MAX,
        ensures
            s.wf(),
            s.start == timestamp,
            s.end == timestamp + 1,
            s.running,
            s.branches@.len() == 0,
            s.events@.len() == 0,
    {
        Session {
            start: timestamp,
            end: timestamp + 1,
            running: true,
            branches: Vec::new(),
            events: Vec::new(),
        }
    }

    /// True until the session is finalized.
    pub fn is_running(&self) -> (r: bool)
        ensures
            r == self.running,
    {
        self.running
    }

    /// True iff the most recent event opened a pause.
    pub fn is_paused(&self) -> (r: bool)
        ensures
            r == self.spec_paused(),
    {
        let n = self.events.len();
        if n == 0 {
            false
        } else {
            let ev = &self.events[n - 1];
            match ev.kind {
                EventKind::Pause => true,
                _ => false,
            }
        }
    }

    /// Re-derives the span end from the log: one past the last event's
    /// timestamp, or unchanged while the log is empty.
    pub fn update_end(&mut self)
        requires
            old(self).wf(),
        ensures
            final(self).wf(),
            final(self).start == old(self).start,
            final(self).running == old(self).running,
            final(self).branches == old(self).branches,
            final(self).events == old(self).events,
            final(self).end == if old(self).events@.len() == 0 {
                old(self).end as int
            } else {
                old(self).events@.last().timestamp + 1
            },
    {
        let n = self.events.len();
        if n > 0 {
            self.end = self.events[n - 1].timestamp + 1;
        }
    }

    /// Records `name` as a touched branch: appended while the session is
    /// running and the name is new; a no-op otherwise.
    pub fn add_branch(&mut self, name: String)
        requires
            old(self).wf(),
        ensures
            final(self).wf(),
            final(self).start == old(self).start,
            final(self).end == old(self).end,
            final(self).running == old(self).running,
            final(self).events == old(self).events,
            final(self).branches@ == old(self).branches_after(name),
    {
        if !self.running {
            return ;
        }
        let n = self.branches.len();
        let mut j: usize = 0;
        let mut found = false;
        while j < n
            invariant
                0 <= j <= n,
                n == self.branches@.len(),
                found <==> exists|i: int|
                    0 <= i < j && (#[trigger] self.branches@[i]@) == name@,
            decreases n - j,
        {
            if self.branches[j] == name {
                found = true;
            }
            j += 1;
        }
        if !found {
            self.branches.push(name);
            proof {
                assert forall|a: int, b: int|
                    0 <= a < b < self.branches@.len() implies (#[trigger] self.branches@[a]@) != (
                #[trigger] self.branches@[b]@) by {
                    if b == self.branches@.len() - 1 {
                        assert(self.branches@[a]@ == old(self).branches@[a]@);
                    }
                }
            }
        }
    }

    /// Total length of the closed pause intervals recorded so far; an
    /// open trailing pause contributes nothing.
    pub fn pause_time(&self) -> (r: u64)
        requires
            self.wf(),
        ensures
            r as int == spec_pause_time(self.events@),
            r as int <= self.end - self.start - 1,
    {
        let n = self.events.len();
        let mut acc: u64 = 0;
        let mut lp: u64 = 0;
        let mut i: usize = 0;
        proof {
            assert(self.events@.skip(0) =~= self.events@);
        }
        while i < n
            invariant
                0 <= i <= n,
                n == self.events@.len(),
                self.wf(),
                spec_pause_time(self.events@) == acc + pt_scan(
                    self.events@.skip(i as int),
                    lp as int,
                ),
                i == 0 ==> acc == 0 && lp == 0,
                i > 0 ==> acc + self.start <= self.events@[i - 1].timestamp,
                i > 0 ==> lp <= self.events@[i - 1].timestamp,
                i > 0 && self.events@[i - 1].kind is Pause ==> lp == self.events@[i - 1].timestamp,
            decreases n - i,
        {
            proof {
                assert(self.events@.skip(i as int)[0] == self.events@[i as int]);
                assert(self.events@.skip(i as int).drop_first() =~= self.events@.skip(i as int + 1));
            }
            let ev = &self.events[i];
            match ev.kind {
                EventKind::Pause => {
                    lp = ev.timestamp;
                }
                EventKind::Resume => {
                    proof {
                        assert(self.events@[i as int].kind is Resume);
                        assert(i > 0 && self.events@[i as int - 1].kind is Pause);
                        assert(lp == self.events@[i as int - 1].timestamp);
                        assert(lp < ev.timestamp);
                    }
                    acc = acc + (ev.timestamp - lp);
                }
                _ => {},
            }
            i += 1;
        }
        proof {
            assert(self.events@.skip(n as int) =~= Seq::<Event>::empty());
        }
        acc
    }

    /// The session span minus its closed pause intervals.
    pub fn working_time(&self) -> (r: u64)
        requires
            self.wf(),
        ensures
            r as int == self.end - self.start - spec_pause_time(self.events@),
            r as int <= self.end - self.start,
    {
        let pt = self.pause_time();
        self.end - self.start - pt
    }

    /// Validates and records one event at `timestamp`; see
    /// [`Session::push_outcome`] for when the operation is refused and
    /// [`Session::push_post`] for the exact effect. A refused operation
    /// leaves the session unchanged.
    pub fn push_event_at(&mut self, timestamp: u64, note: Option<String>, kind: EventKind) -> (r:
        Result<(), OpError>)
        requires
            old(self).wf(),
        ensures
            final(self).wf(),
            r == old(self).push_outcome(timestamp, kind),
            Session::push_post(*old(self), *final(self), timestamp, note, kind),
    {
        if !self.running {
            return Err(OpError::NotRunning);
        }
        let n = self.events.len();
        let last: u64 = if n == 0 {
            self.start
        } else {
            self.events[n - 1].timestamp
        };
        if !(timestamp > last && timestamp < u64::MAX) {
            return Err(OpError::InvalidTimestamp);
        }
        match kind {
            EventKind::Pause => {
                if self.is_paused() {
                    return Err(OpError::AlreadyPaused);
                }
                self.events.push(Event { timestamp, note, kind: EventKind::Pause });
                self.end = timestamp + 1;
                proof {
                    assert(self.events@.subrange(0, old(self).events@.len() as int)
                        =~= old(self).events@);
                    lemma_wf_after_append(*old(self), *self);
                }
                Ok(())
            }
            EventKind::Resume => {
                if !self.is_paused() {
                    return Err(OpError::NotPaused);
                }
                self.events.push(Event { timestamp, note, kind: EventKind::Resume });
                self.end = timestamp + 1;
                proof {
                    assert(self.events@.subrange(0, old(self).events@.len() as int)
                        =~= old(self).events@);
                    lemma_wf_after_append(*old(self), *self);
                }
                Ok(())
            }
            EventKind::Note => {
                if self.is_paused() {
                    let last_ev = self.events.pop().unwrap();
                    let Event { timestamp: lts, note: lnote, kind: lkind } = last_ev;
                    let new_note: Option<String> = match (lnote, note) {
                        (Some(p), Some(i)) => {
                            let mut m = p;
                            m.append("<br>");
                            m.append(i.as_str());
                            Some(m)
                        },
                        (Some(p), None) => Some(p),
                        (None, other) => other,
                    };
                    self.events.push(Event { timestamp: lts, note: new_note, kind: lkind });
                    self.end = timestamp + 1;
                    proof {
                        assert(self.events@.subrange(0, old(self).events@.len() - 1)
                            =~= old(self).events@.subrange(0, old(self).events@.len() - 1));
                        lemma_wf_after_amend(*old(self), *self);
                    }
                } else {
                    self.events.push(Event { timestamp, note, kind: EventKind::Note });
                    self.end = timestamp + 1;
                    proof {
                        assert(self.events@.subrange(0, old(self).events@.len() as int)
                            =~= old(self).events@);
                        lemma_wf_after_append(*old(self), *self);
                    }
                }
                Ok(())
            }
            EventKind::Commit { hash } => {
                if self.is_paused() {
                    if timestamp >= u64::MAX - 1 {
                        return Err(OpError::InvalidTimestamp);
                    }
                    self.events.push(
                        Event { timestamp, note: None, kind: EventKind::Resume },
                    );
                    self.events.push(
                        Event {
                            timestamp: timestamp + 1,
                            note,
                            kind: EventKind::Commit { hash },
                        },
                    );
                    self.end = timestamp + 2;
                    proof {
                        assert(self.events@.subrange(0, old(self).events@.len() as int)
                            =~= old(self).events@);
                        lemma_wf_after_double_append(*old(self), *self);
                    }
                } else {
                    self.events.push(
                        Event { timestamp, note, kind: EventKind::Commit { hash } },
                    );
                    self.end = timestamp + 1;
                    proof {
                        assert(self.events@.subrange(0, old(self).events@.len() as int)
                            =~= old(self).events@);
                        lemma_wf_after_append(*old(self), *self);
                    }
                }
                Ok(())
            }
        }
    }

    /// Finalizes the session at `timestamp`: a no-op if already
    /// finalized; refused (fatally) on a timestamp that is not strictly
    /// after the log; otherwise any open pause is closed by a synthetic
    /// `Resume` at `timestamp`, the session stops running and its span
    /// ends one past `timestamp`.
    pub fn finalize_at(&mut self, timestamp: u64) -> (r: Result<(), OpError>)
        requires
            old(self).wf(),
        ensures
            final(self).wf(),
            !old(self).running ==> r is Ok && *final(self) == *old(self),
            old(self).running && !old(self).valid_ts(timestamp) ==> r == Err::<(), OpError>(
                OpError::FatalTimestamp,
            ) && *final(self) == *old(self),
            old(self).running && old(self).valid_ts(timestamp) ==> r is Ok
                && Session::finalize_post(*old(self), *final(self), timestamp),
    {
        if !self.running {
            return Ok(());
        }
        let n = self.events.len();
        let last: u64 = if n == 0 {
            self.start
        } else {
            self.events[n - 1].timestamp
        };
        if !(timestamp > last && timestamp < u64::MAX) {
            return Err(OpError::FatalTimestamp);
        }
        if self.is_paused() {
            self.events.push(Event { timestamp, note: None, kind: EventKind::Resume });
        }
        self.running = false;
        self.end = timestamp + 1;
        proof {
            if old(self).spec_paused() {
                assert(self.events@.subrange(0, old(self).events@.len() as int)
                    =~= old(self).events@);
                lemma_wf_after_append(*old(self), *self);
            }
        }
        Ok(())
    }

    /// Decides [`Session::wf`] at run time: used to validate a session
    /// rebuilt from outside the crate (a persisted file) before it is
    /// trusted.
    pub fn check_wf(&self) -> (r: bool)
        ensures
            r == self.wf(),
    {
        if !(self.start < self.end) {
            return false;
        }
        let n = self.events.len();
        if n > 0 {
            if !(self.events[0].timestamp > self.start) {
                return false;
            }
            if !(self.events[n - 1].timestamp < self.end) {
                return false;
            }
            if matches!(self.events[0].kind, EventKind::Resume) {
                return false;
            }
        }
        let mut i: usize = 1;
        proof {
            if n > 0 {
                assert(self.events@.take(1) =~= seq![self.events@[0]]);
            }
        }
        while i < n
            invariant
                n == 0 ==> i == 1,
                n > 0 ==> 1 <= i <= n,
                n == self.events@.len(),
                n > 0 ==> events_ordered(self.events@.take(i as int)),
                n > 0 ==> events_paired(self.events@.take(i as int)),
            decreases n - i,
        {
            let prev_ts = self.events[i - 1].timestamp;
            let cur_ts = self.events[i].timestamp;
            if !(prev_ts < cur_ts) {
                proof {
                    assert(!events_ordered(self.events@));
                }
                return false;
            }
            let prev_is_pause = matches!(self.events[i - 1].kind, EventKind::Pause);
            if matches!(self.events[i].kind, EventKind::Resume) && !prev_is_pause {
                proof {
                    assert(!events_paired(self.events@));
                }
                return false;
            }
            if matches!(self.events[i].kind, EventKind::Pause) && prev_is_pause {
                proof {
                    assert(!events_paired(self.events@));
                }
                return false;
            }
            proof {
                let t = self.events@.take(i as int + 1);
                assert forall|a: int| 0 <= a <= i implies t[a] == self.events@[a] by {}
                assert forall|a: int, b: int|
                    #![trigger t[a], t[b]]
                    0 <= a < b < t.len() implies t[a].timestamp < t[b].timestamp by {
                    if b < i {
                        assert(self.events@.take(i as int)[a] == self.events@[a]);
                        assert(self.events@.take(i as int)[b] == self.events@[b]);
                    } else {
                        if a < i - 1 {
                            assert(self.events@.take(i as int)[a] == self.events@[a]);
                            assert(self.events@.take(i as int)[a].timestamp < self.events@.take(
                                i as int,
                            )[i - 1].timestamp);
                        }
                    }
                }
                assert forall|a: int, b: int|
                    #![trigger t[a], t[b]]
                    0 <= a && b == a + 1 && b < t.len() implies {
                    &&& (t[b].kind is Resume ==> t[a].kind is Pause)
                    &&& (t[b].kind is Pause ==> !(t[a].kind is Pause))
                } by {
                    if b < i {
                        assert(self.events@.take(i as int)[a] == self.events@[a]);
                        assert(self.events@.take(i as int)[b] == self.events@[b]);
                    }
                }
                assert(t[0] == self.events@[0]);
            }
            i += 1;
        }
        proof {
            if n > 0 {
                assert(self.events@.take(n as int) =~= self.events@);
            } else {
                assert(self.events@.take(0) =~= self.events@);
            }
        }
        let bn = self.branches.len();
        let mut a: usize = 0;
        while a < bn
            invariant
                0 <= a <= bn,
                bn == self.branches@.len(),
                forall|x: int, y: int|
                    0 <= x < y < a ==> (#[trigger] self.branches@[x]@) != (
                    #[trigger] self.branches@[y]@),
            decreases bn - a,
        {
            let mut b: usize = 0;
            while b < a
                invariant
                    0 <= b <= a < bn,
                    bn == self.branches@.len(),
                    forall|x: int, y: int|
                        0 <= x < y < a ==> (#[trigger] self.branches@[x]@) != (
                        #[trigger] self.branches@[y]@),
                    forall|x: int|
                        0 <= x < b ==> (#[trigger] self.branches@[x]@) != self.branches@[a as int]@,
                decreases a - b,
            {
                if self.branches[b] == self.branches[a] {
                    return false;
                }
                b += 1;
            }
            a += 1;
        }
        true
    }

    /// The text of [`Session::status_at`]: how long the session has run,
    /// then the pause or last-event line, then the touched branches.
    pub open spec fn status_seq(self, now: u64) -> Seq<char> {
        "Session running since "@ + hms_seq(elapsed(now, self.start)) + ".\n"@
            + self.status_mid_seq(now) + self.status_branches_seq()
    }

    /// The middle line of the status text: the open pause, or the last
    /// event, or a note that the log is still empty.
    pub open spec fn status_mid_seq(self, now: u64) -> Seq<char> {
        if self.spec_paused() {
            "    Paused since "@ + hms_seq(elapsed(now, self.events@.last().timestamp)) + ".\n"@
        } else if self.events@.len() == 0 {
            "    No events in this session yet!\n"@
        } else {
            "    Last event: "@ + self.events@.last().kind.label_seq() + ", "@ + hms_seq(
                elapsed(now, self.events@.last().timestamp),
            ) + " ago.\n"@
        }
    }

    /// The trailing branch summary of the status text, empty when no
    /// branch was touched.
    pub open spec fn status_branches_seq(self) -> Seq<char> {
        if self.branches@.len() == 0 {
            Seq::<char>::empty()
        } else {
            "Worked on "@ + dec_seq(self.branches@.len() as nat) + " branches: "@ + branches_seq(
                self.branches@,
            )
        }
    }

    /// Renders the session's status as of time `now`; the exact text is
    /// [`Session::status_seq`].
    #[verifier::rlimit(50)]
    pub fn status_at(&self, now: u64) -> (r: String)
        ensures
            r@ == self.status_seq(now),
    {
        let mut s = String::from_str("Session running since ");
        let since_start: u64 = if now >= self.start {
            now - self.start
        } else {
            0
        };
        let d = sec_to_hms_string(since_start);
        s.append(d.as_str());
        s.append(".\n");
        let n = self.events.len();
        if self.is_paused() {
            s.append("    Paused since ");
            let ev_ts = self.events[n - 1].timestamp;
            let since_ev: u64 = if now >= ev_ts {
                now - ev_ts
            } else {
                0
            };
            let d2 = sec_to_hms_string(since_ev);
            s.append(d2.as_str());
            s.append(".\n");
        } else if n == 0 {
            s.append("    No events in this session yet!\n");
        } else {
            s.append("    Last event: ");
            s.append(self.events[n - 1].kind.label());
            s.append(", ");
            let ev_ts = self.events[n - 1].timestamp;
            let since_ev: u64 = if now >= ev_ts {
                now - ev_ts
            } else {
                0
            };
            let d2 = sec_to_hms_string(since_ev);
            s.append(d2.as_str());
            s.append(" ago.\n");
        }
        let b = self.branches.len();
        if b > 0 {
            s.append("Worked on ");
            let c = dec_string(b as u64);
            s.append(c.as_str());
            s.append(" branches: ");
            let ghost p: Seq<char> = s@;
            let mut i: usize = 0;
            proof {
                assert(self.branches@.take(0) =~= Seq::<String>::empty());
            }
            while i < b
                invariant
                    0 <= i <= b,
                    b == self.branches@.len(),
                    s@ == p + branches_seq(self.branches@.take(i as int)),
                decreases b - i,
            {
                proof {
                    assert(self.branches@.take(i as int + 1).drop_last() =~= self.branches@.take(
                        i as int,
                    ));
                    assert(self.branches@.take(i as int + 1).last() == self.branches@[i as int]);
                }
                s.append(self.branches[i].as_str());
                s.append(" ");
                i += 1;
            }
            proof {
                assert(self.branches@.take(b as int) =~= self.branches@);
            }
        }
        proof {
            assert(s@ =~= self.status_seq(now));
        }
        s
    }

    /// Renders the session's status as of the current clock time; see
    /// [`Session::status_at`].
    pub fn status(&self) -> (r: String)
        ensures
            exists|now: u64| r@ == #[trigger] self.status_seq(now),
    {
        let now = get_seconds();
        let r = self.status_at(now);
        proof {
            assert(r@ == self.status_seq(now));
        }
        r
    }
}

/// The branch names joined in order, each followed by one space.
pub open spec fn branches_seq(branches: Seq<String>) -> Seq<char>
    decreases branches.len(),
{
    if branches.len() == 0 {
        Seq::<char>::empty()
    } else {
        branches_seq(branches.drop_last()) + branches.last()@ + " "@
    }
}

/// A well-formed session extended by one event strictly after its log,
/// with proper pairing and a covering end, is well-formed.
#[verifier::rlimit(50)]
proof fn lemma_wf_after_append(pre: Session, post: Session)
    requires
        pre.wf(),
        post.events@.len() == pre.events@.len() + 1,
        post.events@.subrange(0, pre.events@.len() as int) == pre.events@,
        pre.last_ts() < post.events@.last().timestamp,
        post.events@.last().timestamp < post.end,
        post.events@.last().kind is Resume ==> pre.spec_paused(),
        post.events@.last().kind is Pause ==> !pre.spec_paused(),
        post.start == pre.start,
        post.branches == pre.branches,
        post.start < post.end,
    ensures
        post.wf(),
{
    let n = pre.events@.len() as int;
    assert forall|i: int| 0 <= i < n implies post.events@[i] == pre.events@[i] by {
        assert(post.events@.subrange(0, n)[i] == post.events@[i]);
    }
    assert forall|i: int, j: int|
        #![trigger post.events@[i], post.events@[j]]
        0 <= i < j < post.events@.len() implies post.events@[i].timestamp
        < post.events@[j].timestamp by {
        if j < n {
            assert(pre.events@[i].timestamp < pre.events@[j].timestamp);
        } else {
            if i < n - 1 {
                assert(pre.events@[i].timestamp < pre.events@[n - 1].timestamp);
            }
        }
    }
    assert forall|i: int, j: int|
        #![trigger post.events@[i], post.events@[j]]
        0 <= i && j == i + 1 && j < post.events@.len() implies {
        &&& (post.events@[j].kind is Resume ==> post.events@[i].kind is Pause)
        &&& (post.events@[j].kind is Pause ==> !(post.events@[i].kind is Pause))
    } by {
        if j < n {
            assert(pre.events@[i].kind == post.events@[i].kind);
            assert(pre.events@[j].kind == post.events@[j].kind);
        } else {
            assert(post.events@[i] == pre.events@[n - 1]);
        }
    }
    if n > 0 {
        assert(post.events@[0] == pre.events@[0]);
    }
}

/// A well-formed session whose last event's note is amended (timestamp
/// and kind kept) stays well-formed when the end still covers the log.
proof fn lemma_wf_after_amend(pre: Session, post: Session)
    requires
        pre.wf(),
        pre.events@.len() > 0,
        post.events@.len() == pre.events@.len(),
        post.events@.subrange(0, pre.events@.len() - 1) == pre.events@.subrange(
            0,
            pre.events@.len() - 1,
        ),
        post.events@.last().timestamp == pre.events@.last().timestamp,
        post.events@.last().kind == pre.events@.last().kind,
        post.events@.last().timestamp < post.end,
        post.start == pre.start,
        post.branches == pre.branches,
        post.start < post.end,
    ensures
        post.wf(),
{
    let n = pre.events@.len() as int;
    assert forall|i: int| 0 <= i < n - 1 implies post.events@[i] == pre.events@[i] by {
        assert(post.events@.subrange(0, n - 1)[i] == post.events@[i]);
        assert(pre.events@.subrange(0, n - 1)[i] == pre.events@[i]);
    }
    assert forall|i: int|
        0 <= i < n implies post.events@[i].timestamp == (#[trigger] pre.events@[i]).timestamp
        && post.events@[i].kind == pre.events@[i].kind by {
        if i < n - 1 {
            assert(post.events@[i] == pre.events@[i]);
        }
    }
    assert forall|i: int, j: int|
        #![trigger post.events@[i], post.events@[j]]
        0 <= i < j < post.events@.len() implies post.events@[i].timestamp
        < post.events@[j].timestamp by {
        assert(pre.events@[i].timestamp < pre.events@[j].timestamp);
    }
    assert forall|i: int, j: int|
        #![trigger post.events@[i], post.events@[j]]
        0 <= i && j == i + 1 && j < post.events@.len() implies {
        &&& (post.events@[j].kind is Resume ==> post.events@[i].kind is Pause)
        &&& (post.events@[j].kind is Pause ==> !(post.events@[i].kind is Pause))
    } by {
        assert(post.events@[i].kind == pre.events@[i].kind);
        assert(post.events@[j].kind == pre.events@[j].kind);
    }
    assert(post.events@[0].kind == pre.events@[0].kind);
}

/// A well-formed paused session extended by a `Resume` and one further
/// non-`Pause`, non-`Resume` event at strictly increasing timestamps is
/// well-formed.
proof fn lemma_wf_after_double_append(pre: Session, post: Session)
    requires
        pre.wf(),
        pre.spec_paused(),
        post.events@.len() == pre.events@.len() + 2,
        post.events@.subrange(0, pre.events@.len() as int) == pre.events@,
        post.events@[pre.events@.len() as int].kind is Resume,
        !(post.events@.last().kind is Pause),
        !(post.events@.last().kind is Resume),
        pre.last_ts() < post.events@[pre.events@.len() as int].timestamp,
        post.events@[pre.events@.len() as int].timestamp < post.events@.last().timestamp,
        post.events@.last().timestamp < post.end,
        post.start == pre.start,
        post.branches == pre.branches,
        post.start < post.end,
    ensures
        post.wf(),
{
    let n = pre.events@.len() as int;
    assert forall|i: int| 0 <= i < n implies post.events@[i] == pre.events@[i] by {
        assert(post.events@.subrange(0, n)[i] == post.events@[i]);
    }
    assert forall|i: int, j: int|
        #![trigger post.events@[i], post.events@[j]]
        0 <= i < j < post.events@.len() implies post.events@[i].timestamp
        < post.events@[j].timestamp by {
        if j < n {
            assert(pre.events@[i].timestamp < pre.events@[j].timestamp);
        } else {
            if i < n - 1 {
                assert(pre.events@[i].timestamp < pre.events@[n - 1].timestamp);
            } else if i == n - 1 {
                assert(post.events@[i] == pre.events@[n - 1]);
            }
        }
    }
    assert forall|i: int, j: int|
        #![trigger post.events@[i], post.events@[j]]
        0 <= i && j == i + 1 && j < post.events@.len() implies {
        &&& (post.events@[j].kind is Resume ==> post.events@[i].kind is Pause)
        &&& (post.events@[j].kind is Pause ==> !(post.events@[i].kind is Pause))
    } by {
        if j < n {
            assert(pre.events@[i].kind == post.events@[i].kind);
            assert(pre.events@[j].kind == post.events@[j].kind);
        } else if j == n {
            assert(post.events@[i] == pre.events@[n - 1]);
        }
    }
    assert(post.events@[0] == pre.events@[0]);
}

/// Within a well-formed log, strict ordering holds between any two
/// positions, not only adjacent ones.
pub proof fn lemma_events_strictly_increasing(events: Seq<Event>, i: int, j: int)
    requires
        events_ordered(events),
        0 <= i < j < events.len(),
    ensures
        events[i].timestamp < events[j].timestamp,
{
}

/// The events of a well-formed session are stored in strictly increasing
/// timestamp order.
pub proof fn lemma_session_events_increasing(s: Session)
    requires
        s.wf(),
    ensures
        forall|i: int, j: int|
            0 <= i < j < s.events@.len() ==> (#[trigger] s.events@[i]).timestamp < (
            #[trigger] s.events@[j]).timestamp,
{
    assert forall|i: int, j: int|
        0 <= i < j < s.events@.len() implies (#[trigger] s.events@[i]).timestamp < (
    #[trigger] s.events@[j]).timestamp by {
        lemma_events_strictly_increasing(s.events@, i, j);
    }
}

} // verus!
