//! Bookkeeping of one agent turn in a session.
//!
//! A turn persists a user message, then every message the agent stream
//! completes, each under the next sequence number. While it runs it keeps the
//! streamed text of the assistant answer in flight and the tool calls that
//! still wait for a result, so that a stop can leave a history a model will
//! accept again: one stub result per dangling tool call, then a note that
//! keeps whatever partial answer had streamed. The driver that owns the
//! stream feeds events in and performs the actions that come back.

use std::collections::HashMap;

use vstd::prelude::*;

use crate::text::{chars_of, parse_i64, parse_i64_spec, push_chars, push_str, string_of, string_views};

verus! {

/// How the driver obtains the next stream item.
#[derive(Debug, Clone, Copy, PartialEq, Eq, Structural)]
pub enum Fetch {
    /// Wait for the next item, or for a stop request.
    Await,
    /// Take an item only if the stream has already produced it.
    TakeReady,
}

/// What a fetch gave.
#[derive(Debug, Clone, Copy, PartialEq, Eq, Structural)]
pub enum Fetched {
    /// An item of the stream.
    Item,
    /// Nothing was ready (only when taking ready items).
    NothingReady,
    /// The stream ended.
    EndOfStream,
}

/// What the driver does next.
#[derive(Debug, Clone, Copy, PartialEq, Eq, Structural)]
pub enum DriveStep {
    /// Hand the item to the tracker.
    Handle,
    /// Commit a trailing message the stream left unfinished, then leave.
    FlushThenEnd,
    /// Leave the loop.
    End,
}

/// A session already has a run in flight.
#[derive(Debug, Clone, Copy, PartialEq, Eq, Structural)]
pub enum RunSlotError {
    AlreadyRunning(u128),
}

/// The lifecycle events a session's run publishes on its channel.
pub enum SessionRunStatus {
    /// The run began.
    Started,
    /// The turn completed.
    Done,
    /// The user stopped the turn.
    Stopped,
    /// The run failed.
    Error { message: String },
}

/// The one terminal event of a run: how its turn ended, or the failure that
/// ended it before or while the turn ran (`Err`).
pub open spec fn terminal_matches(result: Result<TurnOutcome, String>, e: SessionRunStatus) -> bool {
    match result {
        Ok(TurnOutcome::Done) => e is Done,
        Ok(TurnOutcome::Stopped { .. }) => e is Stopped,
        Ok(TurnOutcome::Failed { message }) => e matches SessionRunStatus::Error { message: m } && m@
            == message@,
        Err(message) => e matches SessionRunStatus::Error { message: m } && m@ == message@,
    }
}

/// The sessions that have a run in flight, each with the streamed text of
/// its turn so far (empty before any top-level text); each session has at
/// most one run.
pub struct RunSlots {
    active: HashMap<u128, String>,
}

impl View for RunSlots {
    type V = Map<u128, Seq<char>>;

    /// The partial text of each session with a run in flight.
    closed spec fn view(&self) -> Map<u128, Seq<char>> {
        self.active@.map_values(|s: String| s@)
    }
}

impl RunSlots {
    /// No run in flight.
    pub fn new() -> (r: Self)
        ensures
            r@ == Map::<u128, Seq<char>>::empty(),
    {
        let r = RunSlots { active: HashMap::new() };
        assert(r@ =~= Map::<u128, Seq<char>>::empty());
        r
    }

    /// Reserve the run slot of `session`, with no text streamed yet: refused
    /// while a run of that session is in flight, which is left as it is.
    pub fn begin_run(&mut self, session: u128) -> (r: Result<(), RunSlotError>)
        ensures
            old(self)@.contains_key(session) ==> r == Err::<(), RunSlotError>(
                RunSlotError::AlreadyRunning(session),
            ) && final(self)@ == old(self)@,
            !old(self)@.contains_key(session) ==> r is Ok && final(self)@ == old(self)@.insert(
                session,
                Seq::empty(),
            ),
    {
        broadcast use vstd::std_specs::hash::group_hash_axioms;

        if self.active.contains_key(&session) {
            Err(RunSlotError::AlreadyRunning(session))
        } else {
            let ghost before = self.active@;
            self.active.insert(session, String::new());
            assert(self@ =~= before.map_values(|s: String| s@).insert(session, Seq::empty()));
            Ok(())
        }
    }

    /// Whether a run of `session` is in flight.
    pub fn is_running(&self, session: u128) -> (r: bool)
        ensures
            r == self@.contains_key(session),
    {
        broadcast use vstd::std_specs::hash::group_hash_axioms;

        self.active.contains_key(&session)
    }

    /// Record the text streamed so far by `session`'s run; without a run in
    /// flight nothing changes.
    pub fn set_partial(&mut self, session: u128, text: String)
        ensures
            final(self)@ == (if old(self)@.contains_key(session) {
                old(self)@.insert(session, text@)
            } else {
                old(self)@
            }),
    {
        broadcast use vstd::std_specs::hash::group_hash_axioms;

        if self.active.contains_key(&session) {
            let ghost before = self.active@;
            let ghost t = text@;
            self.active.insert(session, text);
            assert(self@ =~= before.map_values(|s: String| s@).insert(session, t));
        }
    }

    /// The text streamed so far by `session`'s run: `None` when no run is in
    /// flight, empty before any top-level text.
    pub fn live_partial(&self, session: u128) -> (r: Option<String>)
        ensures
            match r {
                Some(p) => self@.contains_key(session) && p@ == self@[session],
                None => !self@.contains_key(session),
            },
    {
        broadcast use vstd::std_specs::hash::group_hash_axioms;

        match self.active.get(&session) {
            Some(p) => Some(p.clone()),
            None => None,
        }
    }

    /// Free the run slot of `session` when its run has ended.
    pub fn end_run(&mut self, session: u128)
        ensures
            final(self)@ == old(self)@.remove(session),
    {
        broadcast use vstd::std_specs::hash::group_hash_axioms;

        let ghost before = self.active@;
        self.active.remove(&session);
        assert(self@ =~= before.map_values(|s: String| s@).remove(session));
    }

    /// End `session`'s run with `result`: free its slot (its partial text
    /// goes with it) and return the one terminal event to publish.
    pub fn finish_run(&mut self, session: u128, result: Result<TurnOutcome, String>) -> (e:
        SessionRunStatus)
        ensures
            final(self)@ == old(self)@.remove(session),
            terminal_matches(result, e),
            !(e is Started),
    {
        self.end_run(session);
        match result {
            Ok(TurnOutcome::Done) => SessionRunStatus::Done,
            Ok(TurnOutcome::Stopped { .. }) => SessionRunStatus::Stopped,
            Ok(TurnOutcome::Failed { message }) => SessionRunStatus::Error { message },
            Err(message) => SessionRunStatus::Error { message },
        }
    }
}

/// A run's lifecycle: a session without a run in flight is accepted, its
/// run publishes `Started`, then exactly one terminal event for how it
/// ended; afterwards the session has no run in flight and no partial text,
/// every other session's slot is as before, and a new run is accepted.
pub proof fn lemma_run_lifecycle(
    slots: Map<u128, Seq<char>>,
    session: u128,
    result: Result<TurnOutcome, String>,
    terminal: SessionRunStatus,
)
    requires
        !slots.contains_key(session),
        terminal_matches(result, terminal),
    ensures
        !(terminal is Started),
        slots.insert(session, Seq::empty()).remove(session) == slots,
        !slots.insert(session, Seq::empty()).remove(session).contains_key(session),
{
    assert(slots.insert(session, Seq::empty()).remove(session) =~= slots);
}

/// Tool result persisted for a call a stop cut off.
pub const INTERRUPTED_TOOL_RESULT: &'static str =
    "[Interrupted: the user stopped response generation before this tool call completed]";

/// Closing note of a stopped turn.
pub const INTERRUPT_NOTE: &'static str =
    "[Interrupted: the user manually stopped response generation here]";

/// Author of a completed message.
#[derive(Debug, Clone, Copy, PartialEq, Eq, Structural)]
pub enum MessageRole {
    System,
    User,
    Assistant,
    Tool,
}

/// What the bookkeeping reads of a message the agent stream completed.
pub struct CompletedMessage {
    /// Nesting level; `None` and `Some(0)` are the top-level conversation.
    pub depth: Option<u8>,
    pub role: MessageRole,
    /// Whether the message ended with a plain stop (the turn is over).
    pub finished_with_stop: bool,
    /// Ids of the function tool calls the message makes, in order.
    pub tool_call_ids: Vec<String>,
    /// The message's own id; a tool result carries the id of its call.
    pub message_id: Option<String>,
}

/// Number of UTF-16 code units of a character.
pub open spec fn utf16_units(c: char) -> nat {
    if (c as u32) >= 0x10000 {
        2
    } else {
        1
    }
}

/// Length of a text in UTF-16 code units (a browser's `String.length`).
pub open spec fn utf16_len(s: Seq<char>) -> nat
    decreases s.len(),
{
    if s.len() == 0 {
        0
    } else {
        utf16_len(s.drop_last()) + utf16_units(s.last())
    }
}

proof fn lemma_utf16_prefix(s: Seq<char>, i: int)
    requires
        0 <= i <= s.len(),
    ensures
        utf16_len(s.subrange(0, i)) <= utf16_len(s),
    decreases s.len(),
{
    if i < s.len() {
        assert(s.drop_last() =~= s.subrange(0, s.len() - 1));
        lemma_utf16_prefix(s.drop_last(), i);
        assert(s.drop_last().subrange(0, i) =~= s.subrange(0, i));
    } else {
        assert(s.subrange(0, i) =~= s);
    }
}

/// `text.encode_utf16().count()`.
pub fn utf16_count(text: &[char]) -> (n: u64)
    requires
        utf16_len(text@) <= u64::MAX,
    ensures
        n == utf16_len(text@),
{
    let mut n: u64 = 0;
    let mut i: usize = 0;
    while i < text.len()
        invariant
            i <= text@.len(),
            utf16_len(text@) <= u64::MAX,
            n == utf16_len(text@.subrange(0, i as int)),
        decreases text@.len() - i,
    {
        proof {
            lemma_utf16_prefix(text@, i + 1);
            assert(text@.subrange(0, i + 1).drop_last() =~= text@.subrange(0, i as int));
        }
        if (text[i] as u32) >= 0x10000 {
            n = n + 2;
        } else {
            n = n + 1;
        }
        i = i + 1;
    }
    assert(text@.subrange(0, text@.len() as int) =~= text@);
    n
}

/// `s` with every occurrence of `x` removed.
pub open spec fn without(s: Seq<Seq<char>>, x: Seq<char>) -> Seq<Seq<char>>
    decreases s.len(),
{
    if s.len() == 0 {
        s
    } else if s.last() == x {
        without(s.drop_last(), x)
    } else {
        without(s.drop_last(), x).push(s.last())
    }
}

/// Whether a call id differs from `x`.
pub open spec fn other_than(x: Seq<char>) -> spec_fn(Seq<char>) -> bool {
    |c: Seq<char>| c != x
}

/// Removing every occurrence of `x` keeps the other calls in order.
pub proof fn lemma_without_is_filter(s: Seq<Seq<char>>, x: Seq<char>)
    ensures
        without(s, x) == s.filter(other_than(x)),
    decreases s.len(),
{
    reveal(Seq::filter);
    if s.len() > 0 {
        lemma_without_is_filter(s.drop_last(), x);
    }
}

/// Whether a completed message belongs to the top-level conversation.
pub open spec fn is_top_level(depth: Option<u8>) -> bool {
    depth is None || depth == Some(0u8)
}

/// The depth a completed message is stored with.
pub open spec fn stored_depth(depth: Option<u8>) -> u8 {
    match depth {
        Some(d) => d,
        None => 0,
    }
}

/// The streamed text after a message completes: a top-level assistant
/// message commits the answer, so the text in flight starts over.
pub open spec fn partial_after(partial: Seq<char>, msg: CompletedMessage) -> Seq<char> {
    if is_top_level(msg.depth) && msg.role == MessageRole::Assistant {
        Seq::empty()
    } else {
        partial
    }
}

/// The tool calls still waiting after a message completes: a top-level
/// assistant message adds its calls, a top-level tool result settles every
/// waiting call with its id.
pub open spec fn pending_after(pending: Seq<Seq<char>>, msg: CompletedMessage) -> Seq<Seq<char>> {
    if !is_top_level(msg.depth) {
        pending
    } else if msg.role == MessageRole::Assistant {
        pending + string_views(msg.tool_call_ids@)
    } else if msg.role == MessageRole::Tool {
        match msg.message_id {
            Some(id) => without(pending, id@),
            None => pending,
        }
    } else {
        pending
    }
}

/// Whether the turn counts as finished after a message completes: only a
/// top-level assistant message that ended with a stop finishes it, and any
/// other top-level message reopens it.
pub open spec fn natural_after(natural: bool, msg: CompletedMessage) -> bool {
    if is_top_level(msg.depth) {
        msg.role == MessageRole::Assistant && msg.finished_with_stop
    } else {
        natural
    }
}

/// A message of a sub-agent (depth other than zero) changes nothing of the
/// turn's own bookkeeping: the text in flight, the waiting tool calls and
/// whether the turn has finished stay as they were, so a stop never stubs a
/// sub-agent's internal call.
pub proof fn lemma_subagent_messages_leave_the_turn_alone(
    partial: Seq<char>,
    pending: Seq<Seq<char>>,
    natural: bool,
    msg: CompletedMessage,
)
    requires
        msg.depth matches Some(d) && d != 0,
    ensures
        partial_after(partial, msg) == partial,
        pending_after(pending, msg) == pending,
        natural_after(natural, msg) == natural,
{
}

/// A top-level assistant message commits the answer in flight, adds its
/// tool calls after the waiting ones, and finishes the turn exactly when it
/// ended with a stop.
pub proof fn lemma_top_level_answer_commits(
    partial: Seq<char>,
    pending: Seq<Seq<char>>,
    natural: bool,
    msg: CompletedMessage,
)
    requires
        msg.depth is None || msg.depth == Some(0u8),
        msg.role == MessageRole::Assistant,
    ensures
        partial_after(partial, msg).len() == 0,
        pending_after(pending, msg).len() == pending.len() + msg.tool_call_ids@.len(),
        pending_after(pending, msg).subrange(0, pending.len() as int) == pending,
        forall|i: int|
            0 <= i < msg.tool_call_ids@.len() ==> pending_after(pending, msg)[pending.len() + i]
                == #[trigger] msg.tool_call_ids@[i]@,
        natural_after(natural, msg) == msg.finished_with_stop,
{
    let v = string_views(msg.tool_call_ids@);
    assert((pending + v).subrange(0, pending.len() as int) =~= pending);
}

/// The note a stopped turn ends with: the partial answer, if any, then the
/// interruption notice.
pub open spec fn interrupt_note(partial: Seq<char>) -> Seq<char> {
    if partial.len() == 0 {
        INTERRUPT_NOTE@
    } else {
        partial + "\n\n"@ + INTERRUPT_NOTE@
    }
}

/// `a` followed by copies of the strings of `b`.
fn concat_strings(a: &Vec<String>, b: &Vec<String>) -> (r: Vec<String>)
    ensures
        string_views(r@) == string_views(a@) + string_views(b@),
{
    let mut r: Vec<String> = Vec::new();
    let mut k: usize = 0;
    while k < a.len()
        invariant
            k <= a@.len(),
            string_views(r@) == string_views(a@).subrange(0, k as int),
        decreases a@.len() - k,
    {
        let c = a[k].clone();
        let ghost before = string_views(r@);
        assert(c@ == a@[k as int]@);
        r.push(c);
        assert(string_views(r@) =~= before.push(c@));
        k = k + 1;
        assert(string_views(r@) =~= string_views(a@).subrange(0, k as int));
    }
    let mut j: usize = 0;
    while j < b.len()
        invariant
            j <= b@.len(),
            string_views(r@) == string_views(a@) + string_views(b@).subrange(0, j as int),
        decreases b@.len() - j,
    {
        let c = b[j].clone();
        let ghost before = string_views(r@);
        assert(c@ == b@[j as int]@);
        r.push(c);
        assert(string_views(r@) =~= before.push(c@));
        j = j + 1;
        assert(string_views(r@) =~= string_views(a@) + string_views(b@).subrange(0, j as int));
    }
    assert(string_views(b@).subrange(0, b@.len() as int) =~= string_views(b@));
    r
}

/// How a turn ended, with what is left to persist.
pub enum TurnOutcome {
    /// The turn completed; nothing more to persist.
    Done,
    /// The user stopped the turn. Persist a tool result holding
    /// [`INTERRUPTED_TOOL_RESULT`] for each `(seq, call id)` in `stubs`, in
    /// order, then an assistant message `note` at `note_seq`.
    Stopped { stubs: Vec<(i64, String)>, note_seq: i64, note: String },
    /// The stream failed outside a stop.
    Failed { message: String },
}

/// Book-keeping of one running turn.
pub struct TurnTracker {
    next_seq: i64,
    partial_text: Vec<char>,
    pending_calls: Vec<String>,
    completed_naturally: bool,
    stopped: bool,
    run_error: Option<String>,
}

impl TurnTracker {
    /// Sequence number the next persisted message gets.
    pub closed spec fn seq_next(&self) -> int {
        self.next_seq as int
    }

    /// Streamed text of the assistant answer in flight.
    pub closed spec fn partial(&self) -> Seq<char> {
        self.partial_text@
    }

    /// Ids of the tool calls still waiting for a result, in call order.
    pub closed spec fn pending(&self) -> Seq<Seq<char>> {
        string_views(self.pending_calls@)
    }

    /// Whether the last top-level message ended the turn.
    pub closed spec fn naturally_done(&self) -> bool {
        self.completed_naturally
    }

    /// Whether a stop was requested.
    pub closed spec fn stop_requested(&self) -> bool {
        self.stopped
    }

    /// The stream error that ended the loop, if any.
    pub closed spec fn error(&self) -> Option<Seq<char>> {
        match self.run_error {
            Some(e) => Some(e@),
            None => None,
        }
    }

    /// A fresh turn whose first message is stored at `next_seq_start`.
    pub fn new(next_seq_start: i64) -> (t: Self)
        ensures
            t.seq_next() == next_seq_start,
            t.partial() == Seq::<char>::empty(),
            t.pending() == Seq::<Seq<char>>::empty(),
            !t.naturally_done(),
            !t.stop_requested(),
            t.error() is None,
    {
        let t = TurnTracker {
            next_seq: next_seq_start,
            partial_text: Vec::new(),
            pending_calls: Vec::new(),
            completed_naturally: false,
            stopped: false,
            run_error: None,
        };
        assert(t.pending() =~= Seq::<Seq<char>>::empty());
        t
    }

    /// Sequence number for the next message to persist (the user message at
    /// the start of the turn); the counter moves on by one.
    pub fn take_seq(&mut self) -> (seq: i64)
        requires
            old(self).seq_next() < i64::MAX,
        ensures
            seq == old(self).seq_next(),
            final(self).seq_next() == old(self).seq_next() + 1,
            final(self).partial() == old(self).partial(),
            final(self).pending() == old(self).pending(),
            final(self).naturally_done() == old(self).naturally_done(),
            final(self).stop_requested() == old(self).stop_requested(),
            final(self).error() == old(self).error(),
    {
        let seq = self.next_seq;
        self.next_seq = self.next_seq + 1;
        seq
    }

    /// A live text fragment of the assistant answer arrived. Returns the
    /// UTF-16 length of everything streamed so far in this answer, which is
    /// published with the fragment so a client can drop what it already has.
    pub fn on_delta(&mut self, fragment: &str) -> (cum_len: u64)
        requires
            utf16_len(old(self).partial() + fragment@) <= u64::MAX,
        ensures
            final(self).partial() == old(self).partial() + fragment@,
            cum_len == utf16_len(final(self).partial()),
            final(self).seq_next() == old(self).seq_next(),
            final(self).pending() == old(self).pending(),
            final(self).naturally_done() == old(self).naturally_done(),
            final(self).stop_requested() == old(self).stop_requested(),
            final(self).error() == old(self).error(),
    {
        push_str(&mut self.partial_text, fragment);
        utf16_count(&self.partial_text)
    }

    /// The partial answer as text, for a client that attaches mid-turn.
    pub fn partial_text(&self) -> (r: String)
        ensures
            r@ == self.partial(),
    {
        string_of(&self.partial_text)
    }

    /// The tool calls still waiting for a result.
    pub fn pending_calls(&self) -> (r: Vec<String>)
        ensures
            string_views(r@) == self.pending(),
    {
        let empty: Vec<String> = Vec::new();
        let r = concat_strings(&empty, &self.pending_calls);
        assert(string_views(empty@) =~= Seq::<Seq<char>>::empty());
        assert(Seq::<Seq<char>>::empty() + self.pending() =~= self.pending());
        r
    }

    /// Sequence number the next persisted message gets.
    pub fn next_seq(&self) -> (r: i64)
        ensures
            r == self.seq_next(),
    {
        self.next_seq
    }

    /// Whether a stop was requested.
    pub fn is_stopped(&self) -> (r: bool)
        ensures
            r == self.stop_requested(),
    {
        self.stopped
    }

    /// Whether the last top-level message ended the turn.
    pub fn completed_naturally(&self) -> (r: bool)
        ensures
            r == self.naturally_done(),
    {
        self.completed_naturally
    }

    fn remove_call(&mut self, id: &String)
        ensures
            final(self).pending() == without(old(self).pending(), id@),
            final(self).next_seq == old(self).next_seq,
            final(self).partial_text@ == old(self).partial_text@,
            final(self).completed_naturally == old(self).completed_naturally,
            final(self).stopped == old(self).stopped,
            final(self).run_error == old(self).run_error,
    {
        let mut kept: Vec<String> = Vec::new();
        let mut k: usize = 0;
        while k < self.pending_calls.len()
            invariant
                k <= self.pending_calls@.len(),
                string_views(kept@) == without(string_views(self.pending_calls@).subrange(0, k as int), id@),
            decreases self.pending_calls@.len() - k,
        {
            let ghost pre = string_views(self.pending_calls@).subrange(0, k as int);
            let ghost post = string_views(self.pending_calls@).subrange(0, k + 1);
            assert(post.drop_last() =~= pre);
            assert(post.last() == self.pending_calls@[k as int]@);
            let c = &self.pending_calls[k];
            if !(*c == *id) {
                let ghost before = string_views(kept@);
                kept.push(c.clone());
                assert(string_views(kept@) =~= before.push(c@));
            }
            k = k + 1;
        }
        assert(string_views(self.pending_calls@).subrange(0, self.pending_calls@.len() as int)
            =~= string_views(self.pending_calls@));
        self.pending_calls = kept;
    }

    /// The stream completed a message. Returns the sequence number and depth
    /// to persist it with; a top-level message also updates the text in
    /// flight, the waiting tool calls and whether the turn is finished.
    pub fn on_completed(&mut self, msg: &CompletedMessage) -> (slot: (i64, u8))
        requires
            old(self).seq_next() < i64::MAX,
        ensures
            slot.0 == old(self).seq_next(),
            slot.1 == stored_depth(msg.depth),
            final(self).seq_next() == old(self).seq_next() + 1,
            final(self).partial() == partial_after(old(self).partial(), *msg),
            final(self).pending() == pending_after(old(self).pending(), *msg),
            final(self).naturally_done() == natural_after(old(self).naturally_done(), *msg),
            final(self).stop_requested() == old(self).stop_requested(),
            final(self).error() == old(self).error(),
            (msg.depth matches Some(d) && d != 0) ==> final(self).partial() == old(self).partial()
                && final(self).pending() == old(self).pending() && final(self).naturally_done()
                == old(self).naturally_done(),
            ((msg.depth is None || msg.depth == Some(0u8)) && msg.role == MessageRole::Assistant)
                ==> final(self).partial() == Seq::<char>::empty() && final(self).pending() == old(
                self,
            ).pending() + string_views(msg.tool_call_ids@) && final(self).naturally_done()
                == msg.finished_with_stop,
            ((msg.depth is None || msg.depth == Some(0u8)) && msg.role == MessageRole::Tool)
                ==> final(self).partial() == old(self).partial() && !final(self).naturally_done()
                && final(self).pending() == (match msg.message_id {
                Some(id) => old(self).pending().filter(other_than(id@)),
                None => old(self).pending(),
            }),
    {
        proof {
            if msg.message_id is Some {
                lemma_without_is_filter(self.pending(), msg.message_id->0@);
            }
        }
        let top = match msg.depth {
            None => true,
            Some(d) => d == 0,
        };
        if top {
            match msg.role {
                MessageRole::Assistant => {
                    self.partial_text = Vec::new();
                    self.completed_naturally = msg.finished_with_stop;
                    self.pending_calls = concat_strings(&self.pending_calls, &msg.tool_call_ids);
                },
                MessageRole::Tool => {
                    self.completed_naturally = false;
                    match &msg.message_id {
                        Some(id) => self.remove_call(id),
                        None => {},
                    }
                },
                _ => {
                    self.completed_naturally = false;
                },
            }
        }
        let depth: u8 = match msg.depth {
            Some(d) => d,
            None => 0,
        };
        let seq = self.next_seq;
        self.next_seq = self.next_seq + 1;
        (seq, depth)
    }

    /// A stop was requested. From here on the driver only takes output the
    /// stream has already produced.
    pub fn on_cancel(&mut self)
        ensures
            final(self).stop_requested(),
            final(self).seq_next() == old(self).seq_next(),
            final(self).partial() == old(self).partial(),
            final(self).pending() == old(self).pending(),
            final(self).naturally_done() == old(self).naturally_done(),
            final(self).error() == old(self).error(),
    {
        self.stopped = true;
    }

    /// The stream failed; the driver leaves its loop.
    pub fn on_error(&mut self, message: String)
        ensures
            final(self).error() == Some(message@),
            final(self).seq_next() == old(self).seq_next(),
            final(self).partial() == old(self).partial(),
            final(self).pending() == old(self).pending(),
            final(self).naturally_done() == old(self).naturally_done(),
            final(self).stop_requested() == old(self).stop_requested(),
    {
        self.run_error = Some(message);
    }

    /// Whether the end of the stream should flush a trailing message. A
    /// stopped turn's partial output is left to the interruption note.
    pub fn flushes_on_end(&self) -> (r: bool)
        ensures
            r == !self.stop_requested(),
    {
        !self.stopped
    }

    /// How the driver obtains the next stream item: by waiting for it (or
    /// for a stop request) while the turn runs; once a stop was requested,
    /// only by taking what the stream has already produced, never waiting,
    /// so that a turn that finished at the moment of the stop still commits
    /// its last message while the stop stays prompt.
    pub fn fetch_mode(&self) -> (f: Fetch)
        ensures
            f == (if self.stop_requested() {
                Fetch::TakeReady
            } else {
                Fetch::Await
            }),
    {
        if self.stopped {
            Fetch::TakeReady
        } else {
            Fetch::Await
        }
    }

    /// What the driver does with what a fetch gave: an item is handled;
    /// nothing ready (after a stop) ends the loop, dropping the stream; the
    /// end of the stream ends it too, after a trailing flush unless a stop
    /// was requested.
    pub fn drive_step(&self, fetched: Fetched) -> (d: DriveStep)
        ensures
            d == (match fetched {
                Fetched::Item => DriveStep::Handle,
                Fetched::NothingReady => DriveStep::End,
                Fetched::EndOfStream => if self.stop_requested() {
                    DriveStep::End
                } else {
                    DriveStep::FlushThenEnd
                },
            }),
    {
        match fetched {
            Fetched::Item => DriveStep::Handle,
            Fetched::NothingReady => DriveStep::End,
            Fetched::EndOfStream => if self.stopped {
                DriveStep::End
            } else {
                DriveStep::FlushThenEnd
            },
        }
    }

    /// How the turn ends. An error during a stop counts as the stop; a stop
    /// that lands when the turn had just finished counts as a completion.
    pub fn finish(&self) -> (o: TurnOutcome)
        requires
            self.seq_next() + self.pending().len() + 1 <= i64::MAX,
        ensures
            (o is Failed) == (self.error() is Some && !self.stop_requested()),
            o is Failed ==> Some(o->message@) == self.error(),
            (o is Stopped) == (self.stop_requested() && !self.naturally_done()),
            o is Stopped ==> {
                &&& o->stubs@.len() == self.pending().len()
                &&& forall|i: int|
                    0 <= i < o->stubs@.len() ==> {
                        &&& (#[trigger] o->stubs@[i]).0 == self.seq_next() + i
                        &&& o->stubs@[i].1@ == self.pending()[i]
                    }
                &&& o->note_seq == self.seq_next() + self.pending().len()
                &&& o->note@ == interrupt_note(self.partial())
            },
    {
        match &self.run_error {
            Some(e) => {
                if !self.stopped {
                    return TurnOutcome::Failed { message: e.clone() };
                }
            },
            None => {},
        }
        if !self.stopped || self.completed_naturally {
            return TurnOutcome::Done;
        }
        let mut stubs: Vec<(i64, String)> = Vec::new();
        let mut seq = self.next_seq;
        let mut k: usize = 0;
        while k < self.pending_calls.len()
            invariant
                k <= self.pending_calls@.len(),
                self.next_seq + self.pending_calls@.len() + 1 <= i64::MAX,
                seq == self.next_seq + k,
                stubs@.len() == k,
                forall|i: int|
                    0 <= i < k ==> {
                        &&& (#[trigger] stubs@[i]).0 == self.next_seq + i
                        &&& stubs@[i].1@ == self.pending_calls@[i]@
                    },
            decreases self.pending_calls@.len() - k,
        {
            stubs.push((seq, self.pending_calls[k].clone()));
            seq = seq + 1;
            k = k + 1;
        }
        let mut note: Vec<char> = Vec::new();
        if self.partial_text.len() > 0 {
            push_chars(&mut note, &self.partial_text);
            push_str(&mut note, "\n\n");
        }
        push_str(&mut note, INTERRUPT_NOTE);
        TurnOutcome::Stopped { stubs, note_seq: seq, note: string_of(&note) }
    }
}

/// First sequence number of a new turn: one past the last persisted row, or
/// zero for an empty session. Sub-agent rows count, though they are not
/// replayed.
pub fn next_seq_start(last_seq: Option<i64>) -> (r: i64)
    requires
        last_seq matches Some(s) ==> s < i64::MAX,
    ensures
        r == match last_seq {
            Some(s) => s + 1,
            None => 0,
        },
{
    match last_seq {
        Some(s) => s + 1,
        None => 0,
    }
}

/// The messages replayed into the model's history: the depth-0 rows, in
/// order. A sub-agent's transcript reaches the model only through its
/// top-level tool result.
pub open spec fn replayed<T>(rows: Seq<(u8, T)>) -> Seq<T>
    decreases rows.len(),
{
    if rows.len() == 0 {
        Seq::empty()
    } else if rows.last().0 == 0 {
        replayed(rows.drop_last()).push(rows.last().1)
    } else {
        replayed(rows.drop_last())
    }
}

/// Keeps the depth-0 rows, in order, and drops the rest.
pub fn replay_history<T>(rows: Vec<(u8, T)>) -> (r: Vec<T>)
    ensures
        r@ == replayed(rows@),
{
    let ghost all = rows@;
    let mut rest = rows;
    let mut reversed: Vec<(u8, T)> = Vec::new();
    while rest.len() > 0
        invariant
            all == rest@ + reversed@.reverse(),
        decreases rest@.len(),
    {
        let ghost before_rest = rest@;
        let ghost before_rev = reversed@;
        let row = rest.pop().unwrap();
        reversed.push(row);
        assert(reversed@.reverse() =~= seq![row] + before_rev.reverse());
        assert(before_rest =~= rest@.push(row));
        assert(all =~= rest@ + reversed@.reverse());
    }
    assert(all =~= reversed@.reverse());
    let mut out: Vec<T> = Vec::new();
    while reversed.len() > 0
        invariant
            out@ == replayed(all.subrange(0, all.len() - reversed@.len())),
            all.subrange(all.len() - reversed@.len(), all.len() as int) =~= reversed@.reverse(),
            reversed@.len() <= all.len(),
        decreases reversed@.len(),
    {
        let ghost n = all.len() - reversed@.len();
        let ghost before_rev = reversed@;
        let (depth, item) = reversed.pop().unwrap();
        proof {
            assert(before_rev =~= reversed@.push((depth, item)));
            assert(before_rev.reverse()[0] == (depth, item));
            assert(all[n] == all.subrange(n, all.len() as int)[0]);
            assert(all.subrange(0, n + 1).drop_last() =~= all.subrange(0, n));
            assert(all.subrange(0, n + 1).last() == all[n]);
            assert(all.subrange(n + 1, all.len() as int) =~= before_rev.reverse().drop_first());
            assert(reversed@.reverse() =~= before_rev.reverse().drop_first());
        }
        if depth == 0 {
            out.push(item);
        }
    }
    assert(all.subrange(0, all.len() as int) =~= all);
    out
}

/// One parsed frame of the live event channel, as the stream handler sees it.
pub enum LiveFrame {
    /// The payload is not JSON.
    Unreadable,
    /// A persisted message, with its sequence number when present.
    Message { seq: Option<i64> },
    /// An ephemeral event (a delta or a run status).
    Ephemeral,
}

/// What the stream handler does with a live frame.
#[derive(Debug, Clone, Copy, PartialEq, Eq, Structural)]
pub enum LiveAction {
    /// Drop it.
    Skip,
    /// Forward it as is.
    Forward,
    /// Forward it with this event id.
    ForwardWithId(i64),
}

/// Query of a message stream request.
pub struct StreamQuery {
    /// Resume after this sequence number (the `Last-Event-ID` header wins).
    pub last_seq: Option<i64>,
}

/// The resume point of a message stream: the highest sequence number the
/// client has, or `-1` for none.
pub struct StreamCursor {
    pub last_seq: i64,
}

/// Where a message stream resumes: the `Last-Event-ID` header when it parses
/// as an integer, else the `last_seq` query parameter, else `-1`.
pub fn resume_point(last_event_id: Option<&str>, query_last_seq: Option<i64>) -> (r: i64)
    ensures
        r == match last_event_id {
            Some(h) => match parse_i64_spec(h@) {
                Some(v) => v,
                None => match query_last_seq {
                    Some(q) => q,
                    None => -1i64,
                },
            },
            None => match query_last_seq {
                Some(q) => q,
                None => -1i64,
            },
        },
{
    let fallback: i64 = match query_last_seq {
        Some(q) => q,
        None => -1,
    };
    match last_event_id {
        Some(h) => match parse_i64(h) {
            Some(v) => v,
            None => fallback,
        },
        None => fallback,
    }
}

/// What a live frame gets when the client has everything up to `last_seq`.
pub open spec fn live_action(last_seq: i64, frame: LiveFrame) -> LiveAction {
    match frame {
        LiveFrame::Unreadable => LiveAction::Skip,
        LiveFrame::Ephemeral => LiveAction::Forward,
        LiveFrame::Message { seq } => match seq {
            Some(s) => if s <= last_seq {
                LiveAction::Skip
            } else {
                LiveAction::ForwardWithId(s)
            },
            None => LiveAction::Skip,
        },
    }
}

/// The resume point after an action.
pub open spec fn resume_after(last_seq: i64, a: LiveAction) -> i64 {
    match a {
        LiveAction::ForwardWithId(s) => s,
        _ => last_seq,
    }
}

/// A message stream never repeats a message and never goes back: a forwarded
/// message is newer than everything the client has, and the resume point
/// only moves forward.
pub proof fn lemma_stream_never_repeats(last_seq: i64, frame: LiveFrame)
    ensures
        live_action(last_seq, frame) matches LiveAction::ForwardWithId(s) ==> s > last_seq,
        resume_after(last_seq, live_action(last_seq, frame)) >= last_seq,
        frame matches LiveFrame::Message { seq } && (seq is None || seq.unwrap() <= last_seq)
            ==> live_action(last_seq, frame) == LiveAction::Skip,
{
}

/// A tool result settles its call: once the results of a call id are seen,
/// no call with that id is left waiting, and every other waiting call stays.
pub proof fn lemma_result_settles_call(pending: Seq<Seq<char>>, id: Seq<char>)
    ensures
        !without(pending, id).contains(id),
        forall|c: Seq<char>| c != id && pending.contains(c) ==> without(pending, id).contains(c),
        forall|c: Seq<char>| without(pending, id).contains(c) ==> pending.contains(c),
    decreases pending.len(),
{
    if pending.len() > 0 {
        let rest = pending.drop_last();
        lemma_result_settles_call(rest, id);
        assert forall|c: Seq<char>| c != id && pending.contains(c) implies without(
            pending,
            id,
        ).contains(c) by {
            let i = choose|i: int| 0 <= i < pending.len() && pending[i] == c;
            if i < pending.len() - 1 {
                assert(rest[i] == c);
                assert(rest.contains(c));
                let w = without(rest, id);
                let j = choose|j: int| 0 <= j < w.len() && w[j] == c;
                if pending.last() == id {
                } else {
                    assert(w.push(pending.last())[j] == c);
                }
            } else {
                assert(pending.last() == c);
                assert(without(rest, id).push(c)[without(rest, id).len() as int] == c);
            }
        }
        assert forall|c: Seq<char>| without(pending, id).contains(c) implies pending.contains(c) by {
            let w = without(rest, id);
            let j = choose|j: int| 0 <= j < without(pending, id).len() && without(pending, id)[j] == c;
            if pending.last() == id || j < w.len() {
                if pending.last() != id {
                    assert(w.push(pending.last())[j] == w[j]);
                }
                assert(w.contains(c));
                assert(rest.contains(c));
                let i = choose|i: int| 0 <= i < rest.len() && rest[i] == c;
                assert(pending[i] == c);
            } else {
                assert(pending[pending.len() - 1] == c);
            }
        }
        if without(pending, id).contains(id) {
            let w = without(rest, id);
            let j = choose|j: int| 0 <= j < without(pending, id).len() && without(pending, id)[j] == id;
            if pending.last() != id && j < w.len() {
                assert(w.push(pending.last())[j] == w[j]);
                assert(w.contains(id));
            }
        }
    }
}

impl StreamCursor {
    /// A caught-up row was sent; its sequence number is the new resume point.
    pub fn on_catch_up(&mut self, seq: i64)
        ensures
            final(self).last_seq == seq,
    {
        self.last_seq = seq;
    }

    /// A live frame arrived. A message the catch-up already sent (or one
    /// without a sequence number) is dropped; a newer one is forwarded with
    /// its id and becomes the resume point; other events pass through.
    pub fn on_live(&mut self, frame: &LiveFrame) -> (a: LiveAction)
        ensures
            a == live_action(old(self).last_seq, *frame),
            final(self).last_seq == resume_after(old(self).last_seq, a),
    {
        match frame {
            LiveFrame::Unreadable => LiveAction::Skip,
            LiveFrame::Ephemeral => LiveAction::Forward,
            LiveFrame::Message { seq } => match seq {
                Some(s) => {
                    if *s <= self.last_seq {
                        LiveAction::Skip
                    } else {
                        self.last_seq = *s;
                        LiveAction::ForwardWithId(*s)
                    }
                },
                None => LiveAction::Skip,
            },
        }
    }
}

/// An event sent to a client that attaches while a turn runs.
pub enum AttachEvent {
    /// The run is in progress.
    RunStarted,
    /// Everything streamed so far, as one cumulative delta.
    Delta { text: String, cum_len: u64 },
}

/// The events a client attaching mid-turn gets after the catch-up: none
/// when no turn runs; otherwise a start event, then the partial answer as
/// one delta when any has streamed.
pub fn attach_events(partial: Option<String>) -> (r: Vec<AttachEvent>)
    requires
        partial matches Some(p) ==> utf16_len(p@) <= u64::MAX,
    ensures
        partial is None ==> r@.len() == 0,
        partial matches Some(p) ==> {
            &&& r@.len() == (if p@.len() == 0 { 1int } else { 2int })
            &&& r@[0] is RunStarted
            &&& p@.len() > 0 ==> (r@[1] matches AttachEvent::Delta { text, cum_len } && text@
                == p@ && cum_len == utf16_len(p@))
        },
{
    let mut r: Vec<AttachEvent> = Vec::new();
    match partial {
        None => {},
        Some(p) => {
            r.push(AttachEvent::RunStarted);
            let cs = chars_of(p.as_str());
            if cs.len() > 0 {
                let n = utf16_count(&cs);
                r.push(AttachEvent::Delta { text: p, cum_len: n });
            }
        },
    }
    r
}

} // verus!
