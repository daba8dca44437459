//! Commands and events of a client of the `ht` process, the snapshot it
//! builds from a view, and its registry of event subscribers.
use crate::agent::ht_process::HtProcessError;
use vstd::prelude::*;

verus! {

/// Why a client operation failed.
#[derive(Debug)]
pub enum HtClientError {
    ProcessError(HtProcessError),
    CommunicationError(String),
    SerializationError(serde_json::Error),
    Timeout,
    InvalidResponse(String),
}

/// A command of the client.
#[derive(Debug, Clone)]
pub enum HtCommand {
    SendKeys { keys: String },
    TakeSnapshot,
    Resize { width: u32, height: u32 },
    Subscribe { events: Vec<String> },
    Unsubscribe { events: Vec<String> },
}

/// An event the terminal reports.
#[derive(Debug, Clone)]
pub enum HtEvent {
    TerminalOutput { data: String },
    TerminalResize { width: u32, height: u32 },
    ProcessExit { code: i32 },
    Error { message: String },
}

/// What the terminal shows, with its size and cursor.
#[derive(Debug, Clone)]
pub struct TerminalSnapshot {
    pub content: String,
    pub width: u32,
    pub height: u32,
    pub cursor_x: u32,
    pub cursor_y: u32,
}

/// The name subscribers use for the kind of an event.
pub open spec fn spec_event_type(e: HtEvent) -> Seq<char> {
    match e {
        HtEvent::TerminalOutput { .. } => "terminalOutput"@,
        HtEvent::TerminalResize { .. } => "terminalResize"@,
        HtEvent::ProcessExit { .. } => "processExit"@,
        HtEvent::Error { .. } => "error"@,
    }
}

/// The name of an event's kind.
pub fn event_type(e: &HtEvent) -> (s: &'static str)
    ensures
        s@ == spec_event_type(*e),
{
    match e {
        HtEvent::TerminalOutput { .. } => "terminalOutput",
        HtEvent::TerminalResize { .. } => "terminalResize",
        HtEvent::ProcessExit { .. } => "processExit",
        HtEvent::Error { .. } => "error",
    }
}

/// The snapshot the client reports for a view: the view's text on an 80 by
/// 24 terminal with the cursor at the origin.
pub fn snapshot_of_view(view: String) -> (s: TerminalSnapshot)
    ensures
        s.content@ == view@,
        s.width == 80,
        s.height == 24,
        s.cursor_x == 0,
        s.cursor_y == 0,
{
    TerminalSnapshot { content: view, width: 80, height: 24, cursor_x: 0, cursor_y: 0 }
}

/// What the client asks of the `ht` process for a command.
#[derive(Debug, Clone, PartialEq, Eq)]
pub enum ProcessCall {
    /// Send these keys as input.
    SendInput(String),
    /// Ask for the current view.
    GetView,
    /// Nothing; the command is answered at once.
    Nothing,
}

/// The process call for a command: keys are sent as input, a snapshot asks
/// for the view, and resizing and (un)subscribing ask nothing of it.
pub fn process_call(command: &HtCommand) -> (c: ProcessCall)
    ensures
        match command {
            HtCommand::SendKeys { keys } => c matches ProcessCall::SendInput(k) && k@ == keys@,
            HtCommand::TakeSnapshot => c == ProcessCall::GetView,
            _ => c == ProcessCall::Nothing,
        },
{
    match command {
        HtCommand::SendKeys { keys } => ProcessCall::SendInput(keys.clone()),
        HtCommand::TakeSnapshot => ProcessCall::GetView,
        _ => ProcessCall::Nothing,
    }
}

/// What a successful process call gave back.
#[derive(Debug, Clone)]
pub enum CallOutcome {
    /// The input was sent.
    Sent,
    /// The current view.
    View(String),
    /// No call was made.
    Nothing,
}

/// The client's answer to a command: whether it succeeded, the snapshot it
/// carries, if any, and an error message, if any.
#[derive(Debug, Clone)]
pub struct HtCommandResponse {
    pub success: bool,
    pub data: Option<TerminalSnapshot>,
    pub error: Option<String>,
}

/// The answer to a command once its process call is done: a failed call is
/// a process error; a view becomes a successful answer carrying the snapshot
/// of that view; any other call a successful answer without data.
pub fn command_response(outcome: Result<CallOutcome, HtProcessError>) -> (r: Result<
    HtCommandResponse,
    HtClientError,
>)
    ensures
        match outcome {
            Err(e) => r matches Err(HtClientError::ProcessError(e2)) && e2 == e,
            Ok(CallOutcome::View(v)) => r matches Ok(resp) && resp.success && resp.error is None
                && (resp.data matches Some(snap) && snap.content@ == v@ && snap.width == 80
                && snap.height == 24 && snap.cursor_x == 0 && snap.cursor_y == 0),
            Ok(_) => r matches Ok(resp) && resp.success && resp.data is None && resp.error is None,
        },
{
    match outcome {
        Err(e) => Err(HtClientError::ProcessError(e)),
        Ok(CallOutcome::View(v)) => Ok(
            HtCommandResponse { success: true, data: Some(snapshot_of_view(v)), error: None },
        ),
        Ok(_) => Ok(HtCommandResponse { success: true, data: None, error: None }),
    }
}

/// The snapshot of a snapshot command's answer; refused when the answer
/// carries none.
pub fn snapshot_from_response(response: HtCommandResponse) -> (r: Result<TerminalSnapshot, HtClientError>)
    ensures
        match response.data {
            Some(s) => r matches Ok(x) && x.content@ == s.content@ && x.width == s.width
                && x.height == s.height && x.cursor_x == s.cursor_x && x.cursor_y == s.cursor_y,
            None => r matches Err(HtClientError::InvalidResponse(m)) && m@
                == "No snapshot data in response"@,
        },
{
    match response.data {
        Some(s) => Ok(s),
        None => Err(HtClientError::InvalidResponse("No snapshot data in response".to_owned())),
    }
}

struct Subscription {
    event: String,
    ids: Vec<u64>,
}

spec fn entry_view(s: Subscription) -> (Seq<char>, Seq<u64>) {
    (s.event@, s.ids@)
}

spec fn entries_view(es: Seq<Subscription>) -> Seq<(Seq<char>, Seq<u64>)> {
    es.map_values(|s: Subscription| entry_view(s))
}

/// The subscribers of an event in a list of (event, subscribers) entries:
/// those of its last entry, none if it has no entry.
pub open spec fn lookup(es: Seq<(Seq<char>, Seq<u64>)>, event: Seq<char>) -> Seq<u64>
    decreases es.len(),
{
    if es.len() == 0 {
        Seq::empty()
    } else if es.last().0 == event {
        es.last().1
    } else {
        lookup(es.drop_last(), event)
    }
}

/// Whether an event has an entry.
pub open spec fn has_entry(es: Seq<(Seq<char>, Seq<u64>)>, event: Seq<char>) -> bool {
    exists|i: int| 0 <= i < es.len() && (#[trigger] es[i]).0 == event
}

spec fn bumped(es: Seq<(Seq<char>, Seq<u64>)>, event: Seq<char>, id: u64) -> Seq<
    (Seq<char>, Seq<u64>),
> {
    es.map_values(
        |e: (Seq<char>, Seq<u64>)|
            if e.0 == event {
                (e.0, e.1.push(id))
            } else {
                e
            },
    )
}

spec fn other_event(event: Seq<char>) -> spec_fn((Seq<char>, Seq<u64>)) -> bool {
    |e: (Seq<char>, Seq<u64>)| e.0 != event
}

proof fn lemma_lookup_absent(es: Seq<(Seq<char>, Seq<u64>)>, event: Seq<char>)
    requires
        !has_entry(es, event),
    ensures
        lookup(es, event) == Seq::<u64>::empty(),
    decreases es.len(),
{
    if es.len() > 0 {
        let t = es.drop_last();
        assert(!has_entry(t, event)) by {
            if has_entry(t, event) {
                let i = choose|i: int| 0 <= i < t.len() && (#[trigger] t[i]).0 == event;
                assert(es[i] == t[i]);
            }
        }
        assert(es[es.len() - 1] == es.last());
        lemma_lookup_absent(t, event);
    }
}

proof fn lemma_lookup_bumped(es: Seq<(Seq<char>, Seq<u64>)>, event: Seq<char>, id: u64, k: Seq<char>)
    ensures
        lookup(bumped(es, event, id), k) == if k == event && has_entry(es, event) {
            lookup(es, k).push(id)
        } else {
            lookup(es, k)
        },
    decreases es.len(),
{
    if es.len() > 0 {
        let t = es.drop_last();
        lemma_lookup_bumped(t, event, id, k);
        assert(bumped(es, event, id).drop_last() =~= bumped(t, event, id));
        assert(es[es.len() - 1] == es.last());
        if has_entry(t, event) {
            let i = choose|i: int| 0 <= i < t.len() && (#[trigger] t[i]).0 == event;
            assert(es[i] == t[i]);
        }
        if has_entry(es, event) && es.last().0 != event {
            let i = choose|i: int| 0 <= i < es.len() && (#[trigger] es[i]).0 == event;
            assert(t[i] == es[i]);
        }
    }
}

proof fn lemma_lookup_filtered(es: Seq<(Seq<char>, Seq<u64>)>, event: Seq<char>, k: Seq<char>)
    ensures
        lookup(es.filter(other_event(event)), k) == if k == event {
            Seq::<u64>::empty()
        } else {
            lookup(es, k)
        },
    decreases es.len(),
{
    reveal(Seq::filter);
    if es.len() > 0 {
        let t = es.drop_last();
        let f = other_event(event);
        lemma_lookup_filtered(t, event, k);
        assert(t.push(es.last()) =~= es);
        t.lemma_filter_push(es.last(), f);
        assert(t.filter(f).push(es.last()).drop_last() =~= t.filter(f));
    }
}

/// Which subscribers listen to which kinds of events.
pub struct EventSubscribers {
    entries: Vec<Subscription>,
}

impl EventSubscribers {
    /// The subscribers of an event kind, in the order they subscribed.
    pub closed spec fn subscribers(&self, event: Seq<char>) -> Seq<u64> {
        lookup(entries_view(self.entries@), event)
    }

    /// A registry without subscribers.
    pub fn new() -> (r: EventSubscribers)
        ensures
            forall|k: Seq<char>| #[trigger] r.subscribers(k) == Seq::<u64>::empty(),
    {
        let r = EventSubscribers { entries: Vec::new() };
        assert forall|k: Seq<char>| #[trigger] r.subscribers(k) == Seq::<u64>::empty() by {
            assert(entries_view(r.entries@) =~= Seq::<(Seq<char>, Seq<u64>)>::empty());
        }
        r
    }

    /// Adds subscriber `id` to an event kind, after those already there.
    pub fn add(&mut self, event: &str, id: u64)
        ensures
            forall|k: Seq<char>| #[trigger]
                final(self).subscribers(k) == if k == event@ {
                    old(self).subscribers(k).push(id)
                } else {
                    old(self).subscribers(k)
                },
    {
        let ghost orig = entries_view(self.entries@);
        let mut rest: Vec<Subscription> = Vec::new();
        std::mem::swap(&mut rest, &mut self.entries);
        let mut out: Vec<Subscription> = Vec::new();
        let mut found = false;
        let ghost mut i: int = 0;
        proof {
            assert(orig.skip(0) =~= orig);
            assert(entries_view(out@) =~= bumped(orig.take(0), event@, id));
        }
        while rest.len() > 0
            invariant
                0 <= i <= orig.len(),
                entries_view(rest@) == orig.skip(i),
                entries_view(out@) == bumped(orig.take(i), event@, id),
                found == has_entry(orig.take(i), event@),
            decreases rest@.len(),
        {
            let ghost before = entries_view(out@);
            let ghost old_rest = rest@;
            assert(entries_view(old_rest).len() == old_rest.len());
            assert(entries_view(old_rest)[0] == entry_view(old_rest[0]));
            assert(orig.skip(i)[0] == orig[i]);
            let mut e = rest.remove(0);
            assert(entry_view(e) == orig[i]);
            assert forall|j: int| 0 <= j < rest@.len() implies #[trigger] entries_view(rest@)[j]
                == orig.skip(i + 1)[j] by {
                assert(rest@[j] == old_rest[j + 1]);
                assert(entries_view(old_rest)[j + 1] == entry_view(old_rest[j + 1]));
                assert(orig.skip(i)[j + 1] == orig.skip(i + 1)[j]);
            }
            assert(entries_view(rest@) =~= orig.skip(i + 1));
            assert(orig.take(i + 1) =~= orig.take(i).push(orig[i]));
            if crate::text::str_eq(e.event.as_str(), event) {
                e.ids.push(id);
                found = true;
                assert(orig.take(i + 1)[i] == orig[i]);
            } else {
                proof {
                    if has_entry(orig.take(i + 1), event@) {
                        let j = choose|j: int|
                            0 <= j < orig.take(i + 1).len() && (#[trigger] orig.take(i + 1)[j]).0
                                == event@;
                        assert(orig.take(i)[j] == orig.take(i + 1)[j]);
                    }
                }
            }
            out.push(e);
            proof {
                assert(entries_view(out@) =~= before.push(entry_view(e)));
                assert(bumped(orig.take(i + 1), event@, id) =~= bumped(orig.take(i), event@, id).push(
                    entry_view(e),
                ));
                i = i + 1;
            }
        }
        assert(orig.skip(i).len() == 0);
        assert(orig.take(i) =~= orig);
        if !found {
            let mut ids: Vec<u64> = Vec::new();
            ids.push(id);
            let ghost before = entries_view(out@);
            let s = Subscription { event: event.to_owned(), ids };
            out.push(s);
            assert(entries_view(out@) =~= before.push((event@, seq![id])));
        }
        self.entries = out;
        assert forall|k: Seq<char>| #[trigger]
            self.subscribers(k) == if k == event@ {
                old(self).subscribers(k).push(id)
            } else {
                old(self).subscribers(k)
            } by {
            lemma_lookup_bumped(orig, event@, id, k);
            if !found {
                lemma_lookup_absent(orig, event@);
                let b = bumped(orig, event@, id);
                assert(entries_view(self.entries@).drop_last() =~= b);
            }
        }
    }

    /// Removes every subscriber of an event kind.
    pub fn remove(&mut self, event: &str)
        ensures
            forall|k: Seq<char>| #[trigger]
                final(self).subscribers(k) == if k == event@ {
                    Seq::<u64>::empty()
                } else {
                    old(self).subscribers(k)
                },
    {
        let ghost orig = entries_view(self.entries@);
        let ghost keep = other_event(event@);
        let mut rest: Vec<Subscription> = Vec::new();
        std::mem::swap(&mut rest, &mut self.entries);
        let mut out: Vec<Subscription> = Vec::new();
        let ghost mut i: int = 0;
        proof {
            assert(orig.skip(0) =~= orig);
            reveal(Seq::filter);
            assert(entries_view(out@) =~= orig.take(0).filter(keep));
        }
        while rest.len() > 0
            invariant
                0 <= i <= orig.len(),
                keep == other_event(event@),
                entries_view(rest@) == orig.skip(i),
                entries_view(out@) == orig.take(i).filter(keep),
            decreases rest@.len(),
        {
            let ghost before = entries_view(out@);
            let ghost old_rest = rest@;
            assert(entries_view(old_rest).len() == old_rest.len());
            assert(entries_view(old_rest)[0] == entry_view(old_rest[0]));
            assert(orig.skip(i)[0] == orig[i]);
            let e = rest.remove(0);
            assert(entry_view(e) == orig[i]);
            assert forall|j: int| 0 <= j < rest@.len() implies #[trigger] entries_view(rest@)[j]
                == orig.skip(i + 1)[j] by {
                assert(rest@[j] == old_rest[j + 1]);
                assert(entries_view(old_rest)[j + 1] == entry_view(old_rest[j + 1]));
                assert(orig.skip(i)[j + 1] == orig.skip(i + 1)[j]);
            }
            assert(entries_view(rest@) =~= orig.skip(i + 1));
            assert(orig.take(i + 1) =~= orig.take(i).push(orig[i]));
            proof {
                orig.take(i).lemma_filter_push(orig[i], keep);
            }
            if !crate::text::str_eq(e.event.as_str(), event) {
                out.push(e);
                assert(entries_view(out@) =~= before.push(entry_view(e)));
            }
            proof {
                i = i + 1;
            }
        }
        assert(orig.skip(i).len() == 0);
        assert(orig.take(i) =~= orig);
        self.entries = out;
        assert forall|k: Seq<char>| #[trigger]
            self.subscribers(k) == if k == event@ {
                Seq::<u64>::empty()
            } else {
                old(self).subscribers(k)
            } by {
            lemma_lookup_filtered(orig, event@, k);
        }
    }

    /// Subscribes `id` to each listed event kind, in order.
    pub fn subscribe(&mut self, events: &[String], id: u64)
        ensures
            forall|k: Seq<char>| #[trigger]
                final(self).subscribers(k) == after_subscribe(
                    old(self).subscribers(k),
                    events@.map_values(|e: String| e@),
                    k,
                    id,
                ),
    {
        let ghost evs = events@.map_values(|e: String| e@);
        let mut i: usize = 0;
        while i < events.len()
            invariant
                i <= events@.len(),
                evs == events@.map_values(|e: String| e@),
                forall|k: Seq<char>| #[trigger]
                    self.subscribers(k) == old(self).subscribers(k) + Seq::new(
                        count_of(evs.take(i as int), k),
                        |j: int| id,
                    ),
            decreases events@.len() - i,
        {
            let ghost mid = *self;
            self.add(events[i].as_str(), id);
            assert(evs.take(i + 1).drop_last() =~= evs.take(i as int));
            assert(evs.take(i + 1).last() == events@[i as int]@);
            assert forall|k: Seq<char>| #[trigger]
                self.subscribers(k) == old(self).subscribers(k) + Seq::new(
                    count_of(evs.take(i + 1), k),
                    |j: int| id,
                ) by {
                let n = count_of(evs.take(i as int), k);
                if k == events@[i as int]@ {
                    assert(old(self).subscribers(k) + Seq::new(n, |j: int| id) + seq![id]
                        =~= old(self).subscribers(k) + Seq::new(n + 1, |j: int| id));
                }
            }
            i = i + 1;
        }
        assert(evs.take(events@.len() as int) =~= evs);
    }

    /// Removes every subscriber of each listed event kind.
    pub fn unsubscribe(&mut self, events: &[String])
        ensures
            forall|k: Seq<char>| #[trigger]
                final(self).subscribers(k) == after_unsubscribe(
                    old(self).subscribers(k),
                    events@.map_values(|e: String| e@),
                    k,
                ),
    {
        let ghost evs = events@.map_values(|e: String| e@);
        let mut i: usize = 0;
        while i < events.len()
            invariant
                i <= events@.len(),
                evs == events@.map_values(|e: String| e@),
                forall|k: Seq<char>| #[trigger]
                    self.subscribers(k) == if evs.take(i as int).contains(k) {
                        Seq::<u64>::empty()
                    } else {
                        old(self).subscribers(k)
                    },
            decreases events@.len() - i,
        {
            self.remove(events[i].as_str());
            assert(evs.take(i + 1) =~= evs.take(i as int).push(events@[i as int]@));
            assert forall|k: Seq<char>| #[trigger]
                self.subscribers(k) == if evs.take(i + 1).contains(k) {
                    Seq::<u64>::empty()
                } else {
                    old(self).subscribers(k)
                } by {
                if evs.take(i as int).contains(k) {
                    let j = choose|j: int| 0 <= j < evs.take(i as int).len() && #[trigger] evs.take(i as int)[j]
                        == k;
                    assert(evs.take(i + 1)[j] == k);
                }
                if k == events@[i as int]@ {
                    assert(evs.take(i + 1)[i as int] == k);
                }
                if evs.take(i + 1).contains(k) && k != events@[i as int]@ {
                    let j = choose|j: int| 0 <= j < evs.take(i + 1).len() && #[trigger] evs.take(i + 1)[j]
                        == k;
                    assert(evs.take(i as int)[j] == k);
                }
            }
            i = i + 1;
        }
        assert(evs.take(events@.len() as int) =~= evs);
    }

    /// The subscribers an event goes to: those of its kind.
    pub fn recipients(&self, event: &HtEvent) -> (ids: Vec<u64>)
        ensures
            ids@ == self.subscribers(spec_event_type(*event)),
    {
        let name = event_type(event);
        let ghost es = entries_view(self.entries@);
        let mut i: usize = self.entries.len();
        assert(es.take(es.len() as int) =~= es);
        while i > 0
            invariant
                i <= self.entries@.len(),
                es == entries_view(self.entries@),
                name@ == spec_event_type(*event),
                lookup(es, name@) == lookup(es.take(i as int), name@),
            decreases i,
        {
            let e = &self.entries[i - 1];
            assert(es.take(i as int).last() == entry_view(*e));
            assert(es.take(i as int).drop_last() =~= es.take(i - 1));
            if crate::text::str_eq(e.event.as_str(), name) {
                let mut ids: Vec<u64> = Vec::new();
                let mut j: usize = 0;
                while j < e.ids.len()
                    invariant
                        j <= e.ids@.len(),
                        ids@ == e.ids@.take(j as int),
                    decreases e.ids@.len() - j,
                {
                    ids.push(e.ids[j]);
                    assert(ids@ =~= e.ids@.take(j + 1));
                    j = j + 1;
                }
                assert(e.ids@.take(e.ids@.len() as int) == e.ids@);
                assert(lookup(es.take(i as int), name@) == e.ids@);
                return ids;
            }
            i = i - 1;
        }
        assert(es.take(0) =~= Seq::<(Seq<char>, Seq<u64>)>::empty());
        assert(es.take(es.len() as int) == es);
        Vec::new()
    }
}

/// How often a text occurs in a list.
pub open spec fn count_of(s: Seq<Seq<char>>, k: Seq<char>) -> nat
    decreases s.len(),
{
    if s.len() == 0 {
        0
    } else {
        count_of(s.drop_last(), k) + if s.last() == k {
            1nat
        } else {
            0nat
        }
    }
}

/// The subscribers of kind `k` after `id` subscribes to `events`: one more
/// `id` at the end for each time `k` is listed.
pub open spec fn after_subscribe(before: Seq<u64>, events: Seq<Seq<char>>, k: Seq<char>, id: u64) -> Seq<u64> {
    before + Seq::new(count_of(events, k), |j: int| id)
}

/// The subscribers of kind `k` after `events` are unsubscribed: none if `k`
/// is listed, else the same.
pub open spec fn after_unsubscribe(before: Seq<u64>, events: Seq<Seq<char>>, k: Seq<char>) -> Seq<u64> {
    if events.contains(k) {
        Seq::empty()
    } else {
        before
    }
}

proof fn lemma_count_of_contained(s: Seq<Seq<char>>, k: Seq<char>)
    requires
        s.contains(k),
    ensures
        count_of(s, k) >= 1,
    decreases s.len(),
{
    if s.last() != k {
        let i = choose|i: int| 0 <= i < s.len() && s[i] == k;
        assert(s[s.len() - 1] == s.last());
        assert(s.drop_last()[i] == k);
        lemma_count_of_contained(s.drop_last(), k);
    }
}

/// A subscriber to listed event kinds is the latest subscriber of each of
/// them; once the same kinds are unsubscribed nobody receives them, and the
/// other kinds keep their subscribers throughout.
pub proof fn law_subscribe_then_unsubscribe(before: Seq<u64>, events: Seq<Seq<char>>, k: Seq<char>, id: u64)
    ensures
        events.contains(k) ==> after_subscribe(before, events, k, id).last() == id,
        events.contains(k) ==> after_unsubscribe(after_subscribe(before, events, k, id), events, k)
            == Seq::<u64>::empty(),
        !events.contains(k) ==> after_unsubscribe(after_subscribe(before, events, k, id), events, k)
            == before,
{
    if events.contains(k) {
        lemma_count_of_contained(events, k);
        let s = after_subscribe(before, events, k, id);
        assert(s[s.len() - 1] == id);
    } else {
        assert(count_of(events, k) == 0) by {
            lemma_count_of_absent(events, k);
        }
        assert(after_subscribe(before, events, k, id) =~= before);
    }
}

proof fn lemma_count_of_absent(s: Seq<Seq<char>>, k: Seq<char>)
    requires
        !s.contains(k),
    ensures
        count_of(s, k) == 0,
    decreases s.len(),
{
    if s.len() > 0 {
        assert(s[s.len() - 1] == s.last());
        assert(!s.drop_last().contains(k)) by {
            if s.drop_last().contains(k) {
                let i = choose|i: int| 0 <= i < s.drop_last().len() && s.drop_last()[i] == k;
                assert(s[i] == k);
            }
        }
        lemma_count_of_absent(s.drop_last(), k);
    }
}

} // verus!
