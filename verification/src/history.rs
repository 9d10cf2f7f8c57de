//! Conversation history: the `History` trait, an unbounded store, and a
//! capped store that drops the oldest non-system messages first.
use vstd::prelude::*;

use crate::text::{
    contains, from_chars, has_infix, hex, owned, padded_hex, push_str, spec_trim, to_chars, trim,
    zero_pad,
};
use crate::types::{is_system, TimedMessage};

verus! {

/// Manages conversation history. Implementations may be infinite, capped, or
/// backed by external storage.
pub trait History: Send + Sync {
    /// The messages held, oldest first.
    spec fn messages(&self) -> Seq<TimedMessage>;

    /// What this store holds after `m` is added to a store holding `msgs`:
    /// `msgs` with `m` appended, less whatever the store's policy evicts.
    spec fn grown(&self, msgs: Seq<TimedMessage>, m: TimedMessage) -> Seq<TimedMessage>;

    /// Append a message to history. The store's policy stays the same.
    fn add(&mut self, message: TimedMessage)
        ensures
            final(self).messages() == old(self).grown(old(self).messages(), message),
            forall|msgs: Seq<TimedMessage>, m: TimedMessage|
                #[trigger] final(self).grown(msgs, m) == old(self).grown(msgs, m),
    ;

    /// Return all messages in chronological order.
    fn get_all(&self) -> (r: &[TimedMessage])
        ensures
            r@ == self.messages(),
    ;

    /// Remove all messages.
    fn clear(&mut self)
        ensures
            final(self).messages() == Seq::<TimedMessage>::empty(),
    ;
}

/// What `h`'s store holds after `entries` are added, in order, to a store
/// holding `msgs`.
pub open spec fn grown_by<H: History + ?Sized>(
    h: &H,
    msgs: Seq<TimedMessage>,
    entries: Seq<TimedMessage>,
) -> Seq<TimedMessage>
    decreases entries.len(),
{
    if entries.len() == 0 {
        msgs
    } else {
        h.grown(grown_by(h, msgs, entries.drop_last()), entries.last())
    }
}

// ---------------------------------------------------------------------------
// Specification of the capped store
// ---------------------------------------------------------------------------

/// The system messages of `s`, in order.
pub open spec fn system_part(s: Seq<TimedMessage>) -> Seq<TimedMessage>
    decreases s.len(),
{
    if s.len() == 0 {
        s
    } else if is_system(s[0].message) {
        seq![s[0]] + system_part(s.drop_first())
    } else {
        system_part(s.drop_first())
    }
}

/// The non-system messages of `s`, in order.
pub open spec fn others_part(s: Seq<TimedMessage>) -> Seq<TimedMessage>
    decreases s.len(),
{
    if s.len() == 0 {
        s
    } else if is_system(s[0].message) {
        others_part(s.drop_first())
    } else {
        seq![s[0]] + others_part(s.drop_first())
    }
}

/// `s` without its `k` oldest non-system messages (all of them if it has
/// fewer); system messages stay where they are.
pub open spec fn drop_oldest_others(s: Seq<TimedMessage>, k: nat) -> Seq<TimedMessage>
    decreases s.len(),
{
    if k == 0 || s.len() == 0 {
        s
    } else if is_system(s[0].message) {
        seq![s[0]] + drop_oldest_others(s.drop_first(), k)
    } else {
        drop_oldest_others(s.drop_first(), (k - 1) as nat)
    }
}

pub open spec fn min_nat(a: nat, b: nat) -> nat {
    if a <= b { a } else { b }
}

/// What a store capped at `cap` holds after `m` is appended to `before`:
/// when it is over the cap, the oldest non-system messages are dropped, as
/// many as it is over or all of them if there are fewer. System messages
/// are never dropped.
pub open spec fn bounded_add(before: Seq<TimedMessage>, m: TimedMessage, cap: nat) -> Seq<TimedMessage> {
    let s = before.push(m);
    if s.len() <= cap {
        s
    } else {
        drop_oldest_others(s, min_nat(others_part(s).len(), (s.len() - cap) as nat))
    }
}

// ---------------------------------------------------------------------------
// Lemmas
// ---------------------------------------------------------------------------

proof fn lemma_drop_zero(s: Seq<TimedMessage>)
    ensures
        drop_oldest_others(s, 0) == s,
{
}

proof fn lemma_single(x: TimedMessage, k: nat)
    ensures
        others_part(seq![x]) == (if is_system(x.message) { Seq::<TimedMessage>::empty() } else { seq![x] }),
        system_part(seq![x]) == (if is_system(x.message) { seq![x] } else { Seq::<TimedMessage>::empty() }),
        drop_oldest_others(seq![x], k) == (if k > 0 && !is_system(x.message) { Seq::<TimedMessage>::empty() } else { seq![x] }),
{
    let e = Seq::<TimedMessage>::empty();
    assert(seq![x].drop_first() == e);
    assert(others_part(e) == e);
    assert(system_part(e) == e);
    assert(seq![x] + e == seq![x]);
    if k > 0 {
        assert(drop_oldest_others(e, (k - 1) as nat) == e);
        assert(drop_oldest_others(e, k) == e);
    }
}

proof fn lemma_parts_len(s: Seq<TimedMessage>)
    ensures
        system_part(s).len() + others_part(s).len() == s.len(),
    decreases s.len(),
{
    if s.len() > 0 {
        lemma_parts_len(s.drop_first());
    }
}

proof fn lemma_others_concat(p: Seq<TimedMessage>, r: Seq<TimedMessage>)
    ensures
        others_part(p + r) == others_part(p) + others_part(r),
        system_part(p + r) == system_part(p) + system_part(r),
    decreases p.len(),
{
    if p.len() == 0 {
        assert(p + r == r);
    } else {
        assert((p + r).drop_first() == p.drop_first() + r);
        lemma_others_concat(p.drop_first(), r);
        assert((p + r)[0] == p[0]);
    }
}

/// Dropping from a concatenation drops from the front part first.
proof fn lemma_drop_split(p: Seq<TimedMessage>, r: Seq<TimedMessage>, k: nat)
    ensures
        drop_oldest_others(p + r, k) == drop_oldest_others(p, k) + drop_oldest_others(
            r,
            (k - min_nat(k, others_part(p).len())) as nat,
        ),
    decreases p.len(),
{
    if p.len() == 0 {
        assert(p + r == r);
    } else if k == 0 {
        lemma_drop_zero(r);
    } else {
        assert((p + r).drop_first() == p.drop_first() + r);
        assert((p + r)[0] == p[0]);
        if is_system(p[0].message) {
            lemma_drop_split(p.drop_first(), r, k);
            assert(seq![p[0]] + (drop_oldest_others(p.drop_first(), k) + drop_oldest_others(
                r,
                (k - min_nat(k, others_part(p.drop_first()).len())) as nat,
            )) == (seq![p[0]] + drop_oldest_others(p.drop_first(), k)) + drop_oldest_others(
                r,
                (k - min_nat(k, others_part(p.drop_first()).len())) as nat,
            ));
        } else {
            lemma_drop_split(p.drop_first(), r, (k - 1) as nat);
        }
    }
}

/// Dropping keeps the system messages and drops exactly the oldest
/// non-system ones.
proof fn lemma_drop_parts(s: Seq<TimedMessage>, k: nat)
    ensures
        system_part(drop_oldest_others(s, k)) == system_part(s),
        others_part(drop_oldest_others(s, k)) == others_part(s).skip(
            min_nat(k, others_part(s).len()) as int,
        ),
        drop_oldest_others(s, k).len() == s.len() - min_nat(k, others_part(s).len()),
    decreases s.len(),
{
    lemma_parts_len(s);
    if k == 0 || s.len() == 0 {
        assert(others_part(s).skip(0) == others_part(s));
    } else {
        let t = s.drop_first();
        if is_system(s[0].message) {
            lemma_drop_parts(t, k);
            let d = drop_oldest_others(t, k);
            assert((seq![s[0]] + d).drop_first() == d);
            assert((seq![s[0]] + d)[0] == s[0]);
        } else {
            lemma_drop_parts(t, (k - 1) as nat);
            assert((seq![s[0]] + others_part(t)).skip(min_nat(k, others_part(s).len()) as int)
                == others_part(t).skip(min_nat((k - 1) as nat, others_part(t).len()) as int));
        }
    }
}

/// While fewer than all non-system messages are dropped, the newest message
/// stays last.
proof fn lemma_drop_keeps_last(s: Seq<TimedMessage>, k: nat)
    requires
        s.len() > 0,
        k < others_part(s).len() || is_system(s.last().message),
    ensures
        drop_oldest_others(s, k).len() > 0,
        drop_oldest_others(s, k).last() == s.last(),
    decreases s.len(),
{
    if k == 0 {
    } else {
        let t = s.drop_first();
        if t.len() == 0 {
            assert(s == seq![s[0]]);
            if !is_system(s[0].message) {
                assert(others_part(t).len() == 0);
            }
        } else {
            assert(t.last() == s.last());
            if is_system(s[0].message) {
                lemma_drop_keeps_last(t, k);
                let d = drop_oldest_others(t, k);
                assert((seq![s[0]] + d).last() == d.last());
            } else {
                lemma_drop_keeps_last(t, (k - 1) as nat);
            }
        }
    }
}

// ---------------------------------------------------------------------------
// Laws of the capped store
// ---------------------------------------------------------------------------

/// After an append, a capped store holds at most `cap` messages, unless its
/// system messages alone are more than that, in which case it holds only
/// those.
pub proof fn law_bounded_len(before: Seq<TimedMessage>, m: TimedMessage, cap: nat)
    ensures
        bounded_add(before, m, cap).len() <= cap || bounded_add(before, m, cap).len() == system_part(
            before.push(m),
        ).len(),
{
    let s = before.push(m);
    lemma_parts_len(s);
    if s.len() > cap {
        let excess = (s.len() - cap) as nat;
        let ns = others_part(s).len();
        if ns > 0 {
            lemma_drop_parts(s, min_nat(ns, excess));
        }
    }
}

/// No system message is ever dropped, and the non-system messages that go
/// are the oldest ones: exactly as many as the store is over its cap, or
/// all of them if there are fewer.
pub proof fn law_bounded_pins_system(before: Seq<TimedMessage>, m: TimedMessage, cap: nat)
    ensures
        system_part(bounded_add(before, m, cap)) == system_part(before.push(m)),
        others_part(bounded_add(before, m, cap)) == others_part(before.push(m)).skip(
            min_nat(
                others_part(before.push(m)).len(),
                if before.push(m).len() > cap { (before.push(m).len() - cap) as nat } else { 0 },
            ) as int,
        ),
{
    let s = before.push(m);
    let ns = others_part(s).len();
    if s.len() > cap {
        let excess = (s.len() - cap) as nat;
        if ns > 0 {
            lemma_drop_parts(s, min_nat(ns, excess));
        } else {
            lemma_drop_zero(s);
            assert(others_part(s).skip(0) == others_part(s));
        }
    } else {
        assert(others_part(s).skip(0) == others_part(s));
    }
}

/// The message just added is the newest one held, whenever the system
/// messages alone leave room under the cap.
pub proof fn law_bounded_keeps_newest(before: Seq<TimedMessage>, m: TimedMessage, cap: nat)
    requires
        system_part(before.push(m)).len() < cap,
    ensures
        bounded_add(before, m, cap).len() > 0,
        bounded_add(before, m, cap).last() == m,
{
    let s = before.push(m);
    lemma_parts_len(s);
    if s.len() > cap {
        let excess = (s.len() - cap) as nat;
        let ns = others_part(s).len();
        assert(excess < ns);
        lemma_drop_keeps_last(s, min_nat(ns, excess));
    }
}

// ---------------------------------------------------------------------------
// InfiniteHistory
// ---------------------------------------------------------------------------

/// Unbounded in-memory history. Suitable as a default; swap for a capped
/// implementation when context limits matter.
pub struct InfiniteHistory {
    messages: Vec<TimedMessage>,
}

impl InfiniteHistory {
    pub fn new() -> (h: Self)
        ensures
            h.messages() == Seq::<TimedMessage>::empty(),
    {
        InfiniteHistory { messages: Vec::new() }
    }
}

impl Default for InfiniteHistory {
    fn default() -> (h: Self)
        ensures
            h.messages() == Seq::<TimedMessage>::empty(),
    {
        Self::new()
    }
}

impl History for InfiniteHistory {
    closed spec fn messages(&self) -> Seq<TimedMessage> {
        self.messages@
    }

    open spec fn grown(&self, msgs: Seq<TimedMessage>, m: TimedMessage) -> Seq<TimedMessage> {
        msgs.push(m)
    }

    fn add(&mut self, message: TimedMessage)
        ensures
            final(self).messages() == old(self).messages().push(message),
    {
        self.messages.push(message);
    }

    fn get_all(&self) -> (r: &[TimedMessage]) {
        self.messages.as_slice()
    }

    fn clear(&mut self) {
        self.messages.clear();
    }
}

/// Adding entries to an unbounded store appends them in order.
pub proof fn law_unbounded_appends(h: &InfiniteHistory, msgs: Seq<TimedMessage>, entries: Seq<TimedMessage>)
    ensures
        grown_by(h, msgs, entries) == msgs + entries,
    decreases entries.len(),
{
    if entries.len() > 0 {
        law_unbounded_appends(h, msgs, entries.drop_last());
        assert(msgs + entries == (msgs + entries.drop_last()).push(entries.last()));
    } else {
        assert(msgs + entries == msgs);
    }
}

// ---------------------------------------------------------------------------
// BoundedHistory
// ---------------------------------------------------------------------------

/// Capped in-memory history. When the capacity is exceeded, the oldest
/// non-system messages are dropped to make room. System messages are pinned
/// and never evicted.
pub struct BoundedHistory {
    messages: Vec<TimedMessage>,
    capacity: usize,
}

impl BoundedHistory {
    /// The cap on the number of messages.
    pub closed spec fn cap(&self) -> nat {
        self.capacity as nat
    }

    /// A store capped at `capacity`, or at 1 when `capacity` is 0.
    pub fn new(capacity: usize) -> (h: Self)
        ensures
            h.messages() == Seq::<TimedMessage>::empty(),
            h.cap() == if capacity >= 1 { capacity as nat } else { 1 },
    {
        BoundedHistory { messages: Vec::new(), capacity: if capacity >= 1 { capacity } else { 1 } }
    }
}

impl History for BoundedHistory {
    closed spec fn messages(&self) -> Seq<TimedMessage> {
        self.messages@
    }

    open spec fn grown(&self, msgs: Seq<TimedMessage>, m: TimedMessage) -> Seq<TimedMessage> {
        bounded_add(msgs, m, self.cap())
    }

    fn add(&mut self, message: TimedMessage)
        ensures
            final(self).messages() == bounded_add(old(self).messages(), message, old(self).cap()),
            final(self).cap() == old(self).cap(),
    {
        let ghost old_msgs = self.messages@;
        let cap0 = self.capacity;
        self.messages.push(message);
        let ghost s = self.messages@;
        let len = self.messages.len();
        if len <= self.capacity {
            return;
        }
        let excess = len - self.capacity;
        // Count the non-system messages.
        let mut ns: usize = 0;
        let mut j: usize = 0;
        while j < len
            invariant
                j <= len,
                len == s.len(),
                self.messages@ == s,
                self.capacity == cap0,
                ns == others_part(s.take(j as int)).len(),
                ns <= j,
            decreases len - j,
        {
            proof {
                lemma_others_concat(s.take(j as int), seq![s[j as int]]);
                lemma_single(s[j as int], 0);
                assert(s.take(j + 1) == s.take(j as int) + seq![s[j as int]]);
            }
            if !self.messages[j].message.is_system() {
                ns = ns + 1;
            }
            j = j + 1;
        }
        assert(s.take(len as int) == s);
        if ns == 0 {
            proof {
                lemma_drop_zero(s);
            }
            return;
        }
        let can = if ns <= excess { ns } else { excess };
        // Remove the `can` oldest non-system messages, in place.
        let mut i: usize = 0;
        let mut k: usize = 0;
        let mut evicted: usize = 0;
        assert(s.take(0) == Seq::<TimedMessage>::empty());
        assert(s.skip(0) == s);
        while evicted < can
            invariant
                k <= s.len(),
                len == s.len(),
                self.capacity == cap0,
                can <= ns,
                ns == others_part(s).len(),
                self.messages@ == drop_oldest_others(s.take(k as int), can as nat) + s.skip(
                    k as int,
                ),
                i == drop_oldest_others(s.take(k as int), can as nat).len(),
                evicted == min_nat(can as nat, others_part(s.take(k as int)).len()),
            decreases s.len() - k,
        {
            let ghost p = s.take(k as int);
            proof {
                if k == s.len() {
                    assert(p == s);
                    assert(false);
                }
                lemma_drop_split(p, seq![s[k as int]], can as nat);
                lemma_others_concat(p, seq![s[k as int]]);
                lemma_single(s[k as int], (can - evicted) as nat);
                assert(s.take(k + 1) == p + seq![s[k as int]]);
                assert(s.skip(k as int) == seq![s[k as int]] + s.skip(k + 1));
                assert(seq![s[k as int]].drop_first() == Seq::<TimedMessage>::empty());
                assert(self.messages@[i as int] == s[k as int]);
                assert(i < self.messages@.len());
                assert(i < self.messages.len());
            }
            if self.messages[i].message.is_system() {
                proof {
                    let d = drop_oldest_others(p, can as nat);
                    assert(d + (seq![s[k as int]] + s.skip(k + 1)) == (d + seq![s[k as int]])
                        + s.skip(k + 1));
                }
                i = i + 1;
            } else {
                let ghost before = self.messages@;
                self.messages.remove(i);
                proof {
                    let d = drop_oldest_others(p, can as nat);
                    assert(drop_oldest_others(seq![s[k as int]], (can - evicted) as nat)
                        == drop_oldest_others(Seq::<TimedMessage>::empty(), (can - evicted - 1) as nat));
                    assert(before == d + (seq![s[k as int]] + s.skip(k + 1)));
                    assert(before.remove(i as int) =~= d + s.skip(k + 1));
                    assert(d + Seq::<TimedMessage>::empty() == d);
                }
                evicted = evicted + 1;
            }
            k = k + 1;
        }
        proof {
            let p = s.take(k as int);
            lemma_drop_split(p, s.skip(k as int), can as nat);
            assert(p + s.skip(k as int) == s);
            lemma_drop_zero(s.skip(k as int));
        }
    }

    fn get_all(&self) -> (r: &[TimedMessage]) {
        self.messages.as_slice()
    }

    fn clear(&mut self) {
        self.messages.clear();
    }
}

// ---------------------------------------------------------------------------
// PersistentHistory
// ---------------------------------------------------------------------------

/// Where a persistent history writes: each added message is recorded, and
/// clearing the history starts a new session.
pub trait HistorySink: Send + Sync {
    /// Records a message that was added.
    fn record(&mut self, message: &TimedMessage);

    /// Starts a new, empty session.
    fn restart(&mut self);
}

/// Unbounded history whose messages are also recorded by a sink.
pub struct PersistentHistory<S: HistorySink> {
    messages: Vec<TimedMessage>,
    pub sink: S,
}

impl<S: HistorySink> PersistentHistory<S> {
    /// The sink.
    pub closed spec fn sink_of(&self) -> S {
        self.sink
    }

    /// A history holding `messages`, recording further messages to `sink`.
    pub fn resume(messages: Vec<TimedMessage>, sink: S) -> (h: Self)
        ensures
            h.messages() == messages@,
            h.sink_of() == sink,
    {
        PersistentHistory { messages, sink }
    }
}

impl<S: HistorySink> History for PersistentHistory<S> {
    closed spec fn messages(&self) -> Seq<TimedMessage> {
        self.messages@
    }

    open spec fn grown(&self, msgs: Seq<TimedMessage>, m: TimedMessage) -> Seq<TimedMessage> {
        msgs.push(m)
    }

    fn add(&mut self, message: TimedMessage)
        ensures
            final(self).messages() == old(self).messages().push(message),
    {
        self.sink.record(&message);
        self.messages.push(message);
    }

    fn get_all(&self) -> (r: &[TimedMessage]) {
        self.messages.as_slice()
    }

    fn clear(&mut self) {
        self.messages.clear();
        self.sink.restart();
    }
}

// ---------------------------------------------------------------------------
// Session files
// ---------------------------------------------------------------------------

/// The id of a session started `nanos` nanoseconds after the Unix epoch:
/// the first 12 of the count's 16 zero-padded lower-case hex digits.
pub fn session_id_from_nanos(nanos: u128) -> (r: String)
    ensures
        r@ == zero_pad(hex(nanos as nat), 16).take(12),
{
    let full = padded_hex(nanos, 16);
    let cs = to_chars(full.as_str());
    proof {
        lemma_zero_pad_len(hex(nanos as nat), 16);
    }
    from_chars(&cs.as_slice()[0..12])
}

proof fn lemma_zero_pad_len(s: Seq<char>, width: nat)
    ensures
        zero_pad(s, width).len() >= width,
{
}

/// The file that holds a session's messages: `<id>.jsonl`.
pub fn session_file_name(id: &str) -> (r: String)
    ensures
        r@ == id@ + ".jsonl"@,
{
    let mut r = owned(id);
    push_str(&mut r, ".jsonl");
    r
}

/// Whether a line of a session file holds a message: it is not blank and
/// is not the session's metadata line.
pub open spec fn is_message_text(line: Seq<char>) -> bool {
    spec_trim(line).len() > 0 && !has_infix(line, "\"_meta\""@)
}

/// Whether a line of a session file holds a message.
pub fn is_message_line(line: &str) -> (b: bool)
    ensures
        b == is_message_text(line@),
{
    let t = trim(line);
    !t.as_str().is_empty() && !contains(line, "\"_meta\"")
}

/// An entry of the sessions index: the session's id, when the entry names
/// one, and the entry as recorded.
#[derive(Debug)]
pub struct IndexEntry {
    pub id: Option<String>,
    pub record: serde_json::Value,
}

/// Whether an index entry belongs to the session `id`.
pub open spec fn names_session(e: IndexEntry, id: Seq<char>) -> bool {
    e.id matches Some(s) && s@ == id
}

/// The entries that belong to other sessions than `id`, in order.
pub open spec fn other_sessions(entries: Seq<IndexEntry>, id: Seq<char>) -> Seq<IndexEntry>
    decreases entries.len(),
{
    if entries.len() == 0 {
        Seq::empty()
    } else {
        let rest = other_sessions(entries.drop_last(), id);
        if names_session(entries.last(), id) {
            rest
        } else {
            rest.push(entries.last())
        }
    }
}

/// The sessions index with the entry of session `id` replaced: earlier
/// entries of that session are dropped and the new one goes last.
pub fn replace_session_entry(index: Vec<IndexEntry>, id: &str, entry: IndexEntry) -> (r: Vec<IndexEntry>)
    ensures
        r@ == other_sessions(index@, id@).push(entry),
{
    let ghost all = index@;
    let mut rest = index;
    let mut out: Vec<IndexEntry> = Vec::new();
    let ghost mut done: int = 0;
    while rest.len() > 0
        invariant
            0 <= done <= all.len(),
            rest@ == all.skip(done),
            out@ == other_sessions(all.take(done), id@),
        decreases rest.len(),
    {
        let e = rest.remove(0);
        proof {
            assert(all.take(done + 1).drop_last() == all.take(done));
            assert(all.take(done + 1).last() == e);
            assert(rest@ == all.skip(done + 1));
            done = done + 1;
        }
        let same = match &e.id {
            Some(s) => crate::tools::same_text(s.as_str(), id),
            None => false,
        };
        if !same {
            out.push(e);
        }
    }
    assert(all.take(done) == all);
    out.push(entry);
    out
}

} // verus!

