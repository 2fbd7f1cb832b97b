//! Clipboard history: a bounded list of copied texts, newest first, that
//! skips a copy equal to the newest entry.

use vstd::prelude::*;
use vstd::string::StringExecFns;
use crate::text::prefixed;
use std::collections::VecDeque;

verus! {

/// One clipboard content, with its MIME type and when it was seen.
#[derive(Debug)]
pub struct ClipEntry {
    pub content: String,
    pub mime: String,
    pub timestamp_ms: u64,
}

impl Clone for ClipEntry {
    fn clone(&self) -> (r: Self)
        ensures
            r == *self,
    {
        ClipEntry {
            content: self.content.clone(),
            mime: self.mime.clone(),
            timestamp_ms: self.timestamp_ms,
        }
    }
}

/// Why a clipboard operation failed.
#[derive(Debug, Clone)]
pub enum ClipboardError {
    /// No Wayland display to talk to.
    NoDisplay,
    /// Reading the clipboard failed.
    Paste(String),
    /// Writing the clipboard failed.
    Copy(String),
}

/// The history after `entry` is pushed: unchanged when the newest entry has
/// the same content; otherwise `entry` in front, and the oldest entry dropped
/// when the history was full. A history of capacity 0 keeps nothing.
pub open spec fn pushed_history(h: Seq<ClipEntry>, capacity: nat, entry: ClipEntry) -> Seq<ClipEntry> {
    if h.len() > 0 && h[0].content@ == entry.content@ {
        h
    } else if capacity == 0 {
        Seq::empty()
    } else if h.len() >= capacity {
        seq![entry] + h.drop_last()
    } else {
        seq![entry] + h
    }
}

/// The history after each of `entries` is pushed in turn.
pub open spec fn pushed_all(h: Seq<ClipEntry>, capacity: nat, entries: Seq<ClipEntry>) -> Seq<ClipEntry>
    decreases entries.len(),
{
    if entries.len() == 0 {
        h
    } else {
        pushed_history(pushed_all(h, capacity, entries.drop_last()), capacity, entries.last())
    }
}

/// Bounded clipboard history, newest entry first.
pub struct ClipHistory {
    inner: VecDeque<ClipEntry>,
    capacity: usize,
}

impl View for ClipHistory {
    type V = Seq<ClipEntry>;

    closed spec fn view(&self) -> Seq<ClipEntry> {
        self.inner@
    }
}

impl ClipHistory {
    #[verifier::type_invariant]
    spec fn bounded(&self) -> bool {
        self.inner@.len() <= self.capacity
    }

    /// The capacity the history was created with.
    pub closed spec fn spec_capacity(&self) -> nat {
        self.capacity as nat
    }

    /// An empty history that keeps up to `capacity` entries.
    pub fn new(capacity: usize) -> (r: Self)
        ensures
            r@ == Seq::<ClipEntry>::empty(),
            r.spec_capacity() == capacity,
    {
        Self { inner: VecDeque::new(), capacity }
    }

    /// Records `entry` as the newest clipboard content, unless it repeats the
    /// newest one.
    pub fn push(&mut self, entry: ClipEntry)
        ensures
            final(self)@ == pushed_history(old(self)@, old(self).spec_capacity(), entry),
            final(self).spec_capacity() == old(self).spec_capacity(),
            final(self)@.len() <= final(self).spec_capacity(),
    {
        proof {
            use_type_invariant(&*self);
        }
        if self.inner.len() > 0 && self.inner[0].content == entry.content {
            return;
        }
        if self.capacity == 0 {
            return;
        }
        let mut inner = VecDeque::new();
        std::mem::swap(&mut inner, &mut self.inner);
        if inner.len() >= self.capacity {
            inner.pop_back();
        }
        inner.push_front(entry);
        self.inner = inner;
    }

    /// All entries, newest first; never more than the capacity.
    pub fn list(&self) -> (r: Vec<ClipEntry>)
        ensures
            r@ == self@,
            self@.len() <= self.spec_capacity(),
    {
        proof {
            use_type_invariant(self);
        }
        let mut r: Vec<ClipEntry> = Vec::new();
        let mut i: usize = 0;
        while i < self.inner.len()
            invariant
                i <= self.inner@.len(),
                r@ == self.inner@.subrange(0, i as int),
            decreases self.inner.len() - i,
        {
            r.push(self.inner[i].clone());
            i = i + 1;
            assert(r@ == self.inner@.subrange(0, i as int));
        }
        assert(self.inner@.subrange(0, self.inner@.len() as int) == self.inner@);
        r
    }

    /// The newest entry, if any.
    pub fn latest(&self) -> (r: Option<ClipEntry>)
        ensures
            r == (if self@.len() > 0 { Some(self@[0]) } else { None::<ClipEntry> }),
            self@.len() <= self.spec_capacity(),
    {
        proof {
            use_type_invariant(self);
        }
        if self.inner.len() > 0 {
            Some(self.inner[0].clone())
        } else {
            None
        }
    }
}

/// After a push into a history that keeps at least one entry, the newest
/// entry holds the pushed content.
pub proof fn law_latest_after_push(h: Seq<ClipEntry>, capacity: nat, entry: ClipEntry)
    requires
        capacity > 0,
    ensures
        pushed_history(h, capacity, entry).len() > 0,
        pushed_history(h, capacity, entry)[0].content@ == entry.content@,
{
}

/// Pushing the content that is already newest changes nothing.
pub proof fn law_repeat_push_is_noop(h: Seq<ClipEntry>, capacity: nat, entry: ClipEntry, again: ClipEntry)
    requires
        again.content@ == entry.content@,
    ensures
        pushed_history(pushed_history(h, capacity, entry), capacity, again) == pushed_history(
            h,
            capacity,
            entry,
        ),
{
}

/// A push never lets the history hold more entries than its capacity.
pub proof fn law_push_keeps_bound(h: Seq<ClipEntry>, capacity: nat, entry: ClipEntry)
    requires
        h.len() <= capacity,
    ensures
        pushed_history(h, capacity, entry).len() <= capacity,
{
}

/// Pushing up to `capacity` entries, each with content other than the one
/// before it, into an empty history lists them newest first.
pub proof fn law_pushes_list_newest_first(capacity: nat, entries: Seq<ClipEntry>)
    requires
        entries.len() <= capacity,
        forall|i: int| 0 <= i < entries.len() - 1 ==> #[trigger] entries[i].content@ != entries[i + 1].content@,
    ensures
        pushed_all(Seq::empty(), capacity, entries).len() == entries.len(),
        forall|i: int| 0 <= i < entries.len() ==> #[trigger] pushed_all(Seq::empty(), capacity, entries)[i] == entries[entries.len() - 1 - i],
    decreases entries.len(),
{
    if entries.len() > 0 {
        let n = entries.len();
        let prev = entries.drop_last();
        assert forall|i: int| 0 <= i < prev.len() - 1 implies #[trigger] prev[i].content@ != prev[i + 1].content@ by {
            assert(entries[i].content@ != entries[i + 1].content@);
        }
        law_pushes_list_newest_first(capacity, prev);
        let before = pushed_all(Seq::empty(), capacity, prev);
        assert(pushed_all(Seq::empty(), capacity, entries) == pushed_history(before, capacity, entries.last()));
        if n >= 2 {
            assert(before[0] == entries[n - 2]);
            assert(entries[n - 2].content@ != entries[n - 1].content@);
        }
        let after = pushed_history(before, capacity, entries.last());
        assert(after == seq![entries.last()] + before);
        assert forall|i: int| 0 <= i < n implies #[trigger] after[i] == entries[n - 1 - i] by {
            if i > 0 {
                assert(after[i] == before[i - 1]);
                assert(before[i - 1] == prev[prev.len() - 1 - (i - 1)]);
            }
        }
    }
}

/// Pushing new content puts it in front of every entry kept, each in its
/// old order: into a history with room nothing is lost, and into a full one
/// exactly the oldest entry is dropped.
pub proof fn law_push_drops_only_the_oldest(h: Seq<ClipEntry>, capacity: nat, entry: ClipEntry)
    requires
        capacity > 0,
        h.len() <= capacity,
        h.len() == 0 || h[0].content@ != entry.content@,
    ensures
        pushed_history(h, capacity, entry)[0] == entry,
        h.len() < capacity ==> pushed_history(h, capacity, entry).len() == h.len() + 1,
        h.len() == capacity ==> pushed_history(h, capacity, entry).len() == h.len(),
        forall|i: int|
            0 <= i < h.len() && (h.len() < capacity || i < h.len() - 1) ==> #[trigger] pushed_history(
                h,
                capacity,
                entry,
            )[i + 1] == h[i],
{
}

/// What a clipboard error says.
pub open spec fn clipboard_error_text(e: ClipboardError) -> Seq<char> {
    match e {
        ClipboardError::NoDisplay => "Wayland display unavailable (WAYLAND_DISPLAY not set?)"@,
        ClipboardError::Paste(m) => "paste error: "@ + m@,
        ClipboardError::Copy(m) => "copy error: "@ + m@,
    }
}

impl ClipboardError {
    /// The error's text.
    pub fn message(&self) -> (m: String)
        ensures
            m@ == clipboard_error_text(*self),
    {
        match self {
            ClipboardError::NoDisplay => String::from_str("Wayland display unavailable (WAYLAND_DISPLAY not set?)"),
            ClipboardError::Paste(m) => prefixed("paste error: ", m.as_str()),
            ClipboardError::Copy(m) => prefixed("copy error: ", m.as_str()),
        }
    }
}

// ── Watching the clipboard ───────────────────────────────────────────────────

/// Keeps the history while the clipboard is polled.
pub struct ClipWatcher {
    pub history: ClipHistory,
    pub last_content: String,
}

impl ClipWatcher {
    /// A watcher that has seen nothing yet and keeps up to `capacity` entries.
    pub fn new(capacity: usize) -> (w: Self)
        ensures
            w.history@ == Seq::<ClipEntry>::empty(),
            w.history.spec_capacity() == capacity,
            w.last_content@ == Seq::<char>::empty(),
    {
        ClipWatcher { history: ClipHistory::new(capacity), last_content: String::new() }
    }

    /// Takes the text read from the clipboard at `now_ms`. Text that differs
    /// from the last text read is recorded as a `text/plain` entry, pushed to
    /// the history and returned for publishing; the same text again is
    /// ignored.
    pub fn on_read(&mut self, content: String, now_ms: u64) -> (r: Option<ClipEntry>)
        ensures
            content@ == old(self).last_content@ ==> r is None && final(self).history@ == old(self).history@
                && final(self).last_content@ == old(self).last_content@,
            content@ != old(self).last_content@ ==> (r matches Some(e) && e.content@ == content@ && e.mime@ == "text/plain"@
                && e.timestamp_ms == now_ms && final(self).last_content@ == content@
                && final(self).history@ == pushed_history(old(self).history@, old(self).history.spec_capacity(), e)),
            final(self).history.spec_capacity() == old(self).history.spec_capacity(),
    {
        if content == self.last_content {
            return None;
        }
        self.last_content = content.clone();
        let entry = ClipEntry { content, mime: String::from_str("text/plain"), timestamp_ms: now_ms };
        self.history.push(entry.clone());
        Some(entry)
    }
}

/// What reading the clipboard gave.
#[derive(Debug)]
pub enum PasteOutcome {
    /// The text, its MIME type, and whether it read as UTF-8 text; the
    /// reason when it did not.
    Read { content: Result<String, String>, mime: String },
    /// The clipboard is empty.
    Empty,
    /// The compositor has no seats yet.
    NoSeats,
    /// Reading failed; the reason.
    Failed(String),
}

/// The current clipboard content: none when the clipboard is empty or there
/// are no seats; a paste error with the reason when reading failed.
pub fn clipboard_content(outcome: PasteOutcome, now_ms: u64) -> (r: Result<Option<ClipEntry>, ClipboardError>)
    ensures
        match outcome {
            PasteOutcome::Read { content: Ok(t), mime } => r matches Ok(Some(e)) && e.content@ == t@ && e.mime@ == mime@ && e.timestamp_ms == now_ms,
            PasteOutcome::Read { content: Err(m), mime: _ } => r matches Err(ClipboardError::Paste(p)) && p@ == m@,
            PasteOutcome::Empty => r matches Ok(None),
            PasteOutcome::NoSeats => r matches Ok(None),
            PasteOutcome::Failed(m) => r matches Err(ClipboardError::Paste(p)) && p@ == m@,
        },
{
    match outcome {
        PasteOutcome::Read { content: Ok(t), mime } => Ok(Some(ClipEntry { content: t, mime, timestamp_ms: now_ms })),
        PasteOutcome::Read { content: Err(m), mime: _ } => Err(ClipboardError::Paste(m)),
        PasteOutcome::Empty => Ok(None),
        PasteOutcome::NoSeats => Ok(None),
        PasteOutcome::Failed(m) => Err(ClipboardError::Paste(m)),
    }
}

} // verus!
