//! The state reconciler: the client-side view state, its optimistic
//! mutations, the authoritative-snapshot merge, and the navigation cursor
//! over the filtered view.
//!
//! Every mutating operation returns the wire commands it wants sent, in
//! order; the embedding application forwards them to the command channel.
//! Every mutating operation also re-establishes the focus invariant
//! [`ViewState::wf`]: the cursor is `None` or strictly inside the filtered
//! view. (Snapshot pushes clamp the cursor; local optimistic mutations
//! clamp it too, so the invariant holds after every call, not only after
//! pushes.)
use vstd::prelude::*;
use crate::commands::{
    clear_cmd,
    clear_command,
    get_entries_cmd,
    get_entries_command,
    remove_cmd,
    remove_command,
    select_cmd,
    select_command,
};
use crate::model::{duplicate_entries, BackendMessage, Entry};
use crate::text::{contains_chars, contains_seq, lower_of, lowercase, to_chars};

verus! {

/// An entry matches the search text when the lowercased search text occurs
/// as a substring of the lowercased content (case-insensitive match).
pub open spec fn entry_matches(e: Entry, query: Seq<char>) -> bool {
    contains_seq(lower_of(e.content@), lower_of(query))
}

/// The filtered view: the whole snapshot for an empty search text, else the
/// matching entries in snapshot order.
pub open spec fn filtered_seq(entries: Seq<Entry>, query: Seq<char>) -> Seq<Entry>
    decreases entries.len(),
{
    if query.len() == 0 {
        entries
    } else if entries.len() == 0 {
        entries
    } else {
        let rest = filtered_seq(entries.drop_last(), query);
        if entry_matches(entries.last(), query) {
            rest.push(entries.last())
        } else {
            rest
        }
    }
}

/// Filtering with an empty search text is the identity on the snapshot:
/// same entries, same order. (Filtering is a pure function of the snapshot
/// and the search text by construction: it is a spec function of exactly
/// those two values.)
pub proof fn lemma_filter_empty_identity(entries: Seq<Entry>)
    ensures
        filtered_seq(entries, Seq::<char>::empty()) == entries,
{
}

/// The filtered view depends only on entry contents: two snapshots whose
/// entries have pointwise equal content produce filtered views of the same
/// length.
pub proof fn lemma_filter_len_by_content(a: Seq<Entry>, b: Seq<Entry>, query: Seq<char>)
    requires
        a.len() == b.len(),
        forall|i: int| 0 <= i < a.len() ==> #[trigger] a[i].content == b[i].content,
    ensures
        filtered_seq(a, query).len() == filtered_seq(b, query).len(),
    decreases a.len(),
{
    if query.len() == 0 || a.len() == 0 {
    } else {
        assert(forall|i: int|
            0 <= i < a.drop_last().len() ==> #[trigger] a.drop_last()[i].content
                == b.drop_last()[i].content);
        lemma_filter_len_by_content(a.drop_last(), b.drop_last(), query);
        assert(a.last().content == b.last().content);
        assert(entry_matches(a.last(), query) == entry_matches(b.last(), query));
    }
}

/// The cursor clamped against a filtered view of length `n`: kept when
/// still in range, moved to the last valid index when the view shrank under
/// it, cleared when the view is empty. A `None` cursor stays `None`.
pub open spec fn clamped(foc: Option<usize>, n: int) -> Option<usize> {
    match foc {
        None => None,
        Some(i) => if (i as int) < n {
            Some(i)
        } else if n == 0 {
            None
        } else {
            Some((n - 1) as usize)
        },
    }
}

/// One entry with its current-flag set exactly when its id is `id`.
pub open spec fn sel_one(e: Entry, id: int) -> Entry {
    Entry {
        id: e.id,
        content: e.content,
        timestamp: e.timestamp,
        kind: e.kind,
        is_current: e.id as int == id,
    }
}

/// The snapshot after an optimistic select: the matching entry becomes
/// current, every other entry stops being current.
pub open spec fn select_entries(entries: Seq<Entry>, id: int) -> Seq<Entry> {
    entries.map_values(|e: Entry| sel_one(e, id))
}

/// The snapshot after an optimistic remove: every entry but those with the
/// removed id, in order.
pub open spec fn remove_id(entries: Seq<Entry>, id: int) -> Seq<Entry>
    decreases entries.len(),
{
    if entries.len() == 0 {
        entries
    } else {
        let rest = remove_id(entries.drop_last(), id);
        if entries.last().id as int == id {
            rest
        } else {
            rest.push(entries.last())
        }
    }
}

/// The first entry flagged current, if any.
pub open spec fn first_current(entries: Seq<Entry>) -> Option<Entry>
    decreases entries.len(),
{
    if entries.len() == 0 {
        None
    } else if entries.first().is_current {
        Some(entries.first())
    } else {
        first_current(entries.drop_first())
    }
}

/// The snapshot after an optimistic clear: just the current entry when one
/// exists, else empty.
pub open spec fn cleared(entries: Seq<Entry>) -> Seq<Entry> {
    match first_current(entries) {
        Some(e) => seq![e],
        None => Seq::empty(),
    }
}

/// Two states agree on everything observable: same snapshot contents, same
/// search text, same cursor.
pub open spec fn state_like(a: ViewState, b: ViewState) -> bool {
    a.entries@ == b.entries@ && a.search@ == b.search@ && a.focused_index == b.focused_index
}

/// The pushes that carry no payload and act purely as refresh triggers.
pub open spec fn is_refresh_trigger(m: BackendMessage) -> bool {
    m matches BackendMessage::SelectSuccess(_) || m matches BackendMessage::RemoveSuccess(_)
        || m matches BackendMessage::Success(_) || m matches BackendMessage::Ready
}

/// The client-side view state: the last authoritative snapshot, the search
/// text, and the navigation cursor into the filtered view.
pub struct ViewState {
    /// The ordered snapshot as last pushed by the backend (possibly with
    /// optimistic local edits applied since).
    pub entries: Vec<Entry>,
    /// The active search text.
    pub search: String,
    /// An index into the filtered view, not into the raw snapshot.
    pub focused_index: Option<usize>,
}

impl ViewState {
    /// The length of the filtered view.
    pub open spec fn flen(self) -> int {
        filtered_seq(self.entries@, self.search@).len() as int
    }

    /// The focus invariant: the cursor is absent or strictly inside the
    /// filtered view.
    pub open spec fn wf(self) -> bool {
        match self.focused_index {
            Some(i) => (i as int) < self.flen(),
            None => true,
        }
    }
}

/// The state after applying one decoded message: an `Entries` push replaces
/// the snapshot wholesale and clamps the cursor; everything else leaves the
/// state untouched (the refresh triggers only cause an outbound command).
pub open spec fn step_state(st: ViewState, m: BackendMessage) -> ViewState {
    match m {
        BackendMessage::Entries(data) => ViewState {
            entries: data,
            search: st.search,
            focused_index: clamped(
                st.focused_index,
                filtered_seq(data@, st.search@).len() as int,
            ),
        },
        _ => st,
    }
}

/// The state after draining a whole queue of messages, in order.
pub open spec fn run_msgs(st: ViewState, msgs: Seq<BackendMessage>) -> ViewState
    decreases msgs.len(),
{
    if msgs.len() == 0 {
        st
    } else {
        step_state(run_msgs(st, msgs.drop_last()), msgs.last())
    }
}

/// The refresh commands a drain produces: one snapshot request per refresh
/// trigger, in message order.
pub open spec fn refresh_cmds(msgs: Seq<BackendMessage>) -> Seq<Seq<char>>
    decreases msgs.len(),
{
    if msgs.len() == 0 {
        Seq::empty()
    } else {
        refresh_cmds(msgs.drop_last()) + (if is_refresh_trigger(msgs.last()) {
            seq![get_entries_cmd()]
        } else {
            Seq::<Seq<char>>::empty()
        })
    }
}

/// Whether a drain holds anything observable: any message other than the
/// ignored catch-all (an `Entries` push changes the snapshot; each refresh
/// trigger produces an outbound command).
pub open spec fn any_visible(msgs: Seq<BackendMessage>) -> bool
    decreases msgs.len(),
{
    if msgs.len() == 0 {
        false
    } else {
        any_visible(msgs.drop_last()) || !(msgs.last() matches BackendMessage::Unknown)
    }
}

/// The payload of the last `Entries` push in a drain, if any.
pub open spec fn last_entries(msgs: Seq<BackendMessage>) -> Option<Vec<Entry>>
    decreases msgs.len(),
{
    if msgs.len() == 0 {
        None
    } else {
        match msgs.last() {
            BackendMessage::Entries(d) => Some(d),
            _ => last_entries(msgs.drop_last()),
        }
    }
}

/// Applying one message respects [`state_like`]: the step function reads
/// only what the relation preserves.
pub proof fn lemma_step_congruence(a: ViewState, b: ViewState, m: BackendMessage)
    requires
        state_like(a, b),
    ensures
        state_like(step_state(a, m), step_state(b, m)),
{
}

/// The first entry flagged current, as a fresh value.
fn find_current(entries: &Vec<Entry>) -> (r: Option<Entry>)
    ensures
        match r {
            Some(e) => first_current(entries@) == Some(e),
            None => first_current(entries@) is None,
        },
{
    proof {
        assert(entries@.skip(0) =~= entries@);
    }
    let mut i: usize = 0;
    while i < entries.len()
        invariant
            i <= entries@.len(),
            first_current(entries@) == first_current(entries@.skip(i as int)),
        decreases entries.len() - i,
    {
        proof {
            assert(entries@.skip(i as int).first() == entries@[i as int]);
            assert(entries@.skip(i as int).drop_first() =~= entries@.skip(i + 1 as int));
        }
        if entries[i].is_current {
            proof {
                assert(first_current(entries@) == Some(entries@[i as int]));
            }
            return Some(entries[i].duplicate());
        }
        i += 1;
    }
    proof {
        assert(entries@.skip(entries@.len() as int) =~= Seq::<Entry>::empty());
    }
    None
}

/// Eventual consistency: whatever optimistic state a drain starts from, if
/// the drained messages contain at least one authoritative `Entries` push,
/// the snapshot afterwards is exactly the last pushed payload, in its
/// received order. Optimistic edits never persist past the next push.
pub proof fn lemma_snapshot_follows_last_push(
    st: ViewState,
    msgs: Seq<BackendMessage>,
    d: Vec<Entry>,
)
    requires
        last_entries(msgs) == Some(d),
    ensures
        run_msgs(st, msgs).entries == d,
    decreases msgs.len(),
{
    if msgs.len() == 0 {
    } else {
        match msgs.last() {
            BackendMessage::Entries(_) => {
            },
            _ => {
                lemma_snapshot_follows_last_push(st, msgs.drop_last(), d);
            },
        }
    }
}

impl ViewState {
    /// The starting state: no snapshot yet, empty search, no cursor.
    pub fn new() -> (r: ViewState)
        ensures
            r.entries@.len() == 0,
            r.search@.len() == 0,
            r.focused_index is None,
            r.wf(),
    {
        ViewState { entries: Vec::new(), search: String::new(), focused_index: None }
    }

    /// The filtered view as a fresh vector, in snapshot order.
    pub fn filtered(&self) -> (r: Vec<Entry>)
        ensures
            r@ == filtered_seq(self.entries@, self.search@),
    {
        if self.search.as_str().is_empty() {
            return duplicate_entries(&self.entries);
        }
        let ql = lowercase(self.search.as_str());
        let qchars = to_chars(ql.as_str());
        let mut out: Vec<Entry> = Vec::new();
        let mut i: usize = 0;
        while i < self.entries.len()
            invariant
                self.search@.len() != 0,
                qchars@ == lower_of(self.search@),
                i <= self.entries.len(),
                out@ == filtered_seq(self.entries@.take(i as int), self.search@),
            decreases self.entries.len() - i,
        {
            let lc = lowercase(self.entries[i].content.as_str());
            let lc_chars = to_chars(lc.as_str());
            proof {
                assert(self.entries@.take(i + 1 as int).drop_last() =~= self.entries@.take(
                    i as int,
                ));
                assert(self.entries@.take(i + 1 as int).last() == self.entries@[i as int]);
            }
            if contains_chars(&lc_chars, &qchars) {
                out.push(self.entries[i].duplicate());
            }
            i += 1;
        }
        proof {
            assert(self.entries@.take(self.entries@.len() as int) =~= self.entries@);
        }
        out
    }

    /// Clamps the cursor against the current filtered view.
    fn clamp_focus(&mut self)
        ensures
            final(self).entries == old(self).entries,
            final(self).search == old(self).search,
            final(self).focused_index == clamped(old(self).focused_index, old(self).flen()),
            final(self).wf(),
    {
        match self.focused_index {
            None => {},
            Some(i) => {
                let fl = self.filtered().len();
                if i >= fl {
                    self.focused_index = if fl == 0 {
                        None
                    } else {
                        Some(fl - 1)
                    };
                }
            },
        }
    }

    /// Optimistically marks the entry with this id current (and every other
    /// entry not current), and asks the backend to select it and then to
    /// push a fresh snapshot.
    pub fn select(&mut self, id: usize) -> (cmds: Vec<String>)
        requires
            old(self).wf(),
        ensures
            final(self).entries@ == select_entries(old(self).entries@, id as int),
            final(self).search == old(self).search,
            final(self).focused_index == old(self).focused_index,
            final(self).wf(),
            cmds@.len() == 2,
            cmds@[0]@ == select_cmd(id as nat),
            cmds@[1]@ == get_entries_cmd(),
    {
        let mut i: usize = 0;
        while i < self.entries.len()
            invariant
                i <= self.entries@.len(),
                self.entries@.len() == old(self).entries@.len(),
                self.search == old(self).search,
                self.focused_index == old(self).focused_index,
                forall|q: int|
                    0 <= q < i ==> self.entries@[q] == sel_one(old(self).entries@[q], id as int),
                forall|q: int|
                    i <= q < self.entries@.len() ==> self.entries@[q] == old(self).entries@[q],
            decreases self.entries.len() - i,
        {
            let e = self.entries[i].duplicate();
            let is_cur = e.id == id;
            let e2 = Entry {
                id: e.id,
                content: e.content,
                timestamp: e.timestamp,
                kind: e.kind,
                is_current: is_cur,
            };
            self.entries.set(i, e2);
            i += 1;
        }
        proof {
            assert(self.entries@ =~= select_entries(old(self).entries@, id as int));
            lemma_filter_len_by_content(self.entries@, old(self).entries@, self.search@);
        }
        let mut cmds: Vec<String> = Vec::new();
        cmds.push(select_command(id));
        cmds.push(get_entries_command());
        cmds
    }

    /// Optimistically deletes the entry with this id from the snapshot,
    /// re-validates the cursor, and asks the backend to remove it and then
    /// to push a fresh snapshot.
    pub fn remove(&mut self, id: usize) -> (cmds: Vec<String>)
        ensures
            final(self).entries@ == remove_id(old(self).entries@, id as int),
            final(self).search == old(self).search,
            final(self).focused_index == clamped(
                old(self).focused_index,
                filtered_seq(remove_id(old(self).entries@, id as int), old(self).search@).len()
                    as int,
            ),
            final(self).wf(),
            cmds@.len() == 2,
            cmds@[0]@ == remove_cmd(id as nat),
            cmds@[1]@ == get_entries_cmd(),
    {
        let mut out: Vec<Entry> = Vec::new();
        let mut i: usize = 0;
        while i < self.entries.len()
            invariant
                i <= self.entries@.len(),
                out@ == remove_id(self.entries@.take(i as int), id as int),
            decreases self.entries.len() - i,
        {
            proof {
                assert(self.entries@.take(i + 1 as int).drop_last() =~= self.entries@.take(
                    i as int,
                ));
                assert(self.entries@.take(i + 1 as int).last() == self.entries@[i as int]);
            }
            if self.entries[i].id != id {
                out.push(self.entries[i].duplicate());
            }
            i += 1;
        }
        proof {
            assert(self.entries@.take(self.entries@.len() as int) =~= self.entries@);
        }
        self.entries = out;
        self.clamp_focus();
        let mut cmds: Vec<String> = Vec::new();
        cmds.push(remove_command(id));
        cmds.push(get_entries_command());
        cmds
    }

    /// Optimistically collapses the snapshot to just the current entry (or
    /// to nothing), re-validates the cursor, and asks the backend to clear
    /// and then to push a fresh snapshot.
    pub fn clear(&mut self) -> (cmds: Vec<String>)
        ensures
            final(self).entries@ == cleared(old(self).entries@),
            final(self).search == old(self).search,
            final(self).focused_index == clamped(
                old(self).focused_index,
                filtered_seq(cleared(old(self).entries@), old(self).search@).len() as int,
            ),
            final(self).wf(),
            cmds@.len() == 2,
            cmds@[0]@ == clear_cmd(),
            cmds@[1]@ == get_entries_cmd(),
    {
        let found = find_current(&self.entries);
        let mut out: Vec<Entry> = Vec::new();
        match found {
            Some(e) => {
                out.push(e);
                proof {
                    assert(out@ =~= cleared(old(self).entries@));
                }
            },
            None => {
                proof {
                    assert(self.entries@.skip(self.entries@.len() as int) =~= Seq::<Entry>::empty(
                    ));
                    assert(out@ =~= cleared(old(self).entries@));
                }
            },
        }
        self.entries = out;
        self.clamp_focus();
        let mut cmds: Vec<String> = Vec::new();
        cmds.push(clear_command());
        cmds.push(get_entries_command());
        cmds
    }

    /// Applies one decoded message: an `Entries` push replaces the snapshot
    /// and clamps the cursor; a refresh trigger asks for a fresh snapshot;
    /// an unknown message does nothing.
    fn apply_message(&mut self, msg: &BackendMessage, cmds: &mut Vec<String>)
        ensures
            state_like(*final(self), step_state(*old(self), *msg)),
            old(self).wf() ==> final(self).wf(),
            is_refresh_trigger(*msg) ==> final(cmds)@ == old(cmds)@.push(final(cmds)@.last())
                && final(cmds)@.len() == old(cmds)@.len() + 1 && final(cmds)@.last()@
                == get_entries_cmd(),
            !is_refresh_trigger(*msg) ==> *final(cmds) == *old(cmds),
    {
        match msg {
            BackendMessage::Entries(data) => {
                self.entries = duplicate_entries(data);
                self.clamp_focus();
            },
            BackendMessage::SelectSuccess(_) => {
                cmds.push(get_entries_command());
            },
            BackendMessage::RemoveSuccess(_) => {
                cmds.push(get_entries_command());
            },
            BackendMessage::Success(_) => {
                cmds.push(get_entries_command());
            },
            BackendMessage::Ready => {
                cmds.push(get_entries_command());
            },
            BackendMessage::Unknown => {},
        }
    }

    /// Drains a queue of decoded messages in order: the state becomes
    /// [`run_msgs`] of the drain, the returned commands are one snapshot
    /// request per refresh trigger, and the flag reports whether anything
    /// changed — whether any drained message was observable at all (a drain
    /// of nothing, or of only the ignored catch-all, warrants no re-render).
    pub fn poll(&mut self, msgs: &Vec<BackendMessage>) -> (r: (Vec<String>, bool))
        requires
            old(self).wf(),
        ensures
            state_like(*final(self), run_msgs(*old(self), msgs@)),
            final(self).wf(),
            r.0@.map_values(|c: String| c@) == refresh_cmds(msgs@),
            r.1 == any_visible(msgs@),
    {
        let mut cmds: Vec<String> = Vec::new();
        let mut changed = false;
        proof {
            assert(cmds@.map_values(|c: String| c@) =~= Seq::<Seq<char>>::empty());
        }
        let mut i: usize = 0;
        while i < msgs.len()
            invariant
                i <= msgs@.len(),
                state_like(*self, run_msgs(*old(self), msgs@.take(i as int))),
                self.wf(),
                cmds@.map_values(|c: String| c@) == refresh_cmds(msgs@.take(i as int)),
                changed == any_visible(msgs@.take(i as int)),
            decreases msgs.len() - i,
        {
            proof {
                assert(msgs@.take(i + 1 as int).drop_last() =~= msgs@.take(i as int));
                assert(msgs@.take(i + 1 as int).last() == msgs@[i as int]);
            }
            let ghost mid = run_msgs(*old(self), msgs@.take(i as int));
            let ghost before = *self;
            if !(matches!(&msgs[i], BackendMessage::Unknown)) {
                changed = true;
            }
            self.apply_message(&msgs[i], &mut cmds);
            proof {
                lemma_step_congruence(before, mid, msgs@[i as int]);
                if is_refresh_trigger(msgs@[i as int]) {
                    assert(cmds@.map_values(|c: String| c@) =~= refresh_cmds(
                        msgs@.take(i + 1 as int),
                    ));
                } else {
                    assert(cmds@.map_values(|c: String| c@) =~= refresh_cmds(
                        msgs@.take(i + 1 as int),
                    ));
                }
            }
            i += 1;
        }
        proof {
            assert(msgs@.take(msgs@.len() as int) =~= msgs@);
        }
        (cmds, changed)
    }

    /// Replaces the search text and re-validates the cursor against the
    /// newly filtered view.
    pub fn set_search(&mut self, q: String)
        ensures
            final(self).entries == old(self).entries,
            final(self).search == q,
            final(self).focused_index == clamped(
                old(self).focused_index,
                filtered_seq(old(self).entries@, q@).len() as int,
            ),
            final(self).wf(),
    {
        self.search = q;
        self.clamp_focus();
    }

    /// Where the cursor lands on a move toward the next element: wraps from
    /// the end to the start; a no-op on an empty view; initializes to the
    /// first element when unset.
    pub open spec fn next_focus(foc: Option<usize>, n: int) -> Option<usize> {
        if n == 0 {
            foc
        } else {
            match foc {
                Some(i) => if (i as int) < n - 1 {
                    Some((i + 1) as usize)
                } else {
                    Some(0usize)
                },
                None => Some(0usize),
            }
        }
    }

    /// Where the cursor lands on a move toward the previous element: wraps
    /// from the start to the end; a no-op on an empty view; initializes to
    /// the first element when unset.
    pub open spec fn prev_focus(foc: Option<usize>, n: int) -> Option<usize> {
        if n == 0 {
            foc
        } else {
            match foc {
                Some(i) => if i > 0 {
                    Some((i - 1) as usize)
                } else {
                    Some((n - 1) as usize)
                },
                None => Some(0usize),
            }
        }
    }

    /// Moves the cursor to the next filtered entry, wrapping at the end.
    pub fn focus_next(&mut self)
        requires
            old(self).wf(),
        ensures
            final(self).entries == old(self).entries,
            final(self).search == old(self).search,
            final(self).focused_index == Self::next_focus(
                old(self).focused_index,
                old(self).flen(),
            ),
            final(self).wf(),
    {
        let fl = self.filtered().len();
        if fl == 0 {
            return ;
        }
        self.focused_index = match self.focused_index {
            Some(i) => if i < fl - 1 {
                Some(i + 1)
            } else {
                Some(0)
            },
            None => Some(0),
        };
    }

    /// Moves the cursor to the previous filtered entry, wrapping at the
    /// start.
    pub fn focus_prev(&mut self)
        requires
            old(self).wf(),
        ensures
            final(self).entries == old(self).entries,
            final(self).search == old(self).search,
            final(self).focused_index == Self::prev_focus(
                old(self).focused_index,
                old(self).flen(),
            ),
            final(self).wf(),
    {
        let fl = self.filtered().len();
        if fl == 0 {
            return ;
        }
        self.focused_index = match self.focused_index {
            Some(i) => if i > 0 {
                Some(i - 1)
            } else {
                Some(fl - 1)
            },
            None => Some(0),
        };
    }

    /// Sets the cursor to the first filtered entry when it is unset and the
    /// filtered view is not empty (the first non-empty render).
    pub fn init_focus(&mut self)
        requires
            old(self).wf(),
        ensures
            final(self).entries == old(self).entries,
            final(self).search == old(self).search,
            final(self).focused_index == (if old(self).focused_index is None && old(self).flen()
                > 0 {
                Some(0usize)
            } else {
                old(self).focused_index
            }),
            final(self).wf(),
    {
        if self.focused_index.is_none() {
            let fl = self.filtered().len();
            if fl > 0 {
                self.focused_index = Some(0);
            }
        }
    }

    /// The id of the entry under the cursor, if the cursor is set: what a
    /// confirm action selects.
    pub fn focused_entry_id(&self) -> (r: Option<usize>)
        requires
            self.wf(),
        ensures
            match self.focused_index {
                Some(i) => r == Some(
                    filtered_seq(self.entries@, self.search@)[i as int].id,
                ),
                None => r is None,
            },
    {
        match self.focused_index {
            Some(i) => {
                let f = self.filtered();
                Some(f[i].id)
            },
            None => None,
        }
    }
}

} // verus!
