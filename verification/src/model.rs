//! Protocol data model: entries, decoded backend messages, and their
//! mathematical views, shared by the decoder and the state reconciler.
use vstd::prelude::*;
use crate::text::{filename_from_path, filename_of};

verus! {

/// The id of the entry that stands for the live system clipboard slot.
/// That entry is never removable by this client.
pub const CURRENT_ENTRY_ID: usize = 1;

/// The kind of content an entry carries. For `Image` and `File` the entry's
/// content text is a filesystem path rather than literal text.
#[derive(Clone, Copy, Debug, PartialEq, Eq, Structural)]
pub enum EntryKind {
    Text,
    Image,
    File,
}

impl Default for EntryKind {
    /// An entry whose wire form does not name a kind is literal text.
    fn default() -> (r: Self)
        ensures
            r == EntryKind::Text,
    {
        EntryKind::Text
    }
}

/// One clipboard item as known to the backend.
#[derive(Debug)]
pub struct Entry {
    /// Non-negative identifier, unique among currently-known entries and
    /// stable across refreshes for the same underlying item.
    pub id: usize,
    /// Literal text, or a filesystem path when the kind is image or file.
    pub content: String,
    /// Milliseconds since the epoch, on the backend's clock.
    pub timestamp: i64,
    /// What the content stands for.
    pub kind: EntryKind,
    /// At most one entry should carry this flag.
    pub is_current: bool,
}

/// Mathematical view of an [`Entry`].
pub struct EntryV {
    pub id: int,
    pub content: Seq<char>,
    pub timestamp: int,
    pub kind: EntryKind,
    pub is_current: bool,
}

impl View for Entry {
    type V = EntryV;

    open spec fn view(&self) -> EntryV {
        EntryV {
            id: self.id as int,
            content: self.content@,
            timestamp: self.timestamp as int,
            kind: self.kind,
            is_current: self.is_current,
        }
    }
}

impl Entry {
    /// An exact copy; written out so that verified callers know the copy
    /// equals the copied value field for field.
    pub fn duplicate(&self) -> (r: Entry)
        ensures
            r == *self,
    {
        Entry {
            id: self.id,
            content: self.content.clone(),
            timestamp: self.timestamp,
            kind: self.kind,
            is_current: self.is_current,
        }
    }
}

/// Copies a whole snapshot, element for element.
pub fn duplicate_entries(entries: &Vec<Entry>) -> (r: Vec<Entry>)
    ensures
        r@ == entries@,
{
    let mut out: Vec<Entry> = Vec::new();
    let mut i: usize = 0;
    while i < entries.len()
        invariant
            i <= entries.len(),
            out@ == entries@.take(i as int),
        decreases entries.len() - i,
    {
        out.push(entries[i].duplicate());
        proof {
            assert(entries@.take(i + 1 as int) == entries@.take(i as int).push(entries@[i as int]));
        }
        i += 1;
    }
    proof {
        assert(entries@.take(entries@.len() as int) == entries@);
    }
    out
}

/// The label an entry displays: for image and file entries whose path
/// exists on disk, just the file name; otherwise the content itself.
pub open spec fn label_of(e: Entry, path_exists: bool) -> Seq<char> {
    match e.kind {
        EntryKind::Text => e.content@,
        _ => if path_exists {
            filename_of(e.content@)
        } else {
            e.content@
        },
    }
}

/// Renders [`label_of`]. Whether the path exists is the caller's to
/// establish; it only changes which text is shown.
pub fn display_label(e: &Entry, path_exists: bool) -> (r: String)
    ensures
        r@ == label_of(*e, path_exists),
{
    match e.kind {
        EntryKind::Text => e.content.clone(),
        EntryKind::Image | EntryKind::File => {
            if path_exists {
                filename_from_path(&e.content)
            } else {
                e.content.clone()
            }
        },
    }
}

/// A decoded line of the inbound protocol.
#[derive(Debug)]
pub enum BackendMessage {
    /// A fresh authoritative snapshot of all entries, in backend order.
    Entries(Vec<Entry>),
    /// The backend confirmed a selection; carries the backend-side index.
    SelectSuccess(usize),
    /// The backend confirmed a removal; carries the backend-side index.
    RemoveSuccess(usize),
    /// A human-readable confirmation.
    Success(String),
    /// The backend finished starting up.
    Ready,
    /// Forward-compatible catch-all for unrecognized message tags; carries
    /// no payload obligation and never aborts decoding of later lines.
    Unknown,
}

/// Mathematical view of a [`BackendMessage`].
pub enum MessageV {
    Entries(Seq<EntryV>),
    SelectSuccess(int),
    RemoveSuccess(int),
    Success(Seq<char>),
    Ready,
    Unknown,
}

impl View for BackendMessage {
    type V = MessageV;

    open spec fn view(&self) -> MessageV {
        match self {
            BackendMessage::Entries(data) => MessageV::Entries(
                data@.map_values(|e: Entry| e@),
            ),
            BackendMessage::SelectSuccess(i) => MessageV::SelectSuccess(*i as int),
            BackendMessage::RemoveSuccess(i) => MessageV::RemoveSuccess(*i as int),
            BackendMessage::Success(m) => MessageV::Success(m@),
            BackendMessage::Ready => MessageV::Ready,
            BackendMessage::Unknown => MessageV::Unknown,
        }
    }
}

/// Everything that can go wrong on the client side of the backend link.
#[derive(Clone, Copy, Debug, PartialEq, Eq, Structural)]
pub enum BackendError {
    /// Neither the development-build path nor the packaged-resource path
    /// holds a backend executable.
    BackendNotFound,
    /// The command channel's consuming side is gone; the command was dropped.
    SendFailed,
}

impl BackendError {
    /// A short human-readable description.
    pub fn describe(&self) -> (r: String)
        ensures
            *self == BackendError::BackendNotFound ==> r@ == "clipz backend not found"@,
            *self == BackendError::SendFailed ==> r@ == "failed to send command"@,
    {
        match self {
            BackendError::BackendNotFound => "clipz backend not found".to_owned(),
            BackendError::SendFailed => "failed to send command".to_owned(),
        }
    }
}

} // verus!
