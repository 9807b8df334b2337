use vstd::prelude::*;

verus! {

/// One entry of a directory: its name, the metadata that listings are
/// ordered by, and whether the user has selected it.
#[derive(Debug, PartialEq, Eq)]
pub struct Entry {
    name: String,
    is_dir: bool,
    size: u64,
    modified: u64,
    selected: bool,
}

/// The mathematical content of an [`Entry`].
pub struct EntryView {
    pub name: Seq<char>,
    pub is_dir: bool,
    pub size: u64,
    pub modified: u64,
    pub selected: bool,
}

impl EntryView {
    /// The same entry with its selection flag set to `selected`.
    pub open spec fn with_selected(self, selected: bool) -> EntryView {
        EntryView { selected, ..self }
    }
}

impl View for Entry {
    type V = EntryView;

    closed spec fn view(&self) -> EntryView {
        EntryView {
            name: self.name@,
            is_dir: self.is_dir,
            size: self.size,
            modified: self.modified,
            selected: self.selected,
        }
    }
}

impl Entry {
    /// An entry as a directory read reports it: not selected.
    pub fn new(name: String, is_dir: bool, size: u64, modified: u64) -> (e: Entry)
        ensures
            e@ == (EntryView { name: name@, is_dir, size, modified, selected: false }),
    {
        Entry { name, is_dir, size, modified, selected: false }
    }

    /// The name of the file, without its directory.
    pub fn file_name(&self) -> (name: &str)
        ensures
            name@ == self@.name,
    {
        self.name.as_str()
    }

    /// Whether the entry is a directory.
    pub fn is_dir(&self) -> (r: bool)
        ensures
            r == self@.is_dir,
    {
        self.is_dir
    }

    /// The size in bytes.
    pub fn size(&self) -> (r: u64)
        ensures
            r == self@.size,
    {
        self.size
    }

    /// The time of the last modification, in seconds since the epoch.
    pub fn modified(&self) -> (r: u64)
        ensures
            r == self@.modified,
    {
        self.modified
    }

    /// Whether the user has selected the entry.
    pub fn is_selected(&self) -> (r: bool)
        ensures
            r == self@.selected,
    {
        self.selected
    }

    /// Selects or deselects the entry.
    pub fn set_selected(&mut self, selected: bool)
        ensures
            final(self)@ == old(self)@.with_selected(selected),
    {
        self.selected = selected;
    }

    /// Whether the two entries have the same name.
    pub fn same_name(&self, other: &Entry) -> (r: bool)
        ensures
            r == (self@.name == other@.name),
    {
        self.name == other.name
    }

    /// A copy of this entry.
    pub fn duplicate(&self) -> (e: Entry)
        ensures
            e@ == self@,
    {
        Entry {
            name: self.name.clone(),
            is_dir: self.is_dir,
            size: self.size,
            modified: self.modified,
            selected: self.selected,
        }
    }
}

} // verus!
