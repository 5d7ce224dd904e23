//! The browsing session: its state, the user's requests, and the filesystem
//! work that each request asks of the caller.
use vstd::prelude::*;
use vstd::seq_lib::to_multiset_contains;
use crate::entry::{FileEntry, SortAxis, SortMode, entry_name, toggled};
use crate::listing::{ChildInfo, lemma_listing_members, list_children, listing, visible};
use crate::order::{sort_entries_by, sorted_by};
use crate::path::{DirPath, navigate_up, up_target};
use crate::props::{FileProperties, PathMeta, properties_from, read_properties};

verus! {

/// Which dialog is open.
#[derive(Clone, Copy, Debug, PartialEq, Eq, Structural)]
pub enum DialogState {
    Closed,
    Create,
    Delete,
    Properties,
}

/// A request from the user.
#[derive(Clone, Debug)]
pub enum Message {
    /// An entry was chosen; `is_dir` tells whether it is a directory now.
    FileSelected { path: DirPath, is_dir: bool },
    NavigateUp,
    NavigateHome,
    Refresh,
    CreateNew,
    Delete,
    NameInputChanged(String),
    IsDirectoryToggled(bool),
    ConfirmCreate,
    ConfirmDelete,
    ShowProperties,
    CloseDialog,
    SearchInputChanged(String),
    PerformSearch,
    SortBy(SortAxis),
}

/// The filesystem work that a request leaves to the caller. After
/// `Reload`, `Create` and `Remove` the caller reads the current directory
/// again and hands the children to `load_entries`; after `ReadProperties` it
/// hands the path's metadata to `show_properties`.
#[derive(Clone, Debug)]
pub enum Action {
    Nothing,
    Reload,
    /// Open a file with the system's default handler.
    Open { path: DirPath },
    /// Create a directory (with any missing parents) or an empty file.
    Create { path: DirPath, is_dir: bool },
    /// Remove a directory with all it holds, or a single file.
    Remove { path: DirPath },
    ReadProperties { path: DirPath },
}

/// The state of one browsing session.
#[derive(Debug)]
pub struct FileManager {
    pub current_dir: DirPath,
    pub home_dir: DirPath,
    pub entries: Vec<FileEntry>,
    pub selected_entry: Option<DirPath>,
    pub new_name: String,
    pub is_directory: bool,
    pub dialog: DialogState,
    pub properties: Option<FileProperties>,
    pub search_query: String,
    pub sort_mode: SortMode,
}

/// The session as plain values.
pub struct ManagerView {
    pub current_dir: Seq<Seq<char>>,
    pub home_dir: Seq<Seq<char>>,
    pub entries: Seq<FileEntry>,
    pub selected_entry: Option<Seq<Seq<char>>>,
    pub new_name: Seq<char>,
    pub is_directory: bool,
    pub dialog: DialogState,
    pub properties: Option<FileProperties>,
    pub search_query: Seq<char>,
    pub sort_mode: SortMode,
}

impl View for FileManager {
    type V = ManagerView;

    open spec fn view(&self) -> ManagerView {
        ManagerView {
            current_dir: self.current_dir@,
            home_dir: self.home_dir@,
            entries: self.entries@,
            selected_entry: match self.selected_entry {
                Some(p) => Some(p@),
                None => None,
            },
            new_name: self.new_name@,
            is_directory: self.is_directory,
            dialog: self.dialog,
            properties: self.properties,
            search_query: self.search_query@,
            sort_mode: self.sort_mode,
        }
    }
}

/// The session after `msg`, leaving aside the entries, which only a sort
/// request changes here. Closing a dialog discards the detail record.
pub open spec fn next_state(s: ManagerView, msg: Message) -> ManagerView {
    match msg {
        Message::FileSelected { path, is_dir } => if is_dir {
            ManagerView { current_dir: path@, selected_entry: None, ..s }
        } else {
            ManagerView { selected_entry: Some(path@), ..s }
        },
        Message::NavigateUp => if up_target(s.current_dir, s.home_dir) != s.current_dir {
            ManagerView {
                current_dir: up_target(s.current_dir, s.home_dir),
                selected_entry: None,
                ..s
            }
        } else {
            s
        },
        Message::NavigateHome => ManagerView { current_dir: s.home_dir, selected_entry: None, ..s },
        Message::CreateNew => ManagerView {
            dialog: DialogState::Create,
            new_name: Seq::empty(),
            is_directory: false,
            ..s
        },
        Message::Delete => if s.selected_entry is Some {
            ManagerView { dialog: DialogState::Delete, ..s }
        } else {
            s
        },
        Message::NameInputChanged(name) => ManagerView { new_name: name@, ..s },
        Message::IsDirectoryToggled(d) => ManagerView { is_directory: d, ..s },
        Message::ConfirmCreate => ManagerView { dialog: DialogState::Closed, ..s },
        Message::ConfirmDelete => if s.selected_entry is Some {
            ManagerView { selected_entry: None, dialog: DialogState::Closed, ..s }
        } else {
            s
        },
        Message::CloseDialog => ManagerView { dialog: DialogState::Closed, properties: None, ..s },
        Message::SearchInputChanged(q) => ManagerView { search_query: q@, ..s },
        Message::SortBy(axis) => ManagerView { sort_mode: toggled(s.sort_mode, axis), ..s },
        _ => s,
    }
}

/// The work that `msg` asks of the caller in state `s`.
pub open spec fn action_ok(s: ManagerView, msg: Message, act: Action) -> bool {
    match msg {
        Message::FileSelected { path, is_dir } => if is_dir {
            act is Reload
        } else {
            act is Open && act->Open_path@ == path@
        },
        Message::NavigateUp => if up_target(s.current_dir, s.home_dir) != s.current_dir {
            act is Reload
        } else {
            act is Nothing
        },
        Message::NavigateHome | Message::Refresh | Message::PerformSearch => act is Reload,
        Message::ConfirmCreate => if s.new_name.len() > 0 {
            &&& act is Create
            &&& act->Create_path@ == s.current_dir.push(s.new_name)
            &&& act->Create_is_dir == s.is_directory
        } else {
            act is Reload
        },
        Message::ConfirmDelete => match s.selected_entry {
            Some(p) => act is Remove && act->Remove_path@ == p,
            None => act is Nothing,
        },
        Message::ShowProperties => match s.selected_entry {
            Some(p) => act is ReadProperties && act->ReadProperties_path@ == p,
            None => act is Nothing,
        },
        _ => act is Nothing,
    }
}

impl FileManager {
    /// A session that starts at `home`, which also bounds "up", sorted by
    /// name ascending and with nothing listed yet; the action returned with
    /// it asks for the first listing of `home`.
    pub fn new(home: DirPath) -> (r: (FileManager, Action))
        ensures
            r.0@.current_dir == home@,
            r.0@.home_dir == home@,
            r.0@.entries.len() == 0,
            r.0@.selected_entry is None,
            r.0@.new_name.len() == 0,
            !r.0@.is_directory,
            r.0@.dialog == DialogState::Closed,
            r.0@.properties is None,
            r.0@.search_query.len() == 0,
            r.0@.sort_mode == SortMode::NameAsc,
            r.1 is Reload,
    {
        let session = FileManager {
            current_dir: home.duplicate(),
            home_dir: home,
            entries: Vec::new(),
            selected_entry: None,
            new_name: String::new(),
            is_directory: false,
            dialog: DialogState::Closed,
            properties: None,
            search_query: String::new(),
            sort_mode: SortMode::NameAsc,
        };
        (session, Action::Reload)
    }

    /// Puts the listed entries in the order of the current sort mode.
    pub fn sort_entries(&mut self)
        ensures
            final(self)@ == (ManagerView { entries: final(self)@.entries, ..old(self)@ }),
            final(self)@.entries.to_multiset() == old(self)@.entries.to_multiset(),
            sorted_by(final(self).sort_mode, final(self)@.entries),
            sorted_by(old(self).sort_mode, old(self)@.entries) ==> final(self)@.entries == old(
                self,
            )@.entries,
    {
        let mut v: Vec<FileEntry> = Vec::new();
        std::mem::swap(&mut v, &mut self.entries);
        self.entries = sort_entries_by(self.sort_mode, v);
    }

    /// Rebuilds the listing from the children that a read of the current
    /// directory produced: the directory itself and the entries that do not
    /// pass the search filter are left out, and the rest are sorted. `now`
    /// stands in for modification times that could not be read.
    pub fn load_entries(&mut self, children: Vec<ChildInfo>, now: i128)
        ensures
            final(self)@ == (ManagerView { entries: final(self)@.entries, ..old(self)@ }),
            final(self)@.entries.to_multiset() == listing(
                old(self)@.current_dir,
                children@,
                old(self)@.search_query,
                now,
            ).to_multiset(),
            sorted_by(final(self).sort_mode, final(self)@.entries),
            forall|i: int|
                0 <= i < final(self)@.entries.len() ==> {
                    let e = #[trigger] final(self)@.entries[i];
                    e.path@ != old(self)@.current_dir && visible(entry_name(e), old(self)@.search_query)
                },
    {
        let listed = list_children(&self.current_dir, children, self.search_query.as_str(), now);
        let ghost l = listed@;
        self.entries = sort_entries_by(self.sort_mode, listed);
        proof {
            lemma_listing_members(self.current_dir@, children@, self.search_query@, now);
            assert forall|i: int| 0 <= i < self.entries@.len() implies {
                let e = #[trigger] self.entries@[i];
                e.path@ != self.current_dir@ && visible(entry_name(e), self.search_query@)
            } by {
                let e = self.entries@[i];
                to_multiset_contains(self.entries@, e);
                to_multiset_contains(l, e);
                let j = choose|j: int| 0 <= j < l.len() && l[j] == e;
            }
        }
    }

    /// Records the detail record for `path` from its metadata and opens the
    /// detail view; where the metadata could not be read the view has no
    /// record to show.
    pub fn show_properties(&mut self, path: DirPath, meta: Option<PathMeta>, now: i128)
        ensures
            final(self)@ == (ManagerView {
                properties: final(self)@.properties,
                dialog: DialogState::Properties,
                ..old(self)@
            }),
            properties_from(final(self)@.properties, path, meta, now),
    {
        self.properties = read_properties(path, meta, now);
        self.dialog = DialogState::Properties;
    }

    /// Applies a request to the session and returns the filesystem work it
    /// asks of the caller.
    pub fn update(&mut self, message: Message) -> (act: Action)
        ensures
            message is SortBy ==> {
                &&& final(self)@ == (ManagerView {
                    entries: final(self)@.entries,
                    ..next_state(old(self)@, message)
                })
                &&& final(self)@.entries.to_multiset() == old(self)@.entries.to_multiset()
                &&& sorted_by(final(self).sort_mode, final(self)@.entries)
            },
            !(message is SortBy) ==> final(self)@ == next_state(old(self)@, message),
            action_ok(old(self)@, message, act),
    {
        match message {
            Message::FileSelected { path, is_dir } => {
                if is_dir {
                    self.current_dir = path;
                    self.selected_entry = None;
                    Action::Reload
                } else {
                    let open = path.duplicate();
                    self.selected_entry = Some(path);
                    Action::Open { path: open }
                }
            },
            Message::NavigateUp => {
                let target = navigate_up(&self.current_dir, &self.home_dir);
                if target.same_as(&self.current_dir) {
                    Action::Nothing
                } else {
                    self.current_dir = target;
                    self.selected_entry = None;
                    Action::Reload
                }
            },
            Message::NavigateHome => {
                self.current_dir = self.home_dir.duplicate();
                self.selected_entry = None;
                Action::Reload
            },
            Message::Refresh => Action::Reload,
            Message::CreateNew => {
                self.dialog = DialogState::Create;
                self.new_name = String::new();
                self.is_directory = false;
                Action::Nothing
            },
            Message::Delete => {
                if self.selected_entry.is_some() {
                    self.dialog = DialogState::Delete;
                }
                Action::Nothing
            },
            Message::NameInputChanged(name) => {
                self.new_name = name;
                Action::Nothing
            },
            Message::IsDirectoryToggled(d) => {
                self.is_directory = d;
                Action::Nothing
            },
            Message::ConfirmCreate => {
                self.dialog = DialogState::Closed;
                if self.new_name.unicode_len() > 0 {
                    Action::Create {
                        path: self.current_dir.join(self.new_name.as_str()),
                        is_dir: self.is_directory,
                    }
                } else {
                    Action::Reload
                }
            },
            Message::ConfirmDelete => {
                match self.selected_entry.take() {
                    Some(path) => {
                        self.dialog = DialogState::Closed;
                        Action::Remove { path }
                    },
                    None => Action::Nothing,
                }
            },
            Message::ShowProperties => {
                match &self.selected_entry {
                    Some(path) => Action::ReadProperties { path: path.duplicate() },
                    None => Action::Nothing,
                }
            },
            Message::CloseDialog => {
                self.dialog = DialogState::Closed;
                self.properties = None;
                Action::Nothing
            },
            Message::SearchInputChanged(q) => {
                self.search_query = q;
                Action::Nothing
            },
            Message::PerformSearch => Action::Reload,
            Message::SortBy(axis) => {
                self.sort_mode = self.sort_mode.toggle(axis);
                self.sort_entries();
                Action::Nothing
            },
        }
    }
}

} // verus!
