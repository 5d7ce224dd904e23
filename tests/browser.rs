use file_browser::entry::{FileEntry, SortAxis, SortMode};
use file_browser::listing::{
    entry_from, is_hidden, list_children, passes_filter, passes_filter_folded, ChildInfo,
    ChildMeta,
};
use file_browser::manager::{Action, DialogState, FileManager, Message};
use file_browser::order::sort_entries_by;
use file_browser::path::{go_back, navigate_up, DirPath};
use file_browser::props::{octal_string, permission_string, read_properties, PathMeta};
use file_browser::text::{contains_text, text_le_exec};

fn path(parts: &[&str]) -> DirPath {
    DirPath { comps: parts.iter().map(|s| s.to_string()).collect() }
}

fn home() -> DirPath {
    path(&["home", "ana"])
}

fn child(name: &str, is_dir: bool, size: u64, modified: i128) -> ChildInfo {
    ChildInfo {
        path: home().join(name),
        is_dir,
        meta: Some(ChildMeta { size, modified: Some(modified) }),
    }
}

fn names(entries: &[FileEntry]) -> Vec<String> {
    entries.iter().map(|e| e.name()).collect()
}

fn scenario_children() -> Vec<ChildInfo> {
    vec![
        ChildInfo { path: home(), is_dir: true, meta: None },
        child("b.txt", false, 100, 1_000),
        child("A", true, 4096, 3_000),
        child("a.txt", false, 50, 2_000),
    ]
}

fn loaded(mode_clicks: &[SortAxis]) -> FileManager {
    let (mut m, _) = FileManager::new(home());
    for axis in mode_clicks {
        m.update(Message::SortBy(*axis));
    }
    m.load_entries(scenario_children(), 9_000);
    m
}

#[test]
fn scenario_name_ascending() {
    let m = loaded(&[]);
    assert_eq!(m.sort_mode, SortMode::NameAsc);
    assert_eq!(names(&m.entries), vec!["A", "a.txt", "b.txt"]);
}

#[test]
fn scenario_size_descending() {
    let m = loaded(&[SortAxis::Size, SortAxis::Size]);
    assert_eq!(m.sort_mode, SortMode::SizeDesc);
    assert_eq!(names(&m.entries), vec!["A", "b.txt", "a.txt"]);
}

#[test]
fn scenario_date_ascending() {
    let m = loaded(&[SortAxis::Date]);
    assert_eq!(m.sort_mode, SortMode::DateAsc);
    assert_eq!(names(&m.entries), vec!["A", "b.txt", "a.txt"]);
}

#[test]
fn name_descending_keeps_directories_first() {
    let m = loaded(&[SortAxis::Name]);
    assert_eq!(m.sort_mode, SortMode::NameDesc);
    assert_eq!(names(&m.entries), vec!["A", "b.txt", "a.txt"]);
}

#[test]
fn date_descending_order() {
    let m = loaded(&[SortAxis::Date, SortAxis::Date]);
    assert_eq!(names(&m.entries), vec!["A", "a.txt", "b.txt"]);
}

#[test]
fn listing_leaves_out_the_directory_itself() {
    let m = loaded(&[]);
    assert_eq!(m.entries.len(), 3);
    for e in &m.entries {
        assert!(!e.path.same_as(&home()));
    }
}

#[test]
fn size_modes_order_directories_by_name_ascending() {
    let children = vec![
        child("zeta", true, 1, 1),
        child("alpha", true, 9, 2),
        child("big.bin", false, 900, 3),
        child("small.bin", false, 9, 4),
        child("mid", true, 5, 5),
    ];
    let asc = sort_entries_by(SortMode::SizeAsc, list_children(&home(), children.clone(), "", 0));
    assert_eq!(names(&asc), vec!["alpha", "mid", "zeta", "small.bin", "big.bin"]);
    let desc = sort_entries_by(SortMode::SizeDesc, list_children(&home(), children, "", 0));
    assert_eq!(names(&desc), vec!["alpha", "mid", "zeta", "big.bin", "small.bin"]);
}

#[test]
fn directories_first_under_every_mode() {
    let modes = [
        SortMode::NameAsc,
        SortMode::NameDesc,
        SortMode::SizeAsc,
        SortMode::SizeDesc,
        SortMode::DateAsc,
        SortMode::DateDesc,
    ];
    for mode in modes {
        let children = vec![
            child("a.txt", false, 1, 1),
            child("z", true, 5, 9),
            child("b.txt", false, 7, 3),
            child("c", true, 2, 0),
        ];
        let sorted = sort_entries_by(mode, list_children(&home(), children, "", 0));
        let dirs: Vec<bool> = sorted.iter().map(|e| e.is_dir).collect();
        assert_eq!(dirs, vec![true, true, false, false]);
    }
}

#[test]
fn toggling_same_axis_twice_restores_direction() {
    for mode in [SortMode::NameAsc, SortMode::NameDesc, SortMode::SizeDesc, SortMode::DateDesc] {
        let axis = mode.axis();
        assert_eq!(mode.toggle(axis).toggle(axis), mode);
    }
    assert_eq!(SortMode::SizeDesc.axis(), SortAxis::Size);
    assert_eq!(SortMode::NameAsc.toggle(SortAxis::Name), SortMode::NameDesc);
}

#[test]
fn toggling_other_axis_starts_ascending() {
    assert_eq!(SortMode::NameDesc.toggle(SortAxis::Size), SortMode::SizeAsc);
    assert_eq!(SortMode::SizeDesc.toggle(SortAxis::Date), SortMode::DateAsc);
    assert_eq!(SortMode::DateDesc.toggle(SortAxis::Name), SortMode::NameAsc);
}

#[test]
fn hidden_names_need_a_dotted_query() {
    assert!(!passes_filter(".bashrc", ""));
    assert!(!passes_filter(".bashrc", "bash"));
    assert!(passes_filter(".bashrc", ".bash"));
    assert!(passes_filter(".bashrc", ".BASH"));
    assert!(!passes_filter(".bashrc", ".zsh"));
    assert!(passes_filter("notes.txt", ""));
}

#[test]
fn search_ignores_case() {
    assert!(passes_filter("README.md", "read"));
    assert!(passes_filter("readme.md", "ME.M"));
    assert!(!passes_filter("README.md", "write"));
}

#[test]
fn folded_filter_uses_the_given_forms() {
    assert!(passes_filter_folded("X", "y", "xyz", "y"));
    assert!(!passes_filter_folded("X", "y", "xz", "y"));
    assert!(!passes_filter_folded(".x", "y", ".xy", "y"));
    assert!(passes_filter_folded("X", "", "anything", "nothing"));
}

#[test]
fn listing_applies_the_query() {
    let children = vec![
        child(".profile", false, 1, 1),
        child("Documents", true, 1, 1),
        child("doc.txt", false, 1, 1),
        child("music", true, 1, 1),
    ];
    let listed = list_children(&home(), children.clone(), "DOC", 0);
    assert_eq!(names(&listed), vec!["Documents", "doc.txt"]);
    let dotted = list_children(&home(), children.clone(), ".pro", 0);
    assert_eq!(names(&dotted), vec![".profile"]);
    let all = list_children(&home(), children, "", 0);
    assert_eq!(names(&all), vec!["Documents", "doc.txt", "music"]);
}

#[test]
fn missing_metadata_gives_defaults() {
    let c = ChildInfo { path: home().join("gone"), is_dir: false, meta: None };
    let e = entry_from(c, 777);
    assert_eq!(e.size, 0);
    assert_eq!(e.modified, 777);
    let c = ChildInfo {
        path: home().join("old"),
        is_dir: false,
        meta: Some(ChildMeta { size: 12, modified: None }),
    };
    let e = entry_from(c, 555);
    assert_eq!(e.size, 12);
    assert_eq!(e.modified, 555);
}

#[test]
fn create_then_reload_then_delete_then_reload() {
    let (mut m, _) = FileManager::new(home());
    m.update(Message::CreateNew);
    assert_eq!(m.dialog, DialogState::Create);
    m.update(Message::NameInputChanged("x.txt".to_string()));
    let created = match m.update(Message::ConfirmCreate) {
        Action::Create { path, is_dir } => {
            assert!(!is_dir);
            assert!(path.same_as(&home().join("x.txt")));
            path
        }
        other => panic!("unexpected action {:?}", other),
    };
    assert_eq!(m.dialog, DialogState::Closed);
    let with_file = vec![ChildInfo {
        path: created.clone(),
        is_dir: false,
        meta: Some(ChildMeta { size: 0, modified: Some(5) }),
    }];
    m.load_entries(with_file, 10);
    assert_eq!(names(&m.entries), vec!["x.txt"]);

    m.update(Message::FileSelected { path: created.clone(), is_dir: false });
    m.update(Message::Delete);
    assert_eq!(m.dialog, DialogState::Delete);
    match m.update(Message::ConfirmDelete) {
        Action::Remove { path } => assert!(path.same_as(&created)),
        other => panic!("unexpected action {:?}", other),
    }
    assert!(m.selected_entry.is_none());
    m.load_entries(Vec::new(), 11);
    assert!(m.entries.is_empty());
}

#[test]
fn create_with_empty_name_does_nothing() {
    let (mut m, _) = FileManager::new(home());
    m.update(Message::CreateNew);
    assert!(matches!(m.update(Message::ConfirmCreate), Action::Reload));
    assert_eq!(m.dialog, DialogState::Closed);
}

#[test]
fn up_from_home_is_a_no_op() {
    let (mut m, _) = FileManager::new(home());
    assert!(matches!(m.update(Message::NavigateUp), Action::Nothing));
    assert!(m.current_dir.same_as(&home()));
    assert!(navigate_up(&home(), &home()).same_as(&home()));
}

#[test]
fn up_inside_home_goes_to_parent() {
    let (mut m, _) = FileManager::new(home());
    let inner = home().join("projects").join("site");
    m.update(Message::FileSelected { path: inner, is_dir: true });
    assert!(matches!(m.update(Message::NavigateUp), Action::Reload));
    assert!(m.current_dir.same_as(&home().join("projects")));
    m.update(Message::NavigateUp);
    assert!(m.current_dir.same_as(&home()));
    m.update(Message::NavigateUp);
    assert!(m.current_dir.same_as(&home()));
}

#[test]
fn enter_outside_home_then_home() {
    let (mut m, _) = FileManager::new(home());
    m.update(Message::FileSelected { path: path(&["tmp", "x"]), is_dir: true });
    assert!(m.current_dir.same_as(&path(&["tmp", "x"])));
    assert!(matches!(m.update(Message::NavigateUp), Action::Nothing));
    assert!(matches!(m.update(Message::NavigateHome), Action::Reload));
    assert!(m.current_dir.same_as(&home()));
}

#[test]
fn selecting_a_file_opens_it() {
    let (mut m, _) = FileManager::new(home());
    match m.update(Message::FileSelected { path: home().join("a.txt"), is_dir: false }) {
        Action::Open { path } => assert!(path.same_as(&home().join("a.txt"))),
        other => panic!("unexpected action {:?}", other),
    }
    assert!(m.selected_entry.unwrap().same_as(&home().join("a.txt")));
}

#[test]
fn go_back_drops_one_component() {
    assert!(go_back(path(&["home", "ana", "docs"])).same_as(&home()));
    assert!(go_back(DirPath::root()).same_as(&DirPath::root()));
}

#[test]
fn hidden_names() {
    assert!(is_hidden(".git"));
    assert!(!is_hidden("git"));
    assert!(!is_hidden(""));
}

#[test]
fn properties_of_unreadable_path_are_absent() {
    assert!(read_properties(home().join("locked"), None, 0).is_none());
    let (mut m, _) = FileManager::new(home());
    m.update(Message::FileSelected { path: home().join("locked"), is_dir: false });
    match m.update(Message::ShowProperties) {
        Action::ReadProperties { path } => m.show_properties(path, None, 0),
        other => panic!("unexpected action {:?}", other),
    }
    assert!(m.properties.is_none());
    assert_eq!(m.dialog, DialogState::Properties);
}

#[test]
fn properties_of_readable_path() {
    let meta = PathMeta {
        is_dir: false,
        size: 2048,
        modified: None,
        created: Some(7),
        mode: Some(0o100644),
        readonly: false,
    };
    let p = read_properties(home().join("f"), Some(meta), 99).unwrap();
    assert_eq!(p.size, 2048);
    assert_eq!(p.modified, 99);
    assert_eq!(p.created, Some(7));
    assert_eq!(p.permissions, "644");
    assert_eq!(p.type_text(), "File");
}

#[test]
fn permission_summaries() {
    assert_eq!(permission_string(Some(0o40755), false), "755");
    assert_eq!(permission_string(Some(0o7), false), "7");
    assert_eq!(permission_string(Some(0), false), "0");
    assert_eq!(permission_string(None, true), "Read-only");
    assert_eq!(permission_string(None, false), "Read-write");
    assert_eq!(octal_string(8), "10");
    assert_eq!(octal_string(u32::MAX), format!("{:o}", u32::MAX));
}

#[test]
fn size_column_text() {
    let dir = entry_from(child("d", true, 4096, 0), 0);
    assert_eq!(dir.size_text(), "Folder");
    let file = entry_from(child("f", false, 1024, 0), 0);
    assert_eq!(file.size_text(), "1 KiB");
    let small = entry_from(child("s", false, 100, 0), 0);
    assert_eq!(small.size_text(), "100 B");
}

#[test]
fn text_order_and_search() {
    assert!(text_le_exec("A", "a.txt"));
    assert!(text_le_exec("a", "ab"));
    assert!(!text_le_exec("ab", "a"));
    assert!(text_le_exec("", ""));
    assert!(contains_text("abcabd", "abd"));
    assert!(contains_text("abc", ""));
    assert!(!contains_text("ab", "abc"));
}

#[test]
fn show_properties_fills_the_record_from_metadata() {
    let (mut m, _) = FileManager::new(home());
    let meta = PathMeta {
        is_dir: true,
        size: 4096,
        modified: Some(42),
        created: None,
        mode: Some(0o40750),
        readonly: false,
    };
    m.show_properties(home().join("src"), Some(meta), 7);
    assert_eq!(m.dialog, DialogState::Properties);
    let p = m.properties.as_ref().unwrap();
    assert!(p.path.same_as(&home().join("src")));
    assert!(p.is_dir);
    assert_eq!(p.size, 4096);
    assert_eq!(p.modified, 42);
    assert_eq!(p.created, None);
    assert_eq!(p.permissions, "750");
    assert_eq!(p.type_text(), "Directory");
    assert_eq!(p.size_text(), "4 KiB");
}

#[test]
fn closing_the_detail_view_discards_the_record() {
    let (mut m, _) = FileManager::new(home());
    let meta = PathMeta {
        is_dir: false,
        size: 1,
        modified: Some(1),
        created: Some(1),
        mode: None,
        readonly: true,
    };
    m.show_properties(home().join("f"), Some(meta), 0);
    assert_eq!(m.properties.as_ref().unwrap().permissions, "Read-only");
    assert!(matches!(m.update(Message::CloseDialog), Action::Nothing));
    assert_eq!(m.dialog, DialogState::Closed);
    assert!(m.properties.is_none());
}

#[test]
fn ties_keep_their_order() {
    let children = vec![
        child("c.txt", false, 10, 1),
        child("a.txt", false, 10, 2),
        child("b.txt", false, 10, 3),
    ];
    let sorted = sort_entries_by(SortMode::SizeAsc, list_children(&home(), children, "", 0));
    assert_eq!(names(&sorted), vec!["c.txt", "a.txt", "b.txt"]);
    let again = sort_entries_by(SortMode::SizeAsc, sorted);
    assert_eq!(names(&again), vec!["c.txt", "a.txt", "b.txt"]);
}

#[test]
fn resorting_a_sorted_listing_changes_nothing() {
    let mut m = loaded(&[SortAxis::Size]);
    let before = names(&m.entries);
    m.sort_entries();
    assert_eq!(names(&m.entries), before);
}

#[test]
fn a_new_session_asks_for_its_first_listing() {
    let (m, first) = FileManager::new(home());
    assert!(matches!(first, Action::Reload));
    assert!(m.current_dir.same_as(&home()));
    assert!(m.home_dir.same_as(&home()));
    assert!(m.entries.is_empty());
    assert!(m.selected_entry.is_none());
    assert_eq!(m.dialog, DialogState::Closed);
    assert_eq!(m.sort_mode, SortMode::NameAsc);
}
