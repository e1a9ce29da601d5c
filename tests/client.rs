use remote_files::client::{
    list_error, stat_entry, upload_target, ClientError, EntryKind, EntryMeta, ListFailure,
};
use remote_files::input::{
    completion_for, item_at, next_action, parse_content_length, parse_usize, NextAction,
};
use remote_files::listing::{resolve_batch, ListedEntry, ListingPipeline, DEFAULT_LIST_LIMIT};
use remote_files::state::{
    check_home, load_action, resolve_home, state_files, HomeOverride, LoadAction, PathProbe,
    StateError,
};
use remote_files::url_path::UrlDirPath;

fn entries(n: usize) -> Vec<ListedEntry> {
    (0..n)
        .map(|i| ListedEntry { path: format!("/dir/f{i}"), name: format!("f{i}") })
        .collect()
}

fn meta(kind: EntryKind, len: u64) -> EntryMeta {
    EntryMeta { kind, content_type: Some("text/plain".to_string()), content_length: len }
}

fn dir(path: &str) -> UrlDirPath {
    UrlDirPath::parse(path).unwrap()
}

#[test]
fn paginated_listing_yields_every_page_in_order() {
    let mut p = ListingPipeline::new(&dir("/dir"), Some(10), Ok(entries(25))).ok().unwrap();
    assert_eq!(p.path(), "/dir/");
    let mut sizes = vec![];
    let mut names = vec![];
    while let Some(batch) = p.next_batch() {
        sizes.push(batch.len());
        names.extend(batch.into_iter().map(|e| e.name));
    }
    assert_eq!(sizes, vec![10, 10, 5]);
    assert_eq!(names, entries(25).into_iter().map(|e| e.name).collect::<Vec<_>>());
    assert!(p.next_batch().is_none());
}

#[test]
fn preview_listing_yields_only_the_first_page() {
    let mut p = ListingPipeline::new(&dir("/dir"), None, Ok(entries(25))).ok().unwrap();
    let first = p.next_batch().unwrap();
    assert_eq!(first.len(), DEFAULT_LIST_LIMIT);
    assert_eq!(first[0].name, "f0");
    assert_eq!(first[9].name, "f9");
    assert!(p.next_batch().is_none());
}

#[test]
fn empty_listing_yields_no_page() {
    let mut p = ListingPipeline::new(&dir("/"), None, Ok(vec![])).ok().unwrap();
    assert!(p.next_batch().is_none());
    let mut p = ListingPipeline::new(&dir("/"), Some(3), Ok(entries(3))).ok().unwrap();
    assert_eq!(p.next_batch().unwrap().len(), 3);
    assert!(p.next_batch().is_none());
}

#[test]
fn listing_a_non_directory_fails_before_any_page() {
    let r = ListingPipeline::new(&dir("/a/file"), Some(10), Err(ListFailure::NotADirectory));
    assert!(matches!(r, Err(ClientError::ListNotDirectory(p)) if p == "/a/file/"));
    let r = ListingPipeline::new(&dir("/a"), None, Err(ListFailure::Other("boom".to_string())));
    assert!(matches!(r, Err(ClientError::Unhandled(m)) if m == "boom"));
    assert_eq!(
        list_error("/x/", ListFailure::NotADirectory),
        ClientError::ListNotDirectory("/x/".to_string())
    );
}

#[test]
fn stat_of_unknown_mode_fails() {
    let r = stat_entry("/a", Ok(meta(EntryKind::Unknown, 3)));
    assert_eq!(r.unwrap_err(), ClientError::StatUnknownMode("/a".to_string()));
    let r = stat_entry("/a", Err("denied".to_string()));
    assert_eq!(
        r.unwrap_err(),
        ClientError::ListMetadata("/a".to_string(), "denied".to_string())
    );
}

#[test]
fn stat_of_file_and_directory() {
    let f = stat_entry("/a/f.txt", Ok(meta(EntryKind::File, 42))).unwrap();
    assert_eq!(f.path, "/a/f.txt");
    assert_eq!(f.content_type, "text/plain");
    assert_eq!(f.content_length, Some(42));
    assert_eq!(f.entry_type, EntryKind::File);
    let d = stat_entry(
        "/a/",
        Ok(EntryMeta { kind: EntryKind::Dir, content_type: None, content_length: 7 }),
    )
    .unwrap();
    assert_eq!(d.content_type, "");
    assert_eq!(d.content_length, None);
    assert_eq!(d.entry_type, EntryKind::Dir);
}

#[test]
fn batch_drops_failed_and_unknown_entries_in_order() {
    let batch = entries(4);
    let stats = vec![
        Ok(meta(EntryKind::File, 1)),
        Err("gone".to_string()),
        Ok(meta(EntryKind::Unknown, 0)),
        Ok(meta(EntryKind::Dir, 9)),
    ];
    let r = resolve_batch(&batch, &stats, true).unwrap();
    let names: Vec<_> = r.entries.iter().map(|e| e.path.as_str()).collect();
    assert_eq!(names, vec!["f0", "f3"]);
    assert_eq!(r.entries[0].content_length, Some(1));
    assert_eq!(r.entries[1].content_length, None);
    assert_eq!(r.failures, vec!["gone".to_string()]);
}

#[test]
fn batch_fails_on_first_failed_fetch_when_not_dropping() {
    let batch = entries(3);
    let stats = vec![
        Ok(meta(EntryKind::File, 1)),
        Err("first".to_string()),
        Err("second".to_string()),
    ];
    assert_eq!(resolve_batch(&batch, &stats, false).err(), Some("first".to_string()));
    let ok = vec![Ok(meta(EntryKind::File, 1)), Ok(meta(EntryKind::Dir, 0)), Ok(meta(EntryKind::File, 2))];
    let r = resolve_batch(&batch, &ok, false).unwrap();
    assert_eq!(r.entries.len(), 3);
    assert!(r.failures.is_empty());
}

#[test]
fn upload_lands_under_destination_with_source_file_name() {
    assert_eq!(
        upload_target("/tmp/x/file.txt", "/test/rf/").unwrap(),
        "/test/rf/file.txt"
    );
    assert_eq!(upload_target("file.txt", "dest").unwrap(), "dest/file.txt");
    assert_eq!(
        upload_target("/tmp/..", "/d/"),
        Err(ClientError::UploadInvalidFilePath("/tmp/..".to_string()))
    );
    assert_eq!(
        upload_target("/", "/d/"),
        Err(ClientError::UploadInvalidFilePath("/".to_string()))
    );
}

#[test]
fn home_folder_resolution() {
    assert_eq!(
        resolve_home(HomeOverride::Value("/h".to_string()), None),
        Ok("/h".to_string())
    );
    assert_eq!(
        resolve_home(HomeOverride::NotPresent, Some("/home/u/.config".to_string())),
        Ok("/home/u/.config/rf".to_string())
    );
    assert_eq!(resolve_home(HomeOverride::NotPresent, None), Err(StateError::NoConfigDir));
    assert_eq!(
        resolve_home(HomeOverride::NotUnicode("x".to_string()), None),
        Err(StateError::OverrideNotUnicode("x".to_string()))
    );
    assert_eq!(check_home("/h".to_string(), PathProbe::Missing), Ok("/h".to_string()));
    assert_eq!(check_home("/h".to_string(), PathProbe::Dir), Ok("/h".to_string()));
    assert_eq!(
        check_home("/h".to_string(), PathProbe::File),
        Err(StateError::HomeNotADirectory("/h".to_string()))
    );
    assert_eq!(
        check_home("/h".to_string(), PathProbe::Failed("denied".to_string())),
        Err(StateError::Stat { path: "/h".to_string(), cause: "denied".to_string() })
    );
}

#[test]
fn state_files_live_under_home() {
    let (state, cfg) = state_files("/h");
    assert_eq!(state, "/h/rf.json");
    assert_eq!(cfg, "/h/configuration.json");
}

#[test]
fn missing_document_is_created_and_existing_one_read() {
    assert_eq!(load_action("/h/rf.json", PathProbe::Missing), Ok(LoadAction::CreateDefault));
    assert_eq!(load_action("/h/rf.json", PathProbe::File), Ok(LoadAction::ReadExisting));
    assert_eq!(
        load_action("/h/rf.json", PathProbe::Dir),
        Err(StateError::IsADirectory("/h/rf.json".to_string()))
    );
    assert_eq!(
        load_action("/h/rf.json", PathProbe::Failed("io".to_string())),
        Err(StateError::Stat { path: "/h/rf.json".to_string(), cause: "io".to_string() })
    );
}

#[test]
fn user_answers_while_paging() {
    assert_eq!(next_action("q\n"), NextAction::Quit);
    assert_eq!(next_action("3\n"), NextAction::Print(3));
    assert_eq!(next_action("+12"), NextAction::Print(12));
    assert_eq!(next_action("\n"), NextAction::Next);
    assert_eq!(next_action("qq\n"), NextAction::Next);
    assert_eq!(next_action("-1\n"), NextAction::Next);
}

#[test]
fn decimal_numbers() {
    assert_eq!(parse_usize("0"), Some(0));
    assert_eq!(parse_usize("007"), Some(7));
    assert_eq!(parse_usize(""), None);
    assert_eq!(parse_usize("+"), None);
    assert_eq!(parse_usize("1a"), None);
    assert_eq!(parse_usize(&usize::MAX.to_string()), Some(usize::MAX));
    assert_eq!(parse_usize("99999999999999999999999"), None);
}

#[test]
fn items_are_picked_by_position() {
    let items = vec![stat_entry("a", Ok(meta(EntryKind::File, 1))).unwrap()];
    assert_eq!(item_at(&items, 1).unwrap().path, "a");
    assert!(item_at(&items, 0).is_none());
    assert!(item_at(&items, 2).is_none());
}

#[test]
fn content_lengths_are_shown_with_units() {
    assert_eq!(parse_content_length("", false), "");
    assert_eq!(parse_content_length("123", true), "123");
    assert_eq!(parse_content_length("7", false), "7B");
    assert_eq!(parse_content_length("123", false), "123B");
    assert_eq!(parse_content_length("1234", false), "1.2kB");
    assert_eq!(parse_content_length("123456", false), "123.4kB");
    assert_eq!(parse_content_length("1234567", false), "1.2MB");
    assert_eq!(parse_content_length("123456789", false), "123.4MB");
}

#[test]
fn completion_prefers_the_highlighted_suggestion() {
    let s = vec![
        ("a.json".to_string(), "/tmp/a.json".to_string()),
        ("b.json".to_string(), "/tmp/b.json".to_string()),
        ("b.json".to_string(), "/other/b.json".to_string()),
    ];
    assert_eq!(
        completion_for(&s, "/tmp/", Some("b.json".to_string())).as_deref(),
        Some("/tmp/b.json")
    );
    assert_eq!(
        completion_for(&s, "/tmp/", Some("c.json".to_string())).as_deref(),
        Some("/tmp/")
    );
    assert_eq!(completion_for(&s, "/tmp/", None).as_deref(), Some("/tmp/a.json"));
    assert_eq!(completion_for(&vec![], "/tmp/", None), None);
}
