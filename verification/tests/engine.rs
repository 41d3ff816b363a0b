use switch::entry::{AppEntry, AppEntryKind};
use switch::history::FrecencyStore;
use switch::listcontentprovider::ListItem;
use switch::startappsprovider::{PathProbe, StartAppsProvider, StartAppsProviderMode};

fn exe(name: &str, path: &str) -> AppEntry {
    AppEntry {
        name: name.to_string(),
        use_count: 0,
        last_use_time: 0,
        kind: AppEntryKind::Exe { path: path.to_string(), params: String::new() },
    }
}

fn engine_with(catalog: Vec<Vec<AppEntry>>) -> StartAppsProvider {
    StartAppsProvider::new(FrecencyStore::new(), catalog)
}

#[test]
fn suppression_exact_second_match() {
    let mut eng = engine_with(vec![vec![exe("chrome", "chrome.exe")]]);
    eng.set_query("chrome".to_string(), PathProbe::none());
    let names = eng.query_for_names();
    assert_eq!(names, vec!["chrome".to_string()]);
}

#[test]
fn suppression_keeps_synthetic_for_multi_word() {
    let mut eng = engine_with(vec![vec![exe("chrome", "chrome.exe")]]);
    eng.set_query("chrome --incognito".to_string(), PathProbe::none());
    let names = eng.query_for_names();
    // "chrome" does not contain the whole query, so only the synthetic
    // command entry matches, and being multi-word it is retained.
    assert_eq!(names, vec!["chrome --incognito".to_string()]);
}

#[test]
fn synthetic_survives_empty_result() {
    let mut eng = engine_with(vec![vec![exe("chrome", "chrome.exe")]]);
    eng.set_query("zzz".to_string(), PathProbe::none());
    let names = eng.query_for_names();
    assert_eq!(names, vec!["zzz".to_string()]);
}

#[test]
fn mode_classification() {
    let mut eng = engine_with(vec![]);
    eng.set_query(
        "C:\\Windows\\".to_string(),
        PathProbe { exists: true, parent_exists: true },
    );
    assert_eq!(eng.mode, StartAppsProviderMode::DirectoryListing);
    assert_eq!(eng.directory_listing_path.as_deref(), Some("C:\\Windows\\"));
    assert_eq!(eng.dir_suffix, "");

    eng.set_query(
        "https://example.com".to_string(),
        PathProbe { exists: false, parent_exists: false },
    );
    assert_eq!(eng.mode, StartAppsProviderMode::Url);

    eng.set_query("note".to_string(), PathProbe::none());
    assert_eq!(eng.mode, StartAppsProviderMode::StartApps);

    eng.set_query("http://example.com".to_string(), PathProbe::none());
    assert_eq!(eng.mode, StartAppsProviderMode::Url);

    eng.set_query("".to_string(), PathProbe { exists: true, parent_exists: true });
    assert_eq!(eng.mode, StartAppsProviderMode::StartApps);

    // A digit is alphanumeric, so a probe-confirmed path may start with one.
    eng.set_query("1tools".to_string(), PathProbe { exists: false, parent_exists: true });
    assert_eq!(eng.mode, StartAppsProviderMode::DirectoryListing);

    // A punctuation start never enters directory mode.
    eng.set_query("?tools".to_string(), PathProbe { exists: true, parent_exists: true });
    assert_eq!(eng.mode, StartAppsProviderMode::StartApps);
}

#[test]
fn case_insensitive_filter() {
    let mut eng = engine_with(vec![vec![exe("NotePad", "notepad.exe")]]);
    eng.set_query("NOTE".to_string(), PathProbe::none());
    let names = eng.query_for_names();
    assert_eq!(names, vec!["NotePad".to_string()]);

    eng.set_query("tep".to_string(), PathProbe::none());
    let names = eng.query_for_names();
    assert_eq!(names, vec!["NotePad".to_string()]);
}

#[test]
fn filter_matches_link_target_and_command_text() {
    let link = AppEntry {
        name: "editor".to_string(),
        use_count: 0,
        last_use_time: 0,
        kind: AppEntryKind::Link {
            path: "editor.lnk".to_string(),
            params: String::new(),
            target_path: "C:\\Tools\\Vim\\vim.exe".to_string(),
        },
    };
    let mut eng = engine_with(vec![vec![link]]);
    eng.set_query("vim".to_string(), PathProbe::none());
    let items = eng.query_for_items();
    assert_eq!(items.len(), 1);
    assert_eq!(items[0].name, "editor");
    // The display string of a link names its target.
    assert_eq!(items[0].as_string(), "editor (C:\\Tools\\Vim\\vim.exe)");
    assert_eq!(items[0].as_matchable_string(), "editor");
}

#[test]
fn end_to_end_use_and_reload() {
    let catalog = || vec![vec![exe("notepad", "notepad.exe")]];
    let mut eng = engine_with(catalog());
    eng.set_query("note".to_string(), PathProbe::none());
    let items = eng.query_for_items();
    assert_eq!(items.len(), 1);
    assert_eq!(items[0].name, "notepad");

    let req = eng.start(0, false, 1111);
    assert!(!req.elevated);
    assert_eq!(req.key, "notepad");
    assert_eq!(req.entry.name, "notepad");

    let rec = eng.store.lookup("notepad").unwrap();
    assert_eq!(rec.use_count, 1);
    assert_eq!(rec.last_use_time, 1111);

    // Reload the engine from the store's snapshot: the used entry comes
    // back as the first history entry, ahead of the static copy.
    let store2 = FrecencyStore { records: eng.store.iterate() };
    let mut eng2 = StartAppsProvider::new(store2, catalog());
    assert_eq!(eng2.history_len, 1);
    eng2.set_query("".to_string(), PathProbe::none());
    let names = eng2.query_for_names();
    assert_eq!(names, vec!["notepad".to_string(), "notepad".to_string()]);
    assert_eq!(eng2.apps[1].use_count, 1);
}

#[test]
fn out_of_range_start_resolves_to_command() {
    let mut eng = engine_with(vec![]);
    eng.set_query("calc --x".to_string(), PathProbe::none());
    let req = eng.start(99, true, 7);
    assert!(req.elevated);
    assert_eq!(req.entry.name, "calc --x");
    assert!(matches!(req.entry.kind, AppEntryKind::Command { .. }));
    assert_eq!(eng.store.lookup("calc --x").unwrap().use_count, 1);
}

#[test]
fn removal_clears_history_and_store() {
    let mut store = FrecencyStore::new();
    store.merge(AppEntry {
        name: "calc".to_string(),
        use_count: 1,
        last_use_time: 5,
        kind: AppEntryKind::Command { command: "calc".to_string() },
    });
    let mut eng = StartAppsProvider::new(store, vec![]);
    eng.set_query("calc".to_string(), PathProbe::none());
    let items = eng.query_for_items();
    // The synthetic entry is suppressed: the history entry matches exactly.
    assert_eq!(items.len(), 1);

    let key = eng.remove(0);
    assert_eq!(key.as_deref(), Some("calc"));
    assert!(eng.store.lookup("calc").is_none());
    assert_eq!(eng.history_len, 0);

    // A subsequent load no longer contains the entry.
    let eng2 = StartAppsProvider::new(FrecencyStore { records: eng.store.iterate() }, vec![]);
    assert_eq!(eng2.apps.len(), 1);
}

#[test]
fn out_of_range_remove_is_a_no_op() {
    let mut eng = engine_with(vec![vec![exe("chrome", "chrome.exe")]]);
    eng.set_query("chrome".to_string(), PathProbe::none());
    assert_eq!(eng.remove(5), None);
    assert_eq!(eng.apps.len(), 2);
}

#[test]
fn static_entries_cannot_be_removed_from_memory() {
    let mut eng = engine_with(vec![vec![exe("chrome", "chrome.exe")]]);
    eng.set_query("chrome".to_string(), PathProbe::none());
    // Candidate 0 is the static entry (the synthetic one is suppressed).
    let key = eng.remove(0);
    assert_eq!(key.as_deref(), Some("chrome"));
    // The store never held it and the aggregation keeps it.
    assert_eq!(eng.apps.len(), 2);
    assert_eq!(eng.apps[1].name, "chrome");
}

#[test]
fn url_mode_keeps_the_synthetic_entry() {
    let mut eng = engine_with(vec![vec![exe("http://example.com", "browser.exe")]]);
    eng.set_query("http://e".to_string(), PathProbe::none());
    assert_eq!(eng.mode, StartAppsProviderMode::Url);
    let names = eng.query_for_names();
    assert_eq!(
        names,
        vec!["http://e".to_string(), "http://example.com".to_string()]
    );
}
