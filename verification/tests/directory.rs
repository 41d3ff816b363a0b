use switch::history::FrecencyStore;
use switch::pathstring::{file_name_string, parent_string};
use switch::startappsprovider::{PathProbe, StartAppsProvider};

#[test]
fn directory() {
    let maybe_dir_entry = "C:\\program files\\";
    println!(
        "{:?}, {:?}",
        parent_string(maybe_dir_entry),
        file_name_string(maybe_dir_entry)
    );
    let trimmed = "C:\\program files";
    assert_eq!(parent_string(trimmed), "C:\\");
    assert_eq!(file_name_string(trimmed), "program files");
}

fn dir_engine(query: &str, probe: PathProbe) -> StartAppsProvider {
    let mut eng = StartAppsProvider::new(FrecencyStore::new(), vec![]);
    eng.set_query(query.to_string(), probe);
    eng
}

#[test]
fn listing_filtered_by_suffix() {
    let mut eng = dir_engine(
        "C:\\tools\\he",
        PathProbe { exists: false, parent_exists: true },
    );
    assert_eq!(eng.needs_listing().as_deref(), Some("C:\\tools\\"));
    assert_eq!(eng.dir_suffix, "he");
    eng.provide_listing(vec![
        "C:\\tools\\hello.exe".to_string(),
        "C:\\tools\\world.exe".to_string(),
        "C:\\tools\\Help.txt".to_string(),
    ]);
    assert_eq!(eng.needs_listing(), None);
    let names = eng.query_for_names();
    assert_eq!(
        names,
        vec!["C:\\tools\\hello.exe".to_string(), "C:\\tools\\Help.txt".to_string()]
    );
}

#[test]
fn empty_suffix_lists_directory_itself_first() {
    let mut eng = dir_engine(
        "C:\\tools\\",
        PathProbe { exists: true, parent_exists: true },
    );
    assert_eq!(eng.dir_suffix, "");
    eng.provide_listing(vec![
        "C:\\tools\\hello.exe".to_string(),
        "C:\\tools\\world.exe".to_string(),
    ]);
    let names = eng.query_for_names();
    assert_eq!(
        names,
        vec![
            "C:\\tools\\".to_string(),
            "C:\\tools\\hello.exe".to_string(),
            "C:\\tools\\world.exe".to_string(),
        ]
    );
}

#[test]
fn multi_word_suffix_bypasses_listing() {
    let mut eng = dir_engine(
        "C:\\tools\\hello.exe -x",
        PathProbe { exists: false, parent_exists: true },
    );
    eng.provide_listing(vec!["C:\\tools\\hello.exe".to_string()]);
    let names = eng.query_for_names();
    assert_eq!(names, vec!["C:\\tools\\hello.exe -x".to_string()]);
}

#[test]
fn cache_survives_while_prefix_is_unchanged() {
    let mut eng = dir_engine(
        "C:\\tools\\he",
        PathProbe { exists: false, parent_exists: true },
    );
    eng.provide_listing(vec!["C:\\tools\\hello.exe".to_string()]);
    assert_eq!(eng.needs_listing(), None);

    // Same resolved prefix: the cache is kept.
    eng.set_query(
        "C:\\tools\\hel".to_string(),
        PathProbe { exists: false, parent_exists: true },
    );
    assert_eq!(eng.needs_listing(), None);
    assert_eq!(eng.query_for_names(), vec!["C:\\tools\\hello.exe".to_string()]);

    // A different prefix invalidates it the instant it changes.
    eng.set_query(
        "C:\\other\\he".to_string(),
        PathProbe { exists: false, parent_exists: true },
    );
    assert_eq!(eng.needs_listing().as_deref(), Some("C:\\other\\"));
    assert_eq!(eng.query_for_names(), Vec::<String>::new());
}
