use tundra::dir_cache::DirCache;

fn s(x: &str) -> String {
    x.to_string()
}

#[test]
fn new_cache_is_empty() {
    let c = DirCache::new();
    assert_eq!(c.get(&s("/d")), None);
    assert!(!c.contains_key(&s("/d")));
    assert!(c.persist().is_empty());
}

#[test]
fn insert_then_get() {
    let mut c = DirCache::new();
    assert_eq!(c.insert(s("/d"), vec![s("/d/a.wav"), s("/d/sub")]), None);
    assert_eq!(c.get(&s("/d")), Some(&vec![s("/d/a.wav"), s("/d/sub")]));
    assert!(c.contains_key(&s("/d")));
    assert_eq!(c.get(&s("/e")), None);
    assert_eq!(c.get(&s("/d/")), None);
}

#[test]
fn insert_replaces_the_prior_entry() {
    let mut c = DirCache::new();
    c.insert(s("/d"), vec![s("/d/a.wav")]);
    c.insert(s("/e"), vec![]);
    let before = c.insert(s("/d"), vec![s("/d/b.wav")]);
    assert_eq!(before, Some(vec![s("/d/a.wav")]));
    assert_eq!(c.get(&s("/d")), Some(&vec![s("/d/b.wav")]));
    assert_eq!(c.get(&s("/e")), Some(&vec![]));
    assert_eq!(c.persist(), vec![(s("/d"), vec![s("/d/b.wav")]), (s("/e"), vec![])]);
}

#[test]
fn invalidate_then_reload_is_empty() {
    let mut c = DirCache::new();
    c.insert(s("/d"), vec![s("/d/a.wav")]);
    c.insert(s("/e"), vec![s("/e/b.wav")]);
    c.invalidate();
    assert!(!c.contains_key(&s("/d")));
    let written = c.persist();
    assert!(written.is_empty());
    let reloaded = DirCache::get_dir_cache(Some(written));
    assert!(!reloaded.contains_key(&s("/d")));
    assert!(!reloaded.contains_key(&s("/e")));
    assert!(reloaded.persist().is_empty());
}

#[test]
fn persist_then_reload_gives_the_same_cache() {
    let mut c = DirCache::new();
    c.insert(s("/d"), vec![s("/d/a.wav")]);
    c.insert(s("/e"), vec![s("/e/b.wav"), s("/e/c")]);
    let reloaded = DirCache::get_dir_cache(Some(c.persist()));
    assert_eq!(reloaded.get(&s("/d")), c.get(&s("/d")));
    assert_eq!(reloaded.get(&s("/e")), c.get(&s("/e")));
    assert_eq!(reloaded.persist(), c.persist());
}

#[test]
fn missing_store_gives_an_empty_cache() {
    let c = DirCache::get_dir_cache(None);
    assert!(c.persist().is_empty());
}

#[test]
fn store_with_a_repeated_directory_keeps_its_last_pair() {
    let stored = vec![
        (s("/d"), vec![s("/d/old.wav")]),
        (s("/e"), vec![]),
        (s("/d"), vec![s("/d/new.wav")]),
    ];
    let c = DirCache::get_dir_cache(Some(stored));
    assert_eq!(c.get(&s("/d")), Some(&vec![s("/d/new.wav")]));
    assert_eq!(c.persist().len(), 2);
}

#[test]
fn store_lives_under_a_fixed_name() {
    assert_eq!(tundra::dir_cache::STORE_DIR, "tundra");
    assert_eq!(tundra::dir_cache::STORE_FILE, "dir_cache.bin");
}
