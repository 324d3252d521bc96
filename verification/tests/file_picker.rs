use squad_ready::file_picker::{
    build_entries, contains_sub, sort_entries, DirCache, FilePicker, RawDirEntry,
};

fn raw(path: &str, name: &str, is_dir: bool) -> RawDirEntry {
    RawDirEntry {
        path: path.to_string(),
        name: name.to_string(),
        is_dir,
    }
}

#[test]
fn build_entries_formats_and_drops_hidden() {
    let listing = vec![
        raw("/d/b.wav", "b.wav", false),
        raw("/d/.secret", ".secret", false),
        raw("/d/music", "music", true),
    ];
    let entries = build_entries(&listing, false);
    assert_eq!(entries.len(), 2);
    assert_eq!(entries[0].display_name, "[file] b.wav");
    assert_eq!(entries[1].display_name, "[dir]  music");

    let all = build_entries(&listing, true);
    assert_eq!(all.len(), 3);
    assert_eq!(all[1].display_name, "[file] .secret");
}

#[test]
fn sort_entries_puts_directories_first_then_names() {
    let listing = vec![
        raw("/d/zeta.wav", "zeta.wav", false),
        raw("/d/alpha.wav", "alpha.wav", false),
        raw("/d/music", "music", true),
        raw("/d/art", "art", true),
    ];
    let mut entries = build_entries(&listing, false);
    sort_entries(&mut entries);
    let names: Vec<&str> = entries.iter().map(|e| e.name.as_str()).collect();
    assert_eq!(names, vec!["art", "music", "alpha.wav", "zeta.wav"]);
}

#[test]
fn contains_sub_finds_parts() {
    assert!(contains_sub("ready-check.wav", "check"));
    assert!(contains_sub("abc", ""));
    assert!(!contains_sub("abc", "abcd"));
    assert!(!contains_sub("abc", "ac"));
    assert!(contains_sub("", ""));
}

#[test]
fn apply_listing_sorts_and_shows_all() {
    let mut cache = DirCache::new();
    assert!(cache.needs_refresh("/sounds", false));

    let listing = vec![
        raw("/sounds/b.wav", "b.wav", false),
        raw("/sounds/a.wav", "a.wav", false),
    ];
    cache.apply_listing("/sounds", false, &listing);
    assert!(!cache.needs_refresh("/sounds", false));
    assert!(cache.needs_refresh("/sounds", true));
    assert!(cache.needs_refresh("/other", false));
    assert_eq!(cache.filtered_len(), 2);
    assert_eq!(cache.filtered_entry_at(0).name, "a.wav");
    assert_eq!(cache.filtered_entry_at(1).name, "b.wav");
    assert!(cache.error.is_none());

    cache.invalidate();
    assert!(cache.needs_refresh("/sounds", false));
}

#[test]
fn update_filter_is_case_insensitive() {
    let mut cache = DirCache::new();
    let listing = vec![
        raw("/s/Alpha.wav", "Alpha.wav", false),
        raw("/s/beta.ogg", "beta.ogg", false),
        raw("/s/gamma.WAV", "gamma.WAV", false),
    ];
    cache.apply_listing("/s", false, &listing);

    // An uppercase filter still matches lowercased names: this fails if
    // the lowercase mapping were the identity.
    cache.update_filter("WAV");
    assert_eq!(cache.filtered_len(), 2);
    assert_eq!(cache.filtered_entry_at(0).name, "Alpha.wav");
    assert_eq!(cache.filtered_entry_at(1).name, "gamma.WAV");

    cache.update_filter("beta");
    assert_eq!(cache.filtered_len(), 1);
    assert_eq!(cache.filtered_entry_at(0).name, "beta.ogg");

    // Clearing the filter shows everything again.
    cache.update_filter("");
    assert_eq!(cache.filtered_len(), 3);

    cache.update_filter("nothing-matches");
    assert_eq!(cache.filtered_len(), 0);
}

#[test]
fn apply_error_keeps_message_and_empties_listing() {
    let mut cache = DirCache::new();
    cache.apply_error("/gone", false, "Error reading directory: denied".to_string());
    assert_eq!(cache.filtered_len(), 0);
    assert_eq!(
        cache.error.as_deref(),
        Some("Error reading directory: denied")
    );
}

#[test]
fn picker_open_invalidates_cache() {
    let mut picker = FilePicker::new("Select Ready Check Sound".to_string(), "/s".to_string());
    assert!(!picker.is_open);
    picker.cache.apply_listing("/s", false, &vec![raw("/s/a.wav", "a.wav", false)]);
    picker.filter_text = "a".to_string();

    picker.open();
    assert!(picker.is_open);
    assert_eq!(picker.filter_text, "");
    assert!(picker.cache.needs_refresh("/s", false));
}
