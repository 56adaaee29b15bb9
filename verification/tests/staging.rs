use droppa::staging::{aggregate_size, display_name, find_extension, File, StagingStore};

#[test]
fn short_names_are_displayed_whole() {
    assert_eq!(display_name(""), "");
    assert_eq!(display_name("report.pdf"), "report.pdf");
    assert_eq!(display_name("123456789012345678901234567890"), "123456789012345678901234567890");
    assert_eq!(display_name("12345678901234567890123456.txt"), "12345678901234567890123456.txt");
}

#[test]
fn long_names_keep_their_extension() {
    assert_eq!(
        display_name("a_very_long_file_name_that_goes_on.txt"),
        "a_very_long_file_name[...].txt"
    );
    assert_eq!(display_name("a_very_long_file_name_that_goes_on.txt").chars().count(), 30);
    assert_eq!(
        display_name("1234567890123456789012345678901"),
        "1234567890123456789012345[...]"
    );
    assert_eq!(
        display_name("archive.of.many.parts.and.then.some.tar.gz"),
        "archive.of.many.parts.[...].gz"
    );
}

#[test]
fn long_extensions_leave_no_room_for_the_name() {
    assert_eq!(
        display_name("name.an_extension_of_more_than_25_chars"),
        "[...].an_extension_of_more_than_25_chars"
    );
    assert_eq!(
        display_name("abcdef.123456789012345678901234"),
        "[...].123456789012345678901234"
    );
    assert_eq!(
        display_name("abcdefg.12345678901234567890123"),
        "a[...].12345678901234567890123"
    );
}

#[test]
fn names_are_measured_in_characters() {
    let name = "\u{e9}".repeat(31) + ".txt";
    let shown = display_name(&name);
    assert_eq!(shown, "\u{e9}".repeat(21) + "[...].txt");
    assert_eq!(display_name(&"\u{e9}".repeat(30)), "\u{e9}".repeat(30));
}

#[test]
fn the_extension_starts_at_the_last_full_stop() {
    let chars: Vec<char> = "a.b.c".chars().collect();
    assert_eq!(find_extension(&chars), 3);
    let chars: Vec<char> = "abc".chars().collect();
    assert_eq!(find_extension(&chars), 3);
    let chars: Vec<char> = ".abc".chars().collect();
    assert_eq!(find_extension(&chars), 0);
    let chars: Vec<char> = "abc.".chars().collect();
    assert_eq!(find_extension(&chars), 3);
    assert_eq!(find_extension(&Vec::new()), 0);
}

#[test]
fn files_keep_their_full_name() {
    let file = File::new("a_very_long_file_name_that_goes_on.txt".to_string(), 3, vec![1, 2, 3]);
    assert_eq!(file.name, "a_very_long_file_name_that_goes_on.txt");
    assert_eq!(file.display_name(), "a_very_long_file_name[...].txt");
    assert_eq!(file.size, 3);
    assert_eq!(file.bytes, vec![1, 2, 3]);
}

#[test]
fn the_store_keeps_files_in_order() {
    let mut store = StagingStore::new();
    assert_eq!(store.len(), 0);
    assert_eq!(store.snapshot().len(), 0);
    store.push(File::new("a".to_string(), 1, vec![1]));
    store.push(File::new("b".to_string(), 2, vec![2, 2]));
    let snapshot = store.snapshot();
    store.push(File::new("c".to_string(), 3, vec![3, 3, 3]));
    assert_eq!(store.len(), 3);
    assert_eq!(snapshot.len(), 2);
    assert_eq!(snapshot[0].name, "a");
    assert_eq!(snapshot[1].name, "b");
    assert_eq!(snapshot[1].bytes, vec![2, 2]);
    let later = store.snapshot();
    assert_eq!(later.len(), 3);
    assert_eq!(later[2].name, "c");
    assert_eq!(aggregate_size(&snapshot), 3);
    assert_eq!(aggregate_size(&later), 6);
}

#[test]
fn the_aggregate_size_saturates() {
    let mut store = StagingStore::new();
    store.push(File::new("a".to_string(), usize::MAX - 1, Vec::new()));
    store.push(File::new("b".to_string(), 5, Vec::new()));
    assert_eq!(aggregate_size(&store.snapshot()), usize::MAX);
    assert_eq!(aggregate_size(&Vec::new()), 0);
}
