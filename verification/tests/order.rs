use lis::entries::formating::{order_entries, precedes};
use lis::entries::names::{bytes_precede, name_precedes};
use lis::entries::types::{Entry, FileKind, Metadata};

fn entry(name: &str, file_type: FileKind, mode: u32) -> Entry {
    Entry {
        name: name.to_string(),
        file_type: Some(file_type),
        metadata: Some(Metadata { mode, size: 0, modified: 0 }),
    }
}

fn dir(name: &str) -> Entry {
    entry(name, FileKind::Directory, 0o755)
}

fn link(name: &str) -> Entry {
    entry(name, FileKind::Symlink, 0o777)
}

fn exec(name: &str) -> Entry {
    entry(name, FileKind::File, 0o755)
}

fn file(name: &str) -> Entry {
    entry(name, FileKind::File, 0o644)
}

fn names(entries: &[Entry]) -> Vec<String> {
    entries.iter().map(|entry| entry.name.clone()).collect()
}

#[test]
fn entries_are_ordered_by_priority() {
    let sorted = order_entries(vec![file("README"), exec("run.sh"), link("link"), dir("src")]);
    assert_eq!(names(&sorted), ["src", "link", "run.sh", "README"]);
}

#[test]
fn hidden_entries_follow_all_visible_ones() {
    let sorted = order_entries(vec![
        file(".env"),
        dir(".git"),
        file("zz"),
        exec(".run"),
        link(".link"),
        dir("a"),
    ]);
    assert_eq!(names(&sorted), ["a", "zz", ".git", ".link", ".run", ".env"]);
}

#[test]
fn entries_of_one_priority_are_ordered_by_name() {
    let sorted = order_entries(vec![file("b"), file("a"), file("C"), file("ab"), file("")]);
    assert_eq!(names(&sorted), ["", "C", "a", "ab", "b"]);
    let sorted = order_entries(vec![dir("zeta"), dir("alpha"), file("beta"), dir("Gamma")]);
    assert_eq!(names(&sorted), ["Gamma", "alpha", "zeta", "beta"]);
}

#[test]
fn names_are_compared_byte_by_byte() {
    let sorted = order_entries(vec![file("é"), file("z"), file("e"), file("日本"), file("~")]);
    let mut expected = vec!["é", "z", "e", "日本", "~"];
    expected.sort();
    assert_eq!(names(&sorted), expected);
}

#[test]
fn ordering_agrees_with_a_stable_sort_by_priority_and_name() {
    let mut entries = Vec::new();
    let mut seed: u32 = 17;
    for _ in 0..200 {
        seed = seed.wrapping_mul(1_103_515_245).wrapping_add(12_345);
        let name = format!("{}{}", if seed % 5 == 0 { "." } else { "" }, (seed >> 8) % 40);
        let kind = match (seed >> 4) % 4 {
            0 => FileKind::Directory,
            1 => FileKind::Symlink,
            2 => FileKind::File,
            _ => FileKind::Other,
        };
        let mode = if (seed >> 16) % 2 == 0 { 0o755 } else { 0o644 };
        let mut entry = entry(&name, kind, mode);
        entry.metadata = Some(Metadata { mode, size: entries.len() as u64, modified: 0 });
        entries.push(entry);
    }
    let mut expected = entries.clone();
    expected.sort_by_cached_key(|entry| {
        (lis::entries::formating::entry_priority(entry), entry.name.clone())
    });
    let sorted = order_entries(entries);
    assert_eq!(sorted.len(), 200);
    for (got, want) in sorted.iter().zip(expected.iter()) {
        assert_eq!(got.name, want.name);
        assert_eq!(got.file_type, want.file_type);
        assert_eq!(got.metadata, want.metadata);
    }
}

#[test]
fn equal_entries_keep_their_order() {
    let mut first = file("same");
    first.metadata = Some(Metadata { mode: 0o644, size: 1, modified: 0 });
    let mut second = file("same");
    second.metadata = Some(Metadata { mode: 0o644, size: 2, modified: 0 });
    let mut third = file("same");
    third.metadata = Some(Metadata { mode: 0o644, size: 3, modified: 0 });
    let sorted = order_entries(vec![first, dir("z"), second, file("a"), third]);
    assert_eq!(names(&sorted), ["z", "a", "same", "same", "same"]);
    let sizes: Vec<u64> = sorted[2..].iter().map(|entry| entry.metadata.unwrap().size).collect();
    assert_eq!(sizes, [1, 2, 3]);
}

#[test]
fn ordering_twice_changes_nothing() {
    let once = order_entries(vec![file("b"), dir(".x"), exec("a"), link("m"), dir("d"), file(".f")]);
    let twice = order_entries(once.clone());
    assert_eq!(names(&once), ["d", "m", "a", "b", ".x", ".f"]);
    assert_eq!(names(&twice), names(&once));
}

#[test]
fn an_ordered_listing_comes_back_unchanged() {
    let ordered = vec![dir("a"), dir("b"), link("c"), exec("d"), file("e"), dir(".a"), file(".b")];
    let sorted = order_entries(ordered.clone());
    assert_eq!(names(&sorted), names(&ordered));
}

#[test]
fn directories_precede_files_of_the_same_visibility() {
    let sorted = order_entries(vec![file("a"), dir("z"), file(".a"), dir(".z")]);
    assert_eq!(names(&sorted), ["z", "a", ".z", ".a"]);
}

#[test]
fn nothing_and_one_entry_are_ordered() {
    assert!(order_entries(Vec::new()).is_empty());
    assert_eq!(names(&order_entries(vec![file("only")])), ["only"]);
}

#[test]
fn byte_strings_are_ordered_lexicographically() {
    assert!(bytes_precede(b"", b""));
    assert!(bytes_precede(b"", b"a"));
    assert!(!bytes_precede(b"a", b""));
    assert!(bytes_precede(b"a", b"a"));
    assert!(bytes_precede(b"a", b"ab"));
    assert!(!bytes_precede(b"ab", b"a"));
    assert!(bytes_precede(b"ab", b"b"));
    assert!(!bytes_precede(b"b", b"ab"));
    assert!(bytes_precede(b"Z", b"a"));
    assert!(bytes_precede(&[0x7f], &[0x80]));
    assert!(!bytes_precede(&[0xff], &[0x00, 0xff]));
}

#[test]
fn names_are_ordered_by_their_characters() {
    let names = ["", "a", "ab", "b", "Z", "é", "e\u{301}", "z", "~", "\u{7f}", "\u{80}", "\u{7ff}",
        "\u{800}", "\u{d7ff}", "\u{e000}", "\u{ffff}", "\u{10000}", "\u{10ffff}", "日本", "日本語"];
    for left in names {
        for right in names {
            let by_characters = left.chars().collect::<Vec<char>>() <= right.chars().collect::<Vec<char>>();
            assert_eq!(name_precedes(left, right), by_characters, "{:?} {:?}", left, right);
            assert_eq!(name_precedes(left, right), left <= right);
        }
    }
}

#[test]
fn precedence_looks_at_priority_before_name() {
    assert!(precedes(&dir("z"), &file("a")));
    assert!(!precedes(&file("a"), &dir("z")));
    assert!(precedes(&file("a"), &file("b")));
    assert!(!precedes(&file("b"), &file("a")));
    assert!(precedes(&file("a"), &file("a")));
    assert!(precedes(&file("z"), &dir(".a")));
    assert!(!precedes(&dir(".a"), &file("z")));
}
