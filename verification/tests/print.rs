use lis::arguments::Arguments;
use lis::entries::types::{Entry, FileKind, Metadata};
use lis::print::{
    columns_for, entry_line, error, format_entries_names, helper, leading_field,
    print_entries_in_columns, print_entries_in_lines, print_files, print_files_in_columns,
    printer, trailing_field, version, widest_name,
};
use lis::terminal_info::get_terminal_size;

fn entry(name: &str, file_type: FileKind, mode: u32) -> Entry {
    Entry {
        name: name.to_string(),
        file_type: Some(file_type),
        metadata: Some(Metadata { mode, size: 1536, modified: 1_672_531_200 }),
    }
}

fn scenario() -> Vec<Entry> {
    vec![
        entry(".git", FileKind::Directory, 0o755),
        entry("README", FileKind::File, 0o644),
        entry("run.sh", FileKind::File, 0o755),
        entry("link", FileKind::Symlink, 0o777),
    ]
}

fn strings(texts: &[&str]) -> Vec<String> {
    texts.iter().map(|text| text.to_string()).collect()
}

fn plain(text: &str) -> String {
    let mut out = String::new();
    let mut letters = text.chars();
    while let Some(letter) = letters.next() {
        if letter == '\x1b' {
            for skipped in letters.by_ref() {
                if skipped == 'm' {
                    break;
                }
            }
        } else {
            out.push(letter);
        }
    }
    out
}

#[test]
fn eighty_columns_take_six_labels_of_width_ten() {
    assert_eq!(columns_for(80, 10), 6);
}

#[test]
fn the_number_of_columns_is_the_width_by_the_cell() {
    assert_eq!(columns_for(50, 10), 4);
    assert_eq!(columns_for(50, 23), 2);
    assert_eq!(columns_for(50, 24), 1);
    assert_eq!(columns_for(50, 0), 25);
    assert_eq!(columns_for(u16::MAX, 0), 32_767);
    assert_eq!(columns_for(12, 10), 1);
}

#[test]
fn a_label_wider_than_the_terminal_has_a_column_of_its_own() {
    assert_eq!(columns_for(11, 10), 1);
    assert_eq!(columns_for(10, 10), 1);
    assert_eq!(columns_for(5, 10), 1);
    assert_eq!(columns_for(0, 10), 1);
    assert_eq!(columns_for(0, 0), 1);
    assert_eq!(columns_for(80, usize::MAX), 1);
    assert_eq!(columns_for(80, usize::MAX - 1), 1);
}

#[test]
fn an_empty_directory_gives_the_notice_alone() {
    assert_eq!(printer(&Arguments::default(), Vec::new(), Some(80)), "This directory is empty\n");
    let all = Arguments { date: true, perm: true, size: true, ..Arguments::default() };
    assert_eq!(printer(&all, Vec::new(), None), "This directory is empty\n");
    let unordered = Arguments { no_order: true, ..Arguments::default() };
    assert_eq!(printer(&unordered, Vec::new(), None), "This directory is empty\n");
}

#[test]
fn a_directory_of_hidden_entries_alone_gives_the_notice() {
    let flags = Arguments::default();
    let entries = vec![entry(".git", FileKind::Directory, 0o755)];
    assert_eq!(printer(&flags, entries, Some(80)), "This directory is empty\n");
}

#[test]
fn the_scenario_without_hidden_entries() {
    let flags = Arguments { force_print_as_lines: true, ..Arguments::default() };
    let out = printer(&flags, scenario(), Some(80));
    assert_eq!(plain(&out), "link@\nrun.sh\nREADME\n");
    assert_eq!(out, "\x1b[1;94mlink@\x1b[0m\n\x1b[1;32mrun.sh\x1b[0m\n\x1b[0;97mREADME\x1b[0m\n");
}

#[test]
fn the_scenario_with_hidden_entries() {
    let flags =
        Arguments { show_hidden: true, force_print_as_lines: true, ..Arguments::default() };
    let out = printer(&flags, scenario(), Some(80));
    assert_eq!(plain(&out), "link@\nrun.sh\nREADME\n.git/\n");
}

#[test]
fn hidden_entries_are_left_out_without_ordering_too() {
    let flags = Arguments { no_order: true, force_print_as_lines: true, ..Arguments::default() };
    let out = printer(&flags, scenario(), Some(80));
    assert_eq!(plain(&out), "README\nrun.sh\nlink@\n");
}

#[test]
fn no_order_keeps_the_order_of_the_directory() {
    let flags = Arguments {
        show_hidden: true,
        no_order: true,
        force_print_as_lines: true,
        ..Arguments::default()
    };
    let out = printer(&flags, scenario(), Some(80));
    assert_eq!(plain(&out), ".git/\nREADME\nrun.sh\nlink@\n");
}

#[test]
fn the_grid_of_the_scenario() {
    let out = printer(&Arguments::default(), scenario(), Some(80));
    assert_eq!(
        out,
        "\x1b[1;94mlink@\x1b[0m  \x1b[1;32mrun.sh\x1b[0m  \x1b[0;97mREADME\x1b[0m  \n"
    );
}

#[test]
fn the_grid_wraps_after_its_columns() {
    let flags = Arguments { no_order: true, ..Arguments::default() };
    let names = ["aaaa", "b", "cc", "ddd", "e"];
    let entries: Vec<Entry> =
        names.iter().map(|name| entry(name, FileKind::File, 0o644)).collect();
    // Cells of 4 + 2 columns: 13 columns take two of them.
    let out = printer(&flags, entries.clone(), Some(13));
    assert_eq!(plain(&out), "aaaa  b\ncc    ddd\ne     \n");
    let out = printer(&flags, entries.clone(), Some(18));
    assert_eq!(plain(&out), "aaaa  b  cc\nddd   e  \n");
    let out = printer(&flags, entries.clone(), Some(3));
    assert_eq!(plain(&out), "aaaa\nb\ncc\nddd\ne\n");
    // Without a known width the grid is laid out for 50 columns.
    let out = printer(&flags, entries, None);
    assert_eq!(plain(&out), "aaaa  b  cc  ddd  e  \n");
}

#[test]
fn the_grid_is_what_the_cells_are_in_their_columns() {
    let cells = strings(&["one", "two", "three", "four", "five", "six", "seven"]);
    assert_eq!(
        print_entries_in_columns(5, &cells, Some(21)),
        "one    two   three\nfour   five  six\nseven  \n"
    );
    assert_eq!(print_entries_in_columns(5, &cells, Some(7)), "one\ntwo\nthree\nfour\nfive\nsix\nseven\n");
    assert_eq!(print_entries_in_columns(5, &Vec::new(), Some(80)), "");
}

#[test]
fn lines_end_with_a_line_feed_each() {
    assert_eq!(print_entries_in_lines(&strings(&["a", "", "b c"])), "a\n\nb c\n");
    assert_eq!(print_entries_in_lines(&Vec::new()), "");
}

#[test]
fn labels_and_the_widest_name() {
    let (widest, names) = format_entries_names(&scenario(), &Arguments::default());
    assert_eq!(widest, 6);
    assert_eq!(
        names,
        [
            "\x1b[1;34m.git/\x1b[0m",
            "\x1b[0;97mREADME\x1b[0m",
            "\x1b[1;32mrun.sh\x1b[0m",
            "\x1b[1;94mlink@\x1b[0m",
        ]
    );
    assert_eq!(widest_name(&scenario()), 6);
    assert_eq!(widest_name(&Vec::new()), 0);
    assert_eq!(format_entries_names(&Vec::new(), &Arguments::default()), (0, Vec::new()));
}

#[test]
fn the_widest_name_counts_characters() {
    let entries = vec![entry("日本語", FileKind::Directory, 0o755), entry("ab", FileKind::File, 0o644)];
    assert_eq!(widest_name(&entries), 4);
    assert_eq!(format_entries_names(&entries, &Arguments::default()).0, 4);
}

#[test]
fn lines_hold_permissions_label_size_and_date() {
    let flags = Arguments { date: true, perm: true, size: true, ..Arguments::default() };
    let (widest, lines) = format_entries_names(&scenario(), &flags);
    assert_eq!(widest, 6);
    let shown: Vec<String> = lines.iter().map(|line| plain(line)).collect();
    assert_eq!(
        shown,
        [
            "rwx r-x r-x │ .git/  │ 1.50 KiB │ 01/01/23",
            "rw- r-- r-- │ README │ 1.50 KiB │ 01/01/23",
            "rwx r-x r-x │ run.sh │ 1.50 KiB │ 01/01/23",
            "rwx rwx rwx │ link@  │ 1.50 KiB │ 01/01/23",
        ]
    );
    assert_eq!(
        lines[1],
        "\x1b[2;97mrw- r-- r-- │ \x1b[0m\x1b[0;97mREADME\x1b[0m\x1b[2;97m │ 1.50 KiB\x1b[0m\x1b[2;97m │ 01/01/23\x1b[0m"
    );
    assert_eq!(print_files(&scenario(), &flags, 6), lines);
}

#[test]
fn a_line_holds_only_the_fields_asked_for() {
    let readme = entry("README", FileKind::File, 0o644);
    let size = Arguments { size: true, ..Arguments::default() };
    assert_eq!(plain(&entry_line(&readme, &size, 8)), "README   │ 1.50 KiB");
    let date = Arguments { date: true, ..Arguments::default() };
    assert_eq!(plain(&entry_line(&readme, &date, 6)), "README │ 01/01/23");
    let perm = Arguments { perm: true, ..Arguments::default() };
    assert_eq!(plain(&entry_line(&readme, &perm, 0)), "rw- r-- r-- │ README");
    assert_eq!(plain(&entry_line(&readme, &Arguments::default(), 10)), "README    ");
}

#[test]
fn an_entry_without_metadata_has_a_line_without_fields() {
    let flags = Arguments { date: true, perm: true, size: true, ..Arguments::default() };
    let gone = Entry { name: "gone".to_string(), file_type: Some(FileKind::File), metadata: None };
    assert_eq!(entry_line(&gone, &flags, 4), "\x1b[0;97mgone\x1b[0m");
    let out = printer(&flags, vec![gone, entry("here", FileKind::File, 0o600)], Some(80));
    assert_eq!(plain(&out), "gone\nrw- --- --- │ here │ 1.50 KiB │ 01/01/23\n");
}

#[test]
fn a_field_flag_lists_in_lines() {
    for flags in [
        Arguments { date: true, ..Arguments::default() },
        Arguments { size: true, ..Arguments::default() },
        Arguments { perm: true, ..Arguments::default() },
        Arguments { force_print_as_lines: true, ..Arguments::default() },
    ] {
        let out = printer(&flags, scenario(), Some(200));
        assert_eq!(out.lines().count(), 3);
    }
    let out = printer(&Arguments::default(), scenario(), Some(200));
    assert_eq!(out.lines().count(), 1);
}

#[test]
fn fields_are_dimmed_with_their_separator() {
    assert_eq!(leading_field("rwx"), "\x1b[2;97mrwx │ \x1b[0m");
    assert_eq!(trailing_field("7"), "\x1b[2;97m │ 7\x1b[0m");
    assert_eq!(leading_field(""), "");
    assert_eq!(trailing_field(""), "");
}

#[test]
fn the_even_grid_fills_every_cell() {
    let names = ["aaaa", "b", "cc", "ddd", "e"];
    let entries: Vec<Entry> =
        names.iter().map(|name| entry(name, FileKind::File, 0o644)).collect();
    assert_eq!(plain(&print_files_in_columns(&entries, Some(13))), "aaaa  b   \ncc    ddd \ne   \n");
    assert_eq!(
        plain(&print_files_in_columns(&entries, Some(18))),
        "aaaa  b     cc  \nddd   e   \n"
    );
    assert_eq!(plain(&print_files_in_columns(&entries, Some(1))), "aaaa\nb   \ncc  \nddd \ne   \n");
    assert_eq!(plain(&print_files_in_columns(&entries, None)), "aaaa  b     cc    ddd   e   \n");
    assert_eq!(print_files_in_columns(&Vec::new(), Some(80)), "");
    assert_eq!(
        print_files_in_columns(&entries[..1].to_vec(), Some(80)),
        "\x1b[0;97maaaa\x1b[0m\n"
    );
}

#[test]
fn an_error_is_reported_in_bold_red() {
    assert_eq!(error("Can't read dir", "No such file"), "Can't read dir: \x1b[1;31mNo such file\x1b[0m");
    assert_eq!(error("", ""), ": \x1b[1;31m\x1b[0m");
}

#[test]
fn the_version_line() {
    assert_eq!(version(), "Version: T0.2.3");
}

#[test]
fn a_wide_terminal_gets_the_help_as_a_table() {
    for width in [61, 80, u16::MAX] {
        let lines = helper(Some(width));
        assert_eq!(lines.len(), 14);
        assert_eq!(
            lines[0],
            "How to use: lis [\x1b[1;34mDIRECTORY\x1b[0m](Optional) [\x1b[1;34mARGUMENTS\x1b[0m](Optional)"
        );
        assert_eq!(lines[1], "╭───────────────┬─────┬─────────────────────────────────────╮");
        assert_eq!(lines[4], "│ --help        │ -h  │ Explain the program use             │");
        assert_eq!(lines[12], "│ --version     │ -v  │ Prints the program version and quit │");
        assert_eq!(lines[13], "╰───────────────┴─────┴─────────────────────────────────────╯");
        for line in &lines[1..] {
            assert_eq!(line.chars().count(), 61);
        }
    }
}

#[test]
fn a_narrow_or_unknown_terminal_gets_the_help_as_a_list() {
    for width in [None, Some(0), Some(60)] {
        let lines = helper(width);
        assert_eq!(lines.len(), 11);
        assert!(lines[0].starts_with("How to use: lis ["));
        assert_eq!(lines[1], "Arguments:");
        assert_eq!(lines[2], "--help        │ -h  │ Explain the program use");
        assert_eq!(lines[5], "--no-order    │ -no │ Print the files without ordering");
        assert_eq!(lines[10], "--version     │ -v  │ Prints the program version and quit");
    }
}

#[test]
fn a_window_needs_columns_and_rows() {
    assert_eq!(get_terminal_size(80, 24), Some([80, 24]));
    assert_eq!(get_terminal_size(1, 1), Some([1, 1]));
    assert_eq!(get_terminal_size(0, 24), None);
    assert_eq!(get_terminal_size(80, 0), None);
    assert_eq!(get_terminal_size(0, 0), None);
}
