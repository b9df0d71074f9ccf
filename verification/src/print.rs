//! The listing as text: one label per entry, laid out as lines or as a
//! grid, and the messages of the program.

use vstd::prelude::*;
use crate::arguments::{listed, Arguments};
use crate::entries::formating::{
    display_name,
    format_entry_name,
    label,
    order_entries,
    ordered,
    shown_name,
};
use crate::entries::metadata::{date_field, permissions_field, read_metadata, size_field};
use crate::entries::types::Entry;
use crate::grid::{
    add_cell,
    columns_text,
    grid_cells,
    grid_display,
    grid_is_plain,
    grid_spacing,
    new_grid,
};
use crate::style::{styled, styled_len, Color, Format};
use crate::text::{push_spaces, spaces};

verus! {

/// The number of characters that styling adds to a label.
pub const ASCII_FORMATING_CHARS: usize = 11;

/// The number of spaces between two columns of the grid.
pub const SPACING: u16 = 2;

/// The width that is taken where the terminal's is not known.
pub const DEFAULT_WIDTH: u16 = 50;

/// The width of the terminal from which the help text is a table.
pub const TABLE_WIDTH: u16 = 61;

/// The colour of an error's description.
pub open spec fn error_color() -> Color {
    Color::Red
}

/// The colour of the fields of an entry.
pub open spec fn arguments_color() -> Color {
    Color::White
}

/// A field as it is drawn: dimmed.
pub open spec fn dimmed(text: Seq<char>) -> Seq<char> {
    styled(text, arguments_color(), Format::Darker)
}

/// What parts a field from the label.
pub open spec fn separator() -> Seq<char> {
    seq![' ', '│', ' ']
}

/// A field before the label: nothing where the field is empty, else the
/// field and the separator, dimmed.
pub open spec fn leading(field: Seq<char>) -> Seq<char> {
    if field.len() == 0 {
        Seq::empty()
    } else {
        dimmed(field + separator())
    }
}

/// A field behind the label: nothing where the field is empty, else the
/// separator and the field, dimmed.
pub open spec fn trailing(field: Seq<char>) -> Seq<char> {
    if field.len() == 0 {
        Seq::empty()
    } else {
        dimmed(separator() + field)
    }
}

/// The width of the widest shown name of a listing; 0 for an empty one.
pub open spec fn widest(entries: Seq<Entry>) -> nat
    decreases entries.len(),
{
    if entries.len() == 0 {
        0
    } else {
        let before = widest(entries.drop_last());
        let width = display_name(entries.last()).len();
        if width > before {
            width
        } else {
            before
        }
    }
}

/// The number of spaces that fill a shown name up to `width`.
pub open spec fn padding(entry: Entry, width: nat) -> nat {
    if width >= display_name(entry).len() {
        (width - display_name(entry).len()) as nat
    } else {
        0
    }
}

/// The line of an entry with its fields: permissions, label, size, date.
/// The label is filled up to `width`, so that the fields behind it align.
pub open spec fn field_line(entry: Entry, flags: Arguments, width: nat) -> Seq<char> {
    leading(permissions_field(entry, flags)) + label(entry) + spaces(padding(entry, width))
        + trailing(size_field(entry, flags)) + trailing(date_field(entry, flags))
}

/// Whether a configuration asks for a field.
pub open spec fn shows_fields(flags: Arguments) -> bool {
    flags.date || flags.size || flags.perm
}

/// Whether a configuration lists one entry per line.
pub open spec fn in_lines(flags: Arguments) -> bool {
    shows_fields(flags) || flags.force_print_as_lines
}

/// The lines of a listing with fields, each filled up to `width`.
pub open spec fn field_lines(entries: Seq<Entry>, flags: Arguments, width: nat) -> Seq<Seq<char>> {
    Seq::new(entries.len(), |i: int| field_line(entries[i], flags, width))
}

/// The labels of a listing.
pub open spec fn labels(entries: Seq<Entry>) -> Seq<Seq<char>> {
    Seq::new(entries.len(), |i: int| label(entries[i]))
}

/// The texts of a listing: the lines with their fields where a field is
/// asked for, else the labels.
pub open spec fn entry_texts(entries: Seq<Entry>, flags: Arguments) -> Seq<Seq<char>> {
    if shows_fields(flags) {
        field_lines(entries, flags, widest(entries))
    } else {
        labels(entries)
    }
}

/// Texts one below the other, each with a line feed behind it.
pub open spec fn lines_text(lines: Seq<Seq<char>>) -> Seq<char>
    decreases lines.len(),
{
    if lines.len() == 0 {
        Seq::empty()
    } else {
        lines_text(lines.drop_last()) + lines.last() + seq!['\n']
    }
}

/// The number of columns of the grid: as many cells of the widest name and
/// the spacing as fit into the width, and one where none fits.
pub open spec fn column_count(width: nat, higher_len: nat) -> nat {
    let fit = width / (higher_len + SPACING as nat);
    if fit == 0 {
        1
    } else {
        fit
    }
}

/// The width that is laid out for: the terminal's, or the default.
pub open spec fn layout_width(width: Option<u16>) -> nat {
    match width {
        Some(known) => known as nat,
        None => DEFAULT_WIDTH as nat,
    }
}

/// One cell of the even grid: the label, filled up to `width`.
pub open spec fn cell(entry: Entry, width: nat) -> Seq<char> {
    label(entry) + spaces(padding(entry, width))
}

/// What stands behind the cell at `index` of `count` cells: a line feed
/// behind the last cell of a row and behind the last cell of all, else the
/// spacing.
pub open spec fn cell_end(index: int, count: nat, columns: nat) -> Seq<char> {
    if (index + 1) % (columns as int) == 0 || index + 1 == count {
        seq!['\n']
    } else {
        spaces(SPACING as nat)
    }
}

/// The first `upto` cells of the even grid of a listing: the entries from
/// left to right, a new row after every `columns` of them, every cell as
/// wide as the widest name.
pub open spec fn even_grid(entries: Seq<Entry>, upto: int, columns: nat) -> Seq<char>
    decreases upto,
{
    if upto <= 0 {
        Seq::empty()
    } else {
        even_grid(entries, upto - 1, columns) + cell(entries[upto - 1], widest(entries))
            + cell_end(upto - 1, entries.len(), columns)
    }
}

/// The notice for a directory without entries.
pub open spec fn empty_notice() -> Seq<char> {
    "This directory is empty\n"@
}

/// The entries of a listing: those that the configuration lists, ordered
/// unless it says otherwise.
pub open spec fn shown_entries(flags: Arguments, entries: Seq<Entry>) -> Seq<Entry> {
    if flags.no_order {
        listed(flags, entries)
    } else {
        ordered(listed(flags, entries))
    }
}

/// What `printer` returns.
pub open spec fn listing(flags: Arguments, entries: Seq<Entry>, width: Option<u16>) -> Seq<char> {
    let shown = shown_entries(flags, entries);
    if shown.len() == 0 {
        empty_notice()
    } else if in_lines(flags) {
        lines_text(entry_texts(shown, flags))
    } else {
        grid_display(
            entry_texts(shown, flags),
            SPACING as nat,
            column_count(layout_width(width), widest(shown)),
        )
    }
}

/// The line that reports an error: the message, a colon, and the
/// description in bold red.
pub open spec fn error_line(message: Seq<char>, description: Seq<char>) -> Seq<char> {
    message + seq![':', ' '] + styled(description, error_color(), Format::Bold)
}

/// The first line of the help text: how the program is called.
pub open spec fn usage_line() -> Seq<char> {
    "How to use: lis ["@ + styled("DIRECTORY"@, Color::Blue, Format::Bold) + "](Optional) ["@
        + styled("ARGUMENTS"@, Color::Blue, Format::Bold) + "](Optional)"@
}

/// The options as a table, for a terminal that is wide enough.
pub open spec fn help_table() -> Seq<Seq<char>> {
    seq![
        "╭───────────────┬─────┬─────────────────────────────────────╮"@,
        "│   Argument    │ Abr │             Function                │"@,
        "├───────────────┼─────┼─────────────────────────────────────┤"@,
        "│ --help        │ -h  │ Explain the program use             │"@,
        "│ --date        │ -d  │ Show the last mod date of the files │"@,
        "│ --lines       │ -l  │ Force to print the files in lines   │"@,
        "│ --no-order    │ -no │ Print the files without ordering    │"@,
        "│ --permissions │ -p  │ Shows the files permissions         │"@,
        "│ --size        │ -s  │ Shows the files size                │"@,
        "│ --show-hidden │ -sh │ Shows the hidden files              │"@,
        "│ --all         │ -a  │ Actives all the params              │"@,
        "│ --version     │ -v  │ Prints the program version and quit │"@,
        "╰───────────────┴─────┴─────────────────────────────────────╯"@,
    ]
}

/// The options as a list, for a narrow terminal.
pub open spec fn help_list() -> Seq<Seq<char>> {
    seq![
        "Arguments:"@,
        "--help        │ -h  │ Explain the program use"@,
        "--date        │ -d  │ Show the last mod date of the files"@,
        "--lines       │ -l  │ Force to print the files in lines"@,
        "--no-order    │ -no │ Print the files without ordering"@,
        "--permissions │ -p  │ Shows the files permissions"@,
        "--size        │ -s  │ Shows the files size"@,
        "--show-hidden │ -sh │ Shows the hidden files"@,
        "--all         │ -a  │ Actives all the params"@,
        "--version     │ -v  │ Prints the program version and quit"@,
    ]
}

/// Whether the help text is a table: the terminal's width is known and is
/// at least `TABLE_WIDTH`.
pub open spec fn fits_table(width: Option<u16>) -> bool {
    width is Some && width->0 >= TABLE_WIDTH
}

/// The lines of the help text.
pub open spec fn help_lines(width: Option<u16>) -> Seq<Seq<char>> {
    seq![usage_line()] + if fits_table(width) {
        help_table()
    } else {
        help_list()
    }
}

/// The line that names the version.
pub open spec fn version_line() -> Seq<char> {
    "Version: T0.2.3"@
}

/// Puts a line behind the others.
fn push_line(lines: &mut Vec<String>, text: &str)
    ensures
        final(lines).deep_view() == old(lines).deep_view().push(text@),
{
    lines.push(String::from_str(text));
    assert(lines.deep_view() =~= old(lines).deep_view().push(text@));
}

/// Renders the help text, line by line: how the program is called, and its
/// options, as a table where the terminal is wide enough for it.
pub fn helper(width: Option<u16>) -> (lines: Vec<String>)
    ensures
        lines.deep_view() == help_lines(width),
{
    let directory = crate::style::format("DIRECTORY", Color::Blue, Format::Bold);
    let arguments = crate::style::format("ARGUMENTS", Color::Blue, Format::Bold);
    let mut usage = String::from_str("How to use: lis [");
    usage.append(directory.as_str());
    usage.append("](Optional) [");
    usage.append(arguments.as_str());
    usage.append("](Optional)");
    let mut lines: Vec<String> = Vec::new();
    push_line(&mut lines, usage.as_str());
    let width: u16 = match width {
        Some(known) => known,
        None => 1,
    };
    if width >= TABLE_WIDTH {
        push_line(&mut lines, "╭───────────────┬─────┬─────────────────────────────────────╮");
        push_line(&mut lines, "│   Argument    │ Abr │             Function                │");
        push_line(&mut lines, "├───────────────┼─────┼─────────────────────────────────────┤");
        push_line(&mut lines, "│ --help        │ -h  │ Explain the program use             │");
        push_line(&mut lines, "│ --date        │ -d  │ Show the last mod date of the files │");
        push_line(&mut lines, "│ --lines       │ -l  │ Force to print the files in lines   │");
        push_line(&mut lines, "│ --no-order    │ -no │ Print the files without ordering    │");
        push_line(&mut lines, "│ --permissions │ -p  │ Shows the files permissions         │");
        push_line(&mut lines, "│ --size        │ -s  │ Shows the files size                │");
        push_line(&mut lines, "│ --show-hidden │ -sh │ Shows the hidden files              │");
        push_line(&mut lines, "│ --all         │ -a  │ Actives all the params              │");
        push_line(&mut lines, "│ --version     │ -v  │ Prints the program version and quit │");
        push_line(&mut lines, "╰───────────────┴─────┴─────────────────────────────────────╯");
    } else {
        push_line(&mut lines, "Arguments:");
        push_line(&mut lines, "--help        │ -h  │ Explain the program use");
        push_line(&mut lines, "--date        │ -d  │ Show the last mod date of the files");
        push_line(&mut lines, "--lines       │ -l  │ Force to print the files in lines");
        push_line(&mut lines, "--no-order    │ -no │ Print the files without ordering");
        push_line(&mut lines, "--permissions │ -p  │ Shows the files permissions");
        push_line(&mut lines, "--size        │ -s  │ Shows the files size");
        push_line(&mut lines, "--show-hidden │ -sh │ Shows the hidden files");
        push_line(&mut lines, "--all         │ -a  │ Actives all the params");
        push_line(&mut lines, "--version     │ -v  │ Prints the program version and quit");
    }
    assert(lines.deep_view() =~= help_lines(Some(width)));
    lines
}

/// Renders the line that names the version.
pub fn version() -> (line: String)
    ensures
        line@ == version_line(),
{
    String::from_str("Version: T0.2.3")
}

/// Renders the line that reports an error.
pub fn error(error_message: &str, error_description: &str) -> (line: String)
    ensures
        line@ == error_line(error_message@, error_description@),
{
    proof {
        reveal_strlit(": ");
    }
    let description = crate::style::format(error_description, Color::Red, Format::Bold);
    let mut line = String::from_str(error_message);
    line.append(": ");
    line.append(description.as_str());
    assert(line@ =~= error_line(error_message@, error_description@));
    line
}

/// Puts each text on a line of its own.
pub fn print_entries_in_lines(entries: &Vec<String>) -> (out: String)
    ensures
        out@ == lines_text(entries.deep_view()),
{
    let ghost lines = entries.deep_view();
    let mut out = String::new();
    let mut i: usize = 0;
    assert(lines.take(0) =~= Seq::<Seq<char>>::empty());
    while i < entries.len()
        invariant
            i <= entries.len(),
            lines == entries.deep_view(),
            out@ == lines_text(lines.take(i as int)),
        decreases entries.len() - i,
    {
        proof {
            reveal_strlit("\n");
            assert(lines.take(i + 1).drop_last() =~= lines.take(i as int));
            assert(lines.take(i + 1).last() == entries[i as int]@);
        }
        out.append(entries[i].as_str());
        out.append("\n");
        i = i + 1;
    }
    assert(lines.take(entries.len() as int) =~= lines);
    out
}

/// The number of columns of the grid for a terminal width and the width of
/// the widest name.
pub fn columns_for(width: u16, higher_len: usize) -> (columns: u16)
    ensures
        columns == column_count(width as nat, higher_len as nat),
        columns > 0,
{
    if higher_len >= width as usize {
        assert(width as nat / (higher_len as nat + SPACING as nat) == 0) by (nonlinear_arith)
            requires
                higher_len >= width,
                SPACING == 2,
        ;
        1
    } else {
        let fit: usize = width as usize / (higher_len + SPACING as usize);
        if fit == 0 {
            1
        } else {
            fit as u16
        }
    }
}

/// Lays the texts out as a grid that fits the terminal: as many columns as
/// the widest name allows, the texts from left to right and row by row.
pub fn print_entries_in_columns(higher_len: usize, entries: &Vec<String>, width: Option<u16>) -> (out:
    String)
    ensures
        out@ == grid_display(
            entries.deep_view(),
            SPACING as nat,
            column_count(layout_width(width), higher_len as nat),
        ),
{
    let width: u16 = match width {
        Some(known) => known,
        None => DEFAULT_WIDTH,
    };
    let ghost cells = entries.deep_view();
    let mut grid = new_grid(SPACING);
    let mut i: usize = 0;
    assert(cells.take(0) =~= Seq::<Seq<char>>::empty());
    while i < entries.len()
        invariant
            i <= entries.len(),
            cells == entries.deep_view(),
            grid_is_plain(grid),
            grid_cells(grid) == cells.take(i as int),
            grid_spacing(grid) == SPACING,
        decreases entries.len() - i,
    {
        add_cell(&mut grid, entries[i].as_str());
        assert(cells.take(i + 1) =~= cells.take(i as int).push(entries[i as int]@));
        i = i + 1;
    }
    assert(cells.take(entries.len() as int) =~= cells);
    columns_text(&grid, columns_for(width, higher_len))
}

/// Renders the lines of a listing with the fields that are asked for:
/// permissions before the label, size and date behind it, the label filled
/// up to `higher_len`.
pub fn print_files(entries: &Vec<Entry>, arguments: &Arguments, higher_len: usize) -> (lines: Vec<
    String,
>)
    ensures
        lines.deep_view() == field_lines(entries@, *arguments, higher_len as nat),
{
    let mut lines: Vec<String> = Vec::new();
    let mut i: usize = 0;
    while i < entries.len()
        invariant
            i <= entries.len(),
            lines.len() == i,
            forall|j: int|
                0 <= j < i ==> #[trigger] lines[j]@ == field_line(
                    entries[j],
                    *arguments,
                    higher_len as nat,
                ),
        decreases entries.len() - i,
    {
        let line = entry_line(&entries[i], arguments, higher_len);
        lines.push(line);
        i = i + 1;
    }
    assert(lines.deep_view() =~= field_lines(entries@, *arguments, higher_len as nat));
    lines
}

/// Renders a field that stands before the label.
pub fn leading_field(field: &str) -> (out: String)
    ensures
        out@ == leading(field@),
{
    if field.is_empty() {
        return String::new();
    }
    proof {
        reveal_strlit(" │ ");
    }
    let mut text = String::from_str(field);
    text.append(" │ ");
    assert(text@ =~= field@ + separator());
    crate::style::format(text.as_str(), Color::White, Format::Darker)
}

/// Renders a field that stands behind the label.
pub fn trailing_field(field: &str) -> (out: String)
    ensures
        out@ == trailing(field@),
{
    if field.is_empty() {
        return String::new();
    }
    proof {
        reveal_strlit(" │ ");
    }
    let mut text = String::from_str(" │ ");
    text.append(field);
    assert(text@ =~= separator() + field@);
    crate::style::format(text.as_str(), Color::White, Format::Darker)
}

/// Renders the line of one entry with its fields.
pub fn entry_line(entry: &Entry, arguments: &Arguments, higher_len: usize) -> (line: String)
    ensures
        line@ == field_line(*entry, *arguments, higher_len as nat),
{
    let fields = read_metadata(entry, arguments);
    let name = format_entry_name(entry);
    let name_len: usize = shown_name(entry).as_str().unicode_len();
    let fill: usize = if higher_len > name_len {
        higher_len - name_len
    } else {
        0
    };
    let size = trailing_field(fields[2].as_str());
    let date = trailing_field(fields[0].as_str());
    let mut line = leading_field(fields[1].as_str());
    line.append(name.as_str());
    push_spaces(&mut line, fill);
    line.append(size.as_str());
    line.append(date.as_str());
    line
}

/// Measures the widest shown name of a listing.
pub fn widest_name(entries: &Vec<Entry>) -> (width: usize)
    ensures
        width == widest(entries@),
{
    let mut width: usize = 0;
    let mut i: usize = 0;
    assert(entries@.take(0) =~= Seq::<Entry>::empty());
    while i < entries.len()
        invariant
            i <= entries.len(),
            width == widest(entries@.take(i as int)),
        decreases entries.len() - i,
    {
        proof {
            assert(entries@.take(i + 1).drop_last() =~= entries@.take(i as int));
            assert(entries@.take(i + 1).last() == entries[i as int]);
        }
        let name_len: usize = shown_name(&entries[i]).as_str().unicode_len();
        if name_len > width {
            width = name_len;
        }
        i = i + 1;
    }
    assert(entries@.take(entries.len() as int) =~= entries@);
    width
}

/// Lays the labels of a listing out as a grid of even columns: every cell
/// is filled up to the widest name, the cells of a row stand `SPACING`
/// spaces apart, and a row ends after as many cells as fit the terminal.
pub fn print_files_in_columns(entries: &Vec<Entry>, width: Option<u16>) -> (out: String)
    ensures
        out@ == even_grid(
            entries@,
            entries@.len() as int,
            column_count(layout_width(width), widest(entries@)),
        ),
{
    let width: u16 = match width {
        Some(known) => known,
        None => DEFAULT_WIDTH,
    };
    let higher_len = widest_name(entries);
    let num_cols: usize = columns_for(width, higher_len) as usize;
    let mut out = String::new();
    let mut i: usize = 0;
    while i < entries.len()
        invariant
            i <= entries.len(),
            num_cols > 0,
            higher_len == widest(entries@),
            out@ == even_grid(entries@, i as int, num_cols as nat),
        decreases entries.len() - i,
    {
        proof {
            reveal_strlit("\n");
        }
        let name = format_entry_name(&entries[i]);
        let name_len: usize = shown_name(&entries[i]).as_str().unicode_len();
        let fill: usize = if higher_len > name_len {
            higher_len - name_len
        } else {
            0
        };
        out.append(name.as_str());
        push_spaces(&mut out, fill);
        if (i + 1) % num_cols == 0 || i + 1 == entries.len() {
            out.append("\n");
        } else {
            push_spaces(&mut out, SPACING as usize);
        }
        i = i + 1;
        assert(out@ =~= even_grid(entries@, i as int, num_cols as nat));
    }
    out
}

/// Renders the texts of a listing and measures its widest name: the labels
/// of the entries, or their lines where a field is asked for.
pub fn format_entries_names(entries: &Vec<Entry>, arguments: &Arguments) -> (names: (
    usize,
    Vec<String>,
))
    ensures
        names.0 == widest(entries@),
        names.1.deep_view() == entry_texts(entries@, *arguments),
{
    let mut entries_names: Vec<String> = Vec::new();
    let mut higher_len: usize = 0;
    let mut i: usize = 0;
    assert(entries@.take(0) =~= Seq::<Entry>::empty());
    while i < entries.len()
        invariant
            i <= entries.len(),
            entries_names.len() == i,
            higher_len == widest(entries@.take(i as int)),
            forall|j: int| 0 <= j < i ==> #[trigger] entries_names[j]@ == label(entries[j]),
        decreases entries.len() - i,
    {
        let entry_name = format_entry_name(&entries[i]);
        proof {
            let entry = entries[i as int];
            styled_len(
                display_name(entry),
                crate::entries::formating::label_color(entry),
                crate::entries::formating::label_format(entry),
            );
            assert(entries@.take(i + 1).drop_last() =~= entries@.take(i as int));
            assert(entries@.take(i + 1).last() == entry);
        }
        let entry_name_len: usize = entry_name.as_str().unicode_len() - ASCII_FORMATING_CHARS;
        if entry_name_len > higher_len {
            higher_len = entry_name_len;
        }
        entries_names.push(entry_name);
        i = i + 1;
    }
    assert(entries@.take(entries.len() as int) =~= entries@);
    if arguments.date() || arguments.size() || arguments.permissions() {
        (higher_len, print_files(entries, arguments, higher_len))
    } else {
        assert(entries_names.deep_view() =~= labels(entries@));
        (higher_len, entries_names)
    }
}

/// Renders the listing of a directory: the notice where no entry is
/// listed, else the entries that the configuration lists, ordered unless it
/// says otherwise, one per line where a field or the line layout is asked
/// for, and as a grid that fits the terminal width where not.
pub fn printer(arguments: &Arguments, entries: Vec<Entry>, width: Option<u16>) -> (out: String)
    ensures
        out@ == listing(*arguments, entries@, width),
{
    let entries = arguments.analyze_entries(entries);
    let entries = if arguments.no_order() {
        entries
    } else {
        order_entries(entries)
    };
    if entries.len() == 0 {
        return String::from_str("This directory is empty\n");
    }
    let (higher_len, entries_names) = format_entries_names(&entries, arguments);
    if arguments.size() || arguments.permissions() || arguments.date()
        || arguments.force_print_as_lines() {
        print_entries_in_lines(&entries_names)
    } else {
        print_entries_in_columns(higher_len, &entries_names, width)
    }
}

/// The widest name of a listing is as wide as one of its names and no
/// narrower than any.
pub proof fn widest_is_the_maximum(entries: Seq<Entry>)
    ensures
        forall|i: int|
            0 <= i < entries.len() ==> display_name(#[trigger] entries[i]).len() <= widest(
                entries,
            ),
        entries.len() > 0 ==> exists|i: int|
            0 <= i < entries.len() && display_name(#[trigger] entries[i]).len() == widest(
                entries,
            ),
    decreases entries.len(),
{
    if entries.len() > 0 {
        let front = entries.drop_last();
        widest_is_the_maximum(front);
        assert forall|i: int| 0 <= i < entries.len() implies display_name(
            #[trigger] entries[i],
        ).len() <= widest(entries) by {
            if i < front.len() {
                assert(entries[i] == front[i]);
            }
        }
        if display_name(entries.last()).len() > widest(front) || front.len() == 0 {
            assert(display_name(entries[entries.len() - 1]).len() == widest(entries));
        } else {
            let i = choose|i: int|
                0 <= i < front.len() && display_name(#[trigger] front[i]).len() == widest(front);
            assert(display_name(entries[i]).len() == widest(entries));
        }
    }
}

/// The cells of the even grid are all of one width: that of the widest
/// name and its styling.
pub proof fn cells_are_even(entries: Seq<Entry>, i: int)
    requires
        0 <= i < entries.len(),
    ensures
        cell(entries[i], widest(entries)).len() == widest(entries) + crate::style::styling_width(),
{
    let entry = entries[i];
    widest_is_the_maximum(entries);
    styled_len(
        display_name(entry),
        crate::entries::formating::label_color(entry),
        crate::entries::formating::label_format(entry),
    );
}

} // verus!
