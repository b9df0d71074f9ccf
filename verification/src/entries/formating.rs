//! The label of an entry and the order of a listing.

use vstd::prelude::*;
use crate::entries::names::{
    name_precedes,
    text_le,
    text_le_reflexive,
    text_le_total,
    text_le_transitive,
};
use crate::entries::types::{classification, classify, get_entry_type, Entry, FileKind};
use crate::style::{styled, Color, Format};

verus! {

/// The colour of directories.
pub open spec fn directory_color() -> Color {
    Color::Blue
}

/// The colour of symlinks.
pub open spec fn symlink_color() -> Color {
    Color::BrightBlue
}

/// The colour of plain files.
pub open spec fn file_color() -> Color {
    Color::White
}

/// The colour of executable files.
pub open spec fn executable_color() -> Color {
    Color::Green
}

/// The name as it is shown: a directory's with a slash behind it, a
/// symlink's with an at sign, any other as it is.
pub open spec fn display_name(entry: Entry) -> Seq<char> {
    if entry.file_type == Some(FileKind::Directory) {
        entry.name@.push('/')
    } else if entry.file_type == Some(FileKind::Symlink) {
        entry.name@.push('@')
    } else {
        entry.name@
    }
}

/// The colour of an entry's label.
pub open spec fn label_color(entry: Entry) -> Color {
    let class = classification(entry);
    if class.is_directory {
        directory_color()
    } else if class.is_symlink {
        symlink_color()
    } else if class.is_executable {
        executable_color()
    } else {
        file_color()
    }
}

/// The format of an entry's label: bold, but for plain files.
pub open spec fn label_format(entry: Entry) -> Format {
    let class = classification(entry);
    if class.is_directory || class.is_symlink || class.is_executable {
        Format::Bold
    } else {
        Format::Default
    }
}

/// What `format_entry_name` returns: the shown name in the entry's colour
/// and format.
pub open spec fn label(entry: Entry) -> Seq<char> {
    styled(display_name(entry), label_color(entry), label_format(entry))
}

/// The name of an entry as it is shown, without styling.
pub fn shown_name(entry: &Entry) -> (name: String)
    ensures
        name@ == display_name(*entry),
{
    proof {
        reveal_strlit("/");
        reveal_strlit("@");
    }
    let mut name = String::from_str(entry.name.as_str());
    match entry.file_type {
        Some(FileKind::Directory) => {
            name.append("/");
        },
        Some(FileKind::Symlink) => {
            name.append("@");
        },
        _ => {},
    }
    assert(name@ =~= display_name(*entry));
    name
}

/// The colour and the format that the type of an entry calls for.
pub fn label_style(entry: &Entry) -> (style: (Color, Format))
    ensures
        style.0 == label_color(*entry),
        style.1 == label_format(*entry),
{
    let entry_type = get_entry_type(entry);
    if entry_type[0] {
        (Color::Blue, Format::Bold)
    } else if entry_type[1] {
        (Color::BrightBlue, Format::Bold)
    } else if entry_type[2] {
        (Color::Green, Format::Bold)
    } else {
        (Color::White, Format::Default)
    }
}

/// Renders the label of an entry: its shown name, coloured by its type.
pub fn format_entry_name(entry: &Entry) -> (out: String)
    ensures
        out@ == label(*entry),
{
    let entry_name = shown_name(entry);
    let (entry_color, entry_format) = label_style(entry);
    crate::style::format(entry_name.as_str(), entry_color, entry_format)
}

/// The rank of an entry in a listing, 0 to 7.
pub fn entry_priority(entry: &Entry) -> (priority: u8)
    ensures
        priority == classification(*entry).priority,
        priority <= 7,
{
    classify(entry).priority
}

/// The order of a listing: by priority, and among entries of one priority
/// by name.
pub open spec fn entry_le(left: Entry, right: Entry) -> bool {
    let left_priority = classification(left).priority;
    let right_priority = classification(right).priority;
    left_priority < right_priority || (left_priority == right_priority && text_le(
        left.name@,
        right.name@,
    ))
}

/// Whether each entry of a listing comes before all that follow it.
pub open spec fn is_ordered(entries: Seq<Entry>) -> bool {
    forall|i: int, j: int|
        0 <= i < j < entries.len() ==> entry_le(#[trigger] entries[i], #[trigger] entries[j])
}

/// Where an entry goes into an ordered listing: behind the last entry that
/// does not come after it.
pub open spec fn place_of(entries: Seq<Entry>, entry: Entry) -> int
    decreases entries.len(),
{
    if entries.len() == 0 {
        0
    } else if entry_le(entries.last(), entry) {
        entries.len() as int
    } else {
        place_of(entries.drop_last(), entry)
    }
}

/// The ordered listing of `entries`: each entry in turn goes into the
/// ordered listing of those before it, behind its equals.
pub open spec fn ordered(entries: Seq<Entry>) -> Seq<Entry>
    decreases entries.len(),
{
    if entries.len() == 0 {
        Seq::empty()
    } else {
        let before = ordered(entries.drop_last());
        before.insert(place_of(before, entries.last()), entries.last())
    }
}

/// Whether `left` may stand before `right` in a listing.
pub fn precedes(left: &Entry, right: &Entry) -> (le: bool)
    ensures
        le == entry_le(*left, *right),
{
    let left_priority = entry_priority(left);
    let right_priority = entry_priority(right);
    if left_priority != right_priority {
        left_priority < right_priority
    } else {
        name_precedes(left.name.as_str(), right.name.as_str())
    }
}

/// Orders a listing by priority and name. Entries that are equal in both
/// keep the order in which they came.
pub fn order_entries(entries: Vec<Entry>) -> (sorted: Vec<Entry>)
    ensures
        sorted@ == ordered(entries@),
{
    let ghost all = entries@;
    let mut sorted: Vec<Entry> = Vec::new();
    assert(all.take(0) =~= Seq::<Entry>::empty());
    for entry in it: entries
        invariant
            it.seq() == all,
            sorted@ == ordered(all.take(it.index() as int)),
    {
        let mut place: usize = sorted.len();
        assert(sorted@.take(place as int) =~= sorted@);
        while place > 0 && !precedes(&sorted[place - 1], &entry)
            invariant
                place <= sorted.len(),
                place_of(sorted@.take(place as int), entry) == place_of(sorted@, entry),
            decreases place,
        {
            assert(sorted@.take(place as int).drop_last() =~= sorted@.take(place - 1));
            place = place - 1;
        }
        assert(place_of(sorted@, entry) == place);
        proof {
            let next = all.take(it.index() + 1);
            assert(next.drop_last() =~= all.take(it.index() as int));
            assert(next.last() == entry);
        }
        sorted.insert(place, entry);
    }
    assert(all.take(all.len() as int) =~= all);
    sorted
}

/// The order of a listing is total: every entry comes before itself, of
/// two entries one comes before the other, and the order is transitive.
pub proof fn entry_le_is_total_preorder(first: Entry, second: Entry, third: Entry)
    ensures
        entry_le(first, first),
        entry_le(first, second) || entry_le(second, first),
        entry_le(first, second) && entry_le(second, third) ==> entry_le(first, third),
{
    text_le_reflexive(first.name@);
    text_le_total(first.name@, second.name@);
    if entry_le(first, second) && entry_le(second, third) && classification(first).priority
        == classification(third).priority {
        text_le_transitive(first.name@, second.name@, third.name@);
    }
}

/// In an ordered listing, the place of an entry has behind it only entries
/// that come after it, and before it only entries that do not.
proof fn lemma_place_of(entries: Seq<Entry>, entry: Entry)
    requires
        is_ordered(entries),
    ensures
        0 <= place_of(entries, entry) <= entries.len(),
        forall|i: int|
            0 <= i < place_of(entries, entry) ==> entry_le(#[trigger] entries[i], entry),
        forall|i: int|
            place_of(entries, entry) <= i < entries.len() ==> !entry_le(
                #[trigger] entries[i],
                entry,
            ) && entry_le(entry, entries[i]),
    decreases entries.len(),
{
    if entries.len() == 0 {
    } else if entry_le(entries.last(), entry) {
        assert forall|i: int| 0 <= i < entries.len() implies entry_le(
            #[trigger] entries[i],
            entry,
        ) by {
            if i < entries.len() - 1 {
                assert(entry_le(entries[i], entries[entries.len() - 1]));
            }
            entry_le_is_total_preorder(entries[i], entries.last(), entry);
        }
    } else {
        let front = entries.drop_last();
        assert forall|i: int, j: int| 0 <= i < j < front.len() implies entry_le(
            #[trigger] front[i],
            #[trigger] front[j],
        ) by {
            assert(entry_le(entries[i], entries[j]));
        }
        lemma_place_of(front, entry);
        assert forall|i: int| place_of(entries, entry) <= i < entries.len() implies !entry_le(
            #[trigger] entries[i],
            entry,
        ) && entry_le(entry, entries[i]) by {
            if i < front.len() {
                assert(entries[i] == front[i]);
            }
            entry_le_is_total_preorder(entries[i], entry, entry);
        }
        assert forall|i: int| 0 <= i < place_of(entries, entry) implies entry_le(
            #[trigger] entries[i],
            entry,
        ) by {
            assert(entries[i] == front[i]);
        }
    }
}

/// Putting an entry at its place keeps a listing ordered.
proof fn lemma_insert_keeps_order(entries: Seq<Entry>, entry: Entry)
    requires
        is_ordered(entries),
    ensures
        is_ordered(entries.insert(place_of(entries, entry), entry)),
{
    lemma_place_of(entries, entry);
    let place = place_of(entries, entry);
    let after = entries.insert(place, entry);
    assert forall|i: int, j: int| 0 <= i < j < after.len() implies entry_le(
        #[trigger] after[i],
        #[trigger] after[j],
    ) by {
        if j < place {
            assert(entry_le(entries[i], entries[j]));
        } else if j == place {
            assert(entry_le(entries[i], entry));
        } else if i < place {
            assert(entry_le(entries[i], entries[j - 1]));
        } else if i == place {
            assert(entry_le(entry, entries[j - 1]));
        } else {
            assert(entry_le(entries[i - 1], entries[j - 1]));
        }
    }
}

/// What `order_entries` returns is ordered, and holds the entries it was
/// given, each as often as it came.
pub proof fn ordered_is_ordered(entries: Seq<Entry>)
    ensures
        is_ordered(ordered(entries)),
        ordered(entries).len() == entries.len(),
        ordered(entries).to_multiset() == entries.to_multiset(),
    decreases entries.len(),
{
    broadcast use vstd::seq_lib::group_to_multiset_ensures;

    if entries.len() > 0 {
        let front = entries.drop_last();
        let before = ordered(front);
        ordered_is_ordered(front);
        lemma_place_of(before, entries.last());
        lemma_insert_keeps_order(before, entries.last());
        let place = place_of(before, entries.last());
        before.to_multiset_ensures();
        assert(before.insert(place, entries.last()).to_multiset() =~= before.to_multiset().insert(
            entries.last(),
        ));
        assert(entries =~= front.push(entries.last()));
        assert(entries.to_multiset() =~= front.to_multiset().insert(entries.last()));
    } else {
        assert(ordered(entries).to_multiset() =~= entries.to_multiset());
    }
}

/// A listing that is ordered already comes back unchanged.
pub proof fn ordered_listing_is_kept(entries: Seq<Entry>)
    requires
        is_ordered(entries),
    ensures
        ordered(entries) == entries,
    decreases entries.len(),
{
    if entries.len() > 0 {
        let front = entries.drop_last();
        assert forall|i: int, j: int| 0 <= i < j < front.len() implies entry_le(
            #[trigger] front[i],
            #[trigger] front[j],
        ) by {
            assert(entry_le(entries[i], entries[j]));
        }
        ordered_listing_is_kept(front);
        if front.len() > 0 {
            assert(entry_le(entries[front.len() - 1], entries[entries.len() - 1]));
        }
        assert(place_of(front, entries.last()) == front.len());
        assert(front.insert(front.len() as int, entries.last()) =~= entries);
    } else {
        assert(ordered(entries) =~= entries);
    }
}

/// Ordering twice gives what ordering once gives.
pub proof fn ordering_is_idempotent(entries: Seq<Entry>)
    ensures
        ordered(ordered(entries)) == ordered(entries),
{
    ordered_is_ordered(entries);
    ordered_listing_is_kept(ordered(entries));
}

/// Whether the order of a listing does not tell two entries apart: they
/// have one priority and one name.
pub open spec fn same_rank(left: Entry, right: Entry) -> bool {
    entry_le(left, right) && entry_le(right, left)
}

/// Ordering is stable: the entries that the order does not tell apart from
/// `like` stand in the ordered listing as they stood in the listing.
pub proof fn equal_entries_keep_their_order(entries: Seq<Entry>, like: Entry)
    ensures
        ordered(entries).filter(|entry: Entry| same_rank(entry, like)) == entries.filter(
            |entry: Entry| same_rank(entry, like),
        ),
    decreases entries.len(),
{
    let alike = |entry: Entry| same_rank(entry, like);
    if entries.len() == 0 {
        assert(ordered(entries) =~= entries);
    } else {
        let front = entries.drop_last();
        let last = entries.last();
        let before = ordered(front);
        let place = place_of(before, last);
        equal_entries_keep_their_order(front, like);
        ordered_is_ordered(front);
        lemma_place_of(before, last);
        let head = before.take(place);
        let tail = before.skip(place);
        assert(before =~= head + tail);
        assert(before.insert(place, last) =~= head.push(last) + tail);
        Seq::filter_distributes_over_add(head, tail, alike);
        Seq::filter_distributes_over_add(head.push(last), tail, alike);
        head.lemma_filter_push(last, alike);
        assert(entries =~= front.push(last));
        front.lemma_filter_push(last, alike);
        if alike(last) {
            assert forall|i: int| 0 <= i < tail.len() implies (|entry: Entry| !alike(entry))(
                #[trigger] tail[i],
            ) by {
                assert(tail[i] == before[place + i]);
                entry_le_is_total_preorder(tail[i], like, last);
            }
            assert(tail.all(|entry: Entry| !alike(entry)));
            tail.lemma_all_neg_filter_empty(alike);
            assert(tail.filter(alike) =~= Seq::<Entry>::empty());
            assert(head.filter(alike) + tail.filter(alike) =~= head.filter(alike));
            assert(head.filter(alike).push(last) + tail.filter(alike) =~= head.filter(alike).push(
                last,
            ));
        }
    }
}

/// In an ordered listing every directory stands before every entry of the
/// same visibility that is no directory, and every visible entry before
/// every hidden one.
pub proof fn directories_and_visible_entries_come_first(
    entries: Seq<Entry>,
    first: int,
    second: int,
)
    requires
        is_ordered(entries),
        0 <= first < entries.len(),
        0 <= second < entries.len(),
    ensures
        classification(entries[first]).is_directory && !classification(
            entries[second],
        ).is_directory && classification(entries[first]).is_hidden == classification(
            entries[second],
        ).is_hidden ==> first < second,
        !classification(entries[first]).is_hidden && classification(entries[second]).is_hidden
            ==> first < second,
{
    if second < first {
        assert(entry_le(entries[second], entries[first]));
    }
}

/// In an ordered listing the priorities ascend, and among the entries of
/// one priority the names do.
pub proof fn priorities_and_names_ascend(entries: Seq<Entry>, first: int, second: int)
    requires
        is_ordered(entries),
        0 <= first < second < entries.len(),
    ensures
        classification(entries[first]).priority <= classification(entries[second]).priority,
        classification(entries[first]).priority == classification(entries[second]).priority
            ==> text_le(entries[first].name@, entries[second].name@),
{
    assert(entry_le(entries[first], entries[second]));
}

} // verus!
