//! Size, permissions and date of an entry as text.

use vstd::prelude::*;
use crate::arguments::Arguments;
use crate::entries::types::{Entry, Metadata};
use crate::text::{decimal, push_decimal, push_two_digits, two_digits};

verus! {

/// The number of bytes in a KiB.
pub const KIB: u64 = 1024;

/// The number of bytes in a MiB.
pub const MIB: u64 = 1_048_576;

/// The number of bytes in a GiB.
pub const GIB: u64 = 1_073_741_824;

/// The number of bytes in a TiB.
pub const TIB: u64 = 1_099_511_627_776;

/// The first number of hundredths that is no longer shown in a unit: 1024.00.
pub const PROMOTION: u64 = 102_400;

/// The units that a size of 1024 bytes or more is shown in.
#[derive(Clone, Copy, Debug, PartialEq, Eq)]
pub enum Unit {
    KiB,
    MiB,
    GiB,
    TiB,
}

/// The number of bytes in a unit: a power of 1024.
pub open spec fn unit_bytes(unit: Unit) -> nat {
    match unit {
        Unit::KiB => KIB as nat,
        Unit::MiB => MIB as nat,
        Unit::GiB => GIB as nat,
        Unit::TiB => TIB as nat,
    }
}

/// The name of a unit.
pub open spec fn unit_name(unit: Unit) -> Seq<char> {
    match unit {
        Unit::KiB => seq!['K', 'i', 'B'],
        Unit::MiB => seq!['M', 'i', 'B'],
        Unit::GiB => seq!['G', 'i', 'B'],
        Unit::TiB => seq!['T', 'i', 'B'],
    }
}

/// `dividend / divisor`, rounded to the nearest whole number, a tie to the
/// even neighbour.
pub open spec fn round_half_even(dividend: nat, divisor: nat) -> nat {
    let quotient = dividend / divisor;
    let rest = dividend % divisor;
    if 2 * rest > divisor || (2 * rest == divisor && quotient % 2 == 1) {
        quotient + 1
    } else {
        quotient
    }
}

/// A size in hundredths of a unit, rounded half to even.
pub open spec fn hundredths(size: nat, unit: Unit) -> nat {
    round_half_even(size * 100, unit_bytes(unit))
}

/// The unit a size of 1024 bytes or more is shown in: the smallest in which
/// the rounded value stays below 1024.00, and TiB where there is none.
pub open spec fn shown_unit(size: nat) -> Unit {
    if hundredths(size, Unit::KiB) < PROMOTION {
        Unit::KiB
    } else if hundredths(size, Unit::MiB) < PROMOTION {
        Unit::MiB
    } else if hundredths(size, Unit::GiB) < PROMOTION {
        Unit::GiB
    } else {
        Unit::TiB
    }
}

/// A number of hundredths with its two decimal places: 150 is "1.50".
pub open spec fn fixed_two(value: nat) -> Seq<char> {
    decimal(value / 100) + seq!['.'] + two_digits(value % 100)
}

/// What `human_readable_size` returns: the plain byte count below 1024,
/// else the value in its unit with two decimal places, a space and the
/// unit's name.
pub open spec fn size_text(size: nat) -> Seq<char> {
    if size < KIB {
        decimal(size)
    } else {
        let unit = shown_unit(size);
        fixed_two(hundredths(size, unit)) + seq![' '] + unit_name(unit)
    }
}

impl Unit {
    /// The number of bytes in this unit.
    pub fn bytes(&self) -> (bytes: u64)
        ensures
            bytes == unit_bytes(*self),
    {
        match self {
            Unit::KiB => KIB,
            Unit::MiB => MIB,
            Unit::GiB => GIB,
            Unit::TiB => TIB,
        }
    }

    /// The name of this unit.
    pub fn name(&self) -> (name: &'static str)
        ensures
            name@ == unit_name(*self),
    {
        proof {
            reveal_strlit("KiB");
            reveal_strlit("MiB");
            reveal_strlit("GiB");
            reveal_strlit("TiB");
        }
        let name: &'static str = match self {
            Unit::KiB => "KiB",
            Unit::MiB => "MiB",
            Unit::GiB => "GiB",
            Unit::TiB => "TiB",
        };
        assert(name@ =~= unit_name(*self));
        name
    }
}

/// A size in hundredths of a unit, rounded half to even.
pub fn rounded_hundredths(size: u64, unit: Unit) -> (value: u64)
    ensures
        value == hundredths(size as nat, unit),
{
    let scaled: u128 = size as u128 * 100;
    let wide: u128 = unit.bytes() as u128;
    let quotient: u128 = scaled / wide;
    let rest: u128 = scaled % wide;
    assert(quotient <= scaled / 1024) by (nonlinear_arith)
        requires
            quotient == scaled / wide,
            wide >= 1024,
            scaled >= 0,
    ;
    if 2 * rest > wide || (2 * rest == wide && quotient % 2 == 1) {
        (quotient + 1) as u64
    } else {
        quotient as u64
    }
}

/// The unit that a size of 1024 bytes or more is shown in.
pub fn unit_of(size: u64) -> (unit: Unit)
    ensures
        unit == shown_unit(size as nat),
{
    if rounded_hundredths(size, Unit::KiB) < PROMOTION {
        Unit::KiB
    } else if rounded_hundredths(size, Unit::MiB) < PROMOTION {
        Unit::MiB
    } else if rounded_hundredths(size, Unit::GiB) < PROMOTION {
        Unit::GiB
    } else {
        Unit::TiB
    }
}

/// Renders a byte count: as it is below 1024, else scaled by a power of
/// 1024 to the first unit that shows it below 1024.00.
pub fn human_readable_size(size: u64) -> (out: String)
    ensures
        out@ == size_text(size as nat),
{
    let mut out = String::new();
    if size < KIB {
        push_decimal(&mut out, size);
        assert(out@ =~= size_text(size as nat));
        return out;
    }
    proof {
        reveal_strlit(".");
        reveal_strlit(" ");
    }
    let unit = unit_of(size);
    let value: u64 = rounded_hundredths(size, unit);
    push_decimal(&mut out, value / 100);
    out.append(".");
    push_two_digits(&mut out, value % 100);
    out.append(" ");
    out.append(unit.name());
    assert(out@ =~= size_text(size as nat));
    out
}

/// The first size that is shown as 1024.00 TiB or more. No unit lies above
/// TiB, so from here on the shown value is not below 1024.00.
pub const CEILING: u64 = 1_125_894_409_284_486;

/// The hundredths of each unit, with the unit's bytes written out.
proof fn lemma_hundredths(size: nat)
    ensures
        hundredths(size, Unit::KiB) == round_half_even(size * 100, 1024),
        hundredths(size, Unit::MiB) == round_half_even(size * 100, 1_048_576),
        hundredths(size, Unit::GiB) == round_half_even(size * 100, 1_073_741_824),
        hundredths(size, Unit::TiB) == round_half_even(size * 100, 1_099_511_627_776),
{
}

/// A size is shown below 1024.00 TiB exactly when it is below `CEILING`.
pub proof fn ceiling_is_exact(size: nat)
    ensures
        hundredths(size, Unit::TiB) < PROMOTION <==> size < CEILING,
{
    lemma_hundredths(size);
}

/// The promotion invariant: below `CEILING` no size is shown as 1024.00 or
/// more of its unit. Below 1024 it is shown as its byte count, from there on
/// as at least 1.00 and less than 1024.00 of its unit.
pub proof fn shown_value_stays_below_promotion(size: nat)
    requires
        size < CEILING,
    ensures
        size < KIB ==> size_text(size) == decimal(size),
        size >= KIB ==> 100 <= hundredths(size, shown_unit(size)) < PROMOTION,
{
    lemma_hundredths(size);
    ceiling_is_exact(size);
}

/// At `CEILING` and above a size is shown in TiB, with 1024.00 or more.
pub proof fn shown_value_from_ceiling(size: nat)
    requires
        size >= CEILING,
    ensures
        shown_unit(size) == Unit::TiB,
        hundredths(size, shown_unit(size)) >= PROMOTION,
{
    lemma_hundredths(size);
    ceiling_is_exact(size);
}

/// Below 1024 a size is shown as its plain byte count; zero is "0".
pub proof fn small_size_is_byte_count(size: nat)
    requires
        size < KIB,
    ensures
        size_text(size) == decimal(size),
        size_text(0) == seq!['0'],
{
}

/// The mask of the `i`-th permission bit, counted from the owner's read
/// bit (0) to the others' execute bit (8).
pub open spec fn permission_mask(i: int) -> u32 {
    if i == 0 {
        0o400
    } else if i == 1 {
        0o200
    } else if i == 2 {
        0o100
    } else if i == 3 {
        0o040
    } else if i == 4 {
        0o020
    } else if i == 5 {
        0o010
    } else if i == 6 {
        0o004
    } else if i == 7 {
        0o002
    } else {
        0o001
    }
}

/// The letter of the `i`-th permission: `r`, `w`, `x` in each group.
pub open spec fn permission_letter(i: int) -> char {
    if i % 3 == 0 {
        'r'
    } else if i % 3 == 1 {
        'w'
    } else {
        'x'
    }
}

/// The character that shows the `i`-th permission: its letter where the bit
/// is set, a dash where it is not.
pub open spec fn permission_char(mode: u32, i: int) -> char {
    if mode & permission_mask(i) != 0 {
        permission_letter(i)
    } else {
        '-'
    }
}

/// What `human_readable_permissions` returns: owner, group and others, three
/// characters each, with one space between the groups.
pub open spec fn permissions_text(mode: u32) -> Seq<char> {
    Seq::new(
        11,
        |p: int|
            if p % 4 == 3 {
                ' '
            } else {
                permission_char(mode, p - p / 4)
            },
    )
}

/// The value of the `i`-th permission as a text shows it: its mask unless
/// the text has a dash there.
pub open spec fn shown_bit(text: Seq<char>, i: int) -> nat {
    if text[i + i / 3] != '-' {
        permission_mask(i) as nat
    } else {
        0
    }
}

/// The mode that a permission text shows.
pub open spec fn mode_of_text(text: Seq<char>) -> nat {
    shown_bit(text, 0) + shown_bit(text, 1) + shown_bit(text, 2) + shown_bit(text, 3) + shown_bit(
        text,
        4,
    ) + shown_bit(text, 5) + shown_bit(text, 6) + shown_bit(text, 7) + shown_bit(text, 8)
}

/// The mask of the `i`-th permission bit.
fn mask_of(i: usize) -> (mask: u32)
    requires
        i < 9,
    ensures
        mask == permission_mask(i as int),
{
    match i {
        0 => 0o400,
        1 => 0o200,
        2 => 0o100,
        3 => 0o040,
        4 => 0o020,
        5 => 0o010,
        6 => 0o004,
        7 => 0o002,
        _ => 0o001,
    }
}

/// Renders the nine permission bits of `mode`, the owner's first.
pub fn human_readable_permissions(mode: u32) -> (out: String)
    ensures
        out@ == permissions_text(mode),
{
    let mut out = String::new();
    let mut i: usize = 0;
    assert(out@ =~= permissions_text(mode).take(0));
    while i < 9
        invariant
            i <= 9,
            out@ == permissions_text(mode).take(
                if i == 0 {
                    0
                } else {
                    i + (i - 1) / 3
                },
            ),
        decreases 9 - i,
    {
        proof {
            reveal_strlit(" ");
            reveal_strlit("r");
            reveal_strlit("w");
            reveal_strlit("x");
            reveal_strlit("-");
        }
        if i > 0 && i % 3 == 0 {
            out.append(" ");
        }
        let letter: &str = if mode & mask_of(i) == 0 {
            "-"
        } else if i % 3 == 0 {
            "r"
        } else if i % 3 == 1 {
            "w"
        } else {
            "x"
        };
        out.append(letter);
        i = i + 1;
        assert(out@ =~= permissions_text(mode).take(i + (i - 1) / 3));
    }
    assert(out@ =~= permissions_text(mode));
    out
}

/// A permission text has three groups of three characters, each the letter
/// of its place or a dash, with one space between the groups; and for a mode
/// of nine bits the text shows that mode again.
pub proof fn permissions_round_trip(mode: u32)
    requires
        mode <= 0o777,
    ensures
        permissions_text(mode).len() == 11,
        forall|p: int|
            0 <= p < 11 && p % 4 == 3 ==> #[trigger] permissions_text(mode)[p] == ' ',
        forall|p: int|
            0 <= p < 11 && p % 4 != 3 ==> #[trigger] permissions_text(mode)[p] == '-'
                || permissions_text(mode)[p] == permission_letter(p % 4),
        mode_of_text(permissions_text(mode)) == mode,
{
    let text = permissions_text(mode);
    assert forall|i: int| 0 <= i < 9 implies #[trigger] shown_bit(text, i) == (mode
        & permission_mask(i)) as nat by {
        let mask = permission_mask(i);
        assert(mask == 0o400 || mask == 0o200 || mask == 0o100 || mask == 0o040 || mask == 0o020
            || mask == 0o010 || mask == 0o004 || mask == 0o002 || mask == 0o001);
        assert((mode & mask) == 0 || (mode & mask) == mask) by (bit_vector)
            requires
                mask == 0o400 || mask == 0o200 || mask == 0o100 || mask == 0o040 || mask == 0o020
                    || mask == 0o010 || mask == 0o004 || mask == 0o002 || mask == 0o001,
        ;
        assert(text[i + i / 3] == permission_char(mode, i));
    }
    assert(mode <= 0o777 ==> (mode & 0o400) + (mode & 0o200) + (mode & 0o100) + (mode & 0o040) + (
    mode & 0o020) + (mode & 0o010) + (mode & 0o004) + (mode & 0o002) + (mode & 0o001) == mode)
        by (bit_vector);
    assert(shown_bit(text, 0) == (mode & 0o400) as nat);
    assert(shown_bit(text, 1) == (mode & 0o200) as nat);
    assert(shown_bit(text, 2) == (mode & 0o100) as nat);
    assert(shown_bit(text, 3) == (mode & 0o040) as nat);
    assert(shown_bit(text, 4) == (mode & 0o020) as nat);
    assert(shown_bit(text, 5) == (mode & 0o010) as nat);
    assert(shown_bit(text, 6) == (mode & 0o004) as nat);
    assert(shown_bit(text, 7) == (mode & 0o002) as nat);
    assert(shown_bit(text, 8) == (mode & 0o001) as nat);
}

/// Only the lowest nine bits of a mode are rendered.
pub proof fn permissions_read_nine_bits(mode: u32)
    ensures
        permissions_text(mode) == permissions_text(mode & 0o777),
{
    assert forall|i: int| 0 <= i < 9 implies permission_char(mode, i) == permission_char(
        mode & 0o777,
        i,
    ) by {
        let mask = permission_mask(i);
        assert((mode & 0o777) & mask == mode & mask) by (bit_vector)
            requires
                mask == 0o400 || mask == 0o200 || mask == 0o100 || mask == 0o040 || mask == 0o020
                    || mask == 0o010 || mask == 0o004 || mask == 0o002 || mask == 0o001,
        ;
    }
    assert(permissions_text(mode) =~= permissions_text(mode & 0o777));
}

/// The number of seconds in a day.
pub const SECONDS_PER_DAY: u64 = 86_400;

/// The year of the epoch.
pub const EPOCH_YEAR: u64 = 1970;

/// The leap years of the Gregorian calendar: every fourth year, but of the
/// years that end a century only every fourth.
pub open spec fn is_leap(year: nat) -> bool {
    year % 4 == 0 && (year % 100 != 0 || year % 400 == 0)
}

/// The number of days in a year.
pub open spec fn year_length(year: nat) -> nat {
    if is_leap(year) {
        366
    } else {
        365
    }
}

/// The number of days in a month of a year; 0 for a month outside 1 to 12.
pub open spec fn month_length(month: nat, year: nat) -> nat {
    if month == 2 {
        if is_leap(year) {
            29
        } else {
            28
        }
    } else if month == 4 || month == 6 || month == 9 || month == 11 {
        30
    } else if 1 <= month <= 12 {
        31
    } else {
        0
    }
}

/// The year in which a day falls that lies `days` days after the first day
/// of `year`: a year's length is taken off as long as it fits.
pub open spec fn year_from(days: nat, year: nat) -> nat
    decreases days,
{
    if days < year_length(year) {
        year
    } else {
        year_from((days - year_length(year)) as nat, year + 1)
    }
}

/// What is left of `days` once the years are taken off: the day within its
/// year, counted from 0.
pub open spec fn day_of_year_from(days: nat, year: nat) -> nat
    decreases days,
{
    if days < year_length(year) {
        days
    } else {
        day_of_year_from((days - year_length(year)) as nat, year + 1)
    }
}

/// The month in which a day falls that lies `days` days after the first day
/// of `month`: a month's length is taken off as long as it fits.
pub open spec fn month_from(days: nat, month: nat, year: nat) -> nat
    decreases 12 - month,
{
    if month >= 12 || days < month_length(month, year) {
        month
    } else {
        month_from((days - month_length(month, year)) as nat, month + 1, year)
    }
}

/// What is left of `days` once the months are taken off: the day within its
/// month, counted from 0.
pub open spec fn day_of_month_from(days: nat, month: nat, year: nat) -> nat
    decreases 12 - month,
{
    if month >= 12 || days < month_length(month, year) {
        days
    } else {
        day_of_month_from((days - month_length(month, year)) as nat, month + 1, year)
    }
}

/// The year of the day that lies `days` days after 1 January 1970.
pub open spec fn year_of(days: nat) -> nat {
    year_from(days, EPOCH_YEAR as nat)
}

/// The month, from 1, of the day that lies `days` days after 1 January 1970.
pub open spec fn month_of(days: nat) -> nat {
    month_from(day_of_year_from(days, EPOCH_YEAR as nat), 1, year_of(days))
}

/// The day of the month, from 1, of the day that lies `days` days after
/// 1 January 1970.
pub open spec fn day_of(days: nat) -> nat {
    day_of_month_from(day_of_year_from(days, EPOCH_YEAR as nat), 1, year_of(days)) + 1
}

/// A date as day, month and the last two digits of the year, two digits
/// each, with a slash between them.
pub open spec fn date_text(day: nat, month: nat, year: nat) -> Seq<char> {
    two_digits(day) + seq!['/'] + two_digits(month) + seq!['/'] + two_digits(year % 100)
}

/// What `human_readable_date` returns for a time in seconds since the epoch.
pub open spec fn timestamp_text(timestamp: nat) -> Seq<char> {
    let days = timestamp / (SECONDS_PER_DAY as nat);
    date_text(day_of(days), month_of(days), year_of(days))
}

/// Whether `year` is a leap year.
pub fn is_leap_year(year: &u64) -> (leap: bool)
    ensures
        leap == is_leap(*year as nat),
{
    *year % 4 == 0 && (*year % 100 != 0 || *year % 400 == 0)
}

/// The number of days in `month` (1 to 12) of `year`; 0 for any other month.
pub fn days_in_month(month: &u32, year: &u64) -> (days: u64)
    ensures
        days == month_length(*month as nat, *year as nat),
{
    match *month {
        1 => 31,
        2 => if is_leap_year(year) {
            29
        } else {
            28
        },
        3 => 31,
        4 => 30,
        5 => 31,
        6 => 30,
        7 => 31,
        8 => 31,
        9 => 30,
        10 => 31,
        11 => 30,
        12 => 31,
        _ => 0,
    }
}

/// Renders the day on which `timestamp` falls as day/month/year. The years
/// and then the months are taken off the day count one by one.
pub fn human_readable_date(timestamp: u64) -> (out: String)
    ensures
        out@ == timestamp_text(timestamp as nat),
{
    let total: u64 = timestamp / SECONDS_PER_DAY;
    let mut days: u64 = total;
    let mut year: u64 = EPOCH_YEAR;
    let mut days_in_year: u64 = 365;
    while days >= days_in_year
        invariant
            days <= total,
            year - EPOCH_YEAR <= total - days,
            total <= u64::MAX / SECONDS_PER_DAY,
            days_in_year == year_length(year as nat),
            year_from(days as nat, year as nat) == year_of(total as nat),
            day_of_year_from(days as nat, year as nat) == day_of_year_from(
                total as nat,
                EPOCH_YEAR as nat,
            ),
        decreases days,
    {
        days = days - days_in_year;
        year = year + 1;
        days_in_year = if is_leap_year(&year) {
            366
        } else {
            365
        };
    }
    let ghost rest = days as nat;
    let mut month: u32 = 1;
    while month < 12 && days >= days_in_month(&month, &year)
        invariant
            1 <= month <= 12,
            days <= rest,
            month_from(days as nat, month as nat, year as nat) == month_from(rest, 1, year as nat),
            day_of_month_from(days as nat, month as nat, year as nat) == day_of_month_from(
                rest,
                1,
                year as nat,
            ),
        decreases 12 - month,
    {
        days = days - days_in_month(&month, &year);
        month = month + 1;
    }
    let day: u64 = days + 1;
    let mut out = String::new();
    push_two_digits(&mut out, day);
    proof {
        reveal_strlit("/");
    }
    out.append("/");
    push_two_digits(&mut out, month as u64);
    out.append("/");
    push_two_digits(&mut out, year % 100);
    assert(out@ =~= timestamp_text(timestamp as nat));
    out
}

/// The date field of an entry: empty where the date is not asked for or
/// the metadata could not be read.
pub open spec fn date_field(entry: Entry, flags: Arguments) -> Seq<char> {
    if flags.date && entry.metadata is Some {
        timestamp_text(entry.metadata->0.modified as nat)
    } else {
        Seq::empty()
    }
}

/// The permissions field of an entry: empty where the permissions are not
/// asked for or the metadata could not be read.
pub open spec fn permissions_field(entry: Entry, flags: Arguments) -> Seq<char> {
    if flags.perm && entry.metadata is Some {
        permissions_text(entry.metadata->0.mode)
    } else {
        Seq::empty()
    }
}

/// The size field of an entry: empty where the size is not asked for or
/// the metadata could not be read.
pub open spec fn size_field(entry: Entry, flags: Arguments) -> Seq<char> {
    if flags.size && entry.metadata is Some {
        size_text(entry.metadata->0.size as nat)
    } else {
        Seq::empty()
    }
}

/// The metadata of an entry, where it could be read.
pub fn get_metadata(entry: &Entry) -> (metadata: Option<Metadata>)
    ensures
        metadata == entry.metadata,
{
    entry.metadata
}

/// Renders the permissions held in a metadata record.
pub fn read_permissions(metadata: &Metadata) -> (out: String)
    ensures
        out@ == permissions_text(metadata.mode),
{
    human_readable_permissions(metadata.mode)
}

/// Renders the modification date held in a metadata record.
pub fn read_date(metadata: &Metadata) -> (out: String)
    ensures
        out@ == timestamp_text(metadata.modified as nat),
{
    human_readable_date(metadata.modified)
}

/// Renders the size held in a metadata record.
pub fn read_size(metadata: &Metadata) -> (out: String)
    ensures
        out@ == size_text(metadata.size as nat),
{
    human_readable_size(metadata.size)
}

/// Renders the three fields of an entry: date, permissions and size, in
/// this order. A field that is not asked for is empty, and so is every
/// field of an entry whose metadata could not be read.
pub fn read_metadata(entry: &Entry, arguments: &Arguments) -> (fields: [String; 3])
    ensures
        fields[0]@ == date_field(*entry, *arguments),
        fields[1]@ == permissions_field(*entry, *arguments),
        fields[2]@ == size_field(*entry, *arguments),
{
    match get_metadata(entry) {
        None => [String::new(), String::new(), String::new()],
        Some(metadata) => {
            let date = if arguments.date() {
                read_date(&metadata)
            } else {
                String::new()
            };
            let permissions = if arguments.permissions() {
                read_permissions(&metadata)
            } else {
                String::new()
            };
            let size = if arguments.size() {
                read_size(&metadata)
            } else {
                String::new()
            };
            [date, permissions, size]
        },
    }
}

/// The number of days from 1 January 1970 to the first day of `year`.
pub open spec fn days_before_year(year: nat) -> nat
    decreases year,
{
    if year <= EPOCH_YEAR {
        0
    } else {
        days_before_year((year - 1) as nat) + year_length((year - 1) as nat)
    }
}

/// The number of days from the first day of `year` to the first day of its
/// month `month`.
pub open spec fn days_before_month(month: nat, year: nat) -> nat
    decreases month,
{
    if month <= 1 {
        0
    } else {
        days_before_month((month - 1) as nat, year) + month_length((month - 1) as nat, year)
    }
}

/// The dates of the calendar from 1970 on.
pub open spec fn is_date(year: nat, month: nat, day: nat) -> bool {
    year >= EPOCH_YEAR && 1 <= month <= 12 && 1 <= day <= month_length(month, year)
}

/// The number of days from 1 January 1970 to a date.
pub open spec fn day_number(year: nat, month: nat, day: nat) -> nat {
    (days_before_year(year) + days_before_month(month, year) + day - 1) as nat
}

proof fn lemma_days_before_year_grows(from: nat, to: nat)
    requires
        EPOCH_YEAR <= from <= to,
    ensures
        days_before_year(from) + 365 * (to - from) <= days_before_year(to),
    decreases to,
{
    if from < to {
        lemma_days_before_year_grows(from, (to - 1) as nat);
    }
}

proof fn lemma_year_from(days: nat, year: nat)
    requires
        year >= EPOCH_YEAR,
    ensures
        year_from(days, year) >= year,
        day_of_year_from(days, year) < year_length(year_from(days, year)),
        days_before_year(year) + days == days_before_year(year_from(days, year))
            + day_of_year_from(days, year),
    decreases days,
{
    if days >= year_length(year) {
        lemma_year_from((days - year_length(year)) as nat, year + 1);
    }
}

proof fn lemma_months_of_year(year: nat)
    ensures
        days_before_month(1, year) == 0,
        days_before_month(2, year) == 31,
        days_before_month(3, year) == year_length(year) - 306,
        days_before_month(4, year) == year_length(year) - 275,
        days_before_month(5, year) == year_length(year) - 245,
        days_before_month(6, year) == year_length(year) - 214,
        days_before_month(7, year) == year_length(year) - 184,
        days_before_month(8, year) == year_length(year) - 153,
        days_before_month(9, year) == year_length(year) - 122,
        days_before_month(10, year) == year_length(year) - 92,
        days_before_month(11, year) == year_length(year) - 61,
        days_before_month(12, year) == year_length(year) - 31,
{
    reveal_with_fuel(days_before_month, 13);
}

proof fn lemma_month_from(days: nat, month: nat, year: nat)
    requires
        1 <= month <= 12,
        days_before_month(month, year) + days < year_length(year),
    ensures
        month <= month_from(days, month, year) <= 12,
        day_of_month_from(days, month, year) < month_length(
            month_from(days, month, year),
            year,
        ),
        days_before_month(month, year) + days == days_before_month(
            month_from(days, month, year),
            year,
        ) + day_of_month_from(days, month, year),
    decreases 12 - month,
{
    lemma_months_of_year(year);
    if month >= 12 || days < month_length(month, year) {
    } else {
        lemma_month_from((days - month_length(month, year)) as nat, month + 1, year);
    }
}

/// The day count of a date fixes the date: of two dates the later one lies
/// more days after the epoch.
pub proof fn day_number_grows(
    year: nat,
    month: nat,
    day: nat,
    later_year: nat,
    later_month: nat,
    later_day: nat,
)
    requires
        is_date(year, month, day),
        is_date(later_year, later_month, later_day),
        year < later_year || (year == later_year && (month < later_month || (month
            == later_month && day < later_day))),
    ensures
        day_number(year, month, day) < day_number(later_year, later_month, later_day),
{
    lemma_months_of_year(year);
    lemma_months_of_year(later_year);
    if year < later_year {
        lemma_days_before_year_grows(year + 1, later_year);
    }
}

/// Taking the years and months off a day count gives a date of the
/// calendar, and that date lies as many days after the epoch.
pub proof fn date_of_day_count(days: nat)
    ensures
        is_date(year_of(days), month_of(days), day_of(days)),
        day_number(year_of(days), month_of(days), day_of(days)) == days,
{
    lemma_year_from(days, EPOCH_YEAR as nat);
    lemma_month_from(day_of_year_from(days, EPOCH_YEAR as nat), 1, year_of(days));
}

/// Every second of a known date is rendered as that date: its day, its
/// month and the last two digits of its year.
pub proof fn known_date_is_rendered(year: nat, month: nat, day: nat, second: nat)
    requires
        is_date(year, month, day),
        second < SECONDS_PER_DAY,
    ensures
        timestamp_text(day_number(year, month, day) * (SECONDS_PER_DAY as nat) + second)
            == date_text(day, month, year),
{
    let days = day_number(year, month, day);
    let timestamp: nat = days * (SECONDS_PER_DAY as nat) + second;
    assert(timestamp / 86_400 == days) by (nonlinear_arith)
        requires
            timestamp == days * 86_400 + second,
            second < 86_400,
    ;
    date_of_day_count(days);
    let (y, m, d) = (year_of(days), month_of(days), day_of(days));
    if y != year || m != month || d != day {
        if y < year || (y == year && (m < month || (m == month && d < day))) {
            day_number_grows(y, m, d, year, month, day);
        } else {
            day_number_grows(year, month, day, y, m, d);
        }
    }
}

} // verus!
