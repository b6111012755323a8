//! The managed log: when its file is rotated, what a rotated file is called,
//! and which rotated files are removed.

use crate::numbers::{
    all_digits, digits_of, digits_text, digits_value, is_digit, lemma_digits_round_trip,
    number_up_to, parse_unsigned, spelled_integer,
};
use crate::order::{lemma_ranked, ranked, sort_ranked, Ranked};
use crate::store::{has_text, lists_text};
use crate::text::{
    begins_with, chars_of, joined, same_text, string_between, without_prefix,
};
use crate::timeutil::{date_fits, days_from_civil, running_day_number};
use vstd::prelude::*;
use vstd::string::*;

verus! {

pub const SECTION_PROCESS: &'static str = "process";

pub const SECTION_ROUTES: &'static str = "routes";

pub const SECTION_CALLS: &'static str = "calls";

pub const SECTION_STORAGE: &'static str = "storage";

pub const SECTION_BACKUPS: &'static str = "backups";

pub const SECTION_MIGRATION: &'static str = "migration";

pub const SECTION_USAGE: &'static str = "usage";

pub const SECTION_LOGS: &'static str = "logs";

pub const SEVERITY_INFO: &'static str = "info";

pub const SEVERITY_WARNING: &'static str = "warning";

pub const SEVERITY_ERROR: &'static str = "error";

/// The size at which the log file is rotated.
pub const ROTATION_SIZE_BYTES: u64 = 20_971_520;

/// Days for which a rotated file is kept.
pub const RETENTION_DAYS: i64 = 14;

/// The size that the managed files together do not exceed.
pub const TOTAL_CAP_BYTES: u64 = 209_715_200;

/// Overrides the version that the process reports.
pub const TEST_VERSION_VARIABLE: &'static str = "LOCAL_API_RELAY_TEST_VERSION";

/// Overrides the size at which a file is rotated.
pub const TEST_SIZE_LIMIT_VARIABLE: &'static str = "LOCAL_API_RELAY_TEST_LOG_SIZE_LIMIT";

/// Overrides the cap on the size of all files.
pub const TEST_CAP_VARIABLE: &'static str = "LOCAL_API_RELAY_TEST_LOG_SIZE_CAP";

/// The name of the log file in use.
pub const CURRENT_LOG_NAME: &'static str = "relay.log";

/// Whether a section is one of the known ones.
pub open spec fn known_section(section: Seq<char>) -> bool {
    section == "process"@ || section == "routes"@ || section == "calls"@ || section == "storage"@
        || section == "backups"@ || section == "migration"@ || section == "usage"@ || section
        == "logs"@
}

/// Whether a section is one of the known ones.
pub fn is_known_section(section: &str) -> (r: bool)
    ensures
        r == known_section(section@),
{
    same_text(section, SECTION_PROCESS) || same_text(section, SECTION_ROUTES) || same_text(
        section,
        SECTION_CALLS,
    ) || same_text(section, SECTION_STORAGE) || same_text(section, SECTION_BACKUPS) || same_text(
        section,
        SECTION_MIGRATION,
    ) || same_text(section, SECTION_USAGE) || same_text(section, SECTION_LOGS)
}

/// A limit that a text overrides, if it spells a number.
pub open spec fn limit_given(value: Option<Seq<char>>, default: int) -> int {
    match value {
        Some(text) => match spelled_integer(text, 0, u64::MAX as int) {
            Some(n) => n,
            None => default,
        },
        None => default,
    }
}

/// A limit that a text overrides, if it spells a number.
pub fn limit_or(value: Option<&str>, default: u64) -> (r: u64)
    ensures
        r == limit_given(
            match value {
                Some(text) => Some(text@),
                None => None,
            },
            default as int,
        ),
{
    match value {
        Some(text) => match parse_unsigned(text, 0xffff_ffff_ffff_ffff) {
            Some(n) => n,
            None => default,
        },
        None => default,
    }
}

/// Whether a text has the form of a date: four digits, two and two, with
/// hyphens between.
pub open spec fn date_form(s: Seq<char>) -> bool {
    &&& s.len() == 10
    &&& s[4] == '-'
    &&& s[7] == '-'
    &&& forall|i: int| 0 <= i < 10 && i != 4 && i != 7 ==> is_digit(#[trigger] s[i])
}

/// Whether characters have the form of a date.
fn has_date_form(chars: &[char]) -> (r: bool)
    ensures
        r == date_form(chars@),
{
    if chars.len() != 10 || chars[4] != '-' || chars[7] != '-' {
        return false;
    }
    for i in 0..10
        invariant
            chars@.len() == 10,
            forall|k: int| 0 <= k < i && k != 4 && k != 7 ==> is_digit(#[trigger] chars@[k]),
    {
        if i != 4 && i != 7 && !crate::numbers::digit(chars[i]) {
            proof {
                assert(!is_digit(chars@[i as int]));
            }
            return false;
        }
    }
    true
}

/// Whether a text has the form of a date.
pub fn is_valid_date(value: &str) -> (r: bool)
    ensures
        r == date_form(value@),
{
    has_date_form(chars_of(value).as_slice())
}

/// The year, month and day that a text in the form of a date gives.
pub open spec fn date_parts(s: Seq<char>) -> (int, int, int) {
    (
        digits_value(s.subrange(0, 4)) as int,
        digits_value(s.subrange(5, 7)) as int,
        digits_value(s.subrange(8, 10)) as int,
    )
}

/// The parts of a date are small.
proof fn lemma_date_parts(s: Seq<char>)
    requires
        date_form(s),
    ensures
        all_digits(s.subrange(0, 4)),
        all_digits(s.subrange(5, 7)),
        all_digits(s.subrange(8, 10)),
        0 <= date_parts(s).0 <= 9999,
        0 <= date_parts(s).1 <= 99,
        0 <= date_parts(s).2 <= 99,
{
    let (y, m, d) = (s.subrange(0, 4), s.subrange(5, 7), s.subrange(8, 10));
    assert forall|i: int| 0 <= i < 4 implies is_digit(#[trigger] y[i]) by {
        assert(is_digit(s[i]));
    }
    assert forall|i: int| 0 <= i < 2 implies is_digit(#[trigger] m[i]) by {
        assert(is_digit(s[i + 5]));
    }
    assert forall|i: int| 0 <= i < 2 implies is_digit(#[trigger] d[i]) by {
        assert(is_digit(s[i + 8]));
    }
    reveal_with_fuel(digits_value, 5);
    assert(is_digit(y[0]) && is_digit(y[1]) && is_digit(y[2]) && is_digit(y[3]));
    assert(is_digit(m[0]) && is_digit(m[1]));
    assert(is_digit(d[0]) && is_digit(d[1]));
    assert(y.drop_last().drop_last().drop_last().last() == y[0]);
    assert(y.drop_last().drop_last().last() == y[1]);
    assert(y.drop_last().last() == y[2]);
}

/// The year, month and day of a date.
fn date_of(chars: &[char]) -> (r: (i64, u32, u32))
    requires
        date_form(chars@),
    ensures
        (r.0 as int, r.1 as int, r.2 as int) == date_parts(chars@),
        r.0 <= 9999,
        r.1 <= 99,
        r.2 <= 99,
{
    proof {
        lemma_date_parts(chars@);
    }
    let year = vstd::slice::slice_subrange(chars, 0, 4);
    let month = vstd::slice::slice_subrange(chars, 5, 7);
    let day = vstd::slice::slice_subrange(chars, 8, 10);
    let y: u64 = match number_up_to(year, 9_999) {
        Some(n) => n,
        None => 0,
    };
    let m: u64 = match number_up_to(month, 99) {
        Some(n) => n,
        None => 0,
    };
    let d: u64 = match number_up_to(day, 99) {
        Some(n) => n,
        None => 0,
    };
    (y as i64, m as u32, d as u32)
}

/// The year, month and day of a text in the form of a date.
pub fn parse_date(value: &str) -> (r: (i64, u32, u32))
    requires
        date_form(value@),
    ensures
        (r.0 as int, r.1 as int, r.2 as int) == date_parts(value@),
{
    date_of(chars_of(value).as_slice())
}

/// Whether a line makes the file in use be rotated first: a new day has begun,
/// or the line would make the file exceed its limit.
pub open spec fn rotation_due(
    current: Option<(Seq<char>, u64)>,
    day: Seq<char>,
    line_bytes: int,
    limit: int,
) -> bool {
    match current {
        Some((opened, bytes)) => opened != day || bytes + line_bytes + 1 > limit,
        None => false,
    }
}

/// Whether a line of so many bytes makes the file in use be rotated first.
pub fn needs_rotation(
    current_day: Option<&str>,
    current_bytes: u64,
    day: &str,
    line_bytes: usize,
    limit: u64,
) -> (r: bool)
    ensures
        r == rotation_due(
            match current_day {
                Some(opened) => Some((opened@, current_bytes)),
                None => None,
            },
            day@,
            line_bytes as int,
            limit as int,
        ),
{
    match current_day {
        Some(opened) => !same_text(opened, day) || current_bytes as u128 + line_bytes as u128 + 1
            > limit as u128,
        None => false,
    }
}

/// As long as a single line fits, the file in use never exceeds its limit: a
/// line that it has no room for goes into a new file.
pub proof fn law_files_stay_within_their_limit(day: Seq<char>, bytes: u64, line_bytes: int, limit: int)
    requires
        line_bytes + 1 <= limit,
    ensures
        rotation_due(Some((day, bytes)), day, line_bytes, limit) || bytes + line_bytes + 1 <= limit,
{
}

/// The first name for a rotated file of a day.
pub open spec fn rotated_base(day: Seq<char>) -> Seq<char> {
    "relay.log."@ + day
}

/// The name of the `k`th rotated file of a day.
pub open spec fn rotated_name(day: Seq<char>, k: nat) -> Seq<char> {
    if k == 0 {
        rotated_base(day)
    } else {
        rotated_base(day) + "."@ + digits_of(k)
    }
}

/// Names of rotated files are told apart by their numbers.
proof fn lemma_rotated_names(day: Seq<char>, a: nat, b: nat)
    requires
        rotated_name(day, a) == rotated_name(day, b),
    ensures
        a == b,
{
    let base = rotated_base(day);
    reveal_strlit(".");
    lemma_digits_round_trip(a);
    lemma_digits_round_trip(b);
    if a > 0 && b > 0 {
        let n = base.len() + 1;
        assert(rotated_name(day, a).skip(n as int) =~= digits_of(a));
        assert(rotated_name(day, b).skip(n as int) =~= digits_of(b));
    } else if a > 0 {
        assert(rotated_name(day, a).len() > base.len());
    } else if b > 0 {
        assert(rotated_name(day, b).len() > base.len());
    }
}

/// Among more names than there are files one is free.
proof fn lemma_free_name(day: Seq<char>, taken: Seq<String>) -> (k: nat)
    ensures
        k <= taken.len(),
        !lists_text(taken, rotated_name(day, k)),
{
    let n = taken.len();
    if forall|k: nat| k <= n ==> lists_text(taken, #[trigger] rotated_name(day, k)) {
        let places = Seq::<int>::new(
            (n + 1) as nat,
            |k: int| choose|i: int|
                0 <= i < taken.len() && (#[trigger] taken[i])@ == rotated_name(day, k as nat),
        );
        assert forall|k: int| 0 <= k < places.len() implies 0 <= #[trigger] places[k] < n
            && taken[places[k]]@ == rotated_name(day, k as nat) by {
            assert(lists_text(taken, rotated_name(day, k as nat)));
        }
        assert(places.no_duplicates()) by {
            assert forall|a: int, b: int|
                0 <= a < places.len() && 0 <= b < places.len() && a != b implies places[a]
                != places[b] by {
                if places[a] == places[b] {
                    lemma_rotated_names(day, a as nat, b as nat);
                }
            }
        }
        places.unique_seq_to_set();
        let range = vstd::set_lib::set_int_range(0, n as int);
        vstd::set_lib::lemma_int_range(0, n as int);
        assert(places.to_set().subset_of(range)) by {
            assert forall|p: int| places.to_set().contains(p) implies range.contains(p) by {
                assert(places.contains(p));
                let k = choose|k: int| 0 <= k < places.len() && places[k] == p;
                assert(0 <= places[k] < n);
            }
        }
        vstd::set_lib::lemma_len_subset(places.to_set(), range);
        assert(false);
    }
    choose|k: nat| k <= n && !lists_text(taken, #[trigger] rotated_name(day, k))
}

/// Whether a name is the first for a rotated file of a day that is not taken.
pub open spec fn first_free_name(name: Seq<char>, day: Seq<char>, taken: Seq<String>) -> bool {
    exists|k: nat|
        name == #[trigger] rotated_name(day, k) && !lists_text(taken, name) && forall|j: nat|
            j < k ==> lists_text(taken, #[trigger] rotated_name(day, j))
}

/// The name for a rotated file of a day: the first that is not taken.
pub fn next_rotated_name(day: &str, taken: &Vec<String>) -> (r: String)
    ensures
        first_free_name(r@, day@, taken@),
{
    let base = joined("relay.log.", day);
    proof {
        assert(base@ == rotated_name(day@, 0));
    }
    if !has_text(taken, base.as_str()) {
        return base;
    }
    let ghost free = lemma_free_name(day@, taken@);
    let count: usize = taken.len();
    let mut index: u64 = 1;
    loop
        invariant
            base@ == rotated_base(day@),
            count == taken@.len(),
            free <= count,
            !lists_text(taken@, rotated_name(day@, free)),
            1 <= index <= free,
            forall|j: nat| j < index ==> lists_text(taken@, #[trigger] rotated_name(day@, j)),
        decreases free - index,
    {
        let name = joined(joined(base.as_str(), ".").as_str(), digits_text(index).as_str());
        proof {
            assert(name@ == rotated_name(day@, index as nat));
        }
        if !has_text(taken, name.as_str()) {
            return name;
        }
        proof {
            assert(index != free);
        }
        index = index + 1;
    }
}

/// A rotated file: its place in the listing, its size, its day and its number.
#[derive(Debug)]
pub struct RotatedFile {
    pub place: usize,
    pub size: u64,
    pub day_number: i64,
    pub suffix_index: usize,
}

impl Ranked for RotatedFile {
    /// The oldest first: by day, then by number.
    open spec fn rank_le(self, other: Self) -> bool {
        self.day_number < other.day_number || (self.day_number == other.day_number
            && self.suffix_index <= other.suffix_index)
    }

    proof fn lemma_rank_order(a: Self, b: Self, c: Self) {
    }

    fn at_most(&self, other: &Self) -> (r: bool) {
        self.day_number < other.day_number || (self.day_number == other.day_number
            && self.suffix_index <= other.suffix_index)
    }
}

/// `s` without the points at its beginning.
pub open spec fn strip_points(s: Seq<char>) -> Seq<char>
    decreases s.len(),
{
    if s.len() > 0 && s[0] == '.' {
        strip_points(s.drop_first())
    } else {
        s
    }
}

/// The date and what follows it in the name of a rotated file.
pub open spec fn rotated_parts(name: Seq<char>) -> Option<(Seq<char>, Seq<char>)> {
    if !begins_with(name, "relay.log."@) {
        None
    } else {
        let rest = name.skip("relay.log."@.len() as int);
        if rest.len() >= 10 && date_form(rest.take(10)) {
            Some((rest.take(10), rest.skip(10)))
        } else {
            None
        }
    }
}

/// The day of the date in a name.
pub open spec fn named_day(date: Seq<char>) -> int {
    let (year, month, day) = date_parts(date);
    running_day_number(year, month, day)
}

/// The number behind the date in a name; 0 where it spells none.
pub open spec fn suffix_number(rest: Seq<char>) -> int {
    match spelled_integer(strip_points(rest), 0, usize::MAX as int) {
        Some(n) => n,
        None => 0,
    }
}

/// Stripping the points up to `i`.
proof fn lemma_strip_points(s: Seq<char>, i: int)
    requires
        0 <= i <= s.len(),
        forall|k: int| 0 <= k < i ==> #[trigger] s[k] == '.',
        i < s.len() ==> s[i] != '.',
    ensures
        strip_points(s) == s.skip(i),
    decreases i,
{
    if i == 0 {
        assert(s.skip(0) =~= s);
    } else {
        let rest = s.drop_first();
        assert forall|k: int| 0 <= k < i - 1 implies #[trigger] rest[k] == '.' by {
            assert(rest[k] == s[k + 1]);
        }
        lemma_strip_points(rest, i - 1);
        assert(rest.skip(i - 1) =~= s.skip(i));
    }
}

/// The number behind the date in a name.
fn read_suffix(rest: &[char]) -> (r: usize)
    ensures
        r == suffix_number(rest@),
{
    let total: usize = rest.len();
    let mut i: usize = 0;
    while i < total && rest[i] == '.'
        invariant
            i <= total == rest@.len(),
            forall|k: int| 0 <= k < i ==> #[trigger] rest@[k] == '.',
        decreases total - i,
    {
        i = i + 1;
    }
    proof {
        lemma_strip_points(rest@, i as int);
        assert(rest@.subrange(i as int, total as int) =~= rest@.skip(i as int));
    }
    let text = string_between(rest, i, total);
    match parse_unsigned(text.as_str(), usize::MAX as u64) {
        Some(n) => n as usize,
        None => 0,
    }
}

/// A rotated file in the listing: its name gives its day and its number.
pub open spec fn file_of(name: Seq<char>, place: int, size: u64) -> Option<RotatedFile> {
    match rotated_parts(name) {
        Some((date, rest)) => Some(
            RotatedFile {
                place: place as usize,
                size,
                day_number: named_day(date) as i64,
                suffix_index: suffix_number(rest) as usize,
            },
        ),
        None => None,
    }
}

/// The day that a name gives fits.
proof fn lemma_named_day(date: Seq<char>)
    requires
        date_form(date),
    ensures
        ({
            let (year, month, day) = date_parts(date);
            date_fits(year, month, day)
        }),
        -1_000_000 <= named_day(date) <= 10_000_000,
{
    lemma_date_parts(date);
}

/// Reads a name in the listing as that of a rotated file.
pub fn read_rotated_file(name: &str, place: usize, size: u64) -> (r: Option<RotatedFile>)
    ensures
        r == file_of(name@, place as int, size),
{
    let rest = match without_prefix(name, "relay.log.") {
        Some(rest) => rest,
        None => {
            return None;
        },
    };
    let chars = chars_of(rest.as_str());
    let total: usize = chars.len();
    if total < 10 {
        return None;
    }
    let date = vstd::slice::slice_subrange(chars.as_slice(), 0, 10);
    proof {
        assert(date@ =~= rest@.take(10));
    }
    if !has_date_form(date) {
        return None;
    }
    let tail = vstd::slice::slice_subrange(chars.as_slice(), 10, total);
    proof {
        assert(tail@ =~= rest@.skip(10));
        lemma_named_day(date@);
    }
    let day_number: i64 = days_from_civil(date_of(date));
    Some(RotatedFile { place, size, day_number, suffix_index: read_suffix(tail) })
}

/// Whether a file has outlived its retention.
pub open spec fn outlived(file: RotatedFile, today: int) -> bool {
    today - file.day_number > 14
}

/// The files that have not outlived their retention.
pub open spec fn surviving(files: Seq<RotatedFile>, today: int) -> Seq<RotatedFile>
    decreases files.len(),
{
    if files.len() == 0 {
        files
    } else {
        let before = surviving(files.drop_last(), today);
        if outlived(files.last(), today) {
            before
        } else {
            before.push(files.last())
        }
    }
}

/// The places of the files that have outlived their retention.
pub open spec fn outlived_places(files: Seq<RotatedFile>, today: int) -> Seq<usize>
    decreases files.len(),
{
    if files.len() == 0 {
        Seq::empty()
    } else {
        let before = outlived_places(files.drop_last(), today);
        if outlived(files.last(), today) {
            before.push(files.last().place)
        } else {
            before
        }
    }
}

/// The size of files together.
pub open spec fn total_size(files: Seq<RotatedFile>) -> int
    decreases files.len(),
{
    if files.len() == 0 {
        0
    } else {
        total_size(files.drop_last()) + files.last().size
    }
}

/// How many of the files are removed, from the first on, until what is left
/// does not exceed the cap.
pub open spec fn removed_count(files: Seq<RotatedFile>, total: int, cap: int) -> int
    decreases files.len(),
{
    if files.len() == 0 || total <= cap {
        0
    } else {
        1 + removed_count(files.drop_first(), total - files[0].size, cap)
    }
}

/// The places of files.
pub open spec fn places_of(files: Seq<RotatedFile>) -> Seq<usize> {
    files.map_values(|file: RotatedFile| file.place)
}

/// The sizes of files are bounded by their number.
proof fn lemma_total_size(files: Seq<RotatedFile>)
    ensures
        0 <= total_size(files) <= files.len() * 0xffff_ffff_ffff_ffff,
    decreases files.len(),
{
    if files.len() > 0 {
        lemma_total_size(files.drop_last());
    }
}

/// The size of files beginning with the first.
proof fn lemma_total_first(files: Seq<RotatedFile>)
    requires
        files.len() > 0,
    ensures
        total_size(files) == files[0].size + total_size(files.drop_first()),
    decreases files.len(),
{
    if files.len() > 1 {
        lemma_total_first(files.drop_last());
        assert(files.drop_last().drop_first() =~= files.drop_first().drop_last());
    } else {
        assert(files.drop_first() =~= Seq::<RotatedFile>::empty());
        assert(files.drop_last() =~= Seq::<RotatedFile>::empty());
    }
}

/// Sorting keeps the size of files together.
proof fn lemma_total_ranked(files: Seq<RotatedFile>)
    ensures
        total_size(ranked(files)) == total_size(files),
    decreases files.len(),
{
    if files.len() > 0 {
        lemma_total_ranked(files.drop_last());
        lemma_total_insert(ranked(files.drop_last()), files.last());
    }
}

proof fn lemma_total_insert(files: Seq<RotatedFile>, x: RotatedFile)
    ensures
        total_size(crate::order::insert_ranked(files, x)) == total_size(files) + x.size,
    decreases files.len(),
{
    let after = crate::order::insert_ranked(files, x);
    if files.len() == 0 {
        assert(after.drop_last() =~= files);
    } else if files.last().rank_le(x) {
        assert(after.drop_last() =~= files);
    } else {
        lemma_total_insert(files.drop_last(), x);
        assert(after.drop_last() =~= crate::order::insert_ranked(files.drop_last(), x));
    }
}

/// The places of the rotated files that are removed.
pub open spec fn swept(files: Seq<RotatedFile>, current_bytes: int, today: int, cap: int) -> Seq<
    usize,
> {
    let order = ranked(surviving(files, today));
    let removed = removed_count(order, current_bytes + total_size(order), cap);
    outlived_places(files, today) + places_of(order.take(removed))
}

/// Which rotated files are removed: first those that have outlived their
/// retention, then the oldest of the rest until the files together with the
/// one in use do not exceed the cap.
pub fn sweep(files: Vec<RotatedFile>, current_bytes: u64, today: i64, cap: u64) -> (r: Vec<usize>)
    ensures
        r@ == swept(files@, current_bytes as int, today as int, cap as int),
{
    let ghost all = files@;
    let count: usize = files.len();
    let mut out: Vec<usize> = Vec::new();
    let mut kept: Vec<RotatedFile> = Vec::new();
    let mut total: u128 = current_bytes as u128;
    for file in it: files
        invariant
            it.seq() == all,
            count == all.len(),
            out@ == outlived_places(all.take(it.index() as int), today as int),
            kept@ == surviving(all.take(it.index() as int), today as int),
            kept@.len() <= it.index(),
            total == current_bytes + total_size(kept@),
    {
        proof {
            let i = it.index() as int;
            assert(all.take(i + 1).drop_last() =~= all.take(i));
            assert(all.take(i + 1).last() == file);
            lemma_total_size(kept@);
        }
        if today as i128 - file.day_number as i128 > RETENTION_DAYS as i128 {
            out.push(file.place);
        } else {
            let ghost before = kept@;
            total = total + file.size as u128;
            kept.push(file);
            proof {
                assert(kept@.drop_last() =~= before);
            }
        }
    }
    proof {
        assert(all.take(all.len() as int) =~= all);
    }
    let ghost survivors = kept@;
    let ghost expired = out@;
    let order = sort_ranked(kept);
    proof {
        lemma_total_ranked(survivors);
        assert(order@.skip(0) =~= order@);
        assert(places_of(order@.take(0)) =~= Seq::<usize>::empty());
        assert(expired + Seq::<usize>::empty() =~= expired);
    }
    let ghost start = current_bytes + total_size(order@);
    let mut i: usize = 0;
    while i < order.len() && total > cap as u128
        invariant
            i <= order@.len(),
            start == current_bytes + total_size(order@),
            total == current_bytes + total_size(order@.skip(i as int)),
            removed_count(order@, start, cap as int) == i + removed_count(
                order@.skip(i as int),
                total as int,
                cap as int,
            ),
            out@ == expired + places_of(order@.take(i as int)),
        decreases order@.len() - i,
    {
        let ghost rest = order@.skip(i as int);
        let size: u64 = order[i].size;
        proof {
            lemma_total_first(rest);
            lemma_total_size(rest.drop_first());
            assert(rest.drop_first() =~= order@.skip(i + 1));
            assert(places_of(order@.take(i + 1)) =~= places_of(order@.take(i as int)).push(
                order@[i as int].place,
            ));
        }
        total = total - size as u128;
        out.push(order[i].place);
        proof {
            assert(out@ =~= expired + places_of(order@.take(i + 1)));
        }
        i = i + 1;
    }
    out
}

/// After a sweep nothing that has outlived its retention is left, and the files
/// together do not exceed the cap, unless the file in use alone does.
pub proof fn law_sweep_keeps_within_the_cap(files: Seq<RotatedFile>, current: int, cap: int)
    requires
        current >= 0,
    ensures
        ({
            let removed = removed_count(files, current + total_size(files), cap);
            &&& 0 <= removed <= files.len()
            &&& current + total_size(files.skip(removed)) <= cap || removed == files.len()
        }),
    decreases files.len(),
{
    let total = current + total_size(files);
    if files.len() > 0 && total > cap {
        lemma_total_first(files);
        law_sweep_keeps_within_the_cap(files.drop_first(), current, cap);
        let removed = removed_count(files, total, cap);
        assert(files.drop_first().skip(removed - 1) =~= files.skip(removed));
    } else {
        assert(files.skip(0) =~= files);
    }
}

/// Every file that a sweep spares is within its retention.
pub proof fn law_survivors_are_within_retention(files: Seq<RotatedFile>, today: int, i: int)
    requires
        0 <= i < surviving(files, today).len(),
    ensures
        today - surviving(files, today)[i].day_number <= 14,
    decreases files.len(),
{
    let before = surviving(files.drop_last(), today);
    if i < before.len() {
        law_survivors_are_within_retention(files.drop_last(), today, i);
        assert(surviving(files, today)[i] == before[i]);
    }
}

/// The sections of events are the eight that there are.
pub proof fn law_sections_are_known(section: Seq<char>)
    ensures
        known_section("process"@),
        known_section("routes"@),
        known_section("calls"@),
        known_section("storage"@),
        known_section("backups"@),
        known_section("migration"@),
        known_section("usage"@),
        known_section("logs"@),
        known_section(section) ==> section == "process"@ || section == "routes"@ || section
            == "calls"@ || section == "storage"@ || section == "backups"@ || section
            == "migration"@ || section == "usage"@ || section == "logs"@,
{
}

/// A limit is the number that a text spells, else the usual one.
pub proof fn law_limits_are_overridden(text: Seq<char>, default: int)
    ensures
        limit_given(None, default) == default,
        spelled_integer(text, 0, u64::MAX as int) matches Some(n) ==> limit_given(
            Some(text),
            default,
        ) == n,
        spelled_integer(text, 0, u64::MAX as int) is None ==> limit_given(Some(text), default)
            == default,
{
}

/// Four digits, two and two with hyphens between have the form of a date, and
/// are read as its year, month and day.
pub proof fn law_dates_are_read(y: Seq<char>, m: Seq<char>, d: Seq<char>)
    requires
        y.len() == 4,
        m.len() == 2,
        d.len() == 2,
        all_digits(y),
        all_digits(m),
        all_digits(d),
    ensures
        date_form(y + seq!['-'] + m + seq!['-'] + d),
        date_parts(y + seq!['-'] + m + seq!['-'] + d) == (
            digits_value(y) as int,
            digits_value(m) as int,
            digits_value(d) as int,
        ),
{
    let s = y + seq!['-'] + m + seq!['-'] + d;
    assert(s.len() == 10 && s[4] == '-' && s[7] == '-');
    assert forall|i: int| 0 <= i < 10 && i != 4 && i != 7 implies is_digit(#[trigger] s[i]) by {
        if i < 4 {
            assert(s[i] == y[i]);
        } else if i < 7 {
            assert(s[i] == m[i - 5]);
        } else {
            assert(s[i] == d[i - 8]);
        }
    }
    assert(s.subrange(0, 4) =~= y);
    assert(s.subrange(5, 7) =~= m);
    assert(s.subrange(8, 10) =~= d);
}

/// The file in use is rotated for a new day, and for a line that it has no room
/// for with its line end; never where there is none.
pub proof fn law_files_are_rotated(
    opened: Seq<char>,
    bytes: u64,
    day: Seq<char>,
    line_bytes: int,
    limit: int,
)
    ensures
        !rotation_due(None, day, line_bytes, limit),
        opened != day ==> rotation_due(Some((opened, bytes)), day, line_bytes, limit),
        opened == day && bytes + line_bytes + 1 <= limit ==> !rotation_due(
            Some((opened, bytes)),
            day,
            line_bytes,
            limit,
        ),
        opened == day && bytes + line_bytes + 1 > limit ==> rotation_due(
            Some((opened, bytes)),
            day,
            line_bytes,
            limit,
        ),
{
}

/// A rotated file gets a name that no file has: `relay.log.` and the day, with a
/// number where that is taken.
pub proof fn law_rotated_files_get_free_names(name: Seq<char>, day: Seq<char>, taken: Seq<String>)
    requires
        first_free_name(name, day, taken),
    ensures
        forall|i: int| 0 <= i < taken.len() ==> (#[trigger] taken[i])@ != name,
        begins_with(name, "relay.log."@ + day),
        !lists_text(taken, "relay.log."@ + day) ==> name == "relay.log."@ + day,
        name != "relay.log."@ + day ==> exists|k: nat|
            k > 0 && name == "relay.log."@ + day + "."@ + #[trigger] digits_of(k),
{
    let k = choose|k: nat|
        name == #[trigger] rotated_name(day, k) && !lists_text(taken, name) && forall|j: nat|
            j < k ==> lists_text(taken, #[trigger] rotated_name(day, j));
    let base = "relay.log."@ + day;
    assert(name.take(base.len() as int) =~= base);
    if k > 0 {
        assert(lists_text(taken, rotated_name(day, 0)));
        assert(name == base + "."@ + digits_of(k));
    }
}

/// A rotated file is read as that of the day and with the number that its name
/// gives; a name that begins otherwise or has no date is none.
pub proof fn law_rotated_files_are_recognized(
    date: Seq<char>,
    rest: Seq<char>,
    name: Seq<char>,
    place: int,
    size: u64,
)
    requires
        0 <= place <= usize::MAX,
    ensures
        date_form(date) ==> (file_of("relay.log."@ + date + rest, place, size) matches Some(file)
            && file.place == place && file.size == size && file.day_number == named_day(date)
            && file.suffix_index == suffix_number(rest)),
        !begins_with(name, "relay.log."@) ==> file_of(name, place, size) is None,
        suffix_number(Seq::empty()) == 0,
{
    let head = "relay.log."@;
    let whole = head + date + rest;
    if date_form(date) {
        assert(whole.take(head.len() as int) =~= head);
        let tail = whole.skip(head.len() as int);
        assert(tail =~= date + rest);
        assert(tail.take(10) =~= date);
        assert(tail.skip(10) =~= rest);
        lemma_named_day(date);
    }
    assert(strip_points(Seq::<char>::empty()) =~= Seq::<char>::empty());
}

/// A number behind a point is that of a rotated file.
pub proof fn law_rotated_files_are_numbered(k: nat)
    requires
        k <= usize::MAX,
    ensures
        suffix_number(seq!['.'] + digits_of(k)) == k,
{
    let s = seq!['.'] + digits_of(k);
    lemma_digits_round_trip(k);
    assert(is_digit(digits_of(k)[0]));
    assert(s[1] == digits_of(k)[0]);
    lemma_strip_points(s, 1);
    assert(s.skip(1) =~= digits_of(k));
}

/// A file has outlived its retention once it is more than 14 days old.
pub proof fn law_files_are_kept_for_fourteen_days(file: RotatedFile, today: int)
    ensures
        today - file.day_number <= 14 ==> !outlived(file, today),
        today - file.day_number > 14 ==> outlived(file, today),
{
}

proof fn lemma_outlived_places(files: Seq<RotatedFile>, today: int, i: int)
    requires
        0 <= i < files.len(),
        outlived(files[i], today),
    ensures
        outlived_places(files, today).contains(files[i].place),
    decreases files.len(),
{
    let before = outlived_places(files.drop_last(), today);
    let now = outlived_places(files, today);
    if i < files.len() - 1 {
        lemma_outlived_places(files.drop_last(), today, i);
        let k = choose|k: int| 0 <= k < before.len() && before[k] == files[i].place;
        assert(now[k] == files[i].place);
    } else {
        assert(now[before.len() as int] == files[i].place);
    }
}

proof fn lemma_outlived_from(files: Seq<RotatedFile>, today: int, k: int)
    requires
        0 <= k < outlived_places(files, today).len(),
    ensures
        exists|i: int|
            0 <= i < files.len() && (#[trigger] files[i]).place == outlived_places(files, today)[k]
                && outlived(files[i], today),
    decreases files.len(),
{
    let before = outlived_places(files.drop_last(), today);
    if k < before.len() {
        lemma_outlived_from(files.drop_last(), today, k);
        let i = choose|i: int|
            0 <= i < files.drop_last().len() && (#[trigger] files.drop_last()[i]).place == before[k]
                && outlived(files.drop_last()[i], today);
        assert(files[i].place == before[k]);
        assert(outlived_places(files, today)[k] == before[k]);
    } else {
        let i = files.len() - 1;
        assert(files[i].place == outlived_places(files, today)[k]);
    }
}

proof fn lemma_surviving(files: Seq<RotatedFile>, today: int, file: RotatedFile)
    ensures
        surviving(files, today).contains(file) <==> files.contains(file) && today
            - file.day_number <= 14,
    decreases files.len(),
{
    if files.len() > 0 {
        let front = files.drop_last();
        lemma_surviving(front, today, file);
        let before = surviving(front, today);
        let now = surviving(files, today);
        if front.contains(file) {
            let k = choose|k: int| 0 <= k < front.len() && front[k] == file;
            assert(files[k] == file);
        }
        if files.contains(file) {
            let k = choose|k: int| 0 <= k < files.len() && files[k] == file;
            if k < front.len() {
                assert(front[k] == file);
            }
        }
        if files.last() == file {
            assert(files[files.len() - 1] == file);
        }
        if before.contains(file) {
            let k = choose|k: int| 0 <= k < before.len() && before[k] == file;
            assert(now[k] == file);
        }
        if now.contains(file) {
            let k = choose|k: int| 0 <= k < now.len() && now[k] == file;
            if k < before.len() {
                assert(before[k] == file);
            }
        }
        if !outlived(files.last(), today) {
            assert(now[before.len() as int] == files.last());
        }
    }
}

/// Whether a place is that of a file that is more than 14 days old.
pub open spec fn place_of_old(files: Seq<RotatedFile>, today: int, place: usize) -> bool {
    exists|j: int|
        0 <= j < files.len() && (#[trigger] files[j]).place == place && today - files[j].day_number
            > 14
}

/// A sweep removes every file that is more than 14 days old; while the files
/// together with the one in use stay within the cap, it removes no other.
pub proof fn law_sweeps_remove_what_is_old(
    files: Seq<RotatedFile>,
    current_bytes: int,
    today: int,
    cap: int,
    i: int,
)
    requires
        0 <= i < files.len(),
    ensures
        today - files[i].day_number > 14 ==> swept(files, current_bytes, today, cap).contains(
            files[i].place,
        ),
        current_bytes + total_size(surviving(files, today)) <= cap ==> forall|k: int|
            0 <= k < swept(files, current_bytes, today, cap).len() ==> place_of_old(
                files,
                today,
                #[trigger] swept(files, current_bytes, today, cap)[k],
            ),
{
    let old = outlived_places(files, today);
    let order = ranked(surviving(files, today));
    lemma_total_ranked(surviving(files, today));
    let removed = removed_count(order, current_bytes + total_size(order), cap);
    let gone = swept(files, current_bytes, today, cap);
    if outlived(files[i], today) {
        lemma_outlived_places(files, today, i);
        let k = choose|k: int| 0 <= k < old.len() && old[k] == files[i].place;
        assert(gone[k] == files[i].place);
    }
    if current_bytes + total_size(surviving(files, today)) <= cap {
        assert(removed == 0);
        assert(places_of(order.take(0)) =~= Seq::<usize>::empty());
        assert(gone =~= old);
        assert forall|k: int| 0 <= k < gone.len() implies place_of_old(
            files,
            today,
            #[trigger] gone[k],
        ) by {
            lemma_outlived_from(files, today, k);
        }
    }
}

/// Over the cap the oldest go first: a file that a sweep spares is of no earlier
/// day than one that it removes for the cap, and no file is removed for the cap
/// once what is left fits.
pub proof fn law_sweeps_remove_the_oldest_first(
    files: Seq<RotatedFile>,
    current_bytes: int,
    today: int,
    cap: int,
    a: int,
    b: int,
)
    requires
        0 <= current_bytes,
        ({
            let order = ranked(surviving(files, today));
            0 <= a < removed_count(order, current_bytes + total_size(order), cap) <= b
                < order.len()
        }),
    ensures
        ({
            let order = ranked(surviving(files, today));
            &&& order[a].day_number <= order[b].day_number
            &&& current_bytes + total_size(order.skip(a)) > cap
            &&& swept(files, current_bytes, today, cap).contains(order[a].place)
        }),
{
    let order = ranked(surviving(files, today));
    lemma_ranked(surviving(files, today));
    assert(order[a].rank_le(order[b]));
    let removed = removed_count(order, current_bytes + total_size(order), cap);
    lemma_removed_while_over(order, current_bytes, cap, a);
    let old = outlived_places(files, today);
    let more = places_of(order.take(removed));
    assert(more[a] == order[a].place);
    assert((old + more)[old.len() + a] == order[a].place);
}

proof fn lemma_removed_while_over(files: Seq<RotatedFile>, current: int, cap: int, a: int)
    requires
        0 <= a < removed_count(files, current + total_size(files), cap),
    ensures
        a < files.len(),
        current + total_size(files.skip(a)) > cap,
    decreases files.len(),
{
    if a == 0 {
        assert(files.skip(0) =~= files);
    } else {
        lemma_total_first(files);
        lemma_removed_while_over(files.drop_first(), current, cap, a - 1);
        assert(files.drop_first().skip(a - 1) =~= files.skip(a));
    }
}

/// Every file within its retention is weighed against the cap, and no other.
pub proof fn law_survivors_are_weighed(files: Seq<RotatedFile>, today: int, file: RotatedFile)
    ensures
        surviving(files, today).contains(file) <==> files.contains(file) && today
            - file.day_number <= 14,
{
    lemma_surviving(files, today, file);
}

} // verus!
