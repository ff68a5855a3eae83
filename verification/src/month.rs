//! The month that the calendar page shows, and the way from it to its
//! neighbours.

use vstd::prelude::*;
use vstd::string::{StrSliceExecFns, StringExecFns};
use itertools::Itertools;
use crate::document::opt_view;
use crate::paths::{date_name, date_text, decimal, decimal_text};
use crate::resolver::Date;

verus! {

/// Whether a character is a decimal digit.
pub open spec fn is_digit(c: char) -> bool {
    '0' <= c <= '9'
}

/// The number that a decimal digit stands for.
pub open spec fn digit_value(c: char) -> nat {
    (c as nat - '0' as nat) as nat
}

/// The number that a row of decimal digits stands for.
pub open spec fn digits_value(digits: Seq<char>) -> nat
    decreases digits.len(),
{
    if digits.len() == 0 {
        0
    } else {
        digits_value(digits.drop_last()) * 10 + digit_value(digits.last())
    }
}

/// Whether every character is a decimal digit.
pub open spec fn all_digits(text: Seq<char>) -> bool {
    forall|i: int| 0 <= i < text.len() ==> is_digit(#[trigger] text[i])
}

/// The number that `text` stands for, if it is one of at most `max`: a row
/// of at least one decimal digit, with or without a plus sign before it.
pub open spec fn number_in(text: Seq<char>, max: nat) -> Option<nat> {
    let digits = if text.len() > 0 && text[0] == '+' {
        text.skip(1)
    } else {
        text
    };
    if digits.len() > 0 && all_digits(digits) && digits_value(digits) <= max {
        Some(digits_value(digits))
    } else {
        None
    }
}

/// The position of the first hyphen in `text`, or its length if it has none.
pub open spec fn first_hyphen(text: Seq<char>) -> int
    decreases text.len(),
{
    if text.len() == 0 || text[0] == '-' {
        0
    } else {
        1 + first_hyphen(text.skip(1))
    }
}

/// The year and the month that `text` names: a year up to 65535, a hyphen,
/// and a number up to 255, where the year ends at the first hyphen.
pub open spec fn year_and_month(text: Seq<char>) -> Option<(u16, u8)> {
    let at = first_hyphen(text);
    if at < text.len() {
        match (number_in(text.take(at), 65535), number_in(text.skip(at + 1), 255)) {
            (Some(year), Some(month)) => Some((year as u16, month as u8)),
            _ => None,
        }
    } else {
        None
    }
}

/// A row of digits stands for at least as much as any of its beginnings.
pub proof fn lemma_digits_value_grows(digits: Seq<char>, n: int)
    requires
        0 <= n <= digits.len(),
    ensures
        digits_value(digits.take(n)) <= digits_value(digits),
    decreases digits.len(),
{
    if n == digits.len() {
        assert(digits.take(n) =~= digits);
    } else {
        lemma_digits_value_grows(digits.drop_last(), n);
        assert(digits.drop_last().take(n) =~= digits.take(n));
    }
}

/// The first hyphen lies within the text or at its end, and no hyphen stands
/// before it.
pub proof fn lemma_first_hyphen(text: Seq<char>)
    ensures
        0 <= first_hyphen(text) <= text.len(),
        first_hyphen(text) < text.len() ==> text[first_hyphen(text)] == '-',
        forall|i: int| 0 <= i < first_hyphen(text) ==> text[i] != '-',
    decreases text.len(),
{
    if text.len() > 0 && text[0] != '-' {
        let rest = text.skip(1);
        lemma_first_hyphen(rest);
        assert forall|i: int| 0 <= i < first_hyphen(text) implies text[i] != '-' by {
            if i > 0 {
                assert(rest[i - 1] == text[i]);
            }
        }
    }
}

/// The first hyphen is where a hyphen stands that no hyphen stands before.
pub proof fn lemma_first_hyphen_is(text: Seq<char>, at: int)
    requires
        0 <= at <= text.len(),
        at < text.len() ==> text[at] == '-',
        forall|i: int| 0 <= i < at ==> text[i] != '-',
    ensures
        first_hyphen(text) == at,
{
    lemma_first_hyphen(text);
    let found = first_hyphen(text);
    if found < at {
        assert(text[found] != '-');
    } else if found > at {
        assert(text[at] != '-');
    }
}

/// The number that the characters of `text` from `from` up to `to` stand for,
/// if it is one of at most `max`.
pub fn parse_number(text: &str, from: usize, to: usize, max: u32) -> (r: Option<u32>)
    requires
        from <= to <= text@.len(),
        max <= 65535,
    ensures
        r.is_some() == number_in(text@.subrange(from as int, to as int), max as nat).is_some(),
        r.is_some() ==> r.unwrap() == number_in(
            text@.subrange(from as int, to as int),
            max as nat,
        ).unwrap(),
{
    let ghost whole = text@.subrange(from as int, to as int);
    let mut start = from;
    if from < to && text.get_char(from) == '+' {
        start = from + 1;
    }
    let ghost digits = text@.subrange(start as int, to as int);
    assert(digits =~= if whole.len() > 0 && whole[0] == '+' {
        whole.skip(1)
    } else {
        whole
    });
    if start == to {
        return None;
    }
    let mut value: u32 = 0;
    let mut i: usize = start;
    assert(digits.take(0) =~= Seq::<char>::empty());
    while i < to
        invariant
            start <= i <= to <= text@.len(),
            max <= 65535,
            digits == text@.subrange(start as int, to as int),
            digits.len() > 0,
            number_in(text@.subrange(from as int, to as int), max as nat) == (if all_digits(digits)
                && digits_value(digits) <= max {
                Some(digits_value(digits))
            } else {
                None
            }),
            all_digits(digits.take(i - start)),
            value == digits_value(digits.take(i - start)),
            value <= max,
        decreases to - i,
    {
        let c = text.get_char(i);
        assert(c == digits[i - start]);
        if !(c >= '0' && c <= '9') {
            assert(!is_digit(digits[i - start]));
            return None;
        }
        let d = (c as u32) - ('0' as u32);
        let next = value * 10 + d;
        proof {
            let upto = digits.take(i - start + 1);
            assert(upto.drop_last() =~= digits.take(i - start));
            assert(upto.last() == c);
            assert(next == digits_value(upto));
            assert forall|k: int| 0 <= k < upto.len() implies is_digit(#[trigger] upto[k]) by {
                if k < i - start {
                    assert(digits.take(i - start)[k] == upto[k]);
                }
            }
            if next > max {
                lemma_digits_value_grows(digits, i - start + 1);
            }
        }
        if next > max {
            return None;
        }
        value = next;
        i += 1;
    }
    assert(digits.take(to - start) =~= digits);
    Some(value)
}

/// The year and the month that `text` names, as the month field of a form
/// gives them.
pub fn parse_month(text: &str) -> (r: Option<(u16, u8)>)
    ensures
        r == year_and_month(text@),
{
    let n = text.unicode_len();
    let mut at: usize = 0;
    while at < n && text.get_char(at) != '-'
        invariant
            at <= n,
            n == text@.len(),
            forall|i: int| 0 <= i < at ==> text@[i] != '-',
        decreases n - at,
    {
        at += 1;
    }
    proof {
        lemma_first_hyphen_is(text@, at as int);
    }
    if at >= n {
        return None;
    }
    assert(text@.subrange(0, at as int) =~= text@.take(at as int));
    assert(text@.subrange(at + 1, n as int) =~= text@.skip(at + 1));
    match (parse_number(text, 0, at, 65535), parse_number(text, at + 1, n, 255)) {
        (Some(year), Some(month)) => Some((year as u16, month as u8)),
        _ => None,
    }
}

/// Whether the calendar of lesser feasts is used: always, unless the form
/// names the calendar of the prayer book.
pub open spec fn lesser_feasts_chosen(calendar: Option<Seq<char>>) -> bool {
    calendar != Some("bcp"@)
}

/// Whether the calendar of lesser feasts is used.
pub fn uses_lesser_feasts(calendar: &Option<String>) -> (r: bool)
    ensures
        r == lesser_feasts_chosen(opt_view(*calendar)),
{
    match calendar {
        Some(name) => {
            let bcp = String::from_str("bcp");
            *name != bcp
        },
        None => true,
    }
}

/// Whether optional observances are shown: always, unless the form says
/// `false`.
pub open spec fn black_letter_chosen(choice: Option<Seq<char>>) -> bool {
    choice != Some("false"@)
}

/// Whether optional observances are shown.
pub fn shows_black_letter(choice: &Option<String>) -> (r: bool)
    ensures
        r == black_letter_chosen(opt_view(*choice)),
{
    match choice {
        Some(word) => {
            let no = String::from_str("false");
            *word != no
        },
        None => true,
    }
}

/// The month before or after a month: the year changes between December and
/// January.
pub open spec fn neighbour_of(year: u16, month: u8, increase: bool) -> (int, int) {
    if month == 1 && !increase {
        (year - 1, 12)
    } else if month == 12 && increase {
        (year + 1, 1)
    } else if !increase {
        (year as int, month - 1)
    } else {
        (year as int, month + 1)
    }
}

/// The month before (`increase` is false) or after (`increase` is true) the
/// month `month` of `year`. The months count from 1 to 12; the neighbour has
/// to lie within the years that can be written.
pub fn adjacent_month(year: u16, month: u8, increase: bool) -> (r: (u16, u8))
    requires
        1 <= month <= 12,
        0 <= neighbour_of(year, month, increase).0 <= u16::MAX,
    ensures
        (r.0 as int, r.1 as int) == neighbour_of(year, month, increase),
        1 <= r.1 <= 12,
{
    if month == 1 && !increase {
        (year - 1, 12)
    } else if month == 12 && increase {
        (year + 1, 1)
    } else if !increase {
        (year, month - 1)
    } else {
        (year, month + 1)
    }
}

/// The month before or after a month, or nothing where the month is none of
/// the twelve or the neighbour lies outside the years that can be written.
pub fn checked_adjacent_month(year: u16, month: u8, increase: bool) -> (r: Option<(u16, u8)>)
    ensures
        r.is_some() == (1 <= month <= 12 && 0 <= neighbour_of(year, month, increase).0
            <= u16::MAX),
        r.is_some() ==> (r.unwrap().0 as int, r.unwrap().1 as int) == neighbour_of(
            year,
            month,
            increase,
        ),
{
    if month < 1 || month > 12 {
        None
    } else if month == 1 && !increase && year == 0 {
        None
    } else if month == 12 && increase && year == u16::MAX {
        None
    } else {
        Some(adjacent_month(year, month, increase))
    }
}

/// A number in decimal notation, with zeros before it up to `width` digits.
pub open spec fn padded(n: nat, width: nat) -> Seq<char>
    decreases width,
{
    if decimal(n).len() >= width {
        decimal(n)
    } else {
        seq!['0'] + padded(n, (width - 1) as nat)
    }
}

/// A number in decimal notation, with zeros before it up to `width` digits.
pub fn padded_text(n: u16, width: usize) -> (r: String)
    ensures
        r@ == padded(n as nat, width as nat),
    decreases width,
{
    let digits = decimal_text(n);
    if digits.as_str().unicode_len() >= width {
        digits
    } else {
        let mut r = String::from_str("0");
        r.append(padded_text(n, width - 1).as_str());
        proof {
            reveal_strlit("0");
            assert("0"@ =~= seq!['0']);
        }
        r
    }
}

/// The value of the month field of a form: the year with four digits, a
/// hyphen, and the month with two.
pub open spec fn month_field(year: u16, month: u8) -> Seq<char> {
    padded(year as nat, 4) + "-"@ + padded(month as nat, 2)
}

/// The value of the month field of a form.
pub fn month_value(year: u16, month: u8) -> (r: String)
    ensures
        r@ == month_field(year, month),
{
    let mut r = padded_text(year, 4);
    r.append("-");
    r.append(padded_text(month as u16, 2).as_str());
    r
}

/// The date of a day as a machine reads it: the year, the month with two
/// digits and the day with two digits, with hyphens between them.
pub open spec fn datetime_of(year: u16, month: u8, day: u8) -> Seq<char> {
    decimal(year as nat) + "-"@ + padded(month as nat, 2) + "-"@ + padded(day as nat, 2)
}

/// The date of a day as a machine reads it.
pub fn datetime_value(year: u16, month: u8, day: u8) -> (r: String)
    ensures
        r@ == datetime_of(year, month, day),
{
    let mut r = decimal_text(year);
    r.append("-");
    r.append(padded_text(month as u16, 2).as_str());
    r.append("-");
    r.append(padded_text(day as u16, 2).as_str());
    r
}

/// The name under which the text of a month's name is kept.
pub open spec fn month_key_of(month: u8) -> Seq<char> {
    "lectionary.month_"@ + decimal(month as nat)
}

/// The name under which the text of a month's name is kept.
pub fn month_key(month: u8) -> (r: String)
    ensures
        r@ == month_key_of(month),
{
    let mut r = String::from_str("lectionary.month_");
    r.append(decimal_text(month as u16).as_str());
    r
}

/// The English name of a month.
pub open spec fn month_name_of(month: u8) -> Seq<char> {
    if month == 1 {
        "January"@
    } else if month == 2 {
        "February"@
    } else if month == 3 {
        "March"@
    } else if month == 4 {
        "April"@
    } else if month == 5 {
        "May"@
    } else if month == 6 {
        "June"@
    } else if month == 7 {
        "July"@
    } else if month == 8 {
        "August"@
    } else if month == 9 {
        "September"@
    } else if month == 10 {
        "October"@
    } else if month == 11 {
        "November"@
    } else {
        "December"@
    }
}

/// The English name of a month. The months count from 1 to 12.
pub fn month_name(month: u8) -> (r: &'static str)
    requires
        1 <= month <= 12,
    ensures
        r@ == month_name_of(month),
{
    if month == 1 {
        "January"
    } else if month == 2 {
        "February"
    } else if month == 3 {
        "March"
    } else if month == 4 {
        "April"
    } else if month == 5 {
        "May"
    } else if month == 6 {
        "June"
    } else if month == 7 {
        "July"
    } else if month == 8 {
        "August"
    } else if month == 9 {
        "September"
    } else if month == 10 {
        "October"
    } else if month == 11 {
        "November"
    } else {
        "December"
    }
}

/// The label of the way to a neighbouring month: the name of that month,
/// and behind it the year where the year changes.
pub open spec fn adjacent_label_of(name: Seq<char>, year: u16, month: u8, increase: bool) -> Seq<
    char,
> {
    if neighbour_of(year, month, increase).0 != year {
        name + " "@ + decimal(neighbour_of(year, month, increase).0 as nat)
    } else {
        name
    }
}

/// The label of the way to a neighbouring month. `name` is the name of that
/// month.
pub fn adjacent_label(name: &str, year: u16, month: u8, increase: bool) -> (r: String)
    requires
        1 <= month <= 12,
        0 <= neighbour_of(year, month, increase).0 <= u16::MAX,
    ensures
        r@ == adjacent_label_of(name@, year, month, increase),
{
    let (other_year, _) = adjacent_month(year, month, increase);
    let mut r = String::from_str(name);
    if other_year != year {
        r.append(" ");
        r.append(decimal_text(other_year).as_str());
    }
    r
}

/// What the form hands on for the calendar: the calendar of lesser feasts by
/// its name where it is used, and nothing otherwise.
pub fn calendar_field(using_lesser_feasts: bool) -> (r: Option<String>)
    ensures
        opt_view(r) == (if using_lesser_feasts {
            Some("lff2018"@)
        } else {
            None
        }),
{
    if using_lesser_feasts {
        Some(String::from_str("lff2018"))
    } else {
        None
    }
}

/// What the form hands on for the optional observances: `false` where they
/// are left out, and nothing otherwise.
pub fn black_letter_field(shown: bool) -> (r: Option<String>)
    ensures
        opt_view(r) == (if shown {
            None
        } else {
            Some("false"@)
        }),
{
    if shown {
        None
    } else {
        Some(String::from_str("false"))
    }
}

/// The class of a day on the calendar page: Sundays are marked.
pub fn day_class(is_sunday: bool) -> (r: &'static str)
    ensures
        r@ == (if is_sunday {
            "day sunday"@
        } else {
            "day"@
        }),
{
    if is_sunday {
        "day sunday"
    } else {
        "day"
    }
}

/// The name of a day within the calendar page: the month, a slash, the day.
pub open spec fn day_anchor_of(month: u8, day: u8) -> Seq<char> {
    decimal(month as nat) + "/"@ + decimal(day as nat)
}

/// The name of a day within the calendar page.
pub fn day_anchor(month: u8, day: u8) -> (r: String)
    ensures
        r@ == day_anchor_of(month, day),
{
    let mut r = decimal_text(month as u16);
    r.append("/");
    r.append(decimal_text(day as u16).as_str());
    r
}

/// The address of the readings for the eucharist on a day, for its own
/// observance or for an alternative one.
pub open spec fn eucharist_path(locale: Seq<char>, date: Date, alternate: Option<Seq<char>>) -> Seq<
    char,
> {
    let path = "/"@ + locale + "/readings/eucharist/?date="@ + date_name(date);
    match alternate {
        Some(feast) => path + "&alternate="@ + feast,
        None => path,
    }
}

/// The address of the readings for the eucharist on a day.
pub fn eucharist_href(locale: &str, date: Date, alternate: &Option<String>) -> (r: String)
    ensures
        r@ == eucharist_path(locale@, date, opt_view(*alternate)),
{
    let mut r = String::from_str("/");
    r.append(locale);
    r.append("/readings/eucharist/?date=");
    r.append(date_text(date).as_str());
    match alternate {
        Some(feast) => {
            r.append("&alternate=");
            r.append(feast.as_str());
        },
        None => {},
    }
    r
}

/// The address of the readings for a holy day that falls on a day.
pub open spec fn holy_day_path(locale: Seq<char>, date: Date, feast: Seq<char>) -> Seq<char> {
    "/"@ + locale + "/readings/holy-day/?date="@ + date_name(date) + "&id="@ + feast
}

/// The address of the readings for a holy day that falls on a day.
pub fn holy_day_href(locale: &str, date: Date, feast: &str) -> (r: String)
    ensures
        r@ == holy_day_path(locale@, date, feast@),
{
    let mut r = String::from_str("/");
    r.append(locale);
    r.append("/readings/holy-day/?date=");
    r.append(date_text(date).as_str());
    r.append("&id=");
    r.append(feast);
    r
}

/// What stands in place `k` of the month's grid: nothing in the places
/// before the first day, and then the days by their position in the month.
pub open spec fn cell_at(padding: nat, k: int) -> Option<usize> {
    if k < padding {
        None
    } else {
        Some((k - padding) as usize)
    }
}

/// Whether `rows` are `cells` cut into rows of `size`: every row but the last
/// has `size` cells, the last has what is left, and the cells keep their
/// order.
pub open spec fn is_chunking<A>(cells: Seq<A>, size: int, rows: Seq<Seq<A>>) -> bool {
    &&& rows.len() == (cells.len() + size - 1) / size
    &&& forall|w: int|
        0 <= w < rows.len() ==> (#[trigger] rows[w]).len() == if (w + 1) * size <= cells.len() {
            size
        } else {
            cells.len() - w * size
        }
    &&& forall|w: int, d: int|
        0 <= w < rows.len() && 0 <= d < rows[w].len() ==> #[trigger] rows[w][d] == cells[w * size
            + d]
}

/// The values of the rows of a grid.
pub open spec fn rows_view(rows: Vec<Vec<Option<usize>>>) -> Seq<Seq<Option<usize>>> {
    Seq::new(rows.len() as nat, |w: int| rows[w]@)
}

/// The cells cut into rows of `size`.
///
/// Calls `Itertools::chunks` and collects each chunk. The contract claims
/// what the method documents: each chunk yields `size` elements in order,
/// and the last one is shorter where there are not enough; no elements give
/// no chunk. The method panics for a size of zero, which is left out.
#[verifier::external_body]
fn chunked(cells: Vec<Option<usize>>, size: usize) -> (r: Vec<Vec<Option<usize>>>)
    requires
        size > 0,
    ensures
        is_chunking(cells@, size as int, rows_view(r)),
{
    cells.into_iter().chunks(size).into_iter().map(|chunk| chunk.collect()).collect()
}

/// The grid of a month: weeks of seven places, with `padding` empty places
/// before the first day, and then the `days` days by their position in the
/// month. The last week ends with the last day.
pub fn month_weeks(padding: usize, days: usize) -> (r: Vec<Vec<Option<usize>>>)
    requires
        padding + days <= usize::MAX,
    ensures
        r.len() == (padding + days + 6) / 7,
        forall|w: int|
            0 <= w < r.len() ==> (#[trigger] r[w]).len() == if (w + 1) * 7 <= padding + days {
                7
            } else {
                padding + days - w * 7
            },
        forall|w: int, d: int|
            0 <= w < r.len() && 0 <= d < r[w].len() ==> #[trigger] r[w][d] == cell_at(
                padding as nat,
                w * 7 + d,
            ),
{
    let mut cells: Vec<Option<usize>> = Vec::new();
    let mut i: usize = 0;
    while i < padding
        invariant
            i <= padding,
            cells.len() == i,
            forall|k: int| 0 <= k < i ==> cells[k] == cell_at(padding as nat, k),
        decreases padding - i,
    {
        cells.push(None);
        i += 1;
    }
    let mut j: usize = 0;
    while j < days
        invariant
            j <= days,
            padding + days <= usize::MAX,
            cells.len() == padding + j,
            forall|k: int| 0 <= k < padding + j ==> cells[k] == cell_at(padding as nat, k),
        decreases days - j,
    {
        cells.push(Some(j));
        j += 1;
    }
    let ghost all = cells@;
    let rows = chunked(cells, 7);
    proof {
        let rv = rows_view(rows);
        assert forall|w: int, d: int| 0 <= w < rows.len() && 0 <= d < rows[w].len() implies #[trigger] rows[w][d]
            == cell_at(padding as nat, w * 7 + d) by {
            assert(rv[w].len() == rows[w].len());
            assert(rv[w][d] == all[w * 7 + d]);
        }
        assert forall|w: int| 0 <= w < rows.len() implies (#[trigger] rows[w]).len() == if (w + 1)
            * 7 <= padding + days {
            7
        } else {
            padding + days - w * 7
        } by {
            assert(rv[w].len() == rows[w].len());
        }
    }
    rows
}

/// What the form of the calendar page asks for.
#[derive(Debug, Clone, PartialEq, Eq, Default)]
pub struct CalendarDayQuery {
    pub month: Option<String>,
    pub calendar: Option<String>,
    pub blackletter: Option<String>,
}

/// The month that the page shows: the one that the form names, or the
/// current one where it names none that can be read.
pub open spec fn month_shown(month: Option<Seq<char>>, today: (u16, u8)) -> (u16, u8) {
    match month {
        Some(text) => match year_and_month(text) {
            Some(named) => named,
            None => today,
        },
        None => today,
    }
}

/// The month that the page shows. `today` is the current year and month.
pub fn shown_month(query: &CalendarDayQuery, today: (u16, u8)) -> (r: (u16, u8))
    ensures
        r == month_shown(opt_view(query.month), today),
{
    match &query.month {
        Some(text) => match parse_month(text.as_str()) {
            Some(named) => named,
            None => today,
        },
        None => today,
    }
}

/// A commemoration that falls on a day, as the calendar ranks it.
#[derive(Debug, Clone, PartialEq, Eq)]
pub struct HolyDay {
    /// The name by which the calendar knows it.
    pub feast: String,
    /// Its name in the reader's language.
    pub name: String,
    /// Whether it is an ember day.
    pub ember_day: bool,
    /// Whether its observance is optional.
    pub optional: bool,
}

/// The mathematical value of a [`HolyDay`].
pub struct HolyDayView {
    pub feast: Seq<char>,
    pub name: Seq<char>,
    pub ember_day: bool,
    pub optional: bool,
}

impl View for HolyDay {
    type V = HolyDayView;

    open spec fn view(&self) -> HolyDayView {
        HolyDayView {
            feast: self.feast@,
            name: self.name@,
            ember_day: self.ember_day,
            optional: self.optional,
        }
    }
}

/// The values of a list of commemorations.
pub open spec fn holy_days_view(days: Vec<HolyDay>) -> Seq<HolyDayView> {
    Seq::new(days.len() as nat, |i: int| days[i]@)
}

/// The values of a list of notes: pairs of a feast and its name.
pub open spec fn notes_view(notes: Vec<(String, String)>) -> Seq<(Seq<char>, Seq<char>)> {
    Seq::new(notes.len() as nat, |i: int| (notes[i].0@, notes[i].1@))
}

/// The note that stands for a commemoration: its feast and its name.
pub open spec fn note_of(day: HolyDayView) -> (Seq<char>, Seq<char>) {
    (day.feast, day.name)
}

/// The notes of the first `n` commemorations that `wanted` picks, in order.
pub open spec fn notes_upto(
    days: Seq<HolyDayView>,
    wanted: spec_fn(HolyDayView) -> bool,
    n: int,
) -> Seq<(Seq<char>, Seq<char>)>
    decreases n,
{
    if n <= 0 {
        Seq::empty()
    } else if wanted(days[n - 1]) {
        notes_upto(days, wanted, n - 1).push(note_of(days[n - 1]))
    } else {
        notes_upto(days, wanted, n - 1)
    }
}

/// The ember days among the commemorations of a day, which are noted on it.
pub fn other_notes(days: &Vec<HolyDay>) -> (r: Vec<(String, String)>)
    ensures
        notes_view(r) == notes_upto(
            holy_days_view(*days),
            |d: HolyDayView| d.ember_day,
            days.len() as int,
        ),
{
    let ghost wanted = |d: HolyDayView| d.ember_day;
    let mut out: Vec<(String, String)> = Vec::new();
    let mut i: usize = 0;
    assert(notes_view(out) =~= notes_upto(holy_days_view(*days), wanted, 0));
    while i < days.len()
        invariant
            i <= days.len(),
            wanted == |d: HolyDayView| d.ember_day,
            notes_view(out) == notes_upto(holy_days_view(*days), wanted, i as int),
        decreases days.len() - i,
    {
        if days[i].ember_day {
            let ghost before = notes_view(out);
            out.push((days[i].feast.clone(), days[i].name.clone()));
            assert(notes_view(out) =~= before.push(note_of(holy_days_view(*days)[i as int])));
        }
        i += 1;
    }
    out
}

/// The optional observances among the commemorations of a day, which are
/// listed on it where the reader has not left them out.
pub fn black_letter_days(days: &Vec<HolyDay>, shown: bool) -> (r: Vec<(String, String)>)
    ensures
        notes_view(r) == notes_upto(
            holy_days_view(*days),
            |d: HolyDayView| shown && d.optional,
            days.len() as int,
        ),
{
    let ghost wanted = |d: HolyDayView| shown && d.optional;
    let mut out: Vec<(String, String)> = Vec::new();
    let mut i: usize = 0;
    assert(notes_view(out) =~= notes_upto(holy_days_view(*days), wanted, 0));
    while i < days.len()
        invariant
            i <= days.len(),
            wanted == |d: HolyDayView| shown && d.optional,
            notes_view(out) == notes_upto(holy_days_view(*days), wanted, i as int),
        decreases days.len() - i,
    {
        if shown && days[i].optional {
            let ghost before = notes_view(out);
            out.push((days[i].feast.clone(), days[i].name.clone()));
            assert(notes_view(out) =~= before.push(note_of(holy_days_view(*days)[i as int])));
        }
        i += 1;
    }
    out
}

} // verus!
