//! The addresses of the pages, as text.

use vstd::prelude::*;
use vstd::string::StringExecFns;
use crate::document::opt_view;
use crate::resolver::Date;
use crate::version::Version;

verus! {

/// The name of an edition as it stands in an address.
pub open spec fn version_name(version: Version) -> Seq<char> {
    match version {
        Version::BCP1979 => "BCP1979"@,
        Version::RiteI => "RiteI"@,
        Version::RiteII => "RiteII"@,
        Version::EOW => "EOW"@,
        Version::Expansive => "Expansive"@,
        Version::LibroDeOracionComun => "LibroDeOracionComun"@,
        Version::Parallel => "Parallel"@,
    }
}

/// The name of an edition as it stands in an address.
pub fn version_label(version: Version) -> (r: &'static str)
    ensures
        r@ == version_name(version),
{
    match version {
        Version::BCP1979 => "BCP1979",
        Version::RiteI => "RiteI",
        Version::RiteII => "RiteII",
        Version::EOW => "EOW",
        Version::Expansive => "Expansive",
        Version::LibroDeOracionComun => "LibroDeOracionComun",
        Version::Parallel => "Parallel",
    }
}

/// The character of a decimal digit.
pub open spec fn digit_char(d: nat) -> char {
    if d == 0 {
        '0'
    } else if d == 1 {
        '1'
    } else if d == 2 {
        '2'
    } else if d == 3 {
        '3'
    } else if d == 4 {
        '4'
    } else if d == 5 {
        '5'
    } else if d == 6 {
        '6'
    } else if d == 7 {
        '7'
    } else if d == 8 {
        '8'
    } else {
        '9'
    }
}

/// A number in decimal notation, without leading zeros.
pub open spec fn decimal(n: nat) -> Seq<char>
    decreases n,
{
    if n < 10 {
        seq![digit_char(n)]
    } else {
        decimal(n / 10).push(digit_char(n % 10))
    }
}

/// The text of one decimal digit.
fn digit_text(d: u16) -> (r: &'static str)
    requires
        d < 10,
    ensures
        r@ == seq![digit_char(d as nat)],
{
    proof {
        reveal_strlit("0");
        reveal_strlit("1");
        reveal_strlit("2");
        reveal_strlit("3");
        reveal_strlit("4");
        reveal_strlit("5");
        reveal_strlit("6");
        reveal_strlit("7");
        reveal_strlit("8");
        reveal_strlit("9");
    }
    let r = if d == 0 {
        "0"
    } else if d == 1 {
        "1"
    } else if d == 2 {
        "2"
    } else if d == 3 {
        "3"
    } else if d == 4 {
        "4"
    } else if d == 5 {
        "5"
    } else if d == 6 {
        "6"
    } else if d == 7 {
        "7"
    } else if d == 8 {
        "8"
    } else {
        "9"
    };
    assert(r@ =~= seq![digit_char(d as nat)]);
    r
}

/// A number in decimal notation, without leading zeros.
pub fn decimal_text(n: u16) -> (r: String)
    ensures
        r@ == decimal(n as nat),
    decreases n,
{
    if n < 10 {
        String::from_str(digit_text(n))
    } else {
        let r = decimal_text(n / 10).concat(digit_text(n % 10));
        assert(r@ =~= decimal(n as nat));
        r
    }
}

/// A date as it stands in an address: year, month and day in decimal
/// notation, with a hyphen between them.
pub open spec fn date_name(date: Date) -> Seq<char> {
    decimal(date.year as nat) + "-"@ + decimal(date.month as nat) + "-"@ + decimal(
        date.day as nat,
    )
}

/// A date as it stands in an address.
pub fn date_text(date: Date) -> (r: String)
    ensures
        r@ == date_name(date),
{
    let mut r = decimal_text(date.year);
    r.append("-");
    r.append(decimal_text(date.month as u16).as_str());
    r.append("-");
    r.append(decimal_text(date.day as u16).as_str());
    r
}

/// The address of the page for a category, with the slug and the edition
/// behind it where the request names them.
pub open spec fn base_path_of(
    locale: Seq<char>,
    category: Seq<char>,
    slug: Option<Seq<char>>,
    version: Option<Version>,
) -> Seq<char> {
    let root = "/"@ + locale + "/document/"@ + category;
    let with_slug = match slug {
        Some(slug) => root + "/"@ + slug,
        None => root,
    };
    match version {
        Some(version) => with_slug + "/"@ + version_name(version),
        None => with_slug,
    }
}

/// The address of the page for a category, with the slug and the edition
/// behind it where the request names them.
pub fn base_path(
    locale: &str,
    category: &str,
    slug: &Option<String>,
    version: Option<Version>,
) -> (r: String)
    ensures
        r@ == base_path_of(
            locale@,
            category@,
            opt_view(*slug),
            version,
        ),
{
    let mut r = String::from_str("/");
    r.append(locale);
    r.append("/document/");
    r.append(category);
    match slug {
        Some(slug) => {
            r.append("/");
            r.append(slug.as_str());
        },
        None => {},
    }
    match version {
        Some(version) => {
            r.append("/");
            r.append(version_label(version));
        },
        None => {},
    }
    r
}

/// The address that a line of a listing of candidates leads to: the page of
/// the category under the line's slug, if it has one, and its edition.
pub fn summary_link(locale: &str, category: &str, slug: &Option<String>, version: Version) -> (r:
    String)
    ensures
        r@ == base_path_of(locale@, category@, opt_view(*slug), Some(version)),
{
    base_path(locale, category, slug, Some(version))
}

/// The address to go to when the reader picks a date, or clears it.
pub open spec fn dated_path(base: Seq<char>, date: Option<Seq<char>>) -> Seq<char> {
    match date {
        Some(date) => base + "/"@ + date,
        None => base,
    }
}

/// The address to go to when the reader picks a date, or clears it.
pub fn date_href(base: &str, date: &Option<String>) -> (r: String)
    ensures
        r@ == dated_path(base@, opt_view(*date)),
{
    let mut r = String::from_str(base);
    match date {
        Some(date) => {
            r.append("/");
            r.append(date.as_str());
        },
        None => {},
    }
    r
}

/// The name of the calendar that is used where a request names none.
pub open spec fn default_calendar() -> Seq<char> {
    "bcp1979"@
}

/// The address of a page compiled with chosen preferences: the base, the
/// date, the calendar (the default one where none is named), the serialized
/// preferences, and the alternate observance where one is named.
pub open spec fn preferences_path(
    base: Seq<char>,
    date: Seq<char>,
    calendar: Option<Seq<char>>,
    prefs: Seq<char>,
    alternate: Option<Seq<char>>,
) -> Seq<char> {
    let calendar = match calendar {
        Some(calendar) => calendar,
        None => default_calendar(),
    };
    let path = base + "/"@ + date + "/"@ + calendar + "/"@ + prefs;
    match alternate {
        Some(alternate) => path + "/"@ + alternate,
        None => path,
    }
}

/// The address of a page compiled with chosen preferences.
pub fn preferences_url(
    base: &str,
    date: &str,
    calendar: &Option<String>,
    prefs: &str,
    alternate: &Option<String>,
) -> (r: String)
    ensures
        r@ == preferences_path(base@, date@, opt_view(*calendar), prefs@, opt_view(*alternate)),
{
    let mut r = String::from_str(base);
    r.append("/");
    r.append(date);
    r.append("/");
    match calendar {
        Some(calendar) => r.append(calendar.as_str()),
        None => r.append("bcp1979"),
    }
    r.append("/");
    r.append(prefs);
    match alternate {
        Some(alternate) => {
            r.append("/");
            r.append(alternate.as_str());
        },
        None => {},
    }
    r
}

/// The patterns of the addresses that lead to a page, from the shortest to
/// the longest.
pub open spec fn static_paths() -> Seq<Seq<char>> {
    seq![
        "{category}"@,
        "{category}/{version}"@,
        "{category}/{slug}/{version}"@,
        "{category}/{slug}/{version}/{date}"@,
        "{category}/{slug}/{version}/{date}/{calendar}"@,
        "{category}/{slug}/{version}/{date}/{calendar}/{prefs}"@,
        "{category}/{slug}/{version}/{date}/{calendar}/{prefs}/{alternate}"@,
    ]
}

/// The patterns of the addresses that lead to a page.
pub fn get_static_paths() -> (r: Vec<String>)
    ensures
        r.len() == static_paths().len(),
        forall|i: int| 0 <= i < r.len() ==> r[i]@ == static_paths()[i],
{
    let mut r: Vec<String> = Vec::new();
    r.push(String::from_str("{category}"));
    r.push(String::from_str("{category}/{version}"));
    r.push(String::from_str("{category}/{slug}/{version}"));
    r.push(String::from_str("{category}/{slug}/{version}/{date}"));
    r.push(String::from_str("{category}/{slug}/{version}/{date}/{calendar}"));
    r.push(String::from_str("{category}/{slug}/{version}/{date}/{calendar}/{prefs}"));
    r.push(String::from_str("{category}/{slug}/{version}/{date}/{calendar}/{prefs}/{alternate}"));
    r
}

} // verus!
