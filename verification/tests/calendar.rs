use liturgy_pages::month::{
    adjacent_label, adjacent_month, black_letter_days, black_letter_field, calendar_field,
    checked_adjacent_month, datetime_value, day_anchor, day_class, eucharist_href, holy_day_href,
    month_key, month_name, month_value, month_weeks, other_notes, padded_text, parse_month, parse_number,
    shown_month, shows_black_letter, uses_lesser_feasts, CalendarDayQuery, HolyDay,
};
use liturgy_pages::resolver::Date;

#[test]
fn month_of_a_form() {
    assert_eq!(parse_month("2022-11"), Some((2022, 11)));
    assert_eq!(parse_month("2022-01"), Some((2022, 1)));
    assert_eq!(parse_month("0-0"), Some((0, 0)));
    assert_eq!(parse_month("65535-255"), Some((65535, 255)));
    assert_eq!(parse_month("+2022-+7"), Some((2022, 7)));
}

#[test]
fn month_of_a_form_that_is_none() {
    assert_eq!(parse_month(""), None);
    assert_eq!(parse_month("2022"), None);
    assert_eq!(parse_month("2022-"), None);
    assert_eq!(parse_month("-11"), None);
    assert_eq!(parse_month("2022-11-01"), None);
    assert_eq!(parse_month("65536-1"), None);
    assert_eq!(parse_month("2022-256"), None);
    assert_eq!(parse_month("20a2-11"), None);
    assert_eq!(parse_month("2022 -11"), None);
    assert_eq!(parse_month("+-1"), None);
    assert_eq!(parse_month("٢٠٢٢-11"), None);
}

#[test]
fn number_in_a_range_of_characters() {
    assert_eq!(parse_number("ab123cd", 2, 5, 65535), Some(123));
    assert_eq!(parse_number("ab123cd", 2, 6, 65535), None);
    assert_eq!(parse_number("007", 0, 3, 255), Some(7));
    assert_eq!(parse_number("300", 0, 3, 255), None);
    assert_eq!(parse_number("300", 0, 0, 255), None);
    assert_eq!(parse_number("+", 0, 1, 255), None);
    assert_eq!(parse_number("99999999999999999999", 0, 20, 65535), None);
}

#[test]
fn parsing_agrees_with_std() {
    for text in ["0", "12", "255", "256", "+5", "-5", "", "1x", "000000012", "65535", "65536"] {
        let n = text.chars().count();
        assert_eq!(parse_number(text, 0, n, 65535), text.parse::<u16>().ok().map(u32::from));
        assert_eq!(parse_number(text, 0, n, 255), text.parse::<u8>().ok().map(u32::from));
    }
}

#[test]
fn choices_of_the_form() {
    assert!(uses_lesser_feasts(&None));
    assert!(uses_lesser_feasts(&Some("lff2018".to_string())));
    assert!(!uses_lesser_feasts(&Some("bcp".to_string())));
    assert!(shows_black_letter(&None));
    assert!(shows_black_letter(&Some("true".to_string())));
    assert!(!shows_black_letter(&Some("false".to_string())));
    assert_eq!(calendar_field(true), Some("lff2018".to_string()));
    assert_eq!(calendar_field(false), None);
    assert_eq!(black_letter_field(true), None);
    assert_eq!(black_letter_field(false), Some("false".to_string()));
}

#[test]
fn neighbouring_months() {
    assert_eq!(adjacent_month(2022, 6, true), (2022, 7));
    assert_eq!(adjacent_month(2022, 6, false), (2022, 5));
    assert_eq!(adjacent_month(2022, 12, true), (2023, 1));
    assert_eq!(adjacent_month(2022, 1, false), (2021, 12));
    assert_eq!(adjacent_month(2022, 12, false), (2022, 11));
    assert_eq!(adjacent_month(2022, 1, true), (2022, 2));
}

#[test]
fn neighbouring_months_at_the_limits() {
    assert_eq!(checked_adjacent_month(0, 1, false), None);
    assert_eq!(checked_adjacent_month(65535, 12, true), None);
    assert_eq!(checked_adjacent_month(2022, 0, true), None);
    assert_eq!(checked_adjacent_month(2022, 13, false), None);
    assert_eq!(checked_adjacent_month(0, 1, true), Some((0, 2)));
    assert_eq!(checked_adjacent_month(65535, 12, false), Some((65535, 11)));
    assert_eq!(checked_adjacent_month(2022, 12, true), Some((2023, 1)));
}

#[test]
fn there_and_back_again() {
    for month in 1..=12u8 {
        let (y, m) = adjacent_month(2022, month, true);
        assert_eq!(adjacent_month(y, m, false), (2022, month));
    }
}

#[test]
fn labels_of_the_neighbours() {
    assert_eq!(adjacent_label("January", 2022, 12, true), "January 2023");
    assert_eq!(adjacent_label("December", 2022, 1, false), "December 2021");
    assert_eq!(adjacent_label("July", 2022, 6, true), "July");
    assert_eq!(adjacent_label("May", 2022, 6, false), "May");
    assert_eq!(month_key(1), "lectionary.month_1");
    assert_eq!(month_key(12), "lectionary.month_12");
}

#[test]
fn padded_numbers() {
    assert_eq!(padded_text(7, 2), "07");
    assert_eq!(padded_text(11, 2), "11");
    assert_eq!(padded_text(123, 2), "123");
    assert_eq!(padded_text(0, 4), "0000");
    assert_eq!(padded_text(33, 4), "0033");
    assert_eq!(padded_text(5, 0), "5");
    assert_eq!(month_value(2022, 3), "2022-03");
    assert_eq!(month_value(800, 12), "0800-12");
    assert_eq!(datetime_value(2022, 3, 9), "2022-03-09");
    assert_eq!(datetime_value(2022, 11, 27), "2022-11-27");
}

#[test]
fn days_on_the_page() {
    assert_eq!(day_class(true), "day sunday");
    assert_eq!(day_class(false), "day");
    assert_eq!(day_anchor(3, 9), "3/9");
}

#[test]
fn addresses_of_the_readings() {
    let day = Date { year: 2022, month: 3, day: 9 };
    assert_eq!(eucharist_href("en", day, &None), "/en/readings/eucharist/?date=2022-3-9");
    assert_eq!(
        eucharist_href("en", day, &Some("GregoryOfNyssa".to_string())),
        "/en/readings/eucharist/?date=2022-3-9&alternate=GregoryOfNyssa"
    );
    assert_eq!(
        holy_day_href("es", day, "GregoryOfNyssa"),
        "/es/readings/holy-day/?date=2022-3-9&id=GregoryOfNyssa"
    );
}

#[test]
fn weeks_of_a_month() {
    // a month of 30 days that begins on a Tuesday
    let weeks = month_weeks(2, 30);
    assert_eq!(weeks.len(), 5);
    assert_eq!(weeks[0], vec![None, None, Some(0), Some(1), Some(2), Some(3), Some(4)]);
    assert_eq!(weeks[1], vec![Some(5), Some(6), Some(7), Some(8), Some(9), Some(10), Some(11)]);
    assert_eq!(weeks[4], vec![Some(26), Some(27), Some(28), Some(29)]);
    assert!(weeks[..4].iter().all(|w| w.len() == 7));
}

#[test]
fn weeks_that_fill_the_grid() {
    // February of 28 days that begins on a Sunday
    let weeks = month_weeks(0, 28);
    assert_eq!(weeks.len(), 4);
    assert!(weeks.iter().all(|w| w.len() == 7));
    assert_eq!(weeks[3][6], Some(27));
    // 31 days that begin on a Saturday need six weeks
    let weeks = month_weeks(6, 31);
    assert_eq!(weeks.len(), 6);
    assert_eq!(weeks[0], vec![None, None, None, None, None, None, Some(0)]);
    assert_eq!(weeks[5], vec![Some(29), Some(30)]);
}

#[test]
fn weeks_of_nothing() {
    assert!(month_weeks(0, 0).is_empty());
    assert_eq!(month_weeks(3, 0), vec![vec![None, None, None]]);
}

#[test]
fn month_that_the_page_shows() {
    let mut query = CalendarDayQuery::default();
    assert_eq!(shown_month(&query, (2022, 10)), (2022, 10));
    query.month = Some("2023-04".to_string());
    assert_eq!(shown_month(&query, (2022, 10)), (2023, 4));
    query.month = Some("April".to_string());
    assert_eq!(shown_month(&query, (2022, 10)), (2022, 10));
}

#[test]
fn notes_of_a_day() {
    let day = |feast: &str, ember_day: bool, optional: bool| HolyDay {
        feast: feast.to_string(),
        name: feast.to_uppercase(),
        ember_day,
        optional,
    };
    let days = vec![
        day("ember-wednesday", true, false),
        day("lucy", false, true),
        day("andrew", false, false),
        day("john-of-the-cross", false, true),
    ];
    assert_eq!(other_notes(&days), vec![("ember-wednesday".to_string(), "EMBER-WEDNESDAY".to_string())]);
    assert_eq!(
        black_letter_days(&days, true),
        vec![
            ("lucy".to_string(), "LUCY".to_string()),
            ("john-of-the-cross".to_string(), "JOHN-OF-THE-CROSS".to_string())
        ]
    );
    assert!(black_letter_days(&days, false).is_empty());
    assert!(other_notes(&vec![]).is_empty());
}

#[test]
fn names_of_the_months() {
    let names = [
        "January", "February", "March", "April", "May", "June", "July", "August", "September",
        "October", "November", "December",
    ];
    for month in 1..=12u8 {
        assert_eq!(month_name(month), names[usize::from(month) - 1]);
    }
    let (_, next) = adjacent_month(2022, 12, true);
    assert_eq!(adjacent_label(month_name(next), 2022, 12, true), "January 2023");
}
