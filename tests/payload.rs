use arraybutt::payload::{footer_text, month_name, month_number};
use arraybutt::quotes::Quote;

fn quote(year: &str, month: &str) -> Quote {
    Quote { year: year.to_string(), month: month.to_string(), text: "t".to_string() }
}

#[test]
fn month_labels_read_as_numbers() {
    assert_eq!(month_number("1"), Some(1));
    assert_eq!(month_number("12"), Some(12));
    assert_eq!(month_number("03"), Some(3));
    assert_eq!(month_number("+7"), Some(7));
    assert_eq!(month_number("0"), None);
    assert_eq!(month_number("13"), None);
    assert_eq!(month_number("120"), None);
    assert_eq!(month_number(""), None);
    assert_eq!(month_number("+"), None);
    assert_eq!(month_number("3a"), None);
    assert_eq!(month_number("-3"), None);
}

#[test]
fn month_names_follow_the_calendar() {
    assert_eq!(month_name("1"), Some("January"));
    assert_eq!(month_name("3"), Some("March"));
    assert_eq!(month_name("9"), Some("September"));
    assert_eq!(month_name("12"), Some("December"));
    assert_eq!(month_name("99"), None);
}

#[test]
fn footer_names_month_and_year() {
    assert_eq!(footer_text(&quote("2020", "3")), "Arraying, March 2020");
    assert_eq!(footer_text(&quote("2018", "11")), "Arraying, November 2018");
    assert_eq!(footer_text(&quote("2018", "+01")), "Arraying, January 2018");
}
