use tfmttools::filters::{year, year_from_matches, zero_pad};

#[test]
fn year_of_a_year_first_date() {
    assert_eq!(year("2024-05-06"), Some(Ok("2024".to_string())));
    assert_eq!(year("released 1999-12-31T10:00"), Some(Ok("1999".to_string())));
}

#[test]
fn year_of_a_year_last_date() {
    assert_eq!(year("06-05-2024"), Some(Ok("2024".to_string())));
}

#[test]
fn year_of_bare_digits() {
    assert_eq!(year("(c) 1987"), Some(Ok("1987".to_string())));
    assert_eq!(year("19871"), Some(Ok("1987".to_string())));
}

#[test]
fn date_without_year_is_an_error() {
    assert_eq!(year("no date"), Some(Err("Unable to parse date: no date".to_string())));
    assert_eq!(year(""), Some(Err("Unable to parse date: ".to_string())));
}

#[test]
fn year_from_given_matches() {
    assert_eq!(year_from_matches(Some("2001-02-03"), Some("x"), Some("y"), "d"), Ok("2001".to_string()));
    assert_eq!(year_from_matches(None, Some("02-03-2001"), Some("y"), "d"), Ok("2001".to_string()));
    assert_eq!(year_from_matches(None, None, Some("1234"), "d"), Ok("1234".to_string()));
    assert_eq!(year_from_matches(None, None, None, "d"), Err("Unable to parse date: d".to_string()));
}

#[test]
fn zero_pad_fills_with_zeros() {
    assert_eq!(zero_pad("7", 2), "07");
    assert_eq!(zero_pad("7", 0), "7");
    assert_eq!(zero_pad("123", 2), "123");
    assert_eq!(zero_pad("-3", 4), "00-3");
}
