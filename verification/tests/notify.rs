use lms_player::notify::{now_playing_body, year_of_date};

#[test]
fn years_of_dates() {
    assert_eq!(year_of_date("2003-07-15"), Some(String::from("2003")));
    assert_eq!(year_of_date("2003"), Some(String::from("2003")));
    assert_eq!(year_of_date(" 1999 "), Some(String::from("1999")));
    assert_eq!(year_of_date("07-2003"), Some(String::from("2003")));
    assert_eq!(year_of_date("12-07-1\u{2003}"), None);
    assert_eq!(year_of_date("\u{3000}2010\u{a0}-01"), Some(String::from("2010")));
    assert_eq!(year_of_date("abcd-20x0"), None);
    assert_eq!(year_of_date(""), None);
    assert_eq!(year_of_date("1-2-3456-7890"), Some(String::from("3456")));
    assert_eq!(year_of_date("２００３"), None);
}

#[test]
fn notification_bodies() {
    assert_eq!(now_playing_body(None, Some(String::from("a")), None, None), None);
    assert_eq!(
        now_playing_body(Some(String::from("Song")), None, None, None),
        Some(String::from("<b>Song</b>"))
    );
    assert_eq!(
        now_playing_body(
            Some(String::from("Song")),
            Some(String::from("Band")),
            Some(String::from("Album")),
            Some(String::from("2001"))
        ),
        Some(String::from("<b>Song</b> by <b>Band</b> from <b>Album</b> (2001)"))
    );
    assert_eq!(
        now_playing_body(Some(String::from("S")), None, Some(String::from("A")), None),
        Some(String::from("<b>S</b> from <b>A</b>"))
    );
}
