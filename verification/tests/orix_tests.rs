use butai::orix::orix_event_url;

#[test]
fn event_page_of_a_month() {
    assert_eq!(orix_event_url(2025, 3), "https://www.orixtheater.jp/event/?yearId=2025&monthId=3");
}

#[test]
fn event_page_of_december() {
    assert_eq!(orix_event_url(1999, 12), "https://www.orixtheater.jp/event/?yearId=1999&monthId=12");
}

#[test]
fn event_page_of_a_negative_year() {
    assert_eq!(orix_event_url(-44, 3), "https://www.orixtheater.jp/event/?yearId=-44&monthId=3");
}
