use arcana::weather::wmo_to_icon;

#[test]
fn clear_sky_by_day_and_night() {
    assert_eq!(wmo_to_icon(0, true), "01d");
    assert_eq!(wmo_to_icon(0, false), "01n");
}

#[test]
fn each_code_family_has_its_icon() {
    assert_eq!(wmo_to_icon(2, true), "02d");
    assert_eq!(wmo_to_icon(3, false), "03n");
    assert_eq!(wmo_to_icon(48, true), "50d");
    assert_eq!(wmo_to_icon(57, true), "09d");
    assert_eq!(wmo_to_icon(63, false), "10n");
    assert_eq!(wmo_to_icon(65, true), "09d");
    assert_eq!(wmo_to_icon(67, true), "13d");
    assert_eq!(wmo_to_icon(77, false), "13n");
    assert_eq!(wmo_to_icon(81, false), "09n");
    assert_eq!(wmo_to_icon(86, true), "13d");
    assert_eq!(wmo_to_icon(99, false), "11n");
}

#[test]
fn unknown_codes_show_partly_cloudy() {
    assert_eq!(wmo_to_icon(4, true), "02d");
    assert_eq!(wmo_to_icon(1000, false), "02n");
}
