use release_prs::decimal::u64_to_string;
use release_prs::title::format_ymd;
use release_prs::title::release_title;
use release_prs::title::release_title_today;

#[test]
fn decimal_renders_exactly() {
    assert_eq!(u64_to_string(0), "0");
    assert_eq!(u64_to_string(7), "7");
    assert_eq!(u64_to_string(10), "10");
    assert_eq!(u64_to_string(12345), "12345");
    assert_eq!(u64_to_string(u64::MAX), "18446744073709551615");
}

#[test]
fn date_renders_zero_padded() {
    assert_eq!(format_ymd(2024, 3, 7), "2024-03-07");
    assert_eq!(format_ymd(987, 12, 31), "0987-12-31");
    assert_eq!(format_ymd(0, 1, 1), "0000-01-01");
    assert_eq!(format_ymd(9999, 10, 20), "9999-10-20");
}

#[test]
fn title_embeds_base_and_date() {
    assert_eq!(release_title("main", 2024, 3, 7), "Release to main 2024-03-07");
    assert_eq!(release_title("stable", 2026, 10, 12), "Release to stable 2026-10-12");
}

#[test]
fn titles_do_not_depend_on_the_repository() {
    // Two repositories handled on the same day with the same base get the
    // identical title: nothing repository-dependent goes in.
    let for_first_repo = release_title("main", 2026, 10, 12);
    let for_second_repo = release_title("main", 2026, 10, 12);
    assert_eq!(for_first_repo, for_second_repo);
}

#[test]
fn todays_title_has_the_expected_shape() {
    let title = release_title_today("main").expect("the clock shows a four-digit year");
    let bytes = title.as_bytes();
    assert!(title.starts_with("Release to main "));
    assert_eq!(title.len(), "Release to main ".len() + 10);
    let date = &bytes[16..];
    assert_eq!(date[4], b'-');
    assert_eq!(date[7], b'-');
    for i in [0usize, 1, 2, 3, 5, 6, 8, 9] {
        assert!(date[i].is_ascii_digit());
    }
}
