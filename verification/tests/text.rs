use fs_scan::objects::{build_result, Elapsed};
use fs_scan::text::{choose_duration_text, duration_to_display, nice_number, to_decimal};

#[test]
fn decimal_text_of_numbers() {
    assert_eq!(to_decimal(0), "0");
    assert_eq!(to_decimal(7), "7");
    assert_eq!(to_decimal(10), "10");
    assert_eq!(to_decimal(1_234_567_890), "1234567890");
    assert_eq!(to_decimal(u128::MAX), u128::MAX.to_string());
}

#[test]
fn nice_number_below_a_thousand() {
    assert_eq!(nice_number(0), "0");
    assert_eq!(nice_number(999), "999");
}

#[test]
fn nice_number_in_thousands() {
    assert_eq!(nice_number(1_000), "1K (1000)");
    assert_eq!(nice_number(15_320), "15K (15320)");
    assert_eq!(nice_number(999_999), "999K (999999)");
}

#[test]
fn nice_number_in_millions() {
    assert_eq!(nice_number(1_000_000), "1M (1000000)");
    assert_eq!(nice_number(2_500_000), "2M (2500000)");
}

#[test]
fn short_durations_are_shown_in_milliseconds() {
    let d = Elapsed { secs: 0, nanos: 250_000_000 };
    assert_eq!(duration_to_display(&d), "250ms");
    let one = Elapsed { secs: 1, nanos: 0 };
    assert_eq!(duration_to_display(&one), "1000ms");
    assert_eq!(duration_to_display(&Elapsed::zero()), "0ms");
}

#[test]
fn long_durations_are_shown_in_words() {
    let d = Elapsed { secs: 5, nanos: 0 };
    assert_eq!(duration_to_display(&d), "5 seconds");
    let just_over = Elapsed { secs: 1, nanos: 1_000_000 };
    assert_eq!(duration_to_display(&just_over), "1 second");
    let long = Elapsed { secs: 3 * 60 * 60, nanos: 0 };
    assert_eq!(duration_to_display(&long), "3 hours");
}

#[test]
fn choose_duration_text_picks_by_the_milliseconds() {
    let short = Elapsed { secs: 0, nanos: 999_999 };
    assert_eq!(choose_duration_text(&short, String::from("words")), "0ms");
    let long = Elapsed { secs: 1, nanos: 1_000_000 };
    assert_eq!(choose_duration_text(&long, String::from("words")), "words");
}

#[test]
fn elapsed_in_milliseconds() {
    assert_eq!(Elapsed { secs: 2, nanos: 345_678_901 }.as_millis(), 2_345);
    assert_eq!(Elapsed { secs: 0, nanos: 999_999 }.as_millis(), 0);
    assert_eq!(
        Elapsed { secs: u64::MAX, nanos: 999_999_999 }.as_millis(),
        u64::MAX as u128 * 1_000 + 999
    );
}

#[test]
fn csv_line_has_every_field_in_order() {
    let mut res = build_result("/srv/data");
    res.duration = Elapsed { secs: 1, nanos: 500_000_000 };
    res.files = 105;
    res.directories = 2;
    res.empty_file = 1;
    res.less_than_4_k = 2;
    res.between_4_k_8_k = 3;
    res.between_8_k_16_k = 4;
    res.between_16_k_32_k = 5;
    res.between_32_k_64_k = 6;
    res.between_64_k_128_k = 7;
    res.between_128_k_256_k = 8;
    res.between_256_k_512_k = 9;
    res.between_512_k_1_m = 10;
    res.between_1_m_10_m = 11;
    res.between_10_m_100_m = 12;
    res.between_100_m_1_g = 13;
    res.more_than_1_g = 14;
    assert_eq!(res.csv_line(), "/srv/data,1500,105,2,1,2,3,4,5,6,7,8,9,10,11,12,13,14");
}

#[test]
fn csv_line_of_a_fresh_result() {
    let res = build_result("x");
    assert_eq!(res.csv_line(), "x,0,0,0,0,0,0,0,0,0,0,0,0,0,0,0,0,0");
}
