use gores_map_downloader::text::{
    format_bytes, format_release_date, http_status_reason, i64_to_string, render_stars,
    u64_to_string,
};

#[test]
fn decimal_rendering_is_exact() {
    assert_eq!(u64_to_string(0), "0");
    assert_eq!(u64_to_string(7), "7");
    assert_eq!(u64_to_string(10), "10");
    assert_eq!(u64_to_string(12345), "12345");
    assert_eq!(u64_to_string(u64::MAX), "18446744073709551615");
}

#[test]
fn signed_rendering_is_exact() {
    assert_eq!(i64_to_string(0), "0");
    assert_eq!(i64_to_string(42), "42");
    assert_eq!(i64_to_string(-1), "-1");
    assert_eq!(i64_to_string(-12345), "-12345");
    assert_eq!(i64_to_string(i64::MIN), "-9223372036854775808");
}

#[test]
fn http_reasons_carry_the_code() {
    assert_eq!(http_status_reason(404), "HTTP 404");
    assert_eq!(http_status_reason(500), "HTTP 500");
    assert_eq!(http_status_reason(0), "HTTP 0");
}

#[test]
fn bytes_below_a_kilobyte_are_whole() {
    assert_eq!(format_bytes(0), "0 B");
    assert_eq!(format_bytes(512), "512 B");
    assert_eq!(format_bytes(1023), "1023 B");
}

#[test]
fn kilobytes_have_one_decimal() {
    assert_eq!(format_bytes(1024), "1.0 KB");
    assert_eq!(format_bytes(1536), "1.5 KB");
    assert_eq!(format_bytes(10240), "10.0 KB");
    assert_eq!(format_bytes(1048575), "1024.0 KB");
}

#[test]
fn megabytes_have_one_decimal() {
    assert_eq!(format_bytes(1048576), "1.0 MB");
    assert_eq!(format_bytes(2621440), "2.5 MB");
    assert_eq!(format_bytes(1100000), "1.0 MB");
    assert_eq!(format_bytes(157286400), "150.0 MB");
}

#[test]
fn halfway_byte_counts_round_to_the_even_tenth() {
    // 12800/1024 and 17920/1024 sit exactly between two tenths
    assert_eq!(format_bytes(1280), "1.2 KB");
    assert_eq!(format_bytes(1792), "1.8 KB");
    assert_eq!(format_bytes(1310720), "1.2 MB");
    assert_eq!(format_bytes(1835008), "1.8 MB");
}

#[test]
fn star_ratings_render_five_symbols() {
    assert_eq!(render_stars(0), "☆☆☆☆☆");
    assert_eq!(render_stars(3), "★★★☆☆");
    assert_eq!(render_stars(5), "★★★★★");
}

#[test]
fn release_dates_starting_with_a_year_pass_through() {
    assert_eq!(format_release_date("2023-05-01"), "2023-05-01");
    assert_eq!(format_release_date("1999"), "1999");
}

#[test]
fn release_dates_without_a_year_read_not_available() {
    assert_eq!(format_release_date(""), "N/A");
    assert_eq!(format_release_date("202"), "N/A");
    assert_eq!(format_release_date("20x3-01-01"), "N/A");
    assert_eq!(format_release_date("unknown"), "N/A");
}
