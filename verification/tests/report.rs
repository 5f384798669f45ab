use panther::report::{download_line, probe_line, STATUS_OK};

#[test]
fn status_200_is_available() {
    assert_eq!(STATUS_OK, 200);
    assert_eq!(probe_line("https://example.com", 200), "https://example.com is available");
}

#[test]
fn status_404_is_reported_with_its_number() {
    assert_eq!(probe_line("https://example.com", 404), "https://example.com responded with 404");
}

#[test]
fn every_other_status_is_reported_in_decimal() {
    assert_eq!(probe_line("u", 0), "u responded with 0");
    assert_eq!(probe_line("u", 7), "u responded with 7");
    assert_eq!(probe_line("u", 10), "u responded with 10");
    assert_eq!(probe_line("u", 199), "u responded with 199");
    assert_eq!(probe_line("u", 201), "u responded with 201");
    assert_eq!(probe_line("u", 204), "u responded with 204");
    assert_eq!(probe_line("u", 301), "u responded with 301");
    assert_eq!(probe_line("u", 500), "u responded with 500");
    assert_eq!(probe_line("u", 1000), "u responded with 1000");
    assert_eq!(probe_line("u", 65535), "u responded with 65535");
}

#[test]
fn decimal_agrees_with_the_standard_rendering() {
    for status in 0..=u16::MAX {
        if status != 200 {
            assert_eq!(probe_line("", status), format!(" responded with {}", status));
        }
    }
}

#[test]
fn the_address_is_printed_as_given() {
    assert_eq!(probe_line("", 200), " is available");
    assert_eq!(
        probe_line("http://h\u{f4}te.example/a b?c=d#e", 200),
        "http://h\u{f4}te.example/a b?c=d#e is available"
    );
}

#[test]
fn the_download_line_names_the_path() {
    assert_eq!(download_line("index.min.json"), "File downloaded successfully to: index.min.json");
    assert_eq!(download_line(""), "File downloaded successfully to: ");
}
