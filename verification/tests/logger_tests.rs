use l2portal::logger::{format_log_line, short_tag_of, Level};

#[test]
fn log_line_format() {
    assert_eq!(format_log_line(Level::Info, "l2portal::server", "UDP socket bound"), "[INFO] server: UDP socket bound");
    assert_eq!(format_log_line(Level::Error, "tap", "x"), "[ERROR] tap: x");
    assert_eq!(format_log_line(Level::Warn, "a::b::c", ""), "[WARN] c: ");
    assert_eq!(Level::Debug.as_str(), "DEBUG");
    assert_eq!(Level::Trace.as_str(), "TRACE");
}

#[test]
fn tag_is_last_segment() {
    for t in ["a::b", ":::b", "a:::", "::", "a:b", "", "x::y::z", "l2portal"] {
        assert_eq!(short_tag_of(t), t.rsplit("::").next().unwrap(), "{t:?}");
    }
}
