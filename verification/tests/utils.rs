use peer::utils::log;

#[test]
fn log_line_has_the_time_in_front() {
    assert_eq!(log("12:34:56", "My address is \"127.0.0.1:9001\""), "12:34:56 | My address is \"127.0.0.1:9001\"");
    assert_eq!(log("", ""), " | ");
}
