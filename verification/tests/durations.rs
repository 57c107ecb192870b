use std::time::Duration;

use arc::durations::{format_duration_ms, format_duration_short, millis_u64, tool_display_name};

#[test]
fn durations_below_a_second_in_millis() {
    assert_eq!(format_duration_ms(0), "0ms");
    assert_eq!(format_duration_ms(999), "999ms");
}

#[test]
fn durations_in_seconds_and_minutes() {
    assert_eq!(format_duration_ms(1000), "1s");
    assert_eq!(format_duration_ms(59_999), "59s");
    assert_eq!(format_duration_ms(60_000), "1m00s");
    assert_eq!(format_duration_ms(125_000), "2m05s");
    assert_eq!(format_duration_ms(3_600_000), "60m00s");
}

#[test]
fn duration_short_matches_millis_form() {
    assert_eq!(format_duration_short(Duration::from_millis(61_500)), "1m01s");
    assert_eq!(format_duration_short(Duration::from_micros(1500)), "1ms");
    assert_eq!(millis_u64(Duration::from_secs(2)), 2000);
    assert_eq!(millis_u64(Duration::MAX), u64::MAX);
}

#[test]
fn tool_names_show_shell_commands() {
    assert_eq!(tool_display_name("read_file", Some("ignored")), "read_file");
    assert_eq!(tool_display_name("bash", Some("ls -la")), "bash: ls -la");
    assert_eq!(tool_display_name("bash", None), "bash");
    let long = "x".repeat(61);
    assert_eq!(
        tool_display_name("execute_command", Some(&long)),
        format!("bash: {}...", "x".repeat(57))
    );
    let exactly = "y".repeat(60);
    assert_eq!(tool_display_name("bash", Some(&exactly)), format!("bash: {exactly}"));
}
