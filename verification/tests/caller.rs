use signal_frame::caller::start_time_ticks;
use signal_frame::{Caller, CallerIdentity, ExecutablePath, ProcessIdentifier, ProcessStartTime};

fn stat_line(command: &str, start_time: &str) -> String {
    let mut fields: Vec<String> = Vec::new();
    fields.push("S".to_string());
    for index in 0..18 {
        fields.push(format!("{}", 100 + index));
    }
    fields.push(start_time.to_string());
    fields.push("4096".to_string());
    format!("1234 ({command}) {}", fields.join(" "))
}

#[test]
fn start_time_is_the_twentieth_field_after_the_command() {
    assert_eq!(start_time_ticks(&stat_line("bash", "987654")), Some(987654));
}

#[test]
fn start_time_reads_past_a_command_holding_the_separator() {
    assert_eq!(start_time_ticks(&stat_line("odd) (name", "42")), Some(42));
}

#[test]
fn start_time_is_absent_for_malformed_lines() {
    assert_eq!(start_time_ticks("no command here"), None);
    assert_eq!(start_time_ticks("1 (short) S 1 2 3"), None);
    assert_eq!(start_time_ticks(&stat_line("bash", "12x")), None);
    assert_eq!(start_time_ticks(&stat_line("bash", "99999999999999999999")), None);
    assert_eq!(start_time_ticks(&stat_line("bash", "+7")), Some(7));
}

#[test]
fn parent_context_skips_the_init_process() {
    assert_eq!(Caller::from_parent(1, Some("/sbin/init".to_string()), None), None);
    let caller = Caller::from_parent(
        77,
        Some("/usr/bin/fish".to_string()),
        Some(stat_line("fish", "5150")),
    )
    .expect("parent context");
    assert_eq!(caller.pid, ProcessIdentifier::new(77));
    assert_eq!(caller.executable, Some(ExecutablePath::new("/usr/bin/fish".to_string())));
    assert_eq!(caller.start_time, Some(ProcessStartTime::new(5150)));
    assert_eq!(caller.identity(), None);
}

#[test]
fn caller_identity_is_carried_by_name() {
    let caller = Caller::new(ProcessIdentifier::new(9), None, None)
        .with_identity(Some(CallerIdentity::new("designer".to_string())));
    assert_eq!(caller.identity().map(CallerIdentity::as_str), Some("designer"));
    assert_eq!(caller.pid.value(), 9);
}
