use continu::scheduler::{interval_secs, HOURLY_SECS};
use continu::settings::{get_backup_frequency, load_init_settings, Frequency};

#[test]
fn absent_frequency_defaults_to_daily() {
    assert_eq!(get_backup_frequency(""), Frequency::Daily);
    assert_eq!(get_backup_frequency("exclude:/a\n"), Frequency::Daily);
}

#[test]
fn unrecognized_frequency_defaults_to_daily() {
    assert_eq!(get_backup_frequency("frequency: monthly\n"), Frequency::Daily);
}

#[test]
fn hourly_frequency_selects_the_hourly_interval() {
    let f = get_backup_frequency("frequency: hourly\n");
    assert_eq!(f, Frequency::Hourly);
    assert_eq!(interval_secs(f), 3600);
    assert_eq!(HOURLY_SECS, 3600);
}

#[test]
fn weekly_frequency_recognized() {
    assert_eq!(get_backup_frequency("frequency:weekly"), Frequency::Weekly);
}

#[test]
fn last_frequency_line_wins() {
    let content = "frequency: hourly\nfrequency: weekly\n";
    assert_eq!(get_backup_frequency(content), Frequency::Weekly);
}

#[test]
fn exclusions_collected_in_order() {
    let content = "exclude:/b\nother: line\nexclude: /a \n";
    let (excluded, frequency) = load_init_settings(content);
    assert_eq!(excluded, vec!["/b".to_string(), "/a".to_string()]);
    assert_eq!(frequency, "daily");
}

#[test]
fn values_are_trimmed() {
    let (excluded, frequency) = load_init_settings("exclude:\t/x\t\nfrequency:  hourly  \n");
    assert_eq!(excluded, vec!["/x".to_string()]);
    assert_eq!(frequency, "hourly");
}

#[test]
fn windows_line_endings_are_tolerated() {
    let (excluded, frequency) = load_init_settings("exclude:/a\r\nfrequency:hourly\r\n");
    assert_eq!(excluded, vec!["/a".to_string()]);
    assert_eq!(frequency, "hourly");
}
