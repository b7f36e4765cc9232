use ava_apartment_finder::duration::PrettyDuration;

#[test]
fn test_pretty_duration_mins() {
    assert_eq!(&PrettyDuration(15).render(), "15 mins");
}

#[test]
fn test_pretty_duration_hours() {
    assert_eq!(&PrettyDuration(65).render(), "1 hrs 5 mins");
}

#[test]
fn test_pretty_duration_0_hrs() {
    assert_eq!(&PrettyDuration(1 * (24 * 60) + 34).render(), "1 days 0 hrs 34 mins");
}

#[test]
fn test_pretty_duration_days() {
    assert_eq!(&PrettyDuration(1 * (24 * 60) + 5 * 60 + 34).render(), "1 days 5 hrs 34 mins");
}

#[test]
fn test_pretty_duration_0_mins() {
    assert_eq!(&PrettyDuration(1 * (24 * 60)).render(), "1 days 0 hrs 0 mins");
}

#[test]
fn test_pretty_duration_zero_is_empty() {
    assert_eq!(&PrettyDuration(0).render(), "");
}

#[test]
fn test_pretty_duration_only_minutes_component() {
    assert_eq!(&PrettyDuration(59).render(), "59 mins");
}
