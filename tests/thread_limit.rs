use packet_ingress::thread_limit::{
    doubled_thread_count, get_max_thread_count, get_thread_count, resolve_thread_count,
};

#[test]
fn configured_thread_count_is_used() {
    assert_eq!(get_thread_count(Some("8")), 8);
    assert_eq!(get_max_thread_count(Some("8")), 16);
}

#[test]
fn configured_zero_threads_becomes_one() {
    assert_eq!(get_thread_count(Some("0")), 1);
    assert_eq!(get_max_thread_count(Some("0")), 2);
}

#[test]
fn unparsable_setting_falls_back_to_cpus() {
    assert_eq!(get_thread_count(Some("many")), get_thread_count(None));
    assert!(get_thread_count(None) >= 1);
}

#[test]
fn half_the_cpus_at_least_one() {
    assert_eq!(resolve_thread_count(None, 16), 8);
    assert_eq!(resolve_thread_count(None, 3), 1);
    assert_eq!(resolve_thread_count(None, 1), 1);
    assert_eq!(resolve_thread_count(Some(5), 16), 5);
    assert_eq!(resolve_thread_count(Some(0), 16), 1);
}

#[test]
fn max_thread_count_saturates() {
    let huge = usize::MAX.to_string();
    assert_eq!(get_max_thread_count(Some(&huge)), usize::MAX);
}

#[test]
fn setting_accepts_a_plus_sign_only() {
    assert_eq!(get_thread_count(Some("+6")), 6);
    let fallback = get_thread_count(None);
    assert_eq!(get_thread_count(Some("-6")), fallback);
    assert_eq!(get_thread_count(Some("+")), fallback);
    assert_eq!(get_thread_count(Some("")), fallback);
    assert_eq!(get_thread_count(Some(" 6")), fallback);
    assert_eq!(get_thread_count(Some("99999999999999999999999")), fallback);
}

#[test]
fn doubling_saturates() {
    assert_eq!(doubled_thread_count(3), 6);
    assert_eq!(doubled_thread_count(usize::MAX / 2 + 1), usize::MAX);
    assert_eq!(get_max_thread_count(None), doubled_thread_count(get_thread_count(None)));
}
