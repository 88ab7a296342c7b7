use nymshare_core::helper::{
    can_resend, message_visible, should_stop, time_ago, TimeUnit, DOWNLOAD_RESEND_COOLDOWN_SECS,
    EXPLORE_RESEND_COOLDOWN_SECS,
};

#[test]
fn time_ago_picks_the_largest_whole_unit() {
    assert_eq!(time_ago(0), (0, TimeUnit::Seconds));
    assert_eq!(time_ago(59), (59, TimeUnit::Seconds));
    assert_eq!(time_ago(60), (1, TimeUnit::Minutes));
    assert_eq!(time_ago(3599), (59, TimeUnit::Minutes));
    assert_eq!(time_ago(3600), (1, TimeUnit::Hours));
    assert_eq!(time_ago(86399), (23, TimeUnit::Hours));
    assert_eq!(time_ago(86400), (1, TimeUnit::Days));
    assert_eq!(time_ago(86400 * 3 + 7), (3, TimeUnit::Days));
}

#[test]
fn should_stop_on_true_or_closed_channel() {
    assert!(should_stop(Some(true)));
    assert!(should_stop(None));
    assert!(!should_stop(Some(false)));
}

#[test]
fn resend_needs_sent_unaccepted_and_a_full_cooldown() {
    assert!(can_resend(true, false, Some(60), DOWNLOAD_RESEND_COOLDOWN_SECS));
    assert!(!can_resend(true, false, Some(59), DOWNLOAD_RESEND_COOLDOWN_SECS));
    assert!(!can_resend(false, false, Some(120), DOWNLOAD_RESEND_COOLDOWN_SECS));
    assert!(!can_resend(true, true, Some(120), DOWNLOAD_RESEND_COOLDOWN_SECS));
    assert!(!can_resend(true, false, None, DOWNLOAD_RESEND_COOLDOWN_SECS));
    assert!(can_resend(true, false, Some(30), EXPLORE_RESEND_COOLDOWN_SECS));
    assert!(!can_resend(true, false, Some(29), EXPLORE_RESEND_COOLDOWN_SECS));
}

#[test]
fn messages_expire_after_their_lifetime() {
    assert!(!message_visible(None, 1000, 3000));
    assert!(message_visible(Some(1000), 1000, 3000));
    assert!(message_visible(Some(1000), 3999, 3000));
    assert!(!message_visible(Some(1000), 4000, 3000));
    // A message stamped in the future is not shown.
    assert!(!message_visible(Some(5000), 1000, 3000));
}
