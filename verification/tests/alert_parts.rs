//! The alert request's text parts and the idle-tick arithmetic.

use window_chrome::alert::{alert_payload, auth_token_value, stimulus_code};
use window_chrome::idle::idle_millis;

#[test]
fn a_bare_token_passes_through_trimmed() {
    assert_eq!(auth_token_value(&b"abc123".to_vec()), b"abc123".to_vec());
    assert_eq!(auth_token_value(&b"  abc123\t\n".to_vec()), b"abc123".to_vec());
}

#[test]
fn a_bearer_prefix_is_stripped_in_any_case() {
    assert_eq!(auth_token_value(&b"Bearer xyz".to_vec()), b"xyz".to_vec());
    assert_eq!(auth_token_value(&b"bEaReR  tok  extra".to_vec()), b"tok".to_vec());
    assert_eq!(auth_token_value(&b"  bearer\tsecret  ".to_vec()), b"secret".to_vec());
}

#[test]
fn a_lone_scheme_word_is_kept_as_the_token() {
    assert_eq!(auth_token_value(&b"Bearer".to_vec()), b"Bearer".to_vec());
}

#[test]
fn another_scheme_is_kept_whole() {
    assert_eq!(auth_token_value(&b"Token xyz".to_vec()), b"Token xyz".to_vec());
}

#[test]
fn an_empty_or_blank_token_stays_empty() {
    assert_eq!(auth_token_value(&Vec::new()), Vec::<u8>::new());
    assert_eq!(auth_token_value(&b"   \t ".to_vec()), Vec::<u8>::new());
}

#[test]
fn the_vibration_aliases_fold_to_vibe() {
    assert_eq!(stimulus_code(&b"vibro".to_vec()), b"vibe".to_vec());
    assert_eq!(stimulus_code(&b"vibration".to_vec()), b"vibe".to_vec());
    assert_eq!(stimulus_code(&b"vibe".to_vec()), b"vibe".to_vec());
}

#[test]
fn zap_stays_and_the_rest_falls_back_to_beep() {
    assert_eq!(stimulus_code(&b"zap".to_vec()), b"zap".to_vec());
    assert_eq!(stimulus_code(&b"buzz".to_vec()), b"beep".to_vec());
    assert_eq!(stimulus_code(&Vec::new()), b"beep".to_vec());
    assert_eq!(stimulus_code(&b"ZAP".to_vec()), b"beep".to_vec());
}

#[test]
fn the_request_body_is_exact() {
    let body = alert_payload(&b"zap".to_vec());
    assert_eq!(
        body,
        b"{\"reason\":\"Fatigue limit\",\"stimulus\":{\"stimulusType\":\"zap\",\"stimulusValue\":100}}"
            .to_vec(),
    );
    let body = alert_payload(&b"unknown".to_vec());
    assert_eq!(
        body,
        b"{\"reason\":\"Fatigue limit\",\"stimulus\":{\"stimulusType\":\"beep\",\"stimulusValue\":100}}"
            .to_vec(),
    );
}

#[test]
fn idle_ticks_subtract_plainly() {
    assert_eq!(idle_millis(10_000, 4_000), 6_000);
    assert_eq!(idle_millis(5, 5), 0);
}

#[test]
fn idle_ticks_survive_the_counter_wrap() {
    assert_eq!(idle_millis(5, u32::MAX - 4), 10);
    assert_eq!(idle_millis(0, u32::MAX), 1);
}
