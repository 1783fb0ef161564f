use meter_node::credentials::{reversed, CredentialError, Credentials};
use meter_node::join::{JoinAction, JoinOutcome, JoinState, MAX_BACKOFF_EXPONENT};

#[test]
fn join_begins_without_failures() {
    assert_eq!(JoinState::new(), JoinState::Attempting { failures: 0 });
}

#[test]
fn accepted_attempt_ends_the_join() {
    let mut state = JoinState::new();
    assert_eq!(state.on_outcome(JoinOutcome::Accepted), JoinAction::Finished);
    assert_eq!(state, JoinState::Joined);
}

#[test]
fn backoff_doubles_up_to_2048_seconds() {
    let mut state = JoinState::new();
    let mut waits = Vec::new();
    for attempt in 0..15 {
        let outcome = if attempt % 2 == 0 { JoinOutcome::Rejected } else { JoinOutcome::Failed };
        match state.on_outcome(outcome) {
            JoinAction::RetryAfter { seconds } => waits.push(seconds),
            JoinAction::Finished => panic!("a failed attempt must not end the join"),
        }
    }
    assert_eq!(
        waits,
        vec![1, 2, 4, 8, 16, 32, 64, 128, 256, 512, 1024, 2048, 2048, 2048, 2048]
    );
    assert_eq!(state, JoinState::Attempting { failures: MAX_BACKOFF_EXPONENT });
}

#[test]
fn join_succeeds_after_failures() {
    let mut state = JoinState::new();
    assert_eq!(state.on_outcome(JoinOutcome::Rejected), JoinAction::RetryAfter { seconds: 1 });
    assert_eq!(state, JoinState::Attempting { failures: 1 });
    assert_eq!(state.on_outcome(JoinOutcome::Failed), JoinAction::RetryAfter { seconds: 2 });
    assert_eq!(state, JoinState::Attempting { failures: 2 });
    assert_eq!(state.on_outcome(JoinOutcome::Accepted), JoinAction::Finished);
    assert_eq!(state, JoinState::Joined);
}

#[test]
fn joined_is_final() {
    let mut state = JoinState::Joined;
    assert_eq!(state.on_outcome(JoinOutcome::Rejected), JoinAction::Finished);
    assert_eq!(state.on_outcome(JoinOutcome::Failed), JoinAction::Finished);
    assert_eq!(state, JoinState::Joined);
}

#[test]
fn oversized_failure_count_is_held_to_the_cap() {
    let mut state = JoinState::Attempting { failures: 4_000_000 };
    assert_eq!(state.on_outcome(JoinOutcome::Rejected), JoinAction::RetryAfter { seconds: 2048 });
    assert_eq!(state, JoinState::Attempting { failures: 11 });
}

#[test]
fn reversed_turns_the_bytes_round() {
    assert_eq!(reversed(&[1, 2, 3, 4, 5, 6, 7, 8]), [8, 7, 6, 5, 4, 3, 2, 1]);
}

#[test]
fn identifiers_are_reversed_and_the_key_is_not() {
    let credentials = Credentials::from_hex(
        "0011223344556677",
        "70B3D57ED0000001",
        "000102030405060708090a0b0c0d0e0F",
    )
    .unwrap();
    assert_eq!(credentials.dev_eui, [0x77, 0x66, 0x55, 0x44, 0x33, 0x22, 0x11, 0x00]);
    assert_eq!(credentials.app_eui, [0x01, 0x00, 0x00, 0xD0, 0x7E, 0xD5, 0xB3, 0x70]);
    assert_eq!(
        credentials.app_key,
        [0, 1, 2, 3, 4, 5, 6, 7, 8, 9, 10, 11, 12, 13, 14, 15]
    );
}

#[test]
fn hex_prefix_is_accepted() {
    let credentials = Credentials::from_hex(
        "0x0011223344556677",
        "0X70b3d57ed0000001",
        "0x000102030405060708090A0B0C0D0E0F",
    )
    .unwrap();
    assert_eq!(credentials.dev_eui, [0x77, 0x66, 0x55, 0x44, 0x33, 0x22, 0x11, 0x00]);
    assert_eq!(credentials.app_eui, [0x01, 0x00, 0x00, 0xD0, 0x7E, 0xD5, 0xB3, 0x70]);
    assert_eq!(credentials.app_key[15], 0x0F);
}

#[test]
fn unusable_device_identifier_is_reported() {
    let key = "000102030405060708090a0b0c0d0e0f";
    let app = "70B3D57ED0000001";
    for dev in ["", "00112233445566", "001122334455667", "00112233445566778", "001122334455667g", "0011223344556677\n", "0x", "x011223344556677"] {
        assert_eq!(Credentials::from_hex(dev, app, key), Err(CredentialError::DevEui));
    }
}

#[test]
fn unusable_application_identifier_is_reported() {
    let key = "000102030405060708090a0b0c0d0e0f";
    assert_eq!(
        Credentials::from_hex("0011223344556677", "70B3D57ED000000", key),
        Err(CredentialError::AppEui)
    );
    assert_eq!(
        Credentials::from_hex("0011223344556677", "70B3D57ED00000 1", key),
        Err(CredentialError::AppEui)
    );
}

#[test]
fn unusable_key_is_reported() {
    assert_eq!(
        Credentials::from_hex("0011223344556677", "70B3D57ED0000001", "0011223344556677"),
        Err(CredentialError::AppKey)
    );
    assert_eq!(
        Credentials::from_hex(
            "0011223344556677",
            "70B3D57ED0000001",
            "000102030405060708090a0b0c0d0e0z"
        ),
        Err(CredentialError::AppKey)
    );
}

#[test]
fn first_unusable_text_is_the_one_reported() {
    assert_eq!(Credentials::from_hex("zz", "zz", "zz"), Err(CredentialError::DevEui));
    assert_eq!(
        Credentials::from_hex("0011223344556677", "zz", "zz"),
        Err(CredentialError::AppEui)
    );
}
