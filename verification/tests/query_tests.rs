//! Tests for the handshake decision: a non-empty `user_id` query parameter
//! is required; its value arrives percent-decoded and sanitized.

use chat_relay::query::handshake;
use chat_relay::query::HandshakeOutcome;

fn expect_reject(r: HandshakeOutcome) {
    match r {
        HandshakeOutcome::Reject { status, body } => {
            assert_eq!(status, 400);
            assert_eq!(body, "Missing or invalid User-Id");
        }
        HandshakeOutcome::Accept { identity } => {
            panic!("expected a rejection, got identity {identity}");
        }
    }
}

fn expect_identity(r: HandshakeOutcome) -> String {
    match r {
        HandshakeOutcome::Accept { identity } => identity,
        HandshakeOutcome::Reject { status, .. } => {
            panic!("expected an accept, got status {status}");
        }
    }
}

#[test]
fn no_query_is_rejected() {
    expect_reject(handshake(None));
}

#[test]
fn query_without_user_id_is_rejected() {
    expect_reject(handshake(Some("name=alice&x=1")));
    expect_reject(handshake(Some("")));
}

#[test]
fn empty_user_id_is_rejected() {
    expect_reject(handshake(Some("user_id=")));
}

#[test]
fn plain_user_id_is_accepted() {
    assert_eq!(expect_identity(handshake(Some("user_id=alice"))), "alice");
}

#[test]
fn user_id_is_percent_decoded_and_sanitized() {
    assert_eq!(
        expect_identity(handshake(Some("user_id=Eve%20Evil"))),
        "Eve Evil"
    );
    let spiky = expect_identity(handshake(Some("user_id=%3Cb%3Eeve%3C%2Fb%3E")));
    assert!(!spiky.contains('<'));
    assert!(!spiky.contains('>'));
    assert_eq!(spiky, "eve");
}

#[test]
fn plus_decodes_to_space() {
    assert_eq!(expect_identity(handshake(Some("user_id=a+b"))), "a b");
}

#[test]
fn last_user_id_wins() {
    assert_eq!(
        expect_identity(handshake(Some("user_id=first&user_id=second"))),
        "second"
    );
}

#[test]
fn other_parameters_are_ignored() {
    assert_eq!(
        expect_identity(handshake(Some("a=b&user_id=carol&c=d"))),
        "carol"
    );
}
