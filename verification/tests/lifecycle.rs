//! The two status machines: spellings, round trips and the transition
//! guards.

use intake::errors::ErrorKind;
use intake::form::FormStatus;
use intake::submission::SubmissionStatus;

#[test]
fn form_status_spellings_round_trip() {
    for s in [FormStatus::Draft, FormStatus::Open, FormStatus::Close] {
        assert_eq!(FormStatus::from_str(s.as_str()), Some(s));
    }
    assert_eq!(FormStatus::from_str("draft"), Some(FormStatus::Draft));
    assert_eq!(FormStatus::from_str("open"), Some(FormStatus::Open));
    assert_eq!(FormStatus::from_str("close"), Some(FormStatus::Close));
    assert_eq!(FormStatus::from_str("Draft"), None);
    assert_eq!(FormStatus::from_str("closed"), None);
    assert_eq!(FormStatus::from_str(""), None);
}

#[test]
fn submission_status_spellings_round_trip() {
    for s in [
        SubmissionStatus::Received,
        SubmissionStatus::Confirmed,
        SubmissionStatus::Completed,
    ] {
        assert_eq!(SubmissionStatus::from_str(s.as_str()), Some(s));
    }
    assert_eq!(SubmissionStatus::from_str("received"), Some(SubmissionStatus::Received));
    assert_eq!(SubmissionStatus::from_str("unknown"), None);
}

// The form machine is forward-only: Draft to Open to Close, with the
// current status always a no-op success.
#[test]
fn form_transitions_follow_the_forward_path() {
    // Draft -> Open succeeds
    assert_eq!(FormStatus::Draft.transition(FormStatus::Open).unwrap(), FormStatus::Open);
    // Draft -> Close fails Forbidden
    let e = FormStatus::Draft.transition(FormStatus::Close).unwrap_err();
    assert_eq!(e.kind, ErrorKind::Forbidden);
    // Open -> Open (re-request) is a no-op success
    assert_eq!(FormStatus::Open.transition(FormStatus::Open).unwrap(), FormStatus::Open);
    // Open -> Close succeeds
    assert_eq!(FormStatus::Open.transition(FormStatus::Close).unwrap(), FormStatus::Close);
    // no way back
    let e = FormStatus::Open.transition(FormStatus::Draft).unwrap_err();
    assert_eq!(e.kind, ErrorKind::Forbidden);
    let e = FormStatus::Close.transition(FormStatus::Open).unwrap_err();
    assert_eq!(e.kind, ErrorKind::Forbidden);
    let e = FormStatus::Close.transition(FormStatus::Draft).unwrap_err();
    assert_eq!(e.kind, ErrorKind::Forbidden);
    // staying put is a no-op success
    assert_eq!(FormStatus::Draft.transition(FormStatus::Draft).unwrap(), FormStatus::Draft);
    assert_eq!(FormStatus::Close.transition(FormStatus::Close).unwrap(), FormStatus::Close);
}

// The submission machine restricts no direction.
#[test]
fn submission_transitions_are_unrestricted() {
    let all = [
        SubmissionStatus::Received,
        SubmissionStatus::Confirmed,
        SubmissionStatus::Completed,
    ];
    for from in all {
        for to in all {
            assert_eq!(from.transition(to).unwrap(), to);
        }
    }
}
