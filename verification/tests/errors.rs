use cowi::errors::ErrorKind;

#[test]
fn every_failure_has_a_message() {
    assert_eq!(
        ErrorKind::InfiniteLoop.as_str(),
        Some("Code 3 (`mOO`) can't execute itself as it would cause an infinite loop")
    );
    assert_eq!(ErrorKind::InvalidCode.as_str(), Some("Code values must be between 0 and 11"));
    assert_eq!(
        ErrorKind::NotAscii.as_str(),
        Some("Expect ASCII charactors but given invalid value")
    );
    assert_eq!(
        ErrorKind::NotInteger.as_str(),
        Some("Expect 32-bit signed integer but given invalid value")
    );
    assert_eq!(ErrorKind::OverFlow.as_str(), Some("Current memory value has overflowed"));
    assert_eq!(
        ErrorKind::UnmatchedBeginLoop.as_str(),
        Some("No matching `MOO` before this `moo`")
    );
    assert_eq!(ErrorKind::UnmatchedEndLoop.as_str(), Some("No matching `moo` after this `MOO`"));
}

#[test]
fn failures_are_told_apart() {
    assert_eq!(ErrorKind::OverFlow, ErrorKind::OverFlow);
    assert_ne!(ErrorKind::UnmatchedBeginLoop, ErrorKind::UnmatchedEndLoop);
    assert_ne!(ErrorKind::InvalidCode, ErrorKind::InfiniteLoop);
}
