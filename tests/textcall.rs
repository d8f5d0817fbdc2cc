use epiphyte::textcall::{TextCall, TextOutcome, TextStep};

#[test]
fn argument_written_called_released_then_read() {
    let (mut c, s) = TextCall::start(true);
    assert_eq!(s, TextStep::WriteArgument);
    assert_eq!(c.step(TextOutcome::Written(0x5000)), TextStep::Call(0x5000));
    assert_eq!(c.step(TextOutcome::Returned(0x6000)), TextStep::ReleaseArgument);
    assert_eq!(c.step(TextOutcome::Released), TextStep::ReadResult(0x6000));
    assert_eq!(c.step(TextOutcome::ResultRead), TextStep::Done);
}

#[test]
fn failed_write_makes_no_call() {
    let (mut c, _) = TextCall::start(true);
    assert_eq!(c.step(TextOutcome::WriteFailed), TextStep::Done);
    assert!(!c.expects(TextOutcome::Returned(1)));
}

#[test]
fn failed_call_still_releases_argument() {
    let (mut c, _) = TextCall::start(true);
    c.step(TextOutcome::Written(0x5000));
    assert_eq!(c.step(TextOutcome::CallFailed), TextStep::ReleaseArgument);
    assert_eq!(c.step(TextOutcome::Released), TextStep::Done);
}

#[test]
fn call_without_argument_uses_null_address() {
    let (mut c, s) = TextCall::start(false);
    assert_eq!(s, TextStep::Call(0));
    assert_eq!(c.step(TextOutcome::Returned(0x7000)), TextStep::ReadResult(0x7000));
    assert_eq!(c.step(TextOutcome::ReadFailed), TextStep::Done);
}

#[test]
fn null_result_is_not_read() {
    let (mut c, _) = TextCall::start(true);
    c.step(TextOutcome::Written(0x5000));
    c.step(TextOutcome::Returned(0));
    assert_eq!(c.step(TextOutcome::Released), TextStep::Done);
}
