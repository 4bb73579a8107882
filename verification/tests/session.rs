use vps::client_config::AttachSpec;
use vps::protocol::Message;
use vps::session::{
    after_client_read, after_master_read, after_wait_error, after_write, attach_spec,
    is_disconnect, line_push, plan_attach, request_of, splice_outcome, AttachPlan, IoKind,
    LineStep, ReadResult, Request, SpliceEnd, SpliceStep, MAX_LINE,
};

#[test]
fn attach_needs_a_tty() {
    let r = plan_attach(false, None, None, None, None, false, true);
    assert_eq!(r.err().unwrap(), "attach requires a tty (ssh -tt grok vpsd attach)");
}

#[test]
fn attach_new_and_id_conflict() {
    let r = plan_attach(true, None, None, None, Some(3), true, true);
    assert_eq!(r.err().unwrap(), "--new and --id cannot both be set");
    assert_eq!(attach_spec(Some(3), true).err().unwrap(), "--new and --id cannot both be set");
}

#[test]
fn attach_by_id_with_daemon() {
    match plan_attach(true, Some(100), Some(40), Some((80, 24)), Some(7), false, true) {
        Ok(AttachPlan::Daemon(m)) => {
            assert_eq!(m, Message::Attach { id: 7, cols: 100, rows: 40 })
        }
        _ => panic!("expected a daemon request"),
    }
}

#[test]
fn attach_size_falls_back_to_tty_then_default() {
    match plan_attach(true, Some(100), None, Some((120, 50)), None, false, true) {
        Ok(AttachPlan::Daemon(m)) => assert_eq!(m, Message::Open { cols: 120, rows: 50 }),
        _ => panic!("expected open"),
    }
    match plan_attach(true, None, None, None, None, false, false) {
        Ok(AttachPlan::Oneshot { cols, rows }) => assert_eq!((cols, rows), (80, 24)),
        _ => panic!("expected oneshot"),
    }
}

#[test]
fn attach_by_id_without_daemon_fails() {
    let r = plan_attach(true, None, None, None, Some(2), false, false);
    assert_eq!(r.err().unwrap(), "daemon is not running; cannot attach by id");
}

#[test]
fn attach_spec_choices() {
    assert_eq!(attach_spec(None, true).unwrap(), AttachSpec::New);
    assert_eq!(attach_spec(None, false).unwrap(), AttachSpec::New);
    assert_eq!(attach_spec(Some(9), false).unwrap(), AttachSpec::Id(9));
}

#[test]
fn control_line_reading() {
    let mut line = Vec::new();
    assert_eq!(line_push(&mut line, b'{'), LineStep::More);
    assert_eq!(line_push(&mut line, b'}'), LineStep::More);
    assert_eq!(line_push(&mut line, b'\n'), LineStep::Done);
    assert_eq!(line, b"{}".to_vec());
}

#[test]
fn control_line_too_long() {
    let mut line = vec![b'x'; MAX_LINE - 1];
    assert_eq!(line_push(&mut line, b'x'), LineStep::More);
    assert_eq!(line_push(&mut line, b'x'), LineStep::TooLong);
    assert_eq!(line.len(), MAX_LINE + 1);
}

#[test]
fn splice_reads() {
    assert_eq!(after_client_read(ReadResult::Data), SpliceStep::Forward);
    assert_eq!(after_client_read(ReadResult::Eof), SpliceStep::End(SpliceEnd::ClientGone));
    assert_eq!(after_master_read(ReadResult::Eof), SpliceStep::End(SpliceEnd::MasterGone));
    assert_eq!(
        after_master_read(ReadResult::Failed(IoKind::WouldBlock)),
        SpliceStep::Continue
    );
    assert_eq!(
        after_client_read(ReadResult::Failed(IoKind::Other)),
        SpliceStep::Fail(IoKind::Other)
    );
}

#[test]
fn splice_writes_and_waits() {
    assert_eq!(after_write(None), SpliceStep::Continue);
    assert_eq!(
        after_write(Some(IoKind::BrokenPipe)),
        SpliceStep::End(SpliceEnd::ClientGone)
    );
    assert_eq!(after_write(Some(IoKind::Other)), SpliceStep::Fail(IoKind::Other));
    assert_eq!(after_wait_error(IoKind::Interrupted), SpliceStep::Continue);
    assert_eq!(after_wait_error(IoKind::Other), SpliceStep::Fail(IoKind::Other));
}

#[test]
fn disconnect_kinds() {
    assert!(is_disconnect(IoKind::ConnectionReset));
    assert!(is_disconnect(IoKind::UnexpectedEof));
    assert!(!is_disconnect(IoKind::Interrupted));
}

#[test]
fn splice_outcomes() {
    let o = splice_outcome(Ok(SpliceEnd::MasterGone));
    assert!(o.drop_session && o.error.is_none());
    let o = splice_outcome(Ok(SpliceEnd::ClientGone));
    assert!(!o.drop_session && o.error.is_none());
    let o = splice_outcome(Err(IoKind::ConnectionAborted));
    assert!(!o.drop_session && o.error.is_none());
    let o = splice_outcome(Err(IoKind::Other));
    assert_eq!(o.error, Some(IoKind::Other));
}

#[test]
fn requests_from_messages() {
    assert_eq!(request_of(&Message::List), Some(Request::List));
    assert_eq!(
        request_of(&Message::Open { cols: 80, rows: 24 }),
        Some(Request::Open { cols: 80, rows: 24 })
    );
    assert_eq!(
        request_of(&Message::Attach { id: 2, cols: 1, rows: 2 }),
        Some(Request::Attach { id: 2, cols: 1, rows: 2 })
    );
    assert_eq!(request_of(&Message::Close), None);
}
