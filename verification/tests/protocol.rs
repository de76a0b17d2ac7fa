//! Tests of the reply wire format, the host's reading of it, and the
//! command/ack/done session ordering.

use lathe_firmware::gcode::Command;
use lathe_firmware::session::{Reply, Session};
use lathe_firmware::wire::{
    format_ack, format_done, format_parse_failed, parse_response, prepare_command_line, Ack,
    CommandId, Done, PreparedLine, Response,
};

fn resp_from_sexp(sexp: &str) -> Response {
    parse_response(sexp.as_bytes()).unwrap()
}

#[test]
fn ack() {
    assert_eq!(resp_from_sexp("(ack)"), Response::Ack(Ack(None)));
}

#[test]
fn done() {
    assert_eq!(resp_from_sexp("(done 8)"), Response::Done(Done(CommandId(8))));
}

#[test]
fn ack_with_id() {
    assert_eq!(
        resp_from_sexp("(ack 42)"),
        Response::Ack(Ack(Some(CommandId(42))))
    );
}

#[test]
fn response_tolerates_padding() {
    assert_eq!(
        parse_response(b"\0 (done 7)\0 \t"),
        Some(Response::Done(Done(CommandId(7))))
    );
}

#[test]
fn response_rejects_other_shapes() {
    assert_eq!(parse_response(b"(parse failed)"), None);
    assert_eq!(parse_response(b"(done )"), None);
    assert_eq!(parse_response(b"(done 5x)"), None);
    assert_eq!(parse_response(b"done 5"), None);
    assert_eq!(parse_response(b"(done 99999999999)"), None);
}

#[test]
fn reply_lines_render_exactly() {
    assert_eq!(format_ack(None), b"(ack)\n".to_vec());
    assert_eq!(format_ack(Some(1)), b"(ack 1)\n".to_vec());
    assert_eq!(format_done(120), b"(done 120)\n".to_vec());
    assert_eq!(format_parse_failed(), b"(parse failed)\n".to_vec());
}

#[test]
fn reply_lines_read_back() {
    let mut ack_line = format_ack(Some(9));
    ack_line.pop();
    assert_eq!(
        parse_response(&ack_line),
        Some(Response::Ack(Ack(Some(CommandId(9)))))
    );
    let mut done_line = format_done(u32::MAX);
    done_line.pop();
    assert_eq!(
        parse_response(&done_line),
        Some(Response::Done(Done(CommandId(u32::MAX))))
    );
}

#[test]
fn session_acks_then_dones_in_order() {
    let mut s = Session::new();
    s.accept(Command::Home);
    s.accept(Command::Dwell(5));
    s.accept(Command::EnableAllSteppers);
    while s.queue_len() > 0 {
        s.begin().unwrap();
        s.finish();
    }
    assert_eq!(
        s.replies(),
        &vec![
            Reply::Ack(Some(1)),
            Reply::Ack(Some(2)),
            Reply::Ack(Some(3)),
            Reply::Done(1),
            Reply::Done(2),
            Reply::Done(3),
        ]
    );
}

#[test]
fn session_interleaved_run_keeps_pairs_ordered() {
    let mut s = Session::new();
    s.accept(Command::Home);
    s.begin().unwrap();
    s.accept(Command::Dwell(5));
    s.finish();
    s.begin().unwrap();
    s.finish();
    assert_eq!(
        s.replies(),
        &vec![
            Reply::Ack(Some(1)),
            Reply::Ack(Some(2)),
            Reply::Done(1),
            Reply::Done(2),
        ]
    );
}

#[test]
fn stop_drops_queued_commands() {
    // three commands queued, one of them already in flight
    let mut s = Session::new();
    s.accept(Command::Home);
    s.accept(Command::Dwell(5));
    s.accept(Command::EnableAllSteppers);
    s.accept(Command::DisableAllSteppers);
    let (id, _) = s.begin().unwrap();
    assert_eq!(id.0, 1);
    s.stop();
    assert_eq!(s.queue_len(), 0);
    // only the in-flight command still completes
    s.finish();
    assert_eq!(s.begin(), None);
    assert_eq!(
        s.replies(),
        &vec![
            Reply::Ack(Some(1)),
            Reply::Ack(Some(2)),
            Reply::Ack(Some(3)),
            Reply::Ack(Some(4)),
            Reply::Ack(None),
            Reply::Done(1),
        ]
    );
}

#[test]
fn prepare_line_strips_comments_and_appends_newline() {
    match prepare_command_line(b"  G0 X1") {
        PreparedLine::CommandText(v) => assert_eq!(v, b"G0 X1\n".to_vec()),
        _ => panic!("expected a command line"),
    }
    match prepare_command_line(b"(a whole-line comment)") {
        PreparedLine::Comment => {},
        _ => panic!("expected a comment"),
    }
    match prepare_command_line(b"(unclosed comment") {
        PreparedLine::MismatchedComment => {},
        _ => panic!("expected a mismatched comment"),
    }
    match prepare_command_line(b"G28;then a comment") {
        PreparedLine::CommandText(v) => assert_eq!(v, b"G28\n".to_vec()),
        _ => panic!("expected a command line"),
    }
}
