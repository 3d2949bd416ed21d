//! The pure rules: names, addresses, frames, sockets and ids.
use prismattyc_mux::conn::{
    classify_control_request_id, frame_too_large_response, invalid_json_response, next_stale_skip,
    ClientConnState, ControlIdMatch, Route,
};
use prismattyc_mux::discovery::{
    default_socket_path, diagnose_runtime_dir_miss, diagnose_runtime_dir_miss_from_env,
    is_pmux_socket_name, is_stale_connect_error, live_pmux_sockets_in, probe_socket_liveness,
    socket_filename, systemd_user_runtime_dir, validate_socket_instance, xdg_runtime_dir_for_uid,
    ConnectFault, DirFacts, SocketEntry, SocketLiveness, SocketProbe,
};
use prismattyc_mux::error::{ControlError, ControlErrorCode, LiveWriteError};
use prismattyc_mux::event::{Event, EventRing};
use prismattyc_mux::frame::{
    oversized_response, read_frame, response_fits, write_all_timeout_aware, write_ready, FrameStep,
    IoFault, ReadEvent, WriteEvent, WriteFault, WriteStep, MAX_REQUEST_BYTES, MAX_RESPONSE_BYTES,
};
use prismattyc_mux::hive::{parse_hive_cell_address, valid_hive_generation, HIVE_ADDRESS_MESSAGE};
use prismattyc_mux::pane_write::{pane_write_chunks, pane_write_error, ChunkQueue};
use prismattyc_mux::paths::{is_path_before, is_same_path, path_components};
use prismattyc_mux::persist::{restore_pane_logs, PaneKey, PersistRead, PersistState, PersistTick, RestorePlan};
use prismattyc_mux::request::ControlRequest;
use prismattyc_mux::response::{ControlResponse, ControlResponseBody, ControlResponseData};
use prismattyc_mux::server::{
    admits, bind, prepare_socket_path, verify_same_user, BindAction, BindStage, SocketPlan,
    MAX_CLIENTS,
};
use prismattyc_mux::style::{
    rle_style_runs, Color, ColorWire, CursorShape, CursorShapeWire, StyledCell,
};
use prismattyc_mux::subscribe::{
    mail_arrived, mail_wait_response, wait_ms, StreamWait, Subscription, MAX_MAIL_WAIT_MS,
};
use prismattyc_mux::wire::{
    ArrangementWire, InjectAgent, PaneWriteSubmit, SpawnSpec, MAIL_INJECT_PAYLOAD,
    PMUX_MAIL_NOTIFICATION, PROTOCOL_VERSION,
};

#[test]
fn classify_control_request_id_splits_stale_awaited_ahead() {
    assert_eq!(
        classify_control_request_id(225525, 225527),
        ControlIdMatch::Stale
    );
    assert_eq!(
        classify_control_request_id(225527, 225527),
        ControlIdMatch::Awaited
    );
    assert_eq!(
        classify_control_request_id(225528, 225527),
        ControlIdMatch::Ahead
    );
}

#[test]
fn next_stale_skip_increments_until_the_bound() {
    assert_eq!(next_stale_skip(0), Some(1));
    assert_eq!(next_stale_skip(31), Some(32));
    assert_eq!(next_stale_skip(32), None);
    assert_eq!(next_stale_skip(u32::MAX), None);
}

#[test]
fn inject_mail_payload_is_static_notification_plus_cr() {
    assert_eq!(MAIL_INJECT_PAYLOAD.as_bytes().last(), Some(&b'\r'));
    assert_eq!(MAIL_INJECT_PAYLOAD, format!("{PMUX_MAIL_NOTIFICATION}\r"));
}

#[test]
fn runtime_dir_miss_requires_xdg_disagreement_and_other_live_socket() {
    let user_runtime = b"/run/user/1000".to_vec();
    let resolved = b"/tmp/prismattyc-1000/pmux.sock".to_vec();
    let live = vec![b"/run/user/1000/pmux-work.sock".to_vec()];

    assert!(diagnose_runtime_dir_miss(
        &resolved,
        &Some(user_runtime.clone()),
        &user_runtime,
        &live,
    )
    .is_none());

    assert!(diagnose_runtime_dir_miss(&resolved, &None, &user_runtime, &vec![]).is_none());

    let only_resolved = vec![resolved.clone()];
    assert!(diagnose_runtime_dir_miss(&resolved, &None, &user_runtime, &only_resolved).is_none());

    let miss = diagnose_runtime_dir_miss(&resolved, &None, &user_runtime, &live)
        .expect("unset XDG plus a live user-runtime socket");
    assert_eq!(miss.resolved_socket, resolved);
    assert_eq!(miss.xdg_runtime_dir, None);
    assert_eq!(miss.user_runtime, user_runtime);
    assert_eq!(miss.live_sockets, live);

    let ssh_xdg = b"/run/user/1000/ssh-xyz".to_vec();
    let miss = diagnose_runtime_dir_miss(&resolved, &Some(ssh_xdg), &user_runtime, &live)
        .expect("SSH XDG plus a live user-runtime socket");
    let text = miss.text();
    assert!(text.contains("/tmp/prismattyc-1000/pmux.sock"), "{text}");
    assert!(text.contains("/run/user/1000/pmux-work.sock"), "{text}");
    assert!(text.contains("PMUX_SOCKET"), "{text}");
    assert!(text.contains("XDG_RUNTIME_DIR=/run/user/1000"), "{text}");
    assert!(text.contains("/run/user/1000/ssh-xyz"), "{text}");
}

#[test]
fn a_runtime_dir_miss_compares_and_orders_paths() {
    let live = vec![
        b"/run/user/7/pmux-b.sock".to_vec(),
        b"/run/user/7//pmux.sock".to_vec(),
        b"/run/user/7/pmux-a.sock".to_vec(),
    ];
    // A trailing or doubled separator names the same path.
    let xdg = Some(b"/run/user/7/".to_vec());
    assert!(diagnose_runtime_dir_miss(b"/x", &xdg, b"/run/user/7", &live).is_none());
    let miss = diagnose_runtime_dir_miss(b"/run/user/7/pmux.sock", &None, b"/run/user/7", &live).unwrap();
    assert_eq!(
        miss.live_sockets,
        vec![b"/run/user/7/pmux-a.sock".to_vec(), b"/run/user/7/pmux-b.sock".to_vec()]
    );
    assert_eq!(
        miss.text(),
        "hint: XDG_RUNTIME_DIR is unset; this CLI used /run/user/7/pmux.sock.\n\
         A live mux socket is at /run/user/7/pmux-a.sock, /run/user/7/pmux-b.sock.\n\
         Point PMUX_SOCKET at that path, or export XDG_RUNTIME_DIR=/run/user/7."
    );
}

#[test]
fn a_path_that_is_no_text_is_kept_and_shown() {
    let odd = b"/run/user/7/pmux-\xff.sock".to_vec();
    let miss = diagnose_runtime_dir_miss(b"/x", &None, b"/run/user/7", &vec![odd.clone()]).unwrap();
    assert_eq!(miss.live_sockets, vec![odd]);
    assert!(miss.text().contains("at /run/user/7/pmux-\u{fffd}.sock."), "{}", miss.text());
    let named = Some(b"/run/\xfe".to_vec());
    let facts = DirFacts { is_dir: true, uid: 4, mode: 0o40700 };
    assert_eq!(xdg_runtime_dir_for_uid(&named, Some(facts), 4), named);
    assert_eq!(
        default_socket_path("default", &named, 4).unwrap(),
        b"/run/\xfe/prismattyc/pmux.sock".to_vec()
    );
}

#[test]
fn paths_compare_as_the_standard_library_compares_them() {
    let texts = [
        "", "/", "//", "/.", ".", "./", "..", "../", "./..", "a", "a/", "a//", "a/.", "./a", "././a",
        "/a", "//a", "/./a", "/a/b", "/a//b", "/a/./b", "/a/b/", "/a/b/.", "/a/../b", "a/b", "a/..",
        "a.", ".a", "..a", "!", "a!", "a/!", "ab", "a/b/c", "/a!b", "B", "b", "~", "\u{e9}",
    ];
    for a in texts {
        for b in texts {
            let (x, y) = (std::path::Path::new(a), std::path::Path::new(b));
            assert_eq!(is_same_path(a.as_bytes(), b.as_bytes()), x == y, "{a:?} {b:?}");
            assert_eq!(is_path_before(a.as_bytes(), b.as_bytes()), x < y, "{a:?} {b:?}");
        }
    }
    assert_eq!(path_components(b"/a//./b/"), vec![b"/".to_vec(), b"a".to_vec(), b"b".to_vec()]);
    assert_eq!(path_components(b"./x"), vec![b".".to_vec(), b"x".to_vec()]);
    assert!(path_components(b"").is_empty());
}

fn entry(path: &str, name: &str, liveness: SocketLiveness) -> SocketEntry {
    SocketEntry { path: path.as_bytes().to_vec(), name: Some(name.into()), liveness }
}

#[test]
fn live_sockets_are_named_alive_and_sorted() {
    let entries = vec![
        entry("/r/pmux-z.sock", "pmux-z.sock", SocketLiveness::Live),
        entry("/r/other.sock", "other.sock", SocketLiveness::Live),
        entry("/r/pmux-dead.sock", "pmux-dead.sock", SocketLiveness::Stale),
        entry("/r/pmux-work.txt", "pmux-work.txt", SocketLiveness::Live),
        SocketEntry { path: b"/r/odd".to_vec(), name: None, liveness: SocketLiveness::Live },
        entry("/r/pmux-a.sock", "pmux-a.sock", SocketLiveness::Live),
    ];
    assert_eq!(
        live_pmux_sockets_in(&entries),
        vec![b"/r/pmux-a.sock".to_vec(), b"/r/pmux-z.sock".to_vec()]
    );
    let miss = diagnose_runtime_dir_miss_from_env(b"/r/pmux-a.sock", 5, &None, &entries).unwrap();
    assert_eq!(miss.user_runtime, b"/run/user/5".to_vec());
    assert_eq!(miss.live_sockets, vec![b"/r/pmux-z.sock".to_vec()]);
}

#[test]
fn socket_names_follow_the_instance() {
    assert_eq!(socket_filename("default"), "pmux.sock");
    assert_eq!(socket_filename("work"), "pmux-work.sock");
    assert!(is_pmux_socket_name("pmux.sock"));
    assert!(is_pmux_socket_name("pmux-work.sock"));
    assert!(!is_pmux_socket_name("pmuxx.sock"));
    assert!(!is_pmux_socket_name("pmux-work"));
    assert_eq!(systemd_user_runtime_dir(1000), b"/run/user/1000".to_vec());
    assert_eq!(
        default_socket_path("work", &Some(b"/run/user/9".to_vec()), 9).unwrap(),
        b"/run/user/9/prismattyc/pmux-work.sock".to_vec()
    );
    assert_eq!(
        default_socket_path("default", &Some(b"/run/user/9/".to_vec()), 9).unwrap(),
        b"/run/user/9/prismattyc/pmux.sock".to_vec()
    );
    assert_eq!(
        default_socket_path("default", &None, 12).unwrap(),
        b"/tmp/prismattyc-12/pmux.sock".to_vec()
    );
    for bad in ["", "a/b", "..", "a b", &"x".repeat(49)] {
        let message = default_socket_path(bad, &None, 1).unwrap_err();
        assert_eq!(message, "socket instance must be 1..=48 ASCII letters, digits, '-' or '_'");
        assert!(validate_socket_instance(bad).is_err());
    }
    assert!(validate_socket_instance(&"x".repeat(48)).is_ok());
}

#[test]
fn runtime_directories_are_private_to_their_user() {
    let named = Some(b"/run/user/4".to_vec());
    let facts = DirFacts { is_dir: true, uid: 4, mode: 0o40700 };
    assert_eq!(xdg_runtime_dir_for_uid(&named, Some(facts), 4), named);
    assert_eq!(xdg_runtime_dir_for_uid(&named, Some(facts), 5), None);
    assert_eq!(xdg_runtime_dir_for_uid(&named, Some(DirFacts { mode: 0o40710, ..facts }), 4), None);
    assert_eq!(xdg_runtime_dir_for_uid(&named, Some(DirFacts { is_dir: false, ..facts }), 4), None);
    assert_eq!(xdg_runtime_dir_for_uid(&named, None, 4), None);
    assert_eq!(xdg_runtime_dir_for_uid(&Some(b"run".to_vec()), Some(facts), 4), None);
    assert_eq!(xdg_runtime_dir_for_uid(&None, Some(facts), 4), None);
}

#[test]
fn liveness_needs_an_answer() {
    assert_eq!(probe_socket_liveness(SocketProbe::Absent), SocketLiveness::Missing);
    assert_eq!(probe_socket_liveness(SocketProbe::NotOwned), SocketLiveness::Foreign);
    assert_eq!(probe_socket_liveness(SocketProbe::Connected { answers: true }), SocketLiveness::Live);
    assert_eq!(probe_socket_liveness(SocketProbe::Connected { answers: false }), SocketLiveness::Stale);
    let refused = SocketProbe::Refused { fault: ConnectFault::ConnectionRefused, os_error: None };
    assert_eq!(probe_socket_liveness(refused), SocketLiveness::Stale);
    let unknown = SocketProbe::Refused { fault: ConnectFault::Other, os_error: Some(13) };
    assert_eq!(probe_socket_liveness(unknown), SocketLiveness::Live);
    assert!(is_stale_connect_error(ConnectFault::Other, Some(111)));
    assert!(!is_stale_connect_error(ConnectFault::Other, None));
}

#[test]
fn starts_are_undone_as_far_as_they_came() {
    assert_eq!(prepare_socket_path(SocketLiveness::Missing), SocketPlan::Bind);
    assert_eq!(prepare_socket_path(SocketLiveness::Stale), SocketPlan::Replace);
    assert_eq!(
        prepare_socket_path(SocketLiveness::Live).message().unwrap(),
        "control socket is already accepting connections"
    );
    assert_eq!(
        prepare_socket_path(SocketLiveness::Foreign).message().unwrap(),
        "refusing to replace a non-socket or foreign-owned path"
    );
    assert_eq!(bind(BindStage::Accept, true, true), BindAction::Next(BindStage::Maintain));
    assert_eq!(bind(BindStage::Accept, true, false), BindAction::Serving);
    assert_eq!(
        bind(BindStage::Listen, false, true),
        BindAction::Undo { stop_accept: false, remove_socket: false }
    );
    assert_eq!(
        bind(BindStage::Restrict, false, true),
        BindAction::Undo { stop_accept: false, remove_socket: true }
    );
    assert_eq!(
        bind(BindStage::Maintain, false, true),
        BindAction::Undo { stop_accept: true, remove_socket: true }
    );
    assert!(admits(MAX_CLIENTS - 1));
    assert!(!admits(MAX_CLIENTS));
    assert!(verify_same_user(3, 3).is_ok());
    assert_eq!(
        verify_same_user(3, 4).unwrap_err(),
        "control connection peer uid does not match server uid"
    );
}

#[test]
fn parse_hive_cell_address_accepts_lossless_and_padded() {
    assert_eq!(parse_hive_cell_address("1b@1").unwrap(), "1b@1");
    assert_eq!(parse_hive_cell_address("  12@1  ").unwrap(), "12@1");
    assert!(parse_hive_cell_address("cell:0000000000000000000000000000001b@1").is_ok());
    assert!(parse_hive_cell_address("cli").is_err());
    assert!(parse_hive_cell_address("review").is_err());
    assert!(parse_hive_cell_address("33").is_err());
    assert!(parse_hive_cell_address("cell:33@1").is_err());
    assert!(parse_hive_cell_address("cell:aa@1").is_err());
}

#[test]
fn hive_generations_fit_sixty_four_bits() {
    assert!(valid_hive_generation("18446744073709551615"));
    assert!(!valid_hive_generation("18446744073709551616"));
    assert!(!valid_hive_generation("000000000000000000001"));
    assert!(!valid_hive_generation(""));
    assert!(!valid_hive_generation("1a"));
    assert_eq!(parse_hive_cell_address("1b@").unwrap_err(), HIVE_ADDRESS_MESSAGE);
    assert!(parse_hive_cell_address(&format!("{}@1", "a".repeat(33))).is_err());
    assert!(parse_hive_cell_address("a@b@1").is_err());
}

fn bytes(text: &str) -> ReadEvent {
    ReadEvent::Available(text.as_bytes().to_vec())
}

#[test]
fn frames_survive_fragments_and_timeouts() {
    let mut frame = Vec::new();
    assert_eq!(read_frame(&mut frame, &bytes("{\"a\"")), FrameStep::More(4));
    assert_eq!(read_frame(&mut frame, &ReadEvent::Failed(IoFault::TimedOut)), FrameStep::Retry);
    assert_eq!(read_frame(&mut frame, &ReadEvent::Failed(IoFault::Interrupted)), FrameStep::Retry);
    assert_eq!(read_frame(&mut frame, &bytes(":1}\r\nnext")), FrameStep::Ready(5));
    assert_eq!(frame, b"{\"a\":1}");

    let mut idle = Vec::new();
    assert_eq!(
        read_frame(&mut idle, &ReadEvent::Failed(IoFault::WouldBlock)),
        FrameStep::Failed(IoFault::WouldBlock)
    );
    assert_eq!(read_frame(&mut idle, &bytes("")), FrameStep::Closed);
    assert_eq!(read_frame(&mut idle, &bytes("tail")), FrameStep::More(4));
    assert_eq!(read_frame(&mut idle, &bytes("")), FrameStep::Ready(0));
    assert_eq!(idle, b"tail");
}

#[test]
fn oversized_frames_and_responses_are_refused() {
    let mut frame = Vec::new();
    let big = ReadEvent::Available(vec![b'x'; MAX_REQUEST_BYTES + 1]);
    assert_eq!(read_frame(&mut frame, &big), FrameStep::TooLarge);
    let full = ReadEvent::Available(vec![b'x'; MAX_REQUEST_BYTES]);
    assert_eq!(read_frame(&mut frame, &full), FrameStep::More(MAX_REQUEST_BYTES));
    assert_eq!(read_frame(&mut frame, &bytes("\n")), FrameStep::TooLarge);
    let response = frame_too_large_response();
    assert_eq!(failure(&response).code, ControlErrorCode::FrameTooLarge);
    assert_eq!(failure(&response).message, "control request exceeds 1048576 bytes");
    assert_eq!(failure(&invalid_json_response("eof")).code, ControlErrorCode::InvalidJson);
    assert!(response_fits(MAX_RESPONSE_BYTES));
    assert!(!response_fits(MAX_RESPONSE_BYTES + 1));
    let response = oversized_response(9);
    assert_eq!(response.request_id, 9);
    assert_eq!(failure(&response).code, ControlErrorCode::Internal);
}

fn failure(response: &ControlResponse) -> &ControlError {
    match &response.body {
        ControlResponseBody::Failure { error } => error,
        other => panic!("expected an error, got {other:?}"),
    }
}

#[test]
fn slow_clients_are_waited_for_and_stalled_ones_are_not() {
    assert_eq!(write_ready(10, 0, false), WriteStep::From(0));
    assert_eq!(write_ready(10, 10, true), WriteStep::Done);
    assert_eq!(write_ready(10, 4, true), WriteStep::GiveUp(WriteFault::ShuttingDown));
    assert_eq!(write_all_timeout_aware(10, 4, WriteEvent::Accepted(3)), WriteStep::From(7));
    assert_eq!(
        write_all_timeout_aware(10, 4, WriteEvent::Accepted(0)),
        WriteStep::GiveUp(WriteFault::WriteZero)
    );
    let blocked = |idle_ms| WriteEvent::Failed { fault: IoFault::WouldBlock, idle_ms };
    assert_eq!(write_all_timeout_aware(10, 4, blocked(2_999)), WriteStep::From(4));
    assert_eq!(write_all_timeout_aware(10, 4, blocked(3_000)), WriteStep::GiveUp(WriteFault::Stalled));
    let broken = WriteEvent::Failed { fault: IoFault::Other, idle_ms: 0 };
    assert_eq!(write_all_timeout_aware(10, 4, broken), WriteStep::GiveUp(WriteFault::Failed));
    let interrupted = WriteEvent::Failed { fault: IoFault::Interrupted, idle_ms: 9_000 };
    assert_eq!(write_all_timeout_aware(10, 4, interrupted), WriteStep::From(4));
    assert_eq!(WriteFault::Stalled.message().unwrap(), "client stopped draining the response");
    assert_eq!(WriteFault::Failed.message(), None);
}

#[test]
fn a_connection_keeps_its_order_and_its_client() {
    let ping = |version, request_id| ControlRequest::Ping { version, request_id };
    let mut conn = ClientConnState::new();
    assert_eq!(conn.route(&ping(PROTOCOL_VERSION, 5), false), Route::Serve);
    let Route::Respond(stale) = conn.route(&ping(PROTOCOL_VERSION, 5), false) else {
        panic!("a repeated id must be refused")
    };
    assert_eq!(failure(&stale).message, "request_id 5 is not newer than 5 on this connection");
    assert_eq!(conn.route(&ping(PROTOCOL_VERSION, 6), true), Route::Stop);
    let register = ControlRequest::RegisterClient { version: PROTOCOL_VERSION, request_id: 7 };
    assert_eq!(conn.route(&register, false), Route::Serve);
    let registered = ControlResponse::ok(7, ControlResponseData::ClientRegistered { client_id: 3 });
    let after = conn.settle(&register, &registered);
    assert!(!after.ring_mail && !after.shut_down);
    assert_eq!(conn.connection_client, Some(3));
    let inbox = |client_id, request_id| ControlRequest::MailInbox {
        version: PROTOCOL_VERSION,
        request_id,
        client_id,
    };
    let Route::Respond(spoof) = conn.route(&inbox(4, 8), false) else {
        panic!("another client must be refused")
    };
    assert_eq!(failure(&spoof).code, ControlErrorCode::StaleId);
    assert_eq!(conn.route(&inbox(3, 9), false), Route::Serve);
    let wait = ControlRequest::MailWait {
        version: PROTOCOL_VERSION,
        request_id: 10,
        client_id: 3,
        timeout_ms: 1,
    };
    assert_eq!(conn.route(&wait, false), Route::MailWait);
    let released = ControlResponse::ok(11, ControlResponseData::MailReleased { released: 1 });
    assert!(conn.settle(&inbox(3, 11), &released).ring_mail);
    let accepted = ControlResponse::ok(12, ControlResponseData::ShutdownAccepted);
    assert!(conn.settle(&inbox(3, 12), &accepted).shut_down);
    assert_eq!(
        conn.farewell(),
        Some(ControlRequest::DisconnectClient {
            version: PROTOCOL_VERSION,
            request_id: 11,
            client_id: 3,
        })
    );
    assert_eq!(ClientConnState::new().farewell(), None);
}

#[test]
fn waits_are_capped_and_sliced() {
    assert_eq!(wait_ms(50), 50);
    assert_eq!(wait_ms(u32::MAX), MAX_MAIL_WAIT_MS);
    let stream = Subscription::new(1, 2, 3, 4, 120);
    assert_eq!(stream.wait(true, 0), StreamWait::Drop);
    assert_eq!(stream.wait(false, 0), StreamWait::Slice(50));
    assert_eq!(stream.wait(false, 100), StreamWait::Slice(20));
    assert_eq!(stream.wait(false, 120), StreamWait::TimedOut);
    let ControlResponseBody::Success {
        response: ControlResponseData::PaneSubscribe { pane_id, through_seq, done, .. },
    } = stream.timed_out().body
    else {
        panic!("expected the last frame")
    };
    assert_eq!((pane_id, through_seq, done), (3, 4, true));
    assert!(mail_arrived(&Ok((1, 0))));
    assert!(!mail_arrived(&Ok((0, 4))));
    assert_eq!(
        mail_wait_response(6, Ok((2, 1))),
        ControlResponse::ok(6, ControlResponseData::MailDepth { open: 2, held: 1 })
    );
}

#[test]
fn pane_write_partial_never_queues_submit_after_failure() {
    let chunks = vec![b"body".to_vec(), b"submit".to_vec(), b"later".to_vec()];
    let mut calls = 0;
    let mut queue = ChunkQueue::new(chunks);
    while let Some(_chunk) = queue.next_chunk() {
        calls += 1;
        queue.record(if calls == 2 {
            Err(LiveWriteError::Backpressure)
        } else {
            Ok(())
        });
    }
    let (bytes, error) = queue.finish();
    assert_eq!((bytes, calls), (4, 2));
    assert_eq!(error.unwrap().code, ControlErrorCode::Backpressure);
    for cause in [LiveWriteError::UnknownPane, LiveWriteError::Disconnected] {
        assert_eq!(
            pane_write_error(cause).code,
            ControlErrorCode::InputRouteUnavailable
        );
    }
}

#[test]
fn pane_write_guest_submit_keeps_body_inside_one_paste() {
    let cursor_submit = b"\x1b[13;5u".to_vec();
    for (agent, terminators) in [
        (InjectAgent::Grok, vec![b"\r".to_vec()]),
        (InjectAgent::Claude, vec![b"\r".to_vec()]),
        (InjectAgent::Kiro, vec![b"\r".to_vec()]),
        (InjectAgent::Codex, vec![b"\r".to_vec(), b"\r".to_vec()]),
        (InjectAgent::Cursor, vec![cursor_submit.clone()]),
    ] {
        let chunks =
            pane_write_chunks("one\ntwo\tλ", PaneWriteSubmit::Auto, agent, &cursor_submit).unwrap();
        assert_eq!(chunks[0], "\x1b[200~one\ntwo\tλ\x1b[201~".as_bytes());
        assert_eq!(chunks[1..], terminators);
    }
    assert!(
        pane_write_chunks("hello", PaneWriteSubmit::Auto, InjectAgent::Unknown, &cursor_submit).is_err()
    );
    for bad in [
        "",
        "escape\x1b[201~",
        "submit\r",
        "nul\0",
        &"x".repeat(65505),
    ] {
        assert!(pane_write_chunks(bad, PaneWriteSubmit::Enter, InjectAgent::Grok, &cursor_submit).is_err());
    }
    assert_eq!(
        pane_write_chunks("literal\\n", PaneWriteSubmit::NoSubmit, InjectAgent::Unknown, &cursor_submit)
            .unwrap(),
        vec![b"literal\\n".to_vec()]
    );
    assert_eq!(
        pane_write_chunks("λ", PaneWriteSubmit::Enter, InjectAgent::Unknown, &cursor_submit).unwrap(),
        vec!["λ\r".as_bytes()]
    );
}

fn cell(grapheme: &str, foreground: Color) -> StyledCell {
    StyledCell {
        grapheme: grapheme.into(),
        wide_cont: false,
        bold: false,
        italic: false,
        underline: false,
        inverse: false,
        foreground,
        background: Color::Default,
    }
}

#[test]
fn rle_style_runs_merge_same_style_and_split_on_color() {
    let cells = vec![
        cell("A", Color::Default),
        cell("B", Color::Default),
        cell("C", Color::Ansi(1)),
    ];
    let runs = rle_style_runs(&cells);
    assert_eq!(runs.len(), 2);
    assert_eq!(runs[0].text, "AB");
    assert_eq!(runs[0].fg, ColorWire::Default);
    assert_eq!(runs[1].text, "C");
    assert_eq!(runs[1].fg, ColorWire::Ansi { n: 1 });
}

#[test]
fn spawn_directories_are_absolute_text() {
    let spec = |cwd: &[u8]| SpawnSpec {
        program: "/bin/sh".into(),
        argv: Vec::new(),
        cwd: Some(cwd.to_vec()),
        env: Vec::new(),
    };
    assert!(spec("/tmp/é".as_bytes()).validate().is_ok());
    let message = |cwd: &[u8]| spec(cwd).validate().unwrap_err().message;
    assert_eq!(message(b"tmp"), "spawn cwd must be absolute");
    assert_eq!(message(b"/tmp/\xff"), "spawn cwd must be UTF-8 and contain no NUL");
    assert_eq!(message(b"/tmp/\0"), "spawn cwd must be UTF-8 and contain no NUL");
}

fn key(pane_id: u64, index: usize) -> PaneKey {
    PaneKey { pane_id, session: "work".into(), index }
}

#[test]
fn checkpoints_capture_one_pane_a_tick() {
    let keys = vec![key(4, 0), key(9, 1)];
    let tick = PersistTick { completed: None, live: true, mark: 7, due: true, has_path: true };
    let mut state = PersistState::new();
    let first = state.maybe_persist_pane_logs(&keys, tick);
    assert!(first.started);
    assert_eq!(first.capture.unwrap().pane_id, 4);
    assert_eq!(first.submit, None);
    let second = state.maybe_persist_pane_logs(&keys, tick);
    assert_eq!(second.capture.unwrap().pane_id, 9);
    assert_eq!(second.submit, Some(7));
    state.submitted(7);
    let busy = state.maybe_persist_pane_logs(&keys, tick);
    assert!(busy.capture.is_none() && busy.submit.is_none());
    let done = PersistTick { completed: Some((true, true)), ..tick };
    let idle = state.maybe_persist_pane_logs(&keys, done);
    assert!(idle.forget_captured && !idle.started);
    assert_eq!(state.mark, 7);

    let later = PersistTick { mark: 8, ..tick };
    assert!(state.maybe_persist_pane_logs(&keys, later).started);
    let moved = vec![key(4, 0)];
    assert!(state.maybe_persist_pane_logs(&moved, later).dropped);
    assert!(state.capture.is_none());
    let early = PersistTick { due: false, ..later };
    assert!(!state.maybe_persist_pane_logs(&keys, early).started);
}

#[test]
fn bad_checkpoints_are_told_in_the_log() {
    assert!(matches!(restore_pane_logs(false, true, PersistRead::Valid), RestorePlan::Nothing));
    assert!(matches!(restore_pane_logs(true, true, PersistRead::Valid), RestorePlan::Restore));
    let RestorePlan::Reset(reason) = restore_pane_logs(true, true, PersistRead::Unreadable) else {
        panic!("expected a reset")
    };
    assert_eq!(reason, "corrupt persist");
    let RestorePlan::Reset(reason) = restore_pane_logs(true, true, PersistRead::Invalid("old".into()))
    else {
        panic!("expected a reset")
    };
    assert_eq!(reason, "old");
}

#[test]
fn a_line_in_many_pieces_makes_one_frame() {
    let line = b"{\"version\":1}\r\n";
    for size in 1..=line.len() {
        let mut frame = Vec::new();
        let mut step = FrameStep::Closed;
        for piece in line.chunks(size) {
            step = read_frame(&mut frame, &ReadEvent::Available(piece.to_vec()));
            if step == FrameStep::More(piece.len()) {
                let pause = ReadEvent::Failed(IoFault::TimedOut);
                assert_eq!(read_frame(&mut frame, &pause), FrameStep::Retry);
            }
        }
        assert!(matches!(step, FrameStep::Ready(_)));
        assert_eq!(frame, b"{\"version\":1}".to_vec());
    }
}

#[test]
fn a_response_is_delivered_once_and_in_order() {
    let response = b"0123456789".to_vec();
    let slow = WriteEvent::Failed { fault: IoFault::WouldBlock, idle_ms: 2_999 };
    let stalled = WriteEvent::Failed { fault: IoFault::WouldBlock, idle_ms: 3_000 };
    let take = WriteEvent::Accepted;
    for (writes, end, text) in [
        (vec![take(3), slow, take(6), take(1)], WriteStep::Done, "0123456789"),
        (vec![take(3), slow, stalled], WriteStep::GiveUp(WriteFault::Stalled), "012"),
        (vec![take(9), take(0)], WriteStep::GiveUp(WriteFault::WriteZero), "012345678"),
    ] {
        let (mut at, mut delivered, mut step) = (0, Vec::new(), WriteStep::From(0));
        for event in writes {
            assert_eq!(write_ready(response.len(), at, false), WriteStep::From(at));
            if let WriteEvent::Accepted(count) = event {
                delivered.extend_from_slice(&response[at..at + count]);
            }
            step = write_all_timeout_aware(response.len(), at, event);
            if let WriteStep::From(next) = step {
                at = next;
            }
        }
        if at == response.len() {
            step = write_ready(response.len(), at, true);
        }
        assert_eq!(step, end);
        assert_eq!(delivered, text.as_bytes());
    }
}

#[test]
fn an_emitted_event_is_the_next_and_the_last_one_held() {
    let hint = |pane_id: u64| Event::OutputActivity { pane_id, revision: 3, child_alive: true };
    let mut ring = EventRing::new(2).unwrap();
    assert_eq!(ring.emit(hint(1)), 1);
    assert_eq!(ring.emit(Event::PaneAttentionCleared { pane_id: 9 }), 2);
    assert_eq!(ring.publish(hint(2)), 3);
    let held: Vec<u64> = ring.events.iter().map(|envelope| envelope.sequence).collect();
    assert_eq!(held, vec![2, 3]);
    assert_eq!(ring.events[1].event, hint(2));
    ring.sequence = u64::MAX;
    assert_eq!(ring.publish(hint(4)), u64::MAX);
    assert_eq!(ring.events[1].event, hint(2));
}

#[test]
fn arrangement_names_are_read_back() {
    for kind in ArrangementWire::ALL {
        assert_eq!(ArrangementWire::parse_name(kind.as_str()), Some(kind));
    }
    let names = ArrangementWire::ALL.map(|kind| kind.as_str());
    assert_eq!(names, ["even-h", "even-v", "grid", "main-vertical", "main-horizontal"]);
    assert_eq!(ArrangementWire::parse_name("spiral"), None);
}

#[test]
fn cursor_shapes_have_a_steady_sequence() {
    let sequence = |shape: CursorShape| CursorShapeWire::from_emulator(shape).decscusr_bytes();
    assert_eq!(&sequence(CursorShape::Block), b"\x1b[2 q");
    assert_eq!(&sequence(CursorShape::Underline), b"\x1b[4 q");
    assert_eq!(&sequence(CursorShape::Bar), b"\x1b[6 q");
}
