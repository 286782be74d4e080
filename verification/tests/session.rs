use proto::frame::Frame;
use proto::session::{
    Cmd, CmdAction, DeviceHandle, DeviceWorker, SerialHandler, WorkerAction, WorkerEvent,
};

#[test]
fn close_then_send_reports_unknown_handle() {
    let mut handler = SerialHandler::new();

    // Register two connections.
    let first = match handler.handle_cmd(Cmd::RegisterDevice) {
        CmdAction::Registered { handle } => handle,
        _ => panic!("registration must mint a handle"),
    };
    let second = match handler.handle_cmd(Cmd::RegisterDevice) {
        CmdAction::Registered { handle } => handle,
        _ => panic!("registration must mint a handle"),
    };
    assert_ne!(first, second);
    assert!(handler.is_registered(first));
    assert!(handler.is_registered(second));

    // Close the first.
    match handler.handle_cmd(Cmd::CloseDevice { handle: first }) {
        CmdAction::Closed {
            handle,
            was_registered,
        } => {
            assert_eq!(handle, first);
            assert!(was_registered);
        },
        _ => panic!("closing must acknowledge the handle"),
    }
    assert!(!handler.is_registered(first));

    // Sending to the first handle now fails; the second still succeeds.
    match handler.handle_cmd(Cmd::SendData {
        handle: first,
        data: vec![1, 2, 3],
    }) {
        CmdAction::RejectSend { handle } => assert_eq!(handle, first),
        _ => panic!("a closed handle must be reported as not found"),
    }
    match handler.handle_cmd(Cmd::SendData {
        handle: second,
        data: vec![4, 5],
    }) {
        CmdAction::Forward { handle, data } => {
            assert_eq!(handle, second);
            assert_eq!(data, vec![4, 5]);
        },
        _ => panic!("a live handle must get its payload forwarded"),
    }
}

#[test]
fn closing_unknown_handle_is_a_no_op() {
    let mut handler = SerialHandler::new();
    match handler.handle_cmd(Cmd::CloseDevice {
        handle: DeviceHandle(42),
    }) {
        CmdAction::Closed { was_registered, .. } => assert!(!was_registered),
        _ => panic!("closing must never fail"),
    }
}

#[test]
fn handles_are_never_reused() {
    let mut handler = SerialHandler::new();
    let mut seen = Vec::new();
    for _ in 0..5 {
        let handle = match handler.handle_cmd(Cmd::RegisterDevice) {
            CmdAction::Registered { handle } => handle,
            _ => panic!("registration must mint a handle"),
        };
        assert!(!seen.contains(&handle));
        seen.push(handle);
        // Even closing a handle does not free its identifier for reuse.
        handler.handle_cmd(Cmd::CloseDevice { handle });
    }
}

#[test]
fn worker_reassembles_read_bytes() {
    let frame = Frame {
        sender: 11,
        receiver: 12,
        data: b"payload".to_vec(),
    };
    let mut stream = b"junk".to_vec();
    stream.extend_from_slice(&frame.serialize().unwrap());

    let mut worker = DeviceWorker::new();
    match worker.handle_event(WorkerEvent::ReadData { bytes: stream }) {
        WorkerAction::PublishFrames { frames } => {
            assert_eq!(frames.len(), 1);
            assert_eq!(frames[0], frame);
        },
        _ => panic!("read bytes must be reassembled and published"),
    }
}

#[test]
fn worker_event_decisions() {
    let mut worker = DeviceWorker::new();

    assert!(matches!(
        worker.handle_event(WorkerEvent::Cancelled),
        WorkerAction::Stop
    ));
    match worker.handle_event(WorkerEvent::SendRequest {
        data: vec![9, 8, 7],
    }) {
        WorkerAction::WriteData { data } => assert_eq!(data, vec![9, 8, 7]),
        _ => panic!("a send request must become a transport write"),
    }
    assert!(matches!(
        worker.handle_event(WorkerEvent::QueueClosed),
        WorkerAction::CancelSelf
    ));
    assert!(matches!(
        worker.handle_event(WorkerEvent::ReadError),
        WorkerAction::CancelSelf
    ));
}

#[test]
fn worker_state_persists_across_reads() {
    let frame = Frame {
        sender: 1,
        receiver: 2,
        data: b"split".to_vec(),
    };
    let serialized = frame.serialize().unwrap();
    let (head, tail) = serialized.split_at(serialized.len() / 2);

    let mut worker = DeviceWorker::new();
    match worker.handle_event(WorkerEvent::ReadData {
        bytes: head.to_vec(),
    }) {
        WorkerAction::PublishFrames { frames } => assert!(frames.is_empty()),
        _ => panic!("read bytes must be reassembled and published"),
    }
    match worker.handle_event(WorkerEvent::ReadData {
        bytes: tail.to_vec(),
    }) {
        WorkerAction::PublishFrames { frames } => {
            assert_eq!(frames.len(), 1);
            assert_eq!(frames[0], frame);
        },
        _ => panic!("read bytes must be reassembled and published"),
    }
}
