use nixlock::locker::{Action, Event, Locker};
use nixlock::socket::{
    resolve_path, write_hello, Connection, Geometry, ReadStage, SocketState, MAGIC,
    MAX_FRAME_BYTES,
};
use nixlock::Config;

fn frame(width: u32, height: u32, fill: u8) -> Vec<u8> {
    let mut v = Vec::new();
    v.extend_from_slice(&width.to_le_bytes());
    v.extend_from_slice(&height.to_le_bytes());
    v.resize(8 + (width as usize) * (height as usize) * 4, fill);
    v
}

/// One client as the reading side sees it: the bytes that arrived and were not read yet.
struct Client {
    connection: Connection,
    pending: Vec<u8>,
    lines: Vec<String>,
    repaints: usize,
}

fn serve(state: &mut SocketState) -> Client {
    let accepted = state.accept_one();
    Client {
        connection: accepted.connection,
        pending: Vec::new(),
        lines: vec![accepted.log],
        repaints: accepted.repaint as usize,
    }
}

impl Client {
    /// Bytes arrive; whatever can be read of them is read.
    fn write_all(&mut self, state: &mut SocketState, bytes: &[u8]) {
        self.pending.extend_from_slice(bytes);
        while let Some(count) = self.connection.next_read(state) {
            if self.pending.len() < count {
                return;
            }
            let rest = self.pending.split_off(count);
            let read = std::mem::replace(&mut self.pending, rest);
            match self.connection.stage {
                ReadStage::Header => self.lines.extend(self.connection.on_header(&read)),
                ReadStage::Payload { .. } => {
                    let received = self.connection.on_payload(state, read);
                    self.lines.extend(received.log);
                    self.repaints += received.repaint as usize;
                }
                ReadStage::Closed => unreachable!(),
            }
        }
    }

    fn is_closed(&self, state: &SocketState) -> bool {
        self.connection.next_read(state).is_none()
    }

    /// The client is gone.
    fn hang_up(mut self, state: &mut SocketState) -> Vec<String> {
        if self.connection.next_read(state).is_some() {
            self.lines.extend(self.connection.on_broken(true, "failed to fill whole buffer"));
        }
        let shown = state.latest().is_some();
        let current = state.generation() == self.connection.generation;
        let finished = self.connection.finish(state);
        assert_eq!(finished.repaint, shown && current);
        self.lines.extend(finished.log);
        self.lines
    }
}

fn latest_fill(state: &SocketState) -> Option<u8> {
    state.latest().as_ref().map(|f| f.rgba[0])
}

#[test]
fn a_frame_matching_the_kiosk_geometry_is_accepted() {
    let mut state = SocketState::new();
    state.set_geometry(4, 2, 1);
    let mut client = serve(&mut state);

    client.write_all(&mut state, &frame(4, 2, 0xAB));
    assert!(latest_fill(&state) == Some(0xAB), "frame was never accepted");
    let f = state.latest().as_ref().unwrap();
    assert_eq!((f.width, f.height), (4, 2));
    assert_eq!(f.rgba.len(), 4 * 2 * 4, "payload must be exactly w*h*4");
    assert_eq!(client.repaints, 1);
    assert_eq!(
        client.hang_up(&mut state),
        [
            "nixlock: socket: client connected, geometry 4x2",
            "nixlock: socket: frame 4x2 accepted",
            "nixlock: socket: client disconnected; kiosk falls back to the default clock",
        ]
    );
}

#[test]
fn a_disconnect_clears_the_frame_so_the_kiosk_falls_back_to_the_clock() {
    let mut state = SocketState::new();
    state.set_geometry(4, 2, 1);
    let mut client = serve(&mut state);

    client.write_all(&mut state, &frame(4, 2, 0x11));
    assert!(latest_fill(&state) == Some(0x11));

    client.hang_up(&mut state);
    assert!(state.latest().is_none(), "stale frame survived the disconnect");
}

#[test]
fn a_wrong_geometry_frame_is_dropped_and_the_connection_is_kept() {
    let mut state = SocketState::new();
    state.set_geometry(4, 2, 1);
    let mut client = serve(&mut state);

    client.write_all(&mut state, &frame(8, 2, 0x22));
    assert!(
        state.latest().is_none(),
        "a frame whose geometry does not match the kiosk output was blitted"
    );
    assert_eq!(
        client.lines.last().unwrap(),
        "nixlock: socket: frame 8x2 rejected (kiosk is 4x2)"
    );

    client.write_all(&mut state, &frame(4, 2, 0x33));
    assert!(
        latest_fill(&state) == Some(0x33),
        "the connection did not survive a dropped frame"
    );
    client.hang_up(&mut state);
}

#[test]
fn no_frame_ever_sent_means_no_frame_to_show() {
    let mut state = SocketState::new();
    state.set_geometry(4, 2, 1);
    let client = serve(&mut state);
    client.hang_up(&mut state);
    assert!(state.latest().is_none());
}

#[test]
fn a_frame_arriving_before_the_kiosk_has_geometry_is_dropped() {
    let mut state = SocketState::new();
    let mut client = serve(&mut state);

    client.write_all(&mut state, &frame(4, 2, 0x44));
    assert!(
        state.latest().is_none(),
        "a frame was blitted at a guessed size before the compositor configured the kiosk"
    );
    client.hang_up(&mut state);
}

#[test]
fn an_implausibly_large_frame_closes_the_connection_without_reading_the_payload() {
    const W: u32 = 4097;
    const H: u32 = 4096;
    assert!(
        (W as usize) * (H as usize) * 4 > MAX_FRAME_BYTES,
        "this test is only meaningful above the cap"
    );

    let mut state = SocketState::new();
    state.set_geometry(4, 2, 1);
    let mut client = serve(&mut state);

    let mut header = Vec::new();
    header.extend_from_slice(&W.to_le_bytes());
    header.extend_from_slice(&H.to_le_bytes());
    client.write_all(&mut state, &header);

    assert!(
        client.is_closed(&state),
        "the server should have closed on the header alone; it is still reading the payload"
    );
    assert_eq!(
        client.lines.last().unwrap(),
        "nixlock: socket: frame 4097x4096 rejected (implausible size); closing"
    );
    client.hang_up(&mut state);
    assert!(state.latest().is_none());
}

#[test]
fn a_zero_sized_frame_closes_the_connection() {
    let mut state = SocketState::new();
    state.set_geometry(4, 2, 1);
    let mut client = serve(&mut state);
    client.write_all(&mut state, &[0u8; 8]);
    assert!(client.is_closed(&state));
    client.hang_up(&mut state);
    assert!(state.latest().is_none());
}

#[test]
fn a_truncated_frame_is_treated_as_a_disconnect() {
    let mut state = SocketState::new();
    state.set_geometry(4, 2, 1);
    let mut client = serve(&mut state);

    let full = frame(4, 2, 0x55);
    client.write_all(&mut state, &full[..full.len() - 4]);
    assert!(state.latest().is_none());
    let lines = client.hang_up(&mut state);
    assert!(state.latest().is_none(), "a partial buffer must never be shown");
    assert_eq!(
        lines[1],
        "nixlock: socket: frame 4x2 truncated: failed to fill whole buffer; closing"
    );
}

#[test]
fn a_superseded_connection_does_not_clear_the_newer_frame() {
    let mut state = SocketState::new();
    state.set_geometry(4, 2, 1);

    let client_old = serve(&mut state);
    let mut client_new = serve(&mut state);
    client_new.write_all(&mut state, &frame(4, 2, 0x66));

    assert!(client_old.is_closed(&state));
    let lines = client_old.hang_up(&mut state);
    assert_eq!(lines.len(), 1);
    assert_eq!(
        latest_fill(&state),
        Some(0x66),
        "the old connection's exit stomped the live frame"
    );
    client_new.hang_up(&mut state);
}

#[test]
fn a_new_client_replaces_the_frame_and_the_old_one_cannot_bring_it_back() {
    let mut state = SocketState::new();
    state.set_geometry(4, 2, 1);
    let mut client_old = serve(&mut state);
    client_old.write_all(&mut state, &frame(4, 2, 0x10));
    // Half a frame is on the wire when the newer client connects.
    let late = frame(4, 2, 0x20);
    client_old.write_all(&mut state, &late[..12]);
    assert_eq!(latest_fill(&state), Some(0x10));

    let client_new = serve(&mut state);
    assert_eq!(client_new.repaints, 1);
    assert!(state.latest().is_none());
    let repaints = client_old.repaints;
    client_old.write_all(&mut state, &late[12..]);
    assert!(state.latest().is_none());
    assert_eq!(client_old.repaints, repaints);
    assert!(client_old.is_closed(&state));
    client_old.hang_up(&mut state);
    client_new.hang_up(&mut state);
}

#[test]
fn frames_in_one_write_are_all_delivered() {
    let mut state = SocketState::new();
    state.set_geometry(2, 1, 1);
    let mut client = serve(&mut state);
    let mut bytes = frame(2, 1, 1);
    bytes.extend(frame(2, 1, 2));
    bytes.extend(frame(2, 1, 3));
    client.write_all(&mut state, &bytes);
    assert_eq!(client.repaints, 3);
    assert_eq!(state.latest().as_ref().unwrap().rgba, vec![3; 8]);
    // A resize between two frames: the next frame has to have the new size.
    state.set_geometry(1, 2, 1);
    client.write_all(&mut state, &frame(2, 1, 4));
    assert_eq!(state.latest().as_ref().unwrap().rgba, vec![3; 8]);
    client.write_all(&mut state, &frame(1, 2, 5));
    assert_eq!(state.latest().as_ref().unwrap().rgba, vec![5; 8]);
}

#[test]
fn the_largest_plausible_frame_is_read() {
    let mut state = SocketState::new();
    let mut client = serve(&mut state);
    let mut header = Vec::new();
    header.extend_from_slice(&4096u32.to_le_bytes());
    header.extend_from_slice(&4096u32.to_le_bytes());
    client.write_all(&mut state, &header);
    assert_eq!(client.connection.next_read(&state), Some(MAX_FRAME_BYTES));
    assert_eq!(
        client.connection.stage,
        ReadStage::Payload { width: 4096, height: 4096 }
    );

    let mut other = serve(&mut state);
    other.write_all(&mut state, &[0xff; 8]);
    assert!(other.is_closed(&state));
    assert_eq!(
        other.lines[1],
        "nixlock: socket: frame 4294967295x4294967295 rejected (implausible size); closing"
    );
}

#[test]
fn a_failed_header_read_is_logged_and_an_end_between_frames_is_not() {
    let mut state = SocketState::new();
    let mut client = serve(&mut state);
    assert_eq!(
        client.connection.on_broken(false, "Connection reset by peer").unwrap(),
        "nixlock: socket: read frame header failed: Connection reset by peer"
    );
    let mut other = serve(&mut state);
    assert_eq!(other.connection.on_broken(true, "end"), None);
}

#[test]
fn hello_is_the_magic_then_three_little_endian_u32s() {
    let mut got = Vec::new();
    write_hello(&mut got, 3840, 2160, 2);

    assert_eq!(got.len(), 20, "HELLO is 8 magic + 3 u32");
    assert_eq!(&got[0..8], MAGIC);
    assert_eq!(&got[0..8], b"NIXLOCK1");
    assert_eq!(u32::from_le_bytes(got[8..12].try_into().unwrap()), 3840);
    assert_eq!(u32::from_le_bytes(got[12..16].try_into().unwrap()), 2160);
    assert_eq!(u32::from_le_bytes(got[16..20].try_into().unwrap()), 2);
}

#[test]
fn hello_reports_zero_geometry_when_there_is_no_kiosk_output() {
    let Geometry { width, height, scale } = SocketState::new().geometry();
    let mut got = Vec::new();
    write_hello(&mut got, width, height, scale);
    assert_eq!(&got[8..20], &[0u8; 12]);

    assert_eq!(SocketState::new().accept_one().hello, got);
}

#[test]
fn the_socket_module_has_no_route_to_authentication_or_unlock() {
    let mut state = SocketState::new();
    state.set_geometry(4, 2, 1);
    let mut lines = Vec::new();
    for bytes in [frame(4, 2, 1), frame(3, 2, 1), vec![0; 8], frame(4, 2, 1)[..20].to_vec()] {
        let mut client = serve(&mut state);
        client.write_all(&mut state, &bytes);
        lines.extend(client.hang_up(&mut state));
    }
    for forbidden in ["unlock", "password", "pam", "auth"] {
        for line in &lines {
            assert!(!line.to_lowercase().contains(forbidden), "{line}");
        }
    }

    let config = Config {
        kiosk_outputs: vec!["DP-3".into()],
        pam_service: "nixlock".into(),
        username: None,
        socket_path: None,
        debug: true,
    };
    let mut locker = Locker::new(config, None, 1, false);
    locker.handle(Event::LockRequested, 0);
    locker.handle(
        Event::Locked(vec![nixlock::locker::OutputInfo {
            name: Some("DP-3".into()),
            scale: None,
        }]),
        0,
    );
    locker.handle(Event::Key { keysym: 0x61, utf8: Some("a".into()) }, 0);
    let before = locker.auth_view();
    let actions = locker.handle(Event::FrameArrived, 1);
    assert_eq!(actions.len(), 1);
    assert!(matches!(actions[0], Action::Redraw(0)));
    assert_eq!(locker.auth_view(), before);
}

#[test]
fn resolve_path_prefers_the_configured_value_then_xdg_then_gives_up() {
    let configured = || Some(b"/run/custom/nixlock.sock".to_vec());
    let runtime = || Some(b"/run/user/1000".to_vec());

    assert_eq!(resolve_path(configured(), runtime()), configured());
    assert_eq!(
        resolve_path(None, runtime()).unwrap(),
        b"/run/user/1000/nixlock.sock"
    );
    assert!(resolve_path(None, None).is_none());
    assert_eq!(resolve_path(configured(), None), configured());

    assert_eq!(resolve_path(None, Some(b"/run/".to_vec())).unwrap(), b"/run/nixlock.sock");
    assert_eq!(resolve_path(None, Some(Vec::new())).unwrap(), b"nixlock.sock");
}

#[test]
fn a_superseded_frame_of_the_wrong_size_is_still_reported() {
    let mut state = SocketState::new();
    state.set_geometry(4, 2, 1);
    for (width, line) in [
        (8, Some("nixlock: socket: frame 8x2 rejected (kiosk is 4x2)")),
        (4, None),
    ] {
        let mut old = serve(&mut state);
        let bytes = frame(width, 2, 0x77);
        old.write_all(&mut state, &bytes[..8]);
        let _new = serve(&mut state);
        old.write_all(&mut state, &bytes[8..]);
        assert!(state.latest().is_none());
        assert_eq!(old.lines.get(1).map(String::as_str), line);
        assert_eq!(old.repaints, 0);
    }
}

#[test]
fn a_stream_stores_its_fitting_frames_in_order() {
    let mut state = SocketState::new();
    state.set_geometry(2, 1, 1);
    let mut client = serve(&mut state);
    let mut stored = Vec::new();
    for (width, fill) in [(2, 1), (3, 2), (2, 3), (1, 4), (2, 5), (5, 6)] {
        let repaints = client.repaints;
        client.write_all(&mut state, &frame(width, 1, fill));
        if client.repaints > repaints {
            stored.push(latest_fill(&state).unwrap());
        }
    }
    assert_eq!(stored, [1, 3, 5]);
    assert_eq!(latest_fill(&state), Some(5));
    client.hang_up(&mut state);
    assert!(state.latest().is_none());
}
