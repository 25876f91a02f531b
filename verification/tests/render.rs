use nixlock::content::KioskContent;
use nixlock::locker::{Event, Locker, OutputInfo};
use nixlock::render::{show, socket_frame, swizzle};
use nixlock::socket::LatestFrame;
use nixlock::{AuthState, Config, Frame, OutputRole};

/// Content that fills every frame with one byte and remembers what it was asked for. It returns
/// `extra` bytes too many.
struct Filler {
    fill: u8,
    extra: usize,
    asked: Vec<(OutputRole, String, u32, u32, AuthState)>,
}

impl Filler {
    fn new(fill: u8, extra: usize) -> Filler {
        Filler { fill, extra, asked: Vec::new() }
    }
}

impl KioskContent for Filler {
    fn paint(&mut self, frame: &Frame) -> Vec<u8> {
        self.asked.push((
            frame.role,
            frame.output_name.to_string(),
            frame.width,
            frame.height,
            frame.auth.state,
        ));
        vec![self.fill; (frame.width * frame.height * 4) as usize + self.extra]
    }
}

/// A lock screen (surface 0) and a kiosk output (surface 1), both of 2 by 1 pixels.
fn locker() -> Locker {
    let config = Config {
        kiosk_outputs: vec!["DP-3".into()],
        pam_service: "nixlock".into(),
        username: None,
        socket_path: None,
        debug: false,
    };
    let mut locker = Locker::new(config, None, 1, false);
    locker.handle(Event::LockRequested, 0);
    let output = |name: &str| OutputInfo { name: Some(name.into()), scale: None };
    locker.handle(Event::Locked(vec![output("eDP-1"), output("DP-3")]), 0);
    for surface in 0..2 {
        locker.handle(Event::Configured { surface, width: 2, height: 1 }, 0);
    }
    locker.handle(Event::Key { keysym: 0x61, utf8: Some("a".into()) }, 0);
    locker
}

fn frame(width: u32, height: u32) -> Option<LatestFrame> {
    Some(LatestFrame { width, height, rgba: vec![1, 2, 3, 4, 5, 6, 7, 8] })
}

#[test]
fn red_and_blue_change_places() {
    assert_eq!(swizzle(&[1, 2, 3, 4, 5, 6, 7, 8]), [3, 2, 1, 4, 7, 6, 5, 8]);
    assert_eq!(swizzle(&swizzle(&[9, 8, 7, 6])), [9, 8, 7, 6]);
    assert_eq!(swizzle(&[]), []);
}

#[test]
fn only_whole_frames_are_shown() {
    assert_eq!(show(4, &vec![1, 2, 3, 4]).unwrap(), [3, 2, 1, 4]);
    assert!(show(4, &vec![1, 2, 3]).is_none());
    assert!(show(4, &vec![0; 8]).is_none());
}

#[test]
fn a_streamed_frame_is_for_the_kiosk_of_its_size() {
    assert!(socket_frame(OutputRole::Kiosk, 2, 1, &frame(2, 1)).is_some());
    assert!(socket_frame(OutputRole::Kiosk, 1, 2, &frame(2, 1)).is_none());
    assert!(socket_frame(OutputRole::Kiosk, 2, 1, &None).is_none());
    assert!(socket_frame(OutputRole::Session, 2, 1, &frame(2, 1)).is_none());
}

#[test]
fn a_kiosk_shows_the_stream_or_the_clock() {
    let locker = locker();
    let (mut clock, mut lock) = (Filler::new(1, 0), Filler::new(2, 0));
    let rendered = locker.render_surface(1, &frame(2, 1), &mut clock, &mut lock);
    assert_eq!(rendered.bgra.unwrap(), [3, 2, 1, 4, 7, 6, 5, 8]);
    assert!(rendered.log.is_none());
    assert!(clock.asked.is_empty() && lock.asked.is_empty());

    let rendered = locker.render_surface(1, &frame(1, 2), &mut clock, &mut lock);
    assert_eq!(rendered.bgra.unwrap(), [1; 8]);
    assert!(rendered.log.is_none());
    assert_eq!(clock.asked, [(OutputRole::Kiosk, "DP-3".to_string(), 2, 1, AuthState::Idle(1))]);
    assert!(lock.asked.is_empty());
}

#[test]
fn a_lock_screen_ignores_the_stream() {
    let locker = locker();
    let (mut clock, mut lock) = (Filler::new(1, 0), Filler::new(2, 0));
    let rendered = locker.render_surface(0, &frame(2, 1), &mut clock, &mut lock);
    assert_eq!(rendered.bgra.unwrap(), [2; 8]);
    assert!(clock.asked.is_empty());
    assert_eq!(lock.asked, [(OutputRole::Session, "eDP-1".to_string(), 2, 1, AuthState::Idle(1))]);
}

#[test]
fn content_of_the_wrong_size_falls_back_to_the_lock_screen() {
    let locker = locker();
    let (mut clock, mut lock) = (Filler::new(1, 3), Filler::new(2, 0));
    let rendered = locker.render_surface(1, &None, &mut clock, &mut lock);
    assert_eq!(rendered.bgra.unwrap(), [2; 8]);
    assert_eq!(
        rendered.log.unwrap(),
        "nixlock: DP-3 content returned 11 bytes (want 8); lock screen"
    );
    assert_eq!(lock.asked, [(OutputRole::Session, "DP-3".to_string(), 2, 1, AuthState::Idle(1))]);

    // A streamed frame that does not hold what its size says is not shown either.
    let torn = Some(LatestFrame { width: 2, height: 1, rgba: vec![0; 7] });
    let (mut clock, mut lock) = (Filler::new(1, 0), Filler::new(2, 0));
    let rendered = locker.render_surface(1, &torn, &mut clock, &mut lock);
    assert_eq!(rendered.bgra.unwrap(), [2; 8]);
    assert!(clock.asked.is_empty());
}

#[test]
fn a_surface_is_left_alone_when_nothing_fits() {
    let locker = locker();
    let (mut clock, mut lock) = (Filler::new(1, 1), Filler::new(2, 1));
    let rendered = locker.render_surface(0, &None, &mut clock, &mut lock);
    assert!(rendered.bgra.is_none());
    assert_eq!(
        rendered.log.unwrap(),
        "nixlock: eDP-1 content returned 9 bytes (want 8); lock screen"
    );
    assert_eq!(lock.asked.len(), 2);
}

#[test]
fn an_unconfigured_surface_is_not_painted() {
    let mut locker = locker();
    locker.handle(Event::Configured { surface: 0, width: 0, height: 7 }, 0);
    let (mut clock, mut lock) = (Filler::new(1, 0), Filler::new(2, 0));
    let rendered = locker.render_surface(0, &None, &mut clock, &mut lock);
    assert!(rendered.bgra.is_none() && rendered.log.is_none());
    assert!(clock.asked.is_empty() && lock.asked.is_empty());
}

/// Content that always returns the same few bytes.
struct Stub(Vec<u8>);

impl KioskContent for Stub {
    fn paint(&mut self, _frame: &Frame) -> Vec<u8> {
        self.0.clone()
    }
}

#[test]
fn the_size_of_a_surface_is_the_plain_product() {
    let mut locker = locker();
    for (width, height, expect) in [
        (65536, 16384, "4294967296"),
        (u32::MAX, u32::MAX, "73786976260478468100"),
    ] {
        locker.handle(Event::Configured { surface: 0, width, height }, 0);
        let (mut clock, mut lock) = (Stub(Vec::new()), Stub(Vec::new()));
        let rendered = locker.render_surface(0, &None, &mut clock, &mut lock);
        assert!(rendered.bgra.is_none());
        assert_eq!(
            rendered.log.unwrap(),
            format!("nixlock: eDP-1 content returned 0 bytes (want {expect}); lock screen")
        );
    }
}
