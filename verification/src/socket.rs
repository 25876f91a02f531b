//! The kiosk display socket: a content-blind receiver of frames.
//!
//! Wire protocol (all integers little-endian):
//!   - on connect, the server writes a HELLO: the eight bytes `NIXLOCK1`, the `width`, the `height`
//!     and the `scale` of the kiosk output, four bytes each. All three are zero while there is no
//!     kiosk output.
//!   - the client then sends frames: `width`, `height`, four bytes each, and exactly
//!     `width * height * 4` bytes of premultiplied RGBA.
//!   - a frame of another geometry than the kiosk output's is dropped and the connection is kept;
//!     a frame of implausible size, and a stream that ends inside a frame, close the connection.
//!
//! One client at a time: a new connection supersedes the one before it. The frame to show is the
//! latest one accepted from the connection that is current and still open; without one the kiosk
//! output shows the built-in clock.
//!
//! Display only: what is received here becomes pixels of one output and nothing else.

use vstd::prelude::*;
use vstd::string::*;

use crate::text::{dec, dec_text, text_of};

verus! {

/// The eight bytes that open a HELLO: `NIXLOCK1`.
pub const MAGIC: [u8; 8] = [0x4e, 0x49, 0x58, 0x4c, 0x4f, 0x43, 0x4b, 0x31];

/// A frame larger than this is never legitimate.
pub const MAX_FRAME_BYTES: usize = 67_108_864;

/// How many bytes a frame's header has.
pub const HEADER_BYTES: usize = 8;

/// A completely received frame.
pub struct LatestFrame {
    pub width: u32,
    pub height: u32,
    pub rgba: Vec<u8>,
}

/// The contents of a frame.
#[verifier::ext_equal]
pub struct FrameView {
    pub width: u32,
    pub height: u32,
    pub rgba: Seq<u8>,
}

impl View for LatestFrame {
    type V = FrameView;

    open spec fn view(&self) -> FrameView {
        FrameView { width: self.width, height: self.height, rgba: self.rgba@ }
    }
}

/// The frame that an optional frame holds.
pub open spec fn frame_of(frame: Option<LatestFrame>) -> Option<FrameView> {
    match frame {
        Some(held) => Some(held@),
        None => None,
    }
}

/// The kiosk output's size and scale; all zero while there is no kiosk output.
#[derive(Clone, Copy, PartialEq, Eq, Structural, Debug)]
pub struct Geometry {
    pub width: u32,
    pub height: u32,
    pub scale: u32,
}

/// How many bytes the pixels of a frame take.
pub open spec fn frame_bytes(width: u32, height: u32) -> int {
    width * height * 4
}

/// Whether a frame of this size is accepted at all: not empty and not above the cap.
pub open spec fn plausible(width: u32, height: u32) -> bool {
    0 < frame_bytes(width, height) <= MAX_FRAME_BYTES
}

impl FrameView {
    /// A frame as it can come off the wire.
    pub open spec fn wf(self) -> bool {
        &&& plausible(self.width, self.height)
        &&& self.rgba.len() == frame_bytes(self.width, self.height)
    }

    /// Whether the frame has exactly the size of the kiosk output.
    pub open spec fn fits(self, geometry: Geometry) -> bool {
        self.width == geometry.width && self.height == geometry.height
    }
}

/// The four bytes of `x`, the least significant first.
pub open spec fn le_bytes(x: u32) -> Seq<u8> {
    seq![
        (x % 256) as u8,
        ((x / 256) % 256) as u8,
        ((x / 65536) % 256) as u8,
        (x / 16777216) as u8,
    ]
}

/// The number whose four bytes stand at `at`, the least significant first.
pub open spec fn le_value(bytes: Seq<u8>, at: int) -> u32 {
    (bytes[at] + 256 * bytes[at + 1] + 65536 * bytes[at + 2] + 16777216 * bytes[at + 3]) as u32
}

/// The HELLO for a kiosk output of this geometry.
pub open spec fn hello(width: u32, height: u32, scale: u32) -> Seq<u8> {
    MAGIC@ + le_bytes(width) + le_bytes(height) + le_bytes(scale)
}

fn push_le(buf: &mut Vec<u8>, x: u32)
    ensures
        final(buf)@ == old(buf)@ + le_bytes(x),
{
    buf.push((x % 256) as u8);
    buf.push(((x / 256) % 256) as u8);
    buf.push(((x / 65536) % 256) as u8);
    buf.push((x / 16777216) as u8);
}

fn read_le(bytes: &[u8], at: usize) -> (x: u32)
    requires
        at + 4 <= bytes@.len(),
    ensures
        x == le_value(bytes@, at as int),
{
    bytes[at] as u32 + 256 * bytes[at + 1] as u32 + 65536 * bytes[at + 2] as u32 + 16777216
        * bytes[at + 3] as u32
}

/// Appends the HELLO for a kiosk output of this geometry.
pub fn write_hello(buf: &mut Vec<u8>, width: u32, height: u32, scale: u32)
    ensures
        final(buf)@ == old(buf)@ + hello(width, height, scale),
{
    let mut i: usize = 0;
    while i < 8
        invariant
            i <= 8,
            buf@ == old(buf)@ + MAGIC@.take(i as int),
        decreases 8 - i,
    {
        buf.push(MAGIC[i]);
        i += 1;
    }
    assert(MAGIC@.take(8) == MAGIC@);
    push_le(buf, width);
    push_le(buf, height);
    push_le(buf, scale);
}

/// A number is read back from the four bytes it was written as.
pub proof fn lemma_le_round_trip(x: u32, before: Seq<u8>, after: Seq<u8>)
    ensures
        le_bytes(x).len() == 4,
        le_value(before + le_bytes(x) + after, before.len() as int) == x,
{
    let b = before + le_bytes(x) + after;
    let at = before.len() as int;
    assert(b[at] == le_bytes(x)[0]);
    assert(b[at + 1] == le_bytes(x)[1]);
    assert(b[at + 2] == le_bytes(x)[2]);
    assert(b[at + 3] == le_bytes(x)[3]);
}

/// A client reads from the HELLO the magic and the geometry that the server wrote.
pub proof fn lemma_hello_is_readable(width: u32, height: u32, scale: u32)
    ensures
        hello(width, height, scale).len() == 20,
        hello(width, height, scale).take(8) == MAGIC@,
        le_value(hello(width, height, scale), 8) == width,
        le_value(hello(width, height, scale), 12) == height,
        le_value(hello(width, height, scale), 16) == scale,
{
    let h = hello(width, height, scale);
    let empty = Seq::<u8>::empty();
    lemma_le_round_trip(width, MAGIC@, le_bytes(height) + le_bytes(scale));
    assert(h == MAGIC@ + le_bytes(width) + (le_bytes(height) + le_bytes(scale)));
    lemma_le_round_trip(height, MAGIC@ + le_bytes(width), le_bytes(scale));
    lemma_le_round_trip(scale, MAGIC@ + le_bytes(width) + le_bytes(height), empty);
    assert(h == h + empty);
}


/// What the render path and the connections share.
pub struct SocketState {
    latest: Option<LatestFrame>,
    geometry: Geometry,
    generation: u64,
}

/// The contents of the shared state: the frame to show, the kiosk output's geometry, and the
/// number of the current connection.
#[verifier::ext_equal]
pub struct SocketView {
    pub latest: Option<FrameView>,
    pub geometry: Geometry,
    pub generation: nat,
}

impl View for SocketState {
    type V = SocketView;

    closed spec fn view(&self) -> SocketView {
        SocketView {
            latest: frame_of(self.latest),
            geometry: self.geometry,
            generation: self.generation as nat,
        }
    }
}

impl SocketView {
    /// No frame, no kiosk output, no connection yet.
    pub open spec fn initial() -> SocketView {
        SocketView {
            latest: None,
            geometry: Geometry { width: 0, height: 0, scale: 0 },
            generation: 0,
        }
    }

    /// The kiosk output was configured.
    pub open spec fn configured(self, geometry: Geometry) -> SocketView {
        SocketView { geometry, ..self }
    }

    /// A client connected: it becomes the current one, and the frame of the client that it
    /// supersedes is gone.
    pub open spec fn accepted(self) -> SocketView {
        SocketView { latest: None, generation: self.generation + 1, ..self }
    }

    /// Whether a frame from this connection is to be shown.
    pub open spec fn accepts(self, generation: nat, frame: FrameView) -> bool {
        self.generation == generation && frame.fits(self.geometry)
    }

    /// A frame was received from a connection: it replaces the frame to show, or it is dropped.
    pub open spec fn received(self, generation: nat, frame: FrameView) -> SocketView {
        if self.accepts(generation, frame) {
            SocketView { latest: Some(frame), ..self }
        } else {
            self
        }
    }

    /// A connection ended: if it is the current one, its frame is gone.
    pub open spec fn finished(self, generation: nat) -> SocketView {
        if self.generation == generation {
            SocketView { latest: None, ..self }
        } else {
            self
        }
    }
}

/// A size as it stands in the log.
pub open spec fn size_text(width: u32, height: u32) -> Seq<char> {
    dec(width as nat) + "x"@ + dec(height as nat)
}

fn push_size(line: &mut String, width: u32, height: u32)
    ensures
        final(line)@ == old(line)@ + size_text(width, height),
{
    line.append(dec_text(width as u128).as_str());
    line.append("x");
    line.append(dec_text(height as u128).as_str());
    assert(line@ == old(line)@ + size_text(width, height));
}

/// The log line for a frame header of implausible size.
pub open spec fn implausible_line(width: u32, height: u32) -> Seq<char> {
    "nixlock: socket: frame "@ + size_text(width, height)
        + " rejected (implausible size); closing"@
}

/// The log line for a frame of another size than the kiosk output's.
pub open spec fn mismatch_line(width: u32, height: u32, geometry: Geometry) -> Seq<char> {
    "nixlock: socket: frame "@ + size_text(width, height) + " rejected (kiosk is "@ + size_text(
        geometry.width,
        geometry.height,
    ) + ")"@
}

/// The log line for an accepted frame.
pub open spec fn accepted_line(width: u32, height: u32) -> Seq<char> {
    "nixlock: socket: frame "@ + size_text(width, height) + " accepted"@
}

/// The log line for a new connection.
pub open spec fn connected_line(geometry: Geometry) -> Seq<char> {
    "nixlock: socket: client connected, geometry "@ + size_text(geometry.width, geometry.height)
}

/// The log line for a stream that broke off: nothing for an end of the stream between two frames.
pub open spec fn broken_line(stage: ReadStage, at_end: bool, error: Seq<char>) -> Option<
    Seq<char>,
> {
    match stage {
        ReadStage::Header => if at_end {
            None
        } else {
            Some("nixlock: socket: read frame header failed: "@ + error)
        },
        ReadStage::Payload { width, height } => Some(
            "nixlock: socket: frame "@ + size_text(width, height) + " truncated: "@ + error
                + "; closing"@,
        ),
        ReadStage::Closed => None,
    }
}

/// What a connection reads next.
#[derive(Clone, Copy, PartialEq, Eq, Structural, Debug)]
pub enum ReadStage {
    /// The header of a frame.
    Header,
    /// The pixels of a frame whose header was read.
    Payload { width: u32, height: u32 },
    /// Nothing any more.
    Closed,
}

/// How many bytes a connection reads in this stage; zero when it reads no more.
pub open spec fn expected_bytes(stage: ReadStage) -> int {
    match stage {
        ReadStage::Header => HEADER_BYTES as int,
        ReadStage::Payload { width, height } => frame_bytes(width, height),
        ReadStage::Closed => 0,
    }
}

/// The stage that a frame header leads to: its pixels, or the end of the connection when the size
/// is implausible, since the stream cannot be resynchronized without a valid length.
pub open spec fn after_header(header: Seq<u8>) -> ReadStage {
    let width = le_value(header, 0);
    let height = le_value(header, 4);
    if plausible(width, height) {
        ReadStage::Payload { width, height }
    } else {
        ReadStage::Closed
    }
}

/// One client's connection: its number and what it reads next.
#[derive(Clone, Copy, PartialEq, Eq, Structural, Debug)]
pub struct Connection {
    pub generation: u64,
    pub stage: ReadStage,
}

impl Connection {
    /// The pixels that are waited for have a plausible size.
    pub open spec fn wf(self) -> bool {
        match self.stage {
            ReadStage::Payload { width, height } => plausible(width, height),
            _ => true,
        }
    }
}

/// What a new connection starts with.
pub struct Accepted {
    pub connection: Connection,
    /// To be written to the client first.
    pub hello: Vec<u8>,
    /// To be logged once the HELLO is written.
    pub log: String,
    /// Whether the frame of the superseded client was taken off the output, which asks for a
    /// repaint.
    pub repaint: bool,
}

/// What follows from a completely received frame.
pub struct Received {
    pub log: Option<String>,
    /// Whether there is a new frame to show.
    pub repaint: bool,
}

/// What follows from the end of a connection.
pub struct Finished {
    pub log: Option<String>,
    /// Whether a frame was taken off the output, which asks for a repaint.
    pub repaint: bool,
}

impl SocketState {
    pub fn new() -> (state: SocketState)
        ensures
            state@ == SocketView::initial(),
    {
        SocketState {
            latest: None,
            geometry: Geometry { width: 0, height: 0, scale: 0 },
            generation: 0,
        }
    }

    /// Records the kiosk output's geometry, on every configuration of its surface.
    pub fn set_geometry(&mut self, width: u32, height: u32, scale: u32)
        ensures
            final(self)@ == old(self)@.configured(Geometry { width, height, scale }),
    {
        self.geometry = Geometry { width, height, scale };
    }

    /// The kiosk output's geometry.
    pub fn geometry(&self) -> (geometry: Geometry)
        ensures
            geometry == self@.geometry,
    {
        self.geometry
    }

    /// The frame to show, if there is one.
    pub fn latest(&self) -> (latest: &Option<LatestFrame>)
        ensures
            frame_of(*latest) == self@.latest,
    {
        &self.latest
    }

    /// The number of the current connection.
    pub fn generation(&self) -> (generation: u64)
        ensures
            generation == self@.generation,
    {
        self.generation
    }

    /// Makes a new connection the current one. The connection before it is superseded, and its
    /// frame is no longer shown.
    pub fn accept_one(&mut self) -> (accepted: Accepted)
        requires
            old(self)@.generation < u64::MAX,
        ensures
            final(self)@ == old(self)@.accepted(),
            accepted.connection == (Connection {
                generation: final(self)@.generation as u64,
                stage: ReadStage::Header,
            }),
            accepted.hello@ == hello(
                old(self)@.geometry.width,
                old(self)@.geometry.height,
                old(self)@.geometry.scale,
            ),
            accepted.log@ == connected_line(old(self)@.geometry),
            accepted.repaint == (old(self)@.latest is Some),
    {
        let repaint = self.latest.is_some();
        self.generation = self.generation + 1;
        self.latest = None;
        let mut greeting: Vec<u8> = Vec::new();
        write_hello(
            &mut greeting,
            self.geometry.width,
            self.geometry.height,
            self.geometry.scale,
        );
        let mut log = "nixlock: socket: client connected, geometry ".to_owned();
        push_size(&mut log, self.geometry.width, self.geometry.height);
        Accepted {
            connection: Connection { generation: self.generation, stage: ReadStage::Header },
            hello: greeting,
            log,
            repaint,
        }
    }
}

impl Connection {
    /// How many bytes to read next, or `None` when the connection is over: closed, or superseded
    /// by a newer one between two frames.
    pub fn next_read(&self, state: &SocketState) -> (count: Option<usize>)
        requires
            self.wf(),
        ensures
            count == (match self.stage {
                ReadStage::Header => if state@.generation == self.generation {
                    Some(HEADER_BYTES)
                } else {
                    None
                },
                ReadStage::Payload { width, height } => Some(frame_bytes(width, height) as usize),
                ReadStage::Closed => None,
            }),
    {
        match self.stage {
            ReadStage::Header => if state.generation == self.generation {
                Some(HEADER_BYTES)
            } else {
                None
            },
            ReadStage::Payload { width, height } => {
                let area: u64 = pixel_count(width, height);
                Some((area * 4) as usize)
            },
            ReadStage::Closed => None,
        }
    }

    /// Takes in the header of a frame.
    pub fn on_header(&mut self, header: &[u8]) -> (log: Option<String>)
        requires
            old(self).stage == ReadStage::Header,
            header@.len() == HEADER_BYTES,
        ensures
            *final(self) == (Connection { stage: after_header(header@), ..*old(self) }),
            final(self).wf(),
            text_of(log) == (if after_header(header@) == ReadStage::Closed {
                Some(implausible_line(le_value(header@, 0), le_value(header@, 4)))
            } else {
                None
            }),
    {
        let width: u32 = read_le(header, 0);
        let height: u32 = read_le(header, 4);
        let area: u64 = pixel_count(width, height);
        if area == 0 || area > 16_777_216 {
            self.stage = ReadStage::Closed;
            let mut line = "nixlock: socket: frame ".to_owned();
            push_size(&mut line, width, height);
            line.append(" rejected (implausible size); closing");
            Some(line)
        } else {
            self.stage = ReadStage::Payload { width, height };
            None
        }
    }

    /// Takes in the pixels of a frame: it becomes the frame to show when this connection is still
    /// the current one and the size is the kiosk output's, and is dropped otherwise. The connection
    /// goes on with the next header either way.
    pub fn on_payload(&mut self, state: &mut SocketState, payload: Vec<u8>) -> (result: Received)
        requires
            old(self).stage is Payload,
            payload@.len() == expected_bytes(old(self).stage),
        ensures
            *final(self) == (Connection { stage: ReadStage::Header, ..*old(self) }),
            ({
                let frame = FrameView {
                    width: old(self).stage->width,
                    height: old(self).stage->height,
                    rgba: payload@,
                };
                let generation = old(self).generation as nat;
                &&& final(state)@ == old(state)@.received(generation, frame)
                &&& result.repaint == old(state)@.accepts(generation, frame)
                &&& text_of(result.log) == (if !frame.fits(old(state)@.geometry) {
                    Some(mismatch_line(frame.width, frame.height, old(state)@.geometry))
                } else if result.repaint {
                    Some(accepted_line(frame.width, frame.height))
                } else {
                    None
                })
            }),
    {
        let (width, height): (u32, u32) = match self.stage {
            ReadStage::Payload { width, height } => (width, height),
            _ => (0, 0),
        };
        self.stage = ReadStage::Header;
        let mut line = "nixlock: socket: frame ".to_owned();
        push_size(&mut line, width, height);
        let geometry = state.geometry;
        if width != geometry.width || height != geometry.height {
            line.append(" rejected (kiosk is ");
            push_size(&mut line, geometry.width, geometry.height);
            line.append(")");
            return Received { log: Some(line), repaint: false };
        }
        if state.generation != self.generation {
            return Received { log: None, repaint: false };
        }
        line.append(" accepted");
        state.latest = Some(LatestFrame { width, height, rgba: payload });
        Received { log: Some(line), repaint: true }
    }

    /// The stream broke off: at its end (`at_end`), or with the given error. The connection is
    /// over; what was received of an unfinished frame is not shown.
    pub fn on_broken(&mut self, at_end: bool, error: &str) -> (log: Option<String>)
        ensures
            *final(self) == (Connection { stage: ReadStage::Closed, ..*old(self) }),
            text_of(log) == broken_line(old(self).stage, at_end, error@),
    {
        let stage = self.stage;
        self.stage = ReadStage::Closed;
        match stage {
            ReadStage::Header => if at_end {
                None
            } else {
                let mut line = "nixlock: socket: read frame header failed: ".to_owned();
                line.append(error);
                Some(line)
            },
            ReadStage::Payload { width, height } => {
                let mut line = "nixlock: socket: frame ".to_owned();
                push_size(&mut line, width, height);
                line.append(" truncated: ");
                line.append(error);
                line.append("; closing");
                Some(line)
            },
            ReadStage::Closed => None,
        }
    }

    /// The connection is over. If it is still the current one, its frame is taken off the output,
    /// and there is a line to log; a superseded connection changes nothing.
    pub fn finish(self, state: &mut SocketState) -> (result: Finished)
        ensures
            final(state)@ == old(state)@.finished(self.generation as nat),
            result.repaint == (old(state)@.generation == self.generation && old(state)@.latest is Some),
            text_of(result.log) == (if old(state)@.generation == self.generation {
                Some(
                    "nixlock: socket: client disconnected; kiosk falls back to the default clock"@,
                )
            } else {
                None
            }),
    {
        if state.generation == self.generation {
            let repaint = state.latest.is_some();
            state.latest = None;
            Finished {
                log: Some(
                    "nixlock: socket: client disconnected; kiosk falls back to the default clock".to_owned(),
                ),
                repaint,
            }
        } else {
            Finished { log: None, repaint: false }
        }
    }
}

fn pixel_count(width: u32, height: u32) -> (area: u64)
    ensures
        area == width * height,
        area * 4 == frame_bytes(width, height),
{
    proof {
        vstd::arithmetic::mul::lemma_mul_upper_bound(
            width as int,
            0xffff_ffff,
            height as int,
            0xffff_ffff,
        );
        vstd::arithmetic::mul::lemma_mul_nonnegative(width as int, height as int);
    }
    width as u64 * height as u64
}

/// Where a connection's socket is bound: the configured path, else `nixlock.sock` in the runtime
/// directory, else nowhere.
pub open spec fn socket_path(configured: Option<Seq<u8>>, runtime_dir: Option<Seq<u8>>) -> Option<
    Seq<u8>,
> {
    match configured {
        Some(path) => Some(path),
        None => match runtime_dir {
            Some(dir) => Some(in_directory(dir)),
            None => None,
        },
    }
}

/// The file name `nixlock.sock` in bytes.
pub const SOCKET_NAME: [u8; 12] = [
    0x6e,
    0x69,
    0x78,
    0x6c,
    0x6f,
    0x63,
    0x6b,
    0x2e,
    0x73,
    0x6f,
    0x63,
    0x6b,
];

/// The path of `nixlock.sock` in a directory: a slash stands between, unless the directory's path
/// is empty or ends in one.
pub open spec fn in_directory(dir: Seq<u8>) -> Seq<u8> {
    if dir.len() == 0 || dir.last() == 0x2f {
        dir + SOCKET_NAME@
    } else {
        dir.push(0x2f) + SOCKET_NAME@
    }
}

/// The bytes of an optional path.
pub open spec fn bytes_of(path: Option<Vec<u8>>) -> Option<Seq<u8>> {
    match path {
        Some(bytes) => Some(bytes@),
        None => None,
    }
}

/// Resolves the path of the socket. `None` means that there is none, and the kiosk output shows
/// the built-in clock: a display feature never stands in the way of the lock.
pub fn resolve_path(configured: Option<Vec<u8>>, runtime_dir: Option<Vec<u8>>) -> (path: Option<
    Vec<u8>,
>)
    ensures
        bytes_of(path) == socket_path(bytes_of(configured), bytes_of(runtime_dir)),
{
    if configured.is_some() {
        return configured;
    }
    match runtime_dir {
        None => None,
        Some(dir) => {
            let mut path = dir;
            if path.len() > 0 && path[path.len() - 1] != 0x2f {
                path.push(0x2f);
            }
            let ghost base = path@;
            let mut i: usize = 0;
            while i < 12
                invariant
                    i <= 12,
                    path@ == base + SOCKET_NAME@.take(i as int),
                decreases 12 - i,
            {
                path.push(SOCKET_NAME[i]);
                i += 1;
            }
            assert(SOCKET_NAME@.take(12) == SOCKET_NAME@);
            Some(path)
        },
    }
}

} // verus!
