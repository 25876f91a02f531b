//! What holds of the kiosk display socket over a whole run.

use vstd::prelude::*;
use vstd::string::*;

use crate::socket::{
    accepted_line, after_header, broken_line, bytes_of, connected_line, expected_bytes,
    frame_bytes, frame_of, hello, implausible_line, le_bytes, lemma_le_round_trip, mismatch_line,
    plausible, socket_path, Connection, FrameView, Geometry, LatestFrame, ReadStage, SocketView,
    MAGIC, MAX_FRAME_BYTES, SOCKET_NAME,
};
use crate::text::dec;

verus! {

/// Something that happens to the socket.
pub ghost enum SocketEvent {
    /// The kiosk output was configured.
    Configured(Geometry),
    /// A client connected.
    Accepted,
    /// A frame was completely received on a connection.
    Received { generation: nat, frame: FrameView },
    /// A connection ended.
    Finished { generation: nat },
}

/// The state after one event.
pub open spec fn after(state: SocketView, event: SocketEvent) -> SocketView {
    match event {
        SocketEvent::Configured(geometry) => state.configured(geometry),
        SocketEvent::Accepted => state.accepted(),
        SocketEvent::Received { generation, frame } => state.received(generation, frame),
        SocketEvent::Finished { generation } => state.finished(generation),
    }
}

/// The state after a whole run of events.
pub open spec fn replay(events: Seq<SocketEvent>) -> SocketView
    decreases events.len(),
{
    if events.len() == 0 {
        SocketView::initial()
    } else {
        after(replay(events.drop_last()), events.last())
    }
}

/// Whether event `i` is the arrival of a frame that was accepted.
pub open spec fn accepted_at(events: Seq<SocketEvent>, i: int) -> bool {
    events[i] matches SocketEvent::Received { generation, frame } && replay(
        events.take(i),
    ).accepts(generation, frame)
}

/// Whether event `j` takes the frames of a connection off the output: the connection ends, or
/// another one supersedes it.
pub open spec fn ends(event: SocketEvent, generation: nat) -> bool {
    match event {
        SocketEvent::Accepted => true,
        SocketEvent::Finished { generation: finished } => finished == generation,
        _ => false,
    }
}

/// Whether event `i` brought the frame that is now to be shown: it was accepted, no frame was
/// accepted after it, and its connection is current and was not ended since.
pub open spec fn on_display(events: Seq<SocketEvent>, i: int) -> bool {
    &&& 0 <= i < events.len()
    &&& accepted_at(events, i)
    &&& events[i]->Received_generation == replay(events).generation
    &&& forall|j: int|
        #![trigger events[j]]
        i < j < events.len() ==> !accepted_at(events, j) && !ends(
            events[j],
            events[i]->Received_generation,
        )
}

proof fn lemma_prefix(events: Seq<SocketEvent>, i: int)
    requires
        0 <= i < events.len(),
    ensures
        i < events.len() - 1 ==> accepted_at(events, i) == accepted_at(events.drop_last(), i),
        events.take(events.len() - 1) == events.drop_last(),
{
    if i < events.len() - 1 {
        assert(events.take(i) == events.drop_last().take(i));
    }
    assert(events.take(events.len() - 1) == events.drop_last());
}

/// The kiosk output shows the most recently accepted frame of the connection that is current and
/// still open, and nothing else: there is a frame to show exactly when some frame of the run
/// still counts, and it is then that frame.
pub proof fn lemma_latest_accepted_frame_is_shown(events: Seq<SocketEvent>)
    ensures
        forall|i: int| #[trigger]
            on_display(events, i) ==> replay(events).latest == Some(events[i]->frame),
        replay(events).latest is Some ==> exists|i: int| #[trigger] on_display(events, i),
    decreases events.len(),
{
    if events.len() > 0 {
        let before = events.drop_last();
        let n = events.len() - 1;
        lemma_latest_accepted_frame_is_shown(before);
        lemma_prefix(events, n);
        assert forall|i: int| #[trigger] on_display(events, i) implies replay(events).latest
            == Some(events[i]->frame) by {
            if i < n {
                lemma_prefix(events, i);
                assert(!accepted_at(events, n) && !ends(
                    events[n],
                    events[i]->Received_generation,
                ));
                assert forall|j: int|
                    #![trigger before[j]]
                    i < j < before.len() implies !accepted_at(before, j) && !ends(
                    before[j],
                    before[i]->Received_generation,
                ) by {
                    lemma_prefix(events, j);
                    assert(events[j] == before[j]);
                }
                assert(on_display(before, i));
            }
        }
        if replay(events).latest is Some {
            if accepted_at(events, n) {
                assert(on_display(events, n));
            } else {
                assert(replay(before).latest is Some);
                let i = choose|i: int| #[trigger] on_display(before, i);
                lemma_prefix(events, i);
                assert forall|j: int|
                    #![trigger events[j]]
                    i < j < events.len() implies !accepted_at(events, j) && !ends(
                    events[j],
                    events[i]->Received_generation,
                ) by {
                    lemma_prefix(events, j);
                    if j < n {
                        assert(events[j] == before[j]);
                    }
                }
                assert(on_display(events, i));
            }
        }
    }
}

/// Every frame that arrives in a run is one that can come off the wire.
pub open spec fn wire_frames(events: Seq<SocketEvent>) -> bool {
    forall|i: int|
        #![trigger events[i]]
        0 <= i < events.len() ==> (events[i] matches SocketEvent::Received { frame, .. }
            ==> frame.wf())
}

/// The frame to show is always whole: it has exactly the bytes that its size asks for, never a
/// part of them, and never more than the cap.
pub proof fn lemma_shown_frame_is_whole(events: Seq<SocketEvent>)
    requires
        wire_frames(events),
    ensures
        replay(events).latest matches Some(frame) ==> frame.wf() && frame.rgba.len() == frame_bytes(
            frame.width,
            frame.height,
        ) && frame.rgba.len() <= MAX_FRAME_BYTES,
    decreases events.len(),
{
    if events.len() > 0 {
        let before = events.drop_last();
        assert(wire_frames(before)) by {
            assert forall|i: int| #![trigger before[i]] 0 <= i < before.len() implies (
            before[i] matches SocketEvent::Received { frame, .. } ==> frame.wf()) by {
                assert(events[i] == before[i]);
            }
        }
        lemma_shown_frame_is_whole(before);
        assert(events[events.len() - 1] == events.last());
    }
}

/// Without a kiosk output no frame is accepted: nothing is shown at a guessed size.
pub proof fn lemma_no_kiosk_no_frame(state: SocketView, generation: nat, frame: FrameView)
    requires
        frame.wf(),
        state.geometry.width == 0 || state.geometry.height == 0,
    ensures
        state.received(generation, frame) == state,
{
    if frame.fits(state.geometry) {
        assert(frame_bytes(frame.width, frame.height) == 0) by (nonlinear_arith)
            requires
                frame.width == 0 || frame.height == 0,
        ;
    }
}

/// A superseded connection has no way to change what is shown: neither a frame of it nor its
/// end has any effect.
pub proof fn lemma_superseded_is_powerless(state: SocketView, generation: nat, frame: FrameView)
    requires
        state.generation != generation,
    ensures
        state.received(generation, frame) == state,
        state.finished(generation) == state,
{
}

/// The disconnect of the current client takes its frame off the output at once, and a new client
/// starts with nothing on it.
pub proof fn lemma_disconnect_clears(state: SocketView)
    ensures
        state.finished(state.generation).latest is None,
        state.accepted().latest is None,
{
}

/// A dropped frame costs nothing: the state is as before, and the next frame of the right size is
/// accepted on the same connection.
pub proof fn lemma_mismatch_is_harmless(state: SocketView, wrong: FrameView, right: FrameView)
    requires
        !wrong.fits(state.geometry),
        right.fits(state.geometry),
    ensures
        state.received(state.generation, wrong) == state,
        state.received(state.generation, wrong).received(state.generation, right).latest == Some(
            right,
        ),
{
}

/// The frames that a connection takes in from a byte stream, stage by stage, until the stream
/// ends or the connection closes.
pub open spec fn deliveries(stage: ReadStage, bytes: Seq<u8>) -> Seq<FrameView>
    decreases bytes.len(),
{
    let n = expected_bytes(stage);
    if n <= 0 || bytes.len() < n {
        Seq::empty()
    } else {
        match stage {
            ReadStage::Header => deliveries(after_header(bytes.take(n)), bytes.skip(n)),
            ReadStage::Payload { width, height } => seq![
                FrameView { width, height, rgba: bytes.take(n) },
            ] + deliveries(ReadStage::Header, bytes.skip(n)),
            ReadStage::Closed => Seq::empty(),
        }
    }
}

/// A frame as a client sends it.
pub open spec fn frame_on_wire(frame: FrameView) -> Seq<u8> {
    le_bytes(frame.width) + le_bytes(frame.height) + frame.rgba
}

/// Frames as a client sends them, one after the other.
pub open spec fn frames_on_wire(frames: Seq<FrameView>) -> Seq<u8>
    decreases frames.len(),
{
    if frames.len() == 0 {
        Seq::empty()
    } else {
        frame_on_wire(frames.first()) + frames_on_wire(frames.drop_first())
    }
}

proof fn lemma_header_read(width: u32, height: u32, rest: Seq<u8>)
    ensures
        ({
            let bytes = le_bytes(width) + le_bytes(height) + rest;
            &&& bytes.len() == 8 + rest.len()
            &&& bytes.skip(8) == rest
            &&& after_header(bytes.take(8)) == (if plausible(width, height) {
                ReadStage::Payload { width, height }
            } else {
                ReadStage::Closed
            })
        }),
{
    let bytes = le_bytes(width) + le_bytes(height) + rest;
    let empty = Seq::<u8>::empty();
    let header = bytes.take(8);
    assert(header == le_bytes(width) + le_bytes(height));
    lemma_le_round_trip(width, empty, le_bytes(height));
    assert(empty + le_bytes(width) + le_bytes(height) == header);
    lemma_le_round_trip(height, le_bytes(width), empty);
    assert(le_bytes(width) + le_bytes(height) + empty == header);
    assert(bytes.skip(8) == rest);
}

proof fn lemma_one_frame_delivered(frame: FrameView, rest: Seq<u8>)
    requires
        frame.wf(),
    ensures
        deliveries(ReadStage::Header, frame_on_wire(frame) + rest) == seq![frame] + deliveries(
            ReadStage::Header,
            rest,
        ),
{
    let bytes = frame_on_wire(frame) + rest;
    let tail = frame.rgba + rest;
    assert(bytes == le_bytes(frame.width) + le_bytes(frame.height) + tail);
    lemma_header_read(frame.width, frame.height, tail);
    let stage = ReadStage::Payload { width: frame.width, height: frame.height };
    assert(deliveries(ReadStage::Header, bytes) == deliveries(stage, tail));
    let n = frame_bytes(frame.width, frame.height);
    assert(tail.take(n) == frame.rgba);
    assert(tail.skip(n) == rest);
    assert(deliveries(stage, tail) == seq![frame] + deliveries(ReadStage::Header, rest));
}

/// Whatever a client sends as frames of plausible size is received as exactly these frames, in
/// order, whatever follows them on the stream.
pub proof fn lemma_frames_are_delivered(frames: Seq<FrameView>, rest: Seq<u8>)
    requires
        forall|i: int| 0 <= i < frames.len() ==> (#[trigger] frames[i]).wf(),
    ensures
        deliveries(ReadStage::Header, frames_on_wire(frames) + rest) == frames + deliveries(
            ReadStage::Header,
            rest,
        ),
    decreases frames.len(),
{
    if frames.len() == 0 {
        assert(frames_on_wire(frames) + rest == rest);
        assert(frames + deliveries(ReadStage::Header, rest) == deliveries(ReadStage::Header, rest));
    } else {
        let more = frames.drop_first();
        assert forall|i: int| 0 <= i < more.len() implies (#[trigger] more[i]).wf() by {
            assert(more[i] == frames[i + 1]);
        }
        lemma_frames_are_delivered(more, rest);
        let following = frames_on_wire(more) + rest;
        assert(frames_on_wire(frames) + rest == frame_on_wire(frames.first()) + following);
        assert(frames.first() == frames[0]);
        lemma_one_frame_delivered(frames.first(), following);
        assert(seq![frames.first()] + (more + deliveries(ReadStage::Header, rest)) == frames
            + deliveries(ReadStage::Header, rest));
    }
}

/// A stream that ends inside a frame delivers nothing of it.
pub proof fn lemma_truncated_frame_is_not_delivered(frame: FrameView, sent: int)
    requires
        frame.wf(),
        0 <= sent < frame_on_wire(frame).len(),
    ensures
        deliveries(ReadStage::Header, frame_on_wire(frame).take(sent)) == Seq::<FrameView>::empty(),
{
    let bytes = frame_on_wire(frame).take(sent);
    if sent >= 8 {
        let part = frame.rgba.take(sent - 8);
        assert(bytes == le_bytes(frame.width) + le_bytes(frame.height) + part);
        lemma_header_read(frame.width, frame.height, part);
        let stage = ReadStage::Payload { width: frame.width, height: frame.height };
        assert(deliveries(ReadStage::Header, bytes) == deliveries(stage, part));
        assert(deliveries(stage, part) == Seq::<FrameView>::empty());
    }
}

/// A header of implausible size ends the connection: nothing after it is read, whatever it is.
pub proof fn lemma_implausible_header_closes(width: u32, height: u32, rest: Seq<u8>)
    requires
        !plausible(width, height),
    ensures
        deliveries(ReadStage::Header, le_bytes(width) + le_bytes(height) + rest) == Seq::<
            FrameView,
        >::empty(),
{
    lemma_header_read(width, height, rest);
    let bytes = le_bytes(width) + le_bytes(height) + rest;
    assert(deliveries(ReadStage::Header, bytes) == deliveries(ReadStage::Closed, rest));
}

/// Whatever the stream holds, every frame that is taken in from it is whole and of plausible size.
pub proof fn lemma_delivered_frames_are_whole(stage: ReadStage, bytes: Seq<u8>)
    requires
        (Connection { generation: 0, stage }).wf(),
    ensures
        forall|i: int|
            0 <= i < deliveries(stage, bytes).len() ==> (#[trigger] deliveries(
                stage,
                bytes,
            )[i]).wf(),
    decreases bytes.len(),
{
    let n = expected_bytes(stage);
    if n <= 0 || bytes.len() < n {
        assert(deliveries(stage, bytes) == Seq::<FrameView>::empty());
    } else {
        match stage {
            ReadStage::Header => {
                let next = after_header(bytes.take(n));
                lemma_delivered_frames_are_whole(next, bytes.skip(n));
                assert(deliveries(stage, bytes) == deliveries(next, bytes.skip(n)));
            },
            ReadStage::Payload { width, height } => {
                let later = deliveries(ReadStage::Header, bytes.skip(n));
                lemma_delivered_frames_are_whole(ReadStage::Header, bytes.skip(n));
                assert forall|i: int| 0 <= i < deliveries(stage, bytes).len() implies (
                #[trigger] deliveries(stage, bytes)[i]).wf() by {
                    if i > 0 {
                        assert(deliveries(stage, bytes)[i] == later[i - 1]);
                    }
                }
            },
            ReadStage::Closed => {},
        }
    }
}

/// What a connection makes of a byte stream while nothing else happens: the state that it leaves
/// and the frames that it stored, in order. It reads what it asks for, stage by stage, until the
/// stream does not hold enough any more, or the connection is over.
pub open spec fn read_through(state: SocketView, connection: Connection, bytes: Seq<u8>) -> (
    SocketView,
    Seq<FrameView>,
)
    decreases bytes.len(),
{
    let n = expected_bytes(connection.stage);
    let generation = connection.generation as nat;
    if n <= 0 || bytes.len() < n {
        (state, Seq::empty())
    } else {
        match connection.stage {
            ReadStage::Header => if state.generation == generation {
                read_through(
                    state,
                    Connection { stage: after_header(bytes.take(n)), ..connection },
                    bytes.skip(n),
                )
            } else {
                (state, Seq::empty())
            },
            ReadStage::Payload { width, height } => {
                let frame = FrameView { width, height, rgba: bytes.take(n) };
                let (end, later) = read_through(
                    state.received(generation, frame),
                    Connection { stage: ReadStage::Header, ..connection },
                    bytes.skip(n),
                );
                (
                    end,
                    if state.accepts(generation, frame) {
                        seq![frame] + later
                    } else {
                        later
                    },
                )
            },
            ReadStage::Closed => (state, Seq::empty()),
        }
    }
}

/// The frames of a list that have exactly the kiosk output's size, in their order.
pub open spec fn fitting(frames: Seq<FrameView>, geometry: Geometry) -> Seq<FrameView>
    decreases frames.len(),
{
    if frames.len() == 0 {
        Seq::empty()
    } else if frames.first().fits(geometry) {
        seq![frames.first()] + fitting(frames.drop_first(), geometry)
    } else {
        fitting(frames.drop_first(), geometry)
    }
}

/// The current connection stores exactly those frames of its stream that have the kiosk output's
/// size, in their order, and leaves the last of them to be shown; the geometry and the number of
/// the connection stay. When it ends, nothing of them is left to show.
pub proof fn lemma_stream_stores_its_fitting_frames(
    state: SocketView,
    connection: Connection,
    bytes: Seq<u8>,
)
    requires
        state.generation == connection.generation,
    ensures
        ({
            let (end, kept) = read_through(state, connection, bytes);
            &&& kept == fitting(deliveries(connection.stage, bytes), state.geometry)
            &&& end == (SocketView {
                latest: if kept.len() == 0 {
                    state.latest
                } else {
                    Some(kept.last())
                },
                ..state
            })
            &&& end.finished(connection.generation as nat).latest is None
        }),
    decreases bytes.len(),
{
    let n = expected_bytes(connection.stage);
    if n <= 0 || bytes.len() < n {
        assert(deliveries(connection.stage, bytes) == Seq::<FrameView>::empty());
    } else {
        match connection.stage {
            ReadStage::Header => {
                let next = Connection { stage: after_header(bytes.take(n)), ..connection };
                lemma_stream_stores_its_fitting_frames(state, next, bytes.skip(n));
                assert(deliveries(connection.stage, bytes) == deliveries(
                    next.stage,
                    bytes.skip(n),
                ));
            },
            ReadStage::Payload { width, height } => {
                let frame = FrameView { width, height, rgba: bytes.take(n) };
                let next = Connection { stage: ReadStage::Header, ..connection };
                let received = state.received(connection.generation as nat, frame);
                lemma_stream_stores_its_fitting_frames(received, next, bytes.skip(n));
                let later = deliveries(ReadStage::Header, bytes.skip(n));
                let all = deliveries(connection.stage, bytes);
                assert(all == seq![frame] + later);
                assert(all.first() == frame);
                assert(all.drop_first() == later);
            },
            ReadStage::Closed => {},
        }
    }
}

/// A frame is kept exactly when it comes from the current connection and has both the width and the
/// height of the kiosk output: it is then the latest one. Any other frame leaves everything as it was
/// and asks for no repaint.
pub proof fn lemma_only_a_frame_of_the_very_size_is_kept(
    state: SocketView,
    generation: nat,
    frame: FrameView,
)
    ensures
        frame.width != state.geometry.width || frame.height != state.geometry.height
            || state.generation != generation ==> state.received(generation, frame) == state
            && !state.accepts(generation, frame),
        frame.width == state.geometry.width && frame.height == state.geometry.height
            && state.generation == generation ==> state.accepts(generation, frame) && state.received(
            generation,
            frame,
        ) == (SocketView { latest: Some(frame), ..state }),
        !frame.fits(state.geometry) <==> frame.width != state.geometry.width || frame.height
            != state.geometry.height,
{
}

/// At the start there is nothing. A configuration changes the geometry alone and takes it as it is. A new
/// client gets the next number and an empty output. The end of the current client empties the
/// output, and that of any other changes nothing.
pub proof fn lemma_what_happens_to_the_socket(
    state: SocketView,
    geometry: Geometry,
    generation: nat,
)
    ensures
        SocketView::initial().latest is None,
        SocketView::initial().generation == 0,
        SocketView::initial().geometry == (Geometry { width: 0, height: 0, scale: 0 }),
        state.configured(geometry).geometry == geometry,
        state.configured(geometry).latest == state.latest,
        state.configured(geometry).generation == state.generation,
        state.accepted().latest is None,
        state.accepted().generation == state.generation + 1,
        state.accepted().geometry == state.geometry,
        generation == state.generation ==> state.finished(generation).latest is None,
        generation != state.generation ==> state.finished(generation).latest == state.latest,
        state.finished(generation).generation == state.generation,
        state.finished(generation).geometry == state.geometry,
{
}

/// A header is two numbers, the least significant byte first: the width and the height. It leads to
/// the pixels of a frame of that size, four bytes each, as long as there are any and not more than
/// 64 MiB of them; every other header ends the connection.
pub proof fn lemma_a_header_is_two_numbers(header: Seq<u8>)
    requires
        header.len() == 8,
    ensures
        ({
            let width = header[0] + 0x100 * header[1] + 0x1_0000 * header[2] + 0x100_0000
                * header[3];
            let height = header[4] + 0x100 * header[5] + 0x1_0000 * header[6] + 0x100_0000
                * header[7];
            let stage = after_header(header);
            &&& 0 < width * height && width * height * 4 <= 0x400_0000 ==> {
                &&& stage is Payload
                &&& stage->width == width
                &&& stage->height == height
                &&& expected_bytes(stage) == width * height * 4
            }
            &&& width * height == 0 || width * height * 4 > 0x400_0000 ==> stage is Closed
                && expected_bytes(stage) == 0
        }),
        expected_bytes(ReadStage::Header) == 8,
{
    let width = header[0] + 0x100 * header[1] + 0x1_0000 * header[2] + 0x100_0000 * header[3];
    let height = header[4] + 0x100 * header[5] + 0x1_0000 * header[6] + 0x100_0000 * header[7];
    assert(width == width as u32 && height == height as u32);
    assert(width * height >= 0) by (nonlinear_arith)
        requires
            width >= 0,
            height >= 0,
    ;
}

/// The four bytes of a number add up to it.
proof fn lemma_four_bytes(x: u32)
    ensures
        le_bytes(x).len() == 4,
        le_bytes(x)[0] + 0x100 * le_bytes(x)[1] + 0x1_0000 * le_bytes(x)[2] + 0x100_0000 * le_bytes(
            x,
        )[3] == x,
{
}

/// The greeting is twenty bytes: `NIXLOCK1` in ASCII, then the width, the height and the scale as
/// four bytes each, the least significant first.
pub proof fn lemma_the_greeting_can_be_read(width: u32, height: u32, scale: u32)
    ensures
        ({
            let bytes = hello(width, height, scale);
            &&& bytes.len() == 20
            &&& bytes.take(8) == seq![0x4eu8, 0x49, 0x58, 0x4c, 0x4f, 0x43, 0x4b, 0x31]
            &&& bytes[8] + 0x100 * bytes[9] + 0x1_0000 * bytes[10] + 0x100_0000 * bytes[11] == width
            &&& bytes[12] + 0x100 * bytes[13] + 0x1_0000 * bytes[14] + 0x100_0000 * bytes[15]
                == height
            &&& bytes[16] + 0x100 * bytes[17] + 0x1_0000 * bytes[18] + 0x100_0000 * bytes[19]
                == scale
        }),
{
    let bytes = hello(width, height, scale);
    lemma_four_bytes(width);
    lemma_four_bytes(height);
    lemma_four_bytes(scale);
    assert(bytes.take(8) == MAGIC@);
    assert(MAGIC@ == seq![0x4eu8, 0x49, 0x58, 0x4c, 0x4f, 0x43, 0x4b, 0x31]);
    assert(bytes.subrange(8, 12) == le_bytes(width));
    assert(bytes.subrange(12, 16) == le_bytes(height));
    assert(bytes.subrange(16, 20) == le_bytes(scale));
    assert forall|i: int| 0 <= i < 4 implies {
        &&& #[trigger] le_bytes(width)[i] == bytes[8 + i]
        &&& le_bytes(height)[i] == bytes[12 + i]
        &&& le_bytes(scale)[i] == bytes[16 + i]
    } by {
        assert(bytes.subrange(8, 12)[i] == bytes[8 + i]);
        assert(bytes.subrange(12, 16)[i] == bytes[12 + i]);
        assert(bytes.subrange(16, 20)[i] == bytes[16 + i]);
    }
}

/// A configured path is taken as it is; without one the socket is the file `nixlock.sock` in the
/// runtime directory, with exactly one slash between the two where the directory does not end in
/// one; without either there is no socket.
pub proof fn lemma_where_the_socket_is(configured: Option<Seq<u8>>, runtime_dir: Option<Seq<u8>>)
    ensures
        configured is Some ==> socket_path(configured, runtime_dir) == configured,
        configured is None && runtime_dir is None ==> socket_path(configured, runtime_dir) is None,
        configured is None && runtime_dir is Some ==> ({
            let dir = runtime_dir->0;
            let name = seq![
                0x6eu8,
                0x69,
                0x78,
                0x6c,
                0x6f,
                0x63,
                0x6b,
                0x2e,
                0x73,
                0x6f,
                0x63,
                0x6b,
            ];
            let path = socket_path(configured, runtime_dir);
            &&& path is Some
            &&& dir.len() > 0 && dir.last() != 0x2f ==> path->0 == dir + seq![0x2fu8] + name
            &&& dir.len() == 0 || dir.last() == 0x2f ==> path->0 == dir + name
        }),
{
    if configured is None && runtime_dir is Some {
        let dir = runtime_dir->0;
        let name = seq![
            0x6eu8,
            0x69,
            0x78,
            0x6c,
            0x6f,
            0x63,
            0x6b,
            0x2e,
            0x73,
            0x6f,
            0x63,
            0x6b,
        ];
        assert(SOCKET_NAME@ == name);
        assert(dir.push(0x2f) == dir + seq![0x2fu8]);
    }
}

/// The lines of the socket carry the sizes that they are about, and of a broken stream the cause; an
/// end between two frames is not worth a line.
pub proof fn lemma_socket_lines_carry_the_sizes(
    width: u32,
    height: u32,
    geometry: Geometry,
    at_end: bool,
    error: Seq<char>,
)
    ensures
        ({
            let size = dec(width as nat) + "x"@ + dec(height as nat);
            let kiosk = dec(geometry.width as nat) + "x"@ + dec(geometry.height as nat);
            let payload = ReadStage::Payload { width, height };
            &&& accepted_line(width, height) == "nixlock: socket: frame "@ + size + " accepted"@
            &&& mismatch_line(width, height, geometry) == "nixlock: socket: frame "@ + size
                + " rejected (kiosk is "@ + kiosk + ")"@
            &&& implausible_line(width, height) == "nixlock: socket: frame "@ + size
                + " rejected (implausible size); closing"@
            &&& connected_line(geometry) == "nixlock: socket: client connected, geometry "@ + kiosk
            &&& broken_line(payload, at_end, error) == Some(
                "nixlock: socket: frame "@ + size + " truncated: "@ + error + "; closing"@,
            )
            &&& at_end ==> broken_line(ReadStage::Header, at_end, error) is None
            &&& !at_end ==> broken_line(ReadStage::Header, at_end, error) == Some(
                "nixlock: socket: read frame header failed: "@ + error,
            )
            &&& broken_line(ReadStage::Closed, at_end, error) is None
        }),
{
}

/// A frame has four bytes for each of its pixels, and is taken in at all exactly when it has some and not
/// more than 64 MiB.
pub proof fn lemma_a_frame_has_four_bytes_a_pixel(width: u32, height: u32)
    ensures
        frame_bytes(width, height) == width * height * 4,
        plausible(width, height) <==> 0 < width * height * 4 <= 64 * 1024 * 1024,
{
}

/// What the contracts say of a frame, of an optional one and of an optional path is all of it.
pub proof fn lemma_frames_and_paths_are_seen_whole(frame: LatestFrame, path: Vec<u8>)
    ensures
        frame@.width == frame.width,
        frame@.height == frame.height,
        frame@.rgba == frame.rgba@,
        frame_of(Some(frame)) == Some(frame@),
        frame_of(None) is None,
        bytes_of(Some(path)) == Some(path@),
        bytes_of(None) is None,
{
}

} // verus!
