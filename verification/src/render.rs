//! Which pixels a surface shows, and in which byte order the compositor gets them.

use vstd::prelude::*;
use vstd::string::*;

use crate::content::{AuthView, Frame, FrameRequest, KioskContent, OutputRole};
use crate::locker::{EntryView, Locker};
use crate::socket::{frame_bytes, frame_of, FrameView, LatestFrame};
use crate::text::{dec, dec_text, text_of};

verus! {

/// The pixels with red and blue exchanged: RGBA becomes BGRA.
pub open spec fn swizzled(rgba: Seq<u8>) -> Seq<u8> {
    Seq::new(
        rgba.len(),
        |k: int|
            if k % 4 == 0 {
                rgba[k + 2]
            } else if k % 4 == 2 {
                rgba[k - 2]
            } else {
                rgba[k]
            },
    )
}

/// The four bytes of the pixel that starts at byte `i`, with red and blue exchanged.
proof fn lemma_swizzled_pixel(rgba: Seq<u8>, i: int)
    requires
        0 <= i,
        i + 3 < rgba.len(),
        i % 4 == 0,
    ensures
        swizzled(rgba)[i] == rgba[i + 2],
        swizzled(rgba)[i + 1] == rgba[i + 1],
        swizzled(rgba)[i + 2] == rgba[i],
        swizzled(rgba)[i + 3] == rgba[i + 3],
{
}

/// Exchanges red and blue of every pixel.
pub fn swizzle(rgba: &[u8]) -> (bgra: Vec<u8>)
    requires
        rgba@.len() % 4 == 0,
    ensures
        bgra@ == swizzled(rgba@),
{
    let mut bgra: Vec<u8> = Vec::with_capacity(rgba.len());
    let mut i: usize = 0;
    while i < rgba.len()
        invariant
            i <= rgba@.len(),
            i % 4 == 0,
            rgba@.len() % 4 == 0,
            bgra@.len() == i,
            forall|k: int| 0 <= k < i ==> #[trigger] bgra@[k] == swizzled(rgba@)[k],
        decreases rgba@.len() - i,
    {
        proof {
            lemma_swizzled_pixel(rgba@, i as int);
        }
        bgra.push(rgba[i + 2]);
        bgra.push(rgba[i + 1]);
        bgra.push(rgba[i]);
        bgra.push(rgba[i + 3]);
        i += 4;
    }
    bgra
}

/// Exchanging red and blue twice gives the pixels back.
pub proof fn lemma_swizzle_twice(rgba: Seq<u8>)
    requires
        rgba.len() % 4 == 0,
    ensures
        swizzled(swizzled(rgba)) == rgba,
{
}

/// The streamed frame that a surface shows: only a kiosk output shows one, and only one of exactly
/// its size.
pub open spec fn streamed(
    role: OutputRole,
    width: u32,
    height: u32,
    latest: Option<FrameView>,
) -> Option<Seq<u8>> {
    match latest {
        Some(frame) => if role == OutputRole::Kiosk && frame.width == width && frame.height
            == height {
            Some(frame.rgba)
        } else {
            None
        },
        None => None,
    }
}

/// Picks the streamed frame that a surface shows, if there is one for it.
pub fn socket_frame(
    role: OutputRole,
    width: u32,
    height: u32,
    latest: &Option<LatestFrame>,
) -> (rgba: Option<Vec<u8>>)
    ensures
        (match rgba {
            Some(pixels) => Some(pixels@),
            None => None,
        }) == streamed(role, width, height, frame_of(*latest)),
{
    match latest {
        Some(frame) => if role == OutputRole::Kiosk && frame.width == width && frame.height
            == height {
            let pixels = frame.rgba.clone();
            assert(pixels@ == frame.rgba@);
            Some(pixels)
        } else {
            None
        },
        None => None,
    }
}

/// A lock screen shows the same whatever the socket received: nothing that a client sends reaches
/// a screen that takes passwords.
pub proof fn lemma_lock_screen_ignores_the_socket(
    width: u32,
    height: u32,
    latest: Option<FrameView>,
)
    ensures
        streamed(OutputRole::Session, width, height, latest) is None,
{
}

/// A kiosk output shows the latest frame exactly when there is one and its size is the
/// surface's; otherwise, with no frame or one of another size, it falls back to the clock.
pub proof fn lemma_kiosk_shows_the_matching_frame(
    width: u32,
    height: u32,
    latest: Option<FrameView>,
)
    ensures
        streamed(OutputRole::Kiosk, width, height, latest) is Some <==> (latest matches Some(frame)
            && frame.width == width && frame.height == height),
        streamed(OutputRole::Kiosk, width, height, latest) matches Some(rgba) ==> rgba
            == latest->0.rgba,
{
}

/// What a surface's content is asked to paint.
pub open spec fn content_request(entry: EntryView, auth: AuthView) -> FrameRequest {
    FrameRequest {
        role: entry.role,
        output_name: entry.name,
        width: entry.width,
        height: entry.height,
        auth,
    }
}

/// What the lock screen is asked to paint in place of content that did not fit.
pub open spec fn fallback_request(entry: EntryView, auth: AuthView) -> FrameRequest {
    FrameRequest { role: OutputRole::Session, ..content_request(entry, auth) }
}

/// What becomes of painted pixels: they are shown, with red and blue exchanged, when they fill the
/// surface exactly, and are not shown at all otherwise.
pub open spec fn shown(expect: int, rgba: Seq<u8>) -> Option<Seq<u8>> {
    if rgba.len() == expect {
        Some(swizzled(rgba))
    } else {
        None
    }
}

/// Makes painted pixels into what the compositor gets, if they fill the surface exactly.
pub fn show(expect: usize, rgba: &Vec<u8>) -> (bgra: Option<Vec<u8>>)
    requires
        expect % 4 == 0,
    ensures
        (match bgra {
            Some(pixels) => Some(pixels@),
            None => None,
        }) == shown(expect as int, rgba@),
{
    if rgba.len() == expect {
        Some(swizzle(rgba.as_slice()))
    } else {
        None
    }
}

/// The log line for content of the wrong size.
pub open spec fn wrong_size_line(name: Seq<char>, got: nat, expect: nat) -> Seq<char> {
    "nixlock: "@ + name + " content returned "@ + dec(got) + " bytes (want "@ + dec(expect)
        + "); lock screen"@
}

fn wrong_size(name: &str, got: usize, expect: u128) -> (line: String)
    ensures
        line@ == wrong_size_line(name@, got as nat, expect as nat),
{
    let mut line = "nixlock: ".to_owned();
    line.append(name);
    line.append(" content returned ");
    line.append(dec_text(got as u128).as_str());
    line.append(" bytes (want ");
    line.append(dec_text(expect).as_str());
    line.append("); lock screen");
    line
}

/// The outcome of rendering a surface.
pub struct Rendered {
    /// The pixels for the compositor, or `None` when the surface is left as it is.
    pub bgra: Option<Vec<u8>>,
    /// To be logged.
    pub log: Option<String>,
}

/// The contents of an outcome.
#[verifier::ext_equal]
pub ghost struct RenderedView {
    pub bgra: Option<Seq<u8>>,
    pub log: Option<Seq<char>>,
}

impl View for Rendered {
    type V = RenderedView;

    open spec fn view(&self) -> RenderedView {
        RenderedView {
            bgra: match self.bgra {
                Some(pixels) => Some(pixels@),
                None => None,
            },
            log: text_of(self.log),
        }
    }
}

/// The outcome for a surface of `expect` bytes whose own pixels are `first`: they are shown if
/// they fill the surface, else the failure is noted and the lock screen's pixels `stand_in` are
/// shown if those do, and otherwise the surface is left as it is.
pub open spec fn outcome(
    name: Seq<char>,
    expect: int,
    first: Seq<u8>,
    stand_in: Seq<u8>,
) -> RenderedView {
    if first.len() == expect {
        RenderedView { bgra: Some(swizzled(first)), log: None }
    } else {
        RenderedView {
            bgra: shown(expect, stand_in),
            log: Some(wrong_size_line(name, first.len(), expect as nat)),
        }
    }
}

/// How a surface with some area came by its outcome. `first` are its own pixels: the streamed frame
/// for it, else what the clock painted on a kiosk output, else what the lock screen painted; no
/// other content is asked. `stand_in` is what the lock screen painted where `first` did not fit;
/// it is asked for it only then. `clock` and `lock` are the two contents before and after, and
/// `between` is the lock screen in between.
pub open spec fn rendered_from<K: KioskContent, S: KioskContent>(
    entry: EntryView,
    auth: AuthView,
    latest: Option<FrameView>,
    clock: (K, K),
    lock: (S, S),
    first: Seq<u8>,
    between: S,
    stand_in: Seq<u8>,
) -> bool {
    let request = content_request(entry, auth);
    &&& match streamed(entry.role, entry.width, entry.height, latest) {
        Some(rgba) => first == rgba && clock.1 == clock.0 && between == lock.0,
        None => match entry.role {
            OutputRole::Kiosk => clock.0.paints(request, first, &clock.1) && between == lock.0,
            OutputRole::Session => lock.0.paints(request, first, &between) && clock.1 == clock.0,
        },
    }
    &&& if first.len() == frame_bytes(entry.width, entry.height) {
        lock.1 == between
    } else {
        between.paints(fallback_request(entry, auth), stand_in, &lock.1)
    }
}

/// The number of bytes of a surface of this size.
fn surface_bytes(width: u32, height: u32) -> (bytes: u128)
    ensures
        bytes == frame_bytes(width, height),
        bytes % 4 == 0,
{
    proof {
        vstd::arithmetic::mul::lemma_mul_nonnegative(width as int, height as int);
        vstd::arithmetic::mul::lemma_mul_upper_bound(
            width as int,
            0xffff_ffff,
            height as int,
            0xffff_ffff,
        );
    }
    width as u128 * height as u128 * 4
}

impl Locker {
    /// Renders one surface. A kiosk output shows the streamed frame of its size, or the built-in
    /// clock; a lock screen shows its content. Content that does not fill the surface is never
    /// shown: the lock screen's content stands in for it, and if that does not fit either, the
    /// surface is left as it is.
    pub fn render_surface<K: KioskContent, S: KioskContent>(
        &self,
        surface: usize,
        latest: &Option<LatestFrame>,
        kiosk_fallback: &mut K,
        session_content: &mut S,
    ) -> (rendered: Rendered)
        requires
            surface < self@.surfaces.len(),
        ensures
            ({
                let entry = self@.surfaces[surface as int];
                let expect = frame_bytes(entry.width, entry.height);
                // An unconfigured surface is left alone.
                &&& entry.width == 0 || entry.height == 0 ==> rendered@ == (RenderedView {
                    bgra: None,
                    log: None,
                }) && *final(kiosk_fallback) == *old(kiosk_fallback) && *final(session_content)
                    == *old(session_content)
                &&& entry.width > 0 && entry.height > 0 ==> exists|
                    first: Seq<u8>,
                    between: S,
                    stand_in: Seq<u8>,
                | #[trigger]
                    rendered_from(
                        entry,
                        self@.auth_view(),
                        frame_of(*latest),
                        (*old(kiosk_fallback), *final(kiosk_fallback)),
                        (*old(session_content), *final(session_content)),
                        first,
                        between,
                        stand_in,
                    ) && rendered@ == outcome(entry.name, expect, first, stand_in)
            }),
    {
        let entry = &self.surfaces()[surface];
        assert(self@.surfaces[surface as int] == entry@);
        if entry.width == 0 || entry.height == 0 {
            return Rendered { bgra: None, log: None };
        }
        let auth = self.auth_view();
        let expect: u128 = surface_bytes(entry.width, entry.height);
        let rgba = match socket_frame(entry.role, entry.width, entry.height, latest) {
            Some(rgba) => rgba,
            None => {
                let frame = Frame {
                    role: entry.role,
                    output_name: entry.name.as_str(),
                    width: entry.width,
                    height: entry.height,
                    auth,
                };
                assert(frame@ == content_request(entry@, auth));
                match entry.role {
                    OutputRole::Kiosk => kiosk_fallback.paint(&frame),
                    OutputRole::Session => session_content.paint(&frame),
                }
            },
        };
        let ghost between = *session_content;
        if rgba.len() as u128 == expect {
            let rendered = Rendered { bgra: show(rgba.len(), &rgba), log: None };
            proof {
                assert(rendered_from(
                    entry@,
                    auth,
                    frame_of(*latest),
                    (*old(kiosk_fallback), *kiosk_fallback),
                    (*old(session_content), *session_content),
                    rgba@,
                    between,
                    Seq::empty(),
                ));
            }
            return rendered;
        }
        let line = wrong_size(entry.name.as_str(), rgba.len(), expect);
        let stand_in_frame = Frame {
            role: OutputRole::Session,
            output_name: entry.name.as_str(),
            width: entry.width,
            height: entry.height,
            auth,
        };
        assert(stand_in_frame@ == fallback_request(entry@, auth));
        let stand_in = session_content.paint(&stand_in_frame);
        let bgra = if stand_in.len() as u128 == expect {
            show(stand_in.len(), &stand_in)
        } else {
            None
        };
        let rendered = Rendered { bgra, log: Some(line) };
        proof {
            assert(rendered_from(
                entry@,
                auth,
                frame_of(*latest),
                (*old(kiosk_fallback), *kiosk_fallback),
                (*old(session_content), *session_content),
                rgba@,
                between,
                stand_in@,
            ));
        }
        rendered
    }
}

/// Only whole frames reach the compositor: whatever content returned, the pixels handed over fill
/// the surface exactly, and a surface is left as it is only after the failure was noted.
pub proof fn lemma_only_whole_frames_are_shown(
    name: Seq<char>,
    width: u32,
    height: u32,
    first: Seq<u8>,
    stand_in: Seq<u8>,
)
    ensures
        ({
            let expect = frame_bytes(width, height);
            let result = outcome(name, expect, first, stand_in);
            &&& result.bgra matches Some(bgra) ==> bgra.len() == expect
            &&& result.bgra is None ==> result.log is Some
            &&& result.log is None <==> first.len() == expect
        }),
{
}

} // verus!
