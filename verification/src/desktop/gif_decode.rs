//! GIF decoding with guardrails on frames, size and memory.
use vstd::prelude::*;

use image::codecs::gif::GifDecoder;
use image::{AnimationDecoder, ImageDecoder};
use std::io::Cursor;
use std::sync::Arc;

verus! {

/// Maximum number of decoded frames per GIF.
pub const MAX_GIF_FRAMES: usize = 300;

/// Maximum decoded RGBA bytes budget per GIF.
pub const MAX_DECODED_BYTES_PER_GIF: u64 = 134_217_728;

/// Maximum allowed frame dimension in pixels.
pub const MAX_FRAME_DIMENSION: u32 = 4096;

/// Minimum frame delay used for playback scheduling.
pub const MIN_FRAME_DELAY_MS: u64 = 33;

/// UI-facing hint for guardrail fallback.
pub const GUARDRAIL_FALLBACK_REASON: &'static str = "GIF shown as static (too large to animate)";

/// UI-facing hint for an animation that could not be decoded.
pub const DECODE_FALLBACK_REASON: &'static str = "GIF shown as static (failed to decode animation)";

/// Pixels of a frame: four bytes each, row by row.
#[derive(Debug, PartialEq, Eq)]
pub struct GifImage {
    /// Pixels per row.
    pub width: u32,
    /// Number of rows.
    pub height: u32,
    /// Red, green, blue and alpha of each pixel.
    pub pixels: Vec<u8>,
}

/// One frame as the decoder gives it.
#[derive(Debug, PartialEq, Eq)]
pub struct DecodedFrame {
    /// Delay in milliseconds, as a fraction.
    pub delay_numerator: u32,
    /// Delay in milliseconds, as a fraction.
    pub delay_denominator: u32,
    /// Pixels of the frame.
    pub image: GifImage,
}

/// What reading one more frame gave.
#[derive(Debug, PartialEq, Eq)]
pub enum FrameReading {
    /// A frame.
    Frame(DecodedFrame),
    /// The frame could not be decoded.
    Failed,
    /// There are no more frames.
    End,
}

/// What a [`GifImage`] shows.
#[verifier::ext_equal]
pub struct ImageView {
    pub width: u32,
    pub height: u32,
    pub pixels: Seq<u8>,
}

/// What a [`FrameReading`] says.
#[verifier::ext_equal]
pub enum ReadingView {
    Frame { numerator: u32, denominator: u32, image: ImageView },
    Failed,
    End,
}

impl View for GifImage {
    type V = ImageView;

    open spec fn view(&self) -> ImageView {
        ImageView { width: self.width, height: self.height, pixels: self.pixels@ }
    }
}

impl View for FrameReading {
    type V = ReadingView;

    open spec fn view(&self) -> ReadingView {
        match self {
            FrameReading::Frame(frame) => ReadingView::Frame {
                numerator: frame.delay_numerator,
                denominator: frame.delay_denominator,
                image: frame.image@,
            },
            FrameReading::Failed => ReadingView::Failed,
            FrameReading::End => ReadingView::End,
        }
    }
}

/// The frames of a GIF that are still to be read.
#[verifier::external_type_specification]
#[verifier::external_body]
pub struct ExFrames<'a>(image::Frames<'a>);

/// A frame as the image crate holds it.
#[verifier::external_type_specification]
#[verifier::external_body]
pub struct ExFrame(image::Frame);

/// Why a frame could not be read.
#[verifier::external_type_specification]
#[verifier::external_body]
pub struct ExImageError(image::ImageError);

/// Width and height of the GIF that some bytes hold, where its header can be read.
pub uninterp spec fn gif_header(bytes: Seq<u8>) -> Option<(u32, u32)>;

/// What the `index`-th read of a frame of the GIF that some bytes hold gives.
pub uninterp spec fn gif_frame(bytes: Seq<u8>, index: nat) -> ReadingView;

/// Bytes that frames are read from.
pub uninterp spec fn frames_source(frames: image::Frames) -> Seq<u8>;

/// Number of reads so far.
pub uninterp spec fn frames_read(frames: image::Frames) -> nat;

/// Opens a GIF with `GifDecoder::new` of the image crate, and asks it for its `dimensions`
/// and, with `into_frames`, for its frames. Whether that succeeds, and the dimensions, depend
/// on the bytes alone; no frame has been read yet.
#[verifier::external_body]
fn open_gif<'a>(bytes: &'a [u8]) -> (opened: Option<(u32, u32, image::Frames<'a>)>)
    ensures
        match opened {
            Some((width, height, frames)) => {
                &&& gif_header(bytes@) == Some((width, height))
                &&& frames_source(frames) == bytes@
                &&& frames_read(frames) == 0
            },
            None => gif_header(bytes@) is None,
        },
{
    let decoder = GifDecoder::new(Cursor::new(bytes)).ok()?;
    let (width, height) = decoder.dimensions();
    Some((width, height, decoder.into_frames()))
}

/// Reads one more frame with `next` of the image crate's `Frames`. What it gives depends on the
/// bytes that the frames are read from and on the number of reads before.
#[verifier::external_body]
fn read_frame(frames: &mut image::Frames) -> (reading: FrameReading)
    ensures
        reading@ == gif_frame(frames_source(*old(frames)), frames_read(*old(frames))),
        frames_source(*final(frames)) == frames_source(*old(frames)),
        frames_read(*final(frames)) == frames_read(*old(frames)) + 1,
{
    match frames.next() {
        None => FrameReading::End,
        Some(Err(_)) => FrameReading::Failed,
        Some(Ok(frame)) => {
            let (delay_numerator, delay_denominator) = frame.delay().numer_denom_ms();
            let rgba = frame.into_buffer();
            let (width, height) = rgba.dimensions();
            let image = GifImage { width, height, pixels: rgba.into_raw() };
            FrameReading::Frame(DecodedFrame { delay_numerator, delay_denominator, image })
        },
    }
}

/// Decoded media result for GIF-capable sources.
#[derive(Debug, Clone, PartialEq, Eq)]
pub enum GifDecodeResult {
    /// Fully decoded animated GIF data.
    Animated {
        frames: Vec<Arc<GifImage>>,
        delays_ms: Vec<u64>,
        /// GIF loop metadata. `None` means unknown or infinite.
        loop_count: Option<u32>,
    },
    /// Static fallback when animation is blocked by guardrails/decode issues.
    StaticFallback { first_frame: Arc<GifImage>, reason: String },
    /// Input is not a GIF.
    NotGif,
}

/// What a [`GifDecodeResult`] says.
#[verifier::ext_equal]
pub enum DecodeView {
    Animated { frames: Seq<ImageView>, delays_ms: Seq<u64>, loop_count: Option<u32> },
    StaticFallback { first_frame: ImageView, reason: Seq<char> },
    NotGif,
}

/// What frames show.
pub open spec fn image_views(frames: Seq<Arc<GifImage>>) -> Seq<ImageView> {
    frames.map_values(|frame: Arc<GifImage>| (*frame)@)
}

impl View for GifDecodeResult {
    type V = DecodeView;

    open spec fn view(&self) -> DecodeView {
        match self {
            GifDecodeResult::Animated { frames, delays_ms, loop_count } => DecodeView::Animated {
                frames: image_views(frames@),
                delays_ms: delays_ms@,
                loop_count: *loop_count,
            },
            GifDecodeResult::StaticFallback { first_frame, reason } => DecodeView::StaticFallback {
                first_frame: (**first_frame)@,
                reason: reason@,
            },
            GifDecodeResult::NotGif => DecodeView::NotGif,
        }
    }
}

/// Whether bytes start like a GIF.
pub open spec fn is_gif(bytes: Seq<u8>) -> bool {
    &&& bytes.len() >= 6
    &&& bytes.take(6) == seq![71u8, 73u8, 70u8, 56u8, 55u8, 97u8] || bytes.take(6) == seq![
        71u8,
        73u8,
        70u8,
        56u8,
        57u8,
        97u8,
    ]
}

/// Whether bytes start with `GIF87a` or `GIF89a`.
pub fn looks_like_gif(bytes: &[u8]) -> (yes: bool)
    ensures
        yes == is_gif(bytes@),
{
    let yes = bytes.len() >= 6 && bytes[0] == 71 && bytes[1] == 73 && bytes[2] == 70 && bytes[3]
        == 56 && (bytes[4] == 55 || bytes[4] == 57) && bytes[5] == 97;
    proof {
        let older = seq![71u8, 73u8, 70u8, 56u8, 55u8, 97u8];
        let newer = seq![71u8, 73u8, 70u8, 56u8, 57u8, 97u8];
        if bytes@.len() >= 6 {
            let start = bytes@.take(6);
            assert(forall|i: int| 0 <= i < 6 ==> start[i] == bytes@[i]);
            if yes && bytes@[4] == 55 {
                assert(start =~= older);
            }
            if yes && bytes@[4] == 57 {
                assert(start =~= newer);
            }
            if !yes {
                assert(start[0] != 71 || start[1] != 73 || start[2] != 70 || start[3] != 56
                    || start[5] != 97 || start[4] != 55 && start[4] != 57);
                assert(older[0] == 71 && older[1] == 73 && older[2] == 70 && older[3] == 56
                    && older[4] == 55 && older[5] == 97);
                assert(newer[0] == 71 && newer[1] == 73 && newer[2] == 70 && newer[3] == 56
                    && newer[4] == 57 && newer[5] == 97);
            }
        }
    }
    yes
}

/// Delay used for playback: in whole milliseconds, rounded up, and at least the minimum.
pub open spec fn playback_delay(numerator: u32, denominator: u32) -> u64 {
    if denominator == 0 {
        MIN_FRAME_DELAY_MS
    } else {
        let millis: int = (numerator + denominator - 1) / (denominator as int);
        if millis < MIN_FRAME_DELAY_MS { MIN_FRAME_DELAY_MS } else { millis as u64 }
    }
}

/// Delay used for playback, of a frame's delay as a fraction of milliseconds.
pub fn normalize_delay_ms(numerator: u32, denominator: u32) -> (delay_ms: u64)
    ensures
        delay_ms == playback_delay(numerator, denominator),
        delay_ms >= MIN_FRAME_DELAY_MS,
{
    if denominator == 0 {
        return MIN_FRAME_DELAY_MS;
    }
    let divisor: u64 = denominator as u64;
    let millis: u64 = (numerator as u64 + (divisor - 1)) / divisor;
    if millis < MIN_FRAME_DELAY_MS {
        MIN_FRAME_DELAY_MS
    } else {
        millis
    }
}

/// Memory that a decoded frame takes, where it can be counted.
pub open spec fn frame_bytes(width: u32, height: u32) -> Option<u64> {
    if width * height * 4 <= u64::MAX { Some((width * height * 4) as u64) } else { None }
}

/// Memory that a decoded frame takes, where it can be counted.
pub fn decoded_frame_bytes(width: u32, height: u32) -> (bytes: Option<u64>)
    ensures
        bytes == frame_bytes(width, height),
{
    match (width as u64).checked_mul(height as u64) {
        Some(pixels) => pixels.checked_mul(4),
        None => {
            proof {
                assert(width * height <= u64::MAX) by (nonlinear_arith)
                    requires
                        width <= u32::MAX,
                        height <= u32::MAX,
                ;
            }
            None
        },
    }
}

/// Memory counted so far and one more frame.
pub open spec fn bytes_with(so_far: u64, width: u32, height: u32) -> u64 {
    match frame_bytes(width, height) {
        Some(bytes) => if so_far + bytes <= u64::MAX { (so_far + bytes) as u64 } else { u64::MAX },
        None => u64::MAX,
    }
}

/// Whether an image has a side that is too long.
pub open spec fn too_long(width: u32, height: u32) -> bool {
    width > MAX_FRAME_DIMENSION || height > MAX_FRAME_DIMENSION
}

/// Frames read so far, which all keep to the guardrails.
#[verifier::ext_equal]
pub struct AssemblyView {
    /// Whether the GIF as a whole is too large.
    pub oversized: bool,
    /// Frames so far.
    pub frames: Seq<ImageView>,
    /// Their delays.
    pub delays_ms: Seq<u64>,
    /// Memory that they take.
    pub decoded_bytes: u64,
}

/// Nothing read so far of a GIF of these dimensions.
pub open spec fn nothing_read(width: u32, height: u32) -> AssemblyView {
    AssemblyView {
        oversized: too_long(width, height),
        frames: Seq::empty(),
        delays_ms: Seq::empty(),
        decoded_bytes: 0,
    }
}

/// Nothing read so far again.
pub open spec fn started_over(so_far: AssemblyView) -> AssemblyView {
    AssemblyView {
        frames: Seq::empty(),
        delays_ms: Seq::empty(),
        decoded_bytes: 0,
        ..so_far
    }
}

/// Whether a frame would break a guardrail.
pub open spec fn breaks_guardrail(so_far: AssemblyView, image: ImageView) -> bool {
    so_far.oversized || too_long(image.width, image.height) || so_far.frames.len() + 1
        > MAX_GIF_FRAMES || bytes_with(so_far.decoded_bytes, image.width, image.height)
        > MAX_DECODED_BYTES_PER_GIF
}

/// Frames so far and one more.
pub open spec fn with_frame(
    so_far: AssemblyView,
    numerator: u32,
    denominator: u32,
    image: ImageView,
) -> AssemblyView {
    AssemblyView {
        frames: so_far.frames.push(image),
        delays_ms: so_far.delays_ms.push(playback_delay(numerator, denominator)),
        decoded_bytes: bytes_with(so_far.decoded_bytes, image.width, image.height),
        ..so_far
    }
}

/// The first frame with a reason, where there is a first frame.
pub open spec fn fallback(frames: Seq<ImageView>, reason: Seq<char>) -> DecodeView {
    if frames.len() == 0 {
        DecodeView::NotGif
    } else {
        DecodeView::StaticFallback { first_frame: frames[0], reason }
    }
}

/// The result, where reading one more frame settles it.
pub open spec fn settled(so_far: AssemblyView, reading: ReadingView) -> Option<DecodeView> {
    match reading {
        ReadingView::End => Some(
            if so_far.frames.len() == 0 {
                DecodeView::NotGif
            } else {
                DecodeView::Animated {
                    frames: so_far.frames,
                    delays_ms: so_far.delays_ms,
                    loop_count: None,
                }
            },
        ),
        ReadingView::Failed => Some(fallback(so_far.frames, DECODE_FALLBACK_REASON@)),
        ReadingView::Frame { image, .. } => if breaks_guardrail(so_far, image) {
            Some(fallback(so_far.frames.push(image), GUARDRAIL_FALLBACK_REASON@))
        } else {
            None
        },
    }
}

/// What follows from the frames so far and those that `bytes` still hold.
pub open spec fn assembled(bytes: Seq<u8>, so_far: AssemblyView) -> DecodeView
    decreases MAX_GIF_FRAMES + 1 - so_far.frames.len(),
{
    let reading = gif_frame(bytes, so_far.frames.len());
    match settled(so_far, reading) {
        Some(result) => result,
        None => match reading {
            ReadingView::Frame { numerator, denominator, image } => assembled(
                bytes,
                with_frame(so_far, numerator, denominator, image),
            ),
            _ => DecodeView::NotGif,
        },
    }
}

/// What bytes decode to.
pub open spec fn decoded(bytes: Seq<u8>) -> DecodeView {
    if !is_gif(bytes) {
        DecodeView::NotGif
    } else {
        match gif_header(bytes) {
            Some((width, height)) => assembled(bytes, nothing_read(width, height)),
            None => DecodeView::NotGif,
        }
    }
}

/// Puts decoded frames together, within the guardrails.
pub struct GifAssembler {
    oversized: bool,
    frames: Vec<Arc<GifImage>>,
    delays_ms: Vec<u64>,
    decoded_bytes: u64,
}

impl View for GifAssembler {
    type V = AssemblyView;

    closed spec fn view(&self) -> AssemblyView {
        AssemblyView {
            oversized: self.oversized,
            frames: image_views(self.frames@),
            delays_ms: self.delays_ms@,
            decoded_bytes: self.decoded_bytes,
        }
    }
}

fn fallback_or_not_gif(mut frames: Vec<Arc<GifImage>>, reason: &str) -> (result: GifDecodeResult)
    ensures
        result@ == fallback(image_views(frames@), reason@),
{
    if frames.len() == 0 {
        GifDecodeResult::NotGif
    } else {
        GifDecodeResult::StaticFallback { first_frame: frames.remove(0), reason: reason.to_owned() }
    }
}

impl GifAssembler {
    /// Nothing read so far of a GIF of these dimensions.
    pub fn new(width: u32, height: u32) -> (assembler: Self)
        ensures
            assembler@ == nothing_read(width, height),
    {
        let assembler = GifAssembler {
            oversized: width > MAX_FRAME_DIMENSION || height > MAX_FRAME_DIMENSION,
            frames: Vec::new(),
            delays_ms: Vec::new(),
            decoded_bytes: 0,
        };
        proof {
            assert(assembler@ =~= nothing_read(width, height));
        }
        assembler
    }

    fn take(&mut self) -> (taken: (Vec<Arc<GifImage>>, Vec<u64>))
        ensures
            image_views(taken.0@) == old(self)@.frames,
            taken.1@ == old(self)@.delays_ms,
            final(self)@ == started_over(old(self)@),
    {
        let mut frames: Vec<Arc<GifImage>> = Vec::new();
        let mut delays_ms: Vec<u64> = Vec::new();
        let ghost before = self@;
        std::mem::swap(&mut self.frames, &mut frames);
        std::mem::swap(&mut self.delays_ms, &mut delays_ms);
        self.decoded_bytes = 0;
        proof {
            assert(self@ =~= started_over(before));
        }
        (frames, delays_ms)
    }

    /// Take what reading one more frame gave; says the result where that settles it, and then
    /// starts over.
    pub fn on_reading(&mut self, reading: FrameReading) -> (result: Option<GifDecodeResult>)
        ensures
            match settled(old(self)@, reading@) {
                Some(settled) => {
                    &&& result matches Some(result)
                    &&& result@ == settled
                    &&& final(self)@ == started_over(old(self)@)
                },
                None => {
                    &&& result is None
                    &&& reading@ matches ReadingView::Frame { numerator, denominator, image }
                    &&& final(self)@ == with_frame(old(self)@, numerator, denominator, image)
                },
            },
    {
        let ghost before = self@;
        match reading {
            FrameReading::End => {
                let (frames, delays_ms) = self.take();
                if frames.len() == 0 {
                    return Some(GifDecodeResult::NotGif);
                }
                Some(GifDecodeResult::Animated { frames, delays_ms, loop_count: None })
            },
            FrameReading::Failed => {
                let (frames, _) = self.take();
                Some(fallback_or_not_gif(frames, DECODE_FALLBACK_REASON))
            },
            FrameReading::Frame(frame) => {
                let ghost image = frame.image@;
                let DecodedFrame { delay_numerator, delay_denominator, image: pixels } = frame;
                let width: u32 = pixels.width;
                let height: u32 = pixels.height;
                let count: usize = self.frames.len();
                let decoded_bytes: u64 = match decoded_frame_bytes(width, height) {
                    Some(bytes) => self.decoded_bytes.saturating_add(bytes),
                    None => u64::MAX,
                };
                let too_large = self.oversized || width > MAX_FRAME_DIMENSION || height
                    > MAX_FRAME_DIMENSION || count >= MAX_GIF_FRAMES || decoded_bytes
                    > MAX_DECODED_BYTES_PER_GIF;
                if too_large {
                    let (mut frames, _) = self.take();
                    frames.push(Arc::new(pixels));
                    proof {
                        assert(image_views(frames@) =~= before.frames.push(image));
                    }
                    return Some(fallback_or_not_gif(frames, GUARDRAIL_FALLBACK_REASON));
                }
                self.frames.push(Arc::new(pixels));
                self.delays_ms.push(normalize_delay_ms(delay_numerator, delay_denominator));
                self.decoded_bytes = decoded_bytes;
                proof {
                    assert(self@ =~= with_frame(before, delay_numerator, delay_denominator, image));
                }
                None
            },
        }
    }
}

/// Decode GIF bytes using the `image` crate animated GIF APIs.
pub fn decode_gif_bytes(bytes: &[u8]) -> (result: GifDecodeResult)
    ensures
        result@ == decoded(bytes@),
{
    if !looks_like_gif(bytes) {
        return GifDecodeResult::NotGif;
    }
    let (width, height, mut frames) = match open_gif(bytes) {
        Some(opened) => opened,
        None => return GifDecodeResult::NotGif,
    };
    let mut assembler = GifAssembler::new(width, height);
    loop
        invariant
            frames_source(frames) == bytes@,
            frames_read(frames) == assembler@.frames.len(),
            assembled(bytes@, assembler@) == decoded(bytes@),
        decreases MAX_GIF_FRAMES + 1 - assembler@.frames.len(),
    {
        match assembler.on_reading(read_frame(&mut frames)) {
            Some(result) => return result,
            None => {},
        }
    }
}

/// An animation has at least one frame and at most the limit, one delay for each, none below
/// the minimum, and no side that is too long: this holds whatever the bytes are.
pub proof fn lemma_animations_keep_to_guardrails(bytes: Seq<u8>)
    ensures
        decoded(bytes) matches DecodeView::Animated { frames, delays_ms, loop_count } ==> {
            &&& 1 <= frames.len() <= MAX_GIF_FRAMES
            &&& delays_ms.len() == frames.len()
            &&& forall|i: int|
                0 <= i < delays_ms.len() ==> #[trigger] delays_ms[i] >= MIN_FRAME_DELAY_MS
            &&& forall|i: int|
                0 <= i < frames.len() ==> !too_long(
                    (#[trigger] frames[i]).width,
                    frames[i].height,
                )
            &&& total_bytes(frames) <= MAX_DECODED_BYTES_PER_GIF
        },
{
    match gif_header(bytes) {
        Some((width, height)) => lemma_assembly_keeps_to_guardrails(
            bytes,
            nothing_read(width, height),
        ),
        None => {},
    }
}

/// Memory that decoded frames take.
pub open spec fn total_bytes(frames: Seq<ImageView>) -> int
    decreases frames.len(),
{
    if frames.len() == 0 {
        0
    } else {
        total_bytes(frames.drop_last()) + frames.last().width * frames.last().height * 4
    }
}

spec fn within_guardrails(so_far: AssemblyView) -> bool {
    &&& so_far.frames.len() <= MAX_GIF_FRAMES
    &&& so_far.delays_ms.len() == so_far.frames.len()
    &&& forall|i: int|
        0 <= i < so_far.delays_ms.len() ==> #[trigger] so_far.delays_ms[i] >= MIN_FRAME_DELAY_MS
    &&& forall|i: int|
        0 <= i < so_far.frames.len() ==> !too_long(
            (#[trigger] so_far.frames[i]).width,
            so_far.frames[i].height,
        )
    &&& total_bytes(so_far.frames) == so_far.decoded_bytes
    &&& so_far.decoded_bytes <= MAX_DECODED_BYTES_PER_GIF
}

proof fn lemma_assembly_keeps_to_guardrails(bytes: Seq<u8>, so_far: AssemblyView)
    requires
        within_guardrails(so_far),
    ensures
        assembled(bytes, so_far) matches DecodeView::Animated { frames, delays_ms, loop_count }
            ==> {
            &&& 1 <= frames.len() <= MAX_GIF_FRAMES
            &&& delays_ms.len() == frames.len()
            &&& forall|i: int|
                0 <= i < delays_ms.len() ==> #[trigger] delays_ms[i] >= MIN_FRAME_DELAY_MS
            &&& forall|i: int|
                0 <= i < frames.len() ==> !too_long(
                    (#[trigger] frames[i]).width,
                    frames[i].height,
                )
            &&& total_bytes(frames) <= MAX_DECODED_BYTES_PER_GIF
        },
    decreases MAX_GIF_FRAMES + 1 - so_far.frames.len(),
{
    let reading = gif_frame(bytes, so_far.frames.len());
    if settled(so_far, reading) is None {
        if let ReadingView::Frame { numerator, denominator, image } = reading {
            let next = with_frame(so_far, numerator, denominator, image);
            assert(next.frames.drop_last() =~= so_far.frames);
            assert(next.frames.last() == image);
            assert(within_guardrails(next));
            lemma_assembly_keeps_to_guardrails(bytes, next);
        }
    }
}

} // verus!
