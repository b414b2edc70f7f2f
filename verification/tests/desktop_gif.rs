//! GIF decoding and playback.
use std::collections::HashSet;

use image::codecs::gif::{GifEncoder, Repeat};
use image::{Delay, Frame as ImageFrame, Rgba, RgbaImage};
use pikachat::desktop::gif_decode::{
    DECODE_FALLBACK_REASON, DecodedFrame, FrameReading, GUARDRAIL_FALLBACK_REASON, GifAssembler,
    GifDecodeResult, GifImage, MAX_FRAME_DIMENSION, MAX_GIF_FRAMES, MIN_FRAME_DELAY_MS,
    decode_gif_bytes, decoded_frame_bytes, looks_like_gif, normalize_delay_ms,
};
use pikachat::desktop::gif_player::{
    GifPlaybackController, MAX_CONCURRENT_ANIMATED_ROWS, Playback, VISIBLE_STALE_TIMEOUT_MS,
    advance_row_frame, delay_for_index,
};

fn build_test_gif(width: u32, height: u32, delays_ms: &[u32]) -> Vec<u8> {
    let mut out = Vec::new();
    {
        let mut encoder = GifEncoder::new(&mut out);
        encoder
            .set_repeat(Repeat::Infinite)
            .expect("repeat metadata should be writable");

        let frames = delays_ms.iter().enumerate().map(|(idx, delay_ms)| {
            let mut rgba = RgbaImage::new(width, height);
            let red = ((idx as u16 * 80) % 256) as u8;
            for pixel in rgba.pixels_mut() {
                *pixel = Rgba([red, 0, 0, 255]);
            }
            ImageFrame::from_parts(rgba, 0, 0, Delay::from_numer_denom_ms(*delay_ms, 1))
        });
        encoder
            .encode_frames(frames)
            .expect("test gif encoding should succeed");
    }
    out
}

fn first_pixel_red(image: &GifImage) -> u8 {
    *image
        .pixels
        .first()
        .expect("test image should contain at least one pixel")
}

fn shown_red(controller: &GifPlaybackController, media_key: &str) -> u8 {
    first_pixel_red(
        &controller
            .current_frame_for(media_key)
            .expect("row should show a frame"),
    )
}

#[test]
fn decode_guardrails_and_fallback() {
    let many_frames = vec![10; MAX_GIF_FRAMES + 1];
    let bytes = build_test_gif(2, 2, &many_frames);
    match decode_gif_bytes(&bytes) {
        GifDecodeResult::StaticFallback {
            first_frame,
            reason,
        } => {
            assert_eq!(reason, GUARDRAIL_FALLBACK_REASON);
            assert_eq!(first_frame.width, 2);
            assert_eq!(first_frame.height, 2);
        }
        _ => panic!("expected static fallback when frame count exceeds guardrail"),
    }

    let oversized = build_test_gif(MAX_FRAME_DIMENSION + 1, 1, &[10]);
    assert!(matches!(
        decode_gif_bytes(&oversized),
        GifDecodeResult::StaticFallback { reason, .. } if reason == GUARDRAIL_FALLBACK_REASON
    ));

    assert!(matches!(
        decode_gif_bytes(b"not-a-gif"),
        GifDecodeResult::NotGif
    ));
}

#[test]
fn delay_normalization_applies_minimum_delay() {
    let bytes = build_test_gif(1, 1, &[0, 10, 50]);
    match decode_gif_bytes(&bytes) {
        GifDecodeResult::Animated { delays_ms, .. } => {
            assert_eq!(delays_ms, vec![MIN_FRAME_DELAY_MS, MIN_FRAME_DELAY_MS, 50]);
        }
        _ => panic!("expected animated decode result"),
    }
}

#[test]
fn visibility_timeout_pauses_rows() {
    let gif = build_test_gif(1, 1, &[40, 40, 40]);
    let mut controller = GifPlaybackController::with_cache_capacity(8);
    controller.attach_source("row-1", "/tmp/test.gif", Some(&gif));

    assert_eq!(shown_red(&controller, "row-1"), 0);

    controller.register_visibility_ping("row-1", 0);
    assert!(controller.tick(0).is_empty());
    let updates = controller.tick(40);
    assert_eq!(updates.len(), 1);
    assert_eq!(shown_red(&controller, "row-1"), 80);

    let stale_tick = VISIBLE_STALE_TIMEOUT_MS + 100;
    assert!(controller.tick(stale_tick).is_empty());
    assert_eq!(shown_red(&controller, "row-1"), 80);
    assert!(controller.tick(stale_tick + 1000).is_empty());
    assert_eq!(shown_red(&controller, "row-1"), 80);
}

#[test]
fn active_row_cap_limits_concurrent_animation() {
    let gif = build_test_gif(1, 1, &[40, 40]);
    let mut controller = GifPlaybackController::with_cache_capacity(8);

    for key in ["row-a", "row-b", "row-c", "row-d"] {
        controller.attach_source(key, "/tmp/test.gif", Some(&gif));
        controller.register_visibility_ping(key, 0);
    }

    assert!(controller.tick(0).is_empty());
    let updates = controller.tick(40);
    assert_eq!(updates.len(), MAX_CONCURRENT_ANIMATED_ROWS);
    let mut updated_keys: Vec<&str> = updates
        .iter()
        .map(|update| update.media_key.as_str())
        .collect();
    updated_keys.sort_unstable();
    assert_eq!(updated_keys, vec!["row-a", "row-b", "row-c"]);
    assert_eq!(shown_red(&controller, "row-d"), 0);

    controller.register_visibility_ping("row-d", 100);
    let _ = controller.tick(100);
    let updates = controller.tick(140);
    let updated_keys: HashSet<&str> = updates
        .iter()
        .map(|update| update.media_key.as_str())
        .collect();
    assert!(updated_keys.contains("row-d"));
    assert!(!updated_keys.contains("row-c"));
}

#[test]
fn truncated_gif_is_shown_as_static() {
    let mut bytes = build_test_gif(4, 4, &[40, 40]);
    let whole = bytes.len();
    bytes.truncate(whole - 6);
    match decode_gif_bytes(&bytes) {
        GifDecodeResult::StaticFallback {
            first_frame,
            reason,
        } => {
            assert_eq!(reason, DECODE_FALLBACK_REASON);
            assert_eq!(first_pixel_red(&first_frame), 0);
        }
        other => panic!("unexpected result: {other:?}"),
    }
    assert_eq!(decode_gif_bytes(b"GIF89a"), GifDecodeResult::NotGif);
}

#[test]
fn second_tick_at_the_same_time_is_quiet() {
    let gif = build_test_gif(1, 1, &[40, 40]);
    let mut controller = GifPlaybackController::new();
    assert!(controller.needs_file("/tmp/test.gif"));
    controller.attach_source("row", "/tmp/test.gif", Some(&gif));
    assert!(!controller.needs_file("/tmp/test.gif"));
    controller.register_visibility_ping("row", 0);
    assert!(controller.tick(0).is_empty());
    assert_eq!(controller.tick(125).len(), 1);
    assert!(controller.tick(125).is_empty());
    assert_eq!(shown_red(&controller, "row"), 80);
}

#[test]
fn least_recently_used_source_leaves_the_cache() {
    let gif = build_test_gif(1, 1, &[40, 40]);
    let mut controller = GifPlaybackController::with_cache_capacity(0);
    controller.attach_source("row-a", "/tmp/a.gif", Some(&gif));
    controller.attach_source("row-b", "/tmp/b.gif", Some(&gif));
    assert!(controller.needs_file("/tmp/a.gif"));
    assert!(!controller.needs_file("/tmp/b.gif"));
    assert_eq!(controller.current_frame_for("row-a"), None);
    assert_eq!(shown_red(&controller, "row-b"), 0);
}

#[test]
fn hints_tell_why_a_gif_stands_still() {
    let oversized = build_test_gif(MAX_FRAME_DIMENSION + 1, 1, &[10]);
    let mut controller = GifPlaybackController::default();
    controller.attach_source("row", "/tmp/wide.gif", Some(&oversized));
    assert_eq!(
        controller.hint_for("row").as_deref(),
        Some(GUARDRAIL_FALLBACK_REASON)
    );
    controller.attach_source("gone", "/tmp/gone.gif", None);
    assert_eq!(controller.hint_for("gone"), None);
    assert_eq!(controller.current_frame_for("gone"), None);
    assert_eq!(controller.current_frame_for("unknown"), None);
}

#[test]
fn assembler_settles_on_what_was_read() {
    let frame = |width: u32| {
        FrameReading::Frame(DecodedFrame {
            delay_numerator: 100,
            delay_denominator: 2,
            image: GifImage {
                width,
                height: 1,
                pixels: vec![7, 0, 0, 255],
            },
        })
    };
    let mut assembler = GifAssembler::new(1, 1);
    assert_eq!(
        assembler.on_reading(FrameReading::End),
        Some(GifDecodeResult::NotGif)
    );
    assert_eq!(assembler.on_reading(frame(1)), None);
    match assembler.on_reading(FrameReading::End) {
        Some(GifDecodeResult::Animated {
            frames,
            delays_ms,
            loop_count,
        }) => {
            assert_eq!(frames.len(), 1);
            assert_eq!(first_pixel_red(&frames[0]), 7);
            assert_eq!(delays_ms, vec![50]);
            assert_eq!(loop_count, None);
        }
        other => panic!("unexpected result: {other:?}"),
    }
    assert_eq!(assembler.on_reading(frame(1)), None);
    assert!(matches!(
        assembler.on_reading(frame(MAX_FRAME_DIMENSION + 1)),
        Some(GifDecodeResult::StaticFallback { first_frame, reason })
            if reason == GUARDRAIL_FALLBACK_REASON && first_frame.width == 1
    ));
    assert_eq!(
        assembler.on_reading(FrameReading::Failed),
        Some(GifDecodeResult::NotGif)
    );
}

#[test]
fn delays_and_sizes_are_exact() {
    assert_eq!(normalize_delay_ms(100, 3), 34);
    assert_eq!(normalize_delay_ms(99, 3), MIN_FRAME_DELAY_MS);
    assert_eq!(normalize_delay_ms(100, 0), MIN_FRAME_DELAY_MS);
    assert_eq!(normalize_delay_ms(u32::MAX, 1), u64::from(u32::MAX));
    assert_eq!(decoded_frame_bytes(3, 5), Some(60));
    assert_eq!(decoded_frame_bytes(u32::MAX, u32::MAX), None);
    assert!(looks_like_gif(b"GIF87a..."));
    assert!(!looks_like_gif(b"GIF88a..."));
    assert!(!looks_like_gif(b"GIF8"));
    assert_eq!(delay_for_index(&[10, 70], 0), MIN_FRAME_DELAY_MS);
    assert_eq!(delay_for_index(&[10, 70], 1), 70);
    assert_eq!(delay_for_index(&[10, 70], 2), MIN_FRAME_DELAY_MS);
}

#[test]
fn animations_stop_after_their_loops() {
    let mut play = Playback {
        current_frame_index: 0,
        completed_loops: 0,
        next_frame_due_ms: None,
        is_active: true,
    };
    assert!(advance_row_frame(&mut play, 2, Some(2)));
    assert_eq!(play.current_frame_index, 1);
    assert!(advance_row_frame(&mut play, 2, Some(2)));
    assert_eq!((play.current_frame_index, play.completed_loops), (0, 1));
    assert!(advance_row_frame(&mut play, 2, Some(2)));
    assert!(!advance_row_frame(&mut play, 2, Some(2)));
    assert_eq!((play.current_frame_index, play.completed_loops), (1, 1));
    assert!(!advance_row_frame(&mut play, 1, None));
}
