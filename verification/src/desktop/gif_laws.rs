//! What GIFs decode to, frame by frame, which of them are kept, and how rows move.
use vstd::prelude::*;

use super::gif_cache::{self, DecodedGifCache, EntryView};
use super::gif_decode::{
    self, AssemblyView, DecodeView, GifDecodeResult, ImageView, ReadingView,
};
use super::gif_player::{
    self, ControllerView, GifFrameUpdate, GifPlaybackController, Playback, RowView, UpdateView,
};
use std::sync::Arc;

verus! {

/// A GIF begins with `GIF87a` or `GIF89a`, and nothing else is one.
pub proof fn lemma_gifs_are_told_by_their_start(rest: Seq<u8>, bytes: Seq<u8>)
    ensures
        gif_decode::is_gif(seq![71u8, 73u8, 70u8, 56u8, 57u8, 97u8] + rest),
        gif_decode::is_gif(seq![71u8, 73u8, 70u8, 56u8, 55u8, 97u8] + rest),
        bytes.len() < 6 ==> !gif_decode::is_gif(bytes),
        bytes.len() >= 6 && bytes[0] != 71 ==> !gif_decode::is_gif(bytes),
        bytes.len() >= 6 && bytes[4] != 55 && bytes[4] != 57 ==> !gif_decode::is_gif(bytes),
        !gif_decode::is_gif(bytes) ==> gif_decode::decoded(bytes) is NotGif,
        gif_decode::gif_header(bytes) is None ==> gif_decode::decoded(bytes) is NotGif,
{
    let newer = seq![71u8, 73u8, 70u8, 56u8, 57u8, 97u8];
    let older = seq![71u8, 73u8, 70u8, 56u8, 55u8, 97u8];
    assert((newer + rest).take(6) =~= newer);
    assert((older + rest).take(6) =~= older);
    if bytes.len() >= 6 {
        assert(bytes.take(6)[0] == bytes[0] && bytes.take(6)[4] == bytes[4]);
        assert(newer[0] == 71 && newer[4] == 57 && older[0] == 71 && older[4] == 55);
    }
}

/// A frame is shown for its delay, rounded up to whole milliseconds, and for 33 at least.
pub proof fn lemma_delays_are_rounded_up(numerator: u32, denominator: u32)
    ensures
        ({
            let delay = gif_decode::playback_delay(numerator, denominator);
            &&& delay >= 33
            &&& denominator == 0 ==> delay == 33
            &&& denominator == 1 && numerator >= 33 ==> delay == numerator
            &&& denominator > 0 ==> delay * denominator >= numerator
            &&& denominator > 0 && delay > 33 ==> (delay - 1) * denominator < numerator
        }),
{
    if denominator > 0 {
        let d = denominator as int;
        let sum = numerator + d - 1;
        let millis = sum / d;
        assert(millis * d <= sum < (millis + 1) * d && millis >= 0) by (nonlinear_arith)
            requires
                d > 0,
                sum >= 0,
                millis == sum / d,
        ;
        assert((millis + 1) * d == millis * d + d) by (nonlinear_arith);
        assert((millis - 1) * d == millis * d - d) by (nonlinear_arith);
        assert(millis <= sum) by (nonlinear_arith)
            requires
                d > 0,
                sum >= 0,
                millis == sum / d,
        ;
        if millis < 33 {
            assert(33 * d >= millis * d) by (nonlinear_arith)
                requires
                    millis < 33,
                    d > 0,
            ;
        }
        if d == 1 {
            assert(millis == numerator);
        }
    }
}

/// A frame takes four bytes for each pixel.
pub proof fn lemma_frames_take_four_bytes_a_pixel(width: u32, height: u32)
    ensures
        width <= 4096 && height <= 4096 ==> gif_decode::frame_bytes(width, height) == Some(
            (width * height * 4) as u64,
        ),
        gif_decode::too_long(width, height) <==> width > 4096 || height > 4096,
{
    if width <= 4096 && height <= 4096 {
        assert(width * height <= 4096 * 4096) by (nonlinear_arith)
            requires
                width <= 4096,
                height <= 4096,
        ;
    }
}

/// Whether the first reads of some bytes are frames, these ones.
pub open spec fn reads_frames(
    bytes: Seq<u8>,
    frames: Seq<ImageView>,
    delays_ms: Seq<u64>,
) -> bool {
    &&& delays_ms.len() == frames.len()
    &&& forall|i: int|
        0 <= i < frames.len() ==> #[trigger] is_read(bytes, i as nat, frames[i], delays_ms[i])
}

/// Whether a read of some bytes gives a frame, with its delay.
pub open spec fn is_read(bytes: Seq<u8>, index: nat, image: ImageView, delay_ms: u64) -> bool {
    let reading = gif_decode::gif_frame(bytes, index);
    &&& reading is Frame
    &&& reading->image == image
    &&& delay_ms == gif_decode::playback_delay(reading->numerator, reading->denominator)
}

/// An animation has the frames that its bytes hold, all of them in their order, each with its
/// delay. Where a frame cannot be read or is too much, the first one is shown with the reason.
pub proof fn lemma_frames_stand_in_order(bytes: Seq<u8>)
    ensures
        gif_decode::decoded(bytes) matches DecodeView::Animated { frames, delays_ms, loop_count }
            ==> {
            &&& reads_frames(bytes, frames, delays_ms)
            &&& gif_decode::gif_frame(bytes, frames.len()) is End
            &&& loop_count is None
        },
        gif_decode::decoded(bytes) matches DecodeView::StaticFallback { first_frame, reason } ==> {
            &&& gif_decode::gif_frame(bytes, 0) is Frame
            &&& gif_decode::gif_frame(bytes, 0)->image == first_frame
            &&& reason == "GIF shown as static (too large to animate)"@ || reason
                == "GIF shown as static (failed to decode animation)"@
        },
{
    if gif_decode::is_gif(bytes) {
        match gif_decode::gif_header(bytes) {
            Some((width, height)) => lemma_assembly_stands_in_order(
                bytes,
                gif_decode::nothing_read(width, height),
            ),
            None => {},
        }
    }
}

proof fn lemma_assembly_stands_in_order(bytes: Seq<u8>, so_far: AssemblyView)
    requires
        reads_frames(bytes, so_far.frames, so_far.delays_ms),
        so_far.frames.len() <= 300,
    ensures
        gif_decode::assembled(bytes, so_far) matches DecodeView::Animated {
            frames,
            delays_ms,
            loop_count,
        } ==> {
            &&& reads_frames(bytes, frames, delays_ms)
            &&& gif_decode::gif_frame(bytes, frames.len()) is End
            &&& loop_count is None
        },
        gif_decode::assembled(bytes, so_far) matches DecodeView::StaticFallback {
            first_frame,
            reason,
        } ==> {
            &&& gif_decode::gif_frame(bytes, 0) is Frame
            &&& gif_decode::gif_frame(bytes, 0)->image == first_frame
            &&& reason == "GIF shown as static (too large to animate)"@ || reason
                == "GIF shown as static (failed to decode animation)"@
        },
    decreases 301 - so_far.frames.len(),
{
    let reading = gif_decode::gif_frame(bytes, so_far.frames.len());
    if so_far.frames.len() > 0 {
        let first: int = 0;
        assert(is_read(bytes, first as nat, so_far.frames[first], so_far.delays_ms[first]));
    }
    match gif_decode::settled(so_far, reading) {
        Some(_) => {
            if let ReadingView::Frame { image, .. } = reading {
                let all = so_far.frames.push(image);
                assert(all[0] == if so_far.frames.len() > 0 { so_far.frames[0] } else { image });
            }
        },
        None => {
            if let ReadingView::Frame { numerator, denominator, image } = reading {
                let next = gif_decode::with_frame(so_far, numerator, denominator, image);
                assert forall|i: int| 0 <= i < next.frames.len() implies #[trigger] is_read(
                    bytes,
                    i as nat,
                    next.frames[i],
                    next.delays_ms[i],
                ) by {
                    if i < so_far.frames.len() {
                        assert(is_read(
                            bytes,
                            i as nat,
                            so_far.frames[i],
                            so_far.delays_ms[i],
                        ));
                    }
                }
                lemma_assembly_stands_in_order(bytes, next);
            }
        },
    }
}

/// One more frame is taken, or settles the GIF: the end makes an animation of what was read, a
/// failure and too much make it static.
pub proof fn lemma_readings_are_taken(so_far: AssemblyView, image: ImageView)
    requires
        so_far.frames.len() > 0,
    ensures
        gif_decode::settled(so_far, ReadingView::End) == Some(
            DecodeView::Animated {
                frames: so_far.frames,
                delays_ms: so_far.delays_ms,
                loop_count: None,
            },
        ),
        gif_decode::settled(so_far, ReadingView::Failed) == Some(
            DecodeView::StaticFallback {
                first_frame: so_far.frames[0],
                reason: "GIF shown as static (failed to decode animation)"@,
            },
        ),
        forall|numerator: u32, denominator: u32|
            so_far.frames.len() >= 300 ==> #[trigger] gif_decode::settled(
                so_far,
                ReadingView::Frame { numerator, denominator, image },
            ) == Some(
                DecodeView::StaticFallback {
                    first_frame: so_far.frames[0],
                    reason: "GIF shown as static (too large to animate)"@,
                },
            ),
        forall|numerator: u32, denominator: u32|
            !so_far.oversized && so_far.frames.len() < 300 && image.width <= 4096 && image.height
                <= 4096 && so_far.decoded_bytes + image.width * image.height * 4 <= 134_217_728
                ==> #[trigger] gif_decode::settled(
                so_far,
                ReadingView::Frame { numerator, denominator, image },
            ) is None,
        forall|numerator: u32, denominator: u32|
            so_far.oversized || image.width > 4096 || image.height > 4096 ==> (
            #[trigger] gif_decode::settled(
                so_far,
                ReadingView::Frame { numerator, denominator, image },
            )) is Some,
{
    lemma_frames_take_four_bytes_a_pixel(image.width, image.height);
    assert(so_far.frames.push(image)[0] == so_far.frames[0]);
    if image.width <= 4096 && image.height <= 4096 {
        assert(image.width * image.height * 4 <= 4096 * 4096 * 4) by (nonlinear_arith)
            requires
                image.width <= 4096,
                image.height <= 4096,
        ;
        assert(image.width * image.height * 4 >= 0) by (nonlinear_arith);
    }
}

/// A decoded GIF that is kept is handed out as it is and counts as used; a file that is not
/// kept is decoded, and one that could not be read is no GIF.
pub proof fn lemma_decoded_gifs_are_reused()
    ensures
        forall|cache: &mut DecodedGifCache, key: &str, decoded: Option<Arc<GifDecodeResult>>|
            #[trigger] call_ensures(DecodedGifCache::get, (cache, key), decoded) ==> {
                let known = (*cache)@.entries.dom().contains(key@);
                &&& decoded is Some <==> known
                &&& known ==> (*(decoded->0))@ == (*cache)@.entries[key@].decoded
                &&& known ==> final(cache)@.entries.dom() == (*cache)@.entries.dom()
                &&& known && (*cache)@.clock < u64::MAX
                    ==> final(cache)@.entries[key@].last_access == (*cache)@.clock + 1
                &&& !known ==> final(cache)@ == (*cache)@
            },
        forall|cache: &mut DecodedGifCache, key: &str, bytes: Option<&[u8]>, decoded: Arc<
            GifDecodeResult,
        >|
            #[trigger] call_ensures(DecodedGifCache::get_or_load, (cache, key, bytes), decoded)
                ==> {
                let known = (*cache)@.entries.dom().contains(key@);
                &&& known ==> (*decoded)@ == (*cache)@.entries[key@].decoded
                &&& !known && bytes is Some ==> (*decoded)@ == gif_decode::decoded(bytes->0@)
                &&& !known && bytes is None ==> (*decoded)@ is NotGif
                &&& final(cache)@.entries.dom().len() <= final(cache)@.capacity
                &&& final(cache)@.capacity == (*cache)@.capacity
            },
        forall|capacity: usize, cache: DecodedGifCache|
            #[trigger] call_ensures(DecodedGifCache::new, (capacity,), cache) ==> {
                &&& cache@.capacity >= 1
                &&& capacity >= 1 ==> cache@.capacity == capacity
                &&& forall|key: Seq<char>| !cache@.entries.dom().contains(key)
            },
{
    assert forall|cache: &mut DecodedGifCache, key: &str, decoded: Option<Arc<GifDecodeResult>>|
        #[trigger] call_ensures(DecodedGifCache::get, (cache, key), decoded) && (
        *cache)@.entries.dom().contains(key@) implies final(cache)@.entries.dom() == (
    *cache)@.entries.dom() by {
        assert(final(cache)@.entries.dom() =~= (*cache)@.entries.dom());
    }
}

/// While there is room nothing goes: a cache that was not full has all that it had and the new
/// GIF. A full one loses as many as it has too many, and never one that was used after one that
/// stays.
pub proof fn lemma_nothing_goes_while_there_is_room(
    before: Map<Seq<char>, EntryView>,
    after: Map<Seq<char>, EntryView>,
    capacity: nat,
)
    requires
        gif_cache::evicted(before, after, capacity),
        before.dom().finite(),
    ensures
        before.dom().len() <= capacity ==> after == before,
        before.dom().len() > capacity ==> after.dom().len() == capacity,
        forall|key: Seq<char>|
            #[trigger] after.dom().contains(key) ==> before.dom().contains(key) && after[key]
                == before[key],
        forall|kept: Seq<char>, gone: Seq<char>|
            #![trigger after.dom().contains(kept), before.dom().contains(gone)]
            after.dom().contains(kept) && before.dom().contains(gone) && !after.dom().contains(
                gone,
            ) ==> before[gone].last_access <= before[kept].last_access,
{
    if before.dom().len() <= capacity {
        assert(after.dom().subset_of(before.dom()));
        vstd::set_lib::lemma_subset_equality(after.dom(), before.dom());
        assert(after =~= before);
    }
}

/// A row moves on frame by frame and begins anew behind the last one, unless it was shown as
/// often as it is to be; a single frame does not move.
pub proof fn lemma_frames_follow_each_other(
    play: Playback,
    frame_count: int,
    loop_count: Option<u32>,
)
    requires
        frame_count <= usize::MAX,
    ensures
        ({
            let next = gif_player::next_frame(play, frame_count, loop_count);
            &&& frame_count <= 1 ==> next is None
            &&& frame_count > 1 && play.current_frame_index + 1 < frame_count ==> {
                &&& next is Some
                &&& next->0.current_frame_index == play.current_frame_index + 1
                &&& next->0.completed_loops == play.completed_loops
                &&& next->0.is_active == play.is_active
            }
            &&& frame_count > 1 && play.current_frame_index + 1 >= frame_count && loop_count
                is None ==> {
                &&& next is Some
                &&& next->0.current_frame_index == 0
                &&& play.completed_loops < u32::MAX ==> next->0.completed_loops
                    == play.completed_loops + 1
            }
            &&& frame_count > 1 && play.current_frame_index + 1 >= frame_count && loop_count
                is Some && play.completed_loops < u32::MAX ==> (next is None
                <==> play.completed_loops + 1 >= loop_count->0)
        }),
{
}

/// A row that begins to move shows its frame for its delay; then the next one comes. Before it
/// is due nothing changes.
pub proof fn lemma_frames_come_when_due(
    play: Playback,
    delays_ms: Seq<u64>,
    frame_count: int,
    loop_count: Option<u32>,
    now_ms: u64,
)
    requires
        1 < frame_count <= usize::MAX,
        play.current_frame_index < frame_count,
        delays_ms.len() == frame_count,
        now_ms < u64::MAX,
        forall|i: int| 0 <= i < delays_ms.len() ==> #[trigger] delays_ms[i] >= 33,
    ensures
        ({
            let after = gif_player::played(play, delays_ms, frame_count, loop_count, now_ms);
            let index = play.current_frame_index as int;
            &&& after.is_active
            &&& !play.is_active && now_ms + delays_ms[index] <= u64::MAX ==> {
                &&& after.current_frame_index == play.current_frame_index
                &&& after.next_frame_due_ms == Some((now_ms + delays_ms[index]) as u64)
            }
            &&& play.is_active && play.next_frame_due_ms is Some && now_ms
                < play.next_frame_due_ms->0 ==> after == play
            &&& play.is_active && play.next_frame_due_ms == Some(now_ms) && index + 1 < frame_count
                && now_ms + delays_ms[index + 1] <= u64::MAX ==> {
                &&& after.current_frame_index == index + 1
                &&& after.next_frame_due_ms == Some((now_ms + delays_ms[index + 1]) as u64)
                &&& gif_player::shows_another(play, delays_ms, frame_count, loop_count, now_ms)
            }
        }),
{
    let begun = gif_player::started(play, delays_ms, frame_count, now_ms);
    let index = play.current_frame_index as int;
    assert(delays_ms[index] >= 33);
    match begun.next_frame_due_ms {
        Some(due) => {
            gif_player::lemma_caught_up(begun, due, delays_ms, frame_count, loop_count, now_ms);
            if play.is_active && due == now_ms && index + 1 < frame_count {
                let next = gif_player::next_frame(begun, frame_count, loop_count)->0;
                assert(delays_ms[index + 1] >= 33);
                let later = gif_player::saturating_sum(due, delays_ms[index + 1]);
                assert(gif_player::caught_up(
                    next,
                    later,
                    delays_ms,
                    frame_count,
                    loop_count,
                    now_ms,
                ) == Playback { next_frame_due_ms: Some(later), ..next });
            }
        },
        None => {},
    }
}

/// A frame is shown for its own delay.
pub proof fn lemma_each_frame_has_its_delay(delays_ms: Seq<u64>, index: int)
    ensures
        0 <= index < delays_ms.len() && delays_ms[index] >= 33 ==> gif_player::delay_at(
            delays_ms,
            index,
        ) == delays_ms[index],
        gif_player::delay_at(delays_ms, index) >= 33,
        !(0 <= index < delays_ms.len()) ==> gif_player::delay_at(delays_ms, index) == 33,
{
}

/// A row is visible for 750 milliseconds after it was last seen, and a row that was never seen
/// is not.
pub proof fn lemma_rows_are_visible_for_a_while(row: RowView, now_ms: u64)
    ensures
        row.last_ping_ms is None ==> !gif_player::is_visible(row, now_ms),
        row.last_ping_ms is Some && now_ms >= row.last_ping_ms->0 ==> (gif_player::is_visible(
            row,
            now_ms,
        ) <==> now_ms - row.last_ping_ms->0 <= 750),
{
}

/// A row moves where it is visible and has more than one frame, unless three others do that
/// were seen later.
pub proof fn lemma_latest_rows_move(
    state: ControllerView,
    order: Seq<Seq<char>>,
    media_key: Seq<char>,
    now_ms: u64,
)
    requires
        gif_player::is_active_order(order, state, now_ms),
    ensures
        order.len() <= 3,
        order.contains(media_key) ==> {
            &&& state.rows.dom().contains(media_key)
            &&& gif_player::is_visible(state.rows[media_key], now_ms)
            &&& gif_player::source_of(state, media_key) is Some
            &&& gif_player::source_of(state, media_key)->0 is Animated
            &&& gif_player::source_of(state, media_key)->0->frames.len() > 1
        },
        gif_player::may_move(state, media_key, now_ms) && !order.contains(media_key) ==> {
            &&& order.len() == 3
            &&& forall|i: int|
                0 <= i < 3 ==> state.rows[#[trigger] order[i]].last_ping_ms->0
                    >= state.rows[media_key].last_ping_ms->0
        },
{
    if order.contains(media_key) {
        let i = choose|i: int| 0 <= i < order.len() && order[i] == media_key;
        assert(gif_player::may_move(state, order[i], now_ms));
    }
    if gif_player::may_move(state, media_key, now_ms) && !order.contains(media_key) {
        assert forall|i: int| 0 <= i < 3 implies state.rows[#[trigger] order[i]].last_ping_ms->0
            >= state.rows[media_key].last_ping_ms->0 by {
            if i < 2 {
                assert(gif_player::ranks_before(state.rows, order[i], order[2]));
            }
            assert(order.last() == order[2]);
        }
    }
}

/// Number of the first `upto` rows that show another frame.
pub open spec fn changed_before(
    state: ControllerView,
    order: Seq<Seq<char>>,
    now_ms: u64,
    upto: nat,
) -> nat
    decreases upto,
{
    if upto == 0 {
        0
    } else {
        changed_before(state, order, now_ms, (upto - 1) as nat) + if gif_player::row_update(
            state,
            order[upto - 1],
            now_ms,
        ) is Some {
            1nat
        } else {
            0nat
        }
    }
}

proof fn lemma_changed_before_of_prefix(
    state: ControllerView,
    order: Seq<Seq<char>>,
    now_ms: u64,
    upto: nat,
)
    requires
        upto < order.len(),
    ensures
        changed_before(state, order, now_ms, upto) == changed_before(
            state,
            order.drop_last(),
            now_ms,
            upto,
        ),
    decreases upto,
{
    if upto > 0 {
        lemma_changed_before_of_prefix(state, order, now_ms, (upto - 1) as nat);
        assert(order[upto - 1] == order.drop_last()[upto - 1]);
    }
}

/// Every row that shows another frame is reported, once and in the order of the rows.
pub proof fn lemma_every_change_is_reported(
    state: ControllerView,
    order: Seq<Seq<char>>,
    now_ms: u64,
    at: int,
)
    requires
        0 <= at < order.len(),
    ensures
        gif_player::order_updates(state, order, now_ms).len() == changed_before(
            state,
            order,
            now_ms,
            order.len(),
        ),
        gif_player::row_update(state, order[at], now_ms) is Some ==> {
            let place = changed_before(state, order, now_ms, at as nat);
            &&& place < gif_player::order_updates(state, order, now_ms).len()
            &&& gif_player::order_updates(state, order, now_ms)[place as int]
                == gif_player::row_update(state, order[at], now_ms)->0
        },
    decreases order.len(),
{
    let front = order.drop_last();
    lemma_changed_before_of_prefix(state, order, now_ms, front.len());
    if front.len() == 0 {
        assert(gif_player::order_updates(state, front, now_ms) =~= Seq::<UpdateView>::empty());
    } else if at < front.len() {
        lemma_every_change_is_reported(state, front, now_ms, at);
        lemma_changed_before_of_prefix(state, order, now_ms, at as nat);
        assert(front[at] == order[at]);
    } else {
        lemma_every_change_is_reported(state, front, now_ms, 0);
    }
}

/// The update of a row names the row and the frame that it has moved on to.
pub proof fn lemma_update_shows_the_new_frame(
    state: ControllerView,
    media_key: Seq<char>,
    frames: Seq<ImageView>,
    delays_ms: Seq<u64>,
    loop_count: Option<u32>,
    now_ms: u64,
)
    requires
        gif_player::source_of(state, media_key) == Some(
            DecodeView::Animated { frames, delays_ms, loop_count },
        ),
    ensures
        ({
            let play = state.rows[media_key].play;
            let count = frames.len() as int;
            let update = gif_player::row_update(state, media_key, now_ms);
            let after = gif_player::played(play, delays_ms, count, loop_count, now_ms);
            &&& update is Some <==> gif_player::shows_another(
                play,
                delays_ms,
                count,
                loop_count,
                now_ms,
            )
            &&& update is Some ==> update->0.media_key == media_key
            &&& update is Some ==> update->0.frame == frames[after.current_frame_index as int]
        }),
{
}

/// A tick moves the rows that move, leaves the others where they are, and keeps what they show
/// and when they were seen.
pub proof fn lemma_tick_moves_rows(
    state: ControllerView,
    order: Seq<Seq<char>>,
    media_key: Seq<char>,
    now_ms: u64,
)
    requires
        state.rows.dom().contains(media_key),
    ensures
        ({
            let after = gif_player::ticked(state, order, now_ms);
            let row = after.rows[media_key];
            &&& after.rows.dom().contains(media_key)
            &&& row.source == state.rows[media_key].source
            &&& row.last_ping_ms == state.rows[media_key].last_ping_ms
            &&& !order.contains(media_key) ==> {
                &&& row.play.current_frame_index
                    == state.rows[media_key].play.current_frame_index
                &&& !row.play.is_active
                &&& row.play.next_frame_due_ms is None
            }
            &&& order.contains(media_key) ==> row.play == gif_player::row_played(
                state,
                media_key,
                now_ms,
            )
        }),
{
}

/// An animated row shows the frame that it has come to, a static one its first frame, and any
/// other none.
pub proof fn lemma_rows_show_their_frames(state: ControllerView, media_key: Seq<char>)
    ensures
        gif_player::source_of(state, media_key) is None ==> gif_player::shown_frame(
            state,
            media_key,
        ) is None,
        gif_player::source_of(state, media_key) matches Some(DecodeView::StaticFallback {
            first_frame,
            reason,
        }) ==> gif_player::shown_frame(state, media_key) == Some(first_frame),
        gif_player::source_of(state, media_key) matches Some(DecodeView::Animated {
            frames,
            delays_ms,
            loop_count,
        }) ==> state.rows[media_key].play.current_frame_index < frames.len()
            ==> gif_player::shown_frame(state, media_key) == Some(
            frames[state.rows[media_key].play.current_frame_index as int],
        ),
        gif_player::source_of(state, media_key) matches Some(DecodeView::NotGif)
            ==> gif_player::shown_frame(state, media_key) is None,
{
}

/// Rows are seen, get their sources and are ticked one by one.
pub proof fn lemma_rows_are_kept_apart()
    ensures
        forall|controller: &mut GifPlaybackController, media_key: &str, now_ms: u64|
            #[trigger] call_ensures(
                GifPlaybackController::register_visibility_ping,
                (controller, media_key, now_ms),
                (),
            ) ==> {
                let rows = final(controller)@.rows;
                &&& rows.dom().contains(media_key@)
                &&& rows[media_key@].last_ping_ms == Some(now_ms)
                &&& (*controller)@.rows.dom().contains(media_key@) ==> rows[media_key@].source
                    == (*controller)@.rows[media_key@].source && rows[media_key@].play == (
                *controller)@.rows[media_key@].play
                &&& forall|other: Seq<char>|
                    other != media_key@ && (*controller)@.rows.dom().contains(other)
                        ==> #[trigger] rows[other] == (*controller)@.rows[other]
            },
        forall|
            controller: &mut GifPlaybackController,
            media_key: &str,
            file_path: &str,
            bytes: Option<&[u8]>,
        |
            #[trigger] call_ensures(
                GifPlaybackController::attach_source,
                (controller, media_key, file_path, bytes),
                (),
            ) ==> {
                let rows = final(controller)@.rows;
                &&& rows.dom().contains(media_key@)
                &&& rows[media_key@].source == Some(file_path@)
                &&& rows[media_key@].play.current_frame_index == 0
                &&& !rows[media_key@].play.is_active
                &&& forall|other: Seq<char>|
                    other != media_key@ && (*controller)@.rows.dom().contains(other)
                        ==> #[trigger] rows[other] == (*controller)@.rows[other]
            },
        forall|controller: &mut GifPlaybackController, now_ms: u64, updates: Vec<GifFrameUpdate>|
            #[trigger] call_ensures(GifPlaybackController::tick, (controller, now_ms), updates)
                ==> exists|order: Seq<Seq<char>>| #[trigger]
                gif_player::is_active_order(order, (*controller)@, now_ms)
                    && final(controller)@ == gif_player::ticked((*controller)@, order, now_ms)
                    && gif_player::update_views(updates@) == gif_player::order_updates(
                    (*controller)@,
                    order,
                    now_ms,
                ),
{
}

/// The sources of the rows that move are used, one after the other, and no other: the last one
/// is the one that was used last.
pub proof fn lemma_moving_sources_are_used(
    state: ControllerView,
    order: Seq<Seq<char>>,
    key: Seq<char>,
)
    requires
        order.len() > 0,
    ensures
        ({
            let after = gif_player::order_touched(state, order);
            let before = gif_player::order_touched(state, order.drop_last());
            let source = state.rows[order.last()].source->0;
            &&& gif_player::order_touched(state, Seq::empty()) == state.cache
            &&& before.clock < u64::MAX ==> after.clock == before.clock + 1
            &&& after.entries[source].last_access == after.clock
            &&& after.entries[source].decoded == before.entries[source].decoded
            &&& key != source ==> after.entries[key] == before.entries[key]
            &&& after.capacity == before.capacity
        }),
{
}

/// The source of a row is what its file decoded to, as long as that is kept.
pub proof fn lemma_row_has_the_source_of_its_file(
    state: ControllerView,
    media_key: Seq<char>,
    file_path: Seq<char>,
)
    requires
        state.rows.dom().contains(media_key),
        state.rows[media_key].source == Some(file_path),
    ensures
        state.cache.entries.dom().contains(file_path) ==> gif_player::source_of(state, media_key)
            == Some(state.cache.entries[file_path].decoded),
        !state.cache.entries.dom().contains(file_path) ==> gif_player::source_of(
            state,
            media_key,
        ) is None,
{
}

/// A row that is not known, or has no file, has no source.
pub proof fn lemma_unknown_row_has_no_source(state: ControllerView, media_key: Seq<char>)
    ensures
        !state.rows.dom().contains(media_key) ==> gif_player::source_of(state, media_key) is None,
        state.rows.dom().contains(media_key) && state.rows[media_key].source is None
            ==> gif_player::source_of(state, media_key) is None,
{
}

} // verus!
