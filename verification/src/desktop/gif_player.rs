//! Playback of GIF rows: which rows move, and which frame each of them shows.
use vstd::prelude::*;

use super::gif_cache::{self, CacheView, DecodedGifCache};
use super::gif_decode::{
    self, DecodeView, GifDecodeResult, GifImage, ImageView, MIN_FRAME_DELAY_MS,
};
use crate::backend_core::types;
use crate::text;
use crate::text_map::TextMap;
use std::sync::Arc;

verus! {

/// Maximum rows animated concurrently.
pub const MAX_CONCURRENT_ANIMATED_ROWS: usize = 3;

/// UI visibility ping cadence.
pub const VISIBLE_PING_INTERVAL_MS: u64 = 250;

/// Row visibility timeout after the last ping.
pub const VISIBLE_STALE_TIMEOUT_MS: u64 = 750;

/// Number of decoded GIFs that a controller keeps, unless told otherwise.
pub const DEFAULT_DECODE_CACHE_CAPACITY: usize = 64;

/// Where the playback of a row stands.
#[derive(Debug, Clone, Copy, PartialEq, Eq, Structural)]
pub struct Playback {
    /// Frame that is shown.
    pub current_frame_index: usize,
    /// Number of times that the animation was shown to its end.
    pub completed_loops: u32,
    /// When the next frame is due.
    pub next_frame_due_ms: Option<u64>,
    /// Whether the row moves.
    pub is_active: bool,
}

/// Playback that has not begun.
pub open spec fn not_begun() -> Playback {
    Playback {
        current_frame_index: 0,
        completed_loops: 0,
        next_frame_due_ms: None,
        is_active: false,
    }
}

/// Playback that stands still at its frame.
pub open spec fn paused(play: Playback) -> Playback {
    Playback { is_active: false, next_frame_due_ms: None, ..play }
}

/// The sum, or the largest number where that is less.
pub open spec fn saturating_sum(a: u64, b: u64) -> u64 {
    if a + b <= u64::MAX { (a + b) as u64 } else { u64::MAX }
}

/// How long a frame is shown: never less than the minimum.
pub open spec fn delay_at(delays_ms: Seq<u64>, index: int) -> u64 {
    if 0 <= index < delays_ms.len() && delays_ms[index] >= MIN_FRAME_DELAY_MS {
        delays_ms[index]
    } else {
        MIN_FRAME_DELAY_MS
    }
}

/// How long a frame is shown.
pub fn delay_for_index(delays_ms: &[u64], frame_index: usize) -> (delay_ms: u64)
    ensures
        delay_ms == delay_at(delays_ms@, frame_index as int),
{
    if frame_index < delays_ms.len() && delays_ms[frame_index] >= MIN_FRAME_DELAY_MS {
        delays_ms[frame_index]
    } else {
        MIN_FRAME_DELAY_MS
    }
}

/// Playback with its next frame, unless it has come to its end.
pub open spec fn next_frame(play: Playback, frame_count: int, loop_count: Option<u32>) -> Option<
    Playback,
> {
    let loops: int = if play.completed_loops == u32::MAX {
        u32::MAX as int
    } else {
        play.completed_loops + 1
    };
    if frame_count <= 1 {
        None
    } else if play.current_frame_index + 1 < frame_count {
        Some(
            Playback { current_frame_index: (play.current_frame_index + 1) as usize, ..play },
        )
    } else if loop_count matches Some(max_loops) && loops >= max_loops {
        None
    } else {
        Some(Playback { current_frame_index: 0, completed_loops: loops as u32, ..play })
    }
}

/// Moves on to the next frame; returns `false` where the animation has come to its end.
pub fn advance_row_frame(play: &mut Playback, frame_count: usize, loop_count: Option<u32>) -> (moved:
    bool)
    ensures
        match next_frame(*old(play), frame_count as int, loop_count) {
            Some(next) => moved && *final(play) == next,
            None => {
                &&& !moved
                &&& *final(play) == if frame_count <= 1 {
                    *old(play)
                } else {
                    Playback {
                        current_frame_index: (frame_count - 1) as usize,
                        ..*old(play)
                    }
                }
            },
        },
{
    if frame_count <= 1 {
        return false;
    }
    if play.current_frame_index < frame_count - 1 {
        play.current_frame_index = play.current_frame_index + 1;
        return true;
    }
    let loops: u32 = play.completed_loops.saturating_add(1);
    match loop_count {
        Some(max_loops) => {
            if loops >= max_loops {
                play.current_frame_index = frame_count - 1;
                return false;
            }
        },
        None => {},
    }
    play.completed_loops = loops;
    play.current_frame_index = 0;
    true
}

/// Playback once every frame that is due has been shown, where the next is due at `due`.
pub open spec fn caught_up(
    play: Playback,
    due: u64,
    delays_ms: Seq<u64>,
    frame_count: int,
    loop_count: Option<u32>,
    now_ms: u64,
) -> Playback
    decreases (if now_ms < u64::MAX && due <= now_ms { now_ms - due + 1 } else { 0 }),
{
    if now_ms < due || now_ms == u64::MAX {
        Playback { next_frame_due_ms: Some(due), ..play }
    } else {
        match next_frame(play, frame_count, loop_count) {
            Some(next) => caught_up(
                next,
                saturating_sum(due, delay_at(delays_ms, next.current_frame_index as int)),
                delays_ms,
                frame_count,
                loop_count,
                now_ms,
            ),
            None => Playback { next_frame_due_ms: None, ..play },
        }
    }
}

/// Playback of a row that is to move: it starts over where it is past the end, and gets a time
/// for its next frame where it stood still.
pub open spec fn started(
    play: Playback,
    delays_ms: Seq<u64>,
    frame_count: int,
    now_ms: u64,
) -> Playback {
    let within = if play.current_frame_index >= frame_count {
        Playback { current_frame_index: 0, completed_loops: 0, ..play }
    } else {
        play
    };
    if within.is_active {
        within
    } else {
        Playback {
            is_active: true,
            next_frame_due_ms: Some(
                saturating_sum(now_ms, delay_at(delays_ms, within.current_frame_index as int)),
            ),
            ..within
        }
    }
}

/// Playback of a row that moves, at a time.
pub open spec fn played(
    play: Playback,
    delays_ms: Seq<u64>,
    frame_count: int,
    loop_count: Option<u32>,
    now_ms: u64,
) -> Playback {
    let begun = started(play, delays_ms, frame_count, now_ms);
    match begun.next_frame_due_ms {
        Some(due) => caught_up(begun, due, delays_ms, frame_count, loop_count, now_ms),
        None => begun,
    }
}

/// Whether a row that moves shows another frame at a time.
pub open spec fn shows_another(
    play: Playback,
    delays_ms: Seq<u64>,
    frame_count: int,
    loop_count: Option<u32>,
    now_ms: u64,
) -> bool {
    let begun = started(play, delays_ms, frame_count, now_ms);
    begun.next_frame_due_ms matches Some(due) && now_ms >= due && next_frame(
        begun,
        frame_count,
        loop_count,
    ) is Some
}

/// Moves a row on to the frame of a time; says whether it shows another frame.
pub fn play_row(
    play: &mut Playback,
    delays_ms: &[u64],
    frame_count: usize,
    loop_count: Option<u32>,
    now_ms: u64,
) -> (changed: bool)
    requires
        frame_count > 1,
        now_ms < u64::MAX,
    ensures
        *final(play) == played(*old(play), delays_ms@, frame_count as int, loop_count, now_ms),
        changed == shows_another(
            *old(play),
            delays_ms@,
            frame_count as int,
            loop_count,
            now_ms,
        ),
        final(play).current_frame_index < frame_count,
{
    if play.current_frame_index >= frame_count {
        play.current_frame_index = 0;
        play.completed_loops = 0;
    }
    if !play.is_active {
        play.is_active = true;
        play.next_frame_due_ms = Some(
            now_ms.saturating_add(delay_for_index(delays_ms, play.current_frame_index)),
        );
    }
    let ghost begun = *play;
    let mut next_due: u64 = match play.next_frame_due_ms {
        Some(due) => due,
        None => return false,
    };
    let mut changed = false;
    let ghost goal = played(*old(play), delays_ms@, frame_count as int, loop_count, now_ms);
    while now_ms >= next_due
        invariant
            frame_count > 1,
            now_ms < u64::MAX,
            play.current_frame_index < frame_count,
            play.next_frame_due_ms == Some(next_due),
            goal == caught_up(
                *play,
                next_due,
                delays_ms@,
                frame_count as int,
                loop_count,
                now_ms,
            ),
            !changed ==> *play == begun,
            changed ==> shows_another(
                *old(play),
                delays_ms@,
                frame_count as int,
                loop_count,
                now_ms,
            ),
            goal == played(*old(play), delays_ms@, frame_count as int, loop_count, now_ms),
            begun == started(*old(play), delays_ms@, frame_count as int, now_ms),
        decreases u64::MAX - next_due,
    {
        if !advance_row_frame(play, frame_count, loop_count) {
            play.next_frame_due_ms = None;
            return changed;
        }
        changed = true;
        let ghost moved = *play;
        next_due = next_due.saturating_add(delay_for_index(delays_ms, play.current_frame_index));
        play.next_frame_due_ms = Some(next_due);
        proof {
            lemma_due_does_not_matter(
                moved,
                *play,
                next_due,
                delays_ms@,
                frame_count as int,
                loop_count,
                now_ms,
            );
        }
    }
    changed
}

proof fn lemma_due_does_not_matter(
    a: Playback,
    b: Playback,
    due: u64,
    delays_ms: Seq<u64>,
    frame_count: int,
    loop_count: Option<u32>,
    now_ms: u64,
)
    requires
        b == (Playback { next_frame_due_ms: b.next_frame_due_ms, ..a }),
    ensures
        caught_up(a, due, delays_ms, frame_count, loop_count, now_ms) == caught_up(
            b,
            due,
            delays_ms,
            frame_count,
            loop_count,
            now_ms,
        ),
    decreases (if now_ms < u64::MAX && due <= now_ms { now_ms - due + 1 } else { 0 }),
{
    if !(now_ms < due || now_ms == u64::MAX) {
        match (next_frame(a, frame_count, loop_count), next_frame(b, frame_count, loop_count)) {
            (Some(x), Some(y)) => lemma_due_does_not_matter(
                x,
                y,
                saturating_sum(due, delay_at(delays_ms, x.current_frame_index as int)),
                delays_ms,
                frame_count,
                loop_count,
                now_ms,
            ),
            _ => {},
        }
    }
}

/// Per-tick frame update emitted by [`GifPlaybackController::tick`].
#[derive(Debug, Clone, PartialEq, Eq)]
pub struct GifFrameUpdate {
    /// Row that shows another frame.
    pub media_key: String,
    /// The frame.
    pub frame: Arc<GifImage>,
}

/// What a [`GifFrameUpdate`] says.
#[verifier::ext_equal]
pub struct UpdateView {
    pub media_key: Seq<char>,
    pub frame: ImageView,
}

impl View for GifFrameUpdate {
    type V = UpdateView;

    open spec fn view(&self) -> UpdateView {
        UpdateView { media_key: self.media_key@, frame: (*self.frame)@ }
    }
}

/// What updates say.
pub open spec fn update_views(updates: Seq<GifFrameUpdate>) -> Seq<UpdateView> {
    updates.map_values(|update: GifFrameUpdate| update@)
}

struct RowPlaybackState {
    source_cache_key: Option<String>,
    last_visibility_ping_ms: Option<u64>,
    play: Playback,
}

/// A row: its source, when it was last seen, and its playback.
#[verifier::ext_equal]
pub struct RowView {
    pub source: Option<Seq<char>>,
    pub last_ping_ms: Option<u64>,
    pub play: Playback,
}

impl View for RowPlaybackState {
    type V = RowView;

    closed spec fn view(&self) -> RowView {
        RowView {
            source: types::opt_chars(self.source_cache_key),
            last_ping_ms: self.last_visibility_ping_ms,
            play: self.play,
        }
    }
}

/// A row that nothing is known of.
pub open spec fn fresh_row() -> RowView {
    RowView { source: None, last_ping_ms: None, play: not_begun() }
}

/// The row of a key, or one that nothing is known of.
pub open spec fn row_or_fresh(rows: Map<Seq<char>, RowView>, media_key: Seq<char>) -> RowView {
    if rows.dom().contains(media_key) { rows[media_key] } else { fresh_row() }
}

/// Main-thread playback controller for timeline/fullscreen GIF rows.
pub struct GifPlaybackController {
    decode_cache: DecodedGifCache,
    rows: TextMap<RowPlaybackState>,
}

/// What a [`GifPlaybackController`] holds.
#[verifier::ext_equal]
pub struct ControllerView {
    /// Decoded GIFs.
    pub cache: CacheView,
    /// Rows by their key.
    pub rows: Map<Seq<char>, RowView>,
}

spec fn row_views(rows: Map<Seq<char>, RowPlaybackState>) -> Map<Seq<char>, RowView> {
    rows.map_values(|row: RowPlaybackState| row@)
}

impl View for GifPlaybackController {
    type V = ControllerView;

    closed spec fn view(&self) -> ControllerView {
        ControllerView { cache: self.decode_cache@, rows: row_views(self.rows@) }
    }
}

/// The decoded GIF of a row, where it has one.
pub open spec fn source_of(state: ControllerView, media_key: Seq<char>) -> Option<DecodeView> {
    if !state.rows.dom().contains(media_key) {
        None
    } else {
        match state.rows[media_key].source {
            Some(source) => if state.cache.entries.dom().contains(source) {
                Some(state.cache.entries[source].decoded)
            } else {
                None
            },
            None => None,
        }
    }
}

/// Whether a row was seen lately.
pub open spec fn is_visible(row: RowView, now_ms: u64) -> bool {
    row.last_ping_ms matches Some(ping) && now_ms - ping <= VISIBLE_STALE_TIMEOUT_MS
}

/// Whether a row may move: it was seen lately, and its source has more than one frame.
pub open spec fn may_move(state: ControllerView, media_key: Seq<char>, now_ms: u64) -> bool {
    &&& state.rows.dom().contains(media_key)
    &&& is_visible(state.rows[media_key], now_ms)
    &&& source_of(state, media_key) matches Some(DecodeView::Animated {
        frames,
        delays_ms,
        loop_count,
    }) && frames.len() > 1
}

/// Whether a row comes before another: it was seen later, or its key comes first.
pub open spec fn ranks_before(
    rows: Map<Seq<char>, RowView>,
    left: Seq<char>,
    right: Seq<char>,
) -> bool {
    let left_ping = rows[left].last_ping_ms->0;
    let right_ping = rows[right].last_ping_ms->0;
    left_ping > right_ping || left_ping == right_ping && text::precedes(left, right)
}

/// Whether `order` are the rows among some keys that move: the first of those that may, as many
/// as can move at a time.
pub open spec fn is_order_among(
    order: Seq<Seq<char>>,
    state: ControllerView,
    keys: Seq<Seq<char>>,
    now_ms: u64,
) -> bool {
    &&& order.len() <= MAX_CONCURRENT_ANIMATED_ROWS
    &&& forall|i: int|
        0 <= i < order.len() ==> keys.contains(#[trigger] order[i]) && may_move(
            state,
            order[i],
            now_ms,
        )
    &&& forall|i: int, j: int|
        0 <= i < j < order.len() ==> ranks_before(
            state.rows,
            #[trigger] order[i],
            #[trigger] order[j],
        )
    &&& forall|key: Seq<char>| #[trigger]
        keys.contains(key) && may_move(state, key, now_ms) && !order.contains(key) ==> order.len()
            == MAX_CONCURRENT_ANIMATED_ROWS && ranks_before(state.rows, order.last(), key)
}

/// Whether `order` are the rows that move, in the order of their rank.
pub open spec fn is_active_order(
    order: Seq<Seq<char>>,
    state: ControllerView,
    now_ms: u64,
) -> bool {
    &&& order.len() <= MAX_CONCURRENT_ANIMATED_ROWS
    &&& forall|i: int| 0 <= i < order.len() ==> may_move(state, #[trigger] order[i], now_ms)
    &&& forall|i: int, j: int|
        0 <= i < j < order.len() ==> ranks_before(
            state.rows,
            #[trigger] order[i],
            #[trigger] order[j],
        )
    &&& forall|key: Seq<char>| #[trigger]
        may_move(state, key, now_ms) && !order.contains(key) ==> order.len()
            == MAX_CONCURRENT_ANIMATED_ROWS && ranks_before(state.rows, order.last(), key)
}

/// Playback of a row that moves, at a time.
pub open spec fn row_played(state: ControllerView, media_key: Seq<char>, now_ms: u64) -> Playback {
    match source_of(state, media_key) {
        Some(DecodeView::Animated { frames, delays_ms, loop_count }) => played(
            state.rows[media_key].play,
            delays_ms,
            frames.len() as int,
            loop_count,
            now_ms,
        ),
        _ => state.rows[media_key].play,
    }
}

/// The update of a row that moves, where it shows another frame.
pub open spec fn row_update(state: ControllerView, media_key: Seq<char>, now_ms: u64) -> Option<
    UpdateView,
> {
    match source_of(state, media_key) {
        Some(DecodeView::Animated { frames, delays_ms, loop_count }) => if shows_another(
            state.rows[media_key].play,
            delays_ms,
            frames.len() as int,
            loop_count,
            now_ms,
        ) {
            Some(
                UpdateView {
                    media_key,
                    frame: frames[row_played(state, media_key, now_ms).current_frame_index as int],
                },
            )
        } else {
            None
        },
        _ => None,
    }
}

/// The updates of the rows that move, in their order.
pub open spec fn order_updates(
    state: ControllerView,
    order: Seq<Seq<char>>,
    now_ms: u64,
) -> Seq<UpdateView>
    decreases order.len(),
{
    if order.len() == 0 {
        Seq::empty()
    } else {
        let before = order_updates(state, order.drop_last(), now_ms);
        match row_update(state, order.last(), now_ms) {
            Some(update) => before.push(update),
            None => before,
        }
    }
}

/// The cache after the sources of the rows that move were used, in their order.
pub open spec fn order_touched(
    state: ControllerView,
    order: Seq<Seq<char>>,
) -> CacheView
    decreases order.len(),
{
    if order.len() == 0 {
        state.cache
    } else {
        gif_cache::touched(
            order_touched(state, order.drop_last()),
            state.rows[order.last()].source->0,
        )
    }
}

/// A row after a tick.
pub open spec fn ticked_row(
    state: ControllerView,
    order: Seq<Seq<char>>,
    media_key: Seq<char>,
    now_ms: u64,
) -> RowView {
    RowView {
        play: if order.contains(media_key) {
            row_played(state, media_key, now_ms)
        } else {
            paused(state.rows[media_key].play)
        },
        ..state.rows[media_key]
    }
}

/// What a controller holds after a tick, where the rows in `order` move.
pub open spec fn ticked(
    state: ControllerView,
    order: Seq<Seq<char>>,
    now_ms: u64,
) -> ControllerView {
    ControllerView {
        cache: order_touched(state, order),
        rows: Map::new(
            |key: Seq<char>| state.rows.dom().contains(key),
            |key: Seq<char>| ticked_row(state, order, key, now_ms),
        ),
    }
}

/// The frame that a row shows.
pub open spec fn shown_frame(state: ControllerView, media_key: Seq<char>) -> Option<ImageView> {
    match source_of(state, media_key) {
        Some(DecodeView::Animated { frames, .. }) => if frames.len() == 0 {
            None
        } else {
            let index: int = state.rows[media_key].play.current_frame_index as int;
            Some(if index < frames.len() { frames[index] } else { frames.last() })
        },
        Some(DecodeView::StaticFallback { first_frame, .. }) => Some(first_frame),
        _ => None,
    }
}

/// What keys are.
pub open spec fn names(keys: Seq<String>) -> Seq<Seq<char>> {
    keys.map_values(|key: String| key@)
}

impl GifPlaybackController {
    /// Create a controller with a default decoded GIF cache size.
    pub fn new() -> (controller: Self)
        ensures
            controller@ == (ControllerView {
                cache: CacheView {
                    capacity: DEFAULT_DECODE_CACHE_CAPACITY as nat,
                    clock: 0,
                    entries: Map::empty(),
                },
                rows: Map::empty(),
            }),
    {
        GifPlaybackController::with_cache_capacity(DEFAULT_DECODE_CACHE_CAPACITY)
    }

    /// Create a controller with an explicit decoded GIF cache size, of at least one.
    pub fn with_cache_capacity(cache_capacity: usize) -> (controller: Self)
        ensures
            controller@ == (ControllerView {
                cache: CacheView {
                    capacity: if cache_capacity == 0 { 1 } else { cache_capacity as nat },
                    clock: 0,
                    entries: Map::empty(),
                },
                rows: Map::empty(),
            }),
    {
        let controller = GifPlaybackController {
            decode_cache: DecodedGifCache::new(cache_capacity),
            rows: TextMap::new(),
        };
        proof {
            assert(controller@.rows =~= Map::<Seq<char>, RowView>::empty());
        }
        controller
    }

    /// Record a visibility ping for a row/media key.
    pub fn register_visibility_ping(&mut self, media_key: &str, now_ms: u64)
        ensures
            final(self)@ == (ControllerView {
                rows: old(self)@.rows.insert(
                    media_key@,
                    RowView {
                        last_ping_ms: Some(now_ms),
                        ..row_or_fresh(old(self)@.rows, media_key@)
                    },
                ),
                ..old(self)@
            }),
    {
        let ghost before = self@;
        let row = match self.rows.get(media_key) {
            Some(row) => RowPlaybackState {
                source_cache_key: types::clone_opt_string(&row.source_cache_key),
                last_visibility_ping_ms: Some(now_ms),
                play: row.play,
            },
            None => RowPlaybackState {
                source_cache_key: None,
                last_visibility_ping_ms: Some(now_ms),
                play: Playback {
                    current_frame_index: 0,
                    completed_loops: 0,
                    next_frame_due_ms: None,
                    is_active: false,
                },
            },
        };
        let ghost view = row@;
        self.rows.insert(media_key.to_owned(), row);
        proof {
            assert(self@.rows =~= before.rows.insert(media_key@, view));
        }
    }

    /// Whether the file of a path is to be read before it is attached.
    pub fn needs_file(&self, file_path: &str) -> (yes: bool)
        ensures
            yes == !self@.cache.entries.dom().contains(file_path@),
    {
        self.decode_cache.peek(file_path).is_none()
    }

    /// Attach a decoded source path to a row/media key; `bytes` are what the file holds, where it
    /// was to be read and could be.
    pub fn attach_source(&mut self, media_key: &str, file_path: &str, bytes: Option<&[u8]>)
        ensures
            gif_cache::loaded(
                old(self)@.cache,
                final(self)@.cache,
                file_path@,
                gif_cache::decoded_file(gif_cache::opt_bytes(bytes)),
            ),
            final(self)@.cache.is_valid(),
            final(self)@.rows == old(self)@.rows.insert(
                media_key@,
                RowView {
                    source: Some(file_path@),
                    last_ping_ms: row_or_fresh(old(self)@.rows, media_key@).last_ping_ms,
                    play: not_begun(),
                },
            ),
    {
        let ghost before = self@;
        let _decoded = self.decode_cache.get_or_load(file_path, bytes);
        let last_visibility_ping_ms = match self.rows.get(media_key) {
            Some(row) => row.last_visibility_ping_ms,
            None => None,
        };
        let row = RowPlaybackState {
            source_cache_key: Some(file_path.to_owned()),
            last_visibility_ping_ms,
            play: Playback {
                current_frame_index: 0,
                completed_loops: 0,
                next_frame_due_ms: None,
                is_active: false,
            },
        };
        let ghost view = row@;
        self.rows.insert(media_key.to_owned(), row);
        proof {
            assert(self@.rows =~= before.rows.insert(media_key@, view));
        }
    }

    fn decoded_for(&self, media_key: &str) -> (decoded: Option<&Arc<GifDecodeResult>>)
        ensures
            match decoded {
                Some(decoded) => source_of(self@, media_key@) == Some((**decoded)@),
                None => source_of(self@, media_key@) is None,
            },
    {
        match self.rows.get(media_key) {
            Some(row) => match &row.source_cache_key {
                Some(source) => self.decode_cache.peek(source.as_str()),
                None => None,
            },
            None => None,
        }
    }

    /// Read the current frame to render for a media key.
    pub fn current_frame_for(&self, media_key: &str) -> (frame: Option<Arc<GifImage>>)
        ensures
            match frame {
                Some(frame) => shown_frame(self@, media_key@) == Some((*frame)@),
                None => shown_frame(self@, media_key@) is None,
            },
    {
        let decoded = match self.decoded_for(media_key) {
            Some(decoded) => decoded,
            None => return None,
        };
        match &**decoded {
            GifDecodeResult::Animated { frames, .. } => {
                if frames.len() == 0 {
                    return None;
                }
                let index: usize = match self.rows.get(media_key) {
                    Some(row) => row.play.current_frame_index,
                    None => 0,
                };
                let last: usize = frames.len() - 1;
                Some(gif_cache::share(&frames[if index < last { index } else { last }]))
            },
            GifDecodeResult::StaticFallback { first_frame, .. } => Some(
                gif_cache::share(first_frame),
            ),
            GifDecodeResult::NotGif => None,
        }
    }

    /// Read a static-fallback hint for a media key, if present.
    pub fn hint_for(&self, media_key: &str) -> (hint: Option<String>)
        ensures
            types::opt_chars(hint) == match source_of(self@, media_key@) {
                Some(DecodeView::StaticFallback { reason, .. }) => Some(reason),
                _ => None,
            },
    {
        match self.decoded_for(media_key) {
            Some(decoded) => match &**decoded {
                GifDecodeResult::StaticFallback { reason, .. } => Some(reason.clone()),
                _ => None,
            },
            None => None,
        }
    }
}

impl Default for GifPlaybackController {
    fn default() -> (controller: Self)
        ensures
            controller@.rows == Map::<Seq<char>, RowView>::empty(),
            controller@.cache == (CacheView {
                capacity: DEFAULT_DECODE_CACHE_CAPACITY as nat,
                clock: 0,
                entries: Map::empty(),
            }),
    {
        GifPlaybackController::new()
    }
}

proof fn lemma_rank_is_transitive(
    rows: Map<Seq<char>, RowView>,
    a: Seq<char>,
    b: Seq<char>,
    c: Seq<char>,
)
    requires
        ranks_before(rows, a, b),
        ranks_before(rows, b, c),
    ensures
        ranks_before(rows, a, c),
{
    if text::precedes(a, b) && text::precedes(b, c) {
        text::lemma_precedes_is_transitive(a, b, c);
    }
}

proof fn lemma_rank_is_total(rows: Map<Seq<char>, RowView>, a: Seq<char>, b: Seq<char>)
    requires
        a != b,
    ensures
        ranks_before(rows, a, b) || ranks_before(rows, b, a),
{
    text::lemma_precedes_is_total(a, b);
}

proof fn lemma_rank_is_asymmetric(rows: Map<Seq<char>, RowView>, a: Seq<char>, b: Seq<char>)
    requires
        ranks_before(rows, a, b),
    ensures
        !ranks_before(rows, b, a),
        a != b,
{
    text::lemma_precedes_is_asymmetric(a, b);
    text::lemma_precedes_is_asymmetric(a, a);
}

/// Which rows move, and in which order, is settled by the state and the time.
pub proof fn lemma_active_order_is_unique(
    left: Seq<Seq<char>>,
    right: Seq<Seq<char>>,
    state: ControllerView,
    now_ms: u64,
)
    requires
        is_active_order(left, state, now_ms),
        is_active_order(right, state, now_ms),
    ensures
        left == right,
{
    assert forall|i: int| 0 <= i < left.len() && i < right.len() implies left[i] == right[i] by {
        lemma_orders_agree_at(left, right, state, now_ms, i);
    }
    lemma_no_longer_order(left, right, state, now_ms);
    lemma_no_longer_order(right, left, state, now_ms);
    assert(left =~= right);
}

proof fn lemma_no_longer_order(
    short: Seq<Seq<char>>,
    long: Seq<Seq<char>>,
    state: ControllerView,
    now_ms: u64,
)
    requires
        is_active_order(short, state, now_ms),
        is_active_order(long, state, now_ms),
    ensures
        long.len() <= short.len(),
{
    if short.len() < long.len() {
        let key = long[short.len() as int];
        assert(may_move(state, key, now_ms));
        assert(short.contains(key));
        let i = choose|i: int| 0 <= i < short.len() && short[i] == key;
        lemma_orders_agree_at(short, long, state, now_ms, i);
        assert(long[i] == long[short.len() as int]);
        lemma_rank_is_asymmetric(state.rows, long[i], long[short.len() as int]);
    }
}

proof fn lemma_orders_agree_at(
    left: Seq<Seq<char>>,
    right: Seq<Seq<char>>,
    state: ControllerView,
    now_ms: u64,
    at: int,
)
    requires
        is_active_order(left, state, now_ms),
        is_active_order(right, state, now_ms),
        0 <= at < left.len(),
        at < right.len(),
    ensures
        left[at] == right[at],
    decreases at,
{
    assert forall|i: int| 0 <= i < at implies left[i] == right[i] by {
        lemma_orders_agree_at(left, right, state, now_ms, i);
    }
    let a = left[at];
    let b = right[at];
    if a != b {
        lemma_rank_is_total(state.rows, a, b);
        if ranks_before(state.rows, a, b) {
            lemma_no_better_row(left, right, state, now_ms, at);
        } else {
            lemma_no_better_row(right, left, state, now_ms, at);
        }
    }
}

proof fn lemma_no_better_row(
    left: Seq<Seq<char>>,
    right: Seq<Seq<char>>,
    state: ControllerView,
    now_ms: u64,
    at: int,
)
    requires
        is_active_order(left, state, now_ms),
        is_active_order(right, state, now_ms),
        0 <= at < left.len(),
        at < right.len(),
        forall|i: int| 0 <= i < at ==> left[i] == right[i],
    ensures
        !ranks_before(state.rows, left[at], right[at]),
{
    let a = left[at];
    if ranks_before(state.rows, a, right[at]) {
        assert(may_move(state, a, now_ms));
        if right.contains(a) {
            let i = choose|i: int| 0 <= i < right.len() && right[i] == a;
            if i < at {
                assert(left[i] == a);
                lemma_rank_is_asymmetric(state.rows, left[i], left[at]);
            } else if i > at {
                lemma_rank_is_asymmetric(state.rows, right[at], right[i]);
            } else {
                lemma_rank_is_asymmetric(state.rows, a, right[at]);
            }
        } else {
            assert(ranks_before(state.rows, right.last(), a));
            if at < right.len() - 1 {
                lemma_rank_is_transitive(state.rows, right[at], right.last(), a);
            }
            lemma_rank_is_asymmetric(state.rows, a, right[at]);
        }
    }
}

fn holds(keys: &Vec<String>, key: &str) -> (yes: bool)
    ensures
        yes == names(keys@).contains(key@),
{
    let mut at: usize = 0;
    while at < keys.len()
        invariant
            at <= keys@.len(),
            forall|i: int| 0 <= i < at ==> names(keys@)[i] != key@,
        decreases keys@.len() - at,
    {
        if *keys[at].as_str() == *key {
            proof {
                assert(names(keys@)[at as int] == key@);
            }
            return true;
        }
        at += 1;
    }
    false
}

impl GifPlaybackController {
    fn ping_to_move(&self, media_key: &str, now_ms: u64) -> (ping: Option<u64>)
        ensures
            match ping {
                Some(ping) => may_move(self@, media_key@, now_ms)
                    && self@.rows[media_key@].last_ping_ms == Some(ping),
                None => !may_move(self@, media_key@, now_ms),
            },
    {
        let row = match self.rows.get(media_key) {
            Some(row) => row,
            None => return None,
        };
        let ping: u64 = match row.last_visibility_ping_ms {
            Some(ping) => ping,
            None => return None,
        };
        if now_ms.saturating_sub(ping) > VISIBLE_STALE_TIMEOUT_MS {
            return None;
        }
        match self.decoded_for(media_key) {
            Some(decoded) => match &**decoded {
                GifDecodeResult::Animated { frames, .. } => if frames.len() > 1 {
                    Some(ping)
                } else {
                    None
                },
                _ => None,
            },
            None => None,
        }
    }

    fn is_before(&self, left: &str, left_ping: u64, right: &str) -> (yes: bool)
        requires
            self@.rows.dom().contains(right@),
            self@.rows[left@].last_ping_ms == Some(left_ping),
            self@.rows[right@].last_ping_ms is Some,
        ensures
            yes == ranks_before(self@.rows, left@, right@),
    {
        let right_ping: u64 = match self.rows.get(right) {
            Some(row) => match row.last_visibility_ping_ms {
                Some(ping) => ping,
                None => 0,
            },
            None => 0,
        };
        left_ping > right_ping || left_ping == right_ping && text::comes_before(left, right)
    }

    fn insert_into_order(&self, order: &mut Vec<String>, key: &String, ping: u64, Ghost(keys): Ghost<
        Seq<Seq<char>>,
    >, now_ms: u64)
        requires
            is_order_among(names(old(order)@), self@, keys, now_ms),
            may_move(self@, key@, now_ms),
            self@.rows[key@].last_ping_ms == Some(ping),
            !keys.contains(key@),
        ensures
            is_order_among(names(final(order)@), self@, keys.push(key@), now_ms),
    {
        let ghost earlier = names(order@);
        let mut at: usize = 0;
        while at < order.len() && !self.is_before(key.as_str(), ping, order[at].as_str())
            invariant
                at <= order@.len(),
                names(order@) == earlier,
                is_order_among(earlier, self@, keys, now_ms),
                self@.rows[key@].last_ping_ms == Some(ping),
                forall|i: int| 0 <= i < at ==> !ranks_before(self@.rows, key@, #[trigger] earlier[i]),
                forall|i: int| 0 <= i < order@.len() ==> (#[trigger] order@[i])@ == earlier[i],
            decreases order@.len() - at,
        {
            at += 1;
        }
        order.insert(at, key.clone());
        let ghost grown = names(order@);
        proof {
            assert(grown =~= earlier.insert(at as int, key@));
            lemma_inserted_order(earlier, self@, keys, now_ms, key@, at as int);
        }
        if order.len() > MAX_CONCURRENT_ANIMATED_ROWS {
            let _last = order.pop();
            proof {
                assert(names(order@) =~= grown.drop_last());
            }
        }
    }

    fn active_order(&self, now_ms: u64) -> (order: Vec<String>)
        ensures
            is_active_order(names(order@), self@, now_ms),
    {
        let keys = self.rows.keys();
        let ghost all = self.rows.spec_keys();
        let mut order: Vec<String> = Vec::new();
        let mut at: usize = 0;
        while at < keys.len()
            invariant
                at <= keys@.len(),
                keys@.len() == all.len(),
                forall|i: int| 0 <= i < keys@.len() ==> (#[trigger] keys@[i])@ == all[i],
                all.no_duplicates(),
                is_order_among(names(order@), self@, all.take(at as int), now_ms),
            decreases keys@.len() - at,
        {
            let ghost seen = all.take(at as int);
            proof {
                assert(all.take(at + 1) =~= seen.push(all[at as int]));
                if seen.contains(all[at as int]) {
                    let i = choose|i: int| 0 <= i < seen.len() && seen[i] == all[at as int];
                    assert(all[i] == all[at as int]);
                }
            }
            match self.ping_to_move(keys[at].as_str(), now_ms) {
                Some(ping) => self.insert_into_order(
                    &mut order,
                    &keys[at],
                    ping,
                    Ghost(seen),
                    now_ms,
                ),
                None => {
                    proof {
                        lemma_order_among_more(names(order@), self@, seen, now_ms, all[at as int]);
                    }
                },
            }
            at += 1;
        }
        proof {
            assert(all.take(at as int) =~= all);
            let shown = names(order@);
            assert forall|key: Seq<char>| #[trigger]
                may_move(self@, key, now_ms) && !shown.contains(key) implies shown.len()
                == MAX_CONCURRENT_ANIMATED_ROWS && ranks_before(self@.rows, shown.last(), key) by {
                assert(self.rows@.dom().contains(key));
                assert(all.contains(key));
            }
        }
        order
    }
}

proof fn lemma_order_among_more(
    order: Seq<Seq<char>>,
    state: ControllerView,
    keys: Seq<Seq<char>>,
    now_ms: u64,
    key: Seq<char>,
)
    requires
        is_order_among(order, state, keys, now_ms),
        !may_move(state, key, now_ms),
    ensures
        is_order_among(order, state, keys.push(key), now_ms),
{
    let more = keys.push(key);
    assert forall|i: int| 0 <= i < order.len() implies more.contains(#[trigger] order[i]) by {
        let j = choose|j: int| 0 <= j < keys.len() && keys[j] == order[i];
        assert(more[j] == order[i]);
    }
    assert forall|other: Seq<char>| #[trigger]
        more.contains(other) && may_move(state, other, now_ms) && !order.contains(
            other,
        ) implies order.len() == MAX_CONCURRENT_ANIMATED_ROWS && ranks_before(
        state.rows,
        order.last(),
        other,
    ) by {
        let j = choose|j: int| 0 <= j < more.len() && more[j] == other;
        assert(keys[j] == other);
        assert(keys.contains(other));
    }
}

proof fn lemma_inserted_order(
    earlier: Seq<Seq<char>>,
    state: ControllerView,
    keys: Seq<Seq<char>>,
    now_ms: u64,
    key: Seq<char>,
    at: int,
)
    requires
        is_order_among(earlier, state, keys, now_ms),
        may_move(state, key, now_ms),
        !keys.contains(key),
        0 <= at <= earlier.len(),
        forall|i: int| 0 <= i < at ==> !ranks_before(state.rows, key, #[trigger] earlier[i]),
        at < earlier.len() ==> ranks_before(state.rows, key, earlier[at]),
    ensures
        earlier.insert(at, key).len() <= MAX_CONCURRENT_ANIMATED_ROWS ==> is_order_among(
            earlier.insert(at, key),
            state,
            keys.push(key),
            now_ms,
        ),
        earlier.insert(at, key).len() > MAX_CONCURRENT_ANIMATED_ROWS ==> is_order_among(
            earlier.insert(at, key).drop_last(),
            state,
            keys.push(key),
            now_ms,
        ),
{
    let grown = earlier.insert(at, key);
    let more = keys.push(key);
    assert(more.last() == key);
    assert(more.contains(key));
    assert forall|i: int| 0 <= i < earlier.len() implies more.contains(#[trigger] earlier[i]) by {
        let j = choose|j: int| 0 <= j < keys.len() && keys[j] == earlier[i];
        assert(more[j] == earlier[i]);
    }
    assert forall|i: int| 0 <= i < grown.len() implies more.contains(#[trigger] grown[i])
        && may_move(state, grown[i], now_ms) by {
        if i < at {
            assert(grown[i] == earlier[i]);
        } else if i > at {
            assert(grown[i] == earlier[i - 1]);
        }
    }
    assert forall|i: int, j: int| 0 <= i < j < grown.len() implies ranks_before(
        state.rows,
        #[trigger] grown[i],
        #[trigger] grown[j],
    ) by {
        let a = grown[i];
        let b = grown[j];
        if i == at {
            let first = earlier[at];
            assert(b == earlier[j - 1]);
            if j - 1 > at {
                lemma_rank_is_transitive(state.rows, key, first, b);
            }
        } else if j == at {
            assert(a == earlier[i]);
            if a == key {
                assert(keys.contains(earlier[i]));
            }
            lemma_rank_is_total(state.rows, a, key);
        } else {
            let x = if i < at { i } else { i - 1 };
            let y = if j < at { j } else { j - 1 };
            assert(a == earlier[x]);
            assert(b == earlier[y]);
        }
    }
    let full = grown.len() > MAX_CONCURRENT_ANIMATED_ROWS;
    let kept = if full { grown.drop_last() } else { grown };
    assert forall|other: Seq<char>| #[trigger]
        more.contains(other) && may_move(state, other, now_ms) && !kept.contains(
            other,
        ) implies kept.len() == MAX_CONCURRENT_ANIMATED_ROWS && ranks_before(
        state.rows,
        kept.last(),
        other,
    ) by {
        assert(grown[at] == key);
        if grown.contains(other) {
            let i = choose|i: int| 0 <= i < grown.len() && grown[i] == other;
            assert(full);
            if i < grown.len() - 1 {
                assert(kept[i] == other);
            }
            assert(kept.last() == grown[kept.len() - 1]);
        } else {
            let j = choose|j: int| 0 <= j < more.len() && more[j] == other;
            assert(other != key);
            assert(keys[j] == other);
            assert(keys.contains(other));
            if earlier.contains(other) {
                let i = choose|i: int| 0 <= i < earlier.len() && earlier[i] == other;
                let moved = if i < at { i } else { i + 1 };
                assert(grown[moved] == other);
            }
            assert(earlier.len() == MAX_CONCURRENT_ANIMATED_ROWS);
            assert(ranks_before(state.rows, earlier.last(), other));
            assert(full);
            assert(kept.last() == grown[kept.len() - 1]);
            assert(grown.last() == if at == earlier.len() { key } else { earlier.last() });
            if at == earlier.len() {
                assert(kept.last() == earlier.last());
            } else {
                assert(ranks_before(state.rows, kept.last(), grown.last()));
                lemma_rank_is_transitive(state.rows, kept.last(), earlier.last(), other);
            }
        }
    }
}

spec fn partly_ticked(
    state: ControllerView,
    order: Seq<Seq<char>>,
    done: Seq<Seq<char>>,
    now_ms: u64,
) -> Map<Seq<char>, RowView> {
    Map::new(
        |key: Seq<char>| state.rows.dom().contains(key),
        |key: Seq<char>|
            if order.contains(key) && !done.contains(key) {
                state.rows[key]
            } else {
                ticked_row(state, order, key, now_ms)
            },
    )
}

impl GifPlaybackController {
    fn pause_others(&mut self, order: &Vec<String>, now_ms: u64)
        ensures
            final(self)@.cache == old(self)@.cache,
            final(self)@.rows == partly_ticked(
                old(self)@,
                names(order@),
                Seq::empty(),
                now_ms,
            ),
    {
        let ghost before = self@;
        let ghost shown = names(order@);
        let ghost all = self.rows.spec_keys();
        let count: usize = self.rows.keys().len();
        let mut at: usize = 0;
        proof {
            assert forall|i: int| 0 <= i < all.len() implies before.rows.dom().contains(
                #[trigger] all[i],
            ) by {
                assert(all.contains(all[i]));
            }
        }
        while at < count
            invariant
                at <= count,
                count == all.len(),
                shown == names(order@),
                self.rows.spec_keys() == all,
                self.decode_cache@ == before.cache,
                self@.rows.dom() == before.rows.dom(),
                all.no_duplicates(),
                forall|i: int| 0 <= i < all.len() ==> before.rows.dom().contains(#[trigger] all[i]),
                forall|i: int|
                    0 <= i < all.len() ==> self@.rows[#[trigger] all[i]] == if i < at
                        && !shown.contains(all[i]) {
                        ticked_row(before, shown, all[i], now_ms)
                    } else {
                        before.rows[all[i]]
                    },
            decreases count - at,
        {
            let key = self.rows.key_at(at).clone();
            if !holds(order, key.as_str()) {
                let row = self.rows.value_at(at);
                let still = RowPlaybackState {
                    source_cache_key: types::clone_opt_string(&row.source_cache_key),
                    last_visibility_ping_ms: row.last_visibility_ping_ms,
                    play: Playback { is_active: false, next_frame_due_ms: None, ..row.play },
                };
                let ghost earlier = self@.rows;
                let ghost view = still@;
                proof {
                    assert(view =~= ticked_row(before, shown, all[at as int], now_ms));
                }
                self.rows.insert(key, still);
                proof {
                    assert(self@.rows =~= earlier.insert(all[at as int], view));
                    assert(self@.rows.dom() =~= before.rows.dom());
                }
            }
            at += 1;
        }
        proof {
            assert forall|key: Seq<char>| before.rows.dom().contains(key) implies #[trigger] self@.rows[key]
                == partly_ticked(before, shown, Seq::empty(), now_ms)[key] by {
                assert(all.contains(key));
                let i = choose|i: int| 0 <= i < all.len() && all[i] == key;
                assert(self@.rows[all[i]] == self@.rows[key]);
            }
            assert(self@.rows =~= partly_ticked(before, shown, Seq::empty(), now_ms));
        }
    }
}

impl GifPlaybackController {
    /// Advance animation state and emit changed row frames.
    ///
    /// At the last time that there is, a frame would be due for ever.
    pub fn tick(&mut self, now_ms: u64) -> (updates: Vec<GifFrameUpdate>)
        requires
            now_ms < u64::MAX,
        ensures
            exists|order: Seq<Seq<char>>| #[trigger]
                is_active_order(order, old(self)@, now_ms) && final(self)@ == ticked(
                    old(self)@,
                    order,
                    now_ms,
                ) && update_views(updates@) == order_updates(old(self)@, order, now_ms),
    {
        let ghost before = self@;
        let active = self.active_order(now_ms);
        let ghost order = names(active@);
        self.pause_others(&active, now_ms);
        let mut updates: Vec<GifFrameUpdate> = Vec::new();
        let mut at: usize = 0;
        proof {
            assert(order.take(0) =~= Seq::empty());
            assert(update_views(updates@) =~= Seq::empty());
        }
        while at < active.len()
            invariant
                at <= active@.len(),
                order == names(active@),
                now_ms < u64::MAX,
                is_active_order(order, before, now_ms),
                self@.rows == partly_ticked(before, order, order.take(at as int), now_ms),
                self@.cache == order_touched(before, order.take(at as int)),
                update_views(updates@) == order_updates(before, order.take(at as int), now_ms),
            decreases active@.len() - at,
        {
            let ghost done = order.take(at as int);
            let ghost key = order[at as int];
            let media_key: &String = &active[at];
            proof {
                assert(media_key@ == key);
                assert(order.contains(key));
                assert(may_move(before, key, now_ms));
                assert(order.take(at + 1).drop_last() =~= done);
                assert(order.take(at + 1) =~= done.push(key));
                assert(!done.contains(key)) by {
                    if done.contains(key) {
                        let i = choose|i: int| 0 <= i < done.len() && done[i] == key;
                        assert(order[i] == key);
                        lemma_rank_is_asymmetric(before.rows, order[i], order[at as int]);
                    }
                }
                lemma_touched_keeps_decoded(before, done);
                assert(self@.rows.dom().contains(key));
                assert(self@.rows[key] == before.rows[key]);
                assert(self.rows@.dom().contains(key));
                assert(self.rows@[key]@ == self@.rows[key]);
            }
            let (source, last_visibility_ping_ms, mut play) = match self.rows.get(
                media_key.as_str(),
            ) {
                Some(row) => (
                    types::clone_opt_string(&row.source_cache_key),
                    row.last_visibility_ping_ms,
                    row.play,
                ),
                None => (None, None, Playback {
                    current_frame_index: 0,
                    completed_loops: 0,
                    next_frame_due_ms: None,
                    is_active: false,
                }),
            };
            let found = match &source {
                Some(source) => self.decode_cache.get(source.as_str()),
                None => None,
            };
            proof {
                assert(types::opt_chars(source) == before.rows[key].source);
                assert(play == before.rows[key].play);
                assert(found is Some);
            }
            match found {
                Some(decoded) => match &*decoded {
                    GifDecodeResult::Animated { frames, delays_ms, loop_count } => {
                        let ghost moving = play;
                        let changed = play_row(
                            &mut play,
                            delays_ms.as_slice(),
                            frames.len(),
                            *loop_count,
                            now_ms,
                        );
                        if changed {
                            let ghost earlier = updates@;
                            let update = GifFrameUpdate {
                                media_key: media_key.clone(),
                                frame: gif_cache::share(&frames[play.current_frame_index]),
                            };
                            let ghost view = update@;
                            updates.push(update);
                            proof {
                                assert(update_views(updates@) =~= update_views(earlier).push(view));
                                assert(row_update(before, key, now_ms) == Some(view));
                            }
                        }
                        let row = RowPlaybackState {
                            source_cache_key: source,
                            last_visibility_ping_ms,
                            play,
                        };
                        let ghost earlier = self@.rows;
                        let ghost view = row@;
                        self.rows.insert(media_key.clone(), row);
                        proof {
                            assert(self@.rows =~= earlier.insert(key, view));
                            assert(view =~= ticked_row(before, order, key, now_ms));
                            lemma_one_more_ticked(before, order, done, key, now_ms);
                        }
                    },
                    _ => {},
                },
                None => {},
            }
            at += 1;
        }
        proof {
            assert(order.take(at as int) =~= order);
            assert(self@ =~= ticked(before, order, now_ms));
        }
        updates
    }
}

proof fn lemma_one_more_ticked(
    state: ControllerView,
    order: Seq<Seq<char>>,
    done: Seq<Seq<char>>,
    key: Seq<char>,
    now_ms: u64,
)
    requires
        state.rows.dom().contains(key),
    ensures
        partly_ticked(state, order, done.push(key), now_ms) == partly_ticked(
            state,
            order,
            done,
            now_ms,
        ).insert(key, ticked_row(state, order, key, now_ms)),
{
    let more = done.push(key);
    assert(more.last() == key);
    assert forall|other: Seq<char>| other != key implies more.contains(other) == done.contains(
        other,
    ) by {
        if done.contains(other) {
            let i = choose|i: int| 0 <= i < done.len() && done[i] == other;
            assert(more[i] == other);
        }
        if more.contains(other) {
            let i = choose|i: int| 0 <= i < more.len() && more[i] == other;
            assert(done[i] == other);
        }
    }
    assert(partly_ticked(state, order, more, now_ms) =~= partly_ticked(
        state,
        order,
        done,
        now_ms,
    ).insert(key, ticked_row(state, order, key, now_ms)));
}

/// Using sources changes neither which GIFs are there nor what they are.
proof fn lemma_touched_keeps_decoded(state: ControllerView, order: Seq<Seq<char>>)
    requires
        forall|i: int|
            0 <= i < order.len() ==> source_of(state, #[trigger] order[i]) is Some,
    ensures
        order_touched(state, order).entries.dom() == state.cache.entries.dom(),
        forall|key: Seq<char>| #[trigger]
            state.cache.entries.dom().contains(key) ==> order_touched(
                state,
                order,
            ).entries[key].decoded == state.cache.entries[key].decoded,
    decreases order.len(),
{
    if order.len() > 0 {
        let rest = order.drop_last();
        assert forall|i: int| 0 <= i < rest.len() implies source_of(
            state,
            #[trigger] rest[i],
        ) is Some by {
            assert(rest[i] == order[i]);
        }
        lemma_touched_keeps_decoded(state, rest);
        let last = order[order.len() - 1];
        assert(source_of(state, last) is Some);
        assert(order_touched(state, order).entries.dom() =~= state.cache.entries.dom());
    }
}

/// However many rows are there, no more show another frame in a tick than may move at a time.
pub proof fn lemma_updates_are_bounded(
    state: ControllerView,
    order: Seq<Seq<char>>,
    now_ms: u64,
)
    requires
        is_active_order(order, state, now_ms),
    ensures
        order_updates(state, order, now_ms).len() <= MAX_CONCURRENT_ANIMATED_ROWS,
{
    lemma_updates_up_to(state, order, now_ms);
}

proof fn lemma_updates_up_to(state: ControllerView, order: Seq<Seq<char>>, now_ms: u64)
    ensures
        order_updates(state, order, now_ms).len() <= order.len(),
    decreases order.len(),
{
    if order.len() > 0 {
        lemma_updates_up_to(state, order.drop_last(), now_ms);
    }
}

/// A row that was not seen lately stands still at the frame that it shows.
pub proof fn lemma_unseen_rows_stand_still(
    state: ControllerView,
    order: Seq<Seq<char>>,
    media_key: Seq<char>,
    now_ms: u64,
)
    requires
        is_active_order(order, state, now_ms),
        state.rows.dom().contains(media_key),
        !is_visible(state.rows[media_key], now_ms),
    ensures
        ticked(state, order, now_ms).rows[media_key].play == paused(state.rows[media_key].play),
{
    if order.contains(media_key) {
        let i = choose|i: int| 0 <= i < order.len() && order[i] == media_key;
        assert(may_move(state, order[i], now_ms));
    }
}

/// Catching up ends at a frame that the animation has, with the next one due later.
pub proof fn lemma_caught_up(
    play: Playback,
    due: u64,
    delays_ms: Seq<u64>,
    frame_count: int,
    loop_count: Option<u32>,
    now_ms: u64,
)
    requires
        now_ms < u64::MAX,
        play.current_frame_index < frame_count,
    ensures
        ({
            let after = caught_up(play, due, delays_ms, frame_count, loop_count, now_ms);
            &&& after.is_active == play.is_active
            &&& after.current_frame_index < frame_count
            &&& after.next_frame_due_ms matches Some(next) ==> now_ms < next
        }),
    decreases (if due <= now_ms { now_ms - due + 1 } else { 0 }),
{
    if now_ms >= due {
        match next_frame(play, frame_count, loop_count) {
            Some(next) => lemma_caught_up(
                next,
                saturating_sum(due, delay_at(delays_ms, next.current_frame_index as int)),
                delays_ms,
                frame_count,
                loop_count,
                now_ms,
            ),
            None => {},
        }
    }
}

/// A row that moves shows a frame that its animation has, and the next one is due later.
pub proof fn lemma_moving_rows_are_in_time(
    state: ControllerView,
    order: Seq<Seq<char>>,
    at: int,
    now_ms: u64,
)
    requires
        is_active_order(order, state, now_ms),
        0 <= at < order.len(),
        now_ms < u64::MAX,
    ensures
        ({
            let play = ticked(state, order, now_ms).rows[order[at]].play;
            &&& play.is_active
            &&& source_of(state, order[at]) matches Some(DecodeView::Animated {
                frames,
                delays_ms,
                loop_count,
            }) && play.current_frame_index < frames.len()
            &&& play.next_frame_due_ms matches Some(next) ==> now_ms < next
        }),
{
    let key = order[at];
    assert(may_move(state, key, now_ms));
    assert(order.contains(key));
    match source_of(state, key) {
        Some(DecodeView::Animated { frames, delays_ms, loop_count }) => {
            let begun = started(state.rows[key].play, delays_ms, frames.len() as int, now_ms);
            match begun.next_frame_due_ms {
                Some(due) => lemma_caught_up(
                    begun,
                    due,
                    delays_ms,
                    frames.len() as int,
                    loop_count,
                    now_ms,
                ),
                None => {},
            }
        },
        _ => {},
    }
}

/// A second tick at the same time changes no frame: the same rows move, and none of them shows
/// another frame.
pub proof fn lemma_second_tick_is_quiet(
    state: ControllerView,
    order: Seq<Seq<char>>,
    now_ms: u64,
)
    requires
        is_active_order(order, state, now_ms),
        now_ms < u64::MAX,
    ensures
        is_active_order(order, ticked(state, order, now_ms), now_ms),
        order_updates(ticked(state, order, now_ms), order, now_ms) == Seq::<UpdateView>::empty(),
        ticked(ticked(state, order, now_ms), order, now_ms).rows == ticked(
            state,
            order,
            now_ms,
        ).rows,
{
    let after = ticked(state, order, now_ms);
    assert forall|i: int| 0 <= i < order.len() implies source_of(
        state,
        #[trigger] order[i],
    ) is Some by {
        assert(may_move(state, order[i], now_ms));
    }
    lemma_touched_keeps_decoded(state, order);
    assert forall|key: Seq<char>| state.rows.dom().contains(key) implies #[trigger] source_of(
        after,
        key,
    ) == source_of(state, key) by {}
    assert forall|key: Seq<char>| #[trigger]
        may_move(after, key, now_ms) == may_move(state, key, now_ms) by {
        if state.rows.dom().contains(key) {
            assert(source_of(after, key) == source_of(state, key));
        }
    }
    assert forall|i: int| 0 <= i < order.len() implies may_move(
        after,
        #[trigger] order[i],
        now_ms,
    ) by {
        assert(may_move(state, order[i], now_ms));
    }
    assert forall|i: int, j: int| 0 <= i < j < order.len() implies ranks_before(
        after.rows,
        #[trigger] order[i],
        #[trigger] order[j],
    ) by {
        assert(may_move(state, order[i], now_ms));
        assert(may_move(state, order[j], now_ms));
        assert(ranks_before(state.rows, order[i], order[j]));
    }
    assert forall|key: Seq<char>| #[trigger]
        may_move(after, key, now_ms) && !order.contains(key) implies order.len()
        == MAX_CONCURRENT_ANIMATED_ROWS && ranks_before(after.rows, order.last(), key) by {
        assert(may_move(state, key, now_ms));
        assert(may_move(state, order[order.len() - 1], now_ms));
    }
    assert forall|i: int| 0 <= i < order.len() implies row_update(
        after,
        #[trigger] order[i],
        now_ms,
    ) is None && row_played(after, order[i], now_ms) == after.rows[order[i]].play by {
        lemma_moving_rows_are_in_time(state, order, i, now_ms);
        assert(may_move(after, order[i], now_ms));
        assert(source_of(after, order[i]) == source_of(state, order[i]));
        let play = after.rows[order[i]].play;
        match play.next_frame_due_ms {
            Some(next) => assert(Playback { next_frame_due_ms: Some(next), ..play } == play),
            None => {},
        }
    }
    lemma_quiet_order(after, order, now_ms);
    let twice = ticked(after, order, now_ms);
    assert forall|key: Seq<char>| state.rows.dom().contains(key) implies #[trigger] twice.rows[key]
        == after.rows[key] by {
        if order.contains(key) {
            let i = choose|i: int| 0 <= i < order.len() && order[i] == key;
            assert(row_played(after, order[i], now_ms) == after.rows[order[i]].play);
        }
    }
    assert(twice.rows =~= after.rows);
}

proof fn lemma_quiet_order(state: ControllerView, order: Seq<Seq<char>>, now_ms: u64)
    requires
        forall|i: int|
            0 <= i < order.len() ==> row_update(state, #[trigger] order[i], now_ms) is None,
    ensures
        order_updates(state, order, now_ms) == Seq::<UpdateView>::empty(),
    decreases order.len(),
{
    if order.len() > 0 {
        let rest = order.drop_last();
        assert forall|i: int| 0 <= i < rest.len() implies row_update(
            state,
            #[trigger] rest[i],
            now_ms,
        ) is None by {
            assert(rest[i] == order[i]);
        }
        lemma_quiet_order(state, rest, now_ms);
        assert(order.last() == order[order.len() - 1]);
    }
}

} // verus!
