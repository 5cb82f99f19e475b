use vstd::prelude::*;

use crate::compose::DrawPrimitive;
use crate::compose::center_pool_bounded;
use crate::compose::compose_draw_list;
use crate::compose::compose_spec;
use crate::danmaku::CenterDanmaku;
use crate::danmaku::Danmaku;
use crate::danmaku::DanmakuMode;
use crate::danmaku::MAX_DIM_PX;
use crate::danmaku::MAX_ROWS_LIMIT;
use crate::danmaku::MAX_SPEED_FACTOR;
use crate::danmaku::ScrollingDanmaku;
use crate::fixed::admit_center;
use crate::fixed::advance_center_pool;
use crate::fixed::advance_center_seq;
use crate::fixed::first_free_row;
use crate::fixed::fixed_pool_wf;
use crate::fixed::make_occupancy;
use crate::fixed::mk_center_inst;
use crate::fixed::row_retires;
use crate::queue::DanmakuQueue;
use crate::queue::due_prefix;
use crate::queue::rest_after;
use crate::scroll::admit_scroll;
use crate::scroll::advance_scroll_pool;
use crate::scroll::advance_scroll_seq;
use crate::scroll::scroll_after_admit;
use crate::scroll::scroll_wf;

verus! {

/// A tick was fed a playback time earlier than the one already reached,
/// without an explicit scrub: a caller error, reported rather than absorbed.
#[derive(Clone, Copy, Debug, PartialEq, Eq, Structural)]
pub enum UpdateError {
    NonMonotonicTime,
}

/// Pixel dimensions are capped so that all fixed-point arithmetic stays in
/// machine range.
pub open spec fn clamp_dim(d: u32) -> u32 {
    if d > MAX_DIM_PX {
        MAX_DIM_PX
    } else {
        d
    }
}

/// Measured text widths are capped the same way.
pub open spec fn clamp_width(w: u64) -> u64 {
    if w > MAX_DIM_PX as u64 {
        MAX_DIM_PX as u64
    } else {
        w
    }
}

/// Speed factors are kept in `1..=MAX_SPEED_FACTOR` permille: zero would
/// freeze trajectories the lane scheduler reasons about.
pub open spec fn clamp_speed(s: u32) -> u32 {
    if s < 1 {
        1
    } else if s > MAX_SPEED_FACTOR {
        MAX_SPEED_FACTOR
    } else {
        s
    }
}

/// Row counts are capped so that row geometry stays in machine range.
pub open spec fn clamp_rows(n: usize) -> usize {
    if n > MAX_ROWS_LIMIT {
        MAX_ROWS_LIMIT
    } else {
        n
    }
}

/// The scheduler core: admission queue, the three live pools with their
/// occupancy state, the playback clock, and the runtime configuration.
pub struct RendererInner {
    pub danmaku_queue: DanmakuQueue,
    /// Playback time reached by the last tick, milliseconds.
    pub video_time: u64,
    /// Playback rate reported by the embedder, permille; informational.
    pub video_speed: u32,
    pub paused: bool,
    pub scroll_danmaku: Vec<ScrollingDanmaku>,
    pub scroll_max_rows: usize,
    pub top_center_danmaku: Vec<CenterDanmaku>,
    pub top_center_max_rows: usize,
    pub top_center_row_occupied: Vec<bool>,
    pub bottom_center_danmaku: Vec<CenterDanmaku>,
    pub bottom_center_max_rows: usize,
    pub bottom_center_row_occupied: Vec<bool>,
    /// Pixels.
    pub line_height: u32,
    /// Pixels.
    pub top_padding: u32,
    /// Pixels.
    pub font_size: u32,
    pub font_name: String,
    /// Horizontal lane buffer, pixels.
    pub spacing: u32,
    /// Permille; applied at spawn time and again at tick time, so its
    /// effect on scrolling speed compounds quadratically.  A deliberate,
    /// tested choice: see `set_speed_factor`.
    pub speed_factor: u32,
    /// Pixels.
    pub viewport_width: u32,
    /// Pixels.
    pub viewport_height: u32,
}

/// The configuration fields a tick never touches.
pub open spec fn same_config(a: &RendererInner, b: &RendererInner) -> bool {
    &&& a.paused == b.paused
    &&& a.video_speed == b.video_speed
    &&& a.speed_factor == b.speed_factor
    &&& a.viewport_width == b.viewport_width
    &&& a.viewport_height == b.viewport_height
    &&& a.line_height == b.line_height
    &&& a.top_padding == b.top_padding
    &&& a.font_size == b.font_size
    &&& a.font_name == b.font_name
    &&& a.spacing == b.spacing
}

/// The three row-count limits, which only their own setters change.
pub open spec fn same_rows(a: &RendererInner, b: &RendererInner) -> bool {
    &&& a.scroll_max_rows == b.scroll_max_rows
    &&& a.top_center_max_rows == b.top_center_max_rows
    &&& a.bottom_center_max_rows == b.bottom_center_max_rows
}

/// The state a fresh renderer starts in.
pub open spec fn default_state(r: &RendererInner) -> bool {
    &&& r.danmaku_queue.master() == Seq::<Danmaku>::empty()
    &&& r.danmaku_queue.pending() == Seq::<Danmaku>::empty()
    &&& r.video_time == 0
    &&& r.video_speed == 1000
    &&& !r.paused
    &&& r.scroll_danmaku@ == Seq::<ScrollingDanmaku>::empty()
    &&& r.scroll_max_rows == 20
    &&& r.top_center_danmaku@ == Seq::<CenterDanmaku>::empty()
    &&& r.top_center_max_rows == 10
    &&& r.top_center_row_occupied@.len() == 10
    &&& forall|q: int| 0 <= q < 10 ==> !r.top_center_row_occupied@[q]
    &&& r.bottom_center_danmaku@ == Seq::<CenterDanmaku>::empty()
    &&& r.bottom_center_max_rows == 10
    &&& r.bottom_center_row_occupied@.len() == 10
    &&& forall|q: int| 0 <= q < 10 ==> !r.bottom_center_row_occupied@[q]
    &&& r.line_height == 30
    &&& r.top_padding == 10
    &&& r.font_size == 24
    &&& r.font_name@ == Seq::<char>::empty()
    &&& r.spacing == 20
    &&& r.speed_factor == 1000
    &&& r.viewport_width == 0
    &&& r.viewport_height == 0
}

/// Full effect of placing one laid-out message: by mode, the matching pool
/// either gains the new instance or is unchanged (the silent drop), and
/// nothing else moves.
pub open spec fn add_text_post(
    pre: RendererInner,
    post: RendererInner,
    danmaku: Danmaku,
    handle: u64,
    text_width_px: u64,
) -> bool {
    &&& post.danmaku_queue == pre.danmaku_queue
    &&& post.video_time == pre.video_time
    &&& same_config(&post, &pre)
    &&& same_rows(&post, &pre)
    &&& danmaku.mode == DanmakuMode::Scroll ==> {
        &&& post.scroll_danmaku@ == scroll_after_admit(
            pre.scroll_danmaku@,
            pre.scroll_max_rows as int,
            pre.viewport_width as int,
            pre.speed_factor as int,
            pre.spacing as int,
            danmaku,
            handle,
            clamp_width(text_width_px) as int,
        )
        &&& post.top_center_danmaku@ == pre.top_center_danmaku@
        &&& post.top_center_row_occupied@ == pre.top_center_row_occupied@
        &&& post.bottom_center_danmaku@ == pre.bottom_center_danmaku@
        &&& post.bottom_center_row_occupied@ == pre.bottom_center_row_occupied@
    }
    &&& danmaku.mode == DanmakuMode::TopCenter ==> {
        &&& post.scroll_danmaku@ == pre.scroll_danmaku@
        &&& post.bottom_center_danmaku@ == pre.bottom_center_danmaku@
        &&& post.bottom_center_row_occupied@ == pre.bottom_center_row_occupied@
        &&& fixed_admit_post(
            pre.top_center_danmaku@,
            pre.top_center_row_occupied@,
            post.top_center_danmaku@,
            post.top_center_row_occupied@,
            danmaku,
            handle,
            text_width_px,
        )
    }
    &&& danmaku.mode == DanmakuMode::BottomCenter ==> {
        &&& post.scroll_danmaku@ == pre.scroll_danmaku@
        &&& post.top_center_danmaku@ == pre.top_center_danmaku@
        &&& post.top_center_row_occupied@ == pre.top_center_row_occupied@
        &&& fixed_admit_post(
            pre.bottom_center_danmaku@,
            pre.bottom_center_row_occupied@,
            post.bottom_center_danmaku@,
            post.bottom_center_row_occupied@,
            danmaku,
            handle,
            text_width_px,
        )
    }
}

/// Effect of one fixed-slot admission on a pool and its occupancy array.
pub open spec fn fixed_admit_post(
    pool_pre: Seq<CenterDanmaku>,
    occ_pre: Seq<bool>,
    pool_post: Seq<CenterDanmaku>,
    occ_post: Seq<bool>,
    danmaku: Danmaku,
    handle: u64,
    text_width_px: u64,
) -> bool {
    &&& first_free_row(occ_pre) is None ==> pool_post == pool_pre && occ_post == occ_pre
    &&& first_free_row(occ_pre) is Some ==> occ_post == occ_pre.update(
        first_free_row(occ_pre).unwrap(),
        true,
    ) && pool_post == pool_pre.push(
        mk_center_inst(danmaku, handle, clamp_width(text_width_px), first_free_row(
            occ_pre,
        ).unwrap()),
    )
}

/// No two live scrolling instances of a well-formed renderer that share a
/// lane overlap on screen: their horizontal spans are disjoint.  The
/// invariant is preserved by every operation, whatever admissions,
/// speed-factor changes and ticks came before.
pub proof fn lemma_renderer_no_overlap(r: &RendererInner)
    requires
        r.wf(),
    ensures
        forall|i: int, j: int|
            #![trigger r.scroll_danmaku@[i], r.scroll_danmaku@[j]]
            0 <= i < r.scroll_danmaku@.len() && 0 <= j < r.scroll_danmaku@.len() && i != j
                && r.scroll_danmaku@[i].row == r.scroll_danmaku@[j].row ==> (
            r.scroll_danmaku@[i].x as int) + (r.scroll_danmaku@[i].width as int)
                <= (r.scroll_danmaku@[j].x as int) || (r.scroll_danmaku@[j].x as int) + (
            r.scroll_danmaku@[j].width as int) <= (r.scroll_danmaku@[i].x as int),
{
    crate::scroll::lemma_no_lane_overlap(r.scroll_danmaku@);
}

/// A fixed instance of a well-formed renderer occupies exactly one row for
/// its entire dwell: in each pool no two instances share a row, every live
/// instance's row is marked occupied (so unassignable), and a free row holds
/// no instance at all.
pub proof fn lemma_renderer_fixed_rows_exclusive(r: &RendererInner)
    requires
        r.wf(),
    ensures
        forall|i: int, j: int|
            #![trigger r.top_center_danmaku@[i], r.top_center_danmaku@[j]]
            0 <= i < r.top_center_danmaku@.len() && 0 <= j < r.top_center_danmaku@.len() && i != j
                ==> r.top_center_danmaku@[i].row != r.top_center_danmaku@[j].row,
        forall|i: int|
            0 <= i < r.top_center_danmaku@.len() ==> r.top_center_row_occupied@[(
            #[trigger] r.top_center_danmaku@[i]).row as int],
        forall|i: int, j: int|
            #![trigger r.bottom_center_danmaku@[i], r.bottom_center_danmaku@[j]]
            0 <= i < r.bottom_center_danmaku@.len() && 0 <= j < r.bottom_center_danmaku@.len() && i
                != j ==> r.bottom_center_danmaku@[i].row != r.bottom_center_danmaku@[j].row,
        forall|i: int|
            0 <= i < r.bottom_center_danmaku@.len() ==> r.bottom_center_row_occupied@[(
            #[trigger] r.bottom_center_danmaku@[i]).row as int],
{
    crate::fixed::lemma_fixed_row_exclusive(r.top_center_danmaku@, r.top_center_row_occupied@);
    crate::fixed::lemma_fixed_row_exclusive(
        r.bottom_center_danmaku@,
        r.bottom_center_row_occupied@,
    );
}

/// Full effect of one tick.  A paused renderer is frozen.  A playback time
/// behind the clock without a scrub is reported and changes nothing.
/// Otherwise: the clock catches up, every scrolling instance advances by its
/// own velocity times the elapsed time and the tick-time speed factor,
/// instances fully left of the screen retire, both fixed pools count dwell
/// down and expired instances free their rows in the same step, and the
/// drain returns exactly the pending messages due by the new time, in
/// start-time order.
pub open spec fn update_post(
    pre: RendererInner,
    post: RendererInner,
    time_millis: u64,
    result: Result<Vec<Danmaku>, UpdateError>,
) -> bool {
    &&& pre.paused ==> post == pre && result is Ok && result->Ok_0@ == Seq::<Danmaku>::empty()
    &&& !pre.paused && time_millis < pre.video_time ==> post == pre && result is Err
        && result->Err_0 == UpdateError::NonMonotonicTime
    &&& !pre.paused && time_millis >= pre.video_time ==> {
        &&& result is Ok
        &&& result->Ok_0@ == due_prefix(pre.danmaku_queue.pending(), time_millis)
        &&& post.danmaku_queue.pending() == rest_after(pre.danmaku_queue.pending(), time_millis)
        &&& post.danmaku_queue.master() == pre.danmaku_queue.master()
        &&& post.video_time == time_millis
        &&& post.scroll_danmaku@ == advance_scroll_seq(
            pre.scroll_danmaku@,
            time_millis - pre.video_time,
            pre.speed_factor as int,
        )
        &&& post.top_center_danmaku@ == advance_center_seq(
            pre.top_center_danmaku@,
            time_millis - pre.video_time,
        )
        &&& post.top_center_row_occupied@.len() == pre.top_center_row_occupied@.len()
        &&& forall|r: int|
            0 <= r < post.top_center_row_occupied@.len() ==> post.top_center_row_occupied@[r] == (
            pre.top_center_row_occupied@[r] && !row_retires(
                pre.top_center_danmaku@,
                time_millis - pre.video_time,
                r,
            ))
        &&& post.bottom_center_danmaku@ == advance_center_seq(
            pre.bottom_center_danmaku@,
            time_millis - pre.video_time,
        )
        &&& post.bottom_center_row_occupied@.len() == pre.bottom_center_row_occupied@.len()
        &&& forall|r: int|
            0 <= r < post.bottom_center_row_occupied@.len() ==> post.bottom_center_row_occupied@[r]
                == (pre.bottom_center_row_occupied@[r] && !row_retires(
                pre.bottom_center_danmaku@,
                time_millis - pre.video_time,
                r,
            ))
        &&& same_config(&post, &pre)
        &&& same_rows(&post, &pre)
    }
}

impl RendererInner {
    /// Core invariant: the queue is well formed, all configuration is in
    /// machine range, the scroll pool satisfies the lane invariant, and the
    /// two fixed pools match their occupancy arrays.
    pub open spec fn wf(&self) -> bool {
        &&& self.danmaku_queue.wf()
        &&& 1 <= self.speed_factor <= MAX_SPEED_FACTOR
        &&& 1 <= self.video_speed <= MAX_SPEED_FACTOR
        &&& self.viewport_width <= MAX_DIM_PX
        &&& self.viewport_height <= MAX_DIM_PX
        &&& self.spacing <= MAX_DIM_PX
        &&& self.line_height <= MAX_DIM_PX
        &&& self.top_padding <= MAX_DIM_PX
        &&& self.font_size <= MAX_DIM_PX
        &&& self.scroll_max_rows <= MAX_ROWS_LIMIT
        &&& self.top_center_max_rows <= MAX_ROWS_LIMIT
        &&& self.bottom_center_max_rows <= MAX_ROWS_LIMIT
        &&& self.top_center_row_occupied@.len() == self.top_center_max_rows
        &&& self.bottom_center_row_occupied@.len() == self.bottom_center_max_rows
        &&& scroll_wf(self.scroll_danmaku@)
        &&& fixed_pool_wf(self.top_center_danmaku@, self.top_center_row_occupied@)
        &&& fixed_pool_wf(self.bottom_center_danmaku@, self.bottom_center_row_occupied@)
    }

    /// A fresh scheduler with default configuration, an empty queue and no
    /// live messages.
    pub fn new() -> (r: RendererInner)
        ensures
            r.wf(),
            default_state(&r),
    {
        RendererInner {
            danmaku_queue: DanmakuQueue::new(),
            video_time: 0,
            video_speed: 1000,
            paused: false,
            scroll_danmaku: Vec::new(),
            scroll_max_rows: 20,
            top_center_danmaku: Vec::new(),
            top_center_max_rows: 10,
            top_center_row_occupied: make_occupancy(10),
            bottom_center_danmaku: Vec::new(),
            bottom_center_max_rows: 10,
            bottom_center_row_occupied: make_occupancy(10),
            line_height: 30,
            top_padding: 10,
            font_size: 24,
            font_name: String::new(),
            spacing: 20,
            speed_factor: 1000,
            viewport_width: 0,
            viewport_height: 0,
        }
    }

    /// Places a scrolling message: the first lane where it can never collide
    /// with the message ahead wins; with no such lane it is silently dropped.
    pub fn add_scroll_danmaku(&mut self, handle: u64, text_width_px: u64, danmaku: Danmaku)
        requires
            old(self).wf(),
        ensures
            final(self).wf(),
            final(self).scroll_danmaku@ == scroll_after_admit(
                old(self).scroll_danmaku@,
                old(self).scroll_max_rows as int,
                old(self).viewport_width as int,
                old(self).speed_factor as int,
                old(self).spacing as int,
                danmaku,
                handle,
                clamp_width(text_width_px) as int,
            ),
            final(self).danmaku_queue == old(self).danmaku_queue,
            final(self).video_time == old(self).video_time,
            final(self).top_center_danmaku@ == old(self).top_center_danmaku@,
            final(self).top_center_row_occupied@ == old(self).top_center_row_occupied@,
            final(self).bottom_center_danmaku@ == old(self).bottom_center_danmaku@,
            final(self).bottom_center_row_occupied@ == old(self).bottom_center_row_occupied@,
            same_config(final(self), old(self)),
            same_rows(final(self), old(self)),
    {
        let w: u64 = if text_width_px > MAX_DIM_PX as u64 {
            MAX_DIM_PX as u64
        } else {
            text_width_px
        };
        admit_scroll(
            &mut self.scroll_danmaku,
            self.scroll_max_rows,
            self.viewport_width,
            self.speed_factor,
            self.spacing,
            danmaku,
            handle,
            w,
        );
    }

    /// Places a top-centered message into the lowest free row of the top
    /// pool, with the full dwell; a full pool drops it silently.
    pub fn add_topcenter_danmaku(&mut self, handle: u64, text_width_px: u64, danmaku: Danmaku)
        requires
            old(self).wf(),
        ensures
            final(self).wf(),
            first_free_row(old(self).top_center_row_occupied@) is None ==> final(self).top_center_danmaku@ == old(self).top_center_danmaku@ && final(self).top_center_row_occupied@ == old(self).top_center_row_occupied@,
            first_free_row(old(self).top_center_row_occupied@) is Some ==> final(self).top_center_row_occupied@ == old(self).top_center_row_occupied@.update(
                first_free_row(old(self).top_center_row_occupied@).unwrap(),
                true,
            ) && final(self).top_center_danmaku@ == old(self).top_center_danmaku@.push(
                mk_center_inst(
                    danmaku,
                    handle,
                    clamp_width(text_width_px),
                    first_free_row(old(self).top_center_row_occupied@).unwrap(),
                ),
            ),
            final(self).danmaku_queue == old(self).danmaku_queue,
            final(self).video_time == old(self).video_time,
            final(self).scroll_danmaku@ == old(self).scroll_danmaku@,
            final(self).bottom_center_danmaku@ == old(self).bottom_center_danmaku@,
            final(self).bottom_center_row_occupied@ == old(self).bottom_center_row_occupied@,
            same_config(final(self), old(self)),
            same_rows(final(self), old(self)),
    {
        proof {
            crate::fixed::lemma_first_free_row_bounds(self.top_center_row_occupied@);
        }
        let w: u64 = if text_width_px > MAX_DIM_PX as u64 {
            MAX_DIM_PX as u64
        } else {
            text_width_px
        };
        admit_center(
            &mut self.top_center_danmaku,
            &mut self.top_center_row_occupied,
            danmaku,
            handle,
            w,
        );
    }

    /// Places a bottom-centered message into the lowest free row of the
    /// bottom pool, with the full dwell; a full pool drops it silently.
    pub fn add_bottomcenter_danmaku(&mut self, handle: u64, text_width_px: u64, danmaku: Danmaku)
        requires
            old(self).wf(),
        ensures
            final(self).wf(),
            first_free_row(old(self).bottom_center_row_occupied@) is None ==> final(self).bottom_center_danmaku@ == old(self).bottom_center_danmaku@ && final(self).bottom_center_row_occupied@ == old(self).bottom_center_row_occupied@,
            first_free_row(old(self).bottom_center_row_occupied@) is Some ==> final(self).bottom_center_row_occupied@ == old(self).bottom_center_row_occupied@.update(
                first_free_row(old(self).bottom_center_row_occupied@).unwrap(),
                true,
            ) && final(self).bottom_center_danmaku@ == old(self).bottom_center_danmaku@.push(
                mk_center_inst(
                    danmaku,
                    handle,
                    clamp_width(text_width_px),
                    first_free_row(old(self).bottom_center_row_occupied@).unwrap(),
                ),
            ),
            final(self).danmaku_queue == old(self).danmaku_queue,
            final(self).video_time == old(self).video_time,
            final(self).scroll_danmaku@ == old(self).scroll_danmaku@,
            final(self).top_center_danmaku@ == old(self).top_center_danmaku@,
            final(self).top_center_row_occupied@ == old(self).top_center_row_occupied@,
            same_config(final(self), old(self)),
            same_rows(final(self), old(self)),
    {
        proof {
            crate::fixed::lemma_first_free_row_bounds(self.bottom_center_row_occupied@);
        }
        let w: u64 = if text_width_px > MAX_DIM_PX as u64 {
            MAX_DIM_PX as u64
        } else {
            text_width_px
        };
        admit_center(
            &mut self.bottom_center_danmaku,
            &mut self.bottom_center_row_occupied,
            danmaku,
            handle,
            w,
        );
    }

    /// Places one laid-out message according to its mode.  `handle` names
    /// the laid-out text block in the embedder's arena and `text_width_px`
    /// is its measured width.
    pub fn add_text(&mut self, danmaku: Danmaku, handle: u64, text_width_px: u64)
        requires
            old(self).wf(),
        ensures
            final(self).wf(),
            add_text_post(*old(self), *final(self), danmaku, handle, text_width_px),
    {
        match danmaku.mode {
            DanmakuMode::Scroll => self.add_scroll_danmaku(handle, text_width_px, danmaku),
            DanmakuMode::TopCenter => self.add_topcenter_danmaku(handle, text_width_px, danmaku),
            DanmakuMode::BottomCenter => self.add_bottomcenter_danmaku(
                handle,
                text_width_px,
                danmaku,
            ),
        }
    }

    /// One tick.  A paused renderer does nothing.  A playback time behind
    /// the clock is a caller error and changes nothing.  Otherwise every
    /// live instance advances by the elapsed time, expired and off-screen
    /// instances retire (freeing their rows), and the messages that became
    /// due are returned in start-time order for the caller to lay out and
    /// hand back through `add_text`.  A message admitted that way is placed
    /// against the already-advanced pools — the positions of the tick's own
    /// time — and starts moving with the following tick.
    pub fn update(&mut self, time_millis: u64) -> (result: Result<Vec<Danmaku>, UpdateError>)
        requires
            old(self).wf(),
        ensures
            final(self).wf(),
            update_post(*old(self), *final(self), time_millis, result),
    {
        if self.paused {
            return Result::Ok(Vec::new());
        }
        if time_millis < self.video_time {
            return Result::Err(UpdateError::NonMonotonicTime);
        }
        let dt: u64 = time_millis - self.video_time;
        self.video_time = time_millis;
        advance_scroll_pool(&mut self.scroll_danmaku, dt, self.speed_factor);
        advance_center_pool(&mut self.top_center_danmaku, &mut self.top_center_row_occupied, dt);
        advance_center_pool(
            &mut self.bottom_center_danmaku,
            &mut self.bottom_center_row_occupied,
            dt,
        );
        let popped = self.danmaku_queue.pop_to_time(time_millis);
        Result::Ok(popped)
    }

    /// Records the drawing surface's size; geometry that depends on it is
    /// recomputed at the next composition, never cached.
    pub fn resize(&mut self, width: u32, height: u32)
        requires
            old(self).wf(),
        ensures
            final(self).wf(),
            *final(self) == (RendererInner {
                viewport_width: clamp_dim(width),
                viewport_height: clamp_dim(height),
                ..*old(self)
            }),
    {
        self.viewport_width = if width > MAX_DIM_PX {
            MAX_DIM_PX
        } else {
            width
        };
        self.viewport_height = if height > MAX_DIM_PX {
            MAX_DIM_PX
        } else {
            height
        };
    }

    /// Composes the frame: one ordered list of positioned, colored text
    /// blocks — scrolling instances, then top-centered, then
    /// bottom-centered.
    pub fn draw_list(&self) -> (out: Vec<DrawPrimitive>)
        requires
            self.wf(),
        ensures
            out@ == compose_spec(
                self.scroll_danmaku@,
                self.top_center_danmaku@,
                self.bottom_center_danmaku@,
                self.top_padding as int,
                self.line_height as int,
                self.viewport_width as int,
                self.viewport_height as int,
            ),
    {
        proof {
            assert(center_pool_bounded(self.top_center_danmaku@)) by {
                assert forall|i: int|
                    0 <= i < self.top_center_danmaku@.len() implies (
                #[trigger] self.top_center_danmaku@[i]).row < MAX_ROWS_LIMIT
                    && self.top_center_danmaku@[i].width <= MAX_DIM_PX as u64 by {
                    assert(crate::fixed::center_inst_wf(
                        self.top_center_danmaku@[i],
                        self.top_center_row_occupied@.len() as int,
                    ));
                }
            }
            assert(center_pool_bounded(self.bottom_center_danmaku@)) by {
                assert forall|i: int|
                    0 <= i < self.bottom_center_danmaku@.len() implies (
                #[trigger] self.bottom_center_danmaku@[i]).row < MAX_ROWS_LIMIT
                    && self.bottom_center_danmaku@[i].width <= MAX_DIM_PX as u64 by {
                    assert(crate::fixed::center_inst_wf(
                        self.bottom_center_danmaku@[i],
                        self.bottom_center_row_occupied@.len() as int,
                    ));
                }
            }
        }
        compose_draw_list(
            &self.scroll_danmaku,
            &self.top_center_danmaku,
            &self.bottom_center_danmaku,
            self.top_padding,
            self.line_height,
            self.viewport_width,
            self.viewport_height,
        )
    }
}

} // verus!
