use vstd::prelude::*;

use crate::compose::DrawPrimitive;
use crate::compose::compose_spec;
use crate::danmaku::CenterDanmaku;
use crate::danmaku::Danmaku;
use crate::danmaku::MAX_DIM_PX;
use crate::danmaku::MAX_ROWS_LIMIT;
use crate::danmaku::MAX_SPEED_FACTOR;
use crate::danmaku::ScrollingDanmaku;
use crate::fixed::clear_occupancy;
use crate::fixed::grow_occupancy;
use crate::fixed::keep_rows_below;
use crate::fixed::row_present;
use crate::fixed::shrink_center_pool;
use crate::queue::rest_after;
use crate::render::RendererInner;
use crate::render::UpdateError;
use crate::render::add_text_post;
use crate::render::clamp_dim;
use crate::render::clamp_rows;
use crate::render::clamp_speed;
use crate::render::default_state;
use crate::render::same_config;
use crate::render::update_post;
use crate::sort::sorted_by_start;

verus! {

/// Line height derived from a font size and a row spacing, capped to machine
/// range.
pub open spec fn clamp_line_height(font_size: u32, row_spacing: u32) -> u32 {
    if font_size + row_spacing > MAX_DIM_PX {
        MAX_DIM_PX
    } else {
        (font_size + row_spacing) as u32
    }
}

/// The renderer: the scheduler core behind the embedder-facing interface.
/// All geometry it emits is integer fixed-point; the embedder owns text
/// layout and presentation and talks to the core in plain values.
pub struct Renderer(pub RendererInner);

impl Renderer {
    pub fn new() -> (r: Renderer)
        ensures
            r.0.wf(),
            default_state(&r.0),
    {
        Renderer(RendererInner::new())
    }

    /// Records the drawing surface's size (pixels, capped to machine range).
    pub fn resize(&mut self, width: u32, height: u32)
        requires
            old(self).0.wf(),
        ensures
            final(self).0.wf(),
            final(self).0 == (RendererInner {
                viewport_width: clamp_dim(width),
                viewport_height: clamp_dim(height),
                ..old(self).0
            }),
    {
        self.0.resize(width, height);
    }

    /// Explicit scrub to `time`: every live instance is cleared, all rows
    /// freed, the pending view reset to the messages scheduled after `time`,
    /// and the clock set — so a backward seek never leaves stale or
    /// duplicated content on screen.
    pub fn set_video_time(&mut self, time: u64)
        requires
            old(self).0.wf(),
        ensures
            final(self).0.wf(),
            final(self).0.video_time == time,
            final(self).0.danmaku_queue.master() == old(self).0.danmaku_queue.master(),
            final(self).0.danmaku_queue.pending() == rest_after(
                old(self).0.danmaku_queue.master(),
                time,
            ),
            final(self).0.scroll_danmaku@ == Seq::<ScrollingDanmaku>::empty(),
            final(self).0.top_center_danmaku@ == Seq::<CenterDanmaku>::empty(),
            final(self).0.bottom_center_danmaku@ == Seq::<CenterDanmaku>::empty(),
            final(self).0.top_center_row_occupied@.len() == old(self).0.top_center_row_occupied@.len(),
            forall|r: int|
                0 <= r < final(self).0.top_center_row_occupied@.len() ==> !final(self).0.top_center_row_occupied@[r],
            final(self).0.bottom_center_row_occupied@.len() == old(self).0.bottom_center_row_occupied@.len(),
            forall|r: int|
                0 <= r < final(self).0.bottom_center_row_occupied@.len() ==> !final(self).0.bottom_center_row_occupied@[r],
            same_config(&final(self).0, &old(self).0),
            crate::render::same_rows(&final(self).0, &old(self).0),
    {
        self.0.danmaku_queue.reset_time(time);
        self.clear();
        self.0.video_time = time;
    }

    /// Replaces the message set: sorts it by start time and drains (and
    /// discards) everything due at time zero.  Live instances are not
    /// touched.
    pub fn init(&mut self, danmaku: Vec<Danmaku>)
        requires
            old(self).0.wf(),
        ensures
            final(self).0.wf(),
            sorted_by_start(final(self).0.danmaku_queue.master()),
            final(self).0.danmaku_queue.master().to_multiset() == danmaku@.to_multiset(),
            final(self).0.danmaku_queue.pending() == rest_after(
                final(self).0.danmaku_queue.master(),
                0,
            ),
            final(self).0 == (RendererInner {
                danmaku_queue: final(self).0.danmaku_queue,
                ..old(self).0
            }),
    {
        self.0.danmaku_queue.init(danmaku, 0);
    }

    /// One tick: see `update_post`.
    pub fn update(&mut self, time_millis: u64) -> (result: Result<Vec<Danmaku>, UpdateError>)
        requires
            old(self).0.wf(),
        ensures
            final(self).0.wf(),
            update_post(old(self).0, final(self).0, time_millis, result),
    {
        self.0.update(time_millis)
    }

    /// Places one laid-out message according to its mode: see
    /// `add_text_post`.
    pub fn add_text(&mut self, danmaku: Danmaku, handle: u64, text_width_px: u64)
        requires
            old(self).0.wf(),
        ensures
            final(self).0.wf(),
            add_text_post(old(self).0, final(self).0, danmaku, handle, text_width_px),
    {
        self.0.add_text(danmaku, handle, text_width_px);
    }

    /// Composes the frame's ordered draw list.
    pub fn draw_list(&self) -> (out: Vec<DrawPrimitive>)
        requires
            self.0.wf(),
        ensures
            out@ == compose_spec(
                self.0.scroll_danmaku@,
                self.0.top_center_danmaku@,
                self.0.bottom_center_danmaku@,
                self.0.top_padding as int,
                self.0.line_height as int,
                self.0.viewport_width as int,
                self.0.viewport_height as int,
            ),
    {
        self.0.draw_list()
    }

    pub fn set_font_name(&mut self, font_name: String)
        requires
            old(self).0.wf(),
        ensures
            final(self).0.wf(),
            final(self).0 == (RendererInner { font_name: font_name, ..old(self).0 }),
    {
        self.0.font_name = font_name;
    }

    /// Records the playback rate the embedder reports, permille, kept in
    /// machine range; informational.
    pub fn set_video_speed(&mut self, speed: u32)
        requires
            old(self).0.wf(),
        ensures
            final(self).0.wf(),
            final(self).0 == (RendererInner { video_speed: clamp_speed(speed), ..old(self).0 }),
    {
        self.0.video_speed = if speed < 1 {
            1
        } else if speed > MAX_SPEED_FACTOR {
            MAX_SPEED_FACTOR
        } else {
            speed
        };
    }

    pub fn set_paused(&mut self, paused: bool)
        requires
            old(self).0.wf(),
        ensures
            final(self).0.wf(),
            final(self).0 == (RendererInner { paused: paused, ..old(self).0 }),
    {
        self.0.paused = paused;
    }

    /// Clears all three live pools and frees every row; the queue and the
    /// clock stay as they are.
    pub fn clear(&mut self)
        requires
            old(self).0.wf(),
        ensures
            final(self).0.wf(),
            final(self).0.scroll_danmaku@ == Seq::<ScrollingDanmaku>::empty(),
            final(self).0.top_center_danmaku@ == Seq::<CenterDanmaku>::empty(),
            final(self).0.bottom_center_danmaku@ == Seq::<CenterDanmaku>::empty(),
            final(self).0.top_center_row_occupied@.len() == old(self).0.top_center_row_occupied@.len(),
            forall|r: int|
                0 <= r < final(self).0.top_center_row_occupied@.len() ==> !final(self).0.top_center_row_occupied@[r],
            final(self).0.bottom_center_row_occupied@.len() == old(self).0.bottom_center_row_occupied@.len(),
            forall|r: int|
                0 <= r < final(self).0.bottom_center_row_occupied@.len() ==> !final(self).0.bottom_center_row_occupied@[r],
            final(self).0.danmaku_queue == old(self).0.danmaku_queue,
            final(self).0.video_time == old(self).0.video_time,
            same_config(&final(self).0, &old(self).0),
            crate::render::same_rows(&final(self).0, &old(self).0),
    {
        self.0.scroll_danmaku.clear();
        self.0.top_center_danmaku.clear();
        self.0.bottom_center_danmaku.clear();
        clear_occupancy(&mut self.0.top_center_row_occupied);
        clear_occupancy(&mut self.0.bottom_center_row_occupied);
    }

    /// Sets the speed factor (permille, kept in machine range).  It scales
    /// the velocity given to newly spawned scrolling messages and is applied
    /// again at every tick, so its effect on scrolling speed compounds
    /// quadratically: a factor of 2 scrolls four times as fast.  This is a
    /// deliberate, tested choice between the two readings of the factor.
    pub fn set_speed_factor(&mut self, speed_factor: u32)
        requires
            old(self).0.wf(),
        ensures
            final(self).0.wf(),
            final(self).0 == (RendererInner {
                speed_factor: clamp_speed(speed_factor),
                ..old(self).0
            }),
    {
        self.0.speed_factor = if speed_factor < 1 {
            1
        } else if speed_factor > MAX_SPEED_FACTOR {
            MAX_SPEED_FACTOR
        } else {
            speed_factor
        };
    }

    pub fn set_font_size(&mut self, font_size: u32)
        requires
            old(self).0.wf(),
        ensures
            final(self).0.wf(),
            final(self).0 == (RendererInner { font_size: clamp_dim(font_size), ..old(self).0 }),
    {
        self.0.font_size = if font_size > MAX_DIM_PX {
            MAX_DIM_PX
        } else {
            font_size
        };
    }

    /// Sets the line height to the current font size plus `row_spacing`.
    pub fn set_row_spacing(&mut self, row_spacing: u32)
        requires
            old(self).0.wf(),
        ensures
            final(self).0.wf(),
            final(self).0 == (RendererInner {
                line_height: clamp_line_height(old(self).0.font_size, row_spacing),
                ..old(self).0
            }),
    {
        let sum: u64 = self.0.font_size as u64 + row_spacing as u64;
        self.0.line_height = if sum > MAX_DIM_PX as u64 {
            MAX_DIM_PX
        } else {
            sum as u32
        };
    }

    pub fn set_top_padding(&mut self, top_padding: u32)
        requires
            old(self).0.wf(),
        ensures
            final(self).0.wf(),
            final(self).0 == (RendererInner { top_padding: clamp_dim(top_padding), ..old(self).0 }),
    {
        self.0.top_padding = if top_padding > MAX_DIM_PX {
            MAX_DIM_PX
        } else {
            top_padding
        };
    }

    /// Sets how many lanes scrolling messages may use.  Instances already
    /// placed in higher lanes keep scrolling out on their own.
    pub fn set_max_rows(&mut self, max_rows: usize)
        requires
            old(self).0.wf(),
        ensures
            final(self).0.wf(),
            final(self).0 == (RendererInner {
                scroll_max_rows: clamp_rows(max_rows),
                ..old(self).0
            }),
    {
        self.0.scroll_max_rows = if max_rows > MAX_ROWS_LIMIT {
            MAX_ROWS_LIMIT
        } else {
            max_rows
        };
    }

    /// Resizes the top-center pool.  Shrinking retires the instances whose
    /// rows disappear; growing opens new free rows.
    pub fn set_top_center_max_lines(&mut self, max_lines: usize)
        requires
            old(self).0.wf(),
        ensures
            final(self).0.wf(),
            final(self).0.top_center_max_rows == clamp_rows(max_lines),
            final(self).0.top_center_row_occupied@.len() == clamp_rows(max_lines),
            clamp_rows(max_lines) <= old(self).0.top_center_row_occupied@.len() ==> final(self).0.top_center_danmaku@ == keep_rows_below(
                old(self).0.top_center_danmaku@,
                clamp_rows(max_lines) as int,
            ) && final(self).0.top_center_row_occupied@ == old(self).0.top_center_row_occupied@.take(clamp_rows(max_lines) as int),
            clamp_rows(max_lines) > old(self).0.top_center_row_occupied@.len() ==> final(self).0.top_center_danmaku@ == old(self).0.top_center_danmaku@ && final(self).0.top_center_row_occupied@.take(old(self).0.top_center_row_occupied@.len() as int)
                == old(self).0.top_center_row_occupied@ && (forall|r: int|
                old(self).0.top_center_row_occupied@.len() <= r < clamp_rows(max_lines) ==> !final(self).0.top_center_row_occupied@[r]),
            final(self).0.danmaku_queue == old(self).0.danmaku_queue,
            final(self).0.video_time == old(self).0.video_time,
            final(self).0.scroll_danmaku@ == old(self).0.scroll_danmaku@,
            final(self).0.bottom_center_danmaku@ == old(self).0.bottom_center_danmaku@,
            final(self).0.bottom_center_row_occupied@ == old(self).0.bottom_center_row_occupied@,
            final(self).0.scroll_max_rows == old(self).0.scroll_max_rows,
            final(self).0.bottom_center_max_rows == old(self).0.bottom_center_max_rows,
            same_config(&final(self).0, &old(self).0),
    {
        let m: usize = if max_lines > MAX_ROWS_LIMIT {
            MAX_ROWS_LIMIT
        } else {
            max_lines
        };
        if m <= self.0.top_center_row_occupied.len() {
            shrink_center_pool(&mut self.0.top_center_danmaku, &mut self.0.top_center_row_occupied, m);
        } else {
            grow_occupancy(&mut self.0.top_center_row_occupied, m);
            proof {
                lemma_grown_occupancy_wf(
                    self.0.top_center_danmaku@,
                    old(self).0.top_center_row_occupied@,
                    self.0.top_center_row_occupied@,
                );
            }
        }
        self.0.top_center_max_rows = m;
    }

    /// Resizes the bottom-center pool.  Shrinking retires the instances
    /// whose rows disappear; growing opens new free rows.
    pub fn set_bottom_center_max_lines(&mut self, max_lines: usize)
        requires
            old(self).0.wf(),
        ensures
            final(self).0.wf(),
            final(self).0.bottom_center_max_rows == clamp_rows(max_lines),
            final(self).0.bottom_center_row_occupied@.len() == clamp_rows(max_lines),
            clamp_rows(max_lines) <= old(self).0.bottom_center_row_occupied@.len() ==> final(self).0.bottom_center_danmaku@ == keep_rows_below(
                old(self).0.bottom_center_danmaku@,
                clamp_rows(max_lines) as int,
            ) && final(self).0.bottom_center_row_occupied@ == old(self).0.bottom_center_row_occupied@.take(clamp_rows(max_lines) as int),
            clamp_rows(max_lines) > old(self).0.bottom_center_row_occupied@.len() ==> final(self).0.bottom_center_danmaku@ == old(self).0.bottom_center_danmaku@ && final(self).0.bottom_center_row_occupied@.take(old(self).0.bottom_center_row_occupied@.len() as int)
                == old(self).0.bottom_center_row_occupied@ && (forall|r: int|
                old(self).0.bottom_center_row_occupied@.len() <= r < clamp_rows(max_lines)
                    ==> !final(self).0.bottom_center_row_occupied@[r]),
            final(self).0.danmaku_queue == old(self).0.danmaku_queue,
            final(self).0.video_time == old(self).0.video_time,
            final(self).0.scroll_danmaku@ == old(self).0.scroll_danmaku@,
            final(self).0.top_center_danmaku@ == old(self).0.top_center_danmaku@,
            final(self).0.top_center_row_occupied@ == old(self).0.top_center_row_occupied@,
            final(self).0.scroll_max_rows == old(self).0.scroll_max_rows,
            final(self).0.top_center_max_rows == old(self).0.top_center_max_rows,
            same_config(&final(self).0, &old(self).0),
    {
        let m: usize = if max_lines > MAX_ROWS_LIMIT {
            MAX_ROWS_LIMIT
        } else {
            max_lines
        };
        if m <= self.0.bottom_center_row_occupied.len() {
            shrink_center_pool(
                &mut self.0.bottom_center_danmaku,
                &mut self.0.bottom_center_row_occupied,
                m,
            );
        } else {
            grow_occupancy(&mut self.0.bottom_center_row_occupied, m);
            proof {
                lemma_grown_occupancy_wf(
                    self.0.bottom_center_danmaku@,
                    old(self).0.bottom_center_row_occupied@,
                    self.0.bottom_center_row_occupied@,
                );
            }
        }
        self.0.bottom_center_max_rows = m;
    }
}

/// Extending an occupancy array with free rows preserves the pool invariant.
proof fn lemma_grown_occupancy_wf(pool: Seq<CenterDanmaku>, occ0: Seq<bool>, occ1: Seq<bool>)
    requires
        crate::fixed::fixed_pool_wf(pool, occ0),
        occ0.len() <= occ1.len(),
        occ1.take(occ0.len() as int) == occ0,
        forall|r: int| occ0.len() <= r < occ1.len() ==> !occ1[r],
    ensures
        crate::fixed::fixed_pool_wf(pool, occ1),
{
    assert forall|i: int| 0 <= i < pool.len() implies crate::fixed::center_inst_wf(
        #[trigger] pool[i],
        occ1.len() as int,
    ) && occ1[pool[i].row as int] by {
        assert(crate::fixed::center_inst_wf(pool[i], occ0.len() as int));
        assert(occ0[pool[i].row as int]);
        assert(occ1.take(occ0.len() as int)[pool[i].row as int] == occ1[pool[i].row as int]);
    }
    assert forall|r: int| 0 <= r < occ1.len() && #[trigger] occ1[r] implies row_present(
        pool,
        r,
    ) by {
        if r < occ0.len() {
            assert(occ1.take(occ0.len() as int)[r] == occ1[r]);
            assert(occ0[r]);
        }
    }
}

} // verus!
