//! Scheduler for danmaku: transient text messages rendered over a video
//! frame in sync with a playback clock.  The library owns the logic with
//! real invariants — the time-ordered admission queue, the scroll-lane
//! allocator that keeps messages in a lane from ever overlapping, the
//! fixed-slot pools with their row occupancy, the per-tick update/retire
//! step, and the frame composer — and proves them.  Everything is exact
//! integer arithmetic: times in milliseconds, speed factors in permille,
//! horizontal geometry in sub-pixel position units.  Text shaping and GPU
//! presentation stay with the embedder, which talks to the core in plain
//! values: opaque layout handles, measured pixel widths, and a millipixel
//! draw list per frame.

use vstd::prelude::*;

mod compose;
mod danmaku;
mod fixed;
mod queue;
mod render;
mod renderer;
mod scroll;
mod sort;

pub use compose::DrawPrimitive;
pub use compose::compose_spec;
pub use compose::pos_units_to_millipx;
pub use compose::center_left_millipx;
pub use compose::row_top_px;
pub use compose::scroll_prim;
pub use compose::top_prim;
pub use compose::bottom_prim;
pub use danmaku::Color;
pub use danmaku::Danmaku;
pub use danmaku::DanmakuMode;
pub use danmaku::ScrollingDanmaku;
pub use danmaku::CenterDanmaku;
pub use danmaku::DWELL_TIME_MS;
pub use danmaku::MAX_DIM_PX;
pub use danmaku::MAX_POS_UNITS;
pub use danmaku::MAX_ROWS_LIMIT;
pub use danmaku::MAX_SPEED_FACTOR;
pub use danmaku::MAX_VELOCITY;
pub use danmaku::PERMILLE;
pub use danmaku::POS_UNITS_PER_PX;
pub use danmaku::SCROLL_DURATION_MS;
pub use fixed::advance_center_seq;
pub use fixed::center_survives;
pub use fixed::center_advanced;
pub use fixed::first_free_row;
pub use fixed::fixed_pool_wf;
pub use fixed::keep_rows_below;
pub use fixed::lemma_fixed_row_exclusive;
pub use fixed::mk_center_inst;
pub use fixed::occ_after;
pub use fixed::row_present;
pub use fixed::row_retires;
pub use queue::DanmakuQueue;
pub use render::RendererInner;
pub use render::add_text_post;
pub use render::update_post;
pub use render::fixed_admit_post;
pub use render::same_rows;
pub use render::lemma_renderer_no_overlap;
pub use render::lemma_renderer_fixed_rows_exclusive;
pub use renderer::Renderer;
pub use renderer::clamp_line_height;
pub use render::UpdateError;
pub use render::clamp_dim;
pub use render::clamp_rows;
pub use render::clamp_speed;
pub use render::clamp_width;
pub use render::default_state;
pub use render::same_config;
pub use queue::due_prefix;
pub use queue::first_after;
pub use queue::rest_after;
pub use queue::lemma_drain_exactly_once;
pub use queue::lemma_drain_idempotent;
pub use queue::lemma_pending_is_suffix;
pub use queue::lemma_pending_sorted;
pub use scroll::ahead_ok;
pub use scroll::advance_scroll_seq;
pub use scroll::lane_accepts;
pub use scroll::lane_inv;
pub use scroll::last_idx_in_lane;
pub use scroll::lemma_no_lane_overlap;
pub use scroll::pick_lane;
pub use scroll::scroll_advanced;
pub use scroll::scroll_inst_wf;
pub use scroll::scroll_survives;
pub use scroll::scroll_wf;
pub use sort::SortByTime;
pub use sort::sorted_by_start;

verus! {

/// Initializes a renderer with default configuration: an empty queue, no
/// live messages, and nominal speed.
pub fn init() -> (r: Renderer)
    ensures
        r.0.wf(),
        default_state(&r.0),
{
    Renderer::new()
}

} // verus!
