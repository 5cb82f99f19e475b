use vstd::prelude::*;

use crate::danmaku::CenterDanmaku;
use crate::danmaku::Color;
use crate::danmaku::MAX_DIM_PX;
use crate::danmaku::MAX_POS_UNITS;
use crate::danmaku::MAX_ROWS_LIMIT;
use crate::danmaku::POS_UNITS_PER_PX;
use crate::danmaku::ScrollingDanmaku;
use crate::scroll::all_insts_wf;
use crate::scroll::scroll_inst_wf;

verus! {

/// One positioned, colored text block of a composed frame.  Coordinates are
/// millipixels from the viewport's top-left corner; `handle` names the
/// laid-out text block in the embedder's arena.
#[derive(Clone, Copy, Debug, PartialEq, Eq, Structural)]
pub struct DrawPrimitive {
    pub handle: u64,
    /// Left edge, in millipixels.
    pub left: i64,
    /// Top edge, in millipixels.
    pub top: i64,
    pub color: Color,
}

/// Position units to millipixels, truncating toward zero.
pub open spec fn pos_units_to_millipx(x: int) -> int {
    if x >= 0 {
        (x * 1000) / (POS_UNITS_PER_PX as int)
    } else {
        -(((-x) * 1000) / (POS_UNITS_PER_PX as int))
    }
}

fn to_millipx(x: i64) -> (r: i64)
    requires
        -MAX_POS_UNITS <= x <= MAX_POS_UNITS,
    ensures
        r as int == pos_units_to_millipx(x as int),
{
    if x >= 0 {
        (((x as u64) * 1000) / 8_000_000_000u64) as i64
    } else {
        let mag: u64 = (-x) as u64;
        -(((mag * 1000) / 8_000_000_000u64) as i64)
    }
}

/// Top edge of a row counted from the viewport's top: padding plus row times
/// line height, in pixels.
pub open spec fn row_top_px(row: int, top_padding: int, line_height: int) -> int {
    top_padding + row * line_height
}

/// Left edge of a centered block: half the width difference, in millipixels
/// (negative when the text is wider than the viewport).
pub open spec fn center_left_millipx(vw_px: int, w_px: int) -> int {
    (vw_px - w_px) * 500
}

pub open spec fn scroll_prim(i: ScrollingDanmaku, top_padding: int, line_height: int)
    -> DrawPrimitive {
    DrawPrimitive {
        handle: i.handle,
        left: pos_units_to_millipx(i.x as int) as i64,
        top: (row_top_px(i.row as int, top_padding, line_height) * 1000) as i64,
        color: i.danmaku.color,
    }
}

pub open spec fn top_prim(i: CenterDanmaku, top_padding: int, line_height: int, vw_px: int)
    -> DrawPrimitive {
    DrawPrimitive {
        handle: i.handle,
        left: center_left_millipx(vw_px, i.width as int) as i64,
        top: (row_top_px(i.row as int, top_padding, line_height) * 1000) as i64,
        color: i.danmaku.color,
    }
}

pub open spec fn bottom_prim(
    i: CenterDanmaku,
    top_padding: int,
    line_height: int,
    vw_px: int,
    vh_px: int,
) -> DrawPrimitive {
    DrawPrimitive {
        handle: i.handle,
        left: center_left_millipx(vw_px, i.width as int) as i64,
        top: ((vh_px - top_padding - ((i.row as int) + 1) * line_height) * 1000) as i64,
        color: i.danmaku.color,
    }
}

pub open spec fn scroll_prims(s: Seq<ScrollingDanmaku>, top_padding: int, line_height: int)
    -> Seq<DrawPrimitive> {
    Seq::new(s.len(), |k: int| scroll_prim(s[k], top_padding, line_height))
}

pub open spec fn top_prims(s: Seq<CenterDanmaku>, top_padding: int, line_height: int, vw_px: int)
    -> Seq<DrawPrimitive> {
    Seq::new(s.len(), |k: int| top_prim(s[k], top_padding, line_height, vw_px))
}

pub open spec fn bottom_prims(
    s: Seq<CenterDanmaku>,
    top_padding: int,
    line_height: int,
    vw_px: int,
    vh_px: int,
) -> Seq<DrawPrimitive> {
    Seq::new(s.len(), |k: int| bottom_prim(s[k], top_padding, line_height, vw_px, vh_px))
}

/// The composed frame: scrolling instances first, then the top-center pool,
/// then the bottom-center pool, each in pool order.  Centered blocks take
/// their left edge from the current viewport width, so a resize re-centers
/// them with no stored state touched.
pub open spec fn compose_spec(
    scroll: Seq<ScrollingDanmaku>,
    top: Seq<CenterDanmaku>,
    bottom: Seq<CenterDanmaku>,
    top_padding: int,
    line_height: int,
    vw_px: int,
    vh_px: int,
) -> Seq<DrawPrimitive> {
    scroll_prims(scroll, top_padding, line_height) + top_prims(top, top_padding, line_height, vw_px)
        + bottom_prims(bottom, top_padding, line_height, vw_px, vh_px)
}

/// Geometry bounds a fixed pool must satisfy for composition; the renderer's
/// invariant supplies them.
pub open spec fn center_pool_bounded(s: Seq<CenterDanmaku>) -> bool {
    forall|i: int|
        0 <= i < s.len() ==> (#[trigger] s[i]).row < MAX_ROWS_LIMIT && s[i].width <= MAX_DIM_PX
            as u64
}

/// Builds the ordered draw list for one frame.
pub fn compose_draw_list(
    scroll: &Vec<ScrollingDanmaku>,
    top: &Vec<CenterDanmaku>,
    bottom: &Vec<CenterDanmaku>,
    top_padding: u32,
    line_height: u32,
    vw_px: u32,
    vh_px: u32,
) -> (out: Vec<DrawPrimitive>)
    requires
        all_insts_wf(scroll@),
        center_pool_bounded(top@),
        center_pool_bounded(bottom@),
        top_padding <= MAX_DIM_PX,
        line_height <= MAX_DIM_PX,
        vw_px <= MAX_DIM_PX,
        vh_px <= MAX_DIM_PX,
    ensures
        out@ == compose_spec(
            scroll@,
            top@,
            bottom@,
            top_padding as int,
            line_height as int,
            vw_px as int,
            vh_px as int,
        ),
{
    let ghost tp: int = top_padding as int;
    let ghost lh: int = line_height as int;
    let mut out: Vec<DrawPrimitive> = Vec::new();
    let mut i: usize = 0;
    let n_s = scroll.len();
    proof {
        assert(out@ =~= scroll_prims(scroll@.take(0), tp, lh));
    }
    while i < n_s
        invariant
            i <= n_s,
            n_s == scroll@.len(),
            all_insts_wf(scroll@),
            top_padding <= MAX_DIM_PX,
            line_height <= MAX_DIM_PX,
            tp == top_padding as int,
            lh == line_height as int,
            out@ == scroll_prims(scroll@.take(i as int), tp, lh),
        decreases n_s - i,
    {
        let inst = &scroll[i];
        proof {
            assert(scroll_inst_wf(scroll@[i as int]));
            assert((inst.row as int) * (line_height as int) <= 100_000 * 100_000
                && (inst.row as int) * (line_height as int) >= 0) by (nonlinear_arith)
                requires
                    0 <= inst.row as int <= 100_000,
                    0 <= line_height as int <= 100_000,
            ;
        }
        let left = to_millipx(inst.x);
        let top_px: i64 = (top_padding as i64) + (inst.row as i64) * (line_height as i64);
        out.push(
            DrawPrimitive {
                handle: inst.handle,
                left: left,
                top: top_px * 1000,
                color: inst.danmaku.color,
            },
        );
        proof {
            assert(out@ =~= scroll_prims(scroll@.take(i + 1), tp, lh)) by {
                assert(out@.last() == scroll_prim(scroll@[i as int], tp, lh));
                assert forall|k: int| 0 <= k < out@.len() implies out@[k] == scroll_prims(
                    scroll@.take(i + 1),
                    tp,
                    lh,
                )[k] by {
                    if k < i as int {
                        assert(out@[k] == scroll_prims(scroll@.take(i as int), tp, lh)[k]);
                    }
                }
            }
        }
        i = i + 1;
    }
    proof {
        assert(scroll@.take(n_s as int) =~= scroll@);
    }
    let ghost scroll_part: Seq<DrawPrimitive> = out@;
    let n_t = top.len();
    let mut j: usize = 0;
    while j < n_t
        invariant
            j <= n_t,
            n_t == top@.len(),
            center_pool_bounded(top@),
            top_padding <= MAX_DIM_PX,
            line_height <= MAX_DIM_PX,
            vw_px <= MAX_DIM_PX,
            tp == top_padding as int,
            lh == line_height as int,
            out@ == scroll_part + top_prims(top@.take(j as int), tp, lh, vw_px as int),
        decreases n_t - j,
    {
        let inst = &top[j];
        proof {
            assert(top@[j as int].row < MAX_ROWS_LIMIT);
            assert((inst.row as int) * (line_height as int) <= 100_000 * 100_000
                && (inst.row as int) * (line_height as int) >= 0) by (nonlinear_arith)
                requires
                    0 <= inst.row as int <= 100_000,
                    0 <= line_height as int <= 100_000,
            ;
        }
        let left: i64 = ((vw_px as i64) - (inst.width as i64)) * 500;
        let top_px: i64 = (top_padding as i64) + (inst.row as i64) * (line_height as i64);
        out.push(
            DrawPrimitive {
                handle: inst.handle,
                left: left,
                top: top_px * 1000,
                color: inst.danmaku.color,
            },
        );
        proof {
            assert(out@ =~= scroll_part + top_prims(top@.take(j + 1), tp, lh, vw_px as int)) by {
                assert(out@.last() == top_prim(top@[j as int], tp, lh, vw_px as int));
                assert forall|k: int| 0 <= k < out@.len() implies out@[k] == (scroll_part
                    + top_prims(top@.take(j + 1), tp, lh, vw_px as int))[k] by {
                    if k < out@.len() - 1 {
                        assert(out@[k] == (scroll_part + top_prims(top@.take(j as int), tp, lh,
                            vw_px as int))[k]);
                    }
                }
            }
        }
        j = j + 1;
    }
    proof {
        assert(top@.take(n_t as int) =~= top@);
    }
    let ghost top_part: Seq<DrawPrimitive> = out@;
    let n_b = bottom.len();
    let mut k: usize = 0;
    while k < n_b
        invariant
            k <= n_b,
            n_b == bottom@.len(),
            center_pool_bounded(bottom@),
            top_padding <= MAX_DIM_PX,
            line_height <= MAX_DIM_PX,
            vw_px <= MAX_DIM_PX,
            vh_px <= MAX_DIM_PX,
            tp == top_padding as int,
            lh == line_height as int,
            out@ == top_part + bottom_prims(
                bottom@.take(k as int),
                tp,
                lh,
                vw_px as int,
                vh_px as int,
            ),
        decreases n_b - k,
    {
        let inst = &bottom[k];
        proof {
            assert(bottom@[k as int].row < MAX_ROWS_LIMIT);
            assert(((inst.row as int) + 1) * (line_height as int) <= 100_001 * 100_000 && ((
            inst.row as int) + 1) * (line_height as int) >= 0) by (nonlinear_arith)
                requires
                    1 <= (inst.row as int) + 1 <= 100_001,
                    0 <= line_height as int <= 100_000,
            ;
        }
        let left: i64 = ((vw_px as i64) - (inst.width as i64)) * 500;
        let top_px: i64 = (vh_px as i64) - (top_padding as i64) - ((inst.row as i64) + 1) * (
        line_height as i64);
        out.push(
            DrawPrimitive {
                handle: inst.handle,
                left: left,
                top: top_px * 1000,
                color: inst.danmaku.color,
            },
        );
        proof {
            assert(out@ =~= top_part + bottom_prims(bottom@.take(k + 1), tp, lh, vw_px as int,
                vh_px as int)) by {
                assert(out@.last() == bottom_prim(bottom@[k as int], tp, lh, vw_px as int,
                    vh_px as int));
                assert forall|m: int| 0 <= m < out@.len() implies out@[m] == (top_part
                    + bottom_prims(bottom@.take(k + 1), tp, lh, vw_px as int, vh_px as int))[m] by {
                    if m < out@.len() - 1 {
                        assert(out@[m] == (top_part + bottom_prims(bottom@.take(k as int), tp, lh,
                            vw_px as int, vh_px as int))[m]);
                    }
                }
            }
        }
        k = k + 1;
    }
    proof {
        assert(bottom@.take(n_b as int) =~= bottom@);
        assert(out@ =~= compose_spec(scroll@, top@, bottom@, tp, lh, vw_px as int, vh_px as int));
    }
    out
}

} // verus!
