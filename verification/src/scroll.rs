use vstd::prelude::*;

use crate::danmaku::Danmaku;
use crate::danmaku::MAX_DIM_PX;
use crate::danmaku::MAX_POS_UNITS;
use crate::danmaku::MAX_ROWS_LIMIT;
use crate::danmaku::MAX_SPEED_FACTOR;
use crate::danmaku::MAX_VELOCITY;
use crate::danmaku::POS_UNITS_PER_PX;
use crate::danmaku::ScrollingDanmaku;

verus! {

// ---------------------------------------------------------------------------
// Well-formedness of a single scrolling instance.
// ---------------------------------------------------------------------------

/// A live scrolling instance: it moves (velocity at least one position unit
/// per millisecond-permille), its geometry is bounded, and some part of it is
/// still at or right of the viewport's left edge.
pub open spec fn scroll_inst_wf(i: ScrollingDanmaku) -> bool {
    &&& 1 <= i.velocity <= MAX_VELOCITY
    &&& 0 <= i.width <= MAX_POS_UNITS
    &&& (i.x as int) <= MAX_POS_UNITS as int
    &&& (i.x as int) + (i.width as int) > 0
    &&& i.row < MAX_ROWS_LIMIT
}

pub open spec fn all_insts_wf(s: Seq<ScrollingDanmaku>) -> bool {
    forall|i: int| 0 <= i < s.len() ==> #[trigger] scroll_inst_wf(s[i])
}

// ---------------------------------------------------------------------------
// The lane invariant.
//
// `a` is ahead of `b` in a lane (spawned earlier, further left).  Two facts
// keep them apart for good:
//
//   * they do not overlap now: `a`'s trailing edge is at or left of `b`'s
//     leading edge; and
//   * `b` cannot catch `a` while `a` is still on screen.  Every tick moves an
//     instance by `velocity * d` for a shared factor `d = dt * speed`, so the
//     catch-up point is where `b.x - vb*d` meets `a.x + a.width - va*d`; the
//     product inequality `vb * (a.x + a.width) <= va * b.x` says that this
//     point lies at or beyond the moment `a`'s trailing edge passes the left
//     edge of the screen.  The inequality is preserved exactly by every
//     advance, because both sides drop by `va * vb * d`.
// ---------------------------------------------------------------------------

pub open spec fn ahead_ok(a: ScrollingDanmaku, b: ScrollingDanmaku) -> bool {
    &&& (a.x as int) + (a.width as int) <= (b.x as int)
    &&& (b.velocity as int) * ((a.x as int) + (a.width as int)) <= (a.velocity as int) * (
    b.x as int)
}

/// In every lane, any earlier-spawned instance is safely ahead of any
/// later-spawned one.
pub open spec fn lane_inv(s: Seq<ScrollingDanmaku>) -> bool {
    forall|i: int, j: int| #![trigger s[i], s[j]]
        0 <= i < j < s.len() && s[i].row == s[j].row ==> ahead_ok(s[i], s[j])
}

pub open spec fn scroll_wf(s: Seq<ScrollingDanmaku>) -> bool {
    all_insts_wf(s) && lane_inv(s)
}

/// Being safely ahead is transitive along a lane.
pub proof fn lemma_ahead_ok_trans(a: ScrollingDanmaku, b: ScrollingDanmaku, c: ScrollingDanmaku)
    requires
        scroll_inst_wf(a),
        scroll_inst_wf(b),
        scroll_inst_wf(c),
        ahead_ok(a, b),
        ahead_ok(b, c),
    ensures
        ahead_ok(a, c),
{
    let av = a.velocity as int;
    let bv = b.velocity as int;
    let cv = c.velocity as int;
    let ax = a.x as int;
    let aw = a.width as int;
    let bx = b.x as int;
    let bw = b.width as int;
    let cx = c.x as int;
    assert(ax + aw <= cx);
    assert(cv * (bv * (ax + aw)) <= cv * (av * bx)) by (nonlinear_arith)
        requires
            bv * (ax + aw) <= av * bx,
            cv >= 0,
    ;
    assert(cv * bx <= bv * cx) by (nonlinear_arith)
        requires
            cv * (bx + bw) <= bv * cx,
            cv >= 0,
            bw >= 0,
    ;
    assert(av * (cv * bx) <= av * (bv * cx)) by (nonlinear_arith)
        requires
            cv * bx <= bv * cx,
            av >= 0,
    ;
    assert(bv * (cv * (ax + aw)) <= bv * (av * cx)) by (nonlinear_arith)
        requires
            cv * (bv * (ax + aw)) <= cv * (av * bx),
            av * (cv * bx) <= av * (bv * cx),
    ;
    assert(cv * (ax + aw) <= av * cx) by (nonlinear_arith)
        requires
            bv * (cv * (ax + aw)) <= bv * (av * cx),
            bv >= 1,
    ;
}

// ---------------------------------------------------------------------------
// Advancing and retiring.
// ---------------------------------------------------------------------------

/// Distance an instance travels over `dt` milliseconds at tick-time speed
/// factor `speed` permille, in position units.
pub open spec fn advance_amount(i: ScrollingDanmaku, dt: int, speed: int) -> int {
    (i.velocity as int) * dt * speed
}

/// An instance survives the tick if its trailing edge is still right of the
/// viewport's left edge after moving.
pub open spec fn scroll_survives(i: ScrollingDanmaku, dt: int, speed: int) -> bool {
    (i.x as int) + (i.width as int) - advance_amount(i, dt, speed) > 0
}

pub open spec fn scroll_advanced(i: ScrollingDanmaku, dt: int, speed: int) -> ScrollingDanmaku {
    ScrollingDanmaku {
        danmaku: i.danmaku,
        handle: i.handle,
        x: ((i.x as int) - advance_amount(i, dt, speed)) as i64,
        row: i.row,
        velocity: i.velocity,
        width: i.width,
    }
}

/// One tick over a whole scroll pool: every instance advances by its own
/// velocity times the shared `dt * speed`, and the ones that have fully left
/// the screen are dropped, order otherwise kept.
pub open spec fn advance_scroll_seq(s: Seq<ScrollingDanmaku>, dt: int, speed: int) -> Seq<
    ScrollingDanmaku,
>
    decreases s.len(),
{
    if s.len() == 0 {
        Seq::empty()
    } else {
        let prefix = advance_scroll_seq(s.drop_last(), dt, speed);
        if scroll_survives(s.last(), dt, speed) {
            prefix.push(scroll_advanced(s.last(), dt, speed))
        } else {
            prefix
        }
    }
}

/// A surviving instance's new position stays in machine range, and advancing
/// preserves its well-formedness.
pub proof fn lemma_advanced_in_range(i: ScrollingDanmaku, dt: int, speed: int)
    requires
        scroll_inst_wf(i),
        dt >= 0,
        speed >= 1,
        scroll_survives(i, dt, speed),
    ensures
        advance_amount(i, dt, speed) >= 0,
        (scroll_advanced(i, dt, speed).x as int) == (i.x as int) - advance_amount(i, dt, speed),
        scroll_inst_wf(scroll_advanced(i, dt, speed)),
{
    assert(advance_amount(i, dt, speed) >= 0) by (nonlinear_arith)
        requires
            i.velocity >= 1,
            dt >= 0,
            speed >= 1,
    ;
    assert((i.x as int) - advance_amount(i, dt, speed) > 0 - (i.width as int));
}

/// Advancing both members of a safely-ahead pair by the shared factor keeps
/// the pair safely ahead, as long as both survive.
pub proof fn lemma_advance_preserves_ahead_ok(
    a: ScrollingDanmaku,
    b: ScrollingDanmaku,
    dt: int,
    speed: int,
)
    requires
        scroll_inst_wf(a),
        scroll_inst_wf(b),
        ahead_ok(a, b),
        dt >= 0,
        speed >= 1,
        scroll_survives(a, dt, speed),
        scroll_survives(b, dt, speed),
    ensures
        ahead_ok(scroll_advanced(a, dt, speed), scroll_advanced(b, dt, speed)),
{
    lemma_advanced_in_range(a, dt, speed);
    lemma_advanced_in_range(b, dt, speed);
    let av = a.velocity as int;
    let bv = b.velocity as int;
    let ax = a.x as int;
    let aw = a.width as int;
    let bx = b.x as int;
    assert(advance_amount(a, dt, speed) == av * dt * speed);
    assert(advance_amount(b, dt, speed) == bv * dt * speed);
    assert(bv * ((ax - av * dt * speed) + aw) <= av * (bx - bv * dt * speed)) by (nonlinear_arith)
        requires
            bv * (ax + aw) <= av * bx,
    ;
    if av >= bv {
        assert((ax - av * dt * speed) + aw <= bx - bv * dt * speed) by (nonlinear_arith)
            requires
                ax + aw <= bx,
                av >= bv,
                dt >= 0,
                speed >= 1,
        ;
    } else {
        assert(av * (bx - bv * dt * speed) > 0) by (nonlinear_arith)
            requires
                bv * ((ax - av * dt * speed) + aw) <= av * (bx - bv * dt * speed),
                (ax - av * dt * speed) + aw > 0,
                bv >= 1,
        ;
        assert(bx - bv * dt * speed > 0) by (nonlinear_arith)
            requires
                av * (bx - bv * dt * speed) > 0,
                av >= 1,
        ;
        assert((ax - av * dt * speed) + aw <= bx - bv * dt * speed) by (nonlinear_arith)
            requires
                bv * ((ax - av * dt * speed) + aw) <= av * (bx - bv * dt * speed),
                av <= bv,
                bx - bv * dt * speed > 0,
                bv >= 1,
        ;
    }
}

/// A tick preserves the pool's well-formedness and the lane invariant, and
/// every surviving instance is the advanced image of a surviving original.
pub proof fn lemma_advance_scroll_seq_props(s: Seq<ScrollingDanmaku>, dt: int, speed: int)
    requires
        all_insts_wf(s),
        lane_inv(s),
        dt >= 0,
        speed >= 1,
    ensures
        all_insts_wf(advance_scroll_seq(s, dt, speed)),
        lane_inv(advance_scroll_seq(s, dt, speed)),
        forall|k: int|
            0 <= k < advance_scroll_seq(s, dt, speed).len() ==> exists|k0: int|
                0 <= k0 < s.len() && scroll_survives(s[k0], dt, speed)
                    && #[trigger] advance_scroll_seq(s, dt, speed)[k] == scroll_advanced(
                    s[k0],
                    dt,
                    speed,
                ),
    decreases s.len(),
{
    if s.len() > 0 {
        let p = s.drop_last();
        let e = s.last();
        assert(all_insts_wf(p)) by {
            assert forall|i: int| 0 <= i < p.len() implies #[trigger] scroll_inst_wf(p[i]) by {
                assert(p[i] == s[i]);
            }
        }
        assert(lane_inv(p)) by {
            assert forall|i: int, j: int| #![trigger p[i], p[j]]
                0 <= i < j < p.len() && p[i].row == p[j].row implies ahead_ok(p[i], p[j]) by {
                assert(p[i] == s[i] && p[j] == s[j]);
            }
        }
        lemma_advance_scroll_seq_props(p, dt, speed);
        let rp = advance_scroll_seq(p, dt, speed);
        if scroll_survives(e, dt, speed) {
            assert(scroll_inst_wf(e));
            lemma_advanced_in_range(e, dt, speed);
            let e2 = scroll_advanced(e, dt, speed);
            let r = advance_scroll_seq(s, dt, speed);
            assert(r == rp.push(e2));
            assert forall|i: int|
                0 <= i < rp.len() && rp[i].row == e2.row implies ahead_ok(rp[i], e2) by {
                let k0: int = choose|k0: int|
                    0 <= k0 < p.len() && scroll_survives(p[k0], dt, speed) && #[trigger] rp[i]
                        == scroll_advanced(p[k0], dt, speed);
                assert(p[k0] == s[k0]);
                assert(s[k0].row == e.row);
                assert(s[k0] == s[k0] && s[s.len() - 1] == e);
                assert(ahead_ok(s[k0], e));
                lemma_advance_preserves_ahead_ok(s[k0], e, dt, speed);
            }
            assert forall|i: int, j: int| #![trigger r[i], r[j]]
                0 <= i < j < r.len() && r[i].row == r[j].row implies ahead_ok(r[i], r[j]) by {
                if j < rp.len() {
                    assert(r[i] == rp[i] && r[j] == rp[j]);
                } else {
                    assert(r[j] == e2);
                    assert(r[i] == rp[i]);
                }
            }
            assert forall|i: int| 0 <= i < r.len() implies #[trigger] scroll_inst_wf(r[i]) by {
                if i < rp.len() {
                    assert(r[i] == rp[i]);
                } else {
                    assert(r[i] == e2);
                }
            }
            assert forall|k: int| 0 <= k < r.len() implies exists|k0: int|
                0 <= k0 < s.len() && scroll_survives(s[k0], dt, speed) && #[trigger] r[k]
                    == scroll_advanced(s[k0], dt, speed) by {
                if k < rp.len() {
                    let k0: int = choose|k0: int|
                        0 <= k0 < p.len() && scroll_survives(p[k0], dt, speed) && #[trigger] rp[k]
                            == scroll_advanced(p[k0], dt, speed);
                    assert(p[k0] == s[k0]);
                    assert(r[k] == rp[k]);
                    assert(0 <= k0 < s.len() && scroll_survives(s[k0], dt, speed) && r[k]
                        == scroll_advanced(s[k0], dt, speed));
                } else {
                    assert(r[k] == e2);
                    let k0: int = s.len() - 1;
                    assert(0 <= k0 < s.len() && scroll_survives(s[k0], dt, speed) && r[k]
                        == scroll_advanced(s[k0], dt, speed));
                }
            }
        } else {
            let r = advance_scroll_seq(s, dt, speed);
            assert(r == rp);
            assert forall|k: int| 0 <= k < r.len() implies exists|k0: int|
                0 <= k0 < s.len() && scroll_survives(s[k0], dt, speed) && #[trigger] r[k]
                    == scroll_advanced(s[k0], dt, speed) by {
                let k0: int = choose|k0: int|
                    0 <= k0 < p.len() && scroll_survives(p[k0], dt, speed) && #[trigger] rp[k]
                        == scroll_advanced(p[k0], dt, speed);
                assert(p[k0] == s[k0]);
                assert(0 <= k0 < s.len() && scroll_survives(s[k0], dt, speed) && r[k]
                    == scroll_advanced(s[k0], dt, speed));
            }
        }
    }
}

/// Exact travel distance of one instance over the tick, in position units;
/// `u128` holds the full product without rounding.
fn scroll_move_amount(velocity: u64, dt: u64, speed: u32) -> (m: u128)
    requires
        velocity <= MAX_VELOCITY,
        speed <= MAX_SPEED_FACTOR,
    ensures
        m == (velocity as int) * (dt as int) * (speed as int),
{
    proof {
        assert((velocity as int) * (dt as int) <= 368_934_881_474_191_032_300_000_000_000int)
            by (nonlinear_arith)
            requires
                0 <= velocity <= 20_000_000_000,
                0 <= dt <= 18_446_744_073_709_551_615,
        ;
        assert((velocity as int) * (dt as int) * (speed as int)
            <= 368_934_881_474_191_032_300_000_000_000int * 100_000) by (nonlinear_arith)
            requires
                0 <= (velocity as int) * (dt as int) <= 368_934_881_474_191_032_300_000_000_000int,
                0 <= speed <= 100_000,
        ;
        assert((velocity as int) * (dt as int) >= 0) by (nonlinear_arith)
            requires
                velocity >= 0,
                dt >= 0,
        ;
        assert((velocity as int) * (dt as int) * (speed as int) >= 0) by (nonlinear_arith)
            requires
                (velocity as int) * (dt as int) >= 0,
                speed >= 0,
        ;
    }
    (velocity as u128) * (dt as u128) * (speed as u128)
}

/// Ticks the scroll pool in place: every instance advances by its velocity
/// times the shared `dt * speed`, and instances whose trailing edge has
/// crossed the viewport's left edge retire, freeing their lane implicitly.
pub fn advance_scroll_pool(pool: &mut Vec<ScrollingDanmaku>, dt: u64, speed: u32)
    requires
        scroll_wf(old(pool)@),
        1 <= speed <= MAX_SPEED_FACTOR,
    ensures
        scroll_wf(final(pool)@),
        final(pool)@ == advance_scroll_seq(old(pool)@, dt as int, speed as int),
{
    let ghost p0: Seq<ScrollingDanmaku> = pool@;
    let n = pool.len();
    let mut kept: Vec<ScrollingDanmaku> = Vec::new();
    let mut i: usize = 0;
    proof {
        assert(p0.take(0) =~= Seq::<ScrollingDanmaku>::empty());
        assert(kept@ =~= advance_scroll_seq(p0.take(0), dt as int, speed as int));
    }
    while i < n
        invariant
            i <= n,
            n == p0.len(),
            pool@ == p0,
            all_insts_wf(p0),
            speed <= MAX_SPEED_FACTOR,
            kept@ == advance_scroll_seq(p0.take(i as int), dt as int, speed as int),
        decreases n - i,
    {
        proof {
            assert(p0.take(i + 1).drop_last() =~= p0.take(i as int));
            assert(p0.take(i + 1).last() == p0[i as int]);
            assert(scroll_inst_wf(p0[i as int]));
        }
        let inst = &pool[i];
        let m: u128 = scroll_move_amount(inst.velocity, dt, speed);
        let edge: i64 = inst.x + inst.width;
        if (edge as u128) > m {
            let moved: i64 = m as i64;
            kept.push(
                ScrollingDanmaku {
                    danmaku: inst.danmaku.clone(),
                    handle: inst.handle,
                    x: inst.x - moved,
                    row: inst.row,
                    velocity: inst.velocity,
                    width: inst.width,
                },
            );
            proof {
                assert(scroll_survives(p0[i as int], dt as int, speed as int));
                assert(kept@ =~= advance_scroll_seq(p0.take(i as int), dt as int,
                    speed as int).push(scroll_advanced(p0[i as int], dt as int, speed as int)));
            }
        } else {
            proof {
                assert(!scroll_survives(p0[i as int], dt as int, speed as int));
            }
        }
        i = i + 1;
    }
    proof {
        assert(p0.take(n as int) =~= p0);
    }
    core::mem::swap(pool, &mut kept);
    proof {
        lemma_advance_scroll_seq_props(p0, dt as int, speed as int);
    }
}

// ---------------------------------------------------------------------------
// Lane selection.
// ---------------------------------------------------------------------------

/// Index of the most recently spawned live instance in `row`, or -1 if the
/// lane is empty.  By the lane invariant this is also the instance with the
/// largest `x` in that lane.
pub open spec fn last_idx_in_lane(s: Seq<ScrollingDanmaku>, row: int) -> int
    decreases s.len(),
{
    if s.len() == 0 {
        -1
    } else if (s.last().row as int) == row {
        s.len() - 1
    } else {
        last_idx_in_lane(s.drop_last(), row)
    }
}

pub proof fn lemma_last_idx_in_lane(s: Seq<ScrollingDanmaku>, row: int)
    ensures
        -1 <= last_idx_in_lane(s, row) < s.len(),
        last_idx_in_lane(s, row) == -1 ==> forall|i: int|
            0 <= i < s.len() ==> (#[trigger] s[i].row as int) != row,
        last_idx_in_lane(s, row) >= 0 ==> (s[last_idx_in_lane(s, row)].row as int) == row,
        last_idx_in_lane(s, row) >= 0 ==> forall|j: int|
            last_idx_in_lane(s, row) < j < s.len() ==> (#[trigger] s[j].row as int) != row,
    decreases s.len(),
{
    if s.len() > 0 && (s.last().row as int) != row {
        let p = s.drop_last();
        lemma_last_idx_in_lane(p, row);
        assert forall|i: int|
            last_idx_in_lane(s, row) == -1 && 0 <= i < s.len() implies (
        #[trigger] s[i].row as int) != row by {
            if i < p.len() {
                assert(p[i] == s[i]);
            }
        }
        assert forall|j: int|
            last_idx_in_lane(s, row) >= 0 && last_idx_in_lane(s, row) < j < s.len() implies (
        #[trigger] s[j].row as int) != row by {
            if j < p.len() {
                assert(p[j] == s[j]);
            }
        }
    }
}

/// The acceptance test for a lane: the lane is empty, or its rearmost
/// instance (a) has cleared the spawn column with a spacing margin and
/// (b) will have fully left the screen, spacing included, before the new
/// message's leading edge can reach the left edge.  Velocities and positions
/// compare as the cross products of the two travel times.
pub open spec fn lane_accepts(
    s: Seq<ScrollingDanmaku>,
    row: int,
    velocity: int,
    spawn_x: int,
    spacing: int,
) -> bool {
    let li = last_idx_in_lane(s, row);
    if li < 0 {
        true
    } else {
        let lx = s[li].x as int;
        let lw = s[li].width as int;
        let lv = s[li].velocity as int;
        &&& velocity * (lx + lw + spacing) < lv * spawn_x
        &&& spawn_x > lx + lw + spacing
    }
}

/// First lane in `row..max_rows` that accepts, in ascending order.
pub open spec fn pick_lane_from(
    s: Seq<ScrollingDanmaku>,
    row: int,
    max_rows: int,
    velocity: int,
    spawn_x: int,
    spacing: int,
) -> Option<int>
    decreases max_rows - row,
{
    if row >= max_rows {
        None
    } else if lane_accepts(s, row, velocity, spawn_x, spacing) {
        Some(row)
    } else {
        pick_lane_from(s, row + 1, max_rows, velocity, spawn_x, spacing)
    }
}

/// The lane a newly admitted scrolling message goes to, if any: the first
/// accepting lane in ascending order, every lane checked against its rearmost
/// live instance.
pub open spec fn pick_lane(
    s: Seq<ScrollingDanmaku>,
    max_rows: int,
    velocity: int,
    spawn_x: int,
    spacing: int,
) -> Option<int> {
    pick_lane_from(s, 0, max_rows, velocity, spawn_x, spacing)
}

/// Admitting into an accepting lane keeps the lane invariant: the new
/// instance is safely behind the lane's rearmost instance, and by
/// transitivity behind every other instance of the lane.
pub proof fn lemma_admit_preserves_lane_inv(s: Seq<ScrollingDanmaku>, neu: ScrollingDanmaku, spacing: int)
    requires
        all_insts_wf(s),
        lane_inv(s),
        scroll_inst_wf(neu),
        spacing >= 0,
        lane_accepts(s, neu.row as int, neu.velocity as int, neu.x as int, spacing),
    ensures
        all_insts_wf(s.push(neu)),
        lane_inv(s.push(neu)),
{
    let row = neu.row as int;
    lemma_last_idx_in_lane(s, row);
    let li = last_idx_in_lane(s, row);
    let r = s.push(neu);
    assert forall|i: int| 0 <= i < r.len() implies #[trigger] scroll_inst_wf(r[i]) by {
        if i < s.len() {
            assert(r[i] == s[i]);
        } else {
            assert(r[i] == neu);
        }
    }
    if li >= 0 {
        let l = s[li];
        assert((neu.velocity as int) * ((l.x as int) + (l.width as int)) <= (l.velocity as int) * (
        neu.x as int)) by (nonlinear_arith)
            requires
                (neu.velocity as int) * ((l.x as int) + (l.width as int) + spacing) < (
                l.velocity as int) * (neu.x as int),
                neu.velocity >= 1,
                spacing >= 0,
        ;
        assert(ahead_ok(l, neu));
    }
    assert forall|i: int, j: int| #![trigger r[i], r[j]]
        0 <= i < j < r.len() && r[i].row == r[j].row implies ahead_ok(r[i], r[j]) by {
        if j < s.len() {
            assert(r[i] == s[i] && r[j] == s[j]);
        } else {
            assert(r[j] == neu && r[i] == s[i]);
            assert((s[i].row as int) == row);
            assert(li >= 0);
            let l = s[li];
            if i == li {
                assert(ahead_ok(l, neu));
            } else {
                assert(i < li);
                assert(s[i].row == s[li].row);
                assert(ahead_ok(s[i], l));
                lemma_ahead_ok_trans(s[i], l, neu);
            }
        }
    }
}

// ---------------------------------------------------------------------------
// Admission.
// ---------------------------------------------------------------------------

/// Velocity of a freshly spawned scrolling message, in position units per
/// (millisecond * permille): viewport width plus text width, both in pixels,
/// times the spawn-time speed factor.  This is the crossing-duration formula
/// with the unit scale folded in: at nominal spawn and tick factors the
/// message crosses `vw_px + w_px` pixels in `SCROLL_DURATION_MS`.
pub open spec fn spawn_velocity(vw_px: int, w_px: int, speed: int) -> int {
    (vw_px + w_px) * speed
}

/// The instance created for a freshly chosen lane: spawned at the right edge
/// of the viewport with its fixed velocity.
pub open spec fn mk_scroll_inst(
    danmaku: Danmaku,
    handle: u64,
    vw_px: int,
    w_px: int,
    speed: int,
    row: int,
) -> ScrollingDanmaku {
    ScrollingDanmaku {
        danmaku: danmaku,
        handle: handle,
        x: (vw_px * (POS_UNITS_PER_PX as int)) as i64,
        row: row as usize,
        velocity: spawn_velocity(vw_px, w_px, speed) as u64,
        width: (w_px * (POS_UNITS_PER_PX as int)) as i64,
    }
}

/// The scroll pool after admitting one message: unchanged when the message
/// cannot move (zero-size viewport and zero-width text) or no lane accepts
/// (the message is silently dropped); otherwise the new instance joins the
/// first accepting lane.
pub open spec fn scroll_after_admit(
    s: Seq<ScrollingDanmaku>,
    max_rows: int,
    vw_px: int,
    speed: int,
    spacing_px: int,
    danmaku: Danmaku,
    handle: u64,
    w_px: int,
) -> Seq<ScrollingDanmaku> {
    if spawn_velocity(vw_px, w_px, speed) == 0 {
        s
    } else {
        match pick_lane(
            s,
            max_rows,
            spawn_velocity(vw_px, w_px, speed),
            vw_px * (POS_UNITS_PER_PX as int),
            spacing_px * (POS_UNITS_PER_PX as int),
        ) {
            None => s,
            Some(r) => s.push(mk_scroll_inst(danmaku, handle, vw_px, w_px, speed, r)),
        }
    }
}

/// Places a scrolling message into the first lane it can never collide in,
/// scanning lanes in ascending order; with no such lane the message is
/// silently dropped.
#[verifier::rlimit(80)]
pub fn admit_scroll(
    pool: &mut Vec<ScrollingDanmaku>,
    max_rows: usize,
    viewport_w_px: u32,
    speed: u32,
    spacing_px: u32,
    danmaku: Danmaku,
    handle: u64,
    width_px: u64,
)
    requires
        scroll_wf(old(pool)@),
        viewport_w_px <= MAX_DIM_PX,
        1 <= speed <= MAX_SPEED_FACTOR,
        spacing_px <= MAX_DIM_PX,
        width_px <= MAX_DIM_PX as u64,
        max_rows <= MAX_ROWS_LIMIT,
    ensures
        scroll_wf(final(pool)@),
        final(pool)@ == scroll_after_admit(
            old(pool)@,
            max_rows as int,
            viewport_w_px as int,
            speed as int,
            spacing_px as int,
            danmaku,
            handle,
            width_px as int,
        ),
{
    let ghost p0: Seq<ScrollingDanmaku> = pool@;
    if viewport_w_px == 0 && width_px == 0 {
        proof {
            assert(spawn_velocity(0, 0, speed as int) == 0) by (nonlinear_arith);
        }
        return ;
    }
    let ghost v_spec: int = spawn_velocity(viewport_w_px as int, width_px as int, speed as int);
    proof {
        assert((viewport_w_px as int + width_px as int) * (speed as int) <= 200_000 * 100_000
            && (viewport_w_px as int + width_px as int) * (speed as int) >= (viewport_w_px as int
            + width_px as int)) by (nonlinear_arith)
            requires
                0 <= viewport_w_px as int + width_px as int <= 200_000,
                1 <= speed <= 100_000,
        ;
    }
    let vel64: u64 = (viewport_w_px as u64 + width_px) * (speed as u64);
    proof {
        assert(vel64 == v_spec);
        assert(1 <= v_spec <= MAX_VELOCITY as int);
    }
    let spawn_x: i64 = (viewport_w_px as i64) * POS_UNITS_PER_PX;
    let spacing_u: i64 = (spacing_px as i64) * POS_UNITS_PER_PX;
    let width_u: i64 = (width_px as i64) * POS_UNITS_PER_PX;
    let ghost x0: int = spawn_x as int;
    let ghost sp_u: int = spacing_u as int;
    let n = pool.len();
    let mut row: usize = 0;
    let mut found: bool = false;
    let mut chosen: usize = 0;
    while row < max_rows && !found
        invariant
            row <= max_rows,
            n == p0.len(),
            pool@ == p0,
            scroll_wf(p0),
            x0 == spawn_x as int,
            sp_u == spacing_u as int,
            vel64 as int == v_spec,
            0 <= spawn_x as int <= 800_000_000_000_000,
            0 <= spacing_u as int <= 800_000_000_000_000,
            1 <= vel64 <= 20_000_000_000,
            !found ==> pick_lane(p0, max_rows as int, v_spec, x0, sp_u) == pick_lane_from(
                p0,
                row as int,
                max_rows as int,
                v_spec,
                x0,
                sp_u,
            ),
            found ==> chosen < max_rows && lane_accepts(p0, chosen as int, v_spec, x0, sp_u)
                && pick_lane(p0, max_rows as int, v_spec, x0, sp_u) == Some(chosen as int),
        decreases max_rows - row,
    {
        let mut j: usize = 0;
        let mut has_last: bool = false;
        let mut last_j: usize = 0;
        proof {
            assert(p0.take(0) =~= Seq::<ScrollingDanmaku>::empty());
        }
        while j < n
            invariant
                j <= n,
                n == p0.len(),
                pool@ == p0,
                !has_last ==> last_idx_in_lane(p0.take(j as int), row as int) == -1,
                has_last ==> last_j < j && (p0[last_j as int].row as int) == row as int
                    && last_idx_in_lane(p0.take(j as int), row as int) == last_j as int,
            decreases n - j,
        {
            proof {
                assert(p0.take(j + 1).drop_last() =~= p0.take(j as int));
                assert(p0.take(j + 1).last() == p0[j as int]);
            }
            if pool[j].row == row {
                has_last = true;
                last_j = j;
            }
            j = j + 1;
        }
        proof {
            assert(p0.take(n as int) =~= p0);
        }
        let acc: bool;
        if !has_last {
            acc = true;
            proof {
                assert(lane_accepts(p0, row as int, v_spec, x0, sp_u));
            }
        } else {
            let l = &pool[last_j];
            proof {
                assert(scroll_inst_wf(p0[last_j as int]));
            }
            let tail_edge: i64 = l.x + l.width + spacing_u;
            proof {
                assert((vel64 as int) * (tail_edge as int) <= 20_000_000_000
                    * 2_400_000_000_000_000int && (vel64 as int) * (tail_edge as int)
                    >= 20_000_000_000 * (-800_000_000_000_000int)) by (nonlinear_arith)
                    requires
                        0 <= vel64 as int <= 20_000_000_000,
                        -800_000_000_000_000int <= tail_edge as int <= 2_400_000_000_000_000int,
                ;
                assert((l.velocity as int) * (spawn_x as int) <= 20_000_000_000
                    * 800_000_000_000_000int && (l.velocity as int) * (spawn_x as int) >= 0)
                    by (nonlinear_arith)
                    requires
                        0 <= l.velocity as int <= 20_000_000_000,
                        0 <= spawn_x as int <= 800_000_000_000_000int,
                ;
            }
            let c1: bool = (vel64 as i128) * (tail_edge as i128) < (l.velocity as i128) * (
            spawn_x as i128);
            let c2: bool = spawn_x > tail_edge;
            acc = c1 && c2;
            proof {
                assert(acc == lane_accepts(p0, row as int, v_spec, x0, sp_u));
            }
        }
        if acc {
            found = true;
            chosen = row;
        }
        proof {
            assert(pick_lane_from(p0, row as int, max_rows as int, v_spec, x0, sp_u) == (
            if lane_accepts(p0, row as int, v_spec, x0, sp_u) {
                Some(row as int)
            } else {
                pick_lane_from(p0, row as int + 1, max_rows as int, v_spec, x0, sp_u)
            }));
        }
        row = row + 1;
    }
    if !found {
        proof {
            assert(pick_lane(p0, max_rows as int, v_spec, x0, sp_u) is None);
        }
        return ;
    }
    let neu = ScrollingDanmaku {
        danmaku: danmaku,
        handle: handle,
        x: spawn_x,
        row: chosen,
        velocity: vel64,
        width: width_u,
    };
    proof {
        assert(neu == mk_scroll_inst(
            danmaku,
            handle,
            viewport_w_px as int,
            width_px as int,
            speed as int,
            chosen as int,
        ));
        assert(spawn_x as int + width_u as int > 0) by (nonlinear_arith)
            requires
                spawn_x as int == (viewport_w_px as int) * 8_000_000_000,
                width_u as int == (width_px as int) * 8_000_000_000,
                viewport_w_px as int + width_px as int >= 1,
                viewport_w_px >= 0,
                width_px >= 0,
        ;
        assert(scroll_inst_wf(neu));
        lemma_admit_preserves_lane_inv(p0, neu, sp_u);
    }
    pool.push(neu);
}

// ---------------------------------------------------------------------------
// Law: lanes never show overlapping text.
// ---------------------------------------------------------------------------

/// No two live scrolling instances in the same lane overlap on screen: their
/// horizontal spans are disjoint at every observable state, whatever
/// admissions and speed-factor changes came before.
pub proof fn lemma_no_lane_overlap(s: Seq<ScrollingDanmaku>)
    requires
        lane_inv(s),
    ensures
        forall|i: int, j: int| #![trigger s[i], s[j]]
            0 <= i < s.len() && 0 <= j < s.len() && i != j && s[i].row == s[j].row ==> (
            s[i].x as int) + (s[i].width as int) <= (s[j].x as int) || (s[j].x as int) + (
            s[j].width as int) <= (s[i].x as int),
{
    assert forall|i: int, j: int| #![trigger s[i], s[j]]
        0 <= i < s.len() && 0 <= j < s.len() && i != j && s[i].row == s[j].row implies (
    s[i].x as int) + (s[i].width as int) <= (s[j].x as int) || (s[j].x as int) + (
    s[j].width as int) <= (s[i].x as int) by {
        if i < j {
            assert(ahead_ok(s[i], s[j]));
        } else {
            assert(ahead_ok(s[j], s[i]));
        }
    }
}

} // verus!
