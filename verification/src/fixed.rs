use vstd::prelude::*;

use crate::danmaku::CenterDanmaku;
use crate::danmaku::Danmaku;
use crate::danmaku::DWELL_TIME_MS;
use crate::danmaku::MAX_DIM_PX;

verus! {

// ---------------------------------------------------------------------------
// Well-formedness of a fixed pool (top-center or bottom-center).
// ---------------------------------------------------------------------------

/// A live fixed instance: its row is inside the occupancy array, it has
/// dwell time left, and its measured width is bounded.
pub open spec fn center_inst_wf(i: CenterDanmaku, rows: int) -> bool {
    &&& (i.row as int) < rows
    &&& i.remaining_time >= 1
    &&& i.width <= MAX_DIM_PX as u64
}

/// Some live instance of the pool sits in row `r`.
pub open spec fn row_present(pool: Seq<CenterDanmaku>, r: int) -> bool {
    exists|i: int| 0 <= i < pool.len() && (#[trigger] pool[i].row as int) == r
}

/// Pool invariant: every instance is well formed and sits in a row marked
/// occupied, no two instances share a row, and every occupied row holds an
/// instance.
pub open spec fn fixed_pool_wf(pool: Seq<CenterDanmaku>, occ: Seq<bool>) -> bool {
    &&& forall|i: int| 0 <= i < pool.len() ==> center_inst_wf(#[trigger] pool[i], occ.len() as int)
    &&& forall|i: int| 0 <= i < pool.len() ==> occ[#[trigger] pool[i].row as int]
    &&& forall|i: int, j: int| #![trigger pool[i], pool[j]]
        0 <= i < j < pool.len() ==> pool[i].row != pool[j].row
    &&& forall|r: int| 0 <= r < occ.len() && #[trigger] occ[r] ==> row_present(pool, r)
}

// ---------------------------------------------------------------------------
// Slot allocation.
// ---------------------------------------------------------------------------

/// Lowest-indexed free entry of the occupancy array, if any.
pub open spec fn first_free_row(occ: Seq<bool>) -> Option<int>
    decreases occ.len(),
{
    if occ.len() == 0 {
        None
    } else if !occ[0] {
        Some(0)
    } else {
        match first_free_row(occ.drop_first()) {
            None => None,
            Some(r) => Some(1 + r),
        }
    }
}

pub proof fn lemma_first_free_row_is(occ: Seq<bool>, k: int)
    requires
        0 <= k <= occ.len(),
        forall|q: int| 0 <= q < k ==> occ[q],
        k < occ.len() ==> !occ[k],
    ensures
        k == occ.len() ==> first_free_row(occ) is None,
        k < occ.len() ==> first_free_row(occ) == Some(k),
    decreases occ.len(),
{
    if occ.len() > 0 && occ[0] {
        assert(k != 0);
        assert forall|q: int| 0 <= q < k - 1 implies occ.drop_first()[q] by {
            assert(occ[q + 1]);
        }
        lemma_first_free_row_is(occ.drop_first(), k - 1);
    }
}

pub proof fn lemma_first_free_row_bounds(occ: Seq<bool>)
    ensures
        first_free_row(occ) is Some ==> 0 <= first_free_row(occ).unwrap() < occ.len() && !occ[
            first_free_row(occ).unwrap()
        ],
        first_free_row(occ) is None ==> forall|q: int| 0 <= q < occ.len() ==> occ[q],
    decreases occ.len(),
{
    if occ.len() > 0 && occ[0] {
        lemma_first_free_row_bounds(occ.drop_first());
        if first_free_row(occ) is None {
            assert forall|q: int| 0 <= q < occ.len() implies occ[q] by {
                if q > 0 {
                    assert(occ.drop_first()[q - 1]);
                }
            }
        }
    }
}

/// The instance created for a freshly allocated fixed slot: full dwell,
/// measured width, the assigned row.
pub open spec fn mk_center_inst(danmaku: Danmaku, handle: u64, width_px: u64, row: int)
    -> CenterDanmaku {
    CenterDanmaku {
        danmaku: danmaku,
        handle: handle,
        width: width_px,
        row: row as usize,
        remaining_time: DWELL_TIME_MS,
    }
}

/// Places a message into the pool's lowest free row, marking it occupied; a
/// full pool drops the message silently and changes nothing.
pub fn admit_center(
    pool: &mut Vec<CenterDanmaku>,
    occ: &mut Vec<bool>,
    danmaku: Danmaku,
    handle: u64,
    width_px: u64,
)
    requires
        fixed_pool_wf(old(pool)@, old(occ)@),
        width_px <= MAX_DIM_PX as u64,
    ensures
        fixed_pool_wf(final(pool)@, final(occ)@),
        first_free_row(old(occ)@) is None ==> final(pool)@ == old(pool)@ && final(occ)@ == old(
            occ,
        )@,
        first_free_row(old(occ)@) is Some ==> final(occ)@ == old(occ)@.update(
            first_free_row(old(occ)@).unwrap(),
            true,
        ) && final(pool)@ == old(pool)@.push(
            mk_center_inst(danmaku, handle, width_px, first_free_row(old(occ)@).unwrap()),
        ),
{
    let n = occ.len();
    let mut r: usize = 0;
    while r < n && occ[r]
        invariant
            r <= n,
            n == occ@.len(),
            occ@ == old(occ)@,
            pool@ == old(pool)@,
            forall|q: int| 0 <= q < r ==> occ@[q],
        decreases n - r,
    {
        r = r + 1;
    }
    proof {
        lemma_first_free_row_is(occ@, r as int);
    }
    if r == n {
        return ;
    }
    let slot = &mut occ[r];
    *slot = true;
    pool.push(
        CenterDanmaku {
            danmaku: danmaku,
            handle: handle,
            width: width_px,
            row: r,
            remaining_time: DWELL_TIME_MS,
        },
    );
    proof {
        let p0 = old(pool)@;
        let o0 = old(occ)@;
        let neu = mk_center_inst(danmaku, handle, width_px, r as int);
        assert(occ@ =~= o0.update(r as int, true));
        assert(pool@ =~= p0.push(neu));
        assert forall|i: int|
            0 <= i < pool@.len() implies center_inst_wf(#[trigger] pool@[i], occ@.len() as int)
            && occ@[pool@[i].row as int] by {
            if i < p0.len() {
                assert(pool@[i] == p0[i]);
            } else {
                assert(pool@[i] == neu);
            }
        }
        assert forall|i: int, j: int| #![trigger pool@[i], pool@[j]]
            0 <= i < j < pool@.len() implies pool@[i].row != pool@[j].row by {
            if j < p0.len() {
                assert(pool@[i] == p0[i] && pool@[j] == p0[j]);
            } else {
                assert(pool@[j] == neu && pool@[i] == p0[i]);
                assert(o0[p0[i].row as int]);
            }
        }
        assert forall|q: int| 0 <= q < occ@.len() && #[trigger] occ@[q] implies row_present(
            pool@,
            q,
        ) by {
            if q == r as int {
                assert((pool@[p0.len() as int].row as int) == q);
            } else {
                assert(o0[q]);
                let i: int = choose|i: int| 0 <= i < p0.len() && (#[trigger] p0[i].row as int) == q;
                assert((pool@[i].row as int) == q);
            }
        }
    }
}

// ---------------------------------------------------------------------------
// Dwell countdown and retirement.
// ---------------------------------------------------------------------------

/// A fixed instance survives the tick if it has dwell time left after `dt`.
pub open spec fn center_survives(i: CenterDanmaku, dt: int) -> bool {
    (i.remaining_time as int) > dt
}

pub open spec fn center_advanced(i: CenterDanmaku, dt: int) -> CenterDanmaku {
    CenterDanmaku {
        danmaku: i.danmaku,
        handle: i.handle,
        width: i.width,
        row: i.row,
        remaining_time: ((i.remaining_time as int) - dt) as u64,
    }
}

/// One tick over a fixed pool: dwell shrinks by `dt`, expired instances are
/// dropped, order otherwise kept.
pub open spec fn advance_center_seq(s: Seq<CenterDanmaku>, dt: int) -> Seq<CenterDanmaku>
    decreases s.len(),
{
    if s.len() == 0 {
        Seq::empty()
    } else {
        let prefix = advance_center_seq(s.drop_last(), dt);
        if center_survives(s.last(), dt) {
            prefix.push(center_advanced(s.last(), dt))
        } else {
            prefix
        }
    }
}

/// Row `r` loses its instance this tick.
pub open spec fn row_retires(pool: Seq<CenterDanmaku>, dt: int, r: int) -> bool {
    exists|i: int|
        0 <= i < pool.len() && (#[trigger] pool[i].row as int) == r && !center_survives(pool[i], dt)
}

/// Ticks a pool in place: dwell counts down, expired instances leave and
/// their rows are cleared in the occupancy array, in the same step.
#[verifier::rlimit(60)]
pub fn advance_center_pool(pool: &mut Vec<CenterDanmaku>, occ: &mut Vec<bool>, dt: u64)
    requires
        fixed_pool_wf(old(pool)@, old(occ)@),
    ensures
        fixed_pool_wf(final(pool)@, final(occ)@),
        final(pool)@ == advance_center_seq(old(pool)@, dt as int),
        final(occ)@.len() == old(occ)@.len(),
        forall|r: int|
            0 <= r < final(occ)@.len() ==> final(occ)@[r] == (old(occ)@[r] && !row_retires(
                old(pool)@,
                dt as int,
                r,
            )),
{
    let ghost p0: Seq<CenterDanmaku> = pool@;
    let ghost o0: Seq<bool> = occ@;
    let n = pool.len();
    let mut kept: Vec<CenterDanmaku> = Vec::new();
    let mut i: usize = 0;
    proof {
        assert(p0.take(0) =~= Seq::<CenterDanmaku>::empty());
        assert(kept@ =~= advance_center_seq(p0.take(0), dt as int));
    }
    while i < n
        invariant
            i <= n,
            n == p0.len(),
            pool@ == p0,
            occ@.len() == o0.len(),
            fixed_pool_wf(p0, o0),
            kept@ == advance_center_seq(p0.take(i as int), dt as int),
            forall|r: int|
                0 <= r < occ@.len() ==> occ@[r] == (o0[r] && !row_retires(
                    p0.take(i as int),
                    dt as int,
                    r,
                )),
        decreases n - i,
    {
        let ghost occ_pre: Seq<bool> = occ@;
        let inst = &pool[i];
        proof {
            assert(p0.take(i + 1).drop_last() =~= p0.take(i as int));
            assert(p0.take(i + 1).last() == p0[i as int]);
        }
        if inst.remaining_time > dt {
            kept.push(
                CenterDanmaku {
                    danmaku: inst.danmaku.clone(),
                    handle: inst.handle,
                    width: inst.width,
                    row: inst.row,
                    remaining_time: inst.remaining_time - dt,
                },
            );
            proof {
                assert(kept@ =~= advance_center_seq(p0.take(i as int), dt as int).push(
                    center_advanced(p0[i as int], dt as int),
                ));
                assert forall|r: int| 0 <= r < occ@.len() implies occ@[r] == (o0[r]
                    && !row_retires(p0.take(i + 1), dt as int, r)) by {
                    lemma_row_retires_step(p0, i as int, dt as int, r);
                }
            }
        } else {
            let row = inst.row;
            let slot = &mut occ[row];
            *slot = false;
            proof {
                assert(occ@ =~= occ_pre.update(row as int, false));
                assert forall|r: int| 0 <= r < occ@.len() implies occ@[r] == (o0[r]
                    && !row_retires(p0.take(i + 1), dt as int, r)) by {
                    lemma_row_retires_step(p0, i as int, dt as int, r);
                    if r == row as int {
                        assert(row_retires(p0.take(i + 1), dt as int, r));
                    }
                }
            }
        }
        i = i + 1;
    }
    proof {
        assert(p0.take(n as int) =~= p0);
    }
    core::mem::swap(pool, &mut kept);
    proof {
        lemma_advance_center_seq_props(p0, o0, dt as int);
        assert(occ@ =~= occ_after(o0, p0, dt as int));
    }
}

/// The occupancy array after a tick: occupied and not retiring this tick.
pub open spec fn occ_after(occ: Seq<bool>, pool: Seq<CenterDanmaku>, dt: int) -> Seq<bool> {
    Seq::new(occ.len(), |r: int| occ[r] && !row_retires(pool, dt, r))
}

proof fn lemma_row_retires_step(pool: Seq<CenterDanmaku>, i: int, dt: int, r: int)
    requires
        0 <= i < pool.len(),
    ensures
        row_retires(pool.take(i + 1), dt, r) <==> (row_retires(pool.take(i), dt, r) || ((
        pool[i].row as int) == r && !center_survives(pool[i], dt))),
{
    let a = pool.take(i);
    let b = pool.take(i + 1);
    if row_retires(b, dt, r) {
        let m: int = choose|m: int|
            0 <= m < b.len() && (#[trigger] b[m].row as int) == r && !center_survives(b[m], dt);
        if m < i {
            assert(a[m] == b[m]);
            assert(row_retires(a, dt, r));
        } else {
            assert(b[m] == pool[i]);
        }
    }
    if row_retires(a, dt, r) {
        let m: int = choose|m: int|
            0 <= m < a.len() && (#[trigger] a[m].row as int) == r && !center_survives(a[m], dt);
        assert(b[m] == a[m]);
        assert(row_retires(b, dt, r));
    }
    if (pool[i].row as int) == r && !center_survives(pool[i], dt) {
        assert((b[i].row as int) == r && !center_survives(b[i], dt));
        assert(row_retires(b, dt, r));
    }
}

/// A tick preserves the pool invariant against the cleared occupancy array,
/// and keeps exactly the advanced images of the surviving instances.
pub proof fn lemma_advance_center_seq_props(s: Seq<CenterDanmaku>, occ: Seq<bool>, dt: int)
    requires
        fixed_pool_wf(s, occ),
        dt >= 0,
    ensures
        fixed_pool_wf(advance_center_seq(s, dt), occ_after(occ, s, dt)),
        forall|k: int|
            0 <= k < advance_center_seq(s, dt).len() ==> exists|k0: int|
                0 <= k0 < s.len() && center_survives(s[k0], dt)
                    && #[trigger] advance_center_seq(s, dt)[k] == center_advanced(s[k0], dt),
        forall|k0: int|
            0 <= k0 < s.len() && center_survives(#[trigger] s[k0], dt) ==> row_present(
                advance_center_seq(s, dt),
                s[k0].row as int,
            ),
{
    let r = advance_center_seq(s, dt);
    let o2 = occ_after(occ, s, dt);
    lemma_advance_center_elems(s, dt);
    assert forall|k: int| 0 <= k < r.len() implies center_inst_wf(#[trigger] r[k], o2.len() as int)
        && o2[r[k].row as int] by {
        let k0: int = choose|k0: int|
            0 <= k0 < s.len() && center_survives(s[k0], dt) && #[trigger] r[k] == center_advanced(
                s[k0],
                dt,
            );
        assert(center_inst_wf(s[k0], occ.len() as int));
        assert(occ[s[k0].row as int]);
        assert forall|m: int|
            0 <= m < s.len() && (#[trigger] s[m].row as int) == (s[k0].row as int) implies
            center_survives(s[m], dt) by {
            if m < k0 {
                assert(s[m].row != s[k0].row);
            } else if m > k0 {
                assert(s[k0].row != s[m].row);
            }
        }
        assert(!row_retires(s, dt, s[k0].row as int));
    }
    assert forall|i: int, j: int| #![trigger r[i], r[j]]
        0 <= i < j < r.len() implies r[i].row != r[j].row by {
        lemma_advance_center_distinct(s, dt, i, j);
    }
    assert forall|q: int| 0 <= q < o2.len() && #[trigger] o2[q] implies row_present(r, q) by {
        assert(occ[q]);
        let i: int = choose|i: int| 0 <= i < s.len() && (#[trigger] s[i].row as int) == q;
        assert(center_survives(s[i], dt));
        assert(row_present(r, q));
    }
}

proof fn lemma_advance_center_elems(s: Seq<CenterDanmaku>, dt: int)
    ensures
        forall|k: int|
            0 <= k < advance_center_seq(s, dt).len() ==> exists|k0: int|
                0 <= k0 < s.len() && center_survives(s[k0], dt)
                    && #[trigger] advance_center_seq(s, dt)[k] == center_advanced(s[k0], dt),
        forall|k0: int|
            0 <= k0 < s.len() && center_survives(#[trigger] s[k0], dt) ==> row_present(
                advance_center_seq(s, dt),
                s[k0].row as int,
            ),
    decreases s.len(),
{
    if s.len() > 0 {
        let p = s.drop_last();
        let e = s.last();
        lemma_advance_center_elems(p, dt);
        let rp = advance_center_seq(p, dt);
        let r = advance_center_seq(s, dt);
        assert forall|k: int| 0 <= k < r.len() implies exists|k0: int|
            0 <= k0 < s.len() && center_survives(s[k0], dt) && #[trigger] r[k] == center_advanced(
                s[k0],
                dt,
            ) by {
            if k < rp.len() {
                let k0: int = choose|k0: int|
                    0 <= k0 < p.len() && center_survives(p[k0], dt) && #[trigger] rp[k]
                        == center_advanced(p[k0], dt);
                assert(p[k0] == s[k0]);
                assert(r[k] == rp[k]);
                assert(0 <= k0 < s.len() && center_survives(s[k0], dt) && r[k] == center_advanced(
                    s[k0],
                    dt,
                ));
            } else {
                assert(center_survives(e, dt) && r[k] == center_advanced(e, dt));
                let k0: int = s.len() - 1;
                assert(0 <= k0 < s.len() && center_survives(s[k0], dt) && r[k] == center_advanced(
                    s[k0],
                    dt,
                ));
            }
        }
        assert forall|k0: int|
            0 <= k0 < s.len() && center_survives(#[trigger] s[k0], dt) implies row_present(
            r,
            s[k0].row as int,
        ) by {
            if k0 < p.len() {
                assert(p[k0] == s[k0]);
                assert(row_present(rp, p[k0].row as int));
                let m: int = choose|m: int|
                    0 <= m < rp.len() && (#[trigger] rp[m].row as int) == (p[k0].row as int);
                assert(r[m] == rp[m]);
                assert((r[m].row as int) == (s[k0].row as int));
            } else {
                assert(center_survives(e, dt));
                assert((r[r.len() - 1].row as int) == (e.row as int));
            }
        }
    }
}

proof fn lemma_advance_center_distinct(s: Seq<CenterDanmaku>, dt: int, i: int, j: int)
    requires
        forall|a: int, b: int| #![trigger s[a], s[b]] 0 <= a < b < s.len() ==> s[a].row != s[b].row,
        0 <= i < j < advance_center_seq(s, dt).len(),
    ensures
        advance_center_seq(s, dt)[i].row != advance_center_seq(s, dt)[j].row,
    decreases s.len(),
{
    let p = s.drop_last();
    let e = s.last();
    let rp = advance_center_seq(p, dt);
    let r = advance_center_seq(s, dt);
    assert(s.len() > 0);
    assert forall|a: int, b: int| #![trigger p[a], p[b]]
        0 <= a < b < p.len() implies p[a].row != p[b].row by {
        assert(p[a] == s[a] && p[b] == s[b]);
    }
    if center_survives(e, dt) && j == r.len() - 1 {
        lemma_advance_center_elems(p, dt);
        let k0: int = choose|k0: int|
            0 <= k0 < p.len() && center_survives(p[k0], dt) && #[trigger] rp[i] == center_advanced(
                p[k0],
                dt,
            );
        assert(r[i] == rp[i]);
        assert(p[k0] == s[k0]);
        assert(s[k0].row != e.row);
    } else {
        assert(r[i] == rp[i] && r[j] == rp[j]);
        lemma_advance_center_distinct(p, dt, i, j);
    }
}

// ---------------------------------------------------------------------------
// Shrinking a pool when its row count is reconfigured.
// ---------------------------------------------------------------------------

/// The instances whose rows survive a shrink to `rows` rows, order kept.
pub open spec fn keep_rows_below(pool: Seq<CenterDanmaku>, rows: int) -> Seq<CenterDanmaku>
    decreases pool.len(),
{
    if pool.len() == 0 {
        Seq::empty()
    } else {
        let prefix = keep_rows_below(pool.drop_last(), rows);
        if (pool.last().row as int) < rows {
            prefix.push(pool.last())
        } else {
            prefix
        }
    }
}

/// Cuts a pool down to `new_rows` rows: instances in removed rows retire at
/// once, the occupancy array keeps its prefix.
pub fn shrink_center_pool(pool: &mut Vec<CenterDanmaku>, occ: &mut Vec<bool>, new_rows: usize)
    requires
        fixed_pool_wf(old(pool)@, old(occ)@),
        new_rows <= old(occ)@.len(),
    ensures
        fixed_pool_wf(final(pool)@, final(occ)@),
        final(pool)@ == keep_rows_below(old(pool)@, new_rows as int),
        final(occ)@ == old(occ)@.take(new_rows as int),
{
    let ghost p0: Seq<CenterDanmaku> = pool@;
    let ghost o0: Seq<bool> = occ@;
    let n = pool.len();
    let mut kept: Vec<CenterDanmaku> = Vec::new();
    let mut i: usize = 0;
    proof {
        assert(p0.take(0) =~= Seq::<CenterDanmaku>::empty());
        assert(kept@ =~= keep_rows_below(p0.take(0), new_rows as int));
    }
    while i < n
        invariant
            i <= n,
            n == p0.len(),
            pool@ == p0,
            kept@ == keep_rows_below(p0.take(i as int), new_rows as int),
        decreases n - i,
    {
        let inst = &pool[i];
        proof {
            assert(p0.take(i + 1).drop_last() =~= p0.take(i as int));
            assert(p0.take(i + 1).last() == p0[i as int]);
        }
        if inst.row < new_rows {
            kept.push(inst.clone());
            proof {
                assert(kept@ =~= keep_rows_below(p0.take(i as int), new_rows as int).push(
                    p0[i as int],
                ));
            }
        }
        i = i + 1;
    }
    proof {
        assert(p0.take(n as int) =~= p0);
    }
    core::mem::swap(pool, &mut kept);
    occ.truncate(new_rows);
    proof {
        lemma_keep_rows_below_props(p0, new_rows as int);
        let r = keep_rows_below(p0, new_rows as int);
        assert forall|k: int| 0 <= k < r.len() implies center_inst_wf(#[trigger] r[k],
            occ@.len() as int) && occ@[r[k].row as int] by {
            let k0: int = choose|k0: int|
                0 <= k0 < p0.len() && (p0[k0].row as int) < new_rows as int && #[trigger] r[k]
                    == p0[k0];
            assert(center_inst_wf(p0[k0], o0.len() as int));
            assert(o0[p0[k0].row as int]);
        }
        assert forall|q: int| 0 <= q < occ@.len() && #[trigger] occ@[q] implies row_present(
            r,
            q,
        ) by {
            assert(o0[q]);
            let i0: int = choose|i0: int| 0 <= i0 < p0.len() && (#[trigger] p0[i0].row as int) == q;
            assert(row_present(r, q));
        }
    }
}

proof fn lemma_keep_rows_below_props(s: Seq<CenterDanmaku>, rows: int)
    requires
        forall|a: int, b: int| #![trigger s[a], s[b]] 0 <= a < b < s.len() ==> s[a].row != s[b].row,
    ensures
        forall|k: int|
            0 <= k < keep_rows_below(s, rows).len() ==> exists|k0: int|
                0 <= k0 < s.len() && (s[k0].row as int) < rows && #[trigger] keep_rows_below(
                    s,
                    rows,
                )[k] == s[k0],
        forall|k0: int|
            0 <= k0 < s.len() && ((#[trigger] s[k0].row as int) < rows) ==> row_present(
                keep_rows_below(s, rows),
                s[k0].row as int,
            ),
        forall|i: int, j: int| #![trigger keep_rows_below(s, rows)[i], keep_rows_below(s, rows)[j]]
            0 <= i < j < keep_rows_below(s, rows).len() ==> keep_rows_below(s, rows)[i].row
                != keep_rows_below(s, rows)[j].row,
    decreases s.len(),
{
    if s.len() > 0 {
        let p = s.drop_last();
        let e = s.last();
        assert forall|a: int, b: int| #![trigger p[a], p[b]]
            0 <= a < b < p.len() implies p[a].row != p[b].row by {
            assert(p[a] == s[a] && p[b] == s[b]);
        }
        lemma_keep_rows_below_props(p, rows);
        let rp = keep_rows_below(p, rows);
        let r = keep_rows_below(s, rows);
        assert forall|k: int| 0 <= k < r.len() implies exists|k0: int|
            0 <= k0 < s.len() && (s[k0].row as int) < rows && #[trigger] r[k] == s[k0] by {
            if k < rp.len() {
                let k0: int = choose|k0: int|
                    0 <= k0 < p.len() && (p[k0].row as int) < rows && #[trigger] rp[k] == p[k0];
                assert(p[k0] == s[k0]);
                assert(r[k] == rp[k]);
                assert(0 <= k0 < s.len() && (s[k0].row as int) < rows && r[k] == s[k0]);
            } else {
                assert(r[k] == e);
                let k0: int = s.len() - 1;
                assert(0 <= k0 < s.len() && (s[k0].row as int) < rows && r[k] == s[k0]);
            }
        }
        assert forall|k0: int|
            0 <= k0 < s.len() && ((#[trigger] s[k0].row as int) < rows) implies row_present(
            r,
            s[k0].row as int,
        ) by {
            if k0 < p.len() {
                assert(p[k0] == s[k0]);
                assert(row_present(rp, p[k0].row as int));
                let m: int = choose|m: int|
                    0 <= m < rp.len() && (#[trigger] rp[m].row as int) == (p[k0].row as int);
                assert(r[m] == rp[m]);
                assert((r[m].row as int) == (s[k0].row as int));
            } else {
                assert((r[r.len() - 1].row as int) == (e.row as int));
            }
        }
        assert forall|i: int, j: int| #![trigger r[i], r[j]]
            0 <= i < j < r.len() implies r[i].row != r[j].row by {
            if (e.row as int) < rows && j == r.len() - 1 {
                let k0: int = choose|k0: int|
                    0 <= k0 < p.len() && (p[k0].row as int) < rows && #[trigger] rp[i] == p[k0];
                assert(r[i] == rp[i]);
                assert(p[k0] == s[k0]);
                assert(s[k0].row != e.row);
            } else {
                assert(r[i] == rp[i] && r[j] == rp[j]);
            }
        }
    }
}

// ---------------------------------------------------------------------------
// Occupancy array maintenance.
// ---------------------------------------------------------------------------

/// A fresh occupancy array: `rows` entries, all free.
pub fn make_occupancy(rows: usize) -> (occ: Vec<bool>)
    ensures
        occ@.len() == rows,
        forall|r: int| 0 <= r < rows ==> !occ@[r],
{
    let mut occ: Vec<bool> = Vec::new();
    let mut i: usize = 0;
    while i < rows
        invariant
            i <= rows,
            occ@.len() == i,
            forall|r: int| 0 <= r < i ==> !occ@[r],
        decreases rows - i,
    {
        occ.push(false);
        i = i + 1;
    }
    occ
}

/// Extends an occupancy array with free rows up to `rows` entries.
pub fn grow_occupancy(occ: &mut Vec<bool>, rows: usize)
    requires
        old(occ)@.len() <= rows,
    ensures
        final(occ)@.len() == rows,
        final(occ)@.take(old(occ)@.len() as int) == old(occ)@,
        forall|r: int| old(occ)@.len() <= r < rows ==> !final(occ)@[r],
{
    let ghost o0: Seq<bool> = occ@;
    while occ.len() < rows
        invariant
            o0.len() <= occ@.len() <= rows,
            occ@.take(o0.len() as int) == o0,
            forall|r: int| o0.len() <= r < occ@.len() ==> !occ@[r],
        decreases rows - occ@.len(),
    {
        occ.push(false);
        proof {
            assert(occ@.take(o0.len() as int) =~= o0);
        }
    }
}

/// Frees every row of an occupancy array, keeping its size.
pub fn clear_occupancy(occ: &mut Vec<bool>)
    ensures
        final(occ)@.len() == old(occ)@.len(),
        forall|r: int| 0 <= r < final(occ)@.len() ==> !final(occ)@[r],
{
    let n = occ.len();
    let mut i: usize = 0;
    while i < n
        invariant
            i <= n,
            occ@.len() == n,
            forall|r: int| 0 <= r < i ==> !occ@[r],
        decreases n - i,
    {
        let slot = &mut occ[i];
        *slot = false;
        i = i + 1;
    }
}

// ---------------------------------------------------------------------------
// Law: a fixed row holds at most one instance.
// ---------------------------------------------------------------------------

/// A fixed instance owns its row for its whole dwell: no other instance of
/// the pool shares the row, the row is marked occupied while the instance
/// lives, and a row not marked occupied holds no instance at all.
pub proof fn lemma_fixed_row_exclusive(pool: Seq<CenterDanmaku>, occ: Seq<bool>)
    requires
        fixed_pool_wf(pool, occ),
    ensures
        forall|i: int, j: int| #![trigger pool[i], pool[j]]
            0 <= i < pool.len() && 0 <= j < pool.len() && i != j ==> pool[i].row != pool[j].row,
        forall|i: int| 0 <= i < pool.len() ==> occ[#[trigger] pool[i].row as int],
        forall|r: int|
            0 <= r < occ.len() && !(#[trigger] occ[r]) ==> forall|i: int|
                0 <= i < pool.len() ==> (#[trigger] pool[i].row as int) != r,
{
    assert forall|i: int, j: int| #![trigger pool[i], pool[j]]
        0 <= i < pool.len() && 0 <= j < pool.len() && i != j implies pool[i].row
        != pool[j].row by {
        if i < j {
        } else {
            assert(pool[j].row != pool[i].row);
        }
    }
    assert forall|r: int|
        0 <= r < occ.len() && !(#[trigger] occ[r]) implies forall|i: int|
        0 <= i < pool.len() ==> (#[trigger] pool[i].row as int) != r by {
        assert forall|i: int| 0 <= i < pool.len() implies (#[trigger] pool[i].row as int) != r by {
            assert(occ[pool[i].row as int]);
        }
    }
}

} // verus!
