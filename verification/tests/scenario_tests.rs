use danmakw::Color;
use danmakw::Danmaku;
use danmakw::DanmakuMode;
use danmakw::Renderer;
use danmakw::UpdateError;

fn msg(start: u64, mode: DanmakuMode) -> Danmaku {
    Danmaku {
        content: format!("m{start}"),
        start,
        color: Color { r: 9, g: 9, b: 9, a: 255 },
        mode,
    }
}

fn starts(v: &[Danmaku]) -> Vec<u64> {
    v.iter().map(|d| d.start).collect()
}

#[test]
fn scroll_retires_after_full_crossing_and_lane_is_reusable() {
    // Viewport 800 px, text 100 px, nominal speed: the message spawns at
    // x = 800 and fully crosses (x + 100 <= 0) after exactly 8000 ms; the
    // lane is then reusable within the same tick sequence.
    let mut r = Renderer::new();
    r.resize(800, 600);
    r.add_text(msg(0, DanmakuMode::Scroll), 1, 100);
    assert_eq!(r.0.scroll_danmaku.len(), 1);
    assert!(r.update(7999).is_ok());
    assert_eq!(r.0.scroll_danmaku.len(), 1);
    assert!(r.update(8000).is_ok());
    assert_eq!(r.0.scroll_danmaku.len(), 0);
    assert!(r.draw_list().is_empty());
    r.add_text(msg(1, DanmakuMode::Scroll), 2, 100);
    assert_eq!(r.0.scroll_danmaku.len(), 1);
    assert_eq!(r.0.scroll_danmaku[0].row, 0);
}

#[test]
fn second_scroll_message_avoids_occupied_lane() {
    let mut r = Renderer::new();
    r.resize(800, 600);
    r.add_text(msg(0, DanmakuMode::Scroll), 1, 100);
    // the first message still blocks the spawn column of lane 0.
    r.add_text(msg(1, DanmakuMode::Scroll), 2, 100);
    assert_eq!(r.0.scroll_danmaku.len(), 2);
    assert_eq!(r.0.scroll_danmaku[0].row, 0);
    assert_eq!(r.0.scroll_danmaku[1].row, 1);
}

#[test]
fn lane_accepts_follower_once_leader_cleared_spawn_column() {
    let mut r = Renderer::new();
    r.resize(800, 600);
    r.add_text(msg(0, DanmakuMode::Scroll), 1, 100);
    // after 1100 ms the leader's left edge is at 676.25 px, so its trailing
    // edge plus the 20 px spacing has cleared the 800 px spawn column.
    assert!(r.update(1100).is_ok());
    r.add_text(msg(1, DanmakuMode::Scroll), 2, 100);
    assert_eq!(r.0.scroll_danmaku.len(), 2);
    assert_eq!(r.0.scroll_danmaku[1].row, 0);
}

#[test]
fn scroll_messages_drop_when_no_lane_accepts() {
    let mut r = Renderer::new();
    r.resize(800, 600);
    r.set_max_rows(2);
    r.add_text(msg(0, DanmakuMode::Scroll), 1, 100);
    r.add_text(msg(1, DanmakuMode::Scroll), 2, 100);
    // both lanes are blocked at the spawn column: the third is dropped
    // silently, no error surfaced.
    r.add_text(msg(2, DanmakuMode::Scroll), 3, 100);
    assert_eq!(r.0.scroll_danmaku.len(), 2);
}

#[test]
fn same_lane_instances_never_overlap_during_simulation() {
    // Property simulation: admissions and speed-factor changes at arbitrary
    // times; at every observable state, instances sharing a lane must have
    // disjoint horizontal spans.
    let mut r = Renderer::new();
    r.resize(1000, 800);
    let mut seed: u64 = 0x9e3779b97f4a7c15;
    let mut t: u64 = 0;
    for step in 0..400u64 {
        seed = seed.wrapping_mul(6364136223846793005).wrapping_add(1442695040888963407);
        let dt = seed >> 58; // 0..63 ms
        t += dt;
        assert!(r.update(t).is_ok());
        if step % 3 == 0 {
            let w = 20 + (seed >> 40) % 400;
            r.add_text(msg(step, DanmakuMode::Scroll), step, w);
        }
        if step % 17 == 0 {
            let s = 200 + ((seed >> 30) % 3000) as u32;
            r.set_speed_factor(s);
        }
        let pool = &r.0.scroll_danmaku;
        for i in 0..pool.len() {
            for j in 0..pool.len() {
                if i != j && pool[i].row == pool[j].row {
                    let (a, b) = (&pool[i], &pool[j]);
                    let a_end = a.x + a.width;
                    let b_end = b.x + b.width;
                    assert!(
                        a_end <= b.x || b_end <= a.x,
                        "overlap in lane {} at t={t}",
                        a.row
                    );
                }
            }
        }
    }
}

#[test]
fn fixed_slots_fill_lowest_free_row_and_overflow_drops() {
    // topCenterMaxRows = 2: of three simultaneous admissions exactly two
    // are placed; the third produces no draw primitive and no error.
    let mut r = Renderer::new();
    r.resize(800, 600);
    r.set_top_center_max_lines(2);
    r.add_text(msg(0, DanmakuMode::TopCenter), 1, 100);
    r.add_text(msg(1, DanmakuMode::TopCenter), 2, 100);
    r.add_text(msg(2, DanmakuMode::TopCenter), 3, 100);
    assert_eq!(r.0.top_center_danmaku.len(), 2);
    assert_eq!(r.0.top_center_danmaku[0].row, 0);
    assert_eq!(r.0.top_center_danmaku[1].row, 1);
    assert_eq!(r.draw_list().len(), 2);
}

#[test]
fn fixed_row_is_unassignable_until_dwell_expires() {
    let mut r = Renderer::new();
    r.resize(800, 600);
    r.add_text(msg(0, DanmakuMode::TopCenter), 1, 100);
    assert_eq!(r.0.top_center_danmaku[0].row, 0);
    // one millisecond before expiry the row is still taken.
    assert!(r.update(4999).is_ok());
    r.add_text(msg(1, DanmakuMode::TopCenter), 2, 100);
    assert_eq!(r.0.top_center_danmaku.len(), 2);
    assert_eq!(r.0.top_center_danmaku[1].row, 1);
    // at 5000 ms the first dwell has run out: its row frees immediately.
    assert!(r.update(5000).is_ok());
    assert_eq!(r.0.top_center_danmaku.len(), 1);
    r.add_text(msg(2, DanmakuMode::TopCenter), 3, 100);
    assert_eq!(r.0.top_center_danmaku.len(), 2);
    assert_eq!(r.0.top_center_danmaku[1].row, 0);
}

#[test]
fn bottom_pool_is_independent_of_top_pool() {
    let mut r = Renderer::new();
    r.resize(800, 600);
    r.add_text(msg(0, DanmakuMode::TopCenter), 1, 100);
    r.add_text(msg(1, DanmakuMode::BottomCenter), 2, 100);
    assert_eq!(r.0.top_center_danmaku.len(), 1);
    assert_eq!(r.0.bottom_center_danmaku.len(), 1);
    assert_eq!(r.0.bottom_center_danmaku[0].row, 0);
}

#[test]
fn update_drains_due_messages_in_order() {
    let mut r = Renderer::new();
    r.resize(800, 600);
    r.init(vec![msg(100, DanmakuMode::Scroll), msg(5000, DanmakuMode::Scroll), msg(
        400,
        DanmakuMode::TopCenter,
    )]);
    let due = r.update(1000).unwrap();
    assert_eq!(starts(&due), vec![100, 400]);
    let due = r.update(6000).unwrap();
    assert_eq!(starts(&due), vec![5000]);
}

#[test]
fn paused_renderer_is_frozen() {
    let mut r = Renderer::new();
    r.resize(800, 600);
    r.init(vec![msg(100, DanmakuMode::Scroll)]);
    r.add_text(msg(0, DanmakuMode::Scroll), 1, 100);
    let x_before = r.0.scroll_danmaku[0].x;
    r.set_paused(true);
    // no admission, no advancement, no retirement, no clock movement.
    let due = r.update(9999).unwrap();
    assert!(due.is_empty());
    assert_eq!(r.0.scroll_danmaku[0].x, x_before);
    assert_eq!(r.0.video_time, 0);
    r.set_paused(false);
    let due = r.update(200).unwrap();
    assert_eq!(starts(&due), vec![100]);
}

#[test]
fn time_going_backwards_without_scrub_is_reported() {
    let mut r = Renderer::new();
    r.resize(800, 600);
    assert!(r.update(1000).is_ok());
    assert_eq!(r.update(500), Err(UpdateError::NonMonotonicTime));
    // the failed tick changed nothing.
    assert_eq!(r.0.video_time, 1000);
    assert!(r.update(1000).is_ok());
}

#[test]
fn backward_scrub_resets_everything() {
    // Scrub from t = 10000 back to t = 1000: every live instance is
    // cleared, and only messages scheduled after 1000 are pending again —
    // nothing stale and nothing duplicated remains.
    let mut r = Renderer::new();
    r.resize(800, 600);
    r.init(vec![
        msg(100, DanmakuMode::Scroll),
        msg(500, DanmakuMode::TopCenter),
        msg(1500, DanmakuMode::BottomCenter),
        msg(9000, DanmakuMode::Scroll),
    ]);
    let due = r.update(10_000).unwrap();
    assert_eq!(starts(&due), vec![100, 500, 1500, 9000]);
    for d in due {
        r.add_text(d, 0, 100);
    }
    assert!(!r.draw_list().is_empty());
    r.set_video_time(1000);
    assert!(r.draw_list().is_empty());
    assert_eq!(r.0.video_time, 1000);
    let mut replayed: Vec<u64> = Vec::new();
    replayed.extend(starts(&r.update(1100).unwrap()));
    replayed.extend(starts(&r.update(1600).unwrap()));
    replayed.extend(starts(&r.update(10_000).unwrap()));
    assert_eq!(replayed, vec![1500, 9000]);
}

#[test]
fn repeated_tick_at_same_time_admits_nothing_new() {
    let mut r = Renderer::new();
    r.resize(800, 600);
    r.init(vec![msg(100, DanmakuMode::Scroll), msg(900, DanmakuMode::Scroll)]);
    assert_eq!(starts(&r.update(500).unwrap()), vec![100]);
    // the same time again: the drain is idempotent and nothing moves.
    assert_eq!(starts(&r.update(500).unwrap()), Vec::<u64>::new());
    assert_eq!(starts(&r.update(900).unwrap()), vec![900]);
}

#[test]
fn overlong_text_width_is_clamped_at_admission() {
    let mut r = Renderer::new();
    r.resize(800, 600);
    r.add_text(msg(0, DanmakuMode::Scroll), 1, u64::MAX);
    assert_eq!(r.0.scroll_danmaku.len(), 1);
    // widths are capped at 100000 px so the fixed-point math stays exact.
    assert_eq!(r.0.scroll_danmaku[0].width, 100_000 * 8_000_000_000);
    assert_eq!(r.0.scroll_danmaku[0].velocity, (800 + 100_000) * 1000);
}

#[test]
fn dwell_spanning_tick_retires_fixed_instance() {
    let mut r = Renderer::new();
    r.resize(800, 600);
    r.add_text(msg(0, DanmakuMode::TopCenter), 1, 100);
    // one huge tick far past the 5000 ms dwell retires it in one step.
    assert!(r.update(1_000_000).is_ok());
    assert!(r.0.top_center_danmaku.is_empty());
    assert!(r.draw_list().is_empty());
}

#[test]
fn zero_sized_viewport_with_zero_width_text_drops_scroll() {
    let mut r = Renderer::new();
    // no trajectory exists for a zero-size message over a zero-size
    // viewport: it is dropped silently.
    r.add_text(msg(0, DanmakuMode::Scroll), 1, 0);
    assert_eq!(r.0.scroll_danmaku.len(), 0);
}
