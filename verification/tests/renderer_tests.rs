use danmakw::Color;
use danmakw::Danmaku;
use danmakw::DanmakuMode;
use danmakw::Renderer;
use danmakw::init;

fn msg(start: u64, mode: DanmakuMode) -> Danmaku {
    Danmaku {
        content: format!("m{start}"),
        start,
        color: Color { r: 1, g: 2, b: 3, a: 4 },
        mode,
    }
}

#[test]
fn init_gives_default_configuration() {
    let r = init();
    assert_eq!(r.0.video_time, 0);
    assert!(!r.0.paused);
    assert_eq!(r.0.scroll_max_rows, 20);
    assert_eq!(r.0.top_center_max_rows, 10);
    assert_eq!(r.0.bottom_center_max_rows, 10);
    assert_eq!(r.0.line_height, 30);
    assert_eq!(r.0.top_padding, 10);
    assert_eq!(r.0.font_size, 24);
    assert_eq!(r.0.spacing, 20);
    assert_eq!(r.0.speed_factor, 1000);
    assert_eq!(r.0.viewport_width, 0);
    assert_eq!(r.0.viewport_height, 0);
    assert!(r.0.scroll_danmaku.is_empty());
    assert!(r.0.top_center_danmaku.is_empty());
    assert!(r.0.bottom_center_danmaku.is_empty());
}

#[test]
fn scroll_message_spawns_at_right_edge() {
    let mut r = Renderer::new();
    r.resize(800, 600);
    r.add_text(msg(0, DanmakuMode::Scroll), 7, 100);
    assert_eq!(r.0.scroll_danmaku.len(), 1);
    let inst = &r.0.scroll_danmaku[0];
    assert_eq!(inst.x, 800 * 8_000_000_000);
    assert_eq!(inst.row, 0);
    // velocity: (viewport + text width) pixels * speed factor, in position
    // units per (ms * permille); 900 pixels over the 8000 ms crossing.
    assert_eq!(inst.velocity, (800 + 100) * 1000);
    assert_eq!(inst.width, 100 * 8_000_000_000);
    assert_eq!(inst.handle, 7);
}

#[test]
fn scroll_position_advances_exactly() {
    let mut r = Renderer::new();
    r.resize(800, 600);
    r.add_text(msg(0, DanmakuMode::Scroll), 0, 100);
    // 900 px per 8000 ms = 0.1125 px/ms; after 4000 ms the message has
    // crossed 450 px, so its left edge sits at 350 px.
    assert!(r.update(4000).is_ok());
    let list = r.draw_list();
    assert_eq!(list.len(), 1);
    assert_eq!(list[0].left, 350_000);
    assert_eq!(list[0].top, 10_000);
    assert_eq!(list[0].color, Color { r: 1, g: 2, b: 3, a: 4 });
}

#[test]
fn scroll_left_edge_can_go_negative() {
    let mut r = Renderer::new();
    r.resize(800, 600);
    r.add_text(msg(0, DanmakuMode::Scroll), 0, 100);
    // After 7600 ms the message has crossed 855 px: 55 px off screen on the
    // left, 45 px of its 100 px width still visible.
    assert!(r.update(7600).is_ok());
    assert_eq!(r.0.scroll_danmaku.len(), 1);
    let list = r.draw_list();
    assert_eq!(list[0].left, -55_000);
}

#[test]
fn speed_factor_compounds_at_spawn_and_tick() {
    // The speed factor scales the spawn-time velocity and is applied again
    // every tick, so a factor of 2 moves a message four times as fast.
    let mut r = Renderer::new();
    r.resize(800, 600);
    r.set_speed_factor(2000);
    r.add_text(msg(0, DanmakuMode::Scroll), 0, 100);
    assert_eq!(r.0.scroll_danmaku[0].velocity, (800 + 100) * 2000);
    // nominal crossing speed is 0.1125 px/ms; at factor 2 the effective
    // speed is 0.45 px/ms, so 1000 ms cross 450 px.
    assert!(r.update(1000).is_ok());
    let list = r.draw_list();
    assert_eq!(list[0].left, 350_000);
}

#[test]
fn top_center_is_centered_and_stacked() {
    let mut r = Renderer::new();
    r.resize(800, 600);
    r.add_text(msg(0, DanmakuMode::TopCenter), 1, 100);
    r.add_text(msg(1, DanmakuMode::TopCenter), 2, 300);
    let list = r.draw_list();
    assert_eq!(list.len(), 2);
    // centered: (800 - 100) / 2 = 350 px; rows stack downward by the line
    // height under the top padding.
    assert_eq!(list[0].left, 350_000);
    assert_eq!(list[0].top, 10_000);
    assert_eq!(list[1].left, 250_000);
    assert_eq!(list[1].top, 40_000);
}

#[test]
fn bottom_center_stacks_upward_from_the_bottom() {
    let mut r = Renderer::new();
    r.resize(800, 600);
    r.add_text(msg(0, DanmakuMode::BottomCenter), 1, 100);
    r.add_text(msg(1, DanmakuMode::BottomCenter), 2, 100);
    let list = r.draw_list();
    assert_eq!(list.len(), 2);
    // row 0: 600 - 10 - 1*30 = 560 px; row 1: 600 - 10 - 2*30 = 530 px.
    assert_eq!(list[0].top, 560_000);
    assert_eq!(list[1].top, 530_000);
}

#[test]
fn resize_recenters_fixed_messages() {
    let mut r = Renderer::new();
    r.resize(800, 600);
    r.add_text(msg(0, DanmakuMode::TopCenter), 1, 100);
    assert_eq!(r.draw_list()[0].left, 350_000);
    r.resize(400, 600);
    // no stored state touched: the same instance re-centers.
    assert_eq!(r.draw_list()[0].left, 150_000);
}

#[test]
fn centered_text_wider_than_viewport_goes_negative() {
    let mut r = Renderer::new();
    r.resize(200, 600);
    r.add_text(msg(0, DanmakuMode::TopCenter), 1, 300);
    assert_eq!(r.draw_list()[0].left, -50_000);
}

#[test]
fn draw_list_orders_scroll_then_top_then_bottom() {
    let mut r = Renderer::new();
    r.resize(800, 600);
    r.add_text(msg(0, DanmakuMode::BottomCenter), 3, 10);
    r.add_text(msg(1, DanmakuMode::Scroll), 1, 10);
    r.add_text(msg(2, DanmakuMode::TopCenter), 2, 10);
    let list = r.draw_list();
    assert_eq!(list.len(), 3);
    assert_eq!(list[0].handle, 1);
    assert_eq!(list[1].handle, 2);
    assert_eq!(list[2].handle, 3);
}

#[test]
fn clear_empties_all_pools_and_rows() {
    let mut r = Renderer::new();
    r.resize(800, 600);
    r.add_text(msg(0, DanmakuMode::Scroll), 1, 10);
    r.add_text(msg(1, DanmakuMode::TopCenter), 2, 10);
    r.add_text(msg(2, DanmakuMode::BottomCenter), 3, 10);
    r.clear();
    assert!(r.draw_list().is_empty());
    // the freed row is immediately assignable again.
    r.add_text(msg(3, DanmakuMode::TopCenter), 4, 10);
    assert_eq!(r.0.top_center_danmaku[0].row, 0);
}

#[test]
fn setters_update_configuration() {
    let mut r = Renderer::new();
    r.set_font_name("Sans".to_string());
    assert_eq!(r.0.font_name, "Sans");
    r.set_font_size(40);
    assert_eq!(r.0.font_size, 40);
    r.set_row_spacing(8);
    // line height is the current font size plus the row spacing.
    assert_eq!(r.0.line_height, 48);
    r.set_top_padding(16);
    assert_eq!(r.0.top_padding, 16);
    r.set_max_rows(5);
    assert_eq!(r.0.scroll_max_rows, 5);
    r.set_video_speed(1500);
    assert_eq!(r.0.video_speed, 1500);
    r.set_paused(true);
    assert!(r.0.paused);
}

#[test]
fn out_of_range_configuration_is_clamped() {
    let mut r = Renderer::new();
    r.resize(2_000_000, 3_000_000);
    assert_eq!(r.0.viewport_width, 100_000);
    assert_eq!(r.0.viewport_height, 100_000);
    r.set_speed_factor(0);
    assert_eq!(r.0.speed_factor, 1);
    r.set_speed_factor(u32::MAX);
    assert_eq!(r.0.speed_factor, 100_000);
    r.set_max_rows(usize::MAX);
    assert_eq!(r.0.scroll_max_rows, 100_000);
}

#[test]
fn pool_row_counts_can_grow_and_shrink() {
    let mut r = Renderer::new();
    r.resize(800, 600);
    r.set_top_center_max_lines(2);
    assert_eq!(r.0.top_center_max_rows, 2);
    r.set_top_center_max_lines(15);
    assert_eq!(r.0.top_center_max_rows, 15);
    for i in 0..15 {
        r.add_text(msg(i, DanmakuMode::TopCenter), i, 10);
    }
    assert_eq!(r.0.top_center_danmaku.len(), 15);
    // shrinking retires the instances whose rows disappear.
    r.set_top_center_max_lines(4);
    assert_eq!(r.0.top_center_danmaku.len(), 4);
    r.set_bottom_center_max_lines(3);
    assert_eq!(r.0.bottom_center_max_rows, 3);
}
