use danmakw::Color;
use danmakw::Danmaku;
use danmakw::DanmakuMode;
use danmakw::DanmakuQueue;
use danmakw::SortByTime;

fn msg(start: u64) -> Danmaku {
    Danmaku {
        content: format!("m{start}"),
        start,
        color: Color { r: 255, g: 255, b: 255, a: 255 },
        mode: DanmakuMode::Scroll,
    }
}

fn starts(v: &[Danmaku]) -> Vec<u64> {
    v.iter().map(|d| d.start).collect()
}

#[test]
fn sort_by_time_orders_ascending() {
    let mut v = vec![msg(5000), msg(0), msg(100), msg(100), msg(7)];
    v.sort_by_time();
    assert_eq!(starts(&v), vec![0, 7, 100, 100, 5000]);
}

#[test]
fn sort_by_time_keeps_contents() {
    let mut v = vec![msg(3), msg(1), msg(2)];
    v.sort_by_time();
    let mut contents: Vec<String> = v.iter().map(|d| d.content.clone()).collect();
    contents.sort();
    assert_eq!(contents, vec!["m1".to_string(), "m2".to_string(), "m3".to_string()]);
}

#[test]
fn pop_to_time_scenario() {
    // Timed drain scenario: messages at 10, 100 and 5000 ms, initialized at
    // time 0, handed out one per deadline.
    let mut q = DanmakuQueue::new();
    q.init(vec![msg(100), msg(10), msg(5000)], 0);
    assert_eq!(starts(&q.pop_to_time(50)), vec![10]);
    assert_eq!(starts(&q.pop_to_time(150)), vec![100]);
    assert_eq!(starts(&q.pop_to_time(5000)), vec![5000]);
    assert_eq!(starts(&q.pop_to_time(u64::MAX)), Vec::<u64>::new());
}

#[test]
fn init_discards_messages_due_at_init_time() {
    // A message scheduled at or before the init time is drained and
    // discarded immediately, so it is never handed out later.
    let mut q = DanmakuQueue::new();
    q.init(vec![msg(0), msg(10)], 0);
    assert_eq!(starts(&q.pop_to_time(50)), vec![10]);
}

#[test]
fn pop_to_time_is_idempotent() {
    // Popping twice with the same time returns nothing the second time.
    let mut q = DanmakuQueue::new();
    q.init(vec![msg(1), msg(2), msg(3)], 0);
    assert_eq!(starts(&q.pop_to_time(2)), vec![1, 2]);
    assert_eq!(starts(&q.pop_to_time(2)), Vec::<u64>::new());
    assert_eq!(starts(&q.pop_to_time(3)), vec![3]);
}

#[test]
fn pop_to_time_returns_each_message_exactly_once() {
    let mut q = DanmakuQueue::new();
    q.init(vec![msg(4), msg(1), msg(3), msg(2), msg(5)], 0);
    let mut seen: Vec<u64> = Vec::new();
    for t in [1u64, 1, 2, 4, 4, 5] {
        seen.extend(starts(&q.pop_to_time(t)));
    }
    assert_eq!(seen, vec![1, 2, 3, 4, 5]);
}

#[test]
fn pop_keeps_equal_start_times_together() {
    let mut q = DanmakuQueue::new();
    q.init(vec![msg(7), msg(7), msg(7), msg(9)], 0);
    assert_eq!(starts(&q.pop_to_time(7)), vec![7, 7, 7]);
    assert_eq!(starts(&q.pop_to_time(9)), vec![9]);
}

#[test]
fn reset_time_restores_later_messages() {
    // After draining far ahead, a reset re-creates the pending view from the
    // master list and discards everything due by the reset time.
    let mut q = DanmakuQueue::new();
    q.init(vec![msg(100), msg(500), msg(1500), msg(9000)], 0);
    assert_eq!(starts(&q.pop_to_time(10_000)), vec![100, 500, 1500, 9000]);
    q.reset_time(1000);
    assert_eq!(starts(&q.pop_to_time(1100)), Vec::<u64>::new());
    assert_eq!(starts(&q.pop_to_time(1600)), vec![1500]);
    assert_eq!(starts(&q.pop_to_time(9000)), vec![9000]);
}

#[test]
fn default_queue_is_empty() {
    let mut q = DanmakuQueue::default();
    assert_eq!(starts(&q.pop_to_time(u64::MAX)), Vec::<u64>::new());
}
