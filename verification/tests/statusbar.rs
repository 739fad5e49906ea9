use vapor::statusbar::{cell_text, status_boxes, status_item_visible, BoxSpec, Toggles};
use vapor::metrics::MetricsFlags;
use vapor::schedule::{LoopStep, MenuSignal, PollTimer};

#[test]
fn cell_text_combines_temperature_and_usage() {
    assert_eq!(cell_text(true, true, Some("54°"), Some("12%")).as_deref(), Some("54°/12%"));
    assert_eq!(cell_text(true, true, None, Some("12%")).as_deref(), Some("--/12%"));
    assert_eq!(cell_text(true, true, Some("54°"), None).as_deref(), Some("54°/--"));
    assert_eq!(cell_text(true, false, Some("54°"), Some("12%")).as_deref(), Some("54°"));
    assert_eq!(cell_text(true, false, None, None).as_deref(), Some("--"));
    assert_eq!(cell_text(false, true, Some("54°"), Some("12%")).as_deref(), Some("12%"));
    assert_eq!(cell_text(false, true, None, None).as_deref(), Some("--"));
    assert_eq!(cell_text(false, false, Some("54°"), Some("12%")), None);
}

#[test]
fn boxes_come_in_cpu_gpu_ram_order() {
    let b = status_boxes(Some("54°/12%"), None, Some("9.5/24G"));
    assert_eq!(b, vec![
        BoxSpec { label: "CPU", value: "54°/12%" },
        BoxSpec { label: "RAM", value: "9.5/24G" },
    ]);
    assert!(status_item_visible(&b));
    let b = status_boxes(None, None, None);
    assert!(b.is_empty());
    assert!(!status_item_visible(&b));
    let b = status_boxes(Some("a"), Some("b"), Some("c"));
    let labels: Vec<&str> = b.iter().map(|x| x.label).collect();
    assert_eq!(labels, vec!["CPU", "GPU", "RAM"]);
}

#[test]
fn toggles_default_on_before_menu_exists() {
    let t = Toggles::from_items([None; 5]);
    assert_eq!(t, Toggles { cpu_temp: true, gpu_temp: true, cpu_usage: true, gpu_usage: true, ram: true });
    let t = Toggles::from_items([Some(false), Some(true), Some(true), Some(false), Some(false)]);
    assert_eq!(t, Toggles { cpu_temp: false, gpu_temp: true, cpu_usage: true, gpu_usage: false, ram: false });
    assert_eq!(t.metrics_flags(), MetricsFlags { cpu_usage: true, gpu_usage: false, ram: false });
}

const SEC: u64 = 1_000_000_000;

/// Runs one look of the loop at `now`, recording a poll at once.
fn look(t: &mut PollTimer, signal: Option<MenuSignal>, now: u64, interval: u64) -> LoopStep {
    let step = t.next_step(signal, now, interval);
    if step == LoopStep::Poll {
        t.record_poll(now);
    }
    step
}

#[test]
fn timer_polls_once_per_interval() {
    let mut t = PollTimer::new();
    assert_eq!(look(&mut t, None, 100, 5 * SEC), LoopStep::Poll);
    assert_eq!(look(&mut t, None, 100 + SEC, 5 * SEC), LoopStep::Wait);
    assert_eq!(look(&mut t, Some(MenuSignal::Other), 100 + 4 * SEC, 5 * SEC), LoopStep::Wait);
    assert_eq!(look(&mut t, None, 100 + 5 * SEC, 5 * SEC), LoopStep::Poll);
    assert_eq!(look(&mut t, None, 100 + 6 * SEC, 5 * SEC), LoopStep::Wait);
    // A shorter interval from the slider takes effect at once.
    assert_eq!(look(&mut t, None, 100 + 6 * SEC, SEC / 2), LoopStep::Poll);
}

#[test]
fn poll_interval_counts_from_end_of_last_poll() {
    let mut t = PollTimer::new();
    assert_eq!(t.next_step(None, 0, 5 * SEC), LoopStep::Poll);
    t.record_poll(SEC);
    assert_eq!(t.next_step(None, 5 * SEC, 5 * SEC), LoopStep::Wait);
    assert_eq!(t.next_step(None, 6 * SEC, 5 * SEC), LoopStep::Poll);
}

#[test]
fn toggle_polls_now_and_quit_exits() {
    let mut t = PollTimer::new();
    assert_eq!(look(&mut t, None, 0, 5 * SEC), LoopStep::Poll);
    assert_eq!(look(&mut t, Some(MenuSignal::Toggle), SEC, 5 * SEC), LoopStep::Poll);
    assert_eq!(look(&mut t, None, 2 * SEC, 5 * SEC), LoopStep::Wait);
    assert_eq!(look(&mut t, Some(MenuSignal::Quit), 100 * SEC, 5 * SEC), LoopStep::Exit);
    assert_eq!(look(&mut t, None, 100 * SEC, 5 * SEC), LoopStep::Poll);
}
