use markus::events::EventHandler;
use markus::menu::{main_menu_items, model_actions, MAIN_MENU_LEN};
use markus::widgets::{DownloadBar, Spinner};

#[test]
fn spinner_holds_each_frame_for_two_ticks() {
    let frames = ["⣾", "⣽", "⣻", "⢿", "⡿", "⣟", "⣯", "⣷"];
    for f in 0u64..40 {
        let s = Spinner { frame: f, message: "Loading".to_string() };
        assert_eq!(s.line(), format!("  {}  Loading", frames[(f / 2) as usize % 8]));
    }
}

#[test]
fn download_bar_fills_by_share() {
    let bar = DownloadBar { downloaded: 50, total: 100, filename: "m.gguf".to_string() };
    assert_eq!(bar.filled(24), 10);
    assert_eq!(bar.bar_line(14), "  [█████░░░░░]");
    let unknown = DownloadBar { downloaded: 50, total: 0, filename: "m.gguf".to_string() };
    assert_eq!(unknown.filled(24), 0);
    assert_eq!(unknown.bar_line(7), "  [░░░]");
    let done = DownloadBar { downloaded: 7, total: 7, filename: "m.gguf".to_string() };
    assert_eq!(done.bar_line(8), "  [████]");
    assert_eq!(done.bar_line(3), "  []");
}

#[test]
fn event_handler_keeps_its_tick_rate() {
    assert_eq!(EventHandler::new(80).tick_rate_ms(), 80);
}

#[test]
fn menus() {
    let items = main_menu_items();
    assert_eq!(items.len(), MAIN_MENU_LEN);
    let labels: Vec<&str> = items.iter().map(|i| i.label).collect();
    assert_eq!(labels, vec!["Chat", "Models", "System", "Pull", "Serve", "Quit"]);
    assert_eq!(items[5].key, "q");
    assert_eq!(items[4].description, "Start OpenAI-compatible API server");
    let actions = model_actions();
    let keys: Vec<&str> = actions.iter().map(|i| i.key).collect();
    assert_eq!(keys, vec!["Enter", "s", "i", "d", "Esc"]);
    assert_eq!(actions[3].label, "Delete");
}
