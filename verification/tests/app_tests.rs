use std::path::PathBuf;

use markus::app::{App, AppMode, BrowserAction, ChatAction, KeyInput, KeyRoute, MenuAction, SystemAction};
use markus::chat::{ChatState, ChatStats};
use markus::config::MarkusConfig;
use markus::model::ModelInfo;

fn app() -> App {
    App::new(MarkusConfig::default_for_threads(4))
}

fn model(name: &str) -> ModelInfo {
    ModelInfo::from_parts(PathBuf::from(format!("/models/{}", name)), name.to_string(), "gguf", 1 << 30)
}

fn app_with_models() -> App {
    let mut a = app();
    a.models = vec![model("a.gguf"), model("b.gguf"), model("c.gguf")];
    a.mode = AppMode::ModelBrowser;
    a
}

#[test]
fn new_app_starts_at_the_main_menu() {
    let a = app();
    assert_eq!(a.mode, AppMode::MainMenu);
    assert_eq!(a.status_msg, "Ready");
    assert_eq!(a.menu_cursor, 0);
    assert!(a.error.is_none());
    assert!(!a.loading);
}

#[test]
fn arrows_and_jk_move_and_wrap() {
    let mut a = app();
    assert_eq!(a.handle_main_menu_key(KeyInput::Up), MenuAction::Stay);
    assert_eq!(a.menu_cursor, 5);
    a.handle_main_menu_key(KeyInput::Char('j'));
    assert_eq!(a.menu_cursor, 0);
    a.handle_main_menu_key(KeyInput::Down);
    a.handle_main_menu_key(KeyInput::Down);
    assert_eq!(a.menu_cursor, 2);
    a.handle_main_menu_key(KeyInput::Char('k'));
    assert_eq!(a.menu_cursor, 1);
}

#[test]
fn digits_jump_and_q_quits() {
    let mut a = app();
    a.handle_main_menu_key(KeyInput::Char('4'));
    assert_eq!(a.menu_cursor, 3);
    a.handle_main_menu_key(KeyInput::Char('9'));
    assert_eq!(a.menu_cursor, 3);
    a.handle_main_menu_key(KeyInput::Char('q'));
    assert_eq!(a.mode, AppMode::Quitting);
    let mut b = app();
    b.handle_main_menu_key(KeyInput::Char('Q'));
    assert_eq!(b.mode, AppMode::Quitting);
}

#[test]
fn enter_selects_menu_entries() {
    let mut a = app();
    a.handle_main_menu_key(KeyInput::Enter);
    assert_eq!(a.mode, AppMode::ModelBrowser);
    assert_eq!(a.status_msg, "Select a model to chat with");

    let mut a = app();
    a.menu_cursor = 2;
    assert_eq!(a.handle_main_menu_key(KeyInput::Enter), MenuAction::ShowSystem);
    assert_eq!(a.mode, AppMode::MainMenu);

    let mut a = app();
    a.menu_cursor = 3;
    a.handle_main_menu_key(KeyInput::Enter);
    assert_eq!(a.status_msg, "Use 'markus-engine pull <model>' from CLI to download");
    assert_eq!(a.mode, AppMode::MainMenu);

    let mut a = app();
    a.menu_cursor = 5;
    a.handle_main_menu_key(KeyInput::Enter);
    assert_eq!(a.mode, AppMode::Quitting);
}

#[test]
fn model_browser_keys() {
    let mut a = app_with_models();
    a.handle_model_browser_key(KeyInput::Up);
    assert_eq!(a.model_cursor, 2);
    a.handle_model_browser_key(KeyInput::Char('j'));
    assert_eq!(a.model_cursor, 0);
    a.handle_model_browser_key(KeyInput::Down);
    assert!(matches!(a.handle_model_browser_key(KeyInput::Enter), BrowserAction::Stay));
    assert_eq!(a.mode, AppMode::Chat);
    assert_eq!(a.selected_model, Some(PathBuf::from("/models/b.gguf")));
    assert_eq!(a.status_msg, "Chat mode — type your message and press Enter");

    let mut a = app_with_models();
    a.model_cursor = 2;
    match a.handle_model_browser_key(KeyInput::Char('d')) {
        BrowserAction::Delete(p) => assert_eq!(p, PathBuf::from("/models/c.gguf")),
        _ => panic!("expected a deletion"),
    }
    a.models_rescanned(vec![model("a.gguf"), model("b.gguf")]);
    assert_eq!(a.model_cursor, 1);
    assert_eq!(a.status_msg, "Model removed");

    a.handle_model_browser_key(KeyInput::Esc);
    assert_eq!(a.mode, AppMode::MainMenu);
    assert_eq!(a.status_msg, "Ready");
}

#[test]
fn empty_model_browser() {
    let mut a = app();
    a.mode = AppMode::ModelBrowser;
    a.handle_model_browser_key(KeyInput::Down);
    assert_eq!(a.model_cursor, 0);
    assert!(matches!(a.handle_model_browser_key(KeyInput::Enter), BrowserAction::Stay));
    assert_eq!(a.mode, AppMode::ModelBrowser);
    assert!(a.selected_model_info().is_none());
}

#[test]
fn system_and_settings_keys() {
    let mut a = app();
    a.mode = AppMode::SystemDashboard;
    assert_eq!(a.handle_system_key(KeyInput::Char('f')), SystemAction::FreeMemory);
    assert_eq!(a.handle_system_key(KeyInput::Char('r')), SystemAction::Refresh);
    assert_eq!(a.handle_system_key(KeyInput::Char('x')), SystemAction::Stay);
    a.memory_freed(3);
    assert_eq!(a.status_msg, "Freed memory — killed 3 processes");
    a.handle_system_key(KeyInput::Esc);
    assert_eq!(a.mode, AppMode::MainMenu);
    a.mode = AppMode::Settings;
    a.handle_settings_key(KeyInput::Char('x'));
    assert_eq!(a.mode, AppMode::Settings);
    a.handle_settings_key(KeyInput::Char('q'));
    assert_eq!(a.mode, AppMode::MainMenu);
}

#[test]
fn errors_swallow_one_key_and_ctrl_c_quits() {
    let mut a = app();
    a.set_error("oops".to_string());
    assert_eq!(a.route_key(KeyInput::Char('c'), true), KeyRoute::Dismissed);
    assert!(a.error.is_none());
    assert_eq!(a.route_key(KeyInput::Char('c'), true), KeyRoute::Quit);
    assert_eq!(a.route_key(KeyInput::Char('c'), false), KeyRoute::Dispatch);
    assert_eq!(a.route_key(KeyInput::Enter, true), KeyRoute::Dispatch);
}

#[test]
fn loading_and_status() {
    let mut a = app();
    a.start_loading("Scanning for models...".to_string());
    assert!(a.loading);
    assert_eq!(a.loading_msg, "Scanning for models...");
    a.stop_loading();
    assert!(!a.loading);
    assert_eq!(a.loading_msg, "");
    a.set_status("x".to_string());
    assert_eq!(a.status_msg, "x");
    a.tick();
    a.tick();
    assert_eq!(a.tick, 2);
    a.tick = u64::MAX;
    a.tick();
    assert_eq!(a.tick, 0);
    a.go_to(AppMode::Downloading);
    a.go_back();
    assert_eq!(a.mode, AppMode::MainMenu);
}

fn chat_app() -> (App, ChatState) {
    let mut a = app_with_models();
    a.selected_model = Some(PathBuf::from("/models/a.gguf"));
    a.mode = AppMode::Chat;
    (a, ChatState::new("sys".to_string()))
}

#[test]
fn chat_typing_and_sending() {
    let (mut a, mut c) = chat_app();
    for ch in "hé!".chars() {
        a.handle_chat_key(&mut c, KeyInput::Char(ch), false, true);
    }
    assert_eq!(c.input, "hé!");
    a.handle_chat_key(&mut c, KeyInput::Backspace, false, true);
    assert_eq!(c.input, "hé");
    match a.handle_chat_key(&mut c, KeyInput::Enter, false, true) {
        ChatAction::Send(msgs) => {
            assert_eq!(msgs.len(), 2);
            assert_eq!(msgs[0].role, "system");
            assert_eq!(msgs[1].content, "hé");
        },
        _ => panic!("expected a send"),
    }
    assert!(c.is_streaming);
    assert_eq!(c.input, "");
    // keys are ignored while streaming
    assert!(matches!(a.handle_chat_key(&mut c, KeyInput::Char('x'), false, true), ChatAction::Stay));
    assert_eq!(c.input, "");
    c.append_stream_token("Hi");
    c.append_stream_token("!");
    c.finish_streaming(ChatStats { tokens_generated: 2, elapsed_ms: 100, tokens_per_sec_bits: 20.0f64.to_bits() });
    assert_eq!(c.history.len(), 2);
    assert_eq!(c.history[1].role, "assistant");
    assert_eq!(c.history[1].content, "Hi!");
    assert!(!c.is_streaming);
}

#[test]
fn chat_commands() {
    let (mut a, mut c) = chat_app();
    for ch in " /clear ".chars() {
        a.handle_chat_key(&mut c, KeyInput::Char(ch), false, true);
    }
    c.history.push(markus::pipeline::ChatMessage { role: "user".to_string(), content: "old".to_string() });
    assert!(matches!(a.handle_chat_key(&mut c, KeyInput::Enter, false, true), ChatAction::Stay));
    assert!(c.history.is_empty());
    assert_eq!(a.status_msg, "History cleared");

    let (mut a, mut c) = chat_app();
    for ch in "/quit".chars() {
        a.handle_chat_key(&mut c, KeyInput::Char(ch), false, true);
    }
    a.handle_chat_key(&mut c, KeyInput::Enter, false, true);
    assert_eq!(a.mode, AppMode::ModelBrowser);

    let (mut a, mut c) = chat_app();
    a.handle_chat_key(&mut c, KeyInput::Char('l'), true, true);
    assert_eq!(a.status_msg, "History cleared");
    assert_eq!(c.input, "");
    a.handle_chat_key(&mut c, KeyInput::Esc, false, true);
    assert_eq!(a.mode, AppMode::ModelBrowser);
}

#[test]
fn chat_needs_a_model() {
    let (mut a, mut c) = chat_app();
    a.handle_chat_key(&mut c, KeyInput::Char('x'), false, false);
    assert!(matches!(a.handle_chat_key(&mut c, KeyInput::Enter, false, false), ChatAction::LoadModel));
    assert_eq!(c.input, "x");
    a.selected_model = None;
    assert!(matches!(a.handle_chat_key(&mut c, KeyInput::Enter, false, false), ChatAction::Stay));
    assert_eq!(a.error.as_deref(), Some("No model selected"));
    // an empty line sends nothing
    let (mut a, mut c) = chat_app();
    assert!(matches!(a.handle_chat_key(&mut c, KeyInput::Enter, false, true), ChatAction::Stay));
    assert!(!c.is_streaming);
}

#[test]
fn chat_scrolling() {
    let (mut a, mut c) = chat_app();
    a.handle_chat_key(&mut c, KeyInput::Up, false, true);
    assert_eq!(c.scroll_offset, 0);
    a.handle_chat_key(&mut c, KeyInput::Down, false, true);
    a.handle_chat_key(&mut c, KeyInput::Down, false, true);
    assert_eq!(c.scroll_offset, 2);
    a.handle_chat_key(&mut c, KeyInput::Up, false, true);
    assert_eq!(c.scroll_offset, 1);
}

#[test]
fn config_defaults() {
    let c = MarkusConfig::default_for_threads(6);
    assert_eq!(c.threads, 6);
    assert_eq!(c.ctx_size, 4096);
    assert_eq!(c.batch_size, 512);
    assert_eq!(c.gpu_layers, 0);
    assert_eq!(c.temperature_bits, 0.7f32.to_bits());
    assert_eq!(c.top_p_bits, 0.9f32.to_bits());
    assert_eq!(c.repeat_penalty_bits, 1.1f32.to_bits());
    assert_eq!(c.top_k, 40);
    assert_eq!(c.max_tokens, -1);
    assert_eq!(c.server_host, "127.0.0.1");
    assert_eq!(c.server_port, 8080);
    assert!(c.flash_attn);
    assert!(!c.mlock);
    assert!(c.system_prompt.starts_with("You are Markus"));
    let d = MarkusConfig::default();
    assert!(d.threads >= 1);
    assert_eq!(d.ctx_size, 4096);
}

#[test]
fn zero_and_other_digits_outside_the_menu_change_nothing() {
    let mut a = app();
    a.handle_main_menu_key(KeyInput::Char('3'));
    for d in ['0', '7', '8', '9'] {
        assert_eq!(a.handle_main_menu_key(KeyInput::Char(d)), MenuAction::Stay);
        assert_eq!(a.menu_cursor, 2);
        assert_eq!(a.mode, AppMode::MainMenu);
        assert_eq!(a.status_msg, "Ready");
    }
    a.handle_main_menu_key(KeyInput::Char('6'));
    assert_eq!(a.menu_cursor, 5);
}

#[test]
fn s_serves_the_model_under_the_cursor() {
    let mut a = app_with_models();
    a.handle_model_browser_key(KeyInput::Down);
    match a.handle_model_browser_key(KeyInput::Char('s')) {
        BrowserAction::Serve(p) => assert_eq!(p, PathBuf::from("/models/b.gguf")),
        _ => panic!("expected a serve action"),
    }
    assert_eq!(a.selected_model, Some(PathBuf::from("/models/b.gguf")));
    assert_eq!(a.status_msg, "Starting API server on http://127.0.0.1:8080");
    assert_eq!(a.mode, AppMode::ModelBrowser);

    let mut empty = app();
    empty.mode = AppMode::ModelBrowser;
    assert!(matches!(empty.handle_model_browser_key(KeyInput::Char('s')), BrowserAction::Stay));
    assert_eq!(empty.selected_model, None);
}

#[test]
fn help_is_a_chat_command() {
    let (mut a, mut c) = chat_app();
    for ch in " /help ".chars() {
        a.handle_chat_key(&mut c, KeyInput::Char(ch), false, true);
    }
    assert!(matches!(a.handle_chat_key(&mut c, KeyInput::Enter, false, true), ChatAction::Stay));
    assert!(c.history.is_empty());
    assert!(!c.is_streaming);
    assert_eq!(a.status_msg, markus::app::CHAT_HELP);
}
