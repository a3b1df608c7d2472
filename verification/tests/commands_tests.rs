use markus::commands::{confirmed, download_percent, find_model, pick_listed_model, ChatSession, ChatTurn, ConfigAction, PickFault};

fn names() -> Vec<String> {
    vec![
        "Llama-3.2-3B-Instruct-Q4_K_M.gguf".to_string(),
        "Qwen3-8B-Q4_K_M.gguf".to_string(),
        "phi-4-Q4_K_M.gguf".to_string(),
    ]
}

#[test]
fn run_by_index_picks_the_numbered_model() {
    let n = names();
    assert_eq!(find_model("1", &n), Some(0));
    assert_eq!(find_model("3", &n), Some(2));
    assert_eq!(find_model("0", &n), Some(0));
    assert_eq!(find_model("+2", &n), Some(1));
}

#[test]
fn run_by_name_fragment_ignores_case() {
    let n = names();
    assert_eq!(find_model("qwen3", &n), Some(1));
    assert_eq!(find_model("PHI", &n), Some(2));
    assert_eq!(find_model("q4_k_m", &n), Some(0));
    assert_eq!(find_model("mistral", &n), None);
}

#[test]
fn out_of_range_number_falls_back_to_the_name() {
    let n = vec!["model-7.gguf".to_string(), "model-70.gguf".to_string()];
    assert_eq!(find_model("70", &n), Some(1));
    assert_eq!(find_model("9", &n), None);
    assert_eq!(find_model("1", &Vec::new()), None);
}

#[test]
fn picker_reads_a_number() {
    assert_eq!(pick_listed_model(" 2 \n", 3), Ok(1));
    assert_eq!(pick_listed_model("1", 3), Ok(0));
    assert_eq!(pick_listed_model("0", 3), Ok(0));
    assert_eq!(pick_listed_model("4", 3), Err(PickFault::OutOfRange));
    assert_eq!(pick_listed_model("two", 3), Err(PickFault::InvalidNumber));
    assert_eq!(pick_listed_model("", 3), Err(PickFault::InvalidNumber));
}

#[test]
fn removal_needs_a_yes() {
    assert!(confirmed("y"));
    assert!(confirmed(" Y \n"));
    assert!(!confirmed("yes"));
    assert!(!confirmed("n"));
    assert!(!confirmed(""));
}

#[test]
fn config_actions() {
    assert_eq!(ConfigAction::parse("show"), ConfigAction::Show);
    assert_eq!(ConfigAction::parse("get"), ConfigAction::Show);
    assert_eq!(ConfigAction::parse("edit"), ConfigAction::Edit);
    assert_eq!(ConfigAction::parse("reset"), ConfigAction::Reset);
    assert_eq!(ConfigAction::parse("Show"), ConfigAction::Unknown);
    assert_eq!(ConfigAction::parse(""), ConfigAction::Unknown);
}

#[test]
fn download_progress_percent() {
    assert_eq!(download_percent(0, 0), 0);
    assert_eq!(download_percent(500, 0), 0);
    assert_eq!(download_percent(50, 200), 25);
    assert_eq!(download_percent(199, 200), 99);
    assert_eq!(download_percent(200, 200), 100);
}

fn roles(msgs: &[markus::pipeline::ChatMessage]) -> Vec<(String, String)> {
    msgs.iter().map(|m| (m.role.clone(), m.content.clone())).collect()
}

#[test]
fn interactive_chat_session() {
    let mut s = ChatSession::new("be brief".to_string());
    assert!(matches!(s.on_line("   "), ChatTurn::Skip));
    match s.on_line("  hi there \n") {
        ChatTurn::Ask(m) => assert_eq!(
            roles(&m),
            vec![("system".to_string(), "be brief".to_string()), ("user".to_string(), "hi there".to_string())]
        ),
        _ => panic!("expected a request"),
    }
    s.on_reply("hello!".to_string());
    s.on_reply(String::new());
    match s.on_line("/info") {
        ChatTurn::Info { turns } => assert_eq!(turns, 1),
        _ => panic!("expected info"),
    }
    match s.on_line("again") {
        ChatTurn::Ask(m) => {
            let r = roles(&m);
            assert_eq!(r.len(), 4);
            assert_eq!(r[2], ("assistant".to_string(), "hello!".to_string()));
            assert_eq!(r[3], ("user".to_string(), "again".to_string()));
        },
        _ => panic!("expected a request"),
    }
    assert!(matches!(s.on_line("/clear"), ChatTurn::Cleared));
    match s.on_line("/info") {
        ChatTurn::Info { turns } => assert_eq!(turns, 0),
        _ => panic!("expected info"),
    }
    match s.on_line("fresh") {
        ChatTurn::Ask(m) => assert_eq!(m.len(), 2),
        _ => panic!("expected a request"),
    }
    for q in ["exit", "quit", "/exit", " /quit "] {
        assert!(matches!(s.on_line(q), ChatTurn::Quit));
    }
    assert!(matches!(s.on_line("EXIT"), ChatTurn::Ask(_)));
}
