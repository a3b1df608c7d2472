use markus::pipeline::{format_chat_prompt, ChatMessage, CompletionCollector, GenerationState, StreamDelta, TokenEvent};
use markus::server::{completion_id_from, gen_id, prompt_messages};

fn msg(role: &str, content: &str) -> ChatMessage {
    ChatMessage { role: role.to_string(), content: content.to_string() }
}

#[test]
fn chatml_prompt() {
    let p = format_chat_prompt(&[msg("system", "S"), msg("user", "Hi")]);
    assert_eq!(p, "<|im_start|>system\nS<|im_end|>\n<|im_start|>user\nHi<|im_end|>\n<|im_start|>assistant\n");
    assert_eq!(format_chat_prompt(&[]), "<|im_start|>assistant\n");
}

#[test]
fn generation_budget_and_inputs() {
    let g = GenerationState::new(vec![1, 2, 3], -1, 10);
    assert!(!g.is_done());
    assert_eq!(g.next_input(), vec![1, 2, 3]);
    let g2 = GenerationState::new(vec![1, 2, 3], 0, 10);
    assert!(g2.is_done());
    let g3 = GenerationState::new(vec![5], 2, 10);
    assert!(!g3.is_done());
    let g4 = GenerationState::new(vec![1, 2, 3], -1, 3);
    assert!(g4.is_done());
}

#[test]
fn completion_collects_tokens_and_count() {
    let mut c = CompletionCollector::new();
    assert!(c.on_event(TokenEvent::Token("Hel".to_string())).is_none());
    assert!(c.on_event(TokenEvent::Token("lo".to_string())).is_none());
    assert!(c.on_event(TokenEvent::Done { tokens_generated: 2, elapsed_ms: 10 }).is_none());
    assert_eq!(c.content, "Hello");
    assert_eq!(c.total_tokens, 2);
    assert_eq!(c.on_event(TokenEvent::Error("boom".to_string())), Some("boom".to_string()));
    assert_eq!(c.content, "Hello");
}

#[test]
fn stream_chunks_for_each_event() {
    let d = StreamDelta::from_event(&TokenEvent::Token("x".to_string()));
    assert_eq!(d.content.as_deref(), Some("x"));
    assert!(d.finish_reason.is_none());
    let d = StreamDelta::from_event(&TokenEvent::Done { tokens_generated: 1, elapsed_ms: 1 });
    assert!(d.content.is_none());
    assert_eq!(d.finish_reason.as_deref(), Some("stop"));
    let d = StreamDelta::from_event(&TokenEvent::Error("bad".to_string()));
    assert_eq!(d.content.as_deref(), Some("[ERROR: bad]"));
    assert_eq!(d.finish_reason.as_deref(), Some("error"));
}

#[test]
fn completion_ids() {
    assert_eq!(completion_id_from("67e55044-10b1-426f-9247-bb680e5fe0c8"), "chatcmpl-67e5504410b1426f");
    let id = gen_id();
    assert_eq!(id.len(), 25);
    assert!(id.starts_with("chatcmpl-"));
    assert!(id[9..].chars().all(|c| c.is_ascii_hexdigit() && !c.is_ascii_uppercase()));
    assert_ne!(gen_id(), gen_id());
}

#[test]
fn plain_prompt_is_one_user_message() {
    let m = prompt_messages("Explain quantum computing".to_string());
    assert_eq!(m.len(), 1);
    assert_eq!(m[0].role, "user");
    assert_eq!(m[0].content, "Explain quantum computing");
}
