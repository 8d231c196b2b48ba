use slm_inference::chat::{ChatCore, ChatRole};
use slm_inference::errors::InferenceError;
use slm_inference::formatter::{Formatter, Role};
use slm_inference::models::llama3::Llama3Formatter;
use slm_inference::models::qwen25::Qwen25Formatter;

fn chat<F: Formatter>(core: &mut ChatCore, f: &F, role: ChatRole, text: &str) -> String {
    let mut fragment = String::new();
    core.prepare_prompt(f, &role, text, &mut fragment);
    fragment
}

#[test]
fn inline_chat_turns() {
    let f = Qwen25Formatter::new(false);
    let mut core = ChatCore::new();
    assert_eq!(core.max_answer_tokens, 1024);
    assert_eq!(chat(&mut core, &f, ChatRole::User, "Q"), "<|im_start|>user\nQ<|im_end|>\n");
    assert_eq!(core.active_turn, None);
    assert_eq!(chat(&mut core, &f, ChatRole::Assistant, "A"), "<|im_start|>assistant\nA");
    assert_eq!(core.active_turn, Some(Role::Assistant));
    let response = f.format_tool_response("calc", "4");
    assert_eq!(chat(&mut core, &f, ChatRole::Tool("calc".to_string()), "4"), response);
    assert_eq!(
        chat(&mut core, &f, ChatRole::System, "S"),
        "<|im_end|>\n<|im_start|>system\nS<|im_end|>\n"
    );
    assert_eq!(core.active_turn, None);
    let mut fresh = ChatCore::new();
    assert_eq!(
        chat(&mut fresh, &f, ChatRole::Tool("calc".to_string()), "4"),
        format!("<|im_start|>assistant\n{response}")
    );
}

#[test]
fn separate_turn_chat_gives_tools_their_own_turn() {
    let f = Llama3Formatter;
    let mut core = ChatCore::new();
    assert_eq!(
        chat(&mut core, &f, ChatRole::Tool("calc".to_string()), " 4 "),
        "<|begin_of_text|><|start_header_id|>ipython<|end_header_id|>\n\n4<|eot_id|>"
    );
    assert_eq!(
        chat(&mut core, &f, ChatRole::Assistant, "A"),
        "<|start_header_id|>assistant<|end_header_id|>\n\nA<|eot_id|>"
    );
    assert_eq!(core.active_turn, None);
    core.clear();
    assert!(core.is_fresh_context);
}

#[test]
fn chat_generation_and_closing() {
    let q = Qwen25Formatter::new(false);
    let mut core = ChatCore::new();
    assert!(matches!(core.generate_fragment(&q, &ChatRole::System, "x"), Err(InferenceError::InvalidRole)));
    assert!(matches!(core.generate_fragment(&q, &ChatRole::Assistant, "x"), Err(InferenceError::InvalidRole)));
    assert!(core.is_fresh_context);
    let fragment = core.generate_fragment(&q, &ChatRole::User, "Q").unwrap();
    assert_eq!(fragment, "<|im_start|>user\nQ<|im_end|>\n<|im_start|>assistant\n");
    assert_eq!(core.answer_closing(&q, true), None);
    assert_eq!(core.active_turn, Some(Role::Assistant));
    let l = Llama3Formatter;
    let mut lc = ChatCore::new();
    lc.generate_fragment(&l, &ChatRole::User, "Q").unwrap();
    assert_eq!(lc.answer_closing(&l, false), None);
    assert_eq!(lc.answer_closing(&l, true), Some("<|eot_id|>".to_string()));
    assert_eq!(lc.active_turn, None);
}
