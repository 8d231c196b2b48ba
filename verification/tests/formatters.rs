use slm_inference::errors::ModelFormatterError;
use slm_inference::formatter::{DynamicFormatter, Formatter, Role, ToolStyle};
use slm_inference::models::gemma4::{Gemma4Flavor, GemmaFormatter};
use slm_inference::models::llama3::Llama3Formatter;
use slm_inference::models::mistral::{MistralFlavor, MistralFormatter};
use slm_inference::models::phi4::Phi4Formatter;
use slm_inference::models::qwen25::Qwen25Formatter;

#[test]
fn qwen_chatml_delimiters() {
    let f = Qwen25Formatter::new(true);
    assert_eq!(f.bos(), None);
    assert_eq!(f.turn_start(&Role::User), "<|im_start|>user\n");
    assert_eq!(f.turn_start(&Role::Assistant), "<|im_start|>assistant\n");
    assert_eq!(f.turn_end(&Role::System), "<|im_end|>\n");
    assert_eq!(f.reasoning_bounds(), Some(("<think>\n", "</think>")));
    assert_eq!(f.reasoning_trigger(), Some("<think>\n"));
    assert_eq!(f.tool_style(), ToolStyle::Inline);
}

#[test]
fn qwen_without_thinking_has_no_reasoning() {
    let f = Qwen25Formatter::new(false);
    assert_eq!(f.reasoning_bounds(), None);
    assert_eq!(f.reasoning_trigger(), None);
    assert_eq!(f.wrap_reasoning("  x "), "  x ");
}

#[test]
fn qwen_tool_formatting() {
    let f = Qwen25Formatter::new(false);
    assert_eq!(f.format_tool_call("calc", " {\"a\":1} "), "{\"name\": \"calc\", \"arguments\": {\"a\":1}}");
    assert_eq!(f.format_tool_response("calc", " 2 "), "<|im_start|>tool\n2<|im_end|>\n");
}

#[test]
fn qwen_strip_tags_removes_markup() {
    let f = Qwen25Formatter::new(true);
    let text = "<|im_start|>assistant\nHello<|im_start|>tool\nresult<|im_end|>\n world<|im_end|>\n";
    assert_eq!(f.strip_tags(text), "Helloresult\n world");
}

#[test]
fn llama3_headers() {
    let f = Llama3Formatter;
    assert_eq!(f.bos(), Some("<|begin_of_text|>"));
    assert_eq!(f.turn_start(&Role::System), "<|start_header_id|>system<|end_header_id|>\n\n");
    assert_eq!(f.turn_end(&Role::User), "<|eot_id|>");
    assert_eq!(f.tool_style(), ToolStyle::SeparateTurn);
    assert_eq!(f.wrap_reasoning(" plan "), "<think>\nplan\n</think>\n");
    assert_eq!(f.format_tool_call("f", " {} "), "{\"name\": \"f\", \"parameters\": {}}");
    assert_eq!(f.strip_tags("<|begin_of_text|>hi<|eot_id|>"), "hi");
}

#[test]
fn gemma_delimiters_and_tool_calls() {
    let g = GemmaFormatter::new(Gemma4Flavor::GoogleOfficial, true);
    assert_eq!(g.bos(), Some("<bos>"));
    assert_eq!(g.turn_start(&Role::Assistant), "<|turn>model\n");
    assert_eq!(g.turn_end(&Role::Assistant), "<turn|>\n");
    assert_eq!(g.format_tool_call("f", " x "), "<|tool_call>call:f{{x}}<tool_call|>");
    let v = GemmaFormatter::new(Gemma4Flavor::Vanilla, false);
    assert_eq!(v.format_tool_call("f", " x "), "<|tool_call>call:f{x}<tool_call|>");
    assert_eq!(v.format_tool_response("f", " 1 "), "<|tool_response>response:f{value:1}<tool_response|>");
    assert_eq!(v.reasoning_bounds(), None);
}

#[test]
fn gemma_strip_tags_drops_tool_blocks() {
    let g = GemmaFormatter::new(Gemma4Flavor::UnslothFixed, true);
    let text = "<|turn>model\nA <|tool_call>call:f{}<tool_call|>B<turn|>\n";
    assert_eq!(g.strip_tags(text), "A B");
}

#[test]
fn mistral_and_phi4_reasoning_markers() {
    let m = MistralFormatter::new(MistralFlavor::V3Tekken, true);
    assert_eq!(m.reasoning_bounds(), Some(("<think>\n", "\n</think>")));
    assert_eq!(m.wrap_reasoning("idea"), "<think>\nidea\n</think>");
    let p = Phi4Formatter::new(true);
    assert_eq!(p.reasoning_bounds(), Some(("<think>\n", "\n</think>")));
    assert_eq!(p.tool_style(), ToolStyle::Inline);
}

#[test]
fn strip_thought_separates_reasoning() {
    let f = Qwen25Formatter::new(true);
    let (text, thought) = f.strip_thought("<think>\nweigh options</think>\n The answer.");
    assert_eq!(text, "The answer.");
    assert_eq!(thought.as_deref(), Some("weigh options"));
}

#[test]
fn strip_thought_without_reasoning_block() {
    let f = Qwen25Formatter::new(true);
    let (text, thought) = f.strip_thought("  plain  ");
    assert_eq!(text, "plain");
    assert_eq!(thought, None);
}

#[test]
fn unterminated_reasoning_runs_to_the_end() {
    let f = Qwen25Formatter::new(true);
    let (text, thought) = f.strip_thought("Before <think>\nstill thinking");
    assert_eq!(text, "Before");
    assert_eq!(thought.as_deref(), Some("still thinking"));
}

#[test]
fn clean_removes_reasoning_and_markup() {
    let f = Qwen25Formatter::new(true);
    assert_eq!(f.clean("<think>\nhidden</think>visible<|im_end|>\n"), "visible");
}

#[test]
fn wrapped_reasoning_is_split_back() {
    for name in ["qwen25", "llama3", "gemma4", "mistral", "phi4"] {
        let f = DynamicFormatter::try_from(name).unwrap();
        let wrapped = f.wrap_reasoning("  a careful plan ");
        let (text, thought) = f.strip_thought(&wrapped);
        assert_eq!(text, "", "formatter {}", name);
        assert_eq!(thought.as_deref(), Some("a careful plan"), "formatter {}", name);
        let (text, thought) = f.strip_thought(&format!("{wrapped} The answer. "));
        assert_eq!(text, "The answer.", "formatter {}", name);
        assert_eq!(thought.as_deref(), Some("a careful plan"), "formatter {}", name);
    }
}

#[test]
fn dynamic_formatter_names() {
    assert!(matches!(DynamicFormatter::try_from("LLAMA3"), Ok(DynamicFormatter::Llama3(_))));
    assert!(matches!(DynamicFormatter::try_from("qwen25"), Ok(DynamicFormatter::Qwen25(_))));
    assert!(matches!(DynamicFormatter::try_from("mistral-legacy"), Ok(DynamicFormatter::Mistral(_))));
    assert!(matches!(DynamicFormatter::try_from("gemma4-google"), Ok(DynamicFormatter::Gemma(_))));
    assert!(matches!(DynamicFormatter::try_from("Phi4"), Ok(DynamicFormatter::Phi4(_))));
}

#[test]
fn unknown_formatter_name_is_reported_as_given() {
    match DynamicFormatter::try_from("GPT-X") {
        Err(ModelFormatterError::UnknownModelFormatter(name)) => assert_eq!(name, "GPT-X"),
        _ => panic!("expected an unknown formatter"),
    }
}

#[test]
fn dynamic_formatter_delegates() {
    let f = DynamicFormatter::try_from("gemma4").unwrap();
    assert_eq!(f.bos(), Some("<bos>"));
    assert_eq!(f.reasoning_trigger(), Some("<|channel>thought\n"));
    assert_eq!(f.tool_style(), ToolStyle::Inline);
}

#[test]
fn qwen_leftover_tool_container_needs_a_following_character() {
    let f = Qwen25Formatter::new(false);
    let broken = "<|im_<|im_start|>start|>toolX<|im_<|im_end|>end|>";
    assert!(!f.strip_tags_ok(broken));
    assert!(!f.strip_thought_ok(broken));
    let fine = "<|im_<|im_start|>start|>toolX<|im_<|im_end|>end|>!rest";
    assert!(f.strip_tags_ok(fine));
    assert_eq!(f.strip_tags(fine), "rest");
    assert!(Llama3Formatter.strip_tags_ok(broken));
}

#[test]
fn mistral_tool_call_markup() {
    let f = MistralFormatter::new(MistralFlavor::V3Tekken, false);
    assert_eq!(
        f.format_tool_call("get", " {\"id\": 1} "),
        "[TOOL_CALLS][{\"name\": \"get\", \"arguments\": {\"id\": 1}}][/TOOL_CALLS]"
    );
}

#[test]
fn mistral_strip_tags_drops_tool_call_blocks() {
    let f = MistralFormatter::new(MistralFlavor::V3Tekken, false);
    assert_eq!(f.strip_tags("Hi [TOOL_CALLS][{\"name\": \"get\"}][/TOOL_CALLS]"), "Hi");
    let call = f.format_tool_call("get", "{}");
    assert_eq!(f.strip_tags(&format!("[INST]Q [/INST]\nA{call}")), "Q \nA");
    assert_eq!(f.strip_tags("x[TOOL_RESULTS]r[/TOOL_RESULTS]y"), "xy");
}

#[test]
fn clean_removes_the_whole_reasoning_block() {
    let f = Llama3Formatter;
    let x = "<think>\nplan\n</think>\nHi";
    assert_eq!(f.clean(x), "Hi");
    assert_eq!(f.clean(x), f.strip_thought(x).0);
}

#[test]
fn gemma_strip_tags_removes_its_own_markup() {
    for flavor in [Gemma4Flavor::Vanilla, Gemma4Flavor::GoogleOfficial, Gemma4Flavor::UnslothFixed] {
        let f = GemmaFormatter::new(flavor, true);
        for role in [Role::System, Role::User, Role::Assistant] {
            let turn = format!("{}  hi there {}", f.turn_start(&role), f.turn_end(&role));
            assert_eq!(f.strip_tags(&turn), "hi there");
        }
        let call = format!("Let me look. {}", f.format_tool_call("get", " {\"id\": 1} "));
        assert_eq!(f.strip_tags(&call), "Let me look.");
        assert_eq!(f.strip_tags(&f.format_tool_response("get", " 42 ")), "");
    }
}

#[test]
fn gemma_strip_tags_keeps_other_angle_brackets() {
    let f = GemmaFormatter::new(Gemma4Flavor::Vanilla, false);
    let turn = format!("{} a < b <x> {}", f.turn_start(&Role::User), f.turn_end(&Role::User));
    assert_eq!(f.strip_tags(&turn), "a < b <x>");
    let call = format!("see <this> {}", f.format_tool_call("f<1>", "<a>"));
    assert_eq!(f.strip_tags(&call), "see <this>");
    assert_eq!(f.strip_tags(&f.format_tool_response("t<", "<v>")), "");
}
