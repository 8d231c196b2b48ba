use slm_inference::answer::Answer;
use slm_inference::errors::InferenceError;
use slm_inference::formatter::Role;
use slm_inference::models::llama3::Llama3Formatter;
use slm_inference::models::qwen25::Qwen25Formatter;
use slm_inference::oracle::{OracleCore, OracleState, SlmOracleState, DEFAULT_MAX_ANSWER_TOKENS};

fn prompt<F: slm_inference::formatter::Formatter>(core: &mut OracleCore, f: &F, role: Role, text: &str) -> String {
    let mut fragment = String::new();
    core.prepare_prompt(f, &role, text, &mut fragment);
    fragment
}

#[test]
fn new_core_is_fresh() {
    let core = OracleCore::new();
    assert_eq!(core.max_answer_tokens, DEFAULT_MAX_ANSWER_TOKENS);
    assert_eq!(core.max_answer_tokens, 1024);
    assert!(core.is_fresh_context);
    assert_eq!(core.active_turn, None);
    assert_eq!(core.reset_point, None);
}

#[test]
fn inline_turns_open_and_close() {
    let f = Qwen25Formatter::new(false);
    let mut core = OracleCore::new();
    assert_eq!(prompt(&mut core, &f, Role::System, "Be brief."), "<|im_start|>system\nBe brief.");
    assert_eq!(prompt(&mut core, &f, Role::System, " More."), " More.");
    assert_eq!(
        prompt(&mut core, &f, Role::User, "Hi"),
        "<|im_end|>\n<|im_start|>user\nHi"
    );
    assert_eq!(core.active_turn, Some(Role::User));
    assert_eq!(prompt(&mut core, &f, Role::Assistant, "Hello"), "<|im_end|>\n<|im_start|>assistant\nHello");
    assert_eq!(
        prompt(&mut core, &f, Role::User, "Again"),
        "<|im_end|>\n<|im_start|>user\nAgain"
    );
}

#[test]
fn bos_is_sent_once_and_again_after_clear() {
    let f = Llama3Formatter;
    let mut core = OracleCore::new();
    let first = prompt(&mut core, &f, Role::System, "S");
    assert_eq!(first, "<|begin_of_text|><|start_header_id|>system<|end_header_id|>\n\nS");
    assert_eq!(prompt(&mut core, &f, Role::User, "U"), "<|eot_id|><|start_header_id|>user<|end_header_id|>\n\nU");
    core.clear();
    assert!(core.is_fresh_context);
    assert_eq!(prompt(&mut core, &f, Role::System, "S"), first);
}

#[test]
fn generation_fragment_switches_to_the_assistant() {
    let f = Qwen25Formatter::new(true);
    let mut core = OracleCore::new();
    let (fragment, trigger) = core.generate_fragment(&f, &Role::User, "Q?", true, 0).unwrap();
    assert_eq!(
        fragment,
        "<|im_start|>user\nQ?<|im_end|>\n<|im_start|>assistant\n<think>\n"
    );
    assert_eq!(trigger, Some("<think>\n"));
    assert_eq!(core.active_turn, Some(Role::Assistant));
    let (again, none) = core.generate_fragment(&f, &Role::User, "R", false, 5).unwrap();
    assert_eq!(again, "<|im_end|>\n<|im_start|>user\nR<|im_end|>\n<|im_start|>assistant\n");
    assert_eq!(none, None);
}

#[test]
fn only_user_prompts_start_a_generation() {
    let f = Qwen25Formatter::new(false);
    let mut core = OracleCore::new();
    assert!(matches!(core.generate_fragment(&f, &Role::Assistant, "x", false, 0), Err(InferenceError::InvalidRole)));
    assert!(matches!(core.generate_fragment(&f, &Role::System, "x", false, 0), Err(InferenceError::InvalidRole)));
    assert!(core.is_fresh_context);
    assert_eq!(core.active_turn, None);
}

#[test]
fn generate_answer_restores_trigger_and_splits_thought() {
    let f = Qwen25Formatter::new(true);
    let mut core = OracleCore::new();
    core.active_turn = Some(Role::Assistant);
    let a = core.generate_answer(&f, Answer::Complete("plan</think>Done".to_string(), None), true, false);
    assert!(matches!(a, Answer::Complete(ref t, Some(ref th)) if t == "Done" && th == "plan"));
    assert_eq!(core.active_turn, Some(Role::Assistant));
}

#[test]
fn retained_complete_answer_closes_the_turn() {
    let f = Qwen25Formatter::new(false);
    let mut core = OracleCore::new();
    core.active_turn = Some(Role::Assistant);
    core.reset_point = Some(OracleState::new(3, Some(Role::User)));
    let a = core.generate_answer(&f, Answer::Complete(" ok ".to_string(), None), false, false);
    assert!(matches!(a, Answer::Complete(ref t, None) if t == "ok"));
    assert_eq!(core.active_turn, None);
    assert_eq!(core.reset_point, None);
    let mut kept = OracleCore::new();
    kept.active_turn = Some(Role::Assistant);
    let p = kept.generate_answer(&f, Answer::Partial("so far".to_string()), false, false);
    assert!(matches!(p, Answer::Partial(ref t) if t == "so far"));
    assert_eq!(kept.active_turn, Some(Role::Assistant));
}

#[test]
fn save_and_rollback_restore_the_turn() {
    let f = Qwen25Formatter::new(false);
    let mut core = OracleCore::new();
    prompt(&mut core, &f, Role::User, "a");
    let state = core.save(17);
    assert_eq!(state.pos, 17);
    prompt(&mut core, &f, Role::Assistant, "b");
    assert_eq!(core.active_turn, Some(Role::Assistant));
    core.rollback(&state);
    assert_eq!(core.active_turn, Some(Role::User));
}

#[test]
fn reset_point_is_released_once() {
    let mut core = OracleCore::new();
    core.reset_point = Some(OracleState::new(9, Some(Role::Assistant)));
    assert_eq!(core.release_reset_point(), Some(9));
    assert_eq!(core.active_turn, Some(Role::Assistant));
    assert_eq!(core.release_reset_point(), None);
    core.set_max_answer_tokens(64);
    assert_eq!(core.max_answer_tokens, 64);
}

#[test]
fn oracle_state_constructors() {
    let s = OracleState::new(4, None);
    assert_eq!((s.pos, s.role), (4, None));
    let t = SlmOracleState::new(5, Some(Role::User));
    assert_eq!((t.pos, t.role), (5, Some(Role::User)));
}

#[test]
fn separate_turn_same_role_adds_only_text() {
    let f = Llama3Formatter;
    let mut core = OracleCore::new();
    prompt(&mut core, &f, Role::User, "first");
    assert_eq!(prompt(&mut core, &f, Role::User, " second"), " second");
    assert_eq!(core.active_turn, Some(Role::User));
}

#[test]
fn answers_are_checked_before_splitting() {
    let f = Qwen25Formatter::new(false);
    let broken = Answer::Complete("<|im_<|im_start|>start|>toolX<|im_<|im_end|>end|>".to_string(), None);
    assert!(!OracleCore::answer_splits(&f, &broken, false));
    let fine = Answer::Complete("text".to_string(), None);
    assert!(OracleCore::answer_splits(&f, &fine, false));
    let partial = Answer::Partial("<|im_<|im_start|>start|>toolX<|im_<|im_end|>end|>".to_string());
    assert!(OracleCore::answer_splits(&f, &partial, false));
}

#[test]
fn ask_leaves_the_context_as_it_found_it() {
    let f = Qwen25Formatter::new(false);
    let mut core = OracleCore::new();
    let mut fragment = String::new();
    core.prepare_prompt(&f, &Role::System, "S", &mut fragment);
    let before = core;
    core.generate_fragment(&f, &Role::User, "Q", false, 4).unwrap();
    assert_eq!(core.active_turn, Some(Role::Assistant));
    let answer = core.generate_answer(&f, Answer::Complete("A".to_string(), None), false, true);
    assert!(matches!(answer, Answer::Complete(ref t, None) if t == "A"));
    assert_eq!(core.release_reset_point(), Some(4));
    assert_eq!(core, before);
    assert_eq!(core.active_turn, Some(Role::System));
}

#[test]
fn ask_on_a_fresh_context_stays_fresh() {
    let f = Qwen25Formatter::new(false);
    let mut core = OracleCore::new();
    let before = core;
    core.generate_fragment(&f, &Role::User, "Q", false, 0).unwrap();
    assert!(!core.is_fresh_context);
    core.generate_answer(&f, Answer::Partial("A".to_string()), false, true);
    assert_eq!(core.release_reset_point(), Some(0));
    assert_eq!(core, before);
}

#[test]
fn completed_turn_keeps_the_exchange() {
    let f = Qwen25Formatter::new(false);
    let mut core = OracleCore::new();
    core.generate_fragment(&f, &Role::User, "Q", false, 0).unwrap();
    core.generate_answer(&f, Answer::Complete("A".to_string(), None), false, false);
    assert_eq!(core.release_reset_point(), None);
    assert_eq!(core.active_turn, None);
    assert!(!core.is_fresh_context);
}
