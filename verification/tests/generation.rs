use slm_inference::action::{Action, ActionFilter, BoxedAction, SlmAction, SlmBoxedAction};
use slm_inference::answer::{Answer, SlmAnswer};
use slm_inference::context::{ComputationZone, EditLevel, KvType};
use slm_inference::generation::{
    advances_constraint, cache_edit, plan_step, prefill_chunks, rollback_positions, CacheEdit, Generation,
    SlmGeneration, TokenLog,
};
use slm_inference::models::qwen25::Qwen25Formatter;
use slm_inference::vocab::ConstraintStep;

struct Always(Action);

impl ActionFilter<Action> for Always {
    fn decide(&mut self, _a: &str, _b: &str, _n: usize, _f: usize) -> Action {
        self.0
    }
}

struct Counting {
    calls: std::rc::Rc<std::cell::Cell<usize>>,
    answer: Action,
}

impl ActionFilter<Action> for Counting {
    fn decide(&mut self, _a: &str, _b: &str, _n: usize, _f: usize) -> Action {
        self.calls.set(self.calls.get() + 1);
        self.answer
    }
}

#[test]
fn brake_is_finish_stop_or_delay() {
    assert!(Action::Finish.brake());
    assert!(Action::Stop.brake());
    assert!(Action::Delay.brake());
    assert!(!Action::Continue.brake());
    assert!(!Action::Next.brake());
    assert!(SlmAction::Delay.brake());
    assert!(!SlmAction::Next.brake());
}

#[test]
fn token_limit_finishes_at_the_limit() {
    let mut limit = Action::token_limit(3);
    assert_eq!(limit.decide("", "", 2, 0), Action::Continue);
    assert_eq!(limit.decide("", "", 3, 0), Action::Finish);
    assert_eq!(limit.decide("", "", 4, 0), Action::Finish);
    let mut slm = SlmAction::token_limit(1);
    assert_eq!(slm.decide("", "", 0, 0), SlmAction::Continue);
    assert_eq!(slm.decide("", "", 1, 0), SlmAction::Finish);
}

#[test]
fn brake_on_returns_first_decision_other_than_next() {
    let calls = std::rc::Rc::new(std::cell::Cell::new(0));
    let mut filters: Vec<BoxedAction> = vec![
        None,
        Some(Box::new(Always(Action::Next))),
        Some(Box::new(Always(Action::Stop))),
        Some(Box::new(Counting { calls: calls.clone(), answer: Action::Finish })),
    ];
    assert_eq!(Action::brake_on("a", "b", 1, 0, &mut filters), Action::Stop);
    assert_eq!(calls.get(), 0);
}

#[test]
fn brake_on_defaults_to_continue() {
    let mut none: Vec<BoxedAction> = vec![None, None];
    assert_eq!(Action::brake_on("", "", 0, 0, &mut none), Action::Continue);
    let mut nexts: Vec<BoxedAction> = vec![Some(Box::new(Always(Action::Next)))];
    assert_eq!(Action::brake_on("", "", 0, 0, &mut nexts), Action::Continue);
    let mut empty: Vec<SlmBoxedAction> = vec![];
    assert_eq!(SlmAction::brake_on("", "", 0, 0, &mut empty), SlmAction::Continue);
}

#[test]
fn answer_accessors() {
    let a: Answer<String> = Answer::Complete("x".to_string(), Some("t".to_string()));
    assert!(a.is_complete());
    assert!(!a.is_partial());
    assert_eq!(a.value(), "x");
    assert_eq!(a.thought(), Some("t"));
    assert_eq!(a.text(), "x");
    let p: Answer<u32> = Answer::Partial(7);
    assert!(p.is_partial());
    assert_eq!(p.thought(), None);
    assert_eq!(p.text(), "7");
}

#[test]
fn answer_map_keeps_variant_and_thought() {
    let a = Answer::Complete(2, Some("why".to_string())).map(|x| x * 10);
    assert!(matches!(a, Answer::Complete(20, Some(ref t)) if t == "why"));
    let b = Answer::Incomplete(1).map(|x| x + 1);
    assert!(matches!(b, Answer::Incomplete(2)));
}

#[test]
fn split_thought_only_on_fresh_complete_answers() {
    let f = Qwen25Formatter::new(true);
    let a = Answer::Complete("<think>\nhmm</think>Yes".to_string(), None).split_thought(&f);
    assert!(matches!(a, Answer::Complete(ref t, Some(ref th)) if t == "Yes" && th == "hmm"));
    let p = Answer::Partial("<think>\nhmm".to_string()).split_thought(&f);
    assert!(matches!(p, Answer::Partial(ref t) if t == "<think>\nhmm"));
    let done = Answer::Complete("<think>\nx</think>y".to_string(), Some("kept".to_string())).split_thought(&f);
    assert!(matches!(done, Answer::Complete(ref t, Some(ref th)) if t == "<think>\nx</think>y" && th == "kept"));
}

#[test]
fn slm_answer_accessors_and_map() {
    let a = SlmAnswer::Partial("abc".to_string(), 3);
    assert_eq!(a.as_str(), "abc");
    assert_eq!(a.text(), "abc");
    assert_eq!(a.fork_id(), 3);
    assert!(a.is_partial());
    let b = a.map(|s| s.to_uppercase());
    assert!(matches!(b, SlmAnswer::Partial(ref s, 3) if s == "ABC"));
    let f = Qwen25Formatter::new(true);
    let c = SlmAnswer::Complete("<think>\nr</think>ok".to_string(), 2, None).split_thought(&f);
    assert_eq!(c.thought(), Some("r"));
    assert_eq!(c.as_str(), "ok");
    assert_eq!(c.fork_id(), 2);
    assert!(c.is_complete());
}

#[test]
fn generation_accepts_tokens_and_stops() {
    let mut g = Generation::new();
    assert!(g.running());
    let mut filters: Vec<BoxedAction> = vec![Some(Box::new(Action::token_limit(2)))];
    g.accept("Hel", &mut filters);
    assert!(g.running());
    g.accept("lo", &mut filters);
    assert!(!g.running());
    assert_eq!(g.n_tokens, 2);
    let answer = g.stopped();
    assert!(matches!(answer, Answer::Complete(ref t, None) if t == "Hello"));
}

#[test]
fn stopped_answer_follows_the_action() {
    let mut g = Generation::new();
    g.brake = Action::Stop;
    g.response = "x".to_string();
    assert!(matches!(g.stopped(), Answer::Incomplete(ref t) if t == "x"));
    let mut d = Generation::new();
    d.brake = Action::Delay;
    assert!(matches!(d.stopped(), Answer::Partial(_)));
    let c = Generation::new();
    assert!(matches!(c.complete(), Answer::Complete(ref t, None) if t.is_empty()));
}

#[test]
fn plan_step_cases() {
    let plain = plan_step(Action::Continue, 42, 10, None);
    assert_eq!(plain.batch, vec![(42, 10, true)]);
    assert!(plain.decode && !plain.finished);
    assert_eq!(plain.n_cur, 11);

    let ff = plan_step(Action::Continue, 1, 5, Some(ConstraintStep::FastForward(vec![7, 8])));
    assert_eq!(ff.batch, vec![(1, 5, false), (7, 6, false), (8, 7, true)]);
    assert_eq!(ff.n_cur, 8);

    let delayed = plan_step(Action::Delay, 3, 0, Some(ConstraintStep::Forward));
    assert_eq!(delayed.batch, vec![(3, 0, true)]);
    assert!(!delayed.decode);

    let stop = plan_step(Action::Continue, 3, 4, Some(ConstraintStep::Stop));
    assert!(stop.finished && stop.batch.is_empty() && stop.n_cur == 4);

    let finish = plan_step(Action::Finish, 3, 4, Some(ConstraintStep::Stop));
    assert!(!finish.finished && finish.batch.is_empty() && !finish.decode && finish.n_cur == 5);
}

#[test]
fn edit_levels_are_ordered() {
    assert_eq!(EditLevel::default(), EditLevel::DumpRestore);
    assert!(EditLevel::Truncate.includes(&EditLevel::Cut));
    assert!(EditLevel::Cut.includes(&EditLevel::Cut));
    assert!(!EditLevel::DumpRestore.includes(&EditLevel::Cut));
    assert_eq!(EditLevel::Cut.rank(), 1);
    assert!(EditLevel::Cut >= EditLevel::DumpRestore);
    assert_ne!(ComputationZone::CPU, ComputationZone::GPU);
    assert_ne!(KvType::Q4, KvType::F16);
}

#[test]
fn constraint_is_advanced_for_kept_tokens() {
    assert!(advances_constraint(Action::Continue));
    assert!(advances_constraint(Action::Delay));
    assert!(!advances_constraint(Action::Finish));
    assert!(!advances_constraint(Action::Next));
}

#[test]
fn prefill_is_decoded_in_batch_sized_chunks() {
    assert_eq!(prefill_chunks(2, 9, 3), vec![(2, 5), (5, 8), (8, 9)]);
    assert_eq!(prefill_chunks(0, 2, 0), vec![(0, 1), (1, 2)]);
    assert!(prefill_chunks(4, 4, 8).is_empty());
    assert!(prefill_chunks(5, 3, 8).is_empty());
}

#[test]
fn cache_edits_and_rollback_positions() {
    assert_eq!(cache_edit(3, 5, EditLevel::DumpRestore), CacheEdit::Keep);
    assert_eq!(cache_edit(9, 5, EditLevel::Cut), CacheEdit::Truncate(5));
    assert_eq!(cache_edit(9, 5, EditLevel::Truncate), CacheEdit::Truncate(5));
    assert_eq!(cache_edit(9, 5, EditLevel::DumpRestore), CacheEdit::Drop);
    assert_eq!(rollback_positions(10, 8, 6), (6, 6));
    assert_eq!(rollback_positions(4, 3, 6), (4, 3));
}

#[test]
fn slm_generation_answers_carry_the_fork() {
    let mut g = SlmGeneration::new();
    assert!(g.running());
    let mut filters: Vec<SlmBoxedAction> = vec![None, Some(Box::new(SlmAction::token_limit(2)))];
    g.accept("Hel", 3, &mut filters);
    assert!(g.running());
    assert_eq!(g.brake, SlmAction::Continue);
    g.accept("lo", 3, &mut filters);
    assert!(!g.running());
    assert_eq!(g.n_tokens, 2);
    assert!(matches!(g.stopped(3), SlmAnswer::Complete(ref t, 3, None) if t == "Hello"));
    let mut s = SlmGeneration::new();
    s.brake = SlmAction::Stop;
    s.response = "x".to_string();
    assert!(matches!(s.stopped(1), SlmAnswer::Incomplete(ref t, 1) if t == "x"));
    let mut d = SlmGeneration::new();
    d.brake = SlmAction::Delay;
    assert!(matches!(d.stopped(2), SlmAnswer::Partial(_, 2)));
    assert!(matches!(SlmGeneration::new().complete(5), SlmAnswer::Complete(ref t, 5, None) if t.is_empty()));
}

#[test]
fn callbacks_after_the_decider_are_not_polled() {
    let calls = std::rc::Rc::new(std::cell::Cell::new(0));
    let mut filters: Vec<BoxedAction> = vec![
        Some(Box::new(Action::token_limit(2))),
        Some(Box::new(Counting { calls: calls.clone(), answer: Action::Stop })),
    ];
    assert_eq!(Action::brake_on("a", "b", 2, 0, &mut filters), Action::Finish);
    assert_eq!(calls.get(), 0);
    assert_eq!(Action::brake_on("a", "b", 1, 0, &mut filters), Action::Continue);
    assert_eq!(calls.get(), 0);
    let mut later: Vec<BoxedAction> = vec![
        None,
        Some(Box::new(Always(Action::Next))),
        Some(Box::new(Counting { calls: calls.clone(), answer: Action::Stop })),
    ];
    assert_eq!(Action::brake_on("a", "b", 1, 0, &mut later), Action::Stop);
    assert_eq!(calls.get(), 1);
}

#[test]
fn slm_answer_reads_as_its_text() {
    let answers = [
        SlmAnswer::Complete("s".to_string(), 1, Some("t".to_string())),
        SlmAnswer::Partial("s".to_string(), 2),
        SlmAnswer::Incomplete("s".to_string(), 3),
    ];
    for a in answers {
        assert_eq!(&*a, "s");
        assert_eq!(AsRef::<str>::as_ref(&a), "s");
        assert_eq!(a.as_str(), "s");
        assert_eq!(String::from(a), "s");
    }
}

#[test]
fn token_log_rollback_restores_the_sequence() {
    let mut log = TokenLog::new();
    log.extend(&[1, 2, 3]);
    let saved = log.pos();
    log.extend(&[4, 5]);
    log.tokens.push(6);
    log.n_cur = 6;
    log.rollback(saved);
    assert_eq!(log.tokens, vec![1, 2, 3]);
    assert_eq!(log.n_cur, 3);
    assert_eq!(log.pos(), saved);
    log.rollback(10);
    assert_eq!(log.tokens, vec![1, 2, 3]);
    log.clear();
    assert_eq!(log.pos(), 0);
    assert_eq!(log.n_cur, 0);
}
