use modelcheck::generation::{
    is_penalized, is_stop_token, kv_cache_shape, last_logits_range, pair_kv_names, position_ids,
    present_name_candidates, stop_token_names, top_k_keep, GenerationRun, GenerationState, LoopControl,
    ThinkFilter,
};

fn s(v: &[&str]) -> Vec<String> {
    v.iter().map(|x| x.to_string()).collect()
}

#[test]
fn kv_shape_replaces_dynamic_dims() {
    assert_eq!(kv_cache_shape(Some(&vec![-1, 8, -1, 128])), vec![1, 8, 0, 128]);
    assert_eq!(kv_cache_shape(Some(&vec![2, -1])), vec![2, 0]);
    assert_eq!(kv_cache_shape(None), vec![1, 32, 0, 96]);
}

#[test]
fn kv_names_pair_inputs_with_outputs() {
    let inputs = s(&["input_ids", "past_key_values.0.key", "past_key_values.0.value", "past_x"]);
    let outputs = s(&["logits", "present.0.key", "present.0.value"]);
    assert_eq!(
        pair_kv_names(&inputs, &outputs),
        vec![
            ("past_key_values.0.key".to_string(), "present.0.key".to_string()),
            ("past_key_values.0.value".to_string(), "present.0.value".to_string()),
        ]
    );
    let outputs2 = s(&["present_key_values.0.key"]);
    assert_eq!(
        pair_kv_names(&s(&["past_key_values.0.key"]), &outputs2),
        vec![("past_key_values.0.key".to_string(), "present_key_values.0.key".to_string())]
    );
}

#[test]
fn candidates_in_order() {
    assert_eq!(
        present_name_candidates("past_key_values.3.key"),
        s(&["present_key_values.3.key", "present.3.key", "present.key_values.3.key"])
    );
}

#[test]
fn positions_repeat_for_three_axes() {
    assert_eq!(position_ids(2, 3), vec![2, 3, 4, 2, 3, 4, 2, 3, 4]);
    assert_eq!(position_ids(5, 0), Vec::<i64>::new());
}

#[test]
fn last_logits_are_the_last_row() {
    assert_eq!(last_logits_range(&vec![1, 4, 10]), (30, 40));
    assert_eq!(last_logits_range(&vec![1, 1, 7]), (0, 7));
}

#[test]
fn stop_and_penalty_decisions() {
    let stop = vec![7u32, 9];
    assert!(is_stop_token(&stop, 9));
    assert!(!is_stop_token(&stop, 8));
    let history = vec![1i64, 7, 3];
    assert!(is_penalized(&history, &stop, 3));
    assert!(!is_penalized(&history, &stop, 7));
    assert!(!is_penalized(&history, &stop, 4));
    assert_eq!(top_k_keep(0, 10), 10);
    assert_eq!(top_k_keep(3, 10), 3);
    assert_eq!(top_k_keep(20, 10), 10);
    assert_eq!(stop_token_names(), vec!["<|im_end|>", "<|end|>", "<|eot_id|>", "<|endoftext|>"]);
}

#[test]
fn generation_state_moves_tokens_to_cache() {
    let mut g = GenerationState::new(vec![5, 6, 7]);
    assert_eq!(g.total_len(), 3);
    g.advance(11);
    assert_eq!(g.past_len, 3);
    assert_eq!(g.current, vec![11]);
    assert_eq!(g.history, vec![5, 6, 7, 11]);
    assert_eq!(g.total_len(), 4);
    g.advance(12);
    assert_eq!(g.past_len, 4);
    assert_eq!(g.history, vec![5, 6, 7, 11, 12]);
}

fn run(tokens: &[&str]) -> Vec<String> {
    let mut f = ThinkFilter::new();
    tokens.iter().filter_map(|t| f.step(t)).collect()
}

#[test]
fn think_sections_are_hidden() {
    assert_eq!(run(&["<think>", "let me", " see", "</think>", "\n", "Hello", " world"]), vec!["Hello", " world"]);
}

#[test]
fn text_after_closing_tag_is_trimmed() {
    assert_eq!(run(&["<think>", "x", "</think>  Hi", " there"]), vec!["Hi", " there"]);
    assert_eq!(run(&["</think>a</think>b"]), vec!["a"]);
}

#[test]
fn leading_white_space_is_dropped() {
    assert_eq!(run(&[" ", "\n ", "  A", " ", "b"]), vec!["A", " ", "b"]);
}

#[test]
fn filter_state_follows_tags() {
    let mut f = ThinkFilter::new();
    assert_eq!(f.step("<think>"), None);
    assert!(f.is_thinking);
    assert_eq!(f.step("secret"), None);
    assert_eq!(f.step("</think>"), None);
    assert!(!f.is_thinking);
    assert!(!f.has_started);
    assert_eq!(f.step("ok"), Some("ok".to_string()));
    assert!(f.has_started);
}

#[test]
fn cache_and_fed_tokens_make_up_the_history() {
    let mut g = GenerationState::new(vec![1, 2]);
    for next in [3, 4, 5] {
        g.advance(next);
        assert_eq!(g.past_len + g.current.len(), g.history.len());
        assert_eq!(&g.history[g.past_len..], g.current.as_slice());
    }
}

#[test]
fn run_takes_at_most_limit_steps() {
    let mut run = GenerationRun::new(vec![5, 6], 3);
    assert_eq!(run.control, LoopControl { steps: 0, limit: 3, stopped: false });
    let mut taken = 0;
    for _ in 0..10 {
        if run.begin_step() {
            taken += 1;
        }
    }
    assert_eq!(taken, 3);
    assert_eq!(run.control.steps, 3);
    assert_eq!(GenerationRun::new(vec![1], 0).control.limit, 512);
}

#[test]
fn stop_token_ends_run() {
    let stops = vec![2u32, 7];
    let mut run = GenerationRun::new(vec![1], 10);
    assert!(run.begin_step());
    assert!(!run.stop_at(&stops, 4));
    assert_eq!(run.accept(4, "Hi"), Some("Hi".to_string()));
    assert!(run.begin_step());
    assert!(run.stop_at(&stops, 7));
    assert!(run.control.stopped);
    assert!(!run.begin_step());
    assert!(!run.begin_step());
    assert_eq!(run.control.steps, 2);
    assert_eq!(run.state.history, vec![1, 4]);
}

#[test]
fn accept_filters_and_advances() {
    let mut run = GenerationRun::new(vec![9, 8, 7], 5);
    assert_eq!(run.accept(11, "<think>"), None);
    assert_eq!(run.accept(12, "hmm"), None);
    assert_eq!(run.accept(13, "</think>  Answer"), Some("Answer".to_string()));
    assert_eq!(run.accept(14, " more"), Some(" more".to_string()));
    assert_eq!(run.state.past_len, 6);
    assert_eq!(run.state.current, vec![14]);
    assert_eq!(run.state.history, vec![9, 8, 7, 11, 12, 13, 14]);
}
