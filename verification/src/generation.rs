//! The integer and text decisions of the local token generation loop: the
//! shapes and names of the key/value cache, the position ids fed to the
//! model, which logits belong to the last token, and the filter that hides
//! the model's `<think>` sections from the streamed answer.
use vstd::prelude::*;
use vstd::string::*;

use crate::text::{
    contains, contains_seq, find, find_seq, lemma_find_seq_occurs, list_contains, replace_all, replace_seq, starts_with,
    starts_with_seq, trim_start, trim_start_seq, views, is_white_space, lemma_trim_start_first,
};
use crate::local::generation_limit;

verus! {

/// One dimension of an empty key/value cache tensor: a dynamic dimension
/// (-1) becomes 1 for the batch axis and 0 elsewhere.
pub open spec fn kv_dim(i: int, v: i64) -> usize {
    if v == -1 {
        if i == 0 {
            1
        } else {
            0
        }
    } else {
        v as usize
    }
}

/// Shape of the empty key/value cache for an input whose declared shape is
/// `dims` (`None`: the shape is not known).
pub fn kv_cache_shape(dims: Option<&Vec<i64>>) -> (r: Vec<usize>)
    ensures
        match dims {
            Some(d) => r.len() == d.len() && forall|i: int|
                0 <= i < d.len() ==> r@[i] == kv_dim(i, #[trigger] d@[i]),
            None => r@ == seq![1usize, 32usize, 0usize, 96usize],
        },
{
    match dims {
        None => {
            let r = vec![1usize, 32, 0, 96];
            assert(r@ =~= seq![1usize, 32usize, 0usize, 96usize]);
            r
        },
        Some(d) => {
            let mut r: Vec<usize> = Vec::new();
            let mut i: usize = 0;
            while i < d.len()
                invariant
                    i <= d.len(),
                    r.len() == i,
                    forall|k: int| 0 <= k < i ==> r@[k] == kv_dim(k, #[trigger] d@[k]),
                decreases d.len() - i,
            {
                let v = d[i];
                if v == -1 {
                    r.push(if i == 0 { 1 } else { 0 });
                } else {
                    r.push(v as usize);
                }
                i = i + 1;
            }
            r
        },
    }
}

pub open spec fn past_prefix() -> Seq<char> {
    "past_"@
}

/// Output names that may hold the updated cache of the input `name`, in the
/// order they are tried.
pub open spec fn present_candidates(name: Seq<char>) -> Seq<Seq<char>> {
    seq![
        replace_seq(name, "past_"@, "present_"@),
        replace_seq(name, "past_key_values"@, "present"@),
        replace_seq(name, "past_"@, "present."@),
    ]
}

/// The first of `candidates` that is among `names`.
pub open spec fn first_member(candidates: Seq<Seq<char>>, names: Seq<Seq<char>>) -> Option<
    Seq<char>,
>
    decreases candidates.len(),
{
    if candidates.len() == 0 {
        None
    } else if names.contains(candidates[0]) {
        Some(candidates[0])
    } else {
        first_member(candidates.drop_first(), names)
    }
}

/// Pairs (cache input, cache output) of a model with the given input and
/// output names: every input that starts with `past_` and has a matching
/// output, in input order.
pub open spec fn kv_pairs(inputs: Seq<Seq<char>>, outputs: Seq<Seq<char>>) -> Seq<
    (Seq<char>, Seq<char>),
>
    decreases inputs.len(),
{
    if inputs.len() == 0 {
        seq![]
    } else {
        let earlier = kv_pairs(inputs.drop_last(), outputs);
        let name = inputs.last();
        if starts_with_seq(name, past_prefix()) {
            match first_member(present_candidates(name), outputs) {
                Some(out) => earlier.push((name, out)),
                None => earlier,
            }
        } else {
            earlier
        }
    }
}

pub open spec fn pair_views(v: Seq<(String, String)>) -> Seq<(Seq<char>, Seq<char>)> {
    v.map_values(|p: (String, String)| (p.0@, p.1@))
}

/// Candidate output names for the cache input `name`.
pub fn present_name_candidates(name: &str) -> (r: Vec<String>)
    ensures
        views(r@) == present_candidates(name@),
{
    proof {
        reveal_strlit("past_");
        reveal_strlit("past_key_values");
    }
    let r = vec![
        replace_all(name, "past_", "present_"),
        replace_all(name, "past_key_values", "present"),
        replace_all(name, "past_", "present."),
    ];
    assert(views(r@) =~= present_candidates(name@));
    r
}

/// The first candidate that is among `names`.
fn first_member_of(candidates: &Vec<String>, names: &Vec<String>) -> (r: Option<String>)
    ensures
        match r {
            Some(s) => first_member(views(candidates@), views(names@)) == Some(s@),
            None => first_member(views(candidates@), views(names@)) is None,
        },
{
    let mut i: usize = 0;
    assert(views(candidates@).skip(0) =~= views(candidates@));
    while i < candidates.len()
        invariant
            i <= candidates.len(),
            first_member(views(candidates@), views(names@)) == first_member(
                views(candidates@).skip(i as int),
                views(names@),
            ),
        decreases candidates.len() - i,
    {
        let ghost rest = views(candidates@).skip(i as int);
        assert(rest[0] == candidates@[i as int]@);
        if list_contains(names, candidates[i].as_str()) {
            return Some(candidates[i].clone());
        }
        assert(rest.drop_first() =~= views(candidates@).skip(i + 1));
        i = i + 1;
    }
    None
}

/// Pairs each cache input (`past_*`) of a model with the output that
/// returns its update.
pub fn pair_kv_names(inputs: &Vec<String>, outputs: &Vec<String>) -> (r: Vec<(String, String)>)
    ensures
        pair_views(r@) == kv_pairs(views(inputs@), views(outputs@)),
{
    let mut r: Vec<(String, String)> = Vec::new();
    let mut i: usize = 0;
    while i < inputs.len()
        invariant
            i <= inputs.len(),
            pair_views(r@) == kv_pairs(views(inputs@).take(i as int), views(outputs@)),
        decreases inputs.len() - i,
    {
        let ghost before = r@;
        let name = inputs[i].as_str();
        assert(views(inputs@).take(i + 1).drop_last() =~= views(inputs@).take(i as int));
        assert(views(inputs@).take(i + 1).last() == name@);
        if starts_with(name, "past_") {
            let candidates = present_name_candidates(name);
            match first_member_of(&candidates, outputs) {
                Some(out) => {
                    r.push((inputs[i].clone(), out));
                    assert(pair_views(r@) =~= pair_views(before).push((name@, out@)));
                },
                None => {},
            }
        }
        i = i + 1;
    }
    assert(views(inputs@).take(inputs.len() as int) =~= views(inputs@));
    r
}

/// Position ids `past_len .. past_len + cur_len` of one position axis.
pub open spec fn position_axis(past_len: usize, cur_len: usize) -> Seq<i64> {
    Seq::new(cur_len as nat, |i: int| (past_len + i) as i64)
}

/// Position ids of one step: `past_len .. past_len + cur_len`, repeated for
/// each of the three position axes.
pub fn position_ids(past_len: usize, cur_len: usize) -> (r: Vec<i64>)
    requires
        past_len + cur_len <= i64::MAX,
        past_len + cur_len <= usize::MAX,
    ensures
        r@ == position_axis(past_len, cur_len) + position_axis(past_len, cur_len)
            + position_axis(past_len, cur_len),
{
    let mut base: Vec<i64> = Vec::new();
    let mut i: usize = 0;
    while i < cur_len
        invariant
            i <= cur_len,
            past_len + cur_len <= i64::MAX,
            past_len + cur_len <= usize::MAX,
            base@ =~= Seq::new(i as nat, |k: int| (past_len + k) as i64),
        decreases cur_len - i,
    {
        base.push((past_len + i) as i64);
        i = i + 1;
    }
    assert(base@ =~= position_axis(past_len, cur_len));
    let mut r = base.clone();
    let mut second = base.clone();
    let mut third = base.clone();
    r.append(&mut second);
    r.append(&mut third);
    r
}

/// Range of the logits of the last position in a `[batch, seq, vocab]`
/// output: `(seq - 1) * vocab .. (seq - 1) * vocab + vocab`.
pub fn last_logits_range(shape: &Vec<i64>) -> (r: (usize, usize))
    requires
        shape.len() >= 3,
        shape@[1] as usize >= 1,
        ((shape@[1] as usize) - 1) * (shape@[2] as usize) + (shape@[2] as usize) <= usize::MAX,
    ensures
        r.0 == ((shape@[1] as usize) - 1) * (shape@[2] as usize),
        r.1 == r.0 + (shape@[2] as usize),
{
    let rows = shape[1] as usize;
    let width = shape[2] as usize;
    let start = (rows - 1) * width;
    (start, start + width)
}

/// Whether `id` is a stop token.
pub fn is_stop_token(stop_tokens: &Vec<u32>, id: i64) -> (r: bool)
    ensures
        r == stop_tokens@.contains(id as u32),
{
    let t = id as u32;
    let mut i: usize = 0;
    while i < stop_tokens.len()
        invariant
            i <= stop_tokens.len(),
            t == id as u32,
            forall|j: int| 0 <= j < i ==> stop_tokens@[j] != t,
        decreases stop_tokens.len() - i,
    {
        if stop_tokens[i] == t {
            return true;
        }
        i = i + 1;
    }
    false
}

/// Whether the repetition penalty applies to vocabulary entry `id`: it was
/// generated or prompted before and is not a stop token.
pub fn is_penalized(history: &Vec<i64>, stop_tokens: &Vec<u32>, id: usize) -> (r: bool)
    ensures
        r == (history@.contains(id as i64) && !stop_tokens@.contains(id as u32)),
{
    let t = id as i64;
    let mut i: usize = 0;
    while i < history.len()
        invariant
            i <= history.len(),
            t == id as i64,
            forall|j: int| 0 <= j < i ==> history@[j] != t,
        decreases history.len() - i,
    {
        if history[i] == t {
            return !is_stop_token(stop_tokens, id as u32 as i64);
        }
        i = i + 1;
    }
    false
}

/// How many of the `len` candidates top-k sampling keeps.
pub fn top_k_keep(top_k: usize, len: usize) -> (r: usize)
    ensures
        r == (if top_k > 0 && top_k < len { top_k } else { len }),
{
    if top_k > 0 && top_k < len {
        top_k
    } else {
        len
    }
}

/// Tokens that end the answer, looked up in the model's vocabulary.
pub fn stop_token_names() -> (r: Vec<&'static str>)
    ensures
        r@.len() == 4,
        r@[0]@ == "<|im_end|>"@,
        r@[1]@ == "<|end|>"@,
        r@[2]@ == "<|eot_id|>"@,
        r@[3]@ == "<|endoftext|>"@,
{
    vec!["<|im_end|>", "<|end|>", "<|eot_id|>", "<|endoftext|>"]
}

/// Token bookkeeping of the generation loop.
pub struct GenerationState {
    /// Number of positions already in the key/value cache.
    pub past_len: usize,
    /// Tokens fed to the model in the next step.
    pub current: Vec<i64>,
    /// Prompt and generated tokens so far.
    pub history: Vec<i64>,
}

impl GenerationState {
    /// The cache and the tokens fed next make up the whole history: the
    /// cache holds the first `past_len` tokens, the rest is fed next.
    pub open spec fn consistent(&self) -> bool {
        &&& self.past_len + self.current@.len() == self.history@.len()
        &&& self.current@ == self.history@.skip(self.past_len as int)
    }

    /// The state before the first step: the whole prompt is fed at once.
    pub fn new(prompt_ids: Vec<i64>) -> (s: Self)
        ensures
            s.past_len == 0,
            s.current@ == prompt_ids@,
            s.history@ == prompt_ids@,
            s.consistent(),
    {
        assert(prompt_ids@.skip(0) =~= prompt_ids@);
        let history = prompt_ids.clone();
        GenerationState { past_len: 0, current: prompt_ids, history }
    }

    /// Positions covered by the next step.
    pub fn total_len(&self) -> (r: usize)
        requires
            self.past_len + self.current.len() <= usize::MAX,
        ensures
            r == self.past_len + self.current.len(),
    {
        self.past_len + self.current.len()
    }

    /// After `next` was generated: the fed tokens move to the cache, and only
    /// `next` is fed in the following step.
    pub fn advance(&mut self, next: i64)
        requires
            old(self).past_len + old(self).current.len() <= usize::MAX,
        ensures
            final(self).past_len == old(self).past_len + old(self).current.len(),
            final(self).current@ == seq![next],
            final(self).history@ == old(self).history@.push(next),
            old(self).consistent() ==> final(self).consistent(),
    {
        let ghost was_consistent = self.consistent();
        self.past_len = self.past_len + self.current.len();
        self.current = vec![next];
        self.history.push(next);
        proof {
            if was_consistent {
                assert(self.history@.skip(self.past_len as int) =~= seq![next]);
                assert(self.current@ =~= seq![next]);
            }
        }
    }
}

pub open spec fn think_open() -> Seq<char> {
    "<think>"@
}

pub open spec fn think_close() -> Seq<char> {
    "</think>"@
}

/// The text between the first `</think>` of `t` and the next one (or the
/// end): the second piece of `t.split("</think>")`.
pub open spec fn after_close_tag(t: Seq<char>) -> Seq<char> {
    let rest = t.skip(find_seq(t, think_close())->0 + think_close().len());
    match find_seq(rest, think_close()) {
        Some(j) => rest.take(j),
        None => rest,
    }
}

/// Filter state: inside a `<think>` section, and whether visible text was
/// already emitted.
#[derive(Debug, Clone, Copy, PartialEq, Eq, Structural)]
pub struct ThinkFilter {
    pub is_thinking: bool,
    pub has_started: bool,
}

/// One token through the filter: the next state and the text to emit.
pub open spec fn think_step(s: ThinkFilter, t: Seq<char>) -> (ThinkFilter, Option<Seq<char>>) {
    if contains_seq(t, think_open()) {
        (ThinkFilter { is_thinking: true, has_started: s.has_started }, None)
    } else if contains_seq(t, think_close()) {
        let seg = after_close_tag(t);
        let trimmed = trim_start_seq(seg);
        if seg.len() > 0 && trimmed.len() > 0 {
            (ThinkFilter { is_thinking: false, has_started: true }, Some(trimmed))
        } else {
            (ThinkFilter { is_thinking: false, has_started: s.has_started }, None)
        }
    } else if !s.is_thinking {
        if !s.has_started {
            let trimmed = trim_start_seq(t);
            if trimmed.len() > 0 {
                (ThinkFilter { is_thinking: false, has_started: true }, Some(trimmed))
            } else {
                (s, None)
            }
        } else {
            (s, Some(t))
        }
    } else {
        (s, None)
    }
}

/// A token that opens a `<think>` section is never streamed, and the filter
/// is inside the section afterwards.
pub proof fn think_open_hides(s: ThinkFilter, t: Seq<char>)
    requires
        contains_seq(t, think_open()),
    ensures
        think_step(s, t).1 is None,
        think_step(s, t).0.is_thinking,
{
}

/// Inside a `<think>` section, tokens without a closing tag are never
/// streamed and leave the filter unchanged.
pub proof fn thinking_hides(s: ThinkFilter, t: Seq<char>)
    requires
        s.is_thinking,
        !contains_seq(t, think_close()),
    ensures
        think_step(s, t).1 is None,
        think_step(s, t).0 == s,
{
}

/// The answer never starts with white space: the first text streamed is
/// non-empty and starts with a non-white-space character, and afterwards the
/// filter counts the answer as started.
pub proof fn first_emission_trimmed(s: ThinkFilter, t: Seq<char>)
    requires
        !s.has_started,
        think_step(s, t).1 is Some,
    ensures
        think_step(s, t).1->0.len() > 0,
        !is_white_space(think_step(s, t).1->0[0]),
        think_step(s, t).0.has_started,
{
    lemma_trim_start_first(t);
    lemma_trim_start_first(after_close_tag(t));
}

/// Once the answer has started, tokens outside `<think>` sections are
/// streamed unchanged.
pub proof fn started_passes_through(s: ThinkFilter, t: Seq<char>)
    requires
        s.has_started,
        !s.is_thinking,
        !contains_seq(t, think_open()),
        !contains_seq(t, think_close()),
    ensures
        think_step(s, t) == (s, Some(t)),
{
}

/// A started answer stays started.
pub proof fn started_is_kept(s: ThinkFilter, t: Seq<char>)
    requires
        s.has_started,
    ensures
        think_step(s, t).0.has_started,
{
}

/// A token that closes a `<think>` section (and opens none) always leaves
/// the filter outside any section, whatever state it was in, and keeps an
/// answer that had started as started.
pub proof fn closing_tag_ends_thinking(s: ThinkFilter, t: Seq<char>)
    requires
        contains_seq(t, think_close()),
        !contains_seq(t, think_open()),
    ensures
        !think_step(s, t).0.is_thinking,
        s.has_started ==> think_step(s, t).0.has_started,
{
}

/// Outside a `<think>` section, after a closing tag, the following tokens
/// that open or close no section are streamed once the answer has started.
pub proof fn text_after_closing_tag_is_streamed(s: ThinkFilter, t: Seq<char>, u: Seq<char>)
    requires
        s.has_started,
        contains_seq(t, think_close()),
        !contains_seq(t, think_open()),
        !contains_seq(u, think_open()),
        !contains_seq(u, think_close()),
    ensures
        think_step(think_step(s, t).0, u).1 == Some(u),
{
}

impl ThinkFilter {
    /// Outside any `<think>` section, nothing emitted yet.
    pub fn new() -> (f: Self)
        ensures
            !f.is_thinking,
            !f.has_started,
    {
        ThinkFilter { is_thinking: false, has_started: false }
    }

    /// Feeds one decoded token; returns the text to stream, if any.
    pub fn step(&mut self, token: &str) -> (emit: Option<String>)
        ensures
            (*final(self), match emit {
                Some(e) => Some(e@),
                None => None::<Seq<char>>,
            }) == think_step(*old(self), token@),
    {
        if contains(token, "<think>") {
            self.is_thinking = true;
            return None;
        }
        if let Some(i) = find(token, "</think>") {
            self.is_thinking = false;
            proof {
                reveal_strlit("</think>");
                lemma_find_seq_occurs(token@, think_close());
            }
            let n = token.unicode_len();
            let rest = token.substring_char(i + 8, n);
            assert(rest@ =~= token@.skip(i + think_close().len()));
            let seg = match find(rest, "</think>") {
                Some(j) => {
                    proof {
                        lemma_find_seq_occurs(rest@, think_close());
                    }
                    rest.substring_char(0, j)
                },
                None => rest,
            };
            assert(seg@ =~= after_close_tag(token@));
            if seg.unicode_len() > 0 {
                let trimmed = trim_start(seg);
                if trimmed.unicode_len() > 0 {
                    self.has_started = true;
                    return Some(String::from_str(trimmed));
                }
            }
            return None;
        }
        if !self.is_thinking {
            if !self.has_started {
                let trimmed = trim_start(token);
                if trimmed.unicode_len() > 0 {
                    self.has_started = true;
                    return Some(String::from_str(trimmed));
                }
                return None;
            }
            return Some(String::from_str(token));
        }
        None
    }
}


/// Loop control of the generation: steps taken, the most steps allowed, and
/// whether a stop token ended the answer.
#[derive(Debug, Clone, Copy, PartialEq, Eq, Structural)]
pub struct LoopControl {
    pub steps: usize,
    pub limit: usize,
    pub stopped: bool,
}

/// Starting a step: it is taken when no stop token came and fewer than
/// `limit` steps were taken; a taken step is counted.
pub open spec fn control_begin(c: LoopControl) -> (LoopControl, bool) {
    if !c.stopped && c.steps < c.limit {
        (LoopControl { steps: (c.steps + 1) as usize, ..c }, true)
    } else {
        (c, false)
    }
}

/// After the chosen token was looked up: a stop token ends the answer.
pub open spec fn control_stop(c: LoopControl, is_stop: bool) -> LoopControl {
    if is_stop {
        LoopControl { stopped: true, ..c }
    } else {
        c
    }
}

/// The control after `n` attempts to start a step.
pub open spec fn after_begins(c: LoopControl, n: nat) -> LoopControl
    decreases n,
{
    if n == 0 {
        c
    } else {
        control_begin(after_begins(c, (n - 1) as nat)).0
    }
}

/// How many of `n` attempts to start a step are taken.
pub open spec fn taken_steps(c: LoopControl, n: nat) -> nat
    decreases n,
{
    if n == 0 {
        0
    } else {
        taken_steps(c, (n - 1) as nat) + if control_begin(after_begins(c, (n - 1) as nat)).1 {
            1nat
        } else {
            0nat
        }
    }
}

proof fn lemma_after_begins(c: LoopControl, n: nat)
    requires
        c.steps <= c.limit,
    ensures
        after_begins(c, n).steps == c.steps + taken_steps(c, n),
        after_begins(c, n).steps <= c.limit,
        after_begins(c, n).limit == c.limit,
        after_begins(c, n).stopped == c.stopped,
    decreases n,
{
    if n > 0 {
        lemma_after_begins(c, (n - 1) as nat);
    }
}

/// However often a step is attempted, no more than `limit` steps are taken
/// in all.
pub proof fn steps_never_exceed_limit(c: LoopControl, n: nat)
    requires
        c.steps <= c.limit,
    ensures
        c.steps + taken_steps(c, n) <= c.limit,
{
    lemma_after_begins(c, n);
}

/// A stop token ends the answer: no step is taken after it, however often
/// one is attempted.
pub proof fn stop_token_ends_generation(c: LoopControl, n: nat)
    ensures
        control_stop(c, true).stopped,
        taken_steps(control_stop(c, true), n) == 0,
        after_begins(control_stop(c, true), n) == control_stop(c, true),
    decreases n,
{
    if n > 0 {
        stop_token_ends_generation(c, (n - 1) as nat);
    }
}

/// A token that is not a stop token leaves the control unchanged.
pub proof fn other_token_continues(c: LoopControl)
    ensures
        control_stop(c, false) == c,
{
}

/// The generation loop of the local model, apart from running the model and
/// sampling: the token bookkeeping, the `<think>` filter and the loop control.
pub struct GenerationRun {
    pub state: GenerationState,
    pub filter: ThinkFilter,
    pub control: LoopControl,
}

impl GenerationRun {
    /// A run over the prompt tokens with at most `generation_limit(max_length)`
    /// steps.
    pub fn new(prompt_ids: Vec<i64>, max_length: usize) -> (r: Self)
        ensures
            r.state.past_len == 0,
            r.state.current@ == prompt_ids@,
            r.state.history@ == prompt_ids@,
            r.state.consistent(),
            r.filter == (ThinkFilter { is_thinking: false, has_started: false }),
            r.control == (LoopControl {
                steps: 0,
                limit: if max_length > 0 { max_length } else { 512 },
                stopped: false,
            }),
    {
        let limit = generation_limit(max_length);
        GenerationRun {
            state: GenerationState::new(prompt_ids),
            filter: ThinkFilter::new(),
            control: LoopControl { steps: 0, limit, stopped: false },
        }
    }

    /// Whether the model is run once more; a step that is taken is counted.
    pub fn begin_step(&mut self) -> (go: bool)
        ensures
            (final(self).control, go) == control_begin(old(self).control),
            final(self).state == old(self).state,
            final(self).filter == old(self).filter,
    {
        if !self.control.stopped && self.control.steps < self.control.limit {
            self.control.steps = self.control.steps + 1;
            true
        } else {
            false
        }
    }

    /// Whether the sampled token `next` is a stop token; if it is, the
    /// answer ends here.
    pub fn stop_at(&mut self, stop_tokens: &Vec<u32>, next: i64) -> (stop: bool)
        ensures
            stop == stop_tokens@.contains(next as u32),
            final(self).control == control_stop(old(self).control, stop),
            final(self).state == old(self).state,
            final(self).filter == old(self).filter,
    {
        let stop = is_stop_token(stop_tokens, next);
        if stop {
            self.control.stopped = true;
        }
        stop
    }

    /// Takes the sampled token `next`, decoded as `token`: returns the text
    /// to stream, and feeds `next` to the model in the following step.
    pub fn accept(&mut self, next: i64, token: &str) -> (emit: Option<String>)
        requires
            old(self).state.consistent(),
        ensures
            (final(self).filter, match emit {
                Some(e) => Some(e@),
                None => None::<Seq<char>>,
            }) == think_step(old(self).filter, token@),
            final(self).state.past_len == old(self).state.past_len + old(self).state.current.len(),
            final(self).state.current@ == seq![next],
            final(self).state.history@ == old(self).state.history@.push(next),
            final(self).state.consistent(),
            final(self).control == old(self).control,
    {
        let emit = self.filter.step(token);
        assert(self.state.past_len + self.state.current.len() == self.state.history.len());
        self.state.advance(next);
        emit
    }
}

} // verus!
