//! The conversation: messages, the saved sessions of the side bar, and how
//! a prompt is fanned out to the selected models and their streamed answers
//! are routed back.
use vstd::prelude::*;
use vstd::string::*;
use vstd::utf8::*;

use crate::ai::{find_model, model_position, ModelEntry, ProviderStatus};
use crate::text::{str_eq, trim, trim_seq, views};

verus! {

broadcast use vstd::utf8::encode_utf8_decode_utf8;

#[derive(Debug)]
pub enum Message {
    User { content: String },
    AI {
        model_id: String,
        model_name: String,
        response: String,
        error: Option<String>,
        is_finished: bool,
    },
}

/// A copy of `m`.
pub fn copy_message(m: &Message) -> (r: Message)
    ensures
        r == *m,
{
    match m {
        Message::User { content } => Message::User { content: content.clone() },
        Message::AI { model_id, model_name, response, error, is_finished } => Message::AI {
            model_id: model_id.clone(),
            model_name: model_name.clone(),
            response: response.clone(),
            error: match error {
                Some(e) => Some(e.clone()),
                None => None,
            },
            is_finished: *is_finished,
        },
    }
}

/// A copy of a list of messages.
pub fn copy_messages(v: &Vec<Message>) -> (r: Vec<Message>)
    ensures
        r@ == v@,
{
    let mut r: Vec<Message> = Vec::new();
    let mut i: usize = 0;
    while i < v.len()
        invariant
            i <= v.len(),
            r@ == v@.take(i as int),
        decreases v.len() - i,
    {
        r.push(copy_message(&v[i]));
        assert(r@ =~= v@.take(i + 1));
        i = i + 1;
    }
    assert(v@.take(v.len() as int) =~= v@);
    r
}

/// Content of the first message the user wrote.
pub open spec fn first_user_content(msgs: Seq<Message>) -> Option<Seq<char>>
    decreases msgs.len(),
{
    if msgs.len() == 0 {
        None
    } else {
        match msgs[0] {
            Message::User { content } => Some(content@),
            _ => first_user_content(msgs.drop_first()),
        }
    }
}

/// Name of a session whose first prompt is `content`: the trimmed prompt,
/// cut to its first 30 bytes and marked with `...` when it is longer.
pub open spec fn name_from_prompt(content: Seq<char>) -> Seq<char> {
    let t = trim_seq(content);
    let b = encode_utf8(t);
    if b.len() > 30 {
        decode_utf8(b.take(30)) + "..."@
    } else {
        t
    }
}

pub open spec fn session_name_spec(msgs: Seq<Message>) -> Seq<char> {
    match first_user_content(msgs) {
        Some(c) => name_from_prompt(c),
        None => "New Chat"@,
    }
}

/// The cut of a long prompt falls on a character boundary (else the name
/// cannot be formed).
pub open spec fn session_name_defined(msgs: Seq<Message>) -> bool {
    match first_user_content(msgs) {
        Some(c) => encode_utf8(trim_seq(c)).len() > 30 ==> is_char_boundary(
            encode_utf8(trim_seq(c)),
            30,
        ),
        None => true,
    }
}

/// Derive a session name from the first user prompt in a message list.
pub fn session_name_from_messages(msgs: &Vec<Message>) -> (r: String)
    requires
        session_name_defined(msgs@),
    ensures
        r@ == session_name_spec(msgs@),
{
    let mut i: usize = 0;
    assert(msgs@.skip(0) =~= msgs@);
    while i < msgs.len()
        invariant
            i <= msgs.len(),
            session_name_defined(msgs@),
            first_user_content(msgs@) == first_user_content(msgs@.skip(i as int)),
        decreases msgs.len() - i,
    {
        assert(msgs@.skip(i as int)[0] == msgs@[i as int]);
        match &msgs[i] {
            Message::User { content } => {
                let t = trim(content.as_str());
                if t.as_bytes().len() > 30 {
                    let (head, _) = t.split_at(30);
                    assert(decode_utf8(encode_utf8(head@)) == head@);
                    return String::from_str(head).concat("...");
                }
                return String::from_str(t);
            },
            Message::AI { .. } => {},
        }
        assert(msgs@.skip(i as int).drop_first() =~= msgs@.skip(i + 1));
        i = i + 1;
    }
    "New Chat".to_string()
}

/// The name of a long prompt is a prefix of the trimmed prompt, 30 bytes
/// long in UTF-8, followed by `...`.
pub proof fn long_prompt_name(content: Seq<char>)
    requires
        encode_utf8(trim_seq(content)).len() > 30,
        is_char_boundary(encode_utf8(trim_seq(content)), 30),
    ensures
        ({
            let t = trim_seq(content);
            let kept = decode_utf8(encode_utf8(t).take(30));
            &&& name_from_prompt(content) == kept + "..."@
            &&& kept.len() <= t.len()
            &&& t.take(kept.len() as int) == kept
            &&& encode_utf8(kept) == encode_utf8(t).take(30)
        }),
{
    broadcast use vstd::utf8::encode_utf8_valid_utf8;
    let t = trim_seq(content);
    let b = encode_utf8(t);
    vstd::utf8::valid_utf8_split(b, 30);
    vstd::utf8::decode_utf8_split(b, 30);
    assert(b.take(30) =~= b.subrange(0, 30));
    let kept = decode_utf8(b.take(30));
    let rest = decode_utf8(b.subrange(30, b.len() as int));
    assert(t == kept + rest);
    assert(t.take(kept.len() as int) =~= kept);
    vstd::utf8::decode_utf8_encode_utf8(b.take(30));
}

/// A saved session as (name, messages), by views.
pub open spec fn entry_view(e: (String, Vec<Message>)) -> (Seq<char>, Seq<Message>) {
    (e.0@, e.1@)
}

pub open spec fn history_view(h: Seq<(String, Vec<Message>)>) -> Seq<(Seq<char>, Seq<Message>)> {
    h.map_values(|e: (String, Vec<Message>)| entry_view(e))
}

/// The open conversation and the saved sessions of the side bar.
pub struct ChatSessions {
    /// Messages of the open conversation.
    pub messages: Vec<Message>,
    /// Saved sessions: (name, messages).
    pub history: Vec<(String, Vec<Message>)>,
    /// The saved session that is open, if any (None: a fresh conversation).
    pub active: Option<usize>,
}

/// The saved sessions once the open conversation is saved: an empty
/// conversation saves nothing; an open saved session is updated in place;
/// a fresh conversation is archived as a new session.
pub open spec fn saved_history(s: ChatSessions) -> Seq<(Seq<char>, Seq<Message>)> {
    let h = history_view(s.history@);
    if s.messages@.len() == 0 {
        h
    } else {
        match s.active {
            Some(i) => if i < h.len() {
                h.update(i as int, (h[i as int].0, s.messages@))
            } else {
                h
            },
            None => h.push((session_name_spec(s.messages@), s.messages@)),
        }
    }
}

/// The open conversation can be archived (its name can be formed).
pub open spec fn can_save(s: ChatSessions) -> bool {
    s.messages@.len() > 0 && s.active is None ==> session_name_defined(s.messages@)
}

impl ChatSessions {
    /// The open session, if any, is one of the saved sessions.
    pub open spec fn wf(&self) -> bool {
        match self.active {
            Some(i) => i < self.history.len(),
            None => true,
        }
    }

    /// A fresh conversation and no saved session.
    pub fn new() -> (s: Self)
        ensures
            s.messages@.len() == 0,
            s.history@.len() == 0,
            s.active is None,
            s.wf(),
    {
        ChatSessions { messages: Vec::new(), history: Vec::new(), active: None }
    }

    /// Saves the open conversation (see `saved_history`) and empties it.
    fn save_current(&mut self)
        requires
            can_save(*old(self)),
        ensures
            history_view(final(self).history@) == saved_history(*old(self)),
            final(self).messages@.len() == 0,
            final(self).active == old(self).active,
    {
        let mut current: Vec<Message> = Vec::new();
        std::mem::swap(&mut current, &mut self.messages);
        if current.len() == 0 {
            return;
        }
        match self.active {
            Some(idx) => {
                if idx < self.history.len() {
                    let ghost h0 = history_view(self.history@);
                    let (name, _old) = self.history.remove(idx);
                    self.history.insert(idx, (name, current));
                    assert(history_view(self.history@) =~= h0.update(
                        idx as int,
                        (h0[idx as int].0, current@),
                    ));
                }
            },
            None => {
                let ghost h0 = history_view(self.history@);
                let name = session_name_from_messages(&current);
                self.history.push((name, current));
                assert(history_view(self.history@) =~= h0.push(
                    (session_name_spec(current@), current@),
                ));
            },
        }
    }

    /// "New Session": the open conversation is saved and a fresh one starts.
    pub fn new_session(&mut self)
        requires
            can_save(*old(self)),
        ensures
            history_view(final(self).history@) == saved_history(*old(self)),
            final(self).messages@.len() == 0,
            final(self).active is None,
            final(self).wf(),
    {
        self.save_current();
        self.active = None;
    }

    /// Opens saved session `index`, after saving the open conversation.
    pub fn open_session(&mut self, index: usize)
        requires
            can_save(*old(self)),
            index < saved_history(*old(self)).len(),
        ensures
            history_view(final(self).history@) == saved_history(*old(self)),
            final(self).messages@ == saved_history(*old(self))[index as int].1,
            final(self).active == Some(index),
            final(self).wf(),
    {
        self.save_current();
        assert(self.history@.len() == history_view(self.history@).len());
        let loaded = copy_messages(&self.history[index].1);
        self.messages = loaded;
        self.active = Some(index);
    }

    /// Deletes saved session `index`. Deleting the open session clears the
    /// conversation; an open session after it moves down by one.
    pub fn delete_session(&mut self, index: usize)
        requires
            index < old(self).history.len(),
        ensures
            history_view(final(self).history@) == history_view(old(self).history@).remove(
                index as int,
            ),
            old(self).active == Some(index) ==> final(self).messages@.len() == 0
                && final(self).active is None,
            old(self).active != Some(index) ==> final(self).messages@ == old(self).messages@,
            match old(self).active {
                Some(a) => a > index ==> final(self).active == Some((a - 1) as usize),
                None => final(self).active is None,
            },
            old(self).active is Some && old(self).active->0 < index ==> final(self).active
                == old(self).active,
            old(self).wf() ==> final(self).wf(),
    {
        let ghost h0 = history_view(self.history@);
        match self.active {
            Some(a) => {
                if a == index {
                    self.messages = Vec::new();
                    self.active = None;
                } else if a > index {
                    self.active = Some(a - 1);
                }
            },
            None => {},
        }
        self.history.remove(index);
        assert(history_view(self.history@) =~= h0.remove(index as int));
    }
}

/// Deleting another session keeps the open one: afterwards the open index
/// still names the same saved session.
pub proof fn delete_keeps_open_session(
    h: Seq<(Seq<char>, Seq<Message>)>,
    index: int,
    active: usize,
    new_active: usize,
)
    requires
        0 <= index < h.len(),
        active < h.len(),
        active != index,
        new_active == (if active > index {
            (active - 1) as usize
        } else {
            active
        }),
    ensures
        new_active < h.remove(index).len(),
        h.remove(index)[new_active as int] == h[active as int],
{
}

/// Switching sessions never loses the open conversation: once saved, the
/// session that was open holds its messages, or, for a fresh non-empty
/// conversation, it is the last saved session.
pub proof fn saving_keeps_conversation(s: ChatSessions)
    requires
        s.wf(),
        s.messages@.len() > 0,
    ensures
        match s.active {
            Some(i) => saved_history(s)[i as int].1 == s.messages@ && saved_history(s).len()
                == s.history@.len(),
            None => saved_history(s).last().1 == s.messages@ && saved_history(s).len()
                == s.history@.len() + 1,
        },
{
}

/// Saving the open conversation renames nothing and touches no other
/// session: every session that was saved keeps its name, and only the open
/// saved session (if any) gets new messages, those of the open conversation.
pub proof fn saving_keeps_names(s: ChatSessions)
    requires
        s.wf(),
    ensures
        saved_history(s).len() >= s.history@.len(),
        forall|j: int| 0 <= j < s.history@.len() ==> (#[trigger] saved_history(s)[j]).0 == s.history@[j].0@,
        forall|j: int|
            0 <= j < s.history@.len() && s.active != Some(j as usize) ==> (#[trigger] saved_history(s)[j]).1
                == s.history@[j].1@,
        s.messages@.len() > 0 && s.active is Some ==> saved_history(s)[s.active->0 as int].1 == s.messages@,
{
}

pub open spec fn no_models_error() -> Seq<char> {
    "No models are currently selected. Please select at least one model before sending a prompt."@
}

pub open spec fn needs_setup_error() -> Seq<char> {
    "Model requires authentication or setup in Neural Engines before use."@
}

/// Where the streamed answer of a model goes.
pub struct StreamSlot {
    pub model_id: String,
    pub index: usize,
}

/// Name shown for model `id`: its registry name, or "Unknown Model".
pub open spec fn shown_name(models: Seq<ModelEntry>, id: Seq<char>) -> Seq<char> {
    match model_position(models, id) {
        Some(j) => models[j].name@,
        None => "Unknown Model"@,
    }
}

/// Model `id` is in the registry (first entry with that id) and ready.
pub open spec fn shown_ready(models: Seq<ModelEntry>, id: Seq<char>) -> bool {
    match model_position(models, id) {
        Some(j) => models[j].status == ProviderStatus::Ready,
        None => false,
    }
}

/// The placeholder answer of a selected model before streaming.
pub open spec fn is_placeholder(m: Message, models: Seq<ModelEntry>, id: Seq<char>) -> bool {
    match m {
        Message::AI { model_id, model_name, response, error, is_finished } => {
            &&& model_id@ == id
            &&& model_name@ == shown_name(models, id)
            &&& response@.len() == 0
            &&& is_finished == !shown_ready(models, id)
            &&& match error {
                Some(e) => !shown_ready(models, id) && e@ == needs_setup_error(),
                None => shown_ready(models, id),
            }
        },
        _ => false,
    }
}

fn placeholder(models: &Vec<ModelEntry>, id: &String) -> (m: Message)
    ensures
        is_placeholder(m, models@, id@),
{
    let found = find_model(models, id.as_str());
    let (name, ready) = match found {
        Some(j) => {
            let ready = match models[j].status {
                ProviderStatus::Ready => true,
                _ => false,
            };
            (models[j].name.clone(), ready)
        },
        None => ("Unknown Model".to_string(), false),
    };
    let error = if ready {
        None
    } else {
        Some("Model requires authentication or setup in Neural Engines before use.".to_string())
    };
    Message::AI {
        model_id: id.clone(),
        model_name: name,
        response: String::new(),
        error,
        is_finished: !ready,
    }
}

/// Sends a prompt: the prompt becomes a user message; without a selected
/// model a system error answers it; otherwise every selected model gets an
/// answer placeholder, and the returned slots say where each model's
/// stream goes. An empty prompt does nothing.
pub fn submit_prompt(
    messages: &mut Vec<Message>,
    prompt: &str,
    selected: &Vec<String>,
    models: &Vec<ModelEntry>,
) -> (slots: Vec<StreamSlot>)
    requires
        views(selected@).no_duplicates(),
    ensures
        prompt@.len() == 0 ==> final(messages)@ == old(messages)@ && slots@.len() == 0,
        prompt@.len() > 0 ==> final(messages)@.len() == old(messages)@.len() + 1 + (if selected@.len()
            == 0 {
            1
        } else {
            selected@.len()
        }) && final(messages)@.take(old(messages)@.len() as int) == old(messages)@ && (
        match final(messages)@[old(messages)@.len() as int] {
            Message::User { content } => content@ == prompt@,
            _ => false,
        }),
        prompt@.len() > 0 && selected@.len() == 0 ==> slots@.len() == 0 && (match final(messages)@[old(messages)@.len() as int + 1] {
            Message::AI { model_id, model_name, response, error, is_finished } => model_id@
                == "system"@ && model_name@ == "System"@ && response@.len() == 0 && is_finished
                && error is Some && error->0@ == no_models_error(),
            _ => false,
        }),
        prompt@.len() > 0 && selected@.len() > 0 ==> slots@.len() == selected@.len() && forall|
            k: int,
        |
            0 <= k < selected@.len() ==> {
                &&& (#[trigger] slots@[k]).model_id@ == selected@[k]@
                &&& slots@[k].index == old(messages)@.len() + 1 + k
                &&& is_placeholder(final(messages)@[old(messages)@.len() + 1 + k], models@, selected@[k]@)
            },
{
    let mut slots: Vec<StreamSlot> = Vec::new();
    if prompt.is_empty() {
        return slots;
    }
    let ghost old_msgs = messages@;
    messages.push(Message::User { content: String::from_str(prompt) });
    let ghost with_prompt = messages@;
    assert(with_prompt.take(old_msgs.len() as int) =~= old_msgs);
    if selected.len() == 0 {
        messages.push(
            Message::AI {
                model_id: "system".to_string(),
                model_name: "System".to_string(),
                response: String::new(),
                error: Some(
                    "No models are currently selected. Please select at least one model before sending a prompt.".to_string(),
                ),
                is_finished: true,
            },
        );
        assert(messages@.take(old_msgs.len() as int) =~= old_msgs);
        return slots;
    }
    let base = messages.len();
    let ghost start = messages@;
    let mut k: usize = 0;
    while k < selected.len()
        invariant
            k <= selected.len(),
            base == start.len(),
            messages@.len() == base + k,
            messages@.take(base as int) == start,
            slots@.len() == k,
            forall|j: int|
                0 <= j < k ==> {
                    &&& (#[trigger] slots@[j]).model_id@ == selected@[j]@
                    &&& slots@[j].index == base + j
                    &&& is_placeholder(messages@[base + j], models@, selected@[j]@)
                },
        decreases selected.len() - k,
    {
        let m = placeholder(models, &selected[k]);
        let ghost prev = messages@;
        let ghost prev_slots = slots@;
        messages.push(m);
        slots.push(StreamSlot { model_id: selected[k].clone(), index: messages.len() - 1 });
        assert(messages@.take(base as int) =~= start);
        assert forall|j: int| 0 <= j < k + 1 implies {
            &&& (#[trigger] slots@[j]).model_id@ == selected@[j]@
            &&& slots@[j].index == base + j
            &&& is_placeholder(messages@[base + j], models@, selected@[j]@)
        } by {
            if j < k {
                assert(messages@[base + j] == prev[base + j]);
                assert(slots@[j] == prev_slots[j]);
            } else {
                assert(messages@[base + j] == m);
            }
        }
        k = k + 1;
    }
    assert(messages@.take(old_msgs.len() as int) =~= messages@.take(base as int).take(
        old_msgs.len() as int,
    ));
    assert(messages@[old_msgs.len() as int] == messages@.take(base as int)[old_msgs.len() as int]);
    slots
}

/// The slot of a model's stream: the first slot with that model id.
pub open spec fn slot_for(slots: Seq<StreamSlot>, id: Seq<char>) -> Option<usize>
    decreases slots.len(),
{
    if slots.len() == 0 {
        None
    } else if slots[0].model_id@ == id {
        Some(slots[0].index)
    } else {
        slot_for(slots.drop_first(), id)
    }
}

fn find_slot(slots: &Vec<StreamSlot>, id: &str) -> (r: Option<usize>)
    ensures
        r == slot_for(slots@, id@),
{
    let mut i: usize = 0;
    assert(slots@.skip(0) =~= slots@);
    while i < slots.len()
        invariant
            i <= slots.len(),
            slot_for(slots@, id@) == slot_for(slots@.skip(i as int), id@),
        decreases slots.len() - i,
    {
        assert(slots@.skip(i as int)[0] == slots@[i as int]);
        if str_eq(slots[i].model_id.as_str(), id) {
            return Some(slots[i].index);
        }
        assert(slots@.skip(i as int).drop_first() =~= slots@.skip(i + 1));
        i = i + 1;
    }
    None
}

/// Routes one item of model `model_id`'s stream to its answer.
pub fn apply_stream_item(
    messages: &mut Vec<Message>,
    slots: &Vec<StreamSlot>,
    model_id: &str,
    item: Result<String, String>,
)
    ensures
        final(messages)@.len() == old(messages)@.len(),
        forall|i: int|
            0 <= i < old(messages)@.len() && Some(i as usize) != slot_for(slots@, model_id@)
                ==> final(messages)@[i] == old(messages)@[i],
        match slot_for(slots@, model_id@) {
            Some(idx) => idx < old(messages)@.len() ==> match old(messages)@[idx as int] {
                Message::AI { model_id: mid, model_name, response, error, is_finished } => match final(messages)@[idx as int] {
                    Message::AI {
                        model_id: mid2,
                        model_name: name2,
                        response: response2,
                        error: error2,
                        is_finished: fin2,
                    } => {
                        &&& mid2 == mid
                        &&& name2 == model_name
                        &&& fin2 == is_finished
                        &&& match item {
                            Ok(t) => response2@ == response@ + t@ && error2 == error,
                            Err(e) => response2 == response && error2 == Some(e),
                        }
                    },
                    _ => false,
                },
                _ => final(messages)@[idx as int] == old(messages)@[idx as int],
            },
            None => true,
        },
{
    let idx = match find_slot(slots, model_id) {
        Some(i) => i,
        None => return ,
    };
    if idx >= messages.len() {
        return ;
    }
    let ghost before = messages@;
    let m = messages.remove(idx);
    let updated = match m {
        Message::AI { model_id, model_name, response, error, is_finished } => match item {
            Ok(token) => Message::AI {
                model_id,
                model_name,
                response: response.concat(token.as_str()),
                error,
                is_finished,
            },
            Err(e) => Message::AI { model_id, model_name, response, error: Some(e), is_finished },
        },
        other => other,
    };
    messages.insert(idx, updated);
    assert(forall|i: int| 0 <= i < before.len() && i != idx ==> messages@[i] == before[i]);
}

/// The answer `m` marked finished (other messages are left alone).
pub open spec fn finished(m: Message) -> Message {
    match m {
        Message::AI { model_id, model_name, response, error, is_finished } => Message::AI {
            model_id,
            model_name,
            response,
            error,
            is_finished: true,
        },
        other => other,
    }
}

/// The position is the target of a slot.
pub open spec fn is_slot_target(slots: Seq<StreamSlot>, i: int) -> bool {
    exists|k: int| 0 <= k < slots.len() && (#[trigger] slots[k]).index == i
}

/// When all streams are closed every answer they fed is finished.
pub fn finish_stream(messages: &mut Vec<Message>, slots: &Vec<StreamSlot>)
    ensures
        final(messages)@.len() == old(messages)@.len(),
        forall|i: int|
            0 <= i < old(messages)@.len() ==> final(messages)@[i] == if is_slot_target(slots@, i) {
                finished(old(messages)@[i])
            } else {
                old(messages)@[i]
            },
{
    let ghost before = messages@;
    let mut k: usize = 0;
    while k < slots.len()
        invariant
            k <= slots.len(),
            messages@.len() == before.len(),
            forall|i: int|
                0 <= i < before.len() ==> messages@[i] == if exists|j: int|
                    0 <= j < k && (#[trigger] slots@[j]).index == i {
                    finished(before[i])
                } else {
                    before[i]
                },
        decreases slots.len() - k,
    {
        let idx = slots[k].index;
        if idx < messages.len() {
            let ghost cur = messages@;
            let m = messages.remove(idx);
            let updated = match m {
                Message::AI { model_id, model_name, response, error, is_finished: _ } => Message::AI {
                    model_id,
                    model_name,
                    response,
                    error,
                    is_finished: true,
                },
                other => other,
            };
            messages.insert(idx, updated);
            assert forall|i: int| 0 <= i < before.len() implies messages@[i] == if exists|j: int|
                0 <= j < k + 1 && (#[trigger] slots@[j]).index == i {
                finished(before[i])
            } else {
                before[i]
            } by {
                if i == idx {
                    assert(slots@[k as int].index == i);
                    assert(finished(finished(before[i])) == finished(before[i]));
                } else {
                    assert(messages@[i] == cur[i]);
                    if exists|j: int| 0 <= j < k + 1 && (#[trigger] slots@[j]).index == i {
                        let j = choose|j: int| 0 <= j < k + 1 && (#[trigger] slots@[j]).index == i;
                        assert(j < k);
                    }
                }
            }
        } else {
            assert forall|i: int| 0 <= i < before.len() implies messages@[i] == if exists|j: int|
                0 <= j < k + 1 && (#[trigger] slots@[j]).index == i {
                finished(before[i])
            } else {
                before[i]
            } by {
                if exists|j: int| 0 <= j < k + 1 && (#[trigger] slots@[j]).index == i {
                    let j = choose|j: int| 0 <= j < k + 1 && (#[trigger] slots@[j]).index == i;
                    assert(j < k);
                }
            }
        }
        k = k + 1;
    }
}

/// Position of `s` in `v`.
fn position_of(v: &Vec<String>, s: &str) -> (r: Option<usize>)
    ensures
        match r {
            Some(i) => i < v.len() && v@[i as int]@ == s@,
            None => !views(v@).contains(s@),
        },
{
    let mut i: usize = 0;
    while i < v.len()
        invariant
            i <= v.len(),
            forall|j: int| 0 <= j < i ==> v@[j]@ != s@,
        decreases v.len() - i,
    {
        if str_eq(v[i].as_str(), s) {
            return Some(i);
        }
        i = i + 1;
    }
    proof {
        if views(v@).contains(s@) {
            let k = choose|k: int| 0 <= k < views(v@).len() && views(v@)[k] == s@;
            assert(v@[k]@ == s@);
        }
    }
    None
}

/// `after` is the selection `before` with `id` toggled.
pub open spec fn toggled(before: Seq<Seq<char>>, after: Seq<Seq<char>>, id: Seq<char>) -> bool {
    &&& after.no_duplicates()
    &&& after.contains(id) == !before.contains(id)
    &&& forall|x: Seq<char>| x != id ==> (after.contains(x) == before.contains(x))
}

/// Clicking a model chip: an unselected model becomes selected, a selected
/// one unselected; the other selections stay as they are.
pub fn toggle_model(selected: &mut Vec<String>, id: &str)
    requires
        views(old(selected)@).no_duplicates(),
    ensures
        toggled(views(old(selected)@), views(final(selected)@), id@),
{
    let ghost old_v = views(selected@);
    match position_of(selected, id) {
        Some(i) => {
            selected.remove(i);
            proof {
                let new_v = views(selected@);
                assert(new_v =~= old_v.remove(i as int));
                assert(old_v[i as int] == id@);
                assert forall|x: Seq<char>| x != id@ implies (new_v.contains(x) == old_v.contains(x)) by {
                    if old_v.contains(x) {
                        let k = choose|k: int| 0 <= k < old_v.len() && old_v[k] == x;
                        if k < i {
                            assert(new_v[k] == x);
                        } else {
                            assert(k != i);
                            assert(new_v[k - 1] == x);
                        }
                    }
                    if new_v.contains(x) {
                        let k = choose|k: int| 0 <= k < new_v.len() && new_v[k] == x;
                        if k < i {
                            assert(old_v[k] == x);
                        } else {
                            assert(old_v[k + 1] == x);
                        }
                    }
                }
                if new_v.contains(id@) {
                    let k = choose|k: int| 0 <= k < new_v.len() && new_v[k] == id@;
                    if k < i {
                        assert(old_v[k] == id@);
                    } else {
                        assert(old_v[k + 1] == id@);
                    }
                }
                assert forall|a: int, b: int| 0 <= a < b < new_v.len() implies new_v[a] != new_v[b] by {
                    let a2 = if a < i { a } else { a + 1 };
                    let b2 = if b < i { b } else { b + 1 };
                    assert(new_v[a] == old_v[a2]);
                    assert(new_v[b] == old_v[b2]);
                }
            }
        },
        None => {
            selected.push(String::from_str(id));
            proof {
                let new_v = views(selected@);
                assert(new_v =~= old_v.push(id@));
                assert forall|x: Seq<char>| x != id@ implies (new_v.contains(x) == old_v.contains(x)) by {
                    if new_v.contains(x) {
                        let k = choose|k: int| 0 <= k < new_v.len() && new_v[k] == x;
                        assert(k < old_v.len());
                        assert(old_v[k] == x);
                    }
                    if old_v.contains(x) {
                        let k = choose|k: int| 0 <= k < old_v.len() && old_v[k] == x;
                        assert(new_v[k] == x);
                    }
                }
                assert(new_v[old_v.len() as int] == id@);
                assert forall|a: int, b: int| 0 <= a < b < new_v.len() implies new_v[a] != new_v[b] by {
                    if b == old_v.len() {
                        assert(new_v[a] == old_v[a]);
                        assert(new_v[b] == id@);
                        if new_v[a] == new_v[b] {
                            assert(old_v.contains(id@));
                        }
                    } else {
                        assert(new_v[a] == old_v[a]);
                        assert(new_v[b] == old_v[b]);
                    }
                }
            }
        },
    }
}

/// Clicking a chip twice restores the selection.
pub proof fn toggle_twice_restores(
    a: Seq<Seq<char>>,
    b: Seq<Seq<char>>,
    c: Seq<Seq<char>>,
    id: Seq<char>,
)
    requires
        toggled(a, b, id),
        toggled(b, c, id),
    ensures
        forall|x: Seq<char>| c.contains(x) == a.contains(x),
{
}

/// Progress text of an answer.
pub fn progress_label(is_finished: bool, response: &str, has_error: bool) -> (r: &'static str)
    ensures
        r@ == if is_finished {
            "Reasoning Complete"@
        } else if response@.len() == 0 && !has_error {
            "Loading Model..."@
        } else {
            "Generating..."@
        },
{
    if is_finished {
        "Reasoning Complete"
    } else if response.is_empty() && !has_error {
        "Loading Model..."
    } else {
        "Generating..."
    }
}

} // verus!
