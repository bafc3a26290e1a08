use vstd::prelude::*;

use crate::chat::{
    ChatMessage, ConfigError, LlmClient, LlmError, assistant_message, message_views, system_message,
    user_message,
};
use crate::chat::MessageView;
use crate::history::{
    ConversationHistory, HistoryView, clamp_cap, keep_last, lemma_pop_undoes_push_user,
    lemma_turns_are_newest, with_turn, with_turns, without_last_user,
};
use crate::text::{
    alphanumeric, chars_of, has_prefix, is_alphanumeric, is_ws, lemma_trim_shape, lowercase,
    to_lowercase, trim, trim_start, trim_start_index, trim_str,
};

verus! {

/// What the language-model fallback needs once enabled: a configured client,
/// the conversation so far, and the token budget of a reply.
pub struct FallbackState {
    pub client: LlmClient,
    pub history: ConversationHistory,
    pub max_tokens: u32,
}

/// What to tell the user after a request: the model's answer, or the
/// configured apology when the request failed.
#[derive(Debug)]
pub enum FallbackReply {
    Answer(String),
    Failed(String),
}

/// An optional string by its characters.
pub open spec fn opt_view(o: Option<String>) -> Option<Seq<char>> {
    match o {
        Some(s) => Some(s@),
        None => None,
    }
}

/// The characters of each trigger phrase.
pub open spec fn trigger_views(triggers: Seq<String>) -> Seq<Seq<char>> {
    triggers.map_values(|t: String| t@)
}

/// What follows a trigger phrase at the start of a text (leading white space
/// ignored), provided the trigger ends there as a whole word: the next
/// character, if any, is not alphanumeric.
pub open spec fn strip_trigger_spec(text: Seq<char>, trigger: Seq<char>) -> Option<Seq<char>> {
    let t = trim_start(text);
    if has_prefix(t, trigger) {
        let after = t.skip(trigger.len() as int);
        if after.len() == 0 || !alphanumeric(after[0]) {
            Some(after)
        } else {
            None
        }
    } else {
        None
    }
}

/// The prompt after the first trigger phrase, in list order, that starts the
/// (already lower-cased) text and is followed by something other than white
/// space; the prompt is that rest, trimmed.
pub open spec fn extract_from(lowered: Seq<char>, triggers: Seq<Seq<char>>) -> Option<Seq<char>>
    decreases triggers.len(),
{
    if triggers.len() == 0 {
        None
    } else {
        match strip_trigger_spec(lowered, triggers[0]) {
            Some(rest) => if trim(rest).len() > 0 {
                Some(trim(rest))
            } else {
                extract_from(lowered, triggers.drop_first())
            },
            None => extract_from(lowered, triggers.drop_first()),
        }
    }
}

/// An extracted prompt is never empty and neither starts nor ends with white
/// space.
pub proof fn lemma_extracted_prompt_is_trimmed(lowered: Seq<char>, triggers: Seq<Seq<char>>)
    ensures
        extract_from(lowered, triggers) matches Some(p) ==> {
            &&& p.len() > 0
            &&& !is_ws(p[0])
            &&& !is_ws(p.last())
        },
    decreases triggers.len(),
{
    if triggers.len() > 0 {
        lemma_extracted_prompt_is_trimmed(lowered, triggers.drop_first());
        if let Some(rest) = strip_trigger_spec(lowered, triggers[0]) {
            lemma_trim_shape(rest);
        }
    }
}

/// The prompt a single trigger phrase gives: the text (leading white space
/// ignored) must start with the trigger, the trigger must end there as a
/// whole word (the text ends, or the next character is not alphanumeric),
/// and what follows, trimmed, must not be empty.
pub open spec fn trigger_prompt(lowered: Seq<char>, trigger: Seq<char>) -> Option<Seq<char>> {
    let u = trim_start(lowered);
    let rest = u.skip(trigger.len() as int);
    if has_prefix(u, trigger) && (u.len() == trigger.len() || !alphanumeric(u[trigger.len() as int]))
        && trim(rest).len() > 0 {
        Some(trim(rest))
    } else {
        None
    }
}

/// The prompt found is the one the first trigger phrase in the list gives:
/// no earlier trigger gives one; and none is found only when no trigger
/// gives one.
pub proof fn lemma_prompt_of_first_matching_trigger(lowered: Seq<char>, triggers: Seq<Seq<char>>)
    ensures
        extract_from(lowered, triggers) matches Some(p) ==> exists|i: int|
            0 <= i < triggers.len() && #[trigger] trigger_prompt(lowered, triggers[i]) == Some(p)
                && forall|j: int| 0 <= j < i ==> #[trigger] trigger_prompt(lowered, triggers[j]) is None,
        extract_from(lowered, triggers) is None ==> forall|i: int|
            0 <= i < triggers.len() ==> #[trigger] trigger_prompt(lowered, triggers[i]) is None,
    decreases triggers.len(),
{
    if triggers.len() > 0 {
        let t0 = triggers[0];
        let rest_ts = triggers.drop_first();
        lemma_prompt_of_first_matching_trigger(lowered, rest_ts);
        let u = trim_start(lowered);
        if has_prefix(u, t0) && u.len() > t0.len() {
            assert(u.skip(t0.len() as int)[0] == u[t0.len() as int]);
        }
        if has_prefix(u, t0) && u.len() == t0.len() {
            assert(u.skip(t0.len() as int).len() == 0);
        }
        assert forall|i: int| 0 < i < triggers.len() implies #[trigger] trigger_prompt(
            lowered,
            triggers[i],
        ) == trigger_prompt(lowered, rest_ts[i - 1]) by {
            assert(triggers[i] == rest_ts[i - 1]);
        }
        if trigger_prompt(lowered, t0) is None {
            if let Some(p) = extract_from(lowered, triggers) {
                assert(extract_from(lowered, rest_ts) == Some(p));
                let i = choose|i: int|
                    0 <= i < rest_ts.len() && #[trigger] trigger_prompt(lowered, rest_ts[i]) == Some(p)
                        && forall|j: int|
                        0 <= j < i ==> #[trigger] trigger_prompt(lowered, rest_ts[j]) is None;
                assert(trigger_prompt(lowered, triggers[i + 1]) == Some(p));
                assert forall|j: int| 0 <= j < i + 1 implies #[trigger] trigger_prompt(
                    lowered,
                    triggers[j],
                ) is None by {
                    if j > 0 {
                        assert(trigger_prompt(lowered, rest_ts[j - 1]) is None);
                    }
                }
            }
        } else {
            assert(trigger_prompt(lowered, triggers[0]) == extract_from(lowered, triggers));
        }
    }
}

/// A prompt is only found right after a trigger phrase that opens the text:
/// when one is found, some trigger in the list starts the (trimmed) text.
pub proof fn lemma_prompt_follows_a_trigger(lowered: Seq<char>, triggers: Seq<Seq<char>>)
    ensures
        extract_from(lowered, triggers) is Some ==> exists|i: int|
            0 <= i < triggers.len() && has_prefix(trim_start(lowered), #[trigger] triggers[i]),
    decreases triggers.len(),
{
    if triggers.len() > 0 {
        lemma_prompt_follows_a_trigger(lowered, triggers.drop_first());
        if strip_trigger_spec(lowered, triggers[0]) is Some {
            assert(has_prefix(trim_start(lowered), triggers[0]));
        } else if extract_from(lowered, triggers) is Some {
            let i = choose|i: int|
                0 <= i < triggers.drop_first().len() && has_prefix(
                    trim_start(lowered),
                    #[trigger] triggers.drop_first()[i],
                );
            assert(triggers[i + 1] == triggers.drop_first()[i]);
        }
    }
}

/// A request that fails leaves the history as it was before the prompt,
/// as long as recording the prompt evicted no turn (the history was below
/// its cap).
pub proof fn lemma_failed_request_restores_history(h: HistoryView, prompt: Seq<char>)
    requires
        h.wf(),
        h.turns.len() < h.max_turns,
    ensures
        without_last_user(with_turn(h, user_message(prompt))) == h,
{
    lemma_pop_undoes_push_user(h, prompt);
}

/// A request that succeeds adds the prompt and the trimmed reply as the two
/// newest turns; the system prompt stays and the turns are the newest
/// `max_turns` of all turns so far.
pub proof fn lemma_answered_request_appends_exchange(
    h: HistoryView,
    prompt: Seq<char>,
    reply: Seq<char>,
)
    requires
        h.wf(),
    ensures
        ({
            let after = with_turn(with_turn(h, user_message(prompt)), assistant_message(trim(reply)));
            &&& after.wf()
            &&& after.system == h.system
            &&& after.turns == keep_last(
                h.turns + seq![user_message(prompt), assistant_message(trim(reply))],
                h.max_turns,
            )
        }),
{
    let ms = seq![user_message(prompt), assistant_message(trim(reply))];
    lemma_turns_are_newest(h, ms);
    assert(ms.drop_last() =~= seq![user_message(prompt)]);
    assert(seq![user_message(prompt)].drop_last() =~= Seq::<MessageView>::empty());
    assert(with_turns(h, Seq::<MessageView>::empty()) == h);
    assert(with_turns(h, seq![user_message(prompt)]) == with_turn(h, user_message(prompt)));
    assert(ms.last() == assistant_message(trim(reply)));
    assert(with_turns(h, ms) == with_turn(with_turn(h, user_message(prompt)), assistant_message(trim(reply))));
}

/// Strips a trigger phrase from the start of a text.
fn strip_trigger(text: &str, text_chars: &Vec<char>, trigger: &str) -> (r: Option<String>)
    requires
        text_chars@ == text@,
    ensures
        opt_view(r) == strip_trigger_spec(text@, trigger@),
{
    let start = trim_start_index(text_chars.as_slice());
    let trig = chars_of(trigger);
    let n = text_chars.len();
    let tl = trig.len();
    if tl > n - start {
        return None;
    }
    let mut k: usize = 0;
    while k < tl
        invariant
            start + tl <= n,
            n == text_chars@.len(),
            text_chars@ == text@,
            trig@ == trigger@,
            trim_start(text@) == text_chars@.skip(start as int),
            tl == trig@.len(),
            k <= tl,
            forall|j: int| 0 <= j < k ==> text_chars@[start + j] == trig@[j],
        decreases tl - k,
    {
        if text_chars[start + k] != trig[k] {
            proof {
                let t = text_chars@.skip(start as int);
                assert(t.take(tl as int)[k as int] == text_chars@[start + k]);
                assert(t.take(tl as int) != trig@);
            }
            return None;
        }
        k = k + 1;
    }
    let ghost t = text_chars@.skip(start as int);
    assert(t.take(tl as int) =~= trig@);
    let next = start + tl;
    if next < n {
        let c = text_chars[next];
        if is_alphanumeric(c) {
            assert(t.skip(tl as int)[0] == c);
            return None;
        }
    }
    let after = text.substring_char(next, n);
    assert(after@ =~= t.skip(tl as int));
    Some(String::from_str(after))
}

/// The prompt in an already lower-cased text, after the first trigger
/// phrase that introduces one.
pub fn extract_prompt_lowered(lowered: &str, triggers: &[String]) -> (r: Option<String>)
    ensures
        opt_view(r) == extract_from(lowered@, trigger_views(triggers@)),
{
    let chars = chars_of(lowered);
    let ghost tv = trigger_views(triggers@);
    let n = triggers.len();
    let mut i: usize = 0;
    assert(tv.skip(0) =~= tv);
    while i < n
        invariant
            n == triggers@.len(),
            i <= n,
            chars@ == lowered@,
            tv == trigger_views(triggers@),
            extract_from(lowered@, tv) == extract_from(lowered@, tv.skip(i as int)),
        decreases n - i,
    {
        let ghost rest_tv = tv.skip(i as int);
        assert(rest_tv[0] == triggers@[i as int]@);
        assert(rest_tv.drop_first() =~= tv.skip(i + 1));
        if let Some(rest) = strip_trigger(lowered, &chars, triggers[i].as_str()) {
            let trimmed = trim_str(rest.as_str());
            if !trimmed.as_str().is_empty() {
                return Some(trimmed);
            }
        }
        i = i + 1;
    }
    assert(tv.skip(n as int).len() == 0);
    None
}

/// The prompt that a recognised text addresses to the language model: the
/// text is lower-cased, then the first trigger phrase (in list order) that
/// starts it as a whole word and is followed by more than white space gives
/// the prompt, trimmed. `None` when no trigger does.
pub fn extract_prompt(text: &str, triggers: &[String]) -> (r: Option<String>)
    ensures
        opt_view(r) == extract_from(lowercase(text@), trigger_views(triggers@)),
{
    let lowered = to_lowercase(text);
    extract_prompt_lowered(lowered.as_str(), triggers)
}

/// Sets up the fallback: enabled only when the configuration enables it and
/// a client could be configured; the history then starts with the system
/// prompt and keeps at most `max_history` turns.
pub fn init(
    enabled: bool,
    client: Result<LlmClient, ConfigError>,
    system_prompt: &str,
    max_history: usize,
    max_tokens: u32,
) -> (r: Option<FallbackState>)
    ensures
        r is Some <==> enabled && client is Ok,
        r matches Some(s) ==> {
            &&& s.client@ == client->Ok_0@
            &&& s.history@ == (HistoryView {
                system: Some(system_message(system_prompt@)),
                turns: Seq::empty(),
                max_turns: clamp_cap(max_history),
            })
            &&& s.history@.wf()
            &&& s.max_tokens == max_tokens
        },
{
    if !enabled {
        return None;
    }
    let client = match client {
        Ok(c) => c,
        Err(_) => return None,
    };
    let history = ConversationHistory::new(system_prompt, max_history);
    Some(FallbackState { client, history, max_tokens })
}

/// Whether the fallback was set up.
pub fn is_enabled(state: &Option<FallbackState>) -> (r: bool)
    ensures
        r == state is Some,
{
    state.is_some()
}

/// Starts answering a prompt: records it as the user's turn and returns the
/// messages to send.
pub fn handle(history: &mut ConversationHistory, prompt: &str) -> (msgs: Vec<ChatMessage>)
    requires
        old(history)@.wf(),
    ensures
        final(history)@.wf(),
        final(history)@ == with_turn(old(history)@, user_message(prompt@)),
        message_views(msgs@) == final(history)@.snapshot(),
{
    history.push_user(prompt);
    history.snapshot()
}

/// Finishes answering a prompt once the request is over: a reply is trimmed
/// and recorded as the assistant's turn; after a failure the unanswered
/// prompt is taken back and the apology is returned.
pub fn handle_outcome(
    history: &mut ConversationHistory,
    outcome: Result<String, LlmError>,
    error_text: &str,
) -> (reply: FallbackReply)
    requires
        old(history)@.wf(),
    ensures
        final(history)@.wf(),
        match outcome {
            Ok(text) => {
                &&& final(history)@ == with_turn(old(history)@, assistant_message(trim(text@)))
                &&& reply matches FallbackReply::Answer(a) && a@ == trim(text@)
            },
            Err(_) => {
                &&& final(history)@ == without_last_user(old(history)@)
                &&& reply matches FallbackReply::Failed(m) && m@ == error_text@
            },
        },
{
    match outcome {
        Ok(text) => {
            let reply = trim_str(text.as_str());
            history.push_assistant(reply.as_str());
            FallbackReply::Answer(reply)
        },
        Err(_) => {
            history.pop_last_user();
            FallbackReply::Failed(String::from_str(error_text))
        },
    }
}

} // verus!
