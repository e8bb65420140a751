//! Multi-turn chat history and the decisions of each chat turn.
//!
//! The audio of a turn is carried as an opaque payload `A` (the sample
//! buffer); this module never looks inside it.

use vstd::prelude::*;

use std::collections::HashMap;

use crate::error::{ErrorKind, LFM2Error};
use crate::server::DEFAULT_SYSTEM_PROMPT_INTERLEAVED;
use crate::text::owned;

verus! {

/// A turn in the conversation
#[derive(Debug)]
#[allow(inconsistent_fields)]
pub enum Turn<A> {
    UserAudio { audio: A, sample_rate: u32, text_prompt: Option<String> },
    UserText(String),
    Assistant { text: String, audio: Option<A> },
}

/// Assistant response
#[derive(Debug)]
pub struct AssistantResponse<A> {
    pub text: String,
    pub audio: Option<A>,
}

/// The user input an assistant turn is generated from.
pub enum ChatInput<'t, A> {
    Text(&'t String),
    Audio { audio: &'t A, sample_rate: u32, text_prompt: &'t Option<String> },
}

/// How the next assistant turn is generated.
pub struct GenerationPlan<'t, A> {
    pub input: ChatInput<'t, A>,
    /// The system prompt is sent only while the decoder cache is still empty.
    pub include_system_prompt: bool,
}

pub open spec fn no_user_turns_message() -> Seq<char> {
    "Cannot generate chat response without any user turns"@
}

pub open spec fn no_new_input_message() -> Seq<char> {
    "Cannot generate a new assistant turn without a new user input"@
}

/// The error a chat turn is refused with, if any: there must be a last turn,
/// and it must come from the user.
pub open spec fn refusal<A>(turns: Seq<Turn<A>>) -> Option<Seq<char>> {
    if turns.len() == 0 {
        Some(no_user_turns_message())
    } else if turns.last() is Assistant {
        Some(no_new_input_message())
    } else {
        None
    }
}

/// The audio an assistant turn keeps: the samples when there are any.
pub fn response_audio<A>(audio: A, audio_len: usize) -> (r: Option<A>)
    ensures
        r == (if audio_len > 0 {
            Some(audio)
        } else {
            None
        }),
{
    if audio_len > 0 {
        Some(audio)
    } else {
        None
    }
}

/// Conversation history with the length of the decoder cache that holds it.
pub struct ChatHistory<A> {
    pub turns: Vec<Turn<A>>,
    pub cache_seq_len: usize,
}

impl<A> ChatHistory<A> {
    pub fn new() -> (h: Self)
        ensures
            h.turns@.len() == 0,
            h.cache_seq_len == 0,
    {
        ChatHistory { turns: Vec::new(), cache_seq_len: 0 }
    }

    /// Add user audio turn
    pub fn add_user_audio(&mut self, audio: A, sample_rate: u32)
        ensures
            final(self).turns@ == old(self).turns@.push(
                Turn::UserAudio { audio, sample_rate, text_prompt: None },
            ),
            final(self).cache_seq_len == old(self).cache_seq_len,
    {
        self.add_user_audio_with_text(audio, sample_rate, None)
    }

    /// Add user audio turn with an optional text prompt
    pub fn add_user_audio_with_text(
        &mut self,
        audio: A,
        sample_rate: u32,
        text_prompt: Option<String>,
    )
        ensures
            final(self).turns@ == old(self).turns@.push(
                Turn::UserAudio { audio, sample_rate, text_prompt },
            ),
            final(self).cache_seq_len == old(self).cache_seq_len,
    {
        self.turns.push(Turn::UserAudio { audio, sample_rate, text_prompt });
    }

    /// Add user text turn
    pub fn add_user_text(&mut self, text: String)
        ensures
            final(self).turns@ == old(self).turns@.push(Turn::UserText(text)),
            final(self).cache_seq_len == old(self).cache_seq_len,
    {
        self.turns.push(Turn::UserText(text));
    }

    /// Decide how the next assistant turn is generated: from the last user
    /// turn, with the system prompt when nothing has been decoded yet.
    pub fn plan(&self) -> (r: Result<GenerationPlan<'_, A>, LFM2Error>)
        ensures
            refusal(self.turns@) matches Some(m) ==> (r matches Err(e) && e@ == (
                ErrorKind::Generation,
                m,
            )),
            refusal(self.turns@) is None ==> (r matches Ok(p) && {
                &&& p.include_system_prompt == (self.cache_seq_len == 0)
                &&& match self.turns@.last() {
                    Turn::UserText(t) => p.input matches ChatInput::Text(pt) && *pt == t,
                    Turn::UserAudio { audio, sample_rate, text_prompt } => p.input matches ChatInput::Audio {
                        audio: pa,
                        sample_rate: ps,
                        text_prompt: pp,
                    } && *pa == audio && ps == sample_rate && *pp == text_prompt,
                    Turn::Assistant { .. } => false,
                }
            }),
    {
        let n = self.turns.len();
        if n == 0 {
            return Err(
                LFM2Error::Generation(
                    owned("Cannot generate chat response without any user turns"),
                ),
            );
        }
        let include_system_prompt = self.cache_seq_len == 0;
        match &self.turns[n - 1] {
            Turn::UserText(text) => Ok(
                GenerationPlan { input: ChatInput::Text(text), include_system_prompt },
            ),
            Turn::UserAudio { audio, sample_rate, text_prompt } => Ok(
                GenerationPlan {
                    input: ChatInput::Audio { audio, sample_rate: *sample_rate, text_prompt },
                    include_system_prompt,
                },
            ),
            Turn::Assistant { .. } => Err(
                LFM2Error::Generation(
                    owned("Cannot generate a new assistant turn without a new user input"),
                ),
            ),
        }
    }

    /// Record the generated assistant turn and the decoder cache length after
    /// it. The turn keeps the audio only when it holds samples.
    pub fn record_response(&mut self, text: String, audio: A, audio_len: usize, cache_seq_len: usize)
        requires
            refusal(old(self).turns@) is None,
        ensures
            final(self).turns@ == old(self).turns@.push(
                Turn::Assistant {
                    text,
                    audio: if audio_len > 0 {
                        Some(audio)
                    } else {
                        None
                    },
                },
            ),
            final(self).cache_seq_len == cache_seq_len,
            refusal(final(self).turns@) == Some(no_new_input_message()),
    {
        let audio = response_audio(audio, audio_len);
        self.turns.push(Turn::Assistant { text, audio });
        self.cache_seq_len = cache_seq_len;
    }

    /// Get conversation history
    pub fn history(&self) -> (h: &[Turn<A>])
        ensures
            h@ == self.turns@,
    {
        self.turns.as_slice()
    }

    /// Reset session (clear history; the decoder cache is emptied by the caller)
    pub fn reset(&mut self)
        ensures
            final(self).turns@.len() == 0,
            final(self).cache_seq_len == 0,
    {
        self.turns = Vec::new();
        self.cache_seq_len = 0;
    }
}

/// A chat turn is generated only from a fresh user input: right after a
/// response is recorded, the next turn is refused until the user speaks again,
/// and once the user has added a turn it is accepted again.
pub proof fn lemma_response_needs_new_input<A>(turns: Seq<Turn<A>>, user_turn: Turn<A>)
    requires
        !(user_turn is Assistant),
    ensures
        forall|text: String, audio: Option<A>|
            refusal(#[trigger] turns.push(Turn::Assistant { text, audio })) == Some(
                no_new_input_message(),
            ),
        refusal(turns.push(user_turn)) is None,
{
}

/// A reset session refuses to generate until a user turn is added, and then
/// sends the system prompt again.
pub proof fn lemma_reset_starts_over<A>(h: ChatHistory<A>, user_turn: Turn<A>)
    requires
        h.turns@.len() == 0,
        h.cache_seq_len == 0,
        !(user_turn is Assistant),
    ensures
        refusal(h.turns@) == Some(no_user_turns_message()),
        refusal(h.turns@.push(user_turn)) is None,
{
}

/// One chat session of the server: the system prompt it was started with,
/// its history, and the decoder cache `C` that holds what was decoded.
pub struct SessionEntry<A, C> {
    pub prompt: String,
    pub history: ChatHistory<A>,
    pub cache: C,
}

/// A session that has just been started: the given prompt and nothing said.
pub open spec fn is_fresh_session<A, C>(e: SessionEntry<A, C>, prompt: Seq<char>) -> bool {
    &&& e.prompt@ == prompt
    &&& e.history.turns@.len() == 0
    &&& e.history.cache_seq_len == 0
}

impl<A, C> SessionEntry<A, C> {
    /// A fresh session with this prompt and decoder cache.
    pub fn fresh(prompt: String, cache: C) -> (e: Self)
        ensures
            is_fresh_session(e, prompt@),
            e.cache == cache,
    {
        SessionEntry { prompt, history: ChatHistory::new(), cache }
    }
}

/// The chat sessions of a model worker, by session id. A session keeps its
/// history until it is reset or closed.
pub struct SessionTable<A, C> {
    pub sessions: HashMap<u64, SessionEntry<A, C>>,
}

impl<A, C> SessionTable<A, C> {
    pub fn new() -> (t: Self)
        ensures
            t.sessions@ == Map::<u64, SessionEntry<A, C>>::empty(),
    {
        SessionTable { sessions: HashMap::new() }
    }

    /// Whether a session is open.
    pub fn contains(&self, session_id: u64) -> (b: bool)
        ensures
            b == self.sessions@.contains_key(session_id),
    {
        broadcast use vstd::std_specs::hash::group_hash_axioms;

        self.sessions.contains_key(&session_id)
    }

    /// Start a session: a fresh one with the given prompt takes the id's
    /// place; no other session changes.
    pub fn start(&mut self, session_id: u64, prompt: String, cache: C)
        ensures
            final(self).sessions@.contains_key(session_id),
            is_fresh_session(final(self).sessions@[session_id], prompt@),
            final(self).sessions@[session_id].cache == cache,
            final(self).sessions@.remove(session_id) == old(self).sessions@.remove(session_id),
            final(self).sessions@ == old(self).sessions@.insert(
                session_id,
                final(self).sessions@[session_id],
            ),
    {
        broadcast use vstd::std_specs::hash::group_hash_axioms;

        let entry = SessionEntry::fresh(prompt, cache);
        self.sessions.insert(session_id, entry);
        proof {
            assert(final(self).sessions@.remove(session_id) =~= old(self).sessions@.remove(session_id));
            assert(final(self).sessions@ =~= old(self).sessions@.insert(
                session_id,
                final(self).sessions@[session_id],
            ));
        }
    }

    /// Take out the session a turn is for, to generate with it: the open
    /// session with that id, else a fresh one with the default interleaved
    /// prompt and a cache from `make_cache`. The table keeps every other
    /// session; the turn's session goes back with [`SessionTable::restore`].
    pub fn take_for_turn<F: FnOnce() -> C>(&mut self, session_id: u64, make_cache: F) -> (e: SessionEntry<A, C>)
        requires
            call_requires(make_cache, ()),
        ensures
            final(self).sessions@ == old(self).sessions@.remove(session_id),
            old(self).sessions@.contains_key(session_id) ==> e == old(self).sessions@[session_id],
            !old(self).sessions@.contains_key(session_id) ==> {
                &&& is_fresh_session(e, DEFAULT_SYSTEM_PROMPT_INTERLEAVED@)
                &&& call_ensures(make_cache, (), e.cache)
            },
    {
        broadcast use vstd::std_specs::hash::group_hash_axioms;

        match self.sessions.remove(&session_id) {
            Some(entry) => entry,
            None => {
                let cache = make_cache();
                SessionEntry::fresh(owned(DEFAULT_SYSTEM_PROMPT_INTERLEAVED), cache)
            },
        }
    }

    /// Put a session back under its id.
    pub fn restore(&mut self, session_id: u64, entry: SessionEntry<A, C>)
        ensures
            final(self).sessions@ == old(self).sessions@.insert(session_id, entry),
    {
        broadcast use vstd::std_specs::hash::group_hash_axioms;

        self.sessions.insert(session_id, entry);
    }

    /// Reset a session with a new decoder cache from `make_cache`: its
    /// history is emptied and its prompt kept; a session that is not open is
    /// opened with the default interleaved prompt. When no cache can be made,
    /// the table is left as it was and the error is returned. No other
    /// session changes.
    pub fn reset<E, F: FnOnce() -> Result<C, E>>(&mut self, session_id: u64, make_cache: F) -> (r: Result<(), E>)
        requires
            call_requires(make_cache, ()),
        ensures
            r is Err ==> final(self).sessions@ == old(self).sessions@,
            r is Ok ==> {
                &&& final(self).sessions@.contains_key(session_id)
                &&& is_fresh_session(
                    final(self).sessions@[session_id],
                    if old(self).sessions@.contains_key(session_id) {
                        old(self).sessions@[session_id].prompt@
                    } else {
                        DEFAULT_SYSTEM_PROMPT_INTERLEAVED@
                    },
                )
                &&& call_ensures(make_cache, (), Ok::<C, E>(final(self).sessions@[session_id].cache))
                &&& final(self).sessions@.remove(session_id) == old(self).sessions@.remove(session_id)
                &&& final(self).sessions@ == old(self).sessions@.insert(
                    session_id,
                    final(self).sessions@[session_id],
                )
            },
    {
        broadcast use vstd::std_specs::hash::group_hash_axioms;

        let cache = match make_cache() {
            Ok(c) => c,
            Err(e) => {
                return Err(e);
            },
        };
        let prompt = match self.sessions.remove(&session_id) {
            Some(entry) => entry.prompt,
            None => owned(DEFAULT_SYSTEM_PROMPT_INTERLEAVED),
        };
        self.sessions.insert(session_id, SessionEntry::fresh(prompt, cache));
        proof {
            assert(final(self).sessions@.remove(session_id) =~= old(self).sessions@.remove(session_id));
            assert(final(self).sessions@ =~= old(self).sessions@.insert(
                session_id,
                final(self).sessions@[session_id],
            ));
        }
        Ok(())
    }

    /// Close a session; no other session changes.
    pub fn close(&mut self, session_id: u64)
        ensures
            final(self).sessions@ == old(self).sessions@.remove(session_id),
    {
        broadcast use vstd::std_specs::hash::group_hash_axioms;

        self.sessions.remove(&session_id);
    }
}

/// A change a model worker makes to its session table, as the table's
/// operations state it: starting or resetting a session puts its new entry
/// under its id, a turn takes the session out and puts it back, closing
/// removes it.
pub enum TableChange<A, C> {
    Start { id: u64, entry: SessionEntry<A, C> },
    Turn { id: u64, entry: SessionEntry<A, C> },
    Reset { id: u64, entry: SessionEntry<A, C> },
    Close { id: u64 },
}

/// The session a change is about.
pub open spec fn change_id<A, C>(c: TableChange<A, C>) -> u64 {
    match c {
        TableChange::Start { id, .. } => id,
        TableChange::Turn { id, .. } => id,
        TableChange::Reset { id, .. } => id,
        TableChange::Close { id } => id,
    }
}

/// The sessions after one change.
pub open spec fn apply_change<A, C>(m: Map<u64, SessionEntry<A, C>>, c: TableChange<A, C>) -> Map<
    u64,
    SessionEntry<A, C>,
> {
    match c {
        TableChange::Start { id, entry } => m.insert(id, entry),
        TableChange::Turn { id, entry } => m.insert(id, entry),
        TableChange::Reset { id, entry } => m.insert(id, entry),
        TableChange::Close { id } => m.remove(id),
    }
}

/// The sessions after changes made in order.
pub open spec fn apply_changes<A, C>(m: Map<u64, SessionEntry<A, C>>, cs: Seq<TableChange<A, C>>) -> Map<
    u64,
    SessionEntry<A, C>,
>
    decreases cs.len(),
{
    if cs.len() == 0 {
        m
    } else {
        apply_change(apply_changes(m, cs.drop_last()), cs.last())
    }
}

/// A session that keeps its prompt and everything said in it so far, at the
/// front of its history.
pub open spec fn keeps_history<A, C>(before: SessionEntry<A, C>, after: SessionEntry<A, C>) -> bool {
    &&& after.prompt@ == before.prompt@
    &&& before.history.turns@.is_prefix_of(after.history.turns@)
}

/// A session keeps its prompt and its history until it is reset or closed:
/// changes to other sessions leave it alone, and through turns of its own
/// that only add to its history, what it had stays at the front.
pub proof fn lemma_history_kept_until_reset_or_close<A, C>(
    m: Map<u64, SessionEntry<A, C>>,
    cs: Seq<TableChange<A, C>>,
    id: u64,
)
    requires
        m.contains_key(id),
        forall|k: int|
            0 <= k < cs.len() && change_id(#[trigger] cs[k]) == id ==> (cs[k] matches TableChange::Turn {
                entry,
                ..
            } && keeps_history(apply_changes(m, cs.take(k))[id], entry)),
    ensures
        apply_changes(m, cs).contains_key(id),
        keeps_history(m[id], apply_changes(m, cs)[id]),
    decreases cs.len(),
{
    if cs.len() > 0 {
        let prev = cs.drop_last();
        assert forall|k: int|
            0 <= k < prev.len() && change_id(#[trigger] prev[k]) == id implies (prev[k] matches TableChange::Turn {
                entry,
                ..
            } && keeps_history(apply_changes(m, prev.take(k))[id], entry)) by {
            assert(prev[k] == cs[k]);
            assert(prev.take(k) =~= cs.take(k));
        }
        lemma_history_kept_until_reset_or_close(m, prev, id);
        let last = cs.len() - 1;
        assert(cs[last] == cs.last());
        assert(cs.take(last) =~= prev);
        let before = apply_changes(m, prev);
        if change_id(cs.last()) == id {
            let after = apply_changes(m, cs)[id];
            assert(keeps_history(before[id], after));
            assert(m[id].history.turns@.is_prefix_of(after.history.turns@)) by {
                let a = m[id].history.turns@;
                let b = before[id].history.turns@;
                let c = after.history.turns@;
                assert forall|i: int| 0 <= i < a.len() implies a[i] == c[i] by {
                    assert(a[i] == b.subrange(0, a.len() as int)[i]);
                    assert(b[i] == c.subrange(0, b.len() as int)[i]);
                }
                assert(a =~= c.subrange(0, a.len() as int));
            }
        } else {
            assert(apply_changes(m, cs)[id] == before[id]);
        }
    }
}

/// A closed session is gone until it is started again: a later turn for its
/// id begins a fresh session (see [`SessionTable::take_for_turn`]).
pub proof fn lemma_closed_session_is_gone<A, C>(
    m: Map<u64, SessionEntry<A, C>>,
    cs: Seq<TableChange<A, C>>,
    id: u64,
    closed_at: int,
)
    requires
        0 <= closed_at < cs.len(),
        cs[closed_at] == (TableChange::Close::<A, C> { id }),
        forall|k: int| closed_at < k < cs.len() ==> change_id(#[trigger] cs[k]) != id,
    ensures
        !apply_changes(m, cs).contains_key(id),
    decreases cs.len(),
{
    if closed_at < cs.len() - 1 {
        let prev = cs.drop_last();
        assert(prev[closed_at] == cs[closed_at]);
        assert forall|k: int| closed_at < k < prev.len() implies change_id(#[trigger] prev[k]) != id by {
            assert(prev[k] == cs[k]);
        }
        lemma_closed_session_is_gone(m, prev, id, closed_at);
        assert(change_id(cs.last()) != id) by {
            assert(cs[cs.len() - 1] == cs.last());
        }
    } else {
        assert(cs.last() == cs[closed_at]);
    }
}

} // verus!
