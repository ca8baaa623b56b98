//! What is remembered of the sessions of a workspace between two events.

use vstd::prelude::*;
use vstd::string::*;

use crate::str_map::StrMap;
use crate::text;
use crate::text::{cat, cat3, decimal_text, split_once_char, str_eq, trim};

verus! {

/// The state of one session's turn.
pub struct PerSessionTurnState {
    /// Identifier of the turn; empty where no turn runs.
    pub turn_id: String,
    /// Item identifiers by the identifier of the tool part.
    pub tool_call_items: StrMap<String>,
    /// Item identifier of the agent message that is being streamed.
    pub agent_message_item_id: Option<String>,
    /// Part identifier of the text part that is being streamed.
    pub agent_message_part_id: Option<String>,
    /// Number of bytes already sent of the current text part.
    pub agent_message_text_len: usize,
    /// Item identifier of the reasoning that is being streamed.
    pub reasoning_item_id: Option<String>,
    /// Part identifier of the reasoning that is being streamed.
    pub reasoning_part_id: Option<String>,
    /// Number of bytes already sent of the current reasoning part.
    pub reasoning_text_len: usize,
    /// Item identifier of the user message that is being assembled.
    pub user_message_item_id: Option<String>,
    /// Text of the user message that is being assembled.
    pub user_message_text: String,
}

/// The mathematical value of one session's turn.
pub struct TurnView {
    pub turn_id: Seq<char>,
    pub tool_call_items: Map<Seq<char>, Seq<char>>,
    pub agent_message_item_id: Option<Seq<char>>,
    pub agent_message_part_id: Option<Seq<char>>,
    pub agent_message_text_len: nat,
    pub reasoning_item_id: Option<Seq<char>>,
    pub reasoning_part_id: Option<Seq<char>>,
    pub reasoning_text_len: nat,
    pub user_message_item_id: Option<Seq<char>>,
    pub user_message_text: Seq<char>,
}

impl View for PerSessionTurnState {
    type V = TurnView;

    open spec fn view(&self) -> TurnView {
        TurnView {
            turn_id: self.turn_id@,
            tool_call_items: self.tool_call_items@,
            agent_message_item_id: text::opt_string(self.agent_message_item_id),
            agent_message_part_id: text::opt_string(self.agent_message_part_id),
            agent_message_text_len: self.agent_message_text_len as nat,
            reasoning_item_id: text::opt_string(self.reasoning_item_id),
            reasoning_part_id: text::opt_string(self.reasoning_part_id),
            reasoning_text_len: self.reasoning_text_len as nat,
            user_message_item_id: text::opt_string(self.user_message_item_id),
            user_message_text: self.user_message_text@,
        }
    }
}

/// The turn of a session of which nothing is known.
pub open spec fn blank_turn() -> TurnView {
    TurnView {
        turn_id: Seq::empty(),
        tool_call_items: Map::empty(),
        agent_message_item_id: None,
        agent_message_part_id: None,
        agent_message_text_len: 0,
        reasoning_item_id: None,
        reasoning_part_id: None,
        reasoning_text_len: 0,
        user_message_item_id: None,
        user_message_text: Seq::empty(),
    }
}

impl PerSessionTurnState {
    fn blank() -> (r: Self)
        ensures
            r@ == blank_turn(),
    {
        let r = PerSessionTurnState {
            turn_id: String::new(),
            tool_call_items: StrMap::new(),
            agent_message_item_id: None,
            agent_message_part_id: None,
            agent_message_text_len: 0,
            reasoning_item_id: None,
            reasoning_part_id: None,
            reasoning_text_len: 0,
            user_message_item_id: None,
            user_message_text: String::new(),
        };
        assert(r@.turn_id =~= Seq::<char>::empty());
        assert(r@.user_message_text =~= Seq::<char>::empty());
        r
    }
}

/// State of a workspace's translation: identifiers that the event stream does not carry are made
/// here, and what was already sent is kept here, session by session.
pub struct SessionTranslationState {
    /// The session that was active last; stands in for a missing session identifier.
    pub session_id: String,
    /// The turns by session.
    pub session_turns: StrMap<PerSessionTurnState>,
    /// The number in the next identifier.
    pub item_counter: u64,
    /// Roles of messages by message identifier.
    pub message_roles: StrMap<String>,
    /// Context windows by `provider/model`.
    pub model_context_windows: StrMap<u64>,
}

/// The mathematical value of a workspace's translation state.
pub struct StateView {
    pub session_id: Seq<char>,
    pub session_turns: Map<Seq<char>, TurnView>,
    pub item_counter: u64,
    pub message_roles: Map<Seq<char>, Seq<char>>,
    pub model_context_windows: Map<Seq<char>, u64>,
}

impl View for SessionTranslationState {
    type V = StateView;

    open spec fn view(&self) -> StateView {
        StateView {
            session_id: self.session_id@,
            session_turns: self.session_turns@,
            item_counter: self.item_counter,
            message_roles: self.message_roles@,
            model_context_windows: self.model_context_windows@,
        }
    }
}

/// The counter after one more identifier: it goes round after its largest value.
pub open spec fn counted(n: u64) -> u64 {
    if n == u64::MAX {
        0
    } else {
        (n + 1) as u64
    }
}

/// The item identifier with the given number.
pub open spec fn item_id(n: u64) -> Seq<char> {
    "item_"@ + text::decimal(n as nat)
}

/// The turn identifier with the given number.
pub open spec fn synthetic_turn_id(n: u64) -> Seq<char> {
    "turn_rest_"@ + text::decimal(n as nat)
}

/// The value under a key, if there is one.
pub open spec fn lookup<V>(m: Map<Seq<char>, V>, k: Seq<char>) -> Option<V> {
    if m.contains_key(k) {
        Some(m[k])
    } else {
        None
    }
}

impl TurnView {
    /// The turn with the streams of agent text and reasoning ended and the tool items forgotten.
    pub open spec fn without_streams(self) -> TurnView {
        TurnView {
            tool_call_items: Map::empty(),
            agent_message_item_id: None,
            agent_message_part_id: None,
            agent_message_text_len: 0,
            reasoning_item_id: None,
            reasoning_part_id: None,
            reasoning_text_len: 0,
            ..self
        }
    }

    /// The turn with the agent message ended.
    pub open spec fn without_agent_message(self) -> TurnView {
        TurnView {
            agent_message_item_id: None,
            agent_message_part_id: None,
            agent_message_text_len: 0,
            ..self
        }
    }

    /// The turn with the reasoning ended.
    pub open spec fn without_reasoning(self) -> TurnView {
        TurnView { reasoning_item_id: None, reasoning_part_id: None, reasoning_text_len: 0, ..self }
    }

    /// The turn with no user message.
    pub open spec fn without_user_message(self) -> TurnView {
        TurnView { user_message_item_id: None, user_message_text: Seq::empty(), ..self }
    }
}

impl StateView {
    /// The turn of a session; a blank one where nothing is known of it.
    pub open spec fn turn(self, session_id: Seq<char>) -> TurnView {
        if self.session_turns.contains_key(session_id) {
            self.session_turns[session_id]
        } else {
            blank_turn()
        }
    }

    /// The state with the turn of one session set.
    pub open spec fn with_turn(self, session_id: Seq<char>, turn: TurnView) -> StateView {
        StateView { session_turns: self.session_turns.insert(session_id, turn), ..self }
    }

    /// The state with another active session.
    pub open spec fn with_session(self, session_id: Seq<char>) -> StateView {
        StateView { session_id, ..self }
    }

    /// The state after one more identifier was made.
    pub open spec fn counted(self) -> StateView {
        StateView { item_counter: counted(self.item_counter), ..self }
    }

    /// The identifier of the agent message, and the state in which it is remembered.
    pub open spec fn agent_message_item(self, session_id: Seq<char>) -> (StateView, Seq<char>) {
        let turn = self.turn(session_id);
        match turn.agent_message_item_id {
            Some(id) => (self.with_turn(session_id, turn), id),
            None => {
                let id = item_id(self.item_counter);
                (
                    self.counted().with_turn(
                        session_id,
                        TurnView { agent_message_item_id: Some(id), ..turn },
                    ),
                    id,
                )
            },
        }
    }

    /// The identifier of the reasoning, and the state in which it is remembered.
    pub open spec fn reasoning_item(self, session_id: Seq<char>) -> (StateView, Seq<char>) {
        let turn = self.turn(session_id);
        match turn.reasoning_item_id {
            Some(id) => (self.with_turn(session_id, turn), id),
            None => {
                let id = item_id(self.item_counter);
                (
                    self.counted().with_turn(session_id, TurnView { reasoning_item_id: Some(id), ..turn }),
                    id,
                )
            },
        }
    }

    /// The identifier of the user message, and the state in which it is remembered.
    pub open spec fn user_message_item(self, session_id: Seq<char>) -> (StateView, Seq<char>) {
        let turn = self.turn(session_id);
        match turn.user_message_item_id {
            Some(id) => (self.with_turn(session_id, turn), id),
            None => {
                let id = item_id(self.item_counter);
                (
                    self.counted().with_turn(
                        session_id,
                        TurnView { user_message_item_id: Some(id), ..turn },
                    ),
                    id,
                )
            },
        }
    }

    /// The item identifier of a tool part, and the state in which it is remembered. A part without
    /// an identifier gets a new item each time.
    pub open spec fn tool_call_item(self, session_id: Seq<char>, part_id: Seq<char>) -> (StateView, Seq<char>) {
        let turn = self.turn(session_id);
        if turn.tool_call_items.contains_key(part_id) {
            (self.with_turn(session_id, turn), turn.tool_call_items[part_id])
        } else {
            let id = item_id(self.item_counter);
            let items = if part_id.len() > 0 {
                turn.tool_call_items.insert(part_id, id)
            } else {
                turn.tool_call_items
            };
            (self.counted().with_turn(session_id, TurnView { tool_call_items: items, ..turn }), id)
        }
    }

    /// The state after a turn was started: the session is the active one, its streams are ended,
    /// and its user message has an identifier, the one that it had already where there was one.
    pub open spec fn start_turn(self, session_id: Seq<char>, turn_id: Seq<char>) -> StateView {
        let turn = TurnView { turn_id, ..self.turn(session_id).without_streams() };
        match turn.user_message_item_id {
            Some(_) => self.with_session(session_id).with_turn(session_id, turn),
            None => self.counted().with_session(session_id).with_turn(
                session_id,
                TurnView {
                    user_message_item_id: Some(item_id(self.item_counter)),
                    user_message_text: Seq::empty(),
                    ..turn
                },
            ),
        }
    }

    /// The state in which the past messages of a session can be replayed: of its turn, only the
    /// identifier of the user message is kept.
    pub open spec fn prepare_replay(self, session_id: Seq<char>) -> StateView {
        let s = self.with_session(session_id);
        if self.session_turns.contains_key(session_id) {
            s.with_turn(
                session_id,
                TurnView {
                    user_message_item_id: self.turn(session_id).user_message_item_id,
                    ..blank_turn()
                },
            )
        } else {
            s
        }
    }

    pub open spec fn reset_agent_message_item(self, session_id: Seq<char>) -> StateView {
        self.with_turn(session_id, self.turn(session_id).without_agent_message())
    }

    /// The state in which a part is forgotten.
    pub open spec fn remove_part_mapping(self, session_id: Seq<char>, part_id: Seq<char>) -> StateView {
        if part_id.len() == 0 {
            self
        } else {
            let turn = self.turn(session_id);
            let t1 = TurnView { tool_call_items: turn.tool_call_items.remove(part_id), ..turn };
            let t2 = if turn.reasoning_part_id == Some(part_id) {
                t1.without_reasoning()
            } else {
                t1
            };
            let t3 = if turn.agent_message_part_id == Some(part_id) {
                t2.without_agent_message()
            } else {
                t2
            };
            self.with_turn(session_id, t3)
        }
    }

    /// The state after the end of a session's turn.
    pub open spec fn finish_turn(self, session_id: Seq<char>) -> StateView {
        if self.session_turns.contains_key(session_id) {
            self.with_turn(session_id, blank_turn())
        } else {
            self
        }
    }

    /// The state before the next replayed user message of the active session.
    pub open spec fn mark_new_replayed_user_message_boundary(self) -> StateView {
        if self.session_turns.contains_key(self.session_id) {
            self.with_turn(
                self.session_id,
                self.turn(self.session_id).without_streams().without_user_message(),
            )
        } else {
            self
        }
    }

    /// The state in which a message's role is remembered.
    pub open spec fn remember_message_role(self, message_id: Seq<char>, role: Seq<char>) -> StateView {
        let id = text::trim_of(message_id);
        let r = text::trim_of(role);
        if id.len() == 0 || r.len() == 0 {
            self
        } else {
            StateView { message_roles: self.message_roles.insert(id, r), ..self }
        }
    }

    /// Whether a message is known to be one of the user.
    pub open spec fn is_user_message_id(self, message_id: Seq<char>) -> bool {
        lookup(self.message_roles, text::trim_of(message_id)) == Some("user"@)
    }

    /// The context window of a model: that of `provider/model`, or, where the model's name is
    /// itself of that form, that of the model's name as it stands or with the provider in front.
    pub open spec fn model_context_window(self, provider_id: Seq<char>, model_id: Seq<char>) -> Option<u64> {
        let provider = text::trim_of(provider_id);
        let model = text::trim_of(model_id);
        let windows = self.model_context_windows;
        let joined = provider + "/"@ + model;
        if provider.len() > 0 && model.len() > 0 && windows.contains_key(joined) {
            Some(windows[joined])
        } else {
            match text::split_char_of(model, '/') {
                Some((_, model_only)) => if windows.contains_key(model) {
                    Some(windows[model])
                } else if provider.len() > 0 {
                    lookup(windows, provider + "/"@ + model_only)
                } else {
                    None
                },
                None => None,
            }
        }
    }
}

impl SessionTranslationState {
    pub fn new(session_id: String) -> (r: Self)
        ensures
            r@ == (StateView {
                session_id: session_id@,
                session_turns: Map::empty(),
                item_counter: 1,
                message_roles: Map::empty(),
                model_context_windows: Map::empty(),
            }),
    {
        SessionTranslationState {
            session_id,
            session_turns: StrMap::new(),
            item_counter: 1,
            message_roles: StrMap::new(),
            model_context_windows: StrMap::new(),
        }
    }

    pub fn replace_model_context_windows(&mut self, windows: StrMap<u64>)
        ensures
            final(self)@ == (StateView { model_context_windows: windows@, ..old(self)@ }),
    {
        self.model_context_windows = windows;
    }

    /// The context window of a model.
    pub fn model_context_window(&self, provider_id: &str, model_id: &str) -> (r: Option<u64>)
        ensures
            r == self@.model_context_window(provider_id@, model_id@),
    {
        let provider: &str = trim(provider_id);
        let model: &str = trim(model_id);
        if !provider.is_empty() && !model.is_empty() {
            let key: String = cat3(provider, "/", model);
            if let Some(value) = self.model_context_windows.get(key.as_str()) {
                return Some(*value);
            }
        }
        match split_once_char(model, '/') {
            Some((_, model_only)) => {
                if let Some(value) = self.model_context_windows.get(model) {
                    return Some(*value);
                }
                if !provider.is_empty() {
                    let fallback: String = cat3(provider, "/", model_only);
                    if let Some(value) = self.model_context_windows.get(fallback.as_str()) {
                        return Some(*value);
                    }
                }
                None
            },
            None => None,
        }
    }

    /// Makes an item identifier.
    pub fn next_item_id(&mut self) -> (r: String)
        ensures
            r@ == item_id(old(self)@.item_counter),
            final(self)@ == old(self)@.counted(),
    {
        let n: u64 = self.item_counter;
        self.item_counter = if n == u64::MAX {
            0
        } else {
            n + 1
        };
        cat("item_", decimal_text(n).as_str())
    }

    /// Makes a turn identifier.
    pub fn next_turn_id(&mut self) -> (r: String)
        ensures
            r@ == synthetic_turn_id(old(self)@.item_counter),
            final(self)@ == old(self)@.counted(),
    {
        let n: u64 = self.item_counter;
        self.item_counter = if n == u64::MAX {
            0
        } else {
            n + 1
        };
        cat("turn_rest_", decimal_text(n).as_str())
    }

    /// Starts a turn of a session. The user message gets its identifier here, where it has none,
    /// so that it is made before that of any tool of the turn.
    pub fn start_turn(&mut self, session_id: String, turn_id: String)
        ensures
            final(self)@ == old(self)@.start_turn(session_id@, turn_id@),
    {
        let turn = self.get_turn_state_mut(session_id.as_str());
        turn.turn_id = turn_id;
        turn.end_streams();
        let named: bool = turn.user_message_item_id.is_some();
        if !named {
            let id: String = self.next_item_id();
            let turn = self.get_turn_state_mut(session_id.as_str());
            turn.user_message_item_id = Some(id);
            turn.user_message_text = String::new();
        }
        self.session_id = session_id;
        proof {
            let v = old(self)@.start_turn(session_id@, turn_id@);
            assert(self@.turn(session_id@).user_message_text =~= v.turn(session_id@).user_message_text);
            assert(self@.session_turns =~= v.session_turns);
        }
    }

    /// Makes the state ready for the replay of a session's past messages.
    pub fn prepare_replay(&mut self, session_id: String)
        ensures
            final(self)@ == old(self)@.prepare_replay(session_id@),
    {
        if self.session_turns.get(session_id.as_str()).is_some() {
            let turn = self.get_turn_state_mut(session_id.as_str());
            turn.turn_id = String::new();
            turn.end_streams();
            turn.user_message_text = String::new();
            assert(turn@.turn_id =~= Seq::<char>::empty());
            assert(turn@.user_message_text =~= Seq::<char>::empty());
        }
        self.session_id = session_id;
    }

    /// The turn of a session, where one is known.
    pub fn get_turn_state<'a>(&'a self, session_id: &str) -> (r: Option<&'a PerSessionTurnState>)
        ensures
            match r {
                Some(t) => self@.session_turns.contains_key(session_id@) && t@ == self@.turn(session_id@),
                None => !self@.session_turns.contains_key(session_id@),
            },
    {
        self.session_turns.get(session_id)
    }

    /// The turn of a session, to be changed in place; a blank one is put there where none is known.
    pub fn get_turn_state_mut<'a>(&'a mut self, session_id: &str) -> (r: &'a mut PerSessionTurnState)
        ensures
            r@ == old(self)@.turn(session_id@),
            final(self)@ == old(self)@.with_turn(session_id@, final(r)@),
    {
        self.session_turns.entry_or(session_id, PerSessionTurnState::blank())
    }

    /// The turn identifier of a session; empty where no turn runs.
    pub fn turn_id(&self, session_id: &str) -> (r: String)
        ensures
            r@ == self@.turn(session_id@).turn_id,
    {
        match self.get_turn_state(session_id) {
            Some(turn) => turn.turn_id.clone(),
            None => {
                let r = String::new();
                assert(r@ =~= Seq::<char>::empty());
                r
            },
        }
    }

    /// The item identifier of the session's agent message; a new one where there is none.
    pub fn agent_message_item(&mut self, session_id: &str) -> (r: String)
        ensures
            (final(self)@, r@) == old(self)@.agent_message_item(session_id@),
    {
        let turn = self.get_turn_state_mut(session_id);
        if let Some(id) = &turn.agent_message_item_id {
            return id.clone();
        }
        let id: String = self.next_item_id();
        let turn = self.get_turn_state_mut(session_id);
        turn.agent_message_item_id = Some(id.clone());
        proof {
            let v = old(self)@.agent_message_item(session_id@).0;
            assert(self@.session_turns =~= v.session_turns);
        }
        id
    }

    /// The item identifier of the session's reasoning; a new one where there is none.
    pub fn reasoning_item(&mut self, session_id: &str) -> (r: String)
        ensures
            (final(self)@, r@) == old(self)@.reasoning_item(session_id@),
    {
        let turn = self.get_turn_state_mut(session_id);
        if let Some(id) = &turn.reasoning_item_id {
            return id.clone();
        }
        let id: String = self.next_item_id();
        let turn = self.get_turn_state_mut(session_id);
        turn.reasoning_item_id = Some(id.clone());
        proof {
            let v = old(self)@.reasoning_item(session_id@).0;
            assert(self@.session_turns =~= v.session_turns);
        }
        id
    }

    /// The item identifier of a tool part; a new one where there is none.
    pub fn tool_call_item(&mut self, session_id: &str, part_id: &str) -> (r: String)
        ensures
            (final(self)@, r@) == old(self)@.tool_call_item(session_id@, part_id@),
    {
        let turn = self.get_turn_state_mut(session_id);
        if let Some(id) = turn.tool_call_items.get(part_id) {
            return id.clone();
        }
        let id: String = self.next_item_id();
        if !part_id.is_empty() {
            let turn = self.get_turn_state_mut(session_id);
            turn.tool_call_items.insert(part_id, id.clone());
        }
        proof {
            let v = old(self)@.tool_call_item(session_id@, part_id@).0;
            assert(self@.session_turns =~= v.session_turns);
        }
        id
    }

    /// Ends the session's agent message.
    pub fn reset_agent_message_item(&mut self, session_id: &str)
        ensures
            final(self)@ == old(self)@.reset_agent_message_item(session_id@),
    {
        self.get_turn_state_mut(session_id).end_agent_message();
    }

    /// Forgets a part of the session.
    pub fn remove_part_mapping(&mut self, session_id: &str, part_id: &str)
        ensures
            final(self)@ == old(self)@.remove_part_mapping(session_id@, part_id@),
    {
        if part_id.is_empty() {
            return;
        }
        let turn = self.get_turn_state_mut(session_id);
        turn.tool_call_items.remove(part_id);
        if is_text(&turn.reasoning_part_id, part_id) {
            turn.end_reasoning();
        }
        if is_text(&turn.agent_message_part_id, part_id) {
            turn.end_agent_message();
        }
    }

    /// Ends the session's turn.
    pub fn finish_turn(&mut self, session_id: &str)
        ensures
            final(self)@ == old(self)@.finish_turn(session_id@),
    {
        if self.session_turns.get(session_id).is_some() {
            let turn = self.get_turn_state_mut(session_id);
            turn.turn_id = String::new();
            turn.end_streams();
            turn.user_message_item_id = None;
            turn.user_message_text = String::new();
            assert(turn@.turn_id =~= Seq::<char>::empty());
            assert(turn@.user_message_text =~= Seq::<char>::empty());
        }
    }

    /// The item identifier of the session's user message; a new one where there is none.
    pub fn user_message_item(&mut self, session_id: &str) -> (r: String)
        ensures
            (final(self)@, r@) == old(self)@.user_message_item(session_id@),
    {
        let turn = self.get_turn_state_mut(session_id);
        if let Some(id) = &turn.user_message_item_id {
            return id.clone();
        }
        let id: String = self.next_item_id();
        let turn = self.get_turn_state_mut(session_id);
        turn.user_message_item_id = Some(id.clone());
        proof {
            let v = old(self)@.user_message_item(session_id@).0;
            assert(self@.session_turns =~= v.session_turns);
        }
        id
    }

    /// Makes the state ready for the next replayed user message of the active session.
    pub fn mark_new_replayed_user_message_boundary(&mut self)
        ensures
            final(self)@ == old(self)@.mark_new_replayed_user_message_boundary(),
    {
        let session_id: String = self.session_id.clone();
        if self.session_turns.get(session_id.as_str()).is_some() {
            let turn = self.get_turn_state_mut(session_id.as_str());
            turn.end_streams();
            turn.user_message_item_id = None;
            turn.user_message_text = String::new();
            assert(turn@.user_message_text =~= Seq::<char>::empty());
        }
    }

    /// Remembers the role of a message.
    pub fn remember_message_role(&mut self, message_id: &str, role: &str)
        ensures
            final(self)@ == old(self)@.remember_message_role(message_id@, role@),
    {
        let id: &str = trim(message_id);
        let role: &str = trim(role);
        if id.is_empty() || role.is_empty() {
            return;
        }
        self.message_roles.insert(id, role.to_owned());
    }

    /// Whether a message is known to be one of the user.
    pub fn is_user_message_id(&self, message_id: &str) -> (r: bool)
        ensures
            r == self@.is_user_message_id(message_id@),
    {
        match self.message_roles.get(trim(message_id)) {
            Some(role) => str_eq(role.as_str(), "user"),
            None => false,
        }
    }
}

/// Whether the string is there and equals `s`.
pub fn is_text(o: &Option<String>, s: &str) -> (r: bool)
    ensures
        r == (text::opt_string(*o) == Some(s@)),
{
    match o {
        Some(t) => str_eq(t.as_str(), s),
        None => false,
    }
}

impl PerSessionTurnState {
    fn end_agent_message(&mut self)
        ensures
            final(self)@ == old(self)@.without_agent_message(),
    {
        self.agent_message_item_id = None;
        self.agent_message_part_id = None;
        self.agent_message_text_len = 0;
    }

    fn end_reasoning(&mut self)
        ensures
            final(self)@ == old(self)@.without_reasoning(),
    {
        self.reasoning_item_id = None;
        self.reasoning_part_id = None;
        self.reasoning_text_len = 0;
    }

    fn end_streams(&mut self)
        ensures
            final(self)@ == old(self)@.without_streams(),
    {
        self.tool_call_items.clear();
        self.end_agent_message();
        self.end_reasoning();
    }
}

} // verus!
