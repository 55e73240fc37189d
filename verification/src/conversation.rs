//! Per-conversation history: an append-only log of what an agent has sent and
//! received, and the store that keeps one log per conversation id.

use serde_json::Value;
use std::collections::HashMap;
use vstd::prelude::*;

use crate::json::{
    fields_model, items_model, json_array, json_model, json_object, json_string, Json,
};
use crate::messages::{Msg, MsgView};
use crate::role::Role;

verus! {

/// One line of a conversation, seen from the agent that owns it.
#[derive(Debug)]
pub enum ConversationEntry<RoleType: Role> {
    Sent(Msg<RoleType>),
    Received(Msg<RoleType>),
}

/// A conversation entry with its message as a mathematical value.
pub enum EntryView<RoleType> {
    Sent(MsgView<RoleType>),
    Received(MsgView<RoleType>),
}

impl<RoleType> EntryView<RoleType> {
    /// The message that the entry carries, whatever its direction.
    pub open spec fn message(self) -> MsgView<RoleType> {
        match self {
            EntryView::Sent(m) => m,
            EntryView::Received(m) => m,
        }
    }

    /// The text of the entry.
    pub open spec fn content(self) -> Seq<char> {
        self.message().msg
    }

    /// The role that the entry's message came from.
    pub open spec fn from_role(self) -> RoleType {
        self.message().from
    }
}

impl<RoleType: Role> View for ConversationEntry<RoleType> {
    type V = EntryView<RoleType>;

    open spec fn view(&self) -> EntryView<RoleType> {
        match self {
            ConversationEntry::Sent(m) => EntryView::Sent(m@),
            ConversationEntry::Received(m) => EntryView::Received(m@),
        }
    }
}

impl<RoleType: Role> Clone for ConversationEntry<RoleType> {
    fn clone(&self) -> (copy: Self)
        ensures
            copy == *self,
    {
        match self {
            ConversationEntry::Sent(m) => ConversationEntry::Sent(m.clone()),
            ConversationEntry::Received(m) => ConversationEntry::Received(m.clone()),
        }
    }
}

impl<RoleType: Role> ConversationEntry<RoleType> {
    /// A copy of the entry's text.
    pub fn get_content(&self) -> (content: String)
        ensures
            content@ == self@.content(),
    {
        match self {
            Self::Sent(msg) => msg.msg.clone(),
            Self::Received(msg) => msg.msg.clone(),
        }
    }

    /// The role that the entry's message came from.
    pub fn get_from_role(&self) -> (role: RoleType)
        ensures
            role == self@.from_role(),
    {
        match self {
            Self::Sent(msg) => msg.from,
            Self::Received(msg) => msg.from,
        }
    }
}

/// The ordered log of one conversation. Entries are only ever added at the end.
#[derive(Debug)]
pub struct Conversation<RoleType: Role> {
    pub messages: Vec<ConversationEntry<RoleType>>,
}

impl<RoleType: Role> View for Conversation<RoleType> {
    type V = Seq<EntryView<RoleType>>;

    open spec fn view(&self) -> Seq<EntryView<RoleType>> {
        Seq::new(self.messages@.len(), |i: int| self.messages@[i]@)
    }
}

impl<RoleType: Role> Default for Conversation<RoleType> {
    fn default() -> (conversation: Self)
        ensures
            conversation@ == Seq::<EntryView<RoleType>>::empty(),
    {
        Self { messages: Vec::new() }
    }
}

impl<RoleType: Role> Clone for Conversation<RoleType> {
    fn clone(&self) -> (copy: Self)
        ensures
            copy@ == self@,
            copy.messages@ == self.messages@,
    {
        let mut messages: Vec<ConversationEntry<RoleType>> = Vec::new();
        let mut i: usize = 0;
        while i < self.messages.len()
            invariant
                i <= self.messages@.len(),
                messages@ == self.messages@.take(i as int),
            decreases self.messages@.len() - i,
        {
            messages.push(self.messages[i].clone());
            i += 1;
        }
        Conversation { messages }
    }
}

/// The record that opens a rendered prompt: the system's instructions.
pub open spec fn system_record(system_prompt: Seq<char>) -> Json {
    Json::Object(map!["role"@ => Json::Str("system"@), "content"@ => Json::Str(system_prompt)])
}

/// The record of one conversation entry: its text, under the name of the role
/// that it came from.
pub open spec fn entry_record<RoleType: Role>(entry: EntryView<RoleType>) -> Json {
    Json::Object(
        map![
            "role"@ => Json::Str("user"@),
            "content"@ => Json::Str(entry.content()),
            "name"@ => Json::Str(entry.from_role().label()),
        ],
    )
}

/// The records of a rendered prompt: the system record, then one record per
/// entry, in the order of the conversation.
pub open spec fn prompt_records<RoleType: Role>(
    history: Seq<EntryView<RoleType>>,
    system_prompt: Seq<char>,
) -> Seq<Json> {
    seq![system_record(system_prompt)] + Seq::new(
        history.len(),
        |i: int| entry_record(history[i]),
    )
}

/// The request that asks the language model to continue a conversation.
pub open spec fn prompt_model<RoleType: Role>(
    history: Seq<EntryView<RoleType>>,
    system_prompt: Seq<char>,
) -> Json {
    Json::Object(
        map![
            "model"@ => Json::Str("gpt-4-1106-preview"@),
            "messages"@ => Json::Array(prompt_records(history, system_prompt)),
        ],
    )
}

/// One field of a JSON object under construction.
fn json_field(key: &str, value: Value) -> (field: (String, Value))
    ensures
        field.0@ == key@,
        field.1 == value,
{
    (key.to_string(), value)
}

/// Builds the system record of a prompt.
fn system_record_value(system_prompt: &str) -> (record: Value)
    ensures
        json_model(record) == system_record(system_prompt@),
{
    let mut fields: Vec<(String, Value)> = Vec::new();
    fields.push(json_field("role", json_string("system")));
    fields.push(json_field("content", json_string(system_prompt)));
    proof {
        reveal_strlit("role");
        reveal_strlit("content");
        assert("role"@.len() != "content"@.len());
        assert(fields@[0].0@ == "role"@ && fields@[1].0@ == "content"@);
        reveal_with_fuel(fields_model, 3);
        assert(fields@.drop_last().drop_last() =~= Seq::empty());
        assert(fields_model(fields@) =~= map![
            "role"@ => Json::Str("system"@),
            "content"@ => Json::Str(system_prompt@),
        ]);
    }
    json_object(fields)
}

/// Builds the record of one conversation entry.
fn entry_record_value<RoleType: Role>(entry: &ConversationEntry<RoleType>) -> (record: Value)
    ensures
        json_model(record) == entry_record(entry@),
{
    let content = entry.get_content();
    let name = entry.get_from_role().name();
    let mut fields: Vec<(String, Value)> = Vec::new();
    fields.push(json_field("role", json_string("user")));
    fields.push(json_field("content", json_string(content.as_str())));
    fields.push(json_field("name", json_string(name.as_str())));
    proof {
        reveal_strlit("role");
        reveal_strlit("content");
        reveal_strlit("name");
        assert("role"@[0] != "name"@[0]);
        assert("role"@.len() != "content"@.len());
        assert("name"@.len() != "content"@.len());
        assert(fields@[0].0@ == "role"@);
        assert(fields@[1].0@ == "content"@);
        assert(fields@[2].0@ == "name"@);
        reveal_with_fuel(fields_model, 4);
        assert(fields@.drop_last().drop_last().drop_last() =~= Seq::empty());
        assert(fields_model(fields@) =~= map![
            "role"@ => Json::Str("user"@),
            "content"@ => Json::Str(entry@.content()),
            "name"@ => Json::Str(entry@.from_role().label()),
        ]);
    }
    json_object(fields)
}

impl<RoleType: Role> Conversation<RoleType> {
    /// Renders the conversation as a request to the language model: the model's
    /// name, and under `messages` the system prompt followed by every entry of
    /// the conversation in order, each with its text and the name of the role
    /// that it came from.
    pub fn format_for_oai(&self, system_prompt: String) -> (out: Value)
        ensures
            json_model(out) == prompt_model(self@, system_prompt@),
    {
        let mut records: Vec<Value> = Vec::new();
        records.push(system_record_value(system_prompt.as_str()));
        let mut i: usize = 0;
        while i < self.messages.len()
            invariant
                i <= self.messages@.len(),
                records@.len() == i + 1,
                forall|k: int|
                    0 <= k <= i ==> json_model(#[trigger] records@[k]) == prompt_records(
                        self@,
                        system_prompt@,
                    )[k],
            decreases self.messages@.len() - i,
        {
            records.push(entry_record_value(&self.messages[i]));
            i += 1;
        }
        assert(items_model(records@) =~= prompt_records(self@, system_prompt@));
        let mut fields: Vec<(String, Value)> = Vec::new();
        fields.push(json_field("model", json_string("gpt-4-1106-preview")));
        fields.push(json_field("messages", json_array(records)));
        proof {
            reveal_strlit("model");
            reveal_strlit("messages");
            assert("model"@.len() != "messages"@.len());
            assert(fields@[0].0@ == "model"@ && fields@[1].0@ == "messages"@);
            reveal_with_fuel(fields_model, 3);
            assert(fields@.drop_last().drop_last() =~= Seq::empty());
            assert(fields_model(fields@) =~= map![
                "model"@ => Json::Str("gpt-4-1106-preview"@),
                "messages"@ => Json::Array(prompt_records(self@, system_prompt@)),
            ]);
        }
        json_object(fields)
    }

    /// Appends an entry. What was there before keeps its value and its place.
    pub fn add_message(&mut self, msg: ConversationEntry<RoleType>)
        ensures
            final(self)@ == old(self)@.push(msg@),
    {
        self.messages.push(msg);
    }
}

/// The history of a conversation that a store may not hold yet: empty until
/// the conversation is first referred to.
pub open spec fn history_of<RoleType>(
    store: Map<usize, Seq<EntryView<RoleType>>>,
    id: usize,
) -> Seq<EntryView<RoleType>> {
    if store.contains_key(id) {
        store[id]
    } else {
        Seq::empty()
    }
}

/// The conversations of one agent, by conversation id.
#[derive(Debug)]
pub struct Conversations<RoleType: Role>(HashMap<usize, Conversation<RoleType>>);

impl<RoleType: Role> View for Conversations<RoleType> {
    type V = Map<usize, Seq<EntryView<RoleType>>>;

    closed spec fn view(&self) -> Map<usize, Seq<EntryView<RoleType>>> {
        Map::new(|id: usize| self.0@.contains_key(id), |id: usize| self.0@[id]@)
    }
}

impl<RoleType: Role> Default for Conversations<RoleType> {
    fn default() -> (store: Self)
        ensures
            store@ == Map::<usize, Seq<EntryView<RoleType>>>::empty(),
    {
        Self(HashMap::new())
    }
}

impl<RoleType: Role> Clone for Conversations<RoleType> {
    fn clone(&self) -> (copy: Self)
        ensures
            copy@ == self@,
    {
        Self(self.0.clone())
    }
}

impl<RoleType: Role> Conversations<RoleType> {
    /// Hands out the conversation with the given id, created empty if the store
    /// has not seen the id before. No other conversation is touched, and what
    /// the caller writes through the reference is what the store then holds.
    pub fn get_or_create_conversation(&mut self, id: usize) -> (conversation: &mut Conversation<
        RoleType,
    >)
        ensures
            conversation@ == history_of(old(self)@, id),
            final(self)@ == old(self)@.insert(id, final(conversation)@),
    {
        broadcast use vstd::std_specs::hash::group_hash_axioms;

        self.0.entry(id).or_insert(Conversation::default())
    }
}

} // verus!
