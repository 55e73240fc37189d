//! A debate between two language-model agents, led by a moderator.
//!
//! This module holds what the debate decides: who takes part, what each
//! participant is told, whom an answer goes to, and how the reply of the
//! language model is read. Asking the model is left to the caller.

use serde_json::Value;
use vstd::prelude::*;
use vstd::string::StringExecFns;

use crate::actors::{Agent, AgentType, AgentView};
use crate::callbacks::{candidate_view, Response, ResponseView};
use crate::conversation::{prompt_model, Conversation, ConversationEntry, EntryView};
use crate::json::{json_as_str, json_get_field, json_get_item, json_model, Json};
use crate::messages::{Msg, MsgView};
use crate::registry::PeerRegistry;
use crate::role::Role;

verus! {

/// The parts in a debate.
#[derive(Debug, Clone, Copy, PartialEq, Eq, Hash, Structural)]
pub enum AiChatRoles {
    For,
    Against,
    Moderator,
}

impl Role for AiChatRoles {
    open spec fn label(&self) -> Seq<char> {
        match self {
            AiChatRoles::For => "For"@,
            AiChatRoles::Against => "Against"@,
            AiChatRoles::Moderator => "Moderator"@,
        }
    }

    fn same(&self, other: &Self) -> (b: bool) {
        *self == *other
    }

    fn name(&self) -> (s: String) {
        match self {
            AiChatRoles::For => String::from_str("For"),
            AiChatRoles::Against => String::from_str("Against"),
            AiChatRoles::Moderator => String::from_str("Moderator"),
        }
    }
}

/// The handlers of a debate, by name.
#[derive(Debug, Clone, Copy, PartialEq, Eq, Hash, Structural)]
pub enum AiChatCallback {
    /// How the participant that argues for the topic answers the moderator.
    NnModerator,
    /// How the participant that argues against the topic answers the moderator.
    PpModerator,
    /// How the moderator answers either participant.
    Moderator,
}

/// What the participant that argues for the topic is told before the topic.
pub const FOR_OPENING: &'static str = "We are roleplaying a debate the topic is '";

/// What the participant that argues for the topic is told after the topic.
pub const FOR_CLOSING: &'static str =
    "' - you **agree** with this!! - ***it continues on a single topic forever the debate does not come to a conclusion*** - this isn't real. You are having a conversation and so your response should be short and sweet do not respond with more than 3 - 4 sentences. Do not use your own name in your responses! We know who is talking at each turn!";

/// What the participant that argues against the topic is told before the topic.
pub const AGAINST_OPENING: &'static str = "We are roleplaying a debate the topic is '";

/// What the participant that argues against the topic is told after the topic.
pub const AGAINST_CLOSING: &'static str =
    "' - you **disagree** with this!! - ***it continues on a single topic forever the debate does not come to a conclusion*** - this isn't real. You are having a conversation and so your response should be short and sweet do not respond with more than 3 - 4 sentences. Do not use your own name in your responses! We know who is talking at each turn!";

/// What the moderator is told before the topic.
pub const MODERATOR_OPENING: &'static str = "You are the moderator of a debate - the topic is '";

/// What the moderator is told after the topic.
pub const MODERATOR_CLOSING: &'static str =
    "' between two people - ***it continues on a single topic forever the debate does not come to a conclusion*** - the debate will take place turn by turn - your job is to summarize the others points of view and ask the other participant questions to drive forward the debate. Your name is Moderator. Your response should be short and sweet do not respond with more than 3 - 4 sentences. Do not use your own name in your responses! We know who is talking at each turn! Add extra information to the debate if you think it is pertinant - YOU NEED TO KEEP BOTH PEOPLE ON TOPIC!";

/// The number of responses after which the moderator ends the debate.
pub const MODERATOR_RESPONSES: usize = 10;

/// The conversation in which the debate takes place.
pub const DEBATE_CONVERSATION: usize = 1;

/// The priority under which every handler of the debate is registered.
pub const DEBATE_PRIORITY: usize = 1;

/// The debate.
pub struct AiChatSystem {}

/// Everything a debate starts with: its three agents and the message that
/// opens it.
pub struct Debate<Addr> {
    /// The participant that argues for the topic.
    pub nn: Agent<AiChatRoles, AiChatCallback, Addr>,
    /// The participant that argues against the topic.
    pub pp: Agent<AiChatRoles, AiChatCallback, Addr>,
    /// The moderator.
    pub m: Agent<AiChatRoles, AiChatCallback, Addr>,
    /// The opening message: the topic, put to the first participant in the
    /// moderator's name.
    pub seed: Msg<AiChatRoles>,
}

impl<Addr> Debate<Addr> {
    /// Draws up the directory of the debate: each of the three roles, with
    /// the configuration of its agent and the address of its inbox.
    pub fn directory(&self, addr_nn: Addr, addr_pp: Addr, addr_m: Addr) -> (directory: PeerRegistry<
        AiChatRoles,
        Addr,
    >)
        ensures
            directory@ == map![
                self.nn.role => (self.nn.configuration(), addr_nn),
                self.pp.role => (self.pp.configuration(), addr_pp),
                self.m.role => (self.m.configuration(), addr_m),
            ],
    {
        let mut directory = PeerRegistry::new();
        directory.register(self.nn.role, self.nn.snapshot(), addr_nn);
        directory.register(self.pp.role, self.pp.snapshot(), addr_pp);
        directory.register(self.m.role, self.m.snapshot(), addr_m);
        directory
    }
}

/// The participant that argues for the topic, before the debate.
pub open spec fn debater_for<Addr>(debate_topic: Seq<char>) -> AgentView<
    AiChatRoles,
    AiChatCallback,
    Addr,
> {
    AgentView::fresh(
        1,
        AgentType::Assistant,
        AiChatRoles::For,
        None,
        Some(FOR_OPENING@ + debate_topic + FOR_CLOSING@),
    ).register_callback(seq![AiChatRoles::Moderator], DEBATE_PRIORITY, AiChatCallback::NnModerator)
}

/// The participant that argues against the topic, before the debate.
pub open spec fn debater_against<Addr>(debate_topic: Seq<char>) -> AgentView<
    AiChatRoles,
    AiChatCallback,
    Addr,
> {
    AgentView::fresh(
        2,
        AgentType::Assistant,
        AiChatRoles::Against,
        None,
        Some(AGAINST_OPENING@ + debate_topic + AGAINST_CLOSING@),
    ).register_callback(seq![AiChatRoles::Moderator], DEBATE_PRIORITY, AiChatCallback::PpModerator)
}

/// The moderator, before the debate.
pub open spec fn debate_moderator<Addr>(debate_topic: Seq<char>) -> AgentView<
    AiChatRoles,
    AiChatCallback,
    Addr,
> {
    AgentView::fresh(
        3,
        AgentType::Proxy,
        AiChatRoles::Moderator,
        Some(MODERATOR_RESPONSES),
        Some(MODERATOR_OPENING@ + debate_topic + MODERATOR_CLOSING@),
    ).register_callback(
        seq![AiChatRoles::For, AiChatRoles::Against],
        DEBATE_PRIORITY,
        AiChatCallback::Moderator,
    )
}

/// The message that opens the debate.
pub open spec fn debate_seed(debate_topic: Seq<char>) -> MsgView<AiChatRoles> {
    MsgView {
        from: AiChatRoles::Moderator,
        to: AiChatRoles::For,
        msg: debate_topic,
        conv_id: DEBATE_CONVERSATION,
    }
}

/// The text that a language model's reply carries: the content of the message
/// of its first choice.
pub open spec fn reply_text(reply: Json) -> Option<Seq<char>> {
    match reply.field("choices"@) {
        Some(choices) => match choices.item(0) {
            Some(choice) => match choice.field("message"@) {
                Some(message) => match message.field("content"@) {
                    Some(content) => content.text(),
                    None => None,
                },
                None => None,
            },
            None => None,
        },
        None => None,
    }
}

/// The message that a handler answers: the last entry of the conversation,
/// provided that it was received.
pub open spec fn last_received(history: Seq<EntryView<AiChatRoles>>) -> Option<
    MsgView<AiChatRoles>,
> {
    if history.len() > 0 {
        match history.last() {
            EntryView::Received(message) => Some(message),
            EntryView::Sent(_) => None,
        }
    } else {
        None
    }
}

/// The participant on the other side of the debate. The moderator has none.
pub open spec fn opponent(role: AiChatRoles) -> Option<AiChatRoles> {
    match role {
        AiChatRoles::For => Some(AiChatRoles::Against),
        AiChatRoles::Against => Some(AiChatRoles::For),
        AiChatRoles::Moderator => None,
    }
}

/// A participant's answer: the model's text, for the moderator. There is one
/// where the conversation ends with a received message and the reply carries
/// a text.
pub open spec fn participant_response(
    history: Seq<EntryView<AiChatRoles>>,
    reply: Json,
) -> Option<ResponseView<AiChatRoles>> {
    match (last_received(history), reply_text(reply)) {
        (Some(_), Some(text)) => Some(ResponseView { to: AiChatRoles::Moderator, msg: text }),
        _ => None,
    }
}

/// The moderator's answer: the model's text, for the opponent of the
/// participant who spoke last. There is one where the conversation ends with
/// a message received from a participant and the reply carries a text.
pub open spec fn moderator_response(
    history: Seq<EntryView<AiChatRoles>>,
    reply: Json,
) -> Option<ResponseView<AiChatRoles>> {
    match last_received(history) {
        Some(message) => match (opponent(message.from), reply_text(reply)) {
            (Some(next), Some(text)) => Some(ResponseView { to: next, msg: text }),
            _ => None,
        },
        None => None,
    }
}

/// The message that a handler answers, where there is one.
fn last_received_message(conv: &Conversation<AiChatRoles>) -> (message: Option<&Msg<AiChatRoles>>)
    ensures
        match message {
            Some(found) => last_received(conv@) == Some(found@),
            None => last_received(conv@).is_none(),
        },
{
    let count = conv.messages.len();
    if count == 0 {
        return None;
    }
    match &conv.messages[count - 1] {
        ConversationEntry::Received(message) => Some(message),
        ConversationEntry::Sent(_) => None,
    }
}

/// Joins the two halves of a system prompt around the topic.
fn compose_prompt(opening: &str, debate_topic: &str, closing: &str) -> (prompt: String)
    ensures
        prompt@ == opening@ + debate_topic@ + closing@,
{
    let mut prompt = String::from_str(opening);
    prompt.append(debate_topic);
    prompt.append(closing);
    prompt
}

impl AiChatSystem {
    /// Sets the debate up: two participants that each answer the moderator,
    /// a moderator that answers both and ends the debate after its tenth
    /// response, and the opening message.
    pub fn setup<Addr>(debate_topic: String) -> (debate: Debate<Addr>)
        ensures
            debate.nn@ == debater_for::<Addr>(debate_topic@),
            debate.pp@ == debater_against::<Addr>(debate_topic@),
            debate.m@ == debate_moderator::<Addr>(debate_topic@),
            debate.seed@ == debate_seed(debate_topic@),
    {
        let topic = debate_topic.as_str();
        let mut nn = Agent::new(
            1,
            AgentType::Assistant,
            AiChatRoles::For,
            None,
            Some(compose_prompt(FOR_OPENING, topic, FOR_CLOSING)),
        );
        let mut triggers: Vec<AiChatRoles> = Vec::new();
        triggers.push(AiChatRoles::Moderator);
        assert(triggers@ =~= seq![AiChatRoles::Moderator]);
        nn.register_callback(triggers, DEBATE_PRIORITY, AiChatCallback::NnModerator);

        let mut pp = Agent::new(
            2,
            AgentType::Assistant,
            AiChatRoles::Against,
            None,
            Some(compose_prompt(AGAINST_OPENING, topic, AGAINST_CLOSING)),
        );
        let mut triggers: Vec<AiChatRoles> = Vec::new();
        triggers.push(AiChatRoles::Moderator);
        assert(triggers@ =~= seq![AiChatRoles::Moderator]);
        pp.register_callback(triggers, DEBATE_PRIORITY, AiChatCallback::PpModerator);

        let mut m = Agent::new(
            3,
            AgentType::Proxy,
            AiChatRoles::Moderator,
            Some(MODERATOR_RESPONSES),
            Some(compose_prompt(MODERATOR_OPENING, topic, MODERATOR_CLOSING)),
        );
        let mut triggers: Vec<AiChatRoles> = Vec::new();
        triggers.push(AiChatRoles::For);
        triggers.push(AiChatRoles::Against);
        assert(triggers@ =~= seq![AiChatRoles::For, AiChatRoles::Against]);
        m.register_callback(triggers, DEBATE_PRIORITY, AiChatCallback::Moderator);

        let seed = Msg {
            from: AiChatRoles::Moderator,
            to: AiChatRoles::For,
            msg: debate_topic,
            conv_id: DEBATE_CONVERSATION,
        };
        Debate { nn, pp, m, seed }
    }

    /// Reads the text out of a language model's reply.
    pub fn reply_content(reply: &Value) -> (text: Option<String>)
        ensures
            match text {
                Some(text) => reply_text(json_model(*reply)) == Some(text@),
                None => reply_text(json_model(*reply)).is_none(),
            },
    {
        let choices = match json_get_field(reply, "choices") {
            Some(choices) => choices,
            None => {
                return None;
            },
        };
        let choice = match json_get_item(choices, 0) {
            Some(choice) => choice,
            None => {
                return None;
            },
        };
        let message = match json_get_field(choice, "message") {
            Some(message) => message,
            None => {
                return None;
            },
        };
        let content = match json_get_field(message, "content") {
            Some(content) => content,
            None => {
                return None;
            },
        };
        match json_as_str(content) {
            Some(text) => Some(String::from_str(text)),
            None => None,
        }
    }

    /// The request that a handler sends to the language model: the rendered
    /// conversation. A handler only answers a message that was received, so
    /// there is a request where the conversation ends with one.
    pub fn request(conv: &Conversation<AiChatRoles>, system_prompt: String) -> (body: Option<Value>)
        ensures
            match body {
                Some(body) => last_received(conv@).is_some() && json_model(body) == prompt_model(
                    conv@,
                    system_prompt@,
                ),
                None => last_received(conv@).is_none(),
            },
    {
        match last_received_message(conv) {
            Some(_) => Some(conv.format_for_oai(system_prompt)),
            None => None,
        }
    }

    /// The answer of the participant that argues for the topic, once the
    /// language model has replied: the model's text, for the moderator.
    pub fn nn_moderator_callback(
        _agent_role: AiChatRoles,
        conv: &Conversation<AiChatRoles>,
        reply: &Value,
    ) -> (response: Option<Response<AiChatRoles>>)
        ensures
            candidate_view(response) == participant_response(
                conv@,
                json_model(*reply),
            ),
    {
        if last_received_message(conv).is_none() {
            return None;
        }
        match Self::reply_content(reply) {
            Some(text) => Some(Response { to: AiChatRoles::Moderator, msg: text }),
            None => None,
        }
    }

    /// The answer of the participant that argues against the topic, once the
    /// language model has replied: the model's text, for the moderator.
    pub fn pp_moderator_callback(
        _agent_role: AiChatRoles,
        conv: &Conversation<AiChatRoles>,
        reply: &Value,
    ) -> (response: Option<Response<AiChatRoles>>)
        ensures
            candidate_view(response) == participant_response(
                conv@,
                json_model(*reply),
            ),
    {
        if last_received_message(conv).is_none() {
            return None;
        }
        match Self::reply_content(reply) {
            Some(text) => Some(Response { to: AiChatRoles::Moderator, msg: text }),
            None => None,
        }
    }

    /// The answer of the moderator, once the language model has replied: the
    /// model's text, for the opponent of the participant who spoke last.
    pub fn moderator_callback(
        _agent_role: AiChatRoles,
        conv: &Conversation<AiChatRoles>,
        reply: &Value,
    ) -> (response: Option<Response<AiChatRoles>>)
        ensures
            candidate_view(response) == moderator_response(
                conv@,
                json_model(*reply),
            ),
    {
        let from = match last_received_message(conv) {
            Some(message) => message.from,
            None => {
                return None;
            },
        };
        let to = match from {
            AiChatRoles::For => AiChatRoles::Against,
            AiChatRoles::Against => AiChatRoles::For,
            AiChatRoles::Moderator => {
                return None;
            },
        };
        match Self::reply_content(reply) {
            Some(text) => Some(Response { to, msg: text }),
            None => None,
        }
    }
}

} // verus!
