//! The agent: what it owns, and how it handles one message.

use vstd::prelude::*;

use crate::callbacks::{candidate_view, is_resolution, Callbacks, Response, ResponseView};
use crate::conversation::{history_of, ConversationEntry, Conversations, EntryView};
use crate::dispatch::{Progress, ProgressView};
use crate::messages::{Msg, MsgView};
use crate::registry::{PeerRegistry, UpdatePeers};
use crate::role::Role;

verus! {

/// What kind of participant an agent is.
#[derive(Debug, Clone, Copy, PartialEq, Eq, Structural)]
pub enum AgentType {
    Proxy,
    Assistant,
}

/// The configuration of an agent as it stood when the directory of peers was
/// drawn up. It is kept for reference and never written to.
#[derive(Debug)]
pub struct AgentSnapshot<RoleType: Role> {
    pub id: usize,
    pub typ: AgentType,
    pub role: RoleType,
    pub max_auto_responses: Option<usize>,
    pub system_prompt: Option<String>,
}

/// Copies an optional text.
fn clone_text(text: &Option<String>) -> (copy: Option<String>)
    ensures
        copy == *text,
{
    match text {
        Some(text) => Some(text.clone()),
        None => None,
    }
}

impl<RoleType: Role> Clone for AgentSnapshot<RoleType> {
    fn clone(&self) -> (copy: Self)
        ensures
            copy == *self,
    {
        AgentSnapshot {
            id: self.id,
            typ: self.typ,
            role: self.role,
            max_auto_responses: self.max_auto_responses,
            system_prompt: clone_text(&self.system_prompt),
        }
    }
}

/// One participant of the exchange, with everything it owns.
#[derive(Debug)]
pub struct Agent<RoleType: Role, Callback: Copy, Addr> {
    pub peers: Option<PeerRegistry<RoleType, Addr>>,
    pub conversations: Conversations<RoleType>,
    pub id: usize,
    pub typ: AgentType,
    pub role: RoleType,
    pub callbacks: Callbacks<RoleType, Callback>,
    pub max_auto_responses: Option<usize>,
    pub response_count: usize,
    pub system_prompt: Option<String>,
}


/// Why an agent could not answer a message.
#[derive(Debug, Clone, Copy, PartialEq, Eq, Structural)]
pub enum HandleError {
    /// The handlers came to no response, or the message triggers none.
    NoResponse,
    /// The response is meant for a role that the agent cannot reach: its
    /// directory does not know the role, or it has no directory yet.
    UnresolvedRoute,
}

/// An answer that is ready to leave: the message to put into the inbox of the
/// peer that plays `message.to`, and whether the whole exchange is to stop
/// after it.
#[derive(Debug)]
pub struct Delivery<RoleType: Role> {
    pub message: Msg<RoleType>,
    pub stop: bool,
}

/// An agent as a mathematical value.
#[verifier::reject_recursive_types(RoleType)]
pub struct AgentView<RoleType: Role, Callback, Addr> {
    pub peers: Option<Map<RoleType, (AgentSnapshot<RoleType>, Addr)>>,
    pub conversations: Map<usize, Seq<EntryView<RoleType>>>,
    pub id: usize,
    pub typ: AgentType,
    pub role: RoleType,
    pub callbacks: Map<(usize, RoleType), Callback>,
    pub max_auto_responses: Option<usize>,
    pub response_count: nat,
    pub system_prompt: Option<Seq<char>>,
}

impl<RoleType: Role, Callback, Addr> AgentView<RoleType, Callback, Addr> {
    /// The agent can reach the peer that plays `role`.
    pub open spec fn routes(self, role: RoleType) -> bool {
        self.peers matches Some(directory) && directory.contains_key(role)
    }

    /// The system prompt that handlers are given: empty where none is set.
    pub open spec fn prompt(self) -> Seq<char> {
        match self.system_prompt {
            Some(prompt) => prompt,
            None => Seq::empty(),
        }
    }

    /// The history of a conversation, empty where it has not begun.
    pub open spec fn history(self, id: usize) -> Seq<EntryView<RoleType>> {
        history_of(self.conversations, id)
    }

    /// The agent after `entry` has been added to the conversation that its
    /// message belongs to.
    pub open spec fn record(self, entry: EntryView<RoleType>) -> Self {
        let id = entry.message().conv_id;
        AgentView {
            conversations: self.conversations.insert(id, self.history(id).push(entry)),
            ..self
        }
    }

    /// The agent after `message` has arrived.
    pub open spec fn receive(self, message: MsgView<RoleType>) -> Self {
        self.record(EntryView::Received(message))
    }

    /// The message that carries `response` as the answer to `message`: from
    /// this agent, to the role the response names, in the same conversation.
    pub open spec fn reply(
        self,
        message: MsgView<RoleType>,
        response: ResponseView<RoleType>,
    ) -> MsgView<RoleType> {
        MsgView { from: self.role, to: response.to, msg: response.msg, conv_id: message.conv_id }
    }

    /// What the handling of `message` comes to once the handlers have settled
    /// on `candidate`: the outgoing message, or the reason why there is none.
    pub open spec fn verdict(
        self,
        message: MsgView<RoleType>,
        candidate: Option<ResponseView<RoleType>>,
    ) -> Result<MsgView<RoleType>, HandleError> {
        match candidate {
            None => Err(HandleError::NoResponse),
            Some(response) => if self.routes(response.to) {
                Ok(self.reply(message, response))
            } else {
                Err(HandleError::UnresolvedRoute)
            },
        }
    }

    /// The agent after it has sent `outgoing`: one more response counted, and
    /// the message recorded as sent.
    pub open spec fn send(self, outgoing: MsgView<RoleType>) -> Self {
        AgentView {
            response_count: self.response_count + 1,
            ..self.record(EntryView::Sent(outgoing))
        }
    }

    /// The agent after the handling of `message` has ended with `candidate`.
    /// Where no message leaves, nothing changes.
    pub open spec fn respond(
        self,
        message: MsgView<RoleType>,
        candidate: Option<ResponseView<RoleType>>,
    ) -> Self {
        match self.verdict(message, candidate) {
            Ok(outgoing) => self.send(outgoing),
            Err(_) => self,
        }
    }

    /// The agent has given as many responses as it is allowed to.
    pub open spec fn exhausted(self) -> bool {
        self.max_auto_responses matches Some(max) && self.response_count >= max
    }

    /// The agent after it has been handed a directory of peers.
    pub open spec fn update_peers(
        self,
        directory: Map<RoleType, (AgentSnapshot<RoleType>, Addr)>,
    ) -> Self {
        AgentView { peers: Some(directory), ..self }
    }

    /// The agent after `callback` has been bound, under `priority`, to each
    /// of `roles`.
    pub open spec fn register_callback(
        self,
        roles: Seq<RoleType>,
        priority: usize,
        callback: Callback,
    ) -> Self {
        AgentView {
            callbacks: Map::new(
                |key: (usize, RoleType)|
                    self.callbacks.contains_key(key) || (key.0 == priority && roles.contains(
                        key.1,
                    )),
                |key: (usize, RoleType)|
                    if key.0 == priority && roles.contains(key.1) {
                        callback
                    } else {
                        self.callbacks[key]
                    },
            ),
            ..self
        }
    }
}

impl<RoleType: Role, Callback, Addr> AgentView<RoleType, Callback, Addr> {
    /// An agent that has not taken part in anything yet: no directory, no
    /// conversation, no handler, no response given.
    pub open spec fn fresh(
        id: usize,
        typ: AgentType,
        role: RoleType,
        max_auto_responses: Option<usize>,
        system_prompt: Option<Seq<char>>,
    ) -> Self {
        AgentView {
            peers: None,
            conversations: Map::empty(),
            id,
            typ,
            role,
            callbacks: Map::empty(),
            max_auto_responses,
            response_count: 0,
            system_prompt,
        }
    }
}

/// One thing that happens to an agent.
#[verifier::reject_recursive_types(RoleType)]
pub enum AgentOp<RoleType: Role, Callback, Addr> {
    /// A handler is bound to some roles.
    RegisterCallback { roles: Seq<RoleType>, priority: usize, callback: Callback },
    /// A directory of peers arrives.
    UpdatePeers { directory: Map<RoleType, (AgentSnapshot<RoleType>, Addr)> },
    /// A message arrives.
    Receive { message: MsgView<RoleType> },
    /// The handling of a message ends with what the handlers settled on.
    Respond { message: MsgView<RoleType>, candidate: Option<ResponseView<RoleType>> },
}

impl<RoleType: Role, Callback, Addr> AgentView<RoleType, Callback, Addr> {
    /// The agent after one thing has happened to it.
    pub open spec fn apply(self, op: AgentOp<RoleType, Callback, Addr>) -> Self {
        match op {
            AgentOp::RegisterCallback { roles, priority, callback } => self.register_callback(
                roles,
                priority,
                callback,
            ),
            AgentOp::UpdatePeers { directory } => self.update_peers(directory),
            AgentOp::Receive { message } => self.receive(message),
            AgentOp::Respond { message, candidate } => self.respond(message, candidate),
        }
    }

    /// The agent after a series of things has happened to it, in order.
    pub open spec fn apply_all(self, ops: Seq<AgentOp<RoleType, Callback, Addr>>) -> Self
        decreases ops.len(),
    {
        if ops.len() == 0 {
            self
        } else {
            self.apply_all(ops.drop_last()).apply(ops.last())
        }
    }

    /// The agent after it has sent a series of messages, in order.
    pub open spec fn send_all(self, outgoing: Seq<MsgView<RoleType>>) -> Self
        decreases outgoing.len(),
    {
        if outgoing.len() == 0 {
            self
        } else {
            self.send_all(outgoing.drop_last()).send(outgoing.last())
        }
    }
}

/// Nothing was dropped, changed or moved between `earlier` and `later`: every
/// conversation that was there is still there, and the history of every
/// conversation, begun or not, is the beginning of what it has become.
pub open spec fn extends<RoleType>(
    later: Map<usize, Seq<EntryView<RoleType>>>,
    earlier: Map<usize, Seq<EntryView<RoleType>>>,
) -> bool {
    &&& forall|id: usize| #[trigger] earlier.contains_key(id) ==> later.contains_key(id)
    &&& forall|id: usize|
        history_of(earlier, id).is_prefix_of(#[trigger] history_of(later, id))
}

impl<RoleType: Role, Callback: Copy, Addr> View for Agent<RoleType, Callback, Addr> {
    type V = AgentView<RoleType, Callback, Addr>;

    open spec fn view(&self) -> AgentView<RoleType, Callback, Addr> {
        AgentView {
            peers: match self.peers {
                Some(directory) => Some(directory@),
                None => None,
            },
            conversations: self.conversations@,
            id: self.id,
            typ: self.typ,
            role: self.role,
            callbacks: self.callbacks@,
            max_auto_responses: self.max_auto_responses,
            response_count: self.response_count as nat,
            system_prompt: match self.system_prompt {
                Some(prompt) => Some(prompt@),
                None => None,
            },
        }
    }
}

impl<RoleType: Role, Callback: Copy, Addr: Clone> Clone for Agent<RoleType, Callback, Addr> {
    /// Copies the agent. The copy is the same agent in everything but the
    /// addresses in its directory, which are clones of the addresses here.
    fn clone(&self) -> (copy: Self)
        ensures
            copy@ == (AgentView { peers: copy@.peers, ..self@ }),
            forall|role: RoleType| copy@.routes(role) == #[trigger] self@.routes(role),
            forall|role: RoleType| #[trigger]
                self@.routes(role) ==> copy@.peers->0[role].0 == self@.peers->0[role].0 && cloned(
                    self@.peers->0[role].1,
                    copy@.peers->0[role].1,
                ),
    {
        let peers = match &self.peers {
            Some(directory) => Some(directory.clone()),
            None => None,
        };
        Agent {
            peers,
            conversations: self.conversations.clone(),
            id: self.id,
            typ: self.typ,
            role: self.role,
            callbacks: self.callbacks.clone(),
            max_auto_responses: self.max_auto_responses,
            response_count: self.response_count,
            system_prompt: clone_text(&self.system_prompt),
        }
    }
}

impl<RoleType: Role, Callback: Copy, Addr> Agent<RoleType, Callback, Addr> {
    /// An agent that has not taken part in anything yet.
    pub fn new(
        id: usize,
        typ: AgentType,
        role: RoleType,
        max_auto_responses: Option<usize>,
        system_prompt: Option<String>,
    ) -> (agent: Self)
        ensures
            agent@ == AgentView::<RoleType, Callback, Addr>::fresh(
                id,
                typ,
                role,
                max_auto_responses,
                match system_prompt {
                    Some(prompt) => Some(prompt@),
                    None => None,
                },
            ),
    {
        Agent {
            peers: None,
            conversations: Conversations::default(),
            id,
            typ,
            role,
            callbacks: Callbacks::new(),
            max_auto_responses,
            response_count: 0,
            system_prompt,
        }
    }

    /// Binds `callback`, under `priority`, to each of `roles`: a message from
    /// any of them triggers it. A handler bound to the same priority and role
    /// before is replaced.
    pub fn register_callback(&mut self, roles: Vec<RoleType>, priority: usize, callback: Callback)
        ensures
            final(self)@ == old(self)@.register_callback(roles@, priority, callback),
    {
        let mut i: usize = 0;
        assert(roles@.take(0) =~= Seq::empty());
        assert(self@.callbacks =~= old(self)@.register_callback(
            roles@.take(0),
            priority,
            callback,
        ).callbacks);
        while i < roles.len()
            invariant
                i <= roles@.len(),
                self@ == old(self)@.register_callback(roles@.take(i as int), priority, callback),
            decreases roles@.len() - i,
        {
            let ghost bound = roles@.take(i as int);
            self.callbacks.insert(priority, roles[i], callback);
            i += 1;
            proof {
                let more = roles@.take(i as int);
                assert(more == bound.push(roles@[i - 1]));
                assert forall|role: RoleType|
                    more.contains(role) <==> bound.contains(role) || role == roles@[i - 1] by {
                    if bound.contains(role) {
                        let k = choose|k: int| 0 <= k < bound.len() && bound[k] == role;
                        assert(more[k] == role);
                    }
                    if role == roles@[i - 1] {
                        assert(more[i - 1] == role);
                    }
                }
                assert(self@.callbacks =~= old(self)@.register_callback(
                    more,
                    priority,
                    callback,
                ).callbacks);
            }
        }
        assert(roles@.take(i as int) == roles@);
    }

    /// Takes a directory of peers. The agent keeps the whole of it in place of
    /// whatever directory it had.
    pub fn update_peers(&mut self, msg: UpdatePeers<RoleType, Addr>)
        ensures
            final(self)@ == old(self)@.update_peers(msg.peers@),
    {
        self.peers = Some(msg.peers);
    }

    /// Takes a message in. The message is recorded as received in its
    /// conversation, and the handling begins: with the handlers that the
    /// sender's role triggers, in ascending priority, each to be given this
    /// agent's role, the conversation as it now stands, and the system prompt.
    pub fn receive(&mut self, msg: Msg<RoleType>) -> (progress: Progress<RoleType, Callback>)
        ensures
            final(self)@ == old(self)@.receive(msg@),
            is_resolution(old(self)@.callbacks, msg@.from, progress@.pending()),
            progress@ == ProgressView::start(
                msg@,
                old(self)@.role,
                final(self)@.history(msg@.conv_id),
                old(self)@.prompt(),
                progress@.pending(),
            ),
            progress@ matches ProgressView::Invoke(invocation) ==> invocation.wf(),
    {
        let conversation = self.conversations.get_or_create_conversation(msg.conv_id);
        conversation.add_message(ConversationEntry::Received(msg.clone()));
        let snapshot = conversation.clone();
        let handlers = self.callbacks.resolve(msg.from);
        let system_prompt = match &self.system_prompt {
            Some(prompt) => prompt.clone(),
            None => String::new(),
        };
        Progress::start(msg, self.role, snapshot, system_prompt, handlers)
    }

    /// Ends the handling of `msg` with the response that the handlers have
    /// settled on.
    ///
    /// A message leaves where there is a response and the directory knows the
    /// role it is meant for. It is then counted, recorded as sent in the
    /// conversation of `msg`, and returned for delivery, together with the
    /// word to stop once the agent has used up its responses. Otherwise the
    /// agent stays as it was, and the error says what was missing.
    pub fn respond(
        &mut self,
        msg: &Msg<RoleType>,
        candidate: Option<Response<RoleType>>,
    ) -> (outcome: Result<Delivery<RoleType>, HandleError>)
        requires
            old(self).response_count < usize::MAX,
        ensures
            final(self)@ == old(self)@.respond(msg@, candidate_view(candidate)),
            match outcome {
                Ok(delivery) => old(self)@.verdict(msg@, candidate_view(candidate)) == Ok::<
                    MsgView<RoleType>,
                    HandleError,
                >(delivery.message@) && delivery.stop == final(self)@.exhausted(),
                Err(error) => old(self)@.verdict(msg@, candidate_view(candidate)) == Err::<
                    MsgView<RoleType>,
                    HandleError,
                >(error),
            },
    {
        let response = match candidate {
            Some(response) => response,
            None => {
                return Err(HandleError::NoResponse);
            },
        };
        let outgoing = Msg {
            from: self.role,
            to: response.to,
            msg: response.msg,
            conv_id: msg.conv_id,
        };
        let known = match &self.peers {
            Some(directory) => directory.get(outgoing.to).is_some(),
            None => false,
        };
        if !known {
            return Err(HandleError::UnresolvedRoute);
        }
        self.response_count += 1;
        let conversation = self.conversations.get_or_create_conversation(outgoing.conv_id);
        conversation.add_message(ConversationEntry::Sent(outgoing.clone()));
        let stop = match self.max_auto_responses {
            Some(max) => self.response_count >= max,
            None => false,
        };
        Ok(Delivery { message: outgoing, stop })
    }

    /// The configuration of the agent as it stands.
    pub open spec fn configuration(&self) -> AgentSnapshot<RoleType> {
        AgentSnapshot {
            id: self.id,
            typ: self.typ,
            role: self.role,
            max_auto_responses: self.max_auto_responses,
            system_prompt: self.system_prompt,
        }
    }

    /// The agent's configuration, for the directory of peers.
    pub fn snapshot(&self) -> (snapshot: AgentSnapshot<RoleType>)
        ensures
            snapshot == self.configuration(),
    {
        AgentSnapshot {
            id: self.id,
            typ: self.typ,
            role: self.role,
            max_auto_responses: self.max_auto_responses,
            system_prompt: clone_text(&self.system_prompt),
        }
    }
}

} // verus!
