//! Running the handlers that one message triggers.
//!
//! The handlers of a message run one after the other, and running one of
//! them may take as long as it likes. So the run is a value: it names the
//! handler that is due and what to hand to it, takes that handler's answer,
//! and then names the next handler or says what the run has come to.

use vstd::prelude::*;

use crate::callbacks::{candidate_view, Response, ResponseView};
use crate::conversation::{Conversation, EntryView};
use crate::messages::{Msg, MsgView};
use crate::role::Role;

verus! {

/// A run that waits for the answer of one handler.
pub struct Invocation<RoleType: Role, Callback: Copy> {
    message: Msg<RoleType>,
    role: RoleType,
    conversation: Conversation<RoleType>,
    system_prompt: String,
    handlers: Vec<(usize, Callback)>,
    cursor: usize,
}

/// A waiting run as a mathematical value: the message that is being handled,
/// what every handler is given (the agent's role, the conversation as it stood
/// when the message had been recorded, the system prompt), the handlers in
/// their order, and the place of the one that is due.
pub struct InvocationView<RoleType, Callback> {
    pub message: MsgView<RoleType>,
    pub role: RoleType,
    pub conversation: Seq<EntryView<RoleType>>,
    pub system_prompt: Seq<char>,
    pub handlers: Seq<(usize, Callback)>,
    pub cursor: int,
}

/// Where the handling of one message stands.
pub enum Progress<RoleType: Role, Callback: Copy> {
    /// A handler is due.
    Invoke(Invocation<RoleType, Callback>),
    /// Every handler has answered. `candidate` is what the run has come to.
    Done { message: Msg<RoleType>, candidate: Option<Response<RoleType>> },
}

/// `Progress` as a mathematical value.
pub enum ProgressView<RoleType, Callback> {
    Invoke(InvocationView<RoleType, Callback>),
    Done { message: MsgView<RoleType>, candidate: Option<ResponseView<RoleType>> },
}

impl<RoleType, Callback> InvocationView<RoleType, Callback> {
    /// A handler is due: the place lies within the list.
    pub open spec fn wf(self) -> bool {
        0 <= self.cursor < self.handlers.len()
    }

    /// The handler that is due.
    pub open spec fn handler(self) -> Callback {
        self.handlers[self.cursor].1
    }

    /// The priority under which the due handler was registered.
    pub open spec fn priority(self) -> usize {
        self.handlers[self.cursor].0
    }

    /// The run after the due handler has answered `result`. The answer takes
    /// the place of whatever was answered before, also where it is no answer;
    /// after the last handler it is what the run has come to.
    pub open spec fn advance(self, result: Option<ResponseView<RoleType>>) -> ProgressView<
        RoleType,
        Callback,
    > {
        if self.cursor + 1 < self.handlers.len() {
            ProgressView::Invoke(InvocationView { cursor: self.cursor + 1, ..self })
        } else {
            ProgressView::Done { message: self.message, candidate: result }
        }
    }
}

impl<RoleType, Callback> ProgressView<RoleType, Callback> {
    /// The state in which the handling of a message begins, with the handlers
    /// that the message triggers in their order. Without any handler the run
    /// is over at once and has come to nothing.
    pub open spec fn start(
        message: MsgView<RoleType>,
        role: RoleType,
        conversation: Seq<EntryView<RoleType>>,
        system_prompt: Seq<char>,
        handlers: Seq<(usize, Callback)>,
    ) -> Self {
        if handlers.len() > 0 {
            ProgressView::Invoke(
                InvocationView { message, role, conversation, system_prompt, handlers, cursor: 0 },
            )
        } else {
            ProgressView::Done { message, candidate: None }
        }
    }

    /// The handlers that have not answered yet, in their order.
    pub open spec fn pending(self) -> Seq<(usize, Callback)> {
        match self {
            ProgressView::Invoke(invocation) => invocation.handlers.skip(invocation.cursor),
            ProgressView::Done { .. } => Seq::empty(),
        }
    }

    /// The state after the handlers have answered `results`, one after the
    /// other. Answers that come after the run is over change nothing.
    pub open spec fn run(self, results: Seq<Option<ResponseView<RoleType>>>) -> Self
        decreases results.len(),
    {
        if results.len() == 0 {
            self
        } else {
            match self {
                ProgressView::Invoke(invocation) => invocation.advance(results[0]).run(
                    results.skip(1),
                ),
                ProgressView::Done { .. } => self,
            }
        }
    }
}

impl<RoleType: Role, Callback: Copy> View for Invocation<RoleType, Callback> {
    type V = InvocationView<RoleType, Callback>;

    closed spec fn view(&self) -> InvocationView<RoleType, Callback> {
        InvocationView {
            message: self.message@,
            role: self.role,
            conversation: self.conversation@,
            system_prompt: self.system_prompt@,
            handlers: self.handlers@,
            cursor: self.cursor as int,
        }
    }
}

impl<RoleType: Role, Callback: Copy> View for Progress<RoleType, Callback> {
    type V = ProgressView<RoleType, Callback>;

    open spec fn view(&self) -> ProgressView<RoleType, Callback> {
        match self {
            Progress::Invoke(invocation) => ProgressView::Invoke(invocation@),
            Progress::Done { message, candidate } => ProgressView::Done {
                message: message@,
                candidate: candidate_view(*candidate),
            },
        }
    }
}

impl<RoleType: Role, Callback: Copy> Progress<RoleType, Callback> {
    /// Begins the handling of `message` with the handlers that it triggers.
    pub fn start(
        message: Msg<RoleType>,
        role: RoleType,
        conversation: Conversation<RoleType>,
        system_prompt: String,
        handlers: Vec<(usize, Callback)>,
    ) -> (progress: Self)
        ensures
            progress@ == ProgressView::start(
                message@,
                role,
                conversation@,
                system_prompt@,
                handlers@,
            ),
            progress@.pending() == handlers@,
            progress@ matches ProgressView::Invoke(invocation) ==> invocation.wf(),
    {
        if handlers.len() > 0 {
            Progress::Invoke(
                Invocation { message, role, conversation, system_prompt, handlers, cursor: 0 },
            )
        } else {
            Progress::Done { message, candidate: None }
        }
    }
}

impl<RoleType: Role, Callback: Copy> Invocation<RoleType, Callback> {
    #[verifier::type_invariant]
    spec fn well_formed(self) -> bool {
        self.cursor < self.handlers@.len()
    }

    /// The handler that is due.
    pub fn handler(&self) -> (handler: Callback)
        ensures
            self@.wf(),
            handler == self@.handler(),
    {
        proof {
            use_type_invariant(self);
        }
        self.handlers[self.cursor].1
    }

    /// The priority under which the due handler was registered.
    pub fn priority(&self) -> (priority: usize)
        ensures
            self@.wf(),
            priority == self@.priority(),
    {
        proof {
            use_type_invariant(self);
        }
        self.handlers[self.cursor].0
    }

    /// The message that is being handled.
    pub fn message(&self) -> (message: &Msg<RoleType>)
        ensures
            message@ == self@.message,
    {
        &self.message
    }

    /// The role of the agent that handles the message.
    pub fn role(&self) -> (role: RoleType)
        ensures
            role == self@.role,
    {
        self.role
    }

    /// The conversation as it stood when the message had been recorded.
    pub fn conversation(&self) -> (conversation: &Conversation<RoleType>)
        ensures
            conversation@ == self@.conversation,
    {
        &self.conversation
    }

    /// The system prompt of the agent, empty where it has none.
    pub fn system_prompt(&self) -> (system_prompt: &String)
        ensures
            system_prompt@ == self@.system_prompt,
    {
        &self.system_prompt
    }

    /// Takes the answer of the due handler and moves on: to the next handler,
    /// or to the end of the run with this answer as its outcome.
    pub fn advance(self, result: Option<Response<RoleType>>) -> (progress: Progress<
        RoleType,
        Callback,
    >)
        ensures
            progress@ == self@.advance(candidate_view(result)),
            progress@ matches ProgressView::Invoke(invocation) ==> invocation.wf(),
    {
        proof {
            use_type_invariant(&self);
        }
        let count = self.handlers.len();
        if self.cursor + 1 < count {
            Progress::Invoke(
                Invocation {
                    message: self.message,
                    role: self.role,
                    conversation: self.conversation,
                    system_prompt: self.system_prompt,
                    handlers: self.handlers,
                    cursor: self.cursor + 1,
                },
            )
        } else {
            Progress::Done { message: self.message, candidate: result }
        }
    }
}

} // verus!
