use agentz::ai_chat_system::{AiChatCallback, AiChatRoles};
use agentz::callbacks::{Callbacks, Response};
use agentz::conversation::Conversation;
use agentz::dispatch::Progress;
use agentz::messages::Msg;

fn message() -> Msg<AiChatRoles> {
    Msg {
        from: AiChatRoles::Moderator,
        to: AiChatRoles::For,
        msg: "question".to_string(),
        conv_id: 1,
    }
}

fn begin(handlers: Vec<(usize, u8)>) -> Progress<AiChatRoles, u8> {
    Progress::start(
        message(),
        AiChatRoles::For,
        Conversation::default(),
        "prompt".to_string(),
        handlers,
    )
}

#[test]
fn a_new_registry_resolves_to_nothing() {
    let callbacks: Callbacks<AiChatRoles, u8> = Callbacks::new();
    assert!(callbacks.resolve(AiChatRoles::For).is_empty());
    let callbacks: Callbacks<AiChatRoles, u8> = Callbacks::default();
    assert!(callbacks.resolve(AiChatRoles::Moderator).is_empty());
}

#[test]
fn handlers_run_by_ascending_priority() {
    let mut callbacks: Callbacks<AiChatRoles, &str> = Callbacks::new();
    callbacks.insert(2, AiChatRoles::Moderator, "H1");
    callbacks.insert(1, AiChatRoles::Moderator, "H2");
    assert_eq!(callbacks.resolve(AiChatRoles::Moderator), vec![(1, "H2"), (2, "H1")]);
}

#[test]
fn the_order_of_registration_does_not_matter() {
    let mut callbacks: Callbacks<AiChatRoles, u8> = Callbacks::new();
    for priority in [5usize, 3, 9, 1, 7, 0, 8] {
        callbacks.insert(priority, AiChatRoles::For, priority as u8);
    }
    assert_eq!(
        callbacks.resolve(AiChatRoles::For),
        vec![(0, 0), (1, 1), (3, 3), (5, 5), (7, 7), (8, 8), (9, 9)]
    );
}

#[test]
fn only_the_handlers_of_the_triggering_role_are_resolved() {
    let mut callbacks: Callbacks<AiChatRoles, AiChatCallback> = Callbacks::new();
    callbacks.insert(1, AiChatRoles::For, AiChatCallback::Moderator);
    callbacks.insert(2, AiChatRoles::Against, AiChatCallback::PpModerator);
    callbacks.insert(3, AiChatRoles::For, AiChatCallback::NnModerator);
    assert_eq!(
        callbacks.resolve(AiChatRoles::For),
        vec![(1, AiChatCallback::Moderator), (3, AiChatCallback::NnModerator)]
    );
    assert_eq!(callbacks.resolve(AiChatRoles::Against), vec![(2, AiChatCallback::PpModerator)]);
    assert!(callbacks.resolve(AiChatRoles::Moderator).is_empty());
}

#[test]
fn registering_again_replaces_the_handler() {
    let mut callbacks: Callbacks<AiChatRoles, &str> = Callbacks::new();
    callbacks.insert(1, AiChatRoles::For, "old");
    callbacks.insert(2, AiChatRoles::For, "other");
    callbacks.insert(1, AiChatRoles::For, "new");
    assert_eq!(callbacks.resolve(AiChatRoles::For), vec![(1, "new"), (2, "other")]);
}

#[test]
fn the_same_priority_may_serve_several_roles() {
    let mut callbacks: Callbacks<AiChatRoles, &str> = Callbacks::new();
    callbacks.insert(1, AiChatRoles::For, "a");
    callbacks.insert(1, AiChatRoles::Against, "b");
    assert_eq!(callbacks.resolve(AiChatRoles::For), vec![(1, "a")]);
    assert_eq!(callbacks.resolve(AiChatRoles::Against), vec![(1, "b")]);
}

#[test]
fn a_copied_registry_resolves_alike() {
    let mut callbacks: Callbacks<AiChatRoles, u8> = Callbacks::new();
    callbacks.insert(4, AiChatRoles::For, 40);
    callbacks.insert(2, AiChatRoles::For, 20);
    let mut copy = callbacks.clone();
    assert_eq!(copy.resolve(AiChatRoles::For), vec![(2, 20), (4, 40)]);
    copy.insert(3, AiChatRoles::For, 30);
    assert_eq!(callbacks.resolve(AiChatRoles::For), vec![(2, 20), (4, 40)]);
    assert_eq!(copy.resolve(AiChatRoles::For), vec![(2, 20), (3, 30), (4, 40)]);
}

#[test]
fn a_run_without_handlers_is_over_at_once() {
    match begin(Vec::new()) {
        Progress::Done { message, candidate } => {
            assert_eq!(message.msg, "question");
            assert!(candidate.is_none());
        }
        Progress::Invoke(_) => panic!("no handler is due"),
    }
}

#[test]
fn a_run_hands_every_handler_the_same_context() {
    let mut progress = begin(vec![(1, 10), (2, 20), (3, 30)]);
    let mut asked: Vec<(usize, u8)> = Vec::new();
    loop {
        match progress {
            Progress::Invoke(invocation) => {
                assert_eq!(invocation.role(), AiChatRoles::For);
                assert_eq!(invocation.system_prompt(), "prompt");
                assert!(invocation.conversation().messages.is_empty());
                assert_eq!(invocation.message().msg, "question");
                asked.push((invocation.priority(), invocation.handler()));
                progress = invocation.advance(None);
            }
            Progress::Done { candidate, .. } => {
                assert!(candidate.is_none());
                break;
            }
        }
    }
    assert_eq!(asked, vec![(1, 10), (2, 20), (3, 30)]);
}

#[test]
fn the_last_answer_is_the_outcome() {
    let progress = begin(vec![(1, 10), (2, 20)]);
    let Progress::Invoke(first) = progress else { panic!("a handler is due") };
    let next = first.advance(Some(Response { to: AiChatRoles::Against, msg: "early".to_string() }));
    let Progress::Invoke(second) = next else { panic!("a second handler is due") };
    assert_eq!(second.handler(), 20);
    let end =
        second.advance(Some(Response { to: AiChatRoles::Moderator, msg: "late".to_string() }));
    let Progress::Done { candidate, message } = end else { panic!("the run is over") };
    let response = candidate.unwrap();
    assert_eq!(response.to, AiChatRoles::Moderator);
    assert_eq!(response.msg, "late");
    assert_eq!(message.conv_id, 1);
}

#[test]
fn a_later_handler_without_answer_overrides_an_earlier_answer() {
    let mut callbacks: Callbacks<AiChatRoles, &str> = Callbacks::new();
    callbacks.insert(2, AiChatRoles::Moderator, "H1");
    callbacks.insert(1, AiChatRoles::Moderator, "H2");
    let mut progress = Progress::start(
        message(),
        AiChatRoles::For,
        Conversation::default(),
        String::new(),
        callbacks.resolve(AiChatRoles::Moderator),
    );
    let mut asked = Vec::new();
    let outcome = loop {
        match progress {
            Progress::Invoke(invocation) => {
                let handler = invocation.handler();
                asked.push(handler);
                let answer = if handler == "H2" {
                    Some(Response { to: AiChatRoles::Moderator, msg: "x".to_string() })
                } else {
                    None
                };
                progress = invocation.advance(answer);
            }
            Progress::Done { candidate, .. } => break candidate,
        }
    };
    assert_eq!(asked, vec!["H2", "H1"]);
    assert!(outcome.is_none());
}
