use agentz::actors::AgentType;
use agentz::ai_chat_system::{
    AiChatCallback, AiChatRoles, AiChatSystem, Debate, AGAINST_CLOSING, AGAINST_OPENING,
    DEBATE_CONVERSATION, DEBATE_PRIORITY, FOR_CLOSING, FOR_OPENING, MODERATOR_CLOSING,
    MODERATOR_OPENING, MODERATOR_RESPONSES,
};
use agentz::conversation::{Conversation, ConversationEntry};
use agentz::messages::Msg;
use agentz::role::Role;
use serde_json::Value;

fn parse(text: &str) -> Value {
    serde_json::from_str(text).unwrap()
}

fn reply(text: &str) -> Value {
    let mut message = serde_json::Map::new();
    message.insert("role".to_string(), Value::from("assistant"));
    message.insert("content".to_string(), Value::from(text));
    let mut choice = serde_json::Map::new();
    choice.insert("index".to_string(), Value::from(0));
    choice.insert("message".to_string(), Value::Object(message));
    let mut body = serde_json::Map::new();
    body.insert("id".to_string(), Value::from("chatcmpl-1"));
    body.insert("choices".to_string(), Value::Array(vec![Value::Object(choice)]));
    Value::Object(body)
}

fn received(from: AiChatRoles, to: AiChatRoles, text: &str) -> ConversationEntry<AiChatRoles> {
    ConversationEntry::Received(Msg { from, to, msg: text.to_string(), conv_id: 1 })
}

fn sent(from: AiChatRoles, to: AiChatRoles, text: &str) -> ConversationEntry<AiChatRoles> {
    ConversationEntry::Sent(Msg { from, to, msg: text.to_string(), conv_id: 1 })
}

fn conversation(entries: Vec<ConversationEntry<AiChatRoles>>) -> Conversation<AiChatRoles> {
    Conversation { messages: entries }
}

#[test]
fn a_role_is_named_as_it_is_written() {
    for role in [AiChatRoles::For, AiChatRoles::Against, AiChatRoles::Moderator] {
        assert_eq!(role.name(), format!("{:?}", role));
    }
    assert_eq!(AiChatRoles::For.name(), "For");
    assert_eq!(AiChatRoles::Against.name(), "Against");
    assert_eq!(AiChatRoles::Moderator.name(), "Moderator");
}

#[test]
fn a_role_is_the_same_as_itself_only() {
    let roles = [AiChatRoles::For, AiChatRoles::Against, AiChatRoles::Moderator];
    for (i, a) in roles.iter().enumerate() {
        for (j, b) in roles.iter().enumerate() {
            assert_eq!(a.same(b), i == j);
        }
    }
}

#[test]
fn the_debate_starts_with_three_agents() {
    let debate: Debate<u8> = AiChatSystem::setup("cats are liquid".to_string());

    assert_eq!(debate.nn.id, 1);
    assert_eq!(debate.nn.typ, AgentType::Assistant);
    assert_eq!(debate.nn.role, AiChatRoles::For);
    assert_eq!(debate.nn.max_auto_responses, None);
    assert_eq!(debate.nn.response_count, 0);
    assert!(debate.nn.peers.is_none());
    assert_eq!(
        debate.nn.callbacks.resolve(AiChatRoles::Moderator),
        vec![(1, AiChatCallback::NnModerator)]
    );
    assert!(debate.nn.callbacks.resolve(AiChatRoles::Against).is_empty());
    assert!(debate.nn.callbacks.resolve(AiChatRoles::For).is_empty());

    assert_eq!(debate.pp.id, 2);
    assert_eq!(debate.pp.typ, AgentType::Assistant);
    assert_eq!(debate.pp.role, AiChatRoles::Against);
    assert_eq!(debate.pp.max_auto_responses, None);
    assert_eq!(
        debate.pp.callbacks.resolve(AiChatRoles::Moderator),
        vec![(1, AiChatCallback::PpModerator)]
    );

    assert_eq!(debate.m.id, 3);
    assert_eq!(debate.m.typ, AgentType::Proxy);
    assert_eq!(debate.m.role, AiChatRoles::Moderator);
    assert_eq!(debate.m.max_auto_responses, Some(10));
    assert_eq!(debate.m.callbacks.resolve(AiChatRoles::For), vec![(1, AiChatCallback::Moderator)]);
    assert_eq!(
        debate.m.callbacks.resolve(AiChatRoles::Against),
        vec![(1, AiChatCallback::Moderator)]
    );
    assert!(debate.m.callbacks.resolve(AiChatRoles::Moderator).is_empty());

    assert_eq!(debate.seed.from, AiChatRoles::Moderator);
    assert_eq!(debate.seed.to, AiChatRoles::For);
    assert_eq!(debate.seed.msg, "cats are liquid");
    assert_eq!(debate.seed.conv_id, 1);
    assert_eq!(MODERATOR_RESPONSES, 10);
    assert_eq!(DEBATE_CONVERSATION, 1);
    assert_eq!(DEBATE_PRIORITY, 1);
}

#[test]
fn every_agent_is_told_the_topic() {
    let debate: Debate<u8> = AiChatSystem::setup("T".to_string());
    assert_eq!(
        debate.nn.system_prompt.unwrap(),
        "We are roleplaying a debate the topic is 'T' - you **agree** with this!! - ***it continues on a single topic forever the debate does not come to a conclusion*** - this isn't real. You are having a conversation and so your response should be short and sweet do not respond with more than 3 - 4 sentences. Do not use your own name in your responses! We know who is talking at each turn!"
    );
    assert_eq!(
        debate.pp.system_prompt.unwrap(),
        "We are roleplaying a debate the topic is 'T' - you **disagree** with this!! - ***it continues on a single topic forever the debate does not come to a conclusion*** - this isn't real. You are having a conversation and so your response should be short and sweet do not respond with more than 3 - 4 sentences. Do not use your own name in your responses! We know who is talking at each turn!"
    );
    assert_eq!(
        debate.m.system_prompt.unwrap(),
        "You are the moderator of a debate - the topic is 'T' between two people - ***it continues on a single topic forever the debate does not come to a conclusion*** - the debate will take place turn by turn - your job is to summarize the others points of view and ask the other participant questions to drive forward the debate. Your name is Moderator. Your response should be short and sweet do not respond with more than 3 - 4 sentences. Do not use your own name in your responses! We know who is talking at each turn! Add extra information to the debate if you think it is pertinant - YOU NEED TO KEEP BOTH PEOPLE ON TOPIC!"
    );
    let debate: Debate<u8> = AiChatSystem::setup("a longer topic".to_string());
    assert_eq!(
        debate.nn.system_prompt.unwrap(),
        format!("{}a longer topic{}", FOR_OPENING, FOR_CLOSING)
    );
    assert_eq!(
        debate.pp.system_prompt.unwrap(),
        format!("{}a longer topic{}", AGAINST_OPENING, AGAINST_CLOSING)
    );
    assert_eq!(
        debate.m.system_prompt.unwrap(),
        format!("{}a longer topic{}", MODERATOR_OPENING, MODERATOR_CLOSING)
    );
}

#[test]
fn the_text_of_a_reply_is_the_content_of_its_first_choice() {
    assert_eq!(AiChatSystem::reply_content(&reply("I agree.")), Some("I agree.".to_string()));
    let two = parse(
        r#"{"choices": [
            {"message": {"content": "first"}},
            {"message": {"content": "second"}}
        ]}"#,
    );
    assert_eq!(AiChatSystem::reply_content(&two), Some("first".to_string()));
    let empty = parse(r#"{"choices": [{"message": {"content": ""}}]}"#);
    assert_eq!(AiChatSystem::reply_content(&empty), Some(String::new()));
}

#[test]
fn a_reply_of_another_shape_has_no_text() {
    for body in [
        r#"null"#,
        r#""choices""#,
        r#"[]"#,
        r#"{}"#,
        r#"{"error": {"message": "no"}}"#,
        r#"{"choices": null}"#,
        r#"{"choices": []}"#,
        r#"{"choices": {"0": {"message": {"content": "x"}}}}"#,
        r#"{"choices": ["x"]}"#,
        r#"{"choices": [{}]}"#,
        r#"{"choices": [{"message": "x"}]}"#,
        r#"{"choices": [{"message": {}}]}"#,
        r#"{"choices": [{"message": {"content": null}}]}"#,
        r#"{"choices": [{"message": {"content": 7}}]}"#,
        r#"{"choices": [{"message": {"content": ["x"]}}]}"#,
        r#"{"choices": [{"message": [{"content": "x"}]}]}"#,
    ] {
        assert_eq!(AiChatSystem::reply_content(&parse(body)), None);
    }
}

#[test]
fn a_request_renders_a_conversation_that_ends_with_a_received_message() {
    let conv = conversation(vec![received(AiChatRoles::Moderator, AiChatRoles::For, "Topic X")]);
    let body = AiChatSystem::request(&conv, "sys".to_string()).unwrap();
    assert_eq!(body, conv.format_for_oai("sys".to_string()));
    assert_eq!(
        body,
        parse(
            r#"{"model": "gpt-4-1106-preview", "messages": [
                {"role": "system", "content": "sys"},
                {"role": "user", "content": "Topic X", "name": "Moderator"}
            ]}"#
        )
    );
}

#[test]
fn there_is_no_request_without_a_message_to_answer() {
    assert!(AiChatSystem::request(&conversation(Vec::new()), "sys".to_string()).is_none());
    let conv = conversation(vec![
        received(AiChatRoles::Moderator, AiChatRoles::For, "q"),
        sent(AiChatRoles::For, AiChatRoles::Moderator, "a"),
    ]);
    assert!(AiChatSystem::request(&conv, "sys".to_string()).is_none());
}

#[test]
fn a_participant_answers_the_moderator() {
    let conv = conversation(vec![received(AiChatRoles::Moderator, AiChatRoles::For, "q")]);
    let response =
        AiChatSystem::nn_moderator_callback(AiChatRoles::For, &conv, &reply("pro")).unwrap();
    assert_eq!(response.to, AiChatRoles::Moderator);
    assert_eq!(response.msg, "pro");
    let conv = conversation(vec![received(AiChatRoles::Moderator, AiChatRoles::Against, "q")]);
    let response =
        AiChatSystem::pp_moderator_callback(AiChatRoles::Against, &conv, &reply("contra")).unwrap();
    assert_eq!(response.to, AiChatRoles::Moderator);
    assert_eq!(response.msg, "contra");
}

#[test]
fn a_participant_has_no_answer_without_question_or_reply() {
    let asked = conversation(vec![received(AiChatRoles::Moderator, AiChatRoles::For, "q")]);
    let answered = conversation(vec![
        received(AiChatRoles::Moderator, AiChatRoles::For, "q"),
        sent(AiChatRoles::For, AiChatRoles::Moderator, "a"),
    ]);
    let nothing = conversation(Vec::new());
    let broken = parse(r#"{"choices": []}"#);
    assert!(AiChatSystem::nn_moderator_callback(AiChatRoles::For, &asked, &broken).is_none());
    assert!(
        AiChatSystem::nn_moderator_callback(AiChatRoles::For, &answered, &reply("x")).is_none()
    );
    assert!(AiChatSystem::nn_moderator_callback(AiChatRoles::For, &nothing, &reply("x")).is_none());
    assert!(AiChatSystem::pp_moderator_callback(AiChatRoles::Against, &asked, &broken).is_none());
    assert!(
        AiChatSystem::pp_moderator_callback(AiChatRoles::Against, &answered, &reply("x")).is_none()
    );
    assert!(
        AiChatSystem::pp_moderator_callback(AiChatRoles::Against, &nothing, &reply("x")).is_none()
    );
}

#[test]
fn the_moderator_turns_to_the_other_participant() {
    let conv = conversation(vec![received(AiChatRoles::For, AiChatRoles::Moderator, "pro")]);
    let response =
        AiChatSystem::moderator_callback(AiChatRoles::Moderator, &conv, &reply("and you?"))
            .unwrap();
    assert_eq!(response.to, AiChatRoles::Against);
    assert_eq!(response.msg, "and you?");
    let conv = conversation(vec![
        sent(AiChatRoles::Moderator, AiChatRoles::Against, "and you?"),
        received(AiChatRoles::Against, AiChatRoles::Moderator, "contra"),
    ]);
    let response =
        AiChatSystem::moderator_callback(AiChatRoles::Moderator, &conv, &reply("well?")).unwrap();
    assert_eq!(response.to, AiChatRoles::For);
    assert_eq!(response.msg, "well?");
}

#[test]
fn the_moderator_has_no_answer_for_itself_or_without_reply() {
    let own = conversation(vec![received(AiChatRoles::Moderator, AiChatRoles::Moderator, "echo")]);
    assert!(
        AiChatSystem::moderator_callback(AiChatRoles::Moderator, &own, &reply("x")).is_none()
    );
    let asked = conversation(vec![received(AiChatRoles::For, AiChatRoles::Moderator, "pro")]);
    assert!(
        AiChatSystem::moderator_callback(AiChatRoles::Moderator, &asked, &parse("{}")).is_none()
    );
    let answered = conversation(vec![sent(AiChatRoles::Moderator, AiChatRoles::For, "q")]);
    assert!(
        AiChatSystem::moderator_callback(AiChatRoles::Moderator, &answered, &reply("x")).is_none()
    );
    assert!(AiChatSystem::moderator_callback(
        AiChatRoles::Moderator,
        &conversation(Vec::new()),
        &reply("x")
    )
    .is_none());
}

#[test]
fn the_directory_of_a_debate_knows_all_three_agents() {
    let debate: Debate<&str> = AiChatSystem::setup("T".to_string());
    let directory = debate.directory("inbox for", "inbox against", "inbox moderator");
    let (agent, addr) = directory.get(AiChatRoles::For).unwrap();
    assert_eq!((agent.id, agent.role, *addr), (1, AiChatRoles::For, "inbox for"));
    assert_eq!(agent.system_prompt, debate.nn.system_prompt);
    let (agent, addr) = directory.get(AiChatRoles::Against).unwrap();
    assert_eq!((agent.id, agent.role, *addr), (2, AiChatRoles::Against, "inbox against"));
    assert_eq!(agent.typ, AgentType::Assistant);
    let (agent, addr) = directory.get(AiChatRoles::Moderator).unwrap();
    assert_eq!((agent.id, agent.role, *addr), (3, AiChatRoles::Moderator, "inbox moderator"));
    assert_eq!(agent.typ, AgentType::Proxy);
    assert_eq!(agent.max_auto_responses, Some(10));
}

#[test]
fn a_debate_ends_with_the_tenth_response_of_the_moderator() {
    let debate: Debate<usize> = AiChatSystem::setup("T".to_string());
    let directory = debate.directory(0, 1, 2);
    let Debate { nn, pp, m, seed } = debate;
    let mut agents = [nn, pp, m];
    for agent in agents.iter_mut() {
        agent.update_peers(agentz::registry::UpdatePeers { peers: directory.clone() });
    }

    let mut inbox = directory.get(seed.to).unwrap().1;
    let mut message = seed;
    let mut route: Vec<(AiChatRoles, AiChatRoles, String)> = Vec::new();
    let mut stops = 0;
    for turn in 0..100 {
        let agent = &mut agents[inbox];
        let mut progress = agent.receive(message);
        let (handled, candidate) = loop {
            match progress {
                agentz::dispatch::Progress::Invoke(invocation) => {
                    let conv = invocation.conversation();
                    let prompt = invocation.system_prompt().clone();
                    assert!(AiChatSystem::request(conv, prompt).is_some());
                    let model = reply(&format!("turn {}", turn));
                    let answer = match invocation.handler() {
                        AiChatCallback::NnModerator => {
                            AiChatSystem::nn_moderator_callback(invocation.role(), conv, &model)
                        }
                        AiChatCallback::PpModerator => {
                            AiChatSystem::pp_moderator_callback(invocation.role(), conv, &model)
                        }
                        AiChatCallback::Moderator => {
                            AiChatSystem::moderator_callback(invocation.role(), conv, &model)
                        }
                    };
                    progress = invocation.advance(answer);
                }
                agentz::dispatch::Progress::Done { message, candidate } => {
                    break (message, candidate)
                }
            }
        };
        let delivery = agent.respond(&handled, candidate).unwrap();
        assert_eq!(delivery.message.conv_id, 1);
        route.push((delivery.message.from, delivery.message.to, delivery.message.msg.clone()));
        if delivery.stop {
            stops += 1;
            break;
        }
        inbox = directory.get(delivery.message.to).unwrap().1;
        message = delivery.message;
    }

    assert_eq!(stops, 1);
    assert_eq!(agents[2].response_count, 10);
    assert_eq!(agents[0].response_count, 5);
    assert_eq!(agents[1].response_count, 5);
    assert_eq!(route.len(), 20);
    assert_eq!(route[0], (AiChatRoles::For, AiChatRoles::Moderator, "turn 0".to_string()));
    assert_eq!(route[1], (AiChatRoles::Moderator, AiChatRoles::Against, "turn 1".to_string()));
    assert_eq!(route[2], (AiChatRoles::Against, AiChatRoles::Moderator, "turn 2".to_string()));
    assert_eq!(route[3], (AiChatRoles::Moderator, AiChatRoles::For, "turn 3".to_string()));
    assert_eq!(route[19], (AiChatRoles::Moderator, AiChatRoles::For, "turn 19".to_string()));
}
