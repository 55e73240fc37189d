use agentz::actors::{AgentSnapshot, AgentType};
use agentz::ai_chat_system::AiChatRoles;
use agentz::registry::PeerRegistry;

fn snapshot(id: usize, role: AiChatRoles) -> AgentSnapshot<AiChatRoles> {
    AgentSnapshot {
        id,
        typ: AgentType::Assistant,
        role,
        max_auto_responses: None,
        system_prompt: Some(format!("prompt {}", id)),
    }
}

#[test]
fn a_new_directory_knows_nobody() {
    let directory: PeerRegistry<AiChatRoles, String> = PeerRegistry::new();
    assert!(directory.get(AiChatRoles::For).is_none());
    assert!(directory.get(AiChatRoles::Against).is_none());
    assert!(directory.get(AiChatRoles::Moderator).is_none());
    let directory: PeerRegistry<AiChatRoles, String> = PeerRegistry::default();
    assert!(directory.get(AiChatRoles::For).is_none());
}

#[test]
fn a_registered_peer_is_found_under_its_role() {
    let mut directory: PeerRegistry<AiChatRoles, String> = PeerRegistry::new();
    directory.register(AiChatRoles::For, snapshot(1, AiChatRoles::For), "inbox-1".to_string());
    directory.register(
        AiChatRoles::Moderator,
        snapshot(3, AiChatRoles::Moderator),
        "inbox-3".to_string(),
    );
    let (agent, addr) = directory.get(AiChatRoles::For).unwrap();
    assert_eq!(agent.id, 1);
    assert_eq!(agent.role, AiChatRoles::For);
    assert_eq!(addr, "inbox-1");
    let (agent, addr) = directory.get(AiChatRoles::Moderator).unwrap();
    assert_eq!(agent.id, 3);
    assert_eq!(addr, "inbox-3");
    assert!(directory.get(AiChatRoles::Against).is_none());
}

#[test]
fn registering_a_role_again_replaces_its_peer() {
    let mut directory: PeerRegistry<AiChatRoles, u32> = PeerRegistry::new();
    directory.register(AiChatRoles::For, snapshot(1, AiChatRoles::For), 100);
    directory.register(AiChatRoles::Against, snapshot(2, AiChatRoles::Against), 200);
    directory.register(AiChatRoles::For, snapshot(9, AiChatRoles::For), 900);
    let (agent, addr) = directory.get(AiChatRoles::For).unwrap();
    assert_eq!(agent.id, 9);
    assert_eq!(*addr, 900);
    let (agent, addr) = directory.get(AiChatRoles::Against).unwrap();
    assert_eq!(agent.id, 2);
    assert_eq!(*addr, 200);
}

#[test]
fn a_copied_directory_knows_the_same_peers() {
    let mut directory: PeerRegistry<AiChatRoles, String> = PeerRegistry::new();
    directory.register(AiChatRoles::For, snapshot(1, AiChatRoles::For), "a".to_string());
    directory.register(AiChatRoles::Against, snapshot(2, AiChatRoles::Against), "b".to_string());
    let mut copy = directory.clone();
    assert_eq!(copy.get(AiChatRoles::For).unwrap().1, "a");
    assert_eq!(copy.get(AiChatRoles::For).unwrap().0.system_prompt, Some("prompt 1".to_string()));
    assert_eq!(copy.get(AiChatRoles::Against).unwrap().1, "b");
    assert!(copy.get(AiChatRoles::Moderator).is_none());
    copy.register(AiChatRoles::Moderator, snapshot(3, AiChatRoles::Moderator), "c".to_string());
    assert!(directory.get(AiChatRoles::Moderator).is_none());
}
