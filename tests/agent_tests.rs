use vm_bridge::agent::{
    agent_leg_step, directory_kind, parse_agent_directory, AgentDirError, AgentLegAction,
    AgentLegError, AgentLegEvent, AgentLegState,
};
use vm_bridge::demux::SocketVariant;

fn drop_reason(action: &AgentLegAction) -> Option<AgentLegError> {
    match action {
        AgentLegAction::Drop(e) => Some(*e),
        _ => None,
    }
}

#[test]
fn directory_file_gives_port_and_nonce() {
    let e = parse_agent_directory(b"1234\nNONCE").unwrap();
    assert_eq!(e.port, 1234);
    assert_eq!(e.nonce, b"NONCE".to_vec());
    let e = parse_agent_directory(b"65535\n\x00\nab\n").unwrap();
    assert_eq!(e.port, 65535);
    assert_eq!(e.nonce, b"\x00\nab\n".to_vec());
    let e = parse_agent_directory(b"80\n").unwrap();
    assert_eq!(e.port, 80);
    assert!(e.nonce.is_empty());
}

#[test]
fn directory_file_without_newline_is_rejected() {
    assert_eq!(parse_agent_directory(b"1234NONCE").unwrap_err(), AgentDirError::MissingNewline);
    assert_eq!(parse_agent_directory(b"").unwrap_err(), AgentDirError::MissingNewline);
}

#[test]
fn directory_file_with_bad_port_is_rejected() {
    assert_eq!(parse_agent_directory(b"12a4\nN").unwrap_err(), AgentDirError::InvalidPort);
    assert_eq!(parse_agent_directory(b"65536\nN").unwrap_err(), AgentDirError::InvalidPort);
    assert_eq!(parse_agent_directory(b"\nN").unwrap_err(), AgentDirError::InvalidPort);
    assert_eq!(parse_agent_directory(b" 1234\nN").unwrap_err(), AgentDirError::InvalidPort);
    assert_eq!(parse_agent_directory(b"\xff\xfe\nN").unwrap_err(), AgentDirError::InvalidPort);
}

#[test]
fn server_leg_runs_helpers_then_connects_with_nonce() {
    let s = agent_leg_step(AgentLegState::AwaitVariant, AgentLegEvent::VariantByte(b'1'));
    assert_eq!(s.state, AgentLegState::AwaitDirectory);
    assert!(matches!(s.action, AgentLegAction::QueryDirectory(SocketVariant::Extra)));
    let s = agent_leg_step(s.state, AgentLegEvent::DirectoryQueried(true));
    assert_eq!(s.state, AgentLegState::AwaitAgent);
    assert!(matches!(s.action, AgentLegAction::EnsureAgent));
    let s = agent_leg_step(s.state, AgentLegEvent::AgentEnsured(true));
    assert_eq!(s.state, AgentLegState::AwaitDirectoryFile);
    assert!(matches!(s.action, AgentLegAction::ReadDirectoryFile));
    let s = agent_leg_step(s.state, AgentLegEvent::DirectoryFile(b"1234\nNONCE".to_vec()));
    assert_eq!(s.state, AgentLegState::Relaying);
    match s.action {
        AgentLegAction::Connect { port, nonce } => {
            assert_eq!(port, 1234);
            assert_eq!(nonce, b"NONCE".to_vec());
        }
        other => panic!("unexpected action {:?}", other),
    }
}

#[test]
fn server_leg_drops_on_missing_newline() {
    let s = agent_leg_step(AgentLegState::AwaitDirectoryFile, AgentLegEvent::DirectoryFile(b"1234".to_vec()));
    assert_eq!(s.state, AgentLegState::Closed);
    assert_eq!(drop_reason(&s.action), Some(AgentLegError::Directory(AgentDirError::MissingNewline)));
}

#[test]
fn server_leg_drops_on_failures() {
    let s = agent_leg_step(AgentLegState::AwaitVariant, AgentLegEvent::VariantByte(b'x'));
    assert_eq!(s.state, AgentLegState::Closed);
    assert_eq!(drop_reason(&s.action), Some(AgentLegError::InvalidVariant));
    let s = agent_leg_step(AgentLegState::AwaitDirectory, AgentLegEvent::DirectoryQueried(false));
    assert_eq!(drop_reason(&s.action), Some(AgentLegError::DirectoryQueryFailed));
    let s = agent_leg_step(AgentLegState::AwaitAgent, AgentLegEvent::AgentEnsured(false));
    assert_eq!(drop_reason(&s.action), Some(AgentLegError::AgentStartFailed));
    let s = agent_leg_step(AgentLegState::AwaitVariant, AgentLegEvent::AgentEnsured(true));
    assert_eq!(s.state, AgentLegState::Closed);
    assert_eq!(drop_reason(&s.action), Some(AgentLegError::UnexpectedEvent));
    let s = agent_leg_step(AgentLegState::Relaying, AgentLegEvent::VariantByte(b'0'));
    assert_eq!(drop_reason(&s.action), Some(AgentLegError::UnexpectedEvent));
}

#[test]
fn directory_kinds() {
    assert_eq!(directory_kind(SocketVariant::Default), "agent-socket");
    assert_eq!(directory_kind(SocketVariant::Extra), "agent-extra-socket");
}
