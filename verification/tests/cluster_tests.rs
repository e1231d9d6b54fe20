//! A three-node cluster, fully connected and fully replicated, driven to
//! quiescence by hand: every action a node asks for is performed before
//! the next client command arrives.

use sphagnumdb::commands::{Command, CommandResult, GenericCommand, StringCommand};
use sphagnumdb::peer::PeerId;
use sphagnumdb::req_resp_codec::SphagnumRequest;
use sphagnumdb::sphagnum::{NodeAction, NodeEvent, SphagnumNode};

fn peer(name: &str) -> PeerId {
    PeerId::new(name.to_string())
}

fn cluster() -> Vec<SphagnumNode> {
    let names = ["sp1", "sp2", "sp3"];
    let mut nodes: Vec<SphagnumNode> = Vec::new();
    for name in names {
        let mut node = SphagnumNode::new(peer(name));
        for other in names {
            if other != name {
                node.handle_event(NodeEvent::ConnectionEstablished { peer: peer(other) });
                node.add_to_replica_set(peer(other));
            }
        }
        nodes.push(node);
    }
    nodes
}

fn index_of(nodes: &[SphagnumNode], id: &str) -> usize {
    nodes
        .iter()
        .position(|n| n.peer_id().id == id)
        .expect("unknown peer")
}

/// Sends a client-originated command to the named node, then performs
/// every replication request the node asks for, checking that replicas
/// answer without fanning out further. Returns the response payload the
/// client would see.
fn dispatch(nodes: &mut Vec<SphagnumNode>, to: &str, command: Command) -> String {
    let sender = peer("client");
    let target = index_of(nodes, to);
    let actions = nodes[target].handle_event(NodeEvent::InboundRequest {
        peer: sender,
        request: SphagnumRequest {
            command,
            payload: String::new(),
            is_replication: false,
        },
    });
    let mut payload: Option<String> = None;
    for action in actions {
        match action {
            NodeAction::SendRequest { target, request } => {
                assert!(request.is_replication);
                let replica = index_of(nodes, &target.id);
                let replica_actions = nodes[replica].handle_event(NodeEvent::InboundRequest {
                    peer: peer(to),
                    request,
                });
                assert_eq!(replica_actions.len(), 1, "a replica must not fan out");
                assert!(matches!(
                    &replica_actions[0],
                    NodeAction::SendResponse { .. }
                ));
            }
            NodeAction::SendResponse { response } => payload = Some(response.payload),
            NodeAction::LogPing { .. } => panic!("no ping was delivered"),
        }
    }
    payload.expect("every request is answered")
}

fn get_on(nodes: &mut Vec<SphagnumNode>, on: &str, key: &str) -> CommandResult {
    let i = index_of(nodes, on);
    nodes[i]
        .handle_command(Command::String(StringCommand::Get {
            key: key.to_string(),
        }))
        .unwrap()
}

fn exists_on(nodes: &mut Vec<SphagnumNode>, on: &str, keys: &[&str]) -> CommandResult {
    let i = index_of(nodes, on);
    nodes[i]
        .handle_command(Command::Generic(GenericCommand::Exists {
            keys: keys.iter().map(|k| k.to_string()).collect(),
        }))
        .unwrap()
}

#[test]
fn test_set_replicates_to_all_nodes() {
    let mut nodes = cluster();
    let payload = dispatch(
        &mut nodes,
        "sp1",
        Command::String(StringCommand::Put {
            key: "k".to_string(),
            value: "v".to_string(),
        }),
    );
    assert_eq!(payload, "OK");
    for on in ["sp1", "sp2", "sp3"] {
        assert_eq!(
            get_on(&mut nodes, on, "k"),
            CommandResult::String("v".to_string())
        );
        assert_eq!(exists_on(&mut nodes, on, &["k"]), CommandResult::Int(1));
    }
}

#[test]
fn test_append_replicates_and_reports_length() {
    let mut nodes = cluster();
    dispatch(
        &mut nodes,
        "sp1",
        Command::String(StringCommand::Put {
            key: "k".to_string(),
            value: "v".to_string(),
        }),
    );
    let payload = dispatch(
        &mut nodes,
        "sp2",
        Command::String(StringCommand::Append {
            key: "k".to_string(),
            value: "w".to_string(),
        }),
    );
    assert_eq!(payload, "2");
    for on in ["sp1", "sp2", "sp3"] {
        assert_eq!(
            get_on(&mut nodes, on, "k"),
            CommandResult::String("vw".to_string())
        );
    }
}

#[test]
fn test_delete_replicates_to_all_nodes() {
    let mut nodes = cluster();
    dispatch(
        &mut nodes,
        "sp1",
        Command::String(StringCommand::Put {
            key: "k".to_string(),
            value: "v".to_string(),
        }),
    );
    let payload = dispatch(
        &mut nodes,
        "sp2",
        Command::Generic(GenericCommand::Delete {
            keys: vec!["k".to_string()],
        }),
    );
    assert_eq!(payload, "1");
    for on in ["sp1", "sp2", "sp3"] {
        assert_eq!(get_on(&mut nodes, on, "k"), CommandResult::Nil);
        assert_eq!(exists_on(&mut nodes, on, &["k"]), CommandResult::Int(0));
    }
}

#[test]
fn test_cluster_set_append_delete_round() {
    // One full round through different entry nodes: a Set through sp2,
    // an Append through sp1, a Delete through sp3.
    let mut nodes = cluster();

    dispatch(
        &mut nodes,
        "sp2",
        Command::String(StringCommand::Put {
            key: "key".to_string(),
            value: "value".to_string(),
        }),
    );
    for on in ["sp1", "sp2", "sp3"] {
        assert_eq!(
            get_on(&mut nodes, on, "key"),
            CommandResult::String("value".to_string())
        );
    }

    dispatch(
        &mut nodes,
        "sp1",
        Command::String(StringCommand::Append {
            key: "key".to_string(),
            value: "appended_part".to_string(),
        }),
    );
    for on in ["sp1", "sp2", "sp3"] {
        assert_eq!(
            get_on(&mut nodes, on, "key"),
            CommandResult::String("valueappended_part".to_string())
        );
    }

    dispatch(
        &mut nodes,
        "sp3",
        Command::Generic(GenericCommand::Delete {
            keys: vec!["key".to_string()],
        }),
    );
    for on in ["sp1", "sp2", "sp3"] {
        assert_eq!(get_on(&mut nodes, on, "key"), CommandResult::Nil);
        assert_eq!(exists_on(&mut nodes, on, &["key"]), CommandResult::Int(0));
    }
}
