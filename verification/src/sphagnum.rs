//! The node runtime: one node's state and the decisions its event loop
//! makes. The transport delivers events as plain values; the node applies
//! commands to its engine, keeps its peer sets, and answers with the
//! actions to perform: responses to send and replication requests to fan
//! out.

use vstd::prelude::*;

use crate::commands::{
    is_mutating, Command, CommandResult, CommandView, GenericCommand, GenericCommandView,
    ResultView, StringCommand, StringCommandView,
};
use crate::data_storage::{DataStorage, DataStorageError};
use crate::model::{command_post, command_result, render};
use crate::passport::Passport;
use crate::peer::PeerId;
use crate::render::render_result;
use crate::req_resp_codec::{SphagnumRequest, SphagnumResponse};

verus! {

/// The mathematical state of a node: its keyspace, its peer sets (as sets
/// of peer identities), its own identity, and its two local toggles.
pub struct NodeView {
    pub keyspace: Map<Seq<char>, Seq<char>>,
    pub connected: Set<Seq<char>>,
    pub replicas: Set<Seq<char>>,
    pub peer: Seq<char>,
    pub verbose: bool,
    pub passport_field: Seq<char>,
}

/// A transport event, reduced to what the node's decisions depend on.
/// Listen-address notices, dialing notices, inbound responses, sent
/// acknowledgments and failures are log-only and arrive as `Other`.
#[derive(Debug)]
pub enum NodeEvent {
    ConnectionEstablished { peer: PeerId },
    ConnectionClosed { peer: PeerId },
    Ping { peer: PeerId },
    InboundRequest { peer: PeerId, request: SphagnumRequest },
    Other,
}

/// What the surrounding event loop must do after an event is processed:
/// answer the request that was just handled, send a request to a peer, or
/// log a liveness ping.
#[derive(Debug)]
pub enum NodeAction {
    SendResponse { response: SphagnumResponse },
    SendRequest { target: PeerId, request: SphagnumRequest },
    LogPing { peer: PeerId },
}

/// A node: the exclusive owner of one keyspace replica, its passport, and
/// its view of the cluster.
pub struct SphagnumNode {
    data_storage: DataStorage,
    passport: Passport,
    local_peer_id: PeerId,
    connected_peers: Vec<PeerId>,
    is_pinging_output_enabled: bool,
    replica_set: Vec<PeerId>,
}

/// The identities of a peer list, in order.
pub open spec fn peer_views(s: Seq<PeerId>) -> Seq<Seq<char>> {
    s.map_values(|p: PeerId| p@)
}

/// The peers a client-originated mutation fans out to: the replica set,
/// restricted to currently connected peers, excluding the node itself.
pub open spec fn fanout_targets(v: NodeView) -> Set<Seq<char>> {
    v.replicas.intersect(v.connected).remove(v.peer)
}

/// Whether handling a request triggers replication: only a mutating
/// command, and only on its first hop.
pub open spec fn should_fan_out(v: NodeView, request: SphagnumRequest) -> bool {
    is_mutating(request.command@) && !request.is_replication
}

impl View for SphagnumNode {
    type V = NodeView;

    closed spec fn view(&self) -> NodeView {
        NodeView {
            keyspace: self.data_storage@,
            connected: peer_views(self.connected_peers@).to_set(),
            replicas: peer_views(self.replica_set@).to_set(),
            peer: self.local_peer_id@,
            verbose: self.is_pinging_output_enabled,
            passport_field: self.passport.field@,
        }
    }
}

impl SphagnumNode {
    /// Both peer lists name each peer at most once, so that fan-out sends
    /// to each replica exactly once.
    pub closed spec fn wf(&self) -> bool {
        peer_views(self.connected_peers@).no_duplicates() && peer_views(
            self.replica_set@,
        ).no_duplicates()
    }

    /// Creates a node around the given transport identity: an empty
    /// keyspace, a default passport, no connected peers, no replicas, and
    /// ping logging off.
    pub fn new(local_peer_id: PeerId) -> (node: SphagnumNode)
        ensures
            node.wf(),
            node@ == (NodeView {
                keyspace: Map::<Seq<char>, Seq<char>>::empty(),
                connected: Set::<Seq<char>>::empty(),
                replicas: Set::<Seq<char>>::empty(),
                peer: local_peer_id@,
                verbose: false,
                passport_field: "lawn"@,
            }),
    {
        let data_storage = match DataStorage::new() {
            Ok(d) => d,
            Err(_) => vstd::pervasive::unreached(),
        };
        let passport = match Passport::new() {
            Ok(p) => p,
            Err(_) => vstd::pervasive::unreached(),
        };
        let node = SphagnumNode {
            data_storage,
            passport,
            local_peer_id,
            connected_peers: Vec::new(),
            is_pinging_output_enabled: false,
            replica_set: Vec::new(),
        };
        proof {
            assert(peer_views(node.connected_peers@) =~= Seq::<Seq<char>>::empty());
            assert(peer_views(node.replica_set@) =~= Seq::<Seq<char>>::empty());
            assert(node@.connected =~= Set::<Seq<char>>::empty());
            assert(node@.replicas =~= Set::<Seq<char>>::empty());
        }
        node
    }

    /// This node's stable identity.
    pub fn peer_id(&self) -> (peer: PeerId)
        ensures
            peer@ == self@.peer,
    {
        self.local_peer_id.duplicate()
    }

    /// The node's passport.
    pub fn get_passport(&self) -> (passport: &Passport)
        ensures
            passport.field@ == self@.passport_field,
    {
        &self.passport
    }

    /// Whether liveness pings are logged.
    pub fn pinging_output_enabled(&self) -> (r: bool)
        ensures
            r == self@.verbose,
    {
        self.is_pinging_output_enabled
    }

    /// Turns ping logging on.
    pub fn enable_pinging_output(&mut self)
        requires
            old(self).wf(),
        ensures
            final(self).wf(),
            final(self)@ == (NodeView { verbose: true, ..old(self)@ }),
    {
        if !self.is_pinging_output_enabled {
            self.is_pinging_output_enabled = true;
        }
    }

    /// Turns ping logging off.
    pub fn disable_pinging_output(&mut self)
        requires
            old(self).wf(),
        ensures
            final(self).wf(),
            final(self)@ == (NodeView { verbose: false, ..old(self)@ }),
    {
        if self.is_pinging_output_enabled {
            self.is_pinging_output_enabled = false;
        }
    }

    /// Inserts a peer into the replica set; inserting a peer already
    /// there changes nothing. No check is made that the peer is
    /// reachable.
    pub fn add_to_replica_set(&mut self, peer_id: PeerId)
        requires
            old(self).wf(),
        ensures
            final(self).wf(),
            final(self)@ == (NodeView { replicas: old(self)@.replicas.insert(peer_id@), ..old(
                self,
            )@ }),
    {
        if !contains_peer(&self.replica_set, &peer_id) {
            let ghost before = peer_views(self.replica_set@);
            let ghost pv = peer_id@;
            self.replica_set.push(peer_id);
            proof {
                assert(peer_views(self.replica_set@) =~= before.push(pv));
                lemma_views_push(before, pv);
                assert(self@.replicas =~= old(self)@.replicas.insert(pv));
            }
        } else {
            proof {
                assert(self@.replicas =~= old(self)@.replicas.insert(peer_id@));
            }
        }
    }

    /// Applies a command to the local engine, bypassing replication.
    pub fn handle_command(&mut self, command: Command) -> (result: Result<
        CommandResult,
        DataStorageError,
    >)
        requires
            old(self).wf(),
        ensures
            final(self).wf(),
            final(self)@ == (NodeView { keyspace: command_post(old(self)@.keyspace, command@), ..old(
                self,
            )@ }),
            (result matches Ok(r) && r@ == command_result(old(self)@.keyspace, command@)),
    {
        self.data_storage.handle_command(command)
    }

    /// The first connected peer, when any is connected: where the
    /// operator shell directs its requests.
    pub fn first_connected_peer(&self) -> (peer: Option<PeerId>)
        ensures
            (peer matches Some(p) ==> self@.connected.contains(p@)),
            (peer is None <==> self@.connected =~= Set::<Seq<char>>::empty()),
    {
        if self.connected_peers.len() > 0 {
            let p = self.connected_peers[0].duplicate();
            proof {
                assert(peer_views(self.connected_peers@)[0] == p@);
                assert(peer_views(self.connected_peers@).to_set().contains(p@));
            }
            Some(p)
        } else {
            proof {
                assert(peer_views(self.connected_peers@) =~= Seq::<Seq<char>>::empty());
                assert(self@.connected =~= Set::<Seq<char>>::empty());
            }
            None
        }
    }

    /// The peers a mutation handled now would be fanned out to: every
    /// replica currently connected, excluding this node, each exactly
    /// once.
    fn replication_targets(&self) -> (targets: Vec<PeerId>)
        requires
            self.wf(),
        ensures
            peer_views(targets@).no_duplicates(),
            peer_views(targets@).to_set() == fanout_targets(self@),
    {
        let mut targets: Vec<PeerId> = Vec::new();
        let mut i: usize = 0;
        while i < self.replica_set.len()
            invariant
                self.wf(),
                i <= self.replica_set.len(),
                peer_views(targets@).no_duplicates(),
                peer_views(targets@).to_set() =~= peer_views(
                    self.replica_set@.take(i as int),
                ).to_set().intersect(self@.connected).remove(self@.peer),
            decreases self.replica_set.len() - i,
        {
            let ghost prefix = self.replica_set@.take(i as int);
            let ghost pv = self.replica_set@[i as int]@;
            proof {
                assert(self.replica_set@.take(i as int + 1) =~= prefix.push(
                    self.replica_set@[i as int],
                ));
                assert(peer_views(prefix.push(self.replica_set@[i as int])) =~= peer_views(
                    prefix,
                ).push(pv));
                lemma_views_push(peer_views(prefix), pv);
                lemma_prefix_fresh(self.replica_set@, i as int);
            }
            let p = &self.replica_set[i];
            if !p.equals(&self.local_peer_id) && contains_peer(&self.connected_peers, p) {
                proof {
                    lemma_views_push(peer_views(targets@), pv);
                }
                let ghost targets_before = peer_views(targets@);
                targets.push(p.duplicate());
                proof {
                    assert(peer_views(targets@) =~= targets_before.push(pv));
                }
            }
            proof {
                assert(peer_views(targets@).to_set() =~= peer_views(
                    self.replica_set@.take(i as int + 1),
                ).to_set().intersect(self@.connected).remove(self@.peer));
            }
            i += 1;
        }
        proof {
            assert(self.replica_set@.take(self.replica_set@.len() as int) =~= self.replica_set@);
        }
        targets
    }

    /// Waits on no transport here: processes one already-received
    /// transport event and returns the actions the event loop must
    /// perform. Connection events keep the connected set current; a ping
    /// is logged only when verbose; an inbound request is applied to the
    /// engine, answered with the rendered result, and — exactly when its
    /// command is mutating and it is not itself replication traffic —
    /// fanned out once to every connected replica, with the replication
    /// flag set so that no replica amplifies it further.
    pub fn handle_event(&mut self, event: NodeEvent) -> (actions: Vec<NodeAction>)
        requires
            old(self).wf(),
        ensures
            final(self).wf(),
            (match event {
                NodeEvent::ConnectionEstablished { peer } => final(self)@ == (NodeView {
                    connected: old(self)@.connected.insert(peer@),
                    ..old(self)@
                }) && actions@.len() == 0,
                NodeEvent::ConnectionClosed { peer } => final(self)@ == (NodeView {
                    connected: old(self)@.connected.remove(peer@),
                    ..old(self)@
                }) && actions@.len() == 0,
                NodeEvent::Ping { peer } => final(self)@ == old(self)@ && (if old(self)@.verbose {
                    actions@.len() == 1 && (actions@[0] matches NodeAction::LogPing { peer: q }
                        && q@ == peer@)
                } else {
                    actions@.len() == 0
                }),
                NodeEvent::Other => final(self)@ == old(self)@ && actions@.len() == 0,
                NodeEvent::InboundRequest { peer: _, request } => ({
                    let fan = if should_fan_out(old(self)@, request) {
                        fanout_targets(old(self)@)
                    } else {
                        Set::<Seq<char>>::empty()
                    };
                    let n = actions@.len() - 1;
                    &&& final(self)@ == (NodeView {
                        keyspace: command_post(old(self)@.keyspace, request.command@),
                        ..old(self)@
                    })
                    &&& actions@.len() >= 1
                    &&& (actions@.last() matches NodeAction::SendResponse { response }
                        && response.payload@ == render(
                        command_result(old(self)@.keyspace, request.command@),
                    ))
                    &&& forall|j: int|
                        0 <= j < n ==> ((#[trigger] actions@[j]) matches NodeAction::SendRequest {
                            target,
                            request: fr,
                        } && fr.command@ == request.command@ && fr.is_replication && fr.payload@
                            == Seq::<char>::empty() && fan.contains(target@))
                    &&& request_targets(actions@.take(n)).no_duplicates()
                    &&& request_targets(actions@.take(n)).to_set() == fan
                    &&& (!should_fan_out(old(self)@, request) ==> n == 0)
                }),
            }),
    {
        match event {
            NodeEvent::ConnectionEstablished { peer } => {
                if !contains_peer(&self.connected_peers, &peer) {
                    let ghost before = peer_views(self.connected_peers@);
                    let ghost pv = peer@;
                    self.connected_peers.push(peer);
                    proof {
                        assert(peer_views(self.connected_peers@) =~= before.push(pv));
                        lemma_views_push(before, pv);
                        assert(self@.connected =~= old(self)@.connected.insert(pv));
                    }
                } else {
                    proof {
                        assert(self@.connected =~= old(self)@.connected.insert(peer@));
                    }
                }
                Vec::new()
            },
            NodeEvent::ConnectionClosed { peer } => {
                let kept = without_peer(&self.connected_peers, &peer);
                self.connected_peers = kept;
                Vec::new()
            },
            NodeEvent::Ping { peer } => {
                let mut actions: Vec<NodeAction> = Vec::new();
                if self.is_pinging_output_enabled {
                    actions.push(NodeAction::LogPing { peer });
                }
                actions
            },
            NodeEvent::Other => Vec::new(),
            NodeEvent::InboundRequest { peer: _, request } => {
                let SphagnumRequest { command, payload: _reserved, is_replication } = request;
                let command_copy = command.duplicate();
                let replicate = is_mutating_command(&command) && !is_replication;
                let ghost m0 = self@.keyspace;
                let result = match self.data_storage.handle_command(command) {
                    Ok(r) => r,
                    Err(_) => vstd::pervasive::unreached(),
                };
                proof {
                    lemma_result_kind_expected(m0, command_copy@);
                }
                let expected = is_expected_kind(&command_copy, &result);
                let mut actions: Vec<NodeAction> = Vec::new();
                if replicate && expected {
                    let targets = self.replication_targets();
                    proof {
                        assert(fanout_targets(self@) == fanout_targets(old(self)@));
                    }
                    let mut k: usize = 0;
                    while k < targets.len()
                        invariant
                            k <= targets.len(),
                            actions@.len() == k,
                            forall|j: int|
                                0 <= j < k ==> ((#[trigger] actions@[j])
                                    matches NodeAction::SendRequest { target, request: fr }
                                    && target@ == peer_views(targets@)[j] && fr.command@
                                    == command_copy@ && fr.is_replication && fr.payload@
                                    == Seq::<char>::empty()),
                        decreases targets.len() - k,
                    {
                        actions.push(
                            NodeAction::SendRequest {
                                target: targets[k].duplicate(),
                                request: SphagnumRequest {
                                    command: command_copy.duplicate(),
                                    payload: String::new(),
                                    is_replication: true,
                                },
                            },
                        );
                        k += 1;
                    }
                    proof {
                        assert(request_targets(actions@) =~= peer_views(targets@));
                    }
                }
                let payload = if expected {
                    render_result(&result)
                } else {
                    "Unexpected response".to_owned()
                };
                let ghost before_response = actions@;
                actions.push(NodeAction::SendResponse { response: SphagnumResponse { payload } });
                proof {
                    assert(actions@.take(actions@.len() - 1) =~= before_response);
                }
                actions
            },
        }
    }

    /// Builds the client-originated request that asks a peer to execute a
    /// command: the first hop, so the replication flag is off.
    pub fn send_request_to_sphagnum(&self, peer_id: PeerId, command: Command) -> (action:
        NodeAction)
        ensures
            (action matches NodeAction::SendRequest { target, request } && target@ == peer_id@
                && request.command@ == command@ && !request.is_replication && request.payload@
                == Seq::<char>::empty()),
    {
        NodeAction::SendRequest {
            target: peer_id,
            request: SphagnumRequest { command, payload: String::new(), is_replication: false },
        }
    }
}

/// The identities that a sequence of fan-out actions sends requests to.
pub open spec fn request_targets(actions: Seq<NodeAction>) -> Seq<Seq<char>> {
    actions.map_values(
        |a: NodeAction|
            match a {
                NodeAction::SendRequest { target, .. } => target@,
                _ => Seq::<char>::empty(),
            },
    )
}

/// The result kind each command is expected to produce: `Str("OK")` for
/// `Put`, a string or `Nil` for `Get`, and an integer for the rest. The
/// engine always produces the expected kind; the runtime still checks,
/// and would suppress fan-out and answer `Unexpected response` otherwise.
pub open spec fn expected_kind(c: CommandView, r: ResultView) -> bool {
    match c {
        CommandView::String(StringCommandView::Put { .. }) => r == ResultView::Str("OK"@),
        CommandView::String(StringCommandView::Get { .. }) => r is Str || r is Nil,
        CommandView::String(StringCommandView::Append { .. }) => r is Int,
        CommandView::Generic(GenericCommandView::Exists { .. }) => r is Int,
        CommandView::Generic(GenericCommandView::Delete { .. }) => r is Int,
    }
}

/// The engine's result for a command always has the expected kind.
proof fn lemma_result_kind_expected(m: Map<Seq<char>, Seq<char>>, c: CommandView)
    ensures
        expected_kind(c, command_result(m, c)),
{
}

/// Whether a command mutates the keyspace.
fn is_mutating_command(c: &Command) -> (r: bool)
    ensures
        r == is_mutating(c@),
{
    match c {
        Command::String(StringCommand::Put { .. }) => true,
        Command::String(StringCommand::Get { .. }) => false,
        Command::String(StringCommand::Append { .. }) => true,
        Command::Generic(GenericCommand::Exists { .. }) => false,
        Command::Generic(GenericCommand::Delete { .. }) => true,
    }
}

/// Whether a result has the kind the command is expected to produce.
fn is_expected_kind(command: &Command, result: &CommandResult) -> (r: bool)
    ensures
        r == expected_kind(command@, result@),
{
    match command {
        Command::String(StringCommand::Put { .. }) => match result {
            CommandResult::String(s) => s.eq(&"OK".to_owned()),
            _ => false,
        },
        Command::String(StringCommand::Get { .. }) => match result {
            CommandResult::String(_) => true,
            CommandResult::Nil => true,
            _ => false,
        },
        Command::String(StringCommand::Append { .. }) => result matches CommandResult::Int(_),
        Command::Generic(GenericCommand::Exists { .. }) => result matches CommandResult::Int(_),
        Command::Generic(GenericCommand::Delete { .. }) => result matches CommandResult::Int(_),
    }
}

/// Whether a peer list names the given peer.
fn contains_peer(peers: &Vec<PeerId>, peer: &PeerId) -> (r: bool)
    ensures
        r == peer_views(peers@).to_set().contains(peer@),
{
    let mut i: usize = 0;
    while i < peers.len()
        invariant
            i <= peers.len(),
            forall|j: int| 0 <= j < i ==> peer_views(peers@)[j] != peer@,
        decreases peers.len() - i,
    {
        if peers[i].equals(peer) {
            proof {
                assert(peer_views(peers@)[i as int] == peer@);
                assert(peer_views(peers@).to_set().contains(peer@));
            }
            return true;
        }
        i += 1;
    }
    proof {
        assert forall|j: int| 0 <= j < peer_views(peers@).len() implies peer_views(peers@)[j]
            != peer@ by {}
        assert(!peer_views(peers@).contains(peer@));
    }
    false
}

/// A copy of a peer list without one peer. The list keeps its order and
/// stays free of duplicates.
fn without_peer(peers: &Vec<PeerId>, excluded: &PeerId) -> (kept: Vec<PeerId>)
    requires
        peer_views(peers@).no_duplicates(),
    ensures
        peer_views(kept@).no_duplicates(),
        peer_views(kept@).to_set() == peer_views(peers@).to_set().remove(excluded@),
{
    let mut kept: Vec<PeerId> = Vec::new();
    let mut i: usize = 0;
    while i < peers.len()
        invariant
            i <= peers.len(),
            peer_views(peers@).no_duplicates(),
            peer_views(kept@).no_duplicates(),
            peer_views(kept@).to_set() =~= peer_views(peers@.take(i as int)).to_set().remove(
                excluded@,
            ),
        decreases peers.len() - i,
    {
        let ghost prefix = peers@.take(i as int);
        let ghost pv = peers@[i as int]@;
        proof {
            assert(peers@.take(i as int + 1) =~= prefix.push(peers@[i as int]));
            assert(peer_views(prefix.push(peers@[i as int])) =~= peer_views(prefix).push(pv));
            lemma_views_push(peer_views(prefix), pv);
            lemma_prefix_fresh(peers@, i as int);
        }
        if !peers[i].equals(excluded) {
            proof {
                lemma_views_push(peer_views(kept@), pv);
            }
            let ghost kept_before = peer_views(kept@);
            kept.push(peers[i].duplicate());
            proof {
                assert(peer_views(kept@) =~= kept_before.push(pv));
            }
        }
        proof {
            assert(peer_views(kept@).to_set() =~= peer_views(peers@.take(i as int + 1)).to_set()
                .remove(excluded@));
        }
        i += 1;
    }
    proof {
        assert(peers@.take(peers@.len() as int) =~= peers@);
    }
    kept
}

/// An identity at position `i` of a duplicate-free peer list does not
/// occur among the identities before it.
proof fn lemma_prefix_fresh(peers: Seq<PeerId>, i: int)
    requires
        peer_views(peers).no_duplicates(),
        0 <= i < peers.len(),
    ensures
        !peer_views(peers.take(i)).to_set().contains(peers[i]@),
{
    if peer_views(peers.take(i)).to_set().contains(peers[i]@) {
        let j = choose|j: int|
            0 <= j < peer_views(peers.take(i)).len() && peer_views(peers.take(i))[j] == peers[i]@;
        assert(peer_views(peers)[j] == peer_views(peers)[i]);
    }
}

/// Appending one identity to a list of identities inserts it into the
/// set they form, and keeps the list duplicate-free when it was fresh.
proof fn lemma_views_push(vs: Seq<Seq<char>>, x: Seq<char>)
    ensures
        vs.push(x).to_set() =~= vs.to_set().insert(x),
        (vs.no_duplicates() && !vs.to_set().contains(x)) ==> vs.push(x).no_duplicates(),
{
    assert forall|y: Seq<char>| vs.push(x).to_set().contains(y) implies vs.to_set().insert(
        x,
    ).contains(y) by {
        let i = choose|i: int| 0 <= i < vs.push(x).len() && vs.push(x)[i] == y;
        if i < vs.len() {
            assert(vs[i] == y);
        }
    }
    assert forall|y: Seq<char>| vs.to_set().insert(x).contains(y) implies vs.push(
        x,
    ).to_set().contains(y) by {
        if y == x {
            assert(vs.push(x)[vs.len() as int] == y);
        } else {
            let i = choose|i: int| 0 <= i < vs.len() && vs[i] == y;
            assert(vs.push(x)[i] == y);
        }
    }
    if vs.no_duplicates() && !vs.to_set().contains(x) {
        assert forall|i: int, j: int|
            0 <= i < vs.push(x).len() && 0 <= j < vs.push(x).len() && i != j implies vs.push(x)[i]
            != vs.push(x)[j] by {
            if i < vs.len() && j < vs.len() {
            } else if i < vs.len() {
                assert(vs.to_set().contains(vs[i]));
            } else if j < vs.len() {
                assert(vs.to_set().contains(vs[j]));
            }
        }
    }
}

} // verus!
