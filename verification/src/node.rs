//! What a node does about the events of its network: whom to dial first, which peers take part in
//! the chat, where they are found, and whom to send the file to.
use libp2p::multiaddr::Protocol;
use libp2p::{Multiaddr, PeerId};
use vstd::prelude::*;

verus! {

/// `libp2p::Multiaddr`: an opaque value. What it is made of goes by the name `address_parts`.
#[verifier::external_type_specification]
#[verifier::external_body]
pub struct ExMultiaddr(Multiaddr);

/// `libp2p::PeerId`: an opaque value that is only handed on.
#[verifier::external_type_specification]
#[verifier::external_body]
pub struct ExPeerId(PeerId);

/// A component of an address.
#[derive(Debug)]
pub enum AddressPart {
    /// `/p2p/<peer-id>`.
    Peer(PeerId),
    /// Any other component.
    Other,
}

/// The components that an address is made of, in order.
pub uninterp spec fn address_parts(addr: Multiaddr) -> Seq<AddressPart>;

/// `Multiaddr::iter`: hands out all the components of the address, in order. (An address is
/// checked when it is made, so that its components can always be read.)
#[verifier::external_body]
fn components(addr: &Multiaddr) -> (parts: Vec<AddressPart>)
    ensures
        parts@ == address_parts(*addr),
{
    addr.iter()
        .map(|part| match part {
            Protocol::P2p(peer) => AddressPart::Peer(peer),
            _ => AddressPart::Other,
        })
        .collect()
}

/// The peer that an address ends in, if it does.
pub open spec fn ends_in_peer(parts: Seq<AddressPart>) -> Option<PeerId> {
    if parts.len() == 0 {
        None
    } else {
        match parts.last() {
            AddressPart::Peer(peer) => Some(peer),
            AddressPart::Other => None,
        }
    }
}

/// The peer that an address with these components ends in, if it does.
pub fn last_peer(parts: &[AddressPart]) -> (peer: Option<PeerId>)
    ensures
        peer == ends_in_peer(parts@),
        match peer {
            Some(id) => parts@.len() > 0 && parts@[parts@.len() - 1] == AddressPart::Peer(id),
            None => parts@.len() == 0 || parts@[parts@.len() - 1] is Other,
        },
{
    if parts.len() == 0 {
        return None;
    }
    match &parts[parts.len() - 1] {
        AddressPart::Peer(peer) => Some(*peer),
        AddressPart::Other => None,
    }
}

/// What to do about the bootstrap address.
#[derive(Debug)]
pub enum Bootstrap {
    /// None was given.
    Skip,
    /// Add the address to the routing table under the peer, and dial it.
    Dial { peer: PeerId, addr: Multiaddr },
    /// Complain: the address does not say which peer is there.
    Refuse,
}

/// What to do about the bootstrap address: dial it, but only where it ends in `/p2p/<peer-id>`.
pub fn bootstrap(addr: Option<Multiaddr>) -> (plan: Bootstrap)
    ensures
        match addr {
            None => plan == Bootstrap::Skip,
            Some(addr) => match ends_in_peer(address_parts(addr)) {
                None => plan == Bootstrap::Refuse,
                Some(peer) => plan == (Bootstrap::Dial { peer, addr }),
            },
        },
        plan is Skip <==> addr is None,
        addr matches Some(at) ==> {
            let parts = address_parts(at);
            if parts.len() > 0 && parts[parts.len() - 1] is Peer {
                plan == (Bootstrap::Dial { peer: parts[parts.len() - 1]->Peer_0, addr: at })
            } else {
                plan is Refuse
            }
        },
{
    match addr {
        None => Bootstrap::Skip,
        Some(addr) => match last_peer(components(&addr).as_slice()) {
            None => Bootstrap::Refuse,
            Some(peer) => Bootstrap::Dial { peer, addr },
        },
    }
}

/// An event of the node, with `P` for peers and `A` for addresses.
#[derive(Debug)]
pub enum NodeEvent<P, A> {
    /// A line was typed.
    Line(String),
    /// It is time to refresh the routing table.
    BootstrapDue,
    /// The node listens on an address.
    Listening(A),
    /// Peers were found on the local network.
    Discovered(Vec<(P, A)>),
    /// Peers are gone from the local network.
    Expired(Vec<(P, A)>),
    /// A connection to a peer stands.
    Connected(P),
    /// A peer told on which addresses it listens.
    Identified { peer: P, listen_addrs: Vec<A> },
    /// The routing table has a peer in a new place.
    RoutingUpdated(P),
    /// A peer said something.
    Message { peer: P, data: Vec<u8> },
    /// Anything else.
    Other,
}

/// Something to tell the user.
#[derive(Debug)]
pub enum Notice<P, A> {
    Listening(A),
    DiscoveredLocally(P),
    Expired(P),
    DiscoveredByIdentify(P),
    RoutingUpdated(P),
    Message { peer: P, data: Vec<u8> },
}

/// Something for the node to do.
#[derive(Debug)]
pub enum NodeAction<P, A> {
    /// Tell the user.
    Tell(Notice<P, A>),
    /// Say a line to the chat room.
    Publish(String),
    /// Refresh the routing table.
    RefreshRouting,
    /// Exchange chat messages with the peer directly.
    AddExplicitPeer(P),
    /// Stop doing so.
    RemoveExplicitPeer(P),
    /// Enter an address of the peer into the routing table.
    AddAddress { peer: P, addr: A },
    /// Start sending the file to the peer.
    StartSender(P),
}

/// The actions for peers that were found on the local network: each is told and added.
pub open spec fn discovered_actions<P, A>(peers: Seq<(P, A)>) -> Seq<NodeAction<P, A>>
    decreases peers.len(),
{
    if peers.len() == 0 {
        Seq::empty()
    } else {
        discovered_actions(peers.drop_last()) + seq![
            NodeAction::Tell(Notice::DiscoveredLocally(peers.last().0)),
            NodeAction::AddExplicitPeer(peers.last().0),
        ]
    }
}

/// The actions for peers that are gone from the local network: each is told and removed.
pub open spec fn expired_actions<P, A>(peers: Seq<(P, A)>) -> Seq<NodeAction<P, A>>
    decreases peers.len(),
{
    if peers.len() == 0 {
        Seq::empty()
    } else {
        expired_actions(peers.drop_last()) + seq![
            NodeAction::Tell(Notice::Expired(peers.last().0)),
            NodeAction::RemoveExplicitPeer(peers.last().0),
        ]
    }
}

/// The actions for a peer that told its addresses: they are entered, in order, and the peer is
/// told and added.
pub open spec fn identified_actions<P, A>(peer: P, listen_addrs: Seq<A>) -> Seq<NodeAction<P, A>> {
    listen_addrs.map_values(|addr: A| NodeAction::AddAddress { peer, addr }) + seq![
        NodeAction::Tell(Notice::DiscoveredByIdentify(peer)),
        NodeAction::AddExplicitPeer(peer),
    ]
}

/// What a node does about an event, in order.
pub open spec fn node_actions<P, A>(event: NodeEvent<P, A>) -> Seq<NodeAction<P, A>> {
    match event {
        NodeEvent::Line(line) => seq![NodeAction::Publish(line)],
        NodeEvent::BootstrapDue => seq![NodeAction::RefreshRouting],
        NodeEvent::Listening(addr) => seq![NodeAction::Tell(Notice::Listening(addr))],
        NodeEvent::Discovered(peers) => discovered_actions(peers@),
        NodeEvent::Expired(peers) => expired_actions(peers@),
        NodeEvent::Connected(peer) => seq![NodeAction::StartSender(peer)],
        NodeEvent::Identified { peer, listen_addrs } => identified_actions(peer, listen_addrs@),
        NodeEvent::RoutingUpdated(peer) => seq![NodeAction::Tell(Notice::RoutingUpdated(peer))],
        NodeEvent::Message { peer, data } => seq![NodeAction::Tell(Notice::Message { peer, data })],
        NodeEvent::Other => Seq::empty(),
    }
}

/// What a node does about an event, in order.
pub fn on_event<P: Copy, A>(event: NodeEvent<P, A>) -> (actions: Vec<NodeAction<P, A>>)
    ensures
        actions@ == node_actions(event),
        match event {
            NodeEvent::Line(line) => actions@ == seq![NodeAction::<P, A>::Publish(line)],
            NodeEvent::BootstrapDue => actions@ == seq![NodeAction::<P, A>::RefreshRouting],
            NodeEvent::Listening(addr) => actions@ == seq![
                NodeAction::<P, A>::Tell(Notice::Listening(addr)),
            ],
            NodeEvent::Discovered(peers) => {
                &&& actions@.len() == 2 * peers@.len()
                &&& forall|i: int|
                    #![trigger peers@[i]]
                    0 <= i < peers@.len() ==> {
                        &&& actions@[2 * i] == NodeAction::<P, A>::Tell(
                            Notice::DiscoveredLocally(peers@[i].0),
                        )
                        &&& actions@[2 * i + 1] == NodeAction::<P, A>::AddExplicitPeer(peers@[i].0)
                    }
            },
            NodeEvent::Expired(peers) => {
                &&& actions@.len() == 2 * peers@.len()
                &&& forall|i: int|
                    #![trigger peers@[i]]
                    0 <= i < peers@.len() ==> {
                        &&& actions@[2 * i] == NodeAction::<P, A>::Tell(
                            Notice::Expired(peers@[i].0),
                        )
                        &&& actions@[2 * i + 1] == NodeAction::<P, A>::RemoveExplicitPeer(
                            peers@[i].0,
                        )
                    }
            },
            NodeEvent::Connected(peer) => actions@ == seq![NodeAction::<P, A>::StartSender(peer)],
            NodeEvent::Identified { peer, listen_addrs } => {
                &&& actions@.len() == listen_addrs@.len() + 2
                &&& forall|i: int|
                    0 <= i < listen_addrs@.len() ==> actions@[i] == (NodeAction::<
                        P,
                        A,
                    >::AddAddress { peer, addr: #[trigger] listen_addrs@[i] })
                &&& actions@[actions@.len() - 2] == NodeAction::<P, A>::Tell(
                    Notice::DiscoveredByIdentify(peer),
                )
                &&& actions@[actions@.len() - 1] == NodeAction::<P, A>::AddExplicitPeer(peer)
            },
            NodeEvent::RoutingUpdated(peer) => actions@ == seq![
                NodeAction::<P, A>::Tell(Notice::RoutingUpdated(peer)),
            ],
            NodeEvent::Message { peer, data } => actions@ == seq![
                NodeAction::<P, A>::Tell(Notice::Message { peer, data }),
            ],
            NodeEvent::Other => actions@.len() == 0,
        },
{
    proof {
        law_peers_are_handled_one_by_one(event);
    }
    let mut actions: Vec<NodeAction<P, A>> = Vec::new();
    match event {
        NodeEvent::Line(line) => actions.push(NodeAction::Publish(line)),
        NodeEvent::BootstrapDue => actions.push(NodeAction::RefreshRouting),
        NodeEvent::Listening(addr) => actions.push(NodeAction::Tell(Notice::Listening(addr))),
        NodeEvent::Discovered(peers) => {
            for i in 0..peers.len()
                invariant
                    actions@ == discovered_actions(peers@.take(i as int)),
            {
                actions.push(NodeAction::Tell(Notice::DiscoveredLocally(peers[i].0)));
                actions.push(NodeAction::AddExplicitPeer(peers[i].0));
                assert(peers@.take(i + 1).drop_last() =~= peers@.take(i as int));
            }
            assert(peers@.take(peers@.len() as int) =~= peers@);
        },
        NodeEvent::Expired(peers) => {
            for i in 0..peers.len()
                invariant
                    actions@ == expired_actions(peers@.take(i as int)),
            {
                actions.push(NodeAction::Tell(Notice::Expired(peers[i].0)));
                actions.push(NodeAction::RemoveExplicitPeer(peers[i].0));
                assert(peers@.take(i + 1).drop_last() =~= peers@.take(i as int));
            }
            assert(peers@.take(peers@.len() as int) =~= peers@);
        },
        NodeEvent::Connected(peer) => actions.push(NodeAction::StartSender(peer)),
        NodeEvent::Identified { peer, listen_addrs } => {
            for addr in iter: listen_addrs
                invariant
                    actions@ == iter.seq().take(iter.index()).map_values(
                        |addr: A| NodeAction::AddAddress { peer, addr },
                    ),
            {
                actions.push(NodeAction::AddAddress { peer, addr });
            }
            actions.push(NodeAction::Tell(Notice::DiscoveredByIdentify(peer)));
            actions.push(NodeAction::AddExplicitPeer(peer));
        },
        NodeEvent::RoutingUpdated(peer) => actions.push(
            NodeAction::Tell(Notice::RoutingUpdated(peer)),
        ),
        NodeEvent::Message { peer, data } => actions.push(
            NodeAction::Tell(Notice::Message { peer, data }),
        ),
        NodeEvent::Other => {},
    }
    actions
}

proof fn lemma_discovered_layout<P, A>(peers: Seq<(P, A)>)
    ensures
        discovered_actions(peers).len() == 2 * peers.len(),
        forall|i: int|
            #![trigger peers[i]]
            0 <= i < peers.len() ==> {
                &&& discovered_actions(peers)[2 * i] == NodeAction::<P, A>::Tell(
                    Notice::DiscoveredLocally(peers[i].0),
                )
                &&& discovered_actions(peers)[2 * i + 1] == NodeAction::<P, A>::AddExplicitPeer(
                    peers[i].0,
                )
            },
    decreases peers.len(),
{
    if peers.len() > 0 {
        let front = peers.drop_last();
        lemma_discovered_layout(front);
        assert forall|i: int| #![trigger peers[i]] 0 <= i < peers.len() implies {
            &&& discovered_actions(peers)[2 * i] == NodeAction::<P, A>::Tell(
                Notice::DiscoveredLocally(peers[i].0),
            )
            &&& discovered_actions(peers)[2 * i + 1] == NodeAction::<P, A>::AddExplicitPeer(
                peers[i].0,
            )
        } by {
            if i < front.len() {
                assert(front[i] == peers[i]);
            }
        }
    }
}

proof fn lemma_expired_layout<P, A>(peers: Seq<(P, A)>)
    ensures
        expired_actions(peers).len() == 2 * peers.len(),
        forall|i: int|
            #![trigger peers[i]]
            0 <= i < peers.len() ==> {
                &&& expired_actions(peers)[2 * i] == NodeAction::<P, A>::Tell(
                    Notice::Expired(peers[i].0),
                )
                &&& expired_actions(peers)[2 * i + 1] == NodeAction::<P, A>::RemoveExplicitPeer(
                    peers[i].0,
                )
            },
    decreases peers.len(),
{
    if peers.len() > 0 {
        let front = peers.drop_last();
        lemma_expired_layout(front);
        assert forall|i: int| #![trigger peers[i]] 0 <= i < peers.len() implies {
            &&& expired_actions(peers)[2 * i] == NodeAction::<P, A>::Tell(
                Notice::Expired(peers[i].0),
            )
            &&& expired_actions(peers)[2 * i + 1] == NodeAction::<P, A>::RemoveExplicitPeer(
                peers[i].0,
            )
        } by {
            if i < front.len() {
                assert(front[i] == peers[i]);
            }
        }
    }
}

/// Every peer of a report is handled, in the order of the report: it is told and then added, or
/// told and then removed. Of a peer that identifies itself every address is entered, in order, and
/// then it is told and added.
pub proof fn law_peers_are_handled_one_by_one<P, A>(event: NodeEvent<P, A>)
    ensures
        event matches NodeEvent::Discovered(peers) ==> {
            &&& node_actions(event).len() == 2 * peers@.len()
            &&& forall|i: int|
                #![trigger peers@[i]]
                0 <= i < peers@.len() ==> {
                    &&& node_actions(event)[2 * i] == NodeAction::<P, A>::Tell(
                        Notice::DiscoveredLocally(peers@[i].0),
                    )
                    &&& node_actions(event)[2 * i + 1] == NodeAction::<P, A>::AddExplicitPeer(
                        peers@[i].0,
                    )
                }
        },
        event matches NodeEvent::Expired(peers) ==> {
            &&& node_actions(event).len() == 2 * peers@.len()
            &&& forall|i: int|
                #![trigger peers@[i]]
                0 <= i < peers@.len() ==> {
                    &&& node_actions(event)[2 * i] == NodeAction::<P, A>::Tell(
                        Notice::Expired(peers@[i].0),
                    )
                    &&& node_actions(event)[2 * i + 1] == NodeAction::<P, A>::RemoveExplicitPeer(
                        peers@[i].0,
                    )
                }
        },
        event matches NodeEvent::Identified { peer, listen_addrs } ==> {
            let actions = node_actions(event);
            &&& actions.len() == listen_addrs@.len() + 2
            &&& forall|i: int|
                0 <= i < listen_addrs@.len() ==> actions[i] == (NodeAction::<P, A>::AddAddress {
                    peer,
                    addr: #[trigger] listen_addrs@[i],
                })
            &&& actions[actions.len() - 2] == NodeAction::<P, A>::Tell(
                Notice::DiscoveredByIdentify(peer),
            )
            &&& actions[actions.len() - 1] == NodeAction::<P, A>::AddExplicitPeer(peer)
        },
{
    match event {
        NodeEvent::Discovered(peers) => lemma_discovered_layout(peers@),
        NodeEvent::Expired(peers) => lemma_expired_layout(peers@),
        _ => {},
    }
}

/// A typed line is published: that line, once, and nothing else is done.
pub proof fn law_line_is_published<P, A>(line: String)
    ensures
        node_actions(NodeEvent::<P, A>::Line(line)).len() == 1,
        node_actions(NodeEvent::<P, A>::Line(line))[0] == NodeAction::<P, A>::Publish(line),
{
}

/// What a peer said is told, with the peer and all that it said, and nothing else is done.
pub proof fn law_message_is_told<P, A>(peer: P, data: Vec<u8>)
    ensures
        node_actions(NodeEvent::<P, A>::Message { peer, data }).len() == 1,
        node_actions(NodeEvent::<P, A>::Message { peer, data })[0] == NodeAction::<P, A>::Tell(
            Notice::Message { peer, data },
        ),
{
}

/// For every connection the file is sent to that peer, and nothing else is done.
pub proof fn law_connected_peer_gets_the_file<P, A>(peer: P)
    ensures
        node_actions(NodeEvent::<P, A>::Connected(peer)).len() == 1,
        node_actions(NodeEvent::<P, A>::Connected(peer))[0] == NodeAction::<P, A>::StartSender(
            peer,
        ),
{
}

/// When it is due the routing table is refreshed; where the node listens and whom the routing table
/// has is told; and no other event makes the node do anything.
pub proof fn law_housekeeping<P, A>(peer: P, addr: A)
    ensures
        node_actions(NodeEvent::<P, A>::BootstrapDue) == seq![NodeAction::<P, A>::RefreshRouting],
        node_actions(NodeEvent::<P, A>::Listening(addr)) == seq![
            NodeAction::<P, A>::Tell(Notice::Listening(addr)),
        ],
        node_actions(NodeEvent::<P, A>::RoutingUpdated(peer)) == seq![
            NodeAction::<P, A>::Tell(Notice::RoutingUpdated(peer)),
        ],
        node_actions(NodeEvent::<P, A>::Other).len() == 0,
{
}

/// An address names a peer exactly where its last component does.
pub proof fn law_last_component_decides(parts: Seq<AddressPart>)
    ensures
        ends_in_peer(parts) is Some <==> parts.len() > 0 && parts[parts.len() - 1] is Peer,
        ends_in_peer(parts) matches Some(peer) ==> parts[parts.len() - 1] == AddressPart::Peer(
            peer,
        ),
{
}

/// The peers that chat messages are exchanged with directly, once `actions` have been done.
pub open spec fn explicit_after<P, A>(explicit: Set<P>, actions: Seq<NodeAction<P, A>>) -> Set<P>
    decreases actions.len(),
{
    if actions.len() == 0 {
        explicit
    } else {
        let before = explicit_after(explicit, actions.drop_last());
        match actions.last() {
            NodeAction::AddExplicitPeer(peer) => before.insert(peer),
            NodeAction::RemoveExplicitPeer(peer) => before.remove(peer),
            _ => before,
        }
    }
}

/// Whom a node exchanges messages with changes only where it adds or removes a peer, and then by
/// that peer alone.
pub proof fn law_explicit_peers_follow_the_actions<P, A>(
    explicit: Set<P>,
    actions: Seq<NodeAction<P, A>>,
    action: NodeAction<P, A>,
)
    ensures
        explicit_after(explicit, Seq::<NodeAction<P, A>>::empty()) == explicit,
        explicit_after(explicit, actions.push(action)) == match action {
            NodeAction::AddExplicitPeer(peer) => explicit_after(explicit, actions).insert(peer),
            NodeAction::RemoveExplicitPeer(peer) => explicit_after(explicit, actions).remove(peer),
            _ => explicit_after(explicit, actions),
        },
{
    assert(actions.push(action).drop_last() =~= actions);
}

/// `peer` is among the peers of a report.
pub open spec fn reported<P, A>(peers: Seq<(P, A)>, peer: P) -> bool {
    exists|i: int| 0 <= i < peers.len() && (#[trigger] peers[i]).0 == peer
}

proof fn lemma_reported_last<P, A>(peers: Seq<(P, A)>, peer: P)
    requires
        peers.len() > 0,
    ensures
        reported(peers, peer) <==> reported(peers.drop_last(), peer) || peers.last().0 == peer,
{
    if reported(peers, peer) && peers.last().0 != peer {
        let i = choose|i: int| 0 <= i < peers.len() && (#[trigger] peers[i]).0 == peer;
        assert(peers.drop_last()[i].0 == peer);
    }
    if reported(peers.drop_last(), peer) {
        let i = choose|i: int|
            0 <= i < peers.drop_last().len() && (#[trigger] peers.drop_last()[i]).0 == peer;
        assert(peers[i].0 == peer);
    }
    if peers.last().0 == peer {
        assert(peers[peers.len() - 1].0 == peer);
    }
}

/// The peers of a discovery report, and no others, join those that messages are exchanged with.
pub proof fn law_discovered_peers_join<P, A>(explicit: Set<P>, peers: Seq<(P, A)>, peer: P)
    ensures
        explicit_after(explicit, discovered_actions(peers)).contains(peer) <==> explicit.contains(
            peer,
        ) || reported(peers, peer),
    decreases peers.len(),
{
    reveal_with_fuel(explicit_after, 3);
    if peers.len() > 0 {
        let before = discovered_actions(peers.drop_last());
        let actions = discovered_actions(peers);
        law_discovered_peers_join(explicit, peers.drop_last(), peer);
        lemma_reported_last(peers, peer);
        assert(actions.drop_last().drop_last() =~= before);
        assert(actions.drop_last().last() == NodeAction::<P, A>::Tell(
            Notice::DiscoveredLocally(peers.last().0),
        ));
    }
}

/// The peers of an expiry report, and no others, leave those that messages are exchanged with.
pub proof fn law_expired_peers_leave<P, A>(explicit: Set<P>, peers: Seq<(P, A)>, peer: P)
    ensures
        explicit_after(explicit, expired_actions(peers)).contains(peer) <==> explicit.contains(peer)
            && !reported(peers, peer),
    decreases peers.len(),
{
    reveal_with_fuel(explicit_after, 3);
    if peers.len() > 0 {
        let before = expired_actions(peers.drop_last());
        let actions = expired_actions(peers);
        law_expired_peers_leave(explicit, peers.drop_last(), peer);
        lemma_reported_last(peers, peer);
        assert(actions.drop_last().drop_last() =~= before);
        assert(actions.drop_last().last() == NodeAction::<P, A>::Tell(
            Notice::Expired(peers.last().0),
        ));
    }
}

/// What a node does about a discovery makes it exchange messages with every reported peer, and with
/// those of before, and with no others.
pub proof fn law_discovery_event_joins<P, A>(explicit: Set<P>, peers: Vec<(P, A)>, peer: P)
    ensures
        explicit_after(explicit, node_actions(NodeEvent::Discovered(peers))).contains(peer)
            <==> explicit.contains(peer) || reported(peers@, peer),
{
    law_discovered_peers_join(explicit, peers@, peer);
}

/// What a node does about an expiry makes it exchange messages with those of before that were not
/// reported, and with no others.
pub proof fn law_expiry_event_parts<P, A>(explicit: Set<P>, peers: Vec<(P, A)>, peer: P)
    ensures
        explicit_after(explicit, node_actions(NodeEvent::Expired(peers))).contains(peer)
            <==> explicit.contains(peer) && !reported(peers@, peer),
{
    law_expired_peers_leave(explicit, peers@, peer);
}

/// The expiry of peers undoes their discovery, where they did not take part before.
pub proof fn law_expiry_undoes_discovery<P, A>(explicit: Set<P>, peers: Seq<(P, A)>)
    requires
        forall|peer: P| explicit.contains(peer) ==> !#[trigger] reported(peers, peer),
    ensures
        explicit_after(
            explicit_after(explicit, discovered_actions(peers)),
            expired_actions(peers),
        ) == explicit,
{
    let joined = explicit_after(explicit, discovered_actions(peers));
    let left = explicit_after(joined, expired_actions(peers));
    assert forall|peer: P| left.contains(peer) <==> explicit.contains(peer) by {
        law_discovered_peers_join(explicit, peers, peer);
        law_expired_peers_leave(joined, peers, peer);
        assert(explicit.contains(peer) ==> !reported(peers, peer));
    }
    assert(left =~= explicit);
}

proof fn lemma_addresses_keep_explicit<P, A>(explicit: Set<P>, peer: P, addrs: Seq<A>)
    ensures
        explicit_after(
            explicit,
            addrs.map_values(|addr: A| NodeAction::AddAddress { peer, addr }),
        ) == explicit,
    decreases addrs.len(),
{
    let entered = addrs.map_values(|addr: A| NodeAction::AddAddress { peer, addr });
    if addrs.len() > 0 {
        lemma_addresses_keep_explicit(explicit, peer, addrs.drop_last());
        assert(entered.drop_last() =~= addrs.drop_last().map_values(
            |addr: A| NodeAction::AddAddress { peer, addr },
        ));
    }
}

/// A peer that identifies itself joins those that messages are exchanged with, and no other does.
pub proof fn law_identified_peer_joins<P, A>(explicit: Set<P>, peer: P, listen_addrs: Seq<A>)
    ensures
        explicit_after(explicit, identified_actions(peer, listen_addrs)) == explicit.insert(peer),
{
    reveal_with_fuel(explicit_after, 3);
    let actions = identified_actions(peer, listen_addrs);
    lemma_addresses_keep_explicit(explicit, peer, listen_addrs);
    assert(actions.drop_last().drop_last() =~= listen_addrs.map_values(
        |addr: A| NodeAction::AddAddress { peer, addr },
    ));
    assert(actions.drop_last().last() == NodeAction::<P, A>::Tell(
        Notice::DiscoveredByIdentify(peer),
    ));
}

/// What a node does about a peer that identifies itself makes it exchange messages with that peer
/// and with those of before.
pub proof fn law_identify_event_joins<P, A>(explicit: Set<P>, peer: P, listen_addrs: Vec<A>)
    ensures
        explicit_after(
            explicit,
            node_actions(NodeEvent::Identified { peer, listen_addrs }),
        ) == explicit.insert(peer),
{
    law_identified_peer_joins(explicit, peer, listen_addrs@);
}

} // verus!
