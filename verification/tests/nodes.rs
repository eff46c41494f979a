use libp2p::{Multiaddr, PeerId};
use p2p_chat::node::{bootstrap, last_peer, on_event, AddressPart, Bootstrap};
use p2p_chat::node::{NodeAction, NodeEvent, Notice};
use std::collections::BTreeSet;

const PEER: &str = "12D3KooWDpJ7As7BWAwRMfu1VU2WCqNjvq387JEYKDBj4kx6nXTN";

fn shown(event: NodeEvent<u32, char>) -> String {
    format!("{:?}", on_event(event))
}

fn explicit(peers: &mut BTreeSet<u32>, event: NodeEvent<u32, char>) {
    for action in on_event(event) {
        match action {
            NodeAction::AddExplicitPeer(peer) => {
                peers.insert(peer);
            }
            NodeAction::RemoveExplicitPeer(peer) => {
                peers.remove(&peer);
            }
            _ => {}
        }
    }
}

#[test]
fn without_an_address_nothing_is_dialed() {
    assert!(matches!(bootstrap(None), Bootstrap::Skip));
}

#[test]
fn an_address_that_ends_in_a_peer_is_dialed() {
    let peer: PeerId = PEER.parse().unwrap();
    let addr: Multiaddr = format!("/ip4/10.0.0.1/tcp/4001/p2p/{PEER}").parse().unwrap();
    match bootstrap(Some(addr.clone())) {
        Bootstrap::Dial { peer: dialed, addr: at } => {
            assert_eq!(dialed, peer);
            assert_eq!(at, addr);
        }
        other => panic!("{other:?}"),
    }
}

#[test]
fn any_other_address_is_refused() {
    for addr in [
        "/ip4/10.0.0.1/tcp/4001".to_string(),
        format!("/ip4/10.0.0.1/tcp/4001/p2p/{PEER}/p2p-circuit"),
    ] {
        let addr: Multiaddr = addr.parse().unwrap();
        assert!(matches!(bootstrap(Some(addr)), Bootstrap::Refuse));
    }
    assert!(matches!(bootstrap(Some(Multiaddr::empty())), Bootstrap::Refuse));
}

#[test]
fn the_last_component_decides() {
    let peer: PeerId = PEER.parse().unwrap();
    assert_eq!(last_peer(&[]), None);
    assert_eq!(last_peer(&[AddressPart::Peer(peer), AddressPart::Other]), None);
    assert_eq!(last_peer(&[AddressPart::Other, AddressPart::Peer(peer)]), Some(peer));
}

#[test]
fn single_events_have_single_actions() {
    match &on_event::<u32, char>(NodeEvent::Line("hi".to_string()))[..] {
        [NodeAction::Publish(line)] => assert_eq!(line, "hi"),
        other => panic!("{other:?}"),
    }
    assert_eq!(shown(NodeEvent::BootstrapDue), "[RefreshRouting]");
    assert_eq!(shown(NodeEvent::Listening('a')), "[Tell(Listening('a'))]");
    assert_eq!(shown(NodeEvent::Connected(3)), "[StartSender(3)]");
    assert_eq!(shown(NodeEvent::RoutingUpdated(3)), "[Tell(RoutingUpdated(3))]");
    assert_eq!(shown(NodeEvent::Other), "[]");
    match &on_event::<u32, char>(NodeEvent::Message { peer: 3, data: vec![1, 2] })[..] {
        [NodeAction::Tell(Notice::Message { peer, data })] => {
            assert_eq!((*peer, &data[..]), (3, &[1, 2][..]));
        }
        other => panic!("{other:?}"),
    }
}

#[test]
fn discovered_peers_are_told_and_added_in_order() {
    assert_eq!(
        shown(NodeEvent::Discovered(vec![(1, 'a'), (2, 'b')])),
        "[Tell(DiscoveredLocally(1)), AddExplicitPeer(1), \
         Tell(DiscoveredLocally(2)), AddExplicitPeer(2)]"
    );
    assert_eq!(shown(NodeEvent::Discovered(vec![])), "[]");
}

#[test]
fn expired_peers_are_told_and_removed_in_order() {
    assert_eq!(
        shown(NodeEvent::Expired(vec![(1, 'a'), (2, 'b')])),
        "[Tell(Expired(1)), RemoveExplicitPeer(1), Tell(Expired(2)), RemoveExplicitPeer(2)]"
    );
}

#[test]
fn an_identified_peer_is_entered_then_added() {
    assert_eq!(
        shown(NodeEvent::Identified { peer: 5, listen_addrs: vec!['x', 'y'] }),
        "[AddAddress { peer: 5, addr: 'x' }, AddAddress { peer: 5, addr: 'y' }, \
         Tell(DiscoveredByIdentify(5)), AddExplicitPeer(5)]"
    );
}

#[test]
fn expiry_undoes_discovery() {
    let mut peers = BTreeSet::from([9]);
    explicit(&mut peers, NodeEvent::Discovered(vec![(1, 'a'), (2, 'b'), (1, 'c')]));
    assert_eq!(peers, BTreeSet::from([1, 2, 9]));
    explicit(&mut peers, NodeEvent::Expired(vec![(1, 'a'), (2, 'b'), (1, 'c')]));
    assert_eq!(peers, BTreeSet::from([9]));
    explicit(&mut peers, NodeEvent::Identified { peer: 4, listen_addrs: vec!['x'] });
    assert_eq!(peers, BTreeSet::from([4, 9]));
}
