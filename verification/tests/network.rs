use rshell::command::cmd_chat::{
    dial_target, dial_target_from, discovery_updates, listen_address, ChatSetupError, DiscoveryEvent,
    PeerViewUpdate,
};

fn joins(u: &[PeerViewUpdate]) -> Vec<(bool, usize)> {
    u.iter()
        .map(|x| match x {
            PeerViewUpdate::Join(i) => (true, *i),
            PeerViewUpdate::Leave(i) => (false, *i),
        })
        .collect()
}

#[test]
fn no_argument_no_dial() {
    assert!(matches!(dial_target(None), Ok(None)));
}

#[test]
fn dial_address_is_parsed() {
    match dial_target(Some(String::from("/ip4/127.0.0.1/tcp/4001"))) {
        Ok(Some(b)) => assert_eq!(
            libp2p::Multiaddr::try_from(b).unwrap().to_string(),
            "/ip4/127.0.0.1/tcp/4001"
        ),
        _ => panic!("expected an address"),
    }
}

#[test]
fn bad_dial_address_fails() {
    assert!(matches!(dial_target(Some(String::from("localhost:4001"))), Err(ChatSetupError::BadAddress(_))));
    // The empty text is the empty address.
    assert!(matches!(dial_target(Some(String::new())), Ok(Some(_))));
    assert!(matches!(dial_target(Some(String::from("/ip4/999.0.0.1"))), Err(ChatSetupError::BadAddress(_))));
}

#[test]
fn dial_target_from_parser_result() {
    let parsed = "/ip4/10.0.0.1/tcp/1".parse::<libp2p::Multiaddr>().map(|a| a.to_vec());
    match dial_target_from(parsed) {
        Ok(Some(b)) => assert_eq!(b, vec![4, 10, 0, 0, 1, 6, 0, 1]),
        _ => panic!("expected an address"),
    }
    let parsed = "nope".parse::<libp2p::Multiaddr>().map(|a| a.to_vec());
    assert!(matches!(dial_target_from(parsed), Err(ChatSetupError::BadAddress(_))));
}

#[test]
fn listen_on_all_interfaces() {
    match listen_address() {
        Ok(b) => {
            assert_eq!(b, vec![4, 0, 0, 0, 0, 6, 0, 0]);
            assert_eq!(libp2p::Multiaddr::try_from(b).unwrap().to_string(), "/ip4/0.0.0.0/tcp/0");
        }
        Err(_) => panic!("expected an address"),
    }
}

#[test]
fn discovered_peers_join() {
    let u = discovery_updates(&DiscoveryEvent::Discovered(3));
    assert_eq!(joins(&u), vec![(true, 0), (true, 1), (true, 2)]);
    assert!(discovery_updates(&DiscoveryEvent::Discovered(0)).is_empty());
}

#[test]
fn expired_peers_leave_unless_known() {
    let u = discovery_updates(&DiscoveryEvent::Expired(vec![false, true, false]));
    assert_eq!(joins(&u), vec![(false, 0), (false, 2)]);
    assert!(discovery_updates(&DiscoveryEvent::Expired(vec![true, true])).is_empty());
}
