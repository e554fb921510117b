use zknet_core::netid::{validate_network_id, NetworkIdError};

#[test]
fn traversal_identifiers_rejected() {
    assert_eq!(
        validate_network_id("../evil"),
        Err(NetworkIdError::InvalidNetworkId)
    );
    assert_eq!(
        validate_network_id(".."),
        Err(NetworkIdError::InvalidNetworkId)
    );
    assert_eq!(
        validate_network_id("."),
        Err(NetworkIdError::InvalidNetworkId)
    );
}

#[test]
fn separator_identifiers_rejected() {
    assert_eq!(
        validate_network_id("a/b"),
        Err(NetworkIdError::InvalidNetworkId)
    );
    assert_eq!(
        validate_network_id("a\\b"),
        Err(NetworkIdError::InvalidNetworkId)
    );
    assert_eq!(
        validate_network_id("/abs"),
        Err(NetworkIdError::InvalidNetworkId)
    );
}

#[test]
fn plain_identifiers_accepted() {
    assert_eq!(validate_network_id("testnet"), Ok(()));
    assert_eq!(validate_network_id("main-net_01"), Ok(()));
    assert_eq!(validate_network_id("..dots-inside.."), Ok(()));
}
