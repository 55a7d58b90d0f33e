use daas::provenance::{ChainLink, ProvenanceChain};

#[test]
fn genesis_link_is_sealed() {
    let chain = ProvenanceChain::new("order~clothing~iStore~15150".to_string());

    assert_eq!(chain.len(), 1);
    assert_eq!(chain.links[0].index, 0);
    assert_eq!(chain.links[0].previous_hash, "0");
    assert!(!chain.links[0].hash.is_empty());
    assert_ne!(chain.links[0].hash, chain.links[0].previous_hash);
    assert!(chain.is_valid());
}

#[test]
fn added_link_names_its_predecessor() {
    let mut chain = ProvenanceChain::new("purchaseId=12345".to_string());
    chain.add(1578071239, "payment-validator".to_string(), "purchaseId=12345".to_string());
    chain.add(1578071245, "credit-card-transaction-processor".to_string(), "purchaseId=12345".to_string());

    assert_eq!(chain.len(), 3);
    assert_eq!(chain.links[2].index, 2);
    assert_eq!(chain.links[2].previous_hash, chain.links[1].hash);
    assert!(chain.is_valid());
}

#[test]
fn altered_actor_breaks_chain() {
    let mut chain = ProvenanceChain::new("purchaseId=12345".to_string());
    chain.add(1578071239, "payment-validator".to_string(), "purchaseId=12345".to_string());
    chain.links[1].actor_id = "tampered data".to_string();

    assert!(!chain.is_valid());
}

#[test]
fn broken_link_to_predecessor_breaks_chain() {
    let mut chain = ProvenanceChain::new("a".to_string());
    chain.add(1, "x".to_string(), "a".to_string());
    let mut other = ProvenanceChain::new("b".to_string());
    other.add(1, "x".to_string(), "b".to_string());
    chain.links[0] = other.links[0].clone();

    assert!(!chain.is_valid());
}

#[test]
fn stored_chain_verifies_and_altered_timestamp_does_not() {
    let link = ChainLink {
        data_id: "order~clothing~iStore~15000".to_string(),
        index: 0,
        timestamp: 0,
        actor_id: "".to_string(),
        previous_hash: "0".to_string(),
        hash: "33962353871142597622255173163773323410".to_string(),
    };
    let good = ProvenanceChain { links: vec![link.clone()] };
    assert!(good.is_valid());

    let mut altered = link;
    altered.timestamp = 1582766489;
    let bad = ProvenanceChain { links: vec![altered] };
    assert!(!bad.is_valid());
}

#[test]
fn empty_chain_has_nothing_to_contradict() {
    let chain = ProvenanceChain { links: Vec::new() };
    assert_eq!(chain.len(), 0);
    assert!(chain.is_valid());
}
