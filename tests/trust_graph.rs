use microloan::ids::Address;
use microloan::trust_graph::{Error, TrustGraph};

fn parse_address(hex: &str) -> Address {
    let mut bytes = [0u8; 20];
    for (i, b) in bytes.iter_mut().enumerate() {
        *b = u8::from_str_radix(&hex[2 * i..2 * i + 2], 16).expect("valid H160");
    }
    Address::from_bytes(bytes)
}

fn alice() -> Address {
    parse_address("d43593c715fdd31c61141abd04a99fd6822c8558")
}

fn bob() -> Address {
    parse_address("8eaf04151687736326c9fea17e25fc5287613693")
}

fn charlie() -> Address {
    parse_address("306721211d5404bd9da88e0204360a1a9ab8b87c")
}

#[test]
fn test_set_new_trusted() {
    let mut graph = TrustGraph::new();
    let result = graph.set_new_trusted(alice(), bob());
    assert_eq!(result, Ok(()));
    assert!(graph.is_trusted(alice(), bob()));
}

#[test]
fn test_set_multiple_trusted() {
    let mut graph = TrustGraph::new();
    graph.set_new_trusted(alice(), bob()).unwrap();
    graph.set_new_trusted(alice(), charlie()).unwrap();
    assert!(graph.is_trusted(alice(), bob()));
    assert!(graph.is_trusted(alice(), charlie()));
}

#[test]
fn test_delete_trusted() {
    let mut graph = TrustGraph::new();
    graph.set_new_trusted(alice(), bob()).unwrap();
    assert!(graph.is_trusted(alice(), bob()));
    let result = graph.delete_trusted(alice(), bob());
    assert_eq!(result, Ok(()));
    assert!(!graph.is_trusted(alice(), bob()));
}

#[test]
fn test_delete_non_trusted() {
    let mut graph = TrustGraph::new();
    let result = graph.delete_trusted(alice(), bob());
    assert_eq!(result, Err(Error::NotTrusted));
}

#[test]
fn test_is_trusted_false() {
    let graph = TrustGraph::new();
    assert!(!graph.is_trusted(alice(), bob()));
}

#[test]
fn test_is_trusted_empty_list() {
    let graph = TrustGraph::new();
    assert!(!graph.is_trusted(alice(), bob()));
}

#[test]
fn test_get_all_trusted() {
    let mut graph = TrustGraph::new();
    graph.set_new_trusted(alice(), bob()).unwrap();
    graph.set_new_trusted(alice(), charlie()).unwrap();
    let trusted = graph.get_all_trusted(alice()).unwrap();
    assert_eq!(trusted.len(), 2);
    assert_eq!(trusted, vec![bob(), charlie()]);
}

#[test]
fn test_get_all_trusted_empty() {
    let graph = TrustGraph::new();
    let result = graph.get_all_trusted(alice());
    assert_eq!(result, Err(Error::NoTrustedAddresses));
}

#[test]
fn test_independent_trusted_lists() {
    let mut graph = TrustGraph::new();
    graph.set_new_trusted(alice(), bob()).unwrap();
    assert!(graph.is_trusted(alice(), bob()));

    graph.set_new_trusted(bob(), charlie()).unwrap();
    assert!(graph.is_trusted(bob(), charlie()));
    assert!(!graph.is_trusted(bob(), alice()));

    assert!(graph.is_trusted(alice(), bob()));
    assert!(!graph.is_trusted(alice(), charlie()));
}

#[test]
fn delete_removes_every_copy_and_keeps_order() {
    let mut graph = TrustGraph::new();
    graph.set_new_trusted(alice(), bob()).unwrap();
    graph.set_new_trusted(alice(), charlie()).unwrap();
    graph.set_new_trusted(alice(), bob()).unwrap();
    graph.delete_trusted(alice(), bob()).unwrap();
    assert_eq!(graph.get_all_trusted(alice()), Ok(vec![charlie()]));
}
