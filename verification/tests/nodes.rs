use callme::call_table::CallTable;
use callme::net::{secret_key_choice, speaks_protocol, KeyChoice};
use callme::node_id::{hex_lower, NodeId, Relation};
use callme::text::{joined_text, same_text, starts_with};

// The public key of the secret key that is all zeros.
const KEY: &str = "3b6a27bcceb6a42d62a3a8d02a6f0d73653215771de243a63ac048a18b59da29";

fn id(first: u8) -> NodeId {
    let mut bytes = [0; 32];
    bytes[0] = first;
    NodeId { bytes }
}

#[test]
fn bytes_are_written_in_hexadecimal() {
    assert_eq!(hex_lower(&[0x00, 0x1f, 0xa0, 0xff]), "001fa0ff");
    assert_eq!(hex_lower(&[]), "");
}

#[test]
fn node_ids_are_read_from_hexadecimal() {
    let node_id = NodeId::from_text(KEY).unwrap();
    assert_eq!(node_id.bytes[0], 0x3b);
    assert_eq!(node_id.bytes[31], 0x29);
    assert_eq!(node_id.to_text(), KEY);
    assert_eq!(node_id.fmt_short(), "3b6a27bcce");
}

#[test]
fn node_ids_are_those_of_iroh() {
    let key = iroh_base::SecretKey::from_bytes(&[0; 32]).public();
    let node_id = NodeId::from_text(&key.to_string()).unwrap();
    assert_eq!(&node_id.bytes, key.as_bytes());
    assert_eq!(node_id.fmt_short(), key.fmt_short());
}

#[test]
fn other_texts_are_no_node_ids() {
    assert!(NodeId::from_text("").is_err());
    assert!(NodeId::from_text("hello").is_err());
    assert!(NodeId::from_text(&KEY[..62]).is_err());
    assert!(NodeId::from_text(&KEY.to_uppercase()).is_err());
}

#[test]
fn written_node_ids_are_read_again() {
    for seed in 0..20 {
        let key = iroh_base::SecretKey::from_bytes(&[seed; 32]).public();
        let node_id = NodeId { bytes: *key.as_bytes() };
        assert_eq!(NodeId::from_text(&node_id.to_text()), Ok(node_id));
    }
}

#[test]
fn node_ids_are_ordered_by_their_bytes() {
    assert_eq!(id(1).relate(&id(2)), Relation::Before);
    assert_eq!(id(2).relate(&id(2)), Relation::Same);
    assert_eq!(id(3).relate(&id(2)), Relation::After);
    let mut late = id(1);
    late.bytes[31] = 255;
    assert_eq!(late.relate(&id(1)), Relation::After);
    assert_eq!(late.relate(&id(2)), Relation::Before);
}

#[test]
fn tables_map_nodes_to_values() {
    let mut table = CallTable::new();
    assert!(!table.contains_key(&id(1)));
    assert_eq!(table.insert(id(1), "one"), None);
    assert_eq!(table.insert(id(1), "uno"), Some("one"));
    assert_eq!(table.get(&id(1)), Some(&"uno"));
    assert_eq!(table.get(&id(2)), None);
    assert_eq!(table.remove(&id(2)), None);
    assert_eq!(table.remove(&id(1)), Some("uno"));
    assert_eq!(table.len(), 0);
}

#[test]
fn tables_are_listed_in_order() {
    let mut table = CallTable::new();
    for first in [5, 1, 9, 3] {
        table.insert(id(first), first);
    }
    let listed: Vec<u8> = (0..table.len()).map(|at| table.entry(at).1).collect();
    assert_eq!(listed, vec![1, 3, 5, 9]);
    table.remove(&id(5));
    let listed: Vec<u8> = (0..table.len()).map(|at| table.entry(at).1).collect();
    assert_eq!(listed, vec![1, 3, 9]);
}

#[test]
fn secret_keys_are_taken_from_the_environment() {
    assert!(matches!(secret_key_choice(None), KeyChoice::Generate));
    assert!(matches!(secret_key_choice(Some("nonsense")), KeyChoice::Invalid(_)));
    match secret_key_choice(Some(&hex_lower(&[7; 32]))) {
        KeyChoice::Given(bytes) => assert_eq!(bytes, [7; 32]),
        _ => panic!("32 bytes are a key"),
    }
}

#[test]
fn protocols_are_told_apart() {
    assert!(speaks_protocol(b"abc", b"abc"));
    assert!(!speaks_protocol(b"abd", b"abc"));
    assert!(!speaks_protocol(b"ab", b"abc"));
    assert!(!speaks_protocol(b"abcd", b"abc"));
}

#[test]
fn texts_are_held_against_each_other() {
    assert!(same_text("mic", "mic"));
    assert!(!same_text("mic", "mics"));
    assert!(starts_with("micro", "mic"));
    assert!(starts_with("mic", ""));
    assert!(!starts_with("mi", "mic"));
    assert!(starts_with("été", "ét"));
    assert_eq!(joined_text("a", "b", "c"), "abc");
}
