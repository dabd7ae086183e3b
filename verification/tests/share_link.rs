use flowerchat::ledger::PublicKey;
use flowerchat::share_link::{Error, ShareLink};

fn hash(byte: u8) -> flowerchat::ledger::Hash {
    flowerchat::ledger::Hash([byte; 32])
}

fn key() -> PublicKey {
    let mut bytes = [7u8; 33];
    bytes[0] = 2;
    PublicKey(bytes)
}

#[test]
fn share_link_test_serialize() -> Result<(), Error> {
    let link = ShareLink::new(
        flowerchat::ledger::Hash::default(),
        key(),
        vec![
            String::from("test 1"),
            String::from("test 2"),
            String::from("test 3"),
            String::from("test 4"),
            String::from("test 5")
        ]
    );

    assert_eq!(link, ShareLink::from_bytes(&link.to_bytes()?)?);

    Ok(())
}

#[test]
fn share_link_payload_layout() {
    let link = ShareLink::new(hash(1), key(), vec![String::from("ab"), String::new()]);
    let payload = link.payload();
    assert_eq!(&payload[..32], &[1u8; 32]);
    assert_eq!(&payload[32..65], &key().0);
    assert_eq!(&payload[65..], &[2, 0, b'a', b'b', 0, 0]);
    let bytes = link.to_bytes().unwrap();
    assert_eq!(bytes[0], 0);
    assert_eq!(flowerchat::compress::decompress(&bytes[1..]), Some(payload.clone()));
    assert_eq!(ShareLink::from_payload(&payload), Ok(link.clone()));
    assert_eq!(link.root_block(), &hash(1));
    assert_eq!(link.public_key(), &key());
    assert_eq!(link.shards(), &vec![String::from("ab"), String::new()]);
}

#[test]
fn share_link_leaves_out_long_addresses() {
    let long = "a".repeat(65536);
    let fits = "b".repeat(65535);
    let link = ShareLink::new(hash(1), key(), vec![long, fits.clone(), String::from("c")]);
    let read = ShareLink::from_bytes(&link.to_bytes().unwrap()).unwrap();
    assert_eq!(read, ShareLink::new(hash(1), key(), vec![fits, String::from("c")]));
}

#[test]
fn share_link_without_shards() {
    let link = ShareLink::new(hash(9), key(), Vec::new());
    assert_eq!(link.payload().len(), 65);
    assert_eq!(ShareLink::from_bytes(&link.to_bytes().unwrap()), Ok(link));
}

#[test]
fn share_link_errors() {
    assert_eq!(ShareLink::from_bytes(&[]), Err(Error::Truncated));
    assert_eq!(ShareLink::from_bytes(&[1, 2, 3]), Err(Error::InvalidFormat(1)));
    assert_eq!(ShareLink::from_bytes(&[0, 2, 3]), Err(Error::Zstd));
    let mut short = vec![0u8];
    short.extend_from_slice(&flowerchat::compress::compress(&[5u8; 64]).unwrap());
    assert_eq!(ShareLink::from_bytes(&short), Err(Error::Truncated));
    let mut payload = vec![5u8; 65];
    payload.extend_from_slice(&[3, 0, b'a']);
    assert_eq!(ShareLink::from_payload(&payload), Err(Error::Truncated));
    payload.truncate(66);
    assert_eq!(ShareLink::from_payload(&payload), Err(Error::Truncated));
}

#[test]
fn share_link_replaces_ill_formed_addresses() {
    let mut payload = vec![5u8; 65];
    payload.extend_from_slice(&[2, 0, b'a', 0xFF]);
    let link = ShareLink::from_payload(&payload).unwrap();
    assert_eq!(link.shards(), &vec![String::from("a\u{FFFD}")]);
}
