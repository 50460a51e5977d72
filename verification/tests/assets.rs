use spadina::asset::compression::{asset_payload, compressed_payload, DECODED_LIMIT};
use spadina::asset::extraction::ExtractChildren;
use spadina::asset::{extract_children, Asset, Compression, Licence, LicenceUses, Loaded};
use spadina::asset_store::file_system_asset_store::FileSystemAssetStore;
use spadina::asset_store::{FileSystemStore, LoadError};
use spadina::auth::compute_fingerprint;
use spadina::capabilities::all_supported;
use spadina::communication::AnnouncementTime;
use spadina::reference_converter::{AsReference, IntoOwned};
use spadina::time::Timestamp;
use std::collections::BTreeSet;

#[test]
fn licences_have_short_names() {
    assert_eq!(Licence::CreativeCommons(LicenceUses::Commercial).name(), "cc");
    assert_eq!(Licence::CreativeCommons(LicenceUses::NonCommercial).name(), "cc-nc");
    assert_eq!(Licence::CreativeCommonsNoDerivatives(LicenceUses::Commercial).name(), "cc-nd");
    assert_eq!(Licence::CreativeCommonsNoDerivatives(LicenceUses::NonCommercial).name(), "cc-nd-nc");
    assert_eq!(Licence::CreativeCommonsShareALike(LicenceUses::Commercial).name(), "cc-sa");
    assert_eq!(Licence::CreativeCommonsShareALike(LicenceUses::NonCommercial).name(), "cc-sa-nc");
    assert_eq!(Licence::PubDom.name(), "public");
}

#[test]
fn the_principal_hash_digests_the_asset() {
    let asset = Asset {
        asset_type: "image".to_string(),
        author: "alice".to_string(),
        server: "example.com".to_string(),
        capabilities: vec![],
        children: vec![],
        compression: Compression::MessagePack,
        data: vec![1u8, 2],
        licence: Licence::CreativeCommons(LicenceUses::NonCommercial),
        name: "logo".to_string(),
        tags: vec!["red".to_string(), "round".to_string()],
        created: Timestamp { seconds: 0, nanos: 0 },
    };
    assert_eq!(
        asset.principal_hash(),
        "c654867da2cb7356ef51cc61e80acb3603f8a96a7dbe99bbb308741a73a2a9de6c37bc04b083989fd86eaad271a1a14324387f8c68e2095408d64870c20212e4"
    );
}

#[test]
fn assets_can_be_borrowed_and_owned_again() {
    let asset = Asset {
        asset_type: "image".to_string(),
        author: "alice".to_string(),
        server: "example.com".to_string(),
        capabilities: vec!["colour".to_string()],
        children: vec!["a".to_string(), "b".to_string()],
        compression: Compression::ZstdMessagePack,
        data: vec![9u8, 8, 7],
        licence: Licence::PubDom,
        name: "logo".to_string(),
        tags: vec!["red".to_string(), "round".to_string(), "small".to_string()],
        created: Timestamp { seconds: 12, nanos: 34 },
    };
    let borrowed: Asset<&str, &[u8]> = asset.reference(AsReference);
    assert_eq!(borrowed.asset_type, "image");
    assert_eq!(borrowed.server, "example.com");
    assert_eq!(borrowed.children, vec!["a", "b"]);
    assert_eq!(borrowed.tags, vec!["red", "round", "small"]);
    assert_eq!(borrowed.data, &[9u8, 8, 7][..]);
    assert_eq!(borrowed.compression, Compression::ZstdMessagePack);
    let owned: Asset<String, Vec<u8>> = borrowed.convert(IntoOwned);
    assert_eq!(owned.author, "alice");
    assert_eq!(owned.capabilities, vec!["colour".to_string()]);
    assert_eq!(owned.tags, asset.tags);
    assert_eq!(owned.data, vec![9u8, 8, 7]);
    assert_eq!(owned.created, Timestamp { seconds: 12, nanos: 34 });
    assert_eq!(owned.principal_hash(), asset.principal_hash());
}

#[test]
fn fingerprints_are_hexadecimal_digests() {
    assert_eq!(compute_fingerprint(&[]), "a7ffc6f8bf1ed76651c14756a061d662f580ff4de43b49fa82d80a4b80f8434a");
    assert_eq!(compute_fingerprint(&[1, 2, 3]), "fd1780a6fc9ee0dab26ceb4b3941ab03e66ccd970d1db91612c66df4515b0a0a");
}

#[test]
fn loaded_values_remember_their_asset() {
    let loaded = Loaded::new("asset-1".to_string(), 42u32);
    assert_eq!(loaded.asset(), "asset-1");
    assert_eq!(*loaded.get(), 42);
    assert_eq!(*loaded, 42);
    let copy = loaded.clone();
    assert_eq!(copy.asset(), "asset-1");
    assert_eq!(*copy, 42);
    let mut children = BTreeSet::new();
    "asset-2".to_string().extract_children(&mut children);
    assert!(children.contains("asset-2"));
}

#[test]
fn unknown_assets_have_no_children() {
    assert_eq!(extract_children("anything", &[1, 2, 3]), None);
}

#[test]
fn no_capability_is_supported_yet() {
    assert_eq!(all_supported(vec![]), Ok(BTreeSet::new()));
    assert_eq!(all_supported(vec!["flight".to_string(), "swim".to_string()]), Err("flight".to_string()));
}

#[test]
fn asset_paths_split_the_identifier() {
    let store = FileSystemStore::new("/assets".to_string(), vec![4, 2]);
    assert_eq!(store.get_path("AAAABBCCCC"), vec!["AAAA".to_string(), "BB".to_string(), "CCCC".to_string()]);
    assert_eq!(store.get_path("AAAABB"), vec!["AAAA".to_string(), "BB".to_string(), "".to_string()]);
    assert!(store.fits("AAAABBCCCC"));
    assert_eq!(store.root(), "/assets");
    let store = FileSystemAssetStore::new("/assets".to_string(), vec![4, 2]);
    assert_eq!(store.get_path("AAAAB"), vec!["AAAA".to_string(), "B".to_string()]);
    let store = FileSystemAssetStore::new((), vec![2, 0, 2]);
    assert_eq!(store.get_path("ABCDEF"), vec!["AB".to_string(), "CDEF".to_string()]);
    let store = FileSystemAssetStore::new((), vec![1, 1]);
    assert_eq!(store.get_path("é1"), vec!["é1".to_string()]);
    // Only the splits the scan reaches must fit when added to what was taken.
    let store = FileSystemAssetStore::new((), vec![2, usize::MAX]);
    assert!(!store.fits("ABCD"));
    let store = FileSystemAssetStore::new((), vec![5, usize::MAX]);
    assert!(store.fits("ABCD"));
    assert_eq!(store.get_path("ABCD"), vec!["ABCD".to_string()]);
}

#[test]
fn load_errors_describe_themselves() {
    assert_eq!(LoadError::Corrupt.description(), "asset is corrupt");
    assert_eq!(LoadError::InternalError.description(), "internal error");
    assert_eq!(LoadError::Unknown.description(), "unknown problem");
}

#[test]
fn announcements_expire() {
    let start = Timestamp { seconds: 1000, nanos: 5 };
    assert_eq!(AnnouncementTime::Until(start).expires(), start);
    assert_eq!(AnnouncementTime::Starts(start, 3).expires(), Timestamp { seconds: 1180, nanos: 5 });
}

#[test]
fn payload_round_trips_through_zstandard() {
    let payload: Vec<u8> = (0..200u32).map(|i| (i % 7) as u8).collect();
    let stored = compressed_payload(Compression::ZstdMessagePack, &payload).expect("encodes");
    assert_ne!(stored, payload);
    assert_eq!(asset_payload(Compression::ZstdMessagePack, &stored), Some(payload.clone()));
    assert_eq!(compressed_payload(Compression::MessagePack, &payload), Some(payload.clone()));
    assert_eq!(asset_payload(Compression::MessagePack, &payload), Some(payload));
}

#[test]
fn zstandard_payload_limits() {
    assert_eq!(asset_payload(Compression::ZstdMessagePack, b"not zstandard"), None);
    let large = vec![1u8; DECODED_LIMIT + 1];
    let stored = compressed_payload(Compression::ZstdMessagePack, &large).expect("encodes");
    assert_eq!(asset_payload(Compression::ZstdMessagePack, &stored), None);
    let fits = vec![1u8; DECODED_LIMIT];
    let stored = compressed_payload(Compression::ZstdMessagePack, &fits).expect("encodes");
    assert_eq!(asset_payload(Compression::ZstdMessagePack, &stored), Some(fits));
}

#[test]
fn bytes_as_hexadecimal_text() {
    assert_eq!(spadina::digest::hex_encode(&[0x00, 0xab, 0x7f, 0x10]), "00ab7f10");
    assert_eq!(spadina::digest::hex_encode(&[]), "");
}
