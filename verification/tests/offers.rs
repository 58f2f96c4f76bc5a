use filedrop::integrity::{check_received_digest, digest_hex, lower_hex, Sha256Stream};
use filedrop::models::{DeviceIdentity, FileMetadata, TransferOffer, PROTOCOL_VERSION};
use filedrop::offer::{
    assemble_offer, check_regular_file, checked_sizes_total, check_selection, hex_digest_text, selected_file_name,
    validate_offer, OfferDraft,
};

const ABC_SHA256: &str = "ba7816bf8f01cfea414140de5dae2223b00361a396177a9cb410ff61f20015ad";

fn sender() -> DeviceIdentity {
    DeviceIdentity {
        id: "sender-id".to_string(),
        name: "Virtual Mac".to_string(),
        platform: "test".to_string(),
    }
}

fn file(name: &str, size: u64) -> FileMetadata {
    FileMetadata { name: name.to_string(), size, sha256: ABC_SHA256.to_string() }
}

fn offer(files: Vec<FileMetadata>) -> TransferOffer {
    let total = files.iter().map(|f| f.size).sum();
    TransferOffer {
        protocol_version: PROTOCOL_VERSION,
        transfer_id: "t-1".to_string(),
        sender: sender(),
        files,
        total_bytes: total,
    }
}

#[test]
fn a_sound_offer_is_accepted() {
    assert_eq!(validate_offer(&offer(vec![file("a.txt", 3), file("b.bin", 256)])), Ok(()));
}

#[test]
fn offers_are_refused_with_the_first_failing_check() {
    let mut o = offer(vec![file("a.txt", 3)]);
    o.protocol_version = 7;
    assert_eq!(
        validate_offer(&o).unwrap_err(),
        "This device uses FileDrop protocol 1, but the sender uses protocol 7"
    );

    assert_eq!(
        validate_offer(&offer(vec![])).unwrap_err(),
        "The transfer contains an invalid number of files"
    );
    let many: Vec<FileMetadata> = (0..513).map(|i| file(&format!("f{i}"), 1)).collect();
    assert_eq!(
        validate_offer(&offer(many)).unwrap_err(),
        "The transfer contains an invalid number of files"
    );

    let mut o = offer(vec![file("a.txt", 3)]);
    o.sender.name = " \t\u{3000}".to_string();
    assert_eq!(validate_offer(&o).unwrap_err(), "The sender identity is invalid");
    let mut o = offer(vec![file("a.txt", 3)]);
    o.sender.id = String::new();
    assert_eq!(validate_offer(&o).unwrap_err(), "The sender identity is invalid");

    assert_eq!(
        validate_offer(&offer(vec![file("ok", 1), file("../x", 1)])).unwrap_err(),
        "The transfer contains an unsafe file name"
    );

    let mut bad = file("pic.png", 1);
    bad.sha256 = ABC_SHA256.to_uppercase().replace('A', "g");
    assert_eq!(
        validate_offer(&offer(vec![bad])).unwrap_err(),
        "pic.png has an invalid integrity hash"
    );

    let o = offer(vec![file("a", u64::MAX), file("b", 0)]);
    assert_eq!(validate_offer(&o), Ok(()));
    let mut o = offer(vec![file("a", u64::MAX)]);
    o.files.push(file("b", 1));
    assert_eq!(validate_offer(&o).unwrap_err(), "The transfer size is too large");

    let mut o = offer(vec![file("a.txt", 3)]);
    o.total_bytes = 4;
    assert_eq!(
        validate_offer(&o).unwrap_err(),
        "The transfer size does not match its file list"
    );
}

#[test]
fn digest_text_must_be_sixty_four_hex_bytes() {
    assert!(hex_digest_text(ABC_SHA256));
    assert!(hex_digest_text(&ABC_SHA256.to_uppercase()));
    assert!(!hex_digest_text(&ABC_SHA256[1..]));
    assert!(!hex_digest_text(&format!("{}é", &ABC_SHA256[2..])));
}

#[test]
fn digests_are_lowercase_hex_of_sha256() {
    let mut h = Sha256Stream::new();
    h.update(b"a");
    h.update(b"bc");
    assert_eq!(digest_hex(h), ABC_SHA256);
    assert_eq!(
        digest_hex(Sha256Stream::new()),
        "e3b0c44298fc1c149afbf4c8996fb92427ae41e4649b934ca495991b7852b855"
    );
    assert_eq!(lower_hex(&vec![0, 15, 16, 255]), "000f10ff");
}

#[test]
fn received_files_are_checked_against_their_digest() {
    let expected = file("abc.txt", 3);
    let mut h = Sha256Stream::new();
    h.update(b"abc");
    assert_eq!(check_received_digest(&expected, h), Ok(()));
    let mut h = Sha256Stream::new();
    h.update(b"abd");
    assert_eq!(
        check_received_digest(&expected, h).unwrap_err(),
        "abc.txt failed its integrity check"
    );
}

#[test]
fn assembled_offers_carry_a_fresh_id_and_the_total() {
    let a = assemble_offer(&sender(), vec![file("a.txt", 3), file("b", 7)]);
    let b = assemble_offer(&sender(), vec![file("a.txt", 3)]);
    assert_eq!(a.total_bytes, 10);
    assert_eq!(a.protocol_version, 1);
    assert_eq!(a.sender, sender());
    assert_eq!(a.transfer_id.len(), 36);
    assert_eq!(a.transfer_id.as_bytes()[14], b'4');
    assert_ne!(a.transfer_id, b.transfer_id);
    assert_eq!(validate_offer(&a), Ok(()));
}

#[test]
fn selections_are_checked() {
    assert_eq!(check_selection(0).unwrap_err(), "Select at least one file");
    assert_eq!(check_selection(513).unwrap_err(), "A transfer can contain at most 512 files");
    assert!(check_selection(512).is_ok());
    assert_eq!(check_regular_file("/tmp/x", false).unwrap_err(), "/tmp/x is not a file");
    assert!(check_regular_file("/tmp/x", true).is_ok());
    assert_eq!(selected_file_name("/tmp/a.txt", Some("a.txt".to_string())).unwrap(), "a.txt");
    assert_eq!(
        selected_file_name("/", None).unwrap_err(),
        "/ does not have a valid file name"
    );
    assert_eq!(
        selected_file_name("x", Some(String::new())).unwrap_err(),
        "x does not have a valid file name"
    );
}

#[test]
fn selected_sizes_are_summed_without_overflow() {
    assert_eq!(checked_sizes_total(&vec![file("a", 3), file("b", 4)]), Some(7));
    assert_eq!(checked_sizes_total(&vec![]), Some(0));
    assert_eq!(checked_sizes_total(&vec![file("a", u64::MAX), file("b", 0)]), Some(u64::MAX));
    assert_eq!(checked_sizes_total(&vec![file("a", u64::MAX), file("b", 1)]), None);
}

fn fed(bytes: &[u8]) -> Sha256Stream {
    let mut h = Sha256Stream::new();
    h.update(bytes);
    h
}

#[test]
fn a_prepared_offer_passes_the_receivers_checks() {
    let mut draft = OfferDraft::start(2).unwrap();
    let name = OfferDraft::offered_name("/tmp/a.txt", true, Some("a.txt".to_string())).unwrap();
    draft.add(name, 3, fed(b"abc"));
    draft.add("b.bin".to_string(), 0, fed(b""));
    assert_eq!(draft.total_size(), Some(3));
    let offer = draft.finish(&sender());
    assert_eq!(offer.files[0].sha256, ABC_SHA256);
    assert_eq!(offer.files[1].name, "b.bin");
    assert_eq!(offer.total_bytes, 3);
    assert_eq!(validate_offer(&offer), Ok(()));
}

#[test]
fn a_prepared_offer_with_an_unsafe_name_is_refused_by_the_receiver() {
    let mut draft = OfferDraft::start(1).unwrap();
    draft.add("dir\\a.txt".to_string(), 3, fed(b"abc"));
    let offer = draft.finish(&sender());
    assert_eq!(
        validate_offer(&offer),
        Err("The transfer contains an unsafe file name".to_string())
    );
}

#[test]
fn preparing_an_offer_checks_the_selection_and_each_path() {
    assert_eq!(OfferDraft::start(0).err().unwrap(), "Select at least one file");
    assert_eq!(
        OfferDraft::start(513).err().unwrap(),
        "A transfer can contain at most 512 files"
    );
    assert_eq!(
        OfferDraft::offered_name("/tmp/d", false, Some("d".to_string())),
        Err("/tmp/d is not a file".to_string())
    );
    assert_eq!(
        OfferDraft::offered_name("/", true, None),
        Err("/ does not have a valid file name".to_string())
    );
    let mut draft = OfferDraft::start(2).unwrap();
    draft.add("a".to_string(), u64::MAX, fed(b""));
    draft.add("b".to_string(), 1, fed(b""));
    assert_eq!(draft.total_size(), None);
}
