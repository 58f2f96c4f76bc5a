use filedrop::models::{DeviceIdentity, FileMetadata, TransferOffer};
use filedrop::protocol::{FileHeader, OfferResponse, TransferComplete};
use filedrop::receiving::{receiver_step, ReceiverAction, ReceiverEvent, ReceiverState};

const ABC_DIGEST: &str = "ba7816bf8f01cfea414140de5dae2223b00361a396177a9cb410ff61f20015ad";
const HI_DIGEST: &str = "8f434346648f6b96df89dda901c5176b10a6d83961dd3c1ac88b59b2dc327aa4";

fn file(name: &str, size: u64, digest: &str) -> FileMetadata {
    FileMetadata { name: name.to_string(), size, sha256: digest.to_string() }
}

fn offer_of(files: Vec<FileMetadata>) -> TransferOffer {
    let total_bytes = files.iter().map(|f| f.size).sum();
    TransferOffer {
        protocol_version: 1,
        transfer_id: "t-7".to_string(),
        sender: DeviceIdentity {
            id: "s".to_string(),
            name: "Sender".to_string(),
            platform: "test".to_string(),
        },
        files,
        total_bytes,
    }
}

fn two_files() -> TransferOffer {
    offer_of(vec![file("a.txt", 3, ABC_DIGEST), file("b.txt", 2, HI_DIGEST)])
}

fn header(offer: &TransferOffer, index: usize) -> FileHeader {
    FileHeader {
        transfer_id: offer.transfer_id.clone(),
        file_index: index,
        file: offer.files[index].clone(),
    }
}

fn check_name(a: &ReceiverAction) -> String {
    match a {
        ReceiverAction::CheckExists(n) => n.clone(),
        _ => panic!("expected a name to check"),
    }
}

fn stop_of(a: ReceiverAction) -> (String, bool) {
    match a {
        ReceiverAction::Stop { message, clean_up } => (message, clean_up),
        _ => panic!("expected a stop"),
    }
}

/// Runs an accepted offer up to the first file's header, with no names
/// taken on disk.
fn accepted(offer: &TransferOffer) -> ReceiverState {
    let (s, a) = receiver_step(offer, ReceiverState::Offered, ReceiverEvent::Start);
    assert!(matches!(a, ReceiverAction::AskUser));
    let (s, a) = receiver_step(offer, s, ReceiverEvent::Decided(true));
    assert!(matches!(a, ReceiverAction::Accept));
    let (mut s, _) = receiver_step(offer, s, ReceiverEvent::Ready);
    for _ in 0..offer.files.len() {
        let (next, _) = receiver_step(offer, s, ReceiverEvent::Exists(false));
        s = next;
    }
    s
}

#[test]
fn a_receiver_plans_receives_checks_and_saves_in_order() {
    let offer = two_files();
    let (s, _) = receiver_step(&offer, ReceiverState::Offered, ReceiverEvent::Start);
    let (s, _) = receiver_step(&offer, s, ReceiverEvent::Decided(true));
    let (s, a) = receiver_step(&offer, s, ReceiverEvent::Ready);
    assert_eq!(check_name(&a), "a.txt");
    let (s, a) = receiver_step(&offer, s, ReceiverEvent::Exists(true));
    assert_eq!(check_name(&a), "a (1).txt");
    let (s, a) = receiver_step(&offer, s, ReceiverEvent::Exists(false));
    assert_eq!(check_name(&a), "b.txt");
    let (s, a) = receiver_step(&offer, s, ReceiverEvent::Exists(false));
    assert!(matches!(a, ReceiverAction::ReadFlag));
    let (s, a) = receiver_step(&offer, s, ReceiverEvent::Flag(false));
    assert!(matches!(a, ReceiverAction::ReadHeader));
    let (s, a) = receiver_step(&offer, s, ReceiverEvent::Header(header(&offer, 0)));
    match &a {
        ReceiverAction::CreateTemporary(n) => assert_eq!(n, ".filedrop-t-7-0.part"),
        _ => panic!("expected a temporary file"),
    }
    let (s, a) = receiver_step(&offer, s, ReceiverEvent::Opened);
    assert!(matches!(a, ReceiverAction::ReadFlag));
    let (s, a) = receiver_step(&offer, s, ReceiverEvent::Flag(false));
    assert!(matches!(a, ReceiverAction::Read { remaining: 3 }));
    let (s, a) = receiver_step(&offer, s, ReceiverEvent::Received(b"ab".to_vec()));
    assert!(matches!(a, ReceiverAction::Write { file_index: 0, transferred: 2 }));
    let (s, a) = receiver_step(&offer, s, ReceiverEvent::Written);
    assert!(matches!(a, ReceiverAction::ReadFlag));
    let (s, a) = receiver_step(&offer, s, ReceiverEvent::Flag(false));
    assert!(matches!(a, ReceiverAction::Read { remaining: 1 }));
    let (s, a) = receiver_step(&offer, s, ReceiverEvent::Received(b"c".to_vec()));
    assert!(matches!(a, ReceiverAction::Write { file_index: 0, transferred: 3 }));
    let (s, a) = receiver_step(&offer, s, ReceiverEvent::Written);
    assert!(matches!(a, ReceiverAction::Sync));
    let (s, a) = receiver_step(&offer, s, ReceiverEvent::Synced);
    assert!(matches!(a, ReceiverAction::ReadFlag));
    let (s, _) = receiver_step(&offer, s, ReceiverEvent::Flag(false));
    let (s, _) = receiver_step(&offer, s, ReceiverEvent::Header(header(&offer, 1)));
    let (s, _) = receiver_step(&offer, s, ReceiverEvent::Opened);
    let (s, _) = receiver_step(&offer, s, ReceiverEvent::Flag(false));
    let (s, a) = receiver_step(&offer, s, ReceiverEvent::Received(b"hi".to_vec()));
    assert!(matches!(a, ReceiverAction::Write { file_index: 1, transferred: 5 }));
    let (s, _) = receiver_step(&offer, s, ReceiverEvent::Written);
    let (s, a) = receiver_step(&offer, s, ReceiverEvent::Synced);
    assert!(matches!(a, ReceiverAction::ReadCompletion));
    let done = TransferComplete { transfer_id: "t-7".to_string() };
    let (s, a) = receiver_step(&offer, s, ReceiverEvent::Completion(done));
    match a {
        ReceiverAction::Rename { temporary, destination } => {
            assert_eq!(temporary, ".filedrop-t-7-0.part");
            assert_eq!(destination, "a (1).txt");
        }
        _ => panic!("expected a rename"),
    }
    let (s, a) = receiver_step(&offer, s, ReceiverEvent::Renamed);
    match a {
        ReceiverAction::Rename { temporary, destination } => {
            assert_eq!(temporary, ".filedrop-t-7-1.part");
            assert_eq!(destination, "b.txt");
        }
        _ => panic!("expected a rename"),
    }
    let (s, a) = receiver_step(&offer, s, ReceiverEvent::Renamed);
    assert!(matches!(s, ReceiverState::Done));
    match a {
        ReceiverAction::Finish(names) => assert_eq!(names, vec!["a (1).txt", "b.txt"]),
        _ => panic!("expected the end"),
    }
}

#[test]
fn files_of_the_same_name_get_different_destinations() {
    let offer = offer_of(vec![file("x.txt", 3, ABC_DIGEST), file("x.txt", 3, ABC_DIGEST)]);
    let (s, _) = receiver_step(&offer, ReceiverState::Offered, ReceiverEvent::Start);
    let (s, _) = receiver_step(&offer, s, ReceiverEvent::Decided(true));
    let (s, a) = receiver_step(&offer, s, ReceiverEvent::Ready);
    assert_eq!(check_name(&a), "x.txt");
    let (s, a) = receiver_step(&offer, s, ReceiverEvent::Exists(false));
    assert_eq!(check_name(&a), "x.txt");
    let (_, a) = receiver_step(&offer, s, ReceiverEvent::Exists(false));
    assert_eq!(check_name(&a), "x (1).txt");
}

#[test]
fn a_declined_offer_is_refused_and_reported() {
    let offer = two_files();
    let (s, _) = receiver_step(&offer, ReceiverState::Offered, ReceiverEvent::Start);
    let (s, a) = receiver_step(&offer, s, ReceiverEvent::Decided(false));
    match a {
        ReceiverAction::Decline(OfferResponse::Denied { message }) => {
            assert_eq!(message, "The receiving device denied the transfer")
        }
        _ => panic!("expected a refusal"),
    }
    let (_, a) = receiver_step(&offer, s, ReceiverEvent::Sent);
    assert_eq!(stop_of(a), ("Transfer denied".to_string(), false));
}

#[test]
fn an_invalid_offer_stops_before_the_user_is_asked() {
    let mut offer = two_files();
    offer.total_bytes = 9;
    let (s, a) = receiver_step(&offer, ReceiverState::Offered, ReceiverEvent::Start);
    assert!(matches!(s, ReceiverState::Stopped));
    assert_eq!(
        stop_of(a),
        ("The transfer size does not match its file list".to_string(), false)
    );
}

#[test]
fn failures_while_files_arrive_remove_the_temporary_files() {
    let offer = two_files();
    let s = accepted(&offer);
    let (_, a) = receiver_step(&offer, s, ReceiverEvent::Flag(true));
    assert_eq!(stop_of(a), ("Transfer cancelled".to_string(), true));

    let s = accepted(&offer);
    let (s, _) = receiver_step(&offer, s, ReceiverEvent::Flag(false));
    let (_, a) = receiver_step(&offer, s, ReceiverEvent::Header(header(&offer, 1)));
    assert_eq!(
        stop_of(a),
        ("The sender provided unexpected file metadata".to_string(), true)
    );

    let s = accepted(&offer);
    let (s, _) = receiver_step(&offer, s, ReceiverEvent::Flag(false));
    let (s, _) = receiver_step(&offer, s, ReceiverEvent::Header(header(&offer, 0)));
    let (s, _) = receiver_step(&offer, s, ReceiverEvent::Opened);
    let (s, _) = receiver_step(&offer, s, ReceiverEvent::Flag(false));
    let (_, a) = receiver_step(&offer, s, ReceiverEvent::Received(Vec::new()));
    assert_eq!(
        stop_of(a),
        ("The sender disconnected before the transfer completed".to_string(), true)
    );

    let s = accepted(&offer);
    let (s, _) = receiver_step(&offer, s, ReceiverEvent::Flag(false));
    let (s, _) = receiver_step(&offer, s, ReceiverEvent::Header(header(&offer, 0)));
    let (_, a) = receiver_step(&offer, s, ReceiverEvent::Failed("disk full".to_string()));
    assert_eq!(stop_of(a), ("disk full".to_string(), true));
}

#[test]
fn a_file_with_the_wrong_digest_is_refused() {
    let offer = two_files();
    let s = accepted(&offer);
    let (s, _) = receiver_step(&offer, s, ReceiverEvent::Flag(false));
    let (s, _) = receiver_step(&offer, s, ReceiverEvent::Header(header(&offer, 0)));
    let (s, _) = receiver_step(&offer, s, ReceiverEvent::Opened);
    let (s, _) = receiver_step(&offer, s, ReceiverEvent::Flag(false));
    let (s, _) = receiver_step(&offer, s, ReceiverEvent::Received(b"abd".to_vec()));
    let (s, _) = receiver_step(&offer, s, ReceiverEvent::Written);
    let (_, a) = receiver_step(&offer, s, ReceiverEvent::Synced);
    assert_eq!(stop_of(a), ("a.txt failed its integrity check".to_string(), true));
}

#[test]
fn the_completion_frame_decides_whether_files_are_kept() {
    let offer = offer_of(vec![file("empty.txt", 0, "e3b0c44298fc1c149afbf4c8996fb92427ae41e4649b934ca495991b7852b855")]);
    let s = accepted(&offer);
    let (s, _) = receiver_step(&offer, s, ReceiverEvent::Flag(false));
    let (s, _) = receiver_step(&offer, s, ReceiverEvent::Header(header(&offer, 0)));
    let (s, a) = receiver_step(&offer, s, ReceiverEvent::Opened);
    assert!(matches!(a, ReceiverAction::Sync));
    let (s, a) = receiver_step(&offer, s, ReceiverEvent::Synced);
    assert!(matches!(a, ReceiverAction::ReadCompletion));
    let wrong = TransferComplete { transfer_id: "other".to_string() };
    let (_, a) = receiver_step(&offer, s, ReceiverEvent::Completion(wrong));
    assert_eq!(
        stop_of(a),
        ("The transfer completion message did not match the offer".to_string(), true)
    );
    let stuck = ReceiverState::AwaitingCompletion { planned: vec!["empty.txt".to_string()] };
    let (_, a) = receiver_step(&offer, stuck, ReceiverEvent::Failed("gone".to_string()));
    assert_eq!(stop_of(a), ("gone".to_string(), false));
}
