use filedrop::models::{DeviceIdentity, FileMetadata, TransferOffer};
use filedrop::protocol::OfferResponse;
use filedrop::sending::{sender_step, SenderAction, SenderEvent, SenderState};

fn two_file_offer() -> TransferOffer {
    TransferOffer {
        protocol_version: 1,
        transfer_id: "t-7".to_string(),
        sender: DeviceIdentity {
            id: "s".to_string(),
            name: "Sender".to_string(),
            platform: "test".to_string(),
        },
        files: vec![
            FileMetadata { name: "a.txt".to_string(), size: 3, sha256: "x".to_string() },
            FileMetadata { name: "b.txt".to_string(), size: 2, sha256: "y".to_string() },
        ],
        total_bytes: 5,
    }
}

#[test]
fn a_sender_sends_the_offer_each_file_and_the_completion_in_order() {
    let offer = two_file_offer();
    let (s, a) = sender_step(&offer, SenderState::Connected, SenderEvent::Ready);
    assert!(matches!(a, SenderAction::SendOffer));
    let (s, a) = sender_step(&offer, s, SenderEvent::Answer(OfferResponse::Accepted));
    assert!(matches!(a, SenderAction::ReadFlag));
    let (s, a) = sender_step(&offer, s, SenderEvent::Flag(false));
    match a {
        SenderAction::SendHeader(h) => {
            assert_eq!(h.transfer_id, "t-7");
            assert_eq!(h.file_index, 0);
            assert_eq!(h.file.name, "a.txt");
            assert_eq!(h.file.size, 3);
        }
        _ => panic!("expected the first header"),
    }
    let (s, a) = sender_step(&offer, s, SenderEvent::Flag(false));
    assert!(matches!(a, SenderAction::ReadFile));
    let (s, a) = sender_step(&offer, s, SenderEvent::Read(2));
    assert!(matches!(a, SenderAction::SendChunk { file_index: 0, transferred: 2 }));
    let (s, _) = sender_step(&offer, s, SenderEvent::Flag(false));
    let (s, a) = sender_step(&offer, s, SenderEvent::Read(1));
    assert!(matches!(a, SenderAction::SendChunk { file_index: 0, transferred: 3 }));
    let (s, _) = sender_step(&offer, s, SenderEvent::Flag(false));
    let (s, a) = sender_step(&offer, s, SenderEvent::Read(0));
    assert!(matches!(a, SenderAction::ReadFlag));
    assert!(matches!(s, SenderState::BeforeFile { next: 1, transferred: 3 }));
    let (s, a) = sender_step(&offer, s, SenderEvent::Flag(false));
    match a {
        SenderAction::SendHeader(h) => {
            assert_eq!(h.file_index, 1);
            assert_eq!(h.file.name, "b.txt");
        }
        _ => panic!("expected the second header"),
    }
    let (s, _) = sender_step(&offer, s, SenderEvent::Flag(false));
    let (s, a) = sender_step(&offer, s, SenderEvent::Read(2));
    assert!(matches!(a, SenderAction::SendChunk { file_index: 1, transferred: 5 }));
    let (s, _) = sender_step(&offer, s, SenderEvent::Flag(false));
    let (s, a) = sender_step(&offer, s, SenderEvent::Read(0));
    match a {
        SenderAction::SendCompletion(c) => assert_eq!(c.transfer_id, "t-7"),
        _ => panic!("expected the completion frame"),
    }
    assert!(matches!(s, SenderState::Completed { transferred: 5 }));
}

#[test]
fn a_denied_offer_stops_the_sender_with_the_receivers_message() {
    let offer = two_file_offer();
    let (s, _) = sender_step(&offer, SenderState::Connected, SenderEvent::Ready);
    let denied = OfferResponse::Denied { message: "No room".to_string() };
    let (s, a) = sender_step(&offer, s, SenderEvent::Answer(denied));
    assert!(matches!(s, SenderState::Stopped));
    match a {
        SenderAction::Stop(m) => assert_eq!(m, "No room"),
        _ => panic!("expected a stop"),
    }
}

#[test]
fn a_cancelled_sender_stops_before_the_next_file_or_read() {
    let offer = two_file_offer();
    let before = SenderState::BeforeFile { next: 0, transferred: 0 };
    let (s, a) = sender_step(&offer, before, SenderEvent::Flag(true));
    assert!(matches!(s, SenderState::Stopped));
    match a {
        SenderAction::Stop(m) => assert_eq!(m, "Transfer cancelled"),
        _ => panic!("expected a stop"),
    }
    let inside = SenderState::InFile { index: 1, file_bytes: 1, transferred: 4 };
    let (_, a) = sender_step(&offer, inside, SenderEvent::Flag(true));
    match a {
        SenderAction::Stop(m) => assert_eq!(m, "Transfer cancelled"),
        _ => panic!("expected a stop"),
    }
}

#[test]
fn a_file_that_changed_size_stops_the_sender() {
    let offer = two_file_offer();
    let shorter = SenderState::Reading { index: 0, file_bytes: 2, transferred: 2 };
    let (s, a) = sender_step(&offer, shorter, SenderEvent::Read(0));
    assert!(matches!(s, SenderState::Stopped));
    match a {
        SenderAction::Stop(m) => assert_eq!(m, "a.txt changed while it was being sent"),
        _ => panic!("expected a stop"),
    }
    let longer = SenderState::Reading { index: 1, file_bytes: 3, transferred: 6 };
    let (_, a) = sender_step(&offer, longer, SenderEvent::Read(0));
    match a {
        SenderAction::Stop(m) => assert_eq!(m, "b.txt changed while it was being sent"),
        _ => panic!("expected a stop"),
    }
}

#[test]
fn an_offer_without_files_completes_once_accepted() {
    let mut offer = two_file_offer();
    offer.files.clear();
    offer.total_bytes = 0;
    let (s, a) = sender_step(&offer, SenderState::AwaitingAnswer, SenderEvent::Answer(OfferResponse::Accepted));
    assert!(matches!(s, SenderState::Completed { transferred: 0 }));
    assert!(matches!(a, SenderAction::SendCompletion(_)));
}
