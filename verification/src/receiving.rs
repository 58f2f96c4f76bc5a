//! The receiving side of a transfer as a state machine: the offer is
//! checked and put to the user, declined or accepted, every file gets a
//! destination of its own, the files arrive in order into temporary files
//! and are checked against their digests, and only after the sender's
//! completion frame are they moved to their destinations. Failures while
//! files arrive remove the temporary files.

use vstd::prelude::*;
use crate::models::TransferOffer;
use crate::names::{
    candidate_name, destination_candidate, is_unsafe_file_name, portable_file_name, portable_name,
    temporary_file_name, unique_destination, unsafe_name_message, DestinationStep, ReservedNames,
    MAX_COPY_NUMBERS,
};
use crate::offer::{lemma_sizes_total_step, offer_check, sizes_total, validate_offer};
use crate::protocol::{FileHeader, OfferResponse, TransferComplete};
use crate::cancel::cancelled_message;
use crate::sending::{sender_expects, sender_moves, sender_state_fits, SenderAction, SenderEvent, SenderState};
use crate::text::decimal;
use crate::transfer::{
    check_completion, decline_offer, denied_message, same_file, unexpected_header_message,
    ReceivingFile,
};

verus! {

/// Where a receiver stands.
pub enum ReceiverState {
    /// The offer was read.
    Offered,
    /// The offer passed its checks; the user decides.
    AwaitingDecision,
    /// The user declined; the refusal is being sent.
    Declining,
    /// The user accepted; the download directory is made and the acceptance
    /// sent.
    Accepting,
    /// Choosing the destination of file `index`: copy number `copy` of its
    /// portable name is tried; `planned` holds the destinations chosen for
    /// the files before it, all in `reserved`.
    Planning {
        index: usize,
        portable: String,
        copy: u32,
        reserved: ReservedNames,
        planned: Vec<String>,
    },
    /// File `index` comes next, once the cancellation flag is read;
    /// `transferred` bytes of the files before it arrived.
    BeforeFile { index: usize, planned: Vec<String>, transferred: u64 },
    /// The header of file `index` is awaited.
    AwaitingHeader { index: usize, planned: Vec<String>, transferred: u64 },
    /// The header was right; the temporary file is being created.
    Opening { index: usize, file: ReceivingFile, planned: Vec<String>, transferred: u64 },
    /// Bytes of file `index` are still due; the flag is read before each read.
    InFile { index: usize, file: ReceivingFile, planned: Vec<String>, transferred: u64 },
    /// The flag was clear; a read is due.
    Reading { index: usize, file: ReceivingFile, planned: Vec<String>, transferred: u64 },
    /// The bytes just read are being written to the temporary file.
    Writing { index: usize, file: ReceivingFile, planned: Vec<String>, transferred: u64 },
    /// Every byte of file `index` arrived; the temporary file is being synced.
    Syncing { index: usize, file: ReceivingFile, planned: Vec<String>, transferred: u64 },
    /// Every file arrived; the sender's completion frame is awaited.
    AwaitingCompletion { planned: Vec<String> },
    /// The temporary file of file `index` is being moved to its destination.
    Saving { index: usize, planned: Vec<String> },
    /// Every file was saved.
    Done,
    /// The transfer stopped with an error.
    Stopped,
}

/// What a receiver observed.
pub enum ReceiverEvent {
    /// The offer is ready to be checked.
    Start,
    /// The user's answer: accepted or not.
    Decided(bool),
    /// The refusal was sent.
    Sent,
    /// The download directory exists and the acceptance was sent.
    Ready,
    /// Whether a file of the candidate name exists in the download directory.
    Exists(bool),
    /// The cancellation flag was read: set or not.
    Flag(bool),
    /// A file header arrived.
    Header(FileHeader),
    /// The temporary file was created.
    Opened,
    /// These bytes were read from the connection.
    Received(Vec<u8>),
    /// The bytes were written to the temporary file.
    Written,
    /// The temporary file was synced.
    Synced,
    /// The sender's completion frame arrived.
    Completion(TransferComplete),
    /// The temporary file was moved to its destination.
    Renamed,
    /// An operation of the shell failed with this message.
    Failed(String),
}

/// What a receiver does next.
pub enum ReceiverAction {
    /// Ask the user about the offer.
    AskUser,
    /// Send this refusal.
    Decline(OfferResponse),
    /// Make the download directory and send the acceptance.
    Accept,
    /// Tell whether a file of this name exists in the download directory.
    CheckExists(String),
    /// Read the cancellation flag.
    ReadFlag,
    /// Read the next file header.
    ReadHeader,
    /// Create this temporary file, which must not exist yet.
    CreateTemporary(String),
    /// Read at most this many bytes from the connection.
    Read { remaining: u64 },
    /// Write the bytes just read and report `transferred` bytes received
    /// while at file `file_index`.
    Write { file_index: usize, transferred: u64 },
    /// Sync the temporary file.
    Sync,
    /// Read the completion frame.
    ReadCompletion,
    /// Move a temporary file to its destination.
    Rename { temporary: String, destination: String },
    /// The transfer succeeded; these are the destinations.
    Finish(Vec<String>),
    /// Stop with this message, removing the temporary files when `clean_up`.
    Stop { message: String, clean_up: bool },
}

/// Names taken as text.
pub open spec fn name_views(ns: Seq<String>) -> Seq<Seq<char>> {
    ns.map_values(|n: String| n@)
}

/// The temporary file name of file `index` of transfer `id`.
pub open spec fn temporary_name(id: Seq<char>, index: nat) -> Seq<char> {
    ".filedrop-"@ + id + "-"@ + decimal(index) + ".part"@
}

/// Destinations fit for the first `count` files: one each, no two alike.
pub open spec fn planned_fits(planned: Seq<String>, count: nat) -> bool {
    planned.len() == count && name_views(planned).no_duplicates()
}

/// A file being received fits file `index` of `offer`, with `transferred`
/// counting the files before it and what arrived of it.
pub open spec fn receiving_fits(
    offer: TransferOffer,
    index: usize,
    file: ReceivingFile,
    transferred: u64,
) -> bool {
    &&& index < offer.files@.len()
    &&& file.wf()
    &&& file.size() == offer.files@[index as int].size
    &&& transferred == sizes_total(offer.files@.take(index as int)) + file.received().len()
}

/// A receiver's state fits the offer it receives.
pub open spec fn receiver_state_fits(offer: TransferOffer, s: ReceiverState) -> bool {
    let n = offer.files@.len();
    match s {
        ReceiverState::Planning { index, portable, copy, reserved, planned } => {
            &&& index < n
            &&& planned_fits(planned@, index as nat)
            &&& copy < MAX_COPY_NUMBERS
            &&& !is_unsafe_file_name(offer.files@[index as int].name@)
            &&& portable@ == portable_name(offer.files@[index as int].name@)
            &&& forall|j: int| 0 <= j < index ==> reserved@.contains(#[trigger] planned@[j]@)
        },
        ReceiverState::BeforeFile { index, planned, transferred } => index < n && planned_fits(
            planned@,
            n,
        ) && transferred == sizes_total(offer.files@.take(index as int)),
        ReceiverState::AwaitingHeader { index, planned, transferred } => index < n && planned_fits(
            planned@,
            n,
        ) && transferred == sizes_total(offer.files@.take(index as int)),
        ReceiverState::Opening { index, file, planned, transferred } => planned_fits(planned@, n)
            && receiving_fits(offer, index, file, transferred) && file.received().len() == 0,
        ReceiverState::InFile { index, file, planned, transferred } => planned_fits(planned@, n)
            && receiving_fits(offer, index, file, transferred) && file.remaining() > 0,
        ReceiverState::Reading { index, file, planned, transferred } => planned_fits(planned@, n)
            && receiving_fits(offer, index, file, transferred) && file.remaining() > 0,
        ReceiverState::Writing { index, file, planned, transferred } => planned_fits(planned@, n)
            && receiving_fits(offer, index, file, transferred),
        ReceiverState::Syncing { index, file, planned, transferred } => planned_fits(planned@, n)
            && receiving_fits(offer, index, file, transferred) && file.remaining() == 0,
        ReceiverState::AwaitingCompletion { planned } => planned_fits(planned@, n),
        ReceiverState::Saving { index, planned } => index < n && planned_fits(planned@, n),
        _ => true,
    }
}

/// Whether the temporary files are removed when the transfer stops in
/// state `s`: while files arrive, not before and not after.
pub open spec fn cleans_up_in(s: ReceiverState) -> bool {
    ||| s is BeforeFile
    ||| s is AwaitingHeader
    ||| s is Opening
    ||| s is InFile
    ||| s is Reading
    ||| s is Writing
    ||| s is Syncing
}

/// Whether `e` can follow in state `s`.
pub open spec fn receiver_expects(s: ReceiverState, e: ReceiverEvent) -> bool {
    match s {
        ReceiverState::Offered => e is Start,
        ReceiverState::AwaitingDecision => e is Decided,
        ReceiverState::Declining => e is Sent || e is Failed,
        ReceiverState::Accepting => e is Ready || e is Failed,
        ReceiverState::Planning { .. } => e is Exists,
        ReceiverState::BeforeFile { .. } => e is Flag,
        ReceiverState::AwaitingHeader { .. } => e is Header || e is Failed,
        ReceiverState::Opening { .. } => e is Opened || e is Failed,
        ReceiverState::InFile { .. } => e is Flag,
        ReceiverState::Reading { file, transferred, .. } => e is Failed || (e matches ReceiverEvent::Received(
            chunk,
        ) && chunk@.len() <= file.remaining() && transferred + chunk@.len() <= u64::MAX),
        ReceiverState::Writing { .. } => e is Written || e is Failed,
        ReceiverState::Syncing { .. } => e is Synced || e is Failed,
        ReceiverState::AwaitingCompletion { .. } => e is Completion || e is Failed,
        ReceiverState::Saving { .. } => e is Renamed || e is Failed,
        _ => false,
    }
}

/// A stop with message `m`, removing the temporary files when `clean`.
pub open spec fn receiver_stops(s2: ReceiverState, a: ReceiverAction, m: Seq<char>, clean: bool) -> bool {
    s2 is Stopped && (a matches ReceiverAction::Stop { message, clean_up } && message@ == m
        && clean_up == clean)
}

/// Files from `index` on get their destinations; after the last, the
/// files start to arrive.
pub open spec fn starts_planning(
    offer: TransferOffer,
    index: int,
    reserved: Set<Seq<char>>,
    planned: Seq<Seq<char>>,
    s2: ReceiverState,
    a: ReceiverAction,
) -> bool {
    if index < offer.files@.len() {
        let name = offer.files@[index].name@;
        if is_unsafe_file_name(name) {
            receiver_stops(s2, a, unsafe_name_message(), false)
        } else {
            &&& s2 matches ReceiverState::Planning { index: i2, portable, copy, reserved: r2, planned: p2 }
                && i2 == index && portable@ == portable_name(name) && copy == 0 && r2@ == reserved
                && name_views(p2@) == planned
            &&& a matches ReceiverAction::CheckExists(c) && c@ == candidate_name(portable_name(name), 0)
        }
    } else {
        starts_arriving(offer, planned, s2, a)
    }
}

/// The files start to arrive, or, with none, the completion is read.
pub open spec fn starts_arriving(
    offer: TransferOffer,
    planned: Seq<Seq<char>>,
    s2: ReceiverState,
    a: ReceiverAction,
) -> bool {
    if offer.files@.len() == 0 {
        (s2 matches ReceiverState::AwaitingCompletion { planned: p2 } && name_views(p2@) == planned)
            && a is ReadCompletion
    } else {
        (s2 matches ReceiverState::BeforeFile { index, planned: p2, transferred } && index == 0
            && transferred == 0 && name_views(p2@) == planned) && a is ReadFlag
    }
}

/// After file `index` arrived in full: the next file, or the completion.
pub open spec fn after_file(
    offer: TransferOffer,
    index: int,
    planned: Seq<Seq<char>>,
    transferred: u64,
    s2: ReceiverState,
    a: ReceiverAction,
) -> bool {
    if index + 1 < offer.files@.len() {
        (s2 matches ReceiverState::BeforeFile { index: i2, planned: p2, transferred: t2 } && i2
            == index + 1 && t2 == transferred && name_views(p2@) == planned) && a is ReadFlag
    } else {
        (s2 matches ReceiverState::AwaitingCompletion { planned: p2 } && name_views(p2@) == planned)
            && a is ReadCompletion
    }
}

/// File `index` is moved to its destination, or, after the last, the
/// transfer finishes with its destinations.
pub open spec fn saves_from(
    offer: TransferOffer,
    index: int,
    planned: Seq<Seq<char>>,
    s2: ReceiverState,
    a: ReceiverAction,
) -> bool {
    if index < offer.files@.len() {
        &&& s2 matches ReceiverState::Saving { index: i2, planned: p2 } && i2 == index && name_views(p2@)
            == planned
        &&& a matches ReceiverAction::Rename { temporary, destination } && temporary@ == temporary_name(
            offer.transfer_id@,
            index as nat,
        ) && destination@ == planned[index]
    } else {
        s2 is Done && (a matches ReceiverAction::Finish(list) && name_views(list@) == planned)
    }
}

/// The state a file being received moves to, with action `a`, once `file`
/// stands as it does: bytes still due are read after the flag; a complete
/// file is synced.
pub open spec fn continues_file(
    index: usize,
    file: ReceivingFile,
    planned: Seq<Seq<char>>,
    transferred: u64,
    s2: ReceiverState,
    a: ReceiverAction,
) -> bool {
    if file.remaining() > 0 {
        (s2 matches ReceiverState::InFile { index: i2, file: f2, planned: p2, transferred: t2 } && i2
            == index && f2 == file && name_views(p2@) == planned && t2 == transferred) && a is ReadFlag
    } else {
        (s2 matches ReceiverState::Syncing { index: i2, file: f2, planned: p2, transferred: t2 } && i2
            == index && f2 == file && name_views(p2@) == planned && t2 == transferred) && a is Sync
    }
}

/// One step of the receiver: from state `s` on event `e` to state `s2`
/// with action `a`.
pub open spec fn receiver_moves(
    offer: TransferOffer,
    s: ReceiverState,
    e: ReceiverEvent,
    s2: ReceiverState,
    a: ReceiverAction,
) -> bool {
    match e {
        ReceiverEvent::Failed(m) => receiver_stops(s2, a, m@, cleans_up_in(s)),
        _ => match s {
            ReceiverState::Offered => match offer_check(offer) {
                Err(m) => receiver_stops(s2, a, m, false),
                Ok(()) => s2 is AwaitingDecision && a is AskUser,
            },
            ReceiverState::AwaitingDecision => if e == ReceiverEvent::Decided(true) {
                s2 is Accepting && a is Accept
            } else {
                s2 is Declining && (a matches ReceiverAction::Decline(OfferResponse::Denied { message })
                    && message@ == "The receiving device denied the transfer"@)
            },
            ReceiverState::Declining => receiver_stops(s2, a, denied_message(), false),
            ReceiverState::Accepting => starts_planning(offer, 0, Set::empty(), Seq::empty(), s2, a),
            ReceiverState::Planning { index, portable, copy, reserved, planned } => {
                let c = candidate_name(portable@, copy as nat);
                let exists = e->Exists_0;
                if !exists && !reserved@.contains(c) {
                    starts_planning(offer, index + 1, reserved@.insert(c), name_views(planned@).push(c), s2, a)
                } else if copy + 1 < MAX_COPY_NUMBERS {
                    &&& s2 matches ReceiverState::Planning { index: i2, portable: p2, copy: k2, reserved: r2, planned: q2 }
                        && i2 == index && p2@ == portable@ && k2 == copy + 1 && r2@ == reserved@
                        && name_views(q2@) == name_views(planned@)
                    &&& a matches ReceiverAction::CheckExists(n) && n@ == candidate_name(portable@, (copy + 1) as nat)
                } else {
                    receiver_stops(s2, a, "Could not choose a safe destination for "@ + offer.files@[index as int].name@, false)
                }
            },
            ReceiverState::BeforeFile { index, planned, transferred } => if e == ReceiverEvent::Flag(true) {
                receiver_stops(s2, a, cancelled_message(), true)
            } else {
                (s2 matches ReceiverState::AwaitingHeader { index: i2, planned: p2, transferred: t2 } && i2
                    == index && t2 == transferred && name_views(p2@) == name_views(planned@)) && a is ReadHeader
            },
            ReceiverState::AwaitingHeader { index, planned, transferred } => {
                let h = e->Header_0;
                if h.transfer_id@ == offer.transfer_id@ && h.file_index == index && same_file(h.file, offer.files@[index as int]) {
                    &&& s2 matches ReceiverState::Opening { index: i2, file, planned: p2, transferred: t2 } && i2 == index
                        && file.received() == Seq::<u8>::empty() && file.remaining() == file.size()
                        && t2 == transferred && name_views(p2@) == name_views(planned@)
                    &&& a matches ReceiverAction::CreateTemporary(t) && t@ == temporary_name(offer.transfer_id@, index as nat)
                } else {
                    receiver_stops(s2, a, unexpected_header_message(), true)
                }
            },
            ReceiverState::Opening { index, file, planned, transferred } => continues_file(
                index,
                file,
                name_views(planned@),
                transferred,
                s2,
                a,
            ),
            ReceiverState::InFile { index, file, planned, transferred } => if e == ReceiverEvent::Flag(true) {
                receiver_stops(s2, a, cancelled_message(), true)
            } else {
                (s2 matches ReceiverState::Reading { index: i2, file: f2, planned: p2, transferred: t2 } && i2
                    == index && f2 == file && t2 == transferred && name_views(p2@) == name_views(planned@))
                    && a == (ReceiverAction::Read { remaining: file.remaining() as u64 })
            },
            ReceiverState::Reading { index, file, planned, transferred } => {
                let chunk = e->Received_0@;
                if chunk.len() == 0 {
                    receiver_stops(s2, a, "The sender disconnected before the transfer completed"@, true)
                } else {
                    &&& s2 matches ReceiverState::Writing { index: i2, file: f2, planned: p2, transferred: t2 }
                        && i2 == index && f2.received() == file.received() + chunk
                        && f2.remaining() == file.remaining() - chunk.len()
                        && t2 == transferred + chunk.len() && name_views(p2@) == name_views(planned@)
                    &&& a == (ReceiverAction::Write { file_index: index, transferred: (transferred + chunk.len()) as u64 })
                }
            },
            ReceiverState::Writing { index, file, planned, transferred } => continues_file(
                index,
                file,
                name_views(planned@),
                transferred,
                s2,
                a,
            ),
            ReceiverState::Syncing { index, file, planned, transferred } => {
                let expected = offer.files@[index as int];
                if crate::integrity::hex_text(crate::integrity::sha256_digest(file.received())) == expected.sha256@ {
                    after_file(offer, index as int, name_views(planned@), transferred, s2, a)
                } else {
                    receiver_stops(s2, a, expected.name@ + " failed its integrity check"@, true)
                }
            },
            ReceiverState::AwaitingCompletion { planned } => if e->Completion_0.transfer_id@ == offer.transfer_id@ {
                saves_from(offer, 0, name_views(planned@), s2, a)
            } else {
                receiver_stops(s2, a, "The transfer completion message did not match the offer"@, true)
            },
            ReceiverState::Saving { index, planned } => saves_from(offer, index + 1, name_views(planned@), s2, a),
            _ => false,
        },
    }
}

/// A receiver that finishes hands out one destination per offered file,
/// no two alike.
pub proof fn lemma_finished_destinations_are_distinct(
    offer: TransferOffer,
    s: ReceiverState,
    e: ReceiverEvent,
    s2: ReceiverState,
    a: ReceiverAction,
)
    requires
        receiver_state_fits(offer, s),
        receiver_moves(offer, s, e, s2, a),
        a is Finish,
    ensures
        a->Finish_0@.len() == offer.files@.len(),
        name_views(a->Finish_0@).no_duplicates(),
{
    assert(name_views(a->Finish_0@).len() == a->Finish_0@.len());
}

/// A receiver that reads its cancellation flag as set, before a file or
/// before a read, stops with "Transfer cancelled" and removes the
/// temporary files.
pub proof fn lemma_receiver_stops_when_cancelled(
    offer: TransferOffer,
    s: ReceiverState,
    s2: ReceiverState,
    a: ReceiverAction,
)
    requires
        s is BeforeFile || s is InFile,
        receiver_moves(offer, s, ReceiverEvent::Flag(true), s2, a),
    ensures
        s2 is Stopped,
        a matches ReceiverAction::Stop { message, clean_up } && message@ == "Transfer cancelled"@
            && clean_up,
{
}

/// A receiver reads from the connection only right after finding its
/// cancellation flag clear.
pub proof fn lemma_receiver_reads_after_a_clear_flag(
    offer: TransferOffer,
    s: ReceiverState,
    e: ReceiverEvent,
    s2: ReceiverState,
    a: ReceiverAction,
)
    requires
        receiver_expects(s, e),
        receiver_moves(offer, s, e, s2, a),
        s2 is Reading || a is Read,
    ensures
        s is InFile,
        e == ReceiverEvent::Flag(false),
{
}

/// A header whose name, size or SHA-256 digest differs from the offered
/// file's is refused, and the temporary files are removed.
pub proof fn lemma_receiver_refuses_a_different_file(
    offer: TransferOffer,
    s: ReceiverState,
    h: FileHeader,
    s2: ReceiverState,
    a: ReceiverAction,
)
    requires
        s matches ReceiverState::AwaitingHeader { index, .. } && (h.file.name@
            != offer.files@[index as int].name@ || h.file.size != offer.files@[index as int].size
            || h.file.sha256@ != offer.files@[index as int].sha256@),
        receiver_moves(offer, s, ReceiverEvent::Header(h), s2, a),
    ensures
        s2 is Stopped,
        a matches ReceiverAction::Stop { message, clean_up } && message@
            == "The sender provided unexpected file metadata"@ && clean_up,
{
}

/// The header a sender sends for a file is taken by a receiver waiting for
/// that file of the same offer: the file starts to arrive.
pub proof fn lemma_sent_header_is_received(
    offer: TransferOffer,
    s: SenderState,
    e: SenderEvent,
    s2: SenderState,
    a: SenderAction,
    r: ReceiverState,
    r2: ReceiverState,
    b: ReceiverAction,
)
    requires
        sender_state_fits(offer, s),
        sender_expects(s, e),
        sender_moves(offer, s, e, s2, a),
        a is SendHeader,
        r matches ReceiverState::AwaitingHeader { index, .. } && index == a->SendHeader_0.file_index,
        receiver_moves(offer, r, ReceiverEvent::Header(a->SendHeader_0), r2, b),
    ensures
        r2 is Opening,
        b is CreateTemporary,
{
}

/// Whether the temporary files are removed when the transfer stops in `s`.
fn cleans_up(s: &ReceiverState) -> (r: bool)
    ensures
        r == cleans_up_in(*s),
{
    match s {
        ReceiverState::BeforeFile { .. } => true,
        ReceiverState::AwaitingHeader { .. } => true,
        ReceiverState::Opening { .. } => true,
        ReceiverState::InFile { .. } => true,
        ReceiverState::Reading { .. } => true,
        ReceiverState::Writing { .. } => true,
        ReceiverState::Syncing { .. } => true,
        _ => false,
    }
}

/// The files start to arrive, or, with none, the completion is read.
fn start_arriving(offer: &TransferOffer, planned: Vec<String>) -> (r: (ReceiverState, ReceiverAction))
    requires
        planned_fits(planned@, offer.files@.len()),
    ensures
        starts_arriving(*offer, name_views(planned@), r.0, r.1),
        receiver_state_fits(*offer, r.0),
{
    if offer.files.len() == 0 {
        (ReceiverState::AwaitingCompletion { planned }, ReceiverAction::ReadCompletion)
    } else {
        assert(offer.files@.take(0) =~= Seq::<crate::models::FileMetadata>::empty());
        (ReceiverState::BeforeFile { index: 0, planned, transferred: 0 }, ReceiverAction::ReadFlag)
    }
}

/// Files from `index` on get their destinations.
fn start_planning(
    offer: &TransferOffer,
    index: usize,
    reserved: ReservedNames,
    planned: Vec<String>,
) -> (r: (ReceiverState, ReceiverAction))
    requires
        index <= offer.files@.len(),
        planned_fits(planned@, index as nat),
        forall|j: int| 0 <= j < index ==> reserved@.contains(#[trigger] planned@[j]@),
    ensures
        starts_planning(*offer, index as int, reserved@, name_views(planned@), r.0, r.1),
        receiver_state_fits(*offer, r.0),
{
    if index < offer.files.len() {
        match portable_file_name(offer.files[index].name.as_str()) {
            Err(m) => (ReceiverState::Stopped, ReceiverAction::Stop { message: m, clean_up: false }),
            Ok(p) => {
                let c = destination_candidate(p.as_str(), 0);
                (
                    ReceiverState::Planning { index, portable: p, copy: 0, reserved, planned },
                    ReceiverAction::CheckExists(c),
                )
            },
        }
    } else {
        start_arriving(offer, planned)
    }
}

/// The state a file being received moves to once `file` stands as it does.
fn continue_file(
    offer: &TransferOffer,
    index: usize,
    file: ReceivingFile,
    planned: Vec<String>,
    transferred: u64,
) -> (r: (ReceiverState, ReceiverAction))
    requires
        planned_fits(planned@, offer.files@.len()),
        receiving_fits(*offer, index, file, transferred),
    ensures
        continues_file(index, file, name_views(planned@), transferred, r.0, r.1),
        receiver_state_fits(*offer, r.0),
{
    if file.is_complete() {
        (ReceiverState::Syncing { index, file, planned, transferred }, ReceiverAction::Sync)
    } else {
        (ReceiverState::InFile { index, file, planned, transferred }, ReceiverAction::ReadFlag)
    }
}

/// After file `index` arrived in full: the next file, or the completion.
fn continue_after_file(
    offer: &TransferOffer,
    index: usize,
    planned: Vec<String>,
    transferred: u64,
) -> (r: (ReceiverState, ReceiverAction))
    requires
        index < offer.files@.len(),
        planned_fits(planned@, offer.files@.len()),
        transferred == sizes_total(offer.files@.take(index + 1)),
    ensures
        after_file(*offer, index as int, name_views(planned@), transferred, r.0, r.1),
        receiver_state_fits(*offer, r.0),
{
    let count = offer.files.len();
    if index + 1 < count {
        (ReceiverState::BeforeFile { index: index + 1, planned, transferred }, ReceiverAction::ReadFlag)
    } else {
        (ReceiverState::AwaitingCompletion { planned }, ReceiverAction::ReadCompletion)
    }
}

/// File `index` is moved to its destination, or the transfer finishes.
fn save_from(offer: &TransferOffer, index: usize, planned: Vec<String>) -> (r: (
    ReceiverState,
    ReceiverAction,
))
    requires
        index <= offer.files@.len(),
        planned_fits(planned@, offer.files@.len()),
    ensures
        saves_from(*offer, index as int, name_views(planned@), r.0, r.1),
        receiver_state_fits(*offer, r.0),
{
    if index < offer.files.len() {
        let temporary = temporary_file_name(offer.transfer_id.as_str(), index);
        let destination = planned[index].clone();
        (ReceiverState::Saving { index, planned }, ReceiverAction::Rename { temporary, destination })
    } else {
        (ReceiverState::Done, ReceiverAction::Finish(planned))
    }
}

/// The receiver's next state and action after event `e` in state `s`.
pub fn receiver_step(offer: &TransferOffer, s: ReceiverState, e: ReceiverEvent) -> (r: (
    ReceiverState,
    ReceiverAction,
))
    requires
        receiver_state_fits(*offer, s),
        receiver_expects(s, e),
    ensures
        receiver_state_fits(*offer, r.0),
        receiver_moves(*offer, s, e, r.0, r.1),
        (s is BeforeFile || s is InFile) && e == ReceiverEvent::Flag(true) ==> (r.0 is Stopped && (
        r.1 matches ReceiverAction::Stop { message, clean_up } && message@ == "Transfer cancelled"@
            && clean_up)),
        r.0 is Reading ==> (s is InFile && e == ReceiverEvent::Flag(false)),
        s matches ReceiverState::AwaitingHeader { index, .. } ==> (e matches ReceiverEvent::Header(h)
            && h.file.sha256@ != offer.files@[index as int].sha256@ ==> (r.0 is Stopped && (r.1 matches ReceiverAction::Stop {
            message,
            clean_up,
        } && message@ == "The sender provided unexpected file metadata"@ && clean_up))),
{
    let clean = cleans_up(&s);
    let e = match e {
        ReceiverEvent::Failed(m) => {
            return (ReceiverState::Stopped, ReceiverAction::Stop { message: m, clean_up: clean });
        },
        other => other,
    };
    match s {
        ReceiverState::Offered => match validate_offer(offer) {
            Err(m) => (ReceiverState::Stopped, ReceiverAction::Stop { message: m, clean_up: false }),
            Ok(()) => (ReceiverState::AwaitingDecision, ReceiverAction::AskUser),
        },
        ReceiverState::AwaitingDecision => match e {
            ReceiverEvent::Decided(true) => (ReceiverState::Accepting, ReceiverAction::Accept),
            _ => {
                let (response, _) = decline_offer();
                (ReceiverState::Declining, ReceiverAction::Decline(response))
            },
        },
        ReceiverState::Declining => {
            let (_, message) = decline_offer();
            (ReceiverState::Stopped, ReceiverAction::Stop { message, clean_up: false })
        },
        ReceiverState::Accepting => {
            let planned: Vec<String> = Vec::new();
            proof {
                assert(name_views(planned@) =~= Seq::<Seq<char>>::empty());
            }
            start_planning(offer, 0, ReservedNames::new(), planned)
        },
        ReceiverState::Planning { index, portable, copy, reserved, planned } => {
            let exists = match e {
                ReceiverEvent::Exists(b) => b,
                _ => true,
            };
            let mut reserved = reserved;
            let mut planned = planned;
            let ghost before = reserved@;
            let ghost before_planned = planned@;
            match unique_destination(offer.files[index].name.as_str(), copy, exists, &mut reserved) {
                Err(m) => (ReceiverState::Stopped, ReceiverAction::Stop { message: m, clean_up: false }),
                Ok(DestinationStep::Chosen(n)) => {
                    let ghost c = n@;
                    planned.push(n);
                    proof {
                        assert(name_views(planned@) =~= name_views(before_planned).push(c));
                        assert forall|j: int| 0 <= j < index + 1 implies reserved@.contains(
                            #[trigger] planned@[j]@,
                        ) by {
                            if j < index {
                                assert(planned@[j] == before_planned[j]);
                            }
                        }
                        let v = name_views(planned@);
                        assert forall|i: int, j: int| 0 <= i < v.len() && 0 <= j < v.len() && i != j
                            implies v[i] != v[j] by {
                            if i < index && j < index {
                                assert(name_views(before_planned)[i] == v[i]);
                                assert(name_views(before_planned)[j] == v[j]);
                            } else if i < index {
                                assert(before.contains(before_planned[i]@));
                            } else {
                                assert(before.contains(before_planned[j]@));
                            }
                        }
                    }
                    let count = offer.files.len();
                    assert(index < count);
                    start_planning(offer, index + 1, reserved, planned)
                },
                Ok(DestinationStep::TryNext(k)) => {
                    let c = destination_candidate(portable.as_str(), k);
                    (
                        ReceiverState::Planning { index, portable, copy: k, reserved, planned },
                        ReceiverAction::CheckExists(c),
                    )
                },
                Ok(DestinationStep::Exhausted(m)) => (
                    ReceiverState::Stopped,
                    ReceiverAction::Stop { message: m, clean_up: false },
                ),
            }
        },
        ReceiverState::BeforeFile { index, planned, transferred } => match e {
            ReceiverEvent::Flag(true) => (
                ReceiverState::Stopped,
                ReceiverAction::Stop { message: "Transfer cancelled".to_owned(), clean_up: true },
            ),
            _ => (ReceiverState::AwaitingHeader { index, planned, transferred }, ReceiverAction::ReadHeader),
        },
        ReceiverState::AwaitingHeader { index, planned, transferred } => match e {
            ReceiverEvent::Header(header) => match ReceivingFile::begin(offer, index, &header) {
                Err(m) => (ReceiverState::Stopped, ReceiverAction::Stop { message: m, clean_up: true }),
                Ok(file) => {
                    let temporary = temporary_file_name(offer.transfer_id.as_str(), index);
                    (
                        ReceiverState::Opening { index, file, planned, transferred },
                        ReceiverAction::CreateTemporary(temporary),
                    )
                },
            },
            _ => (ReceiverState::Stopped, ReceiverAction::Stop { message: String::new(), clean_up: true }),
        },
        ReceiverState::Opening { index, file, planned, transferred } => continue_file(
            offer,
            index,
            file,
            planned,
            transferred,
        ),
        ReceiverState::InFile { index, file, planned, transferred } => match e {
            ReceiverEvent::Flag(true) => (
                ReceiverState::Stopped,
                ReceiverAction::Stop { message: "Transfer cancelled".to_owned(), clean_up: true },
            ),
            _ => {
                let remaining = file.remaining_bytes();
                (
                    ReceiverState::Reading { index, file, planned, transferred },
                    ReceiverAction::Read { remaining },
                )
            },
        },
        ReceiverState::Reading { index, file, planned, transferred } => {
            let chunk = match e {
                ReceiverEvent::Received(chunk) => chunk,
                _ => Vec::new(),
            };
            let mut file = file;
            match file.absorb(chunk.as_slice()) {
                Err(m) => (ReceiverState::Stopped, ReceiverAction::Stop { message: m, clean_up: true }),
                Ok(()) => {
                    let t = transferred + chunk.len() as u64;
                    (
                        ReceiverState::Writing { index, file, planned, transferred: t },
                        ReceiverAction::Write { file_index: index, transferred: t },
                    )
                },
            }
        },
        ReceiverState::Writing { index, file, planned, transferred } => continue_file(
            offer,
            index,
            file,
            planned,
            transferred,
        ),
        ReceiverState::Syncing { index, file, planned, transferred } => {
            let ghost received = file.received();
            match file.finish(&offer.files[index]) {
                Err(m) => (ReceiverState::Stopped, ReceiverAction::Stop { message: m, clean_up: true }),
                Ok(()) => {
                    proof {
                        lemma_sizes_total_step(offer.files@, index as int);
                    }
                    continue_after_file(offer, index, planned, transferred)
                },
            }
        },
        ReceiverState::AwaitingCompletion { planned } => {
            let completion = match e {
                ReceiverEvent::Completion(c) => c,
                _ => TransferComplete { transfer_id: String::new() },
            };
            match check_completion(offer, &completion) {
                Err(m) => (ReceiverState::Stopped, ReceiverAction::Stop { message: m, clean_up: true }),
                Ok(()) => save_from(offer, 0, planned),
            }
        },
        ReceiverState::Saving { index, planned } => {
            let count = offer.files.len();
            assert(index < count);
            save_from(offer, index + 1, planned)
        },
        ReceiverState::Done => (ReceiverState::Stopped, ReceiverAction::Stop { message: String::new(), clean_up: false }),
        ReceiverState::Stopped => (ReceiverState::Stopped, ReceiverAction::Stop { message: String::new(), clean_up: false }),
    }
}

} // verus!
