//! The sending side of a transfer as a state machine: given where the
//! sender stands and what it just observed, what it does next. The order it
//! keeps is the protocol: the offer, then for each file its header and its
//! contents, then the completion frame; a refusal, a cancellation or a file
//! that changed size stops it.

use vstd::prelude::*;
use crate::models::{FileMetadata, TransferOffer};
use crate::offer::{lemma_sizes_total_step, sizes_total};
use crate::protocol::{FileHeader, OfferResponse, TransferComplete};
use crate::cancel::cancelled_message;
use crate::transfer::{check_offer_response, check_sent_size, same_file};

verus! {

/// Where a sender stands.
pub enum SenderState {
    /// Connected; nothing was sent yet.
    Connected,
    /// The offer was sent; its answer is awaited.
    AwaitingAnswer,
    /// File `next` is to be announced once the cancellation flag is read;
    /// `transferred` bytes of the files before it were sent.
    BeforeFile { next: usize, transferred: u64 },
    /// The header of file `index` and `file_bytes` of its contents were
    /// sent; the flag is read before the next read.
    InFile { index: usize, file_bytes: u64, transferred: u64 },
    /// As `InFile`, with the flag read and found clear: a read is due.
    Reading { index: usize, file_bytes: u64, transferred: u64 },
    /// The completion frame was sent after `transferred` bytes.
    Completed { transferred: u64 },
    /// The transfer stopped with an error.
    Stopped,
}

/// What a sender observed.
pub enum SenderEvent {
    /// The connection is ready.
    Ready,
    /// The receiver's answer to the offer.
    Answer(OfferResponse),
    /// The cancellation flag was read: set or not.
    Flag(bool),
    /// This many bytes were read from the current file; none at its end.
    Read(u64),
}

/// What a sender does next.
pub enum SenderAction {
    /// Write the offer frame and read the answer.
    SendOffer,
    /// Read the cancellation flag.
    ReadFlag,
    /// Write this header frame, open the file it announces and read the flag.
    SendHeader(FileHeader),
    /// Read from the current file.
    ReadFile,
    /// Write the bytes just read, report `transferred` bytes sent while at
    /// file `file_index`, and read the flag.
    SendChunk { file_index: usize, transferred: u64 },
    /// Write this completion frame: the transfer succeeded.
    SendCompletion(TransferComplete),
    /// Stop the transfer with this message.
    Stop(String),
}

/// A sender's state fits the offer it sends: the file it is at exists, and
/// the bytes counted as sent are the sizes of the files before it plus what
/// was sent of it; a completed sender sent the sizes of all files.
pub open spec fn sender_state_fits(offer: TransferOffer, s: SenderState) -> bool {
    match s {
        SenderState::BeforeFile { next, transferred } => next < offer.files@.len() && transferred
            == sizes_total(offer.files@.take(next as int)),
        SenderState::InFile { index, file_bytes, transferred } => index < offer.files@.len()
            && transferred == sizes_total(offer.files@.take(index as int)) + file_bytes,
        SenderState::Reading { index, file_bytes, transferred } => index < offer.files@.len()
            && transferred == sizes_total(offer.files@.take(index as int)) + file_bytes,
        SenderState::Completed { transferred } => transferred == sizes_total(offer.files@),
        _ => true,
    }
}

/// Whether `e` can follow in state `s`: readiness at the start, the answer
/// after the offer, the flag before a file and before each read, a read
/// when one is due, with the count of sent bytes staying within `u64`.
pub open spec fn sender_expects(s: SenderState, e: SenderEvent) -> bool {
    match s {
        SenderState::Connected => e is Ready,
        SenderState::AwaitingAnswer => e is Answer,
        SenderState::BeforeFile { .. } => e is Flag,
        SenderState::InFile { .. } => e is Flag,
        SenderState::Reading { transferred, .. } => e matches SenderEvent::Read(n) && transferred + n
            <= u64::MAX,
        _ => false,
    }
}

/// `h` announces file `index` of `offer`.
pub open spec fn header_for(offer: TransferOffer, index: int, h: FileHeader) -> bool {
    h.transfer_id@ == offer.transfer_id@ && h.file_index == index && same_file(
        h.file,
        offer.files@[index],
    )
}

/// What follows once the files before `next` were sent in full: the flag
/// before file `next`, or the completion frame after the last file.
pub open spec fn sender_continues(
    offer: TransferOffer,
    next: int,
    transferred: u64,
    s: SenderState,
    a: SenderAction,
) -> bool {
    if next < offer.files@.len() {
        s == (SenderState::BeforeFile { next: next as usize, transferred }) && a is ReadFlag
    } else {
        s == (SenderState::Completed { transferred }) && (a matches SenderAction::SendCompletion(c)
            && c.transfer_id@ == offer.transfer_id@)
    }
}

/// A stop with message `m`.
pub open spec fn sender_stops(s: SenderState, a: SenderAction, m: Seq<char>) -> bool {
    s is Stopped && (a matches SenderAction::Stop(t) && t@ == m)
}

/// One step of the sender: from state `s` on event `e` to state `s2` with
/// action `a`.
pub open spec fn sender_moves(
    offer: TransferOffer,
    s: SenderState,
    e: SenderEvent,
    s2: SenderState,
    a: SenderAction,
) -> bool {
    match s {
        SenderState::Connected => s2 is AwaitingAnswer && a is SendOffer,
        SenderState::AwaitingAnswer => match e {
            SenderEvent::Answer(OfferResponse::Denied { message }) => sender_stops(s2, a, message@),
            _ => sender_continues(offer, 0, 0, s2, a),
        },
        SenderState::BeforeFile { next, transferred } => if e == SenderEvent::Flag(true) {
            sender_stops(s2, a, cancelled_message())
        } else {
            s2 == (SenderState::InFile { index: next, file_bytes: 0, transferred }) && (a matches SenderAction::SendHeader(h)
                && header_for(offer, next as int, h))
        },
        SenderState::InFile { index, file_bytes, transferred } => if e == SenderEvent::Flag(true) {
            sender_stops(s2, a, cancelled_message())
        } else {
            s2 == (SenderState::Reading { index, file_bytes, transferred }) && a is ReadFile
        },
        SenderState::Reading { index, file_bytes, transferred } => {
            let n = e->Read_0;
            if n > 0 {
                s2 == (SenderState::InFile {
                    index,
                    file_bytes: (file_bytes + n) as u64,
                    transferred: (transferred + n) as u64,
                }) && a == (SenderAction::SendChunk {
                    file_index: index,
                    transferred: (transferred + n) as u64,
                })
            } else if file_bytes != offer.files@[index as int].size {
                sender_stops(s2, a, offer.files@[index as int].name@ + " changed while it was being sent"@)
            } else {
                sender_continues(offer, index + 1, transferred, s2, a)
            }
        },
        _ => false,
    }
}

/// A sender that sends the completion frame has sent, over all files,
/// exactly the sizes the offer announces, each file in full.
pub proof fn lemma_completion_follows_every_byte(
    offer: TransferOffer,
    s: SenderState,
    e: SenderEvent,
    s2: SenderState,
    a: SenderAction,
)
    requires
        sender_state_fits(offer, s),
        sender_moves(offer, s, e, s2, a),
        a is SendCompletion,
    ensures
        s2 == (SenderState::Completed { transferred: sizes_total(offer.files@) as u64 }),
        sizes_total(offer.files@) <= u64::MAX,
{
    match s {
        SenderState::AwaitingAnswer => {
            assert(offer.files@.take(0) == offer.files@);
        },
        SenderState::Reading { index, file_bytes, transferred } => {
            lemma_sizes_total_step(offer.files@, index as int);
            assert(offer.files@.take(index + 1) == offer.files@);
        },
        _ => {},
    }
}

/// A sender that reads its cancellation flag as set, before a file or
/// before a read, stops with "Transfer cancelled".
pub proof fn lemma_sender_stops_when_cancelled(
    offer: TransferOffer,
    s: SenderState,
    s2: SenderState,
    a: SenderAction,
)
    requires
        s is BeforeFile || s is InFile,
        sender_moves(offer, s, SenderEvent::Flag(true), s2, a),
    ensures
        s2 is Stopped,
        a matches SenderAction::Stop(m) && m@ == "Transfer cancelled"@,
{
}

/// A sender reads from a file only right after finding its cancellation
/// flag clear.
pub proof fn lemma_sender_reads_after_a_clear_flag(
    offer: TransferOffer,
    s: SenderState,
    e: SenderEvent,
    s2: SenderState,
    a: SenderAction,
)
    requires
        sender_expects(s, e),
        sender_moves(offer, s, e, s2, a),
        s2 is Reading || a is ReadFile,
    ensures
        s is InFile,
        e == SenderEvent::Flag(false),
{
}

/// The header a sender sends announces the file it is at, with that
/// file's name, size and SHA-256 digest as the offer gives them.
pub proof fn lemma_header_carries_the_offered_file(
    offer: TransferOffer,
    s: SenderState,
    e: SenderEvent,
    s2: SenderState,
    a: SenderAction,
)
    requires
        sender_state_fits(offer, s),
        sender_expects(s, e),
        sender_moves(offer, s, e, s2, a),
        a is SendHeader,
    ensures
        s matches SenderState::BeforeFile { next, .. } && ({
            let h = a->SendHeader_0;
            &&& e == SenderEvent::Flag(false)
            &&& h.file_index == next
            &&& h.transfer_id@ == offer.transfer_id@
            &&& h.file.name@ == offer.files@[next as int].name@
            &&& h.file.size == offer.files@[next as int].size
            &&& h.file.sha256@ == offer.files@[next as int].sha256@
        }),
{
}

/// A field-by-field copy of a file description.
pub fn copy_file(f: &FileMetadata) -> (r: FileMetadata)
    ensures
        same_file(r, *f),
        r.name@ == f.name@,
        r.size == f.size,
        r.sha256@ == f.sha256@,
{
    FileMetadata { name: f.name.clone(), size: f.size, sha256: f.sha256.clone() }
}

/// What follows once the files before `next` were sent in full.
fn continue_after(offer: &TransferOffer, next: usize, transferred: u64) -> (r: (
    SenderState,
    SenderAction,
))
    requires
        next <= offer.files@.len(),
        transferred == sizes_total(offer.files@.take(next as int)),
    ensures
        sender_continues(*offer, next as int, transferred, r.0, r.1),
        sender_state_fits(*offer, r.0),
{
    if next < offer.files.len() {
        (SenderState::BeforeFile { next, transferred }, SenderAction::ReadFlag)
    } else {
        assert(offer.files@.take(next as int) == offer.files@);
        (
            SenderState::Completed { transferred },
            SenderAction::SendCompletion(TransferComplete { transfer_id: offer.transfer_id.clone() }),
        )
    }
}

/// The sender's next state and action after event `e` in state `s`.
pub fn sender_step(offer: &TransferOffer, s: SenderState, e: SenderEvent) -> (r: (
    SenderState,
    SenderAction,
))
    requires
        sender_state_fits(*offer, s),
        sender_expects(s, e),
    ensures
        sender_state_fits(*offer, r.0),
        sender_moves(*offer, s, e, r.0, r.1),
        (s is BeforeFile || s is InFile) && e == SenderEvent::Flag(true) ==> (r.0 is Stopped && (r.1 matches SenderAction::Stop(m)
            && m@ == "Transfer cancelled"@)),
        r.0 is Reading ==> (s is InFile && e == SenderEvent::Flag(false)),
        r.1 matches SenderAction::SendHeader(h) ==> (h.file_index < offer.files@.len()
            && h.transfer_id@ == offer.transfer_id@ && h.file.name@ == offer.files@[h.file_index as int].name@
            && h.file.size == offer.files@[h.file_index as int].size && h.file.sha256@
            == offer.files@[h.file_index as int].sha256@),
{
    match s {
        SenderState::Connected => (SenderState::AwaitingAnswer, SenderAction::SendOffer),
        SenderState::AwaitingAnswer => {
            let response = match e {
                SenderEvent::Answer(response) => response,
                _ => OfferResponse::Accepted,
            };
            match check_offer_response(response) {
                Ok(()) => {
                    assert(offer.files@.take(0) == Seq::<FileMetadata>::empty());
                    continue_after(offer, 0, 0)
                },
                Err(message) => (SenderState::Stopped, SenderAction::Stop(message)),
            }
        },
        SenderState::BeforeFile { next, transferred } => match e {
            SenderEvent::Flag(true) => (SenderState::Stopped, SenderAction::Stop(
                "Transfer cancelled".to_owned(),
            )),
            _ => {
                let header = FileHeader {
                    transfer_id: offer.transfer_id.clone(),
                    file_index: next,
                    file: copy_file(&offer.files[next]),
                };
                (SenderState::InFile { index: next, file_bytes: 0, transferred }, SenderAction::SendHeader(header))
            },
        },
        SenderState::InFile { index, file_bytes, transferred } => match e {
            SenderEvent::Flag(true) => (SenderState::Stopped, SenderAction::Stop(
                "Transfer cancelled".to_owned(),
            )),
            _ => (SenderState::Reading { index, file_bytes, transferred }, SenderAction::ReadFile),
        },
        SenderState::Reading { index, file_bytes, transferred } => {
            let n = match e {
                SenderEvent::Read(n) => n,
                _ => 0,
            };
            if n > 0 {
                (
                    SenderState::InFile { index, file_bytes: file_bytes + n, transferred: transferred + n },
                    SenderAction::SendChunk { file_index: index, transferred: transferred + n },
                )
            } else {
                let count = offer.files.len();
                assert(index + 1 <= count);
                match check_sent_size(&offer.files[index], file_bytes) {
                    Ok(()) => {
                        proof {
                            lemma_sizes_total_step(offer.files@, index as int);
                        }
                        continue_after(offer, index + 1, transferred)
                    },
                    Err(message) => (SenderState::Stopped, SenderAction::Stop(message)),
                }
            }
        },
        SenderState::Completed { .. } => (SenderState::Stopped, SenderAction::Stop(String::new())),
        SenderState::Stopped => (SenderState::Stopped, SenderAction::Stop(String::new())),
    }
}

} // verus!
