//! The decisions of a running transfer: progress reports, the checks made
//! while files arrive, how a transfer ends, and the backend's bookkeeping
//! around it.

use vstd::prelude::*;
use std::sync::Arc;
use std::sync::atomic::AtomicBool;
use crate::models::{
    BackendEvent, FileMetadata, NearbyDevice, TransferDirection, TransferFailed, TransferFinished,
    TransferOffer, TransferProgress,
};
use crate::protocol::{FileHeader, OfferResponse, TransferComplete};
use crate::registry::KeyedRegistry;
use crate::discovery::copy_device;
use crate::text::{push_text, string_of, text_eq};
use crate::integrity::{check_received_digest, hex_text, sha256_absorbed, sha256_digest, Sha256Stream};

verus! {

/// The user's answer to an incoming offer, with the flag that cancels the
/// transfer once it runs.
pub struct IncomingDecision {
    pub accepted: bool,
    pub cancellation: Arc<AtomicBool>,
}

/// The percentage reported after `transferred` of `total` bytes:
/// `transferred * 100 / total` with the product saturating at `u64::MAX`,
/// at most 100, and 100 for an empty transfer.
pub open spec fn progress_percent(transferred: u64, total: u64) -> nat {
    if total == 0 {
        100
    } else {
        let scaled = if transferred * 100 > u64::MAX {
            u64::MAX as nat
        } else {
            (transferred * 100) as nat
        };
        if scaled / (total as nat) > 100 {
            100
        } else {
            scaled / (total as nat)
        }
    }
}

/// The progress report after `transferred_bytes` of `offer`, while file
/// `current_file_index` is moving, at `bytes_per_second`.
pub fn emit_progress(
    offer: &TransferOffer,
    direction: TransferDirection,
    current_file_index: usize,
    transferred_bytes: u64,
    bytes_per_second: u64,
) -> (e: BackendEvent)
    requires
        current_file_index < offer.files@.len(),
    ensures
        e matches BackendEvent::TransferProgress(p) && {
            &&& p.transfer_id@ == offer.transfer_id@
            &&& p.direction == direction
            &&& p.current_file@ == offer.files@[current_file_index as int].name@
            &&& p.current_file_index == current_file_index
            &&& p.completed_files == current_file_index
            &&& p.total_files == offer.files@.len()
            &&& p.transferred_bytes == transferred_bytes
            &&& p.total_bytes == offer.total_bytes
            &&& p.remaining_bytes == (if transferred_bytes <= offer.total_bytes {
                offer.total_bytes - transferred_bytes
            } else {
                0
            })
            &&& p.bytes_per_second == bytes_per_second
            &&& p.progress as nat == progress_percent(transferred_bytes, offer.total_bytes)
        },
{
    let scaled: u64 = match transferred_bytes.checked_mul(100) {
        Some(x) => x,
        None => u64::MAX,
    };
    let percent: u64 = if offer.total_bytes == 0 {
        100
    } else if scaled / offer.total_bytes > 100 {
        100
    } else {
        scaled / offer.total_bytes
    };
    BackendEvent::TransferProgress(TransferProgress {
        transfer_id: offer.transfer_id.clone(),
        direction,
        current_file: offer.files[current_file_index].name.clone(),
        current_file_index,
        completed_files: current_file_index,
        total_files: offer.files.len(),
        transferred_bytes,
        total_bytes: offer.total_bytes,
        remaining_bytes: offer.total_bytes.saturating_sub(transferred_bytes),
        bytes_per_second,
        progress: percent as u8,
    })
}

/// The progress never exceeds 100 percent, and reaches it once every byte
/// has moved, for a transfer of at most `u64::MAX / 100` bytes (beyond that
/// the saturating product can report less).
pub proof fn lemma_progress_complete(transferred: u64, total: u64)
    ensures
        progress_percent(transferred, total) <= 100,
        transferred >= total && total <= u64::MAX / 100 ==> progress_percent(transferred, total)
            == 100,
{
    if total > 0 && transferred >= total && total <= u64::MAX / 100 {
        let t = transferred as nat;
        let n = total as nat;
        if t * 100 <= u64::MAX {
            assert(t * 100 >= n * 100) by (nonlinear_arith)
                requires
                    t >= n,
            ;
            assert((t * 100) / n >= 100) by (nonlinear_arith)
                requires
                    t * 100 >= n * 100,
                    n > 0,
            ;
        } else {
            assert((u64::MAX as nat) >= n * 100) by (nonlinear_arith)
                requires
                    n <= (u64::MAX as nat) / 100,
            ;
            assert((u64::MAX as nat) / n >= 100) by (nonlinear_arith)
                requires
                    (u64::MAX as nat) >= n * 100,
                    n > 0,
            ;
        }
    }
}

/// How a send ends: finished, or failed with the message of what stopped it.
pub fn sending_outcome(transfer_id: String, result: Result<(), String>) -> (r: Result<
    TransferFinished,
    TransferFailed,
>)
    ensures
        result is Ok ==> (r matches Ok(f) && f.transfer_id@ == transfer_id@ && f.direction
            == TransferDirection::Sending && f.saved_files@.len() == 0),
        result matches Err(m) ==> (r matches Err(f) && f.transfer_id@ == transfer_id@
            && f.direction == TransferDirection::Sending && f.message@ == m@),
{
    match result {
        Ok(()) => Ok(
            TransferFinished {
                transfer_id,
                direction: TransferDirection::Sending,
                saved_files: Vec::new(),
            },
        ),
        Err(message) => Err(
            TransferFailed { transfer_id, direction: TransferDirection::Sending, message },
        ),
    }
}

/// How a receive ends once its offer was read: finished with the saved
/// files, or failed with the message of what stopped it.
pub fn receiving_outcome(transfer_id: String, result: Result<Vec<String>, String>) -> (r: Result<
    TransferFinished,
    TransferFailed,
>)
    ensures
        result matches Ok(saved) ==> (r matches Ok(f) && f.transfer_id@ == transfer_id@
            && f.direction == TransferDirection::Receiving && f.saved_files@ == saved@),
        result matches Err(m) ==> (r matches Err(f) && f.transfer_id@ == transfer_id@
            && f.direction == TransferDirection::Receiving && f.message@ == m@),
{
    match result {
        Ok(saved_files) => Ok(
            TransferFinished {
                transfer_id,
                direction: TransferDirection::Receiving,
                saved_files,
            },
        ),
        Err(message) => Err(
            TransferFailed { transfer_id, direction: TransferDirection::Receiving, message },
        ),
    }
}

/// A receive that failed before its offer was known: its id is `unknown`.
pub fn unidentified_receive_failure(message: String) -> (f: TransferFailed)
    ensures
        f.transfer_id@ == "unknown"@,
        f.direction == TransferDirection::Receiving,
        f.message@ == message@,
{
    TransferFailed {
        transfer_id: "unknown".to_owned(),
        direction: TransferDirection::Receiving,
        message,
    }
}

/// The message of a transfer the receiver declined.
pub open spec fn denied_message() -> Seq<char> {
    "Transfer denied"@
}

/// What a receiver sends, and how its side ends, when the user declines.
pub fn decline_offer() -> (r: (OfferResponse, String))
    ensures
        r.0 matches OfferResponse::Denied { message } && message@
            == "The receiving device denied the transfer"@,
        r.1@ == denied_message(),
{
    (
        OfferResponse::Denied { message: "The receiving device denied the transfer".to_owned() },
        "Transfer denied".to_owned(),
    )
}

/// What a sender does with the receiver's answer: go on when accepted,
/// stop with the receiver's message when denied.
pub fn check_offer_response(response: OfferResponse) -> (r: Result<(), String>)
    ensures
        response is Accepted ==> r is Ok,
        response matches OfferResponse::Denied { message } ==> (r matches Err(m) && m@
            == message@),
{
    match response {
        OfferResponse::Accepted => Ok(()),
        OfferResponse::Denied { message } => Err(message),
    }
}

/// Whether two file descriptions are the same.
pub open spec fn same_file(a: FileMetadata, b: FileMetadata) -> bool {
    a.name@ == b.name@ && a.size == b.size && a.sha256@ == b.sha256@
}

/// Two file descriptions are the same exactly when their names, sizes and
/// SHA-256 digests all agree.
pub proof fn lemma_same_file_compares_every_field(a: FileMetadata, b: FileMetadata)
    ensures
        same_file(a, b) <==> (a.name@ == b.name@ && a.size == b.size && a.sha256@ == b.sha256@),
        a.name@ != b.name@ ==> !same_file(a, b),
        a.size != b.size ==> !same_file(a, b),
        a.sha256@ != b.sha256@ ==> !same_file(a, b),
{
}

/// The message when a file header does not announce the expected file.
pub open spec fn unexpected_header_message() -> Seq<char> {
    "The sender provided unexpected file metadata"@
}

/// Checks that a file header announces file `file_index` of `offer`.
pub fn check_file_header(offer: &TransferOffer, file_index: usize, header: &FileHeader) -> (r:
    Result<(), String>)
    requires
        file_index < offer.files@.len(),
    ensures
        r is Ok <==> (header.transfer_id@ == offer.transfer_id@ && header.file_index == file_index
            && same_file(header.file, offer.files@[file_index as int])),
        r matches Err(m) ==> m@ == unexpected_header_message(),
        r is Ok ==> header.file.name@ == offer.files@[file_index as int].name@ && header.file.size
            == offer.files@[file_index as int].size && header.file.sha256@
            == offer.files@[file_index as int].sha256@,
        header.file.sha256@ != offer.files@[file_index as int].sha256@ ==> r is Err,
{
    let expected = &offer.files[file_index];
    if !text_eq(header.transfer_id.as_str(), offer.transfer_id.as_str()) || header.file_index
        != file_index || !text_eq(header.file.name.as_str(), expected.name.as_str())
        || header.file.size != expected.size || !text_eq(
        header.file.sha256.as_str(),
        expected.sha256.as_str(),
    ) {
        return Err("The sender provided unexpected file metadata".to_owned());
    }
    Ok(())
}

/// Checks that the closing message belongs to the transfer.
pub fn check_completion(offer: &TransferOffer, completed: &TransferComplete) -> (r: Result<
    (),
    String,
>)
    ensures
        r is Ok <==> completed.transfer_id@ == offer.transfer_id@,
        r matches Err(m) ==> m@ == "The transfer completion message did not match the offer"@,
{
    if text_eq(completed.transfer_id.as_str(), offer.transfer_id.as_str()) {
        Ok(())
    } else {
        Err("The transfer completion message did not match the offer".to_owned())
    }
}

/// Checks that a sent file had the size its offer announced.
pub fn check_sent_size(file: &FileMetadata, sent_bytes: u64) -> (r: Result<(), String>)
    ensures
        r is Ok <==> sent_bytes == file.size,
        r matches Err(m) ==> m@ == file.name@ + " changed while it was being sent"@,
{
    if sent_bytes == file.size {
        Ok(())
    } else {
        let mut m: Vec<char> = Vec::new();
        push_text(&mut m, file.name.as_str());
        push_text(&mut m, " changed while it was being sent");
        Err(string_of(&m))
    }
}

/// How many bytes of a file to read next into a buffer of `buffer_len`
/// bytes, with `remaining` bytes still expected.
pub fn next_read_len(remaining: u64, buffer_len: usize) -> (n: usize)
    ensures
        n as nat == (if (remaining as nat) < (buffer_len as nat) {
            remaining as nat
        } else {
            buffer_len as nat
        }),
{
    if remaining < buffer_len as u64 {
        remaining as usize
    } else {
        buffer_len
    }
}

/// What a read of `read` bytes means while bytes are still expected:
/// nothing read is a sender that went away.
pub fn check_read(read: usize) -> (r: Result<(), String>)
    ensures
        r is Ok <==> read > 0,
        r matches Err(m) ==> m@ == "The sender disconnected before the transfer completed"@,
{
    if read == 0 {
        Err("The sender disconnected before the transfer completed".to_owned())
    } else {
        Ok(())
    }
}

/// The transfer id of a finished or failed transfer.
pub open spec fn outcome_id(result: Result<TransferFinished, TransferFailed>) -> Seq<char> {
    match result {
        Ok(f) => f.transfer_id@,
        Err(f) => f.transfer_id@,
    }
}

/// Ends the bookkeeping of a transfer: its cancellation flag and pending
/// decision are dropped, and its end is to be reported, except for a
/// transfer the receiver declined.
pub fn finish_transfer<A, B>(
    cancellations: &mut KeyedRegistry<A>,
    pending_decisions: &mut KeyedRegistry<B>,
    result: Result<TransferFinished, TransferFailed>,
) -> (event: Option<BackendEvent>)
    requires
        old(cancellations).wf(),
        old(pending_decisions).wf(),
    ensures
        final(cancellations).wf(),
        final(pending_decisions).wf(),
        final(cancellations).map() == old(cancellations).map().remove(outcome_id(result)),
        final(pending_decisions).map() == old(pending_decisions).map().remove(outcome_id(result)),
        result is Ok ==> event == Some(BackendEvent::TransferFinished(result->Ok_0)),
        result matches Err(f) ==> if f.message@ == denied_message() {
            event is None
        } else {
            event == Some(BackendEvent::TransferFailed(f))
        },
{
    match &result {
        Ok(f) => {
            cancellations.remove(f.transfer_id.as_str());
            pending_decisions.remove(f.transfer_id.as_str());
        },
        Err(f) => {
            cancellations.remove(f.transfer_id.as_str());
            pending_decisions.remove(f.transfer_id.as_str());
        },
    }
    match result {
        Ok(finished) => Some(BackendEvent::TransferFinished(finished)),
        Err(failed) => {
            if text_eq(failed.message.as_str(), "Transfer denied") {
                None
            } else {
                Some(BackendEvent::TransferFailed(failed))
            }
        },
    }
}

/// Takes the waiting decision of an offer the user answers.
pub fn take_pending_decision<V>(pending_decisions: &mut KeyedRegistry<V>, transfer_id: &str) -> (r:
    Result<V, String>)
    requires
        old(pending_decisions).wf(),
    ensures
        final(pending_decisions).wf(),
        final(pending_decisions).map() == old(pending_decisions).map().remove(transfer_id@),
        old(pending_decisions).map().dom().contains(transfer_id@) ==> r == Ok::<V, String>(
            old(pending_decisions).map()[transfer_id@],
        ),
        !old(pending_decisions).map().dom().contains(transfer_id@) ==> (r matches Err(m) && m@
            == "That transfer request is no longer waiting"@),
{
    match pending_decisions.remove(transfer_id) {
        Some(v) => Ok(v),
        None => Err("That transfer request is no longer waiting".to_owned()),
    }
}

/// The device to send to, when it is still listed.
pub fn device_for_transfer(devices: &KeyedRegistry<NearbyDevice>, device_id: &str) -> (r: Result<
    NearbyDevice,
    String,
>)
    requires
        devices.wf(),
    ensures
        devices.map().dom().contains(device_id@) ==> r == Ok::<NearbyDevice, String>(
            devices.map()[device_id@],
        ),
        !devices.map().dom().contains(device_id@) ==> (r matches Err(m) && m@
            == "That device is no longer available"@),
{
    match devices.get(device_id) {
        Some(d) => Ok(copy_device(d)),
        None => Err("That device is no longer available".to_owned()),
    }
}

/// A file being received: what arrived so far and how much is still due.
pub struct ReceivingFile {
    hasher: Sha256Stream,
    size: u64,
    remaining: u64,
}

impl ReceivingFile {
    /// The bytes received so far.
    pub closed spec fn received(&self) -> Seq<u8> {
        sha256_absorbed(&self.hasher)
    }

    /// The announced size.
    pub closed spec fn size(&self) -> nat {
        self.size as nat
    }

    /// The bytes still due.
    pub closed spec fn remaining(&self) -> nat {
        self.remaining as nat
    }

    /// What arrived and what is due make up the announced size.
    pub closed spec fn wf(&self) -> bool {
        self.received().len() + self.remaining == self.size
    }

    /// Starts receiving file `file_index` of `offer` once its header was
    /// read: the header must announce exactly that file.
    pub fn begin(offer: &TransferOffer, file_index: usize, header: &FileHeader) -> (r: Result<
        ReceivingFile,
        String,
    >)
        requires
            file_index < offer.files@.len(),
        ensures
            r is Ok <==> (header.transfer_id@ == offer.transfer_id@ && header.file_index
                == file_index && same_file(header.file, offer.files@[file_index as int])),
            r matches Err(m) ==> m@ == unexpected_header_message(),
            header.file.name@ != offer.files@[file_index as int].name@ || header.file.size
                != offer.files@[file_index as int].size || header.file.sha256@
                != offer.files@[file_index as int].sha256@ ==> r is Err,
            r matches Ok(f) ==> f.wf() && f.received() == Seq::<u8>::empty() && f.size()
                == offer.files@[file_index as int].size && f.remaining() == f.size(),
    {
        check_file_header(offer, file_index, header)?;
        let size = offer.files[file_index].size;
        Ok(ReceivingFile { hasher: Sha256Stream::new(), size, remaining: size })
    }

    /// Whether every announced byte has arrived.
    pub fn is_complete(&self) -> (r: bool)
        ensures
            r == (self.remaining() == 0),
    {
        self.remaining == 0
    }

    /// The bytes still due.
    pub fn remaining_bytes(&self) -> (r: u64)
        ensures
            r == self.remaining(),
    {
        self.remaining
    }

    /// How many bytes to read next into a buffer of `buffer_len` bytes.
    pub fn wanted(&self, buffer_len: usize) -> (n: usize)
        ensures
            n as nat == (if self.remaining() < buffer_len as nat {
                self.remaining()
            } else {
                buffer_len as nat
            }),
    {
        next_read_len(self.remaining, buffer_len)
    }

    /// Takes in the bytes of one read; a read of nothing means the sender
    /// went away.
    pub fn absorb(&mut self, chunk: &[u8]) -> (r: Result<(), String>)
        requires
            old(self).wf(),
            chunk@.len() <= old(self).remaining(),
        ensures
            final(self).wf(),
            final(self).size() == old(self).size(),
            chunk@.len() == 0 ==> (r matches Err(m) && m@
                == "The sender disconnected before the transfer completed"@ && final(self).received()
                == old(self).received() && final(self).remaining() == old(self).remaining()),
            chunk@.len() > 0 ==> (r is Ok && final(self).received() == old(self).received()
                + chunk@ && final(self).remaining() == old(self).remaining() - chunk@.len()),
    {
        check_read(chunk.len())?;
        self.hasher.update(chunk);
        self.remaining = self.remaining - chunk.len() as u64;
        Ok(())
    }

    /// Ends a completely received file: its digest must be the announced one.
    pub fn finish(self, expected: &FileMetadata) -> (r: Result<(), String>)
        requires
            self.wf(),
            self.remaining() == 0,
        ensures
            self.received().len() == self.size(),
            hex_text(sha256_digest(self.received())) == expected.sha256@ ==> r is Ok,
            hex_text(sha256_digest(self.received())) != expected.sha256@ ==> (r matches Err(m)
                && m@ == expected.name@ + " failed its integrity check"@),
    {
        check_received_digest(expected, self.hasher)
    }
}

} // verus!
