//! Offers: the checks a receiver applies to an incoming offer, and the
//! assembly of an outgoing one.

use vstd::prelude::*;
use crate::models::{copy_identity, DeviceIdentity, FileMetadata, TransferOffer, PROTOCOL_VERSION};
use crate::identity::{is_v4_uuid_text, random_uuid_text};
use crate::integrity::{digest_hex, hex_text, sha256_absorbed, sha256_digest, Sha256Stream};
use crate::names::{is_unsafe_file_name, unsafe_name_message, validate_file_name};
use crate::text::{decimal, push_decimal, push_text, string_of, trim, trimmed};

verus! {

/// The largest number of files in one transfer.
pub const MAX_FILES_PER_TRANSFER: usize = 512;

/// An ASCII hexadecimal digit byte.
pub open spec fn is_ascii_hex_byte(b: u8) -> bool {
    (0x30 <= b && b <= 0x39) || (0x41 <= b && b <= 0x46) || (0x61 <= b && b <= 0x66)
}

/// Text shaped like a SHA-256 digest in hexadecimal: 64 bytes of UTF-8, all
/// ASCII hexadecimal digits.
pub open spec fn is_hex_digest_text(s: Seq<char>) -> bool {
    let b = vstd::utf8::encode_utf8(s);
    b.len() == 64 && forall|i: int| 0 <= i < 64 ==> is_ascii_hex_byte(#[trigger] b[i])
}

/// Checks the files of an offer in order, summing their sizes: the first
/// file with an unsafe name or a malformed digest, or a sum beyond `u64`,
/// stops the check with its message.
pub open spec fn files_total(files: Seq<FileMetadata>) -> Result<nat, Seq<char>>
    decreases files.len(),
{
    if files.len() == 0 {
        Ok(0)
    } else {
        match files_total(files.drop_last()) {
            Err(m) => Err(m),
            Ok(t) => {
                let f = files.last();
                if is_unsafe_file_name(f.name@) {
                    Err(unsafe_name_message())
                } else if !is_hex_digest_text(f.sha256@) {
                    Err(f.name@ + " has an invalid integrity hash"@)
                } else if t + f.size > u64::MAX {
                    Err("The transfer size is too large"@)
                } else {
                    Ok((t + f.size) as nat)
                }
            },
        }
    }
}

/// A failure in the check of the first `k` files is the failure of the
/// whole list.
proof fn lemma_files_total_prefix_error(files: Seq<FileMetadata>, k: int)
    requires
        0 <= k <= files.len(),
        files_total(files.take(k)) is Err,
    ensures
        files_total(files) == files_total(files.take(k)),
    decreases files.len() - k,
{
    if k < files.len() {
        assert(files.take(k + 1).drop_last() == files.take(k));
        lemma_files_total_prefix_error(files, k + 1);
    } else {
        assert(files.take(k) == files);
    }
}

/// What checking an incoming offer gives: `Ok` for an acceptable offer,
/// else the message of the first check that fails, in this order: protocol
/// version, number of files, sender identity, each file, total size.
pub open spec fn offer_check(offer: TransferOffer) -> Result<(), Seq<char>> {
    if offer.protocol_version != PROTOCOL_VERSION {
        Err("This device uses FileDrop protocol "@ + decimal(PROTOCOL_VERSION as nat)
            + ", but the sender uses protocol "@ + decimal(offer.protocol_version as nat))
    } else if offer.files@.len() == 0 || offer.files@.len() > MAX_FILES_PER_TRANSFER {
        Err("The transfer contains an invalid number of files"@)
    } else if offer.sender.id@.len() == 0 || trimmed(offer.sender.name@).len() == 0 {
        Err("The sender identity is invalid"@)
    } else {
        match files_total(offer.files@) {
            Err(m) => Err(m),
            Ok(t) => if t != offer.total_bytes {
                Err("The transfer size does not match its file list"@)
            } else {
                Ok(())
            },
        }
    }
}

/// Whether `s` is shaped like a hexadecimal SHA-256 digest.
pub fn hex_digest_text(s: &str) -> (r: bool)
    ensures
        r == is_hex_digest_text(s@),
{
    let b = s.as_bytes();
    if b.len() != 64 {
        return false;
    }
    let mut i: usize = 0;
    while i < 64
        invariant
            i <= 64,
            b@.len() == 64,
            b@ == vstd::utf8::encode_utf8(s@),
            forall|j: int| 0 <= j < i ==> is_ascii_hex_byte(#[trigger] b@[j]),
        decreases 64 - i,
    {
        let x = b[i];
        if !((0x30 <= x && x <= 0x39) || (0x41 <= x && x <= 0x46) || (0x61 <= x && x <= 0x66)) {
            return false;
        }
        i = i + 1;
    }
    true
}

/// Checks an incoming offer before the user is asked about it.
pub fn validate_offer(offer: &TransferOffer) -> (r: Result<(), String>)
    ensures
        match offer_check(*offer) {
            Ok(()) => r is Ok,
            Err(m) => r matches Err(e) && e@ == m,
        },
{
    if offer.protocol_version != PROTOCOL_VERSION {
        let mut m: Vec<char> = Vec::new();
        push_text(&mut m, "This device uses FileDrop protocol ");
        push_decimal(&mut m, PROTOCOL_VERSION as u64);
        push_text(&mut m, ", but the sender uses protocol ");
        push_decimal(&mut m, offer.protocol_version as u64);
        return Err(string_of(&m));
    }
    if offer.files.len() == 0 || offer.files.len() > MAX_FILES_PER_TRANSFER {
        return Err("The transfer contains an invalid number of files".to_owned());
    }
    let name = trim(offer.sender.name.as_str());
    if offer.sender.id.as_str().is_empty() || name.as_str().is_empty() {
        return Err("The sender identity is invalid".to_owned());
    }
    let mut total: u64 = 0;
    let mut i: usize = 0;
    while i < offer.files.len()
        invariant
            i <= offer.files@.len(),
            offer.protocol_version == PROTOCOL_VERSION,
            0 < offer.files@.len() <= MAX_FILES_PER_TRANSFER,
            offer.sender.id@.len() != 0 && trimmed(offer.sender.name@).len() != 0,
            files_total(offer.files@.take(i as int)) == Ok::<nat, Seq<char>>(total as nat),
        decreases offer.files.len() - i,
    {
        let f = &offer.files[i];
        assert(offer.files@.take(i + 1).drop_last() == offer.files@.take(i as int));
        assert(offer.files@.take(i + 1).last() == *f);
        let named = validate_file_name(f.name.as_str());
        if named.is_err() {
            proof { lemma_files_total_prefix_error(offer.files@, i + 1); }
            return Err("The transfer contains an unsafe file name".to_owned());
        }
        if !hex_digest_text(f.sha256.as_str()) {
            proof { lemma_files_total_prefix_error(offer.files@, i + 1); }
            let mut m: Vec<char> = Vec::new();
            push_text(&mut m, f.name.as_str());
            push_text(&mut m, " has an invalid integrity hash");
            return Err(string_of(&m));
        }
        match total.checked_add(f.size) {
            Some(t) => {
                total = t;
            },
            None => {
                proof { lemma_files_total_prefix_error(offer.files@, i + 1); }
                return Err("The transfer size is too large".to_owned());
            },
        }
        i = i + 1;
    }
    assert(offer.files@.take(offer.files@.len() as int) == offer.files@);
    if total != offer.total_bytes {
        return Err("The transfer size does not match its file list".to_owned());
    }
    Ok(())
}

/// The sum of the sizes of `files`.
pub open spec fn sizes_total(files: Seq<FileMetadata>) -> nat
    decreases files.len(),
{
    if files.len() == 0 {
        0
    } else {
        sizes_total(files.drop_last()) + (files.last().size as nat)
    }
}

/// The sum of the sizes of `files`, when it fits in `u64`.
pub fn checked_sizes_total(files: &Vec<FileMetadata>) -> (r: Option<u64>)
    ensures
        sizes_total(files@) <= u64::MAX ==> r == Some(sizes_total(files@) as u64),
        sizes_total(files@) > u64::MAX ==> r is None,
{
    let mut total: u64 = 0;
    let mut i: usize = 0;
    while i < files.len()
        invariant
            i <= files@.len(),
            total as nat == sizes_total(files@.take(i as int)),
        decreases files.len() - i,
    {
        assert(files@.take(i + 1).drop_last() == files@.take(i as int));
        match total.checked_add(files[i].size) {
            Some(t) => {
                total = t;
            },
            None => {
                proof { lemma_sizes_total_prefix(files@, i + 1); }
                return None;
            },
        }
        i = i + 1;
    }
    assert(files@.take(files@.len() as int) == files@);
    Some(total)
}

/// Checks how many files were selected for sending: at least one, at most
/// the limit of a transfer.
pub fn check_selection(count: usize) -> (r: Result<(), String>)
    ensures
        r is Ok <==> 0 < count <= MAX_FILES_PER_TRANSFER,
        count == 0 ==> (r matches Err(m) && m@ == "Select at least one file"@),
        count > MAX_FILES_PER_TRANSFER ==> (r matches Err(m) && m@
            == "A transfer can contain at most 512 files"@),
{
    if count == 0 {
        return Err("Select at least one file".to_owned());
    }
    if count > MAX_FILES_PER_TRANSFER {
        return Err("A transfer can contain at most 512 files".to_owned());
    }
    Ok(())
}

/// Checks that a selected path, shown as `display`, is a regular file.
pub fn check_regular_file(display: &str, is_file: bool) -> (r: Result<(), String>)
    ensures
        r is Ok <==> is_file,
        r matches Err(m) ==> m@ == display@ + " is not a file"@,
{
    if is_file {
        Ok(())
    } else {
        let mut m: Vec<char> = Vec::new();
        push_text(&mut m, display);
        push_text(&mut m, " is not a file");
        Err(string_of(&m))
    }
}

/// The name a selected file is offered under: its final path component,
/// which must be non-empty text.
pub fn selected_file_name(display: &str, file_name: Option<String>) -> (r: Result<String, String>)
    ensures
        file_name matches Some(n) && n@.len() > 0 ==> r == Ok::<String, String>(file_name->0),
        !(file_name matches Some(n) && n@.len() > 0) ==> (r matches Err(m) && m@ == display@
            + " does not have a valid file name"@),
{
    match file_name {
        Some(n) => {
            if !n.as_str().is_empty() {
                return Ok(n);
            }
        },
        None => {},
    }
    let mut m: Vec<char> = Vec::new();
    push_text(&mut m, display);
    push_text(&mut m, " does not have a valid file name");
    Err(string_of(&m))
}

/// The offer for sending `files` from `sender`: this protocol version, a
/// fresh random transfer id, and the sum of the file sizes.
pub fn assemble_offer(sender: &DeviceIdentity, files: Vec<FileMetadata>) -> (offer: TransferOffer)
    requires
        sizes_total(files@) <= u64::MAX,
    ensures
        offer.protocol_version == PROTOCOL_VERSION,
        is_v4_uuid_text(offer.transfer_id@),
        offer.sender.id@ == sender.id@,
        offer.sender.name@ == sender.name@,
        offer.sender.platform@ == sender.platform@,
        offer.files@ == files@,
        offer.total_bytes == sizes_total(files@),
{
    let mut total: u64 = 0;
    let mut i: usize = 0;
    while i < files.len()
        invariant
            i <= files@.len(),
            sizes_total(files@) <= u64::MAX,
            total as nat == sizes_total(files@.take(i as int)),
        decreases files.len() - i,
    {
        assert(files@.take(i + 1).drop_last() == files@.take(i as int));
        proof { lemma_sizes_total_prefix(files@, i + 1); }
        total = total + files[i].size;
        i = i + 1;
    }
    assert(files@.take(files@.len() as int) == files@);
    TransferOffer {
        protocol_version: PROTOCOL_VERSION,
        transfer_id: random_uuid_text(),
        sender: copy_identity(sender),
        files,
        total_bytes: total,
    }
}

/// The sizes of the first `k + 1` files are those of the first `k` and
/// that of file `k`.
pub proof fn lemma_sizes_total_step(files: Seq<FileMetadata>, k: int)
    requires
        0 <= k < files.len(),
    ensures
        sizes_total(files.take(k + 1)) == sizes_total(files.take(k)) + files[k].size,
{
    assert(files.take(k + 1).drop_last() == files.take(k));
    assert(files.take(k + 1).last() == files[k]);
}

/// A prefix of a file list has no larger total.
proof fn lemma_sizes_total_prefix(files: Seq<FileMetadata>, k: int)
    requires
        0 <= k <= files.len(),
    ensures
        sizes_total(files.take(k)) <= sizes_total(files),
    decreases files.len() - k,
{
    if k < files.len() {
        assert(files.take(k + 1).drop_last() == files.take(k));
        lemma_sizes_total_prefix(files, k + 1);
    } else {
        assert(files.take(k) == files);
    }
}

/// Files with safe names and digest-shaped hashes whose sizes sum within
/// `u64` pass the file checks, with their sum as total.
pub proof fn lemma_files_total_of_sound_files(files: Seq<FileMetadata>)
    requires
        forall|i: int| 0 <= i < files.len() ==> !is_unsafe_file_name((#[trigger] files[i]).name@),
        forall|i: int| 0 <= i < files.len() ==> is_hex_digest_text((#[trigger] files[i]).sha256@),
        sizes_total(files) <= u64::MAX,
    ensures
        files_total(files) == Ok::<nat, Seq<char>>(sizes_total(files)),
    decreases files.len(),
{
    if files.len() > 0 {
        let p = files.drop_last();
        assert forall|i: int| 0 <= i < p.len() implies !is_unsafe_file_name((#[trigger] p[i]).name@) by {
            assert(p[i] == files[i]);
        }
        assert forall|i: int| 0 <= i < p.len() implies is_hex_digest_text((#[trigger] p[i]).sha256@) by {
            assert(p[i] == files[i]);
        }
        lemma_files_total_of_sound_files(p);
        assert(files.last() == files[files.len() - 1]);
    }
}

/// An offer assembled by a sender passes the receiver's checks when the
/// sender's identity is valid, between one and the limit of files were
/// selected, their names are safe and their digests are in hexadecimal;
/// the checks refuse nothing else that the assembly can produce.
pub proof fn lemma_assembled_offer_is_valid(offer: TransferOffer)
    requires
        offer.protocol_version == PROTOCOL_VERSION,
        0 < offer.files@.len() <= MAX_FILES_PER_TRANSFER,
        offer.sender.id@.len() > 0,
        trimmed(offer.sender.name@).len() > 0,
        forall|i: int| 0 <= i < offer.files@.len() ==> !is_unsafe_file_name(
            (#[trigger] offer.files@[i]).name@,
        ),
        forall|i: int| 0 <= i < offer.files@.len() ==> is_hex_digest_text(
            (#[trigger] offer.files@[i]).sha256@,
        ),
        offer.total_bytes == sizes_total(offer.files@),
    ensures
        offer_check(offer) is Ok,
{
    lemma_files_total_of_sound_files(offer.files@);
}

/// Files that pass the file checks have safe names.
proof fn lemma_files_total_ok_names_are_safe(files: Seq<FileMetadata>)
    requires
        files_total(files) is Ok,
    ensures
        forall|i: int| 0 <= i < files.len() ==> !is_unsafe_file_name((#[trigger] files[i]).name@),
    decreases files.len(),
{
    if files.len() > 0 {
        let p = files.drop_last();
        lemma_files_total_ok_names_are_safe(p);
        assert forall|i: int| 0 <= i < files.len() implies !is_unsafe_file_name(
            (#[trigger] files[i]).name@,
        ) by {
            if i < files.len() - 1 {
                assert(files[i] == p[i]);
            }
        }
    }
}

/// An offer being prepared by a sender: the files described so far, out of
/// the number selected.
pub struct OfferDraft {
    files: Vec<FileMetadata>,
    expected: usize,
}

impl OfferDraft {
    /// The files described so far.
    pub closed spec fn files(&self) -> Seq<FileMetadata> {
        self.files@
    }

    /// The number of files selected.
    pub closed spec fn expected(&self) -> nat {
        self.expected as nat
    }

    /// Between one and the limit of files were selected, no more are
    /// described, and every file described has a hexadecimal SHA-256 digest.
    pub closed spec fn wf(&self) -> bool {
        &&& 0 < self.expected <= MAX_FILES_PER_TRANSFER
        &&& self.files@.len() <= self.expected
        &&& forall|i: int| 0 <= i < self.files@.len() ==> is_hex_digest_text(
            (#[trigger] self.files@[i]).sha256@,
        )
    }

    /// Starts an offer for `count` selected files: at least one, at most the
    /// limit of a transfer.
    pub fn start(count: usize) -> (r: Result<OfferDraft, String>)
        ensures
            r is Ok <==> 0 < count <= MAX_FILES_PER_TRANSFER,
            r matches Ok(d) ==> d.wf() && d.files() == Seq::<FileMetadata>::empty() && d.expected()
                == count,
            count == 0 ==> (r matches Err(m) && m@ == "Select at least one file"@),
            count > MAX_FILES_PER_TRANSFER ==> (r matches Err(m) && m@
                == "A transfer can contain at most 512 files"@),
    {
        check_selection(count)?;
        Ok(OfferDraft { files: Vec::new(), expected: count })
    }

    /// The name a selected path, shown as `display`, is offered under: the
    /// path must be a regular file, and its final component non-empty text.
    pub fn offered_name(display: &str, is_file: bool, file_name: Option<String>) -> (r: Result<
        String,
        String,
    >)
        ensures
            !is_file ==> (r matches Err(m) && m@ == display@ + " is not a file"@),
            is_file && (file_name matches Some(n) && n@.len() > 0) ==> r == Ok::<String, String>(
                file_name->0,
            ),
            is_file && !(file_name matches Some(n) && n@.len() > 0) ==> (r matches Err(m) && m@
                == display@ + " does not have a valid file name"@),
    {
        check_regular_file(display, is_file)?;
        selected_file_name(display, file_name)
    }

    /// Describes the next file: named `name`, of `size` bytes, with the
    /// contents fed to `contents`.
    pub fn add(&mut self, name: String, size: u64, contents: Sha256Stream)
        requires
            old(self).wf(),
            old(self).files().len() < old(self).expected(),
        ensures
            final(self).wf(),
            final(self).expected() == old(self).expected(),
            final(self).files().len() == old(self).files().len() + 1,
            final(self).files().drop_last() == old(self).files(),
            final(self).files().last().name@ == name@,
            final(self).files().last().size == size,
            final(self).files().last().sha256@ == hex_text(sha256_digest(sha256_absorbed(&contents))),
    {
        let sha256 = digest_hex(contents);
        let ghost before = self.files@;
        self.files.push(FileMetadata { name, size, sha256 });
        assert(self.files@.drop_last() == before);
        assert forall|i: int| 0 <= i < self.files@.len() implies is_hex_digest_text(
            (#[trigger] self.files@[i]).sha256@,
        ) by {
            if i < before.len() {
                assert(self.files@[i] == before[i]);
            }
        }
    }

    /// The sum of the sizes of the files described, when it fits in `u64`.
    pub fn total_size(&self) -> (r: Option<u64>)
        ensures
            sizes_total(self.files()) <= u64::MAX ==> r == Some(sizes_total(self.files()) as u64),
            sizes_total(self.files()) > u64::MAX ==> r is None,
    {
        checked_sizes_total(&self.files)
    }

    /// The offer for every selected file, sent by `sender`: this protocol
    /// version, a fresh random transfer id and the sum of the sizes. A
    /// receiver's checks pass it exactly when the sender's identity is valid
    /// and every file name is safe.
    pub fn finish(self, sender: &DeviceIdentity) -> (offer: TransferOffer)
        requires
            self.wf(),
            self.files().len() == self.expected(),
            sizes_total(self.files()) <= u64::MAX,
        ensures
            offer.protocol_version == PROTOCOL_VERSION,
            is_v4_uuid_text(offer.transfer_id@),
            offer.sender.id@ == sender.id@,
            offer.sender.name@ == sender.name@,
            offer.sender.platform@ == sender.platform@,
            offer.files@ == self.files(),
            offer.total_bytes == sizes_total(self.files()),
            offer_check(offer) is Ok <==> (sender.id@.len() > 0 && trimmed(sender.name@).len() > 0
                && forall|i: int| 0 <= i < offer.files@.len() ==> !is_unsafe_file_name(
                (#[trigger] offer.files@[i]).name@,
            )),
    {
        let offer = assemble_offer(sender, self.files);
        proof {
            if sender.id@.len() > 0 && trimmed(sender.name@).len() > 0 && forall|i: int|
                0 <= i < offer.files@.len() ==> !is_unsafe_file_name(
                    (#[trigger] offer.files@[i]).name@,
                ) {
                lemma_assembled_offer_is_valid(offer);
            }
            if offer_check(offer) is Ok {
                lemma_files_total_ok_names_are_safe(offer.files@);
            }
        }
        offer
    }
}

} // verus!
