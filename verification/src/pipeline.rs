//! Per-message orchestration: locate, extract, decompress.
//!
//! Each message is processed independently; a failure at any stage turns into
//! a skip reason for that message alone, so one bad message never disturbs
//! the rest of the batch. Fetching raw messages, parsing them into the
//! message model, writing the recovered bytes out, and logging skips are the
//! callers' business.

use vstd::prelude::*;

use crate::attach::Attachment;
use crate::attach::ExtractError;
use crate::attach::extract;
use crate::attach::lemma_extract_succeeds;
use crate::attach::spec_extract;
use crate::codec::DecompressError;
use crate::codec::decompress;
use crate::codec::spec_decompress;
use crate::mime::Message;
use crate::mime::Part;
use crate::mime::is_usable_mime;
use crate::mime::lemma_locate_none_without_usable;
use crate::mime::locate;
use crate::mime::spec_locate;

verus! {

/// Why a message was skipped rather than written.
#[derive(Clone, Copy, PartialEq, Eq, Structural, Debug)]
pub enum SkipReason {
    /// No part of the message declares a usable media type.
    NotFound,
    /// The located part's raw body is empty.
    MissingBody,
    /// The located part declares no filename, or declares an empty one.
    MissingName,
    /// The bytes are not a readable archive, or its first entry does not decode.
    CorruptArchive,
    /// The bytes are not a valid gzip stream, or the stream does not decode.
    CorruptStream,
}

/// What the pipeline yields for a message: the output filename and the
/// recovered document, or the reason the message is skipped.
pub open spec fn spec_process(m: Message) -> Result<(Seq<char>, Seq<u8>), SkipReason> {
    match spec_locate(m) {
        None => Err(SkipReason::NotFound),
        Some(p) => match spec_extract(p) {
            Err(ExtractError::MissingBody) => Err(SkipReason::MissingBody),
            Err(ExtractError::MissingName) => Err(SkipReason::MissingName),
            Ok(t) => match spec_decompress(t.0, t.1, t.2) {
                Err(DecompressError::CorruptArchive) => Err(SkipReason::CorruptArchive),
                Err(DecompressError::CorruptStream) => Err(SkipReason::CorruptStream),
                Ok(e) => Ok((e.1, e.0)),
            },
        },
    }
}

/// A pipeline outcome agrees with what the pipeline owes the message: on
/// success a decompressed attachment whose name and recovered bytes are the
/// owed ones, on failure exactly the owed skip reason.
pub open spec fn outcome_matches(
    r: Result<Attachment, SkipReason>,
    owed: Result<(Seq<char>, Seq<u8>), SkipReason>,
) -> bool {
    match r {
        Ok(a) => a.decompressed matches Some(d) && owed == Ok::<_, SkipReason>((a.name@, d@)),
        Err(e) => owed == Err::<(Seq<char>, Seq<u8>), SkipReason>(e),
    }
}

/// Runs one message through the pipeline: locates the report-bearing part,
/// extracts the raw attachment, and decompresses it. Every failure is
/// reported as a skip reason for this message alone.
pub fn process_message(m: &Message) -> (r: Result<Attachment, SkipReason>)
    ensures
        outcome_matches(r, spec_process(*m)),
{
    let part = match locate(m) {
        None => return Err(SkipReason::NotFound),
        Some(p) => p,
    };
    let attachment = match extract(part) {
        Err(ExtractError::MissingBody) => return Err(SkipReason::MissingBody),
        Err(ExtractError::MissingName) => return Err(SkipReason::MissingName),
        Ok(a) => a,
    };
    match decompress(attachment) {
        Err(DecompressError::CorruptArchive) => Err(SkipReason::CorruptArchive),
        Err(DecompressError::CorruptStream) => Err(SkipReason::CorruptStream),
        Ok(b) => Ok(b),
    }
}

/// Runs a batch of messages through the pipeline, one at a time and in order.
/// Each outcome is owed by its own message alone, so a skipped message leaves
/// every other message's outcome untouched.
pub fn process_batch(msgs: &Vec<Message>) -> (r: Vec<Result<Attachment, SkipReason>>)
    ensures
        r@.len() == msgs@.len(),
        forall|i: int|
            0 <= i < msgs@.len() ==> outcome_matches(#[trigger] r@[i], spec_process(msgs@[i])),
{
    let n = msgs.len();
    let mut r: Vec<Result<Attachment, SkipReason>> = Vec::new();
    let mut i: usize = 0;
    while i < n
        invariant
            i <= n,
            n == msgs@.len(),
            r@.len() == i,
            forall|j: int|
                0 <= j < i ==> outcome_matches(#[trigger] r@[j], spec_process(msgs@[j])),
        decreases n - i,
    {
        let outcome = process_message(&msgs[i]);
        r.push(outcome);
        i = i + 1;
    }
    r
}

/// When the part the locator selects for a message carries both a non-empty
/// body and a non-empty declared filename, extraction succeeds and hands the
/// decompression stage exactly those bytes, that media type, and that name.
pub proof fn lemma_located_part_extracted(m: Message, p: Part)
    requires
        spec_locate(m) == Some(p),
        p.body@.len() > 0,
        p.filename matches Some(n) && n@.len() > 0,
    ensures
        p.filename matches Some(n) && spec_extract(p) == Ok::<_, ExtractError>(
            (p.body@, p.mimetype@, n@),
        ),
{
    lemma_extract_succeeds(p);
}

/// A message in which no part declares a usable media type is skipped as not
/// found: the pipeline yields no output for it, so nothing of it is written.
pub proof fn lemma_no_usable_part_skipped(m: Message)
    requires
        !is_usable_mime(m.top.mimetype@),
        forall|i: int|
            0 <= i < m.children@.len() ==> !is_usable_mime(#[trigger] m.children@[i].mimetype@),
    ensures
        spec_locate(m) is None,
        spec_process(m) == Err::<(Seq<char>, Seq<u8>), SkipReason>(SkipReason::NotFound),
{
    lemma_locate_none_without_usable(m);
}

} // verus!
