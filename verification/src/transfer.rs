//! The transfer executor, as a state machine over the events of its
//! streaming loop: before each chunk the cancellation signal and the pause
//! flag gate the next read; chunks grow the byte count and the partial
//! file; at end of stream the received bytes are held against the declared
//! total.

use vstd::prelude::*;

use crate::filename::{
    ext_for_content_type, ext_from_content_type, segment_is_usable, str_contains_char,
    url_segment,
};
use crate::model::{DownloadItem, DownloadStatus};
use crate::strutil::{
    after_last_char, before_first_char, lemma_contains_at, seq_contains_sub, spec_u64_dec,
    str_contains_sub, trim_trailing, trim_trailing_char, u64_to_string,
};
use crate::trusted::{mime_subtype_for_ext, mime_subtype_of};

verus! {

/// The decision taken before each read of the stream.
#[derive(Debug, PartialEq, Eq, Structural)]
pub enum Gate {
    /// The cancellation signal tripped: delete the partial file and end
    /// Canceled.
    CancelNow,
    /// The session is paused: read nothing, sleep briefly, check again.
    Wait,
    /// Read the next chunk.
    Read,
}

/// The decision ahead of each chunk: cancellation first, pause second,
/// otherwise the stream is read.
pub open spec fn spec_gate(cancelled: bool, paused: bool) -> Gate {
    if cancelled {
        Gate::CancelNow
    } else if paused {
        Gate::Wait
    } else {
        Gate::Read
    }
}

/// Decides what happens ahead of the next read.
pub fn poll_gate(cancelled: bool, paused: bool) -> (g: Gate)
    ensures
        g == spec_gate(cancelled, paused),
{
    if cancelled {
        Gate::CancelNow
    } else if paused {
        Gate::Wait
    } else {
        Gate::Read
    }
}

/// One pass of the streaming loop as the executor sees it: the two flags as
/// sampled before the read, and the data the stream handed over when the
/// gate allowed one — a chunk, or the end of the stream.
pub struct TransferEvent {
    pub cancelled: bool,
    pub paused: bool,
    pub data: Option<Vec<u8>>,
}

/// The message reported when the received bytes differ from the declared
/// total; it cites both counts.
pub open spec fn incomplete_message(expected: u64, got: u64) -> Seq<char> {
    "Incomplete download: expected "@ + spec_u64_dec(expected as nat) + " bytes, got "@
        + spec_u64_dec(got as nat) + " bytes"@
}

/// The path a finished transfer lands at.
pub open spec fn spec_path_join(dir: Seq<char>, name: Seq<char>) -> Seq<char> {
    dir + seq!['/'] + name
}

/// Joins a directory and a file name.
pub fn path_join(dir: &str, name: &str) -> (r: String)
    ensures
        r@ == spec_path_join(dir@, name@),
{
    let mut r = dir.to_owned();
    r.push('/');
    r.append(name);
    r
}

/// Whether a status is the correct end-of-stream outcome for a declared
/// total and a received byte count: a mismatch fails with the message that
/// cites both counts; otherwise the transfer completes with its size and
/// resting path.
pub open spec fn finish_status_ok(
    st: DownloadStatus,
    total: Option<u64>,
    downloaded: u64,
    dir: Seq<char>,
    filename: Seq<char>,
) -> bool {
    match total {
        Some(expected) => if downloaded != expected {
            st matches DownloadStatus::Failed(m) && m@ == incomplete_message(expected, downloaded)
        } else {
            st matches DownloadStatus::Completed { size, path } && size == downloaded && path@
                == spec_path_join(dir, filename)
        },
        None => st matches DownloadStatus::Completed { size, path } && size == downloaded
            && path@ == spec_path_join(dir, filename),
    }
}

/// The live state of one transfer: the declared total, the bytes moved so
/// far, and the bytes of the partial file on disk.
pub struct TransferExec {
    pub total: Option<u64>,
    pub downloaded: u64,
    pub file: Ghost<Seq<u8>>,
}

impl TransferExec {
    /// The byte count always equals the partial file's length.
    pub open spec fn wf(&self) -> bool {
        self.downloaded == self.file@.len()
    }

    /// A transfer that has just received its response headers: nothing
    /// moved yet.
    pub fn begin(total: Option<u64>) -> (r: Self)
        ensures
            r.wf(),
            r.total == total,
            r.downloaded == 0,
            r.file@ == Seq::<u8>::empty(),
    {
        TransferExec { total, downloaded: 0, file: Ghost(Seq::empty()) }
    }

    /// One pass of the loop. A cancelled pass ends the transfer Canceled; a
    /// paused pass reads nothing, so the byte count and the partial file
    /// stay exactly as they were until the session resumes; a chunk grows
    /// both; the end of the stream ends the transfer with the size check.
    pub fn step(&mut self, ev: &TransferEvent, dir: &str, filename: &str) -> (halt: Option<
        DownloadStatus,
    >)
        requires
            old(self).wf(),
            old(self).downloaded + (match ev.data {
                Some(chunk) => chunk@.len() as int,
                None => 0,
            }) <= u64::MAX,
        ensures
            final(self).wf(),
            final(self).total == old(self).total,
            ev.cancelled ==> (halt matches Some(st) && st is Canceled) && *final(self) == *old(self),
            !ev.cancelled && ev.paused ==> halt is None && *final(self) == *old(self),
            !ev.cancelled && !ev.paused ==> (ev.data matches Some(chunk) ==> halt is None
                && final(self).downloaded == old(self).downloaded + chunk@.len()
                && final(self).file@ == old(self).file@ + chunk@),
            !ev.cancelled && !ev.paused && ev.data is None ==> *final(self) == *old(self)
                && (halt matches Some(st) && finish_status_ok(
                st,
                old(self).total,
                old(self).downloaded,
                dir@,
                filename@,
            )),
    {
        match poll_gate(ev.cancelled, ev.paused) {
            Gate::CancelNow => Some(DownloadStatus::Canceled),
            Gate::Wait => None,
            Gate::Read => {
                match &ev.data {
                    Some(chunk) => {
                        self.on_chunk(chunk.as_slice());
                        None
                    },
                    None => Some(self.finish(dir, filename)),
                }
            },
        }
    }

    /// Counts one chunk and appends it to the partial file.
    pub fn on_chunk(&mut self, chunk: &[u8])
        requires
            old(self).wf(),
            old(self).downloaded + chunk@.len() <= u64::MAX,
        ensures
            final(self).wf(),
            final(self).total == old(self).total,
            final(self).downloaded == old(self).downloaded + chunk@.len(),
            final(self).file@ == old(self).file@ + chunk@,
    {
        self.downloaded = self.downloaded + chunk.len() as u64;
        self.file = Ghost(self.file@ + chunk@);
    }

    /// The terminal accounting at end of stream.
    pub fn finish(&self, dir: &str, filename: &str) -> (st: DownloadStatus)
        ensures
            finish_status_ok(st, self.total, self.downloaded, dir@, filename@),
    {
        match self.total {
            Some(expected) => {
                if self.downloaded != expected {
                    let mut msg = "Incomplete download: expected ".to_owned();
                    let e = u64_to_string(expected);
                    msg.append(e.as_str());
                    msg.append(" bytes, got ");
                    let g = u64_to_string(self.downloaded);
                    msg.append(g.as_str());
                    msg.append(" bytes");
                    DownloadStatus::Failed(msg)
                } else {
                    DownloadStatus::Completed {
                        size: self.downloaded,
                        path: path_join(dir, filename),
                    }
                }
            },
            None => {
                DownloadStatus::Completed { size: self.downloaded, path: path_join(dir, filename) }
            },
        }
    }
}

/// Law: when the received bytes differ from the declared total, the failure
/// message cites both counts — each appears in it in decimal.
pub proof fn lemma_mismatch_cites_both(expected: u64, got: u64)
    ensures
        seq_contains_sub(incomplete_message(expected, got), spec_u64_dec(expected as nat)),
        seq_contains_sub(incomplete_message(expected, got), spec_u64_dec(got as nat)),
{
    let msg = incomplete_message(expected, got);
    let a = "Incomplete download: expected "@;
    let e = spec_u64_dec(expected as nat);
    let b = " bytes, got "@;
    let g = spec_u64_dec(got as nat);
    assert(msg.subrange(a.len() as int, (a.len() + e.len()) as int) =~= e);
    lemma_contains_at(msg, e, a.len() as int);
    let goff = (a.len() + e.len() + b.len()) as int;
    assert(msg.subrange(goff, goff + g.len() as int) =~= g);
    lemma_contains_at(msg, g, goff);
}

/// Whether the content type names one of the known media words.
pub open spec fn has_known_ct_word(ct: Seq<char>) -> bool {
    seq_contains_sub(ct, "jpeg"@) || seq_contains_sub(ct, "jpg"@) || seq_contains_sub(ct, "png"@)
        || seq_contains_sub(ct, "gif"@) || seq_contains_sub(ct, "webp"@) || seq_contains_sub(
        ct,
        "mp4"@,
    ) || seq_contains_sub(ct, "webm"@) || seq_contains_sub(ct, "pdf"@) || seq_contains_sub(
        ct,
        "zip"@,
    ) || seq_contains_sub(ct, "json"@) || seq_contains_sub(ct, "text"@)
}

/// The extension for the executor's fallback name: the content-type mapping
/// when a known media word occurs, else the subtype guessed from the item's
/// declared type tag.
pub open spec fn spec_resolve_ext(ct: Seq<char>, type_tag: Seq<char>) -> Seq<char> {
    if has_known_ct_word(ct) {
        ext_for_content_type(ct)
    } else {
        mime_subtype_of(type_tag)
    }
}

/// The extension for the executor's fallback name.
pub fn resolve_ext(ct: &str, type_tag: &str) -> (r: String)
    ensures
        r@ == spec_resolve_ext(ct@, type_tag@),
{
    let known = str_contains_sub(ct, "jpeg") || str_contains_sub(ct, "jpg") || str_contains_sub(
        ct,
        "png",
    ) || str_contains_sub(ct, "gif") || str_contains_sub(ct, "webp") || str_contains_sub(
        ct,
        "mp4",
    ) || str_contains_sub(ct, "webm") || str_contains_sub(ct, "pdf") || str_contains_sub(
        ct,
        "zip",
    ) || str_contains_sub(ct, "json") || str_contains_sub(ct, "text");
    if known {
        ext_from_content_type(ct)
    } else {
        mime_subtype_for_ext(type_tag)
    }
}

/// The type tag the executor hands to the guesser: the item's, or nothing.
pub open spec fn spec_type_tag(item: DownloadItem) -> Seq<char> {
    match item.type_tag {
        Some(t) => t@,
        None => Seq::empty(),
    }
}

/// The filename the executor resolves for an item: the explicit name when
/// the item carries one; else the last URL path segment with its query
/// stripped, when it can serve as a name; else that segment with an
/// extension from the content type or the declared type tag.
pub open spec fn spec_item_filename(item: DownloadItem, ct: Seq<char>) -> Seq<char> {
    match item.filename {
        Some(f) => f@,
        None => {
            let seg = url_segment(item.url@);
            if segment_is_usable(seg) {
                seg
            } else {
                trim_trailing(seg, '.') + seq!['.'] + spec_resolve_ext(ct, spec_type_tag(item))
            }
        },
    }
}

/// Resolves the filename for an item and a response content type.
pub fn resolve_item_filename(item: &DownloadItem, content_type: &str) -> (r: String)
    ensures
        r@ == spec_item_filename(*item, content_type@),
{
    match &item.filename {
        Some(f) => f.clone(),
        None => {
            let seg_full = after_last_char(item.url.as_str(), '/');
            let seg = before_first_char(seg_full.as_str(), '?');
            let n = seg.as_str().unicode_len();
            if n > 1 && str_contains_char(seg.as_str(), '.') && seg.as_str().get_char(n - 1)
                != '.' {
                seg
            } else {
                let tag: &str = match &item.type_tag {
                    Some(t) => t.as_str(),
                    None => "",
                };
                proof {
                    reveal_strlit("");
                    assert(""@ =~= Seq::<char>::empty());
                }
                let mut r = trim_trailing_char(seg.as_str(), '.');
                r.push('.');
                let ext = resolve_ext(content_type, tag);
                r.append(ext.as_str());
                r
            }
        },
    }
}

} // verus!
