//! The output of the processes that steps start: each line is cut off its
//! line ending, turned into text, and handed on as a log line.

use crate::events::{log_event, EngineEvent};
use vstd::prelude::*;
use vstd::string::StringExecFns;
use vstd::utf8::{decode_utf8, valid_utf8};

verus! {

/// What decoding `bytes` as EUC-KR, the encoding of the Windows code page
/// 949, gives: the text, and whether malformed input was replaced in it. A
/// byte order mark at the start makes the decoder read the bytes in the
/// encoding that the mark stands for.
pub uninterp spec fn legacy_decoded(bytes: Seq<u8>) -> (Seq<char>, bool);

/// The text of `bytes` read as UTF-8, with each malformed part replaced by
/// U+FFFD.
pub uninterp spec fn lossy_decoded(bytes: Seq<u8>) -> Seq<char>;

/// The longest input handed to the legacy decoder: it sizes its output at
/// up to three times the input and a little more, which must be a length.
pub const MAX_LINE_BYTES: usize = usize::MAX / 4;

/// `str::from_utf8` of the standard library: the text of `bytes` where
/// they are well-formed UTF-8, and nothing where they are not.
#[verifier::external_body]
fn utf8_text(bytes: &[u8]) -> (text: Option<String>)
    ensures
        match text {
            Some(text) => valid_utf8(bytes@) && text@ == decode_utf8(bytes@),
            None => !valid_utf8(bytes@),
        },
{
    match std::str::from_utf8(bytes) {
        Ok(text) => Some(text.to_string()),
        Err(_) => None,
    }
}

/// `Encoding::decode` of the `encoding_rs` crate, on `EUC_KR`: the decoded
/// text and whether there were malformed sequences. The encoding that was
/// used is dropped. The call fails where the size of its output does not fit
/// a length, which the bound on the input rules out.
#[verifier::external_body]
fn legacy_text(bytes: &[u8]) -> (decoded: (String, bool))
    requires
        bytes@.len() <= MAX_LINE_BYTES,
    ensures
        decoded.0@ == legacy_decoded(bytes@).0,
        decoded.1 == legacy_decoded(bytes@).1,
{
    let (text, _, had_errors) = encoding_rs::EUC_KR.decode(bytes);
    (text.into_owned(), had_errors)
}

/// `String::from_utf8_lossy` of the standard library.
#[verifier::external_body]
fn lossy_text(bytes: &[u8]) -> (text: String)
    ensures
        text@ == lossy_decoded(bytes@),
{
    String::from_utf8_lossy(bytes).into_owned()
}

/// The text of a line of output: the bytes as UTF-8 where they are
/// well-formed; else as the legacy encoding where that decodes them without
/// fault; else as UTF-8 with the malformed parts replaced.
pub open spec fn log_line_text(bytes: Seq<u8>) -> Seq<char> {
    if valid_utf8(bytes) {
        decode_utf8(bytes)
    } else if !legacy_decoded(bytes).1 {
        legacy_decoded(bytes).0
    } else {
        lossy_decoded(bytes)
    }
}

/// Picks the text of a line from what the decoders gave: the UTF-8 text
/// where there is one, else the legacy text where it has no fault, else the
/// lossy text.
pub fn pick_decoding(utf8: Option<String>, legacy: (String, bool), lossy: String) -> (text: String)
    ensures
        text@ == match utf8 {
            Some(t) => t@,
            None => if !legacy.1 {
                legacy.0@
            } else {
                lossy@
            },
        },
{
    match utf8 {
        Some(text) => text,
        None => if !legacy.1 {
            legacy.0
        } else {
            lossy
        },
    }
}

/// Turns a line of output into text. Bytes that are not UTF-8 are tried
/// as the legacy encoding; bytes that are neither come out with their
/// malformed parts replaced. No input makes this fail.
pub fn decode_log_line(buffer: &[u8]) -> (text: String)
    requires
        buffer@.len() <= MAX_LINE_BYTES,
    ensures
        text@ == log_line_text(buffer@),
{
    match utf8_text(buffer) {
        Some(text) => text,
        None => {
            let (text, had_errors) = legacy_text(buffer);
            if had_errors {
                lossy_text(buffer)
            } else {
                text
            }
        },
    }
}

/// Whether `b` is a line feed or a carriage return.
pub open spec fn is_line_end(b: u8) -> bool {
    b == 10 || b == 13
}

/// How much of `bytes` is left when the line feeds and carriage returns at
/// its end are cut off.
pub open spec fn trimmed_len(bytes: Seq<u8>) -> int
    decreases bytes.len(),
{
    if bytes.len() > 0 && is_line_end(bytes.last()) {
        trimmed_len(bytes.drop_last())
    } else {
        bytes.len() as int
    }
}

/// `bytes` without the line feeds and carriage returns at its end.
pub open spec fn without_line_end(bytes: Seq<u8>) -> Seq<u8> {
    bytes.take(trimmed_len(bytes))
}

/// Whether `b` is a line feed or a carriage return.
fn line_end(b: u8) -> (yes: bool)
    ensures
        yes == is_line_end(b),
{
    b == 10 || b == 13
}

/// Cuts the line feeds and carriage returns off the end of `buffer`.
pub fn strip_line_end(buffer: &mut Vec<u8>)
    ensures
        final(buffer)@ == without_line_end(old(buffer)@),
        final(buffer)@.len() <= old(buffer)@.len(),
{
    while buffer.len() > 0 && line_end(buffer[buffer.len() - 1])
        invariant
            buffer@.len() <= old(buffer)@.len(),
            buffer@ == old(buffer)@.take(buffer@.len() as int),
            trimmed_len(buffer@) == trimmed_len(old(buffer)@),
        decreases buffer@.len(),
    {
        let ghost before = buffer@;
        buffer.pop();
        proof {
            assert(buffer@ =~= before.drop_last());
            assert(buffer@ =~= old(buffer)@.take(buffer@.len() as int));
        }
    }
}

/// The log line of a line of output: the stream's tag, a colon, the text.
pub open spec fn tagged(tag: Seq<char>, text: Seq<char>) -> Seq<char> {
    tag + ": "@ + text
}

/// The log event of one chunk of a process's output, as it was read up to
/// and with its line feed: the chunk without its line ending, as text,
/// behind the tag of the stream it came from.
pub fn pipe_forwarder(step_id: &str, tag: &str, chunk: Vec<u8>) -> (event: EngineEvent)
    requires
        chunk@.len() <= MAX_LINE_BYTES,
    ensures
        event@ == log_event(step_id@, tagged(tag@, log_line_text(without_line_end(chunk@)))),
{
    let mut buffer = chunk;
    strip_line_end(&mut buffer);
    let text = decode_log_line(buffer.as_slice());
    let mut line = String::from_str(tag);
    line.append(": ");
    line.append(text.as_str());
    EngineEvent::StepLog { step_id: String::from_str(step_id), line }
}

/// The log event of a failure to read a process's output.
pub fn pipe_read_error(step_id: &str, tag: &str, error: &str) -> (event: EngineEvent)
    ensures
        event@ == log_event(step_id@, tag@ + " read error: "@ + error@),
{
    let mut line = String::from_str(tag);
    line.append(" read error: ");
    line.append(error);
    EngineEvent::StepLog { step_id: String::from_str(step_id), line }
}

} // verus!
