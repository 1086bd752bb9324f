//! Rejected payloads as the log shows them.

use crate::json;
use crate::json::json_text;
use crate::message::Payload;
use crate::text::{decimal, decimal_text};
use vstd::prelude::*;
use vstd::string::*;
use vstd::utf8::{
    decode_utf8, encode_utf8, encode_utf8_decode_utf8, encode_utf8_valid_utf8, is_char_boundary,
    is_char_boundary_start_end_of_seq,
};

verus! {

/// Upper bound on the bytes of payload text that the log shows.
pub const REJECTED_PAYLOAD_PREVIEW_BYTES: usize = 512;

/// A payload as text: JSON and text as they are, bytes by their number.
pub open spec fn rendered(payload: Payload) -> Seq<char> {
    match payload {
        Payload::Json(document) => match json_text(document.raw) {
            Some(text) => text,
            None => "<unrenderable>"@,
        },
        Payload::Text(text) => text@,
        Payload::Proto(text) => text@,
        Payload::Raw(bytes) => byte_count(bytes@.len()),
        Payload::FlatBuffer(bytes) => byte_count(bytes@.len()),
        Payload::Avro(bytes) => byte_count(bytes@.len()),
    }
}

/// How bytes are shown: by their number.
pub open spec fn byte_count(n: nat) -> Seq<char> {
    "<"@ + decimal(n) + " bytes>"@
}

/// The last place up to `limit` at which `bytes` can be cut between characters.
pub open spec fn cut(bytes: Seq<u8>, limit: nat) -> nat
    decreases limit,
{
    if limit == 0 || is_char_boundary(bytes, limit as int) {
        limit
    } else {
        cut(bytes, (limit - 1) as nat)
    }
}

/// `text`, or where it is long the characters of its first bytes and its size.
pub open spec fn shortened(text: Seq<char>) -> Seq<char> {
    let bytes = encode_utf8(text);
    if bytes.len() <= REJECTED_PAYLOAD_PREVIEW_BYTES {
        text
    } else {
        kept(text) + "\u{2026} ("@ + decimal(bytes.len()) + " bytes total)"@
    }
}

/// The characters of a long text that are shown.
pub open spec fn kept(text: Seq<char>) -> Seq<char> {
    let bytes = encode_utf8(text);
    decode_utf8(bytes.take(cut(bytes, REJECTED_PAYLOAD_PREVIEW_BYTES as nat) as int))
}

fn byte_count_text(n: usize) -> (r: String)
    ensures
        r@ == byte_count(n as nat),
{
    let mut r: String = "<".to_owned();
    r.append(decimal_text(n as u128).as_str());
    r.append(" bytes>");
    r
}

/// Renders a rejected payload for the log, truncated on a char boundary so a
/// large or binary message cannot blow up the log line.
pub fn payload_preview(payload: &Payload) -> (r: String)
    ensures
        r@ == shortened(rendered(*payload)),
{
    let text: String = match payload {
        Payload::Json(document) => match json::write_json(&document.raw) {
            Some(text) => text,
            None => "<unrenderable>".to_owned(),
        },
        Payload::Text(text) => text.clone(),
        Payload::Proto(text) => text.clone(),
        Payload::Raw(bytes) => byte_count_text(bytes.len()),
        Payload::FlatBuffer(bytes) => byte_count_text(bytes.len()),
        Payload::Avro(bytes) => byte_count_text(bytes.len()),
    };
    let ghost bytes = encode_utf8(text@);
    let size: usize = text.as_str().as_bytes().len();
    if size <= REJECTED_PAYLOAD_PREVIEW_BYTES {
        return text;
    }
    proof {
        encode_utf8_valid_utf8(text@);
        is_char_boundary_start_end_of_seq(bytes);
    }
    let mut end: usize = REJECTED_PAYLOAD_PREVIEW_BYTES;
    while end > 0 && !text.as_str().is_char_boundary(end)
        invariant
            bytes == encode_utf8(text@),
            end <= REJECTED_PAYLOAD_PREVIEW_BYTES < bytes.len(),
            cut(bytes, end as nat) == cut(bytes, REJECTED_PAYLOAD_PREVIEW_BYTES as nat),
        decreases end,
    {
        end = end - 1;
    }
    let (head, _) = text.as_str().split_at(end);
    proof {
        encode_utf8_decode_utf8(head@);
        assert(bytes.subrange(0, end as int) =~= bytes.take(end as int));
    }
    let mut r: String = head.to_owned();
    r.append("\u{2026} (");
    r.append(decimal_text(size as u128).as_str());
    r.append(" bytes total)");
    r
}

} // verus!
