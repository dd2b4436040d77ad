//! Redaction of IRC wire lines before they are logged.

use vstd::prelude::*;

use crate::text::{
    concat2, contains, contains_seq, lemma_encode_utf8_concat, owned, rstrip_in, to_upper, trim_end_in,
    upper_seq,
};
use vstd::string::StringSliceAdditionalSpecFns;

verus! {

/// Lines that may carry credentials.
pub open spec fn carries_secret(line: Seq<char>) -> bool {
    let upper = upper_seq(line);
    contains_seq(upper, "IDENTIFY"@) || contains_seq(upper, "REGISTER"@) || contains_seq(
        upper,
        "PASS"@,
    )
}

/// Longest logged line, in bytes.
pub const MAX_LOGGED_BYTES: usize = 200;

/// Redact secrets from wire lines before logging; long lines are cut at
/// [`MAX_LOGGED_BYTES`] bytes, which must fall on a character boundary.
pub fn sanitize_wire_line(line: &str) -> (r: String)
    requires
        line.spec_bytes().len() <= usize::MAX,
        !carries_secret(line@) && line.spec_bytes().len() > MAX_LOGGED_BYTES ==> vstd::utf8::is_char_boundary(
            line.spec_bytes(),
            MAX_LOGGED_BYTES as int,
        ),
    ensures
        carries_secret(line@) ==> r@ == "<redacted>"@,
        !carries_secret(line@) && line.spec_bytes().len() <= MAX_LOGGED_BYTES ==> r@ == line@,
        !carries_secret(line@) && line.spec_bytes().len() > MAX_LOGGED_BYTES ==> vstd::utf8::encode_utf8(r@)
            == line.spec_bytes().subrange(0, MAX_LOGGED_BYTES as int) + "…".spec_bytes(),
{
    let upper = to_upper(line);
    let u = upper.as_str();
    if contains(u, "IDENTIFY") || contains(u, "REGISTER") || contains(u, "PASS") {
        return owned("<redacted>");
    }
    if line.len() > MAX_LOGGED_BYTES {
        let (head, _) = line.split_at(MAX_LOGGED_BYTES);
        let r = concat2(head, "…");
        proof {
            lemma_encode_utf8_concat(head@, "…"@);
        }
        return r;
    }
    owned(line)
}

/// An outbound line without its trailing carriage returns and line feeds.
pub open spec fn outbound_body(command: Seq<char>) -> Seq<char> {
    rstrip_in(command, seq!['\r', '\n'])
}

/// The text to log for an outbound registration/command line: its body,
/// redacted as [`sanitize_wire_line`] does; `None` when nothing is left.
pub fn log_outbound_command(command: &str) -> (r: Option<String>)
    requires
        !carries_secret(outbound_body(command@)) && vstd::utf8::encode_utf8(outbound_body(command@)).len()
            > MAX_LOGGED_BYTES ==> vstd::utf8::is_char_boundary(
            vstd::utf8::encode_utf8(outbound_body(command@)),
            MAX_LOGGED_BYTES as int,
        ),
    ensures
        outbound_body(command@).len() == 0 <==> r is None,
        r matches Some(l) ==> {
            let body = outbound_body(command@);
            &&& carries_secret(body) ==> l@ == "<redacted>"@
            &&& !carries_secret(body) && vstd::utf8::encode_utf8(body).len() <= MAX_LOGGED_BYTES ==> l@ == body
            &&& !carries_secret(body) && vstd::utf8::encode_utf8(body).len() > MAX_LOGGED_BYTES
                ==> vstd::utf8::encode_utf8(l@) == vstd::utf8::encode_utf8(body).subrange(
                0,
                MAX_LOGGED_BYTES as int,
            ) + "…".spec_bytes()
        },
{
    let ends = vec!['\r', '\n'];
    assert(ends@ =~= seq!['\r', '\n']);
    let trimmed = trim_end_in(command, &ends);
    if trimmed.unicode_len() == 0 {
        return None;
    }
    let bytes = trimmed.as_bytes();
    let _n = bytes.len();
    Some(sanitize_wire_line(trimmed))
}

} // verus!
