//! Encoding of committed text, clipboard pastes, scripted `input text` and
//! raw `sendText` payloads for the pty.

use vstd::prelude::*;
use vstd::string::*;
use vstd::utf8::*;

use crate::bytes::push_all;

verus! {

/// Largest scripted `input text` payload accepted in one request: 8 MiB, the
/// terminal's OSC 52 clipboard cap. Longer text is cut on a UTF-8 boundary.
pub const APPLESCRIPT_INPUT_TEXT_CAP: usize = 8388608;

/// `ESC [ 2 0 0 ~`, the bracketed-paste opening marker.
pub open spec fn paste_start() -> Seq<u8> {
    seq![0x1bu8, 0x5bu8, 0x32u8, 0x30u8, 0x30u8, 0x7eu8]
}

/// `ESC [ 2 0 1 ~`, the bracketed-paste closing marker.
pub open spec fn paste_end() -> Seq<u8> {
    seq![0x1bu8, 0x5bu8, 0x32u8, 0x30u8, 0x31u8, 0x7eu8]
}

/// Whether `s` begins with `prefix`.
pub open spec fn starts_with(s: Seq<u8>, prefix: Seq<u8>) -> bool {
    prefix.len() <= s.len() && s.take(prefix.len() as int) == prefix
}

/// `s` with every bracketed-paste marker removed, scanning left to right: a
/// marker is skipped whole wherever it begins, every other byte is kept.
pub open spec fn sanitized(s: Seq<u8>) -> Seq<u8>
    decreases s.len(),
{
    if s.len() == 0 {
        s
    } else if starts_with(s, paste_start()) || starts_with(s, paste_end()) {
        sanitized(s.skip(6))
    } else {
        seq![s[0]] + sanitized(s.skip(1))
    }
}

/// The bytes a paste of `text` writes: `None` for an empty payload after
/// sanitizing, the sanitized payload wrapped in the two markers under
/// bracketed paste, bare otherwise.
pub open spec fn paste_encoding(text: Seq<u8>, bracketed_paste: bool) -> Option<Seq<u8>> {
    let payload = sanitized(text);
    if text.len() == 0 || payload.len() == 0 {
        None
    } else if bracketed_paste {
        Some(paste_start() + payload + paste_end())
    } else {
        Some(payload)
    }
}

/// The largest char boundary of `b` that is at most `e`.
pub open spec fn boundary_at_or_below(b: Seq<u8>, e: int) -> int
    decreases e,
{
    if e <= 0 || is_char_boundary(b, e) {
        e
    } else {
        boundary_at_or_below(b, e - 1)
    }
}

/// How many leading bytes of `b` survive the input cap: all of them when they
/// fit, else the largest char boundary at or below the cap.
pub open spec fn capped_len(b: Seq<u8>) -> int {
    if b.len() <= APPLESCRIPT_INPUT_TEXT_CAP {
        b.len() as int
    } else {
        boundary_at_or_below(b, APPLESCRIPT_INPUT_TEXT_CAP as int)
    }
}

/// The view of an optional byte buffer.
pub open spec fn opt_bytes(o: Option<Vec<u8>>) -> Option<Seq<u8>> {
    match o {
        Some(v) => Some(v@),
        None => None,
    }
}

/// Whether `s` contains a line feed or a carriage return.
pub open spec fn has_newline(s: Seq<char>) -> bool {
    exists|i: int| 0 <= i < s.len() && (s[i] == '\n' || s[i] == '\r')
}

proof fn lemma_boundary_at_or_below(b: Seq<u8>, e: int)
    requires
        0 <= e <= b.len(),
        valid_utf8(b),
    ensures
        0 <= boundary_at_or_below(b, e) <= e,
        is_char_boundary(b, boundary_at_or_below(b, e)),
    decreases e,
{
    if e > 0 && !is_char_boundary(b, e) {
        lemma_boundary_at_or_below(b, e - 1);
    }
}

/// Encode already-committed text: its UTF-8 bytes, or `None` when empty.
pub fn encode_text(text: &str) -> (res: Option<Vec<u8>>)
    ensures
        opt_bytes(res) == (if text@.len() == 0 {
            None::<Seq<u8>>
        } else {
            Some(text.spec_bytes())
        }),
{
    if text.is_empty() {
        None
    } else {
        let b = text.as_bytes();
        let mut out: Vec<u8> = Vec::new();
        push_all(&mut out, b);
        proof {
            assert(out@ =~= text.spec_bytes());
        }
        Some(out)
    }
}

/// Remove every bracketed-paste marker from `bytes`.
pub fn sanitize_paste_payload(bytes: &[u8]) -> (res: Vec<u8>)
    ensures
        res@ == sanitized(bytes@),
{
    let mut out: Vec<u8> = Vec::new();
    let mut i: usize = 0;
    proof {
        assert(bytes@.skip(0) =~= bytes@);
        assert(out@ + sanitized(bytes@) =~= sanitized(bytes@));
    }
    while i < bytes.len()
        invariant
            i <= bytes@.len(),
            out@ + sanitized(bytes@.skip(i as int)) == sanitized(bytes@),
        decreases bytes@.len() - i,
    {
        let ghost rest = bytes@.skip(i as int);
        let at_marker = bytes.len() - i >= 6 && bytes[i] == 0x1b && bytes[i + 1] == 0x5b
            && bytes[i + 2] == 0x32 && bytes[i + 3] == 0x30 && (bytes[i + 4] == 0x30
            || bytes[i + 4] == 0x31) && bytes[i + 5] == 0x7e;
        proof {
            if at_marker {
                if bytes[i + 4] == 0x30 {
                    assert(rest.take(6) =~= paste_start());
                } else {
                    assert(rest.take(6) =~= paste_end());
                }
            } else {
                if starts_with(rest, paste_start()) {
                    assert(rest.take(6)[0] == bytes[i as int]);
                    assert(rest.take(6)[1] == bytes[i + 1]);
                    assert(rest.take(6)[2] == bytes[i + 2]);
                    assert(rest.take(6)[3] == bytes[i + 3]);
                    assert(rest.take(6)[4] == bytes[i + 4]);
                    assert(rest.take(6)[5] == bytes[i + 5]);
                }
                if starts_with(rest, paste_end()) {
                    assert(rest.take(6)[0] == bytes[i as int]);
                    assert(rest.take(6)[1] == bytes[i + 1]);
                    assert(rest.take(6)[2] == bytes[i + 2]);
                    assert(rest.take(6)[3] == bytes[i + 3]);
                    assert(rest.take(6)[4] == bytes[i + 4]);
                    assert(rest.take(6)[5] == bytes[i + 5]);
                }
            }
        }
        if at_marker {
            proof {
                assert(rest.skip(6) =~= bytes@.skip(i + 6));
            }
            i += 6;
        } else {
            let ghost before = out@;
            out.push(bytes[i]);
            proof {
                assert(rest.skip(1) =~= bytes@.skip(i + 1));
                assert(out@ + sanitized(bytes@.skip(i + 1)) =~= before + (seq![rest[0]]
                    + sanitized(rest.skip(1))));
            }
            i += 1;
        }
    }
    proof {
        assert(out@ =~= out@ + sanitized(bytes@.skip(i as int)));
    }
    out
}

/// Encode pasted text for the pty: bracket markers inside the payload are
/// stripped, and under bracketed paste (DECSET 2004) the payload is wrapped in
/// `ESC[200~` / `ESC[201~`. `None` when nothing is left to send.
pub fn encode_paste(text: &str, bracketed_paste: bool) -> (res: Option<Vec<u8>>)
    ensures
        opt_bytes(res) == paste_encoding(text.spec_bytes(), bracketed_paste),
{
    let raw = text.as_bytes();
    if raw.len() == 0 {
        return None;
    }
    let payload = sanitize_paste_payload(raw);
    if payload.len() == 0 {
        return None;
    }
    if bracketed_paste {
        let mut bytes: Vec<u8> = vec![0x1bu8, 0x5bu8, 0x32u8, 0x30u8, 0x30u8, 0x7eu8];
        push_all(&mut bytes, payload.as_slice());
        let tail: Vec<u8> = vec![0x1bu8, 0x5bu8, 0x32u8, 0x30u8, 0x31u8, 0x7eu8];
        push_all(&mut bytes, tail.as_slice());
        proof {
            assert(bytes@ =~= paste_start() + payload@ + paste_end());
        }
        Some(bytes)
    } else {
        Some(payload)
    }
}

/// Cut `text` to at most [`APPLESCRIPT_INPUT_TEXT_CAP`] bytes, backing off to
/// the nearest char boundary so no code point is split.
pub fn cap_input_text(text: &str) -> (res: &str)
    ensures
        res.spec_bytes() == text.spec_bytes().take(capped_len(text.spec_bytes())),
        0 <= capped_len(text.spec_bytes()) <= text.spec_bytes().len(),
        capped_len(text.spec_bytes()) <= APPLESCRIPT_INPUT_TEXT_CAP,
        is_char_boundary(text.spec_bytes(), capped_len(text.spec_bytes())),
{
    proof {
        encode_utf8_valid_utf8(text@);
    }
    let ghost b = text.spec_bytes();
    if text.as_bytes().len() > APPLESCRIPT_INPUT_TEXT_CAP {
        let mut end: usize = APPLESCRIPT_INPUT_TEXT_CAP;
        while end > 0 && !text.is_char_boundary(end)
            invariant
                end <= APPLESCRIPT_INPUT_TEXT_CAP < b.len(),
                b == text.spec_bytes(),
                valid_utf8(b),
                boundary_at_or_below(b, end as int) == boundary_at_or_below(
                    b,
                    APPLESCRIPT_INPUT_TEXT_CAP as int,
                ),
            decreases end,
        {
            end -= 1;
        }
        proof {
            lemma_boundary_at_or_below(b, APPLESCRIPT_INPUT_TEXT_CAP as int);
        }
        let (head, _tail) = text.split_at(end);
        proof {
            assert(head.spec_bytes() =~= b.take(end as int));
        }
        head
    } else {
        proof {
            assert(b.take(b.len() as int) =~= b);
            is_char_boundary_start_end_of_seq(b);
        }
        text
    }
}

/// Encode scripted `input text`: the payload is capped on a UTF-8 boundary,
/// then takes exactly the paste path.
pub fn applescript_input_bytes(text: &str, bracketed_paste: bool) -> (res: Option<Vec<u8>>)
    ensures
        opt_bytes(res) == paste_encoding(
            text.spec_bytes().take(capped_len(text.spec_bytes())),
            bracketed_paste,
        ),
{
    encode_paste(cap_input_text(text), bracketed_paste)
}

/// Encode a raw `sendText` payload: the capped UTF-8 bytes as they are, with
/// no bracketing and no marker stripping; `None` when nothing is left.
pub fn raw_input_bytes(text: &str) -> (res: Option<Vec<u8>>)
    ensures
        opt_bytes(res) == (if capped_len(text.spec_bytes()) == 0 {
            None::<Seq<u8>>
        } else {
            Some(text.spec_bytes().take(capped_len(text.spec_bytes())))
        }),
{
    let capped = cap_input_text(text);
    if capped.as_bytes().len() == 0 {
        None
    } else {
        let mut out: Vec<u8> = Vec::new();
        push_all(&mut out, capped.as_bytes());
        Some(out)
    }
}

/// Whether a paste must be confirmed first: only an unbracketed paste that
/// holds a line feed or carriage return can submit a command on its own.
pub fn paste_is_unsafe(text: &str, bracketed_paste: bool) -> (res: bool)
    ensures
        res == (!bracketed_paste && has_newline(text@)),
{
    if bracketed_paste {
        return false;
    }
    let n = text.unicode_len();
    let mut i: usize = 0;
    while i < n
        invariant
            n == text@.len(),
            !bracketed_paste,
            i <= n,
            forall|j: int| 0 <= j < i ==> text@[j] != '\n' && text@[j] != '\r',
        decreases n - i,
    {
        let c = text.get_char(i);
        if c == '\n' || c == '\r' {
            proof {
                assert(text@[i as int] == '\n' || text@[i as int] == '\r');
                assert(has_newline(text@));
            }
            return true;
        }
        i += 1;
    }
    false
}

} // verus!
