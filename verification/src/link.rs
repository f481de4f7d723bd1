//! Which hyperlink targets may be opened, and the argument list handed to a
//! file-link editor. URIs from OSC 8 hyperlinks are untrusted terminal
//! output, so only a small set of obviously safe schemes is allowed.

use vstd::prelude::*;
use vstd::string::*;

use crate::bytes::dec;
use crate::text::{ascii_chars, decimal_string};

verus! {

/// The open target a Cmd+click resolved: a URI (checked against the scheme
/// allowlist) or a filesystem path already resolved by the hover probe.
#[derive(Clone, PartialEq, Eq, Debug)]
pub enum LinkTarget {
    Uri(String),
    Path { path: String, line: Option<u32>, column: Option<u32> },
}

/// ASCII lower-casing of one byte.
pub open spec fn lower_byte(b: u8) -> u8 {
    if 65 <= b <= 90 {
        (b + 32) as u8
    } else {
        b
    }
}

/// Whether the URI bytes `b` start with the (lower-case, ASCII) scheme `s`
/// followed by `:`, comparing the scheme case-insensitively.
pub open spec fn has_scheme(b: Seq<u8>, s: Seq<char>) -> bool {
    &&& b.len() > s.len()
    &&& b[s.len() as int] == 58u8
    &&& forall|i: int| 0 <= i < s.len() ==> lower_byte(b[i]) as char == s[i]
}

/// Whether `uri` starts with an allowed scheme: `http`, `https` or
/// `mailto`, case-insensitively, followed by `:`.
pub open spec fn uri_allowed(b: Seq<u8>) -> bool {
    has_scheme(b, "http"@) || has_scheme(b, "https"@) || has_scheme(b, "mailto"@)
}

fn starts_with_scheme(b: &[u8], scheme: &str) -> (r: bool)
    ensures
        r == has_scheme(b@, scheme@),
{
    let n = scheme.unicode_len();
    if b.len() <= n {
        return false;
    }
    if b[n] != 58u8 {
        return false;
    }
    let mut i: usize = 0;
    while i < n
        invariant
            n == scheme@.len(),
            n < b@.len(),
            i <= n,
            forall|j: int| 0 <= j < i ==> lower_byte(b@[j]) as char == scheme@[j],
        decreases n - i,
    {
        let c = b[i];
        let l: u8 = if 65 <= c && c <= 90 {
            c + 32
        } else {
            c
        };
        if l as char != scheme.get_char(i) {
            return false;
        }
        i = i + 1;
    }
    true
}

/// Does `uri` start with an allowed scheme (`scheme:`)? Scheme matching is
/// case-insensitive; the rest of the URI is untouched.
pub fn is_allowed_uri(uri: &str) -> (r: bool)
    ensures
        r == uri_allowed(uri.spec_bytes()),
{
    let b = uri.as_bytes();
    starts_with_scheme(b, "http") || starts_with_scheme(b, "https") || starts_with_scheme(
        b,
        "mailto",
    )
}

/// A 1-based position, with 0 read as 1.
pub open spec fn at_least_one(n: u32) -> nat {
    if n == 0 {
        1
    } else {
        n as nat
    }
}

/// The location argument: the path, then `:line` and, with a line,
/// `:column`, each at least 1.
pub open spec fn location_arg(path: Seq<char>, line: Option<u32>, column: Option<u32>) -> Seq<char> {
    match line {
        Some(l) => {
            let with_line = path + ":"@ + ascii_chars(dec(at_least_one(l)));
            match column {
                Some(c) => with_line + ":"@ + ascii_chars(dec(at_least_one(c))),
                None => with_line,
            }
        },
        None => path,
    }
}

/// The arguments handed to a file-link editor: `--goto` first when the
/// editor takes it and a line is known, then the location as one argument.
pub open spec fn editor_args(
    path: Seq<char>,
    line: Option<u32>,
    column: Option<u32>,
    goto: bool,
) -> Seq<Seq<char>> {
    if line is Some && goto {
        seq!["--goto"@, location_arg(path, line, column)]
    } else {
        seq![location_arg(path, line, column)]
    }
}

/// The argument list for opening `path` at `line`/`column` in an editor;
/// `goto` says whether the editor wants `--goto` before a located path (VS
/// Code and Cursor do).
pub fn editor_arguments(path: &str, line: Option<u32>, column: Option<u32>, goto: bool) -> (args:
    Vec<String>)
    ensures
        args@.map_values(|a: String| a@) == editor_args(path@, line, column, goto),
{
    let mut args: Vec<String> = Vec::new();
    let mut location = path.to_owned();
    match line {
        Some(l) => {
            if goto {
                let flag = "--goto";
                args.push(flag.to_owned());
            }
            let colon = ":";
            location.append(colon);
            let l1: u32 = if l == 0 {
                1
            } else {
                l
            };
            let digits = decimal_string(l1 as u64);
            location.append(digits.as_str());
            match column {
                Some(c) => {
                    location.append(colon);
                    let c1: u32 = if c == 0 {
                        1
                    } else {
                        c
                    };
                    let digits = decimal_string(c1 as u64);
                    location.append(digits.as_str());
                },
                None => {},
            }
        },
        None => {},
    }
    args.push(location);
    assert(args@.map_values(|a: String| a@) =~= editor_args(path@, line, column, goto));
    args
}

} // verus!
