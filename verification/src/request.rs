//! The request line. A request is understood only where it begins with a line
//! of the form `GET <path> HTTP/1.1`; nothing else of it is read. In the
//! notation of regular expressions, the request has to match
//! `^GET ([/a-zA-Z0-9.]+) HTTP/1\.1`.

use vstd::prelude::*;
use vstd::string::{is_ascii, is_ascii_spec_bytes, StringSliceAdditionalSpecFns};

verus! {

/// How many bytes of a request are looked at; what a client sends beyond
/// them is cut off.
pub const REQUEST_LIMIT: usize = 512;

/// The bytes of a request, each read as one character.
pub open spec fn text_of(bytes: Seq<u8>) -> Seq<char> {
    bytes.map_values(|b: u8| b as char)
}

/// The characters that a request path is made of: letters and digits of
/// ASCII, the slash and the dot.
pub open spec fn is_path_char(c: char) -> bool {
    ||| c == '/'
    ||| c == '.'
    ||| 'a' <= c <= 'z'
    ||| 'A' <= c <= 'Z'
    ||| '0' <= c <= '9'
}

/// `word` stands in `text` at position `at`.
pub open spec fn has_at(text: Seq<char>, at: int, word: Seq<char>) -> bool {
    &&& 0 <= at
    &&& at + word.len() <= text.len()
    &&& text.subrange(at, at + word.len()) == word
}

/// `text` begins with a request line whose path is `n` characters long:
/// `GET`, a space, the path, a space, `HTTP/1.1`.
pub open spec fn is_request_line(text: Seq<char>, n: int) -> bool {
    &&& has_at(text, 0, "GET "@)
    &&& 1 <= n
    &&& 4 + n <= text.len()
    &&& forall|i: int| 4 <= i < 4 + n ==> is_path_char(#[trigger] text[i])
    &&& has_at(text, 4 + n, " HTTP/1.1"@)
}

/// The path that a request asks for, if the request begins with a request
/// line.
pub open spec fn request_path(text: Seq<char>) -> Option<Seq<char>> {
    if exists|n: int| is_request_line(text, n) {
        let n = choose|n: int| is_request_line(text, n);
        Some(text.subrange(4, 4 + n))
    } else {
        None
    }
}

/// A request begins with at most one request line: the path ends at the
/// first character that cannot stand in a path.
pub proof fn lemma_request_line_is_unique(text: Seq<char>, m: int, n: int)
    requires
        is_request_line(text, m),
        is_request_line(text, n),
    ensures
        m == n,
{
    reveal_strlit(" HTTP/1.1");
    if m < n {
        assert(text.subrange(4 + m, 4 + m + 9)[0] == ' ');
        assert(is_path_char(text[4 + m]));
    } else if n < m {
        assert(text.subrange(4 + n, 4 + n + 9)[0] == ' ');
        assert(is_path_char(text[4 + n]));
    }
}

fn is_path_byte(b: u8) -> (yes: bool)
    ensures
        yes == is_path_char(b as char),
{
    b == 0x2f || b == 0x2e || (0x61 <= b && b <= 0x7a) || (0x41 <= b && b <= 0x5a) || (0x30 <= b
        && b <= 0x39)
}

fn has_word_at(request: &[u8], at: usize, word: &str) -> (found: bool)
    requires
        is_ascii(word),
    ensures
        found == has_at(text_of(request@), at as int, word@),
{
    broadcast use is_ascii_spec_bytes;

    let letters = word.as_bytes();
    assert(letters@.len() == word@.len());
    if at > request.len() || letters.len() > request.len() - at {
        return false;
    }
    let ghost text = text_of(request@);
    let mut j: usize = 0;
    while j < letters.len()
        invariant
            j <= letters.len(),
            at + letters.len() <= request.len(),
            text == text_of(request@),
            letters@.len() == word@.len(),
            letters@ == word.spec_bytes(),
            is_ascii(word),
            forall|k: int| 0 <= k < j ==> text[at + k] == #[trigger] word@[k],
        decreases letters.len() - j,
    {
        broadcast use is_ascii_spec_bytes;

        assert(letters@[j as int] == word@[j as int] as u8);
        assert(word@[j as int] as u32 <= 0x7f);
        if request[at + j] != letters[j] {
            assert(text[at + j] != word@[j as int]);
            assert(text.subrange(at as int, at + word@.len())[j as int] == text[at + j]);
            return false;
        }
        j += 1;
    }
    assert(text.subrange(at as int, at + word@.len()) =~= word@);
    true
}

/// Reads the request line at the head of a request and returns the path it
/// asks for; `None` where the request does not begin with such a line.
pub fn parse_request_line(request: &[u8]) -> (path: Option<String>)
    ensures
        match path {
            Some(p) => request_path(text_of(request@)) == Some(p@),
            None => request_path(text_of(request@)) is None,
        },
{
    let ghost text = text_of(request@);
    proof {
        reveal_strlit("GET ");
        reveal_strlit(" HTTP/1.1");
    }
    if !has_word_at(request, 0, "GET ") {
        return None;
    }
    let mut end: usize = 4;
    while end < request.len() && is_path_byte(request[end])
        invariant
            4 <= end <= request.len(),
            text == text_of(request@),
            forall|i: int| 4 <= i < end ==> is_path_char(#[trigger] text[i]),
        decreases request.len() - end,
    {
        end += 1;
    }
    assert(end < text.len() ==> !is_path_char(text[end as int]));
    if end == 4 || !has_word_at(request, end, " HTTP/1.1") {
        assert forall|n: int| !is_request_line(text, n) by {
            if is_request_line(text, n) {
                if 4 + n < end {
                    assert(text.subrange(4 + n, 4 + n + 9)[0] == ' ');
                    assert(is_path_char(text[4 + n]));
                } else if 4 + n > end {
                    assert(is_path_char(text[end as int]));
                }
            }
        }
        return None;
    }
    let mut path = String::new();
    let mut k: usize = 4;
    while k < end
        invariant
            4 <= k <= end <= request.len(),
            text == text_of(request@),
            path@ == text.subrange(4, k as int),
        decreases end - k,
    {
        path.push(request[k] as char);
        assert(text.subrange(4, k + 1) =~= text.subrange(4, k as int).push(text[k as int]));
        k += 1;
    }
    proof {
        let len = end - 4;
        assert(is_request_line(text, len));
        lemma_request_line_is_unique(text, choose|n: int| is_request_line(text, n), len);
    }
    Some(path)
}

} // verus!
