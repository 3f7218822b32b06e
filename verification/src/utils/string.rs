//! Shortening text for display, and random names.
use vstd::prelude::*;

use rand::Rng;

use crate::text::{byte_cut, cut_at_byte, str_chars, string_from_chars, utf8_len};

verus! {

/// Text with `\n` and `\r` turned into spaces.
pub open spec fn flatten_newlines(s: Seq<char>) -> Seq<char> {
    s.map_values(|c: char| if c == '\n' || c == '\r' { ' ' } else { c })
}

/// What `shorten_middle` gives: the text itself when it fits in `width` bytes; otherwise its
/// first and last `width / 2` bytes around `...`, after flattening newlines if asked. `None`
/// where one of the cuts would fall inside a character.
pub open spec fn shorten_middle_spec(text: Seq<char>, width: nat, remove_newline: bool) -> Option<Seq<char>> {
    if utf8_len(text) <= width {
        Some(text)
    } else {
        let c = if remove_newline {
            flatten_newlines(text)
        } else {
            text
        };
        let half = width / 2;
        match (byte_cut(c, half as int), byte_cut(c, utf8_len(text) - half)) {
            (Some(head), Some(front)) => Some(head + "..."@ + c.skip(front.len() as int)),
            _ => None,
        }
    }
}

proof fn lemma_flatten_len(s: Seq<char>)
    ensures
        utf8_len(flatten_newlines(s)) == utf8_len(s),
    decreases s.len(),
{
    if s.len() > 0 {
        lemma_flatten_len(s.drop_last());
        assert(flatten_newlines(s).drop_last() =~= flatten_newlines(s.drop_last()));
    }
}

/// Shortens text that is longer than `width` bytes to its first and last `width / 2` bytes
/// joined by `...`; with `remove_newline`, newlines in the shortened text become spaces.
pub fn shorten_middle(text: &str, width: usize, remove_newline: bool) -> (r: String)
    requires
        shorten_middle_spec(text@, width as nat, remove_newline) is Some,
    ensures
        r@ == shorten_middle_spec(text@, width as nat, remove_newline)->Some_0,
{
    match try_shorten_middle(text, width, remove_newline) {
        Some(s) => s,
        None => crate::text::owned(text),
    }
}

/// `shorten_middle`, or `None` where a cut would fall inside a character.
pub fn try_shorten_middle(text: &str, width: usize, remove_newline: bool) -> (r: Option<String>)
    ensures
        match r {
            Some(s) => shorten_middle_spec(text@, width as nat, remove_newline) == Some(s@),
            None => shorten_middle_spec(text@, width as nat, remove_newline) is None,
        },
{
    proof {
        crate::text::lemma_encode_len(text@);
    }
    let n = text.as_bytes().len();
    assert(n == utf8_len(text@));
    if n <= width {
        return Some(crate::text::owned(text));
    }
    let chars = str_chars(text);
    let mut cleaned: Vec<char> = Vec::new();
    let mut i: usize = 0;
    while i < chars.len()
        invariant
            i <= chars@.len(),
            cleaned@ == (if remove_newline {
                flatten_newlines(chars@)
            } else {
                chars@
            }).take(i as int),
        decreases chars@.len() - i,
    {
        let c = chars[i];
        if remove_newline && (c == '\n' || c == '\r') {
            cleaned.push(' ');
        } else {
            cleaned.push(c);
        }
        i = i + 1;
        assert(cleaned@ =~= (if remove_newline {
            flatten_newlines(chars@)
        } else {
            chars@
        }).take(i as int));
    }
    let ghost cv = if remove_newline {
        flatten_newlines(chars@)
    } else {
        chars@
    };
    assert(cv.take(chars@.len() as int) =~= cv);
    proof {
        lemma_flatten_len(chars@);
    }
    let half = width / 2;
    let head = cut_at_byte(cleaned.as_slice(), half);
    let front = cut_at_byte(cleaned.as_slice(), n - half);
    match (head, front) {
        (Some(h), Some(f)) => {
            let mut out = h;
            out.push('.');
            out.push('.');
            out.push('.');
            proof {
                assert(byte_cut(cv, (n - half) as int) == Some(f@));
                let j = choose|j: int| 0 <= j <= cv.len() && #[trigger] utf8_len(cv.take(j)) == (n - half) as int;
                assert(f@.len() <= cleaned@.len());
            }
            let tail = crate::text::slice_chars(cleaned.as_slice(), f.len(), cleaned.len());
            crate::text::append_chars(&mut out, tail.as_slice());
            proof {
                reveal_strlit("...");
                assert(out@ =~= h@ + "..."@ + cv.skip(f@.len() as int));
                assert(cleaned@ == cv);
                assert(byte_cut(cv, half as int) == Some(h@));
                assert(half == (width as nat) / 2);
            }
            Some(string_from_chars(out.as_slice()))
        },
        _ => None,
    }
}

/// A letter drawn at random from `a` to `z`, by `rand::rng().random_range(b'a'..=b'z')`.
#[verifier::external_body]
fn random_letter() -> (c: char)
    ensures
        'a' <= c <= 'z',
{
    rand::rng().random_range(b'a'..=b'z') as char
}

/// A string of `length` random lower-case ASCII letters.
pub fn random_string(length: usize) -> (r: String)
    ensures
        r@.len() == length,
        forall|i: int| 0 <= i < length ==> 'a' <= #[trigger] r@[i] <= 'z',
{
    let mut out: Vec<char> = Vec::new();
    let mut i: usize = 0;
    while i < length
        invariant
            i <= length,
            out@.len() == i,
            forall|k: int| 0 <= k < i ==> 'a' <= #[trigger] out@[k] <= 'z',
        decreases length - i,
    {
        out.push(random_letter());
        i = i + 1;
    }
    string_from_chars(out.as_slice())
}

} // verus!
