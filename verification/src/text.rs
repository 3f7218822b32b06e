//! Character-level text helpers shared by the parsers and formatters.
use vstd::prelude::*;

verus! {

/// Copies the characters of a string slice into a vector.
pub fn str_chars(s: &str) -> (v: Vec<char>)
    ensures
        v@ == s@,
{
    let mut v: Vec<char> = Vec::new();
    for c in it: s.chars()
        invariant
            v@ == it.seq().take(it.index() as int),
    {
        v.push(c);
    }
    v
}

/// `String::push`: appends one character.
#[verifier::external_body]
pub(crate) fn push_char(s: &mut String, c: char)
    ensures
        final(s)@ == old(s)@.push(c),
{
    s.push(c);
}

/// Appends the given characters to a string.
pub fn push_chars(s: &mut String, cs: &[char])
    ensures
        final(s)@ == old(s)@ + cs@,
{
    let mut i: usize = 0;
    while i < cs.len()
        invariant
            i <= cs@.len(),
            s@ == old(s)@ + cs@.take(i as int),
        decreases cs@.len() - i,
    {
        push_char(s, cs[i]);
        i = i + 1;
        assert(cs@.take(i as int) == cs@.take((i - 1) as int).push(cs@[i - 1]));
    }
    assert(cs@.take(cs@.len() as int) == cs@);
}

/// Builds a string out of a slice of characters.
pub fn string_from_chars(cs: &[char]) -> (s: String)
    ensures
        s@ == cs@,
{
    let mut s = String::new();
    push_chars(&mut s, cs);
    s
}

/// Appends a string slice to a string.
pub fn push_str(s: &mut String, t: &str)
    ensures
        final(s)@ == old(s)@ + t@,
{
    let cs = str_chars(t);
    push_chars(s, cs.as_slice());
}

/// A string with the same characters as the slice.
pub fn owned(t: &str) -> (s: String)
    ensures
        s@ == t@,
{
    t.to_owned()
}

/// Compares two string slices character by character.
pub fn str_eq(a: &str, b: &str) -> (r: bool)
    ensures
        r == (a@ == b@),
{
    let ac = str_chars(a);
    let bc = str_chars(b);
    chars_eq(ac.as_slice(), bc.as_slice())
}

/// Compares two character slices.
pub fn chars_eq(a: &[char], b: &[char]) -> (r: bool)
    ensures
        r == (a@ == b@),
{
    if a.len() != b.len() {
        return false;
    }
    let mut i: usize = 0;
    while i < a.len()
        invariant
            a@.len() == b@.len(),
            i <= a@.len(),
            forall|j: int| 0 <= j < i ==> a@[j] == b@[j],
        decreases a@.len() - i,
    {
        if a[i] != b[i] {
            return false;
        }
        i = i + 1;
    }
    assert(a@ =~= b@);
    true
}

/// Compares a character slice with a string slice.
pub fn chars_eq_str(a: &[char], b: &str) -> (r: bool)
    ensures
        r == (a@ == b@),
{
    let bc = str_chars(b);
    chars_eq(a, bc.as_slice())
}

/// Whether `s` starts with `prefix`.
pub open spec fn has_prefix(s: Seq<char>, prefix: Seq<char>) -> bool {
    prefix.len() <= s.len() && s.take(prefix.len() as int) == prefix
}

/// Whether `s` ends with `suffix`.
pub open spec fn has_suffix(s: Seq<char>, suffix: Seq<char>) -> bool {
    suffix.len() <= s.len() && s.skip(s.len() - suffix.len()) == suffix
}

/// Whether the characters of `s` starting at `at` spell `pat`.
pub open spec fn occurs_at(s: Seq<char>, at: int, pat: Seq<char>) -> bool {
    0 <= at && at + pat.len() <= s.len() && s.subrange(at, at + pat.len()) == pat
}

/// Whether `pat` occurs in `s` at position `at`.
pub fn matches_at(s: &[char], at: usize, pat: &[char]) -> (r: bool)
    ensures
        r == occurs_at(s@, at as int, pat@),
{
    if at > s.len() || pat.len() > s.len() - at {
        return false;
    }
    let n = s.len();
    let mut i: usize = 0;
    while i < pat.len()
        invariant
            n == s@.len(),
            at + pat@.len() <= s@.len(),
            i <= pat@.len(),
            forall|j: int| 0 <= j < i ==> s@[at + j] == pat@[j],
        decreases pat@.len() - i,
    {
        assert(at + i < n);
        if s[at + i] != pat[i] {
            assert(s@.subrange(at as int, at + pat@.len())[i as int] != pat@[i as int]);
            return false;
        }
        i = i + 1;
    }
    assert(s@.subrange(at as int, at + pat@.len()) =~= pat@);
    true
}

/// Whether `s` starts with the string slice `prefix`.
pub fn starts_with_str(s: &[char], prefix: &str) -> (r: bool)
    ensures
        r == has_prefix(s@, prefix@),
{
    let p = str_chars(prefix);
    let r = matches_at(s, 0, p.as_slice());
    assert(s@.subrange(0, p@.len() as int) =~= s@.take(p@.len() as int));
    r
}

/// Whether `s` ends with the string slice `suffix`.
pub fn ends_with_str(s: &[char], suffix: &str) -> (r: bool)
    ensures
        r == has_suffix(s@, suffix@),
{
    let p = str_chars(suffix);
    if p.len() > s.len() {
        return false;
    }
    let r = matches_at(s, s.len() - p.len(), p.as_slice());
    assert(s@.subrange(s@.len() - p@.len(), s@.len() as int) =~= s@.skip(s@.len() - p@.len()));
    r
}

/// A copy of `s[lo..hi]`.
pub fn slice_chars(s: &[char], lo: usize, hi: usize) -> (r: Vec<char>)
    requires
        lo <= hi <= s@.len(),
    ensures
        r@ == s@.subrange(lo as int, hi as int),
{
    let mut r: Vec<char> = Vec::new();
    let mut i = lo;
    while i < hi
        invariant
            lo <= i <= hi <= s@.len(),
            r@ == s@.subrange(lo as int, i as int),
        decreases hi - i,
    {
        r.push(s[i]);
        i = i + 1;
        assert(r@ =~= s@.subrange(lo as int, i as int));
    }
    r
}

/// `true` for the characters that Unicode calls `White_Space`.
pub open spec fn is_ws(c: char) -> bool {
    ||| c == ' ' || c == '\t' || c == '\n' || c == '\r'
    ||| c == '\u{000B}' || c == '\u{000C}' || c == '\u{0085}' || c == '\u{00A0}'
    ||| c == '\u{1680}' || ('\u{2000}' <= c && c <= '\u{200A}')
    ||| c == '\u{2028}' || c == '\u{2029}' || c == '\u{202F}' || c == '\u{205F}'
    ||| c == '\u{3000}'
}

/// Whether a character is Unicode white space.
pub fn is_whitespace(c: char) -> (r: bool)
    ensures
        r == is_ws(c),
{
    c == ' ' || c == '\t' || c == '\n' || c == '\r' || c == '\u{000B}' || c == '\u{000C}'
        || c == '\u{0085}' || c == '\u{00A0}' || c == '\u{1680}' || ('\u{2000}' <= c && c
        <= '\u{200A}') || c == '\u{2028}' || c == '\u{2029}' || c == '\u{202F}' || c
        == '\u{205F}' || c == '\u{3000}'
}

/// ASCII white space as `u8::is_ascii_whitespace` defines it.
pub open spec fn is_ascii_ws(c: char) -> bool {
    c == ' ' || c == '\t' || c == '\n' || c == '\u{000C}' || c == '\r'
}

/// Index of the first character that is not white space, at or after `lo`.
pub open spec fn trim_start_index(s: Seq<char>, lo: int) -> int
    decreases s.len() - lo,
{
    if lo >= s.len() {
        s.len() as int
    } else if is_ws(s[lo]) {
        trim_start_index(s, lo + 1)
    } else {
        lo
    }
}

/// Index one past the last character that is not white space, at or before `hi`.
pub open spec fn trim_end_index(s: Seq<char>, hi: int) -> int
    decreases hi,
{
    if hi <= 0 {
        0
    } else if is_ws(s[hi - 1]) {
        trim_end_index(s, hi - 1)
    } else {
        hi
    }
}

/// `str::trim_start`.
pub open spec fn trim_start(s: Seq<char>) -> Seq<char> {
    s.skip(trim_start_index(s, 0))
}

/// `str::trim_end`.
pub open spec fn trim_end(s: Seq<char>) -> Seq<char> {
    s.take(trim_end_index(s, s.len() as int))
}

/// `str::trim`.
pub open spec fn trim(s: Seq<char>) -> Seq<char> {
    trim_end(trim_start(s))
}

proof fn lemma_trim_start_index_bounds(s: Seq<char>, lo: int)
    requires
        0 <= lo,
    ensures
        lo <= trim_start_index(s, lo) <= s.len() || (lo > s.len() && trim_start_index(s, lo)
            == s.len()),
        trim_start_index(s, lo) < s.len() ==> !is_ws(s[trim_start_index(s, lo)]),
    decreases s.len() - lo,
{
    if lo < s.len() && is_ws(s[lo]) {
        lemma_trim_start_index_bounds(s, lo + 1);
    }
}

proof fn lemma_trim_end_index_bounds(s: Seq<char>, hi: int)
    requires
        hi <= s.len(),
    ensures
        0 <= trim_end_index(s, hi) <= if hi < 0 { 0 } else { hi },
        trim_end_index(s, hi) > 0 ==> !is_ws(s[trim_end_index(s, hi) - 1]),
    decreases hi,
{
    if hi > 0 && is_ws(s[hi - 1]) {
        lemma_trim_end_index_bounds(s, hi - 1);
    }
}

/// A trimmed text that is not empty starts and ends with a character that is not white space.
pub proof fn lemma_trim_edges(s: Seq<char>)
    ensures
        trim(s).len() > 0 ==> !is_ws(trim(s)[0]) && !is_ws(trim(s)[trim(s).len() - 1]),
{
    let a = trim_start_index(s, 0);
    lemma_trim_start_index_bounds(s, 0);
    let t = trim_start(s);
    let b = trim_end_index(t, t.len() as int);
    lemma_trim_end_index_bounds(t, t.len() as int);
    if trim(s).len() > 0 {
        assert(trim(s) == t.take(b));
        assert(b > 0);
        assert(t[0] == s[a]);
        assert(trim(s)[0] == t[0]);
        assert(trim(s)[trim(s).len() - 1] == t[b - 1]);
    }
}

/// Index of the first non-white-space character of `s` at or after `lo`.
pub fn skip_ws_from(s: &[char], lo: usize) -> (r: usize)
    requires
        lo <= s@.len(),
    ensures
        r == trim_start_index(s@, lo as int),
        lo <= r <= s@.len(),
{
    let mut i = lo;
    while i < s.len() && is_whitespace(s[i])
        invariant
            lo <= i <= s@.len(),
            trim_start_index(s@, lo as int) == trim_start_index(s@, i as int),
        decreases s@.len() - i,
    {
        i = i + 1;
    }
    i
}

/// Index one past the last non-white-space character of `s` before `hi`.
pub fn trim_end_from(s: &[char], hi: usize) -> (r: usize)
    requires
        hi <= s@.len(),
    ensures
        r == trim_end_index(s@, hi as int),
        r <= hi,
{
    let mut i = hi;
    while i > 0 && is_whitespace(s[i - 1])
        invariant
            i <= hi <= s@.len(),
            trim_end_index(s@, hi as int) == trim_end_index(s@, i as int),
        decreases i,
    {
        i = i - 1;
    }
    i
}

/// `str::trim` on a character slice.
pub fn trim_chars(s: &[char]) -> (r: Vec<char>)
    ensures
        r@ == trim(s@),
{
    let lo = skip_ws_from(s, 0);
    let t = slice_chars(s, lo, s.len());
    assert(t@ == trim_start(s@));
    let hi = trim_end_from(t.as_slice(), t.len());
    slice_chars(t.as_slice(), 0, hi)
}

/// `str::trim_start` on a character slice.
pub fn trim_start_chars(s: &[char]) -> (r: Vec<char>)
    ensures
        r@ == trim_start(s@),
{
    let lo = skip_ws_from(s, 0);
    slice_chars(s, lo, s.len())
}

/// `str::trim` on a string slice.
pub fn trim_str(s: &str) -> (r: String)
    ensures
        r@ == trim(s@),
{
    let cs = str_chars(s);
    let t = trim_chars(cs.as_slice());
    string_from_chars(t.as_slice())
}

/// Whether the sequence contains the character.
pub open spec fn has_char(s: Seq<char>, c: char) -> bool {
    exists|i: int| 0 <= i < s.len() && s[i] == c
}

/// The first index of `c` in `s`, if any.
pub fn find_char(s: &[char], c: char) -> (r: Option<usize>)
    ensures
        match r {
            Some(i) => i < s@.len() && s@[i as int] == c && forall|j: int|
                0 <= j < i ==> s@[j] != c,
            None => !has_char(s@, c),
        },
{
    let mut i: usize = 0;
    while i < s.len()
        invariant
            i <= s@.len(),
            forall|j: int| 0 <= j < i ==> s@[j] != c,
        decreases s@.len() - i,
    {
        if s[i] == c {
            return Some(i);
        }
        i = i + 1;
    }
    None
}

/// ASCII lower-casing of one character.
pub open spec fn ascii_lower(c: char) -> char {
    if 'A' <= c && c <= 'Z' {
        ((c as u32) + 32) as char
    } else {
        c
    }
}

/// ASCII lower-casing of a sequence.
pub open spec fn ascii_lower_seq(s: Seq<char>) -> Seq<char> {
    s.map_values(|c: char| ascii_lower(c))
}

/// Whether every character is ASCII.
pub open spec fn all_ascii(s: Seq<char>) -> bool {
    forall|i: int| 0 <= i < s.len() ==> (s[i] as u32) < 128
}

/// The ASCII lower-case form of one character.
pub fn to_ascii_lower(c: char) -> (r: char)
    ensures
        r == ascii_lower(c),
{
    if 'A' <= c && c <= 'Z' {
        let u = (c as u32) + 32;
        assert(u < 128);
        char_from_ascii(u as u8)
    } else {
        c
    }
}

/// `u8 as char`, for ASCII values.
fn char_from_ascii(b: u8) -> (r: char)
    requires
        b < 128,
    ensures
        r as u32 == b as u32,
{
    b as char
}

/// What `str::to_lowercase` returns: the Unicode lower-case mapping of each character.
pub uninterp spec fn unicode_lowercase(s: Seq<char>) -> Seq<char>;

/// `str::to_lowercase`. The result is named; for ASCII text the Unicode mapping is the ASCII
/// mapping, which the documentation of `char::to_lowercase` gives for the ASCII range.
#[verifier::external_body]
pub fn to_lowercase(s: &str) -> (r: String)
    ensures
        r@ == unicode_lowercase(s@),
        all_ascii(s@) ==> r@ == ascii_lower_seq(s@),
{
    s.to_lowercase()
}

/// The decimal digits of a natural number.
pub open spec fn decimal(n: nat) -> Seq<char>
    decreases n,
{
    if n < 10 {
        seq![digit_char(n)]
    } else {
        decimal(n / 10).push(digit_char(n % 10))
    }
}

/// The digit character for a value below ten.
pub open spec fn digit_char(d: nat) -> char {
    if d < 10 {
        ((d + 48) as u32) as char
    } else {
        '?'
    }
}

/// The decimal representation of a signed number.
pub open spec fn decimal_int(n: int) -> Seq<char> {
    if n < 0 {
        seq!['-'] + decimal((-n) as nat)
    } else {
        decimal(n as nat)
    }
}

/// Formats a number in decimal, as `Display` does.
pub fn format_usize(n: usize) -> (r: String)
    ensures
        r@ == decimal(n as nat),
    decreases n,
{
    if n < 10 {
        let mut s = String::new();
        push_char(&mut s, char_from_ascii((n + 48) as u8));
        assert(s@ =~= seq![digit_char(n as nat)]);
        s
    } else {
        let mut s = format_usize(n / 10);
        let d = n % 10;
        push_char(&mut s, char_from_ascii((d + 48) as u8));
        s
    }
}

/// Formats a signed number in decimal, as `Display` does.
pub fn format_i64(n: i64) -> (r: String)
    ensures
        r@ == decimal_int(n as int),
{
    if n < 0 {
        let mut s = String::new();
        push_char(&mut s, '-');
        let m: u64 = if n == i64::MIN {
            9223372036854775808u64
        } else {
            (-n) as u64
        };
        let t = format_u64(m);
        push_str(&mut s, t.as_str());
        s
    } else {
        format_u64(n as u64)
    }
}

/// Formats an unsigned 64-bit number in decimal.
pub fn format_u64(n: u64) -> (r: String)
    ensures
        r@ == decimal(n as nat),
    decreases n,
{
    if n < 10 {
        let mut s = String::new();
        push_char(&mut s, char_from_ascii((n + 48) as u8));
        assert(s@ =~= seq![digit_char(n as nat)]);
        s
    } else {
        let mut s = format_u64(n / 10);
        let d = n % 10;
        push_char(&mut s, char_from_ascii((d + 48) as u8));
        s
    }
}

/// How many bytes UTF-8 takes for a character.
pub open spec fn char_width(c: char) -> nat {
    if (c as u32) < 0x80 {
        1
    } else if (c as u32) < 0x800 {
        2
    } else if (c as u32) < 0x10000 {
        3
    } else {
        4
    }
}

/// How many bytes UTF-8 takes for a sequence of characters.
pub open spec fn utf8_len(s: Seq<char>) -> nat
    decreases s.len(),
{
    if s.len() == 0 {
        0
    } else {
        utf8_len(s.drop_last()) + char_width(s.last())
    }
}

/// The characters that exactly fill the first `k` bytes, when byte `k` starts a character.
pub open spec fn byte_cut(s: Seq<char>, k: int) -> Option<Seq<char>> {
    if exists|j: int| 0 <= j <= s.len() && #[trigger] utf8_len(s.take(j)) == k {
        Some(s.take(choose|j: int| 0 <= j <= s.len() && #[trigger] utf8_len(s.take(j)) == k))
    } else {
        None
    }
}

/// The UTF-8 width of a character.
pub fn width_of(c: char) -> (r: usize)
    ensures
        r == char_width(c),
{
    let u = c as u32;
    if u < 0x80 {
        1
    } else if u < 0x800 {
        2
    } else if u < 0x10000 {
        3
    } else {
        4
    }
}

proof fn lemma_utf8_len_take_step(s: Seq<char>, j: int)
    requires
        0 <= j < s.len(),
    ensures
        utf8_len(s.take(j + 1)) == utf8_len(s.take(j)) + char_width(s[j]),
{
    assert(s.take(j + 1).drop_last() =~= s.take(j));
}

proof fn lemma_utf8_len_mono(s: Seq<char>, a: int, b: int)
    requires
        0 <= a <= b <= s.len(),
    ensures
        utf8_len(s.take(a)) + (b - a) <= utf8_len(s.take(b)),
    decreases b - a,
{
    if a < b {
        lemma_utf8_len_mono(s, a, b - 1);
        lemma_utf8_len_take_step(s, b - 1);
    }
}

/// The characters that fill the first `k` bytes of `s`, if byte `k` starts a character (or ends
/// the text).
pub fn cut_at_byte(s: &[char], k: usize) -> (r: Option<Vec<char>>)
    ensures
        match r {
            Some(v) => byte_cut(s@, k as int) == Some(v@),
            None => byte_cut(s@, k as int).is_none(),
        },
{
    let mut j: usize = 0;
    let mut acc: usize = 0;
    assert(s@.take(0) =~= Seq::<char>::empty());
    while j < s.len() && acc < k
        invariant
            j <= s@.len(),
            acc == utf8_len(s@.take(j as int)),
            acc <= k,
        decreases s@.len() - j,
    {
        let w = width_of(s[j]);
        proof {
            lemma_utf8_len_take_step(s@, j as int);
        }
        if w > k - acc {
            proof {
                assert forall|i: int| 0 <= i <= s@.len() implies #[trigger] utf8_len(s@.take(i)) != k by {
                    if i <= j {
                        lemma_utf8_len_mono(s@, i, j as int);
                        if i < j {
                            lemma_utf8_len_mono(s@, i, j as int);
                        }
                        if utf8_len(s@.take(i)) == k {
                            lemma_utf8_len_mono(s@, i, j as int);
                            assert(acc >= k);
                        }
                    } else {
                        lemma_utf8_len_mono(s@, j as int + 1, i);
                    }
                }
            }
            return None;
        }
        acc = acc + w;
        j = j + 1;
    }
    if acc == k {
        proof {
            let jj = choose|i: int| 0 <= i <= s@.len() && #[trigger] utf8_len(s@.take(i)) == k;
            if jj < j {
                lemma_utf8_len_mono(s@, jj, j as int);
                lemma_utf8_len_mono(s@, jj + 1, j as int);
                lemma_utf8_len_take_step(s@, jj);
            }
            if jj > j {
                lemma_utf8_len_take_step(s@, j as int);
                lemma_utf8_len_mono(s@, j as int + 1, jj);
            }
            assert(jj == j);
        }
        Some(slice_chars(s, 0, j))
    } else {
        proof {
            assert(j == s@.len());
            assert forall|i: int| 0 <= i <= s@.len() implies #[trigger] utf8_len(s@.take(i)) != k by {
                lemma_utf8_len_mono(s@, i, j as int);
            }
        }
        None
    }
}

/// The characters of bytes taken one for one as code points below 256.
pub open spec fn latin1(bs: Seq<u8>) -> Seq<char> {
    bs.map_values(|b: u8| (b as u32) as char)
}

/// `u8 as char`.
pub fn byte_char(b: u8) -> (c: char)
    ensures
        c == (b as u32) as char,
{
    b as char
}

/// The encoding of a prefix is no longer than that of the whole.
pub proof fn lemma_utf8_len_prefix(s: Seq<char>, j: int)
    requires
        0 <= j <= s.len(),
    ensures
        utf8_len(s.take(j)) <= utf8_len(s),
{
    lemma_utf8_len_mono(s, j, s.len() as int);
    assert(s.take(s.len() as int) =~= s);
}

/// Whether the UTF-8 encoding of `s` has at least `k` bytes.
pub fn utf8_len_at_least(s: &[char], k: usize) -> (r: bool)
    ensures
        r == (utf8_len(s@) >= k),
{
    let mut j: usize = 0;
    let mut acc: usize = 0;
    assert(s@.take(0) =~= Seq::<char>::empty());
    while j < s.len() && acc < k
        invariant
            j <= s@.len(),
            acc == utf8_len(s@.take(j as int)),
            acc <= k,
        decreases s@.len() - j,
    {
        let w = width_of(s[j]);
        proof {
            lemma_utf8_len_take_step(s@, j as int);
        }
        if w >= k - acc {
            proof {
                lemma_utf8_len_prefix(s@, j as int + 1);
            }
            return true;
        }
        acc = acc + w;
        j = j + 1;
    }
    proof {
        lemma_utf8_len_prefix(s@, j as int);
        if j == s@.len() {
            assert(s@.take(j as int) =~= s@);
        }
    }
    acc >= k
}

/// Pieces of text joined by a separator.
pub open spec fn join_seqs(parts: Seq<Seq<char>>, sep: Seq<char>) -> Seq<char>
    decreases parts.len(),
{
    if parts.len() == 0 {
        Seq::empty()
    } else if parts.len() == 1 {
        parts[0]
    } else {
        join_seqs(parts.drop_last(), sep) + sep + parts.last()
    }
}

/// Joins pieces of text with a separator.
pub fn join_chars(parts: &Vec<Vec<char>>, sep: &[char]) -> (r: Vec<char>)
    ensures
        r@ == join_seqs(vv(parts@), sep@),
{
    let ghost pv = vv(parts@);
    let mut r: Vec<char> = Vec::new();
    let mut i: usize = 0;
    while i < parts.len()
        invariant
            i <= parts@.len(),
            pv == vv(parts@),
            r@ == join_seqs(pv.take(i as int), sep@),
        decreases parts@.len() - i,
    {
        assert(pv.take(i as int + 1).drop_last() =~= pv.take(i as int));
        if i > 0 {
            append_chars(&mut r, sep);
        }
        append_chars(&mut r, parts[i].as_slice());
        i = i + 1;
        proof {
            if i == 1 {
                assert(r@ =~= pv.take(1)[0]);
            }
        }
    }
    assert(pv.take(parts@.len() as int) =~= pv);
    r
}

/// Appends characters to a vector.
pub fn append_chars(r: &mut Vec<char>, s: &[char])
    ensures
        final(r)@ == old(r)@ + s@,
{
    let mut i: usize = 0;
    while i < s.len()
        invariant
            i <= s@.len(),
            r@ == old(r)@ + s@.take(i as int),
        decreases s@.len() - i,
    {
        r.push(s[i]);
        i = i + 1;
        assert(r@ =~= old(r)@ + s@.take(i as int));
    }
    assert(s@.take(s@.len() as int) =~= s@);
}

/// The pieces of `s` between occurrences of `c` (an empty piece at each end when `s` starts or
/// ends with `c`).
pub open spec fn split_char(s: Seq<char>, c: char) -> Seq<Seq<char>>
    decreases s.len(),
{
    if s.len() == 0 {
        seq![Seq::empty()]
    } else {
        let p = split_char(s.drop_last(), c);
        if s.last() == c {
            p.push(Seq::empty())
        } else {
            p.update(p.len() - 1, p.last().push(s.last()))
        }
    }
}

pub proof fn lemma_split_char_nonempty(s: Seq<char>, c: char)
    ensures
        split_char(s, c).len() >= 1,
    decreases s.len(),
{
    if s.len() > 0 {
        lemma_split_char_nonempty(s.drop_last(), c);
    }
}

/// Splits characters at each occurrence of `c`.
pub fn split_chars(s: &[char], c: char) -> (r: Vec<Vec<char>>)
    ensures
        vv(r@) == split_char(s@, c),
{
    let mut r: Vec<Vec<char>> = Vec::new();
    let mut cur: Vec<char> = Vec::new();
    let mut i: usize = 0;
    assert(s@.take(0) =~= Seq::<char>::empty());
    while i < s.len()
        invariant
            i <= s@.len(),
            vv(r@).push(cur@) == split_char(s@.take(i as int), c),
        decreases s@.len() - i,
    {
        let ghost prev = vv(r@).push(cur@);
        assert(s@.take(i as int + 1).drop_last() =~= s@.take(i as int));
        if s[i] == c {
            let done = cur;
            r.push(done);
            cur = Vec::new();
            assert(vv(r@).push(cur@) =~= prev.push(Seq::empty()));
        } else {
            cur.push(s[i]);
            assert(vv(r@).push(cur@) =~= prev.update(prev.len() - 1, prev.last().push(s@[i as int])));
        }
        i = i + 1;
    }
    assert(s@.take(s@.len() as int) =~= s@);
    r.push(cur);
    r
}

/// A copy of a character slice.
pub fn copy_chars(s: &[char]) -> (r: Vec<char>)
    ensures
        r@ == s@,
{
    let r = slice_chars(s, 0, s.len());
    assert(r@ =~= s@);
    r
}

/// The views of a sequence of character vectors.
pub open spec fn vv(s: Seq<Vec<char>>) -> Seq<Seq<char>> {
    s.map_values(|p: Vec<char>| p@)
}

/// Pushing a vector pushes its view.
pub proof fn lemma_vv_push(s: Seq<Vec<char>>, x: Vec<char>)
    ensures
        vv(s.push(x)) == vv(s).push(x@),
{
    assert(vv(s.push(x)) =~= vv(s).push(x@));
}

/// Formats an unsigned 128-bit number in decimal.
pub fn format_u128(n: u128) -> (r: String)
    ensures
        r@ == decimal(n as nat),
    decreases n,
{
    if n < 10 {
        let mut s = String::new();
        push_char(&mut s, char_from_ascii((n + 48) as u8));
        assert(s@ =~= seq![digit_char(n as nat)]);
        s
    } else {
        let mut s = format_u128(n / 10);
        let d = n % 10;
        push_char(&mut s, char_from_ascii((d + 48) as u8));
        s
    }
}

/// The UTF-8 bytes of a character sequence.
pub fn utf8_bytes(s: &[char]) -> (r: Vec<u8>)
    ensures
        r@ == vstd::utf8::encode_utf8(s@),
{
    let st = string_from_chars(s);
    let b = st.as_str().as_bytes();
    let mut v: Vec<u8> = Vec::new();
    let mut i: usize = 0;
    while i < b.len()
        invariant
            i <= b@.len(),
            v@ == b@.take(i as int),
        decreases b@.len() - i,
    {
        v.push(b[i]);
        i = i + 1;
        assert(v@ =~= b@.take(i as int));
    }
    assert(b@.take(b@.len() as int) =~= b@);
    v
}

/// The UTF-8 length of a non-empty sequence, counted from its first character.
pub proof fn lemma_utf8_len_first(s: Seq<char>)
    requires
        s.len() > 0,
    ensures
        utf8_len(s) == char_width(s[0]) + utf8_len(s.drop_first()),
    decreases s.len(),
{
    if s.len() > 1 {
        lemma_utf8_len_first(s.drop_last());
        assert(s.drop_last().drop_first() =~= s.drop_first().drop_last());
    } else {
        assert(s.drop_last() =~= Seq::<char>::empty());
        assert(s.drop_first() =~= Seq::<char>::empty());
    }
}

/// `utf8_len` counts the bytes of the UTF-8 encoding.
pub proof fn lemma_encode_len(s: Seq<char>)
    ensures
        vstd::utf8::encode_utf8(s).len() == utf8_len(s),
    decreases s.len(),
{
    if s.len() > 0 {
        lemma_encode_len(s.drop_first());
        lemma_utf8_len_first(s);
        vstd::utf8::char_is_scalar(s[0]);
    }
}

/// How `{:?}` writes a list of strings: in brackets, each quoted with its special characters
/// escaped, separated by commas.
pub uninterp spec fn debug_strings(v: Seq<Seq<char>>) -> Seq<char>;

/// `format!("{:?}", v)` for a list of strings.
#[verifier::external_body]
pub fn format_debug_strings(v: &Vec<String>) -> (r: String)
    ensures
        r@ == debug_strings(v@.map_values(|s: String| s@)),
{
    format!("{:?}", v)
}

} // verus!
