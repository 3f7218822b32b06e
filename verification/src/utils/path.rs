//! Paths: numbered rotations of a file, the mode column of a directory listing, and what a
//! listing line shows.
use vstd::prelude::*;

use crate::llm::{all_digits, digits_value, lemma_digits_grow};
use crate::text::{decimal, format_u64, has_prefix, has_suffix, owned, push_str, slice_chars, str_chars};

verus! {

/// `str::parse::<u64>`: an optional `+`, then at least one digit, within range.
pub open spec fn parse_u64_spec(s: Seq<char>) -> Option<u64> {
    let ds = if s.len() > 0 && s[0] == '+' {
        s.drop_first()
    } else {
        s
    };
    if ds.len() > 0 && all_digits(ds) && digits_value(ds) <= u64::MAX {
        Some(digits_value(ds) as u64)
    } else {
        None
    }
}

/// Parses a whole number the way `str::parse::<u64>` does.
pub fn parse_u64(c: &[char]) -> (r: Option<u64>)
    ensures
        r == parse_u64_spec(c@),
{
    let start: usize = if c.len() > 0 && c[0] == '+' {
        1
    } else {
        0
    };
    let ghost ds = if c@.len() > 0 && c@[0] == '+' {
        c@.drop_first()
    } else {
        c@
    };
    assert(ds =~= c@.skip(start as int));
    if start >= c.len() {
        return None;
    }
    let mut acc: u128 = 0;
    let mut i = start;
    while i < c.len()
        invariant
            start <= i <= c@.len(),
            start == 0 || start == 1,
            ds == (if c@.len() > 0 && c@[0] == '+' {
                c@.drop_first()
            } else {
                c@
            }),
            ds == c@.skip(start as int),
            all_digits(ds.take(i - start)),
            acc == digits_value(ds.take(i - start)),
            acc <= u64::MAX,
        decreases c@.len() - i,
    {
        let ch = c[i];
        if !('0' <= ch && ch <= '9') {
            assert(ds[i - start] == ch);
            return None;
        }
        let d = (ch as u32 - '0' as u32) as u128;
        proof {
            assert(ds.take(i + 1 - start).drop_last() =~= ds.take(i - start));
            assert(ds.take(i + 1 - start).last() == ch);
            assert forall|k: int| 0 <= k < ds.take(i + 1 - start).len() implies '0' <= #[trigger] ds.take(i + 1 - start)[k] <= '9' by {
                if k < i - start {
                    assert(ds.take(i + 1 - start)[k] == ds.take(i - start)[k]);
                }
            }
        }
        let next = acc * 10 + d;
        if next > 0xffff_ffff_ffff_ffff {
            proof {
                lemma_digits_grow(ds, (i + 1 - start) as int);
            }
            return None;
        }
        acc = next;
        i = i + 1;
    }
    assert(ds.take(c@.len() - start) =~= ds);
    Some(acc as u64)
}

/// The number of a rotated file's name: `<base>_<number><suffix>`.
pub open spec fn rotation_number(name: Seq<char>, base: Seq<char>, suffix: Seq<char>) -> Option<u64> {
    if !has_prefix(name, base) || !has_suffix(name, suffix) {
        None
    } else {
        let middle = name.subrange(base.len() as int, name.len() - suffix.len());
        if middle.len() > 0 && middle[0] == '_' {
            parse_u64_spec(middle.drop_first())
        } else {
            None
        }
    }
}

/// Whether a name that starts with `base` and ends with `suffix` has room for both.
pub open spec fn rotation_fits(name: Seq<char>, base: Seq<char>, suffix: Seq<char>) -> bool {
    has_prefix(name, base) && has_suffix(name, suffix) ==> base.len() + suffix.len() <= name.len()
}

/// The number of a rotated file's name, if it is one.
pub fn parse_rotation_suffix(name: &str, base_name: &str, suffix: &str) -> (r: Option<u64>)
    requires
        rotation_fits(name@, base_name@, suffix@),
    ensures
        r == rotation_number(name@, base_name@, suffix@),
{
    let n = str_chars(name);
    if !crate::text::starts_with_str(n.as_slice(), base_name) || !crate::text::ends_with_str(n.as_slice(), suffix) {
        return None;
    }
    let b = str_chars(base_name).len();
    let s = str_chars(suffix).len();
    let middle = slice_chars(n.as_slice(), b, n.len() - s);
    if middle.len() == 0 || middle[0] != '_' {
        return None;
    }
    let rest = slice_chars(middle.as_slice(), 1, middle.len());
    assert(rest@ =~= middle@.drop_first());
    parse_u64(rest.as_slice())
}

/// The name of the rotation with a number.
pub fn rotation_name(base_name: &str, number: u64, suffix: &str) -> (r: String)
    ensures
        r@ == base_name@ + "_"@ + decimal(number as nat) + suffix@,
{
    let mut s = owned(base_name);
    push_str(&mut s, "_");
    let t = format_u64(number);
    push_str(&mut s, t.as_str());
    push_str(&mut s, suffix);
    s
}

/// The largest rotation number among names, or 0.
pub open spec fn max_rotation(names: Seq<Seq<char>>, base: Seq<char>, suffix: Seq<char>) -> u64
    decreases names.len(),
{
    if names.len() == 0 {
        0
    } else {
        let m = max_rotation(names.drop_last(), base, suffix);
        match rotation_number(names.last(), base, suffix) {
            Some(k) => if k > m {
                k
            } else {
                m
            },
            None => m,
        }
    }
}

/// The first number to try for a new rotation: one past the largest in the directory.
pub fn first_rotation_number(names: &Vec<String>, base_name: &str, suffix: &str) -> (r: Option<u64>)
    requires
        forall|i: int| 0 <= i < names@.len() ==> rotation_fits(#[trigger] names@[i]@, base_name@, suffix@),
    ensures
        ({
            let m = max_rotation(names@.map_values(|s: String| s@), base_name@, suffix@);
            &&& m < u64::MAX ==> r == Some((m + 1) as u64)
            &&& m == u64::MAX ==> r is None
        }),
{
    let ghost nv = names@.map_values(|s: String| s@);
    let mut max_num: u64 = 0;
    let mut i: usize = 0;
    while i < names.len()
        invariant
            i <= names@.len(),
            nv == names@.map_values(|s: String| s@),
            forall|k: int| 0 <= k < names@.len() ==> rotation_fits(#[trigger] names@[k]@, base_name@, suffix@),
            max_num == max_rotation(nv.take(i as int), base_name@, suffix@),
        decreases names@.len() - i,
    {
        assert(nv.take(i + 1).drop_last() =~= nv.take(i as int));
        assert(nv[i as int] == names@[i as int]@);
        match parse_rotation_suffix(names[i].as_str(), base_name, suffix) {
            Some(num) => {
                if num > max_num {
                    max_num = num;
                }
            },
            None => {},
        }
        i = i + 1;
    }
    assert(nv.take(names@.len() as int) =~= nv);
    if max_num == 0xffff_ffff_ffff_ffff {
        None
    } else {
        Some(max_num + 1)
    }
}

/// The mode column of a listing: `d` for a directory, then `rwx` for the owner, the group and
/// the others.
pub open spec fn mode_text(mode: u32) -> Seq<char> {
    seq![
        if mode & 0o040000 != 0 { 'd' } else { '-' },
        if mode & 0o400 != 0 { 'r' } else { '-' },
        if mode & 0o200 != 0 { 'w' } else { '-' },
        if mode & 0o100 != 0 { 'x' } else { '-' },
        if mode & 0o040 != 0 { 'r' } else { '-' },
        if mode & 0o020 != 0 { 'w' } else { '-' },
        if mode & 0o010 != 0 { 'x' } else { '-' },
        if mode & 0o004 != 0 { 'r' } else { '-' },
        if mode & 0o002 != 0 { 'w' } else { '-' },
        if mode & 0o001 != 0 { 'x' } else { '-' },
    ]
}

/// Writes the mode column of a listing.
pub fn format_mode(mode: u32) -> (r: String)
    ensures
        r@ == mode_text(mode),
{
    let mut v: Vec<char> = Vec::new();
    v.push(if mode & 0o040000 != 0 { 'd' } else { '-' });
    v.push(if mode & 0o400 != 0 { 'r' } else { '-' });
    v.push(if mode & 0o200 != 0 { 'w' } else { '-' });
    v.push(if mode & 0o100 != 0 { 'x' } else { '-' });
    v.push(if mode & 0o040 != 0 { 'r' } else { '-' });
    v.push(if mode & 0o020 != 0 { 'w' } else { '-' });
    v.push(if mode & 0o010 != 0 { 'x' } else { '-' });
    v.push(if mode & 0o004 != 0 { 'r' } else { '-' });
    v.push(if mode & 0o002 != 0 { 'w' } else { '-' });
    v.push(if mode & 0o001 != 0 { 'x' } else { '-' });
    assert(v@ =~= mode_text(mode));
    crate::text::string_from_chars(v.as_slice())
}

/// Text right-aligned in a column of a width.
pub open spec fn pad_left(s: Seq<char>, width: nat) -> Seq<char> {
    if s.len() >= width {
        s
    } else {
        Seq::new((width - s.len()) as nat, |i: int| ' ') + s
    }
}

fn pad_left_str(s: &str, width: usize) -> (r: String)
    ensures
        r@ == pad_left(s@, width as nat),
{
    let n = str_chars(s).len();
    let mut out = String::new();
    let mut k: usize = n;
    while k < width
        invariant
            n == s@.len(),
            n <= k <= width || k == n,
            out@ == Seq::new((k - n) as nat, |i: int| ' '),
        decreases width - k,
    {
        crate::text::push_char(&mut out, ' ');
        assert(out@ =~= Seq::new((k + 1 - n) as nat, |i: int| ' '));
        k = k + 1;
    }
    if n >= width {
        assert(out@ =~= Seq::<char>::empty());
        assert(out@ + s@ =~= s@);
    }
    push_str(&mut out, s);
    out
}

/// A line of a directory listing: mode, size right-aligned in ten columns, name; an entry whose
/// details cannot be read shows question marks.
pub fn listing_line(mode: Option<u32>, size: u64, name: &str) -> (r: String)
    ensures
        match mode {
            Some(m) => r@ == mode_text(m) + " "@ + pad_left(decimal(size as nat), 10) + " "@ + name@,
            None => r@ == "?---------"@ + " "@ + pad_left("?"@, 10) + " "@ + name@ + " [stat failed]"@,
        },
{
    match mode {
        Some(m) => {
            let mut s = format_mode(m);
            push_str(&mut s, " ");
            let n = format_u64(size);
            let p = pad_left_str(n.as_str(), 10);
            push_str(&mut s, p.as_str());
            push_str(&mut s, " ");
            push_str(&mut s, name);
            s
        },
        None => {
            let mut s = owned("?---------");
            push_str(&mut s, " ");
            let p = pad_left_str("?", 10);
            push_str(&mut s, p.as_str());
            push_str(&mut s, " ");
            push_str(&mut s, name);
            push_str(&mut s, " [stat failed]");
            s
        },
    }
}

} // verus!
