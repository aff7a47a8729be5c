//! Character and name handling for the directory decoder and the path
//! resolver: UTF-16 decoding for long file names, space-trimming for
//! 8.3 short names, and slash-splitting for paths.

use vstd::prelude::*;
use vstd::string::StrSliceExecFns;

verus! {

/// First code unit of the high-surrogate range.
pub const HIGH_SURROGATE_MIN: u16 = 0xD800;

/// First code unit of the low-surrogate range.
pub const LOW_SURROGATE_MIN: u16 = 0xDC00;

/// First code unit past the surrogate ranges.
pub const SURROGATE_END: u16 = 0xE000;

/// The replacement character emitted for a lone surrogate.
pub const REPLACEMENT: char = '\u{FFFD}';

/// A UTF-16 code unit that starts a surrogate pair.
pub open spec fn is_high_surrogate(u: u16) -> bool {
    HIGH_SURROGATE_MIN <= u < LOW_SURROGATE_MIN
}

/// A UTF-16 code unit that completes a surrogate pair.
pub open spec fn is_low_surrogate(u: u16) -> bool {
    LOW_SURROGATE_MIN <= u < SURROGATE_END
}

/// The scalar value of a surrogate pair.
pub open spec fn spec_pair_value(hi: u16, lo: u16) -> int {
    0x10000 + (hi - HIGH_SURROGATE_MIN) * 0x400 + (lo - LOW_SURROGATE_MIN)
}

/// UTF-16 decoding with replacement: surrogate pairs combine, lone
/// surrogates become the replacement character, everything else maps to
/// the character of the same value.
pub open spec fn spec_utf16_chars(units: Seq<u16>) -> Seq<char>
    decreases units.len(),
{
    if units.len() == 0 {
        Seq::empty()
    } else if is_high_surrogate(units[0]) && units.len() >= 2 && is_low_surrogate(units[1]) {
        seq![spec_pair_value(units[0], units[1]) as char] + spec_utf16_chars(units.skip(2))
    } else if is_high_surrogate(units[0]) || is_low_surrogate(units[0]) {
        seq![REPLACEMENT] + spec_utf16_chars(units.skip(1))
    } else {
        seq![units[0] as char] + spec_utf16_chars(units.skip(1))
    }
}

/// Relies on `char::from_u32` of the standard library: it returns the
/// character of the given value exactly when the value is a Unicode
/// scalar value (not a surrogate, not above the code-point maximum).
#[verifier::external_body]
pub fn char_from_u32(v: u32) -> (r: Option<char>)
    ensures
        r is Some <==> (v < HIGH_SURROGATE_MIN as u32 || (SURROGATE_END as u32 <= v
            && v <= 0x10FFFF)),
        r matches Some(c) ==> c as u32 == v,
{
    char::from_u32(v)
}

/// Relies on `String::push` of the standard library: it appends the
/// given character to the end of the string.
#[verifier::external_body]
pub fn push_char(s: &mut String, c: char)
    ensures
        final(s)@ == old(s)@.push(c),
{
    s.push(c)
}

/// Collect a character vector into a `String` with the same characters.
pub fn chars_to_string(chars: &Vec<char>) -> (r: String)
    ensures
        r@ == chars@,
{
    let mut r = String::new();
    let mut i: usize = 0;
    while i < chars.len()
        invariant
            i <= chars.len(),
            r@ == chars@.take(i as int),
        decreases chars.len() - i,
    {
        push_char(&mut r, chars[i]);
        proof {
            assert(chars@.take(i + 1) =~= chars@.take(i as int).push(chars@[i as int]));
        }
        i += 1;
    }
    proof {
        assert(chars@.take(chars@.len() as int) =~= chars@);
    }
    r
}

/// The characters of a string slice, in order.
pub fn str_chars(s: &str) -> (r: Vec<char>)
    ensures
        r@ == s@,
{
    let n = s.unicode_len();
    let mut r: Vec<char> = Vec::new();
    let mut i: usize = 0;
    while i < n
        invariant
            i <= n,
            n == s@.len(),
            r@ == s@.take(i as int),
        decreases n - i,
    {
        let c = s.get_char(i);
        r.push(c);
        proof {
            assert(s@.take(i + 1) =~= s@.take(i as int).push(s@[i as int]));
        }
        i += 1;
    }
    proof {
        assert(s@.take(s@.len() as int) =~= s@);
    }
    r
}

/// Decode a sequence of UTF-16 code units, replacing lone surrogates.
pub fn utf16_chars(units: &Vec<u16>) -> (r: Vec<char>)
    ensures
        r@ == spec_utf16_chars(units@),
{
    let n = units.len();
    let mut r: Vec<char> = Vec::new();
    let mut i: usize = 0;
    proof {
        assert(units@.skip(0) =~= units@);
        assert(Seq::<char>::empty() + spec_utf16_chars(units@) =~= spec_utf16_chars(units@));
    }
    while i < n
        invariant
            i <= n,
            n == units@.len(),
            spec_utf16_chars(units@) == r@ + spec_utf16_chars(units@.skip(i as int)),
        decreases n - i,
    {
        let ghost before = units@.skip(i as int);
        let u = units[i];
        if HIGH_SURROGATE_MIN <= u && u < LOW_SURROGATE_MIN && i + 1 < n && LOW_SURROGATE_MIN
            <= units[i + 1] && units[i + 1] < SURROGATE_END {
            let lo = units[i + 1];
            let value: u32 = 0x10000 + (u as u32 - HIGH_SURROGATE_MIN as u32) * 0x400 + (lo as u32
                - LOW_SURROGATE_MIN as u32);
            let c = match char_from_u32(value) {
                Some(c) => c,
                None => unreached(),
            };
            proof {
                vstd::utf8::char_u32_cast(c, value);
                assert(before.skip(2) =~= units@.skip(i + 2));
            }
            r.push(c);
            proof {
                assert(r@ + spec_utf16_chars(units@.skip(i + 2)) =~= spec_utf16_chars(units@));
            }
            i += 2;
        } else if HIGH_SURROGATE_MIN <= u && u < SURROGATE_END {
            proof {
                assert(before.skip(1) =~= units@.skip(i + 1));
            }
            r.push(REPLACEMENT);
            proof {
                assert(r@ + spec_utf16_chars(units@.skip(i + 1)) =~= spec_utf16_chars(units@));
            }
            i += 1;
        } else {
            let c = match char_from_u32(u as u32) {
                Some(c) => c,
                None => unreached(),
            };
            proof {
                vstd::utf8::char_u32_cast(c, u as u32);
                assert(before.skip(1) =~= units@.skip(i + 1));
            }
            r.push(c);
            proof {
                assert(r@ + spec_utf16_chars(units@.skip(i + 1)) =~= spec_utf16_chars(units@));
            }
            i += 1;
        }
    }
    proof {
        assert(units@.skip(n as int) =~= Seq::<u16>::empty());
        assert(r@ + Seq::<char>::empty() =~= r@);
    }
    r
}

/// Drop leading space bytes.
pub open spec fn trim_front(s: Seq<u8>) -> Seq<u8>
    decreases s.len(),
{
    if s.len() > 0 && s[0] == 0x20 {
        trim_front(s.skip(1))
    } else {
        s
    }
}

/// Drop trailing space bytes.
pub open spec fn trim_back(s: Seq<u8>) -> Seq<u8>
    decreases s.len(),
{
    if s.len() > 0 && s[s.len() - 1] == 0x20 {
        trim_back(s.take(s.len() - 1))
    } else {
        s
    }
}

/// The display name of an 8.3 short entry: the stored bytes with the
/// space padding trimmed from both ends, each byte read as the character
/// of the same value.
pub open spec fn spec_short_name(s: Seq<u8>) -> Seq<char> {
    trim_back(trim_front(s)).map_values(|b: u8| b as char)
}

proof fn lemma_trim_front_skip(s: Seq<u8>, k: int)
    requires
        0 <= k <= s.len(),
        forall|j: int| 0 <= j < k ==> s[j] == 0x20,
        k < s.len() ==> s[k] != 0x20,
    ensures
        trim_front(s) == s.skip(k),
    decreases k,
{
    if k == 0 {
        assert(s.skip(0) =~= s);
    } else {
        lemma_trim_front_skip(s.skip(1), k - 1);
        assert(s.skip(1).skip(k - 1) =~= s.skip(k));
    }
}

proof fn lemma_trim_back_take(s: Seq<u8>, k: int)
    requires
        0 <= k <= s.len(),
        forall|j: int| k <= j < s.len() ==> s[j] == 0x20,
        k > 0 ==> s[k - 1] != 0x20,
    ensures
        trim_back(s) == s.take(k),
    decreases s.len() - k,
{
    if k == s.len() {
        assert(s.take(k) =~= s);
    } else {
        lemma_trim_back_take(s.take(s.len() - 1), k);
    }
}

/// Trim the space padding from a short name field and read its bytes as
/// characters.
pub fn short_name_chars(name: &Vec<u8>) -> (r: Vec<char>)
    ensures
        r@ == spec_short_name(name@),
{
    let n = name.len();
    let mut start: usize = 0;
    while start < n && name[start] == 0x20
        invariant
            start <= n,
            n == name@.len(),
            forall|j: int| 0 <= j < start ==> name@[j] == 0x20,
        decreases n - start,
    {
        start += 1;
    }
    let mut end: usize = n;
    while end > start && name[end - 1] == 0x20
        invariant
            start <= end <= n,
            n == name@.len(),
            forall|j: int| end <= j < n ==> name@[j] == 0x20,
        decreases end,
    {
        end -= 1;
    }
    proof {
        lemma_trim_front_skip(name@, start as int);
        lemma_trim_back_take(name@.skip(start as int), end - start);
    }
    let mut r: Vec<char> = Vec::new();
    let mut i: usize = start;
    while i < end
        invariant
            start <= i <= end <= n,
            n == name@.len(),
            r@ == name@.subrange(start as int, i as int).map_values(|b: u8| b as char),
        decreases end - i,
    {
        r.push(name[i] as char);
        proof {
            assert(name@.subrange(start as int, i + 1) =~= name@.subrange(
                start as int,
                i as int,
            ).push(name@[i as int]));
        }
        i += 1;
    }
    proof {
        assert(name@.skip(start as int).take(end - start) =~= name@.subrange(
            start as int,
            end as int,
        ));
    }
    r
}

/// Whether two character vectors hold the same characters.
pub fn chars_eq(a: &Vec<char>, b: &Vec<char>) -> (r: bool)
    ensures
        r == (a@ == b@),
{
    if a.len() != b.len() {
        return false;
    }
    let mut i: usize = 0;
    while i < a.len()
        invariant
            i <= a.len(),
            a@.len() == b@.len(),
            forall|j: int| 0 <= j < i ==> a@[j] == b@[j],
        decreases a.len() - i,
    {
        if a[i] != b[i] {
            return false;
        }
        i += 1;
    }
    proof {
        assert(a@ =~= b@);
    }
    true
}

/// The segments of a path, scanning for the separator from `cur` with
/// the current segment having started at `start`.
pub open spec fn spec_split_from(s: Seq<char>, start: int, cur: int) -> Seq<Seq<char>>
    decreases s.len() - cur,
{
    if cur < 0 || cur >= s.len() {
        seq![s.subrange(start, s.len() as int)]
    } else if s[cur] == '/' {
        seq![s.subrange(start, cur)] + spec_split_from(s, cur + 1, cur + 1)
    } else {
        spec_split_from(s, start, cur + 1)
    }
}

/// A path split at every slash. Splitting keeps empty segments, so a
/// path of `n` slashes has `n + 1` segments.
pub open spec fn spec_split(s: Seq<char>) -> Seq<Seq<char>> {
    spec_split_from(s, 0, 0)
}

/// Split a path into its slash-separated segments.
pub fn split_slash(chars: &Vec<char>) -> (r: Vec<Vec<char>>)
    ensures
        r@.map_values(|v: Vec<char>| v@) == spec_split(chars@),
        r@.len() >= 1,
{
    let n = chars.len();
    let mut r: Vec<Vec<char>> = Vec::new();
    let mut seg: Vec<char> = Vec::new();
    let mut start: usize = 0;
    let mut cur: usize = 0;
    while cur < n
        invariant
            start <= cur <= n,
            n == chars@.len(),
            seg@ == chars@.subrange(start as int, cur as int),
            spec_split(chars@) == r@.map_values(|v: Vec<char>| v@) + spec_split_from(
                chars@,
                start as int,
                cur as int,
            ),
        decreases n - cur,
    {
        let c = chars[cur];
        if c == '/' {
            r.push(seg);
            seg = Vec::new();
            proof {
                assert(r@.map_values(|v: Vec<char>| v@) =~= r@.drop_last().map_values(
                    |v: Vec<char>| v@,
                ).push(r@.last()@));
            }
            start = cur + 1;
        } else {
            seg.push(c);
            proof {
                assert(chars@.subrange(start as int, cur + 1) =~= chars@.subrange(
                    start as int,
                    cur as int,
                ).push(chars@[cur as int]));
            }
        }
        cur += 1;
    }
    r.push(seg);
    proof {
        assert(r@.map_values(|v: Vec<char>| v@) =~= r@.drop_last().map_values(
            |v: Vec<char>| v@,
        ).push(r@.last()@));
        assert(chars@.subrange(start as int, n as int) == seg@);
    }
    r
}

} // verus!
