//! Text as sequences of characters: comparing, cutting, joining, and decimal
//! numbers.

use vstd::prelude::*;
use vstd::slice::slice_subrange;
use vstd::utf8::*;

verus! {

/// `String::push`: the character is added at the end.
pub assume_specification[ String::push ](s: &mut String, ch: char)
    ensures
        final(s)@ == old(s)@.push(ch),
;

/// The text that `String::from_utf8_lossy` makes of bytes that are not UTF-8.
pub uninterp spec fn utf8_replaced(bytes: Seq<u8>) -> Seq<char>;

/// The text of a byte string: what it encodes, or what stands for it if it encodes
/// none.
pub open spec fn utf8_lossy(bytes: Seq<u8>) -> Seq<char> {
    if valid_utf8(bytes) {
        decode_utf8(bytes)
    } else {
        utf8_replaced(bytes)
    }
}

/// A text is that of its bytes.
pub proof fn text_of_its_bytes(t: Seq<char>)
    ensures
        utf8_lossy(encode_utf8(t)) == t,
{
    encode_utf8_valid_utf8(t);
    encode_utf8_decode_utf8(t);
}

/// Where bytes stop being UTF-8, and what is wrong there.
#[derive(Debug, Clone, Copy, PartialEq, Eq, Structural)]
pub struct Utf8Fault {
    /// How many bytes at the beginning are UTF-8.
    pub valid_up_to: usize,
    /// How many bytes behind them are wrong; nothing if the bytes end too early.
    pub error_len: Option<usize>,
}

/// How many bytes `Utf8Error::error_len` finds wrong where bytes stop being UTF-8.
pub uninterp spec fn utf8_error_len(bytes: Seq<u8>) -> Option<usize>;

/// The size of the longest beginning of at most `n` bytes that is UTF-8.
pub open spec fn longest_valid(bytes: Seq<u8>, n: nat) -> nat
    decreases n,
{
    if n == 0 || valid_utf8(bytes.take(n as int)) {
        n
    } else {
        longest_valid(bytes, (n - 1) as nat)
    }
}

/// What is wrong with bytes that are not UTF-8.
pub open spec fn utf8_fault(bytes: Seq<u8>) -> Utf8Fault {
    Utf8Fault {
        valid_up_to: longest_valid(bytes, bytes.len()) as usize,
        error_len: utf8_error_len(bytes),
    }
}

impl Utf8Fault {
    /// The sentence that reports the fault.
    pub open spec fn text(self) -> Seq<char> {
        match self.error_len {
            Some(n) => "invalid utf-8 sequence of "@ + decimal(n as nat) + " bytes from index "@
                + decimal(self.valid_up_to as nat),
            None => "incomplete utf-8 byte sequence from index "@ + decimal(
                self.valid_up_to as nat,
            ),
        }
    }

    /// The sentence that reports the fault.
    pub fn message(&self) -> (r: String)
        ensures
            r@ == self.text(),
    {
        let place = decimal_text(self.valid_up_to as u64);
        match self.error_len {
            Some(n) => {
                let mut s = concat3(
                    "invalid utf-8 sequence of ",
                    decimal_text(n as u64).as_str(),
                    " bytes from index ",
                );
                s.append(place.as_str());
                s
            },
            None => concat2("incomplete utf-8 byte sequence from index ", place.as_str()),
        }
    }
}

/// `String::from_utf8`: the text that valid UTF-8 encodes. For other bytes the error tells
/// with `Utf8Error::valid_up_to` the size of the longest beginning that is UTF-8; how many
/// bytes `Utf8Error::error_len` finds wrong behind it is left to the name.
#[verifier::external_body]
pub(crate) fn read_utf8(bytes: Vec<u8>) -> (r: Result<String, Utf8Fault>)
    ensures
        match r {
            Ok(s) => valid_utf8(bytes@) && s@ == decode_utf8(bytes@),
            Err(e) => {
                &&& !valid_utf8(bytes@)
                &&& e.valid_up_to == longest_valid(bytes@, bytes@.len())
                &&& e.error_len == utf8_error_len(bytes@)
            },
        },
{
    String::from_utf8(bytes).map_err(
        |e|
            Utf8Fault {
                valid_up_to: e.utf8_error().valid_up_to(),
                error_len: e.utf8_error().error_len(),
            },
    )
}

/// The text that bytes encode, if they are UTF-8.
pub(crate) fn text_of_utf8(bytes: Vec<u8>) -> (r: Option<String>)
    ensures
        match r {
            Some(s) => valid_utf8(bytes@) && s@ == decode_utf8(bytes@),
            None => !valid_utf8(bytes@),
        },
{
    match read_utf8(bytes) {
        Ok(s) => Some(s),
        Err(_) => None,
    }
}

/// `String::from_utf8_lossy`: the text that valid UTF-8 encodes. Other bytes give
/// a text in which replacement characters stand for what is not UTF-8; how many,
/// and where, is left to the name.
#[verifier::external_body]
pub(crate) fn lossy_text(bytes: &[u8]) -> (r: String)
    ensures
        valid_utf8(bytes@) ==> r@ == decode_utf8(bytes@),
        !valid_utf8(bytes@) ==> r@ == utf8_replaced(bytes@),
{
    String::from_utf8_lossy(bytes).to_string()
}

/// What a list of strings holds.
pub open spec fn texts(v: Seq<String>) -> Seq<Seq<char>> {
    Seq::new(v.len(), |i: int| v[i]@)
}

/// Whether two byte strings are equal.
pub fn same_bytes(a: &[u8], b: &[u8]) -> (r: bool)
    ensures
        r == (a@ == b@),
{
    if a.len() != b.len() {
        return false;
    }
    let mut i: usize = 0;
    while i < a.len()
        invariant
            i <= a.len(),
            a.len() == b.len(),
            forall|j: int| 0 <= j < i ==> a@[j] == b@[j],
        decreases a.len() - i,
    {
        if a[i] != b[i] {
            return false;
        }
        i += 1;
    }
    assert(a@ =~= b@);
    true
}

/// Whether two texts are equal.
pub fn same_text(a: &str, b: &str) -> (r: bool)
    ensures
        r == (a@ == b@),
{
    proof {
        encode_utf8_decode_utf8(a@);
        encode_utf8_decode_utf8(b@);
    }
    same_bytes(a.as_bytes(), b.as_bytes())
}

/// The characters of a text, in order.
pub fn chars_of(s: &str) -> (r: Vec<char>)
    ensures
        r@ == s@,
{
    let mut v: Vec<char> = Vec::new();
    for c in it: s.chars()
        invariant
            v@ == s@.take(it.index()),
            it.seq() == s@,
    {
        v.push(c);
    }
    v
}

/// The text that a run of characters spells.
pub fn string_of(v: &[char]) -> (r: String)
    ensures
        r@ == v@,
{
    let mut s = String::new();
    for i in 0..v.len()
        invariant
            s@ == v@.take(i as int),
    {
        s.push(v[i]);
    }
    s
}

/// The part of `v` from `from` up to, but not including, `to`.
pub fn slice_text(v: &[char], from: usize, to: usize) -> (r: String)
    requires
        from <= to <= v.len(),
    ensures
        r@ == v@.subrange(from as int, to as int),
{
    string_of(slice_subrange(v, from, to))
}

/// A copy of a text.
pub fn copy_text(s: &str) -> (r: String)
    ensures
        r@ == s@,
{
    s.to_owned()
}

/// Copies of a list of texts.
pub fn copy_texts(v: &[String]) -> (r: Vec<String>)
    ensures
        texts(r@) == texts(v@),
{
    let mut out: Vec<String> = Vec::new();
    for i in 0..v.len()
        invariant
            texts(out@) == texts(v@).take(i as int),
    {
        let ghost before = texts(out@);
        out.push(copy_text(v[i].as_str()));
        assert(texts(out@) =~= before.push(texts(v@)[i as int]));
        assert(texts(v@).take(i + 1) =~= before.push(texts(v@)[i as int]));
    }
    assert(texts(v@).take(v@.len() as int) =~= texts(v@));
    out
}

/// `a` followed by `b`.
pub fn concat2(a: &str, b: &str) -> (r: String)
    ensures
        r@ == a@ + b@,
{
    let mut s = a.to_owned();
    s.append(b);
    s
}

/// `a`, `b` and `c`, one after the other.
pub fn concat3(a: &str, b: &str, c: &str) -> (r: String)
    ensures
        r@ == a@ + b@ + c@,
{
    let mut s = a.to_owned();
    s.append(b);
    s.append(c);
    s
}

// ---------------------------------------------------------------------------
// Prefixes, suffixes and parts
// ---------------------------------------------------------------------------

/// `p` stands in `s` at position `at`.
pub open spec fn stands_at(s: Seq<char>, p: Seq<char>, at: int) -> bool {
    0 <= at && at + p.len() <= s.len() && s.subrange(at, at + p.len()) == p
}

/// `s` begins with `p`.
pub open spec fn has_prefix(s: Seq<char>, p: Seq<char>) -> bool {
    stands_at(s, p, 0)
}

/// `s` ends with `p`.
pub open spec fn has_suffix(s: Seq<char>, p: Seq<char>) -> bool {
    stands_at(s, p, s.len() - p.len())
}

/// `p` occurs somewhere in `s`.
pub open spec fn has_part(s: Seq<char>, p: Seq<char>) -> bool {
    exists|at: int| #[trigger] stands_at(s, p, at)
}

fn chars_stand_at(s: &[char], p: &[char], at: usize) -> (r: bool)
    requires
        at + p.len() <= s.len(),
    ensures
        r == stands_at(s@, p@, at as int),
{
    let mut i: usize = 0;
    while i < p.len()
        invariant
            i <= p.len(),
            at + p.len() <= s.len(),
            forall|j: int| 0 <= j < i ==> s@[at + j] == p@[j],
        decreases p.len() - i,
    {
        if s[at + i] != p[i] {
            proof {
                assert(s@.subrange(at as int, at + p.len())[i as int] != p@[i as int]);
            }
            return false;
        }
        i += 1;
    }
    assert(s@.subrange(at as int, at + p.len()) =~= p@);
    true
}

/// Whether `s` begins with `p`.
pub fn starts_with(s: &str, p: &str) -> (r: bool)
    ensures
        r == has_prefix(s@, p@),
{
    let sv = chars_of(s);
    let pv = chars_of(p);
    pv.len() <= sv.len() && chars_stand_at(&sv, &pv, 0)
}

/// Whether `s` ends with `p`.
pub fn ends_with(s: &str, p: &str) -> (r: bool)
    ensures
        r == has_suffix(s@, p@),
{
    let sv = chars_of(s);
    let pv = chars_of(p);
    pv.len() <= sv.len() && chars_stand_at(&sv, &pv, sv.len() - pv.len())
}

/// Whether `p` occurs in `s`.
pub fn contains_text(s: &str, p: &str) -> (r: bool)
    ensures
        r == has_part(s@, p@),
{
    let sv = chars_of(s);
    let pv = chars_of(p);
    if pv.len() > sv.len() {
        return false;
    }
    let mut at: usize = 0;
    while at <= sv.len() - pv.len()
        invariant
            at <= sv.len() - pv.len() + 1,
            pv.len() <= sv.len(),
            sv@ == s@,
            pv@ == p@,
            forall|j: int| 0 <= j < at ==> !#[trigger] stands_at(s@, p@, j),
        decreases sv.len() + 1 - at,
    {
        if chars_stand_at(&sv, &pv, at) {
            return true;
        }
        if at == sv.len() - pv.len() {
            return false;
        }
        at += 1;
    }
    false
}

/// `s` without its first `n` characters.
pub fn skip_chars(s: &str, n: usize) -> (r: String)
    requires
        n <= s@.len(),
    ensures
        r@ == s@.skip(n as int),
{
    let v = chars_of(s);
    slice_text(&v, n, v.len())
}

/// The rest of `s` after `p`, when `s` begins with `p`.
pub fn strip_prefix(s: &str, p: &str) -> (r: Option<String>)
    ensures
        r is Some <==> has_prefix(s@, p@),
        r matches Some(t) ==> t@ == s@.skip(p@.len() as int),
{
    if starts_with(s, p) {
        let n: usize = p.unicode_len();
        Some(skip_chars(s, n))
    } else {
        None
    }
}

// ---------------------------------------------------------------------------
// Where a character stands
// ---------------------------------------------------------------------------

/// The place of the first `c` in `s`, or the length of `s` without one.
pub open spec fn first_of(s: Seq<char>, c: char) -> int
    decreases s.len(),
{
    if s.len() == 0 || s[0] == c {
        0
    } else {
        1 + first_of(s.drop_first(), c)
    }
}

/// The place of the last `c` in `s`, or -1 without one.
pub open spec fn last_of(s: Seq<char>, c: char) -> int
    decreases s.len(),
{
    if s.len() == 0 {
        -1
    } else if s.last() == c {
        s.len() - 1
    } else {
        last_of(s.drop_last(), c)
    }
}

/// The first `c` has no `c` before it; without one the place is the length.
pub proof fn first_of_is_first(s: Seq<char>, c: char)
    ensures
        0 <= first_of(s, c) <= s.len(),
        first_of(s, c) < s.len() ==> s[first_of(s, c)] == c,
        forall|i: int| 0 <= i < first_of(s, c) ==> s[i] != c,
    decreases s.len(),
{
    if s.len() > 0 && s[0] != c {
        let t = s.drop_first();
        first_of_is_first(t, c);
        assert forall|i: int| 0 <= i < first_of(s, c) implies s[i] != c by {
            if i > 0 {
                assert(s[i] == t[i - 1]);
            }
        }
        if first_of(s, c) < s.len() {
            assert(s[first_of(s, c)] == t[first_of(t, c)]);
        }
    }
}

/// The last `c` has no `c` after it; without one the place is -1.
pub proof fn last_of_is_last(s: Seq<char>, c: char)
    ensures
        -1 <= last_of(s, c) < s.len(),
        last_of(s, c) >= 0 ==> s[last_of(s, c)] == c,
        forall|i: int| last_of(s, c) < i < s.len() ==> s[i] != c,
    decreases s.len(),
{
    if s.len() > 0 && s.last() != c {
        last_of_is_last(s.drop_last(), c);
        assert forall|i: int| last_of(s, c) < i < s.len() implies s[i] != c by {
            if i < s.len() - 1 {
                assert(s[i] == s.drop_last()[i]);
            }
        }
    }
}

/// The place of the first `c` in `v`, or its length.
pub fn find_first(v: &[char], c: char) -> (r: usize)
    ensures
        r == first_of(v@, c),
{
    proof {
        first_of_is_first(v@, c);
    }
    let mut i: usize = 0;
    while i < v.len()
        invariant
            i <= v.len(),
            forall|j: int| 0 <= j < i ==> v@[j] != c,
            0 <= first_of(v@, c) <= v.len(),
            first_of(v@, c) < v.len() ==> v@[first_of(v@, c)] == c,
            forall|i: int| 0 <= i < first_of(v@, c) ==> v@[i] != c,
        decreases v.len() - i,
    {
        if v[i] == c {
            return i;
        }
        i += 1;
    }
    i
}

/// The place of the last `c` in `v`.
pub fn find_last(v: &[char], c: char) -> (r: Option<usize>)
    ensures
        match r {
            Some(i) => i == last_of(v@, c),
            None => last_of(v@, c) == -1,
        },
{
    proof {
        last_of_is_last(v@, c);
    }
    let mut i: usize = v.len();
    while i > 0
        invariant
            i <= v.len(),
            forall|j: int| i <= j < v.len() ==> v@[j] != c,
            -1 <= last_of(v@, c) < v.len(),
            last_of(v@, c) >= 0 ==> v@[last_of(v@, c)] == c,
            forall|i: int| last_of(v@, c) < i < v.len() ==> v@[i] != c,
        decreases i,
    {
        i -= 1;
        if v[i] == c {
            return Some(i);
        }
    }
    None
}

// ---------------------------------------------------------------------------
// White space
// ---------------------------------------------------------------------------

/// The characters with the Unicode property White_Space.
pub open spec fn is_white(c: char) -> bool {
    let n = c as u32;
    9 <= n <= 13 || n == 0x20 || n == 0x85 || n == 0xa0 || n == 0x1680 || 0x2000 <= n <= 0x200a
        || n == 0x2028 || n == 0x2029 || n == 0x202f || n == 0x205f || n == 0x3000
}

fn white(c: char) -> (r: bool)
    ensures
        r == is_white(c),
{
    let n: u32 = c as u32;
    (9 <= n && n <= 13) || n == 0x20 || n == 0x85 || n == 0xa0 || n == 0x1680 || (0x2000 <= n && n
        <= 0x200a) || n == 0x2028 || n == 0x2029 || n == 0x202f || n == 0x205f || n == 0x3000
}

/// `s` without the white space at its end.
pub open spec fn trimmed_end(s: Seq<char>) -> Seq<char>
    decreases s.len(),
{
    if s.len() > 0 && is_white(s.last()) {
        trimmed_end(s.drop_last())
    } else {
        s
    }
}

/// `s` without the white space at its beginning.
pub open spec fn trimmed_start(s: Seq<char>) -> Seq<char>
    decreases s.len(),
{
    if s.len() > 0 && is_white(s[0]) {
        trimmed_start(s.drop_first())
    } else {
        s
    }
}

/// `s` without the white space at its two ends.
pub open spec fn trimmed(s: Seq<char>) -> Seq<char> {
    trimmed_start(trimmed_end(s))
}

fn end_of_text(v: &[char]) -> (n: usize)
    ensures
        n <= v.len(),
        v@.take(n as int) == trimmed_end(v@),
{
    let mut n: usize = v.len();
    assert(v@.take(n as int) =~= v@);
    while n > 0 && white(v[n - 1])
        invariant
            n <= v.len(),
            trimmed_end(v@.take(n as int)) == trimmed_end(v@),
        ensures
            n <= v.len(),
            trimmed_end(v@.take(n as int)) == trimmed_end(v@),
            n == 0 || !is_white(v@[n - 1]),
        decreases n,
    {
        assert(v@.take(n as int).drop_last() =~= v@.take(n - 1));
        n -= 1;
    }
    n
}

/// `s` without the white space at its end.
pub fn trim_end(s: &str) -> (r: String)
    ensures
        r@ == trimmed_end(s@),
{
    let v = chars_of(s);
    let n: usize = end_of_text(&v);
    assert(v@.subrange(0, n as int) =~= v@.take(n as int));
    slice_text(&v, 0, n)
}

/// `s` without the white space at its two ends.
pub fn trim(s: &str) -> (r: String)
    ensures
        r@ == trimmed(s@),
{
    let v = chars_of(s);
    let n: usize = end_of_text(&v);
    let mut i: usize = 0;
    assert(v@.subrange(0, n as int) =~= v@.take(n as int));
    while i < n && white(v[i])
        invariant
            i <= n <= v.len(),
            trimmed_start(v@.subrange(i as int, n as int)) == trimmed(s@),
        ensures
            i <= n <= v.len(),
            trimmed_start(v@.subrange(i as int, n as int)) == trimmed(s@),
            i == n || !is_white(v@[i as int]),
        decreases n - i,
    {
        assert(v@.subrange(i as int, n as int).drop_first() =~= v@.subrange(i + 1, n as int));
        i += 1;
    }
    slice_text(&v, i, n)
}

/// `s` without the run of `c` at its end.
pub open spec fn trimmed_end_of(s: Seq<char>, c: char) -> Seq<char>
    decreases s.len(),
{
    if s.len() > 0 && s.last() == c {
        trimmed_end_of(s.drop_last(), c)
    } else {
        s
    }
}

/// `s` without the run of `c` at its beginning.
pub open spec fn trimmed_start_of(s: Seq<char>, c: char) -> Seq<char>
    decreases s.len(),
{
    if s.len() > 0 && s[0] == c {
        trimmed_start_of(s.drop_first(), c)
    } else {
        s
    }
}

/// `s` without the run of `c` at its end.
pub fn trim_end_of(s: &str, c: char) -> (r: String)
    ensures
        r@ == trimmed_end_of(s@, c),
{
    let v = chars_of(s);
    let mut n: usize = v.len();
    assert(v@.take(n as int) =~= v@);
    while n > 0 && v[n - 1] == c
        invariant
            n <= v.len(),
            trimmed_end_of(v@.take(n as int), c) == trimmed_end_of(s@, c),
        ensures
            n <= v.len(),
            trimmed_end_of(v@.take(n as int), c) == trimmed_end_of(s@, c),
            n == 0 || v@[n - 1] != c,
        decreases n,
    {
        assert(v@.take(n as int).drop_last() =~= v@.take(n - 1));
        n -= 1;
    }
    assert(v@.subrange(0, n as int) =~= v@.take(n as int));
    slice_text(&v, 0, n)
}

/// `s` without the run of `c` at its beginning.
pub fn trim_start_of(s: &str, c: char) -> (r: String)
    ensures
        r@ == trimmed_start_of(s@, c),
{
    let v = chars_of(s);
    let mut i: usize = 0;
    assert(v@.skip(0) =~= v@);
    while i < v.len() && v[i] == c
        invariant
            i <= v.len(),
            trimmed_start_of(v@.skip(i as int), c) == trimmed_start_of(s@, c),
        ensures
            i <= v.len(),
            trimmed_start_of(v@.skip(i as int), c) == trimmed_start_of(s@, c),
            i == v.len() || v@[i as int] != c,
        decreases v.len() - i,
    {
        assert(v@.skip(i as int).drop_first() =~= v@.skip(i + 1));
        i += 1;
    }
    assert(v@.subrange(i as int, v.len() as int) =~= v@.skip(i as int));
    slice_text(&v, i, v.len())
}

// ---------------------------------------------------------------------------
// Splitting and joining
// ---------------------------------------------------------------------------

/// The parts of `s` between the occurrences of `c`: one more than there are.
pub open spec fn split_parts(s: Seq<char>, c: char) -> Seq<Seq<char>>
    decreases s.len(),
{
    if s.len() == 0 {
        seq![Seq::empty()]
    } else {
        let parts = split_parts(s.drop_last(), c);
        if s.last() == c {
            parts.push(Seq::empty())
        } else {
            parts.drop_last().push(parts.last().push(s.last()))
        }
    }
}

/// There is always at least one part.
pub proof fn split_parts_not_empty(s: Seq<char>, c: char)
    ensures
        split_parts(s, c).len() > 0,
    decreases s.len(),
{
    if s.len() > 0 {
        split_parts_not_empty(s.drop_last(), c);
    }
}

/// The parts of `s` between the occurrences of `c`.
pub fn split(s: &str, c: char) -> (r: Vec<String>)
    ensures
        texts(r@) == split_parts(s@, c),
{
    let v = chars_of(s);
    let mut out: Vec<String> = Vec::new();
    let mut part = String::new();
    let mut i: usize = 0;
    assert(texts(out@).push(part@) =~= split_parts(v@.take(0), c));
    while i < v.len()
        invariant
            i <= v.len(),
            texts(out@).push(part@) == split_parts(v@.take(i as int), c),
        decreases v.len() - i,
    {
        assert(v@.take(i + 1).drop_last() =~= v@.take(i as int));
        let ghost before = texts(out@).push(part@);
        if v[i] == c {
            out.push(part);
            part = String::new();
            assert(texts(out@).push(part@) =~= before.push(Seq::empty()));
        } else {
            part.push(v[i]);
            assert(before.drop_last() =~= texts(out@));
        }
        i += 1;
    }
    assert(v@.take(i as int) =~= s@);
    let ghost done = texts(out@).push(part@);
    out.push(part);
    assert(texts(out@) =~= done);
    out
}

/// The words of `s`: its longest runs without white space.
pub open spec fn words(s: Seq<char>) -> Seq<Seq<char>>
    decreases s.len(),
{
    if s.len() == 0 {
        Seq::empty()
    } else {
        let before = words(s.drop_last());
        if is_white(s.last()) {
            before
        } else if s.len() == 1 || is_white(s[s.len() - 2]) || before.len() == 0 {
            before.push(seq![s.last()])
        } else {
            before.drop_last().push(before.last().push(s.last()))
        }
    }
}

/// The words of `s`.
pub fn split_words(s: &str) -> (r: Vec<String>)
    ensures
        texts(r@) == words(s@),
{
    let v = chars_of(s);
    let mut out: Vec<String> = Vec::new();
    let mut i: usize = 0;
    assert(texts(out@) =~= words(v@.take(0)));
    while i < v.len()
        invariant
            i <= v.len(),
            texts(out@) == words(v@.take(i as int)),
        decreases v.len() - i,
    {
        assert(v@.take(i + 1).drop_last() =~= v@.take(i as int));
        let ghost before = texts(out@);
        if !white(v[i]) {
            if i == 0 || white(v[i - 1]) || out.len() == 0 {
                let mut word = String::new();
                word.push(v[i]);
                out.push(word);
                assert(word@ =~= seq![v@[i as int]]);
                assert(texts(out@) =~= before.push(word@));
            } else {
                let word_opt = out.pop();
                let mut word = word_opt.unwrap();
                word.push(v[i]);
                assert(texts(out@) =~= before.drop_last());
                out.push(word);
                assert(texts(out@) =~= before.drop_last().push(word@));
            }
        }
        i += 1;
    }
    assert(v@.take(i as int) =~= s@);
    out
}

/// The texts of `v` with `sep` between them.
pub open spec fn joined(v: Seq<Seq<char>>, sep: Seq<char>) -> Seq<char>
    decreases v.len(),
{
    if v.len() == 0 {
        Seq::empty()
    } else if v.len() == 1 {
        v[0]
    } else {
        joined(v.drop_last(), sep) + sep + v.last()
    }
}

/// The texts of `v` with `sep` between them.
pub fn join(v: &[String], sep: &str) -> (r: String)
    ensures
        r@ == joined(texts(v@), sep@),
{
    let mut out = String::new();
    let mut i: usize = 0;
    assert(texts(v@).take(0) =~= Seq::<Seq<char>>::empty());
    while i < v.len()
        invariant
            i <= v.len(),
            out@ == joined(texts(v@).take(i as int), sep@),
        decreases v.len() - i,
    {
        assert(texts(v@).take(i + 1).drop_last() =~= texts(v@).take(i as int));
        let ghost before = out@;
        if i > 0 {
            out.append(sep);
        }
        out.append(v[i].as_str());
        if i == 0 {
            assert(out@ =~= v@[0]@);
        } else {
            assert(out@ =~= before + sep@ + v@[i as int]@);
        }
        i += 1;
    }
    assert(texts(v@).take(i as int) =~= texts(v@));
    out
}

/// A text without `c` is its only part.
pub proof fn undivided(s: Seq<char>, c: char)
    requires
        !s.contains(c),
    ensures
        split_parts(s, c) == seq![s],
    decreases s.len(),
{
    if s.len() == 0 {
        assert(s =~= Seq::<char>::empty());
    } else {
        assert(s[s.len() - 1] == s.last());
        assert forall|j: int| 0 <= j < s.len() - 1 implies s.drop_last()[j] != c by {
            assert(s[j] == s.drop_last()[j]);
        }
        undivided(s.drop_last(), c);
        assert(s.drop_last().push(s.last()) =~= s);
        assert(split_parts(s, c) =~= seq![s]);
    }
}

/// What follows a `c` and holds none is the last part.
proof fn last_part(a: Seq<char>, b: Seq<char>, c: char)
    requires
        !b.contains(c),
    ensures
        split_parts(a + seq![c] + b, c) == split_parts(a, c).push(b),
    decreases b.len(),
{
    let s = a + seq![c] + b;
    if b.len() == 0 {
        assert(s.drop_last() =~= a);
        assert(s.last() == c);
        assert(b =~= Seq::<char>::empty());
    } else {
        let d = b.drop_last();
        assert(s.drop_last() =~= a + seq![c] + d);
        assert(s.last() == b.last());
        assert(b[b.len() - 1] == b.last());
        assert forall|j: int| 0 <= j < d.len() implies d[j] != c by {
            assert(b[j] == d[j]);
        }
        last_part(a, d, c);
        assert(d.push(b.last()) =~= b);
        assert(split_parts(s, c) =~= split_parts(a, c).push(b));
    }
}

/// Texts that are joined with a character that none of them holds are its parts.
pub proof fn split_undoes_join(v: Seq<Seq<char>>, c: char)
    requires
        v.len() > 0,
        forall|i: int| 0 <= i < v.len() ==> !(#[trigger] v[i]).contains(c),
    ensures
        split_parts(joined(v, seq![c]), c) == v,
    decreases v.len(),
{
    if v.len() == 1 {
        undivided(v[0], c);
    } else {
        let before = v.drop_last();
        assert forall|i: int| 0 <= i < before.len() implies !(#[trigger] before[i]).contains(c) by {
            assert(before[i] == v[i]);
        }
        split_undoes_join(before, c);
        assert(v[v.len() - 1] == v.last());
        last_part(joined(before, seq![c]), v.last(), c);
        assert(before.push(v.last()) =~= v);
    }
    assert(split_parts(joined(v, seq![c]), c) =~= v);
}

/// The parts of two texts with the separator between them are those of the one, and then
/// those of the other.
pub proof fn parts_of_two(a: Seq<char>, b: Seq<char>, c: char)
    ensures
        split_parts(a + seq![c] + b, c) == split_parts(a, c) + split_parts(b, c),
    decreases b.len(),
{
    let s = a + seq![c] + b;
    if b.len() == 0 {
        assert(s.drop_last() =~= a);
        assert(s.last() == c);
        assert(split_parts(s, c) =~= split_parts(a, c) + split_parts(b, c));
    } else {
        let d = b.drop_last();
        parts_of_two(a, d, c);
        split_parts_not_empty(d, c);
        assert(s.drop_last() =~= a + seq![c] + d);
        assert(s.last() == b.last());
        let before = split_parts(a, c) + split_parts(d, c);
        assert(before.drop_last() =~= split_parts(a, c) + split_parts(d, c).drop_last());
        assert(before.last() == split_parts(d, c).last());
        assert(split_parts(s, c) =~= split_parts(a, c) + split_parts(b, c));
    }
}

/// A text holds no white space.
pub open spec fn without_white(s: Seq<char>) -> bool {
    forall|i: int| 0 <= i < s.len() ==> !is_white(#[trigger] s[i])
}

/// A text without white space, if it is not empty, is one word.
proof fn one_word(s: Seq<char>)
    requires
        s.len() > 0,
        without_white(s),
    ensures
        words(s) == seq![s],
    decreases s.len(),
{
    let d = s.drop_last();
    assert(s.last() == s[s.len() - 1]);
    if s.len() == 1 {
        assert(d =~= Seq::<char>::empty());
        assert(words(d) =~= Seq::<Seq<char>>::empty());
        assert(words(s) =~= seq![s]) by {
            assert(seq![s.last()] =~= s);
        }
    } else {
        assert forall|i: int| 0 <= i < d.len() implies !is_white(#[trigger] d[i]) by {
            assert(d[i] == s[i]);
        }
        one_word(d);
        assert(d.push(s.last()) =~= s);
        assert(words(s) =~= seq![s]);
    }
}

/// What follows a blank and holds no white space is the last word.
proof fn last_word(a: Seq<char>, b: Seq<char>)
    requires
        b.len() > 0,
        without_white(b),
    ensures
        words(a + seq![' '] + b) == words(a).push(b),
    decreases b.len(),
{
    let s = a + seq![' '] + b;
    let d = b.drop_last();
    assert(b.last() == b[b.len() - 1]);
    assert(s.last() == b.last());
    if b.len() == 1 {
        assert(s.drop_last() =~= a.push(' '));
        assert(a.push(' ').drop_last() =~= a);
        assert(words(a.push(' ')) == words(a));
        assert(s[s.len() - 2] == ' ');
        assert(seq![b.last()] =~= b);
    } else {
        assert forall|i: int| 0 <= i < d.len() implies !is_white(#[trigger] d[i]) by {
            assert(d[i] == b[i]);
        }
        last_word(a, d);
        assert(s.drop_last() =~= a + seq![' '] + d);
        assert(s[s.len() - 2] == b[b.len() - 2]);
        assert(d.push(b.last()) =~= b);
        assert(words(a).push(d).drop_last() =~= words(a));
        assert(words(s) =~= words(a).push(b));
    }
}

/// Texts that are not empty and hold no white space are the words of the text that they make
/// with a blank between them.
pub proof fn words_undo_join(v: Seq<Seq<char>>)
    requires
        forall|i: int|
            0 <= i < v.len() ==> (#[trigger] v[i]).len() > 0 && without_white(v[i]),
    ensures
        words(joined(v, seq![' '])) == v,
    decreases v.len(),
{
    if v.len() == 0 {
        assert(v =~= Seq::<Seq<char>>::empty());
    } else if v.len() == 1 {
        one_word(v[0]);
        assert(seq![v[0]] =~= v);
    } else {
        let before = v.drop_last();
        assert forall|i: int| 0 <= i < before.len() implies (#[trigger] before[i]).len() > 0
            && without_white(before[i]) by {
            assert(before[i] == v[i]);
        }
        words_undo_join(before);
        assert(v.last() == v[v.len() - 1]);
        last_word(joined(before, seq![' ']), v.last());
        assert(before.push(v.last()) =~= v);
    }
}

proof fn trimmed_end_ends(s: Seq<char>)
    ensures
        trimmed_end(s).len() <= s.len(),
        trimmed_end(s) == s.take(trimmed_end(s).len() as int),
        trimmed_end(s).len() > 0 ==> !is_white(trimmed_end(s).last()),
        forall|i: int| trimmed_end(s).len() <= i < s.len() ==> is_white(#[trigger] s[i]),
    decreases s.len(),
{
    if s.len() > 0 && is_white(s.last()) {
        let d = s.drop_last();
        trimmed_end_ends(d);
        let n = trimmed_end(s).len() as int;
        assert(d.take(n) =~= s.take(n));
        assert forall|i: int| n <= i < s.len() implies is_white(#[trigger] s[i]) by {
            if i < d.len() {
                assert(s[i] == d[i]);
            }
        }
    } else {
        assert(s.take(s.len() as int) =~= s);
    }
}

proof fn trimmed_start_starts(s: Seq<char>)
    ensures
        trimmed_start(s).len() <= s.len(),
        trimmed_start(s) == s.skip(s.len() - trimmed_start(s).len()),
        trimmed_start(s).len() > 0 ==> !is_white(trimmed_start(s)[0]),
        forall|i: int| 0 <= i < s.len() - trimmed_start(s).len() ==> is_white(#[trigger] s[i]),
    decreases s.len(),
{
    if s.len() > 0 && is_white(s[0]) {
        let d = s.drop_first();
        trimmed_start_starts(d);
        let n = s.len() - trimmed_start(s).len();
        assert(d.skip(n - 1) =~= s.skip(n));
        assert forall|i: int| 0 <= i < n implies is_white(#[trigger] s[i]) by {
            if i > 0 {
                assert(s[i] == d[i - 1]);
            }
        }
    } else {
        assert(s.skip(0) =~= s);
    }
}

/// What is left of a text without the white space at its ends stands in the text, begins and
/// ends with something else, and nothing but white space stands before and behind it. A text
/// that begins and ends with something else is kept.
pub proof fn trimmed_is_inside(s: Seq<char>)
    ensures
        exists|a: int, b: int|
            0 <= a <= b <= s.len() && trimmed(s) == #[trigger] s.subrange(a, b) && (forall|i: int|
                0 <= i < a || b <= i < s.len() ==> is_white(#[trigger] s[i])),
        trimmed(s).len() > 0 ==> !is_white(trimmed(s)[0]) && !is_white(trimmed(s).last()),
        s.len() > 0 && !is_white(s[0]) && !is_white(s.last()) ==> trimmed(s) == s,
{
    let e = trimmed_end(s);
    let t = trimmed(s);
    trimmed_end_ends(s);
    trimmed_start_starts(e);
    let a = e.len() - t.len();
    let b = e.len() as int;
    assert(t =~= s.subrange(a, b));
    assert forall|i: int| 0 <= i < a || b <= i < s.len() implies is_white(#[trigger] s[i]) by {
        if i < a {
            assert(s[i] == e[i]);
        }
    }
    if t.len() > 0 {
        assert(t.last() == e.last());
    }
}

// ---------------------------------------------------------------------------
// Letter case
// ---------------------------------------------------------------------------

/// The small letter for a capital ASCII letter; any other character is kept.
pub open spec fn small(c: char) -> char {
    if 'A' <= c && c <= 'Z' {
        (c as u32 + 32) as char
    } else {
        c
    }
}

/// `s` with its ASCII letters small.
pub open spec fn lowered(s: Seq<char>) -> Seq<char> {
    s.map_values(|c: char| small(c))
}

fn small_char(c: char) -> (r: char)
    ensures
        r == small(c),
{
    if 'A' <= c && c <= 'Z' {
        let b: u8 = c as u8;
        (b + 32) as char
    } else {
        c
    }
}

/// `s` with its ASCII letters small.
pub fn to_ascii_lowercase(s: &str) -> (r: String)
    ensures
        r@ == lowered(s@),
{
    let v = chars_of(s);
    let mut out = String::new();
    for i in 0..v.len()
        invariant
            v@ == s@,
            out@ == lowered(s@).take(i as int),
    {
        out.push(small_char(v[i]));
    }
    out
}

// ---------------------------------------------------------------------------
// Decimal numbers
// ---------------------------------------------------------------------------

/// The digit character of a number below ten.
pub open spec fn digit(d: nat) -> char {
    (48 + d) as char
}

/// A number in decimal digits, without leading zeros.
pub open spec fn decimal(n: nat) -> Seq<char>
    decreases n,
{
    if n < 10 {
        seq![digit(n)]
    } else {
        decimal(n / 10).push(digit(n % 10))
    }
}

/// The digit character of a number below ten.
pub fn digit_char(d: u8) -> (c: char)
    requires
        d < 10,
    ensures
        c == digit(d as nat),
{
    (48 + d) as char
}

fn push_decimal(s: &mut String, n: u64)
    ensures
        final(s)@ == old(s)@ + decimal(n as nat),
    decreases n,
{
    if n >= 10 {
        push_decimal(s, n / 10);
    }
    s.push(digit_char((n % 10) as u8));
    assert(s@ =~= old(s)@ + decimal(n as nat));
}

/// A number in decimal digits.
pub fn decimal_text(n: u64) -> (r: String)
    ensures
        r@ == decimal(n as nat),
{
    let mut s = String::new();
    push_decimal(&mut s, n);
    assert(s@ =~= decimal(n as nat));
    s
}

/// `c` is one of the ten decimal digits.
pub open spec fn is_digit(c: char) -> bool {
    '0' <= c && c <= '9'
}

/// Every character of `s` is a decimal digit.
pub open spec fn all_digits(s: Seq<char>) -> bool {
    forall|i: int| 0 <= i < s.len() ==> is_digit(#[trigger] s[i])
}

/// The number that a run of digits denotes.
pub open spec fn digits_value(s: Seq<char>) -> nat
    decreases s.len(),
{
    if s.len() == 0 {
        0
    } else {
        digits_value(s.drop_last()) * 10 + (s.last() as nat - 48) as nat
    }
}

/// The number that a text denotes as an unsigned integer: digits, with an
/// optional plus sign before them.
pub open spec fn unsigned_value(s: Seq<char>) -> Option<nat> {
    let digits = if s.len() > 0 && s[0] == '+' {
        s.drop_first()
    } else {
        s
    };
    if digits.len() > 0 && all_digits(digits) {
        Some(digits_value(digits))
    } else {
        None
    }
}

/// The number that a text denotes, if it is an unsigned integer up to `max`.
pub open spec fn parsed_up_to(s: Seq<char>, max: nat) -> Option<nat> {
    match unsigned_value(s) {
        Some(n) => if n <= max {
            Some(n)
        } else {
            None
        },
        None => None,
    }
}

proof fn digits_value_grows(s: Seq<char>, k: int)
    requires
        0 <= k <= s.len(),
        all_digits(s),
    ensures
        digits_value(s.take(k)) <= digits_value(s),
    decreases s.len(),
{
    if k == s.len() {
        assert(s.take(k) =~= s);
    } else {
        let t = s.drop_last();
        assert(t.take(k) =~= s.take(k));
        assert(all_digits(t));
        digits_value_grows(t, k);
        assert(is_digit(s.last()));
    }
}

/// The number up to `max` that `v` denotes from position `from` on.
fn parse_digits(v: &[char], from: usize, max: u64) -> (r: Option<u64>)
    requires
        from <= v.len(),
    ensures
        ({
            let digits = v@.skip(from as int);
            match r {
                Some(n) => digits.len() > 0 && all_digits(digits) && digits_value(digits) == n && n
                    <= max,
                None => digits.len() == 0 || !all_digits(digits) || digits_value(digits) > max,
            }
        }),
{
    if from == v.len() {
        return None;
    }
    let ghost digits = v@.skip(from as int);
    let mut n: u64 = 0;
    let mut i: usize = from;
    assert(digits.take(0) =~= Seq::<char>::empty());
    while i < v.len()
        invariant
            from <= i <= v.len(),
            digits == v@.skip(from as int),
            n <= max,
            digits_value(digits.take(i - from)) == n,
            forall|j: int| 0 <= j < i - from ==> is_digit(#[trigger] digits[j]),
        decreases v.len() - i,
    {
        let c: char = v[i];
        assert(digits[i - from] == c);
        if !('0' <= c && c <= '9') {
            assert(!is_digit(digits[i - from]));
            return None;
        }
        let d: u64 = c as u64 - 48;
        let ghost next = digits.take(i - from + 1);
        assert(next.drop_last() =~= digits.take(i - from));
        assert(digits_value(next) == n * 10 + d);
        if d > max || n > max / 10 || n * 10 > max - d {
            proof {
                assert(n * 10 + d > max);
                if all_digits(digits) {
                    digits_value_grows(digits, i - from + 1);
                }
            }
            return None;
        }
        n = n * 10 + d;
        i += 1;
    }
    assert(digits.take(i - from) =~= digits);
    Some(n)
}

/// The number that a text denotes, if it is an unsigned integer up to `max`.
pub fn parse_up_to(s: &str, max: u64) -> (r: Option<u64>)
    ensures
        match r {
            Some(n) => parsed_up_to(s@, max as nat) == Some(n as nat),
            None => parsed_up_to(s@, max as nat) is None,
        },
{
    let v = chars_of(s);
    if v.len() > 0 && v[0] == '+' {
        assert(v@.skip(1) =~= s@.drop_first());
        parse_digits(&v, 1, max)
    } else {
        assert(v@.skip(0) =~= s@);
        parse_digits(&v, 0, max)
    }
}

/// The digits of a number denote that number.
pub proof fn decimal_denotes(n: nat)
    ensures
        unsigned_value(decimal(n)) == Some(n),
        decimal(n).len() > 0,
        all_digits(decimal(n)),
        digits_value(decimal(n)) == n,
    decreases n,
{
    if n < 10 {
        assert(decimal(n).drop_last() =~= Seq::<char>::empty());
        assert(digits_value(Seq::<char>::empty()) == 0);
        assert(digits_value(decimal(n)) == n);
    } else {
        decimal_denotes(n / 10);
        assert(decimal(n).drop_last() =~= decimal(n / 10));
        assert(is_digit(decimal(n)[0])) by {
            assert(decimal(n)[0] == decimal(n / 10)[0]);
        }
    }
    assert(is_digit(decimal(n)[0]));
}

/// Where a character follows a text that does not hold it, it stands there first.
pub proof fn first_after(a: Seq<char>, b: Seq<char>, c: char)
    requires
        !a.contains(c),
    ensures
        first_of(a + seq![c] + b, c) == a.len(),
        (a + seq![c] + b).take(a.len() as int) == a,
        (a + seq![c] + b).skip(a.len() as int + 1) == b,
{
    let s = a + seq![c] + b;
    let n = first_of(s, c);
    first_of_is_first(s, c);
    assert(s[a.len() as int] == c);
    if n < a.len() {
        assert(a[n] == s[n]);
        assert(a.contains(a[n]));
    }
    assert(s.take(a.len() as int) =~= a);
    assert(s.skip(a.len() as int + 1) =~= b);
}

/// Nothing is trimmed off a number, and it is read as itself.
pub proof fn trimmed_number(n: nat)
    ensures
        trimmed(decimal(n)) == decimal(n),
        unsigned_value(decimal(n)) == Some(n),
{
    decimal_denotes(n);
    let s = decimal(n);
    assert(is_digit(s[0]) && is_digit(s.last()));
    assert(trimmed_end(s) == s);
    assert(trimmed_start(s) == s);
}

/// How long a number is, up to five digits; a number does not begin with a zero unless it is
/// zero.
pub proof fn decimal_length(n: nat)
    ensures
        decimal(n).len() <= 3 <==> n < 1000,
        decimal(n).len() <= 5 <==> n < 100000,
        decimal(n).len() == 1 <==> n < 10,
        n > 0 ==> decimal(n)[0] != '0',
    decreases n,
{
    reveal_with_fuel(decimal, 6);
    if n >= 10 {
        decimal_length(n / 10);
        assert(decimal(n)[0] == decimal(n / 10)[0]) by {
            decimal_denotes(n / 10);
        }
    }
}

/// The last mark before a part that holds none is found, and what stands on both sides of it.
pub proof fn last_before(a: Seq<char>, b: Seq<char>, c: char)
    requires
        !b.contains(c),
    ensures
        last_of(a + seq![c] + b, c) == a.len(),
        (a + seq![c] + b).take(a.len() as int) == a,
        (a + seq![c] + b).skip(a.len() as int + 1) == b,
{
    let s = a + seq![c] + b;
    let n = last_of(s, c);
    last_of_is_last(s, c);
    assert(s[a.len() as int] == c);
    if n > a.len() {
        assert(b[n - a.len() - 1] == s[n]);
        assert(b.contains(b[n - a.len() - 1]));
    }
    assert(s.take(a.len() as int) =~= a);
    assert(s.skip(a.len() as int + 1) =~= b);
}

/// A text begins with its first part and ends with its last.
pub proof fn first_and_last_part(s: Seq<char>, c: char)
    ensures
        split_parts(s, c).len() > 0,
        split_parts(s, c)[0].len() > 0 ==> s.len() > 0 && s[0] == split_parts(s, c)[0][0],
        split_parts(s, c).last().len() > 0 ==> s.len() > 0 && s.last() == split_parts(
            s,
            c,
        ).last().last(),
    decreases s.len(),
{
    if s.len() > 0 {
        first_and_last_part(s.drop_last(), c);
        let before = split_parts(s.drop_last(), c);
        if s.len() == 1 {
            assert(before =~= seq![Seq::<char>::empty()]);
        } else {
            assert(s.drop_last()[0] == s[0]);
        }
        if before.len() > 1 {
            assert(split_parts(s, c)[0] == before[0]);
        }
        first_part_of_longer(s, c);
    }
}

proof fn first_part_of_longer(s: Seq<char>, c: char)
    requires
        s.len() > 0,
    ensures
        split_parts(s, c)[0].len() > 0 ==> s[0] == split_parts(s, c)[0][0],
    decreases s.len(),
{
    let before = split_parts(s.drop_last(), c);
    split_parts_not_empty(s.drop_last(), c);
    if s.len() > 1 {
        first_part_of_longer(s.drop_last(), c);
        assert(s.drop_last()[0] == s[0]);
        if before[0].len() == 0 && before.len() == 1 {
            empty_part_is_all(s.drop_last(), c);
        }
    } else {
        assert(s.drop_last() =~= Seq::<char>::empty());
        assert(before =~= seq![Seq::<char>::empty()]);
    }
}

proof fn empty_part_is_all(s: Seq<char>, c: char)
    requires
        split_parts(s, c).len() == 1,
    ensures
        split_parts(s, c)[0] == s,
    decreases s.len(),
{
    if s.len() > 0 {
        split_parts_not_empty(s.drop_last(), c);
        empty_part_is_all(s.drop_last(), c);
        assert(s =~= s.drop_last().push(s.last()));
    } else {
        assert(s =~= Seq::<char>::empty());
    }
}

/// Capital letters become small ones, and nothing else changes.
pub proof fn capitals_become_small(s: Seq<char>, i: int)
    requires
        0 <= i < s.len(),
    ensures
        lowered(s).len() == s.len(),
        !('A' <= s[i] && s[i] <= 'Z') ==> lowered(s)[i] == s[i],
        'A' <= s[i] && s[i] <= 'Z' ==> 'a' <= lowered(s)[i] && lowered(s)[i] <= 'z' && lowered(
            s,
        )[i] as u32 - 'a' as u32 == s[i] as u32 - 'A' as u32,
{
}

/// A run of a character at the beginning or at the end is taken off whole, and nothing more.
pub proof fn runs_are_taken_off(s: Seq<char>, c: char, n: nat)
    requires
        s.len() > 0,
        s[0] != c,
        s.last() != c,
    ensures
        trimmed_start_of(Seq::new(n, |i: int| c) + s, c) == s,
        trimmed_end_of(s + Seq::new(n, |i: int| c), c) == s,
        trimmed_end_of(trimmed_start_of(s, c), c) == s,
    decreases n,
{
    let run = Seq::new(n, |i: int| c);
    if n > 0 {
        runs_are_taken_off(s, c, (n - 1) as nat);
        let less = Seq::new((n - 1) as nat, |i: int| c);
        assert((run + s).drop_first() =~= less + s);
        assert((s + run).drop_last() =~= s + less);
        assert((run + s)[0] == c);
        assert((s + run).last() == c);
    } else {
        assert(run + s =~= s);
        assert(s + run =~= s);
    }
}

} // verus!
