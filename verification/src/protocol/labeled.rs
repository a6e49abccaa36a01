//! Labeled values in a text: a label padded to sixteen characters, the length of
//! the value in bytes padded to sixteen characters, the value.

use crate::protocol::bytes::copy_range;
use crate::text;
use crate::text::{copy_text, decimal_text, parse_up_to, same_text, text_of_utf8, trim_end};
use vstd::prelude::*;
use vstd::slice::slice_subrange;
use vstd::utf8::*;

verus! {

/// A label and its value.
pub struct LabeledView {
    pub label: Seq<char>,
    pub value: Seq<char>,
}

/// A label and its value.
#[derive(Debug, PartialEq, Eq)]
pub struct Labeled {
    pub label: String,
    pub value: String,
}

impl View for Labeled {
    type V = LabeledView;

    open spec fn view(&self) -> LabeledView {
        LabeledView { label: self.label@, value: self.value@ }
    }
}

/// What a list of labeled values holds.
pub open spec fn labeled_views(v: Seq<Labeled>) -> Seq<LabeledView> {
    Seq::new(v.len(), |i: int| v[i]@)
}

/// `n` blanks.
pub open spec fn blanks(n: nat) -> Seq<char> {
    Seq::new(n, |i: int| ' ')
}

/// A text with blanks after it, up to sixteen characters; a longer text is kept.
pub open spec fn padded(s: Seq<char>) -> Seq<char> {
    if s.len() < 16 {
        s + blanks((16 - s.len()) as nat)
    } else {
        s
    }
}

/// A label and its value, written.
pub open spec fn labeled(label: Seq<char>, value: Seq<char>) -> Seq<char> {
    padded(label) + padded(text::decimal(encode_utf8(value).len())) + value
}

fn push_padded(out: &mut String, s: &str)
    ensures
        final(out)@ == old(out)@ + padded(s@),
{
    let ghost before = out@;
    out.append(s);
    let n: usize = s.unicode_len();
    let mut i: usize = n;
    assert(out@ =~= before + s@ + blanks(0));
    while i < 16
        invariant
            n <= i,
            n == s@.len(),
            i <= 16 || i == n,
            out@ == before + s@ + blanks((i - n) as nat),
        decreases 16 - i,
    {
        out.push(' ');
        assert(out@ =~= before + s@ + blanks((i + 1 - n) as nat));
        i += 1;
    }
    assert(out@ =~= before + padded(s@));
}

/// Writes a label and its value.
pub fn make_tlv(label: &str, value: &str) -> (r: String)
    ensures
        r@ == labeled(label@, value@),
{
    let mut out = String::new();
    push_padded(&mut out, label);
    push_padded(&mut out, decimal_text(value.as_bytes().len() as u64).as_str());
    out.append(value);
    assert(out@ =~= labeled(label@, value@));
    out
}

/// What stands at a place of a text.
pub enum Step {
    /// No further labeled value.
    End,
    /// A part whose borders lie within a character.
    Cut,
    /// A labeled value, and where the next begins.
    Found { entry: LabeledView, next: int },
}

/// The labeled value at a place of the bytes of a text.
pub open spec fn step_at(b: Seq<u8>, at: int) -> Step {
    if b.len() - at < 32 {
        Step::End
    } else if !valid_utf8(b.subrange(at, at + 16)) || !valid_utf8(b.subrange(at + 16, at + 32)) {
        Step::Cut
    } else {
        match text::unsigned_value(text::trimmed_end(decode_utf8(b.subrange(at + 16, at + 32)))) {
            None => Step::End,
            Some(n) => if b.len() - (at + 32) < n {
                Step::End
            } else if !valid_utf8(b.subrange(at + 32, at + 32 + n)) {
                Step::Cut
            } else {
                Step::Found {
                    entry: LabeledView {
                        label: text::trimmed_end(decode_utf8(b.subrange(at, at + 16))),
                        value: decode_utf8(b.subrange(at + 32, at + 32 + n)),
                    },
                    next: at + 32 + n,
                }
            },
        }
    }
}

/// The labeled values from a place on. The first part that is none ends them.
pub open spec fn entries_from(b: Seq<u8>, at: int) -> Seq<LabeledView>
    decreases b.len() - at,
{
    match step_at(b, at) {
        Step::Found { entry, next } => if at < next <= b.len() {
            seq![entry] + entries_from(b, next)
        } else {
            Seq::empty()
        },
        _ => Seq::empty(),
    }
}

/// Every part from a place on begins and ends between two characters.
pub open spec fn readable_from(b: Seq<u8>, at: int) -> bool
    decreases b.len() - at,
{
    match step_at(b, at) {
        Step::Found { entry, next } => if at < next <= b.len() {
            readable_from(b, next)
        } else {
            true
        },
        Step::Cut => false,
        Step::End => true,
    }
}

/// Every part of a text begins and ends between two characters.
pub open spec fn tlv_readable(s: Seq<char>) -> bool {
    readable_from(encode_utf8(s), 0)
}

/// The labeled values in a text.
pub open spec fn entries_of(s: Seq<char>) -> Seq<LabeledView> {
    entries_from(encode_utf8(s), 0)
}

/// The value of the last entry with a label.
pub open spec fn value_of(entries: Seq<LabeledView>, label: Seq<char>) -> Option<Seq<char>>
    decreases entries.len(),
{
    if entries.len() == 0 {
        None
    } else if entries.last().label == label {
        Some(entries.last().value)
    } else {
        value_of(entries.drop_last(), label)
    }
}

enum Read {
    End,
    Cut,
    Found(Labeled, usize),
}

fn read_step(b: &[u8], at: usize) -> (r: Read)
    requires
        at <= b.len(),
    ensures
        match (r, step_at(b@, at as int)) {
            (Read::End, Step::End) => true,
            (Read::Cut, Step::Cut) => true,
            (Read::Found(l, n), Step::Found { entry, next }) => l@ == entry && n == next && at < n
                <= b.len(),
            _ => false,
        },
{
    if b.len() - at < 32 {
        return Read::End;
    }
    let label = text_of_utf8(copy_range(b, at, at + 16));
    let length = text_of_utf8(copy_range(b, at + 16, at + 32));
    match (label, length) {
        (Some(label), Some(length)) => {
            let rest: usize = b.len() - (at + 32);
            match parse_up_to(trim_end(length.as_str()).as_str(), rest as u64) {
                None => Read::End,
                Some(n) => {
                    let next: usize = at + 32 + n as usize;
                    match text_of_utf8(copy_range(b, at + 32, next)) {
                        None => Read::Cut,
                        Some(value) => Read::Found(
                            Labeled { label: trim_end(label.as_str()), value },
                            next,
                        ),
                    }
                },
            }
        },
        _ => Read::Cut,
    }
}

/// Whether every part of a text begins and ends between two characters, which
/// [`parse_tlv`] asks for.
pub fn check_tlv(tlv: &str) -> (r: bool)
    ensures
        r == tlv_readable(tlv@),
{
    let b = tlv.as_bytes();
    let mut at: usize = 0;
    loop
        invariant
            at <= b.len(),
            b@ == encode_utf8(tlv@),
            readable_from(b@, 0) == readable_from(b@, at as int),
        decreases b.len() - at,
    {
        match read_step(b, at) {
            Read::End => {
                return true;
            },
            Read::Cut => {
                return false;
            },
            Read::Found(_, next) => {
                at = next;
            },
        }
    }
}

/// The labeled values in a text.
pub fn parse_tlv(tlv: &str) -> (r: Vec<Labeled>)
    requires
        tlv_readable(tlv@),
    ensures
        labeled_views(r@) == entries_of(tlv@),
{
    let b = tlv.as_bytes();
    let mut out: Vec<Labeled> = Vec::new();
    let mut at: usize = 0;
    assert(labeled_views(out@) + entries_from(b@, 0) =~= entries_from(b@, 0));
    loop
        invariant
            at <= b.len(),
            b@ == encode_utf8(tlv@),
            labeled_views(out@) + entries_from(b@, at as int) == entries_of(tlv@),
        decreases b.len() - at,
    {
        match read_step(b, at) {
            Read::Found(l, next) => {
                let ghost before = labeled_views(out@);
                let ghost rest = entries_from(b@, next as int);
                out.push(l);
                assert(labeled_views(out@) =~= before.push(l@));
                assert(labeled_views(out@) + rest =~= before + (seq![l@] + rest));
                at = next;
            },
            _ => {
                assert(labeled_views(out@) + Seq::<LabeledView>::empty() =~= labeled_views(out@));
                return out;
            },
        }
    }
}

/// The value of the last entry with a label.
pub fn get_value(entries: &[Labeled], label: &str) -> (r: Option<String>)
    ensures
        match r {
            Some(v) => value_of(labeled_views(entries@), label@) == Some(v@),
            None => value_of(labeled_views(entries@), label@) is None,
        },
{
    let mut i: usize = entries.len();
    let ghost views = labeled_views(entries@);
    assert(views.take(i as int) =~= views);
    while i > 0
        invariant
            i <= entries.len(),
            views == labeled_views(entries@),
            value_of(views, label@) == value_of(views.take(i as int), label@),
        decreases i,
    {
        assert(views.take(i as int).drop_last() =~= views.take(i - 1));
        i -= 1;
        if same_text(entries[i].label.as_str(), label) {
            return Some(copy_text(entries[i].value.as_str()));
        }
    }
    None
}

// ---------------------------------------------------------------------------
// What is written is read back
// ---------------------------------------------------------------------------

/// The bytes of two texts, one after the other.
pub proof fn encode_of_concat(a: Seq<char>, b: Seq<char>)
    ensures
        encode_utf8(a + b) == encode_utf8(a) + encode_utf8(b),
    decreases a.len(),
{
    if a.len() == 0 {
        assert(a + b =~= b);
        assert(encode_utf8(a) + encode_utf8(b) =~= encode_utf8(b));
    } else {
        let rest = a.drop_first();
        encode_of_concat(rest, b);
        assert((a + b).drop_first() =~= rest + b);
        assert(encode_utf8(a + b) =~= encode_utf8(a) + encode_utf8(b));
    }
}

/// Decimal digits take one byte each, and a number below 10^16 at most sixteen.
proof fn decimal_length(n: nat, k: nat)
    requires
        k > 0,
        n < pow10(k),
    ensures
        0 < text::decimal(n).len() <= k,
    decreases k,
{
    if n >= 10 {
        assert(pow10(1) == 10) by {
            reveal_with_fuel(pow10, 2);
        }
        assert(n / 10 < pow10((k - 1) as nat));
        decimal_length(n / 10, (k - 1) as nat);
    }
}

/// The powers of ten.
pub open spec fn pow10(k: nat) -> nat
    decreases k,
{
    if k == 0 {
        1
    } else {
        10 * pow10((k - 1) as nat)
    }
}

proof fn trimmed_end_of_padded(s: Seq<char>)
    requires
        s.len() <= 16,
        s.len() > 0 ==> !text::is_white(s.last()),
    ensures
        text::trimmed_end(padded(s)) == s,
    decreases 16 - s.len(),
{
    if s.len() < 16 {
        trimmed_end_blanks(s, (16 - s.len()) as nat);
    }
}

proof fn trimmed_end_blanks(s: Seq<char>, n: nat)
    requires
        s.len() > 0 ==> !text::is_white(s.last()),
    ensures
        text::trimmed_end(s + blanks(n)) == s,
    decreases n,
{
    if n == 0 {
        assert(s + blanks(0) =~= s);
    } else {
        let t = s + blanks(n);
        assert(t.last() == ' ');
        assert(t.drop_last() =~= s + blanks((n - 1) as nat));
        trimmed_end_blanks(s, (n - 1) as nat);
    }
}

proof fn padded_bytes(s: Seq<char>)
    requires
        is_ascii_chars(s),
        s.len() <= 16,
    ensures
        encode_utf8(padded(s)).len() == 16,
        is_ascii_chars(padded(s)),
{
    let p = padded(s);
    assert forall|i: int| 0 <= i < p.len() implies 0 <= #[trigger] p[i] as nat <= 127 by {
        if i < s.len() {
            assert(p[i] == s[i]);
        }
    }
    is_ascii_chars_encode_utf8(p);
}

/// A label that can be read back: at most sixteen ASCII characters, of which the last
/// is no white space.
pub open spec fn plain_label(s: Seq<char>) -> bool {
    is_ascii_chars(s) && s.len() <= 16 && (s.len() > 0 ==> !text::is_white(s.last()))
}

/// A labeled value is read back, whatever text follows it.
pub proof fn labeled_read_back(label: Seq<char>, value: Seq<char>, rest: Seq<char>)
    requires
        plain_label(label),
        encode_utf8(value).len() < 10_000_000_000_000_000,
    ensures
        entries_of(labeled(label, value) + rest) == seq![LabeledView { label, value }] + entries_of(
            rest,
        ),
        tlv_readable(labeled(label, value) + rest) == tlv_readable(rest),
{
    let n = encode_utf8(value).len();
    let digits = text::decimal(n);
    let a = padded(label);
    let d = padded(digits);
    let s = labeled(label, value) + rest;
    let b = encode_utf8(s);
    assert(pow10(16) == 10_000_000_000_000_000) by {
        reveal_with_fuel(pow10, 17);
    }
    decimal_length(n, 16);
    text::decimal_denotes(n);
    assert(is_ascii_chars(digits)) by {
        assert forall|i: int| 0 <= i < digits.len() implies 0 <= #[trigger] digits[i] as nat
            <= 127 by {
            assert(text::is_digit(digits[i]));
        }
    }
    assert(text::is_digit(digits[digits.len() - 1]));
    padded_bytes(label);
    padded_bytes(digits);
    encode_of_concat(a, d);
    encode_of_concat(a + d, value);
    encode_of_concat(labeled(label, value), rest);
    let tail = encode_utf8(rest);
    assert(b == encode_utf8(a) + encode_utf8(d) + encode_utf8(value) + tail);
    assert(b.subrange(0, 16) =~= encode_utf8(a));
    assert(b.subrange(16, 32) =~= encode_utf8(d));
    assert(b.subrange(32, 32int + n) =~= encode_utf8(value));
    encode_utf8_valid_utf8(a);
    encode_utf8_valid_utf8(d);
    encode_utf8_valid_utf8(value);
    encode_utf8_decode_utf8(a);
    encode_utf8_decode_utf8(d);
    encode_utf8_decode_utf8(value);
    trimmed_end_of_padded(label);
    trimmed_end_of_padded(digits);
    let entry = LabeledView { label, value };
    assert(step_at(b, 0) == (Step::Found { entry, next: (32 + n) as int }));
    let shift = (32 + n) as int;
    assert(b.len() == shift + tail.len());
    assert(b.skip(shift) =~= tail);
    shifted(b, tail, shift, 0);
    assert(entries_from(b, 0) == seq![entry] + entries_from(b, shift));
}

/// Reading from a place on is reading what stands there.
proof fn shifted(b: Seq<u8>, tail: Seq<u8>, shift: int, at: int)
    requires
        0 <= shift,
        0 <= at <= tail.len(),
        b.len() == shift + tail.len(),
        b.skip(shift) == tail,
    ensures
        entries_from(b, shift + at) == entries_from(tail, at),
        readable_from(b, shift + at) == readable_from(tail, at),
    decreases tail.len() - at,
{
    let from = shift + at;
    if tail.len() - at >= 32 {
        assert(b.subrange(from, from + 16) =~= tail.subrange(at, at + 16));
        assert(b.subrange(from + 16, from + 32) =~= tail.subrange(at + 16, at + 32));
        match text::unsigned_value(text::trimmed_end(decode_utf8(tail.subrange(at + 16, at + 32)))) {
            None => {},
            Some(n) => {
                if n <= tail.len() - (at + 32) {
                    assert(b.subrange(from + 32, from + 32 + n) =~= tail.subrange(
                        at + 32,
                        at + 32 + n,
                    ));
                    shifted(b, tail, shift, at + 32 + n);
                }
            },
        }
    }
}

} // verus!
