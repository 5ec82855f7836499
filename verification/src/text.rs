//! Text as sequences of characters, and the byte offsets that cut it.
use vstd::prelude::*;
use vstd::utf8::*;

verus! {

/// `needle` stands in `text` at position `at`.
pub open spec fn occurs_at(text: Seq<char>, needle: Seq<char>, at: int) -> bool {
    0 <= at && at + needle.len() <= text.len() && text.subrange(at, at + needle.len()) == needle
}

/// `needle` stands somewhere in `text`.
pub open spec fn contains_text(text: Seq<char>, needle: Seq<char>) -> bool {
    exists|at: int| occurs_at(text, needle, at)
}

/// The decimal digit `d`.
pub open spec fn digit(d: nat) -> char {
    (48 + d) as char
}

/// `n` in decimal, without leading zeros.
pub open spec fn decimal(n: nat) -> Seq<char>
    decreases n,
{
    if n < 10 {
        seq![digit(n)]
    } else {
        decimal(n / 10).push(digit(n % 10))
    }
}

/// The order of text by its characters, the first difference deciding; a proper
/// prefix comes first.
pub open spec fn precedes(a: Seq<char>, b: Seq<char>) -> bool
    decreases a.len(),
{
    if b.len() == 0 {
        false
    } else if a.len() == 0 {
        true
    } else if a[0] != b[0] {
        a[0] < b[0]
    } else {
        precedes(a.drop_first(), b.drop_first())
    }
}

/// The characters of `text` between two byte offsets.
pub open spec fn slice(text: Seq<char>, from: int, to: int) -> Seq<char> {
    decode_utf8(encode_utf8(text).subrange(from, to))
}

/// The number of bytes that `text` takes.
pub open spec fn byte_len(text: Seq<char>) -> int {
    encode_utf8(text).len() as int
}

/// The byte offset `at` lies in `text`, between two characters or at an end.
pub open spec fn cuts(text: Seq<char>, at: int) -> bool {
    0 <= at <= byte_len(text) && is_char_boundary(encode_utf8(text), at)
}

/// The characters of `text`.
pub(crate) fn chars_of(text: &str) -> (chars: Vec<char>)
    ensures
        chars@ == text@,
{
    let mut chars: Vec<char> = Vec::new();
    for c in it: text.chars()
        invariant
            it.seq() == text@,
            chars@ == text@.take(it.index()),
    {
        proof {
            assert(text@.take(it.index() + 1) =~= text@.take(it.index()).push(text@[it.index()]));
        }
        chars.push(c);
    }
    proof {
        assert(text@.take(text@.len() as int) =~= text@);
    }
    chars
}

/// Whether two texts are the same.
pub(crate) fn same_text(a: &str, b: &str) -> (same: bool)
    ensures
        same == (a@ == b@),
{
    a.to_owned() == b.to_owned()
}

/// Whether `needle` stands somewhere in `text`.
pub(crate) fn has_text(text: &str, needle: &str) -> (found: bool)
    ensures
        found == contains_text(text@, needle@),
{
    let text_chars = chars_of(text);
    let needle_chars = chars_of(needle);
    let n: usize = needle_chars.len();
    if text_chars.len() < n {
        return false;
    }
    let mut at: usize = 0;
    while at <= text_chars.len() - n
        invariant
            text_chars@ == text@,
            needle_chars@ == needle@,
            n == needle@.len() <= text@.len(),
            at <= text@.len() - n + 1,
            text@.len() <= usize::MAX,
            forall|i: int| 0 <= i < at ==> !occurs_at(text@, needle@, i),
        decreases text@.len() + 1 - at,
    {
        let mut k: usize = 0;
        while k < n && text_chars[at + k] == needle_chars[k]
            invariant
                text_chars@ == text@,
                needle_chars@ == needle@,
                k <= n == needle@.len(),
                at + n <= text@.len() <= usize::MAX,
                forall|j: int| 0 <= j < k ==> text@[at + j] == needle@[j],
            decreases n - k,
        {
            k += 1;
        }
        if k == n {
            assert(text@.subrange(at as int, at + n) =~= needle@);
            assert(occurs_at(text@, needle@, at as int));
            return true;
        }
        assert(text@.subrange(at as int, at + n)[k as int] != needle@[k as int]);
        at += 1;
    }
    false
}

/// Whether `text` ends with `suffix`.
pub(crate) fn ends_with(text: &str, suffix: &str) -> (ends: bool)
    ensures
        ends == suffix@.is_suffix_of(text@),
{
    let text_chars = chars_of(text);
    let suffix_chars = chars_of(suffix);
    let n: usize = suffix_chars.len();
    if text_chars.len() < n {
        return false;
    }
    let start: usize = text_chars.len() - n;
    let mut k: usize = 0;
    while k < n
        invariant
            text_chars@ == text@,
            suffix_chars@ == suffix@,
            n == suffix@.len(),
            start + n == text@.len(),
            text@.len() <= usize::MAX,
            k <= n,
            forall|j: int| 0 <= j < k ==> text@[start + j] == suffix@[j],
        decreases n - k,
    {
        if text_chars[start + k] != suffix_chars[k] {
            proof {
                assert(text@.subrange(start as int, text@.len() as int)[k as int]
                    != suffix@[k as int]);
            }
            return false;
        }
        k += 1;
    }
    proof {
        assert(suffix@ =~= text@.subrange(start as int, text@.len() as int));
    }
    true
}

/// The digit `d` as text.
fn digit_text(d: usize) -> (text: &'static str)
    requires
        d < 10,
    ensures
        text@ == seq![digit(d as nat)],
{
    proof {
        reveal_strlit("0");
        reveal_strlit("1");
        reveal_strlit("2");
        reveal_strlit("3");
        reveal_strlit("4");
        reveal_strlit("5");
        reveal_strlit("6");
        reveal_strlit("7");
        reveal_strlit("8");
        reveal_strlit("9");
    }
    match d {
        0 => "0",
        1 => "1",
        2 => "2",
        3 => "3",
        4 => "4",
        5 => "5",
        6 => "6",
        7 => "7",
        8 => "8",
        _ => "9",
    }
}

/// Appends `n` in decimal.
pub(crate) fn append_decimal(out: &mut String, n: usize)
    ensures
        final(out)@ == old(out)@ + decimal(n as nat),
    decreases n,
{
    if n >= 10 {
        append_decimal(out, n / 10);
    }
    out.append(digit_text(n % 10));
}

/// Whether `a` comes before `b` in the order of text.
pub(crate) fn comes_before(a: &str, b: &str) -> (before: bool)
    ensures
        before == precedes(a@, b@),
{
    let a_chars = chars_of(a);
    let b_chars = chars_of(b);
    let mut i: usize = 0;
    proof {
        assert(a@.skip(0) =~= a@);
        assert(b@.skip(0) =~= b@);
    }
    while i < a_chars.len() && i < b_chars.len() && a_chars[i] == b_chars[i]
        invariant
            a_chars@ == a@,
            b_chars@ == b@,
            i <= a@.len(),
            i <= b@.len(),
            precedes(a@, b@) == precedes(a@.skip(i as int), b@.skip(i as int)),
        decreases a@.len() - i,
    {
        proof {
            assert(a@.skip(i as int).drop_first() =~= a@.skip(i + 1));
            assert(b@.skip(i as int).drop_first() =~= b@.skip(i + 1));
        }
        i += 1;
    }
    i < b_chars.len() && (i == a_chars.len() || a_chars[i] < b_chars[i])
}

/// The order of text is total: of two texts that differ one comes before the other.
pub proof fn precedes_is_total(a: Seq<char>, b: Seq<char>)
    ensures
        a == b || precedes(a, b) || precedes(b, a),
    decreases a.len(),
{
    if a.len() > 0 && b.len() > 0 && a[0] == b[0] {
        precedes_is_total(a.drop_first(), b.drop_first());
        if a.drop_first() == b.drop_first() {
            assert(a =~= seq![a[0]] + a.drop_first());
            assert(b =~= seq![b[0]] + b.drop_first());
        }
    } else if a.len() == 0 && b.len() == 0 {
        assert(a =~= b);
    }
}

/// No text comes before itself.
pub proof fn precedes_is_irreflexive(a: Seq<char>)
    ensures
        !precedes(a, a),
    decreases a.len(),
{
    if a.len() > 0 {
        precedes_is_irreflexive(a.drop_first());
    }
}

/// The order of text is transitive.
pub proof fn precedes_is_transitive(a: Seq<char>, b: Seq<char>, c: Seq<char>)
    requires
        precedes(a, b),
        precedes(b, c),
    ensures
        precedes(a, c),
    decreases a.len(),
{
    if a.len() > 0 && a[0] == b[0] && b[0] == c[0] {
        precedes_is_transitive(a.drop_first(), b.drop_first(), c.drop_first());
    }
}

/// The bytes of a slice are the bytes of the text between its offsets.
pub(crate) proof fn slice_bytes(text: Seq<char>, from: int, to: int)
    requires
        cuts(text, from),
        cuts(text, to),
        from <= to,
    ensures
        valid_utf8(encode_utf8(text).subrange(from, to)),
        encode_utf8(slice(text, from, to)) == encode_utf8(text).subrange(from, to),
        is_char_boundary(encode_utf8(text).subrange(0, to), from),
{
    let bytes = encode_utf8(text);
    encode_utf8_valid_utf8(text);
    valid_utf8_split(bytes, to);
    let head = bytes.subrange(0, to);
    if from < to {
        is_char_boundary_iff_not_is_continuation_byte(bytes, from);
        is_char_boundary_iff_not_is_continuation_byte(head, from);
        assert(head[from] == bytes[from]);
    } else {
        is_char_boundary_start_end_of_seq(head);
    }
    valid_utf8_split(head, from);
    assert(head.subrange(from, to) =~= bytes.subrange(from, to));
    decode_utf8_encode_utf8(bytes.subrange(from, to));
}

/// Two neighbouring slices make one.
pub(crate) proof fn slices_join(text: Seq<char>, from: int, mid: int, to: int)
    requires
        cuts(text, from),
        cuts(text, mid),
        cuts(text, to),
        from <= mid <= to,
    ensures
        slice(text, from, mid) + slice(text, mid, to) == slice(text, from, to),
{
    slice_bytes(text, from, to);
    slice_bytes(text, from, mid);
    let bytes = encode_utf8(text);
    encode_utf8_valid_utf8(text);
    let part = bytes.subrange(from, to);
    if mid < to {
        is_char_boundary_iff_not_is_continuation_byte(bytes, mid);
        is_char_boundary_iff_not_is_continuation_byte(part, mid - from);
        assert(part[mid - from] == bytes[mid]);
    } else {
        is_char_boundary_start_end_of_seq(part);
    }
    decode_utf8_split(part, mid - from);
    assert(part.subrange(0, mid - from) =~= bytes.subrange(from, mid));
    assert(part.subrange(mid - from, part.len() as int) =~= bytes.subrange(mid, to));
}

/// The whole text is a slice of itself, cut at both ends.
pub(crate) proof fn whole_slice(text: Seq<char>)
    ensures
        cuts(text, 0),
        cuts(text, byte_len(text)),
        slice(text, 0, byte_len(text)) == text,
{
    encode_utf8_valid_utf8(text);
    is_char_boundary_start_end_of_seq(encode_utf8(text));
    assert(encode_utf8(text).subrange(0, byte_len(text)) =~= encode_utf8(text));
    encode_utf8_decode_utf8(text);
}

/// A slice from an offset to itself is empty, and so is an empty text's encoding.
pub(crate) proof fn empty_slice(text: Seq<char>, at: int)
    requires
        0 <= at <= byte_len(text),
    ensures
        slice(text, at, at).len() == 0,
        text.len() == 0 ==> byte_len(text) == 0,
{
}

/// A slice of a text's beginning is the same slice of the text.
pub(crate) proof fn slice_of_beginning(text: Seq<char>, end: int, from: int, to: int)
    requires
        cuts(text, end),
        0 <= from <= to <= end,
    ensures
        byte_len(slice(text, 0, end)) == end,
        slice(slice(text, 0, end), from, to) == slice(text, from, to),
{
    whole_slice(text);
    slice_bytes(text, 0, end);
    assert(encode_utf8(text).subrange(0, end).subrange(from, to) =~= encode_utf8(text).subrange(
        from,
        to,
    ));
}

/// An offset that cuts what follows `from` cuts the whole text at the sum.
pub(crate) proof fn cut_after(text: Seq<char>, from: int, at: int)
    requires
        cuts(text, from),
        cuts(slice(text, from, byte_len(text)), at),
    ensures
        cuts(text, from + at),
{
    let bytes = encode_utf8(text);
    whole_slice(text);
    slice_bytes(text, from, byte_len(text));
    encode_utf8_valid_utf8(text);
    let tail = bytes.subrange(from, byte_len(text));
    if from + at < byte_len(text) {
        is_char_boundary_iff_not_is_continuation_byte(tail, at);
        is_char_boundary_iff_not_is_continuation_byte(bytes, from + at);
        assert(tail[at] == bytes[from + at]);
    }
}

/// The part of `text` between two byte offsets.
pub(crate) fn substring<'a>(text: &'a str, from: usize, to: usize) -> (part: &'a str)
    requires
        cuts(text@, from as int),
        cuts(text@, to as int),
        from <= to,
    ensures
        part@ == slice(text@, from as int, to as int),
{
    proof {
        slice_bytes(text@, from as int, to as int);
    }
    let (head, _) = text.split_at(to);
    let (_, part) = head.split_at(from);
    proof {
        assert(encode_utf8(part@) =~= encode_utf8(text@).subrange(from as int, to as int));
        encode_utf8_decode_utf8(part@);
    }
    part
}

/// A text holds another exactly if it can be cut into something, the other, and
/// something.
pub proof fn contained_text_stands_between_two_others(text: Seq<char>, needle: Seq<char>)
    ensures
        contains_text(text, needle) <==> exists|before: Seq<char>, after: Seq<char>|
            text == #[trigger] (before + needle + after),
{
    if contains_text(text, needle) {
        let at = choose|at: int| occurs_at(text, needle, at);
        let before = text.take(at);
        let after = text.skip(at + needle.len());
        assert(text =~= before + text.subrange(at, at + needle.len()) + after);
    }
    if exists|before: Seq<char>, after: Seq<char>| text == #[trigger] (before + needle + after) {
        let (before, after) = choose|before: Seq<char>, after: Seq<char>|
            text == #[trigger] (before + needle + after);
        let at = before.len() as int;
        assert(text.subrange(at, at + needle.len()) =~= needle);
        assert(occurs_at(text, needle, at));
    }
}

/// The number that a text of decimal digits stands for.
pub open spec fn value(digits: Seq<char>) -> int
    decreases digits.len(),
{
    if digits.len() == 0 {
        0
    } else {
        10 * value(digits.drop_last()) + (digits.last() as int - '0' as int)
    }
}

/// A number in decimal consists of digits, has no leading zero, and reads as the
/// number.
pub proof fn decimals_read_back(n: nat)
    ensures
        value(decimal(n)) == n,
        decimal(n).len() >= 1,
        forall|i: int| 0 <= i < decimal(n).len() ==> '0' <= #[trigger] decimal(n)[i] <= '9',
        decimal(n)[0] == '0' ==> decimal(n).len() == 1,
    decreases n,
{
    if n < 10 {
        assert(decimal(n).drop_last() =~= Seq::empty());
        assert(value(Seq::empty()) == 0);
    } else {
        decimals_read_back(n / 10);
        assert(decimal(n).drop_last() =~= decimal(n / 10));
        if decimal(n)[0] == '0' {
            assert(decimal(n / 10)[0] == '0');
            let one = decimal(n / 10);
            assert(one.drop_last() =~= Seq::empty());
            assert(value(one.drop_last()) == 0);
            assert(one.last() == '0');
        }
    }
}

/// Of two texts the characters at their first difference decide which comes
/// first, whatever follows.
pub proof fn the_first_difference_decides(
    common: Seq<char>,
    a: char,
    a_rest: Seq<char>,
    b: char,
    b_rest: Seq<char>,
)
    requires
        a != b,
    ensures
        precedes(common + seq![a] + a_rest, common + seq![b] + b_rest) <==> (a as int) < (b as int),
    decreases common.len(),
{
    let left = common + seq![a] + a_rest;
    let right = common + seq![b] + b_rest;
    if common.len() > 0 {
        let shorter = common.drop_first();
        assert(left.drop_first() =~= shorter + seq![a] + a_rest);
        assert(right.drop_first() =~= shorter + seq![b] + b_rest);
        the_first_difference_decides(shorter, a, a_rest, b, b_rest);
    }
}

/// A text comes before every longer text that it begins.
pub proof fn beginnings_come_first(text: Seq<char>, more: Seq<char>)
    requires
        more.len() > 0,
    ensures
        precedes(text, text + more),
        !precedes(text + more, text),
    decreases text.len(),
{
    if text.len() > 0 {
        assert((text + more).drop_first() =~= text.drop_first() + more);
        beginnings_come_first(text.drop_first(), more);
    }
}

} // verus!
