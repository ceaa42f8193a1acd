//! Text helpers: whitespace, ASCII case folding, trimming and the splitting
//! of a header value into its comma-separated parts.

use vstd::prelude::*;
use vstd::std_specs::iter::IteratorSpec;
use vstd::string::{StrSliceExecFns, StringSliceAdditionalSpecFns};
use vstd::utf8::{encode_utf8, encode_utf8_decode_utf8};

verus! {

/// The code points that carry the Unicode property `White_Space`.
pub open spec fn is_whitespace(c: char) -> bool {
    let code = c as u32;
    ||| 0x09 <= code <= 0x0D
    ||| code == 0x20
    ||| code == 0x85
    ||| code == 0xA0
    ||| code == 0x1680
    ||| 0x2000 <= code <= 0x200A
    ||| code == 0x2028
    ||| code == 0x2029
    ||| code == 0x202F
    ||| code == 0x205F
    ||| code == 0x3000
}

/// Tells whether `c` is a whitespace character.
pub fn char_is_whitespace(c: char) -> (b: bool)
    ensures
        b == is_whitespace(c),
{
    let code: u32 = c as u32;
    (0x09 <= code && code <= 0x0D) || code == 0x20 || code == 0x85 || code == 0xA0 || code
        == 0x1680 || (0x2000 <= code && code <= 0x200A) || code == 0x2028 || code == 0x2029
        || code == 0x202F || code == 0x205F || code == 0x3000
}

/// The characters of `s`, in order.
pub fn chars_of(s: &str) -> (chars: Vec<char>)
    ensures
        chars@ == s@,
{
    let mut chars: Vec<char> = Vec::new();
    for c in it: s.chars()
        invariant
            it.seq() == s@,
            chars@ == it.seq().take(it.index() as int),
    {
        chars.push(c);
    }
    chars
}

/// `s` without its leading whitespace.
pub open spec fn trim_start(s: Seq<char>) -> Seq<char>
    decreases s.len(),
{
    if s.len() > 0 && is_whitespace(s[0]) {
        trim_start(s.drop_first())
    } else {
        s
    }
}

/// `s` without its trailing whitespace.
pub open spec fn trim_end(s: Seq<char>) -> Seq<char>
    decreases s.len(),
{
    if s.len() > 0 && is_whitespace(s.last()) {
        trim_end(s.drop_last())
    } else {
        s
    }
}

/// `s` without the whitespace at either end.
pub open spec fn trim(s: Seq<char>) -> Seq<char> {
    trim_end(trim_start(s))
}

/// A separator, a comma followed by one space, begins at position `i` of `s`.
pub open spec fn separator_at(s: Seq<char>, i: int) -> bool {
    0 <= i && i + 1 < s.len() && s[i] == ',' && s[i + 1] == ' '
}

/// Where the first separator of `s` begins; `s.len()` if it has none.
pub open spec fn first_separator(s: Seq<char>) -> int
    decreases s.len(),
{
    if s.len() < 2 {
        s.len() as int
    } else if s[0] == ',' && s[1] == ' ' {
        0
    } else {
        1 + first_separator(s.drop_first())
    }
}

/// The parts of `s` that lie between its separators, in order. A value
/// without a separator is its own single part; parts may be empty.
pub open spec fn split_list(s: Seq<char>) -> Seq<Seq<char>>
    decreases s.len(),
{
    let i = first_separator(s);
    if 0 <= i && i + 2 <= s.len() {
        seq![s.take(i)] + split_list(s.skip(i + 2))
    } else {
        seq![s]
    }
}

/// The candidate tokens of a header value: its parts, each trimmed.
pub open spec fn candidates(s: Seq<char>) -> Seq<Seq<char>> {
    split_list(s).map_values(|part: Seq<char>| trim(part))
}

/// `first_separator` is the least position at which a separator begins.
pub proof fn first_separator_is_least(s: Seq<char>, k: int)
    requires
        0 <= k <= s.len(),
        forall|j: int| 0 <= j < k ==> !separator_at(s, j),
        k == s.len() || separator_at(s, k),
    ensures
        first_separator(s) == k,
    decreases s.len(),
{
    if s.len() < 2 {
    } else if s[0] == ',' && s[1] == ' ' {
        assert(separator_at(s, 0));
    } else {
        assert(!separator_at(s, 0));
        let rest = s.drop_first();
        assert forall|j: int| 0 <= j < k - 1 implies !separator_at(rest, j) by {
            assert(!separator_at(s, j + 1));
        }
        assert(k - 1 == rest.len() || separator_at(rest, k - 1)) by {
            if k != s.len() {
                assert(separator_at(s, k));
            }
        }
        first_separator_is_least(rest, k - 1);
    }
}

/// Up to where `first_separator` points no separator begins, and where it
/// points into `s` one does.
pub proof fn first_separator_is_first(s: Seq<char>)
    ensures
        0 <= first_separator(s) <= s.len(),
        forall|j: int| 0 <= j < first_separator(s) ==> !separator_at(s, j),
        first_separator(s) < s.len() ==> separator_at(s, first_separator(s)),
    decreases s.len(),
{
    if s.len() >= 2 && !(s[0] == ',' && s[1] == ' ') {
        let rest = s.drop_first();
        first_separator_is_first(rest);
        assert forall|j: int| 0 <= j < first_separator(s) implies !separator_at(s, j) by {
            if j > 0 {
                assert(!separator_at(rest, j - 1));
            }
        }
        if first_separator(s) < s.len() {
            assert(separator_at(rest, first_separator(rest)));
        }
    }
}

/// The parts put together again, with a separator between neighbours.
pub open spec fn join(parts: Seq<Seq<char>>) -> Seq<char>
    decreases parts.len(),
{
    if parts.len() == 0 {
        Seq::empty()
    } else if parts.len() == 1 {
        parts[0]
    } else {
        parts[0] + seq![',', ' '] + join(parts.drop_first())
    }
}

/// Splitting loses nothing and splits wherever it can: the parts of a value,
/// joined by separators, are the value again, and no part holds a separator.
pub proof fn split_then_join(s: Seq<char>)
    ensures
        split_list(s).len() >= 1,
        join(split_list(s)) == s,
        forall|k: int, j: int|
            0 <= k < split_list(s).len() ==> !#[trigger] separator_at(split_list(s)[k], j),
    decreases s.len(),
{
    let i = first_separator(s);
    first_separator_is_first(s);
    if 0 <= i && i + 2 <= s.len() {
        let head = s.take(i);
        let rest = s.skip(i + 2);
        let parts = split_list(s);
        split_then_join(rest);
        assert(parts.drop_first() == split_list(rest));
        assert(separator_at(s, i));
        assert(join(parts) == s) by {
            assert(head + seq![',', ' '] + rest =~= s);
        }
        assert forall|k: int, j: int| 0 <= k < parts.len() implies !#[trigger] separator_at(
            parts[k],
            j,
        ) by {
            if k == 0 {
                if separator_at(head, j) {
                    assert(separator_at(s, j));
                }
            } else {
                assert(parts[k] == split_list(rest)[k - 1]);
            }
        }
    } else {
        assert(i == s.len());
    }
}

/// What `trim_start` takes away: how many characters, all of them
/// whitespace, and it stops at the first that is not.
pub proof fn trim_start_drops_whitespace(s: Seq<char>) -> (n: int)
    ensures
        0 <= n <= s.len(),
        trim_start(s) == s.skip(n),
        forall|j: int| 0 <= j < n ==> is_whitespace(s[j]),
        n < s.len() ==> !is_whitespace(s[n]),
    decreases s.len(),
{
    if s.len() > 0 && is_whitespace(s[0]) {
        let rest = s.drop_first();
        let m = trim_start_drops_whitespace(rest);
        assert(rest.skip(m) == s.skip(m + 1));
        assert forall|j: int| 0 <= j < m + 1 implies is_whitespace(s[j]) by {
            if j > 0 {
                assert(is_whitespace(rest[j - 1]));
            }
        }
        m + 1
    } else {
        assert(s.skip(0) == s);
        0
    }
}

/// What `trim_end` leaves: how many characters, after which all is
/// whitespace, and the last one left is not.
pub proof fn trim_end_drops_whitespace(s: Seq<char>) -> (n: int)
    ensures
        0 <= n <= s.len(),
        trim_end(s) == s.take(n),
        forall|j: int| n <= j < s.len() ==> is_whitespace(s[j]),
        n > 0 ==> !is_whitespace(s[n - 1]),
    decreases s.len(),
{
    if s.len() > 0 && is_whitespace(s.last()) {
        let rest = s.drop_last();
        let m = trim_end_drops_whitespace(rest);
        assert(rest.take(m) == s.take(m));
        assert forall|j: int| m <= j < s.len() implies is_whitespace(s[j]) by {
            if j < s.len() - 1 {
                assert(is_whitespace(rest[j]));
            }
        }
        m
    } else {
        assert(s.take(s.len() as int) == s);
        s.len() as int
    }
}

/// Trimming takes whitespace from the two ends and nothing else: the result
/// is the stretch `s[a..b]`, all before `a` and from `b` on is whitespace,
/// and the result neither begins nor ends with whitespace.
pub proof fn trim_keeps_the_core(s: Seq<char>) -> (bounds: (int, int))
    ensures
        0 <= bounds.0 <= bounds.1 <= s.len(),
        trim(s) == s.subrange(bounds.0, bounds.1),
        forall|j: int| 0 <= j < bounds.0 || bounds.1 <= j < s.len() ==> is_whitespace(s[j]),
        trim(s).len() > 0 ==> !is_whitespace(trim(s).first()) && !is_whitespace(trim(s).last()),
{
    let a = trim_start_drops_whitespace(s);
    let tail = s.skip(a);
    let n = trim_end_drops_whitespace(tail);
    assert(tail.take(n) == s.subrange(a, a + n));
    assert forall|j: int| a + n <= j < s.len() implies is_whitespace(s[j]) by {
        assert(is_whitespace(tail[j - a]));
    }
    if n > 0 {
        assert(tail[0] == s[a]);
    }
    (a, a + n)
}

/// Trims the part `chars[start..end]`: the bounds of what is left of it.
pub(crate) fn trim_range(chars: &Vec<char>, start: usize, end: usize) -> (bounds: (usize, usize))
    requires
        start <= end <= chars@.len(),
    ensures
        start <= bounds.0 <= bounds.1 <= end,
        chars@.subrange(bounds.0 as int, bounds.1 as int) == trim(
            chars@.subrange(start as int, end as int),
        ),
{
    let ghost part = chars@.subrange(start as int, end as int);
    let mut a: usize = start;
    while a < end && char_is_whitespace(chars[a])
        invariant
            start <= a <= end <= chars@.len(),
            trim_start(part) == trim_start(chars@.subrange(a as int, end as int)),
        decreases end - a,
    {
        assert(chars@.subrange(a as int, end as int).drop_first() == chars@.subrange(
            a + 1,
            end as int,
        ));
        a = a + 1;
    }
    let ghost head = chars@.subrange(a as int, end as int);
    assert(trim_start(part) == head);
    let mut b: usize = end;
    while a < b && char_is_whitespace(chars[b - 1])
        invariant
            a <= b <= end <= chars@.len(),
            trim_end(head) == trim_end(chars@.subrange(a as int, b as int)),
        decreases b - a,
    {
        assert(chars@.subrange(a as int, b as int).drop_last() == chars@.subrange(
            a as int,
            b - 1,
        ));
        b = b - 1;
    }
    (a, b)
}

/// The bounds of the candidate tokens of `chars`, one pair for each, in order:
/// token `k` is `chars[ranges[k].0..ranges[k].1]`.
pub(crate) fn candidate_ranges(chars: &Vec<char>) -> (ranges: Vec<(usize, usize)>)
    ensures
        ranges@.len() == candidates(chars@).len(),
        forall|k: int|
            #![trigger ranges@[k]]
            #![trigger candidates(chars@)[k]]
            0 <= k < ranges@.len() ==> {
                &&& ranges@[k].0 <= ranges@[k].1 <= chars@.len()
                &&& chars@.subrange(ranges@[k].0 as int, ranges@[k].1 as int) == candidates(
                    chars@,
                )[k]
            },
{
    let n = chars.len();
    let mut ranges: Vec<(usize, usize)> = Vec::new();
    let mut start: usize = 0;
    let mut i: usize = 0;
    let ghost mut done: Seq<Seq<char>> = Seq::empty();
    assert(chars@.skip(0) == chars@);
    while i < n
        invariant
            n == chars@.len(),
            start <= i <= n,
            forall|j: int| start <= j < i ==> !separator_at(chars@, j),
            split_list(chars@) == done + split_list(chars@.skip(start as int)),
            ranges@.len() == done.len(),
            forall|k: int|
                0 <= k < ranges@.len() ==> {
                    &&& (#[trigger] ranges@[k]).0 <= ranges@[k].1 <= n
                    &&& chars@.subrange(ranges@[k].0 as int, ranges@[k].1 as int) == trim(done[k])
                },
        decreases n - i,
    {
        if i + 1 < n && chars[i] == ',' && chars[i + 1] == ' ' {
            let ghost rest = chars@.skip(start as int);
            proof {
                assert(separator_at(chars@, i as int));
                assert(separator_at(rest, i - start));
                assert forall|j: int| 0 <= j < i - start implies !separator_at(rest, j) by {
                    assert(!separator_at(chars@, start + j));
                }
                first_separator_is_least(rest, i - start);
                assert(rest.take(i - start) == chars@.subrange(start as int, i as int));
                assert(rest.skip(i - start + 2) == chars@.skip(i + 2));
                assert(done + (seq![chars@.subrange(start as int, i as int)] + split_list(
                    chars@.skip(i + 2),
                )) == done.push(chars@.subrange(start as int, i as int)) + split_list(
                    chars@.skip(i + 2),
                ));
                done = done.push(chars@.subrange(start as int, i as int));
            }
            let bounds = trim_range(chars, start, i);
            ranges.push(bounds);
            start = i + 2;
            i = i + 2;
        } else {
            assert(!separator_at(chars@, i as int));
            i = i + 1;
        }
    }
    let ghost rest = chars@.skip(start as int);
    proof {
        assert forall|j: int| 0 <= j < rest.len() implies !separator_at(rest, j) by {
            assert(!separator_at(chars@, start + j));
        }
        first_separator_is_least(rest, rest.len() as int);
        assert(rest == chars@.subrange(start as int, n as int));
        assert(split_list(chars@) == done.push(rest));
    }
    let bounds = trim_range(chars, start, n);
    ranges.push(bounds);
    ranges
}

/// The texts of `tokens`, in order.
pub open spec fn texts(tokens: Seq<String>) -> Seq<Seq<char>> {
    tokens.map_values(|token: String| token@)
}

/// The candidate tokens of the header value `raw`: its parts between each
/// comma followed by a space, trimmed. The work grows with the length of the
/// value times the number of its tokens.
pub fn candidate_tokens(raw: &str) -> (tokens: Vec<String>)
    ensures
        texts(tokens@) == candidates(raw@),
{
    let chars = chars_of(raw);
    let ranges = candidate_ranges(&chars);
    let mut tokens: Vec<String> = Vec::new();
    let mut k: usize = 0;
    while k < ranges.len()
        invariant
            chars@ == raw@,
            ranges@.len() == candidates(raw@).len(),
            forall|j: int|
                #![trigger ranges@[j]]
                0 <= j < ranges@.len() ==> {
                    &&& ranges@[j].0 <= ranges@[j].1 <= chars@.len()
                    &&& chars@.subrange(ranges@[j].0 as int, ranges@[j].1 as int) == candidates(
                        raw@,
                    )[j]
                },
            k <= ranges@.len(),
            tokens@.len() == k,
            forall|j: int| 0 <= j < k ==> (#[trigger] tokens@[j])@ == candidates(raw@)[j],
        decreases ranges@.len() - k,
    {
        let (start, end) = ranges[k];
        tokens.push(raw.substring_char(start, end).to_owned());
        k = k + 1;
    }
    assert(texts(tokens@) =~= candidates(raw@));
    tokens
}

/// Tells whether `chars[start..end]` spells `other`.
pub(crate) fn range_equals(chars: &Vec<char>, start: usize, end: usize, other: &Vec<char>) -> (same:
    bool)
    requires
        start <= end <= chars@.len(),
    ensures
        same == (chars@.subrange(start as int, end as int) == other@),
{
    if end - start != other.len() {
        return false;
    }
    let ghost part = chars@.subrange(start as int, end as int);
    let mut i: usize = 0;
    while i < other.len()
        invariant
            start <= end <= chars@.len(),
            part == chars@.subrange(start as int, end as int),
            end - start == other@.len(),
            i <= other@.len(),
            forall|j: int| 0 <= j < i ==> part[j] == other@[j],
        decreases other@.len() - i,
    {
        if chars[start + i] != other[i] {
            assert(part[i as int] != other@[i as int]);
            return false;
        }
        i = i + 1;
    }
    assert(part =~= other@);
    true
}

/// The code of `c`, that of its lower-case form if `c` is an ASCII capital.
pub open spec fn fold_case(c: char) -> int {
    let code = c as u32 as int;
    if 0x41 <= code <= 0x5A {
        code + 0x20
    } else {
        code
    }
}

/// `a` and `b` are the same name: equal but for the case of ASCII letters.
pub open spec fn same_name(a: Seq<char>, b: Seq<char>) -> bool {
    a.len() == b.len() && forall|i: int| 0 <= i < a.len() ==> fold_case(a[i]) == fold_case(b[i])
}

/// The code of `c` with ASCII capitals folded to lower case.
pub(crate) fn folded(c: char) -> (code: u32)
    ensures
        code == fold_case(c),
{
    let code: u32 = c as u32;
    if 0x41 <= code && code <= 0x5A {
        code + 0x20
    } else {
        code
    }
}

/// Tells whether `a` and `b` are equal but for the case of ASCII letters.
pub fn eq_ignore_ascii_case(a: &str, b: &str) -> (same: bool)
    ensures
        same == same_name(a@, b@),
{
    let left = chars_of(a);
    let right = chars_of(b);
    if left.len() != right.len() {
        return false;
    }
    let mut i: usize = 0;
    while i < left.len()
        invariant
            left@ == a@,
            right@ == b@,
            left@.len() == right@.len(),
            i <= left@.len(),
            forall|j: int| 0 <= j < i ==> fold_case(a@[j]) == fold_case(b@[j]),
        decreases left@.len() - i,
    {
        if folded(left[i]) != folded(right[i]) {
            assert(fold_case(a@[i as int]) != fold_case(b@[i as int]));
            return false;
        }
        i = i + 1;
    }
    true
}

/// Tells whether `a` and `b` hold the same characters.
pub fn same_text(a: &str, b: &str) -> (same: bool)
    ensures
        same == (a@ == b@),
{
    let left = a.as_bytes();
    let right = b.as_bytes();
    proof {
        encode_utf8_decode_utf8(a@);
        encode_utf8_decode_utf8(b@);
    }
    if left.len() != right.len() {
        return false;
    }
    let mut i: usize = 0;
    while i < left.len()
        invariant
            left@ == encode_utf8(a@),
            right@ == encode_utf8(b@),
            left@.len() == right@.len(),
            i <= left@.len(),
            forall|j: int| 0 <= j < i ==> left@[j] == right@[j],
        decreases left@.len() - i,
    {
        if left[i] != right[i] {
            return false;
        }
        i = i + 1;
    }
    assert(left@ =~= right@);
    true
}

} // verus!
