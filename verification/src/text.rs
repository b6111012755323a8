//! Text helpers over the characters and the UTF-8 bytes of a string.

use vstd::prelude::*;
use vstd::string::*;
use vstd::utf8::*;

verus! {

/// `String::push`: appends one character.
pub assume_specification[ String::push ](s: &mut String, c: char)
    ensures
        final(s)@ == old(s)@.push(c),
;

/// The number of UTF-8 bytes of a text.
pub open spec fn byte_len(s: Seq<char>) -> nat {
    encode_utf8(s).len()
}

/// The characters with the Unicode `White_Space` property.
pub open spec fn white_space(c: char) -> bool {
    ||| '\u{9}' <= c <= '\u{d}'
    ||| c == '\u{20}'
    ||| c == '\u{85}'
    ||| c == '\u{a0}'
    ||| c == '\u{1680}'
    ||| '\u{2000}' <= c <= '\u{200a}'
    ||| c == '\u{2028}'
    ||| c == '\u{2029}'
    ||| c == '\u{202f}'
    ||| c == '\u{205f}'
    ||| c == '\u{3000}'
}

/// `s` without its leading white space.
pub open spec fn trim_start(s: Seq<char>) -> Seq<char>
    decreases s.len(),
{
    if s.len() > 0 && white_space(s[0]) {
        trim_start(s.drop_first())
    } else {
        s
    }
}

/// `s` without its trailing white space.
pub open spec fn trim_end(s: Seq<char>) -> Seq<char>
    decreases s.len(),
{
    if s.len() > 0 && white_space(s.last()) {
        trim_end(s.drop_last())
    } else {
        s
    }
}

/// `s` without leading and trailing white space.
pub open spec fn trimmed(s: Seq<char>) -> Seq<char> {
    trim_end(trim_start(s))
}

/// The characters of `s`, in order.
pub fn chars_of(s: &str) -> (r: Vec<char>)
    ensures
        r@ == s@,
{
    let mut out: Vec<char> = Vec::new();
    for c in it: s.chars()
        invariant
            it.seq() == s@,
            out@ == s@.take(it.index() as int),
    {
        out.push(c);
        proof {
            assert(s@.take(it.index() + 1) =~= s@.take(it.index() as int).push(
                s@[it.index() as int],
            ));
        }
    }
    proof {
        assert(s@.take(s@.len() as int) =~= s@);
    }
    out
}

/// The text made of the characters of `chars` from `from` up to `to`.
pub fn string_between(chars: &[char], from: usize, to: usize) -> (r: String)
    requires
        from <= to <= chars@.len(),
    ensures
        r@ == chars@.subrange(from as int, to as int),
{
    let mut out = String::new();
    for i in from..to
        invariant
            from <= to <= chars@.len(),
            out@ == chars@.subrange(from as int, i as int),
    {
        out.push(chars[i]);
        proof {
            assert(chars@.subrange(from as int, i + 1) =~= chars@.subrange(from as int, i as int).push(
                chars@[i as int],
            ));
        }
    }
    out
}

/// Two texts with the same UTF-8 bytes are the same text.
pub proof fn lemma_same_bytes(a: Seq<char>, b: Seq<char>)
    ensures
        encode_utf8(a) == encode_utf8(b) <==> a == b,
{
    broadcast use {encode_utf8_decode_utf8, encode_utf8_valid_utf8};

    if encode_utf8(a) == encode_utf8(b) {
        assert(decode_utf8(encode_utf8(a)) == a);
        assert(decode_utf8(encode_utf8(b)) == b);
    }
}

/// Whether two byte strings are equal.
pub fn same_bytes(a: &[u8], b: &[u8]) -> (r: bool)
    ensures
        r == (a@ == b@),
{
    if a.len() != b.len() {
        return false;
    }
    for i in 0..a.len()
        invariant
            a@.len() == b@.len(),
            forall|k: int| 0 <= k < i ==> a@[k] == b@[k],
    {
        if a[i] != b[i] {
            return false;
        }
    }
    proof {
        assert(a@ =~= b@);
    }
    true
}

/// Whether two texts are equal.
pub fn same_text(a: &str, b: &str) -> (r: bool)
    ensures
        r == (a@ == b@),
{
    proof {
        lemma_same_bytes(a@, b@);
    }
    same_bytes(a.as_bytes(), b.as_bytes())
}

/// Whether an optional text is present and equal to `expected`.
pub fn is_text(value: &Option<String>, expected: &str) -> (r: bool)
    ensures
        r == (value matches Some(text) && text@ == expected@),
{
    match value {
        Some(text) => same_text(text.as_str(), expected),
        None => false,
    }
}

/// The number of UTF-8 bytes of `s`.
pub fn byte_length(s: &str) -> (r: usize)
    ensures
        r == byte_len(s@),
{
    s.as_bytes().len()
}

/// Whether `c` has the `White_Space` property.
pub fn is_white_space(c: char) -> (r: bool)
    ensures
        r == white_space(c),
{
    ('\u{9}' <= c && c <= '\u{d}') || c == '\u{20}' || c == '\u{85}' || c == '\u{a0}' || c
        == '\u{1680}' || ('\u{2000}' <= c && c <= '\u{200a}') || c == '\u{2028}' || c == '\u{2029}'
        || c == '\u{202f}' || c == '\u{205f}' || c == '\u{3000}'
}

/// Trimming `s` from `i` on, where everything before `i` is white space.
proof fn lemma_trim_start_at(s: Seq<char>, i: int)
    requires
        0 <= i <= s.len(),
        forall|k: int| 0 <= k < i ==> white_space(#[trigger] s[k]),
        i < s.len() ==> !white_space(s[i]),
    ensures
        trim_start(s) == s.subrange(i, s.len() as int),
    decreases i,
{
    if i == 0 {
        assert(s.subrange(0, s.len() as int) =~= s);
    } else {
        let rest = s.drop_first();
        assert forall|k: int| 0 <= k < i - 1 implies white_space(#[trigger] rest[k]) by {
            assert(rest[k] == s[k + 1]);
        }
        lemma_trim_start_at(rest, i - 1);
        assert(rest.subrange(i - 1, rest.len() as int) =~= s.subrange(i, s.len() as int));
    }
}

/// Trimming the end of `s` down to `j`, where everything from `j` on is white
/// space.
proof fn lemma_trim_end_at(s: Seq<char>, j: int)
    requires
        0 <= j <= s.len(),
        forall|k: int| j <= k < s.len() ==> white_space(#[trigger] s[k]),
        j > 0 ==> !white_space(s[j - 1]),
    ensures
        trim_end(s) == s.subrange(0, j),
    decreases s.len() - j,
{
    if j == s.len() {
        assert(s.subrange(0, j) =~= s);
    } else {
        lemma_trim_end_at(s.drop_last(), j);
        assert(s.drop_last().subrange(0, j) =~= s.subrange(0, j));
    }
}

/// `s` without leading and trailing white space.
pub fn trim(s: &str) -> (r: String)
    ensures
        r@ == trimmed(s@),
{
    let chars = chars_of(s);
    let mut from: usize = 0;
    while from < chars.len() && is_white_space(chars[from])
        invariant
            chars@ == s@,
            from <= chars@.len(),
            forall|k: int| 0 <= k < from ==> white_space(#[trigger] chars@[k]),
        decreases chars@.len() - from,
    {
        from = from + 1;
    }
    let mut to: usize = chars.len();
    while to > from && is_white_space(chars[to - 1])
        invariant
            chars@ == s@,
            from <= to <= chars@.len(),
            forall|k: int| to <= k < chars@.len() ==> white_space(#[trigger] chars@[k]),
        decreases to,
    {
        to = to - 1;
    }
    proof {
        lemma_trim_start_at(s@, from as int);
        let rest = s@.subrange(from as int, s@.len() as int);
        assert forall|k: int| to - from <= k < rest.len() implies white_space(#[trigger] rest[k]) by {
            assert(rest[k] == chars@[k + from]);
        }
        lemma_trim_end_at(rest, to - from);
        assert(rest.subrange(0, to - from) =~= s@.subrange(from as int, to as int));
    }
    string_between(&chars, from, to)
}

/// Whether `s` begins with `prefix`.
pub open spec fn begins_with(s: Seq<char>, prefix: Seq<char>) -> bool {
    prefix.len() <= s.len() && s.take(prefix.len() as int) == prefix
}

/// Whether `s` ends with `suffix`.
pub open spec fn finishes_with(s: Seq<char>, suffix: Seq<char>) -> bool {
    suffix.len() <= s.len() && s.skip(s.len() - suffix.len()) == suffix
}

/// Whether the characters `part` stand in `chars` at `at`.
pub fn stands_at(chars: &[char], at: usize, part: &[char]) -> (r: bool)
    requires
        at + part@.len() <= chars@.len(),
    ensures
        r == (chars@.subrange(at as int, at + part@.len()) == part@),
{
    let total: usize = chars.len();
    for i in 0..part.len()
        invariant
            at + part@.len() <= total == chars@.len(),
            forall|k: int| 0 <= k < i ==> chars@[at + k] == part@[k],
    {
        if chars[at + i] != part[i] {
            proof {
                assert(chars@.subrange(at as int, at + part@.len())[i as int] != part@[i as int]);
            }
            return false;
        }
    }
    proof {
        assert(chars@.subrange(at as int, at + part@.len()) =~= part@);
    }
    true
}

/// Whether `s` begins with `prefix`.
pub fn has_prefix(s: &str, prefix: &str) -> (r: bool)
    ensures
        r == begins_with(s@, prefix@),
{
    let chars = chars_of(s);
    let part = chars_of(prefix);
    if part.len() > chars.len() {
        return false;
    }
    proof {
        assert(chars@.subrange(0, part@.len() as int) =~= s@.take(part@.len() as int));
    }
    stands_at(&chars, 0, &part)
}

/// What follows `prefix` in `s`, where `s` begins with it.
pub fn without_prefix(s: &str, prefix: &str) -> (r: Option<String>)
    ensures
        r is Some <==> begins_with(s@, prefix@),
        r matches Some(rest) ==> rest@ == s@.skip(prefix@.len() as int),
{
    if !has_prefix(s, prefix) {
        return None;
    }
    let chars = chars_of(s);
    let from: usize = chars_of(prefix).len();
    proof {
        assert(s@.subrange(from as int, s@.len() as int) =~= s@.skip(from as int));
    }
    Some(string_between(&chars, from, chars.len()))
}

/// What stands before `suffix` in `s`, where `s` ends with it.
pub fn without_suffix(s: &str, suffix: &str) -> (r: Option<String>)
    ensures
        r is Some <==> finishes_with(s@, suffix@),
        r matches Some(rest) ==> rest@ == s@.take(s@.len() - suffix@.len()),
{
    let chars = chars_of(s);
    let part = chars_of(suffix);
    if part.len() > chars.len() {
        return None;
    }
    let at: usize = chars.len() - part.len();
    proof {
        assert(chars@.subrange(at as int, at + part@.len()) =~= s@.skip(at as int));
        assert(chars@.subrange(0, at as int) =~= s@.take(at as int));
    }
    if stands_at(&chars, at, &part) {
        Some(string_between(&chars, 0, at))
    } else {
        None
    }
}

/// Whether `part` occurs in `s`.
pub open spec fn occurs_in(s: Seq<char>, part: Seq<char>) -> bool {
    exists|at: int|
        0 <= at <= s.len() - part.len() && #[trigger] s.subrange(at, at + part.len()) == part
}

/// Whether `part` occurs in `s`.
pub fn contains_text(s: &str, part: &str) -> (r: bool)
    ensures
        r == occurs_in(s@, part@),
{
    let chars = chars_of(s);
    let wanted = chars_of(part);
    if wanted.len() > chars.len() {
        return false;
    }
    let last: usize = chars.len() - wanted.len();
    let mut at: usize = 0;
    while at <= last
        invariant
            chars@ == s@,
            wanted@ == part@,
            last == s@.len() - part@.len(),
            at <= last + 1,
            forall|k: int|
                0 <= k < at ==> #[trigger] s@.subrange(k, k + part@.len()) != part@,
        decreases last + 1 - at,
    {
        if stands_at(&chars, at, &wanted) {
            return true;
        }
        if at == last {
            return false;
        }
        at = at + 1;
    }
    false
}

/// The first place of `c` in `s`, if there is one.
pub open spec fn first_index(s: Seq<char>, c: char) -> Option<int>
    decreases s.len(),
{
    if s.len() == 0 {
        None
    } else if s[0] == c {
        Some(0)
    } else {
        match first_index(s.drop_first(), c) {
            Some(i) => Some(i + 1),
            None => None,
        }
    }
}

/// The first place of a character is where it stands with none before.
pub proof fn lemma_first_index(s: Seq<char>, c: char, i: int)
    requires
        0 <= i <= s.len(),
        forall|k: int| 0 <= k < i ==> #[trigger] s[k] != c,
    ensures
        i < s.len() && s[i] == c ==> first_index(s, c) == Some(i),
        i == s.len() ==> first_index(s, c) is None,
    decreases s.len(),
{
    if s.len() > 0 && i > 0 {
        let rest = s.drop_first();
        assert forall|k: int| 0 <= k < i - 1 implies #[trigger] rest[k] != c by {
            assert(rest[k] == s[k + 1]);
        }
        lemma_first_index(rest, c, i - 1);
        if i < s.len() {
            assert(rest[i - 1] == s[i]);
        }
    }
}

/// The first place of `c` in `chars`.
pub fn index_of(chars: &[char], c: char) -> (r: Option<usize>)
    ensures
        r is Some <==> first_index(chars@, c) is Some,
        r matches Some(i) ==> first_index(chars@, c) == Some(i as int) && i < chars@.len(),
{
    let mut i: usize = 0;
    while i < chars.len()
        invariant
            i <= chars@.len(),
            forall|k: int| 0 <= k < i ==> #[trigger] chars@[k] != c,
        decreases chars@.len() - i,
    {
        if chars[i] == c {
            proof {
                lemma_first_index(chars@, c, i as int);
            }
            return Some(i);
        }
        i = i + 1;
    }
    proof {
        lemma_first_index(chars@, c, chars@.len() as int);
    }
    None
}

/// `s` without the copies of `c` at its end.
pub open spec fn strip_end(s: Seq<char>, c: char) -> Seq<char>
    decreases s.len(),
{
    if s.len() > 0 && s.last() == c {
        strip_end(s.drop_last(), c)
    } else {
        s
    }
}

/// Stripping `s` down to `j`, where everything from `j` on is `c`.
pub proof fn lemma_strip_end_at(s: Seq<char>, c: char, j: int)
    requires
        0 <= j <= s.len(),
        forall|k: int| j <= k < s.len() ==> #[trigger] s[k] == c,
        j > 0 ==> s[j - 1] != c,
    ensures
        strip_end(s, c) == s.take(j),
    decreases s.len() - j,
{
    if j == s.len() {
        assert(s.take(j) =~= s);
    } else {
        lemma_strip_end_at(s.drop_last(), c, j);
        assert(s.drop_last().take(j) =~= s.take(j));
    }
}

/// `s` without the copies of `c` at its end.
pub fn strip_end_of(s: &str, c: char) -> (r: String)
    ensures
        r@ == strip_end(s@, c),
{
    let chars = chars_of(s);
    let mut to: usize = chars.len();
    while to > 0 && chars[to - 1] == c
        invariant
            to <= chars@.len(),
            forall|k: int| to <= k < chars@.len() ==> #[trigger] chars@[k] == c,
        decreases to,
    {
        to = to - 1;
    }
    proof {
        lemma_strip_end_at(s@, c, to as int);
        assert(s@.subrange(0, to as int) =~= s@.take(to as int));
    }
    string_between(&chars, 0, to)
}

/// `a` followed by `b`.
pub fn joined(a: &str, b: &str) -> (r: String)
    ensures
        r@ == a@ + b@,
{
    let mut out = a.to_owned();
    out.append(b);
    out
}

/// Trimming takes white space off both ends and nothing else: what is left
/// stands in the text as it is, and begins and ends with something visible.
pub proof fn law_trimming_takes_outer_white_space(s: Seq<char>) -> (r: (int, int))
    ensures
        0 <= r.0 <= r.1 <= s.len(),
        trimmed(s) == s.subrange(r.0, r.1),
        forall|k: int| 0 <= k < r.0 ==> white_space(#[trigger] s[k]),
        forall|k: int| r.1 <= k < s.len() ==> white_space(#[trigger] s[k]),
        r.0 < r.1 ==> !white_space(s[r.0]) && !white_space(s[r.1 - 1]),
{
    let a = lemma_visible_from(s);
    let rest = s.subrange(a, s.len() as int);
    lemma_trim_start_at(s, a);
    let b = lemma_visible_to(rest);
    lemma_trim_end_at(rest, b);
    assert(rest.subrange(0, b) =~= s.subrange(a, a + b));
    assert forall|k: int| a + b <= k < s.len() implies white_space(#[trigger] s[k]) by {
        assert(rest[k - a] == s[k]);
    }
    if b > 0 {
        assert(rest[b - 1] == s[a + b - 1]);
    }
    (a, a + b)
}

/// The place of the first character that is not white space.
proof fn lemma_visible_from(s: Seq<char>) -> (i: int)
    ensures
        0 <= i <= s.len(),
        forall|k: int| 0 <= k < i ==> white_space(#[trigger] s[k]),
        i < s.len() ==> !white_space(s[i]),
    decreases s.len(),
{
    if s.len() > 0 && white_space(s[0]) {
        let t = s.drop_first();
        let i = lemma_visible_from(t);
        assert forall|k: int| 0 <= k < i + 1 implies white_space(#[trigger] s[k]) by {
            if k > 0 {
                assert(t[k - 1] == s[k]);
            }
        }
        i + 1
    } else {
        0
    }
}

/// The place behind the last character that is not white space.
proof fn lemma_visible_to(s: Seq<char>) -> (j: int)
    ensures
        0 <= j <= s.len(),
        forall|k: int| j <= k < s.len() ==> white_space(#[trigger] s[k]),
        j > 0 ==> !white_space(s[j - 1]),
    decreases s.len(),
{
    if s.len() > 0 && white_space(s.last()) {
        let t = s.drop_last();
        let j = lemma_visible_to(t);
        assert forall|k: int| j <= k < s.len() implies white_space(#[trigger] s[k]) by {
            if k < t.len() {
                assert(t[k] == s[k]);
            }
        }
        j
    } else {
        s.len() as int
    }
}

/// A text with a visible character is not blank when trimmed, and one without
/// is.
pub proof fn law_only_white_space_is_blank(s: Seq<char>)
    ensures
        trimmed(s).len() > 0 <==> exists|i: int| 0 <= i < s.len() && !white_space(#[trigger] s[i]),
{
    let (a, b) = law_trimming_takes_outer_white_space(s);
    if a < b {
        assert(!white_space(s[a]));
    }
}

/// Blanks, tabs and line ends are white space; the visible ASCII characters are
/// not.
pub proof fn law_ascii_white_space(c: char)
    requires
        c <= '\u{7f}',
    ensures
        white_space(c) <==> c == ' ' || c == '\t' || c == '\n' || c == '\r' || c == '\u{b}' || c
            == '\u{c}',
{
}

/// A text begins with a prefix, and ends with a suffix, exactly when it is made
/// of that and something more.
pub proof fn law_prefixes_and_suffixes(part: Seq<char>, rest: Seq<char>, s: Seq<char>)
    ensures
        begins_with(part + rest, part),
        finishes_with(rest + part, part),
        begins_with(s, part) ==> exists|tail: Seq<char>| s == #[trigger] (part + tail),
        finishes_with(s, part) ==> exists|head: Seq<char>| s == #[trigger] (head + part),
{
    assert((part + rest).take(part.len() as int) =~= part);
    assert((rest + part).skip(rest.len() as int) =~= part);
    if begins_with(s, part) {
        assert(s =~= part + s.skip(part.len() as int));
    }
    if finishes_with(s, part) {
        assert(s =~= s.take(s.len() - part.len()) + part);
    }
}

/// The first place of a character holds it, and no place before does; a text
/// without one does not hold it.
pub proof fn law_first_place_of_a_character(s: Seq<char>, c: char)
    ensures
        first_index(s, c) matches Some(i) ==> 0 <= i < s.len() && s[i] == c && !s.take(i).contains(
            c,
        ),
        first_index(s, c) is None ==> !s.contains(c),
    decreases s.len(),
{
    if s.len() > 0 && s[0] != c {
        let t = s.drop_first();
        law_first_place_of_a_character(t, c);
        match first_index(t, c) {
            Some(i) => {
                assert(s[i + 1] == t[i]);
                let head = s.take(i + 1);
                if head.contains(c) {
                    let k = choose|k: int| 0 <= k < head.len() && head[k] == c;
                    assert(t.take(i)[k - 1] == c);
                }
            },
            None => {
                if s.contains(c) {
                    let k = choose|k: int| 0 <= k < s.len() && s[k] == c;
                    assert(t[k - 1] == c);
                }
            },
        }
    }
}

} // verus!
