//! Text as a sequence of characters.
//!
//! The contracts of this crate speak of text as `Seq<char>`. This module
//! holds the operations that the rest of the crate needs on it: trimming,
//! searching, splitting into lines, and reading and writing decimal numbers.
use vstd::prelude::*;
use vstd::string::StringExecFns;


verus! {

/// `String::push` puts one character at the end of the string.
pub assume_specification[ String::push ](s: &mut String, c: char)
    ensures
        final(s)@ == old(s)@.push(c),
;

/// `String::from` on a string slice copies its characters.
pub assume_specification<'a>[ <String as From<&'a str>>::from ](s: &str) -> (r: String)
    ensures
        r@ == s@,
;

// ---------------------------------------------------------------------------
// White space and trimming
// ---------------------------------------------------------------------------

/// The characters with the Unicode property `White_Space`.
pub open spec fn is_white_space(c: char) -> bool {
    ||| '\u{9}' <= c <= '\u{d}'
    ||| c == ' '
    ||| c == '\u{85}'
    ||| c == '\u{a0}'
    ||| c == '\u{1680}'
    ||| '\u{2000}' <= c <= '\u{200a}'
    ||| c == '\u{2028}'
    ||| c == '\u{2029}'
    ||| c == '\u{202f}'
    ||| c == '\u{205f}'
    ||| c == '\u{3000}'
}

/// `s` without the white space that it starts with.
pub open spec fn trim_start(s: Seq<char>) -> Seq<char>
    decreases s.len(),
{
    if s.len() > 0 && is_white_space(s[0]) {
        trim_start(s.skip(1))
    } else {
        s
    }
}

/// `s` without the white space that it ends with.
pub open spec fn trim_end(s: Seq<char>) -> Seq<char>
    decreases s.len(),
{
    if s.len() > 0 && is_white_space(s.last()) {
        trim_end(s.drop_last())
    } else {
        s
    }
}

/// `s` without white space at either end.
pub open spec fn trimmed(s: Seq<char>) -> Seq<char> {
    trim_end(trim_start(s))
}

/// Whether `s` holds nothing but white space.
pub open spec fn is_blank(s: Seq<char>) -> bool {
    forall|i: int| 0 <= i < s.len() ==> is_white_space(#[trigger] s[i])
}

/// Trimming leaves nothing exactly where there is nothing but white space.
pub proof fn law_blank_iff_nothing_left(s: Seq<char>)
    ensures
        trimmed(s).len() == 0 <==> is_blank(s),
{
    lemma_trim_start(s);
    lemma_trim_end(trim_start(s));
    let k = s.len() - trim_start(s).len();
    if trimmed(s).len() == 0 {
        let t = trim_start(s);
        assert forall|i: int| 0 <= i < s.len() implies is_white_space(#[trigger] s[i]) by {
            if i >= k {
                assert(t[i - k] == s[i]);
            }
        }
    } else if is_blank(s) {
        assert(trim_start(s)[0] == s[k]);
    }
}

/// What `trim_start` leaves is the suffix after the leading white space.
pub proof fn lemma_trim_start(s: Seq<char>)
    ensures
        trim_start(s).len() <= s.len(),
        trim_start(s) == s.skip(s.len() - trim_start(s).len()),
        forall|i: int| 0 <= i < s.len() - trim_start(s).len() ==> is_white_space(#[trigger] s[i]),
        trim_start(s).len() > 0 ==> !is_white_space(trim_start(s)[0]),
    decreases s.len(),
{
    if s.len() > 0 && is_white_space(s[0]) {
        let rest = s.skip(1);
        lemma_trim_start(rest);
        assert(trim_start(s) =~= s.skip(s.len() - trim_start(s).len()));
        assert forall|i: int| 0 <= i < s.len() - trim_start(s).len() implies is_white_space(
            #[trigger] s[i],
        ) by {
            if i > 0 {
                assert(rest[i - 1] == s[i]);
            }
        }
    } else {
        assert(s.skip(0) =~= s);
    }
}

/// What `trim_end` leaves is the prefix before the trailing white space.
pub proof fn lemma_trim_end(s: Seq<char>)
    ensures
        trim_end(s).len() <= s.len(),
        trim_end(s) == s.take(trim_end(s).len() as int),
        forall|i: int| trim_end(s).len() <= i < s.len() ==> is_white_space(#[trigger] s[i]),
        trim_end(s).len() > 0 ==> !is_white_space(trim_end(s).last()),
    decreases s.len(),
{
    if s.len() > 0 && is_white_space(s.last()) {
        let front = s.drop_last();
        lemma_trim_end(front);
        assert(trim_end(s) =~= s.take(trim_end(s).len() as int));
        assert forall|i: int| trim_end(s).len() <= i < s.len() implies is_white_space(
            #[trigger] s[i],
        ) by {
            if i < s.len() - 1 {
                assert(front[i] == s[i]);
            }
        }
    } else {
        assert(s.take(s.len() as int) =~= s);
    }
}

/// Text that neither starts nor ends with white space is left as it is.
pub proof fn lemma_trimmed_unchanged(s: Seq<char>)
    requires
        s.len() > 0 ==> !is_white_space(s[0]) && !is_white_space(s.last()),
    ensures
        trimmed(s) == s,
{
}

/// White space in front of the text does not show after trimming.
pub proof fn lemma_trimmed_skips_leading(c: char, s: Seq<char>)
    requires
        is_white_space(c),
    ensures
        trimmed(seq![c] + s) == trimmed(s),
{
    assert((seq![c] + s).skip(1) =~= s);
}

/// White space behind the text does not show after trimming its end.
proof fn lemma_trim_end_ignores(s: Seq<char>, after: Seq<char>)
    requires
        is_blank(after),
    ensures
        trim_end(s + after) == trim_end(s),
    decreases after.len(),
{
    if after.len() == 0 {
        assert(s + after =~= s);
    } else {
        assert(is_white_space(after[after.len() - 1]));
        assert((s + after).drop_last() =~= s + after.drop_last());
        lemma_trim_end_ignores(s, after.drop_last());
    }
}

/// What stands behind a text that is not blank stays when its start is trimmed.
proof fn lemma_trim_start_keeps(s: Seq<char>, after: Seq<char>)
    requires
        !is_blank(s),
    ensures
        trim_start(s + after) == trim_start(s) + after,
    decreases s.len(),
{
    let whole = s + after;
    assert(whole[0] == s[0]);
    if is_white_space(s[0]) {
        let rest = s.skip(1);
        let i = choose|i: int| 0 <= i < s.len() && !is_white_space(#[trigger] s[i]);
        assert(rest[i - 1] == s[i]);
        assert(whole.skip(1) =~= rest + after);
        lemma_trim_start_keeps(rest, after);
    }
}

/// White space around the text does not show after trimming.
pub proof fn lemma_trimmed_ignores_surroundings(before: Seq<char>, s: Seq<char>, after: Seq<char>)
    requires
        is_blank(before),
        is_blank(after),
    ensures
        trimmed(before + s + after) == trimmed(s),
    decreases before.len(),
{
    if before.len() > 0 {
        assert(is_white_space(before[0]));
        assert(before + s + after =~= seq![before[0]] + (before.skip(1) + s + after));
        lemma_trimmed_skips_leading(before[0], before.skip(1) + s + after);
        lemma_trimmed_ignores_surroundings(before.skip(1), s, after);
    } else {
        assert(before + s + after =~= s + after);
        if is_blank(s) {
            assert(is_blank(s + after));
            law_blank_iff_nothing_left(s);
            law_blank_iff_nothing_left(s + after);
            assert(trimmed(s + after) =~= trimmed(s));
        } else {
            lemma_trim_start_keeps(s, after);
            lemma_trim_end_ignores(trim_start(s), after);
        }
    }
}

/// Whether `c` is white space.
pub fn char_is_white_space(c: char) -> (r: bool)
    ensures
        r == is_white_space(c),
{
    ('\u{9}' <= c && c <= '\u{d}') || c == ' ' || c == '\u{85}' || c == '\u{a0}' || c == '\u{1680}'
        || ('\u{2000}' <= c && c <= '\u{200a}') || c == '\u{2028}' || c == '\u{2029}'
        || c == '\u{202f}' || c == '\u{205f}' || c == '\u{3000}'
}

/// The characters of `s`.
pub fn chars_of(s: &str) -> (r: Vec<char>)
    ensures
        r@ == s@,
{
    let mut v: Vec<char> = Vec::new();
    for c in it: s.chars()
        invariant
            v@ == it.seq().take(it.index()),
            it.seq() == s@,
    {
        v.push(c);
    }
    v
}

/// The text that the characters of `v` from `from` up to `to` spell.
pub fn string_of(v: &Vec<char>, from: usize, to: usize) -> (r: String)
    requires
        from <= to <= v@.len(),
    ensures
        r@ == v@.subrange(from as int, to as int),
{
    let mut out = String::new();
    let mut i: usize = from;
    while i < to
        invariant
            from <= i <= to <= v@.len(),
            out@ == v@.subrange(from as int, i as int),
        decreases to - i,
    {
        out.push(v[i]);
        i = i + 1;
        assert(out@ =~= v@.subrange(from as int, i as int));
    }
    out
}

/// `s` without white space at either end.
pub fn trim(s: &str) -> (r: String)
    ensures
        r@ == trimmed(s@),
{
    let v = chars_of(s);
    let mut start: usize = 0;
    assert(v@.skip(0) =~= v@);
    while start < v.len() && char_is_white_space(v[start])
        invariant
            start <= v@.len(),
            trim_start(v@) == trim_start(v@.skip(start as int)),
        decreases v@.len() - start,
    {
        assert(v@.skip(start as int).skip(1) =~= v@.skip(start + 1));
        start = start + 1;
    }
    let ghost t = v@.skip(start as int);
    assert(trim_start(v@) == t);
    let mut end: usize = v.len();
    assert(v@.subrange(start as int, end as int) =~= t);
    while end > start && char_is_white_space(v[end - 1])
        invariant
            start <= end <= v@.len(),
            trim_end(t) == trim_end(v@.subrange(start as int, end as int)),
        decreases end,
    {
        assert(v@.subrange(start as int, end as int).drop_last() =~= v@.subrange(
            start as int,
            end - 1,
        ));
        end = end - 1;
    }
    string_of(&v, start, end)
}

/// Whether `s` holds nothing but white space.
pub fn blank(s: &str) -> (r: bool)
    ensures
        r == is_blank(s@),
{
    let v = chars_of(s);
    let mut i: usize = 0;
    while i < v.len()
        invariant
            i <= v@.len(),
            forall|j: int| 0 <= j < i ==> is_white_space(#[trigger] v@[j]),
            v@ == s@,
        decreases v@.len() - i,
    {
        if !char_is_white_space(v[i]) {
            assert(!is_white_space(s@[i as int]));
            return false;
        }
        i = i + 1;
    }
    true
}

// ---------------------------------------------------------------------------
// Comparing and searching
// ---------------------------------------------------------------------------

/// Whether the two texts are the same.
pub fn same(a: &str, b: &str) -> (r: bool)
    ensures
        r == (a@ == b@),
{
    a.to_string() == b.to_string()
}

/// Whether `pattern` stands in `s` at position `i`.
pub open spec fn matches_at(s: Seq<char>, pattern: Seq<char>, i: int) -> bool {
    0 <= i && i + pattern.len() <= s.len() && s.subrange(i, i + pattern.len()) == pattern
}

/// The first position from `i` on at which `pattern` stands in `s`.
pub open spec fn find_from(s: Seq<char>, pattern: Seq<char>, i: nat) -> Option<nat>
    decreases s.len() + 1 - i,
{
    if i + pattern.len() > s.len() {
        None
    } else if matches_at(s, pattern, i as int) {
        Some(i)
    } else {
        find_from(s, pattern, i + 1)
    }
}

/// The first position at which `pattern` stands in `s`.
pub open spec fn find(s: Seq<char>, pattern: Seq<char>) -> Option<nat> {
    find_from(s, pattern, 0)
}

/// Whether `pattern` stands somewhere in `s`.
pub open spec fn contains(s: Seq<char>, pattern: Seq<char>) -> bool {
    exists|i: int| #[trigger] matches_at(s, pattern, i)
}

/// `find_from` gives the least position, and one exactly where there is one.
pub proof fn lemma_find_from(s: Seq<char>, pattern: Seq<char>, i: nat)
    ensures
        match find_from(s, pattern, i) {
            Some(k) => i <= k && matches_at(s, pattern, k as int) && forall|j: int|
                i <= j < k ==> !#[trigger] matches_at(s, pattern, j),
            None => forall|j: int| i <= j ==> !#[trigger] matches_at(s, pattern, j),
        },
    decreases s.len() + 1 - i,
{
    if i + pattern.len() > s.len() {
    } else if matches_at(s, pattern, i as int) {
    } else {
        lemma_find_from(s, pattern, i + 1);
    }
}

/// `find` gives the least position at which the pattern stands, and one
/// exactly where the pattern occurs.
pub proof fn lemma_find(s: Seq<char>, pattern: Seq<char>)
    ensures
        find(s, pattern) is Some <==> contains(s, pattern),
        find(s, pattern) matches Some(k) ==> matches_at(s, pattern, k as int) && forall|j: int|
            0 <= j < k ==> !#[trigger] matches_at(s, pattern, j),
{
    lemma_find_from(s, pattern, 0);
}

/// The least position at which a pattern stands is the one that `find` gives.
pub proof fn lemma_find_is(s: Seq<char>, pattern: Seq<char>, k: nat)
    requires
        matches_at(s, pattern, k as int),
        forall|j: int| 0 <= j < k ==> !#[trigger] matches_at(s, pattern, j),
    ensures
        find(s, pattern) == Some(k),
{
    lemma_find(s, pattern);
}

/// Whether the characters of `pattern` stand in `v` from position `i` on.
pub fn stands_at(v: &Vec<char>, pattern: &Vec<char>, i: usize) -> (r: bool)
    requires
        i <= v@.len(),
    ensures
        r == matches_at(v@, pattern@, i as int),
{
    if pattern.len() > v.len() - i {
        return false;
    }
    let mut k: usize = 0;
    while k < pattern.len()
        invariant
            k <= pattern@.len(),
            i + pattern@.len() <= v.len(),
            forall|j: int| 0 <= j < k ==> v@[i + j] == #[trigger] pattern@[j],
        decreases pattern@.len() - k,
    {
        if v[i + k] != pattern[k] {
            assert(v@.subrange(i as int, i + pattern@.len())[k as int] == v@[i + k]);
            return false;
        }
        k = k + 1;
    }
    assert(v@.subrange(i as int, i + pattern@.len()) =~= pattern@);
    true
}

/// The first position, counted in characters, at which `pattern` stands.
pub fn find_chars(v: &Vec<char>, pattern: &Vec<char>) -> (r: Option<usize>)
    ensures
        match r {
            Some(k) => find(v@, pattern@) == Some(k as nat),
            None => find(v@, pattern@) is None,
        },
{
    let mut i: usize = 0;
    loop
        invariant
            i <= v@.len(),
            find(v@, pattern@) == find_from(v@, pattern@, i as nat),
        decreases v@.len() - i,
    {
        if pattern.len() > v.len() - i {
            return None;
        }
        if stands_at(v, pattern, i) {
            return Some(i);
        }
        assert(i == v@.len() ==> v@.subrange(i as int, i as int) =~= pattern@);
        i = i + 1;
    }
}

/// Whether `pattern` stands somewhere in `s`.
pub fn has(s: &str, pattern: &str) -> (r: bool)
    ensures
        r == contains(s@, pattern@),
{
    proof {
        lemma_find(s@, pattern@);
    }
    find_chars(&chars_of(s), &chars_of(pattern)).is_some()
}

/// Whether a character is a letter or a digit, by the Unicode rules that
/// `char::is_alphanumeric` follows.
pub uninterp spec fn alphanumeric(c: char) -> bool;

/// `char::is_alphanumeric` says whether the character is a letter or a digit.
/// In ASCII these are `a` to `z`, `A` to `Z` and `0` to `9`; which other
/// characters are is left to the name `alphanumeric`.
pub assume_specification[ char::is_alphanumeric ](c: char) -> (r: bool)
    ensures
        r == alphanumeric(c),
        c <= '\u{7f}' ==> r == ('a' <= c <= 'z' || 'A' <= c <= 'Z' || '0' <= c <= '9'),
;

/// Whether a character may be part of a name: a letter, a digit or `_`.
pub open spec fn is_name_char(c: char) -> bool {
    if c <= '\u{7f}' {
        'a' <= c <= 'z' || 'A' <= c <= 'Z' || '0' <= c <= '9' || c == '_'
    } else {
        alphanumeric(c)
    }
}

/// Whether no name goes on at position `i` of `s`.
pub open spec fn name_ends_at(s: Seq<char>, i: int) -> bool {
    i >= s.len() || !is_name_char(s[i])
}

/// Whether no name has started directly before position `i` of `s`.
pub open spec fn name_starts_at(s: Seq<char>, i: int) -> bool {
    i <= 0 || !is_name_char(s[i - 1])
}

/// Whether `pattern` stands somewhere in `s` such that no name goes on behind it.
pub open spec fn contains_ended(s: Seq<char>, pattern: Seq<char>) -> bool {
    exists|i: int| #[trigger]
        matches_at(s, pattern, i) && name_ends_at(s, i + pattern.len())
}

/// Whether `name` stands somewhere in `s` as a name of its own.
pub open spec fn contains_name(s: Seq<char>, name: Seq<char>) -> bool {
    exists|i: int| #[trigger]
        matches_at(s, name, i) && name_starts_at(s, i) && name_ends_at(s, i + name.len())
}

/// Whether a character may be part of a name.
fn name_char(c: char) -> (r: bool)
    ensures
        r == is_name_char(c),
{
    c.is_alphanumeric() || c == '_'
}

/// Whether `pattern` stands in `v` such that no name goes on behind it and,
/// where `alone` asks for it, none has started directly before it.
fn stands_ended(v: &Vec<char>, pattern: &Vec<char>, alone: bool) -> (r: bool)
    ensures
        r == exists|i: int| #[trigger]
            matches_at(v@, pattern@, i) && (alone ==> name_starts_at(v@, i)) && name_ends_at(
                v@,
                i + pattern@.len(),
            ),
{
    let n = v.len();
    let m = pattern.len();
    let mut i: usize = 0;
    while m <= n && i <= n - m
        invariant
            n == v@.len(),
            m == pattern@.len(),
            m <= n ==> i <= n - m + 1,
            m > n ==> i == 0,
            forall|j: int|
                0 <= j < i ==> !(#[trigger] matches_at(v@, pattern@, j) && (alone ==> name_starts_at(
                    v@,
                    j,
                )) && name_ends_at(v@, j + pattern@.len())),
        decreases n - i + 1,
    {
        if stands_at(v, pattern, i) && (!alone || i == 0 || !name_char(v[i - 1])) && (i + m == n
            || !name_char(v[i + m])) {
            assert(matches_at(v@, pattern@, i as int));
            return true;
        }
        if i == n - m {
            return false;
        }
        i = i + 1;
    }
    false
}

/// Whether `pattern` stands somewhere in `s` such that no name goes on behind it.
pub fn has_ended(s: &str, pattern: &str) -> (r: bool)
    ensures
        r == contains_ended(s@, pattern@),
{
    stands_ended(&chars_of(s), &chars_of(pattern), false)
}

/// Whether `name` stands somewhere in `s` as a name of its own.
pub fn has_name(s: &str, name: &str) -> (r: bool)
    ensures
        r == contains_name(s@, name@),
{
    stands_ended(&chars_of(s), &chars_of(name), true)
}

/// The first position of `c` in `s`.
pub open spec fn first_index(s: Seq<char>, c: char) -> Option<nat>
    decreases s.len(),
{
    if s.len() == 0 {
        None
    } else if s[0] == c {
        Some(0)
    } else {
        match first_index(s.skip(1), c) {
            Some(i) => Some(i + 1),
            None => None,
        }
    }
}

/// The last position of `c` in `s`.
pub open spec fn last_index(s: Seq<char>, c: char) -> Option<nat>
    decreases s.len(),
{
    if s.len() == 0 {
        None
    } else if s.last() == c {
        Some((s.len() - 1) as nat)
    } else {
        last_index(s.drop_last(), c)
    }
}

/// `first_index` gives the least position, and one exactly where there is one.
pub proof fn lemma_first_index(s: Seq<char>, c: char)
    ensures
        match first_index(s, c) {
            Some(k) => k < s.len() && s[k as int] == c && forall|j: int|
                0 <= j < k ==> #[trigger] s[j] != c,
            None => !s.contains(c),
        },
    decreases s.len(),
{
    if s.len() > 0 && s[0] != c {
        let rest = s.skip(1);
        lemma_first_index(rest, c);
        match first_index(rest, c) {
            Some(k) => {
                assert forall|j: int| 0 <= j < k + 1 implies #[trigger] s[j] != c by {
                    if j > 0 {
                        assert(rest[j - 1] == s[j]);
                    }
                }
            },
            None => {
                assert forall|j: int| 0 <= j < s.len() implies #[trigger] s[j] != c by {
                    if j > 0 {
                        assert(rest[j - 1] == s[j]);
                    }
                }
            },
        }
    }
}

/// The least position of a character is the one that `first_index` gives.
pub proof fn lemma_first_index_is(s: Seq<char>, c: char, k: nat)
    requires
        k < s.len(),
        s[k as int] == c,
        forall|j: int| 0 <= j < k ==> #[trigger] s[j] != c,
    ensures
        first_index(s, c) == Some(k),
{
    lemma_first_index(s, c);
}

/// `last_index` gives the greatest position, and one exactly where there is one.
pub proof fn lemma_last_index(s: Seq<char>, c: char)
    ensures
        match last_index(s, c) {
            Some(k) => k < s.len() && s[k as int] == c && forall|j: int|
                k < j < s.len() ==> #[trigger] s[j] != c,
            None => !s.contains(c),
        },
    decreases s.len(),
{
    if s.len() > 0 && s.last() != c {
        let front = s.drop_last();
        lemma_last_index(front, c);
        match last_index(front, c) {
            Some(k) => {
                assert forall|j: int| k < j < s.len() implies #[trigger] s[j] != c by {
                    if j < s.len() - 1 {
                        assert(front[j] == s[j]);
                    }
                }
            },
            None => {
                assert forall|j: int| 0 <= j < s.len() implies #[trigger] s[j] != c by {
                    if j < s.len() - 1 {
                        assert(front[j] == s[j]);
                    }
                }
            },
        }
    }
}

/// The greatest position of a character is the one that `last_index` gives.
pub proof fn lemma_last_index_is(s: Seq<char>, c: char, k: nat)
    requires
        k < s.len(),
        s[k as int] == c,
        forall|j: int| k < j < s.len() ==> #[trigger] s[j] != c,
    ensures
        last_index(s, c) == Some(k),
{
    lemma_last_index(s, c);
}

/// The first position of `c` among the characters of `v` from `from` on.
pub fn first_index_from(v: &Vec<char>, c: char, from: usize) -> (r: Option<usize>)
    requires
        from <= v@.len(),
    ensures
        match r {
            Some(k) => from <= k < v@.len() && first_index(v@.skip(from as int), c) == Some(
                (k - from) as nat,
            ),
            None => first_index(v@.skip(from as int), c) is None,
        },
{
    let ghost rest = v@.skip(from as int);
    proof {
        lemma_first_index(rest, c);
    }
    let mut i: usize = from;
    while i < v.len()
        invariant
            from <= i <= v@.len(),
            rest == v@.skip(from as int),
            forall|j: int| from <= j < i ==> #[trigger] v@[j] != c,
        decreases v@.len() - i,
    {
        if v[i] == c {
            proof {
                lemma_first_index_is(rest, c, (i - from) as nat);
            }
            return Some(i);
        }
        i = i + 1;
    }
    proof {
        if let Some(k) = first_index(rest, c) {
            assert(rest[k as int] == v@[from + k]);
        }
    }
    None
}

/// The last position of `c` among the characters of `v`.
pub fn last_index_of(v: &Vec<char>, c: char) -> (r: Option<usize>)
    ensures
        match r {
            Some(k) => last_index(v@, c) == Some(k as nat),
            None => last_index(v@, c) is None,
        },
{
    proof {
        lemma_last_index(v@, c);
    }
    let mut i: usize = v.len();
    while i > 0
        invariant
            i <= v@.len(),
            forall|j: int| i <= j < v@.len() ==> #[trigger] v@[j] != c,
        decreases i,
    {
        if v[i - 1] == c {
            proof {
                lemma_last_index_is(v@, c, (i - 1) as nat);
            }
            return Some(i - 1);
        }
        i = i - 1;
    }
    None
}

/// Whether `c` occurs among the characters of `v`.
pub fn has_char(v: &Vec<char>, c: char) -> (r: bool)
    ensures
        r == v@.contains(c),
{
    proof {
        lemma_last_index(v@, c);
    }
    last_index_of(v, c).is_some()
}

// ---------------------------------------------------------------------------
// Decimal numbers
// ---------------------------------------------------------------------------

/// Whether `c` is one of `0` to `9`.
pub open spec fn is_digit(c: char) -> bool {
    '0' <= c <= '9'
}

/// The digit that stands for `d`.
pub open spec fn digit_char(d: nat) -> char {
    (48 + d) as char
}

/// `n` in decimal, without leading zeros.
pub open spec fn decimal(n: nat) -> Seq<char>
    decreases n,
{
    if n < 10 {
        seq![digit_char(n)]
    } else {
        decimal(n / 10).push(digit_char(n % 10))
    }
}

/// The number that a run of digits spells.
pub open spec fn decimal_value(s: Seq<char>) -> nat
    decreases s.len(),
{
    if s.len() == 0 {
        0
    } else {
        decimal_value(s.drop_last()) * 10 + (s.last() as nat - 48) as nat
    }
}

/// Whether `s` is a run of digits, with at least one of them.
pub open spec fn is_digits(s: Seq<char>) -> bool {
    s.len() > 0 && forall|i: int| 0 <= i < s.len() ==> is_digit(#[trigger] s[i])
}

/// The `u32` that `s` spells: an optional `+`, then digits only.
pub open spec fn u32_of(s: Seq<char>) -> Option<u32> {
    let digits = if s.len() > 0 && s[0] == '+' {
        s.skip(1)
    } else {
        s
    };
    if is_digits(digits) && decimal_value(digits) <= u32::MAX {
        Some(decimal_value(digits) as u32)
    } else {
        None
    }
}

/// A number in decimal is a run of digits that spells that number.
pub proof fn lemma_decimal(n: nat)
    ensures
        is_digits(decimal(n)),
        decimal_value(decimal(n)) == n,
    decreases n,
{
    if n < 10 {
        let s = seq![digit_char(n)];
        assert(s.drop_last() =~= Seq::<char>::empty());
        assert(decimal_value(s.drop_last()) == 0);
    } else {
        lemma_decimal(n / 10);
        let s = decimal(n);
        assert(s.drop_last() =~= decimal(n / 10));
        assert forall|i: int| 0 <= i < s.len() implies is_digit(#[trigger] s[i]) by {
            if i < s.len() - 1 {
                assert(decimal(n / 10)[i] == s[i]);
            }
        }
    }
}

/// Reading back a `u32` that was written in decimal gives that number.
pub proof fn lemma_u32_of_decimal(n: u32)
    ensures
        u32_of(decimal(n as nat)) == Some(n),
{
    lemma_decimal(n as nat);
    assert(is_digit(decimal(n as nat)[0]));
}

/// More digits never spell a smaller number.
proof fn lemma_decimal_value_grows(s: Seq<char>, i: int)
    requires
        0 <= i <= s.len(),
    ensures
        decimal_value(s.take(i)) <= decimal_value(s),
    decreases s.len(),
{
    if i < s.len() {
        lemma_decimal_value_grows(s.drop_last(), i);
        assert(s.drop_last().take(i) =~= s.take(i));
    } else {
        assert(s.take(i) =~= s);
    }
}

/// `n` in decimal.
pub fn decimal_string(n: u64) -> (r: String)
    ensures
        r@ == decimal(n as nat),
    decreases n,
{
    let d: u8 = (n % 10) as u8;
    let c = (48 + d) as char;
    if n < 10 {
        let mut s = String::new();
        s.push(c);
        assert(s@ =~= seq![digit_char(n as nat)]);
        s
    } else {
        let mut s = decimal_string(n / 10);
        s.push(c);
        s
    }
}

/// Appends `n` in decimal to `out`.
pub fn push_decimal(out: &mut String, n: u64)
    ensures
        final(out)@ == old(out)@ + decimal(n as nat),
{
    out.append(decimal_string(n).as_str());
}

/// The `u32` that the characters of `v` from `from` up to `to` spell.
pub fn parse_u32(v: &Vec<char>, from: usize, to: usize) -> (r: Option<u32>)
    requires
        from <= to <= v@.len(),
    ensures
        r == u32_of(v@.subrange(from as int, to as int)),
{
    let ghost s = v@.subrange(from as int, to as int);
    let mut start: usize = from;
    if from < to && v[from] == '+' {
        start = from + 1;
    }
    let ghost digits = v@.subrange(start as int, to as int);
    assert(digits =~= if s.len() > 0 && s[0] == '+' { s.skip(1) } else { s });
    if start == to {
        return None;
    }
    let mut value: u64 = 0;
    let mut i: usize = start;
    assert(digits.take(0) =~= Seq::<char>::empty());
    while i < to
        invariant
            start <= i <= to <= v@.len(),
            from <= to,
            s == v@.subrange(from as int, to as int),
            digits == v@.subrange(start as int, to as int),
            forall|j: int| 0 <= j < i - start ==> is_digit(#[trigger] digits[j]),
            value == decimal_value(digits.take(i - start)),
            value <= u32::MAX,
            u32_of(s) == if is_digits(digits) && decimal_value(digits) <= u32::MAX {
                Some(decimal_value(digits) as u32)
            } else {
                None
            },
        decreases to - i,
    {
        let c = v[i];
        assert(digits[i - start] == c);
        if !('0' <= c && c <= '9') {
            return None;
        }
        assert(digits.take(i + 1 - start).drop_last() =~= digits.take(i - start));
        value = value * 10 + (c as u32 - 48) as u64;
        proof {
            lemma_decimal_value_grows(digits, i + 1 - start);
        }
        if value > u32::MAX as u64 {
            return None;
        }
        i = i + 1;
    }
    assert(digits.take(to - start) =~= digits);
    Some(value as u32)
}

// ---------------------------------------------------------------------------
// Lines
// ---------------------------------------------------------------------------

/// `s` without a carriage return at its end.
pub open spec fn without_cr(s: Seq<char>) -> Seq<char> {
    if s.len() > 0 && s.last() == '\r' {
        s.drop_last()
    } else {
        s
    }
}

/// The lines of `s`. A line ends with a line feed or with a carriage return
/// and a line feed; the last line need not have an end.
pub open spec fn lines(s: Seq<char>) -> Seq<Seq<char>>
    decreases s.len(),
    via lines_decreases
{
    if s.len() == 0 {
        Seq::empty()
    } else {
        match first_index(s, '\n') {
            None => seq![s],
            Some(i) => seq![without_cr(s.take(i as int))] + lines(s.skip(i as int + 1)),
        }
    }
}

#[via_fn]
proof fn lines_decreases(s: Seq<char>) {
    lemma_first_index(s, '\n');
}

/// The lines of `s`.
pub fn lines_of(s: &str) -> (r: Vec<String>)
    ensures
        r@.map_values(|l: String| l@) == lines(s@),
{
    let v = chars_of(s);
    let mut out: Vec<String> = Vec::new();
    let mut pos: usize = 0;
    assert(v@.skip(0) =~= v@);
    assert(out@.map_values(|l: String| l@) =~= Seq::<Seq<char>>::empty());
    assert(lines(s@) =~= out@.map_values(|l: String| l@) + lines(v@.skip(0)));
    while pos < v.len()
        invariant
            pos <= v@.len(),
            lines(s@) == out@.map_values(|l: String| l@) + lines(v@.skip(pos as int)),
        decreases v@.len() - pos,
    {
        let ghost rest = v@.skip(pos as int);
        let ghost before = out@;
        match first_index_from(&v, '\n', pos) {
            None => {
                let line = string_of(&v, pos, v.len());
                assert(line@ =~= rest);
                out.push(line);
                pos = v.len();
                assert(v@.skip(pos as int) =~= Seq::<char>::empty());
                assert(out@.map_values(|l: String| l@) =~= before.map_values(|l: String| l@).push(
                    rest,
                ));
                assert(lines(s@) =~= out@.map_values(|l: String| l@) + lines(
                    v@.skip(pos as int),
                ));
            },
            Some(k) => {
                let end = if k > pos && v[k - 1] == '\r' {
                    k - 1
                } else {
                    k
                };
                let line = string_of(&v, pos, end);
                assert(line@ =~= without_cr(rest.take(k - pos)));
                out.push(line);
                assert(rest.skip(k - pos + 1) =~= v@.skip(k + 1));
                pos = k + 1;
                assert(out@.map_values(|l: String| l@) =~= before.map_values(|l: String| l@).push(
                    line@,
                ));
                assert(lines(s@) =~= out@.map_values(|l: String| l@) + lines(
                    v@.skip(pos as int),
                ));
            },
        }
    }
    assert(v@.skip(pos as int) =~= Seq::<char>::empty());
    assert(lines(s@) =~= out@.map_values(|l: String| l@));
    out
}

// ---------------------------------------------------------------------------
// Positions in bytes
// ---------------------------------------------------------------------------

/// The number of bytes that `c` takes in UTF-8.
pub open spec fn utf8_width(c: char) -> nat {
    vstd::utf8::encode_scalar(c as u32).len()
}

/// The number of bytes that `s` takes in UTF-8.
pub open spec fn byte_len(s: Seq<char>) -> nat {
    vstd::utf8::encode_utf8(s).len()
}

/// What follows the first `n` bytes of `s`: nothing where `s` is shorter, or
/// where those bytes end inside a character.
pub open spec fn after_bytes(s: Seq<char>, n: nat) -> Option<Seq<char>>
    decreases s.len(),
{
    if n == 0 {
        Some(s)
    } else if s.len() == 0 || utf8_width(s[0]) > n {
        None
    } else {
        after_bytes(s.skip(1), (n - utf8_width(s[0])) as nat)
    }
}

/// Only a text that is long enough has something behind its first `n` bytes.
pub proof fn lemma_after_bytes(s: Seq<char>, n: nat)
    requires
        after_bytes(s, n) is Some,
    ensures
        byte_len(s) >= n,
    decreases s.len(),
{
    if n > 0 {
        lemma_after_bytes(s.skip(1), (n - utf8_width(s[0])) as nat);
        assert(s.skip(1) =~= s.drop_first());
    }
}

/// The number of bytes that `c` takes in UTF-8.
pub fn char_width(c: char) -> (r: usize)
    ensures
        r == utf8_width(c),
        r > 0,
{
    if c <= '\u{7f}' {
        1
    } else if c <= '\u{7ff}' {
        2
    } else if c <= '\u{ffff}' {
        3
    } else {
        4
    }
}

/// What follows the first `n` bytes of `s`.
pub fn skip_bytes(s: &str, n: usize) -> (r: Option<String>)
    ensures
        match r {
            Some(rest) => after_bytes(s@, n as nat) == Some(rest@),
            None => after_bytes(s@, n as nat) is None,
        },
{
    let v = chars_of(s);
    let mut left: usize = n;
    let mut i: usize = 0;
    assert(v@.skip(0) =~= v@);
    while left > 0
        invariant
            i <= v@.len(),
            v@ == s@,
            after_bytes(s@, n as nat) == after_bytes(v@.skip(i as int), left as nat),
        decreases left,
    {
        if i >= v.len() {
            return None;
        }
        let width = char_width(v[i]);
        if width > left {
            return None;
        }
        assert(v@.skip(i as int).skip(1) =~= v@.skip(i + 1));
        left = left - width;
        i = i + 1;
    }
    let rest = string_of(&v, i, v.len());
    assert(rest@ =~= v@.skip(i as int));
    Some(rest)
}

/// The texts that the strings hold.
pub open spec fn texts(strings: Seq<String>) -> Seq<Seq<char>> {
    strings.map_values(|s: String| s@)
}

/// Whether one of `strings` is `s`.
pub fn holds(strings: &Vec<String>, s: &String) -> (r: bool)
    ensures
        r == texts(strings@).contains(s@),
{
    let mut i: usize = 0;
    while i < strings.len()
        invariant
            i <= strings@.len(),
            forall|j: int| 0 <= j < i ==> #[trigger] texts(strings@)[j] != s@,
        decreases strings@.len() - i,
    {
        assert(texts(strings@)[i as int] == strings@[i as int]@);
        if strings[i] == *s {
            return true;
        }
        i = i + 1;
    }
    false
}

/// The text of a string, where there is one.
pub open spec fn optional_string(s: Option<String>) -> Option<Seq<char>> {
    match s {
        Some(s) => Some(s@),
        None => None,
    }
}

/// The text, where there is one.
pub open spec fn optional(s: Option<&str>) -> Option<Seq<char>> {
    match s {
        Some(s) => Some(s@),
        None => None,
    }
}

/// How many of the first bytes, at most `n`, are text in UTF-8.
pub open spec fn text_len_within(bytes: Seq<u8>, n: nat) -> nat
    decreases n,
{
    if n == 0 || vstd::utf8::valid_utf8(bytes.take(n as int)) {
        n
    } else {
        text_len_within(bytes, (n - 1) as nat)
    }
}

/// How many of the first bytes are text in UTF-8: as many as there can be.
pub open spec fn text_len(bytes: Seq<u8>) -> nat {
    text_len_within(bytes, bytes.len())
}

/// The text that the bytes start with.
pub open spec fn leading_text(bytes: Seq<u8>) -> Seq<char> {
    vstd::utf8::decode_utf8(bytes.take(text_len(bytes) as int))
}

/// `text_len` bytes are text, and no more are.
pub proof fn lemma_text_len(bytes: Seq<u8>, n: nat)
    requires
        n <= bytes.len(),
    ensures
        text_len_within(bytes, n) <= n,
        vstd::utf8::valid_utf8(bytes.take(text_len_within(bytes, n) as int)),
        forall|k: int|
            text_len_within(bytes, n) < k <= n ==> !vstd::utf8::valid_utf8(#[trigger] bytes.take(k)),
    decreases n,
{
    if n > 0 && !vstd::utf8::valid_utf8(bytes.take(n as int)) {
        lemma_text_len(bytes, (n - 1) as nat);
    }
}

/// The bytes of a text that is put together are those of its parts.
pub proof fn lemma_encode_joined(a: Seq<char>, b: Seq<char>)
    ensures
        vstd::utf8::encode_utf8(a + b) == vstd::utf8::encode_utf8(a) + vstd::utf8::encode_utf8(b),
    decreases a.len(),
{
    if a.len() == 0 {
        assert(a + b =~= b);
        assert(vstd::utf8::encode_utf8(a) + vstd::utf8::encode_utf8(b)
            =~= vstd::utf8::encode_utf8(b));
    } else {
        lemma_encode_joined(a.drop_first(), b);
        assert((a + b).drop_first() =~= a.drop_first() + b);
        assert(vstd::utf8::encode_utf8(a + b) =~= vstd::utf8::encode_utf8(a)
            + vstd::utf8::encode_utf8(b));
    }
}

/// `String::from_utf8` gives the text whose UTF-8 the bytes are, and fails on
/// bytes that are no UTF-8.
#[verifier::external_body]
fn decoded(bytes: Vec<u8>) -> (r: Option<String>)
    ensures
        match r {
            Some(s) => vstd::utf8::valid_utf8(bytes@) && s@ == vstd::utf8::decode_utf8(bytes@),
            None => !vstd::utf8::valid_utf8(bytes@),
        },
{
    String::from_utf8(bytes).ok()
}

/// The bytes of `v` from `from` up to `to`.
fn bytes_of(v: &Vec<u8>, from: usize, to: usize) -> (r: Vec<u8>)
    requires
        from <= to <= v@.len(),
    ensures
        r@ == v@.subrange(from as int, to as int),
{
    let mut out: Vec<u8> = Vec::new();
    let mut i: usize = from;
    while i < to
        invariant
            from <= i <= to <= v@.len(),
            out@ == v@.subrange(from as int, i as int),
        decreases to - i,
    {
        out.push(v[i]);
        i = i + 1;
        assert(out@ =~= v@.subrange(from as int, i as int));
    }
    out
}

/// Takes the text that `bytes` start with off them. Nothing is taken where they
/// start with no text: a character may not be complete yet.
pub fn take_text(bytes: &mut Vec<u8>) -> (r: Option<String>)
    ensures
        match r {
            Some(s) => text_len(old(bytes)@) > 0 && s@ == leading_text(old(bytes)@),
            None => text_len(old(bytes)@) == 0,
        },
        final(bytes)@ == old(bytes)@.skip(text_len(old(bytes)@) as int),
{
    let total = bytes.len();
    let mut n: usize = total;
    while n > 0
        invariant
            n <= total,
            total == bytes@.len(),
            bytes@ == old(bytes)@,
            text_len(bytes@) == text_len_within(bytes@, n as nat),
        decreases n,
    {
        let front = bytes_of(bytes, 0, n);
        assert(front@ =~= bytes@.take(n as int));
        if let Some(s) = decoded(front) {
            let rest = bytes_of(bytes, n, total);
            assert(rest@ =~= bytes@.skip(n as int));
            *bytes = rest;
            return Some(s);
        }
        n = n - 1;
    }
    assert(bytes@.skip(0) =~= bytes@);
    None
}

// ---------------------------------------------------------------------------
// Putting text together
// ---------------------------------------------------------------------------

/// `n` copies of `s`, one after the other.
pub open spec fn repeated(s: Seq<char>, n: nat) -> Seq<char>
    decreases n,
{
    if n == 0 {
        Seq::empty()
    } else {
        repeated(s, (n - 1) as nat) + s
    }
}

/// Appends `n` copies of `s` to `out`.
pub fn push_repeated(out: &mut String, s: &str, n: usize)
    ensures
        final(out)@ == old(out)@ + repeated(s@, n as nat),
{
    let mut copies = String::new();
    let mut i: usize = 0;
    while i < n
        invariant
            i <= n,
            copies@ == repeated(s@, i as nat),
        decreases n - i,
    {
        copies.append(s);
        i = i + 1;
    }
    out.append(copies.as_str());
}

// ---------------------------------------------------------------------------
// Laws
// ---------------------------------------------------------------------------

/// White space is told by its code point.
pub proof fn law_white_space_code_points(c: char)
    ensures
        is_white_space(c) <==> set![
            0x9u32, 0xa, 0xb, 0xc, 0xd, 0x20, 0x85, 0xa0, 0x1680, 0x2000, 0x2001, 0x2002, 0x2003,
            0x2004, 0x2005, 0x2006, 0x2007, 0x2008, 0x2009, 0x200a, 0x2028, 0x2029, 0x202f, 0x205f,
            0x3000,
        ].contains(c as u32),
{
}

/// A text is blank exactly where each of its characters is white space.
pub proof fn law_blank_iff_white_space(s: Seq<char>)
    ensures
        is_blank(s) <==> s.filter(|c: char| !is_white_space(c)).len() == 0,
    decreases s.len(),
{
    reveal(Seq::filter);
    if s.len() > 0 {
        law_blank_iff_white_space(s.drop_last());
        if is_blank(s) {
            assert(is_white_space(s[s.len() - 1]));
            assert(is_blank(s.drop_last()));
        } else if is_white_space(s.last()) {
            let i = choose|i: int| 0 <= i < s.len() && !is_white_space(#[trigger] s[i]);
            assert(!is_white_space(s.drop_last()[i]));
        }
    }
}

/// Trimming takes white space off both ends, all of it, and nothing else: what
/// it takes off in front and behind is given back.
pub proof fn law_trimming_takes_white_space_off(s: Seq<char>) -> (off: (Seq<char>, Seq<char>))
    ensures
        s == off.0 + trimmed(s) + off.1,
        forall|i: int| 0 <= i < off.0.len() ==> is_white_space(#[trigger] off.0[i]),
        forall|i: int| 0 <= i < off.1.len() ==> is_white_space(#[trigger] off.1[i]),
        trimmed(s).len() > 0 ==> !is_white_space(trimmed(s)[0]) && !is_white_space(
            trimmed(s).last(),
        ),
{
    let t = trim_start(s);
    lemma_trim_start(s);
    lemma_trim_end(t);
    let front = s.take(s.len() - t.len());
    let behind = t.skip(trimmed(s).len() as int);
    assert(s =~= front + trimmed(s) + behind);
    (front, behind)
}

/// A pattern stands at a position exactly where each of its characters does,
/// one behind the other.
pub proof fn law_matches_character_by_character(s: Seq<char>, pattern: Seq<char>, i: int)
    ensures
        matches_at(s, pattern, i) <==> {
            &&& 0 <= i
            &&& i + pattern.len() <= s.len()
            &&& forall|k: int| 0 <= k < pattern.len() ==> s[i + k] == #[trigger] pattern[k]
        },
{
    if matches_at(s, pattern, i) {
        assert forall|k: int| 0 <= k < pattern.len() implies s[i + k] == #[trigger] pattern[k] by {
            assert(s.subrange(i, i + pattern.len())[k] == s[i + k]);
        }
    } else if 0 <= i && i + pattern.len() <= s.len() {
        if forall|k: int| 0 <= k < pattern.len() ==> s[i + k] == #[trigger] pattern[k] {
            assert(s.subrange(i, i + pattern.len()) =~= pattern);
        }
    }
}

/// A text holds a pattern exactly where it can be cut into something, the
/// pattern, and something else; the three parts of such a cut are given.
pub proof fn law_contains_iff_cut(s: Seq<char>, pattern: Seq<char>, before: Seq<char>, after: Seq<char>)
    -> (cut: (Seq<char>, Seq<char>))
    ensures
        s == before + pattern + after ==> contains(s, pattern),
        contains(s, pattern) ==> s == cut.0 + pattern + cut.1,
{
    if s == before + pattern + after {
        let n = before.len() as int;
        assert(s.subrange(n, n + pattern.len()) =~= pattern);
        assert(matches_at(s, pattern, n));
    }
    let i = choose|i: int| matches_at(s, pattern, i);
    if contains(s, pattern) {
        assert(s =~= s.take(i) + pattern + s.skip(i + pattern.len()));
    }
    (s.take(i), s.skip(i + pattern.len()))
}

/// In ASCII, the characters of a name are the letters, the digits and `_`.
/// Beyond ASCII they are the letters and digits of Unicode.
pub proof fn law_name_characters(c: char)
    ensures
        'a' <= c <= 'z' || 'A' <= c <= 'Z' || '0' <= c <= '9' || c == '_' ==> is_name_char(c),
        c <= '\u{7f}' && is_name_char(c) ==> 'a' <= c <= 'z' || 'A' <= c <= 'Z' || '0' <= c <= '9'
            || c == '_',
        c > '\u{7f}' ==> is_name_char(c) == alphanumeric(c),
{
}

/// A pattern stands with no name going on behind it exactly where it ends the
/// text, or a character that no name holds comes next.
pub proof fn law_ended_iff(s: Seq<char>, pattern: Seq<char>)
    ensures
        contains_ended(s, pattern) <==> exists|i: int| #[trigger]
            matches_at(s, pattern, i) && (i + pattern.len() == s.len() || !is_name_char(
                s[i + pattern.len()],
            )),
{
}

/// A name stands on its own exactly where neither the character in front of it
/// nor the one behind it can be part of a name.
pub proof fn law_name_iff(s: Seq<char>, name: Seq<char>)
    ensures
        contains_name(s, name) <==> exists|i: int| #[trigger]
            matches_at(s, name, i) && (i == 0 || !is_name_char(s[i - 1])) && (i + name.len()
                == s.len() || !is_name_char(s[i + name.len()])),
{
}

/// A digit behind a number multiplies it by ten and adds the digit. A number
/// below ten is its digit.
pub proof fn law_decimal_digit_by_digit(n: nat, d: nat)
    requires
        d < 10,
    ensures
        decimal(d) == seq!["0123456789"@[d as int]],
        n > 0 ==> decimal(n * 10 + d) == decimal(n) + decimal(d),
{
    reveal_strlit("0123456789");
    if n > 0 {
        assert((n * 10 + d) / 10 == n);
        assert((n * 10 + d) % 10 == d);
        assert(decimal(n * 10 + d) =~= decimal(n) + decimal(d));
    }
}

/// Different numbers are written differently.
pub proof fn law_decimal_tells_numbers_apart(a: nat, b: nat)
    requires
        decimal(a) == decimal(b),
    ensures
        a == b,
{
    lemma_decimal(a);
    lemma_decimal(b);
}

/// A number that was written down reads back, also with `+` or zeros in front.
pub proof fn law_number_reads_back(n: u32, zeros: nat)
    ensures
        u32_of(repeated("0"@, zeros) + decimal(n as nat)) == Some(n),
        u32_of("+"@ + repeated("0"@, zeros) + decimal(n as nat)) == Some(n),
{
    reveal_strlit("0");
    reveal_strlit("+");
    let s = repeated("0"@, zeros) + decimal(n as nat);
    lemma_leading_zeros(n as nat, zeros);
    assert(is_digit(s[0]));
    let signed = "+"@ + repeated("0"@, zeros) + decimal(n as nat);
    assert(signed.skip(1) =~= s);
}

proof fn lemma_leading_zeros(n: nat, zeros: nat)
    ensures
        is_digits(repeated("0"@, zeros) + decimal(n)),
        decimal_value(repeated("0"@, zeros) + decimal(n)) == n,
    decreases zeros, n,
{
    reveal_strlit("0");
    let s = repeated("0"@, zeros) + decimal(n);
    lemma_decimal(n);
    lemma_zeros(zeros);
    assert forall|i: int| 0 <= i < s.len() implies is_digit(#[trigger] s[i]) by {
        if i < zeros {
            assert(s[i] == repeated("0"@, zeros)[i]);
        } else {
            assert(s[i] == decimal(n)[i - zeros]);
        }
    }
    if n < 10 {
        assert(s.drop_last() =~= repeated("0"@, zeros));
    } else {
        lemma_leading_zeros(n / 10, zeros);
        assert(s.drop_last() =~= repeated("0"@, zeros) + decimal(n / 10));
    }
}

proof fn lemma_zeros(zeros: nat)
    ensures
        repeated("0"@, zeros).len() == zeros,
        forall|i: int| 0 <= i < zeros ==> #[trigger] repeated("0"@, zeros)[i] == '0',
        decimal_value(repeated("0"@, zeros)) == 0,
    decreases zeros,
{
    reveal_strlit("0");
    if zeros > 0 {
        lemma_zeros((zeros - 1) as nat);
        assert(repeated("0"@, zeros).drop_last() =~= repeated("0"@, (zeros - 1) as nat));
    }
}

/// Text that reads as a number is an optional `+` and digits, at least one of
/// them, and the number is the one that is written in these digits.
pub proof fn law_only_digits_read_as_a_number(s: Seq<char>, n: u32)
    requires
        u32_of(s) == Some(n),
    ensures
        s.len() > 0,
        '0' <= s.last() <= '9',
        forall|i: int| 0 < i < s.len() ==> '0' <= #[trigger] s[i] <= '9',
        s[0] == '+' || '0' <= s[0] <= '9',
        s.len() == 1 ==> decimal(n as nat) == s,
        s.len() > 1 && s[s.len() - 2] != '+' ==> u32_of(s.drop_last()) == Some((n / 10) as u32)
            && decimal((n % 10) as nat) == seq![s.last()],
{
    let digits = if s[0] == '+' {
        s.skip(1)
    } else {
        s
    };
    assert(is_digit(digits[digits.len() - 1]));
    assert(s.last() == digits.last());
    assert forall|i: int| 0 < i < s.len() implies '0' <= #[trigger] s[i] <= '9' by {
        if s[0] == '+' {
            assert(is_digit(digits[i - 1]));
        } else {
            assert(is_digit(digits[i]));
        }
    }
    if s[0] != '+' {
        assert(is_digit(digits[0]));
    }
    let front = digits.drop_last();
    let v = decimal_value(front);
    let d = (digits.last() as nat - 48) as nat;
    assert(decimal_value(digits) == v * 10 + d);
    if s.len() == 1 {
        assert(front =~= Seq::<char>::empty());
        assert(v == 0);
        assert(s =~= decimal(n as nat));
    }
    if s.len() > 1 && s[s.len() - 2] != '+' {
        assert forall|i: int| 0 <= i < front.len() implies is_digit(#[trigger] front[i]) by {
            assert(is_digit(digits[i]));
        }
        let t = s.drop_last();
        assert((if t[0] == '+' { t.skip(1) } else { t }) =~= front);
        assert(n / 10 == v && n % 10 == d);
        assert(seq![s.last()] =~= decimal(d));
    }
}

/// A text without a line end is one line, unless it is empty.
pub proof fn law_text_without_line_end_is_one_line(s: Seq<char>)
    requires
        !s.contains('\n'),
    ensures
        lines(s) == if s.len() == 0 {
            Seq::empty()
        } else {
            seq![s]
        },
{
    lemma_first_index(s, '\n');
}

/// What stands in front of the first line end is the first line, without a
/// carriage return at its end; the other lines are those of the rest.
pub proof fn law_first_line_comes_first(line: Seq<char>, rest: Seq<char>)
    requires
        !line.contains('\n'),
    ensures
        lines(line + seq!['\n'] + rest) == seq![
            if line.len() > 0 && line.last() == '\r' {
                line.drop_last()
            } else {
                line
            },
        ] + lines(rest),
{
    let s = line + seq!['\n'] + rest;
    let n = line.len();
    assert forall|j: int| 0 <= j < n implies #[trigger] s[j] != '\n' by {
        assert(s[j] == line[j]);
    }
    lemma_first_index_is(s, '\n', n);
    assert(s.take(n as int) =~= line);
    assert(s.skip(n as int + 1) =~= rest);
}

/// What follows the bytes of a text is what stands behind that text.
pub proof fn law_text_behind_its_bytes(a: Seq<char>, b: Seq<char>)
    ensures
        after_bytes(a + b, vstd::utf8::encode_utf8(a).len()) == Some(b),
    decreases a.len(),
{
    if a.len() == 0 {
        assert(a + b =~= b);
    } else {
        law_text_behind_its_bytes(a.drop_first(), b);
        assert((a + b).skip(1) =~= a.drop_first() + b);
        assert(vstd::utf8::encode_utf8(a).len() == utf8_width(a[0]) + vstd::utf8::encode_utf8(
            a.drop_first(),
        ).len());
        lemma_width(a[0]);
    }
}

/// What follows `n` bytes stands behind a text of `n` bytes, which is given.
pub proof fn law_bytes_in_front_of_the_rest(s: Seq<char>, n: nat) -> (front: Seq<char>)
    ensures
        after_bytes(s, n) matches Some(rest) ==> s == front + rest && vstd::utf8::encode_utf8(
            front,
        ).len() == n,
    decreases s.len(),
{
    if n == 0 || s.len() == 0 || utf8_width(s[0]) > n {
        assert(Seq::<char>::empty() + s =~= s);
        Seq::empty()
    } else {
        let w = utf8_width(s[0]);
        let later = law_bytes_in_front_of_the_rest(s.skip(1), (n - w) as nat);
        let front = seq![s[0]] + later;
        assert(front.drop_first() =~= later);
        if let Some(rest) = after_bytes(s, n) {
            assert(s =~= seq![s[0]] + s.skip(1));
            assert(s =~= front + rest);
        }
        front
    }
}

proof fn lemma_width(c: char)
    ensures
        1 <= utf8_width(c) <= 4,
        c <= '\u{7f}' ==> utf8_width(c) == 1,
{
}

/// The first bytes that count as text are text in UTF-8, no more of them are,
/// and the text is the one that they spell.
pub proof fn law_leading_text_is_as_long_as_can_be(bytes: Seq<u8>, k: int)
    ensures
        text_len(bytes) <= bytes.len(),
        vstd::utf8::encode_utf8(leading_text(bytes)) == bytes.take(text_len(bytes) as int),
        text_len(bytes) < k <= bytes.len() ==> !vstd::utf8::valid_utf8(bytes.take(k)),
{
    lemma_text_len(bytes, bytes.len());
    vstd::utf8::decode_utf8_encode_utf8(bytes.take(text_len(bytes) as int));
}

/// Copies of a text can be put together from fewer copies, and one copy is the
/// text itself.
pub proof fn law_copies_add_up(s: Seq<char>, a: nat, b: nat)
    ensures
        repeated(s, 0).len() == 0,
        repeated(s, 1) == s,
        repeated(s, a + b) == repeated(s, a) + repeated(s, b),
    decreases b,
{
    assert(repeated(s, 0) + s =~= s);
    assert(repeated(s, 1) == repeated(s, 0) + s);
    if b > 0 {
        law_copies_add_up(s, a, (b - 1) as nat);
        assert(repeated(s, a + b) =~= repeated(s, a) + repeated(s, b));
    } else {
        assert(repeated(s, a) + repeated(s, 0) =~= repeated(s, a));
    }
}

/// The texts of strings are their characters, one text for each string.
pub proof fn law_texts_one_by_one(strings: Seq<String>, i: int)
    ensures
        texts(strings).len() == strings.len(),
        0 <= i < strings.len() ==> texts(strings)[i] == strings[i]@,
{
}

/// An optional text is there where its string is, and is the text of it.
pub proof fn law_optional_text(owned: Option<String>, borrowed: Option<&str>)
    ensures
        owned is None <==> optional_string(owned) is None,
        owned matches Some(s) ==> optional_string(owned) == Some(s@),
        borrowed is None <==> optional(borrowed) is None,
        borrowed matches Some(s) ==> optional(borrowed) == Some(s@),
{
}

/// The lines of two texts follow each other, where the first one is empty or its
/// last line has ended.
pub proof fn law_lines_of_two_texts_follow(a: Seq<char>, b: Seq<char>)
    requires
        a.len() > 0 ==> a.last() == '\n',
    ensures
        lines(a + b) == lines(a) + lines(b),
    decreases a.len(),
{
    if a.len() == 0 {
        assert(a + b =~= b);
        assert(lines(a) + lines(b) =~= lines(b));
    } else {
        lemma_first_index(a, '\n');
        assert(a[a.len() - 1] == '\n');
        let n = first_index(a, '\n')->0 as int;
        let line = a.take(n);
        let rest = a.skip(n + 1);
        assert(!line.contains('\n')) by {
            assert forall|j: int| 0 <= j < line.len() implies line[j] != '\n' by {
                assert(line[j] == a[j]);
            }
        }
        if rest.len() > 0 {
            assert(rest.last() == a.last());
        }
        law_lines_of_two_texts_follow(rest, b);
        assert(a =~= line + seq!['\n'] + rest);
        assert(a + b =~= line + seq!['\n'] + (rest + b));
        law_first_line_comes_first(line, rest);
        law_first_line_comes_first(line, rest + b);
        assert(lines(a + b) =~= lines(a) + lines(b));
    }
}

} // verus!
