//! Character-level helpers shared by the parsers and the command builders:
//! conversion between strings and character vectors, the replacement
//! character, white space, trimming and splitting at a separator.

use vstd::prelude::*;

verus! {

/// `String::push` of std. Believed, not proved: the character is appended
/// at the end and nothing else changes.
pub assume_specification[ String::push ](s: &mut String, c: char)
    ensures
        final(s)@ == old(s)@.push(c),
;

/// The views of the rows of `v`, in order.
pub open spec fn rows(v: Seq<Vec<char>>) -> Seq<Seq<char>> {
    Seq::new(v.len(), |i: int| v[i]@)
}

/// The views of the strings of `v`, in order.
pub open spec fn texts(v: Seq<String>) -> Seq<Seq<char>> {
    Seq::new(v.len(), |i: int| v[i]@)
}

/// The characters of `s`, in order.
pub fn chars_of(s: &str) -> (v: Vec<char>)
    ensures
        v@ == s@,
{
    let mut v: Vec<char> = Vec::new();
    for c in it: s.chars()
        invariant
            v@ == it.seq().take(it.index()),
            it.seq() == s@,
    {
        v.push(c);
    }
    v
}

/// The string made of the characters of `v`, in order.
pub fn string_of(v: &Vec<char>) -> (s: String)
    ensures
        s@ == v@,
{
    let mut s = String::new();
    let mut i: usize = 0;
    while i < v.len()
        invariant
            i <= v.len(),
            s@ == v@.take(i as int),
        decreases v.len() - i,
    {
        s.push(v[i]);
        i += 1;
    }
    s
}

/// The character that stands where a text could not be decoded.
pub const REPLACEMENT_CHARACTER: char = '\u{fffd}';

/// `s` holds the replacement character, so part of it was lost in
/// decoding.
pub open spec fn is_garbled(s: Seq<char>) -> bool {
    exists|i: int| 0 <= i < s.len() && s[i] == REPLACEMENT_CHARACTER
}

/// Tells whether `s` holds the replacement character.
pub fn contains_replacement(s: &str) -> (r: bool)
    ensures
        r == is_garbled(s@),
{
    let chars = chars_of(s);
    let mut i: usize = 0;
    while i < chars.len()
        invariant
            i <= chars.len(),
            chars@ == s@,
            forall|j: int| 0 <= j < i ==> s@[j] != REPLACEMENT_CHARACTER,
        decreases chars.len() - i,
    {
        if chars[i] == REPLACEMENT_CHARACTER {
            return true;
        }
        i += 1;
    }
    false
}

/// White space in the sense of Unicode's `White_Space` property.
pub open spec fn is_space(c: char) -> bool {
    let u = c as u32;
    ||| 0x09 <= u <= 0x0D
    ||| u == 0x20
    ||| u == 0x85
    ||| u == 0xA0
    ||| u == 0x1680
    ||| 0x2000 <= u <= 0x200A
    ||| u == 0x2028
    ||| u == 0x2029
    ||| u == 0x202F
    ||| u == 0x205F
    ||| u == 0x3000
}

/// Tells whether `c` is white space.
pub fn is_space_char(c: char) -> (r: bool)
    ensures
        r == is_space(c),
{
    let u: u32 = c as u32;
    (0x09 <= u && u <= 0x0D) || u == 0x20 || u == 0x85 || u == 0xA0 || u == 0x1680 || (0x2000 <= u
        && u <= 0x200A) || u == 0x2028 || u == 0x2029 || u == 0x202F || u == 0x205F || u == 0x3000
}

/// How many characters of white space `s` starts with.
pub open spec fn leading_spaces(s: Seq<char>) -> nat
    decreases s.len(),
{
    if s.len() > 0 && is_space(s[0]) {
        1 + leading_spaces(s.drop_first())
    } else {
        0
    }
}

/// How many characters of white space `s` ends with.
pub open spec fn trailing_spaces(s: Seq<char>) -> nat
    decreases s.len(),
{
    if s.len() > 0 && is_space(s.last()) {
        1 + trailing_spaces(s.drop_last())
    } else {
        0
    }
}

/// `s` without the white space at its two ends.
pub open spec fn trim(s: Seq<char>) -> Seq<char> {
    let rest = s.skip(leading_spaces(s) as int);
    rest.take(rest.len() - trailing_spaces(rest))
}

/// A run of white space at the start of `s` that ends at the first other
/// character, or at the end of `s`, is all the leading white space.
pub proof fn lemma_leading_spaces(s: Seq<char>, n: int)
    requires
        0 <= n <= s.len(),
        forall|j: int| 0 <= j < n ==> is_space(#[trigger] s[j]),
        n == s.len() || !is_space(s[n]),
    ensures
        leading_spaces(s) == n,
    decreases n,
{
    if n > 0 {
        let t = s.drop_first();
        assert forall|j: int| 0 <= j < n - 1 implies is_space(#[trigger] t[j]) by {
            assert(t[j] == s[j + 1]);
        }
        lemma_leading_spaces(t, n - 1);
    }
}

/// A run of white space at the end of `s` that begins after the last other
/// character, or at the start of `s`, is all the trailing white space.
pub proof fn lemma_trailing_spaces(s: Seq<char>, n: int)
    requires
        0 <= n <= s.len(),
        forall|j: int| s.len() - n <= j < s.len() ==> is_space(#[trigger] s[j]),
        n == s.len() || !is_space(s[s.len() - n - 1]),
    ensures
        trailing_spaces(s) == n,
    decreases n,
{
    if n > 0 {
        let t = s.drop_last();
        assert forall|j: int| t.len() - (n - 1) <= j < t.len() implies is_space(
            #[trigger] t[j],
        ) by {
            assert(t[j] == s[j]);
        }
        lemma_trailing_spaces(t, n - 1);
    }
}

/// The leading white space ends at the end of `s` or before a character
/// that is no white space.
pub proof fn lemma_leading_spaces_end(s: Seq<char>)
    ensures
        leading_spaces(s) <= s.len(),
        leading_spaces(s) < s.len() ==> !is_space(s[leading_spaces(s) as int]),
    decreases s.len(),
{
    if s.len() > 0 && is_space(s[0]) {
        let t = s.drop_first();
        lemma_leading_spaces_end(t);
        if leading_spaces(t) < t.len() {
            assert(t[leading_spaces(t) as int] == s[leading_spaces(s) as int]);
        }
    }
}

/// The trailing white space begins at the start of `s` or after a
/// character that is no white space.
pub proof fn lemma_trailing_spaces_end(s: Seq<char>)
    ensures
        trailing_spaces(s) <= s.len(),
        trailing_spaces(s) < s.len() ==> !is_space(s[s.len() - trailing_spaces(s) - 1]),
    decreases s.len(),
{
    if s.len() > 0 && is_space(s.last()) {
        let t = s.drop_last();
        lemma_trailing_spaces_end(t);
        if trailing_spaces(t) < t.len() {
            assert(t[t.len() - trailing_spaces(t) - 1] == s[s.len() - trailing_spaces(s) - 1]);
        }
    }
}

/// A trimmed text is no longer than the text, and where it is not empty
/// it neither begins nor ends with white space.
pub proof fn lemma_trim_ends(s: Seq<char>)
    ensures
        trim(s).len() <= s.len(),
        trim(s).len() > 0 ==> !is_space(trim(s).first()) && !is_space(trim(s).last()),
{
    lemma_leading_spaces_end(s);
    let rest = s.skip(leading_spaces(s) as int);
    lemma_trailing_spaces_end(rest);
    if trim(s).len() > 0 {
        assert(trim(s).first() == s[leading_spaces(s) as int]);
        assert(trim(s).last() == rest[rest.len() - trailing_spaces(rest) - 1]);
    }
}

/// A copy of `s` without the white space at its two ends.
pub fn trimmed(s: &Vec<char>) -> (t: Vec<char>)
    ensures
        t@ == trim(s@),
{
    let mut a: usize = 0;
    while a < s.len() && is_space_char(s[a])
        invariant
            a <= s.len(),
            forall|j: int| 0 <= j < a ==> is_space(#[trigger] s@[j]),
        decreases s.len() - a,
    {
        a += 1;
    }
    let mut b: usize = s.len();
    while b > a && is_space_char(s[b - 1])
        invariant
            a <= b <= s.len(),
            forall|j: int| b <= j < s.len() ==> is_space(#[trigger] s@[j]),
        decreases b,
    {
        b -= 1;
    }
    let mut t: Vec<char> = Vec::new();
    let mut i: usize = a;
    while i < b
        invariant
            a <= i <= b <= s.len(),
            t@ == s@.subrange(a as int, i as int),
        decreases b - i,
    {
        t.push(s[i]);
        i += 1;
    }
    proof {
        lemma_leading_spaces(s@, a as int);
        let rest = s@.skip(a as int);
        assert forall|j: int| rest.len() - (s.len() - b) <= j < rest.len() implies is_space(
            #[trigger] rest[j],
        ) by {
            assert(rest[j] == s@[j + a]);
        }
        lemma_trailing_spaces(rest, s.len() - b);
        assert(t@ == rest.take(rest.len() - (s.len() - b)));
    }
    t
}

/// The pieces of `s` between the occurrences of `sep`, in order. There is
/// one piece more than there are separators, so the empty text has one
/// empty piece.
pub open spec fn split(s: Seq<char>, sep: char) -> Seq<Seq<char>>
    decreases s.len(),
{
    if s.len() == 0 {
        seq![Seq::<char>::empty()]
    } else {
        let before = split(s.drop_last(), sep);
        if s.last() == sep {
            before.push(Seq::<char>::empty())
        } else {
            before.drop_last().push(before.last().push(s.last()))
        }
    }
}

/// A text always splits into at least one piece.
pub proof fn lemma_split_nonempty(s: Seq<char>, sep: char)
    ensures
        split(s, sep).len() >= 1,
    decreases s.len(),
{
    if s.len() > 0 {
        lemma_split_nonempty(s.drop_last(), sep);
    }
}

/// A text without a separator is its own single piece.
pub proof fn lemma_split_without_separator(s: Seq<char>, sep: char)
    requires
        forall|i: int| 0 <= i < s.len() ==> s[i] != sep,
    ensures
        split(s, sep) == seq![s],
    decreases s.len(),
{
    if s.len() > 0 {
        let head = s.drop_last();
        lemma_split_without_separator(head, sep);
        assert(head.push(s.last()) == s);
        assert(seq![head].drop_last().push(seq![head].last().push(s.last())) == seq![s]);
    } else {
        assert(s == Seq::<char>::empty());
    }
}

/// A separator followed by a text without separators adds that text as
/// one more piece.
pub proof fn lemma_split_append(x: Seq<char>, y: Seq<char>, sep: char)
    requires
        forall|i: int| 0 <= i < y.len() ==> y[i] != sep,
    ensures
        split(x + seq![sep] + y, sep) == split(x, sep).push(y),
    decreases y.len(),
{
    let whole = x + seq![sep] + y;
    if y.len() == 0 {
        assert(whole.drop_last() == x);
        assert(y == Seq::<char>::empty());
    } else {
        let head = y.drop_last();
        lemma_split_append(x, head, sep);
        assert(whole.drop_last() == x + seq![sep] + head);
        assert(head.push(y.last()) == y);
        let before = split(x, sep).push(head);
        assert(before.drop_last() == split(x, sep));
        assert(before.drop_last().push(before.last().push(whole.last())) == split(x, sep).push(y));
    }
}

/// Every character of a text is the separator or lies in one of the
/// pieces: where all characters of all pieces have a property, all
/// characters of the text but the separators have it.
pub proof fn lemma_split_covers(s: Seq<char>, sep: char, property: spec_fn(char) -> bool)
    requires
        forall|k: int, j: int|
            0 <= k < split(s, sep).len() && 0 <= j < split(s, sep)[k].len() ==> property(
                #[trigger] split(s, sep)[k][j],
            ),
    ensures
        forall|i: int| 0 <= i < s.len() ==> #[trigger] s[i] == sep || property(s[i]),
    decreases s.len(),
{
    if s.len() > 0 {
        let head = s.drop_last();
        let before = split(head, sep);
        let pieces = split(s, sep);
        lemma_split_nonempty(head, sep);
        assert forall|k: int, j: int|
            0 <= k < before.len() && 0 <= j < before[k].len() implies property(
            #[trigger] before[k][j],
        ) by {
            if s.last() == sep {
                assert(before[k][j] == pieces[k][j]);
            } else {
                assert(before[k][j] == pieces[k][j]);
            }
        }
        lemma_split_covers(head, sep, property);
        assert forall|i: int| 0 <= i < s.len() implies #[trigger] s[i] == sep || property(
            s[i],
        ) by {
            if i < s.len() - 1 {
                assert(s[i] == head[i]);
            } else if s.last() != sep {
                let last = pieces.len() - 1;
                assert(pieces[last][before.last().len() as int] == s.last());
            }
        }
    }
}

/// Splits `s` at every occurrence of `sep`.
pub fn split_fields(s: &Vec<char>, sep: char) -> (fields: Vec<Vec<char>>)
    ensures
        rows(fields@) == split(s@, sep),
{
    let mut done: Vec<Vec<char>> = Vec::new();
    let mut cur: Vec<char> = Vec::new();
    let mut i: usize = 0;
    while i < s.len()
        invariant
            i <= s.len(),
            split(s@.take(i as int), sep) == rows(done@).push(cur@),
        decreases s.len() - i,
    {
        let c = s[i];
        proof {
            assert(s@.take(i + 1).drop_last() == s@.take(i as int));
        }
        let ghost before = rows(done@).push(cur@);
        if c == sep {
            done.push(cur);
            cur = Vec::new();
            assert(rows(done@).push(cur@) == before.push(Seq::<char>::empty()));
        } else {
            cur.push(c);
            assert(rows(done@).push(cur@) == before.drop_last().push(before.last().push(c)));
        }
        i += 1;
    }
    proof {
        assert(s@.take(s.len() as int) == s@);
    }
    let ghost before = rows(done@).push(cur@);
    done.push(cur);
    assert(rows(done@) == before);
    done
}

} // verus!
