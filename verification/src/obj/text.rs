//! Byte-level scanning of OBJ text: lines, whitespace-separated fields and
//! separator-delimited components.

use vstd::prelude::*;

verus! {

/// Line feed, the byte that ends a line.
pub const LINE_FEED: u8 = 10;

/// ASCII whitespace: space, tab, line feed, vertical tab, form feed and
/// carriage return.
pub open spec fn is_space(b: u8) -> bool {
    b == 32 || (9 <= b && b <= 13)
}

/// The first index at or after `i` that does not hold whitespace, or the
/// length of `s` when only whitespace follows.
pub open spec fn spaces_end(s: Seq<u8>, i: int) -> int
    decreases s.len() - i,
{
    if 0 <= i < s.len() && is_space(s[i]) {
        spaces_end(s, i + 1)
    } else {
        i
    }
}

/// The first index at or after `i` that holds whitespace, or the length of
/// `s` when none follows.
pub open spec fn word_end(s: Seq<u8>, i: int) -> int
    decreases s.len() - i,
{
    if 0 <= i < s.len() && !is_space(s[i]) {
        word_end(s, i + 1)
    } else {
        i
    }
}

/// The first index at or after `i` that holds `sep`, or the length of `s`
/// when none follows.
pub open spec fn sep_pos(s: Seq<u8>, sep: u8, i: int) -> int
    decreases s.len() - i,
{
    if 0 <= i < s.len() && s[i] != sep {
        sep_pos(s, sep, i + 1)
    } else {
        i
    }
}

pub proof fn lemma_spaces_end(s: Seq<u8>, i: int)
    requires
        0 <= i <= s.len(),
    ensures
        i <= spaces_end(s, i) <= s.len(),
        spaces_end(s, i) < s.len() ==> !is_space(s[spaces_end(s, i)]),
        forall|j: int| i <= j < spaces_end(s, i) ==> is_space(#[trigger] s[j]),
    decreases s.len() - i,
{
    if i < s.len() && is_space(s[i]) {
        lemma_spaces_end(s, i + 1);
    }
}

pub proof fn lemma_word_end(s: Seq<u8>, i: int)
    requires
        0 <= i <= s.len(),
    ensures
        i <= word_end(s, i) <= s.len(),
        word_end(s, i) < s.len() ==> is_space(s[word_end(s, i)]),
        forall|j: int| i <= j < word_end(s, i) ==> !is_space(#[trigger] s[j]),
        i < s.len() && !is_space(s[i]) ==> i < word_end(s, i),
    decreases s.len() - i,
{
    if i < s.len() && !is_space(s[i]) {
        lemma_word_end(s, i + 1);
    }
}

pub proof fn lemma_sep_pos(s: Seq<u8>, sep: u8, i: int)
    requires
        0 <= i <= s.len(),
    ensures
        i <= sep_pos(s, sep, i) <= s.len(),
        sep_pos(s, sep, i) < s.len() ==> s[sep_pos(s, sep, i)] == sep,
        forall|j: int| i <= j < sep_pos(s, sep, i) ==> #[trigger] s[j] != sep,
    decreases s.len() - i,
{
    if i < s.len() && s[i] != sep {
        lemma_sep_pos(s, sep, i + 1);
    }
}

/// The whitespace-separated fields of `s` that start at or after `i`, in
/// order. A field is a maximal run of bytes that are not whitespace.
pub open spec fn fields_from(s: Seq<u8>, i: int) -> Seq<Seq<u8>>
    decreases s.len() - i,
{
    let a = spaces_end(s, i);
    if 0 <= i && a < s.len() {
        let b = word_end(s, a);
        proof {
            lemma_spaces_end(s, i);
            lemma_word_end(s, a);
        }
        seq![s.subrange(a, b)] + fields_from(s, b)
    } else {
        Seq::empty()
    }
}

/// The whitespace-separated fields of `s`.
pub open spec fn fields(s: Seq<u8>) -> Seq<Seq<u8>> {
    fields_from(s, 0)
}

/// The pieces of `s` from index `i` on that lie between occurrences of
/// `sep`. A sequence with `n` separators at or after `i` has `n + 1` pieces,
/// some of them possibly empty.
pub open spec fn pieces_from(s: Seq<u8>, sep: u8, i: int) -> Seq<Seq<u8>>
    decreases s.len() - i,
{
    let e = sep_pos(s, sep, i);
    if 0 <= i && e < s.len() {
        proof {
            lemma_sep_pos(s, sep, i);
        }
        seq![s.subrange(i, e)] + pieces_from(s, sep, e + 1)
    } else {
        seq![s.subrange(i, s.len() as int)]
    }
}

/// The pieces of `s` between occurrences of `sep`.
pub open spec fn pieces(s: Seq<u8>, sep: u8) -> Seq<Seq<u8>> {
    pieces_from(s, sep, 0)
}

/// The lines of a text: its pieces between line feeds.
pub open spec fn lines(text: Seq<u8>) -> Seq<Seq<u8>> {
    pieces(text, LINE_FEED)
}

/// The index just past the last byte before `n` that is not whitespace, or
/// 0 when only whitespace comes before `n`.
pub open spec fn content_end(s: Seq<u8>, n: int) -> int
    decreases n,
{
    if 0 < n <= s.len() && is_space(s[n - 1]) {
        content_end(s, n - 1)
    } else {
        n
    }
}

/// The index just past the last byte of `s` that is not whitespace, or 0
/// when `s` holds only whitespace.
pub open spec fn trimmed_end(s: Seq<u8>) -> int {
    content_end(s, s.len() as int)
}

/// `s` from index `i` on, without leading and trailing whitespace.
pub open spec fn trimmed_from(s: Seq<u8>, i: int) -> Seq<u8> {
    let a = spaces_end(s, i);
    let b = trimmed_end(s);
    if a < b {
        s.subrange(a, b)
    } else {
        Seq::empty()
    }
}

/// Whether `b` is ASCII whitespace.
pub fn is_whitespace(b: u8) -> (r: bool)
    ensures
        r == is_space(b),
{
    b == 32 || (9 <= b && b <= 13)
}

/// Skips whitespace from `start` on and returns where it ends.
pub fn skip_whitespace(s: &[u8], start: usize) -> (r: usize)
    requires
        start <= s@.len(),
    ensures
        r == spaces_end(s@, start as int),
        start <= r <= s@.len(),
{
    let mut i: usize = start;
    while i < s.len() && is_whitespace(s[i])
        invariant
            start <= i <= s@.len(),
            spaces_end(s@, i as int) == spaces_end(s@, start as int),
        decreases s@.len() - i,
    {
        i += 1;
    }
    i
}

/// Skips a run of bytes that are not whitespace from `start` on and returns
/// where it ends.
pub fn skip_word(s: &[u8], start: usize) -> (r: usize)
    requires
        start <= s@.len(),
    ensures
        r == word_end(s@, start as int),
        start <= r <= s@.len(),
{
    let mut i: usize = start;
    while i < s.len() && !is_whitespace(s[i])
        invariant
            start <= i <= s@.len(),
            word_end(s@, i as int) == word_end(s@, start as int),
        decreases s@.len() - i,
    {
        i += 1;
    }
    i
}

/// Finds the first `sep` at or after `start`; returns the length of `s`
/// when there is none.
pub fn find_byte(s: &[u8], sep: u8, start: usize) -> (r: usize)
    requires
        start <= s@.len(),
    ensures
        r == sep_pos(s@, sep, start as int),
        start <= r <= s@.len(),
{
    let mut i: usize = start;
    while i < s.len() && s[i] != sep
        invariant
            start <= i <= s@.len(),
            sep_pos(s@, sep, i as int) == sep_pos(s@, sep, start as int),
        decreases s@.len() - i,
    {
        i += 1;
    }
    i
}

/// Finds where the trailing whitespace of `s` begins.
pub fn trim_end(s: &[u8]) -> (r: usize)
    ensures
        r == trimmed_end(s@),
        r <= s@.len(),
{
    let mut i: usize = s.len();
    while i > 0 && is_whitespace(s[i - 1])
        invariant
            i <= s@.len(),
            content_end(s@, i as int) == trimmed_end(s@),
        decreases i,
    {
        i -= 1;
    }
    i
}

/// The next field of `s` at or after `start`, as the pair of its first index
/// and the index just past its last byte; `None` when only whitespace is
/// left.
pub fn next_field(s: &[u8], start: usize) -> (r: Option<(usize, usize)>)
    requires
        start <= s@.len(),
    ensures
        match r {
            Some((a, b)) => {
                &&& start <= a < b <= s@.len()
                &&& a == spaces_end(s@, start as int)
                &&& b == word_end(s@, a as int)
                &&& fields_from(s@, start as int) == seq![s@.subrange(a as int, b as int)]
                    + fields_from(s@, b as int)
            },
            None => fields_from(s@, start as int) == Seq::<Seq<u8>>::empty(),
        },
{
    let a = skip_whitespace(s, start);
    if a < s.len() {
        let b = skip_word(s, a);
        proof {
            lemma_spaces_end(s@, start as int);
            lemma_word_end(s@, a as int);
        }
        Some((a, b))
    } else {
        None
    }
}

/// Scanning a suffix of `s` for the end of whitespace is scanning `s` from
/// further on.
pub proof fn lemma_spaces_end_skip(s: Seq<u8>, b: int, j: int)
    requires
        0 <= b <= s.len(),
        0 <= j <= s.len() - b,
    ensures
        spaces_end(s.skip(b), j) + b == spaces_end(s, b + j),
    decreases s.len() - b - j,
{
    if j < s.len() - b && is_space(s[b + j]) {
        lemma_spaces_end_skip(s, b, j + 1);
    }
}

/// Scanning a suffix of `s` for the end of a word is scanning `s` from
/// further on.
pub proof fn lemma_word_end_skip(s: Seq<u8>, b: int, j: int)
    requires
        0 <= b <= s.len(),
        0 <= j <= s.len() - b,
    ensures
        word_end(s.skip(b), j) + b == word_end(s, b + j),
    decreases s.len() - b - j,
{
    if j < s.len() - b && !is_space(s[b + j]) {
        lemma_word_end_skip(s, b, j + 1);
    }
}

/// The fields of a suffix of `s` are the fields of `s` from further on.
pub proof fn lemma_fields_from_skip(s: Seq<u8>, b: int, j: int)
    requires
        0 <= b <= s.len(),
        0 <= j <= s.len() - b,
    ensures
        fields_from(s.skip(b), j) == fields_from(s, b + j),
    decreases s.len() - b - j,
{
    let t = s.skip(b);
    lemma_spaces_end_skip(s, b, j);
    lemma_spaces_end(s, b + j);
    let a = spaces_end(s, b + j);
    if a < s.len() {
        lemma_word_end_skip(s, b, a - b);
        lemma_word_end(s, a);
        let e = word_end(s, a);
        lemma_fields_from_skip(s, b, e - b);
        assert(t.subrange(a - b, e - b) =~= s.subrange(a, e));
    }
}

/// The fields of the text that follows index `b` of `s`.
pub proof fn lemma_fields_of_suffix(s: Seq<u8>, b: int)
    requires
        0 <= b <= s.len(),
    ensures
        fields(s.subrange(b, s.len() as int)) == fields_from(s, b),
{
    assert(s.subrange(b, s.len() as int) =~= s.skip(b));
    lemma_fields_from_skip(s, b, 0);
}

} // verus!
