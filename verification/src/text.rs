//! Byte-level text handling: the vocabulary in which the wire format is
//! described, and the executable scanners that implement it.
//!
//! Everything on the wire is a sequence of bytes. Keywords are written as
//! ASCII string literals and turned into bytes with [`ascii`].

use vstd::prelude::*;
use vstd::slice::*;
use vstd::string::*;

verus! {

/// The bytes of a sequence of ASCII characters, one byte per character.
pub open spec fn ascii(s: Seq<char>) -> Seq<u8> {
    Seq::new(s.len(), |i: int| s[i] as u8)
}

/// Line feed.
pub open spec fn lf() -> u8 {
    0x0a
}

/// Carriage return.
pub open spec fn cr() -> u8 {
    0x0d
}

/// ASCII whitespace: space, and the control characters from tab to carriage return.
pub open spec fn is_space(b: u8) -> bool {
    b == 0x20 || (0x09 <= b && b <= 0x0d)
}

/// The lower-case form of an ASCII letter; every other byte is left alone.
pub open spec fn lower(b: u8) -> u8 {
    if 0x41 <= b && b <= 0x5a {
        (b + 0x20) as u8
    } else {
        b
    }
}

/// `s` with every ASCII letter in lower case.
pub open spec fn lowercase(s: Seq<u8>) -> Seq<u8> {
    Seq::new(s.len(), |i: int| lower(s[i]))
}

/// Equality of two byte strings up to the case of ASCII letters.
pub open spec fn same_ignoring_case(a: Seq<u8>, b: Seq<u8>) -> bool {
    lowercase(a) == lowercase(b)
}

/// `s` begins with `prefix`.
pub open spec fn starts_with(s: Seq<u8>, prefix: Seq<u8>) -> bool {
    prefix.len() <= s.len() && s.take(prefix.len() as int) == prefix
}

/// The predicate "is the byte `b`".
pub open spec fn is_byte(b: u8) -> spec_fn(u8) -> bool {
    |x: u8| x == b
}

/// The predicate "is whitespace".
pub open spec fn space() -> spec_fn(u8) -> bool {
    |x: u8| is_space(x)
}

/// The predicate "is not whitespace".
pub open spec fn non_space() -> spec_fn(u8) -> bool {
    |x: u8| !is_space(x)
}

/// The index of the first element of `s` that satisfies `p`, or `s.len()`
/// when there is none.
pub open spec fn first_match<A>(s: Seq<A>, p: spec_fn(A) -> bool) -> nat
    decreases s.len(),
{
    if s.len() == 0 || p(s[0]) {
        0
    } else {
        1 + first_match(s.skip(1), p)
    }
}

/// `first_match` stays in range, passes over no match, and stops at one.
pub proof fn lemma_first_match<A>(s: Seq<A>, p: spec_fn(A) -> bool)
    ensures
        first_match(s, p) <= s.len(),
        forall|j: int| 0 <= j < first_match(s, p) ==> !p(#[trigger] s[j]),
        first_match(s, p) < s.len() ==> p(s[first_match(s, p) as int]),
    decreases s.len(),
{
    if s.len() == 0 || p(s[0]) {
    } else {
        let t = s.skip(1);
        lemma_first_match(t, p);
        assert forall|j: int| 0 <= j < first_match(s, p) implies !p(#[trigger] s[j]) by {
            if j > 0 {
                assert(s[j] == t[j - 1]);
            }
        }
    }
}

/// An index that passes over no match and stops at one (or at the end) is
/// the one that `first_match` finds.
pub proof fn lemma_first_match_is<A>(s: Seq<A>, p: spec_fn(A) -> bool, i: int)
    requires
        0 <= i <= s.len(),
        forall|j: int| 0 <= j < i ==> !p(#[trigger] s[j]),
        i < s.len() ==> p(s[i]),
    ensures
        first_match(s, p) == i,
    decreases s.len(),
{
    if s.len() == 0 || p(s[0]) {
    } else {
        let t = s.skip(1);
        assert forall|j: int| 0 <= j < i - 1 implies !p(#[trigger] t[j]) by {}
        lemma_first_match_is(t, p, i - 1);
    }
}

/// `s` without its leading whitespace.
pub open spec fn trim_start(s: Seq<u8>) -> Seq<u8>
    decreases s.len(),
{
    if s.len() > 0 && is_space(s[0]) {
        trim_start(s.skip(1))
    } else {
        s
    }
}

/// `s` without its trailing whitespace.
pub open spec fn trim_end(s: Seq<u8>) -> Seq<u8>
    decreases s.len(),
{
    if s.len() > 0 && is_space(s.last()) {
        trim_end(s.drop_last())
    } else {
        s
    }
}

/// `s` without leading and trailing whitespace.
pub open spec fn trim(s: Seq<u8>) -> Seq<u8> {
    trim_end(trim_start(s))
}

/// The pieces of `s` between occurrences of `sep`. There is always at least
/// one piece; `n` separators give `n + 1` pieces, some of which may be empty.
pub open spec fn split(s: Seq<u8>, sep: u8) -> Seq<Seq<u8>>
    decreases s.len(),
{
    let p = first_match(s, is_byte(sep)) as int;
    if p >= s.len() {
        seq![s]
    } else {
        seq![s.take(p)] + split(s.skip(p + 1), sep)
    }
}

/// `line` without one trailing carriage return, if it has one.
pub open spec fn strip_cr(line: Seq<u8>) -> Seq<u8> {
    if line.len() > 0 && line.last() == cr() {
        line.drop_last()
    } else {
        line
    }
}

/// The lines of `s`. A line ends at a line feed; a carriage return directly
/// before that line feed belongs to the line ending. The last line need not
/// be terminated, and an empty input has no lines.
pub open spec fn lines(s: Seq<u8>) -> Seq<Seq<u8>>
    decreases s.len(),
{
    if s.len() == 0 {
        Seq::empty()
    } else {
        let p = first_match(s, is_byte(lf())) as int;
        if p >= s.len() {
            seq![s]
        } else {
            seq![strip_cr(s.take(p))] + lines(s.skip(p + 1))
        }
    }
}

/// The pieces `ls` with a single `sep` between each two of them.
pub open spec fn join(ls: Seq<Seq<u8>>, sep: u8) -> Seq<u8>
    decreases ls.len(),
{
    if ls.len() == 0 {
        Seq::empty()
    } else if ls.len() == 1 {
        ls[0]
    } else {
        join(ls.drop_last(), sep) + seq![sep] + ls.last()
    }
}

/// The lines `ls` joined by single line feeds.
pub open spec fn join_lines(ls: Seq<Seq<u8>>) -> Seq<u8> {
    join(ls, lf())
}

/// The maximal runs of non-whitespace bytes in `s`, in order.
pub open spec fn words(s: Seq<u8>) -> Seq<Seq<u8>>
    decreases s.len(),
    via words_decreases
{
    let t = s.skip(first_match(s, non_space()) as int);
    if t.len() == 0 {
        Seq::empty()
    } else {
        let n = first_match(t, space()) as int;
        seq![t.take(n)] + words(t.skip(n))
    }
}

#[via_fn]
proof fn words_decreases(s: Seq<u8>) {
    lemma_first_match(s, non_space());
    let t = s.skip(first_match(s, non_space()) as int);
    if t.len() != 0 {
        lemma_first_match(t, space());
        assert(!is_space(t[0]));
    }
}

/// Whether `s` holds no whitespace.
pub open spec fn no_space(s: Seq<u8>) -> bool {
    forall|i: int| 0 <= i < s.len() ==> !is_space(#[trigger] s[i])
}

/// Whether `s` holds neither a carriage return nor a line feed.
pub open spec fn no_line_break(s: Seq<u8>) -> bool {
    forall|i: int| 0 <= i < s.len() ==> #[trigger] s[i] != cr() && s[i] != lf()
}

/// Whether `s` does not hold the byte `b`.
pub open spec fn free_of(s: Seq<u8>, b: u8) -> bool {
    forall|i: int| 0 <= i < s.len() ==> #[trigger] s[i] != b
}

/// No piece of a split holds the separator.
pub proof fn lemma_split_pieces(s: Seq<u8>, sep: u8)
    ensures
        forall|i: int| 0 <= i < split(s, sep).len() ==> free_of(#[trigger] split(s, sep)[i], sep),
    decreases s.len(),
{
    let p = first_match(s, is_byte(sep)) as int;
    lemma_first_match(s, is_byte(sep));
    assert(free_of(s.take(p), sep)) by {
        assert forall|j: int| 0 <= j < p implies #[trigger] s.take(p)[j] != sep by {
            assert(!is_byte(sep)(s[j]));
        }
    }
    if p >= s.len() {
        assert(s.take(p) =~= s);
    } else {
        let rest = s.skip(p + 1);
        lemma_split_pieces(rest, sep);
        assert forall|i: int| 0 <= i < split(s, sep).len() implies free_of(
            #[trigger] split(s, sep)[i],
            sep,
        ) by {
            if i > 0 {
                assert(split(s, sep)[i] == split(rest, sep)[i - 1]);
            }
        }
    }
}

/// A byte string that does not hold the separator is split into itself.
pub proof fn lemma_split_whole(s: Seq<u8>, sep: u8)
    requires
        free_of(s, sep),
    ensures
        split(s, sep) == seq![s],
{
    assert forall|j: int| 0 <= j < s.len() implies !is_byte(sep)(#[trigger] s[j]) by {}
    lemma_first_match_is(s, is_byte(sep), s.len() as int);
}

/// Splitting two byte strings with a separator between them gives the
/// pieces of the first, then the pieces of the second.
pub proof fn lemma_split_concat(a: Seq<u8>, b: Seq<u8>, sep: u8)
    ensures
        split(a + seq![sep] + b, sep) == split(a, sep) + split(b, sep),
    decreases a.len(),
{
    let s = a + seq![sep] + b;
    let p = first_match(a, is_byte(sep)) as int;
    lemma_first_match(a, is_byte(sep));
    assert forall|j: int| 0 <= j < p implies !is_byte(sep)(#[trigger] s[j]) by {
        assert(s[j] == a[j]);
    }
    if p >= a.len() {
        assert(s[p] == sep);
        lemma_first_match_is(s, is_byte(sep), p);
        assert(s.take(p) =~= a);
        assert(s.skip(p + 1) =~= b);
    } else {
        assert(s[p] == a[p]);
        lemma_first_match_is(s, is_byte(sep), p);
        let rest = a.skip(p + 1);
        lemma_split_concat(rest, b, sep);
        assert(s.take(p) =~= a.take(p));
        assert(s.skip(p + 1) =~= rest + seq![sep] + b);
        assert(seq![a.take(p)] + (split(rest, sep) + split(b, sep)) =~= seq![a.take(p)] + split(
            rest,
            sep,
        ) + split(b, sep));
    }
}

/// Joining pieces that do not hold the separator, and splitting the result
/// again, gives the pieces back.
pub proof fn lemma_split_join(ls: Seq<Seq<u8>>, sep: u8)
    requires
        ls.len() > 0,
        forall|i: int| 0 <= i < ls.len() ==> free_of(#[trigger] ls[i], sep),
    ensures
        split(join(ls, sep), sep) == ls,
    decreases ls.len(),
{
    if ls.len() == 1 {
        lemma_split_whole(ls[0], sep);
        assert(seq![ls[0]] =~= ls);
    } else {
        let before = ls.drop_last();
        assert forall|i: int| 0 <= i < before.len() implies free_of(#[trigger] before[i], sep) by {
            assert(before[i] == ls[i]);
        }
        lemma_split_join(before, sep);
        lemma_split_whole(ls.last(), sep);
        lemma_split_concat(join(before, sep), ls.last(), sep);
        assert(before + seq![ls.last()] =~= ls);
    }
}

/// A byte string that equals a word up to case is a word of that length.
pub proof fn lemma_same_as_word(a: Seq<u8>, word: Seq<u8>)
    requires
        same_ignoring_case(a, word),
        no_space(word),
    ensures
        a.len() == word.len(),
        no_space(a),
{
    assert(lowercase(a).len() == lowercase(word).len());
    assert forall|i: int| 0 <= i < a.len() implies !is_space(#[trigger] a[i]) by {
        assert(lowercase(a)[i] == lowercase(word)[i]);
    }
}

/// A line that is ended by carriage return and line feed is the first of
/// the lines, and the lines of what follows are the others.
pub proof fn lemma_lines_first(line: Seq<u8>, tail: Seq<u8>)
    requires
        forall|i: int| 0 <= i < line.len() ==> #[trigger] line[i] != lf(),
    ensures
        lines(line + seq![cr(), lf()] + tail) == seq![line] + lines(tail),
{
    let s = line + seq![cr(), lf()] + tail;
    let p = line.len() as int + 1;
    assert forall|j: int| 0 <= j < p implies !is_byte(lf())(#[trigger] s[j]) by {}
    lemma_first_match_is(s, is_byte(lf()), p);
    assert(s.take(p) =~= line + seq![cr()]);
    assert((line + seq![cr()]).drop_last() =~= line);
    assert(s.skip(p + 1) =~= tail);
}

/// A word that is followed by nothing, or by whitespace, is the first of
/// the words, and the words of what follows are the others.
pub proof fn lemma_words_first(word: Seq<u8>, tail: Seq<u8>)
    requires
        word.len() > 0,
        no_space(word),
        tail.len() > 0 ==> is_space(tail[0]),
    ensures
        words(word + tail) == seq![word] + words(tail),
{
    let s = word + tail;
    let t = s.skip(0);
    let n = word.len() as int;
    assert forall|j: int| 0 <= j < n implies !space()(#[trigger] t[j]) by {}
    lemma_first_match_is(t, space(), n);
    assert(t.take(n) =~= word);
    assert(t.skip(n) =~= tail);
}

/// Whitespace in front makes no difference to the words.
pub proof fn lemma_words_after_space(b: u8, tail: Seq<u8>)
    requires
        is_space(b),
    ensures
        words(seq![b] + tail) == words(tail),
{
    let s = seq![b] + tail;
    assert(s.skip(1) =~= tail);
    lemma_first_match(tail, non_space());
    let a = first_match(tail, non_space()) as int;
    assert(s.skip(1 + a) =~= tail.skip(a));
}

/// Nothing has no words.
pub proof fn lemma_words_of_nothing()
    ensures
        words(Seq::empty()) == Seq::<Seq<u8>>::empty(),
{
}

/// The decimal representation of a number holds digits only.
pub proof fn lemma_decimal_digits(n: nat)
    ensures
        decimal(n).len() > 0,
        forall|i: int| 0 <= i < decimal(n).len() ==> 0x30 <= #[trigger] decimal(n)[i] <= 0x39,
    decreases n,
{
    if n >= 10 {
        lemma_decimal_digits(n / 10);
    }
}

/// The decimal digit `d` as an ASCII byte.
pub open spec fn digit(d: nat) -> u8 {
    (0x30 + d) as u8
}

/// The decimal representation of `n`, without leading zeros.
pub open spec fn decimal(n: nat) -> Seq<u8>
    decreases n,
{
    if n < 10 {
        seq![digit(n)]
    } else {
        decimal(n / 10).push(digit(n % 10))
    }
}

/// The lines of `ls` as byte sequences.
pub open spec fn contents(ls: Seq<Vec<u8>>) -> Seq<Seq<u8>> {
    Seq::new(ls.len(), |i: int| ls[i]@)
}

/// The bytes that `o` holds, if it holds any.
pub open spec fn optional(o: Option<Vec<u8>>) -> Option<Seq<u8>> {
    match o {
        Some(bytes) => Some(bytes@),
        None => None,
    }
}

/// A copy of the bytes `s`.
pub fn copy_of(s: &[u8]) -> (out: Vec<u8>)
    ensures
        out@ == s@,
{
    slice_to_vec(s)
}

/// Whether `b` is ASCII whitespace.
pub fn is_space_byte(b: u8) -> (r: bool)
    ensures
        r == is_space(b),
{
    b == 0x20 || (0x09 <= b && b <= 0x0d)
}

/// The lower-case form of `b`.
pub fn to_lower(b: u8) -> (r: u8)
    ensures
        r == lower(b),
{
    if 0x41 <= b && b <= 0x5a {
        b + 0x20
    } else {
        b
    }
}

/// Whether two byte strings are equal.
pub fn bytes_equal(a: &[u8], b: &[u8]) -> (r: bool)
    ensures
        r == (a@ == b@),
{
    if a.len() != b.len() {
        return false;
    }
    let mut i: usize = 0;
    while i < a.len()
        invariant
            i <= a@.len(),
            a@.len() == b@.len(),
            forall|j: int| 0 <= j < i ==> a@[j] == b@[j],
        decreases a@.len() - i,
    {
        if a[i] != b[i] {
            return false;
        }
        i += 1;
    }
    assert(a@ =~= b@);
    true
}

/// Whether two byte strings are equal up to the case of ASCII letters.
pub fn bytes_equal_ignoring_case(a: &[u8], b: &[u8]) -> (r: bool)
    ensures
        r == same_ignoring_case(a@, b@),
{
    if a.len() != b.len() {
        assert(lowercase(a@).len() != lowercase(b@).len());
        return false;
    }
    let mut i: usize = 0;
    while i < a.len()
        invariant
            i <= a@.len(),
            a@.len() == b@.len(),
            forall|j: int| 0 <= j < i ==> lower(a@[j]) == lower(b@[j]),
        decreases a@.len() - i,
    {
        if to_lower(a[i]) != to_lower(b[i]) {
            assert(lowercase(a@)[i as int] != lowercase(b@)[i as int]);
            return false;
        }
        i += 1;
    }
    assert(lowercase(a@) =~= lowercase(b@));
    true
}

/// Whether `s` is exactly the ASCII keyword `word`.
pub fn equals_ascii(s: &[u8], word: &str) -> (r: bool)
    requires
        is_ascii(word),
    ensures
        r == (s@ == ascii(word@)),
{
    broadcast use is_ascii_spec_bytes;

    bytes_equal(s, word.as_bytes())
}

/// Whether `s` is the ASCII keyword `word`, in any mixture of cases.
pub fn equals_ascii_ignoring_case(s: &[u8], word: &str) -> (r: bool)
    requires
        is_ascii(word),
    ensures
        r == same_ignoring_case(s@, ascii(word@)),
{
    broadcast use is_ascii_spec_bytes;

    bytes_equal_ignoring_case(s, word.as_bytes())
}

/// Whether `s` begins with the ASCII keyword `prefix`.
pub fn has_prefix(s: &[u8], prefix: &str) -> (r: bool)
    requires
        is_ascii(prefix),
    ensures
        r == starts_with(s@, ascii(prefix@)),
{
    broadcast use is_ascii_spec_bytes;

    let p = prefix.as_bytes();
    if p.len() > s.len() {
        return false;
    }
    bytes_equal(slice_subrange(s, 0, p.len()), p)
}

/// What follows the ASCII keyword `prefix` in `s`, when `s` begins with it.
pub fn after_prefix<'a>(s: &'a [u8], prefix: &str) -> (r: Option<&'a [u8]>)
    requires
        is_ascii(prefix),
    ensures
        r is Some == starts_with(s@, ascii(prefix@)),
        r matches Some(rest) ==> rest@ == s@.skip(prefix@.len() as int),
{
    broadcast use is_ascii_spec_bytes;

    if has_prefix(s, prefix) {
        Some(slice_subrange(s, prefix.as_bytes().len(), s.len()))
    } else {
        None
    }
}

/// Appends the ASCII keyword `word` to `out`.
pub fn push_ascii(out: &mut Vec<u8>, word: &str)
    requires
        is_ascii(word),
    ensures
        final(out)@ == old(out)@ + ascii(word@),
{
    broadcast use is_ascii_spec_bytes;

    out.extend_from_slice(word.as_bytes());
}

/// Appends the bytes `bytes` to `out`.
pub fn push_bytes(out: &mut Vec<u8>, bytes: &[u8])
    ensures
        final(out)@ == old(out)@ + bytes@,
{
    out.extend_from_slice(bytes);
}

/// Appends the decimal representation of `n` to `out`.
pub fn push_decimal(out: &mut Vec<u8>, n: usize)
    ensures
        final(out)@ == old(out)@ + decimal(n as nat),
    decreases n,
{
    if n >= 10 {
        push_decimal(out, n / 10);
    }
    let d: u8 = (n % 10) as u8;
    out.push(0x30 + d);
    assert(final(out)@ =~= old(out)@ + decimal(n as nat));
}

/// The index of the first `b` in `s` at or after `from`, or `s.len()`.
pub fn find_byte(s: &[u8], from: usize, b: u8) -> (i: usize)
    requires
        from <= s@.len(),
    ensures
        from <= i <= s@.len(),
        i == from + first_match(s@.skip(from as int), is_byte(b)),
{
    let mut i: usize = from;
    while i < s.len() && s[i] != b
        invariant
            from <= i <= s@.len(),
            forall|j: int| from <= j < i ==> s@[j] != b,
        decreases s@.len() - i,
    {
        i += 1;
    }
    proof {
        lemma_first_match_is(s@.skip(from as int), is_byte(b), i - from);
    }
    i
}

/// The index of the first non-whitespace byte of `s` at or after `from`, or `s.len()`.
pub fn skip_spaces(s: &[u8], from: usize) -> (i: usize)
    requires
        from <= s@.len(),
    ensures
        from <= i <= s@.len(),
        i == from + first_match(s@.skip(from as int), non_space()),
{
    let mut i: usize = from;
    while i < s.len() && is_space_byte(s[i])
        invariant
            from <= i <= s@.len(),
            forall|j: int| from <= j < i ==> is_space(s@[j]),
        decreases s@.len() - i,
    {
        i += 1;
    }
    proof {
        lemma_first_match_is(s@.skip(from as int), non_space(), i - from);
    }
    i
}

/// The index of the first whitespace byte of `s` at or after `from`, or `s.len()`.
pub fn skip_word(s: &[u8], from: usize) -> (i: usize)
    requires
        from <= s@.len(),
    ensures
        from <= i <= s@.len(),
        i == from + first_match(s@.skip(from as int), space()),
{
    let mut i: usize = from;
    while i < s.len() && !is_space_byte(s[i])
        invariant
            from <= i <= s@.len(),
            forall|j: int| from <= j < i ==> !is_space(s@[j]),
        decreases s@.len() - i,
    {
        i += 1;
    }
    proof {
        lemma_first_match_is(s@.skip(from as int), space(), i - from);
    }
    i
}

/// `s` without leading and trailing whitespace.
pub fn trim_bytes(s: &[u8]) -> (r: &[u8])
    ensures
        r@ == trim(s@),
{
    let mut start: usize = 0;
    assert(s@.skip(0) =~= s@);
    while start < s.len() && is_space_byte(s[start])
        invariant
            start <= s@.len(),
            trim_start(s@) == trim_start(s@.skip(start as int)),
        decreases s@.len() - start,
    {
        assert(s@.skip(start as int).skip(1) =~= s@.skip(start + 1));
        start += 1;
    }
    let mut end: usize = s.len();
    while end > start && is_space_byte(s[end - 1])
        invariant
            start <= end <= s@.len(),
            trim_start(s@) == s@.skip(start as int),
            trim(s@) == trim_end(s@.subrange(start as int, end as int)),
        decreases end,
    {
        assert(s@.subrange(start as int, end as int).drop_last() =~= s@.subrange(
            start as int,
            end - 1,
        ));
        end -= 1;
    }
    slice_subrange(s, start, end)
}

/// The pieces of `s` between occurrences of `sep`.
pub fn split_on(s: &[u8], sep: u8) -> (out: Vec<Vec<u8>>)
    ensures
        contents(out@) == split(s@, sep),
{
    let mut out: Vec<Vec<u8>> = Vec::new();
    let mut start: usize = 0;
    assert(s@.skip(0) =~= s@);
    loop
        invariant_except_break
            start <= s@.len(),
            split(s@, sep) == contents(out@) + split(s@.skip(start as int), sep),
        ensures
            contents(out@) == split(s@, sep),
        decreases s@.len() - start,
    {
        let end = find_byte(s, start, sep);
        let piece = slice_to_vec(slice_subrange(s, start, end));
        let ghost rest = s@.skip(start as int);
        assert(rest.take(end - start) =~= piece@);
        out.push(piece);
        if end >= s.len() {
            break;
        }
        assert(rest.skip(end - start + 1) =~= s@.skip(end + 1));
        start = end + 1;
    }
    out
}

/// The lines of `s`.
pub fn split_lines(s: &[u8]) -> (out: Vec<Vec<u8>>)
    ensures
        contents(out@) == lines(s@),
{
    let mut out: Vec<Vec<u8>> = Vec::new();
    let mut start: usize = 0;
    assert(s@.skip(0) =~= s@);
    while start < s.len()
        invariant
            start <= s@.len(),
            lines(s@) == contents(out@) + lines(s@.skip(start as int)),
        decreases s@.len() - start,
    {
        let end = find_byte(s, start, 0x0a);
        let ghost rest = s@.skip(start as int);
        if end >= s.len() {
            let piece = slice_to_vec(slice_subrange(s, start, end));
            out.push(piece);
            start = end;
        } else {
            let stop = if end > start && s[end - 1] == 0x0d {
                end - 1
            } else {
                end
            };
            let piece = slice_to_vec(slice_subrange(s, start, stop));
            assert(strip_cr(rest.take(end - start)) =~= piece@);
            out.push(piece);
            assert(rest.skip(end - start + 1) =~= s@.skip(end + 1));
            start = end + 1;
        }
    }
    out
}

/// The whitespace-separated words of `s`.
pub fn split_words(s: &[u8]) -> (out: Vec<Vec<u8>>)
    ensures
        contents(out@) == words(s@),
{
    let mut out: Vec<Vec<u8>> = Vec::new();
    let mut pos: usize = 0;
    assert(s@.skip(0) =~= s@);
    loop
        invariant_except_break
            pos <= s@.len(),
            words(s@) == contents(out@) + words(s@.skip(pos as int)),
        ensures
            contents(out@) == words(s@),
        decreases s@.len() - pos,
    {
        let start = skip_spaces(s, pos);
        let ghost rest = s@.skip(pos as int);
        assert(rest.skip(start - pos) =~= s@.skip(start as int));
        if start >= s.len() {
            break;
        }
        let end = skip_word(s, start);
        let piece = slice_to_vec(slice_subrange(s, start, end));
        proof {
            lemma_first_match(s@.skip(start as int), space());
            lemma_first_match(rest, non_space());
            assert(s@.skip(start as int).take(end - start) =~= piece@);
            assert(s@.skip(start as int).skip(end - start) =~= s@.skip(end as int));
        }
        out.push(piece);
        pos = end;
    }
    out
}

/// The pieces of `ls` from index `from` on, with a single `sep` between
/// each two of them.
pub fn join_with(ls: &Vec<Vec<u8>>, from: usize, sep: u8) -> (out: Vec<u8>)
    requires
        from <= ls@.len(),
    ensures
        out@ == join(contents(ls@).skip(from as int), sep),
{
    let mut out: Vec<u8> = Vec::new();
    let mut i: usize = from;
    let ghost all = contents(ls@);
    while i < ls.len()
        invariant
            from <= i <= ls@.len(),
            all == contents(ls@),
            out@ == join(all.subrange(from as int, i as int), sep),
        decreases ls@.len() - i,
    {
        let ghost done = all.subrange(from as int, i as int);
        let ghost next = all.subrange(from as int, i + 1);
        assert(next.drop_last() =~= done);
        if i > from {
            out.push(sep);
        }
        push_bytes(&mut out, ls[i].as_slice());
        i += 1;
    }
    assert(all.subrange(from as int, i as int) =~= all.skip(from as int));
    out
}

/// The lines of `ls` from index `from` on, joined by single line feeds.
pub fn join_from(ls: &Vec<Vec<u8>>, from: usize) -> (out: Vec<u8>)
    requires
        from <= ls@.len(),
    ensures
        out@ == join_lines(contents(ls@).skip(from as int)),
{
    join_with(ls, from, 0x0a)
}

} // verus!
