//! Character sequences: the common ground of names, paths and header text.

use vstd::prelude::*;

verus! {

/// The characters of `s`, in order.
pub fn chars_of(s: &str) -> (v: Vec<char>)
    ensures
        v@ == s@,
{
    let mut v: Vec<char> = Vec::new();
    for c in it: s.chars()
        invariant
            it.seq() == s@,
            v@ == s@.take(it.index() as int),
    {
        v.push(c);
        assert(v@ =~= s@.take(it.index() + 1));
    }
    assert(v@ =~= s@);
    v
}

/// Collects characters into an owned string with `String::from_iter`; the
/// string is taken to hold exactly the characters given, in the same order.
#[verifier::external_body]
pub(crate) fn string_of(chars: &[char]) -> (s: String)
    ensures
        s@ == chars@,
{
    String::from_iter(chars.iter())
}

/// Whether two character slices hold the same characters.
pub fn same_chars(a: &[char], b: &[char]) -> (r: bool)
    ensures
        r == (a@ == b@),
{
    if a.len() != b.len() {
        return false;
    }
    let mut i: usize = 0;
    while i < a.len()
        invariant
            a.len() == b.len(),
            i <= a.len(),
            a@.take(i as int) == b@.take(i as int),
        decreases a.len() - i,
    {
        if a[i] != b[i] {
            return false;
        }
        assert(a@.take(i + 1) =~= a@.take(i as int).push(a@[i as int]));
        assert(b@.take(i + 1) =~= b@.take(i as int).push(b@[i as int]));
        i = i + 1;
    }
    assert(a@ =~= a@.take(i as int));
    assert(b@ =~= b@.take(i as int));
    true
}

/// Whether `text` is, character for character, the string `word`.
pub fn is_word(text: &[char], word: &str) -> (r: bool)
    ensures
        r == (text@ == word@),
{
    let w = chars_of(word);
    same_chars(text, w.as_slice())
}

/// Whether `s` begins with `prefix`.
pub open spec fn has_prefix(s: Seq<char>, prefix: Seq<char>) -> bool {
    prefix.len() <= s.len() && s.take(prefix.len() as int) == prefix
}

/// Whether `text` begins with the characters of `prefix`.
pub fn starts_with(text: &[char], prefix: &[char]) -> (r: bool)
    ensures
        r == has_prefix(text@, prefix@),
{
    if prefix.len() > text.len() {
        return false;
    }
    let mut i: usize = 0;
    while i < prefix.len()
        invariant
            prefix.len() <= text.len(),
            i <= prefix.len(),
            text@.take(i as int) == prefix@.take(i as int),
        decreases prefix.len() - i,
    {
        if text[i] != prefix[i] {
            assert(text@.take(prefix.len() as int)[i as int] != prefix@[i as int]);
            return false;
        }
        assert(text@.take(i + 1) =~= text@.take(i as int).push(text@[i as int]));
        assert(prefix@.take(i + 1) =~= prefix@.take(i as int).push(prefix@[i as int]));
        i = i + 1;
    }
    assert(prefix@ =~= prefix@.take(i as int));
    true
}

/// Whether `s` ends with `suffix`.
pub open spec fn has_suffix(s: Seq<char>, suffix: Seq<char>) -> bool {
    suffix.len() <= s.len() && s.skip(s.len() - suffix.len()) == suffix
}

/// Whether `text` ends with the characters of `suffix`.
pub fn ends_with(text: &[char], suffix: &[char]) -> (r: bool)
    ensures
        r == has_suffix(text@, suffix@),
{
    if suffix.len() > text.len() {
        return false;
    }
    let start = text.len() - suffix.len();
    let tail = vstd::slice::slice_subrange(text, start, text.len());
    assert(tail@ =~= text@.skip(start as int));
    same_chars(tail, suffix)
}

/// The index of the first character of `s` that occurs in `delims`, or the
/// length of `s` when there is none.
pub open spec fn first_delim(s: Seq<char>, delims: Seq<char>) -> int
    decreases s.len(),
{
    if s.len() == 0 || delims.contains(s[0]) {
        0
    } else {
        1 + first_delim(s.drop_first(), delims)
    }
}

/// The pieces of `s` between delimiters. Every delimiter ends a piece, so a
/// string with `n` delimiters has `n + 1` pieces, some of them possibly empty.
pub open spec fn split(s: Seq<char>, delims: Seq<char>) -> Seq<Seq<char>>
    decreases s.len(),
{
    let k = first_delim(s, delims);
    if 0 <= k < s.len() {
        seq![s.take(k)] + split(s.skip(k + 1), delims)
    } else {
        seq![s]
    }
}

/// Whether no character of `s` is a delimiter.
pub open spec fn free_of(s: Seq<char>, delims: Seq<char>) -> bool {
    forall|i: int| 0 <= i < s.len() ==> !delims.contains(#[trigger] s[i])
}

/// `first_delim` is the only index that has a delimiter, or the end, at it
/// and none before it.
pub proof fn lemma_first_delim(s: Seq<char>, delims: Seq<char>, k: int)
    requires
        0 <= k <= s.len(),
        free_of(s.take(k), delims),
        k < s.len() ==> delims.contains(s[k]),
    ensures
        first_delim(s, delims) == k,
    decreases s.len(),
{
    if k == 0 {
    } else {
        assert(s.take(k)[0] == s[0]);
        let t = s.drop_first();
        assert forall|i: int| 0 <= i < k - 1 implies !delims.contains(
            #[trigger] t.take(k - 1)[i],
        ) by {
            assert(t.take(k - 1)[i] == s.take(k)[i + 1]);
        }
        lemma_first_delim(t, delims, k - 1);
    }
}

/// `first_delim` lies within the string, with no delimiter before it and one
/// at it unless it is the end.
pub proof fn lemma_first_delim_is_first(s: Seq<char>, delims: Seq<char>)
    ensures
        0 <= first_delim(s, delims) <= s.len(),
        free_of(s.take(first_delim(s, delims)), delims),
        first_delim(s, delims) < s.len() ==> delims.contains(s[first_delim(s, delims)]),
    decreases s.len(),
{
    if s.len() == 0 || delims.contains(s[0]) {
    } else {
        let t = s.drop_first();
        lemma_first_delim_is_first(t, delims);
        let k = first_delim(s, delims);
        assert forall|i: int| 0 <= i < k implies !delims.contains(#[trigger] s.take(k)[i]) by {
            if i > 0 {
                assert(s.take(k)[i] == t.take(k - 1)[i - 1]);
            }
        }
    }
}

/// A piece without delimiters, followed by a delimiter, is split off whole.
pub proof fn lemma_split_first(head: Seq<char>, d: char, rest: Seq<char>, delims: Seq<char>)
    requires
        free_of(head, delims),
        delims.contains(d),
    ensures
        split(head + seq![d] + rest, delims) == seq![head] + split(rest, delims),
{
    let s = head + seq![d] + rest;
    let k = head.len() as int;
    assert(s.take(k) =~= head);
    assert(s[k] == d);
    lemma_first_delim(s, delims, k);
    assert(s.skip(k + 1) =~= rest);
}

/// A string without delimiters is its own single piece.
pub proof fn lemma_split_whole(s: Seq<char>, delims: Seq<char>)
    requires
        free_of(s, delims),
    ensures
        split(s, delims) == seq![s],
{
    assert(s.take(s.len() as int) =~= s);
    lemma_first_delim(s, delims, s.len() as int);
}

/// The pieces joined again, with `sep` between neighbours.
pub open spec fn join(pieces: Seq<Seq<char>>, sep: Seq<char>) -> Seq<char>
    decreases pieces.len(),
{
    if pieces.len() == 0 {
        Seq::empty()
    } else if pieces.len() == 1 {
        pieces[0]
    } else {
        pieces[0] + sep + join(pieces.drop_first(), sep)
    }
}

/// Splitting yields at least one piece, and no piece holds a delimiter.
pub proof fn lemma_split_pieces(s: Seq<char>, delims: Seq<char>)
    ensures
        split(s, delims).len() >= 1,
        forall|i: int|
            0 <= i < split(s, delims).len() ==> free_of(#[trigger] split(s, delims)[i], delims),
    decreases s.len(),
{
    let k = first_delim(s, delims);
    lemma_first_delim_is_first(s, delims);
    if 0 <= k < s.len() {
        lemma_split_pieces(s.skip(k + 1), delims);
        let tail = split(s.skip(k + 1), delims);
        assert forall|i: int| 0 <= i < split(s, delims).len() implies free_of(
            #[trigger] split(s, delims)[i],
            delims,
        ) by {
            if i > 0 {
                assert(split(s, delims)[i] == tail[i - 1]);
            }
        }
    } else {
        assert(s.take(k) =~= s);
    }
}

/// Splitting at one character and joining with it again gives the string back.
pub proof fn lemma_join_split(s: Seq<char>, d: char)
    ensures
        join(split(s, seq![d]), seq![d]) == s,
    decreases s.len(),
{
    let delims = seq![d];
    let k = first_delim(s, delims);
    lemma_first_delim_is_first(s, delims);
    if 0 <= k < s.len() {
        let rest = s.skip(k + 1);
        lemma_join_split(rest, d);
        lemma_split_pieces(rest, delims);
        let pieces = split(s, delims);
        assert(pieces.drop_first() =~= split(rest, delims));
        assert(s[k] == d);
        assert(s =~= s.take(k) + seq![d] + rest);
    }
}

/// The last piece is the end of the string, and where there is more than one
/// piece a delimiter stands right before it.
pub proof fn lemma_split_last(s: Seq<char>, delims: Seq<char>)
    ensures
        split(s, delims).len() >= 1,
        split(s, delims).last().len() <= s.len(),
        s.skip(s.len() - split(s, delims).last().len()) == split(s, delims).last(),
        split(s, delims).len() == 1 ==> split(s, delims).last() == s,
        split(s, delims).len() > 1 ==> split(s, delims).last().len() < s.len() && delims.contains(
            s[s.len() - split(s, delims).last().len() - 1],
        ),
    decreases s.len(),
{
    let k = first_delim(s, delims);
    lemma_first_delim_is_first(s, delims);
    if 0 <= k < s.len() {
        let rest = s.skip(k + 1);
        lemma_split_last(rest, delims);
        let tail = split(rest, delims);
        let last = tail.last();
        assert(split(s, delims).last() == last);
        assert(s.skip(s.len() - last.len()) =~= rest.skip(rest.len() - last.len()));
        if tail.len() > 1 {
            assert(s[s.len() - last.len() - 1] == rest[rest.len() - last.len() - 1]);
        } else {
            assert(s.len() - last.len() - 1 == k);
        }
    } else {
        assert(s.skip(0) =~= s);
    }
}

/// What a vector of character vectors holds, as sequences.
pub open spec fn views(v: Seq<Vec<char>>) -> Seq<Seq<char>> {
    v.map_values(|p: Vec<char>| p@)
}

/// What a vector of strings holds, as sequences.
pub open spec fn texts(v: Seq<String>) -> Seq<Seq<char>> {
    v.map_values(|p: String| p@)
}

/// The pieces of `text` between the characters of `delims`.
pub fn split_chars(text: &[char], delims: &[char]) -> (pieces: Vec<Vec<char>>)
    ensures
        views(pieces@) == split(text@, delims@),
{
    let mut pieces: Vec<Vec<char>> = Vec::new();
    let mut piece: Vec<char> = Vec::new();
    let mut start: usize = 0;
    let mut i: usize = 0;
    assert(text@.skip(0) =~= text@);
    assert(views(pieces@) + split(text@, delims@) =~= split(text@, delims@));
    while i < text.len()
        invariant
            start <= i <= text.len(),
            piece@ == text@.subrange(start as int, i as int),
            free_of(piece@, delims@),
            views(pieces@) + split(text@.skip(start as int), delims@) == split(text@, delims@),
        decreases text.len() - i,
    {
        let c = text[i];
        if is_delim(c, delims) {
            let ghost before = views(pieces@);
            proof {
                let rest = text@.skip(start as int);
                assert(rest.take(i - start) =~= piece@);
                lemma_first_delim(rest, delims@, i - start);
                assert(rest.skip(i - start + 1) =~= text@.skip(i + 1));
                assert(before.push(piece@) + split(text@.skip(i + 1), delims@) =~= before + (
                seq![piece@] + split(text@.skip(i + 1), delims@)));
            }
            pieces.push(piece);
            assert(views(pieces@) =~= before.push(text@.subrange(start as int, i as int)));
            piece = Vec::new();
            start = i + 1;
            assert(piece@ =~= text@.subrange(start as int, i + 1));
        } else {
            piece.push(c);
            assert(piece@ =~= text@.subrange(start as int, i + 1));
        }
        i = i + 1;
    }
    proof {
        let rest = text@.skip(start as int);
        assert(rest =~= piece@);
        lemma_split_whole(rest, delims@);
    }
    let ghost before = views(pieces@);
    pieces.push(piece);
    assert(views(pieces@) =~= before.push(text@.skip(start as int)));
    assert(before.push(text@.skip(start as int)) =~= before + seq![text@.skip(start as int)]);
    pieces
}

/// Whether `c` is one of `delims`.
pub fn is_delim(c: char, delims: &[char]) -> (r: bool)
    ensures
        r == delims@.contains(c),
{
    let mut i: usize = 0;
    while i < delims.len()
        invariant
            i <= delims.len(),
            forall|j: int| 0 <= j < i ==> delims@[j] != c,
        decreases delims.len() - i,
    {
        if delims[i] == c {
            return true;
        }
        i = i + 1;
    }
    false
}

/// The characters that Unicode calls white space.
pub open spec fn whitespace() -> Seq<char> {
    seq![
        '\u{9}',
        '\u{a}',
        '\u{b}',
        '\u{c}',
        '\u{d}',
        ' ',
        '\u{85}',
        '\u{a0}',
        '\u{1680}',
        '\u{2000}',
        '\u{2001}',
        '\u{2002}',
        '\u{2003}',
        '\u{2004}',
        '\u{2005}',
        '\u{2006}',
        '\u{2007}',
        '\u{2008}',
        '\u{2009}',
        '\u{200a}',
        '\u{2028}',
        '\u{2029}',
        '\u{202f}',
        '\u{205f}',
        '\u{3000}',
    ]
}

/// The white space characters as a vector, for splitting.
pub fn whitespace_chars() -> (v: Vec<char>)
    ensures
        v@ == whitespace(),
{
    let v = vec![
        '\u{9}',
        '\u{a}',
        '\u{b}',
        '\u{c}',
        '\u{d}',
        ' ',
        '\u{85}',
        '\u{a0}',
        '\u{1680}',
        '\u{2000}',
        '\u{2001}',
        '\u{2002}',
        '\u{2003}',
        '\u{2004}',
        '\u{2005}',
        '\u{2006}',
        '\u{2007}',
        '\u{2008}',
        '\u{2009}',
        '\u{200a}',
        '\u{2028}',
        '\u{2029}',
        '\u{202f}',
        '\u{205f}',
        '\u{3000}',
    ];
    assert(v@ =~= whitespace());
    v
}

/// The words of a line: its pieces between white space, without the empty
/// ones that neighbouring white space leaves.
pub open spec fn words(s: Seq<char>) -> Seq<Seq<char>> {
    split(s, whitespace()).filter(|w: Seq<char>| w.len() > 0)
}

/// The words of `text`.
pub fn words_of(text: &[char]) -> (ws: Vec<Vec<char>>)
    ensures
        views(ws@) == words(text@),
{
    let delims = whitespace_chars();
    let pieces = split_chars(text, delims.as_slice());
    let ghost all = views(pieces@);
    let ghost full = |w: Seq<char>| w.len() > 0;
    let mut ws: Vec<Vec<char>> = Vec::new();
    let mut i: usize = 0;
    assert(all.len() == pieces@.len());
    proof {
        reveal(Seq::filter);
        assert(all.take(0).filter(full) =~= Seq::<Seq<char>>::empty());
        assert(views(ws@) =~= Seq::<Seq<char>>::empty());
    }
    while i < pieces.len()
        invariant
            i <= pieces.len(),
            all == views(pieces@),
            all.len() == pieces@.len(),
            full == |w: Seq<char>| w.len() > 0,
            views(ws@) == all.take(i as int).filter(full),
        decreases pieces.len() - i,
    {
        proof {
            reveal(Seq::filter);
            assert(all.take(i + 1).drop_last() =~= all.take(i as int));
            assert(all.take(i + 1).last() == pieces@[i as int]@);
        }
        if pieces[i].len() > 0 {
            let word = vstd::slice::slice_to_vec(pieces[i].as_slice());
            let ghost before = views(ws@);
            ws.push(word);
            assert(views(ws@) =~= before.push(pieces@[i as int]@));
        }
        i = i + 1;
    }
    assert(all.take(i as int) =~= all);
    ws
}

/// The value of a decimal digit.
pub open spec fn digit_value(c: char) -> Option<nat> {
    if '0' <= c <= '9' {
        Some((c as u32 - '0' as u32) as nat)
    } else {
        None
    }
}

/// The number that a string of decimal digits writes; none where a
/// character is no digit. The empty string writes zero.
pub open spec fn decimal_value(digits: Seq<char>) -> Option<nat>
    decreases digits.len(),
{
    if digits.len() == 0 {
        Some(0)
    } else {
        match (decimal_value(digits.drop_last()), digit_value(digits.last())) {
            (Some(high), Some(low)) => Some(10 * high + low),
            _ => None,
        }
    }
}

/// The number that a string writes in the way `u32` is read: decimal digits,
/// at least one, after an optional plus sign, and no more than fits.
pub open spec fn parse_u32(s: Seq<char>) -> Option<u32> {
    let digits = if s.len() > 0 && s[0] == '+' {
        s.drop_first()
    } else {
        s
    };
    if digits.len() == 0 {
        None
    } else {
        match decimal_value(digits) {
            Some(value) => if value <= u32::MAX {
                Some(value as u32)
            } else {
                None
            },
            None => None,
        }
    }
}

/// A longer string of digits writes no smaller number.
pub proof fn lemma_decimal_grows(digits: Seq<char>, k: int)
    requires
        0 <= k <= digits.len(),
        decimal_value(digits) is Some,
    ensures
        decimal_value(digits.take(k)) is Some,
        decimal_value(digits.take(k))->0 <= decimal_value(digits)->0,
    decreases digits.len(),
{
    if k == digits.len() {
        assert(digits.take(k) =~= digits);
    } else {
        assert(digits.drop_last().take(k) =~= digits.take(k));
        lemma_decimal_grows(digits.drop_last(), k);
    }
}

/// A string with a character that is no digit writes no number.
pub proof fn lemma_decimal_needs_digits(digits: Seq<char>, k: int)
    requires
        0 <= k < digits.len(),
        digit_value(digits[k]) is None,
    ensures
        decimal_value(digits) is None,
    decreases digits.len(),
{
    if k < digits.len() - 1 {
        lemma_decimal_needs_digits(digits.drop_last(), k);
    }
}

/// Reads a number the way `u32` is read from a string.
pub fn read_u32(text: &[char]) -> (r: Option<u32>)
    ensures
        r == parse_u32(text@),
{
    let start: usize = if text.len() > 0 && text[0] == '+' {
        1
    } else {
        0
    };
    if start == text.len() {
        return None;
    }
    let ghost digits = text@.skip(start as int);
    let mut value: u64 = 0;
    let mut i: usize = start;
    proof {
        assert(digits.take(0) =~= Seq::<char>::empty());
        assert(text@.skip(0) =~= text@);
        assert(text@.drop_first() =~= text@.skip(1));
    }
    while i < text.len()
        invariant
            start <= i <= text.len(),
            digits == text@.skip(start as int),
            digits.len() > 0,
            parse_u32(text@) == match decimal_value(digits) {
                Some(value) => if value <= u32::MAX {
                    Some(value as u32)
                } else {
                    None
                },
                None => None,
            },
            decimal_value(digits.take(i - start)) == Some(value as nat),
            value <= u32::MAX,
        decreases text.len() - i,
    {
        let c = text[i];
        if !('0' <= c && c <= '9') {
            proof {
                lemma_decimal_needs_digits(digits, i - start);
            }
            return None;
        }
        let digit: u64 = (c as u32 - '0' as u32) as u64;
        let next: u64 = 10 * value + digit;
        proof {
            assert(digits.take(i - start + 1).drop_last() =~= digits.take(i - start));
            assert(digits.take(i - start + 1).last() == c);
            assert(decimal_value(digits.take(i - start + 1)) == Some(next as nat));
        }
        if next > 0xffff_ffff {
            proof {
                if decimal_value(digits) is Some {
                    lemma_decimal_grows(digits, i - start + 1);
                }
            }
            return None;
        }
        value = next;
        i = i + 1;
    }
    assert(digits.take(i - start) =~= digits);
    Some(value as u32)
}

/// The ten digits.
pub open spec fn digits() -> Seq<char> {
    seq!['0', '1', '2', '3', '4', '5', '6', '7', '8', '9']
}

/// A number written in decimal, without sign or leading zeros.
pub open spec fn decimal(n: nat) -> Seq<char>
    decreases n,
{
    if n < 10 {
        seq![digits()[n as int]]
    } else {
        decimal(n / 10).push(digits()[(n % 10) as int])
    }
}

/// What is written in decimal is read back as the same number.
pub proof fn lemma_decimal_reads_back(n: nat)
    ensures
        decimal(n).len() >= 1,
        decimal(n)[0] != '+',
        decimal_value(decimal(n)) == Some(n),
        n <= u32::MAX ==> parse_u32(decimal(n)) == Some(n as u32),
    decreases n,
{
    if n < 10 {
        let s = decimal(n);
        assert(s.drop_last() =~= Seq::<char>::empty());
        assert(decimal_value(s.drop_last()) == Some(0nat));
        assert(digit_value(s.last()) == Some(n));
    } else {
        lemma_decimal_reads_back(n / 10);
        let s = decimal(n);
        assert(s.drop_last() =~= decimal(n / 10));
        assert(digit_value(s.last()) == Some(n % 10));
        assert(s[0] == decimal(n / 10)[0]);
    }
}

/// A number written in decimal consists of digits.
pub proof fn lemma_decimal_is_digits(n: nat)
    ensures
        forall|i: int| 0 <= i < decimal(n).len() ==> '0' <= #[trigger] decimal(n)[i] <= '9',
    decreases n,
{
    let table = digits();
    assert forall|d: int| 0 <= d < 10 implies '0' <= #[trigger] table[d] <= '9' by {}
    if n >= 10 {
        lemma_decimal_is_digits(n / 10);
        assert forall|i: int| 0 <= i < decimal(n).len() implies '0' <= #[trigger] decimal(n)[i]
            <= '9' by {
            if i < decimal(n / 10).len() {
                assert(decimal(n)[i] == decimal(n / 10)[i]);
            } else {
                assert(decimal(n)[i] == table[(n % 10) as int]);
            }
        }
    } else {
        assert(decimal(n)[0] == table[n as int]);
    }
}

/// Appends `n` in decimal to `out`.
pub fn push_decimal(out: &mut Vec<char>, n: u32)
    ensures
        final(out)@ == old(out)@ + decimal(n as nat),
    decreases n,
{
    let table = ['0', '1', '2', '3', '4', '5', '6', '7', '8', '9'];
    assert(table@ =~= digits());
    if n >= 10 {
        push_decimal(out, n / 10);
    }
    out.push(table[(n % 10) as usize]);
    assert(out@ =~= old(out)@ + decimal(n as nat));
}

/// Appends the characters of `s` to `out`.
pub fn push_str(out: &mut Vec<char>, s: &str)
    ensures
        final(out)@ == old(out)@ + s@,
{
    let chars = chars_of(s);
    let mut i: usize = 0;
    while i < chars.len()
        invariant
            i <= chars.len(),
            chars@ == s@,
            out@ == old(out)@ + s@.take(i as int),
        decreases chars.len() - i,
    {
        out.push(chars[i]);
        assert(out@ =~= old(out)@ + s@.take(i + 1));
        i = i + 1;
    }
    assert(s@.take(i as int) =~= s@);
}

} // verus!
