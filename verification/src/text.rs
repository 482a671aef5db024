//! Text as sequences of characters.
//!
//! Every string of the crate is reasoned about through its view, a `Seq<char>`.
//! This module gives the vocabulary (what trimming, splitting, searching and
//! decimal notation mean) and the executable functions that follow it.

use vstd::prelude::*;
use vstd::string::*;
use vstd::utf8::*;

verus! {

/// `String::push` appends the given character to the end of the string.
pub assume_specification[ String::push ](s: &mut String, c: char)
    ensures
        final(s)@ == old(s)@.push(c),
;

/// What `String::from_utf8` reports of bytes that are no UTF-8.
pub uninterp spec fn utf8_error(bytes: Seq<u8>) -> Seq<char>;

/// `String::from_utf8`: the text with these bytes, where they are UTF-8, else the
/// text of the error, which depends on the bytes alone.
#[verifier::external_body]
pub(crate) fn text_from_utf8(bytes: Vec<u8>) -> (r: Result<String, String>)
    ensures
        match r {
            Ok(s) => valid_utf8(bytes@) && s@ == decode_utf8(bytes@),
            Err(e) => !valid_utf8(bytes@) && e@ == utf8_error(bytes@),
        },
{
    String::from_utf8(bytes).map_err(|e| e.to_string())
}

/// What `String::from_utf8_lossy` makes of bytes.
pub uninterp spec fn lossy_text(bytes: Seq<u8>) -> Seq<char>;

/// `String::from_utf8_lossy`: the text with these bytes, where they are UTF-8;
/// otherwise a text that depends on the bytes alone.
#[verifier::external_body]
pub(crate) fn text_from_lossy(bytes: &Vec<u8>) -> (r: String)
    ensures
        r@ == lossy_text(bytes@),
        valid_utf8(bytes@) ==> r@ == decode_utf8(bytes@),
{
    String::from_utf8_lossy(bytes).to_string()
}

/// What the debug format prints for a text: the text in double quotes, with
/// escapes.
pub uninterp spec fn debug_text(s: Seq<char>) -> Seq<char>;

/// `format!` with the debug format of a `str`, which depends on the text alone.
#[verifier::external_body]
pub(crate) fn debug_of(s: &str) -> (r: String)
    ensures
        r@ == debug_text(s@),
{
    format!("{:?}", s)
}

// ---------------------------------------------------------------------------
// Vocabulary
// ---------------------------------------------------------------------------
/// Characters with the Unicode property `White_Space`.
pub open spec fn is_white(c: char) -> bool {
    let n = c as u32;
    ||| 0x9 <= n <= 0xD
    ||| n == 0x20
    ||| n == 0x85
    ||| n == 0xA0
    ||| n == 0x1680
    ||| 0x2000 <= n <= 0x200A
    ||| n == 0x2028
    ||| n == 0x2029
    ||| n == 0x202F
    ||| n == 0x205F
    ||| n == 0x3000
}

/// `s` without its leading white space.
pub open spec fn trim_start(s: Seq<char>) -> Seq<char>
    decreases s.len(),
{
    if s.len() > 0 && is_white(s[0]) {
        trim_start(s.skip(1))
    } else {
        s
    }
}

/// `s` without its trailing white space.
pub open spec fn trim_end(s: Seq<char>) -> Seq<char>
    decreases s.len(),
{
    if s.len() > 0 && is_white(s.last()) {
        trim_end(s.drop_last())
    } else {
        s
    }
}

/// `s` without white space at either end.
pub open spec fn trim(s: Seq<char>) -> Seq<char> {
    trim_end(trim_start(s))
}

/// `s` without any leading `c`.
pub open spec fn without_leading(s: Seq<char>, c: char) -> Seq<char>
    decreases s.len(),
{
    if s.len() > 0 && s[0] == c {
        without_leading(s.skip(1), c)
    } else {
        s
    }
}

/// `s` starts with `p`.
pub open spec fn begins(s: Seq<char>, p: Seq<char>) -> bool {
    p.len() <= s.len() && s.take(p.len() as int) == p
}

/// What follows the prefix `p` of `s`, if `s` has it.
pub open spec fn strip_prefix(s: Seq<char>, p: Seq<char>) -> Option<Seq<char>> {
    if begins(s, p) {
        Some(s.skip(p.len() as int))
    } else {
        None
    }
}

/// What precedes the suffix `p` of `s`, if `s` has it.
pub open spec fn strip_suffix(s: Seq<char>, p: Seq<char>) -> Option<Seq<char>> {
    if p.len() <= s.len() && s.skip(s.len() - p.len()) == p {
        Some(s.take(s.len() - p.len()))
    } else {
        None
    }
}

/// `p` stands in `s` at position `i`.
pub open spec fn occurs_at(s: Seq<char>, p: Seq<char>, i: int) -> bool {
    0 <= i && i + p.len() <= s.len() && s.subrange(i, i + p.len()) == p
}

/// `p` stands somewhere in `s`.
pub open spec fn contains(s: Seq<char>, p: Seq<char>) -> bool {
    exists|i: int| occurs_at(s, p, i)
}

/// The first position of `p` in `s`, if there is one.
pub open spec fn position(s: Seq<char>, p: Seq<char>) -> Option<int>
    decreases s.len(),
{
    if begins(s, p) {
        Some(0)
    } else if s.len() == 0 {
        None
    } else {
        match position(s.skip(1), p) {
            Some(i) => Some(i + 1),
            None => None,
        }
    }
}

/// `s` cut at the first `p`: what stands before it and what stands after it.
pub open spec fn split_text(s: Seq<char>, p: Seq<char>) -> Option<(Seq<char>, Seq<char>)> {
    match position(s, p) {
        Some(i) => Some((s.take(i), s.skip(i + p.len()))),
        None => None,
    }
}

/// The position of the first `c` in `s`, or the length of `s` if there is none.
pub open spec fn index_of(s: Seq<char>, c: char) -> int
    decreases s.len(),
{
    if s.len() == 0 || s[0] == c {
        0
    } else {
        1 + index_of(s.skip(1), c)
    }
}

/// `s` cut at its first `c`: what stands before it and what stands after it.
pub open spec fn split_once(s: Seq<char>, c: char) -> Option<(Seq<char>, Seq<char>)> {
    let i = index_of(s, c);
    if i < s.len() {
        Some((s.take(i), s.skip(i + 1)))
    } else {
        None
    }
}

/// The pieces of `s` between occurrences of `sep`; one piece more than there
/// are separators.
pub open spec fn split(s: Seq<char>, sep: char) -> Seq<Seq<char>>
    decreases s.len(),
{
    if s.len() == 0 {
        seq![Seq::<char>::empty()]
    } else {
        let front = split(s.drop_last(), sep);
        if s.last() == sep {
            front.push(Seq::<char>::empty())
        } else {
            front.drop_last().push(front.last().push(s.last()))
        }
    }
}

/// The lines of `s`: a line ends at a line feed, and a carriage return directly
/// before that line feed belongs to the ending. A final empty piece is no line.
pub open spec fn lines(s: Seq<char>) -> Seq<Seq<char>> {
    let pieces = split(s, '\n');
    let ended = Seq::new((pieces.len() - 1) as nat, |i: int| without_cr(pieces[i]));
    if pieces.last().len() == 0 {
        ended
    } else {
        ended.push(pieces.last())
    }
}

/// `s` without one carriage return at its end.
pub open spec fn without_cr(s: Seq<char>) -> Seq<char> {
    if s.len() > 0 && s.last() == '\r' {
        s.drop_last()
    } else {
        s
    }
}

/// The maximal runs of `s` without white space.
pub open spec fn words(s: Seq<char>) -> Seq<Seq<char>>
    decreases s.len(),
{
    if s.len() == 0 {
        Seq::empty()
    } else {
        let front = words(s.drop_last());
        if is_white(s.last()) {
            front
        } else if s.len() == 1 || is_white(s[s.len() - 2]) {
            front.push(seq![s.last()])
        } else {
            front.drop_last().push(front.last().push(s.last()))
        }
    }
}

/// `s` with every occurrence of the non-empty `p`, taken from the left without
/// overlap, replaced by `by`.
pub open spec fn replace(s: Seq<char>, p: Seq<char>, by: Seq<char>) -> Seq<char>
    decreases s.len(),
{
    if p.len() == 0 || s.len() < p.len() {
        s
    } else if begins(s, p) {
        by + replace(s.skip(p.len() as int), p, by)
    } else {
        seq![s[0]] + replace(s.skip(1), p, by)
    }
}

/// The ASCII lower-case form of `c`; every other character stays.
pub open spec fn lower(c: char) -> char {
    if 'A' <= c <= 'Z' {
        (c as u32 + 32) as char
    } else {
        c
    }
}

/// `s` with each character in its ASCII lower-case form.
pub open spec fn lower_all(s: Seq<char>) -> Seq<char> {
    s.map_values(|c: char| lower(c))
}

/// The decimal digit `d`.
pub open spec fn digit(d: nat) -> char {
    (48 + d) as char
}

/// `n` in decimal notation, without leading zeros.
pub open spec fn dec(n: nat) -> Seq<char>
    decreases n,
{
    if n < 10 {
        seq![digit(n)]
    } else {
        dec(n / 10).push(digit(n % 10))
    }
}

/// `i` in decimal notation, with a minus sign where it is negative.
pub open spec fn dec_int(i: int) -> Seq<char> {
    if i < 0 {
        seq!['-'] + dec((-i) as nat)
    } else {
        dec(i as nat)
    }
}

/// `c` is an ASCII decimal digit.
pub open spec fn is_digit(c: char) -> bool {
    '0' <= c <= '9'
}

/// `s` is a non-empty run of decimal digits.
pub open spec fn is_number(s: Seq<char>) -> bool {
    s.len() > 0 && forall|i: int| 0 <= i < s.len() ==> is_digit(#[trigger] s[i])
}

/// The number that a run of decimal digits denotes.
pub open spec fn number(s: Seq<char>) -> nat
    decreases s.len(),
{
    if s.len() == 0 {
        0
    } else {
        number(s.drop_last()) * 10 + (s.last() as nat - '0' as nat) as nat
    }
}

/// `s` without one leading plus sign.
pub open spec fn unsigned_part(s: Seq<char>) -> Seq<char> {
    if s.len() > 0 && s[0] == '+' {
        s.skip(1)
    } else {
        s
    }
}

/// The unsigned number that `s` denotes, up to `max`: decimal digits behind an
/// optional plus sign.
pub open spec fn read_unsigned(s: Seq<char>, max: nat) -> Option<nat> {
    let d = unsigned_part(s);
    if is_number(d) && number(d) <= max {
        Some(number(d))
    } else {
        None
    }
}

/// The number in front of the first dot.
pub open spec fn leading_number(s: Seq<char>) -> Option<nat> {
    read_unsigned(split(s, '.')[0], u32::MAX as nat)
}

/// The signed number that `s` denotes, between `-limit` and `limit - 1`:
/// decimal digits behind an optional sign.
pub open spec fn read_signed(s: Seq<char>, limit: nat) -> Option<int> {
    if s.len() > 0 && s[0] == '-' {
        let d = s.skip(1);
        if is_number(d) && number(d) <= limit {
            Some(-(number(d) as int))
        } else {
            None
        }
    } else {
        let d = unsigned_part(s);
        if is_number(d) && number(d) < limit {
            Some(number(d) as int)
        } else {
            None
        }
    }
}

/// The file path `name` below the directory `dir`. An absolute name replaces the
/// directory.
pub open spec fn path_join(dir: Seq<char>, name: Seq<char>) -> Seq<char> {
    if begins(name, "/"@) || dir.len() == 0 {
        name
    } else if dir.last() == '/' {
        dir + name
    } else {
        dir + "/"@ + name
    }
}

/// The items of `v`, with `sep` between two neighbours.
pub open spec fn join(v: Seq<Seq<char>>, sep: Seq<char>) -> Seq<char>
    decreases v.len(),
{
    if v.len() == 0 {
        Seq::empty()
    } else if v.len() == 1 {
        v[0]
    } else {
        join(v.drop_last(), sep) + sep + v.last()
    }
}

/// The views of the strings of `v`.
pub open spec fn texts(v: Seq<String>) -> Seq<Seq<char>> {
    Seq::new(v.len(), |i: int| v[i]@)
}

/// The view of an optional string.
pub open spec fn opt_text(o: Option<String>) -> Option<Seq<char>> {
    match o {
        Some(s) => Some(s@),
        None => None,
    }
}

// ---------------------------------------------------------------------------
// Facts
// ---------------------------------------------------------------------------
/// Appending a string appends its view.
pub broadcast proof fn lemma_texts_push(v: Seq<String>, s: String)
    ensures
        #[trigger] texts(v.push(s)) == texts(v).push(s@),
{
    assert(texts(v.push(s)) =~= texts(v).push(s@));
}

/// There is always at least one piece.
pub proof fn lemma_split_len(s: Seq<char>, sep: char)
    ensures
        split(s, sep).len() > 0,
    decreases s.len(),
{
    if s.len() > 0 {
        lemma_split_len(s.drop_last(), sep);
    }
}

/// In front of the first separator stands the first piece.
pub proof fn law_first_piece_ends_at_separator(a: Seq<char>, b: Seq<char>, sep: char)
    requires
        !a.contains(sep),
    ensures
        split(a, sep) == seq![a],
        split(a + seq![sep] + b, sep)[0] == a,
        split(a + seq![sep] + b, sep).skip(1) == split(b, sep),
    decreases a.len() + b.len(),
{
    lemma_plain_piece(a, sep);
    lemma_pieces_behind(a, b, sep);
}

proof fn lemma_plain_piece(a: Seq<char>, sep: char)
    requires
        !a.contains(sep),
    ensures
        split(a, sep) == seq![a],
    decreases a.len(),
{
    if a.len() > 0 {
        let front = a.drop_last();
        assert(!front.contains(sep)) by {
            if front.contains(sep) {
                let k = choose|k: int| 0 <= k < front.len() && front[k] == sep;
                assert(a[k] == sep);
            }
        }
        lemma_plain_piece(front, sep);
        assert(a.last() != sep) by {
            assert(a.contains(a[a.len() - 1]));
        }
        assert(front.push(a.last()) == a);
        assert(split(a, sep) =~= seq![a]);
    } else {
        assert(a =~= Seq::<char>::empty());
    }
}

proof fn lemma_pieces_behind(a: Seq<char>, b: Seq<char>, sep: char)
    requires
        !a.contains(sep),
    ensures
        split(a + seq![sep] + b, sep) == seq![a] + split(b, sep),
    decreases b.len(),
{
    let s = a + seq![sep] + b;
    lemma_split_len(b, sep);
    if b.len() == 0 {
        lemma_plain_piece(a, sep);
        assert(s.drop_last() == a);
        assert(s.last() == sep);
        assert(split(s, sep) =~= seq![a] + split(b, sep));
    } else {
        let front = b.drop_last();
        lemma_split_len(front, sep);
        lemma_pieces_behind(a, front, sep);
        assert(s.drop_last() == a + seq![sep] + front);
        assert(s.last() == b.last());
        assert(split(s, sep) =~= seq![a] + split(b, sep));
    }
}

/// No piece holds the separator.
pub proof fn law_pieces_hold_no_separator(s: Seq<char>, sep: char, i: int)
    requires
        0 <= i < split(s, sep).len(),
    ensures
        !split(s, sep)[i].contains(sep),
    decreases s.len(),
{
    if s.len() > 0 {
        let front = split(s.drop_last(), sep);
        lemma_split_len(s.drop_last(), sep);
        if s.last() == sep {
            if i < front.len() {
                law_pieces_hold_no_separator(s.drop_last(), sep, i);
            }
        } else {
            law_pieces_hold_no_separator(s.drop_last(), sep, i);
            if i == front.len() - 1 {
                let piece = split(s, sep)[i];
                if piece.contains(sep) {
                    let k = choose|k: int| 0 <= k < piece.len() && piece[k] == sep;
                    assert(front.last()[k] == sep);
                }
            }
        }
    }
}

/// A text without white space is one word.
pub proof fn law_text_without_white_space_is_one_word(s: Seq<char>)
    requires
        s.len() > 0,
        forall|i: int| 0 <= i < s.len() ==> !is_white(#[trigger] s[i]),
    ensures
        words(s) == seq![s],
    decreases s.len(),
{
    if s.len() > 1 {
        let front = s.drop_last();
        assert forall|i: int| 0 <= i < front.len() implies !is_white(#[trigger] front[i]) by {
            assert(front[i] == s[i]);
        }
        law_text_without_white_space_is_one_word(front);
        assert(!is_white(s[s.len() - 2]));
        assert(!is_white(s[s.len() - 1]));
        assert(front.push(s.last()) == s);
        assert(words(s) =~= seq![s]);
    } else {
        assert(!is_white(s[0]));
        assert(words(s.drop_last()).len() == 0);
        assert(seq![s.last()] == s);
        assert(words(s) =~= seq![s]);
    }
}

/// Words are not empty and hold no white space.
pub proof fn law_words_hold_no_white_space(s: Seq<char>, i: int)
    requires
        0 <= i < words(s).len(),
    ensures
        words(s)[i].len() > 0,
        forall|k: int| 0 <= k < words(s)[i].len() ==> !is_white(#[trigger] words(s)[i][k]),
    decreases s.len(),
{
    let front = words(s.drop_last());
    if is_white(s.last()) {
        law_words_hold_no_white_space(s.drop_last(), i);
    } else if s.len() == 1 || is_white(s[s.len() - 2]) {
        if i < front.len() {
            law_words_hold_no_white_space(s.drop_last(), i);
        }
    } else {
        assert(s.drop_last().last() == s[s.len() - 2]);
        lemma_words_len(s.drop_last());
        law_words_hold_no_white_space(s.drop_last(), i);
    }
}

/// What trimming leaves has no white space at either end, and is the whole text
/// where that had none.
pub proof fn law_trimmed_text_has_no_white_ends(s: Seq<char>)
    ensures
        trim(s).len() > 0 ==> !is_white(trim(s)[0]) && !is_white(trim(s).last()),
        (s.len() == 0 || (!is_white(s[0]) && !is_white(s.last()))) ==> trim(s) == s,
        exists|i: int, j: int|
            0 <= i <= j <= s.len() && trim(s) == #[trigger] s.subrange(i, j) && (forall|k: int|
                0 <= k < i || j <= k < s.len() ==> is_white(#[trigger] s[k])),
{
    let i = lemma_trim_start_cuts(s);
    let t = trim_start(s);
    let j = lemma_trim_end_cuts(t);
    assert(t.take(j) == s.subrange(i, i + j));
    assert forall|k: int| 0 <= k < i || i + j <= k < s.len() implies is_white(
        #[trigger] s[k],
    ) by {
        if k >= i + j {
            assert(s[k] == t[k - i]);
        }
    }
    if trim(s).len() > 0 {
        assert(trim(s)[0] == t[0]);
    }
}

proof fn lemma_trim_start_cuts(s: Seq<char>) -> (i: int)
    ensures
        0 <= i <= s.len(),
        trim_start(s) == s.skip(i),
        forall|k: int| 0 <= k < i ==> is_white(#[trigger] s[k]),
        trim_start(s).len() > 0 ==> !is_white(trim_start(s)[0]),
    decreases s.len(),
{
    if s.len() > 0 && is_white(s[0]) {
        let i = lemma_trim_start_cuts(s.skip(1));
        assert(s.skip(1).skip(i) == s.skip(i + 1));
        assert forall|k: int| 0 <= k < i + 1 implies is_white(#[trigger] s[k]) by {
            if k > 0 {
                assert(s[k] == s.skip(1)[k - 1]);
            }
        }
        i + 1
    } else {
        assert(s.skip(0) == s);
        0
    }
}

proof fn lemma_trim_end_cuts(s: Seq<char>) -> (j: int)
    ensures
        0 <= j <= s.len(),
        trim_end(s) == s.take(j),
        forall|k: int| j <= k < s.len() ==> is_white(#[trigger] s[k]),
        trim_end(s).len() > 0 ==> !is_white(trim_end(s).last()),
    decreases s.len(),
{
    if s.len() > 0 && is_white(s.last()) {
        let j = lemma_trim_end_cuts(s.drop_last());
        assert(s.drop_last().take(j) == s.take(j));
        assert forall|k: int| j <= k < s.len() implies is_white(#[trigger] s[k]) by {
            if k < s.len() - 1 {
                assert(s[k] == s.drop_last()[k]);
            }
        }
        j
    } else {
        assert(s.take(s.len() as int) == s);
        s.len() as int
    }
}

/// White space is the space, the tabulator, the ends of lines and the like; digits,
/// letters and punctuation are none.
pub proof fn law_visible_characters_are_not_white(c: char)
    ensures
        is_white(' ') && is_white('\t') && is_white('\n') && is_white('\r'),
        '!' <= c <= '~' ==> !is_white(c),
{
}

/// A number in decimal notation holds digits only, and its value grows by a digit as
/// decimal notation does.
pub proof fn law_digits_count_by_ten(s: Seq<char>, d: nat)
    requires
        d < 10,
    ensures
        digit(d) == (if d == 0 {
            '0'
        } else if d == 1 {
            '1'
        } else if d == 2 {
            '2'
        } else if d == 3 {
            '3'
        } else if d == 4 {
            '4'
        } else if d == 5 {
            '5'
        } else if d == 6 {
            '6'
        } else if d == 7 {
            '7'
        } else if d == 8 {
            '8'
        } else {
            '9'
        }),
        number(s.push(digit(d))) == 10 * number(s) + d,
{
    assert(s.push(digit(d)).drop_last() == s);
}

/// A word behind a blank is one word more.
pub proof fn law_word_behind_a_blank(a: Seq<char>, t: Seq<char>)
    requires
        t.len() > 0,
        forall|i: int| 0 <= i < t.len() ==> !is_white(#[trigger] t[i]),
    ensures
        words(a + seq![' '] + t) == words(a).push(t),
    decreases t.len(),
{
    let s = a + seq![' '] + t;
    let front = t.drop_last();
    assert(!is_white(t[t.len() - 1]));
    assert(s.last() == t[t.len() - 1]);
    assert(is_white(' '));
    if t.len() == 1 {
        assert(s.drop_last() =~= a + seq![' ']);
        assert((a + seq![' ']).drop_last() =~= a);
        assert((a + seq![' ']).last() == ' ');
        assert(words(a + seq![' ']) == words(a));
        assert(s[s.len() - 2] == ' ');
        assert(seq![s.last()] =~= t);
    } else {
        assert forall|i: int| 0 <= i < front.len() implies !is_white(#[trigger] front[i]) by {
            assert(front[i] == t[i]);
        }
        law_word_behind_a_blank(a, front);
        assert(s.drop_last() =~= a + seq![' '] + front);
        assert(s[s.len() - 2] == t[t.len() - 2]);
        assert(!is_white(t[t.len() - 2]));
        assert(front.push(t.last()) =~= t);
        assert(words(s) =~= words(a).push(t));
    }
}

/// A text is cut at the first occurrence of a character.
pub proof fn law_text_is_cut_at_the_first_character(a: Seq<char>, b: Seq<char>, c: char)
    requires
        !a.contains(c),
    ensures
        split_once(a + seq![c] + b, c) == Some((a, b)),
        split_once(a, c) is None,
{
    let s = a + seq![c] + b;
    lemma_index_of(s, c);
    lemma_index_of(a, c);
    let i = index_of(s, c);
    assert(s[a.len() as int] == c);
    if i < a.len() {
        assert(a[i] == c);
    }
    assert(i == a.len());
    assert(s.take(i) =~= a);
    assert(s.skip(i + 1) =~= b);
    let j = index_of(a, c);
    if j < a.len() {
        assert(a[j] == c);
    }
}

/// A text is cut at the first occurrence of a mark, where nothing before it holds the
/// first character of the mark.
pub proof fn law_text_is_cut_at_the_first_mark(a: Seq<char>, p: Seq<char>, b: Seq<char>)
    requires
        p.len() > 0,
        !a.contains(p[0]),
    ensures
        split_text(a + p + b, p) == Some((a, b)),
{
    lemma_mark_at(a, p, b);
    let s = a + p + b;
    assert(s.take(a.len() as int) =~= a);
    assert(s.skip(a.len() as int + p.len()) =~= b);
}

proof fn lemma_mark_at(a: Seq<char>, p: Seq<char>, b: Seq<char>)
    requires
        p.len() > 0,
        !a.contains(p[0]),
    ensures
        position(a + p + b, p) == Some(a.len() as int),
    decreases a.len(),
{
    let s = a + p + b;
    if a.len() == 0 {
        assert(s.take(p.len() as int) =~= p);
    } else {
        assert(a.contains(a[0]));
        assert(s[0] == a[0]);
        if begins(s, p) {
            assert(s.take(p.len() as int)[0] == p[0]);
        }
        let rest = a.skip(1);
        assert(!rest.contains(p[0])) by {
            if rest.contains(p[0]) {
                let k = choose|k: int| 0 <= k < rest.len() && rest[k] == p[0];
                assert(a[k + 1] == p[0]);
            }
        }
        lemma_mark_at(rest, p, b);
        assert(s.skip(1) =~= rest + p + b);
    }
}

/// Joined paths have one slash between them, and an absolute name stands alone.
pub proof fn law_paths_are_joined_by_a_slash(dir: Seq<char>, name: Seq<char>)
    requires
        dir.len() > 0,
        name.len() > 0,
    ensures
        name[0] == '/' ==> path_join(dir, name) == name,
        name[0] != '/' && dir.last() != '/' ==> path_join(dir, name) == dir + seq!['/'] + name,
        name[0] != '/' && dir.last() == '/' ==> path_join(dir, name) == dir + name,
{
    reveal_strlit("/");
    assert("/"@ =~= seq!['/']);
    assert(name.take(1)[0] == name[0]);
    if name[0] == '/' {
        assert(name.take(1) =~= "/"@);
    }
}

/// Joined texts have the separator between two neighbours and nowhere else.
pub proof fn law_join_puts_separators_between(v: Seq<Seq<char>>, last: Seq<char>, sep: Seq<char>)
    ensures
        join(Seq::empty(), sep).len() == 0,
        join(seq![last], sep) == last,
        v.len() > 0 ==> join(v.push(last), sep) == join(v, sep) + sep + last,
{
    if v.len() > 0 {
        assert(v.push(last).drop_last() =~= v);
    }
}

/// A line ends at a line feed, which is no part of it, nor is a carriage return directly
/// before it; the other lines follow.
pub proof fn law_lines_end_at_line_feeds(a: Seq<char>, b: Seq<char>)
    requires
        !a.contains('\n'),
    ensures
        a.len() > 0 ==> lines(a) == seq![a],
        lines(Seq::empty()).len() == 0,
        a.len() == 0 || a.last() != '\r' ==> lines(a + seq!['\n'] + b) == seq![a] + lines(b),
        a.len() > 0 && a.last() == '\r' ==> lines(a + seq!['\n'] + b) == seq![a.drop_last()]
            + lines(b),
{
    law_first_piece_ends_at_separator(a, b, '\n');
    law_first_piece_ends_at_separator(Seq::empty(), b, '\n');
    lemma_split_len(b, '\n');
    lemma_split_len(a + seq!['\n'] + b, '\n');
    let all = split(a + seq!['\n'] + b, '\n');
    let rest = split(b, '\n');
    assert(all =~= seq![a] + rest) by {
        assert(all =~= seq![all[0]] + all.skip(1));
    }
    assert(all.last() == rest.last());
    let first = without_cr(a);
    let ended = Seq::new((all.len() - 1) as nat, |i: int| without_cr(all[i]));
    let later = Seq::new((rest.len() - 1) as nat, |i: int| without_cr(rest[i]));
    assert(ended =~= seq![first] + later);
    if rest.last().len() == 0 {
        assert(lines(a + seq!['\n'] + b) =~= seq![first] + lines(b));
    } else {
        assert(lines(a + seq!['\n'] + b) =~= seq![first] + lines(b));
    }
    if a.len() > 0 {
        assert(lines(a) =~= seq![a]);
    }
    assert(split(Seq::<char>::empty(), '\n') == seq![Seq::<char>::empty()]);
}

/// Lower case is that of the ASCII letters; nothing else changes.
pub proof fn law_lower_case_is_ascii(c: char)
    ensures
        'A' <= c <= 'Z' ==> lower(c) as u32 == c as u32 + 32 && 'a' <= lower(c) <= 'z',
        !('A' <= c <= 'Z') ==> lower(c) == c,
{
}

/// A run has been opened as soon as the last character is not white space.
pub proof fn lemma_words_len(s: Seq<char>)
    requires
        s.len() > 0,
        !is_white(s.last()),
    ensures
        words(s).len() > 0,
    decreases s.len(),
{
    if s.len() > 1 && !is_white(s[s.len() - 2]) {
        lemma_words_len(s.drop_last());
    }
}

/// The first `c` of `s` stands at `index_of(s, c)`.
pub proof fn lemma_index_of(s: Seq<char>, c: char)
    ensures
        0 <= index_of(s, c) <= s.len(),
        index_of(s, c) < s.len() ==> s[index_of(s, c)] == c,
        forall|j: int| 0 <= j < index_of(s, c) ==> s[j] != c,
    decreases s.len(),
{
    if s.len() > 0 && s[0] != c {
        lemma_index_of(s.skip(1), c);
        assert forall|j: int| 0 <= j < index_of(s, c) implies s[j] != c by {
            if j > 0 {
                assert(s[j] == s.skip(1)[j - 1]);
            }
        }
    }
}

/// Pieces put together again with the separator give the text that was split.
pub proof fn law_join_split(s: Seq<char>, sep: char)
    ensures
        join(split(s, sep), seq![sep]) == s,
    decreases s.len(),
{
    if s.len() > 0 {
        let front = split(s.drop_last(), sep);
        lemma_split_len(s.drop_last(), sep);
        law_join_split(s.drop_last(), sep);
        if s.last() == sep {
            let all = front.push(Seq::<char>::empty());
            assert(all.drop_last() =~= front);
            assert(join(all, seq![sep]) =~= s);
        } else {
            let all = front.drop_last().push(front.last().push(s.last()));
            assert(all.drop_last() =~= front.drop_last());
            assert(join(all, seq![sep]) =~= join(front, seq![sep]).push(s.last()));
            assert(s.drop_last().push(s.last()) =~= s);
        }
    } else {
        assert(join(split(s, sep), seq![sep]) =~= s);
    }
}

/// Decimal notation is made of digits only.
pub proof fn lemma_dec_is_number(n: nat)
    ensures
        is_number(dec(n)),
    decreases n,
{
    if n >= 10 {
        lemma_dec_is_number(n / 10);
    }
}

/// Reading decimal notation gives back the number that was written.
pub proof fn law_number_of_dec(n: nat)
    ensures
        is_number(dec(n)),
        number(dec(n)) == n,
    decreases n,
{
    reveal_with_fuel(number, 2);
    lemma_dec_is_number(n);
    if n >= 10 {
        law_number_of_dec(n / 10);
        assert(dec(n).drop_last() =~= dec(n / 10));
    } else {
        assert(dec(n).drop_last() =~= Seq::<char>::empty());
    }
}

/// An unsigned number survives being written and read.
pub proof fn law_read_unsigned_of_dec(n: nat, max: nat)
    requires
        n <= max,
    ensures
        read_unsigned(dec(n), max) == Some(n),
{
    law_number_of_dec(n);
    assert(is_digit(dec(n)[0]));
}

/// A signed number survives being written and read.
pub proof fn law_read_signed_of_dec(i: int, limit: nat)
    requires
        -limit <= i < limit,
    ensures
        read_signed(dec_int(i), limit) == Some(i),
{
    if i < 0 {
        law_number_of_dec((-i) as nat);
        assert(dec_int(i).skip(1) =~= dec((-i) as nat));
    } else {
        law_number_of_dec(i as nat);
        assert(is_digit(dec(i as nat)[0]));
    }
}

/// Trimmed text neither starts nor ends with white space.
pub proof fn lemma_trim_start_ends(s: Seq<char>)
    ensures
        trim_start(s).len() <= s.len(),
        trim_start(s) == s.skip(s.len() - trim_start(s).len()),
        trim_start(s).len() > 0 ==> !is_white(trim_start(s)[0]),
    decreases s.len(),
{
    if s.len() > 0 && is_white(s[0]) {
        lemma_trim_start_ends(s.skip(1));
        assert(s.skip(1).skip(s.len() - 1 - trim_start(s).len()) =~= s.skip(
            s.len() - trim_start(s).len(),
        ));
    } else {
        assert(s.skip(0) =~= s);
    }
}

/// Trimming the end keeps a prefix.
pub proof fn lemma_trim_end_ends(s: Seq<char>)
    ensures
        trim_end(s).len() <= s.len(),
        trim_end(s) == s.take(trim_end(s).len() as int),
        trim_end(s).len() > 0 ==> !is_white(trim_end(s).last()),
    decreases s.len(),
{
    if s.len() > 0 && is_white(s.last()) {
        lemma_trim_end_ends(s.drop_last());
        assert(s.drop_last().take(trim_end(s).len() as int) =~= s.take(trim_end(s).len() as int));
    } else {
        assert(s.take(s.len() as int) =~= s);
    }
}

// ---------------------------------------------------------------------------
// Executable functions
// ---------------------------------------------------------------------------
/// The characters of `s`, in order.
pub fn chars_of(s: &str) -> (r: Vec<char>)
    ensures
        r@ == s@,
{
    let mut out: Vec<char> = Vec::new();
    for c in it: s.chars()
        invariant
            out@ == it.seq().take(it.index() as int),
            it.seq() == s@,
    {
        proof {
            assert(it.seq().take(it.index() as int + 1) =~= it.seq().take(it.index() as int).push(
                it.seq()[it.index() as int],
            ));
        }
        out.push(c);
    }
    assert(s@.take(s@.len() as int) =~= s@);
    out
}

/// The text of the characters from `from` to just before `to`.
pub fn piece(v: &Vec<char>, from: usize, to: usize) -> (r: String)
    requires
        from <= to <= v@.len(),
    ensures
        r@ == v@.subrange(from as int, to as int),
{
    let mut out = String::new();
    let mut i: usize = from;
    while i < to
        invariant
            from <= i <= to <= v@.len(),
            out@ == v@.subrange(from as int, i as int),
        decreases to - i,
    {
        assert(v@.subrange(from as int, i as int + 1) =~= v@.subrange(from as int, i as int).push(
            v@[i as int],
        ));
        out.push(v[i]);
        i = i + 1;
    }
    out
}

/// A string with the contents of `s`.
pub fn owned(s: &str) -> (r: String)
    ensures
        r@ == s@,
{
    String::from_str(s)
}

/// `a` followed by `b`.
pub fn cat(a: &str, b: &str) -> (r: String)
    ensures
        r@ == a@ + b@,
{
    let mut out = String::from_str(a);
    out.append(b);
    out
}

/// `a`, `b` and `c`, one after the other.
pub fn cat3(a: &str, b: &str, c: &str) -> (r: String)
    ensures
        r@ == a@ + b@ + c@,
{
    let mut out = cat(a, b);
    out.append(c);
    out
}

/// The two texts are the same.
pub fn same(a: &str, b: &str) -> (r: bool)
    ensures
        r == (a@ == b@),
{
    let x = chars_of(a);
    let y = chars_of(b);
    if x.len() != y.len() {
        return false;
    }
    let mut i: usize = 0;
    while i < x.len()
        invariant
            i <= x.len() == y.len(),
            x@ == a@,
            y@ == b@,
            x@.take(i as int) == y@.take(i as int),
        decreases x.len() - i,
    {
        if x[i] != y[i] {
            assert(a@[i as int] != b@[i as int]);
            return false;
        }
        assert(x@.take(i as int + 1) =~= x@.take(i as int).push(x@[i as int]));
        assert(y@.take(i as int + 1) =~= y@.take(i as int).push(y@[i as int]));
        i = i + 1;
    }
    assert(x@.take(i as int) =~= x@);
    assert(y@.take(i as int) =~= y@);
    true
}

/// Whether `c` is white space.
pub fn white(c: char) -> (r: bool)
    ensures
        r == is_white(c),
{
    let n: u32 = c as u32;
    (0x9 <= n && n <= 0xD) || n == 0x20 || n == 0x85 || n == 0xA0 || n == 0x1680 || (0x2000 <= n
        && n <= 0x200A) || n == 0x2028 || n == 0x2029 || n == 0x202F || n == 0x205F || n == 0x3000
}

/// `s` without white space at either end.
pub fn trimmed(s: &str) -> (r: String)
    ensures
        r@ == trim(s@),
{
    let v = chars_of(s);
    let mut a: usize = 0;
    assert(s@.skip(0) =~= s@);
    while a < v.len() && white(v[a])
        invariant
            a <= v.len(),
            v@ == s@,
            trim_start(s@) == trim_start(s@.skip(a as int)),
        decreases v.len() - a,
    {
        assert(s@.skip(a as int).skip(1) =~= s@.skip(a as int + 1));
        a = a + 1;
    }
    assert(trim_start(s@) == s@.skip(a as int));
    let ghost rest = s@.skip(a as int);
    let mut b: usize = v.len();
    assert(rest.take(b - a) =~= rest);
    while b > a && white(v[b - 1])
        invariant
            a <= b <= v.len(),
            v@ == s@,
            rest == s@.skip(a as int),
            trim_end(rest) == trim_end(rest.take(b - a)),
        decreases b,
    {
        assert(rest.take(b - a).drop_last() =~= rest.take(b - a - 1));
        b = b - 1;
    }
    assert(trim_end(rest) == rest.take(b - a));
    assert(rest.take(b - a) =~= v@.subrange(a as int, b as int));
    piece(&v, a, b)
}

/// `s` without its leading white space.
pub fn trimmed_start(s: &str) -> (r: String)
    ensures
        r@ == trim_start(s@),
{
    let v = chars_of(s);
    let mut a: usize = 0;
    assert(s@.skip(0) =~= s@);
    while a < v.len() && white(v[a])
        invariant
            a <= v.len(),
            v@ == s@,
            trim_start(s@) == trim_start(s@.skip(a as int)),
        decreases v.len() - a,
    {
        assert(s@.skip(a as int).skip(1) =~= s@.skip(a as int + 1));
        a = a + 1;
    }
    assert(trim_start(s@) == s@.skip(a as int));
    assert(s@.skip(a as int) =~= v@.subrange(a as int, v.len() as int));
    piece(&v, a, v.len())
}

/// `s` without any leading `c`.
pub fn drop_leading(s: &str, c: char) -> (r: String)
    ensures
        r@ == without_leading(s@, c),
{
    let v = chars_of(s);
    let mut a: usize = 0;
    assert(s@.skip(0) =~= s@);
    while a < v.len() && v[a] == c
        invariant
            a <= v.len(),
            v@ == s@,
            without_leading(s@, c) == without_leading(s@.skip(a as int), c),
        decreases v.len() - a,
    {
        assert(s@.skip(a as int).skip(1) =~= s@.skip(a as int + 1));
        a = a + 1;
    }
    assert(without_leading(s@, c) == s@.skip(a as int));
    assert(s@.skip(a as int) =~= v@.subrange(a as int, v.len() as int));
    piece(&v, a, v.len())
}

/// Whether `s` starts with `p`.
pub fn has_prefix(s: &str, p: &str) -> (r: bool)
    ensures
        r == begins(s@, p@),
{
    let v = chars_of(s);
    let w = chars_of(p);
    matches_at(&v, &w, 0)
}

/// Whether `w` stands in `v` at position `at`.
pub fn matches_at(v: &Vec<char>, w: &Vec<char>, at: usize) -> (r: bool)
    requires
        at <= v@.len(),
    ensures
        r == occurs_at(v@, w@, at as int),
        at == 0 ==> r == begins(v@, w@),
{
    if w.len() > v.len() - at {
        return false;
    }
    let mut i: usize = 0;
    while i < w.len()
        invariant
            i <= w.len() <= v.len() - at,
            v@.subrange(at as int, at + i) == w@.take(i as int),
        decreases w.len() - i,
    {
        if v[at + i] != w[i] {
            assert(v@.subrange(at as int, at + w.len())[i as int] == v@[at + i]);
            assert(at == 0 ==> v@.take(w.len() as int)[i as int] == v@[i as int]);
            return false;
        }
        assert(v@.subrange(at as int, at + i + 1) =~= v@.subrange(at as int, at + i).push(
            v@[at + i],
        ));
        assert(w@.take(i as int + 1) =~= w@.take(i as int).push(w@[i as int]));
        i = i + 1;
    }
    assert(w@.take(i as int) =~= w@);
    assert(at == 0 ==> v@.take(w.len() as int) =~= v@.subrange(0, w.len() as int));
    true
}

/// What follows the prefix `p` of `s`, if `s` has it.
pub fn after_prefix(s: &str, p: &str) -> (r: Option<String>)
    ensures
        opt_text(r) == strip_prefix(s@, p@),
{
    let v = chars_of(s);
    let w = chars_of(p);
    if matches_at(&v, &w, 0) {
        assert(v@.skip(w.len() as int) =~= v@.subrange(w.len() as int, v.len() as int));
        Some(piece(&v, w.len(), v.len()))
    } else {
        None
    }
}

/// What precedes the suffix `p` of `s`, if `s` has it.
pub fn before_suffix(s: &str, p: &str) -> (r: Option<String>)
    ensures
        opt_text(r) == strip_suffix(s@, p@),
{
    let v = chars_of(s);
    let w = chars_of(p);
    if w.len() > v.len() {
        return None;
    }
    let at: usize = v.len() - w.len();
    assert(v@.subrange(at as int, at + w.len()) =~= v@.skip(at as int));
    if matches_at(&v, &w, at) {
        assert(v@.take(at as int) =~= v@.subrange(0, at as int));
        Some(piece(&v, 0, at))
    } else {
        None
    }
}

/// The first position is where the text stands first.
pub proof fn lemma_position(s: Seq<char>, p: Seq<char>)
    ensures
        match position(s, p) {
            Some(i) => occurs_at(s, p, i) && forall|j: int| 0 <= j < i ==> !occurs_at(s, p, j),
            None => !contains(s, p),
        },
    decreases s.len(),
{
    assert(begins(s, p) ==> s.take(p.len() as int) =~= s.subrange(0, p.len() as int));
    assert(occurs_at(s, p, 0) ==> s.subrange(0, p.len() as int) =~= s.take(p.len() as int));
    if !begins(s, p) && s.len() > 0 {
        let t = s.skip(1);
        lemma_position(t, p);
        assert forall|j: int| 0 < j implies occurs_at(s, p, j) == occurs_at(t, p, j - 1) by {
            if j + p.len() <= s.len() {
                assert(s.subrange(j, j + p.len()) =~= t.subrange(j - 1, j - 1 + p.len()));
            }
        }
        if position(t, p) is None {
            assert forall|j: int| !occurs_at(s, p, j) by {
                if occurs_at(s, p, j) && j > 0 {
                    assert(occurs_at(t, p, j - 1));
                }
            }
        }
    }
}

/// The first position of `p` in `s`, if there is one.
pub fn find(s: &str, p: &str) -> (r: Option<usize>)
    ensures
        match r {
            Some(i) => position(s@, p@) == Some(i as int) && i + p@.len() <= s@.len(),
            None => position(s@, p@) is None,
        },
{
    let v = chars_of(s);
    let w = chars_of(p);
    let mut i: usize = 0;
    assert(s@.skip(0) =~= s@);
    loop
        invariant
            i <= v.len(),
            v@ == s@,
            w@ == p@,
            position(s@, p@) == (match position(s@.skip(i as int), p@) {
                Some(k) => Some(k + i),
                None => None,
            }),
        decreases v.len() - i,
    {
        let ghost rest = s@.skip(i as int);
        assert(i + w@.len() <= s@.len() ==> rest.take(w@.len() as int) =~= s@.subrange(
            i as int,
            i + w@.len(),
        ));
        if matches_at(&v, &w, i) {
            return Some(i);
        }
        if i == v.len() {
            return None;
        }
        assert(rest.skip(1) =~= s@.skip(i as int + 1));
        i = i + 1;
    }
}

/// Whether `p` stands somewhere in `s`.
pub fn has_text(s: &str, p: &str) -> (r: bool)
    ensures
        r == contains(s@, p@),
{
    proof {
        lemma_position(s@, p@);
    }
    find(s, p).is_some()
}

/// `s` cut at the first `p`.
pub fn cut_text(s: &str, p: &str) -> (r: Option<(String, String)>)
    ensures
        match r {
            Some(c) => split_text(s@, p@) == Some((c.0@, c.1@)),
            None => split_text(s@, p@) is None,
        },
{
    match find(s, p) {
        Some(i) => {
            let v = chars_of(s);
            let n: usize = chars_of(p).len();
            assert(s@.take(i as int) =~= v@.subrange(0, i as int));
            assert(s@.skip(i + n) =~= v@.subrange(i + n, v.len() as int));
            Some((piece(&v, 0, i), piece(&v, i + n, v.len())))
        },
        None => None,
    }
}

/// `s` cut at its first `c`.
pub fn cut(s: &str, c: char) -> (r: Option<(String, String)>)
    ensures
        match r {
            Some(p) => split_once(s@, c) == Some((p.0@, p.1@)),
            None => split_once(s@, c) is None,
        },
{
    let v = chars_of(s);
    let mut i: usize = 0;
    assert(s@.skip(0) =~= s@);
    while i < v.len()
        invariant
            i <= v.len(),
            v@ == s@,
            index_of(s@, c) == i + index_of(s@.skip(i as int), c),
        decreases v.len() - i,
    {
        if v[i] == c {
            assert(index_of(s@.skip(i as int), c) == 0);
            assert(s@.take(i as int) =~= v@.subrange(0, i as int));
            assert(s@.skip(i + 1) =~= v@.subrange(i + 1, v.len() as int));
            return Some((piece(&v, 0, i), piece(&v, i + 1, v.len())));
        }
        assert(s@.skip(i as int).skip(1) =~= s@.skip(i as int + 1));
        i = i + 1;
    }
    None
}

/// The pieces of `s` between occurrences of `sep`.
pub fn split_at_char(s: &str, sep: char) -> (r: Vec<String>)
    ensures
        texts(r@) == split(s@, sep),
        r@.len() > 0,
{
    broadcast use lemma_texts_push;

    let v = chars_of(s);
    let mut out: Vec<String> = Vec::new();
    let mut cur = String::new();
    let mut i: usize = 0;
    assert(texts(out@).push(cur@) =~= split(s@.take(0), sep));
    while i < v.len()
        invariant
            i <= v.len(),
            v@ == s@,
            texts(out@).push(cur@) == split(s@.take(i as int), sep),
        decreases v.len() - i,
    {
        let ghost before = texts(out@).push(cur@);
        assert(s@.take(i as int + 1).drop_last() =~= s@.take(i as int));
        assert(before.drop_last() =~= texts(out@));
        if v[i] == sep {
            out.push(cur);
            cur = String::new();
            assert(texts(out@) =~= before);
        } else {
            cur.push(v[i]);
        }
        i = i + 1;
    }
    assert(s@.take(i as int) =~= s@);
    out.push(cur);
    out
}

/// The lines of `s`.
pub fn lines_of(s: &str) -> (r: Vec<String>)
    ensures
        texts(r@) == lines(s@),
{
    broadcast use lemma_texts_push;

    let pieces = split_at_char(s, '\n');
    let ghost all = split(s@, '\n');
    let mut out: Vec<String> = Vec::new();
    let mut i: usize = 0;
    let n: usize = pieces.len() - 1;
    while i < n
        invariant
            i <= n == pieces.len() - 1,
            texts(pieces@) == all,
            texts(out@) == Seq::new(i as nat, |j: int| without_cr(all[j])),
        decreases n - i,
    {
        let line = drop_cr(pieces[i].as_str());
        assert(all[i as int] == pieces@[i as int]@);
        let ghost had = texts(out@);
        out.push(line);
        assert(texts(out@) == had.push(without_cr(all[i as int])));
        i = i + 1;
        assert(texts(out@) =~= Seq::new(i as nat, |j: int| without_cr(all[j])));
    }
    assert(all.last() == pieces@[n as int]@);
    if !pieces[n].as_str().is_empty() {
        out.push(pieces[n].clone());
    }
    out
}

/// `s` without one carriage return at its end.
fn drop_cr(s: &str) -> (r: String)
    ensures
        r@ == without_cr(s@),
{
    let v = chars_of(s);
    if v.len() > 0 && v[v.len() - 1] == '\r' {
        assert(s@.drop_last() =~= v@.subrange(0, v.len() - 1));
        piece(&v, 0, v.len() - 1)
    } else {
        owned(s)
    }
}

/// The maximal runs of `s` without white space.
pub fn words_of(s: &str) -> (r: Vec<String>)
    ensures
        texts(r@) == words(s@),
{
    broadcast use lemma_texts_push;

    let v = chars_of(s);
    let mut out: Vec<String> = Vec::new();
    let mut cur = String::new();
    let mut open = false;
    let mut i: usize = 0;
    assert(texts(out@) =~= words(s@.take(0)));
    while i < v.len()
        invariant
            i <= v.len(),
            v@ == s@,
            open == (i > 0 && !is_white(s@[i - 1])),
            open ==> words(s@.take(i as int)) == texts(out@).push(cur@),
            !open ==> words(s@.take(i as int)) == texts(out@) && cur@.len() == 0,
        decreases v.len() - i,
    {
        let ghost now = s@.take(i as int + 1);
        assert(now.drop_last() =~= s@.take(i as int));
        assert(i > 0 ==> now[now.len() - 2] == s@[i - 1]);
        if white(v[i]) {
            if open {
                out.push(cur);
                cur = String::new();
                open = false;
            }
        } else {
            let ghost had = cur@;
            cur.push(v[i]);
            proof {
                if open {
                    assert(texts(out@).push(had).drop_last() =~= texts(out@));
                } else {
                    assert(cur@ =~= seq![s@[i as int]]);
                }
            }
            open = true;
        }
        i = i + 1;
    }
    assert(s@.take(i as int) =~= s@);
    if open {
        out.push(cur);
    }
    out
}

/// `s` with every occurrence of `p` replaced by `by`.
pub fn replaced(s: &str, p: &str, by: &str) -> (r: String)
    requires
        p@.len() > 0,
    ensures
        r@ == replace(s@, p@, by@),
{
    let v = chars_of(s);
    let w = chars_of(p);
    let mut out = String::new();
    let mut i: usize = 0;
    assert(s@.skip(0) =~= s@);
    assert(out@ + replace(s@.skip(0), p@, by@) =~= replace(s@, p@, by@));
    while i < v.len()
        invariant
            i <= v.len(),
            v@ == s@,
            w@ == p@,
            w@.len() > 0,
            out@ + replace(s@.skip(i as int), p@, by@) == replace(s@, p@, by@),
        decreases v.len() - i,
    {
        let ghost rest = s@.skip(i as int);
        let ghost had = out@;
        if matches_at(&v, &w, i) {
            assert(rest.take(w.len() as int) =~= s@.subrange(i as int, i + w.len()));
            assert(rest.skip(w.len() as int) =~= s@.skip(i + w.len()));
            out.append(by);
            i = i + w.len();
            assert(out@ + replace(s@.skip(i as int), p@, by@) =~= had + replace(rest, p@, by@));
        } else {
            assert(rest.len() >= w.len() ==> rest.take(w.len() as int) =~= s@.subrange(
                i as int,
                i + w.len(),
            ));
            assert(rest.skip(1) =~= s@.skip(i + 1));
            if v.len() - i < w.len() {
                assert(rest =~= seq![rest[0]] + rest.skip(1));
            }
            out.push(v[i]);
            i = i + 1;
            assert(out@ =~= had + seq![rest[0]]);
            assert(out@ + replace(s@.skip(i as int), p@, by@) =~= had + (seq![rest[0]] + replace(
                s@.skip(i as int),
                p@,
                by@,
            )));
        }
    }
    assert(replace(s@.skip(i as int), p@, by@) =~= Seq::<char>::empty());
    assert(out@ =~= replace(s@, p@, by@));
    out
}

/// The ASCII lower-case form of `c`.
pub fn lower_char(c: char) -> (r: char)
    ensures
        r == lower(c),
{
    if 'A' <= c && c <= 'Z' {
        (c as u8 + 32) as char
    } else {
        c
    }
}

/// `s` with each character in its ASCII lower-case form.
pub fn lowered(s: &str) -> (r: String)
    ensures
        r@ == lower_all(s@),
{
    let v = chars_of(s);
    let mut out = String::new();
    let mut i: usize = 0;
    while i < v.len()
        invariant
            i <= v.len(),
            v@ == s@,
            out@ == lower_all(s@.take(i as int)),
        decreases v.len() - i,
    {
        out.push(lower_char(v[i]));
        i = i + 1;
        assert(out@ =~= lower_all(s@.take(i as int)));
    }
    assert(s@.take(i as int) =~= s@);
    out
}

/// Whether the texts are the same up to ASCII case.
pub fn same_ignoring_case(a: &str, b: &str) -> (r: bool)
    ensures
        r == (lower_all(a@) == lower_all(b@)),
{
    let x = lowered(a);
    let y = lowered(b);
    same(x.as_str(), y.as_str())
}

/// `n` in decimal notation.
pub fn dec_of(n: u64) -> (r: String)
    ensures
        r@ == dec(n as nat),
    decreases n,
{
    let d: u8 = (n % 10) as u8;
    let c: char = (48 + d) as char;
    if n < 10 {
        let mut out = String::new();
        out.push(c);
        assert(out@ =~= seq![digit(n as nat)]);
        out
    } else {
        let mut out = dec_of(n / 10);
        out.push(c);
        out
    }
}

/// `i` in decimal notation.
pub fn dec_int_of(i: i64) -> (r: String)
    ensures
        r@ == dec_int(i as int),
{
    if i < 0 {
        let m: u64 = (-(i + 1)) as u64 + 1;
        let d = dec_of(m);
        let mut out = String::new();
        out.push('-');
        out.append(d.as_str());
        assert(out@ =~= seq!['-'] + dec((-(i as int)) as nat));
        out
    } else {
        dec_of(i as u64)
    }
}

/// The number that the digits of `v` from `from` on denote, up to `max`.
fn read_digits(v: &Vec<char>, from: usize, max: u64) -> (r: Option<u64>)
    requires
        from <= v@.len(),
        max <= 0xFFFF_FFFF,
    ensures
        match r {
            Some(n) => is_number(v@.skip(from as int)) && number(v@.skip(from as int)) == n && n
                <= max,
            None => !is_number(v@.skip(from as int)) || number(v@.skip(from as int)) > max,
        },
{
    let ghost d = v@.skip(from as int);
    if from == v.len() {
        return None;
    }
    let mut n: u64 = 0;
    let mut i: usize = from;
    let mut over = false;
    while i < v.len()
        invariant
            from <= i <= v.len(),
            d == v@.skip(from as int),
            max <= 0xFFFF_FFFF,
            forall|j: int| 0 <= j < i - from ==> is_digit(#[trigger] d[j]),
            over ==> number(d.take(i - from)) > max,
            !over ==> number(d.take(i - from)) == n && n <= max,
        decreases v.len() - i,
    {
        let c = v[i];
        assert(d[i - from] == c);
        if !('0' <= c && c <= '9') {
            return None;
        }
        assert(d.take(i - from + 1).drop_last() =~= d.take(i - from));
        let x: u64 = (c as u32 - 48) as u64;
        if !over {
            let m: u64 = n * 10 + x;
            if m > max {
                over = true;
            } else {
                n = m;
            }
        }
        i = i + 1;
    }
    assert(d.take(i - from) =~= d);
    if over {
        None
    } else {
        Some(n)
    }
}

/// The `u32` that `s` denotes: decimal digits behind an optional plus sign.
pub fn read_u32(s: &str) -> (r: Option<u32>)
    ensures
        match r {
            Some(n) => read_unsigned(s@, u32::MAX as nat) == Some(n as nat),
            None => read_unsigned(s@, u32::MAX as nat) is None,
        },
{
    let v = chars_of(s);
    let from: usize = if v.len() > 0 && v[0] == '+' {
        1
    } else {
        0
    };
    assert(s@.skip(0) =~= s@);
    match read_digits(&v, from, 0xFFFF_FFFF) {
        Some(n) => Some(n as u32),
        None => None,
    }
}

/// The `u32` in front of the first dot.
pub fn read_leading(s: &str) -> (r: Option<u32>)
    ensures
        match r {
            Some(n) => leading_number(s@) == Some(n as nat),
            None => leading_number(s@) is None,
        },
{
    let parts = split_at_char(s, '.');
    assert(parts@[0]@ == texts(parts@)[0]);
    read_u32(parts[0].as_str())
}

/// The `i32` that `s` denotes: decimal digits behind an optional sign.
pub fn read_i32(s: &str) -> (r: Option<i32>)
    ensures
        match r {
            Some(n) => read_signed(s@, 0x8000_0000) == Some(n as int),
            None => read_signed(s@, 0x8000_0000) is None,
        },
{
    let v = chars_of(s);
    assert(s@.skip(0) =~= s@);
    if v.len() > 0 && v[0] == '-' {
        return match read_digits(&v, 1, 0x8000_0000) {
            Some(n) => Some((0 - n as i64) as i32),
            None => None,
        };
    }
    let from: usize = if v.len() > 0 && v[0] == '+' {
        1
    } else {
        0
    };
    match read_digits(&v, from, 0x7FFF_FFFF) {
        Some(n) => Some(n as i32),
        None => None,
    }
}

/// The file path `name` below the directory `dir`.
pub fn path_in(dir: &str, name: &str) -> (r: String)
    ensures
        r@ == path_join(dir@, name@),
{
    let v = chars_of(dir);
    if has_prefix(name, "/") || v.len() == 0 {
        owned(name)
    } else if v[v.len() - 1] == '/' {
        cat(dir, name)
    } else {
        cat3(dir, "/", name)
    }
}

/// The strings of `v`, with `sep` between two neighbours.
pub fn joined(v: &Vec<String>, sep: &str) -> (r: String)
    ensures
        r@ == join(texts(v@), sep@),
{
    let mut out = String::new();
    let mut i: usize = 0;
    while i < v.len()
        invariant
            i <= v.len(),
            out@ == join(texts(v@).take(i as int), sep@),
        decreases v.len() - i,
    {
        let ghost now = texts(v@).take(i as int + 1);
        assert(now.drop_last() =~= texts(v@).take(i as int));
        assert(now.last() == v@[i as int]@);
        if i > 0 {
            out.append(sep);
        }
        out.append(v[i].as_str());
        i = i + 1;
        assert(i == 1 ==> out@ =~= now[0]);
    }
    assert(texts(v@).take(i as int) =~= texts(v@));
    out
}

/// Whether `s` is one of the strings of `v`.
pub fn among(v: &Vec<String>, s: &str) -> (r: bool)
    ensures
        r == texts(v@).contains(s@),
{
    let mut i: usize = 0;
    while i < v.len()
        invariant
            i <= v.len(),
            forall|j: int| 0 <= j < i ==> #[trigger] texts(v@)[j] != s@,
        decreases v.len() - i,
    {
        if same(v[i].as_str(), s) {
            assert(texts(v@)[i as int] == s@);
            return true;
        }
        i = i + 1;
    }
    false
}

/// A suffix is taken off where the text ends with it, also where it is the whole text, and
/// so is a prefix.
pub proof fn law_ends_are_taken_off(a: Seq<char>, p: Seq<char>)
    ensures
        strip_suffix(a + p, p) == Some(a),
        strip_prefix(p + a, p) == Some(a),
        strip_suffix(a, p) matches Some(front) ==> front + p == a,
        strip_prefix(a, p) matches Some(rest) ==> p + rest == a,
        p.len() > a.len() ==> strip_suffix(a, p) is None && strip_prefix(a, p) is None,
{
    assert((a + p).skip(a.len() as int) =~= p);
    assert((a + p).take(a.len() as int) =~= a);
    assert((p + a).skip(p.len() as int) =~= a);
    assert((p + a).take(p.len() as int) =~= p);
    if p.len() <= a.len() {
        assert(a.take(a.len() - p.len()) + a.skip(a.len() - p.len()) =~= a);
        assert(a.take(p.len() as int) + a.skip(p.len() as int) =~= a);
    }
}

/// Every occurrence is replaced, the text around them stays: an occurrence in front is
/// replaced and what follows is treated alike, and without an occurrence nothing changes.
pub proof fn law_occurrences_are_replaced(p: Seq<char>, by: Seq<char>, rest: Seq<char>)
    requires
        p.len() > 0,
    ensures
        replace(p + rest, p, by) == by + replace(rest, p, by),
        replace(p, p, by) == by,
        !contains(rest, p) ==> replace(rest, p, by) == rest,
{
    assert((p + rest).take(p.len() as int) =~= p);
    assert((p + rest).skip(p.len() as int) =~= rest);
    assert(p.take(p.len() as int) =~= p);
    assert(p.skip(p.len() as int) =~= Seq::empty());
    assert(replace(Seq::empty(), p, by) =~= Seq::empty());
    assert(replace(p, p, by) =~= by);
    if !contains(rest, p) {
        lemma_nothing_to_replace(rest, p, by);
    }
}

proof fn lemma_nothing_to_replace(s: Seq<char>, p: Seq<char>, by: Seq<char>)
    requires
        p.len() > 0,
        !contains(s, p),
    ensures
        replace(s, p, by) == s,
    decreases s.len(),
{
    if s.len() >= p.len() {
        if begins(s, p) {
            assert(s.subrange(0, p.len() as int) =~= s.take(p.len() as int));
            assert(occurs_at(s, p, 0));
        }
        let rest = s.skip(1);
        assert(!contains(rest, p)) by {
            if contains(rest, p) {
                let i = choose|i: int| occurs_at(rest, p, i);
                assert(s.subrange(i + 1, i + 1 + p.len()) =~= rest.subrange(i, i + p.len()));
                assert(occurs_at(s, p, i + 1));
            }
        }
        lemma_nothing_to_replace(rest, p, by);
        assert(seq![s[0]] + rest =~= s);
    }
}

} // verus!
