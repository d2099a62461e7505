//! Text, seen as a sequence of characters.
//!
//! Contracts in this crate speak of `Seq<char>`; this module says what trimming,
//! splitting into lines, searching and number formatting mean on such sequences.

use vstd::prelude::*;
use vstd::string::*;
use vstd::utf8::{decode_utf8, is_ascii_chars, valid_utf8};

verus! {

/// `String::push` appends one character.
pub assume_specification[ String::push ](s: &mut String, c: char)
    ensures
        final(s)@ == old(s)@.push(c),
;

/// What `String::from_utf8_lossy` makes of a byte sequence that is not UTF-8.
pub uninterp spec fn repaired_utf8(bytes: Seq<u8>) -> Seq<char>;

/// What `str::to_uppercase` makes of a text that is not ASCII.
pub uninterp spec fn unicode_uppercase(text: Seq<char>) -> Seq<char>;

/// `String::from_utf8_lossy`: the text that `bytes` encode. Bytes that are no UTF-8
/// come out with replacement characters in them; that text is only named.
#[verifier::external_body]
pub(crate) fn decode_lossy(bytes: &Vec<u8>) -> (r: String)
    ensures
        r@ == (if valid_utf8(bytes@) { decode_utf8(bytes@) } else { repaired_utf8(bytes@) }),
{
    String::from_utf8_lossy(bytes).to_string()
}

/// `str::to_uppercase`: the Unicode uppercase form. ASCII text has its letters `a` to
/// `z` changed and nothing else; the form of any other text is only named.
#[verifier::external_body]
pub(crate) fn to_upper(text: &str) -> (r: String)
    ensures
        r@ == (if is_ascii_chars(text@) { ascii_uppercase(text@) } else {
            unicode_uppercase(text@)
        }),
{
    text.to_uppercase()
}

/// The text of process output, which is meant to be UTF-8.
pub open spec fn output_text(bytes: Seq<u8>) -> Seq<char> {
    if valid_utf8(bytes) {
        decode_utf8(bytes)
    } else {
        repaired_utf8(bytes)
    }
}

/// The uppercase form of a text.
pub open spec fn uppercase(text: Seq<char>) -> Seq<char> {
    if is_ascii_chars(text) {
        ascii_uppercase(text)
    } else {
        unicode_uppercase(text)
    }
}

/// `c` with the ASCII lowercase letters turned into their capitals.
pub open spec fn ascii_upper(c: char) -> char {
    if 'a' <= c <= 'z' {
        (c as u32 - 32) as char
    } else {
        c
    }
}

/// `text` with the ASCII lowercase letters turned into their capitals.
pub open spec fn ascii_uppercase(text: Seq<char>) -> Seq<char> {
    text.map_values(|c: char| ascii_upper(c))
}

/// Equal up to the case of ASCII letters.
pub open spec fn same_ignoring_ascii_case(a: Seq<char>, b: Seq<char>) -> bool {
    ascii_uppercase(a) == ascii_uppercase(b)
}

/// The characters with the Unicode property `White_Space`.
pub open spec fn is_white_space(c: char) -> bool {
    ||| '\u{9}' <= c <= '\u{d}'
    ||| c == '\u{20}'
    ||| c == '\u{85}'
    ||| c == '\u{a0}'
    ||| c == '\u{1680}'
    ||| '\u{2000}' <= c <= '\u{200a}'
    ||| c == '\u{2028}'
    ||| c == '\u{2029}'
    ||| c == '\u{202f}'
    ||| c == '\u{205f}'
    ||| c == '\u{3000}'
}

/// `s` without the white space at its two ends.
pub open spec fn trimmed(s: Seq<char>) -> Seq<char>
    decreases s.len(),
{
    if s.len() == 0 {
        s
    } else if is_white_space(s.first()) {
        trimmed(s.drop_first())
    } else if is_white_space(s.last()) {
        trimmed(s.drop_last())
    } else {
        s
    }
}

/// Where the first line feed of `s` stands; the length of `s` if there is none.
pub open spec fn first_line_feed(s: Seq<char>) -> int
    decreases s.len(),
{
    if s.len() == 0 || s.first() == '\n' {
        0
    } else {
        1 + first_line_feed(s.drop_first())
    }
}

/// `s` without one carriage return at its end.
pub open spec fn without_carriage_return(s: Seq<char>) -> Seq<char> {
    if s.len() > 0 && s.last() == '\r' {
        s.drop_last()
    } else {
        s
    }
}

/// The lines of `s`: each ends at a line feed, which may have a carriage return
/// before it, or at the end of `s`. The line ends are not part of the lines, and no
/// empty line follows the last line end.
pub open spec fn lines_of(s: Seq<char>) -> Seq<Seq<char>>
    decreases s.len(),
{
    let k = first_line_feed(s);
    if s.len() == 0 {
        Seq::empty()
    } else if k < 0 || k >= s.len() {
        seq![s]
    } else {
        seq![without_carriage_return(s.take(k))] + lines_of(s.skip(k + 1))
    }
}

/// The lines of `s` with their line ends, which put together are `s`.
pub open spec fn raw_lines(s: Seq<char>) -> Seq<Seq<char>>
    decreases s.len(),
{
    let k = first_line_feed(s);
    if s.len() == 0 {
        Seq::empty()
    } else if k < 0 || k >= s.len() {
        seq![s]
    } else {
        seq![s.take(k + 1)] + raw_lines(s.skip(k + 1))
    }
}

/// `part` stands somewhere in `s`.
pub open spec fn contains_text(s: Seq<char>, part: Seq<char>) -> bool {
    exists|i: int| #[trigger] part_at(s, part, i)
}

/// `part` stands in `s` from position `i` on.
pub open spec fn part_at(s: Seq<char>, part: Seq<char>, i: int) -> bool {
    &&& 0 <= i
    &&& i + part.len() <= s.len()
    &&& s.subrange(i, i + part.len()) == part
}

/// A sentence or a line ends at `c`.
pub open spec fn is_sentence_end(c: char) -> bool {
    c == '.' || c == '!' || c == '?' || c == ';' || c == '\n'
}

/// No sentence of `s` ends from position `from` up to `to`.
pub open spec fn same_sentence(s: Seq<char>, from: int, to: int) -> bool {
    forall|k: int| from <= k < to ==> !is_sentence_end(#[trigger] s[k])
}

/// `part` stands in `s` in front of position `j`, and no sentence ends between them.
pub open spec fn said_before(s: Seq<char>, part: Seq<char>, j: int) -> bool {
    exists|i: int| #[trigger]
        part_at(s, part, i) && i + part.len() <= j && same_sentence(s, i + part.len(), j)
}

/// `second` stands somewhere in `s` behind `first`, and no sentence ends between them.
pub open spec fn said_in_turn(s: Seq<char>, first: Seq<char>, second: Seq<char>) -> bool {
    exists|j: int| #[trigger] part_at(s, second, j) && said_before(s, first, j)
}

/// `s` without `prefix` in front, if it is there; only one is taken off.
pub open spec fn without_prefix(s: Seq<char>, prefix: Seq<char>) -> Seq<char> {
    if prefix.is_prefix_of(s) {
        s.skip(prefix.len() as int)
    } else {
        s
    }
}

/// The texts one after the other, with `separator` between each two.
pub open spec fn joined(parts: Seq<Seq<char>>, separator: Seq<char>) -> Seq<char>
    decreases parts.len(),
{
    if parts.len() == 0 {
        Seq::empty()
    } else if parts.len() == 1 {
        parts[0]
    } else {
        joined(parts.drop_last(), separator) + separator + parts.last()
    }
}

/// The texts one after the other.
pub open spec fn concatenated(parts: Seq<Seq<char>>) -> Seq<char>
    decreases parts.len(),
{
    if parts.len() == 0 {
        Seq::empty()
    } else {
        concatenated(parts.drop_last()) + parts.last()
    }
}

/// The digit `d`, for `d` below ten.
pub open spec fn digit(d: nat) -> char {
    (48 + d) as char
}

/// `n` in decimal, without leading zeros.
pub open spec fn decimal(n: nat) -> Seq<char>
    decreases n,
{
    if n < 10 {
        seq![digit(n)]
    } else {
        decimal(n / 10).push(digit(n % 10))
    }
}

/// `n` in decimal, with a minus sign if it is negative.
pub open spec fn decimal_signed(n: int) -> Seq<char> {
    if n < 0 {
        seq!['-'] + decimal((-n) as nat)
    } else {
        decimal(n as nat)
    }
}

/// The texts that strings hold.
pub open spec fn texts(strings: Seq<String>) -> Seq<Seq<char>> {
    strings.map_values(|s: String| s@)
}

/// The text that an optional string holds.
pub open spec fn text_option(s: Option<String>) -> Option<Seq<char>> {
    match s {
        Some(s) => Some(s@),
        None => None,
    }
}

/// The characters of `s`.
pub(crate) fn chars_of(s: &str) -> (r: Vec<char>)
    ensures
        r@ == s@,
{
    let mut out: Vec<char> = Vec::new();
    for c in it: s.chars()
        invariant
            out@ == s@.take(it.index() as int),
            it.seq() == s@,
    {
        out.push(c);
    }
    out
}

/// The text of `chars` from `from` up to `to`.
pub(crate) fn string_of_range(chars: &Vec<char>, from: usize, to: usize) -> (r: String)
    requires
        from <= to <= chars@.len(),
    ensures
        r@ == chars@.subrange(from as int, to as int),
{
    let mut out = String::new();
    let mut i: usize = from;
    while i < to
        invariant
            from <= i <= to <= chars@.len(),
            out@ == chars@.subrange(from as int, i as int),
        decreases to - i,
    {
        out.push(chars[i]);
        i += 1;
    }
    out
}

/// Tells whether `c` is white space.
pub fn white_space(c: char) -> (r: bool)
    ensures
        r == is_white_space(c),
{
    ('\u{9}' <= c && c <= '\u{d}') || c == '\u{20}' || c == '\u{85}' || c == '\u{a0}' || c
        == '\u{1680}' || ('\u{2000}' <= c && c <= '\u{200a}') || c == '\u{2028}' || c
        == '\u{2029}' || c == '\u{202f}' || c == '\u{205f}' || c == '\u{3000}'
}

/// Takes the white space off the two ends of `s`.
pub fn trim(s: &str) -> (r: String)
    ensures
        r@ == trimmed(s@),
{
    let chars = chars_of(s);
    let mut from: usize = 0;
    let mut to: usize = chars.len();
    assert(chars@.subrange(0, to as int) =~= chars@);
    while from < to && white_space(chars[from])
        invariant
            from <= to == chars@.len(),
            trimmed(chars@) == trimmed(chars@.subrange(from as int, to as int)),
        ensures
            from <= to == chars@.len(),
            trimmed(chars@) == trimmed(chars@.subrange(from as int, to as int)),
            from < to ==> !is_white_space(chars@[from as int]),
        decreases to - from,
    {
        assert(chars@.subrange(from as int, to as int).drop_first() =~= chars@.subrange(
            from + 1,
            to as int,
        ));
        from += 1;
    }
    while from < to && white_space(chars[to - 1])
        invariant
            from <= to <= chars@.len(),
            from < to ==> !is_white_space(chars@[from as int]),
            trimmed(chars@) == trimmed(chars@.subrange(from as int, to as int)),
        ensures
            from <= to <= chars@.len(),
            trimmed(chars@) == chars@.subrange(from as int, to as int),
        decreases to - from,
    {
        assert(chars@.subrange(from as int, to as int).drop_last() =~= chars@.subrange(
            from as int,
            to - 1,
        ));
        to -= 1;
    }
    string_of_range(&chars, from, to)
}

proof fn lemma_first_line_feed(s: Seq<char>, k: int)
    requires
        0 <= k <= s.len(),
        forall|j: int| 0 <= j < k ==> s[j] != '\n',
        k < s.len() ==> s[k] == '\n',
    ensures
        first_line_feed(s) == k,
    decreases k,
{
    if k > 0 {
        assert forall|j: int| 0 <= j < k - 1 implies s.drop_first()[j] != '\n' by {
            assert(s.drop_first()[j] == s[j + 1]);
        }
        lemma_first_line_feed(s.drop_first(), k - 1);
    }
}

/// Splits `text` into its lines.
pub fn lines(text: &str) -> (r: Vec<String>)
    ensures
        texts(r@) == lines_of(text@),
{
    let chars = chars_of(text);
    let mut out: Vec<String> = Vec::new();
    let mut start: usize = 0;
    let mut i: usize = 0;
    assert(chars@.skip(0) =~= chars@);
    assert(texts(out@) + lines_of(chars@) =~= lines_of(chars@));
    while i < chars.len()
        invariant
            start <= i <= chars@.len(),
            forall|j: int| start <= j < i ==> chars@[j] != '\n',
            texts(out@) + lines_of(chars@.skip(start as int)) == lines_of(chars@),
        decreases chars@.len() - i,
    {
        if chars[i] == '\n' {
            let ghost rest = chars@.skip(start as int);
            let ghost k = i - start;
            proof {
                lemma_first_line_feed(rest, k);
                assert(rest.take(k) =~= chars@.subrange(start as int, i as int));
                assert(rest.skip(k + 1) =~= chars@.skip(i + 1));
            }
            let end: usize = if i > start && chars[i - 1] == '\r' {
                i - 1
            } else {
                i
            };
            let ghost before = out@;
            let line = string_of_range(&chars, start, end);
            assert(line@ =~= without_carriage_return(rest.take(k)));
            out.push(line);
            assert(texts(out@) =~= texts(before).push(line@));
            i += 1;
            start = i;
            assert(texts(out@) + lines_of(chars@.skip(start as int)) =~= texts(before) + (seq![
                without_carriage_return(rest.take(k)),
            ] + lines_of(rest.skip(k + 1))));
        } else {
            i += 1;
        }
    }
    let ghost rest = chars@.skip(start as int);
    proof {
        lemma_first_line_feed(rest, rest.len() as int);
    }
    if start < chars.len() {
        let ghost before = out@;
        let line = string_of_range(&chars, start, chars.len());
        assert(line@ =~= rest);
        out.push(line);
        assert(texts(out@) =~= texts(before) + seq![rest]);
    } else {
        assert(texts(out@) =~= texts(out@) + lines_of(rest));
    }
    out
}

/// Splits `text` into its lines, with their line ends.
pub(crate) fn split_raw_lines(text: &str) -> (r: Vec<String>)
    ensures
        texts(r@) == raw_lines(text@),
{
    let chars = chars_of(text);
    let mut out: Vec<String> = Vec::new();
    let mut start: usize = 0;
    let mut i: usize = 0;
    assert(chars@.skip(0) =~= chars@);
    assert(texts(out@) + raw_lines(chars@) =~= raw_lines(chars@));
    while i < chars.len()
        invariant
            start <= i <= chars@.len(),
            forall|j: int| start <= j < i ==> chars@[j] != '\n',
            texts(out@) + raw_lines(chars@.skip(start as int)) == raw_lines(chars@),
        decreases chars@.len() - i,
    {
        if chars[i] == '\n' {
            let ghost rest = chars@.skip(start as int);
            let ghost k = i - start;
            let ghost before = out@;
            let line = string_of_range(&chars, start, i + 1);
            proof {
                lemma_first_line_feed(rest, k);
                assert(rest.take(k + 1) =~= line@);
                assert(rest.skip(k + 1) =~= chars@.skip(i + 1));
            }
            out.push(line);
            assert(texts(out@) =~= texts(before).push(line@));
            i += 1;
            start = i;
            assert(texts(out@) + raw_lines(chars@.skip(start as int)) =~= texts(before) + (seq![
                line@,
            ] + raw_lines(rest.skip(k + 1))));
        } else {
            i += 1;
        }
    }
    let ghost rest = chars@.skip(start as int);
    proof {
        lemma_first_line_feed(rest, rest.len() as int);
    }
    if start < chars.len() {
        let ghost before = out@;
        let line = string_of_range(&chars, start, chars.len());
        assert(line@ =~= rest);
        out.push(line);
        assert(texts(out@) =~= texts(before) + seq![rest]);
    } else {
        assert(texts(out@) =~= texts(out@) + raw_lines(rest));
    }
    out
}

/// Tells whether `chars` hold `part` from position `i` on.
fn holds_at(chars: &Vec<char>, part: &Vec<char>, i: usize) -> (r: bool)
    requires
        i + part@.len() <= chars@.len(),
    ensures
        r == part_at(chars@, part@, i as int),
{
    let total: usize = chars.len();
    let mut j: usize = 0;
    while j < part.len()
        invariant
            j <= part@.len(),
            i + part@.len() <= chars@.len() == total,
            forall|k: int| 0 <= k < j ==> chars@[i + k] == part@[k],
        decreases part@.len() - j,
    {
        if chars[i + j] != part[j] {
            assert(chars@.subrange(i as int, i + part@.len())[j as int] != part@[j as int]);
            return false;
        }
        j += 1;
    }
    assert(chars@.subrange(i as int, i + part@.len()) =~= part@);
    true
}

/// Tells whether `part` stands somewhere in `s`.
pub fn contains(s: &str, part: &str) -> (r: bool)
    ensures
        r == contains_text(s@, part@),
{
    let chars = chars_of(s);
    let wanted = chars_of(part);
    if wanted.len() > chars.len() {
        assert(!contains_text(s@, part@));
        return false;
    }
    let last: usize = chars.len() - wanted.len();
    let mut i: usize = 0;
    while i < last
        invariant
            i <= last == chars@.len() - wanted@.len(),
            chars@ == s@,
            wanted@ == part@,
            forall|k: int| 0 <= k < i ==> !part_at(s@, part@, k),
        decreases last - i,
    {
        if holds_at(&chars, &wanted, i) {
            return true;
        }
        i += 1;
    }
    holds_at(&chars, &wanted, last)
}

/// `part` was said in front of a position if it reaches up to it, or was said in front of
/// the one before and no sentence ends there.
proof fn lemma_said_before(s: Seq<char>, part: Seq<char>, j: int)
    requires
        0 <= j <= s.len(),
    ensures
        said_before(s, part, j) <==> part_at(s, part, j - part.len()) || (j > 0 && said_before(
            s,
            part,
            j - 1,
        ) && !is_sentence_end(s[j - 1])),
{
    if said_before(s, part, j) {
        let i = choose|i: int| #[trigger]
            part_at(s, part, i) && i + part.len() <= j && same_sentence(s, i + part.len(), j);
        if i + part.len() < j {
            assert(same_sentence(s, i + part.len(), j - 1));
            assert(!is_sentence_end(s[j - 1]));
        }
    }
    if j > 0 && said_before(s, part, j - 1) && !is_sentence_end(s[j - 1]) {
        let i = choose|i: int| #[trigger]
            part_at(s, part, i) && i + part.len() <= j - 1 && same_sentence(
                s,
                i + part.len(),
                j - 1,
            );
        assert(same_sentence(s, i + part.len(), j));
    }
}

/// Tells whether a sentence or a line ends at `c`.
fn ends_sentence(c: char) -> (r: bool)
    ensures
        r == is_sentence_end(c),
{
    c == '.' || c == '!' || c == '?' || c == ';' || c == '\n'
}

/// Tells whether `second` stands somewhere in `s` behind `first`, in the same sentence.
pub fn in_turn(s: &str, first: &str, second: &str) -> (r: bool)
    ensures
        r == said_in_turn(s@, first@, second@),
{
    let chars = chars_of(s);
    let before = chars_of(first);
    let wanted = chars_of(second);
    if wanted.len() > chars.len() {
        assert(!said_in_turn(s@, first@, second@));
        return false;
    }
    let last: usize = chars.len() - wanted.len();
    let mut said: bool = before.len() == 0;
    let mut j: usize = 0;
    proof {
        lemma_said_before(s@, first@, 0);
        if first@.len() == 0 {
            assert(s@.subrange(0, 0) =~= first@);
        }
    }
    while j < last
        invariant
            chars@ == s@,
            before@ == first@,
            wanted@ == second@,
            j <= last == s@.len() - second@.len(),
            said == said_before(s@, first@, j as int),
            forall|k: int| 0 <= k < j ==> !(part_at(s@, second@, k) && said_before(s@, first@, k)),
        decreases last - j,
    {
        if said && holds_at(&chars, &wanted, j) {
            return true;
        }
        let ended = ends_sentence(chars[j]);
        j += 1;
        proof {
            lemma_said_before(s@, first@, j as int);
        }
        said = (said && !ended) || (before.len() <= j && holds_at(
            &chars,
            &before,
            j - before.len(),
        ));
    }
    said && holds_at(&chars, &wanted, last)
}

/// Tells whether `s` begins with `prefix`.
pub fn starts_with(s: &str, prefix: &str) -> (r: bool)
    ensures
        r == prefix@.is_prefix_of(s@),
{
    let chars = chars_of(s);
    let wanted = chars_of(prefix);
    wanted.len() <= chars.len() && holds_at(&chars, &wanted, 0)
}

/// Tells whether `s` ends with `suffix`.
pub fn ends_with(s: &str, suffix: &str) -> (r: bool)
    ensures
        r == suffix@.is_suffix_of(s@),
{
    let chars = chars_of(s);
    let wanted = chars_of(suffix);
    wanted.len() <= chars.len() && holds_at(&chars, &wanted, chars.len() - wanted.len())
}

/// Takes `prefix` off the front of `s`, if it is there.
pub fn strip_prefix(s: &str, prefix: &str) -> (r: String)
    ensures
        r@ == without_prefix(s@, prefix@),
{
    let chars = chars_of(s);
    let wanted = chars_of(prefix);
    if wanted.len() <= chars.len() && holds_at(&chars, &wanted, 0) {
        string_of_range(&chars, wanted.len(), chars.len())
    } else {
        s.to_string()
    }
}

/// Tells whether the two texts are the same.
pub fn same(a: &str, b: &str) -> (r: bool)
    ensures
        r == (a@ == b@),
{
    a.to_string() == b.to_string()
}

/// `c` with an ASCII lowercase letter turned into its capital.
fn upper_char(c: char) -> (r: char)
    ensures
        r == ascii_upper(c),
{
    if 'a' <= c && c <= 'z' {
        ((c as u8) - 32) as char
    } else {
        c
    }
}

/// `text` with the ASCII lowercase letters turned into their capitals.
pub fn to_ascii_upper(text: &str) -> (r: String)
    ensures
        r@ == ascii_uppercase(text@),
{
    let chars = chars_of(text);
    let mut out = String::new();
    let mut i: usize = 0;
    assert(ascii_uppercase(chars@.take(0)) =~= Seq::<char>::empty());
    while i < chars.len()
        invariant
            i <= chars@.len(),
            out@ == ascii_uppercase(chars@.take(i as int)),
        decreases chars@.len() - i,
    {
        out.push(upper_char(chars[i]));
        i += 1;
        assert(out@ =~= ascii_uppercase(chars@.take(i as int)));
    }
    assert(chars@.take(i as int) =~= text@);
    out
}

/// Tells whether the two texts are the same up to the case of ASCII letters.
pub fn same_ignoring_case(a: &str, b: &str) -> (r: bool)
    ensures
        r == same_ignoring_ascii_case(a@, b@),
{
    let x = chars_of(a);
    let y = chars_of(b);
    if x.len() != y.len() {
        assert(ascii_uppercase(a@).len() != ascii_uppercase(b@).len());
        return false;
    }
    let mut i: usize = 0;
    while i < x.len()
        invariant
            i <= x@.len() == y@.len(),
            x@ == a@,
            y@ == b@,
            forall|k: int| 0 <= k < i ==> ascii_upper(x@[k]) == ascii_upper(y@[k]),
        decreases x@.len() - i,
    {
        if upper_char(x[i]) != upper_char(y[i]) {
            assert(ascii_uppercase(a@)[i as int] != ascii_uppercase(b@)[i as int]);
            return false;
        }
        i += 1;
    }
    assert(ascii_uppercase(a@) =~= ascii_uppercase(b@));
    true
}

/// Joins the texts, with `separator` between each two.
pub fn join(parts: &Vec<String>, separator: &str) -> (r: String)
    ensures
        r@ == joined(texts(parts@), separator@),
{
    let mut out = String::new();
    let mut i: usize = 0;
    let ghost all = texts(parts@);
    while i < parts.len()
        invariant
            i <= parts@.len(),
            all == texts(parts@),
            out@ == joined(all.take(i as int), separator@),
        decreases parts@.len() - i,
    {
        proof {
            assert(all.take(i + 1).drop_last() =~= all.take(i as int));
        }
        if i > 0 {
            out.append(separator);
        }
        out.append(parts[i].as_str());
        i += 1;
    }
    assert(all.take(i as int) =~= all);
    out
}

/// `n` in decimal.
pub fn format_unsigned(n: u64) -> (r: String)
    ensures
        r@ == decimal(n as nat),
    decreases n,
{
    let last: u8 = (n % 10) as u8;
    let digit_char: char = (48 + last) as char;
    let mut out = if n < 10 {
        String::new()
    } else {
        format_unsigned(n / 10)
    };
    out.push(digit_char);
    proof {
        if n < 10 {
            assert(seq![digit(n as nat)] =~= Seq::<char>::empty().push(digit(n as nat)));
        }
    }
    out
}

/// `n` in decimal.
pub fn format_signed(n: i32) -> (r: String)
    ensures
        r@ == decimal_signed(n as int),
{
    if n < 0 {
        let mut out = String::new();
        out.push('-');
        let size: u64 = (-(n as i64)) as u64;
        out.append(format_unsigned(size).as_str());
        assert(out@ =~= seq!['-'] + decimal((-n) as nat));
        out
    } else {
        format_unsigned(n as u64)
    }
}

proof fn lemma_first_line_feed_is_first(s: Seq<char>)
    ensures
        0 <= first_line_feed(s) <= s.len(),
        forall|j: int| 0 <= j < first_line_feed(s) ==> s[j] != '\n',
        first_line_feed(s) < s.len() ==> s[first_line_feed(s)] == '\n',
    decreases s.len(),
{
    if s.len() > 0 && s.first() != '\n' {
        let rest = s.drop_first();
        lemma_first_line_feed_is_first(rest);
        assert forall|j: int| 0 <= j < first_line_feed(s) implies s[j] != '\n' by {
            if j > 0 {
                assert(rest[j - 1] == s[j]);
            }
        }
    }
}

/// The lines of a text that is put together behind a line end are the lines of its two
/// parts.
pub proof fn lemma_lines_append(first: Seq<char>, second: Seq<char>)
    requires
        first.len() == 0 || first.last() == '\n',
    ensures
        lines_of(first + second) == lines_of(first) + lines_of(second),
    decreases first.len(),
{
    if first.len() == 0 {
        assert(first + second =~= second);
        assert(lines_of(first) + lines_of(second) =~= lines_of(second));
    } else {
        let whole = first + second;
        let k = first_line_feed(first);
        lemma_first_line_feed_is_first(first);
        assert(k < first.len());
        assert forall|j: int| 0 <= j < k implies whole[j] != '\n' by {
            assert(whole[j] == first[j]);
        }
        lemma_first_line_feed(whole, k);
        let rest = first.skip(k + 1);
        if rest.len() > 0 {
            assert(rest.last() == first.last());
        }
        lemma_lines_append(rest, second);
        assert(whole.take(k) =~= first.take(k));
        assert(whole.skip(k + 1) =~= rest + second);
        assert(lines_of(whole) =~= lines_of(first) + lines_of(second));
    }
}

/// The raw lines of a text that is put together behind a line end are the raw lines of its
/// two parts.
pub proof fn lemma_raw_lines_append(first: Seq<char>, second: Seq<char>)
    requires
        first.len() == 0 || first.last() == '\n',
    ensures
        raw_lines(first + second) == raw_lines(first) + raw_lines(second),
    decreases first.len(),
{
    if first.len() == 0 {
        assert(first + second =~= second);
        assert(raw_lines(first) + raw_lines(second) =~= raw_lines(second));
    } else {
        let whole = first + second;
        let k = first_line_feed(first);
        lemma_first_line_feed_is_first(first);
        assert(k < first.len());
        assert forall|j: int| 0 <= j < k implies whole[j] != '\n' by {
            assert(whole[j] == first[j]);
        }
        lemma_first_line_feed(whole, k);
        let rest = first.skip(k + 1);
        if rest.len() > 0 {
            assert(rest.last() == first.last());
        }
        lemma_raw_lines_append(rest, second);
        assert(whole.take(k + 1) =~= first.take(k + 1));
        assert(whole.skip(k + 1) =~= rest + second);
        assert(raw_lines(whole) =~= raw_lines(first) + raw_lines(second));
    }
}

/// A text without line feeds, with one behind it, is one raw line.
pub proof fn lemma_one_raw_line(line: Seq<char>)
    requires
        !line.contains('\n'),
    ensures
        raw_lines(line.push('\n')) == seq![line.push('\n')],
{
    let whole = line.push('\n');
    let k = line.len() as int;
    assert forall|j: int| 0 <= j < k implies whole[j] != '\n' by {
        assert(line.contains(line[j]));
    }
    lemma_first_line_feed(whole, k);
    assert(whole.take(k + 1) =~= whole);
    assert(whole.skip(k + 1) =~= Seq::<char>::empty());
    assert(raw_lines(Seq::empty()) =~= Seq::<Seq<char>>::empty());
    assert(raw_lines(whole) =~= seq![whole]);
}

/// Texts that are put together in two stretches follow one another.
pub proof fn lemma_concatenated_append(first: Seq<Seq<char>>, second: Seq<Seq<char>>)
    ensures
        concatenated(first + second) == concatenated(first) + concatenated(second),
    decreases second.len(),
{
    if second.len() == 0 {
        assert(first + second =~= first);
        assert(concatenated(first) + concatenated(second) =~= concatenated(first));
    } else {
        lemma_concatenated_append(first, second.drop_last());
        assert((first + second).drop_last() =~= first + second.drop_last());
        assert(concatenated(first + second) =~= concatenated(first) + concatenated(second));
    }
}

/// One text alone is itself.
pub proof fn lemma_concatenated_one(part: Seq<char>)
    ensures
        concatenated(seq![part]) == part,
{
    assert(seq![part].drop_last() =~= Seq::<Seq<char>>::empty());
    assert(concatenated(Seq::empty()) =~= Seq::<char>::empty());
    assert(concatenated(seq![part]) =~= part);
}

/// The raw lines of a text, put together, are the text.
pub proof fn lemma_raw_lines_whole(s: Seq<char>)
    ensures
        concatenated(raw_lines(s)) == s,
    decreases s.len(),
{
    let k = first_line_feed(s);
    lemma_first_line_feed_is_first(s);
    if s.len() == 0 {
        assert(concatenated(raw_lines(s)) =~= s);
    } else if k >= s.len() {
        lemma_concatenated_one(s);
    } else {
        lemma_raw_lines_whole(s.skip(k + 1));
        lemma_concatenated_append(seq![s.take(k + 1)], raw_lines(s.skip(k + 1)));
        lemma_concatenated_one(s.take(k + 1));
        assert(s.take(k + 1) + s.skip(k + 1) =~= s);
    }
}

/// A text without line feeds, with one behind it, is one line.
pub proof fn lemma_one_line(line: Seq<char>)
    requires
        !line.contains('\n'),
    ensures
        lines_of(line.push('\n')) == seq![without_carriage_return(line)],
{
    let whole = line.push('\n');
    let k = line.len() as int;
    assert forall|j: int| 0 <= j < k implies whole[j] != '\n' by {
        assert(line.contains(line[j]));
    }
    lemma_first_line_feed(whole, k);
    assert(whole.take(k) =~= line);
    assert(whole.skip(k + 1) =~= Seq::<char>::empty());
    assert(lines_of(Seq::empty()) =~= Seq::<Seq<char>>::empty());
    assert(lines_of(whole) =~= seq![without_carriage_return(line)]);
}

/// White space at the end of a text is trimmed off.
pub proof fn lemma_trimmed_push(s: Seq<char>, c: char)
    requires
        is_white_space(c),
    ensures
        trimmed(s.push(c)) == trimmed(s),
    decreases s.len(),
{
    let longer = s.push(c);
    if s.len() == 0 {
        assert(longer.drop_first() =~= s);
    } else if is_white_space(s.first()) {
        assert(longer.drop_first() =~= s.drop_first().push(c));
        lemma_trimmed_push(s.drop_first(), c);
    } else {
        assert(longer.drop_last() =~= s);
    }
}

/// Trimming a text twice is trimming it once, and what is trimmed has no white space at
/// its ends.
pub proof fn lemma_trimmed_ends(s: Seq<char>)
    ensures
        trimmed(trimmed(s)) == trimmed(s),
        trimmed(s).len() > 0 ==> !is_white_space(trimmed(s).first()) && !is_white_space(
            trimmed(s).last(),
        ),
    decreases s.len(),
{
    if s.len() > 0 {
        if is_white_space(s.first()) {
            lemma_trimmed_ends(s.drop_first());
        } else if is_white_space(s.last()) {
            lemma_trimmed_ends(s.drop_last());
        }
    }
}

/// A prefix that was put in front comes off again.
pub proof fn lemma_without_prefix(prefix: Seq<char>, s: Seq<char>)
    ensures
        without_prefix(prefix + s, prefix) == s,
{
    assert((prefix + s).subrange(0, prefix.len() as int) =~= prefix);
    assert((prefix + s).skip(prefix.len() as int) =~= s);
}

} // verus!
