//! Laws on text.

use vstd::prelude::*;

use crate::text::{
    ascii_uppercase, contains_text, decimal, decimal_signed, digit, first_line_feed,
    is_sentence_end, is_white_space, joined, lemma_lines_append, lemma_one_line,
    lemma_without_prefix, lines_of, part_at, said_before, said_in_turn, same_ignoring_ascii_case,
    same_sentence, trimmed, without_prefix,
};

verus! {

/// Where trimming begins and ends.
proof fn lemma_trimmed_bounds(s: Seq<char>) -> (r: (int, int))
    ensures
        0 <= r.0 <= r.1 <= s.len(),
        trimmed(s) == s.subrange(r.0, r.1),
        forall|k: int| 0 <= k < r.0 || r.1 <= k < s.len() ==> is_white_space(#[trigger] s[k]),
        r.0 < r.1 ==> !is_white_space(s[r.0]) && !is_white_space(s[r.1 - 1]),
    decreases s.len(),
{
    if s.len() == 0 {
        assert(s.subrange(0, 0) =~= s);
        (0, 0)
    } else if is_white_space(s.first()) {
        let rest = s.drop_first();
        let (i, j) = lemma_trimmed_bounds(rest);
        assert(rest.subrange(i, j) =~= s.subrange(i + 1, j + 1));
        assert forall|k: int| 0 <= k < i + 1 || j + 1 <= k < s.len() implies is_white_space(
            #[trigger] s[k],
        ) by {
            if k > 0 {
                assert(rest[k - 1] == s[k]);
            }
        }
        (i + 1, j + 1)
    } else if is_white_space(s.last()) {
        let rest = s.drop_last();
        let (i, j) = lemma_trimmed_bounds(rest);
        assert(rest.subrange(i, j) =~= s.subrange(i, j));
        assert forall|k: int| 0 <= k < i || j <= k < s.len() implies is_white_space(
            #[trigger] s[k],
        ) by {
            if k < s.len() - 1 {
                assert(rest[k] == s[k]);
            }
        }
        (i, j)
    } else {
        assert(s.subrange(0, s.len() as int) =~= s);
        (0, s.len() as int)
    }
}

/// White space that is put around a text comes off again, and nothing else does.
pub proof fn law_trimming_takes_off_what_surrounds(
    front: Seq<char>,
    text: Seq<char>,
    back: Seq<char>,
)
    requires
        forall|k: int| 0 <= k < front.len() ==> is_white_space(#[trigger] front[k]),
        forall|k: int| 0 <= k < back.len() ==> is_white_space(#[trigger] back[k]),
        text.len() > 0 ==> !is_white_space(text.first()) && !is_white_space(text.last()),
    ensures
        trimmed(front + text + back) == text,
{
    let s = front + text + back;
    let (i, j) = lemma_trimmed_bounds(s);
    if text.len() == 0 {
        assert forall|k: int| 0 <= k < s.len() implies is_white_space(#[trigger] s[k]) by {
            if k < front.len() {
                assert(s[k] == front[k]);
            } else {
                assert(s[k] == back[k - front.len()]);
            }
        }
        assert(trimmed(s) =~= text);
    } else {
        let a = front.len() as int;
        let b = (front.len() + text.len()) as int;
        assert(s[a] == text.first());
        assert(s[b - 1] == text.last());
        assert(i <= a && b <= j);
        if i < a {
            assert(s[i] == front[i]);
        }
        if j > b {
            assert(s[j - 1] == back[j - 1 - b]);
        }
        assert(trimmed(s) =~= text);
    }
}

/// Blanks, tabs and line ends are white space; what can be seen on a page is not.
pub proof fn law_white_space(c: char)
    ensures
        c == ' ' || c == '\t' || c == '\n' || c == '\r' ==> is_white_space(c),
        '!' <= c <= '~' ==> !is_white_space(c),
{
}

/// A text is read line by line: a line with its end is one line, without its line feed and
/// one carriage return before that, and the lines of what follows come behind it.
pub proof fn law_lines_come_one_by_one(line: Seq<char>, rest: Seq<char>)
    requires
        !line.contains('\n'),
    ensures
        line.len() > 0 ==> lines_of(line) == seq![line],
        lines_of(Seq::empty()) == Seq::<Seq<char>>::empty(),
        line.len() == 0 || line.last() != '\r' ==> lines_of(line + seq!['\n'] + rest) == seq![line]
            + lines_of(rest),
        lines_of(line + seq!['\r', '\n'] + rest) == seq![line] + lines_of(rest),
{
    assert(lines_of(Seq::empty()) =~= Seq::<Seq<char>>::empty());
    lemma_one_line(line);
    lemma_lines_append(line.push('\n'), rest);
    assert(line + seq!['\n'] + rest =~= line.push('\n') + rest);
    let returned = line.push('\r');
    assert(!returned.contains('\n')) by {
        assert forall|k: int| 0 <= k < returned.len() implies returned[k] != '\n' by {
            if k < line.len() {
                assert(line.contains(line[k]));
            }
        }
    }
    lemma_one_line(returned);
    assert(returned.drop_last() =~= line);
    lemma_lines_append(returned.push('\n'), rest);
    assert(line + seq!['\r', '\n'] + rest =~= returned.push('\n') + rest);
    assert(line.skip(0) =~= line);
    lemma_unended_line(line, line);
}

pub(crate) proof fn lemma_unended_line(line: Seq<char>, tail: Seq<char>)
    requires
        !line.contains('\n'),
        tail.len() <= line.len(),
        tail == line.skip(line.len() - tail.len()),
    ensures
        first_line_feed(tail) == tail.len(),
        tail.len() > 0 ==> lines_of(tail) == seq![tail],
    decreases tail.len(),
{
    if tail.len() > 0 {
        assert(line.contains(line[line.len() - tail.len()]));
        assert(tail.first() == line[line.len() - tail.len()]);
        assert(tail.drop_first() =~= line.skip(line.len() - tail.len() + 1));
        lemma_unended_line(line, tail.drop_first());
    }
}

/// A part is found in a text exactly when the text is something, the part, and something.
pub proof fn law_parts_are_found(front: Seq<char>, part: Seq<char>, back: Seq<char>, s: Seq<char>)
    ensures
        contains_text(front + part + back, part),
        contains_text(s, part) ==> exists|a: Seq<char>, b: Seq<char>| s == #[trigger] (a + part + b),
{
    let whole = front + part + back;
    assert(whole.subrange(front.len() as int, (front.len() + part.len()) as int) =~= part);
    assert(part_at(whole, part, front.len() as int));
    if contains_text(s, part) {
        let i = choose|i: int| #[trigger] part_at(s, part, i);
        let a = s.take(i);
        let b = s.skip(i + part.len());
        assert(s =~= a + part + b);
    }
}

/// A second word behind a first is found, whatever stands around them, if no sentence ends
/// between them.
pub proof fn law_words_in_turn_are_found(
    front: Seq<char>,
    first: Seq<char>,
    middle: Seq<char>,
    second: Seq<char>,
    back: Seq<char>,
)
    requires
        forall|k: int| 0 <= k < middle.len() ==> !is_sentence_end(#[trigger] middle[k]),
    ensures
        said_in_turn(front + first + middle + second + back, first, second),
{
    let whole = front + first + middle + second + back;
    let i = front.len() as int;
    let j = i + first.len() + middle.len();
    assert(whole.subrange(i, i + first.len()) =~= first);
    assert(whole.subrange(j, j + second.len()) =~= second);
    assert(part_at(whole, first, i));
    assert(part_at(whole, second, j));
    assert forall|k: int| i + first.len() <= k < j implies !is_sentence_end(#[trigger] whole[k]) by {
        assert(whole[k] == middle[k - i - first.len()]);
    }
    assert(same_sentence(whole, i + first.len(), j));
    assert(said_before(whole, first, j));
}

/// A text in which a second word is found behind a first is something, the first, something
/// in which no sentence ends, the second, and something.
pub proof fn law_words_found_are_in_turn(s: Seq<char>, first: Seq<char>, second: Seq<char>) -> (r: (
    Seq<char>,
    Seq<char>,
    Seq<char>,
))
    requires
        said_in_turn(s, first, second),
    ensures
        s == r.0 + first + r.1 + second + r.2,
        forall|k: int| 0 <= k < r.1.len() ==> !is_sentence_end(#[trigger] r.1[k]),
{
    let j = choose|j: int| #[trigger] part_at(s, second, j) && said_before(s, first, j);
    let i = choose|i: int| #[trigger]
        part_at(s, first, i) && i + first.len() <= j && same_sentence(s, i + first.len(), j);
    let a = s.take(i);
    let m = s.subrange(i + first.len(), j);
    let b = s.skip(j + second.len());
    assert(s =~= a + first + m + second + b);
    assert forall|k: int| 0 <= k < m.len() implies !is_sentence_end(#[trigger] m[k]) by {
        assert(m[k] == s[i + first.len() + k]);
    }
    (a, m, b)
}

/// Sentences end at full stops, exclamation and question marks, semicolons and line feeds.
pub proof fn law_sentence_ends(c: char)
    ensures
        is_sentence_end(c) <==> (c == '.' || c == '!' || c == '?' || c == ';' || c == '\n'),
{
}

/// A prefix comes off once where it is there, and nothing happens where it is not.
pub proof fn law_prefix_comes_off(prefix: Seq<char>, rest: Seq<char>, s: Seq<char>)
    ensures
        without_prefix(prefix + rest, prefix) == rest,
        !(exists|t: Seq<char>| s == #[trigger] (prefix + t)) ==> without_prefix(s, prefix) == s,
{
    lemma_without_prefix(prefix, rest);
    if prefix.is_prefix_of(s) {
        assert(s =~= prefix + s.skip(prefix.len() as int));
    }
}

pub(crate) proof fn lemma_joined_append(a: Seq<Seq<char>>, b: Seq<Seq<char>>, separator: Seq<char>)
    requires
        a.len() > 0,
        b.len() > 0,
    ensures
        joined(a + b, separator) == joined(a, separator) + separator + joined(b, separator),
    decreases b.len(),
{
    let whole = a + b;
    assert(whole.drop_last() =~= a + b.drop_last());
    assert(whole.last() == b.last());
    if b.len() == 1 {
        assert(whole.drop_last() =~= a);
    } else {
        lemma_joined_append(a, b.drop_last(), separator);
        assert(joined(whole, separator) =~= joined(a, separator) + separator + joined(b, separator));
    }
}

/// Joining keeps the order: the join of two stretches is the join of the first, the
/// separator, and the join of the second. A text alone is joined to itself.
pub proof fn law_joining(
    a: Seq<Seq<char>>,
    b: Seq<Seq<char>>,
    separator: Seq<char>,
    part: Seq<char>,
)
    requires
        a.len() > 0,
        b.len() > 0,
    ensures
        joined(a + b, separator) == joined(a, separator) + separator + joined(b, separator),
        joined(seq![part], separator) == part,
        joined(Seq::empty(), separator) == Seq::<char>::empty(),
{
    lemma_joined_append(a, b, separator);
}

/// The number that a text of digits stands for.
pub open spec fn read_number(s: Seq<char>) -> int
    decreases s.len(),
{
    if s.len() == 0 {
        0
    } else {
        10 * read_number(s.drop_last()) + (s.last() as int - '0' as int)
    }
}

/// What is written in decimal reads back as the number; it is made of digits, and begins
/// with a zero only if it is zero.
pub proof fn law_decimal_reads_back(n: nat)
    ensures
        read_number(decimal(n)) == n,
        decimal(n).len() > 0,
        forall|i: int| 0 <= i < decimal(n).len() ==> '0' <= #[trigger] decimal(n)[i] <= '9',
        n > 0 ==> decimal(n)[0] != '0',
    decreases n,
{
    if n >= 10 {
        law_decimal_reads_back(n / 10);
        let init = decimal(n / 10);
        assert(decimal(n).drop_last() =~= init);
        assert(decimal(n).last() == digit(n % 10));
        assert(decimal(n)[0] == init[0]);
        assert forall|i: int| 0 <= i < decimal(n).len() implies '0' <= #[trigger] decimal(n)[i]
            <= '9' by {
            if i < init.len() {
                assert(decimal(n)[i] == init[i]);
            }
        }
    } else {
        assert(decimal(n).drop_last() =~= Seq::<char>::empty());
        assert(decimal(n).last() == digit(n));
        assert(read_number(Seq::empty()) == 0);
    }
}

/// A negative number is written with a minus sign in front of what is written for its
/// size; any other is written as it is.
pub proof fn law_signed_decimal(n: int)
    ensures
        n >= 0 ==> decimal_signed(n) == decimal(n as nat),
        n < 0 ==> decimal_signed(n) == seq!['-'] + decimal((-n) as nat),
{
}

/// Turning into capitals changes the letters from a to z, one by one, and nothing else.
pub proof fn law_ascii_capitals(s: Seq<char>, i: int)
    requires
        0 <= i < s.len(),
    ensures
        ascii_uppercase(s).len() == s.len(),
        'a' <= s[i] <= 'z' ==> ascii_uppercase(s)[i] as int == s[i] as int - 'a' as int + 'A' as int,
        !('a' <= s[i] <= 'z') ==> ascii_uppercase(s)[i] == s[i],
{
}

/// Texts are the same up to case exactly when they have the same length and at each place
/// the same letter, small or capital.
pub proof fn law_same_up_to_case(a: Seq<char>, b: Seq<char>)
    ensures
        same_ignoring_ascii_case(a, b) <==> a.len() == b.len() && forall|i: int|
            0 <= i < a.len() ==> #[trigger] ascii_uppercase(a)[i] == ascii_uppercase(b)[i],
{
    if a.len() == b.len() && forall|i: int|
        0 <= i < a.len() ==> #[trigger] ascii_uppercase(a)[i] == ascii_uppercase(b)[i] {
        assert(ascii_uppercase(a) =~= ascii_uppercase(b));
    }
    assert(ascii_uppercase(a).len() == a.len());
    assert(ascii_uppercase(b).len() == b.len());
}

} // verus!
