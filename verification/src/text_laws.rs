//! What holds of every text: what trimming, cutting, joining and reading numbers
//! leave of it.

use crate::text::{
    ascii_lowered, before_any, begins, decimal, digit, digits_value, finishes, joined, lemma_position,
    lines_of, lowered, occurs, occurs_at, position, same_but_case, trim_end, trim_start, trimmed,
    trimmed_end_of, white_space, without_char, without_return, written_number,
};
use vstd::prelude::*;

verus! {

proof fn lemma_trim_start(s: Seq<char>) -> (i: int)
    ensures
        0 <= i <= s.len(),
        trim_start(s) == s.skip(i),
        forall|k: int| 0 <= k < i ==> white_space(#[trigger] s[k]),
        i < s.len() ==> !white_space(s[i]),
    decreases s.len(),
{
    if s.len() > 0 && white_space(s[0]) {
        let j = lemma_trim_start(s.skip(1));
        assert(s.skip(1).skip(j) =~= s.skip(j + 1));
        assert forall|k: int| 0 <= k < j + 1 implies white_space(#[trigger] s[k]) by {
            if k > 0 {
                assert(s.skip(1)[k - 1] == s[k]);
            }
        }
        j + 1
    } else {
        assert(s.skip(0) =~= s);
        0
    }
}

proof fn lemma_trim_end(s: Seq<char>) -> (j: int)
    ensures
        0 <= j <= s.len(),
        trim_end(s) == s.take(j),
        forall|k: int| j <= k < s.len() ==> white_space(#[trigger] s[k]),
        j > 0 ==> !white_space(s[j - 1]),
    decreases s.len(),
{
    if s.len() > 0 && white_space(s.last()) {
        let j = lemma_trim_end(s.drop_last());
        assert(s.drop_last().take(j) =~= s.take(j));
        assert forall|k: int| j <= k < s.len() implies white_space(#[trigger] s[k]) by {
            if k < s.len() - 1 {
                assert(s.drop_last()[k] == s[k]);
            }
        }
        j
    } else {
        assert(s.take(s.len() as int) =~= s);
        s.len() as int
    }
}

/// Trimming takes the white space at both ends of a text and nothing else.
pub proof fn law_trimming_takes_outer_space(s: Seq<char>)
    ensures
        exists|i: int, j: int|
            0 <= i <= j <= s.len() && trimmed(s) == #[trigger] s.subrange(i, j) && (forall|k: int|
                0 <= k < i || j <= k < s.len() ==> white_space(#[trigger] s[k])),
        trimmed(s).len() > 0 ==> !white_space(trimmed(s)[0]) && !white_space(trimmed(s).last()),
{
    let i = lemma_trim_start(s);
    let rest = trim_start(s);
    let n = lemma_trim_end(rest);
    let j = i + n;
    assert(rest.take(n) =~= s.subrange(i, j));
    assert forall|k: int| 0 <= k < i || j <= k < s.len() implies white_space(#[trigger] s[k]) by {
        if k >= j {
            assert(rest[k - i] == s[k]);
        }
    }
    assert(trimmed(s) == s.subrange(i, j));
    if trimmed(s).len() > 0 {
        assert(trimmed(s)[0] == s[i]);
        assert(trimmed(s).last() == rest[n - 1]);
    }
}

/// A text that neither begins nor ends with white space is trimmed already.
pub proof fn law_trimmed_text_stays(s: Seq<char>)
    requires
        s.len() > 0 ==> !white_space(s[0]) && !white_space(s.last()),
    ensures
        trimmed(s) == s,
{
}

/// A space, a tab and the ends of a line are white space; no letter and no digit
/// is.
pub proof fn law_letters_are_no_space(c: char)
    ensures
        white_space(' ') && white_space('\t') && white_space('\n') && white_space('\r'),
        'a' <= c <= 'z' || 'A' <= c <= 'Z' || '0' <= c <= '9' ==> !white_space(c),
        '!' <= c <= '~' ==> !white_space(c),
{
}

/// Taking a character off the end takes all of them that stand there, and no other
/// character.
pub proof fn law_end_loses_one_character(s: Seq<char>, c: char)
    ensures
        trimmed_end_of(s.push(c), c) == trimmed_end_of(s, c),
        trimmed_end_of(s, c).len() > 0 ==> trimmed_end_of(s, c).last() != c,
        begins(s, trimmed_end_of(s, c)),
        s.len() > 0 && s.last() != c ==> trimmed_end_of(s, c) == s,
    decreases s.len(),
{
    assert(s.push(c).drop_last() =~= s);
    if s.len() > 0 && s.last() == c {
        law_end_loses_one_character(s.drop_last(), c);
        let r = trimmed_end_of(s, c);
        assert(s.subrange(0, r.len() as int) =~= s.drop_last().subrange(0, r.len() as int));
    } else {
        assert(s.subrange(0, s.len() as int) =~= s);
    }
}

/// Small letters stand where capital ones stood, and nothing else changes.
pub proof fn law_letters_become_small(s: Seq<char>, i: int)
    requires
        0 <= i < s.len(),
    ensures
        ascii_lowered(s).len() == s.len(),
        'A' <= s[i] <= 'Z' ==> ascii_lowered(s)[i] as int - 'a' as int == s[i] as int - 'A' as int,
        !('A' <= s[i] <= 'Z') ==> ascii_lowered(s)[i] == s[i],
{
}

/// A text in ASCII becomes small letter by letter.
pub proof fn law_ascii_becomes_small(s: Seq<char>)
    requires
        forall|i: int| 0 <= i < s.len() ==> (#[trigger] s[i]) as u32 <= 127,
    ensures
        lowered(s) == ascii_lowered(s),
{
}

/// Two texts are the same but for case exactly where they have the same length and
/// differ at most by the case of letters.
pub proof fn law_case_is_all_that_differs(a: Seq<char>, b: Seq<char>, i: int)
    requires
        same_but_case(a, b),
        0 <= i < a.len(),
    ensures
        a.len() == b.len(),
        a[i] == b[i] || a[i] as int == b[i] as int + 32 || b[i] as int == a[i] as int + 32,
        !('a' <= a[i] <= 'z') && !('A' <= a[i] <= 'Z') ==> a[i] == b[i],
{
    assert(ascii_lowered(a).len() == ascii_lowered(b).len());
    assert(ascii_lowered(a)[i] == ascii_lowered(b)[i]);
}

/// A text begins with, ends with and holds what it was put together from.
pub proof fn law_parts_are_found(a: Seq<char>, b: Seq<char>, c: Seq<char>)
    ensures
        begins(a + b, a),
        finishes(a + b, b),
        occurs(a + b + c, b),
        position(a + b + c, b) is Some && position(a + b + c, b)->0 <= a.len(),
{
    assert((a + b).subrange(0, a.len() as int) =~= a);
    assert((a + b).subrange(a.len() as int, (a + b).len() as int) =~= b);
    let s = a + b + c;
    assert(s.subrange(a.len() as int, (a.len() + b.len()) as int) =~= b);
    assert(occurs_at(s, b, a.len() as int));
    lemma_position(s, b);
    let p = position(s, b)->0;
    if a.len() < p {
        assert(!occurs_at(s, b, a.len() as int));
    }
}

/// A text that begins with another is that text and a rest; one that ends with
/// another is a front and that text.
pub proof fn law_found_parts_stand_there(s: Seq<char>, p: Seq<char>)
    ensures
        begins(s, p) ==> s == p + s.skip(p.len() as int),
        finishes(s, p) ==> s == s.take(s.len() - p.len()) + p,
{
    if begins(s, p) {
        assert(s =~= p + s.skip(p.len() as int)) by {
            assert(s.subrange(0, p.len() as int) == p);
            assert forall|i: int| 0 <= i < p.len() implies s[i] == p[i] by {
                assert(s.subrange(0, p.len() as int)[i] == p[i]);
            }
        }
    }
    if finishes(s, p) {
        let at = s.len() - p.len();
        assert(s =~= s.take(at) + p) by {
            assert forall|i: int| 0 <= i < p.len() implies s[at + i] == p[i] by {
                assert(s.subrange(at, at + p.len())[i] == p[i]);
            }
        }
    }
}

proof fn lemma_first_feed(line: Seq<char>, rest: Seq<char>)
    requires
        !line.contains('\n'),
    ensures
        position(line + seq!['\n'] + rest, seq!['\n']) == Some(line.len() as int),
{
    let feed = seq!['\n'];
    let s = line + feed + rest;
    assert(s.subrange(line.len() as int, (line.len() + 1) as int) =~= feed);
    assert(occurs_at(s, feed, line.len() as int));
    lemma_position(s, feed);
    let p = position(s, feed)->0;
    if p < line.len() {
        assert(s.subrange(p, p + 1)[0] == s[p]);
        assert(line[p] == '\n');
        assert(false);
    }
    if p > line.len() {
        assert(!occurs_at(s, feed, line.len() as int));
    }
}

/// The lines of a text are what stands between its line feeds, without a carriage
/// return before the feed: none is lost, and none is made up.
pub proof fn law_lines_stand_between_feeds(line: Seq<char>, rest: Seq<char>)
    requires
        !line.contains('\n'),
    ensures
        lines_of(line + seq!['\n'] + rest) == seq![without_return(line)] + lines_of(rest),
        line.len() > 0 ==> lines_of(line) == seq![line],
        line.len() == 0 ==> lines_of(line) == Seq::<Seq<char>>::empty(),
        without_return(line.push('\r')) == line,
        line.len() > 0 && line.last() != '\r' ==> without_return(line) == line,
{
    let feed = seq!['\n'];
    let s = line + feed + rest;
    lemma_first_feed(line, rest);
    assert(s.take(line.len() as int) =~= line);
    assert(s.skip((line.len() + 1) as int) =~= rest);
    assert(line.push('\r').drop_last() =~= line);
    lemma_position(line, feed);
    if position(line, feed) is Some {
        let p = position(line, feed)->0;
        assert(line.subrange(p, p + 1)[0] == line[p]);
        assert(line.contains('\n'));
    }
}

/// Joining two lists of texts joins what each of them gives.
pub proof fn law_joining_goes_list_by_list(
    a: Seq<Seq<char>>,
    b: Seq<Seq<char>>,
    sep: Seq<char>,
)
    requires
        a.len() > 0,
        b.len() > 0,
    ensures
        joined(a + b, sep) == joined(a, sep) + sep + joined(b, sep),
        a.len() == 1 ==> joined(a, sep) == a[0],
        joined(Seq::<Seq<char>>::empty(), sep) == Seq::<char>::empty(),
    decreases b.len(),
{
    let all = a + b;
    assert(all.last() == b.last());
    assert(all.drop_last() =~= a + b.drop_last());
    if b.len() == 1 {
        assert(all.drop_last() =~= a);
        assert(joined(b, sep) == b[0]);
    } else {
        law_joining_goes_list_by_list(a, b.drop_last(), sep);
        assert(joined(all, sep) =~= joined(a, sep) + sep + joined(b, sep));
    }
}

/// A text is cut at the first of the given characters: nothing before it is lost,
/// and nothing from it on is kept.
pub proof fn law_text_is_cut_at_the_first_stop(s: Seq<char>, stops: Seq<char>, i: int)
    ensures
        begins(s, before_any(s, stops)),
        before_any(s, stops).len() < s.len() ==> stops.contains(s[before_any(s, stops).len() as int]),
        0 <= i < before_any(s, stops).len() ==> !stops.contains(s[i]),
    decreases s.len(),
{
    let r = before_any(s, stops);
    if s.len() == 0 || stops.contains(s[0]) {
        assert(s.subrange(0, 0) =~= seq![]);
    } else {
        law_text_is_cut_at_the_first_stop(s.skip(1), stops, i - 1);
        let rest = before_any(s.skip(1), stops);
        assert(r =~= seq![s[0]] + rest);
        assert(s.subrange(0, r.len() as int) =~= r) by {
            assert forall|k: int| 0 < k < r.len() implies s[k] == r[k] by {
                assert(s.skip(1).subrange(0, rest.len() as int)[k - 1] == rest[k - 1]);
            }
        }
        if rest.len() < s.skip(1).len() {
            assert(s.skip(1)[rest.len() as int] == s[r.len() as int]);
        }
    }
}

/// A number that is written in digits reads back as the number, with or without a
/// plus sign.
pub proof fn law_numbers_read_back(n: nat)
    ensures
        digits_value(decimal(n)) == Some(n),
        written_number(decimal(n)) == Some(n),
        written_number(seq!['+'] + decimal(n)) == Some(n),
        decimal(n).len() > 0,
        '0' <= decimal(n)[0] <= '9',
    decreases n,
{
    if n < 10 {
        assert(decimal(n)[0] == digit(n));
    } else {
        law_numbers_read_back(n / 10);
        assert(decimal(n).drop_last() =~= decimal(n / 10));
        assert(decimal(n)[0] == decimal(n / 10)[0]);
        assert(decimal(n).last() == digit(n % 10));
    }
    assert((seq!['+'] + decimal(n)).skip(1) =~= decimal(n));
}

/// A text without a digit, or with anything but digits behind its sign, writes no
/// number.
pub proof fn law_words_write_no_number(s: Seq<char>, i: int)
    ensures
        s.len() == 0 ==> written_number(s) is None,
        0 < i < s.len() && !('0' <= s[i] <= '9') ==> written_number(s) is None,
        s.len() > 0 && s[0] != '+' && !('0' <= s[0] <= '9') ==> written_number(s) is None,
{
    if 0 <= i < s.len() && !('0' <= s[i] <= '9') {
        lemma_no_digits(s, i);
        if i > 0 {
            assert(s.skip(1)[i - 1] == s[i]);
            lemma_no_digits(s.skip(1), i - 1);
        }
    }
    if s.len() > 0 && !('0' <= s[0] <= '9') {
        lemma_no_digits(s, 0);
    }
}

proof fn lemma_no_digits(s: Seq<char>, i: int)
    requires
        0 <= i < s.len(),
        !('0' <= s[i] <= '9'),
    ensures
        digits_value(s) is None,
    decreases s.len(),
{
    if i < s.len() - 1 {
        assert(s.drop_last()[i] == s[i]);
        lemma_no_digits(s.drop_last(), i);
    }
}

/// Leaving a character out leaves every other one in its order.
pub proof fn law_only_one_character_is_left_out(a: Seq<char>, b: Seq<char>, c: char, d: char)
    ensures
        without_char(a + b, c) == without_char(a, c) + without_char(b, c),
        without_char(seq![c], c) == Seq::<char>::empty(),
        d != c ==> without_char(seq![d], c) == seq![d],
        !without_char(a, c).contains(c),
    decreases b.len(),
{
    assert(seq![c].drop_last() =~= seq![]);
    assert(seq![d].drop_last() =~= seq![]);
    assert(without_char(Seq::<char>::empty(), c) =~= seq![]);
    assert(without_char(seq![d].drop_last(), c).push(d) =~= seq![d]);
    lemma_left_out(a, c);
    if b.len() == 0 {
        assert(a + b =~= a);
        assert(without_char(a, c) + without_char(b, c) =~= without_char(a, c));
    } else {
        law_only_one_character_is_left_out(a, b.drop_last(), c, d);
        assert((a + b).drop_last() =~= a + b.drop_last());
        assert((a + b).last() == b.last());
        assert(without_char(a + b, c) =~= without_char(a, c) + without_char(b, c));
    }
}

proof fn lemma_left_out(a: Seq<char>, c: char)
    ensures
        !without_char(a, c).contains(c),
    decreases a.len(),
{
    if a.len() > 0 {
        lemma_left_out(a.drop_last(), c);
        if a.last() != c {
            let r = without_char(a.drop_last(), c);
            assert forall|i: int| 0 <= i < r.push(a.last()).len() implies r.push(a.last())[i] != c by {
                if i < r.len() {
                    assert(r.contains(r[i]));
                }
            }
        }
    }
}

} // verus!
