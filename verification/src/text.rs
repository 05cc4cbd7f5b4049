//! Text rules over sequences of characters.

use vstd::prelude::*;

verus! {

/// Characters with the Unicode `White_Space` property.
pub open spec fn white_space(c: char) -> bool {
    ||| '\u{9}' <= c <= '\u{d}'
    ||| c == '\u{20}'
    ||| c == '\u{85}'
    ||| c == '\u{a0}'
    ||| c == '\u{1680}'
    ||| '\u{2000}' <= c <= '\u{200a}'
    ||| c == '\u{2028}'
    ||| c == '\u{2029}'
    ||| c == '\u{202f}'
    ||| c == '\u{205f}'
    ||| c == '\u{3000}'
}

/// Whether `c` is white space.
pub fn is_white_space(c: char) -> (b: bool)
    ensures
        b == white_space(c),
{
    ('\u{9}' <= c && c <= '\u{d}') || c == '\u{20}' || c == '\u{85}' || c == '\u{a0}' || c
        == '\u{1680}' || ('\u{2000}' <= c && c <= '\u{200a}') || c == '\u{2028}' || c == '\u{2029}'
        || c == '\u{202f}' || c == '\u{205f}' || c == '\u{3000}'
}

/// The characters of `s`, in order.
pub fn chars_of(s: &str) -> (v: Vec<char>)
    ensures
        v@ == s@,
{
    let mut v: Vec<char> = Vec::new();
    for c in it: s.chars()
        invariant
            v@ == it.seq().take(it.index() as int),
            it.seq() == s@,
    {
        v.push(c);
    }
    v
}

/// `s` without its leading white space.
pub open spec fn trim_start(s: Seq<char>) -> Seq<char>
    decreases s.len(),
{
    if s.len() > 0 && white_space(s[0]) {
        trim_start(s.skip(1))
    } else {
        s
    }
}

/// `s` without its trailing white space.
pub open spec fn trim_end(s: Seq<char>) -> Seq<char>
    decreases s.len(),
{
    if s.len() > 0 && white_space(s.last()) {
        trim_end(s.drop_last())
    } else {
        s
    }
}

/// `s` without leading and trailing white space.
pub open spec fn trimmed(s: Seq<char>) -> Seq<char> {
    trim_end(trim_start(s))
}

/// `s` without the copies of `c` at its end.
pub open spec fn trimmed_end_of(s: Seq<char>, c: char) -> Seq<char>
    decreases s.len(),
{
    if s.len() > 0 && s.last() == c {
        trimmed_end_of(s.drop_last(), c)
    } else {
        s
    }
}

/// `c` with an ASCII capital letter made small.
pub open spec fn ascii_small(c: char) -> char {
    if 'A' <= c <= 'Z' {
        (c as u32 + 32) as char
    } else {
        c
    }
}

/// `s` with its ASCII capital letters made small.
pub open spec fn ascii_lowered(s: Seq<char>) -> Seq<char> {
    s.map_values(|c: char| ascii_small(c))
}

/// Whether `s` holds ASCII characters only.
pub open spec fn all_ascii(s: Seq<char>) -> bool {
    forall|i: int| 0 <= i < s.len() ==> (#[trigger] s[i]) as u32 <= 127
}

/// Whether `a` and `b` differ at most in the case of ASCII letters.
pub open spec fn same_but_case(a: Seq<char>, b: Seq<char>) -> bool {
    ascii_lowered(a) == ascii_lowered(b)
}

/// Whether `n` stands in `h` at position `i`.
pub open spec fn occurs_at(h: Seq<char>, n: Seq<char>, i: int) -> bool {
    0 <= i <= h.len() - n.len() && h.subrange(i, i + n.len()) == n
}

/// Whether `n` stands anywhere in `h`.
pub open spec fn occurs(h: Seq<char>, n: Seq<char>) -> bool {
    exists|i: int| occurs_at(h, n, i)
}

/// Whether `s` starts with `p`.
pub open spec fn begins(s: Seq<char>, p: Seq<char>) -> bool {
    occurs_at(s, p, 0)
}

/// The first position of `n` in `h` that is not before `from`.
pub open spec fn position_from(h: Seq<char>, n: Seq<char>, from: int) -> Option<int>
    decreases h.len() - from + 1,
{
    if from < 0 || from + n.len() > h.len() {
        None
    } else if occurs_at(h, n, from) {
        Some(from)
    } else {
        position_from(h, n, from + 1)
    }
}

/// The first position of `n` in `h`.
pub open spec fn position(h: Seq<char>, n: Seq<char>) -> Option<int> {
    position_from(h, n, 0)
}

/// `line` without one carriage return at its end.
pub open spec fn without_return(line: Seq<char>) -> Seq<char> {
    if line.len() > 0 && line.last() == '\r' {
        line.drop_last()
    } else {
        line
    }
}

/// The lines of `s`: each ends before a line feed, or before a carriage return
/// and a line feed, and a last line that nothing ends counts unless it is empty.
pub open spec fn lines_of(s: Seq<char>) -> Seq<Seq<char>>
    decreases s.len(),
{
    match position(s, seq!['\n']) {
        Some(i) => if 0 <= i < s.len() {
            seq![without_return(s.take(i))] + lines_of(s.skip(i + 1))
        } else {
            seq![]
        },
        None => if s.len() == 0 {
            seq![]
        } else {
            seq![s]
        },
    }
}

/// The parts one after the other, with `sep` between neighbours.
pub open spec fn joined(parts: Seq<Seq<char>>, sep: Seq<char>) -> Seq<char>
    decreases parts.len(),
{
    if parts.len() == 0 {
        seq![]
    } else if parts.len() == 1 {
        parts[0]
    } else {
        joined(parts.drop_last(), sep) + sep + parts.last()
    }
}

/// Adds `c` at the end of `s` (`String::push`).
pub assume_specification[ String::push ](s: &mut String, c: char)
    ensures
        final(s)@ == old(s)@.push(c),
;

/// What `str::to_lowercase` makes of a text.
pub uninterp spec fn unicode_lowered(s: Seq<char>) -> Seq<char>;

/// The lowercase equivalent of `s` by Unicode's rules (`str::to_lowercase`). Of
/// ASCII text that is the text with its letters made small. Which text it is
/// otherwise stays unsaid: the contract only names it.
#[verifier::external_body]
fn to_unicode_lowercase(s: &str) -> (r: String)
    ensures
        r@ == unicode_lowered(s@),
        all_ascii(s@) ==> r@ == ascii_lowered(s@),
{
    s.to_lowercase()
}

/// `s` in small letters.
pub open spec fn lowered(s: Seq<char>) -> Seq<char> {
    if all_ascii(s) {
        ascii_lowered(s)
    } else {
        unicode_lowered(s)
    }
}

/// `s` in small letters.
pub fn in_small_letters(s: &str) -> (r: String)
    ensures
        r@ == lowered(s@),
{
    to_unicode_lowercase(s)
}

/// What `String::from_utf8_lossy` makes of a sequence of bytes.
pub uninterp spec fn utf8_lossy(bytes: Seq<u8>) -> Seq<char>;

/// The text that `bytes` encode, with a replacement character for what is not
/// UTF-8 (`String::from_utf8_lossy`). Bytes that are UTF-8 give the text they
/// encode; where the replacement characters stand in the other texts is unsaid.
#[verifier::external_body]
pub(crate) fn from_utf8_lossy(bytes: &[u8]) -> (r: String)
    ensures
        r@ == utf8_lossy(bytes@),
        vstd::utf8::valid_utf8(bytes@) ==> r@ == vstd::utf8::decode_utf8(bytes@),
{
    String::from_utf8_lossy(bytes).into_owned()
}

/// The text made of `chars[from..to]`.
pub fn text_of(chars: &Vec<char>, from: usize, to: usize) -> (r: String)
    requires
        from <= to <= chars@.len(),
    ensures
        r@ == chars@.subrange(from as int, to as int),
{
    let mut r: String = String::new();
    let mut i: usize = from;
    while i < to
        invariant
            from <= i <= to <= chars@.len(),
            r@ == chars@.subrange(from as int, i as int),
        decreases to - i,
    {
        r.push(chars[i]);
        i = i + 1;
    }
    r
}

/// A text of its own that reads like `s`.
pub fn owned(s: &str) -> (r: String)
    ensures
        r@ == s@,
{
    s.to_owned()
}

/// `a` followed by `b`.
pub fn concat(a: &str, b: &str) -> (r: String)
    ensures
        r@ == a@ + b@,
{
    let mut r = owned(a);
    r.append(b);
    r
}

/// Whether the two texts are the same.
pub fn same(a: &str, b: &str) -> (r: bool)
    ensures
        r == (a@ == b@),
{
    a.to_owned() == b.to_owned()
}

/// Whether `n` stands in `h` at position `i`.
fn stands_at(h: &Vec<char>, n: &Vec<char>, i: usize) -> (r: bool)
    requires
        i <= h@.len(),
    ensures
        r == occurs_at(h@, n@, i as int),
{
    if n.len() > h.len() - i {
        return false;
    }
    let mut k: usize = 0;
    while k < n.len()
        invariant
            k <= n@.len(),
            i + n@.len() <= h.len(),
            forall|j: int| 0 <= j < k ==> h@[i + j] == n@[j],
        decreases n@.len() - k,
    {
        if h[i + k] != n[k] {
            assert(h@.subrange(i as int, i + n@.len())[k as int] != n@[k as int]);
            return false;
        }
        k = k + 1;
    }
    assert(h@.subrange(i as int, i + n@.len()) =~= n@);
    true
}

/// What a search from `from` finds is the first place at or after `from`.
pub proof fn lemma_position_from(h: Seq<char>, n: Seq<char>, from: int)
    requires
        0 <= from,
    ensures
        position_from(h, n, from) matches Some(i) ==> from <= i && occurs_at(h, n, i) && (
        forall|j: int| from <= j < i ==> !occurs_at(h, n, j)),
        position_from(h, n, from) is None ==> (forall|j: int| from <= j ==> !occurs_at(h, n, j)),
    decreases h.len() - from + 1,
{
    if from + n.len() <= h.len() && !occurs_at(h, n, from) {
        lemma_position_from(h, n, from + 1);
    }
}

/// A text occurs in another exactly when a search for it finds a place.
pub proof fn lemma_position(h: Seq<char>, n: Seq<char>)
    ensures
        position(h, n) is Some <==> occurs(h, n),
        position(h, n) matches Some(i) ==> occurs_at(h, n, i) && (forall|j: int|
            0 <= j < i ==> !occurs_at(h, n, j)),
{
    lemma_position_from(h, n, 0);
}

/// The first position of `n` in `h` that is not before `from`.
pub fn find_from(h: &Vec<char>, n: &Vec<char>, from: usize) -> (r: Option<usize>)
    requires
        from <= h@.len(),
    ensures
        (match r {
            Some(i) => position_from(h@, n@, from as int) == Some(i as int),
            None => position_from(h@, n@, from as int) is None,
        }),
        r matches Some(i) ==> i + n@.len() <= h.len(),
{
    let mut i: usize = from;
    loop
        invariant
            from <= i <= h@.len(),
            position_from(h@, n@, from as int) == position_from(h@, n@, i as int),
        decreases h@.len() - i,
    {
        if n.len() > h.len() - i {
            return None;
        }
        if stands_at(h, n, i) {
            return Some(i);
        }
        if i == h.len() {
            assert(h@.subrange(i as int, i as int) =~= n@);
            return None;
        }
        i = i + 1;
    }
}

/// Whether `n` stands anywhere in `h`.
pub fn contains(h: &str, n: &str) -> (r: bool)
    ensures
        r == occurs(h@, n@),
{
    let hs = chars_of(h);
    let ns = chars_of(n);
    proof {
        lemma_position(h@, n@);
    }
    find_from(&hs, &ns, 0).is_some()
}

/// Whether `s` starts with `p`.
pub fn starts_with(s: &str, p: &str) -> (r: bool)
    ensures
        r == begins(s@, p@),
{
    stands_at(&chars_of(s), &chars_of(p), 0)
}

/// What follows `p` in `s`, if `s` starts with `p`.
pub fn strip_prefix<'a>(s: &'a str, p: &str) -> (r: Option<&'a str>)
    ensures
        r is Some <==> begins(s@, p@),
        r matches Some(rest) ==> rest@ == s@.skip(p@.len() as int),
{
    if starts_with(s, p) {
        let n: usize = s.unicode_len();
        Some(s.substring_char(p.unicode_len(), n))
    } else {
        None
    }
}

/// Whether `s` ends with `p`.
pub open spec fn finishes(s: Seq<char>, p: Seq<char>) -> bool {
    occurs_at(s, p, s.len() - p.len())
}

/// What stands before `p` in `s`, if `s` ends with `p`.
pub fn strip_suffix<'a>(s: &'a str, p: &str) -> (r: Option<&'a str>)
    ensures
        r is Some <==> finishes(s@, p@),
        r matches Some(rest) ==> rest@ == s@.take(s@.len() - p@.len()),
{
    let n: usize = s.unicode_len();
    let m: usize = p.unicode_len();
    if m <= n && stands_at(&chars_of(s), &chars_of(p), n - m) {
        Some(s.substring_char(0, n - m))
    } else {
        None
    }
}

proof fn lemma_trim_start_skip(s: Seq<char>, i: int)
    requires
        0 <= i < s.len(),
        white_space(s[i]),
        trim_start(s) == trim_start(s.skip(i)),
    ensures
        trim_start(s) == trim_start(s.skip(i + 1)),
{
    assert(s.skip(i).skip(1) =~= s.skip(i + 1));
}

/// `s` without leading and trailing white space.
pub fn trim<'a>(s: &'a str) -> (r: &'a str)
    ensures
        r@ == trimmed(s@),
{
    let cs = chars_of(s);
    let mut from: usize = 0;
    proof {
        assert(s@.skip(0) =~= s@);
    }
    while from < cs.len() && is_white_space(cs[from])
        invariant
            cs@ == s@,
            from <= cs@.len(),
            trim_start(s@) == trim_start(s@.skip(from as int)),
        decreases cs@.len() - from,
    {
        proof {
            lemma_trim_start_skip(s@, from as int);
        }
        from = from + 1;
    }
    let ghost t = s@.skip(from as int);
    assert(trim_start(s@) == t);
    let mut to: usize = cs.len();
    assert(s@.subrange(from as int, to as int) =~= t);
    while from < to && is_white_space(cs[to - 1])
        invariant
            cs@ == s@,
            from <= to <= cs@.len(),
            trim_end(t) == trim_end(s@.subrange(from as int, to as int)),
        decreases to,
    {
        proof {
            assert(s@.subrange(from as int, to as int).drop_last() =~= s@.subrange(
                from as int,
                to - 1,
            ));
        }
        to = to - 1;
    }
    s.substring_char(from, to)
}

/// `s` without the copies of `c` at its end.
pub fn trim_end_of<'a>(s: &'a str, c: char) -> (r: &'a str)
    ensures
        r@ == trimmed_end_of(s@, c),
{
    let cs = chars_of(s);
    let mut to: usize = cs.len();
    assert(s@.take(to as int) =~= s@);
    while 0 < to && cs[to - 1] == c
        invariant
            cs@ == s@,
            to <= cs@.len(),
            trimmed_end_of(s@, c) == trimmed_end_of(s@.take(to as int), c),
        decreases to,
    {
        proof {
            assert(s@.take(to as int).drop_last() =~= s@.take(to - 1));
        }
        to = to - 1;
    }
    s.substring_char(0, to)
}

/// `c` with an ASCII capital letter made small.
pub fn small(c: char) -> (r: char)
    ensures
        r == ascii_small(c),
{
    if 'A' <= c && c <= 'Z' {
        match c {
            'A' => 'a', 'B' => 'b', 'C' => 'c', 'D' => 'd', 'E' => 'e', 'F' => 'f', 'G' => 'g',
            'H' => 'h', 'I' => 'i', 'J' => 'j', 'K' => 'k', 'L' => 'l', 'M' => 'm', 'N' => 'n',
            'O' => 'o', 'P' => 'p', 'Q' => 'q', 'R' => 'r', 'S' => 's', 'T' => 't', 'U' => 'u',
            'V' => 'v', 'W' => 'w', 'X' => 'x', 'Y' => 'y', _ => 'z',
        }
    } else {
        c
    }
}

/// `s` with its ASCII capital letters made small.
pub fn to_ascii_lowercase(s: &str) -> (r: String)
    ensures
        r@ == ascii_lowered(s@),
{
    let cs = chars_of(s);
    let mut r: String = String::new();
    let mut i: usize = 0;
    while i < cs.len()
        invariant
            cs@ == s@,
            i <= cs@.len(),
            r@ == ascii_lowered(s@.take(i as int)),
        decreases cs@.len() - i,
    {
        r.push(small(cs[i]));
        i = i + 1;
        assert(ascii_lowered(s@.take(i as int)) =~= ascii_lowered(s@.take(i - 1)).push(
            ascii_small(s@[i - 1]),
        ));
    }
    assert(s@.take(i as int) =~= s@);
    r
}

/// Whether `a` and `b` differ at most in the case of ASCII letters.
pub fn eq_ignore_ascii_case(a: &str, b: &str) -> (r: bool)
    ensures
        r == same_but_case(a@, b@),
{
    to_ascii_lowercase(a) == to_ascii_lowercase(b)
}

/// The part of `s` before the place where one of `stops` first stands.
pub open spec fn before_any(s: Seq<char>, stops: Seq<char>) -> Seq<char>
    decreases s.len(),
{
    if s.len() == 0 || stops.contains(s[0]) {
        seq![]
    } else {
        seq![s[0]] + before_any(s.skip(1), stops)
    }
}

proof fn lemma_before_any_skip(s: Seq<char>, stops: Seq<char>, i: int)
    requires
        0 <= i < s.len(),
        !stops.contains(s[i]),
        before_any(s, stops) == s.take(i) + before_any(s.skip(i), stops),
    ensures
        before_any(s, stops) == s.take(i + 1) + before_any(s.skip(i + 1), stops),
{
    assert(s.skip(i).skip(1) =~= s.skip(i + 1));
    assert(s.take(i + 1) =~= s.take(i) + seq![s[i]]);
    assert(before_any(s, stops) =~= s.take(i + 1) + before_any(s.skip(i + 1), stops));
}

/// The part of `s` before the place where one of `stops` first stands.
pub fn split_before<'a>(s: &'a str, stops: &str) -> (r: &'a str)
    ensures
        r@ == before_any(s@, stops@),
{
    let cs = chars_of(s);
    let mut i: usize = 0;
    assert(s@.skip(0) =~= s@);
    assert(s@.take(0) + before_any(s@, stops@) =~= before_any(s@, stops@));
    while i < cs.len() && !has_char(stops, cs[i])
        invariant
            cs@ == s@,
            i <= cs@.len(),
            before_any(s@, stops@) == s@.take(i as int) + before_any(s@.skip(i as int), stops@),
        decreases cs@.len() - i,
    {
        proof {
            lemma_before_any_skip(s@, stops@, i as int);
        }
        i = i + 1;
    }
    assert(before_any(s@.skip(i as int), stops@) =~= seq![]);
    assert(s@.take(i as int) + seq![] =~= s@.take(i as int));
    s.substring_char(0, i)
}

/// Whether `c` stands in `s`.
pub fn has_char(s: &str, c: char) -> (r: bool)
    ensures
        r == s@.contains(c),
{
    let cs = chars_of(s);
    let mut i: usize = 0;
    while i < cs.len()
        invariant
            cs@ == s@,
            i <= cs@.len(),
            forall|k: int| 0 <= k < i ==> s@[k] != c,
        decreases cs@.len() - i,
    {
        if cs[i] == c {
            return true;
        }
        i = i + 1;
    }
    false
}

/// Joins `parts` with `sep` between neighbours.
pub fn join(parts: &Vec<String>, sep: &str) -> (r: String)
    ensures
        r@ == joined(parts@.map_values(|p: String| p@), sep@),
{
    let ghost views = parts@.map_values(|p: String| p@);
    let mut r: String = String::new();
    let mut i: usize = 0;
    while i < parts.len()
        invariant
            i <= parts@.len(),
            views == parts@.map_values(|p: String| p@),
            r@ == joined(views.take(i as int), sep@),
        decreases parts@.len() - i,
    {
        if i > 0 {
            r.append(sep);
        }
        r.append(parts[i].as_str());
        i = i + 1;
        assert(views.take(i as int).drop_last() =~= views.take(i - 1));
        assert(views.take(i as int).last() == parts@[i - 1]@);
        if i == 1 {
            assert(views.take(1)[0] == parts@[0]@);
        }
    }
    assert(views.take(i as int) =~= views);
    r
}

/// The lines of `s`.
pub fn lines(s: &str) -> (r: Vec<String>)
    ensures
        r@.map_values(|l: String| l@) == lines_of(s@),
{
    let cs = chars_of(s);
    let mut feed: Vec<char> = Vec::new();
    feed.push('\n');
    let mut r: Vec<String> = Vec::new();
    let mut start: usize = 0;
    assert(s@.skip(0) =~= s@);
    assert(feed@ =~= seq!['\n']);
    loop
        invariant
            cs@ == s@,
            feed@ == seq!['\n'],
            start <= cs.len(),
            lines_of(s@) == r@.map_values(|l: String| l@) + lines_of(s@.skip(start as int)),
        decreases cs@.len() - start,
    {
        let ghost rest = s@.skip(start as int);
        proof {
            lemma_position_shift(s@, seq!['\n'], start as int);
            lemma_position_from(s@, seq!['\n'], start as int);
        }
        match find_from(&cs, &feed, start) {
            Some(end) => {
                let stop: usize = if start < end && cs[end - 1] == '\r' {
                    end - 1
                } else {
                    end
                };
                let line = text_of(&cs, start, stop);
                proof {
                    assert(rest.take(end - start) =~= s@.subrange(start as int, end as int));
                    assert(line@ =~= without_return(rest.take(end - start)));
                    assert(rest.skip(end - start + 1) =~= s@.skip(end + 1));
                    assert(r@.push(line).map_values(|l: String| l@) =~= r@.map_values(
                        |l: String| l@,
                    ).push(line@));
                    assert(lines_of(s@) =~= r@.push(line).map_values(|l: String| l@) + lines_of(
                        s@.skip(end + 1),
                    ));
                }
                r.push(line);
                start = end + 1;
            },
            None => {
                if start < cs.len() {
                    let line = text_of(&cs, start, cs.len());
                    proof {
                        assert(line@ =~= rest);
                        assert(r@.push(line).map_values(|l: String| l@) =~= r@.map_values(
                            |l: String| l@,
                        ) + lines_of(rest));
                    }
                    r.push(line);
                } else {
                    assert(lines_of(rest) =~= seq![]);
                    assert(lines_of(s@) =~= r@.map_values(|l: String| l@));
                }
                return r;
            },
        }
    }
}

/// A search from `from` finds what a search in the rest finds, shifted.
pub proof fn lemma_position_shift(h: Seq<char>, n: Seq<char>, from: int)
    requires
        0 <= from <= h.len(),
    ensures
        position(h.skip(from), n) == (match position_from(h, n, from) {
            Some(i) => Some(i - from),
            None => None::<int>,
        }),
{
    lemma_position_from(h, n, from);
    lemma_position_from(h.skip(from), n, 0);
    let a = position_from(h, n, from);
    let b = position(h.skip(from), n);
    assert forall|j: int| 0 <= j implies #[trigger] occurs_at(h.skip(from), n, j) == occurs_at(
        h,
        n,
        from + j,
    ) by {
        if j + n.len() <= h.skip(from).len() {
            assert(h.skip(from).subrange(j, j + n.len()) =~= h.subrange(
                from + j,
                from + j + n.len(),
            ));
        }
    }
    match a {
        Some(i) => {
            assert(occurs_at(h.skip(from), n, i - from));
            match b {
                Some(k) => {
                    assert(occurs_at(h, n, from + k));
                },
                None => {},
            }
        },
        None => {
            match b {
                Some(k) => {
                    assert(occurs_at(h, n, from + k));
                },
                None => {},
            }
        },
    }
}

/// The value of an ASCII digit.
pub open spec fn digit_value(c: char) -> int {
    (c as int) - ('0' as int)
}

/// The number that ASCII digits write, if the text holds nothing else and at
/// least one digit.
pub open spec fn digits_value(s: Seq<char>) -> Option<nat>
    decreases s.len(),
{
    if s.len() == 0 || !('0' <= s.last() <= '9') {
        None
    } else if s.len() == 1 {
        Some(digit_value(s[0]) as nat)
    } else {
        match digits_value(s.drop_last()) {
            Some(n) => Some((n * 10 + digit_value(s.last())) as nat),
            None => None,
        }
    }
}

/// The number that a text writes: digits, which a plus sign may precede.
pub open spec fn written_number(s: Seq<char>) -> Option<nat> {
    if s.len() > 0 && s[0] == '+' {
        digits_value(s.skip(1))
    } else {
        digits_value(s)
    }
}

proof fn lemma_digits_prefix(s: Seq<char>, k: int)
    requires
        0 < k <= s.len(),
        digits_value(s) is Some,
    ensures
        digits_value(s.take(k)) is Some,
        digits_value(s.take(k))->0 <= digits_value(s)->0,
    decreases s.len(),
{
    if k < s.len() {
        lemma_digits_prefix(s.drop_last(), k);
        assert(s.drop_last().take(k) =~= s.take(k));
    } else {
        assert(s.take(k) =~= s);
    }
}

/// The number that a text writes, if 64 bits can hold it.
pub fn parse_u64(s: &str) -> (r: Option<u64>)
    ensures
        r == (match written_number(s@) {
            Some(n) => if n <= u64::MAX {
                Some(n as u64)
            } else {
                None
            },
            None => None,
        }),
{
    let cs = chars_of(s);
    let start: usize = if cs.len() > 0 && cs[0] == '+' {
        1
    } else {
        0
    };
    let ghost digits = s@.skip(start as int);
    assert(s@.skip(0) =~= s@);
    assert(written_number(s@) == digits_value(digits));
    if start == cs.len() {
        return None;
    }
    let mut value: u64 = 0;
    let mut i: usize = start;
    while i < cs.len()
        invariant
            cs@ == s@,
            start <= i <= cs.len(),
            digits == s@.skip(start as int),
            written_number(s@) == digits_value(digits),
            i == start ==> value == 0,
            i > start ==> digits_value(digits.take(i - start)) == Some(value as nat),
        decreases cs@.len() - i,
    {
        let c = cs[i];
        let ghost front = digits.take(i - start + 1);
        proof {
            assert(front.drop_last() =~= digits.take(i - start));
            assert(front.last() == c);
        }
        if !('0' <= c && c <= '9') {
            proof {
                if digits_value(digits) is Some {
                    lemma_digits_prefix(digits, i - start + 1);
                }
            }
            return None;
        }
        let d: u64 = (c as u32 - '0' as u32) as u64;
        assert(digits_value(front) == Some((value * 10 + d) as nat));
        if value > 1844674407370955161 || (value == 1844674407370955161 && d > 5) {
            proof {
                if digits_value(digits) is Some {
                    lemma_digits_prefix(digits, i - start + 1);
                }
            }
            return None;
        }
        value = value * 10 + d;
        i = i + 1;
    }
    assert(digits.take(i - start) =~= digits);
    Some(value)
}

/// `s` without any `c`.
pub open spec fn without_char(s: Seq<char>, c: char) -> Seq<char>
    decreases s.len(),
{
    if s.len() == 0 {
        seq![]
    } else if s.last() == c {
        without_char(s.drop_last(), c)
    } else {
        without_char(s.drop_last(), c).push(s.last())
    }
}

/// `s` without any `c`.
pub fn drop_char(s: &str, c: char) -> (r: String)
    ensures
        r@ == without_char(s@, c),
{
    let cs = chars_of(s);
    let mut r: String = String::new();
    let mut i: usize = 0;
    assert(r@ =~= without_char(s@.take(0), c));
    while i < cs.len()
        invariant
            cs@ == s@,
            i <= cs@.len(),
            r@ == without_char(s@.take(i as int), c),
        decreases cs@.len() - i,
    {
        assert(s@.take(i + 1).drop_last() =~= s@.take(i as int));
        if cs[i] != c {
            r.push(cs[i]);
        }
        i = i + 1;
    }
    assert(s@.take(i as int) =~= s@);
    r
}

/// The decimal digits of `n`.
pub open spec fn decimal(n: nat) -> Seq<char>
    decreases n,
{
    if n < 10 {
        seq![digit(n)]
    } else {
        decimal(n / 10).push(digit(n % 10))
    }
}

/// The digit for a number below ten.
pub open spec fn digit(n: nat) -> char {
    ('0' as u32 + n) as char
}

fn digit_char(n: u64) -> (c: char)
    requires
        n < 10,
    ensures
        c == digit(n as nat),
{
    match n {
        0 => '0',
        1 => '1',
        2 => '2',
        3 => '3',
        4 => '4',
        5 => '5',
        6 => '6',
        7 => '7',
        8 => '8',
        _ => '9',
    }
}

/// `n` written in decimal.
pub fn to_decimal(n: u64) -> (r: String)
    ensures
        r@ == decimal(n as nat),
    decreases n,
{
    if n < 10 {
        let mut r: String = String::new();
        r.push(digit_char(n));
        assert(r@ =~= seq![digit(n as nat)]);
        r
    } else {
        let mut r = to_decimal(n / 10);
        r.push(digit_char(n % 10));
        r
    }
}

} // verus!
