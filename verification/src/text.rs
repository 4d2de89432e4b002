//! Text: trimming, searching, splitting and number formatting on `str`.
//!
//! Every function is specified over the sequence of characters that the text
//! holds, so that the contracts of the rest of the library can say exactly
//! which text is produced or recognised.
use vstd::prelude::*;
use vstd::string::*;

verus! {

/// The characters with the Unicode property `White_Space`.
pub open spec fn white_space(c: char) -> bool {
    ||| '\u{9}' <= c <= '\u{d}'
    ||| c == ' '
    ||| c == '\u{85}'
    ||| c == '\u{a0}'
    ||| c == '\u{1680}'
    ||| '\u{2000}' <= c <= '\u{200a}'
    ||| c == '\u{2028}'
    ||| c == '\u{2029}'
    ||| c == '\u{202f}'
    ||| c == '\u{205f}'
    ||| c == '\u{3000}'
}

/// Whether `c` is white space.
pub fn is_white_space(c: char) -> (r: bool)
    ensures
        r == white_space(c),
{
    ('\u{9}' <= c && c <= '\u{d}') || c == ' ' || c == '\u{85}' || c == '\u{a0}' || c == '\u{1680}'
        || ('\u{2000}' <= c && c <= '\u{200a}') || c == '\u{2028}' || c == '\u{2029}' || c
        == '\u{202f}' || c == '\u{205f}' || c == '\u{3000}'
}

/// The characters of `s`, for access by index.
pub fn chars_of(s: &str) -> (r: Vec<char>)
    ensures
        r@ == s@,
{
    let mut r: Vec<char> = Vec::new();
    for c in it: s.chars()
        invariant
            r@ == s@.take(it.index() as int),
            it.seq() == s@,
    {
        assert(s@.take(it.index() as int + 1) == s@.take(it.index() as int).push(c));
        r.push(c);
    }
    assert(s@.take(s@.len() as int) == s@);
    r
}

/// Whether `a` and `b` hold the same text.
pub fn same_text(a: &str, b: &str) -> (r: bool)
    ensures
        r == (a@ == b@),
{
    a.to_owned() == b.to_owned()
}

/// `s` without the white space at its start.
pub open spec fn trimmed_start(s: Seq<char>) -> Seq<char>
    decreases s.len(),
{
    if s.len() > 0 && white_space(s[0]) {
        trimmed_start(s.drop_first())
    } else {
        s
    }
}

/// `s` without the white space at its end.
pub open spec fn trimmed_end(s: Seq<char>) -> Seq<char>
    decreases s.len(),
{
    if s.len() > 0 && white_space(s.last()) {
        trimmed_end(s.drop_last())
    } else {
        s
    }
}

/// `s` without the white space at either end.
pub open spec fn trimmed(s: Seq<char>) -> Seq<char> {
    trimmed_end(trimmed_start(s))
}

/// `s` without white space at either end.
pub fn trim(s: &str) -> (r: &str)
    ensures
        r@ == trimmed(s@),
{
    let chars = chars_of(s);
    let mut from: usize = 0;
    assert(s@.skip(0) == s@);
    while from < chars.len() && is_white_space(chars[from])
        invariant
            chars@ == s@,
            from <= s@.len(),
            trimmed_start(s@) == trimmed_start(s@.skip(from as int)),
        decreases chars.len() - from,
    {
        assert(s@.skip(from as int).drop_first() == s@.skip(from + 1));
        from += 1;
    }
    let mut to: usize = chars.len();
    let ghost head = s@.skip(from as int);
    assert(trimmed_start(s@) == head);
    assert(s@.subrange(from as int, to as int) == head);
    while from < to && is_white_space(chars[to - 1])
        invariant
            chars@ == s@,
            from <= to <= s@.len(),
            trimmed_end(head) == trimmed_end(s@.subrange(from as int, to as int)),
        decreases to,
    {
        assert(s@.subrange(from as int, to as int).drop_last() == s@.subrange(
            from as int,
            to - 1,
        ));
        to -= 1;
    }
    s.substring_char(from, to)
}

/// `s` without the run of `c` at its end.
pub open spec fn trimmed_end_of(s: Seq<char>, c: char) -> Seq<char>
    decreases s.len(),
{
    if s.len() > 0 && s.last() == c {
        trimmed_end_of(s.drop_last(), c)
    } else {
        s
    }
}

/// `s` without the run of `c` at its end.
pub fn trim_end_of(s: &str, c: char) -> (r: &str)
    ensures
        r@ == trimmed_end_of(s@, c),
{
    let chars = chars_of(s);
    let mut to: usize = chars.len();
    assert(s@.take(to as int) == s@);
    while 0 < to && chars[to - 1] == c
        invariant
            chars@ == s@,
            to <= s@.len(),
            trimmed_end_of(s@, c) == trimmed_end_of(s@.take(to as int), c),
        decreases to,
    {
        assert(s@.take(to as int).drop_last() == s@.take(to - 1));
        to -= 1;
    }
    assert(s@.take(to as int) == s@.subrange(0, to as int));
    s.substring_char(0, to)
}

/// What is left of `s` is where it starts, does not end with `c`, and what is
/// gone is `c` throughout.
pub proof fn lemma_trimmed_end_of(s: Seq<char>, c: char)
    ensures
        trimmed_end_of(s, c).is_prefix_of(s),
        trimmed_end_of(s, c).len() > 0 ==> trimmed_end_of(s, c).last() != c,
        forall|i: int| trimmed_end_of(s, c).len() <= i < s.len() ==> #[trigger] s[i] == c,
    decreases s.len(),
{
    if s.len() > 0 && s.last() == c {
        let head = s.drop_last();
        lemma_trimmed_end_of(head, c);
        assert forall|i: int| trimmed_end_of(s, c).len() <= i < s.len() implies #[trigger] s[i] == c by {
            if i < s.len() - 1 {
                assert(head[i] == s[i]);
            }
        }
    }
}

/// What follows `prefix` in `s`, where `s` starts with it.
pub open spec fn stripped_prefix(s: Seq<char>, prefix: Seq<char>) -> Option<Seq<char>> {
    if prefix.is_prefix_of(s) {
        Some(s.skip(prefix.len() as int))
    } else {
        None
    }
}

/// What follows `prefix` in `s`, where `s` starts with it.
pub fn strip_prefix<'a>(s: &'a str, prefix: &str) -> (r: Option<&'a str>)
    ensures
        r is Some <==> stripped_prefix(s@, prefix@) is Some,
        r matches Some(t) ==> Some(t@) == stripped_prefix(s@, prefix@),
{
    let n: usize = s.unicode_len();
    let m: usize = prefix.unicode_len();
    if m > n {
        return None;
    }
    if same_text(s.substring_char(0, m), prefix) {
        assert(s@.subrange(0, m as int) == s@.take(m as int));
        assert(prefix@ =~= s@.take(m as int));
        assert(s@.skip(m as int) == s@.subrange(m as int, n as int));
        Some(s.substring_char(m, n))
    } else {
        assert(!prefix@.is_prefix_of(s@)) by {
            if prefix@.is_prefix_of(s@) {
                assert(s@.subrange(0, m as int) == prefix@);
            }
        }
        None
    }
}

/// Whether `part` stands somewhere in `s`.
pub open spec fn contains_text(s: Seq<char>, part: Seq<char>) -> bool {
    exists|i: int| 0 <= i <= s.len() - part.len() && #[trigger] s.subrange(i, i + part.len()) == part
}

/// Whether `part` stands somewhere in `s`.
pub fn contains(s: &str, part: &str) -> (r: bool)
    ensures
        r == contains_text(s@, part@),
{
    let n: usize = s.unicode_len();
    let m: usize = part.unicode_len();
    if m > n {
        return false;
    }
    let last: usize = n - m;
    let mut i: usize = 0;
    while i < last
        invariant
            n == s@.len(),
            m == part@.len(),
            last + m == n,
            i <= last,
            forall|k: int| 0 <= k < i ==> #[trigger] s@.subrange(k, k + m) != part@,
        decreases last - i,
    {
        if same_text(s.substring_char(i, i + m), part) {
            return true;
        }
        i += 1;
    }
    same_text(s.substring_char(last, n), part)
}

/// The index of the first `c` in `s`, or the length of `s` where there is none.
pub open spec fn first_index(s: Seq<char>, c: char) -> nat
    decreases s.len(),
{
    if s.len() == 0 || s[0] == c {
        0
    } else {
        1 + first_index(s.drop_first(), c)
    }
}

/// The index of the first `c` from `from` on, or the length where there is none.
pub fn find_from(chars: &Vec<char>, from: usize, c: char) -> (r: usize)
    requires
        from <= chars@.len(),
    ensures
        from <= r <= chars@.len(),
        r == from + first_index(chars@.skip(from as int), c),
{
    let mut i: usize = from;
    while i < chars.len() && chars[i] != c
        invariant
            from <= i <= chars@.len(),
            from + first_index(chars@.skip(from as int), c) == i + first_index(
                chars@.skip(i as int),
                c,
            ),
        decreases chars.len() - i,
    {
        assert(chars@.skip(i as int).drop_first() == chars@.skip(i + 1));
        i += 1;
    }
    i
}

/// [`first_index`] stays within the text, stops at `c`, and passes no `c`.
pub proof fn lemma_first_index(s: Seq<char>, c: char)
    ensures
        first_index(s, c) <= s.len(),
        first_index(s, c) < s.len() ==> s[first_index(s, c) as int] == c,
        forall|i: int| 0 <= i < first_index(s, c) ==> s[i] != c,
    decreases s.len(),
{
    if s.len() != 0 && s[0] != c {
        lemma_first_index(s.drop_first(), c);
        assert forall|i: int| 0 <= i < first_index(s, c) implies s[i] != c by {
            if i > 0 {
                assert(s.drop_first()[i - 1] == s[i]);
            }
        }
    }
}

/// A line without the carriage return of its line ending.
pub open spec fn without_return(line: Seq<char>) -> Seq<char> {
    if line.len() > 0 && line.last() == '\r' {
        line.drop_last()
    } else {
        line
    }
}

/// The lines of `s`: each ends at a line feed, with or without a carriage
/// return before it, and what follows the last line feed is a line unless it
/// is empty.
pub open spec fn lines_of(s: Seq<char>) -> Seq<Seq<char>>
    decreases s.len(),
{
    let end = first_index(s, '\n') as int;
    if s.len() == 0 {
        seq![]
    } else if end >= s.len() {
        seq![s]
    } else {
        seq![without_return(s.take(end))] + lines_of(s.skip(end + 1))
    }
}

/// The lines of `s`.
pub fn split_lines(s: &str) -> (r: Vec<String>)
    ensures
        r.deep_view() == lines_of(s@),
{
    let chars = chars_of(s);
    let n: usize = chars.len();
    let mut r: Vec<String> = Vec::new();
    let mut at: usize = 0;
    assert(s@.skip(0) == s@);
    proof {
        lemma_first_index(s@, '\n');
    }
    while at < n
        invariant
            chars@ == s@,
            n == s@.len(),
            at <= n,
            lines_of(s@) == r.deep_view() + lines_of(s@.skip(at as int)),
        decreases n - at,
    {
        let ghost before = r.deep_view();
        let ghost rest = s@.skip(at as int);
        let end: usize = find_from(&chars, at, '\n');
        proof {
            lemma_first_index(rest, '\n');
        }
        if end == n {
            r.push(s.substring_char(at, n).to_owned());
            assert(s@.subrange(at as int, n as int) == rest);
            assert(r.deep_view() == before.push(rest));
            assert(lines_of(rest) == seq![rest]);
            at = n;
            proof {
                lemma_first_index(s@.skip(n as int), '\n');
            }
            assert(lines_of(s@.skip(n as int)) == Seq::<Seq<char>>::empty());
        } else {
            let cut: usize = if at < end && chars[end - 1] == '\r' {
                end - 1
            } else {
                end
            };
            r.push(s.substring_char(at, cut).to_owned());
            assert(rest.take(end - at) == s@.subrange(at as int, end as int));
            assert(without_return(rest.take(end - at)) == s@.subrange(at as int, cut as int));
            assert(r.deep_view() == before.push(s@.subrange(at as int, cut as int)));
            assert(rest.skip(end - at + 1) == s@.skip(end + 1));
            at = end + 1;
        }
    }
    proof {
        lemma_first_index(s@.skip(at as int), '\n');
    }
    assert(lines_of(s@.skip(at as int)) == Seq::<Seq<char>>::empty());
    r
}

/// The decimal digit `d`.
pub open spec fn digit(d: nat) -> char {
    if d == 0 {
        '0'
    } else if d == 1 {
        '1'
    } else if d == 2 {
        '2'
    } else if d == 3 {
        '3'
    } else if d == 4 {
        '4'
    } else if d == 5 {
        '5'
    } else if d == 6 {
        '6'
    } else if d == 7 {
        '7'
    } else if d == 8 {
        '8'
    } else {
        '9'
    }
}

/// `n` in decimal, without leading zeros.
pub open spec fn decimal(n: nat) -> Seq<char>
    decreases n,
{
    if n < 10 {
        seq![digit(n)]
    } else {
        decimal(n / 10).push(digit(n % 10))
    }
}

/// `n` in decimal, with a minus sign where it is negative.
pub open spec fn signed_decimal(n: int) -> Seq<char> {
    if n < 0 {
        seq!['-'] + decimal((-n) as nat)
    } else {
        decimal(n as nat)
    }
}

fn digit_text(d: u64) -> (r: &'static str)
    requires
        d < 10,
    ensures
        r@ == seq![digit(d as nat)],
{
    proof {
        reveal_strlit("0");
        reveal_strlit("1");
        reveal_strlit("2");
        reveal_strlit("3");
        reveal_strlit("4");
        reveal_strlit("5");
        reveal_strlit("6");
        reveal_strlit("7");
        reveal_strlit("8");
        reveal_strlit("9");
    }
    if d == 0 {
        "0"
    } else if d == 1 {
        "1"
    } else if d == 2 {
        "2"
    } else if d == 3 {
        "3"
    } else if d == 4 {
        "4"
    } else if d == 5 {
        "5"
    } else if d == 6 {
        "6"
    } else if d == 7 {
        "7"
    } else if d == 8 {
        "8"
    } else {
        "9"
    }
}

/// `n` in decimal.
pub fn decimal_text(n: u64) -> (r: String)
    ensures
        r@ == decimal(n as nat),
    decreases n,
{
    if n < 10 {
        digit_text(n).to_owned()
    } else {
        let mut r = decimal_text(n / 10);
        r.append(digit_text(n % 10));
        r
    }
}

/// `n` in decimal, with its sign.
pub fn signed_decimal_text(n: i32) -> (r: String)
    ensures
        r@ == signed_decimal(n as int),
{
    let wide: i64 = n as i64;
    if wide < 0 {
        let mut r = "-".to_owned();
        let magnitude: u64 = (-wide) as u64;
        r.append(decimal_text(magnitude).as_str());
        proof {
            reveal_strlit("-");
        }
        r
    } else {
        decimal_text(wide as u64)
    }
}

/// Whether `a` comes before `b`, or equals it, in the order of code points.
pub open spec fn text_le(a: Seq<char>, b: Seq<char>) -> bool
    decreases a.len(),
{
    if a.len() == 0 {
        true
    } else if b.len() == 0 {
        false
    } else if a[0] == b[0] {
        text_le(a.drop_first(), b.drop_first())
    } else {
        a[0] < b[0]
    }
}

/// Whether `a` comes before `b`, or equals it, in the order of code points.
pub fn in_order(a: &str, b: &str) -> (r: bool)
    ensures
        r == text_le(a@, b@),
{
    let x = chars_of(a);
    let y = chars_of(b);
    let mut i: usize = 0;
    assert(a@.skip(0) == a@);
    assert(b@.skip(0) == b@);
    while i < x.len() && i < y.len()
        invariant
            x@ == a@,
            y@ == b@,
            i <= x@.len(),
            i <= y@.len(),
            text_le(a@, b@) == text_le(a@.skip(i as int), b@.skip(i as int)),
        decreases x.len() - i,
    {
        if x[i] != y[i] {
            return x[i] < y[i];
        }
        assert(a@.skip(i as int).drop_first() == a@.skip(i + 1));
        assert(b@.skip(i as int).drop_first() == b@.skip(i + 1));
        i += 1;
    }
    i == x.len()
}

/// The order of texts is total.
pub proof fn text_le_total(a: Seq<char>, b: Seq<char>)
    ensures
        text_le(a, b) || text_le(b, a),
    decreases a.len(),
{
    if a.len() > 0 && b.len() > 0 {
        text_le_total(a.drop_first(), b.drop_first());
    }
}

/// The order of texts is transitive.
pub proof fn text_le_transitive(a: Seq<char>, b: Seq<char>, c: Seq<char>)
    requires
        text_le(a, b),
        text_le(b, c),
    ensures
        text_le(a, c),
    decreases a.len(),
{
    if a.len() > 0 && b.len() > 0 && c.len() > 0 && a[0] == b[0] && b[0] == c[0] {
        text_le_transitive(a.drop_first(), b.drop_first(), c.drop_first());
    }
}

/// Two texts that are each before or equal to the other are the same.
pub proof fn text_le_antisymmetric(a: Seq<char>, b: Seq<char>)
    requires
        text_le(a, b),
        text_le(b, a),
    ensures
        a == b,
    decreases a.len(),
{
    if a.len() > 0 && b.len() > 0 {
        text_le_antisymmetric(a.drop_first(), b.drop_first());
        assert(a == seq![a[0]] + a.drop_first());
        assert(b == seq![b[0]] + b.drop_first());
    } else {
        assert(a =~= b);
    }
}

/// Trimming takes white space off the ends of a text and nothing else: what is
/// left is a part of the text that neither starts nor ends with white space, and
/// all that stood before and behind it is white space.
pub proof fn law_trimming_takes_only_white_space(s: Seq<char>)
    ensures
        exists|from: int, to: int|
            0 <= from <= to <= s.len() && trimmed(s) == #[trigger] s.subrange(from, to) && (forall|
                i: int,
            |
                (0 <= i < from || to <= i < s.len()) ==> white_space(#[trigger] s[i])),
        trimmed(s).len() > 0 ==> !white_space(trimmed(s)[0]) && !white_space(trimmed(s).last()),
{
    lemma_trimmed_start(s);
    let head = trimmed_start(s);
    lemma_trimmed_end(head);
    let from = s.len() - head.len();
    let to = from + trimmed_end(head).len();
    assert(trimmed(s) =~= s.subrange(from, to));
    assert forall|i: int| (0 <= i < from || to <= i < s.len()) implies white_space(
        #[trigger] s[i],
    ) by {
        if to <= i {
            assert(head[i - from] == s[i]);
        }
    }
    if trimmed(s).len() > 0 {
        assert(trimmed(s)[0] == head[0]);
    }
}

proof fn lemma_trimmed_start(s: Seq<char>)
    ensures
        trimmed_start(s).len() <= s.len(),
        trimmed_start(s) == s.skip(s.len() - trimmed_start(s).len()),
        trimmed_start(s).len() > 0 ==> !white_space(trimmed_start(s)[0]),
        forall|i: int| 0 <= i < s.len() - trimmed_start(s).len() ==> white_space(#[trigger] s[i]),
    decreases s.len(),
{
    if s.len() > 0 && white_space(s[0]) {
        let rest = s.drop_first();
        lemma_trimmed_start(rest);
        assert(trimmed_start(s) =~= s.skip(s.len() - trimmed_start(s).len()));
        assert forall|i: int| 0 <= i < s.len() - trimmed_start(s).len() implies white_space(
            #[trigger] s[i],
        ) by {
            if i > 0 {
                assert(rest[i - 1] == s[i]);
            }
        }
    } else {
        assert(s.skip(0) =~= s);
    }
}

proof fn lemma_trimmed_end(s: Seq<char>)
    ensures
        trimmed_end(s).len() <= s.len(),
        trimmed_end(s) == s.take(trimmed_end(s).len() as int),
        trimmed_end(s).len() > 0 ==> !white_space(trimmed_end(s).last()),
        forall|i: int| trimmed_end(s).len() <= i < s.len() ==> white_space(#[trigger] s[i]),
    decreases s.len(),
{
    if s.len() > 0 && white_space(s.last()) {
        let rest = s.drop_last();
        lemma_trimmed_end(rest);
        assert(trimmed_end(s) =~= s.take(trimmed_end(s).len() as int));
        assert forall|i: int| trimmed_end(s).len() <= i < s.len() implies white_space(
            #[trigger] s[i],
        ) by {
            if i < s.len() - 1 {
                assert(rest[i] == s[i]);
            }
        }
    } else {
        assert(s.take(s.len() as int) =~= s);
    }
}

/// Whatever white space is put around a text that has none at its ends, trimming
/// gives the text back.
pub proof fn law_trimming_undoes_padding(before: Seq<char>, text: Seq<char>, behind: Seq<char>)
    requires
        text.len() > 0,
        !white_space(text[0]),
        !white_space(text.last()),
        forall|i: int| 0 <= i < before.len() ==> white_space(#[trigger] before[i]),
        forall|i: int| 0 <= i < behind.len() ==> white_space(#[trigger] behind[i]),
    ensures
        trimmed(before + text + behind) == text,
{
    let s = before + text + behind;
    law_trimming_takes_only_white_space(s);
    let (from, to) = choose|from: int, to: int|
        0 <= from <= to <= s.len() && trimmed(s) == #[trigger] s.subrange(from, to) && (forall|
            i: int,
        |
            (0 <= i < from || to <= i < s.len()) ==> white_space(#[trigger] s[i]));
    let start = before.len() as int;
    let end = start + text.len();
    assert(s[start] == text[0]);
    assert(s[end - 1] == text.last());
    assert(from <= start && end <= to);
    if from < start {
        assert(s[from] == before[from]);
        assert(trimmed(s)[0] == s[from]);
    }
    if end < to {
        assert(s[to - 1] == behind[to - 1 - end]);
        assert(trimmed(s).last() == s[to - 1]);
    }
    assert(s.subrange(from, to) =~= text);
}

/// What follows a prefix is all that stands behind it, and nothing follows it in
/// a text that does not start with it.
pub proof fn law_prefix_and_rest_make_the_text(s: Seq<char>, prefix: Seq<char>, rest: Seq<char>)
    ensures
        stripped_prefix(s, prefix) == Some(rest) <==> s == prefix + rest,
{
    if s == prefix + rest {
        assert(s.take(prefix.len() as int) =~= prefix);
        assert(s.skip(prefix.len() as int) =~= rest);
        assert(prefix.is_prefix_of(s));
    }
    if stripped_prefix(s, prefix) == Some(rest) {
        assert(s =~= prefix + rest);
    }
}

/// A part is found in a text exactly if the text is made of it, something before
/// it and something behind it.
pub proof fn law_parts_are_found_anywhere(s: Seq<char>, part: Seq<char>)
    ensures
        contains_text(s, part) <==> exists|before: Seq<char>, behind: Seq<char>|
            s == #[trigger] (before + part + behind),
{
    if contains_text(s, part) {
        let i = choose|i: int|
            0 <= i <= s.len() - part.len() && #[trigger] s.subrange(i, i + part.len()) == part;
        assert(s =~= s.take(i) + part + s.skip(i + part.len()));
    }
    if exists|before: Seq<char>, behind: Seq<char>| s == #[trigger] (before + part + behind) {
        let (before, behind) = choose|before: Seq<char>, behind: Seq<char>|
            s == #[trigger] (before + part + behind);
        assert(s.subrange(before.len() as int, before.len() as int + part.len()) =~= part);
    }
}

/// A line feed ends a line: what stands before it is a line, without a carriage
/// return at its end, and the lines behind it are those of the rest. A text
/// without a line feed is a line of its own, unless it is empty.
pub proof fn law_lines_end_at_line_feeds(line: Seq<char>, rest: Seq<char>)
    requires
        forall|i: int| 0 <= i < line.len() ==> #[trigger] line[i] != '\n',
    ensures
        lines_of(line + seq!['\n'] + rest) == seq![
            if line.len() > 0 && line.last() == '\r' {
                line.drop_last()
            } else {
                line
            },
        ] + lines_of(rest),
        lines_of(line) == if line.len() == 0 {
            seq![]
        } else {
            seq![line]
        },
{
    let s = line + seq!['\n'] + rest;
    let n = line.len() as int;
    lemma_first_index(s, '\n');
    lemma_first_index(line, '\n');
    assert(s[n] == '\n');
    assert forall|i: int| 0 <= i < n implies #[trigger] s[i] != '\n' by {
        assert(line[i] == s[i]);
    }
    assert(first_index(s, '\n') == n);
    assert(s.take(n) =~= line);
    assert(s.skip(n + 1) =~= rest);
    if first_index(line, '\n') < n {
        assert(line[first_index(line, '\n') as int] == '\n');
    }
}

/// The number that the decimal digits of `text` stand for.
pub open spec fn number_of(text: Seq<char>) -> int
    decreases text.len(),
{
    if text.len() == 0 {
        0
    } else {
        10 * number_of(text.drop_last()) + (text.last() as int - '0' as int)
    }
}

/// A number in decimal is made of digits, does not start with a zero unless it is
/// zero, and stands for the number.
pub proof fn law_decimals_stand_for_their_number(n: nat)
    ensures
        decimal(n).len() > 0,
        forall|i: int| 0 <= i < decimal(n).len() ==> '0' <= #[trigger] decimal(n)[i] <= '9',
        n > 0 ==> decimal(n)[0] != '0',
        n == 0 ==> decimal(n).len() == 1,
        number_of(decimal(n)) == n,
    decreases n,
{
    if n < 10 {
        reveal_with_fuel(number_of, 2);
        assert(seq![digit(n)].drop_last().len() == 0);
    } else {
        law_decimals_stand_for_their_number(n / 10);
        let head = decimal(n / 10);
        assert(decimal(n).drop_last() =~= head);
        assert(decimal(n).last() == digit(n % 10));
    }
}

/// A number with its sign: a minus sign, and only for a negative number, before
/// the decimal digits of its magnitude.
pub proof fn law_signs_stand_before_the_magnitude(n: int)
    ensures
        n >= 0 ==> number_of(signed_decimal(n)) == n && '0' <= signed_decimal(n)[0] <= '9',
        n < 0 ==> signed_decimal(n).len() > 1 && signed_decimal(n)[0] == '-' && number_of(
            signed_decimal(n).drop_first(),
        ) == -n,
{
    if n >= 0 {
        law_decimals_stand_for_their_number(n as nat);
    } else {
        law_decimals_stand_for_their_number((-n) as nat);
        assert(signed_decimal(n).drop_first() =~= decimal((-n) as nat));
    }
}

/// Texts are ordered by the first character in which they differ, and a text
/// comes before those that go on behind it.
pub proof fn law_texts_are_ordered_by_their_first_difference(
    common: Seq<char>,
    a: Seq<char>,
    b: Seq<char>,
)
    ensures
        a.len() == 0 ==> text_le(common + a, common + b),
        a.len() > 0 && b.len() == 0 ==> !text_le(common + a, common + b),
        a.len() > 0 && b.len() > 0 && a[0] != b[0] ==> (text_le(common + a, common + b) <==> a[0]
            < b[0]),
    decreases common.len(),
{
    if common.len() == 0 {
        assert(common + a =~= a);
        assert(common + b =~= b);
    } else {
        let rest = common.drop_first();
        assert((common + a).drop_first() =~= rest + a);
        assert((common + b).drop_first() =~= rest + b);
        law_texts_are_ordered_by_their_first_difference(rest, a, b);
    }
}

} // verus!
