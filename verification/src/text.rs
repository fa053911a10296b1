//! Text as sequences of characters: the operations the rest of the library builds on.

use vstd::prelude::*;

verus! {

/// `String::push` of std: appends one character to the end of the string.
pub assume_specification[ String::push ](s: &mut String, c: char)
    ensures
        final(s)@ == old(s)@.push(c),
;

/// `p` stands in `s` at position `i`.
pub open spec fn stands_at(s: Seq<char>, p: Seq<char>, i: int) -> bool {
    0 <= i && i + p.len() <= s.len() && s.subrange(i, i + p.len()) == p
}

/// `p` stands somewhere in `s`.
pub open spec fn occurs(s: Seq<char>, p: Seq<char>) -> bool {
    exists|i: int| stands_at(s, p, i)
}

/// `s` begins with `p`.
pub open spec fn begins(s: Seq<char>, p: Seq<char>) -> bool {
    stands_at(s, p, 0)
}

/// `s` ends with `p`.
pub open spec fn ends(s: Seq<char>, p: Seq<char>) -> bool {
    stands_at(s, p, s.len() - p.len())
}

/// The characters of a string, one by one.
pub fn chars_of(s: &str) -> (r: Vec<char>)
    ensures
        r@ == s@,
{
    let mut r: Vec<char> = Vec::new();
    for c in it: s.chars()
        invariant
            it.seq() == s@,
            r@ == s@.take(it.index()),
    {
        r.push(c);
        assert(s@.take(it.index() + 1) =~= s@.take(it.index()).push(c));
    }
    assert(s@.take(s@.len() as int) =~= s@);
    r
}

/// The characters `from..to` as a string.
pub fn string_of(chars: &Vec<char>, from: usize, to: usize) -> (r: String)
    requires
        from <= to <= chars@.len(),
    ensures
        r@ == chars@.subrange(from as int, to as int),
{
    let mut r: String = String::new();
    let mut i: usize = from;
    assert(chars@.subrange(from as int, from as int) =~= Seq::<char>::empty());
    while i < to
        invariant
            from <= i <= to <= chars@.len(),
            r@ == chars@.subrange(from as int, i as int),
        decreases to - i,
    {
        r.push(chars[i]);
        assert(chars@.subrange(from as int, i + 1) =~= chars@.subrange(from as int, i as int).push(
            chars@[i as int],
        ));
        i = i + 1;
    }
    r
}

/// Whether `p` stands in `s` at position `i`.
pub fn chars_stand_at(s: &Vec<char>, p: &Vec<char>, i: usize) -> (r: bool)
    ensures
        r == stands_at(s@, p@, i as int),
{
    if i > s.len() || p.len() > s.len() - i {
        return false;
    }
    let mut k: usize = 0;
    while k < p.len()
        invariant
            k <= p@.len(),
            i + p@.len() <= s@.len() <= usize::MAX,
            forall|j: int| 0 <= j < k ==> s@[i + j] == p@[j],
        decreases p@.len() - k,
    {
        if s[i + k] != p[k] {
            assert(s@.subrange(i as int, i + p@.len())[k as int] != p@[k as int]);
            return false;
        }
        k = k + 1;
    }
    assert(s@.subrange(i as int, i + p@.len()) =~= p@);
    true
}

/// Whether two texts are the same.
pub fn same_text(a: &str, b: &str) -> (r: bool)
    ensures
        r == (a@ == b@),
{
    let x = chars_of(a);
    let y = chars_of(b);
    let r = x.len() == y.len() && chars_stand_at(&x, &y, 0);
    assert(a@.len() == b@.len() ==> a@.subrange(0, b@.len() as int) =~= a@);
    r
}

/// Whether `s` begins with `p`.
pub fn begins_with(s: &str, p: &str) -> (r: bool)
    ensures
        r == begins(s@, p@),
{
    chars_stand_at(&chars_of(s), &chars_of(p), 0)
}

/// Whether `s` ends with `p`.
pub fn ends_with(s: &str, p: &str) -> (r: bool)
    ensures
        r == ends(s@, p@),
{
    let x = chars_of(s);
    let y = chars_of(p);
    x.len() >= y.len() && chars_stand_at(&x, &y, x.len() - y.len())
}

/// Whether `p` stands somewhere in `s`.
pub fn contains_text(s: &str, p: &str) -> (r: bool)
    ensures
        r == occurs(s@, p@),
{
    let x = chars_of(s);
    let y = chars_of(p);
    let mut i: usize = 0;
    while i <= x.len()
        invariant
            i <= x@.len() + 1,
            x@.len() == x.len(),
            x@ == s@,
            y@ == p@,
            forall|j: int| 0 <= j < i ==> !stands_at(s@, p@, j),
        decreases x@.len() + 1 - i,
    {
        if chars_stand_at(&x, &y, i) {
            return true;
        }
        if i == x.len() {
            return false;
        }
        i = i + 1;
    }
    false
}

/// The characters with Unicode's `White_Space` property.
pub open spec fn is_space(c: char) -> bool {
    ||| '\u{9}' <= c <= '\u{d}'
    ||| c == ' '
    ||| c == '\u{85}'
    ||| c == '\u{a0}'
    ||| c == '\u{1680}'
    ||| '\u{2000}' <= c <= '\u{200a}'
    ||| c == '\u{2028}'
    ||| c == '\u{2029}'
    ||| c == '\u{202f}'
    ||| c == '\u{205f}'
    ||| c == '\u{3000}'
}

/// Whether a character is white space.
pub fn is_white_space(c: char) -> (r: bool)
    ensures
        r == is_space(c),
{
    ('\u{9}' <= c && c <= '\u{d}') || c == ' ' || c == '\u{85}' || c == '\u{a0}' || c == '\u{1680}'
        || ('\u{2000}' <= c && c <= '\u{200a}') || c == '\u{2028}' || c == '\u{2029}' || c
        == '\u{202f}' || c == '\u{205f}' || c == '\u{3000}'
}

/// `s` without the white space at its end.
pub open spec fn end_trimmed(s: Seq<char>) -> Seq<char>
    decreases s.len(),
{
    if s.len() > 0 && is_space(s.last()) {
        end_trimmed(s.drop_last())
    } else {
        s
    }
}

/// `s` without the white space at its start.
pub open spec fn start_trimmed(s: Seq<char>) -> Seq<char>
    decreases s.len(),
{
    if s.len() > 0 && is_space(s[0]) {
        start_trimmed(s.skip(1))
    } else {
        s
    }
}

/// `s` without the white space at either end.
pub open spec fn trimmed(s: Seq<char>) -> Seq<char> {
    start_trimmed(end_trimmed(s))
}

/// `s` without the line breaks at its end.
pub open spec fn breaks_trimmed(s: Seq<char>) -> Seq<char>
    decreases s.len(),
{
    if s.len() > 0 && s.last() == '\n' {
        breaks_trimmed(s.drop_last())
    } else {
        s
    }
}

/// The lines of `s`: what stands between its line breaks. There is always at least one.
pub open spec fn lines_of(s: Seq<char>) -> Seq<Seq<char>>
    decreases s.len(),
{
    if s.len() == 0 {
        seq![Seq::<char>::empty()]
    } else {
        let before = lines_of(s.drop_last());
        if s.last() == '\n' {
            before.push(Seq::empty())
        } else {
            before.drop_last().push(before.last().push(s.last()))
        }
    }
}

/// `s` with every occurrence of `from` replaced by `to`, from left to right, none of them
/// overlapping.
pub open spec fn replaced(s: Seq<char>, from: Seq<char>, to: Seq<char>) -> Seq<char>
    decreases s.len(),
{
    if from.len() == 0 || s.len() == 0 {
        s
    } else if begins(s, from) {
        to + replaced(s.skip(from.len() as int), from, to)
    } else {
        seq![s[0]] + replaced(s.skip(1), from, to)
    }
}

/// The decimal digit for `d`.
pub open spec fn digit(d: nat) -> char
    recommends
        d < 10,
{
    ('0' as nat + d) as char
}

/// `n` written in decimal, without leading zeros.
pub open spec fn decimal(n: nat) -> Seq<char>
    decreases n,
{
    if n < 10 {
        seq![digit(n)]
    } else {
        decimal(n / 10).push(digit(n % 10))
    }
}

/// The texts that a list of strings holds.
pub open spec fn texts(v: Seq<String>) -> Seq<Seq<char>> {
    v.map_values(|s: String| s@)
}

/// An optional string's text.
pub open spec fn text_of(s: Option<String>) -> Option<Seq<char>> {
    match s {
        Some(s) => Some(s@),
        None => None,
    }
}

/// `s` without the white space at its end.
pub fn trim_end(s: &str) -> (r: String)
    ensures
        r@ == end_trimmed(s@),
{
    let chars = chars_of(s);
    let mut n: usize = chars.len();
    assert(s@.take(n as int) =~= s@);
    while n > 0 && is_white_space(chars[n - 1])
        invariant
            n <= chars@.len(),
            chars@ == s@,
            end_trimmed(s@.take(n as int)) == end_trimmed(s@),
        decreases n,
    {
        assert(s@.take(n as int).drop_last() =~= s@.take(n - 1));
        n = n - 1;
    }
    string_of(&chars, 0, n)
}

/// `s` without the white space at either end.
pub fn trim(s: &str) -> (r: String)
    ensures
        r@ == trimmed(s@),
{
    let kept = trim_end(s);
    let chars = chars_of(kept.as_str());
    let mut k: usize = 0;
    assert(kept@.skip(0) =~= kept@);
    while k < chars.len() && is_white_space(chars[k])
        invariant
            k <= chars@.len(),
            chars@ == kept@,
            start_trimmed(kept@.skip(k as int)) == start_trimmed(kept@),
        decreases chars@.len() - k,
    {
        assert(kept@.skip(k as int).skip(1) =~= kept@.skip(k + 1));
        k = k + 1;
    }
    assert(kept@.skip(k as int) =~= kept@.subrange(k as int, kept@.len() as int));
    string_of(&chars, k, chars.len())
}

/// `s` without the line breaks at its end.
pub fn trim_breaks(s: &str) -> (r: String)
    ensures
        r@ == breaks_trimmed(s@),
{
    let chars = chars_of(s);
    let mut n: usize = chars.len();
    assert(s@.take(n as int) =~= s@);
    while n > 0 && chars[n - 1] == '\n'
        invariant
            n <= chars@.len(),
            chars@ == s@,
            breaks_trimmed(s@.take(n as int)) == breaks_trimmed(s@),
        decreases n,
    {
        assert(s@.take(n as int).drop_last() =~= s@.take(n - 1));
        n = n - 1;
    }
    string_of(&chars, 0, n)
}

/// The lines of `s`.
pub fn split_lines(s: &str) -> (r: Vec<String>)
    ensures
        texts(r@) == lines_of(s@),
{
    let chars = chars_of(s);
    let mut r: Vec<String> = Vec::new();
    let mut line: String = String::new();
    let mut i: usize = 0;
    assert(texts(r@).push(line@) =~= seq![Seq::<char>::empty()]);
    while i < chars.len()
        invariant
            i <= chars@.len(),
            chars@ == s@,
            texts(r@).push(line@) == lines_of(s@.take(i as int)),
        decreases chars@.len() - i,
    {
        let ghost before = texts(r@).push(line@);
        let c = chars[i];
        assert(s@.take(i + 1).drop_last() =~= s@.take(i as int));
        assert(before.drop_last() =~= texts(r@));
        if c == '\n' {
            r.push(line);
            assert(texts(r@) =~= before);
            line = String::new();
        } else {
            line.push(c);
        }
        i = i + 1;
    }
    assert(s@.take(s@.len() as int) =~= s@);
    let ghost done = texts(r@);
    r.push(line);
    assert(texts(r@) =~= done.push(line@));
    r
}

/// `s` with every occurrence of `from` replaced by `to`.
pub fn replace_text(s: &str, from: &str, to: &str) -> (r: String)
    requires
        from@.len() > 0,
    ensures
        r@ == replaced(s@, from@, to@),
{
    let chars = chars_of(s);
    let pattern = chars_of(from);
    let mut r: String = String::new();
    let mut i: usize = 0;
    assert(s@.skip(0) =~= s@);
    while i < chars.len()
        invariant
            i <= chars@.len(),
            chars@ == s@,
            pattern@ == from@,
            from@.len() > 0,
            replaced(s@, from@, to@) == r@ + replaced(s@.skip(i as int), from@, to@),
        decreases chars@.len() - i,
    {
        let ghost rest = s@.skip(i as int);
        let ghost done = r@;
        if chars_stand_at(&chars, &pattern, i) {
            assert(rest.subrange(0, from@.len() as int) =~= s@.subrange(
                i as int,
                i + from@.len(),
            ));
            assert(rest.skip(from@.len() as int) =~= s@.skip(i + from@.len()));
            r.append(to);
            i = i + pattern.len();
            assert(done + (to@ + replaced(s@.skip(i as int), from@, to@)) =~= r@ + replaced(
                s@.skip(i as int),
                from@,
                to@,
            ));
        } else {
            assert(begins(rest, from@) ==> rest.subrange(0, from@.len() as int) =~= s@.subrange(
                i as int,
                i + from@.len(),
            ));
            assert(rest.skip(1) =~= s@.skip(i + 1));
            r.push(chars[i]);
            i = i + 1;
            assert(done + (seq![rest[0]] + replaced(s@.skip(i as int), from@, to@)) =~= r@
                + replaced(s@.skip(i as int), from@, to@));
        }
    }
    assert(s@.skip(s@.len() as int) =~= Seq::<char>::empty());
    assert(r@ + Seq::<char>::empty() =~= r@);
    r
}

/// The decimal digit for `d`.
pub fn digit_char(d: u64) -> (c: char)
    requires
        d < 10,
    ensures
        c == digit(d as nat),
{
    match d {
        0 => '0',
        1 => '1',
        2 => '2',
        3 => '3',
        4 => '4',
        5 => '5',
        6 => '6',
        7 => '7',
        8 => '8',
        _ => '9',
    }
}

/// `n` written in decimal.
pub fn decimal_text(n: u64) -> (r: String)
    ensures
        r@ == decimal(n as nat),
    decreases n,
{
    if n < 10 {
        let mut r: String = String::new();
        r.push(digit_char(n));
        assert(r@ =~= decimal(n as nat));
        r
    } else {
        let mut r: String = decimal_text(n / 10);
        r.push(digit_char(n % 10));
        r
    }
}

/// `a` followed by `b`.
pub fn joined(a: &str, b: &str) -> (r: String)
    ensures
        r@ == a@ + b@,
{
    let mut r: String = a.to_owned();
    r.append(b);
    r
}

/// The lines, each followed by a line break.
pub open spec fn with_breaks(lines: Seq<Seq<char>>) -> Seq<char>
    decreases lines.len(),
{
    if lines.len() == 0 {
        Seq::empty()
    } else {
        with_breaks(lines.drop_last()) + lines.last().push('\n')
    }
}

/// How many line breaks a text holds.
pub open spec fn break_count(s: Seq<char>) -> nat
    decreases s.len(),
{
    if s.len() == 0 {
        0
    } else if s.last() == '\n' {
        break_count(s.drop_last()) + 1
    } else {
        break_count(s.drop_last())
    }
}

/// The lines of a text, each followed by a line break, are the text followed by one.
pub proof fn law_lines_make_up_text(s: Seq<char>)
    ensures
        lines_of(s).len() > 0,
        with_breaks(lines_of(s)) == s.push('\n'),
    decreases s.len(),
{
    let lines = lines_of(s);
    if s.len() == 0 {
        assert(lines.drop_last() =~= Seq::empty());
        assert(with_breaks(Seq::empty()) =~= Seq::<char>::empty());
        assert(with_breaks(lines) =~= s.push('\n'));
    } else {
        let rest = s.drop_last();
        let before = lines_of(rest);
        law_lines_make_up_text(rest);
        assert(with_breaks(before) == with_breaks(before.drop_last()) + before.last().push('\n'));
        if s.last() == '\n' {
            assert(lines.drop_last() =~= before);
            assert(with_breaks(lines) =~= s.push('\n'));
        } else {
            let last = before.last().push(s.last());
            assert(lines.drop_last() =~= before.drop_last());
            assert(lines.last() == last);
            let head = with_breaks(before.drop_last());
            assert(rest =~= (head + before.last().push('\n')).drop_last());
            assert(head + last.push('\n') =~= s.push('\n')) by {
                assert(s =~= rest.push(s.last()));
                assert(rest =~= head + before.last());
            }
        }
    }
}

/// No line of a text holds a line break.
pub proof fn law_lines_hold_no_break(s: Seq<char>)
    ensures
        lines_of(s).len() > 0,
        forall|i: int| 0 <= i < lines_of(s).len() ==> !(#[trigger] lines_of(s)[i]).contains('\n'),
    decreases s.len(),
{
    if s.len() > 0 {
        let before = lines_of(s.drop_last());
        law_lines_hold_no_break(s.drop_last());
        assert forall|i: int| 0 <= i < lines_of(s).len() implies !(#[trigger] lines_of(
            s,
        )[i]).contains('\n') by {
            let line = lines_of(s)[i];
            if line.contains('\n') {
                let k = choose|k: int| 0 <= k < line.len() && line[k] == '\n';
                if s.last() != '\n' && i == before.len() - 1 {
                    assert(before.last() == before[before.len() - 1]);
                    if k < before.last().len() {
                        assert(before.last()[k] == '\n');
                        assert(before.last().contains('\n'));
                    }
                } else if i < before.len() {
                    assert(line == before[i]);
                }
            }
        }
    }
}

/// A text of lines has as many line breaks as lines, where no line holds one of its own.
pub proof fn law_breaks_count_lines(lines: Seq<Seq<char>>)
    requires
        forall|i: int| 0 <= i < lines.len() ==> !(#[trigger] lines[i]).contains('\n'),
    ensures
        break_count(with_breaks(lines)) == lines.len(),
    decreases lines.len(),
{
    if lines.len() > 0 {
        let rest = lines.drop_last();
        assert forall|i: int| 0 <= i < rest.len() implies !(#[trigger] rest[i]).contains('\n') by {
            assert(rest[i] == lines[i]);
        }
        law_breaks_count_lines(rest);
        let line = lines[lines.len() - 1];
        assert(line == lines.last());
        lemma_break_count_of_line(with_breaks(rest), line);
        let all = with_breaks(lines);
        assert(all.drop_last() =~= with_breaks(rest) + line);
    }
}

proof fn lemma_break_count_of_line(s: Seq<char>, line: Seq<char>)
    requires
        !line.contains('\n'),
    ensures
        break_count(s + line) == break_count(s),
    decreases line.len(),
{
    if line.len() == 0 {
        assert(s + line =~= s);
    } else {
        let rest = line.drop_last();
        assert(!rest.contains('\n')) by {
            if rest.contains('\n') {
                let k = choose|k: int| 0 <= k < rest.len() && rest[k] == '\n';
                assert(line[k] == '\n');
            }
        }
        lemma_break_count_of_line(s, rest);
        assert((s + line).drop_last() =~= s + rest);
        assert((s + line).last() == line.last());
        assert(line.contains(line.last()));
    }
}

/// A text begins with another where it has that one's characters, in their places.
pub proof fn law_begins_by_characters(s: Seq<char>, p: Seq<char>)
    ensures
        begins(s, p) <==> p.len() <= s.len() && (forall|i: int|
            0 <= i < p.len() ==> s[i] == #[trigger] p[i]),
{
    if begins(s, p) {
        assert forall|i: int| 0 <= i < p.len() implies s[i] == #[trigger] p[i] by {
            assert(s.subrange(0, p.len() as int)[i] == s[i]);
        }
    } else if p.len() <= s.len() && (forall|i: int| 0 <= i < p.len() ==> s[i] == #[trigger] p[i]) {
        assert(s.subrange(0, p.len() as int) =~= p);
    }
}

/// A text ends with another where something followed by that one is the text.
pub proof fn law_ends_by_characters(s: Seq<char>, p: Seq<char>)
    ensures
        ends(s, p) <==> p.len() <= s.len() && (forall|i: int|
            0 <= i < p.len() ==> s[s.len() - p.len() + i] == #[trigger] p[i]),
{
    let k = s.len() - p.len();
    if ends(s, p) {
        assert forall|i: int| 0 <= i < p.len() implies s[k + i] == #[trigger] p[i] by {
            assert(s.subrange(k, k + p.len())[i] == s[k + i]);
        }
    } else if p.len() <= s.len() && (forall|i: int|
        0 <= i < p.len() ==> s[k + i] == #[trigger] p[i]) {
        assert(s.subrange(k, k + p.len()) =~= p);
    }
}

/// A text occurs wherever it stands between others.
pub proof fn law_occurs_between(a: Seq<char>, p: Seq<char>, b: Seq<char>)
    ensures
        occurs(a + p + b, p),
{
    let s = a + p + b;
    assert(s.subrange(a.len() as int, (a.len() + p.len()) as int) =~= p);
    assert(stands_at(s, p, a.len() as int));
}

/// A text that occurs in another has something before it and something behind it there.
pub proof fn law_occurs_only_between(s: Seq<char>, p: Seq<char>)
    requires
        occurs(s, p),
    ensures
        exists|a: Seq<char>, b: Seq<char>| s == #[trigger] (a + p + b),
{
    let i = choose|i: int| stands_at(s, p, i);
    let a = s.take(i);
    let b = s.skip(i + p.len());
    assert forall|k: int| 0 <= k < p.len() implies s[i + k] == p[k] by {
        assert(s.subrange(i, i + p.len())[k] == p[k]);
    }
    assert(s =~= a + p + b);
}

/// What is left without the white space at a text's end is how the text begins, up to its last
/// character that is no white space.
pub proof fn law_end_trimmed_loses_space(s: Seq<char>)
    ensures
        end_trimmed(s).len() <= s.len(),
        end_trimmed(s) == s.take(end_trimmed(s).len() as int),
        forall|i: int| end_trimmed(s).len() <= i < s.len() ==> is_space(#[trigger] s[i]),
        end_trimmed(s).len() > 0 ==> !is_space(end_trimmed(s).last()),
    decreases s.len(),
{
    if s.len() > 0 && is_space(s.last()) {
        let rest = s.drop_last();
        law_end_trimmed_loses_space(rest);
        assert(end_trimmed(s) =~= s.take(end_trimmed(s).len() as int));
        assert forall|i: int| end_trimmed(s).len() <= i < s.len() implies is_space(
            #[trigger] s[i],
        ) by {
            if i < rest.len() {
                assert(rest[i] == s[i]);
            }
        }
    } else {
        assert(s.take(s.len() as int) =~= s);
    }
}

proof fn lemma_start_trimmed_loses_space(s: Seq<char>)
    ensures
        start_trimmed(s).len() <= s.len(),
        start_trimmed(s) == s.skip(s.len() - start_trimmed(s).len()),
        forall|i: int| 0 <= i < s.len() - start_trimmed(s).len() ==> is_space(#[trigger] s[i]),
        start_trimmed(s).len() > 0 ==> !is_space(start_trimmed(s)[0]),
    decreases s.len(),
{
    if s.len() > 0 && is_space(s[0]) {
        let rest = s.skip(1);
        lemma_start_trimmed_loses_space(rest);
        assert(start_trimmed(s) =~= s.skip(s.len() - start_trimmed(s).len()));
        assert forall|i: int| 0 <= i < s.len() - start_trimmed(s).len() implies is_space(
            #[trigger] s[i],
        ) by {
            if i > 0 {
                assert(rest[i - 1] == s[i]);
            }
        }
    } else {
        assert(s.skip(0) =~= s);
    }
}

/// Trimming takes off the white space around a text, and nothing of the text.
pub proof fn law_trimming_finds_core(a: Seq<char>, core: Seq<char>, b: Seq<char>)
    requires
        forall|i: int| 0 <= i < a.len() ==> is_space(#[trigger] a[i]),
        forall|i: int| 0 <= i < b.len() ==> is_space(#[trigger] b[i]),
        core.len() > 0 ==> !is_space(core[0]) && !is_space(core.last()),
    ensures
        trimmed(a + core + b) == core,
{
    let s = a + core + b;
    let n = a.len() as int;
    let m = (a.len() + core.len()) as int;
    let kept = end_trimmed(s);
    law_end_trimmed_loses_space(s);
    lemma_start_trimmed_loses_space(kept);
    let r = start_trimmed(kept);
    assert forall|i: int| 0 <= i < n implies is_space(#[trigger] s[i]) by {
        assert(s[i] == a[i]);
    }
    assert forall|i: int| m <= i < s.len() implies is_space(#[trigger] s[i]) by {
        assert(s[i] == b[i - m]);
    }
    if core.len() > 0 {
        assert(s[n] == core[0]);
        assert(s[m - 1] == core.last());
        if kept.len() > m {
            assert(kept.last() == s[kept.len() - 1]);
        } else if kept.len() < m {
            assert(is_space(s[m - 1]));
        }
        let k = kept.len() - r.len();
        if k > n {
            assert(is_space(kept[n]));
        } else if k < n {
            assert(r[0] == kept[k]);
        }
        assert(r =~= core);
    } else {
        if kept.len() > 0 {
            assert(kept.last() == s[kept.len() - 1]);
        }
        assert(r =~= core);
    }
}

/// Only the line breaks at a text's end are taken off it, and all of them.
pub proof fn law_breaks_are_taken_off_end(core: Seq<char>, n: nat)
    requires
        core.len() > 0 ==> core.last() != '\n',
    ensures
        breaks_trimmed(core + Seq::new(n, |i: int| '\n')) == core,
    decreases n,
{
    let s = core + Seq::new(n, |i: int| '\n');
    if n == 0 {
        assert(s =~= core);
    } else {
        law_breaks_are_taken_off_end(core, (n - 1) as nat);
        assert(s.drop_last() =~= core + Seq::new((n - 1) as nat, |i: int| '\n'));
    }
}

/// The first occurrence is replaced, what stands before it stays, and behind it the replacing
/// goes on.
pub proof fn law_first_occurrence_is_replaced(
    a: Seq<char>,
    from: Seq<char>,
    b: Seq<char>,
    to: Seq<char>,
)
    requires
        from.len() > 0,
        forall|i: int| 0 <= i < a.len() ==> !#[trigger] stands_at(a + from + b, from, i),
    ensures
        replaced(a + from + b, from, to) == a + to + replaced(b, from, to),
    decreases a.len(),
{
    let s = a + from + b;
    if a.len() == 0 {
        assert(s.subrange(0, from.len() as int) =~= from);
        assert(s.skip(from.len() as int) =~= b);
        assert(to + replaced(b, from, to) =~= a + to + replaced(b, from, to));
    } else {
        assert(!stands_at(s, from, 0));
        let rest = a.skip(1);
        assert(s.skip(1) =~= rest + from + b);
        assert forall|i: int| 0 <= i < rest.len() implies !#[trigger] stands_at(
            rest + from + b,
            from,
            i,
        ) by {
            assert(!stands_at(s, from, i + 1));
            if stands_at(rest + from + b, from, i) {
                assert(s.subrange(i + 1, i + 1 + from.len()) =~= (rest + from + b).subrange(
                    i,
                    i + from.len(),
                ));
            }
        }
        law_first_occurrence_is_replaced(rest, from, b, to);
        assert(seq![s[0]] + (rest + to + replaced(b, from, to)) =~= a + to + replaced(b, from, to));
    }
}

/// A text in which there is nothing to replace stays as it is.
pub proof fn law_nothing_is_replaced(s: Seq<char>, from: Seq<char>, to: Seq<char>)
    requires
        !occurs(s, from),
    ensures
        replaced(s, from, to) == s,
    decreases s.len(),
{
    if from.len() > 0 && s.len() > 0 {
        assert(!stands_at(s, from, 0));
        let rest = s.skip(1);
        if occurs(rest, from) {
            let k = choose|k: int| stands_at(rest, from, k);
            assert(s.subrange(k + 1, k + 1 + from.len()) =~= rest.subrange(k, k + from.len()));
            assert(stands_at(s, from, k + 1));
        }
        law_nothing_is_replaced(rest, from, to);
        assert(seq![s[0]] + rest =~= s);
    }
}

/// The number that decimal digits write.
pub open spec fn number_of(digits: Seq<char>) -> int
    decreases digits.len(),
{
    if digits.len() == 0 {
        0
    } else {
        number_of(digits.drop_last()) * 10 + (digits.last() as int - '0' as int)
    }
}

/// A decimal is of digits, writes its number, and has no zero before others.
pub proof fn law_decimal_writes_number(n: nat)
    ensures
        number_of(decimal(n)) == n,
        decimal(n).len() > 0,
        forall|i: int| 0 <= i < decimal(n).len() ==> '0' <= #[trigger] decimal(n)[i] <= '9',
        decimal(n)[0] == '0' ==> decimal(n).len() == 1,
    decreases n,
{
    if n >= 10 {
        law_decimal_writes_number(n / 10);
        assert(decimal(n).drop_last() =~= decimal(n / 10));
        assert(decimal(n)[0] == decimal(n / 10)[0]);
        if decimal(n / 10)[0] == '0' {
            assert(decimal(n / 10).drop_last() =~= Seq::empty());
            assert(number_of(Seq::empty()) == 0);
        }
    } else {
        assert(decimal(n).drop_last() =~= Seq::empty());
        assert(number_of(Seq::empty()) == 0);
    }
}

} // verus!
