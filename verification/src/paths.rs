//! Paths as text, in the style of the platform they belong to.

use crate::text::{chars_of, string_of, texts};
use vstd::prelude::*;

verus! {

/// How a platform writes paths.
#[derive(Debug, Clone, Copy, PartialEq, Eq, Structural)]
pub enum PathStyle {
    /// With `/` between the segments.
    Posix,
    /// With `\` or `/` between the segments, and with drives, shares and the like before them.
    Windows,
}

/// The character stands between segments.
pub open spec fn is_sep(style: PathStyle, c: char) -> bool {
    c == '/' || style == PathStyle::Windows && c == '\\'
}

/// The character that is written between segments.
pub open spec fn main_sep(style: PathStyle) -> char {
    match style {
        PathStyle::Posix => '/',
        PathStyle::Windows => '\\',
    }
}

/// The character stands between the segments of a path; of a verbatim one, `/` does not.
pub open spec fn separates(style: PathStyle, verbatim: bool, c: char) -> bool {
    is_sep(style, c) && !(verbatim && c == '/')
}

/// The path begins with `\\?\` and is to be taken word for word.
pub open spec fn is_verbatim(style: PathStyle, p: Seq<char>) -> bool {
    style == PathStyle::Windows && p.len() >= 4 && p[0] == '\\' && p[1] == '\\' && p[2] == '?'
        && p[3] == '\\'
}

/// A separator stands in the path at `i`.
pub open spec fn sep_at(style: PathStyle, p: Seq<char>, i: int) -> bool {
    0 <= i < p.len() && is_sep(style, p[i])
}

/// A drive's letter and a colon stand in the path at `i`.
pub open spec fn drive_at(p: Seq<char>, i: int) -> bool {
    0 <= i && i + 1 < p.len() && ('A' <= p[i] <= 'Z' || 'a' <= p[i] <= 'z') && p[i + 1] == ':'
}

/// Where the segment that begins at `from` ends.
pub open spec fn segment_end(style: PathStyle, verbatim: bool, p: Seq<char>, from: int) -> int
    decreases p.len() - from,
{
    if from >= p.len() {
        p.len() as int
    } else if separates(style, verbatim, p[from]) {
        from
    } else {
        segment_end(style, verbatim, p, from + 1)
    }
}

/// Where a share's name ends, behind that of its server, which ends at `server`. A share
/// without a name ends with its server.
pub open spec fn share_end(style: PathStyle, verbatim: bool, p: Seq<char>, server: int) -> int {
    let end = segment_end(style, verbatim, p, server + 1);
    if server < p.len() && end > server + 1 {
        end
    } else {
        server
    }
}

/// The path begins with a drive, as in `C:`.
pub open spec fn begins_with_drive(style: PathStyle, p: Seq<char>) -> bool {
    style == PathStyle::Windows && drive_at(p, 0)
}

/// How many characters name the drive, the share or the device that a path begins with.
#[verifier::opaque]
pub open spec fn prefix_len(style: PathStyle, p: Seq<char>) -> int {
    if is_verbatim(style, p) {
        if p.len() > 7 && p[4] == 'U' && p[5] == 'N' && p[6] == 'C' && sep_at(style, p, 7) {
            share_end(style, true, p, segment_end(style, true, p, 8))
        } else if drive_at(p, 4) && (p.len() == 6 || sep_at(style, p, 6)) {
            6
        } else {
            segment_end(style, true, p, 4)
        }
    } else if style == PathStyle::Windows && sep_at(style, p, 0) && sep_at(style, p, 1) {
        if p.len() > 2 && p[2] == '.' && sep_at(style, p, 3) {
            segment_end(style, false, p, 4)
        } else {
            let server = segment_end(style, false, p, 2);
            let share = share_end(style, false, p, server);
            if server > 2 && share > server {
                share
            } else {
                0
            }
        }
    } else if begins_with_drive(style, p) {
        2
    } else {
        0
    }
}

/// A separator marks the root, behind the prefix.
pub open spec fn has_root_sep(style: PathStyle, p: Seq<char>) -> bool {
    sep_at(style, p, prefix_len(style, p))
}

/// The path begins at a root. A share and a device have one, marked or not; a drive does not.
pub open spec fn has_root(style: PathStyle, p: Seq<char>) -> bool {
    has_root_sep(style, p) || prefix_len(style, p) > 0 && !begins_with_drive(style, p)
}

/// The path begins with the segment `.`.
pub open spec fn begins_here(style: PathStyle, p: Seq<char>) -> bool {
    let n = prefix_len(style, p);
    !has_root(style, p) && 0 <= n < p.len() && p[n] == '.' && (n + 1 == p.len() || sep_at(
        style,
        p,
        n + 1,
    ))
}

/// How many characters at the start of a path are no segment that could be taken off: the
/// prefix, and behind it the root's separator or a leading `.`.
pub open spec fn root_len(style: PathStyle, p: Seq<char>) -> int {
    if has_root_sep(style, p) || begins_here(style, p) {
        prefix_len(style, p) + 1
    } else {
        prefix_len(style, p)
    }
}

/// What a path's segments are told apart by, and where they begin.
pub struct Shape {
    pub style: PathStyle,
    pub verbatim: bool,
    pub root: int,
}

/// The shape of a path.
pub open spec fn shape_of(style: PathStyle, p: Seq<char>) -> Shape {
    Shape { style, verbatim: is_verbatim(style, p), root: root_len(style, p) }
}

/// Where the last segment of `p` begins, looking no further back than the root.
pub open spec fn last_segment(p: Seq<char>, shape: Shape) -> int
    decreases p.len(),
{
    if p.len() <= shape.root || p.len() == 0 {
        shape.root
    } else if separates(shape.style, shape.verbatim, p.last()) {
        p.len() as int
    } else {
        last_segment(p.drop_last(), shape)
    }
}

/// A segment that names nothing: an empty one, or `.`, unless it is to be taken word for word.
pub open spec fn names_nothing(segment: Seq<char>, verbatim: bool) -> bool {
    segment.len() == 0 || !verbatim && segment == seq!['.']
}

/// `p` without the segment that begins at `k`, nor the separator before it.
pub open spec fn before_segment(p: Seq<char>, root: int, k: int) -> Seq<char> {
    p.take(
        if k > root {
            k - 1
        } else {
            k
        },
    )
}

/// `p` without the segments at its end that name nothing.
pub open spec fn end_named(p: Seq<char>, shape: Shape) -> Seq<char>
    decreases p.len(),
{
    let k = last_segment(p, shape);
    if 0 <= shape.root < p.len() && names_nothing(p.skip(k), shape.verbatim) {
        proof {
            lemma_last_segment_bounds(p, shape);
        }
        end_named(before_segment(p, shape.root, k), shape)
    } else {
        p
    }
}

/// A segment that is a name, and not `.` or `..`.
pub open spec fn is_name(segment: Seq<char>) -> bool {
    segment != seq!['.'] && segment != seq!['.', '.']
}

/// The last segment of a path, if it is a name.
pub open spec fn name_of(style: PathStyle, p: Seq<char>) -> Option<Seq<char>> {
    let shape = shape_of(style, p);
    let q = end_named(p, shape);
    let name = q.skip(last_segment(q, shape));
    if q.len() > shape.root && is_name(name) {
        Some(name)
    } else {
        None
    }
}

/// The path without its last segment, if it has one.
pub open spec fn parent_of(style: PathStyle, p: Seq<char>) -> Option<Seq<char>> {
    let shape = shape_of(style, p);
    let q = end_named(p, shape);
    if q.len() > shape.root {
        Some(end_named(before_segment(q, shape.root, last_segment(q, shape)), shape))
    } else if begins_here(style, p) {
        Some(p.take(prefix_len(style, p)))
    } else {
        None
    }
}

/// What stands between the separators of `s`.
pub open spec fn pieces_of(style: PathStyle, verbatim: bool, s: Seq<char>) -> Seq<Seq<char>>
    decreases s.len(),
{
    if s.len() == 0 {
        seq![Seq::<char>::empty()]
    } else {
        let before = pieces_of(style, verbatim, s.drop_last());
        if separates(style, verbatim, s.last()) {
            before.push(Seq::empty())
        } else {
            before.drop_last().push(before.last().push(s.last()))
        }
    }
}

/// The pieces that are not empty.
pub open spec fn filled(pieces: Seq<Seq<char>>) -> Seq<Seq<char>>
    decreases pieces.len(),
{
    if pieces.len() == 0 {
        pieces
    } else if pieces.last().len() == 0 {
        filled(pieces.drop_last())
    } else {
        filled(pieces.drop_last()).push(pieces.last())
    }
}

/// Where one more segment leads from `at`: `.` nowhere else, `..` back over a name.
pub open spec fn stepped(at: Seq<Seq<char>>, segment: Seq<char>) -> Seq<Seq<char>> {
    if segment.len() == 0 || segment == seq!['.'] {
        at
    } else if segment == seq!['.', '.'] {
        if at.len() > 0 && is_name(at.last()) {
            at.drop_last()
        } else {
            at
        }
    } else {
        at.push(segment)
    }
}

/// Where segments lead from `at`.
pub open spec fn led(at: Seq<Seq<char>>, segments: Seq<Seq<char>>) -> Seq<Seq<char>>
    decreases segments.len(),
{
    if segments.len() == 0 {
        at
    } else {
        stepped(led(at, segments.drop_last()), segments.last())
    }
}

/// The segments, each with a separator before it.
pub open spec fn spelled(segments: Seq<Seq<char>>) -> Seq<char>
    decreases segments.len(),
{
    if segments.len() == 0 {
        Seq::empty()
    } else {
        spelled(segments.drop_last()) + seq!['\\'] + segments.last()
    }
}

/// The path `p`, taken from the verbatim path `base`, where `.` and `..` have no meaning: they
/// are followed beforehand.
pub open spec fn verbatim_from(base: Seq<char>, p: Seq<char>) -> Seq<char> {
    let style = PathStyle::Windows;
    let rooted = has_root_sep(style, p);
    let from = if rooted {
        Seq::empty()
    } else {
        filled(pieces_of(style, true, base.skip(root_len(style, base))))
    };
    let to = led(from, pieces_of(style, false, p));
    base.take(prefix_len(style, base)) + if to.len() > 0 {
        spelled(to)
    } else if rooted || has_root_sep(style, base) {
        seq!['\\']
    } else {
        Seq::empty()
    }
}

/// A separator is needed behind the path before anything can follow it.
pub open spec fn needs_sep(style: PathStyle, base: Seq<char>) -> bool {
    base.len() > 0 && !is_sep(style, base.last()) && !(begins_with_drive(style, base) && base.len()
        == 2)
}

/// The path `p`, taken from `base`.
pub open spec fn path_from(style: PathStyle, base: Seq<char>, p: Seq<char>) -> Seq<char> {
    if prefix_len(style, p) > 0 {
        p
    } else if is_verbatim(style, base) && p.len() > 0 {
        verbatim_from(base, p)
    } else if has_root_sep(style, p) {
        base.take(prefix_len(style, base)) + p
    } else if needs_sep(style, base) {
        base.push(main_sep(style)) + p
    } else {
        base + p
    }
}

proof fn lemma_segment_end_bounds(style: PathStyle, verbatim: bool, p: Seq<char>, from: int)
    requires
        from <= p.len(),
    ensures
        from <= segment_end(style, verbatim, p, from) <= p.len(),
    decreases p.len() - from,
{
    if from < p.len() && !separates(style, verbatim, p[from]) {
        lemma_segment_end_bounds(style, verbatim, p, from + 1);
    }
}

proof fn lemma_share_end_bounds(style: PathStyle, verbatim: bool, p: Seq<char>, server: int)
    requires
        server <= p.len(),
    ensures
        server <= share_end(style, verbatim, p, server) <= p.len(),
{
    if server < p.len() {
        lemma_segment_end_bounds(style, verbatim, p, server + 1);
    }
}

/// The prefix and the root lie inside the path.
proof fn lemma_root_bounds(style: PathStyle, p: Seq<char>)
    ensures
        0 <= prefix_len(style, p) <= root_len(style, p) <= p.len(),
        style == PathStyle::Posix ==> prefix_len(style, p) == 0,
{
    reveal(prefix_len);
    if is_verbatim(style, p) {
        lemma_segment_end_bounds(style, true, p, 4);
        if p.len() > 7 {
            lemma_segment_end_bounds(style, true, p, 8);
            lemma_share_end_bounds(style, true, p, segment_end(style, true, p, 8));
        }
    } else if p.len() >= 2 {
        lemma_segment_end_bounds(style, false, p, 2);
        lemma_share_end_bounds(style, false, p, segment_end(style, false, p, 2));
        if p.len() >= 4 {
            lemma_segment_end_bounds(style, false, p, 4);
        }
    }
}

/// The last segment begins inside the path, right after the root or a separator.
pub proof fn lemma_last_segment_bounds(p: Seq<char>, shape: Shape)
    ensures
        0 <= shape.root ==> shape.root <= last_segment(p, shape),
        0 <= shape.root <= p.len() ==> last_segment(p, shape) <= p.len(),
        last_segment(p, shape) > shape.root >= 0 ==> separates(
            shape.style,
            shape.verbatim,
            p[last_segment(p, shape) - 1],
        ),
    decreases p.len(),
{
    if p.len() > shape.root && p.len() > 0 && !separates(shape.style, shape.verbatim, p.last()) {
        lemma_last_segment_bounds(p.drop_last(), shape);
    }
}

fn is_separator(style: PathStyle, verbatim: bool, c: char) -> (r: bool)
    ensures
        r == separates(style, verbatim, c),
{
    if c == '/' {
        !verbatim
    } else {
        style == PathStyle::Windows && c == '\\'
    }
}

fn is_separator_at(style: PathStyle, chars: &Vec<char>, i: usize) -> (r: bool)
    ensures
        r == sep_at(style, chars@, i as int),
{
    i < chars.len() && is_separator(style, false, chars[i])
}

fn is_drive_at(chars: &Vec<char>, i: usize) -> (r: bool)
    ensures
        r == drive_at(chars@, i as int),
{
    if chars.len() < 2 || i > chars.len() - 2 {
        return false;
    }
    let c = chars[i];
    (('A' <= c && c <= 'Z') || ('a' <= c && c <= 'z')) && chars[i + 1] == ':'
}

fn find_segment_end(
    style: PathStyle,
    verbatim: bool,
    chars: &Vec<char>,
    from: usize,
) -> (end: usize)
    requires
        from <= chars@.len(),
    ensures
        end == segment_end(style, verbatim, chars@, from as int),
        from <= end <= chars@.len(),
{
    let mut end: usize = from;
    while end < chars.len() && !is_separator(style, verbatim, chars[end])
        invariant
            from <= end <= chars@.len(),
            segment_end(style, verbatim, chars@, end as int) == segment_end(
                style,
                verbatim,
                chars@,
                from as int,
            ),
        decreases chars@.len() - end,
    {
        end = end + 1;
    }
    end
}

fn find_share_end(
    style: PathStyle,
    verbatim: bool,
    chars: &Vec<char>,
    server: usize,
) -> (end: usize)
    requires
        server <= chars@.len(),
    ensures
        end == share_end(style, verbatim, chars@, server as int),
        server <= end <= chars@.len(),
{
    if server < chars.len() {
        let end = find_segment_end(style, verbatim, chars, server + 1);
        if end > server + 1 {
            return end;
        }
    }
    server
}

fn begins_verbatim(style: PathStyle, chars: &Vec<char>) -> (r: bool)
    ensures
        r == is_verbatim(style, chars@),
{
    style == PathStyle::Windows && chars.len() >= 4 && chars[0] == '\\' && chars[1] == '\\'
        && chars[2] == '?' && chars[3] == '\\'
}

fn find_prefix(style: PathStyle, chars: &Vec<char>) -> (n: usize)
    ensures
        n == prefix_len(style, chars@),
        n <= chars@.len(),
{
    proof {
        lemma_root_bounds(style, chars@);
        reveal(prefix_len);
    }
    if style == PathStyle::Posix {
        return 0;
    }
    if begins_verbatim(style, chars) {
        if chars.len() > 7 && chars[4] == 'U' && chars[5] == 'N' && chars[6] == 'C'
            && is_separator_at(style, chars, 7) {
            let server = find_segment_end(style, true, chars, 8);
            find_share_end(style, true, chars, server)
        } else if is_drive_at(chars, 4) && (chars.len() == 6 || is_separator_at(style, chars, 6)) {
            6
        } else {
            find_segment_end(style, true, chars, 4)
        }
    } else if is_separator_at(style, chars, 0) && is_separator_at(style, chars, 1) {
        if chars.len() > 2 && chars[2] == '.' && is_separator_at(style, chars, 3) {
            find_segment_end(style, false, chars, 4)
        } else {
            let server = find_segment_end(style, false, chars, 2);
            let share = find_share_end(style, false, chars, server);
            if server > 2 && share > server {
                share
            } else {
                0
            }
        }
    } else if is_drive_at(chars, 0) {
        2
    } else {
        0
    }
}

fn is_begun_here(style: PathStyle, chars: &Vec<char>) -> (r: bool)
    ensures
        r == begins_here(style, chars@),
{
    let n = find_prefix(style, chars);
    let drive = style == PathStyle::Windows && is_drive_at(chars, 0);
    let rooted = is_separator_at(style, chars, n) || (n > 0 && !drive);
    !rooted && n < chars.len() && chars[n] == '.' && (n + 1 == chars.len() || is_separator_at(
        style,
        chars,
        n + 1,
    ))
}

fn find_root(style: PathStyle, chars: &Vec<char>) -> (root: usize)
    ensures
        root == root_len(style, chars@),
        root <= chars@.len(),
{
    proof {
        lemma_root_bounds(style, chars@);
    }
    let n = find_prefix(style, chars);
    if is_separator_at(style, chars, n) || is_begun_here(style, chars) {
        assert(n < chars.len());
        n + 1
    } else {
        n
    }
}

/// Where the last of the first `len` characters' segments begins.
fn find_last_segment(
    style: PathStyle,
    verbatim: bool,
    chars: &Vec<char>,
    len: usize,
    root: usize,
) -> (k: usize)
    requires
        root <= len <= chars@.len(),
    ensures
        k == last_segment(
            chars@.take(len as int),
            (Shape { style, verbatim, root: root as int }),
        ),
        root <= k <= len,
{
    let ghost shape = Shape { style, verbatim, root: root as int };
    let mut k: usize = len;
    while k > root && !is_separator(style, verbatim, chars[k - 1])
        invariant
            root <= k <= len <= chars@.len(),
            shape == (Shape { style, verbatim, root: root as int }),
            last_segment(chars@.take(k as int), shape) == last_segment(
                chars@.take(len as int),
                shape,
            ),
        decreases k,
    {
        assert(chars@.take(k as int).drop_last() =~= chars@.take(k - 1));
        k = k - 1;
    }
    k
}

/// How many characters of a path are left without the segments at its end that name
/// nothing.
fn end_named_len(
    style: PathStyle,
    verbatim: bool,
    chars: &Vec<char>,
    len: usize,
    root: usize,
) -> (n: usize)
    requires
        len <= chars@.len(),
    ensures
        n <= len,
        chars@.take(n as int) == end_named(
            chars@.take(len as int),
            (Shape { style, verbatim, root: root as int }),
        ),
{
    let ghost shape = Shape { style, verbatim, root: root as int };
    let mut n: usize = len;
    while n > root
        invariant_except_break
            n <= len <= chars@.len(),
            shape == (Shape { style, verbatim, root: root as int }),
            end_named(chars@.take(n as int), shape) == end_named(chars@.take(len as int), shape),
        ensures
            n <= len,
            chars@.take(n as int) == end_named(chars@.take(len as int), shape),
        decreases n,
    {
        let k = find_last_segment(style, verbatim, chars, n, root);
        let ghost p = chars@.take(n as int);
        assert(p.skip(k as int) =~= chars@.subrange(k as int, n as int));
        if k == n || (!verbatim && k + 1 == n && chars[k] == '.') {
            assert(names_nothing(p.skip(k as int), verbatim)) by {
                if k < n {
                    assert(p.skip(k as int) =~= seq!['.']);
                }
            }
            let m: usize = if k > root {
                k - 1
            } else {
                k
            };
            assert(before_segment(p, root as int, k as int) =~= chars@.take(m as int));
            n = m;
        } else {
            assert(!names_nothing(p.skip(k as int), verbatim)) by {
                if p.skip(k as int) == seq!['.'] {
                    assert(p.skip(k as int).len() == 1);
                    assert(p.skip(k as int)[0] == '.');
                }
            }
            break;
        }
    }
    n
}

/// Whether the characters `from..to` are a name, and not `.` or `..`.
fn is_named(chars: &Vec<char>, from: usize, to: usize) -> (r: bool)
    requires
        from <= to <= chars@.len(),
    ensures
        r == is_name(chars@.subrange(from as int, to as int)),
{
    let ghost segment = chars@.subrange(from as int, to as int);
    if to - from == 1 && chars[from] == '.' {
        assert(segment =~= seq!['.']);
        false
    } else if to - from == 2 && chars[from] == '.' && chars[from + 1] == '.' {
        assert(segment =~= seq!['.', '.']);
        false
    } else {
        assert(is_name(segment)) by {
            if segment == seq!['.'] {
                assert(segment.len() == 1 && segment[0] == '.');
            }
            if segment == seq!['.', '.'] {
                assert(segment.len() == 2 && segment[0] == '.' && segment[1] == '.');
            }
        }
        true
    }
}

/// The last segment of a path, if it is a name.
pub fn file_name(style: PathStyle, path: &str) -> (r: Option<String>)
    ensures
        r matches Some(name) ==> name_of(style, path@) == Some(name@),
        r is None ==> name_of(style, path@) is None,
{
    let chars = chars_of(path);
    let verbatim = begins_verbatim(style, &chars);
    let root = find_root(style, &chars);
    let n = end_named_len(style, verbatim, &chars, chars.len(), root);
    assert(chars@.take(chars@.len() as int) =~= path@);
    if n <= root {
        return None;
    }
    let k = find_last_segment(style, verbatim, &chars, n, root);
    assert(chars@.take(n as int).skip(k as int) =~= chars@.subrange(k as int, n as int));
    if is_named(&chars, k, n) {
        Some(string_of(&chars, k, n))
    } else {
        None
    }
}

/// The path without its last segment, if it has one.
pub fn parent(style: PathStyle, path: &str) -> (r: Option<String>)
    ensures
        r matches Some(p) ==> parent_of(style, path@) == Some(p@),
        r is None ==> parent_of(style, path@) is None,
{
    let chars = chars_of(path);
    let verbatim = begins_verbatim(style, &chars);
    let root = find_root(style, &chars);
    let n = end_named_len(style, verbatim, &chars, chars.len(), root);
    assert(chars@.take(chars@.len() as int) =~= path@);
    if n <= root {
        if is_begun_here(style, &chars) {
            let prefix = find_prefix(style, &chars);
            assert(chars@.subrange(0, prefix as int) =~= chars@.take(prefix as int));
            return Some(string_of(&chars, 0, prefix));
        }
        return None;
    }
    let k = find_last_segment(style, verbatim, &chars, n, root);
    let m: usize = if k > root {
        k - 1
    } else {
        k
    };
    assert(before_segment(chars@.take(n as int), root as int, k as int) =~= chars@.take(m as int));
    let e = end_named_len(style, verbatim, &chars, m, root);
    assert(chars@.subrange(0, e as int) =~= chars@.take(e as int));
    Some(string_of(&chars, 0, e))
}

/// What stands between the separators of a path, from position `from` on.
fn split_path(style: PathStyle, verbatim: bool, chars: &Vec<char>, from: usize) -> (r: Vec<String>)
    requires
        from <= chars@.len(),
    ensures
        texts(r@) == pieces_of(style, verbatim, chars@.skip(from as int)),
{
    let ghost s = chars@.skip(from as int);
    let mut r: Vec<String> = Vec::new();
    let mut piece: String = String::new();
    let mut i: usize = from;
    assert(texts(r@).push(piece@) =~= seq![Seq::<char>::empty()]);
    assert(s.take(0) =~= Seq::<char>::empty());
    while i < chars.len()
        invariant
            from <= i <= chars@.len(),
            s == chars@.skip(from as int),
            texts(r@).push(piece@) == pieces_of(style, verbatim, s.take(i - from)),
        decreases chars@.len() - i,
    {
        let ghost before = texts(r@).push(piece@);
        let c = chars[i];
        assert(s.take(i + 1 - from).drop_last() =~= s.take(i - from));
        assert(s.take(i + 1 - from).last() == c);
        assert(before.drop_last() =~= texts(r@));
        if is_separator(style, verbatim, c) {
            r.push(piece);
            assert(texts(r@) =~= before);
            piece = String::new();
        } else {
            piece.push(c);
        }
        i = i + 1;
    }
    assert(s.take(s.len() as int) =~= s);
    let ghost done = texts(r@);
    r.push(piece);
    assert(texts(r@) =~= done.push(piece@));
    r
}

/// The pieces that are not empty.
fn keep_filled(pieces: Vec<String>) -> (r: Vec<String>)
    ensures
        texts(r@) == filled(texts(pieces@)),
{
    let mut r: Vec<String> = Vec::new();
    let mut i: usize = 0;
    assert(texts(pieces@).take(0) =~= Seq::empty());
    assert(texts(r@) =~= Seq::<Seq<char>>::empty());
    while i < pieces.len()
        invariant
            i <= pieces@.len(),
            texts(r@) == filled(texts(pieces@).take(i as int)),
        decreases pieces@.len() - i,
    {
        assert(texts(pieces@).take(i + 1).drop_last() =~= texts(pieces@).take(i as int));
        assert(texts(pieces@).take(i + 1).last() == pieces@[i as int]@);
        let ghost before = texts(r@);
        let piece = pieces[i].clone();
        proof {
            reveal_strlit("");
        }
        if !piece.as_str().is_empty() {
            r.push(piece);
            assert(texts(r@) =~= before.push(piece@));
        }
        i = i + 1;
    }
    assert(texts(pieces@).take(pieces@.len() as int) =~= texts(pieces@));
    r
}

/// Follows segments from where `at` is.
fn follow(at: Vec<String>, segments: &Vec<String>) -> (r: Vec<String>)
    ensures
        texts(r@) == led(texts(at@), texts(segments@)),
{
    let mut r = at;
    let mut i: usize = 0;
    assert(texts(segments@).take(0) =~= Seq::empty());
    while i < segments.len()
        invariant
            i <= segments@.len(),
            texts(r@) == led(texts(at@), texts(segments@).take(i as int)),
        decreases segments@.len() - i,
    {
        assert(texts(segments@).take(i + 1).drop_last() =~= texts(segments@).take(i as int));
        assert(texts(segments@).take(i + 1).last() == segments@[i as int]@);
        let ghost before = texts(r@);
        let chars = chars_of(segments[i].as_str());
        let ghost segment = segments@[i as int]@;
        assert(chars@.subrange(0, chars@.len() as int) =~= segment);
        if is_named(&chars, 0, chars.len()) {
            if chars.len() > 0 {
                r.push(segments[i].clone());
                assert(texts(r@) =~= before.push(segment));
            }
        } else if chars.len() == 2 {
            assert(segment == seq!['.', '.']) by {
                if segment == seq!['.'] {
                    assert(segment.len() == 1);
                }
            }
            assert(segment != seq!['.']) by {
                assert(seq!['.'].len() == 1);
            }
            if r.len() > 0 {
                let last = chars_of(r[r.len() - 1].as_str());
                assert(last@.subrange(0, last@.len() as int) =~= before.last());
                if is_named(&last, 0, last.len()) {
                    r.pop();
                    assert(texts(r@) =~= before.drop_last());
                }
            }
        } else {
            assert(segment == seq!['.']) by {
                if segment == seq!['.', '.'] {
                    assert(segment.len() == 2);
                }
            }
        }
        i = i + 1;
    }
    assert(texts(segments@).take(segments@.len() as int) =~= texts(segments@));
    r
}

/// The path `p`, taken from the verbatim path `base`.
fn join_verbatim(base: &Vec<char>, p: &Vec<char>) -> (r: String)
    requires
        prefix_len(PathStyle::Windows, p@) == 0,
    ensures
        r@ == verbatim_from(base@, p@),
{
    let style = PathStyle::Windows;
    let rooted = is_separator_at(style, p, 0);
    let root = find_root(style, base);
    let prefix = find_prefix(style, base);
    let mut from: Vec<String> = Vec::new();
    assert(texts(from@) =~= Seq::<Seq<char>>::empty());
    if !rooted {
        from = keep_filled(split_path(style, true, base, root));
    }
    assert(p@.skip(0) =~= p@);
    let to = follow(from, &split_path(style, false, p, 0));
    let mut r = string_of(base, 0, prefix);
    assert(base@.subrange(0, prefix as int) =~= base@.take(prefix as int));
    let ghost start = r@;
    if to.len() > 0 {
        let mut i: usize = 0;
        assert(texts(to@).take(0) =~= Seq::empty());
        assert(r@ =~= start + spelled(texts(to@).take(0)));
        while i < to.len()
            invariant
                i <= to@.len(),
                r@ == start + spelled(texts(to@).take(i as int)),
            decreases to@.len() - i,
        {
            assert(texts(to@).take(i + 1).drop_last() =~= texts(to@).take(i as int));
            let ghost before = spelled(texts(to@).take(i as int));
            r.push('\\');
            r.append(to[i].as_str());
            assert(r@ =~= start + (before + seq!['\\'] + to@[i as int]@));
            i = i + 1;
        }
        assert(texts(to@).take(to@.len() as int) =~= texts(to@));
    } else if rooted || is_separator_at(style, base, prefix) {
        r.push('\\');
        assert(r@ =~= start + seq!['\\']);
    } else {
        assert(r@ =~= start + Seq::<char>::empty());
    }
    r
}

/// The path `p`, taken from `base`.
pub fn join(style: PathStyle, base: &str, p: &str) -> (r: String)
    ensures
        r@ == path_from(style, base@, p@),
{
    let b = chars_of(base);
    let q = chars_of(p);
    proof {
        lemma_root_bounds(style, p@);
        lemma_root_bounds(style, base@);
    }
    if find_prefix(style, &q) > 0 {
        return p.to_owned();
    }
    if begins_verbatim(style, &b) && q.len() > 0 {
        return join_verbatim(&b, &q);
    }
    let mut r: String = if is_separator_at(style, &q, 0) {
        let prefix = find_prefix(style, &b);
        assert(b@.subrange(0, prefix as int) =~= b@.take(prefix as int));
        string_of(&b, 0, prefix)
    } else {
        let drive = style == PathStyle::Windows && b.len() == 2 && is_drive_at(&b, 0);
        let mut r: String = base.to_owned();
        if b.len() > 0 && !is_separator(style, false, b[b.len() - 1]) && !drive {
            r.push(
                match style {
                    PathStyle::Posix => '/',
                    PathStyle::Windows => '\\',
                },
            );
        }
        r
    };
    r.append(p);
    r
}

/// The path of `name` in the directory at the relative path `dir`. The directory that paths
/// are relative to is at the empty path.
pub open spec fn path_in(style: PathStyle, dir: Seq<char>, name: Seq<char>) -> Seq<char> {
    if dir.len() == 0 {
        name
    } else {
        dir.push(main_sep(style)) + name
    }
}

/// The path of `name` in the directory at the relative path `dir`.
pub fn relative_path(style: PathStyle, dir: &str, name: &str) -> (r: String)
    ensures
        r@ == path_in(style, dir@, name@),
{
    if dir.is_empty() {
        name.to_owned()
    } else {
        let mut r: String = dir.to_owned();
        r.push(
            match style {
                PathStyle::Posix => '/',
                PathStyle::Windows => '\\',
            },
        );
        r.append(name);
        r
    }
}

/// What a file or a directory can be called.
pub open spec fn is_file_name(style: PathStyle, name: Seq<char>) -> bool {
    &&& name.len() > 0
    &&& forall|i: int| 0 <= i < name.len() ==> !is_sep(style, #[trigger] name[i])
    &&& style == PathStyle::Windows ==> !name.contains(':')
}

/// A relative path that does not begin with a dot, and with nothing to take off its end
/// before its last segment.
pub open spec fn is_plain_dir(style: PathStyle, p: Seq<char>) -> bool {
    p.len() == 0 || {
        &&& !is_sep(style, p[0]) && p[0] != '.' && !is_sep(style, p.last())
        &&& !(p.len() > 1 && p.last() == '.' && is_sep(style, p[p.len() - 2]))
        &&& style == PathStyle::Windows ==> !p.contains(':')
    }
}

/// A file's path in a plain directory is plain.
pub proof fn lemma_child_is_plain(style: PathStyle, dir: Seq<char>, name: Seq<char>)
    requires
        is_plain_dir(style, dir),
        is_file_name(style, name),
        name[0] != '.',
    ensures
        is_plain_dir(style, path_in(style, dir, name)),
        path_in(style, dir, name).len() > 0,
{
    let p = path_in(style, dir, name);
    assert(p.last() == name.last());
    if name.len() >= 2 {
        assert(p[p.len() - 2] == name[name.len() - 2]);
    }
    if style == PathStyle::Windows && p.contains(':') {
        let k = choose|k: int| 0 <= k < p.len() && p[k] == ':';
        let n = p.len() - name.len();
        if k >= n {
            assert(name[k - n] == ':');
            assert(name.contains(':'));
        } else if k < dir.len() {
            assert(dir[k] == ':');
            assert(dir.contains(':'));
        }
    }
}

/// A plain path is relative.
proof fn lemma_plain_has_no_root(style: PathStyle, p: Seq<char>)
    requires
        is_plain_dir(style, p),
    ensures
        root_len(style, p) == 0,
        prefix_len(style, p) == 0,
        !is_verbatim(style, p),
        !begins_here(style, p),
        shape_of(style, p) == (Shape { style, verbatim: false, root: 0 }),
{
    reveal(prefix_len);
    if p.len() > 1 {
        assert(p.contains(p[1]));
    }
}

proof fn lemma_last_segment_of_child(style: PathStyle, dir: Seq<char>, name: Seq<char>, n: int)
    requires
        is_file_name(style, name),
        0 <= n <= name.len(),
    ensures
        last_segment(
            path_in(style, dir, name).take(path_in(style, dir, name).len() - name.len() + n),
            (Shape { style, verbatim: false, root: 0 }),
        ) == path_in(style, dir, name).len() - name.len(),
    decreases n,
{
    let p = path_in(style, dir, name);
    let q = p.take(p.len() - name.len() + n);
    if n == 0 {
        if dir.len() > 0 {
            assert(q.last() == main_sep(style));
        }
    } else {
        lemma_last_segment_of_child(style, dir, name, n - 1);
        assert(q.drop_last() =~= p.take(p.len() - name.len() + n - 1));
        assert(q.last() == name[n - 1]);
    }
}

/// A plain path has no nameless segments at its end.
proof fn lemma_plain_end_is_named(style: PathStyle, p: Seq<char>)
    requires
        is_plain_dir(style, p),
    ensures
        end_named(p, (Shape { style, verbatim: false, root: 0 })) == p,
{
    let shape = Shape { style, verbatim: false, root: 0 };
    if p.len() > 0 {
        let k = last_segment(p, shape);
        lemma_last_segment_bounds(p, shape);
        let segment = p.skip(k);
        if segment == seq!['.'] {
            assert(segment.len() == 1);
            assert(p[k] == segment[0]);
        }
    }
}

/// Of a file's path in a plain directory, the last segment is the file's name, and what is
/// left without it is the directory.
pub proof fn law_child_path(style: PathStyle, dir: Seq<char>, name: Seq<char>)
    requires
        is_plain_dir(style, dir),
        is_file_name(style, name),
        name[0] != '.',
    ensures
        name_of(style, path_in(style, dir, name)) == Some(name),
        parent_of(style, path_in(style, dir, name)) == Some(dir),
{
    let p = path_in(style, dir, name);
    lemma_child_is_plain(style, dir, name);
    lemma_plain_has_no_root(style, p);
    lemma_plain_end_is_named(style, p);
    lemma_plain_end_is_named(style, dir);
    lemma_last_segment_of_child(style, dir, name, name.len() as int);
    assert(p.take(p.len() as int) =~= p);
    let k = p.len() - name.len();
    assert(p.skip(k) =~= name);
    assert(before_segment(p, 0, k) =~= dir);
    if name == seq!['.', '.'] || name == seq!['.'] {
        assert(name[0] == '.');
    }
}

/// What a path names on its way: what stands between its separators, where that is not empty.
pub open spec fn segments_of(style: PathStyle, p: Seq<char>) -> Seq<Seq<char>> {
    filled(pieces_of(style, false, p))
}

/// The path with every separator written as the platform does.
pub open spec fn unified(style: PathStyle, p: Seq<char>) -> Seq<char> {
    p.map_values(
        |c: char|
            if c == '/' {
                main_sep(style)
            } else {
                c
            },
    )
}

/// The segments of all the texts, one after the other.
spec fn flat(style: PathStyle, texts: Seq<Seq<char>>) -> Seq<Seq<char>>
    decreases texts.len(),
{
    if texts.len() == 0 {
        Seq::empty()
    } else {
        flat(style, texts.drop_last()) + segments_of(style, texts.last())
    }
}

/// The texts with one `\` between each two.
spec fn glued(texts: Seq<Seq<char>>) -> Seq<char>
    decreases texts.len(),
{
    if texts.len() <= 1 {
        texts.last()
    } else {
        glued(texts.drop_last()) + seq!['\\'] + texts.last()
    }
}

proof fn lemma_pieces_not_empty(style: PathStyle, verbatim: bool, s: Seq<char>)
    ensures
        pieces_of(style, verbatim, s).len() > 0,
    decreases s.len(),
{
    if s.len() > 0 {
        lemma_pieces_not_empty(style, verbatim, s.drop_last());
    }
}

proof fn lemma_pieces_together(
    style: PathStyle,
    verbatim: bool,
    a: Seq<char>,
    sep: char,
    b: Seq<char>,
)
    requires
        separates(style, verbatim, sep),
    ensures
        pieces_of(style, verbatim, a + seq![sep] + b) == pieces_of(style, verbatim, a) + pieces_of(
            style,
            verbatim,
            b,
        ),
    decreases b.len(),
{
    let s = a + seq![sep] + b;
    let before = pieces_of(style, verbatim, a);
    if b.len() == 0 {
        assert(s.drop_last() =~= a);
        assert(pieces_of(style, verbatim, s) =~= before + pieces_of(style, verbatim, b));
    } else {
        let rest = pieces_of(style, verbatim, b.drop_last());
        lemma_pieces_together(style, verbatim, a, sep, b.drop_last());
        lemma_pieces_not_empty(style, verbatim, b.drop_last());
        assert(s.drop_last() =~= a + seq![sep] + b.drop_last());
        assert(s.last() == b.last());
        assert((before + rest).last() == rest.last());
        assert((before + rest).drop_last() =~= before + rest.drop_last());
        assert(pieces_of(style, verbatim, s) =~= before + pieces_of(style, verbatim, b));
    }
}

proof fn lemma_filled_together(a: Seq<Seq<char>>, b: Seq<Seq<char>>)
    ensures
        filled(a + b) == filled(a) + filled(b),
    decreases b.len(),
{
    if b.len() == 0 {
        assert(a + b =~= a);
        assert(filled(a) + filled(b) =~= filled(a));
    } else {
        lemma_filled_together(a, b.drop_last());
        assert((a + b).drop_last() =~= a + b.drop_last());
        assert((a + b).last() == b.last());
        assert(filled(a + b) =~= filled(a) + filled(b));
    }
}

/// The segments of two texts with a separator between them are those of the one and then
/// those of the other.
pub proof fn lemma_segments_together(style: PathStyle, a: Seq<char>, sep: char, b: Seq<char>)
    requires
        is_sep(style, sep),
    ensures
        segments_of(style, a + seq![sep] + b) == segments_of(style, a) + segments_of(style, b),
{
    lemma_pieces_together(style, false, a, sep, b);
    lemma_filled_together(pieces_of(style, false, a), pieces_of(style, false, b));
}

proof fn lemma_pieces_of_name(style: PathStyle, name: Seq<char>)
    requires
        forall|i: int| 0 <= i < name.len() ==> !is_sep(style, #[trigger] name[i]),
    ensures
        pieces_of(style, false, name) == seq![name],
    decreases name.len(),
{
    if name.len() == 0 {
        assert(name =~= Seq::empty());
    } else {
        let rest = name.drop_last();
        assert forall|i: int| 0 <= i < rest.len() implies !is_sep(style, #[trigger] rest[i]) by {
            assert(rest[i] == name[i]);
        }
        lemma_pieces_of_name(style, rest);
        assert(rest.push(name.last()) =~= name);
        assert(!is_sep(style, name[name.len() - 1]));
        assert(seq![rest].drop_last() =~= Seq::empty());
        assert(pieces_of(style, false, name) =~= seq![name]);
    }
}

/// A file's name is one segment.
pub proof fn lemma_segments_of_name(style: PathStyle, name: Seq<char>)
    requires
        is_file_name(style, name),
    ensures
        segments_of(style, name) == seq![name],
{
    lemma_pieces_of_name(style, name);
    let none = Seq::<Seq<char>>::empty();
    assert(seq![name].drop_last() =~= none);
    assert(filled(none) == none);
    assert(filled(seq![name]) =~= seq![name]);
}

proof fn lemma_segments_of_nothing(style: PathStyle)
    ensures
        segments_of(style, Seq::empty()) == Seq::<Seq<char>>::empty(),
{
    let none = Seq::<Seq<char>>::empty();
    let empty = seq![Seq::<char>::empty()];
    assert(empty.drop_last() =~= none);
    assert(filled(none) == none);
    assert(filled(empty) == none);
    assert(pieces_of(style, false, Seq::empty()) == empty);
}

/// A separator at the end of a path adds no segment.
proof fn lemma_segments_with_sep(style: PathStyle, p: Seq<char>, sep: char)
    requires
        is_sep(style, sep),
    ensures
        segments_of(style, p.push(sep)) == segments_of(style, p),
{
    lemma_segments_together(style, p, sep, Seq::empty());
    lemma_segments_of_nothing(style);
    assert(p + seq![sep] + Seq::<char>::empty() =~= p.push(sep));
    assert(segments_of(style, p) + Seq::<Seq<char>>::empty() =~= segments_of(style, p));
}

proof fn lemma_segments_of_spelled(a: Seq<char>, segments: Seq<Seq<char>>)
    ensures
        segments_of(PathStyle::Windows, a + spelled(segments)) == segments_of(
            PathStyle::Windows,
            a,
        ) + flat(PathStyle::Windows, segments),
    decreases segments.len(),
{
    let style = PathStyle::Windows;
    let all = flat(style, segments);
    if segments.len() == 0 {
        assert(a + spelled(segments) =~= a);
        assert(segments_of(style, a) + all =~= segments_of(style, a));
    } else {
        let rest = segments.drop_last();
        lemma_segments_of_spelled(a, rest);
        lemma_segments_together(style, a + spelled(rest), '\\', segments.last());
        assert(a + spelled(segments) =~= a + spelled(rest) + seq!['\\'] + segments.last());
        assert(segments_of(style, a + spelled(segments)) =~= segments_of(style, a) + all);
    }
}

proof fn lemma_pieces_are_glued(s: Seq<char>)
    ensures
        glued(pieces_of(PathStyle::Windows, true, s)) == s,
    decreases s.len(),
{
    let style = PathStyle::Windows;
    let pieces = pieces_of(style, true, s);
    if s.len() == 0 {
        assert(pieces.last() =~= s);
    } else {
        let before = pieces_of(style, true, s.drop_last());
        lemma_pieces_are_glued(s.drop_last());
        lemma_pieces_not_empty(style, true, s.drop_last());
        if separates(style, true, s.last()) {
            assert(pieces.drop_last() =~= before);
            assert(glued(pieces) =~= s);
        } else {
            assert(pieces.drop_last() =~= before.drop_last());
            assert(pieces.last() == before.last().push(s.last()));
            assert(glued(pieces) =~= glued(before).push(s.last()));
            assert(glued(pieces) =~= s);
        }
    }
}

proof fn lemma_segments_of_glued(texts: Seq<Seq<char>>)
    requires
        texts.len() > 0,
    ensures
        segments_of(PathStyle::Windows, glued(texts)) == flat(PathStyle::Windows, texts),
    decreases texts.len(),
{
    let style = PathStyle::Windows;
    if texts.len() == 1 {
        let none = Seq::<Seq<char>>::empty();
        assert(texts.drop_last() =~= none);
        assert(flat(style, none) == none);
        assert(none + segments_of(style, texts.last()) =~= segments_of(
            style,
            texts.last(),
        ));
    } else {
        lemma_segments_of_glued(texts.drop_last());
        lemma_segments_together(style, glued(texts.drop_last()), '\\', texts.last());
    }
}

proof fn lemma_flat_of_filled(style: PathStyle, texts: Seq<Seq<char>>)
    ensures
        flat(style, filled(texts)) == flat(style, texts),
    decreases texts.len(),
{
    if texts.len() > 0 {
        let rest = texts.drop_last();
        lemma_flat_of_filled(style, rest);
        if texts.last().len() == 0 {
            assert(texts.last() =~= Seq::empty());
            lemma_segments_of_nothing(style);
            assert(flat(style, rest) + Seq::<Seq<char>>::empty() =~= flat(style, rest));
        } else {
            assert(filled(rest).push(texts.last()).drop_last() =~= filled(rest));
        }
    }
}

proof fn lemma_flat_together(style: PathStyle, a: Seq<Seq<char>>, b: Seq<Seq<char>>)
    ensures
        flat(style, a + b) == flat(style, a) + flat(style, b),
    decreases b.len(),
{
    if b.len() == 0 {
        assert(a + b =~= a);
        assert(flat(style, a) + flat(style, b) =~= flat(style, a));
    } else {
        lemma_flat_together(style, a, b.drop_last());
        assert((a + b).drop_last() =~= a + b.drop_last());
        assert((a + b).last() == b.last());
        assert(flat(style, a + b) =~= flat(style, a) + flat(style, b));
    }
}

proof fn lemma_segment_end_is_end(style: PathStyle, verbatim: bool, p: Seq<char>, from: int)
    requires
        0 <= from <= p.len(),
    ensures
        segment_end(style, verbatim, p, from) == p.len() || sep_at(
            style,
            p,
            segment_end(style, verbatim, p, from),
        ),
    decreases p.len() - from,
{
    if from < p.len() && !separates(style, verbatim, p[from]) {
        lemma_segment_end_is_end(style, verbatim, p, from + 1);
    }
}

/// A verbatim path's prefix is more than its first four characters, and ends where the path
/// does or where a separator stands.
proof fn lemma_verbatim_prefix(p: Seq<char>)
    requires
        is_verbatim(PathStyle::Windows, p),
    ensures
        4 <= prefix_len(PathStyle::Windows, p) <= p.len(),
        prefix_len(PathStyle::Windows, p) == p.len() || has_root_sep(PathStyle::Windows, p),
        !begins_here(PathStyle::Windows, p),
{
    let style = PathStyle::Windows;
    reveal(prefix_len);
    lemma_segment_end_bounds(style, true, p, 4);
    lemma_segment_end_is_end(style, true, p, 4);
    if p.len() > 7 {
        let server = segment_end(style, true, p, 8);
        lemma_segment_end_bounds(style, true, p, 8);
        lemma_segment_end_is_end(style, true, p, 8);
        lemma_share_end_bounds(style, true, p, server);
        if server < p.len() {
            lemma_segment_end_is_end(style, true, p, server + 1);
        }
    }
}

/// The segments of a verbatim path are those of its prefix and then those of what follows.
proof fn lemma_segments_of_verbatim(p: Seq<char>)
    requires
        is_verbatim(PathStyle::Windows, p),
    ensures
        ({
            let style = PathStyle::Windows;
            segments_of(style, p) == segments_of(style, p.take(prefix_len(style, p))) + flat(
                style,
                filled(pieces_of(style, true, p.skip(root_len(style, p)))),
            )
        }),
{
    let style = PathStyle::Windows;
    let n = prefix_len(style, p);
    let root = root_len(style, p);
    let body = p.skip(root);
    lemma_verbatim_prefix(p);
    lemma_pieces_are_glued(body);
    lemma_pieces_not_empty(style, true, body);
    lemma_segments_of_glued(pieces_of(style, true, body));
    lemma_flat_of_filled(style, pieces_of(style, true, body));
    assert(segments_of(style, body) == flat(style, filled(pieces_of(style, true, body))));
    if n == p.len() {
        assert(p.take(n) =~= p);
        assert(body =~= Seq::empty());
        lemma_segments_of_nothing(style);
        assert(segments_of(style, p) + Seq::<Seq<char>>::empty() =~= segments_of(style, p));
    } else {
        lemma_segments_together(style, p.take(n), p[n], body);
        assert(p =~= p.take(n) + seq![p[n]] + body);
    }
}

proof fn lemma_led_together(at: Seq<Seq<char>>, a: Seq<Seq<char>>, b: Seq<Seq<char>>)
    ensures
        led(at, a + b) == led(led(at, a), b),
    decreases b.len(),
{
    if b.len() == 0 {
        assert(a + b =~= a);
    } else {
        lemma_led_together(at, a, b.drop_last());
        assert((a + b).drop_last() =~= a + b.drop_last());
        assert((a + b).last() == b.last());
    }
}

proof fn lemma_led_by_two_names(at: Seq<Seq<char>>, dir: Seq<char>, file: Seq<char>)
    requires
        dir.len() > 0 && is_name(dir),
        file.len() > 0 && is_name(file),
    ensures
        led(at, seq![dir, file]) == at + seq![dir, file],
{
    let none = Seq::<Seq<char>>::empty();
    let one = seq![dir];
    assert(seq![dir, file].drop_last() =~= one);
    assert(one.drop_last() =~= none);
    assert(led(at, none) == at);
    assert(led(at, one) == at.push(dir));
    assert(led(at, seq![dir, file]) =~= at + seq![dir, file]);
}

proof fn lemma_flat_of_two_names(style: PathStyle, dir: Seq<char>, file: Seq<char>)
    requires
        is_file_name(style, dir),
        is_file_name(style, file),
    ensures
        flat(style, seq![dir, file]) == seq![dir, file],
{
    let none = Seq::<Seq<char>>::empty();
    let one = seq![dir];
    lemma_segments_of_name(style, dir);
    lemma_segments_of_name(style, file);
    assert(seq![dir, file].drop_last() =~= one);
    assert(one.drop_last() =~= none);
    assert(flat(style, none) == none);
    assert(flat(style, one) =~= one);
    assert(flat(style, seq![dir, file]) =~= seq![dir, file]);
}

proof fn lemma_pieces_of_two_names(
    style: PathStyle,
    dir: Seq<char>,
    sep: char,
    file: Seq<char>,
)
    requires
        is_file_name(style, dir),
        is_file_name(style, file),
        is_sep(style, sep),
    ensures
        pieces_of(style, false, dir + seq![sep] + file) == seq![dir, file],
{
    lemma_pieces_together(style, false, dir, sep, file);
    lemma_pieces_of_name(style, dir);
    lemma_pieces_of_name(style, file);
    assert(seq![dir] + seq![file] =~= seq![dir, file]);
}

/// A file in a directory, both by their names, taken from a verbatim path.
proof fn lemma_verbatim_from_two_names(
    base: Seq<char>,
    dir: Seq<char>,
    sep: char,
    file: Seq<char>,
)
    requires
        is_verbatim(PathStyle::Windows, base),
        is_file_name(PathStyle::Windows, dir) && is_name(dir),
        is_file_name(PathStyle::Windows, file) && is_name(file),
        is_sep(PathStyle::Windows, sep),
    ensures
        segments_of(PathStyle::Windows, verbatim_from(base, dir + seq![sep] + file)) == segments_of(
            PathStyle::Windows,
            base,
        ) + seq![dir, file],
{
    let style = PathStyle::Windows;
    let p = dir + seq![sep] + file;
    let from = filled(pieces_of(style, true, base.skip(root_len(style, base))));
    let names = seq![dir, file];
    let prefix = base.take(prefix_len(style, base));
    lemma_two_names_are_relative(style, dir, sep, file);
    lemma_pieces_of_two_names(style, dir, sep, file);
    lemma_led_by_two_names(from, dir, file);
    lemma_segments_of_spelled(prefix, from + names);
    lemma_flat_together(style, from, names);
    lemma_flat_of_two_names(style, dir, file);
    lemma_segments_of_verbatim(base);
    assert(segments_of(style, prefix) + (flat(style, from) + names) =~= segments_of(style, prefix)
        + flat(style, from) + names);
}

proof fn lemma_two_names_are_relative(style: PathStyle, dir: Seq<char>, sep: char, file: Seq<char>)
    requires
        is_file_name(style, dir),
        is_file_name(style, file),
        is_sep(style, sep),
    ensures
        prefix_len(style, dir + seq![sep] + file) == 0,
        !has_root_sep(style, dir + seq![sep] + file),
        dir[0] != '.' ==> is_name(dir),
        file[0] != '.' ==> is_name(file),
{
    let p = dir + seq![sep] + file;
    reveal(prefix_len);
    if dir[0] != '.' {
        lemma_undotted_is_name(dir);
    }
    if file[0] != '.' {
        lemma_undotted_is_name(file);
    }
    assert(p[0] == dir[0]);
    if dir.len() > 1 {
        assert(p[1] == dir[1]);
        assert(dir.contains(dir[1]));
    } else {
        assert(p[1] == sep);
    }
}

/// A name that does not begin with a dot is neither `.` nor `..`.
proof fn lemma_undotted_is_name(name: Seq<char>)
    requires
        name.len() > 0,
        name[0] != '.',
    ensures
        is_name(name),
{
    if name == seq!['.'] || name == seq!['.', '.'] {
        assert(name[0] == '.');
    }
}

/// What a path stands behind when it is taken from `base` by appending it.
spec fn before_child(style: PathStyle, base: Seq<char>) -> Seq<char> {
    if needs_sep(style, base) {
        base.push(main_sep(style))
    } else {
        base
    }
}

/// A relative path is taken from a path that is not verbatim by appending it.
proof fn lemma_path_from_appends(style: PathStyle, base: Seq<char>, p: Seq<char>)
    requires
        prefix_len(style, p) == 0,
        !has_root_sep(style, p),
        !is_verbatim(style, base) || p.len() == 0,
    ensures
        path_from(style, base, p) == before_child(style, base) + p,
{
}

/// The path of a plain directory and that of a file below it are relative.
proof fn lemma_target_is_relative(
    style: PathStyle,
    package: Seq<char>,
    dir: Seq<char>,
    file: Seq<char>,
)
    requires
        is_plain_dir(style, package),
        is_file_name(style, dir) && dir[0] != '.',
        is_file_name(style, file) && file[0] != '.',
    ensures
        ({
            let target = path_in(style, path_in(style, package, dir), file);
            &&& target.len() > 0
            &&& prefix_len(style, package) == 0 && !has_root_sep(style, package)
            &&& prefix_len(style, target) == 0 && !has_root_sep(style, target)
        }),
{
    lemma_plain_has_no_root(style, package);
    lemma_child_is_plain(style, package, dir);
    lemma_child_is_plain(style, path_in(style, package, dir), file);
    lemma_plain_has_no_root(style, path_in(style, path_in(style, package, dir), file));
}

/// What follows a plain directory that was appended to `front` stands behind a separator.
proof fn lemma_before_child_of_appended(style: PathStyle, front: Seq<char>, package: Seq<char>)
    requires
        is_plain_dir(style, package),
        package.len() > 0,
    ensures
        before_child(style, front + package) == (front + package).push(main_sep(style)),
{
    let at = front + package;
    assert(at.last() == package.last());
    if begins_with_drive(style, at) && at.len() == 2 {
        assert(package.contains(package.last()));
    }
}

/// Where the directory is not verbatim, the two ways differ at most in one separator.
proof fn lemma_two_steps_append(
    style: PathStyle,
    root: Seq<char>,
    package: Seq<char>,
    dir: Seq<char>,
    file: Seq<char>,
)
    requires
        is_plain_dir(style, package),
        is_file_name(style, dir) && dir[0] != '.',
        is_file_name(style, file) && file[0] != '.',
        !is_verbatim(style, root),
        !is_verbatim(style, path_from(style, root, package)),
    ensures
        ({
            let at = path_from(style, root, package);
            let start = before_child(style, at) + dir;
            &&& path_from(style, at, dir + seq!['/'] + file) == start + seq!['/'] + file
            &&& path_from(style, root, path_in(style, path_in(style, package, dir), file)) == start
                + seq![main_sep(style)] + file
        }),
{
    let at = path_from(style, root, package);
    let target = path_in(style, path_in(style, package, dir), file);
    lemma_target_is_relative(style, package, dir, file);
    lemma_two_names_are_relative(style, dir, '/', file);
    lemma_path_from_appends(style, root, package);
    lemma_path_from_appends(style, at, dir + seq!['/'] + file);
    lemma_path_from_appends(style, root, target);
    let front = before_child(style, root);
    assert(at == front + package);
    lemma_target_text(style, front, package, dir, file);
    if package.len() == 0 {
        assert(at =~= front);
        assert(before_child(style, at) == front);
    } else {
        lemma_before_child_of_appended(style, front, package);
    }
    lemma_grouped(before_child(style, at), dir, '/', file);
}

proof fn lemma_grouped(front: Seq<char>, dir: Seq<char>, sep: char, file: Seq<char>)
    ensures
        front + (dir + seq![sep] + file) == front + dir + seq![sep] + file,
{
    assert(front + (dir + seq![sep] + file) =~= front + dir + seq![sep] + file);
}

proof fn lemma_target_text(
    style: PathStyle,
    front: Seq<char>,
    package: Seq<char>,
    dir: Seq<char>,
    file: Seq<char>,
)
    requires
        dir.len() > 0,
    ensures
        ({
            let sep = main_sep(style);
            let before = if package.len() == 0 {
                front
            } else {
                (front + package).push(sep)
            };
            front + path_in(style, path_in(style, package, dir), file) == before + dir + seq![sep]
                + file
        }),
{
    let sep = main_sep(style);
    let target = path_in(style, path_in(style, package, dir), file);
    if package.len() == 0 {
        assert(front + target =~= front + dir + seq![sep] + file);
    } else {
        assert(front + target =~= (front + package).push(sep) + dir + seq![sep] + file);
    }
}

/// Where only the directory is verbatim, and the root is not.
proof fn lemma_two_steps_become_verbatim(
    root: Seq<char>,
    package: Seq<char>,
    dir: Seq<char>,
    file: Seq<char>,
)
    requires
        is_plain_dir(PathStyle::Windows, package),
        is_file_name(PathStyle::Windows, dir) && dir[0] != '.',
        is_file_name(PathStyle::Windows, file) && file[0] != '.',
        !is_verbatim(PathStyle::Windows, root),
        is_verbatim(PathStyle::Windows, path_from(PathStyle::Windows, root, package)),
    ensures
        ({
            let style = PathStyle::Windows;
            let target = path_in(style, path_in(style, package, dir), file);
            segments_of(style, path_from(style, root, target)) == segments_of(
                style,
                path_from(style, root, package),
            ) + seq![dir, file]
        }),
{
    let style = PathStyle::Windows;
    let at = path_from(style, root, package);
    let target = path_in(style, path_in(style, package, dir), file);
    let front = before_child(style, root);
    lemma_target_is_relative(style, package, dir, file);
    lemma_path_from_appends(style, root, package);
    lemma_path_from_appends(style, root, target);
    lemma_segments_of_name(style, dir);
    lemma_segments_of_name(style, file);
    if package.len() == 0 {
        assert(at =~= front);
        assert(front == root.push('\\'));
        lemma_segments_with_sep(style, root, '\\');
        assert(front + target =~= root + seq!['\\'] + dir + seq!['\\'] + file);
        lemma_segments_together(style, root, '\\', dir);
        lemma_segments_together(style, root + seq!['\\'] + dir, '\\', file);
    } else {
        assert(front + target =~= at + seq!['\\'] + dir + seq!['\\'] + file);
        lemma_segments_together(style, at, '\\', dir);
        lemma_segments_together(style, at + seq!['\\'] + dir, '\\', file);
    }
    assert(segments_of(style, at) + seq![dir] + seq![file] =~= segments_of(style, at) + seq![
        dir,
        file,
    ]);
}

/// Where the root is verbatim.
proof fn lemma_two_steps_from_verbatim(
    root: Seq<char>,
    package: Seq<char>,
    dir: Seq<char>,
    file: Seq<char>,
)
    requires
        is_plain_dir(PathStyle::Windows, package),
        is_file_name(PathStyle::Windows, dir) && dir[0] != '.',
        is_file_name(PathStyle::Windows, file) && file[0] != '.',
        is_verbatim(PathStyle::Windows, root),
    ensures
        ({
            let style = PathStyle::Windows;
            let target = path_in(style, path_in(style, package, dir), file);
            &&& is_verbatim(style, path_from(style, root, package))
            &&& segments_of(style, path_from(style, root, target)) == segments_of(
                style,
                path_from(style, root, package),
            ) + seq![dir, file]
        }),
{
    let style = PathStyle::Windows;
    let at = path_from(style, root, package);
    let target = path_in(style, path_in(style, package, dir), file);
    let names = seq![dir, file];
    lemma_target_is_relative(style, package, dir, file);
    lemma_verbatim_prefix(root);
    lemma_undotted_is_name(dir);
    lemma_undotted_is_name(file);
    assert(path_from(style, root, target) == verbatim_from(root, target));
    if package.len() == 0 {
        lemma_path_from_appends(style, root, package);
        assert(at =~= before_child(style, root));
        lemma_segments_with_sep(style, root, '\\');
        assert(target =~= dir + seq!['\\'] + file);
        lemma_verbatim_from_two_names(root, dir, '\\', file);
    } else {
        let prefix = root.take(prefix_len(style, root));
        let from = filled(pieces_of(style, true, root.skip(root_len(style, root))));
        let to = led(from, pieces_of(style, false, package));
        assert(at == verbatim_from(root, package));
        assert(at[0] == prefix[0] && at[1] == prefix[1] && at[2] == prefix[2] && at[3]
            == prefix[3]);
        assert(target =~= package + seq!['\\'] + (dir + seq!['\\'] + file));
        lemma_pieces_together(style, false, package, '\\', dir + seq!['\\'] + file);
        lemma_pieces_of_two_names(style, dir, '\\', file);
        lemma_led_together(from, pieces_of(style, false, package), names);
        lemma_two_names_are_relative(style, dir, '\\', file);
        lemma_led_by_two_names(to, dir, file);
        lemma_segments_of_spelled(prefix, to + names);
        lemma_flat_together(style, to, names);
        lemma_flat_of_two_names(style, dir, file);
        if to.len() > 0 {
            lemma_segments_of_spelled(prefix, to);
        } else {
            let none = Seq::<Seq<char>>::empty();
            assert(to =~= none);
            assert(flat(style, none) == none);
            lemma_segments_with_sep(style, prefix, '\\');
            assert(prefix + seq!['\\'] =~= prefix.push('\\'));
            assert(prefix + Seq::<char>::empty() =~= prefix);
            assert(segments_of(style, prefix) + none =~= segments_of(style, prefix));
        }
        assert(segments_of(style, prefix) + (flat(style, to) + names) =~= segments_of(
            style,
            prefix,
        ) + flat(style, to) + names);
    }
}

/// It makes no difference whether a file's path is taken from a root at once, or whether the
/// path of a directory above it is taken first and the rest from there: both ways lead over the
/// same segments. Where the directory is not verbatim, the two differ at most in how they write
/// separators, and where there is one way to write those, not at all.
pub proof fn law_path_is_taken_in_two_steps(
    style: PathStyle,
    root: Seq<char>,
    package: Seq<char>,
    dir: Seq<char>,
    file: Seq<char>,
)
    requires
        is_plain_dir(style, package),
        is_file_name(style, dir) && dir[0] != '.',
        is_file_name(style, file) && file[0] != '.',
    ensures
        ({
            let at = path_from(style, root, package);
            let via = path_from(style, at, dir + seq!['/'] + file);
            let direct = path_from(
                style,
                root,
                path_in(style, path_in(style, package, dir), file),
            );
            &&& segments_of(style, via) == segments_of(style, direct)
            &&& !is_verbatim(style, at) ==> unified(style, via) == unified(style, direct)
            &&& style == PathStyle::Posix ==> via == direct
        }),
{
    let at = path_from(style, root, package);
    lemma_two_names_are_relative(style, dir, '/', file);
    lemma_undotted_is_name(dir);
    lemma_undotted_is_name(file);
    if is_verbatim(style, root) {
        lemma_two_steps_from_verbatim(root, package, dir, file);
        lemma_verbatim_from_two_names(at, dir, '/', file);
    } else if is_verbatim(style, at) {
        lemma_two_steps_become_verbatim(root, package, dir, file);
        lemma_verbatim_from_two_names(at, dir, '/', file);
    } else {
        lemma_two_steps_append(style, root, package, dir, file);
        let sep = main_sep(style);
        let start = before_child(style, at) + dir;
        let via = start + seq!['/'] + file;
        let direct = start + seq![sep] + file;
        lemma_segments_together(style, start, '/', file);
        lemma_segments_together(style, start, sep, file);
        assert(unified(style, via) =~= unified(style, direct));
    }
}

/// A file in a directory, both by their names, taken from a path: it leads over that path's
/// segments, and then over the two names.
pub proof fn lemma_two_names_taken_from(
    style: PathStyle,
    base: Seq<char>,
    dir: Seq<char>,
    file: Seq<char>,
)
    requires
        is_file_name(style, dir) && is_name(dir),
        is_file_name(style, file) && is_name(file),
        !(begins_with_drive(style, base) && base.len() == 2),
    ensures
        ({
            let p = dir + seq!['/'] + file;
            let path = path_from(style, base, p);
            &&& segments_of(style, path) == segments_of(style, base) + seq![dir, file]
            &&& !is_verbatim(style, base) ==> path == base + p || path == base.push(main_sep(style))
                + p
        }),
{
    let p = dir + seq!['/'] + file;
    let path = path_from(style, base, p);
    let names = seq![dir, file];
    lemma_two_names_are_relative(style, dir, '/', file);
    if is_verbatim(style, base) {
        lemma_verbatim_from_two_names(base, dir, '/', file);
    } else {
        let sep = main_sep(style);
        lemma_path_from_appends(style, base, p);
        lemma_segments_of_name(style, dir);
        lemma_segments_of_name(style, file);
        lemma_segments_together(style, dir, '/', file);
        assert(segments_of(style, p) =~= names);
        if needs_sep(style, base) {
            assert(path =~= base + seq![sep] + p);
            lemma_segments_together(style, base, sep, p);
        } else if base.len() == 0 {
            assert(base =~= Seq::empty());
            lemma_segments_of_nothing(style);
            assert(path =~= p);
            assert(Seq::<Seq<char>>::empty() + names =~= names);
        } else {
            let rest = base.drop_last();
            lemma_segments_with_sep(style, rest, base.last());
            lemma_segments_together(style, rest, base.last(), p);
            assert(rest.push(base.last()) =~= base);
            assert(path =~= rest + seq![base.last()] + p);
        }
    }
}

/// A relative path is taken from a directory by writing it behind the directory's path, with a
/// separator between the two where there is none. Nothing of either is lost.
pub proof fn law_relative_path_is_appended(base: Seq<char>, p: Seq<char>)
    requires
        p.len() == 0 || p[0] != '/',
    ensures
        base.len() > 0 && base.last() != '/' ==> path_from(PathStyle::Posix, base, p) == base
            + seq!['/'] + p,
        base.len() == 0 || base.last() == '/' ==> path_from(PathStyle::Posix, base, p) == base + p,
{
    reveal(prefix_len);
    if base.len() > 0 && base.last() != '/' {
        assert(base.push('/') + p =~= base + seq!['/'] + p);
    }
}

/// An absolute path leads to the same place from everywhere.
pub proof fn law_absolute_path_stays(base: Seq<char>, p: Seq<char>)
    requires
        p.len() > 0 && p[0] == '/',
    ensures
        path_from(PathStyle::Posix, base, p) == p,
{
    reveal(prefix_len);
    assert(base.take(0) + p =~= p);
}

/// On Windows, a plain relative path is taken from a directory on a drive by writing it behind
/// the directory's path, with a separator between the two where there is none.
pub proof fn law_plain_path_is_appended_on_drive(base: Seq<char>, p: Seq<char>)
    requires
        begins_with_drive(PathStyle::Windows, base),
        base.len() > 2,
        is_plain_dir(PathStyle::Windows, p),
    ensures
        base.last() != '/' && base.last() != '\\' ==> path_from(PathStyle::Windows, base, p) == base
            + seq!['\\'] + p,
        base.last() == '/' || base.last() == '\\' ==> path_from(PathStyle::Windows, base, p)
            == base + p,
{
    lemma_plain_has_no_root(PathStyle::Windows, p);
    lemma_path_from_appends(PathStyle::Windows, base, p);
    assert(base.push('\\') + p =~= base + seq!['\\'] + p);
}

/// The path of a name in a directory: the name alone at the root that paths are relative to, and
/// behind the directory's path and a separator elsewhere.
pub proof fn law_path_in_directory(dir: Seq<char>, name: Seq<char>)
    ensures
        path_in(PathStyle::Posix, Seq::empty(), name) == name,
        path_in(PathStyle::Windows, Seq::empty(), name) == name,
        dir.len() > 0 ==> path_in(PathStyle::Posix, dir, name) == dir + seq!['/'] + name,
        dir.len() > 0 ==> path_in(PathStyle::Windows, dir, name) == dir + seq!['\\'] + name,
{
    assert(dir.push('/') + name =~= dir + seq!['/'] + name);
    assert(dir.push('\\') + name =~= dir + seq!['\\'] + name);
}

proof fn lemma_last_segment_behind(front: Seq<char>, name: Seq<char>, shape: Shape, n: int)
    requires
        0 <= shape.root <= front.len(),
        front.len() > shape.root ==> separates(shape.style, shape.verbatim, front.last()),
        forall|i: int|
            0 <= i < name.len() ==> !separates(shape.style, shape.verbatim, #[trigger] name[i]),
        0 <= n <= name.len(),
    ensures
        last_segment((front + name).take(front.len() + n), shape) == front.len(),
    decreases n,
{
    let q = (front + name).take(front.len() + n);
    if n == 0 {
        assert(q =~= front);
    } else {
        lemma_last_segment_behind(front, name, shape, n - 1);
        assert(q.drop_last() =~= (front + name).take(front.len() + n - 1));
        assert(q.last() == name[n - 1]);
    }
}

/// A name behind a directory's path and a separator is the last segment of the whole, and no
/// other part of the path matters for that. Without it, the directory's path is left, unless
/// that path has something at its end that names nothing.
pub proof fn law_last_name_of_path(dir: Seq<char>, name: Seq<char>)
    requires
        is_file_name(PathStyle::Posix, name),
        is_name(name),
    ensures
        name_of(PathStyle::Posix, dir + seq!['/'] + name) == Some(name),
        name_of(PathStyle::Posix, name) == Some(name),
        dir.len() > 0 && dir.last() != '/' && !(dir.len() > 1 && dir.last() == '.' && dir[dir.len()
            - 2] == '/') ==> parent_of(PathStyle::Posix, dir + seq!['/'] + name) == Some(dir),
        parent_of(PathStyle::Posix, name) == Some(Seq::<char>::empty()),
{
    let style = PathStyle::Posix;
    let front = dir.push('/');
    let p = dir + seq!['/'] + name;
    let shape = shape_of(style, p);
    reveal(prefix_len);
    assert(p =~= front + name);
    assert(p[0] == if dir.len() > 0 {
        dir[0]
    } else {
        '/'
    });
    assert(0 <= shape.root <= 1);
    lemma_last_segment_behind(front, name, shape, name.len() as int);
    assert((front + name).take((front.len() + name.len()) as int) =~= p);
    assert(p.skip(front.len() as int) =~= name);
    assert(end_named(p, shape) == p);
    if dir.len() > 0 && dir.last() != '/' && !(dir.len() > 1 && dir.last() == '.' && dir[dir.len()
        - 2] == '/') {
        assert(before_segment(p, shape.root, front.len() as int) =~= dir);
        let k = last_segment(dir, shape);
        lemma_last_segment_bounds(dir, shape);
        let segment = dir.skip(k);
        if dir.len() > shape.root {
            if segment == seq!['.'] {
                assert(segment.len() == 1 && segment[0] == '.');
                assert(dir[k] == '.');
                assert(k == dir.len() - 1);
                if k > shape.root {
                    assert(dir[k - 1] == '/');
                } else if k == 0 {
                    assert(p[1] == '/');
                    assert(begins_here(style, p));
                } else {
                    assert(dir[0] == '/' || dir[0] == '.');
                }
            }
            if segment.len() == 0 {
                assert(dir[k - 1] == '/');
            }
        }
        assert(end_named(dir, shape) == dir);
    }
    let alone = shape_of(style, name);
    let none = Seq::<char>::empty();
    assert(!begins_here(style, name)) by {
        if name[0] == '.' && name.len() == 1 {
            assert(name =~= seq!['.']);
        }
    }
    assert(alone.root == 0);
    lemma_last_segment_behind(none, name, alone, name.len() as int);
    assert((none + name).take(name.len() as int) =~= name);
    assert(name.skip(0) =~= name);
    assert(end_named(name, alone) == name);
    assert(before_segment(name, 0, 0) =~= none);
    assert(end_named(none, alone) == none);
}

/// A separator at the end of a path changes neither its last name nor what is above it.
pub proof fn law_slash_at_end_changes_nothing(p: Seq<char>)
    requires
        p.len() > 0,
    ensures
        name_of(PathStyle::Posix, p.push('/')) == name_of(PathStyle::Posix, p),
        parent_of(PathStyle::Posix, p.push('/')) == parent_of(PathStyle::Posix, p),
{
    let style = PathStyle::Posix;
    let q = p.push('/');
    reveal(prefix_len);
    assert(q[0] == p[0]);
    if p.len() > 1 {
        assert(q[1] == p[1]);
    }
    let shape = shape_of(style, p);
    assert(shape_of(style, q) == shape);
    assert(q.skip(q.len() as int).len() == 0);
    assert(last_segment(q, shape) == q.len());
    assert(before_segment(q, shape.root, q.len() as int) =~= p);
    assert(end_named(q, shape) == end_named(p, shape));
    assert(q.take(0) =~= p.take(0));
}

/// A name ends where the next separator stands, or the path ends.
proof fn lemma_segment_end_of_name(
    style: PathStyle,
    verbatim: bool,
    p: Seq<char>,
    from: int,
    end: int,
)
    requires
        0 <= from <= end <= p.len(),
        forall|i: int| from <= i < end ==> !separates(style, verbatim, #[trigger] p[i]),
        end == p.len() || separates(style, verbatim, p[end]),
    ensures
        segment_end(style, verbatim, p, from) == end,
    decreases end - from,
{
    if from < end {
        lemma_segment_end_of_name(style, verbatim, p, from + 1, end);
    }
}

/// What a path begins with before its first segment, if it belongs to no drive, share or device:
/// nothing, in either style.
pub proof fn law_plain_beginnings(p: Seq<char>)
    ensures
        prefix_len(PathStyle::Posix, p) == 0,
        p.len() < 2 ==> prefix_len(PathStyle::Windows, p) == 0,
        p.len() >= 2 && p[1] != ':' && p[1] != '/' && p[1] != '\\' ==> prefix_len(
            PathStyle::Windows,
            p,
        ) == 0,
        p.len() >= 2 && p[0] != '/' && p[0] != '\\' && p[1] != ':' ==> prefix_len(
            PathStyle::Windows,
            p,
        ) == 0,
{
    reveal(prefix_len);
}

/// A path that begins with a letter and a colon belongs to that drive, whatever follows.
pub proof fn law_drives_are_letters(letter: char, rest: Seq<char>)
    ensures
        'A' <= letter <= 'Z' || 'a' <= letter <= 'z' ==> prefix_len(
            PathStyle::Windows,
            seq![letter, ':'] + rest,
        ) == 2,
        !('A' <= letter <= 'Z' || 'a' <= letter <= 'z') ==> prefix_len(
            PathStyle::Windows,
            seq![letter, ':'] + rest,
        ) == 0,
{
    reveal(prefix_len);
    let p = seq![letter, ':'] + rest;
    assert(p[0] == letter && p[1] == ':');
}

/// A path that begins with two separators belongs to the share that is named behind them, with
/// its server.
pub proof fn law_shares_are_named(server: Seq<char>, share: Seq<char>, rest: Seq<char>)
    requires
        is_file_name(PathStyle::Windows, server),
        is_file_name(PathStyle::Windows, share),
        server != seq!['?'],
        server != seq!['.'],
        rest.len() > 0 ==> is_sep(PathStyle::Windows, rest[0]),
    ensures
        prefix_len(
            PathStyle::Windows,
            seq!['\\', '\\'] + server + seq!['\\'] + share + rest,
        ) == 3 + server.len() + share.len(),
{
    reveal(prefix_len);
    let style = PathStyle::Windows;
    let p = seq!['\\', '\\'] + server + seq!['\\'] + share + rest;
    let a = 2 + server.len() as int;
    let b = a + 1 + share.len();
    assert(p[0] == '\\' && p[1] == '\\' && p[a] == '\\');
    assert forall|i: int| 2 <= i < a implies !separates(style, false, #[trigger] p[i]) by {
        assert(p[i] == server[i - 2]);
    }
    assert forall|i: int| a + 1 <= i < b implies !separates(style, false, #[trigger] p[i]) by {
        assert(p[i] == share[i - a - 1]);
    }
    if b < p.len() {
        assert(p[b] == rest[0]);
    }
    lemma_segment_end_of_name(style, false, p, 2, a);
    lemma_segment_end_of_name(style, false, p, a + 1, b);
    assert(p[2] == server[0]);
    if server.len() == 1 {
        assert(server =~= seq![server[0]]);
    } else {
        assert(p[3] == server[1]);
    }
}

/// A path that begins with `\\.\` belongs to the device that is named behind that, and one that
/// begins with `\\?\` to the drive, the share or whatever else is.
pub proof fn law_devices_are_named(
    letter: char,
    name: Seq<char>,
    share: Seq<char>,
    rest: Seq<char>,
)
    requires
        'A' <= letter <= 'Z' || 'a' <= letter <= 'z',
        is_file_name(PathStyle::Windows, name),
        is_file_name(PathStyle::Windows, share),
        rest.len() > 0 ==> rest[0] == '\\',
    ensures
        prefix_len(PathStyle::Windows, seq!['\\', '\\', '.', '\\'] + name + rest) == 4
            + name.len(),
        prefix_len(
            PathStyle::Windows,
            seq!['\\', '\\', '?', '\\', 'U', 'N', 'C', '\\'] + name + seq!['\\'] + share + rest,
        ) == 9 + name.len() + share.len(),
        name != seq!['U', 'N', 'C'] ==> prefix_len(
            PathStyle::Windows,
            seq!['\\', '\\', '?', '\\'] + name + rest,
        ) == 4 + name.len(),
        prefix_len(PathStyle::Windows, seq!['\\', '\\', '?', '\\', letter, ':'] + rest) == 6,
{
    let style = PathStyle::Windows;
    let n = 4 + name.len() as int;
    let p = seq!['\\', '\\', '.', '\\'] + name + rest;
    let q = seq!['\\', '\\', '?', '\\'] + name + rest;
    let u = seq!['\\', '\\', '?', '\\', 'U', 'N', 'C', '\\'] + name + seq!['\\'] + share + rest;
    let c = seq!['\\', '\\', '?', '\\', letter, ':'] + rest;
    reveal(prefix_len);
    assert(p[0] == '\\' && p[1] == '\\' && p[2] == '.' && p[3] == '\\');
    assert(q[0] == '\\' && q[1] == '\\' && q[2] == '?' && q[3] == '\\');
    assert forall|i: int| 4 <= i < n implies p[i] == name[i - 4] && q[i] == name[i - 4] by {}
    assert forall|i: int| 4 <= i < n implies !separates(style, false, #[trigger] p[i]) by {}
    assert forall|i: int| 4 <= i < n implies !separates(style, true, #[trigger] q[i]) by {}
    if rest.len() > 0 {
        assert(p[n] == rest[0] && q[n] == rest[0]);
    }
    lemma_segment_end_of_name(style, false, p, 4, n);
    lemma_segment_end_of_name(style, true, q, 4, n);
    assert(!drive_at(q, 4)) by {
        if drive_at(q, 4) {
            if n > 5 {
                assert(name[1] == ':');
            }
        }
    }
    if name != seq!['U', 'N', 'C'] && q.len() > 7 && q[4] == 'U' && q[5] == 'N' && q[6] == 'C'
        && sep_at(style, q, 7) {
        if n > 7 {
            assert(q[7] == name[3]);
        } else if n == 7 {
            assert(name =~= seq!['U', 'N', 'C']);
        } else {
            assert(q[n] == '\\');
        }
    }
    assert(prefix_len(style, u) == 9 + name.len() + share.len()) by {
        let a = 8 + name.len() as int;
        let b = a + 1 + share.len();
        assert(u[0] == '\\' && u[1] == '\\' && u[2] == '?' && u[3] == '\\');
        assert(u[4] == 'U' && u[5] == 'N' && u[6] == 'C' && u[7] == '\\' && u[a] == '\\');
        assert forall|i: int| 8 <= i < a implies !separates(style, true, #[trigger] u[i]) by {
            assert(u[i] == name[i - 8]);
        }
        assert forall|i: int| a + 1 <= i < b implies !separates(style, true, #[trigger] u[i]) by {
            assert(u[i] == share[i - a - 1]);
        }
        if b < u.len() {
            assert(u[b] == rest[0]);
        }
        lemma_segment_end_of_name(style, true, u, 8, a);
        lemma_segment_end_of_name(style, true, u, a + 1, b);
    }
    assert(c[0] == '\\' && c[1] == '\\' && c[2] == '?' && c[3] == '\\' && c[4] == letter && c[5]
        == ':');
    if rest.len() > 0 {
        assert(c[6] == rest[0]);
    }
}

/// A path with a drive, a share or a device of its own leads to the same place from everywhere.
/// One that begins at the root leads there on the drive or share that it is taken from.
pub proof fn law_roots_are_kept_on_windows(base: Seq<char>, p: Seq<char>)
    ensures
        prefix_len(PathStyle::Windows, p) > 0 ==> path_from(PathStyle::Windows, base, p) == p,
        prefix_len(PathStyle::Windows, p) == 0 && p.len() > 0 && (p[0] == '/' || p[0] == '\\')
            && !is_verbatim(PathStyle::Windows, base) ==> path_from(PathStyle::Windows, base, p)
            == base.take(prefix_len(PathStyle::Windows, base)) + p,
        prefix_len(PathStyle::Windows, p) == 0 && !(p.len() > 0 && (p[0] == '/' || p[0] == '\\'))
            && base.len() == 2 && begins_with_drive(PathStyle::Windows, base) ==> path_from(
            PathStyle::Windows,
            base,
            p,
        ) == base + p,
{
}

/// Where segments lead: a name into it, a dot nowhere, two dots back out of a name, and not
/// beyond the start.
pub proof fn law_segments_lead(
    at: Seq<Seq<char>>,
    segments: Seq<Seq<char>>,
    name: Seq<char>,
)
    requires
        name.len() > 0,
        is_name(name),
    ensures
        led(at, Seq::empty()) == at,
        led(at, segments.push(name)) == led(at, segments).push(name),
        led(at, segments.push(seq!['.'])) == led(at, segments),
        led(at, segments.push(Seq::empty())) == led(at, segments),
        led(at, segments.push(name).push(seq!['.', '.'])) == led(at, segments),
        led(Seq::empty(), seq![seq!['.', '.']]) == Seq::<Seq<char>>::empty(),
{
    let here = seq!['.'];
    let up = seq!['.', '.'];
    let none = Seq::<char>::empty();
    assert(here.len() == 1 && up.len() == 2);
    assert(segments.push(name).drop_last() =~= segments);
    assert(segments.push(here).drop_last() =~= segments);
    assert(segments.push(none).drop_last() =~= segments);
    assert(segments.push(name).push(up).drop_last() =~= segments.push(name));
    assert(led(at, segments).push(name).drop_last() =~= led(at, segments));
    assert(seq![up].drop_last() =~= Seq::empty());
    assert(seq![up].last() == up);
    assert(led(Seq::empty(), Seq::empty()) == Seq::<Seq<char>>::empty());
}

/// The root and the empty path have neither a name nor anything above them. A name at the root
/// has the root above it. Two dots are no name.
pub proof fn law_paths_without_name(dir: Seq<char>, name: Seq<char>)
    requires
        is_file_name(PathStyle::Posix, name),
        is_name(name),
    ensures
        name_of(PathStyle::Posix, Seq::empty()) is None,
        parent_of(PathStyle::Posix, Seq::empty()) is None,
        name_of(PathStyle::Posix, seq!['/']) is None,
        parent_of(PathStyle::Posix, seq!['/']) is None,
        parent_of(PathStyle::Posix, seq!['/'] + name) == Some(seq!['/']),
        name_of(PathStyle::Posix, dir + seq!['/', '.', '.']) is None,
{
    let style = PathStyle::Posix;
    reveal(prefix_len);
    let none = Seq::<char>::empty();
    let root = seq!['/'];
    assert(shape_of(style, none) == (Shape { style, verbatim: false, root: 0 }));
    assert(end_named(none, shape_of(style, none)) == none);
    let shape = Shape { style, verbatim: false, root: 1 };
    assert(shape_of(style, root) == shape);
    assert(end_named(root, shape) == root);
    let p = root + name;
    assert(p[0] == '/');
    assert(shape_of(style, p) == shape);
    lemma_last_segment_behind(root, name, shape, name.len() as int);
    assert(p.take(p.len() as int) =~= p);
    assert(p.skip(1) =~= name);
    assert(end_named(p, shape) == p);
    assert(before_segment(p, 1, 1) =~= root);
    let up = seq!['.', '.'];
    let q = dir + seq!['/', '.', '.'];
    let front = dir + root;
    assert(q =~= front + up);
    let s = shape_of(style, q);
    assert(q[0] == front[0]);
    if dir.len() > 0 {
        assert(q[0] == dir[0]);
        if dir.len() > 1 {
            assert(q[1] == dir[1]);
        } else {
            assert(q[1] == '/');
        }
    }
    assert(0 <= s.root <= 1);
    assert(front.last() == '/');
    lemma_last_segment_behind(front, up, s, 2);
    assert(q.take(q.len() as int) =~= q);
    assert(q.skip(front.len() as int) =~= up);
    assert(up.len() == 2 && seq!['.'].len() == 1);
    assert(end_named(q, s) == q);
}

/// On a drive, the name behind the last separator of a path is its last, whatever stands before
/// it.
pub proof fn law_last_name_on_drive(dir: Seq<char>, name: Seq<char>)
    requires
        begins_with_drive(PathStyle::Windows, dir),
        is_file_name(PathStyle::Windows, name),
        is_name(name),
    ensures
        name_of(PathStyle::Windows, dir + seq!['\\'] + name) == Some(name),
        name_of(PathStyle::Windows, dir + seq!['/'] + name) == Some(name),
{
    lemma_last_name_on_drive(dir, '\\', name);
    lemma_last_name_on_drive(dir, '/', name);
}

proof fn lemma_last_name_on_drive(dir: Seq<char>, sep: char, name: Seq<char>)
    requires
        begins_with_drive(PathStyle::Windows, dir),
        is_sep(PathStyle::Windows, sep),
        is_file_name(PathStyle::Windows, name),
        is_name(name),
    ensures
        name_of(PathStyle::Windows, dir + seq![sep] + name) == Some(name),
{
    let style = PathStyle::Windows;
    reveal(prefix_len);
    let front = dir + seq![sep];
    let p = front + name;
    assert(p[0] == dir[0] && p[1] == dir[1]);
    assert(front.last() == sep);
    let s = shape_of(style, p);
    assert(!s.verbatim && 2 <= s.root <= 3);
    lemma_last_segment_behind(front, name, s, name.len() as int);
    assert(p.take(p.len() as int) =~= p);
    assert(p.skip(front.len() as int) =~= name);
    assert(end_named(p, s) == p);
}

/// A dot at the end of a path changes neither its last name nor what is above it.
pub proof fn law_dot_at_end_changes_nothing(p: Seq<char>)
    requires
        p.len() > 0,
    ensures
        name_of(PathStyle::Posix, p + seq!['/', '.']) == name_of(PathStyle::Posix, p),
        parent_of(PathStyle::Posix, p + seq!['/', '.']) == parent_of(PathStyle::Posix, p),
{
    let style = PathStyle::Posix;
    let q = p.push('/');
    let d = p + seq!['/', '.'];
    law_slash_at_end_changes_nothing(p);
    reveal(prefix_len);
    assert(d =~= q + seq!['.']);
    assert(d[0] == p[0] && q[0] == p[0]);
    if p.len() > 1 {
        assert(d[1] == p[1] && q[1] == p[1]);
    } else {
        assert(d[1] == '/' && q[1] == '/');
    }
    let shape = shape_of(style, p);
    assert(shape_of(style, d) == shape);
    assert(shape_of(style, q) == shape);
    lemma_last_segment_behind(q, seq!['.'], shape, 1);
    assert(d.take(d.len() as int) =~= d);
    assert(d.skip(q.len() as int) =~= seq!['.']);
    let r = before_segment(d, shape.root, q.len() as int);
    assert(end_named(d, shape) == end_named(r, shape));
    if q.len() > shape.root {
        assert(r =~= p);
        let e = before_segment(q, shape.root, q.len() as int);
        assert(q.skip(q.len() as int).len() == 0);
        assert(e =~= p);
        assert(end_named(q, shape) == end_named(p, shape));
    } else {
        assert(r =~= q);
    }
}

/// A path that begins with a dot: its name is below here, and above here is nothing.
pub proof fn law_paths_from_here(name: Seq<char>)
    requires
        is_file_name(PathStyle::Posix, name),
        is_name(name),
    ensures
        name_of(PathStyle::Posix, seq!['.', '/'] + name) == Some(name),
        parent_of(PathStyle::Posix, seq!['.', '/'] + name) == Some(seq!['.']),
        name_of(PathStyle::Posix, seq!['.']) is None,
        parent_of(PathStyle::Posix, seq!['.']) == Some(Seq::<char>::empty()),
{
    let style = PathStyle::Posix;
    let here = seq!['.'];
    law_last_name_of_path(here, name);
    assert(here + seq!['/'] + name =~= seq!['.', '/'] + name);
    reveal(prefix_len);
    let shape = Shape { style, verbatim: false, root: 1 };
    assert(shape_of(style, here) == shape);
    assert(end_named(here, shape) == here);
    assert(here.take(0) =~= Seq::empty());
}

proof fn lemma_verbatim_pieces_of_name(name: Seq<char>)
    requires
        forall|i: int| 0 <= i < name.len() ==> #[trigger] name[i] != '\\',
    ensures
        pieces_of(PathStyle::Windows, true, name) == seq![name],
    decreases name.len(),
{
    if name.len() == 0 {
        assert(name =~= Seq::empty());
    } else {
        let rest = name.drop_last();
        assert forall|i: int| 0 <= i < rest.len() implies #[trigger] rest[i] != '\\' by {
            assert(rest[i] == name[i]);
        }
        lemma_verbatim_pieces_of_name(rest);
        assert(rest.push(name.last()) =~= name);
        assert(name[name.len() - 1] != '\\');
        assert(seq![rest].drop_last() =~= Seq::empty());
        assert(pieces_of(PathStyle::Windows, true, name) =~= seq![name]);
    }
}

/// From a directory on a drive whose path is to be taken word for word: a name leads into it, a
/// dot nowhere, two dots back out of it, and a path from the root leads there on the same drive.
pub proof fn law_verbatim_paths_are_followed(letter: char, dir: Seq<char>, name: Seq<char>)
    requires
        'A' <= letter <= 'Z' || 'a' <= letter <= 'z',
        dir.len() > 0 && is_name(dir),
        forall|i: int| 0 <= i < dir.len() ==> #[trigger] dir[i] != '\\',
        is_file_name(PathStyle::Windows, name),
        is_name(name),
    ensures
        ({
            let style = PathStyle::Windows;
            let drive = seq!['\\', '\\', '?', '\\', letter, ':'];
            let base = drive + seq!['\\'] + dir;
            &&& path_from(style, base, name) == base + seq!['\\'] + name
            &&& path_from(style, base, seq!['.']) == base
            &&& path_from(style, base, seq!['.', '.']) == drive + seq!['\\']
            &&& path_from(style, base, seq!['\\'] + name) == drive + seq!['\\'] + name
            &&& path_from(style, base, seq!['/'] + name) == drive + seq!['\\'] + name
            &&& dir.last() != '/' ==> path_from(style, base, Seq::empty()) == base + seq!['\\']
        }),
{
    let style = PathStyle::Windows;
    let drive = seq!['\\', '\\', '?', '\\', letter, ':'];
    let base = drive + seq!['\\'] + dir;
    let here = seq!['.'];
    let up = seq!['.', '.'];
    let none = Seq::<Seq<char>>::empty();
    law_devices_are_named(letter, name, name, seq!['\\'] + dir);
    assert(drive + (seq!['\\'] + dir) =~= base);
    assert(base[0] == '\\' && base[1] == '\\' && base[2] == '?' && base[3] == '\\');
    assert(base[6] == '\\');
    assert(prefix_len(style, base) == 6);
    assert(root_len(style, base) == 7);
    assert(base.take(6) =~= drive);
    assert(base.skip(7) =~= dir);
    lemma_verbatim_pieces_of_name(dir);
    assert(seq![dir].drop_last() =~= none);
    assert(filled(none) == none);
    assert(filled(seq![dir]) =~= seq![dir]);
    let from = seq![dir];
    // A name.
    assert(name.len() > 1 ==> name.contains(name[1]));
    law_plain_beginnings(name);
    assert(!is_sep(style, name[0]));
    lemma_pieces_of_name(style, name);
    law_segments_lead(from, none, name);
    assert(none.push(name) =~= seq![name]);
    lemma_spelled_name(dir);
    lemma_spelled_names(dir, name);
    assert(from.push(name) =~= seq![dir, name]);
    assert(drive + (seq!['\\'] + dir + seq!['\\'] + name) =~= base + seq!['\\'] + name);
    // A dot, and two.
    law_plain_beginnings(here);
    law_plain_beginnings(up);
    assert(!is_sep(style, here[0]) && !is_sep(style, up[0]) && !is_sep(style, up[1]));
    lemma_pieces_of_name(style, here);
    lemma_pieces_of_name(style, up);
    assert(none.push(here) =~= seq![here]);
    law_segments_lead(none, none, dir);
    assert(led(from, seq![here]) == from);
    assert(drive + (seq!['\\'] + dir) =~= base);
    assert(seq![up].drop_last() =~= none);
    assert(led(from, none) == from);
    assert(seq![up].last() == up);
    assert(up.len() == 2 && here.len() == 1);
    assert(led(from, seq![up]) =~= none);
    // From the root.
    lemma_from_verbatim_root(base, '\\', name);
    lemma_from_verbatim_root(base, '/', name);
    // Nothing.
    law_plain_beginnings(Seq::empty());
    assert(base.last() == dir.last());
    assert(dir[dir.len() - 1] != '\\');
    assert(base.push('\\') + Seq::<char>::empty() =~= base + seq!['\\']);
}

proof fn lemma_spelled_name(name: Seq<char>)
    ensures
        spelled(seq![name]) == seq!['\\'] + name,
{
    let none = Seq::<Seq<char>>::empty();
    assert(seq![name].drop_last() =~= none);
    assert(spelled(none) == Seq::<char>::empty());
    assert(spelled(seq![name]) =~= seq!['\\'] + name);
}

proof fn lemma_spelled_names(dir: Seq<char>, name: Seq<char>)
    ensures
        spelled(seq![dir, name]) == seq!['\\'] + dir + seq!['\\'] + name,
{
    lemma_spelled_name(dir);
    assert(seq![dir, name].drop_last() =~= seq![dir]);
}

proof fn lemma_from_verbatim_root(base: Seq<char>, sep: char, name: Seq<char>)
    requires
        is_verbatim(PathStyle::Windows, base),
        is_sep(PathStyle::Windows, sep),
        is_file_name(PathStyle::Windows, name),
        is_name(name),
    ensures
        path_from(PathStyle::Windows, base, seq![sep] + name) == base.take(
            prefix_len(PathStyle::Windows, base),
        ) + seq!['\\'] + name,
{
    let style = PathStyle::Windows;
    let p = seq![sep] + name;
    let none = Seq::<Seq<char>>::empty();
    let empty = Seq::<char>::empty();
    assert(p[1] == name[0]);
    assert(!is_sep(style, name[0]));
    assert(name.contains(name[0]));
    law_plain_beginnings(p);
    lemma_pieces_together(style, false, empty, sep, name);
    assert(empty + seq![sep] + name =~= p);
    lemma_pieces_of_name(style, name);
    assert(pieces_of(style, false, empty) == seq![empty]);
    assert(seq![empty] + seq![name] =~= none.push(empty).push(name));
    law_segments_lead(none, none.push(empty), name);
    law_segments_lead(none, none, name);
    assert(none.push(name) =~= seq![name]);
    lemma_spelled_name(name);
    let prefix = base.take(prefix_len(style, base));
    assert(prefix + (seq!['\\'] + name) =~= prefix + seq!['\\'] + name);
}

/// Where a path is to be taken word for word, only `\` stands between its segments: a name may
/// hold `/`.
pub proof fn law_verbatim_names_hold_slashes(letter: char, name: Seq<char>)
    requires
        'A' <= letter <= 'Z' || 'a' <= letter <= 'z',
        name.len() > 0 && is_name(name),
        forall|i: int| 0 <= i < name.len() ==> #[trigger] name[i] != '\\',
    ensures
        name_of(
            PathStyle::Windows,
            seq!['\\', '\\', '?', '\\', letter, ':', '\\'] + name,
        ) == Some(name),
{
    let style = PathStyle::Windows;
    let front = seq!['\\', '\\', '?', '\\', letter, ':', '\\'];
    let drive = seq!['\\', '\\', '?', '\\', letter, ':'];
    let p = front + name;
    let word = seq!['a'];
    assert(is_file_name(style, word)) by {
        assert(!word.contains(':'));
    }
    law_devices_are_named(letter, word, word, seq!['\\'] + name);
    assert(drive + (seq!['\\'] + name) =~= p);
    assert(p[0] == '\\' && p[1] == '\\' && p[2] == '?' && p[3] == '\\' && p[6] == '\\');
    let s = shape_of(style, p);
    assert(s == (Shape { style, verbatim: true, root: 7 }));
    lemma_last_segment_behind(front, name, s, name.len() as int);
    assert(p.take(p.len() as int) =~= p);
    assert(p.skip(7) =~= name);
    assert(end_named(p, s) == p);
}

} // verus!
