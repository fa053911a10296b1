//! What calls of the functions on texts, paths and addresses give, whatever they are given. Each
//! law is about every result `r` that a call can have.

use crate::order::{law_beginning_stands_before, law_first_difference_decides, stands_before};
use crate::paths::{
    file_name, is_file_name, is_name, is_plain_dir, join, law_absolute_path_stays, law_child_path,
    law_last_name_of_path, law_path_in_directory, law_relative_path_is_appended, parent, path_in,
    relative_path, PathStyle,
};
use crate::targets::holds_text;
use crate::text::{
    begins_with, contains_text, decimal_text, ends, ends_with, is_space, is_white_space, joined,
    law_begins_by_characters, law_breaks_are_taken_off_end, law_decimal_writes_number,
    law_end_trimmed_loses_space, law_ends_by_characters, law_first_occurrence_is_replaced,
    law_lines_hold_no_break, law_lines_make_up_text, law_nothing_is_replaced, law_occurs_between,
    law_occurs_only_between, law_trimming_finds_core, number_of, occurs, replace_text, same_text,
    split_lines, stands_at, texts, trim, trim_breaks, trim_end, with_breaks,
};
use crate::uri::{
    law_endpoint_is_added_once, law_file_announces_its_address, service_uri, websocket_uri,
};
use crate::vm_service::{
    extract_vm_service_uri, holds_no_uri, is_service_uri, law_search_misses_no_uri, VmServiceError,
};
use vstd::prelude::*;

verus! {

/// Texts are the same where their characters are.
pub proof fn law_same_text(a: &str, b: &str, r: bool)
    requires
        call_ensures(same_text, (a, b), r),
    ensures
        r <==> a@ == b@,
{
}

/// A text begins with another where it is that one and something behind it.
pub proof fn law_begins_with(s: &str, p: &str, r: bool)
    requires
        call_ensures(begins_with, (s, p), r),
    ensures
        r <==> exists|rest: Seq<char>| s@ == #[trigger] (p@ + rest),
{
    law_begins_by_characters(s@, p@);
    if r {
        assert(s@ =~= p@ + s@.skip(p@.len() as int));
    }
    if exists|rest: Seq<char>| s@ == #[trigger] (p@ + rest) {
        let rest = choose|rest: Seq<char>| s@ == #[trigger] (p@ + rest);
        assert forall|i: int| 0 <= i < p@.len() implies s@[i] == #[trigger] p@[i] by {
            assert((p@ + rest)[i] == p@[i]);
        }
    }
}

/// A text ends with another where it is something and that one behind it.
pub proof fn law_ends_with(s: &str, p: &str, r: bool)
    requires
        call_ensures(ends_with, (s, p), r),
    ensures
        r <==> exists|front: Seq<char>| s@ == #[trigger] (front + p@),
{
    law_ends_by_characters(s@, p@);
    if r {
        assert(s@ =~= s@.take(s@.len() - p@.len()) + p@) by {
            assert forall|i: int| s@.len() - p@.len() <= i < s@.len() implies s@[i] == p@[i - (
            s@.len() - p@.len())] by {
                let j = i - (s@.len() - p@.len());
                assert(s@[s@.len() - p@.len() + j] == p@[j]);
            }
        }
    }
    if exists|front: Seq<char>| s@ == #[trigger] (front + p@) {
        let front = choose|front: Seq<char>| s@ == #[trigger] (front + p@);
        assert forall|i: int| 0 <= i < p@.len() implies s@[s@.len() - p@.len() + i]
            == #[trigger] p@[i] by {
            assert((front + p@)[front.len() + i] == p@[i]);
        }
    }
}

/// A text contains another where it is something, that one, and something again.
pub proof fn law_contains_text(s: &str, p: &str, r: bool)
    requires
        call_ensures(contains_text, (s, p), r),
    ensures
        r <==> exists|a: Seq<char>, b: Seq<char>| s@ == #[trigger] (a + p@ + b),
{
    if r {
        law_occurs_only_between(s@, p@);
    }
    if exists|a: Seq<char>, b: Seq<char>| s@ == #[trigger] (a + p@ + b) {
        let (a, b) = choose|a: Seq<char>, b: Seq<char>| s@ == #[trigger] (a + p@ + b);
        law_occurs_between(a, p@, b);
    }
}

/// The characters that are white space, by their code points.
pub proof fn law_is_white_space(c: char, r: bool)
    requires
        call_ensures(is_white_space, (c,), r),
    ensures
        r <==> {
            let n = c as int;
            ||| 9 <= n <= 13
            ||| n == 32 || n == 133 || n == 160 || n == 5760
            ||| 8192 <= n <= 8202
            ||| n == 8232 || n == 8233 || n == 8239 || n == 8287 || n == 12288
        },
{
}

/// What is trimmed off a text's end is white space, and all of it.
pub proof fn law_trim_end(s: &str, r: String)
    requires
        call_ensures(trim_end, (s,), r),
    ensures
        r@.len() <= s@.len(),
        r@ == s@.take(r@.len() as int),
        forall|i: int| r@.len() <= i < s@.len() ==> is_space(#[trigger] s@[i]),
        r@.len() > 0 ==> !is_space(r@.last()),
{
    law_end_trimmed_loses_space(s@);
}

/// Trimming takes off the white space around a text, and nothing of the text.
pub proof fn law_trim(s: &str, a: Seq<char>, core: Seq<char>, b: Seq<char>, r: String)
    requires
        call_ensures(trim, (s,), r),
        s@ == a + core + b,
        forall|i: int| 0 <= i < a.len() ==> is_space(#[trigger] a[i]),
        forall|i: int| 0 <= i < b.len() ==> is_space(#[trigger] b[i]),
        core.len() > 0 ==> !is_space(core[0]) && !is_space(core.last()),
    ensures
        r@ == core,
{
    law_trimming_finds_core(a, core, b);
}

/// Only the line breaks at a text's end are taken off it, and all of them.
pub proof fn law_trim_breaks(s: &str, core: Seq<char>, n: nat, r: String)
    requires
        call_ensures(trim_breaks, (s,), r),
        s@ == core + Seq::new(n, |i: int| '\n'),
        core.len() > 0 ==> core.last() != '\n',
    ensures
        r@ == core,
{
    law_breaks_are_taken_off_end(core, n);
}

/// The lines of a text, each followed by a line break, are the text followed by one, and none of
/// them holds a line break.
pub proof fn law_split_lines(s: &str, r: Vec<String>)
    requires
        call_ensures(split_lines, (s,), r),
    ensures
        r@.len() > 0,
        with_breaks(texts(r@)) == s@.push('\n'),
        forall|i: int| 0 <= i < r@.len() ==> !(#[trigger] r@[i])@.contains('\n'),
{
    law_lines_make_up_text(s@);
    law_lines_hold_no_break(s@);
    assert(texts(r@).len() == r@.len());
    assert forall|i: int| 0 <= i < r@.len() implies !(#[trigger] r@[i])@.contains('\n') by {
        assert(texts(r@)[i] == r@[i]@);
    }
}

/// A text without anything to replace stays as it is. In one with an occurrence, what stands
/// before the first stays, and behind it the replacing goes on.
pub proof fn law_replace_text(
    s: &str,
    from: &str,
    to: &str,
    r: String,
    a: Seq<char>,
    b: &str,
    behind: String,
)
    requires
        call_ensures(replace_text, (s, from, to), r),
        call_ensures(replace_text, (b, from, to), behind),
        from@.len() > 0,
    ensures
        !occurs(s@, from@) ==> r@ == s@,
        s@ == a + from@ + b@ && (forall|i: int|
            0 <= i < a.len() ==> !#[trigger] stands_at(s@, from@, i)) ==> r@ == a + to@ + behind@,
{
    if !occurs(s@, from@) {
        law_nothing_is_replaced(s@, from@, to@);
    }
    if s@ == a + from@ + b@ && (forall|i: int|
        0 <= i < a.len() ==> !#[trigger] stands_at(s@, from@, i)) {
        law_first_occurrence_is_replaced(a, from@, b@, to@);
    }
}

/// A number is written in decimal digits, without zeros before it.
pub proof fn law_decimal_text(n: u64, r: String)
    requires
        call_ensures(decimal_text, (n,), r),
    ensures
        number_of(r@) == n,
        r@.len() > 0,
        forall|i: int| 0 <= i < r@.len() ==> '0' <= #[trigger] r@[i] <= '9',
        r@[0] == '0' ==> r@.len() == 1,
{
    law_decimal_writes_number(n as nat);
}

/// Joined texts stand one behind the other.
pub proof fn law_joined(a: &str, b: &str, r: String)
    requires
        call_ensures(joined, (a, b), r),
    ensures
        r@ == a@ + b@,
{
}

/// A list holds a text where it stands in one of its places.
pub proof fn law_holds_text(v: Vec<String>, text: &str, r: bool)
    requires
        call_ensures(holds_text, (&v, text), r),
    ensures
        r <==> exists|i: int| 0 <= i < v@.len() && (#[trigger] v@[i])@ == text@,
{
    assert(texts(v@).len() == v@.len());
    if r {
        let i = choose|i: int| 0 <= i < texts(v@).len() && texts(v@)[i] == text@;
        assert(v@[i]@ == text@);
    }
    if exists|i: int| 0 <= i < v@.len() && (#[trigger] v@[i])@ == text@ {
        let i = choose|i: int| 0 <= i < v@.len() && (#[trigger] v@[i])@ == text@;
        assert(texts(v@)[i] == text@);
        assert(texts(v@).contains(text@));
    }
}

/// Where two texts differ, the first character in which they do decides which stands before the
/// other. A text stands before all that begin with it.
pub proof fn law_stands_before(
    a: &str,
    b: &str,
    r: bool,
    common: Seq<char>,
    x: char,
    y: char,
    behind_x: Seq<char>,
    behind_y: Seq<char>,
)
    requires
        call_ensures(stands_before, (a, b), r),
    ensures
        x != y && a@ == common + seq![x] + behind_x && b@ == common + seq![y] + behind_y ==> (r
            <==> (x as int) < y as int),
        b@ == a@ + behind_x ==> r,
        a@ == b@ + behind_x && behind_x.len() > 0 ==> !r,
{
    if x != y {
        law_first_difference_decides(common, x, behind_x, y, behind_y);
    }
    law_beginning_stands_before(a@, behind_x);
    law_beginning_stands_before(b@, behind_x);
}

/// Of a file's path in a plain directory, the last segment is the file's name, and what is left
/// without it is the directory.
pub proof fn law_path_parts(
    style: PathStyle,
    dir: Seq<char>,
    name: Seq<char>,
    path: &str,
    last: Option<String>,
    above: Option<String>,
)
    requires
        call_ensures(file_name, (style, path), last),
        call_ensures(parent, (style, path), above),
        is_plain_dir(style, dir),
        is_file_name(style, name),
        name[0] != '.',
        path@ == path_in(style, dir, name),
    ensures
        last matches Some(found) && found@ == name,
        above matches Some(found) && found@ == dir,
{
    law_child_path(style, dir, name);
}

/// The name behind the last slash of a path is its last, whatever stands before it.
pub proof fn law_name_behind_slash(dir: Seq<char>, name: Seq<char>, path: &str, r: Option<String>)
    requires
        call_ensures(file_name, (PathStyle::Posix, path), r),
        is_file_name(PathStyle::Posix, name),
        is_name(name),
        path@ == dir + seq!['/'] + name,
    ensures
        r matches Some(found) && found@ == name,
{
    law_last_name_of_path(dir, name);
}

/// A path is taken from a directory by writing it behind the directory's path, with a slash
/// between the two where there is none; an absolute path leads to the same place from
/// everywhere.
pub proof fn law_join(base: &str, p: &str, r: String)
    requires
        call_ensures(join, (PathStyle::Posix, base, p), r),
    ensures
        p@.len() > 0 && p@[0] == '/' ==> r@ == p@,
        !(p@.len() > 0 && p@[0] == '/') && base@.len() > 0 && base@.last() != '/' ==> r@ == base@
            + seq!['/'] + p@,
        !(p@.len() > 0 && p@[0] == '/') && (base@.len() == 0 || base@.last() == '/') ==> r@
            == base@ + p@,
{
    if p@.len() > 0 && p@[0] == '/' {
        law_absolute_path_stays(base@, p@);
    } else {
        law_relative_path_is_appended(base@, p@);
    }
}

/// The path of a name in a directory, in either style.
pub proof fn law_relative_path(dir: &str, name: &str, posix: String, windows: String)
    requires
        call_ensures(relative_path, (PathStyle::Posix, dir, name), posix),
        call_ensures(relative_path, (PathStyle::Windows, dir, name), windows),
    ensures
        dir@.len() == 0 ==> posix@ == name@ && windows@ == name@,
        dir@.len() > 0 ==> posix@ == dir@ + seq!['/'] + name@,
        dir@.len() > 0 ==> windows@ == dir@ + seq!['\\'] + name@,
{
    law_path_in_directory(dir@, name@);
}

/// An address that needs no other scheme has the endpoint's path added where it does not end in
/// it.
pub proof fn law_websocket_uri(uri: &str, r: String)
    requires
        call_ensures(websocket_uri, (uri,), r),
        !occurs(uri@, "http://"@),
        !occurs(uri@, "https://"@),
    ensures
        ends(uri@, "/ws"@) || ends(uri@, "/ws/"@) ==> r@ == uri@,
        !ends(uri@, "/ws"@) && !ends(uri@, "/ws/"@) && uri@.len() > 0 && uri@.last() == '/' ==> r@
            == uri@ + "ws"@,
        !ends(uri@, "/ws"@) && !ends(uri@, "/ws/"@) && (uri@.len() == 0 || uri@.last() != '/')
            ==> r@ == uri@ + "/ws"@,
{
    law_endpoint_is_added_once(uri@);
}

/// What a service file announces, whatever white space stands around it: the address that it
/// holds, with the scheme exchanged and the endpoint's path at its end.
pub proof fn law_service_uri_of_file(
    contents: &str,
    a: Seq<char>,
    rest: Seq<char>,
    b: Seq<char>,
    r: Option<String>,
)
    requires
        call_ensures(service_uri, (contents,), r),
        contents@ == a + ("http://"@ + rest) + b,
        forall|i: int| 0 <= i < a.len() ==> is_space(#[trigger] a[i]),
        forall|i: int| 0 <= i < b.len() ==> is_space(#[trigger] b[i]),
        rest.len() > 0 && !is_space(rest.last()),
        !occurs(rest, "http://"@),
        !occurs(rest, "https://"@),
    ensures
        r matches Some(uri) && uri@ == if ends("ws://"@ + rest, "/ws"@) || ends(
            "ws://"@ + rest,
            "/ws/"@,
        ) {
            "ws://"@ + rest
        } else if rest.last() == '/' {
            "ws://"@ + rest + "ws"@
        } else {
            "ws://"@ + rest + "/ws"@
        },
{
    law_file_announces_its_address(a, false, rest, b);
}

/// An address of a service that stands anywhere in what was printed is found, unless one on the
/// loopback interface or an earlier one is. Nothing else is found.
pub proof fn law_extract_vm_service_uri(output: &str, r: Option<String>)
    requires
        call_ensures(extract_vm_service_uri, (output,), r),
    ensures
        r is None ==> holds_no_uri(output@, "127.0.0.1"@) && holds_no_uri(output@, "localhost"@),
        !holds_no_uri(output@, "127.0.0.1"@) ==> r is Some && is_service_uri(
            r->0@,
            "127.0.0.1"@,
        ) && occurs(output@, r->0@),
        holds_no_uri(output@, "127.0.0.1"@) && !holds_no_uri(output@, "localhost"@) ==> r is Some
            && is_service_uri(r->0@, "localhost"@) && occurs(output@, r->0@),
{
    law_search_misses_no_uri(
        output@,
        match r {
            Some(uri) => Some(uri@),
            None => None,
        },
    );
}

/// Each failure has its message; only a refusal's says what the service said.
pub proof fn law_message<V>(error: VmServiceError<V>, detail: &str, r: String)
    requires
        call_ensures(VmServiceError::<V>::message, (&error, detail), r),
    ensures
        error is ConnectFailed ==> r@ == "Failed to connect to Dart VM Service"@,
        error is SendFailed ==> r@ == "Failed to send streamListen request"@,
        error is ReadFailed ==> r@ == "WebSocket read error"@,
        error is BadReply ==> r@ == "Failed to parse streamListen response"@,
        error is Refused ==> r@ == "streamListen failed: "@ + detail@,
{
}

} // verus!
