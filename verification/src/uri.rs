//! The address of a running app's VM service: how it is read from the file that
//! `flutter run` leaves behind, and how it becomes a WebSocket address.

use crate::text::{
    begins, end_trimmed, ends, ends_with, is_space, law_first_occurrence_is_replaced,
    law_nothing_is_replaced, law_trimming_finds_core, occurs, replace_text, replaced, stands_at,
    start_trimmed, trim, trimmed,
};
use vstd::prelude::*;

verus! {

/// `uri` with the WebSocket schemes in place of the HTTP ones.
pub open spec fn websocket_schemes(uri: Seq<char>) -> Seq<char> {
    replaced(replaced(uri, "http://"@, "ws://"@), "https://"@, "wss://"@)
}

/// `uri` ends in the path of the WebSocket endpoint.
pub open spec fn names_endpoint(uri: Seq<char>) -> bool {
    ends(uri, "/ws"@) || ends(uri, "/ws/"@)
}

/// The WebSocket address for `uri`: the schemes exchanged, and the endpoint's path added
/// where it is missing.
pub open spec fn websocket_form(uri: Seq<char>) -> Seq<char> {
    let ws = websocket_schemes(uri);
    if names_endpoint(ws) {
        ws
    } else if ends(ws, "/"@) {
        ws + "ws"@
    } else {
        ws + "/ws"@
    }
}

/// What a service file asks to connect to, if it names anything.
pub open spec fn announced_uri(contents: Seq<char>) -> Option<Seq<char>> {
    let uri = trimmed(contents);
    if uri.len() == 0 {
        None
    } else {
        Some(websocket_form(uri))
    }
}

/// The WebSocket address for `uri`.
pub fn websocket_uri(uri: &str) -> (r: String)
    ensures
        r@ == websocket_form(uri@),
{
    proof {
        reveal_strlit("http://");
        reveal_strlit("https://");
    }
    let plain = replace_text(uri, "http://", "ws://");
    let mut ws = replace_text(plain.as_str(), "https://", "wss://");
    if !ends_with(ws.as_str(), "/ws") && !ends_with(ws.as_str(), "/ws/") {
        if ends_with(ws.as_str(), "/") {
            ws.append("ws");
        } else {
            ws.append("/ws");
        }
    }
    ws
}

/// The WebSocket address that the contents of a service file announce. A file that holds
/// only white space announces none.
pub fn service_uri(contents: &str) -> (r: Option<String>)
    ensures
        r matches Some(uri) ==> announced_uri(contents@) == Some(uri@),
        r is None ==> announced_uri(contents@) is None,
{
    let uri = trim(contents);
    if uri.as_str().is_empty() {
        None
    } else {
        Some(websocket_uri(uri.as_str()))
    }
}

/// Where the replacing text begins with a character that `p` lacks, what `replaced` begins
/// with was there before.
proof fn lemma_replaced_begins(s: Seq<char>, from: Seq<char>, to: Seq<char>, p: Seq<char>)
    requires
        to.len() > 0,
        !p.contains(to[0]),
        begins(replaced(s, from, to), p),
    ensures
        begins(s, p),
    decreases s.len(),
{
    let r = replaced(s, from, to);
    if p.len() == 0 {
        assert(s.subrange(0, 0) =~= p);
    } else if from.len() == 0 || s.len() == 0 {
    } else if begins(s, from) {
        assert(r.subrange(0, p.len() as int)[0] == to[0]);
        assert(p[0] == to[0]);
        assert(false);
    } else {
        let rest = replaced(s.skip(1), from, to);
        let q = p.skip(1);
        assert(r.subrange(0, p.len() as int)[0] == s[0]);
        assert(rest.subrange(0, q.len() as int) =~= r.subrange(0, p.len() as int).skip(1));
        assert(!q.contains(to[0])) by {
            if q.contains(to[0]) {
                let k = choose|k: int| 0 <= k < q.len() && q[k] == to[0];
                assert(p[k + 1] == to[0]);
            }
        }
        lemma_replaced_begins(s.skip(1), from, to, q);
        assert(s.subrange(0, p.len() as int) =~= p) by {
            assert forall|k: int| 0 <= k < p.len() implies s[k] == p[k] by {
                if k > 0 {
                    assert(s.skip(1).subrange(0, q.len() as int)[k - 1] == q[k - 1]);
                }
            }
        }
    }
}

/// Replacing brings in no new occurrence of `q`, where `q` and the replacing text lack
/// each other's first character.
proof fn lemma_replaced_adds_none(s: Seq<char>, from: Seq<char>, to: Seq<char>, q: Seq<char>)
    requires
        to.len() > 0,
        q.len() > 0,
        !q.contains(to[0]),
        !to.contains(q[0]),
        !occurs(s, q) || q == from,
    ensures
        !occurs(replaced(s, from, to), q),
    decreases s.len(),
{
    let r = replaced(s, from, to);
    if occurs(r, q) {
        let i = choose|i: int| stands_at(r, q, i);
        assert(r.subrange(i, i + q.len())[0] == q[0]);
        if from.len() == 0 || s.len() == 0 {
            assert(occurs(s, q));
        } else if begins(s, from) {
            let n = from.len() as int;
            let rest = s.skip(n);
            if occurs(rest, q) {
                let k = choose|k: int| stands_at(rest, q, k);
                assert(s.subrange(k + n, k + n + q.len()) =~= rest.subrange(k, k + q.len()));
                assert(stands_at(s, q, k + n));
            }
            lemma_replaced_adds_none(rest, from, to, q);
            let tail = replaced(rest, from, to);
            if i < to.len() {
                assert(r[i] == to[i]);
            } else {
                assert(tail.subrange(i - to.len(), i - to.len() + q.len()) =~= r.subrange(
                    i,
                    i + q.len(),
                ));
                assert(stands_at(tail, q, i - to.len()));
            }
        } else {
            let rest = s.skip(1);
            if occurs(rest, q) {
                let k = choose|k: int| stands_at(rest, q, k);
                assert(s.subrange(k + 1, k + 1 + q.len()) =~= rest.subrange(k, k + q.len()));
                assert(stands_at(s, q, k + 1));
            }
            lemma_replaced_adds_none(rest, from, to, q);
            let tail = replaced(rest, from, to);
            if i == 0 {
                lemma_replaced_begins(s, from, to, q);
                assert(stands_at(s, q, 0));
            } else {
                assert(tail.subrange(i - 1, i - 1 + q.len()) =~= r.subrange(i, i + q.len()));
                assert(stands_at(tail, q, i - 1));
            }
        }
    }
}

/// Where there is nothing to replace, nothing changes.
pub proof fn lemma_replaced_nothing(s: Seq<char>, from: Seq<char>, to: Seq<char>)
    requires
        !occurs(s, from),
    ensures
        replaced(s, from, to) == s,
{
    law_nothing_is_replaced(s, from, to);
}

/// Exchanging the schemes leaves none of the HTTP ones.
proof fn lemma_schemes_exchanged(uri: Seq<char>)
    ensures
        !occurs(websocket_schemes(uri), "http://"@),
        !occurs(websocket_schemes(uri), "https://"@),
{
    reveal_strlit("http://");
    reveal_strlit("https://");
    reveal_strlit("ws://");
    reveal_strlit("wss://");
    let once = replaced(uri, "http://"@, "ws://"@);
    lemma_replaced_adds_none(uri, "http://"@, "ws://"@, "http://"@);
    lemma_replaced_adds_none(once, "https://"@, "wss://"@, "http://"@);
    lemma_replaced_adds_none(once, "https://"@, "wss://"@, "https://"@);
}

/// Adding the endpoint's path to `s` brings in no occurrence of `q`, where `q` has no `w`
/// and would need two slashes of which `s` supplies the first.
proof fn lemma_suffix_adds_none(s: Seq<char>, suffix: Seq<char>, q: Seq<char>)
    requires
        q.len() > 1,
        !occurs(s, q),
        suffix == "ws"@ || suffix == "/ws"@ && !ends(s, "/"@),
        !q.contains('w'),
        q[q.len() - 2] == '/',
    ensures
        !occurs(s + suffix, q),
{
    reveal_strlit("ws");
    reveal_strlit("/ws");
    reveal_strlit("/");
    let r = s + suffix;
    if occurs(r, q) {
        let i = choose|i: int| stands_at(r, q, i);
        let n = s.len() as int;
        assert forall|k: int| 0 <= k < q.len() implies r[i + k] == q[k] by {
            assert(r.subrange(i, i + q.len())[k] == q[k]);
        }
        if i + q.len() <= n {
            assert(s.subrange(i, i + q.len()) =~= r.subrange(i, i + q.len()));
            assert(stands_at(s, q, i));
        } else if i > n {
            assert(q[0] == r[i]);
            assert(q.contains(r[i]));
            assert(q.contains(r[i + 1]));
        } else if suffix == "ws"@ {
            assert(q[n - i] == r[n]);
            assert(q.contains(r[n]));
        } else if i + q.len() > n + 1 {
            assert(q[n + 1 - i] == r[n + 1]);
            assert(q.contains(r[n + 1]));
        } else {
            assert(q[q.len() - 2] == r[n - 1]);
            assert(s[n - 1] == '/');
            assert(s.subrange(n - 1, n) =~= "/"@);
            assert(ends(s, "/"@));
        }
    }
}

/// A WebSocket address names the endpoint.
pub proof fn law_websocket_form_names_endpoint(uri: Seq<char>)
    ensures
        names_endpoint(websocket_form(uri)),
{
    reveal_strlit("/ws");
    reveal_strlit("/ws/");
    reveal_strlit("/");
    reveal_strlit("ws");
    let ws = websocket_schemes(uri);
    let r = websocket_form(uri);
    if names_endpoint(ws) {
    } else if ends(ws, "/"@) {
        assert(ws.subrange(ws.len() - 1, ws.len() as int)[0] == '/');
        assert(r.subrange(r.len() - 3, r.len() as int) =~= "/ws"@);
    } else {
        assert(r.subrange(r.len() - 3, r.len() as int) =~= "/ws"@);
    }
}

/// A WebSocket address holds no HTTP scheme, wherever one stood before.
pub proof fn law_websocket_form_has_no_http(uri: Seq<char>)
    ensures
        !occurs(websocket_form(uri), "http://"@),
        !occurs(websocket_form(uri), "https://"@),
{
    lemma_schemes_exchanged(uri);
    reveal_strlit("http://");
    reveal_strlit("https://");
    let ws = websocket_schemes(uri);
    if names_endpoint(ws) {
    } else if ends(ws, "/"@) {
        lemma_suffix_adds_none(ws, "ws"@, "http://"@);
        lemma_suffix_adds_none(ws, "ws"@, "https://"@);
    } else {
        lemma_suffix_adds_none(ws, "/ws"@, "http://"@);
        lemma_suffix_adds_none(ws, "/ws"@, "https://"@);
    }
}

/// A text that names the endpoint and holds no HTTP scheme is its own WebSocket address.
pub proof fn law_websocket_form_keeps_websocket_uris(uri: Seq<char>)
    requires
        names_endpoint(uri),
        !occurs(uri, "http://"@),
        !occurs(uri, "https://"@),
    ensures
        websocket_form(uri) == uri,
{
    lemma_replaced_nothing(uri, "http://"@, "ws://"@);
    lemma_replaced_nothing(uri, "https://"@, "wss://"@);
}

/// Taking the WebSocket address twice changes nothing more than taking it once.
pub proof fn law_websocket_form_is_idempotent(uri: Seq<char>)
    ensures
        websocket_form(websocket_form(uri)) == websocket_form(uri),
{
    law_websocket_form_names_endpoint(uri);
    law_websocket_form_has_no_http(uri);
    law_websocket_form_keeps_websocket_uris(websocket_form(uri));
}

/// A service file announces an address unless it holds nothing but white space.
pub proof fn law_blank_file_announces_nothing(contents: Seq<char>)
    ensures
        announced_uri(contents) is None <==> (forall|i: int|
            0 <= i < contents.len() ==> is_space(#[trigger] contents[i])),
{
    let kept = end_trimmed(contents);
    lemma_end_trimmed(contents);
    lemma_start_trimmed(kept);
    if trimmed(contents).len() == 0 {
        assert forall|i: int| 0 <= i < contents.len() implies is_space(#[trigger] contents[i]) by {
            if i < kept.len() {
                assert(kept[i] == contents[i]);
            }
        }
    } else if forall|i: int| 0 <= i < contents.len() ==> is_space(#[trigger] contents[i]) {
        assert(kept.len() > 0);
        assert(is_space(contents[kept.len() - 1]));
    }
}

proof fn lemma_end_trimmed(s: Seq<char>)
    ensures
        end_trimmed(s).len() <= s.len(),
        forall|i: int| 0 <= i < end_trimmed(s).len() ==> #[trigger] end_trimmed(s)[i] == s[i],
        forall|i: int| end_trimmed(s).len() <= i < s.len() ==> is_space(#[trigger] s[i]),
        end_trimmed(s).len() > 0 ==> !is_space(s[end_trimmed(s).len() - 1]),
    decreases s.len(),
{
    if s.len() > 0 && is_space(s.last()) {
        lemma_end_trimmed(s.drop_last());
        assert forall|i: int| end_trimmed(s).len() <= i < s.len() implies is_space(
            #[trigger] s[i],
        ) by {
            if i < s.len() - 1 {
                assert(s.drop_last()[i] == s[i]);
            }
        }
    }
}

proof fn lemma_start_trimmed(s: Seq<char>)
    ensures
        start_trimmed(s).len() == 0 ==> (forall|i: int|
            0 <= i < s.len() ==> is_space(#[trigger] s[i])),
        start_trimmed(s).len() <= s.len(),
    decreases s.len(),
{
    if s.len() > 0 && is_space(s[0]) {
        lemma_start_trimmed(s.skip(1));
        if start_trimmed(s).len() == 0 {
            assert forall|i: int| 0 <= i < s.len() implies is_space(#[trigger] s[i]) by {
                if i > 0 {
                    assert(s.skip(1)[i - 1] == s[i]);
                }
            }
        }
    }
}

/// Where a text begins with a character that is no white space, and what replaces does too, so
/// does the result.
proof fn lemma_replaced_begins_unspaced(s: Seq<char>, from: Seq<char>, to: Seq<char>)
    requires
        s.len() > 0,
        !is_space(s[0]),
        to.len() > 0,
        !is_space(to[0]),
    ensures
        replaced(s, from, to).len() > 0,
        !is_space(replaced(s, from, to)[0]),
{
}

/// A WebSocket address of a trimmed text needs no trimming.
proof fn lemma_websocket_form_is_trimmed(uri: Seq<char>)
    requires
        uri.len() > 0,
        !is_space(uri[0]),
    ensures
        websocket_form(uri).len() > 0,
        trimmed(websocket_form(uri)) == websocket_form(uri),
{
    let r = websocket_form(uri);
    let once = replaced(uri, "http://"@, "ws://"@);
    assert(!is_space(once[0]) && once.len() > 0) by {
        reveal_strlit("ws://");
        lemma_replaced_begins_unspaced(uri, "http://"@, "ws://"@);
    }
    assert(!is_space(r[0])) by {
        reveal_strlit("wss://");
        lemma_replaced_begins_unspaced(once, "https://"@, "wss://"@);
    }
    law_websocket_form_names_endpoint(uri);
    reveal_strlit("/ws");
    reveal_strlit("/ws/");
    let n = r.len() as int;
    if ends(r, "/ws"@) {
        assert(r.subrange(n - 3, n)[2] == 's');
    } else {
        assert(r.subrange(n - 4, n)[3] == '/');
    }
    assert(!is_space(r.last()));
}

proof fn lemma_start_trimmed_begins_unspaced(s: Seq<char>)
    ensures
        start_trimmed(s).len() > 0 ==> !is_space(start_trimmed(s)[0]),
    decreases s.len(),
{
    if s.len() > 0 && is_space(s[0]) {
        lemma_start_trimmed_begins_unspaced(s.skip(1));
    }
}

/// What a service file announces is announced unchanged by a file that holds it.
pub proof fn law_announced_uri_announces_itself(contents: Seq<char>)
    ensures
        announced_uri(contents) matches Some(uri) ==> announced_uri(uri) == Some(uri),
{
    if let Some(uri) = announced_uri(contents) {
        lemma_start_trimmed_begins_unspaced(end_trimmed(contents));
        lemma_websocket_form_is_trimmed(trimmed(contents));
        law_websocket_form_is_idempotent(trimmed(contents));
    }
}

/// A line break at the end of a service file changes nothing, nor does other white space.
pub proof fn law_space_at_end_changes_nothing(contents: Seq<char>, c: char)
    requires
        is_space(c),
    ensures
        announced_uri(contents.push(c)) == announced_uri(contents),
{
    assert(contents.push(c).drop_last() =~= contents);
}

/// `scheme` in front of a text brings in no occurrence of `q`, where `q` begins with a character
/// that the scheme has at most at its own beginning, and is not what the whole begins with.
proof fn lemma_scheme_adds_none(scheme: Seq<char>, rest: Seq<char>, q: Seq<char>)
    requires
        q.len() > 0,
        !occurs(rest, q),
        forall|i: int| 0 < i < scheme.len() ==> #[trigger] scheme[i] != q[0],
        !stands_at(scheme + rest, q, 0),
    ensures
        !occurs(scheme + rest, q),
{
    let s = scheme + rest;
    if occurs(s, q) {
        let i = choose|i: int| stands_at(s, q, i);
        assert(s.subrange(i, i + q.len())[0] == q[0]);
        if i < scheme.len() {
            assert(s[i] == scheme[i]);
        } else {
            let k = i - scheme.len();
            assert(rest.subrange(k, k + q.len()) =~= s.subrange(i, i + q.len()));
            assert(stands_at(rest, q, k));
        }
    }
}

/// `http://` becomes `ws://` and `https://` becomes `wss://`; the rest of an address stays as
/// it is.
pub proof fn law_schemes_are_exchanged(rest: Seq<char>)
    requires
        !occurs(rest, "http://"@),
        !occurs(rest, "https://"@),
    ensures
        websocket_schemes("http://"@ + rest) == "ws://"@ + rest,
        websocket_schemes("https://"@ + rest) == "wss://"@ + rest,
        websocket_schemes(rest) == rest,
{
    reveal_strlit("http://");
    reveal_strlit("https://");
    reveal_strlit("ws://");
    reveal_strlit("wss://");
    let http = "http://"@;
    let https = "https://"@;
    let none = Seq::<char>::empty();
    assert(none + http + rest =~= http + rest);
    assert(none + https + rest =~= https + rest);
    law_nothing_is_replaced(rest, http, "ws://"@);
    law_nothing_is_replaced(rest, https, "wss://"@);
    law_first_occurrence_is_replaced(none, http, rest, "ws://"@);
    assert(none + "ws://"@ + rest =~= "ws://"@ + rest);
    assert(!stands_at("ws://"@ + rest, https, 0)) by {
        assert(("ws://"@ + rest)[0] == 'w');
        if stands_at("ws://"@ + rest, https, 0) {
            assert(("ws://"@ + rest).subrange(0, 8)[0] == https[0]);
        }
    }
    lemma_scheme_adds_none("ws://"@, rest, https);
    law_nothing_is_replaced("ws://"@ + rest, https, "wss://"@);
    assert(!stands_at(https + rest, http, 0)) by {
        assert((https + rest)[4] == 's');
        if stands_at(https + rest, http, 0) {
            assert((https + rest).subrange(0, 7)[4] == http[4]);
        }
    }
    lemma_scheme_adds_none(https, rest, http);
    law_nothing_is_replaced(https + rest, http, "ws://"@);
    law_first_occurrence_is_replaced(none, https, rest, "wss://"@);
    assert(none + "wss://"@ + rest =~= "wss://"@ + rest);
}

/// The endpoint's path is added to an address that does not end in it, with the slash that it
/// needs. Nothing else is added, and nothing is taken away.
pub proof fn law_endpoint_is_added_once(address: Seq<char>)
    requires
        !occurs(address, "http://"@),
        !occurs(address, "https://"@),
    ensures
        ends(address, "/ws"@) || ends(address, "/ws/"@) ==> websocket_form(address) == address,
        !ends(address, "/ws"@) && !ends(address, "/ws/"@) && address.len() > 0 && address.last()
            == '/' ==> websocket_form(address) == address + "ws"@,
        !ends(address, "/ws"@) && !ends(address, "/ws/"@) && (address.len() == 0 || address.last()
            != '/') ==> websocket_form(address) == address + "/ws"@,
{
    law_schemes_are_exchanged(address);
    reveal_strlit("/");
    let n = address.len() as int;
    if n > 0 {
        assert(address.subrange(n - 1, n) =~= seq![address.last()]);
        assert(seq![address.last()][0] == address.last());
        if address.last() == '/' {
            assert(address.subrange(n - 1, n) =~= "/"@);
        }
    }
}

/// What a service file announces, whatever white space stands around it: the address that it
/// holds, with the scheme exchanged and the endpoint's path at its end.
pub proof fn law_file_announces_its_address(
    a: Seq<char>,
    secure: bool,
    rest: Seq<char>,
    b: Seq<char>,
)
    requires
        forall|i: int| 0 <= i < a.len() ==> is_space(#[trigger] a[i]),
        forall|i: int| 0 <= i < b.len() ==> is_space(#[trigger] b[i]),
        rest.len() > 0 && !is_space(rest.last()),
        !occurs(rest, "http://"@),
        !occurs(rest, "https://"@),
    ensures
        ({
            let held = if secure {
                "https://"@ + rest
            } else {
                "http://"@ + rest
            };
            let address = if secure {
                "wss://"@ + rest
            } else {
                "ws://"@ + rest
            };
            announced_uri(a + held + b) == Some(
                if ends(address, "/ws"@) || ends(address, "/ws/"@) {
                    address
                } else if rest.last() == '/' {
                    address + "ws"@
                } else {
                    address + "/ws"@
                },
            )
        }),
{
    reveal_strlit("http://");
    reveal_strlit("https://");
    reveal_strlit("ws://");
    reveal_strlit("wss://");
    reveal_strlit("/");
    let held = if secure {
        "https://"@ + rest
    } else {
        "http://"@ + rest
    };
    let address = if secure {
        "wss://"@ + rest
    } else {
        "ws://"@ + rest
    };
    assert(held[0] == 'h' && held.last() == rest.last());
    law_trimming_finds_core(a, held, b);
    law_schemes_are_exchanged(rest);
    let n = address.len() as int;
    assert(address.last() == rest.last());
    assert(address.subrange(n - 1, n) =~= seq![rest.last()]);
    if rest.last() == '/' {
        assert(address.subrange(n - 1, n) =~= "/"@);
    } else {
        assert(address.subrange(n - 1, n)[0] != "/"@[0]);
    }
}

} // verus!
