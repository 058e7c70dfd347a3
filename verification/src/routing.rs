//! Which request is for which handler.

use crate::bytes::{find_from, lemma_first_match_from, pieces_from, same_bytes, split};
use crate::text::{
    lemma_boundary_after_ascii, lemma_boundary_at_ascii, lemma_encode_ascii, text_between,
};
use vstd::prelude::*;
use vstd::slice::slice_subrange;
use vstd::string::StringSliceAdditionalSpecFns;
use vstd::utf8::{encode_utf8, encode_utf8_valid_utf8, is_char_boundary_start_end_of_seq};

verus! {

/// The method of a request, as far as the routes tell methods apart.
#[derive(Clone, Copy, Debug, PartialEq, Eq, Structural)]
pub enum RequestMethod {
    Get,
    Post,
    Options,
    Other,
}

/// The handler that a request is for.
#[derive(Debug, PartialEq, Eq)]
pub enum Route {
    /// The answer to a preflight request.
    Preflight,
    /// The upload of a file.
    Upload,
    /// The progress of the scan with the given identifier.
    ScanStatus(String),
    /// The result of the scan with the given identifier.
    ScanResult(String),
    /// No handler.
    NotFound,
}

/// A route, with its scan identifier as UTF-8 bytes.
pub enum RouteView {
    Preflight,
    Upload,
    ScanStatus(Seq<u8>),
    ScanResult(Seq<u8>),
    NotFound,
}

impl View for Route {
    type V = RouteView;

    open spec fn view(&self) -> RouteView {
        match self {
            Route::Preflight => RouteView::Preflight,
            Route::Upload => RouteView::Upload,
            Route::ScanStatus(id) => RouteView::ScanStatus(encode_utf8(id@)),
            Route::ScanResult(id) => RouteView::ScanResult(encode_utf8(id@)),
            Route::NotFound => RouteView::NotFound,
        }
    }
}

/// The headers that let a page of any origin use the service, each as a
/// pair of name and value.
pub open spec fn cors_pairs() -> Seq<(Seq<char>, Seq<char>)> {
    seq![
        ("Access-Control-Allow-Origin"@, "*"@),
        ("Access-Control-Allow-Methods"@, "GET, POST, OPTIONS"@),
        ("Access-Control-Allow-Headers"@, "Content-Type"@),
    ]
}

/// The headers that every response carries, in the order in which they are
/// attached.
pub fn cors_headers() -> (headers: Vec<(String, String)>)
    ensures
        headers@.len() == cors_pairs().len(),
        forall|i: int|
            0 <= i < headers@.len() ==> (#[trigger] headers@[i]).0@ == cors_pairs()[i].0
                && headers@[i].1@ == cors_pairs()[i].1,
{
    let mut headers: Vec<(String, String)> = Vec::new();
    headers.push(("Access-Control-Allow-Origin".to_owned(), "*".to_owned()));
    headers.push(("Access-Control-Allow-Methods".to_owned(), "GET, POST, OPTIONS".to_owned()));
    headers.push(("Access-Control-Allow-Headers".to_owned(), "Content-Type".to_owned()));
    headers
}

/// The segments of a path: what its slashes separate.
pub open spec fn segments(url: Seq<u8>) -> Seq<Seq<u8>> {
    split(url, "/".spec_bytes())
}

/// The path has a fourth segment behind `/api/` and the given name.
pub open spec fn names_scan(url: Seq<u8>, name: Seq<u8>) -> bool {
    &&& segments(url).len() >= 4
    &&& segments(url)[1] == "api".spec_bytes()
    &&& segments(url)[2] == name
}

/// The route of a request. Every `OPTIONS` request is a preflight; a `POST`
/// to exactly `/api/upload` is an upload; a `GET` of `/api/scan-status/` or
/// `/api/scan-result/` and an identifier asks for the progress or the result
/// of that scan. What precedes the first slash and what follows the
/// identifier's segment is not looked at.
pub open spec fn route_of(method: RequestMethod, url: Seq<u8>) -> RouteView {
    if method == RequestMethod::Options {
        RouteView::Preflight
    } else if method == RequestMethod::Post && url == "/api/upload".spec_bytes() {
        RouteView::Upload
    } else if method == RequestMethod::Get && names_scan(url, "scan-status".spec_bytes()) {
        RouteView::ScanStatus(segments(url)[3])
    } else if method == RequestMethod::Get && names_scan(url, "scan-result".spec_bytes()) {
        RouteView::ScanResult(segments(url)[3])
    } else {
        RouteView::NotFound
    }
}

/// Where the first four segments of a path lie: the start of each of the
/// second, third and fourth, and the end of the fourth.
struct Cuts {
    second: usize,
    third: usize,
    fourth: usize,
    end: usize,
}

/// Finds the first four segments of a path, if it has that many.
fn first_four(url: &[u8]) -> (r: Option<Cuts>)
    ensures
        match r {
            Some(cuts) => {
                &&& segments(url@).len() >= 4
                &&& 1 <= cuts.second < cuts.third < cuts.fourth <= cuts.end <= url@.len()
                &&& url@[cuts.second - 1] == 0x2fu8
                &&& url@[cuts.third - 1] == 0x2fu8
                &&& url@[cuts.fourth - 1] == 0x2fu8
                &&& cuts.end < url@.len() ==> url@[cuts.end as int] == 0x2fu8
                &&& segments(url@)[1] == url@.subrange(cuts.second as int, cuts.third - 1)
                &&& segments(url@)[2] == url@.subrange(cuts.third as int, cuts.fourth - 1)
                &&& segments(url@)[3] == url@.subrange(cuts.fourth as int, cuts.end as int)
            },
            None => segments(url@).len() < 4,
        },
{
    let slash = "/".as_bytes();
    let n: usize = url.len();
    proof {
        reveal_strlit("/");
        lemma_encode_ascii("/"@);
        assert(slash@ =~= seq![0x2fu8]);
    }
    let ghost s = slash@;
    let ghost u = url@;
    let first = match find_from(url, slash, 0) {
        Some(i) => i,
        None => {
            return None;
        },
    };
    proof {
        lemma_first_match_from(u, s, 0);
        assert(u.subrange(first as int, first + 1)[0] == u[first as int]);
    }
    let second: usize = first + 1;
    let ghost rest1 = pieces_from(u, s, second as int);
    assert(pieces_from(u, s, 0) =~= seq![u.subrange(0, first as int)] + rest1);
    let next = match find_from(url, slash, second) {
        Some(i) => i,
        None => {
            assert(rest1.len() == 1);
            return None;
        },
    };
    proof {
        lemma_first_match_from(u, s, second as int);
        assert(u.subrange(next as int, next + 1)[0] == u[next as int]);
    }
    let third: usize = next + 1;
    let ghost rest2 = pieces_from(u, s, third as int);
    assert(rest1 =~= seq![u.subrange(second as int, next as int)] + rest2);
    let then = match find_from(url, slash, third) {
        Some(i) => i,
        None => {
            assert(rest2.len() == 1);
            return None;
        },
    };
    proof {
        lemma_first_match_from(u, s, third as int);
        assert(u.subrange(then as int, then + 1)[0] == u[then as int]);
    }
    let fourth: usize = then + 1;
    let ghost rest3 = pieces_from(u, s, fourth as int);
    assert(rest2 =~= seq![u.subrange(third as int, then as int)] + rest3);
    let hit = find_from(url, slash, fourth);
    let end: usize = match hit {
        Some(i) => i,
        None => n,
    };
    proof {
        lemma_first_match_from(u, s, fourth as int);
        match hit {
            Some(i) => {
                assert(u.subrange(i as int, i + 1)[0] == u[i as int]);
                assert(rest3 =~= seq![u.subrange(fourth as int, end as int)] + pieces_from(
                    u,
                    s,
                    i + 1,
                ));
            },
            None => {
                assert(rest3 =~= seq![u.subrange(fourth as int, end as int)]);
            },
        }
        assert(rest3[0] == u.subrange(fourth as int, end as int));
        assert(segments(u)[1] == rest1[0]);
        assert(segments(u)[2] == rest2[0]);
        assert(segments(u)[3] == rest3[0]);
    }
    Some(Cuts { second, third, fourth, end })
}

/// Finds the route of a request.
pub fn route(method: RequestMethod, url: &str) -> (r: Route)
    ensures
        r@ == route_of(method, url.spec_bytes()),
{
    let bytes = url.as_bytes();
    match method {
        RequestMethod::Options => {
            return Route::Preflight;
        },
        RequestMethod::Post => {
            return if same_bytes(bytes, "/api/upload".as_bytes()) {
                Route::Upload
            } else {
                Route::NotFound
            };
        },
        RequestMethod::Other => {
            return Route::NotFound;
        },
        RequestMethod::Get => {},
    }
    let cuts = match first_four(bytes) {
        Some(cuts) => cuts,
        None => {
            return Route::NotFound;
        },
    };
    if !same_bytes(slice_subrange(bytes, cuts.second, cuts.third - 1), "api".as_bytes()) {
        return Route::NotFound;
    }
    let name = slice_subrange(bytes, cuts.third, cuts.fourth - 1);
    let status = same_bytes(name, "scan-status".as_bytes());
    let result = same_bytes(name, "scan-result".as_bytes());
    if !status && !result {
        return Route::NotFound;
    }
    proof {
        encode_utf8_valid_utf8(url@);
        lemma_boundary_after_ascii(bytes@, cuts.fourth - 1);
        if cuts.end < bytes@.len() {
            lemma_boundary_at_ascii(bytes@, cuts.end as int);
        } else {
            is_char_boundary_start_end_of_seq(bytes@);
        }
    }
    let id: String = match text_between(url, cuts.fourth, cuts.end) {
        Some(part) => part.to_owned(),
        None => {
            assert(false);
            String::new()
        },
    };
    if status {
        Route::ScanStatus(id)
    } else {
        Route::ScanResult(id)
    }
}

} // verus!
