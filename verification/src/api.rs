//! Request shapes of the PezMax server API: endpoint URLs, headers, paging
//! queries and the resolution of download URLs.

use vstd::prelude::*;
use vstd::string::StringExecFns;
use crate::cache::{i64_to_decimal, int_decimal};
use crate::models::PageParams;
use crate::text::{chars_of, seq_starts_with, starts_with_chars};

verus! {

/// Server used when none is configured.
pub const BASE_URL: &'static str = "http://154.8.139.48:8080";

/// The configured server, or the default one.
pub fn base_url_or_default(base_url: Option<String>) -> (r: String)
    ensures
        r@ == match base_url {
            Some(b) => b@,
            None => BASE_URL@,
        },
{
    match base_url {
        Some(b) => b,
        None => BASE_URL.to_string(),
    }
}

/// Full URL of an API path: the server followed by the path.
pub fn endpoint(base: &str, path: &str) -> (r: String)
    ensures
        r@ == base@ + path@,
{
    let mut s = base.to_string();
    s.append(path);
    s
}

/// Value of the `Authorization` header for a token.
pub fn bearer_value(token: &str) -> (r: String)
    ensures
        r@ == "Bearer "@ + token@,
{
    let mut s = "Bearer ".to_string();
    s.append(token);
    s
}

/// Headers of a JSON request: the content type, and the bearer token when
/// there is one.
pub fn request_headers(token: Option<&str>) -> (r: Vec<(String, String)>)
    ensures
        r@.len() == if token is Some { 2int } else { 1int },
        r@[0].0@ == "Content-Type"@,
        r@[0].1@ == "application/json;charset=utf-8"@,
        token matches Some(t) ==> r@[1].0@ == "Authorization"@ && r@[1].1@ == "Bearer "@ + t@,
{
    let mut h: Vec<(String, String)> = Vec::new();
    h.push(("Content-Type".to_string(), "application/json;charset=utf-8".to_string()));
    match token {
        Some(t) => {
            h.push(("Authorization".to_string(), bearer_value(t)));
        },
        None => {},
    }
    h
}

/// Why a download URL was refused.
#[derive(Debug, Clone, Copy, PartialEq, Eq, Structural)]
pub enum UrlError {
    Empty,
}

/// A URL that names its scheme (`http://` or `https://`).
pub open spec fn is_absolute(url: Seq<char>) -> bool {
    seq_starts_with(url, "http://"@) || seq_starts_with(url, "https://"@)
}

/// The URL a download of `url` fetches: an absolute URL as it is, a relative
/// one under the server; an empty one is refused.
pub open spec fn resolved_url(base: Seq<char>, url: Seq<char>) -> Result<Seq<char>, UrlError> {
    if url.len() == 0 {
        Err(UrlError::Empty)
    } else if is_absolute(url) {
        Ok(url)
    } else {
        Ok(base + url)
    }
}

/// Resolve a download URL against the server.
pub fn resolve_raw_url(base: &str, url: &str) -> (r: Result<String, UrlError>)
    ensures
        match r {
            Ok(s) => resolved_url(base@, url@) == Ok::<Seq<char>, UrlError>(s@),
            Err(e) => resolved_url(base@, url@) == Err::<Seq<char>, UrlError>(e),
        },
{
    let cs = chars_of(url);
    if cs.len() == 0 {
        return Err(UrlError::Empty);
    }
    let http = chars_of("http://");
    let https = chars_of("https://");
    if starts_with_chars(cs.as_slice(), http.as_slice()) || starts_with_chars(cs.as_slice(), https.as_slice()) {
        Ok(url.to_string())
    } else {
        Ok(endpoint(base, url))
    }
}

/// Query of a paged list request: page number and page size in decimal.
pub fn page_query(params: &PageParams) -> (r: Vec<(String, String)>)
    ensures
        r@.len() == 2,
        r@[0].0@ == "pageNum"@,
        r@[0].1@ == int_decimal(params.page_num as int),
        r@[1].0@ == "pageSize"@,
        r@[1].1@ == int_decimal(params.page_size as int),
{
    let mut q: Vec<(String, String)> = Vec::new();
    q.push(("pageNum".to_string(), i64_to_decimal(params.page_num as i64)));
    q.push(("pageSize".to_string(), i64_to_decimal(params.page_size as i64)));
    q
}

/// `prefix` followed by the decimal ids, each after a `/`.
pub open spec fn id_path(prefix: Seq<char>, ids: Seq<i64>) -> Seq<char>
    decreases ids.len(),
{
    if ids.len() == 0 {
        prefix
    } else {
        id_path(prefix, ids.drop_last()) + seq!['/'] + int_decimal(ids.last() as int)
    }
}

fn push_id(s: &mut String, id: i64)
    ensures
        final(s)@ == old(s)@ + seq!['/'] + int_decimal(id as int),
{
    proof { reveal_strlit("/"); }
    s.append("/");
    s.append(i64_to_decimal(id).as_str());
}

/// Path of a user's download list.
pub fn download_list_path(user_id: i64) -> (r: String)
    ensures
        r@ == id_path("/datum/desktop/download/list"@, seq![user_id]),
{
    let mut s = "/datum/desktop/download/list".to_string();
    push_id(&mut s, user_id);
    proof {
        assert(seq![user_id].drop_last() =~= Seq::<i64>::empty());
        reveal_with_fuel(id_path, 2);
    }
    s
}

/// Path that hides one download record of a user.
pub fn hide_download_path(user_id: i64, file_id: i64) -> (r: String)
    ensures
        r@ == id_path("/datum/desktop/download"@, seq![user_id, file_id]),
{
    let mut s = "/datum/desktop/download".to_string();
    push_id(&mut s, user_id);
    push_id(&mut s, file_id);
    proof {
        assert(seq![user_id, file_id].drop_last() =~= seq![user_id]);
        assert(seq![user_id].drop_last() =~= Seq::<i64>::empty());
        reveal_with_fuel(id_path, 3);
    }
    s
}

/// Path of a user's favorite list.
pub fn favorite_list_path(user_id: i64) -> (r: String)
    ensures
        r@ == id_path("/datum/desktop/favorite/list"@, seq![user_id]),
{
    let mut s = "/datum/desktop/favorite/list".to_string();
    push_id(&mut s, user_id);
    proof {
        assert(seq![user_id].drop_last() =~= Seq::<i64>::empty());
        reveal_with_fuel(id_path, 2);
    }
    s
}

/// Path that removes one favorite of a user.
pub fn remove_favorite_path(user_id: i64, file_id: i64) -> (r: String)
    ensures
        r@ == id_path("/datum/desktop/favorite"@, seq![user_id, file_id]),
{
    let mut s = "/datum/desktop/favorite".to_string();
    push_id(&mut s, user_id);
    push_id(&mut s, file_id);
    proof {
        assert(seq![user_id, file_id].drop_last() =~= seq![user_id]);
        assert(seq![user_id].drop_last() =~= Seq::<i64>::empty());
        reveal_with_fuel(id_path, 3);
    }
    s
}


/// A path with one id is the prefix, a slash and the id in decimal; with two
/// ids, each id follows its own slash.
pub proof fn lemma_id_path_shape(prefix: Seq<char>, a: i64, b: i64)
    ensures
        id_path(prefix, seq![a]) == prefix + seq!['/'] + int_decimal(a as int),
        id_path(prefix, seq![a, b]) == prefix + seq!['/'] + int_decimal(a as int) + seq!['/'] + int_decimal(b as int),
{
    assert(seq![a].drop_last() =~= Seq::<i64>::empty());
    assert(seq![a, b].drop_last() =~= seq![a]);
    reveal_with_fuel(id_path, 3);
}

/// The characters of a decimal text: digits, and a leading minus sign.
proof fn lemma_decimal_chars(n: i64)
    ensures
        int_decimal(n as int).len() > 0,
        forall|i: int| 0 <= i < int_decimal(n as int).len() ==> #[trigger] int_decimal(n as int)[i] != '/',
{
    if n < 0 {
        crate::cache::lemma_nat_digits_are_digits((-(n as int)) as nat);
        let d = crate::cache::nat_digits((-(n as int)) as nat);
        assert forall|i: int| 0 <= i < int_decimal(n as int).len() implies #[trigger] int_decimal(n as int)[i] != '/' by {
            if i > 0 {
                assert(int_decimal(n as int)[i] == d[i - 1]);
            }
        }
    } else {
        crate::cache::lemma_nat_digits_are_digits(n as nat);
    }
}

/// Different ids give different paths: a path with ids names them uniquely.
pub proof fn lemma_id_path_injective(prefix: Seq<char>, a: i64, b: i64, c: i64, d: i64)
    ensures
        id_path(prefix, seq![a]) == id_path(prefix, seq![c]) ==> a == c,
        id_path(prefix, seq![a, b]) == id_path(prefix, seq![c, d]) ==> a == c && b == d,
{
    lemma_id_path_shape(prefix, a, b);
    lemma_id_path_shape(prefix, c, d);
    let da = int_decimal(a as int);
    let db = int_decimal(b as int);
    let dc = int_decimal(c as int);
    let dd = int_decimal(d as int);
    let k: int = prefix.len() as int + 1;
    let la: int = da.len() as int;
    let lc: int = dc.len() as int;
    if id_path(prefix, seq![a]) == id_path(prefix, seq![c]) {
        let x = prefix + seq!['/'] + da;
        let y = prefix + seq!['/'] + dc;
        assert(x.skip(k) =~= da);
        assert(y.skip(k) =~= dc);
        crate::cache::lemma_int_decimal_injective(a as int, c as int);
    }
    if id_path(prefix, seq![a, b]) == id_path(prefix, seq![c, d]) {
        let x = prefix + seq!['/'] + da + seq!['/'] + db;
        let y = prefix + seq!['/'] + dc + seq!['/'] + dd;
        lemma_decimal_chars(a);
        lemma_decimal_chars(c);
        if da.len() < dc.len() {
            assert(x[k + la] == '/');
            assert(y[k + la] == dc[la]);
            assert(false);
        } else if dc.len() < da.len() {
            assert(y[k + lc] == '/');
            assert(x[k + lc] == da[lc]);
            assert(false);
        }
        assert(x.subrange(k, k + la) =~= da);
        assert(y.subrange(k, k + lc) =~= dc);
        crate::cache::lemma_int_decimal_injective(a as int, c as int);
        assert(x.skip(k + la + 1) =~= db);
        assert(y.skip(k + lc + 1) =~= dd);
        crate::cache::lemma_int_decimal_injective(b as int, d as int);
    }
}


/// An empty address is refused; an `http://` or `https://` address is used
/// as it is; any other address is taken under the server, ending with it.
pub proof fn lemma_url_resolution(base: Seq<char>, url: Seq<char>)
    ensures
        url.len() == 0 <==> resolved_url(base, url) is Err,
        (url.len() > 0 && (seq_starts_with(url, "http://"@) || seq_starts_with(url, "https://"@)))
            ==> resolved_url(base, url) == Ok::<Seq<char>, UrlError>(url),
        (url.len() > 0 && !seq_starts_with(url, "http://"@) && !seq_starts_with(url, "https://"@))
            ==> (resolved_url(base, url) matches Ok(r) && r.len() == base.len() + url.len()
                && r.take(base.len() as int) == base && r.skip(base.len() as int) == url),
{
    if url.len() > 0 && !seq_starts_with(url, "http://"@) && !seq_starts_with(url, "https://"@) {
        assert((base + url).take(base.len() as int) =~= base);
        assert((base + url).skip(base.len() as int) =~= url);
    }
}

} // verus!
