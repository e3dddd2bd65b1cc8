//! Google sign-in for the desktop app: which client id is used, the
//! authorization address the browser opens, what the redirect back to the
//! app yields, and what the backend's token answers come to.

use vstd::prelude::*;
use vstd::utf8::encode_utf8;
use crate::char_code::hex_byte;
use crate::text::same_text;

verus! {

/// Resolves the OAuth client id: the one handed over, else the one from
/// the environment (`LEAF_CLIENTID`); an error when there is neither.
pub fn resolve_client_id(given: Option<String>, from_env: Option<String>) -> (r: Result<String, String>)
    ensures
        match given {
            Some(g) => r == Ok::<String, String>(g),
            None => match from_env {
                Some(e) => r == Ok::<String, String>(e),
                None => r matches Err(m) && m@ == "LEAF_CLIENTID not set and no clientId provided"@,
            },
        },
{
    match given {
        Some(g) => Ok(g),
        None => match from_env {
            Some(e) => Ok(e),
            None => Err("LEAF_CLIENTID not set and no clientId provided".to_owned()),
        },
    }
}

/// Bytes the `application/x-www-form-urlencoded` serializer keeps as they
/// are: ASCII letters and digits and `*`, `-`, `.`, `_`.
pub open spec fn form_unchanged(b: u8) -> bool {
    b == 0x2A || b == 0x2D || b == 0x2E || (0x30 <= b <= 0x39) || (0x41 <= b <= 0x5A) || b == 0x5F || (0x61 <= b <= 0x7A)
}

/// How the serializer writes one byte: kept, a space as `+`, else `%`
/// and two upper-case hexadecimal digits.
pub open spec fn form_byte(b: u8) -> Seq<char> {
    if form_unchanged(b) {
        seq![b as char]
    } else if b == 0x20 {
        seq!['+']
    } else {
        seq!['%'] + hex_byte(b)
    }
}

/// The `application/x-www-form-urlencoded` byte serialization.
pub open spec fn form_urlencoded(b: Seq<u8>) -> Seq<char>
    decreases b.len(),
{
    if b.len() == 0 {
        Seq::<char>::empty()
    } else {
        form_urlencoded(b.drop_last()) + form_byte(b.last())
    }
}

/// `url::form_urlencoded::byte_serialize`, collected into a string.
/// Claimed, as its source shows: each byte is written as `form_byte` says.
#[verifier::external_body]
fn form_urlencode(input: &[u8]) -> (r: String)
    ensures
        r@ == form_urlencoded(input@),
{
    url::form_urlencoded::byte_serialize(input).collect::<String>()
}

/// The start of Google's authorization address, up to the client id.
pub open spec fn auth_url_head() -> Seq<char> {
    "https://accounts.google.com/o/oauth2/v2/auth?client_id="@
}

/// The end of the authorization address: a code is asked for, with the
/// `openid`, `email` and Drive-file scopes, offline access and consent.
pub open spec fn auth_url_tail() -> Seq<char> {
    "&response_type=code&scope=openid%20email%20https://www.googleapis.com/auth/drive.file&access_type=offline&prompt=consent"@
}

/// The address the browser opens to sign in: the client id as it is, the
/// redirect address form-urlencoded.
pub open spec fn auth_url(client_id: Seq<char>, redirect_uri: Seq<char>) -> Seq<char> {
    auth_url_head() + client_id + "&redirect_uri="@ + form_urlencoded(encode_utf8(redirect_uri)) + auth_url_tail()
}

/// Builds the address the browser opens to sign in.
pub fn google_auth_url(client_id: &str, redirect_uri: &str) -> (r: String)
    ensures
        r@ == auth_url(client_id@, redirect_uri@),
{
    let mut s = "https://accounts.google.com/o/oauth2/v2/auth?client_id=".to_owned();
    s.append(client_id);
    s.append("&redirect_uri=");
    let enc = form_urlencode(redirect_uri.as_bytes());
    s.append(enc.as_str());
    s.append("&response_type=code&scope=openid%20email%20https://www.googleapis.com/auth/drive.file&access_type=offline&prompt=consent");
    s
}

/// The query of an address as `url::Url` reads it: `None` when the text is
/// no address, else its decoded name-value pairs in order.
pub uninterp spec fn url_query(s: Seq<char>) -> Option<Seq<(Seq<char>, Seq<char>)>>;

/// The pairs of a list, as character sequences.
pub open spec fn pairs_view(v: Seq<(String, String)>) -> Seq<(Seq<char>, Seq<char>)> {
    v.map_values(|p: (String, String)| (p.0@, p.1@))
}

/// `url::Url::parse`, then its `query_pairs`, each pair made owned strings.
/// Claimed: the result is `url_query` of the text, which depends on the
/// text alone.
#[verifier::external_body]
fn redirect_query(s: &str) -> (r: Option<Vec<(String, String)>>)
    ensures
        match r {
            Some(v) => url_query(s@) == Some(pairs_view(v@)),
            None => url_query(s@) is None,
        },
{
    match url::Url::parse(s) {
        Ok(u) => Some(u.query_pairs().map(|(k, v)| (k.into_owned(), v.into_owned())).collect()),
        Err(_) => None,
    }
}

/// The message when no usable redirect came back.
pub open spec fn no_redirect_message() -> Seq<char> {
    "URL parse error or closed"@
}

/// What the redirect's query pairs yield: the first pair named `code` or
/// `error` decides, a code as success, an error as `OAuth Error: ` and its
/// value; with neither, the redirect is unusable.
pub open spec fn code_outcome(pairs: Seq<(Seq<char>, Seq<char>)>) -> Result<Seq<char>, Seq<char>>
    decreases pairs.len(),
{
    if pairs.len() == 0 {
        Err(no_redirect_message())
    } else if pairs[0].0 == "code"@ {
        Ok(pairs[0].1)
    } else if pairs[0].0 == "error"@ {
        Err("OAuth Error: "@ + pairs[0].1)
    } else {
        code_outcome(pairs.drop_first())
    }
}

/// A result of strings as character sequences.
pub open spec fn result_view(r: Result<String, String>) -> Result<Seq<char>, Seq<char>> {
    match r {
        Ok(s) => Ok(s@),
        Err(e) => Err(e@),
    }
}

/// Reads the authorization code off the redirect's query pairs.
pub fn code_from_pairs(pairs: &Vec<(String, String)>) -> (r: Result<String, String>)
    ensures
        result_view(r) == code_outcome(pairs_view(pairs@)),
{
    let ghost p = pairs_view(pairs@);
    let mut i: usize = 0;
    assert(p.skip(0) =~= p);
    while i < pairs.len()
        invariant
            i <= pairs@.len(),
            p == pairs_view(pairs@),
            code_outcome(p) == code_outcome(p.skip(i as int)),
        decreases pairs@.len() - i,
    {
        let (k, v) = &pairs[i];
        assert(p.skip(i as int)[0] == (k@, v@));
        if same_text(k.as_str(), "code") {
            return Ok(v.clone());
        }
        if same_text(k.as_str(), "error") {
            let mut m = "OAuth Error: ".to_owned();
            m.append(v.as_str());
            return Err(m);
        }
        assert(p.skip(i as int).drop_first() =~= p.skip(i + 1));
        i = i + 1;
    }
    assert(p.skip(i as int) =~= Seq::<(Seq<char>, Seq<char>)>::empty());
    Err("URL parse error or closed".to_owned())
}

/// What the redirect the local server received yields; `None` when the
/// server closed without one.
pub open spec fn redirect_outcome(url: Option<Seq<char>>) -> Result<Seq<char>, Seq<char>> {
    match url {
        Some(u) => match url_query(u) {
            Some(pairs) => code_outcome(pairs),
            None => Err(no_redirect_message()),
        },
        None => Err(no_redirect_message()),
    }
}

/// Reads the authorization code off the redirect back to the app.
pub fn code_from_redirect(url: Option<String>) -> (r: Result<String, String>)
    ensures
        result_view(r) == redirect_outcome(match url {
            Some(u) => Some(u@),
            None => None,
        }),
{
    match url {
        Some(u) => match redirect_query(u.as_str()) {
            Some(pairs) => code_from_pairs(&pairs),
            None => Err("URL parse error or closed".to_owned()),
        },
        None => Err("URL parse error or closed".to_owned()),
    }
}

/// The error when the user did not finish signing in in time.
pub fn timed_out_message() -> (r: String)
    ensures
        r@ == "Authentication timed out"@,
{
    "Authentication timed out".to_owned()
}

/// The error when the backend could not be reached.
pub fn request_failed(detail: &str) -> (r: String)
    ensures
        r@ == "Request failed: "@ + detail@,
{
    let mut m = "Request failed: ".to_owned();
    m.append(detail);
    m
}

/// The answer to a token exchange: on success the backend's JSON written
/// back as text, or why it could not be read (`JSON parse err: `) or
/// written (`Serialize err: `); else `Token exchange failed: ` and the
/// backend's text.
pub fn exchange_outcome(success: bool, json: Result<Result<String, String>, String>, error_text: &str) -> (r: Result<String, String>)
    ensures
        success ==> match json {
            Ok(Ok(t)) => r == Ok::<String, String>(t),
            Ok(Err(e)) => result_view(r) == Err::<Seq<char>, Seq<char>>("Serialize err: "@ + e@),
            Err(e) => result_view(r) == Err::<Seq<char>, Seq<char>>("JSON parse err: "@ + e@),
        },
        !success ==> result_view(r) == Err::<Seq<char>, Seq<char>>("Token exchange failed: "@ + error_text@),
{
    if success {
        match json {
            Ok(Ok(t)) => Ok(t),
            Ok(Err(e)) => {
                let mut m = "Serialize err: ".to_owned();
                m.append(e.as_str());
                Err(m)
            },
            Err(e) => {
                let mut m = "JSON parse err: ".to_owned();
                m.append(e.as_str());
                Err(m)
            },
        }
    } else {
        let mut m = "Token exchange failed: ".to_owned();
        m.append(error_text);
        Err(m)
    }
}

/// The answer to a token refresh: the new access token when the backend
/// answered with success and a JSON body holding `access_token` as text;
/// the JSON error when the body could not be read; else `Failed to
/// refresh token`.
pub fn refresh_outcome(success: bool, body: Result<Option<String>, String>) -> (r: Result<String, String>)
    ensures
        !success ==> result_view(r) == Err::<Seq<char>, Seq<char>>("Failed to refresh token"@),
        success ==> match body {
            Ok(Some(t)) => r == Ok::<String, String>(t),
            Ok(None) => result_view(r) == Err::<Seq<char>, Seq<char>>("Failed to refresh token"@),
            Err(e) => result_view(r) == Err::<Seq<char>, Seq<char>>("JSON parse err: "@ + e@),
        },
{
    if success {
        match body {
            Ok(Some(t)) => return Ok(t),
            Ok(None) => {},
            Err(e) => {
                let mut m = "JSON parse err: ".to_owned();
                m.append(e.as_str());
                return Err(m);
            },
        }
    }
    Err("Failed to refresh token".to_owned())
}

} // verus!
