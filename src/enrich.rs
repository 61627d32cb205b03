use vstd::prelude::*;
use vstd::string::*;
use crate::error::Error;
use crate::text::{nat_text, u64_text};

verus! {

pub open spec fn hex_digit(d: int) -> char {
    if d < 10 {
        (d + 48) as char
    } else {
        (d - 10 + 97) as char
    }
}

/// How one character stands inside a JSON string literal: the quote, the
/// backslash and the control characters are escaped, the named ones by
/// their letter, the others as `\u00xx` in lower-case hex.
pub open spec fn json_escape_char(c: char) -> Seq<char> {
    if c == '"' {
        seq!['\\', '"']
    } else if c == '\\' {
        seq!['\\', '\\']
    } else if c == '\x08' {
        seq!['\\', 'b']
    } else if c == '\t' {
        seq!['\\', 't']
    } else if c == '\n' {
        seq!['\\', 'n']
    } else if c == '\x0C' {
        seq!['\\', 'f']
    } else if c == '\r' {
        seq!['\\', 'r']
    } else if (c as int) < 32 {
        seq!['\\', 'u', '0', '0', hex_digit(c as int / 16), hex_digit(c as int % 16)]
    } else {
        seq![c]
    }
}

pub open spec fn json_escaped(s: Seq<char>) -> Seq<char>
    decreases s.len(),
{
    if s.len() == 0 {
        Seq::empty()
    } else {
        json_escaped(s.drop_last()) + json_escape_char(s.last())
    }
}

/// The JSON string literal for a text: quotes round its escaped characters.
pub open spec fn json_string(s: Seq<char>) -> Seq<char> {
    seq!['"'] + json_escaped(s) + seq!['"']
}

/// Relies on `serde_json::to_string` applied to a `str`, which writes it
/// through `format_escaped_str` with the escapes of `json_escape_char`.
/// Writing into its in-memory buffer cannot fail, so the error arm is never
/// taken.
#[verifier::external_body]
fn json_quote(s: &str) -> (r: String)
    ensures
        r@ == json_string(s@),
{
    match serde_json::to_string(s) {
        Ok(t) => t,
        Err(_) => String::new(),
    }
}

pub open spec fn auth_body_text(quoted_key: Seq<char>) -> Seq<char> {
    "{\"type\":\"api-app\",\"credentials\":{\"pb_api_key\":"@ + quoted_key + "}}"@
}

/// The body of the authentication request, given the API key already
/// written as a JSON string literal.
pub fn auth_body(quoted_key: &str) -> (r: String)
    ensures
        r@ == auth_body_text(quoted_key@),
{
    let mut body = String::from_str("{\"type\":\"api-app\",\"credentials\":{\"pb_api_key\":");
    body.append(quoted_key);
    body.append("}}");
    body
}

/// The body of the authentication request for an API key.
pub fn auth_payload(api_key: &str) -> (r: String)
    ensures
        r@ == auth_body_text(json_string(api_key@)),
{
    let quoted = json_quote(api_key);
    auth_body(quoted.as_str())
}

/// The address of the authentication endpoint.
pub fn auth_url(base: &str) -> (r: String)
    ensures
        r@ == base@ + "/authentication"@,
{
    let mut url = String::from_str(base);
    url.append("/authentication");
    url
}

/// The access token that an authentication answer gives: the token where the
/// status is `200 OK` and a token could be read, else `ProfitAuthFailed`.
pub fn auth_token(status: u16, token: Option<String>) -> (r: Result<String, Error>)
    ensures
        status == 200 && token is Some ==> (r matches Ok(t) && t == token.unwrap()),
        !(status == 200 && token is Some) ==> r matches Err(Error::ProfitAuthFailed),
{
    if status == 200 {
        match token {
            Some(t) => Ok(t),
            None => Err(Error::ProfitAuthFailed),
        }
    } else {
        Err(Error::ProfitAuthFailed)
    }
}

pub open spec fn property_url_text(base: Seq<char>, deal_id: u64, token: Seq<char>) -> Seq<char> {
    base + "/property/deal/"@ + nat_text(deal_id as nat) + "?access_token="@ + token
}

/// The address of one deal's property details.
pub fn property_url(base: &str, deal_id: u64, token: &str) -> (r: String)
    ensures
        r@ == property_url_text(base@, deal_id, token@),
{
    let mut url = String::from_str(base);
    url.append("/property/deal/");
    let id = u64_text(deal_id);
    url.append(id.as_str());
    url.append("?access_token=");
    url.append(token);
    url
}

} // verus!
