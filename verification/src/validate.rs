//! Checks on what an administrator enters.

use crate::order::{ranked, sort_ranked};
use crate::text::{
    byte_len, byte_length, same_text, strip_end, strip_end_of, trim, trimmed,
};
use vstd::prelude::*;
use vstd::string::*;

verus! {

/// A refused value, with the name of the form field it came from.
#[derive(Debug)]
pub struct FieldError {
    pub field: &'static str,
    pub message: String,
}

/// A refusal of the value of `field`.
pub fn field_error(field: &'static str, message: String) -> (r: FieldError)
    ensures
        r.field@ == field@,
        r.message@ == message@,
{
    FieldError { field, message }
}

/// Whether `text` has between 1 and `limit` bytes.
pub open spec fn fits(text: Seq<char>, limit: nat) -> bool {
    text.len() > 0 && byte_len(text) <= limit
}

/// `value` without the white space around it, where what is left has between 1
/// and `limit` bytes; otherwise the given refusal.
fn bounded_text(value: &str, limit: usize, field: &'static str, complaint: &str) -> (r: Result<
    String,
    FieldError,
>)
    ensures
        r is Ok <==> fits(trimmed(value@), limit as nat),
        r matches Ok(text) ==> text@ == trimmed(value@),
        r matches Err(error) ==> error.field@ == field@ && error.message@ == complaint@,
{
    let value = trim(value);
    if value.as_str().is_empty() || byte_length(value.as_str()) > limit {
        return Err(field_error(field, complaint.to_owned()));
    }
    Ok(value)
}

/// A provider's name, trimmed.
pub fn validate_display_name(value: &str) -> (r: Result<String, FieldError>)
    ensures
        r is Ok <==> fits(trimmed(value@), 128),
        r matches Ok(text) ==> text@ == trimmed(value@),
        r matches Err(error) ==> error.field@ == "display_name"@ && error.message@
            == "provider name must be between 1 and 128 characters"@,
{
    bounded_text(
        value,
        128,
        "display_name",
        "provider name must be between 1 and 128 characters",
    )
}

/// An upstream API key, trimmed.
pub fn validate_api_key(value: &str) -> (r: Result<String, FieldError>)
    ensures
        r is Ok <==> fits(trimmed(value@), 8_192),
        r matches Ok(text) ==> text@ == trimmed(value@),
        r matches Err(error) ==> error.field@ == "api_key"@ && error.message@
            == "upstream API key must be between 1 and 8192 characters"@,
{
    bounded_text(
        value,
        8_192,
        "api_key",
        "upstream API key must be between 1 and 8192 characters",
    )
}

/// A published model's name, trimmed.
pub fn validate_published_model_name(value: &str) -> (r: Result<String, FieldError>)
    ensures
        r is Ok <==> fits(trimmed(value@), 128),
        r matches Ok(text) ==> text@ == trimmed(value@),
        r matches Err(error) ==> error.field@ == "name"@ && error.message@
            == "published model name must be between 1 and 128 characters"@,
{
    bounded_text(value, 128, "name", "published model name must be between 1 and 128 characters")
}

/// An upstream model's name, trimmed.
pub fn validate_upstream_model_name(value: &str) -> (r: Result<String, FieldError>)
    ensures
        r is Ok <==> fits(trimmed(value@), 256),
        r matches Ok(text) ==> text@ == trimmed(value@),
        r matches Err(error) ==> error.field@ == "upstream_model_name"@ && error.message@
            == "upstream model name must be between 1 and 256 characters"@,
{
    bounded_text(
        value,
        256,
        "upstream_model_name",
        "upstream model name must be between 1 and 256 characters",
    )
}

/// A relay access key's label, trimmed.
pub fn validate_relay_key_label(value: &str) -> (r: Result<String, FieldError>)
    ensures
        r is Ok <==> fits(trimmed(value@), 128),
        r matches Ok(text) ==> text@ == trimmed(value@),
        r matches Err(error) ==> error.field@ == "label"@ && error.message@
            == "relay access key label must be between 1 and 128 characters"@,
{
    bounded_text(
        value,
        128,
        "label",
        "relay access key label must be between 1 and 128 characters",
    )
}

/// The two protocols that a route can speak.
pub open spec fn known_protocol(protocol: Seq<char>) -> bool {
    protocol == "chat_completions"@ || protocol == "responses"@
}

/// Accepts the two known protocols.
pub fn validate_protocol(protocol: &str) -> (r: Result<(), FieldError>)
    ensures
        r is Ok <==> known_protocol(protocol@),
        r matches Err(error) ==> error.field@ == "protocol"@ && error.message@
            == "protocol must be chat_completions or responses"@,
{
    if same_text(protocol, "chat_completions") || same_text(protocol, "responses") {
        Ok(())
    } else {
        Err(
            field_error("protocol", "protocol must be chat_completions or responses".to_owned()),
        )
    }
}

/// Whether no text occurs twice.
pub open spec fn distinct_texts(s: Seq<String>) -> bool {
    forall|i: int, j: int| 0 <= i < j < s.len() ==> (#[trigger] s[i])@ != (#[trigger] s[j])@
}

/// Whether no text of `v` occurs twice.
pub fn no_repeats(v: &Vec<String>) -> (r: bool)
    ensures
        r == distinct_texts(v@),
{
    for i in 0..v.len()
        invariant
            forall|a: int, b: int|
                0 <= a < b < v@.len() && a < i ==> (#[trigger] v@[a])@ != (#[trigger] v@[b])@,
    {
        for j in i + 1..v.len()
            invariant
                i < v@.len(),
                forall|b: int| i < b < j ==> v@[i as int]@ != (#[trigger] v@[b])@,
        {
            if same_text(v[i].as_str(), v[j].as_str()) {
                return false;
            }
        }
    }
    true
}

/// The routes that a key may use, sorted; there is at least one, and none
/// twice.
pub fn valid_eligible_model_route_ids(model_route_ids: &Vec<String>) -> (r: Result<
    Vec<String>,
    FieldError,
>)
    ensures
        r is Ok <==> model_route_ids@.len() > 0 && distinct_texts(model_route_ids@),
        r matches Ok(ids) ==> ids@ == ranked(model_route_ids@),
        r matches Err(error) ==> error.field@ == "model_route_ids"@ && error.message@ == (
        if model_route_ids@.len() == 0 {
            "at least one eligible model route is required"@
        } else {
            "eligible model routes must not contain duplicates"@
        }),
{
    if model_route_ids.len() == 0 {
        return Err(
            field_error(
                "model_route_ids",
                "at least one eligible model route is required".to_owned(),
            ),
        );
    }
    if !no_repeats(model_route_ids) {
        return Err(
            field_error(
                "model_route_ids",
                "eligible model routes must not contain duplicates".to_owned(),
            ),
        );
    }
    let mut ids: Vec<String> = Vec::new();
    for i in 0..model_route_ids.len()
        invariant
            ids@ == model_route_ids@.take(i as int),
    {
        ids.push(model_route_ids[i].clone());
        proof {
            assert(model_route_ids@.take(i + 1) =~= model_route_ids@.take(i as int).push(
                model_route_ids@[i as int],
            ));
        }
    }
    proof {
        assert(model_route_ids@.take(model_route_ids@.len() as int) =~= model_route_ids@);
    }
    Ok(sort_ranked(ids))
}

/// What a URL holds, as far as a base URL is judged by it.
#[derive(Debug)]
pub struct UrlParts {
    pub scheme: String,
    pub host: Option<String>,
    pub username: String,
    pub password: Option<String>,
    pub query: Option<String>,
    pub fragment: Option<String>,
}

/// The parts of a URL as characters.
pub struct UrlData {
    pub scheme: Seq<char>,
    pub host: Option<Seq<char>>,
    pub username: Seq<char>,
    pub password: Option<Seq<char>>,
    pub query: Option<Seq<char>>,
    pub fragment: Option<Seq<char>>,
}

/// The characters of an optional text.
pub open spec fn optional_view(text: Option<String>) -> Option<Seq<char>> {
    match text {
        Some(t) => Some(t@),
        None => None,
    }
}

impl View for UrlParts {
    type V = UrlData;

    open spec fn view(&self) -> UrlData {
        UrlData {
            scheme: self.scheme@,
            host: optional_view(self.host),
            username: self.username@,
            password: optional_view(self.password),
            query: optional_view(self.query),
            fragment: optional_view(self.fragment),
        }
    }
}

/// What the URL standard's parser makes of a text.
pub uninterp spec fn parsed_url(text: Seq<char>) -> Option<UrlData>;

/// Calls `url::Url::parse` and takes the scheme, host, user name, password,
/// query and fragment of what it returns. The parts depend on the text alone;
/// no more is claimed of them.
#[verifier::external_body]
fn parse_url(text: &str) -> (r: Option<UrlParts>)
    ensures
        r is Some <==> parsed_url(text@) is Some,
        r matches Some(parts) ==> parsed_url(text@) == Some(parts@),
{
    url::Url::parse(text).ok().map(|url| UrlParts {
        scheme: url.scheme().to_owned(),
        host: url.host_str().map(str::to_owned),
        username: url.username().to_owned(),
        password: url.password().map(str::to_owned),
        query: url.query().map(str::to_owned),
        fragment: url.fragment().map(str::to_owned),
    })
}

/// Whether a URL is HTTP with a host and without credentials, query or
/// fragment.
pub open spec fn plain_http(url: UrlData) -> bool {
    &&& url.scheme == "http"@ || url.scheme == "https"@
    &&& url.host is Some
    &&& url.username.len() == 0
    &&& url.password is None
    &&& url.query is None
    &&& url.fragment is None
}

/// A base URL as it is kept: trimmed, and without slashes at its end.
pub open spec fn kept_base_url(value: Seq<char>) -> Seq<char> {
    strip_end(trimmed(value), '/')
}

/// The verdict on a base URL `kept` whose parts are `parts`.
pub open spec fn base_url_complaint(parts: Option<UrlData>) -> Option<Seq<char>> {
    match parts {
        None => Some("base URL must be a valid HTTP URL"@),
        Some(url) => if plain_http(url) {
            None
        } else {
            Some("base URL must be a valid HTTP URL without credentials, query, or fragment"@)
        },
    }
}

/// Accepts the base URL `kept` by the parts that it was parsed into.
pub fn judge_base_url(kept: String, parts: &Option<UrlParts>) -> (r: Result<String, FieldError>)
    ensures
        ({
            let complaint = base_url_complaint(
                match *parts {
                    Some(url) => Some(url@),
                    None => None,
                },
            );
            match r {
                Ok(text) => text@ == kept@ && complaint is None,
                Err(error) => error.field@ == "base_url"@ && complaint == Some(error.message@),
            }
        }),
{
    match parts {
        None => Err(field_error("base_url", "base URL must be a valid HTTP URL".to_owned())),
        Some(url) => {
            let http = same_text(url.scheme.as_str(), "http") || same_text(
                url.scheme.as_str(),
                "https",
            );
            if !http || url.host.is_none() || !url.username.as_str().is_empty()
                || url.password.is_some() || url.query.is_some() || url.fragment.is_some() {
                Err(
                    field_error(
                        "base_url",
                        "base URL must be a valid HTTP URL without credentials, query, or fragment".to_owned(),
                    ),
                )
            } else {
                Ok(kept)
            }
        },
    }
}

/// A provider's base URL: an HTTP URL without credentials, query or fragment,
/// kept without the slashes at its end.
pub fn validate_base_url(value: &str) -> (r: Result<String, FieldError>)
    ensures
        ({
            let complaint = base_url_complaint(parsed_url(kept_base_url(value@)));
            match r {
                Ok(text) => text@ == kept_base_url(value@) && complaint is None,
                Err(error) => error.field@ == "base_url"@ && complaint == Some(error.message@),
            }
        }),
{
    let kept = strip_end_of(trim(value).as_str(), '/');
    let parts = parse_url(kept.as_str());
    judge_base_url(kept, &parts)
}

/// A text fits a limit where it is not empty and takes no more bytes than that.
pub proof fn law_texts_fit_by_their_bytes(text: Seq<char>, limit: nat)
    ensures
        !fits(Seq::empty(), limit),
        text.len() > 0 && vstd::utf8::encode_utf8(text).len() <= limit ==> fits(text, limit),
        vstd::utf8::encode_utf8(text).len() > limit ==> !fits(text, limit),
{
}

/// The protocols are chat completions and responses, and no other.
pub proof fn law_two_protocols_are_known(protocol: Seq<char>)
    ensures
        known_protocol("chat_completions"@),
        known_protocol("responses"@),
        protocol != "chat_completions"@ && protocol != "responses"@ ==> !known_protocol(protocol),
{
}

/// A base URL is accepted where it was parsed, is HTTP or HTTPS, has a host,
/// and has no user name, password, query or fragment.
pub proof fn law_base_urls_are_plain_http(url: UrlData)
    ensures
        base_url_complaint(None) == Some("base URL must be a valid HTTP URL"@),
        (url.scheme == "http"@ || url.scheme == "https"@) && url.host is Some && url.username.len()
            == 0 && url.password is None && url.query is None && url.fragment is None
            ==> base_url_complaint(Some(url)) is None,
        base_url_complaint(Some(url)) is None ==> url.scheme == "http"@ || url.scheme == "https"@,
        url.host is None || url.username.len() > 0 || url.password is Some || url.query is Some
            || url.fragment is Some ==> base_url_complaint(Some(url)) == Some(
            "base URL must be a valid HTTP URL without credentials, query, or fragment"@,
        ),
{
}

/// A base URL is kept without slashes at its end and otherwise as it was
/// entered between its white space; a slash more at the end makes no
/// difference.
pub proof fn law_base_urls_end_without_slashes(value: Seq<char>) -> (end: int)
    ensures
        0 <= end <= trimmed(value).len(),
        kept_base_url(value) == trimmed(value).take(end),
        forall|k: int| end <= k < trimmed(value).len() ==> #[trigger] trimmed(value)[k] == '/',
        end > 0 ==> trimmed(value)[end - 1] != '/',
{
    lemma_slashes(trimmed(value))
}

proof fn lemma_slashes(s: Seq<char>) -> (end: int)
    ensures
        0 <= end <= s.len(),
        strip_end(s, '/') == s.take(end),
        forall|k: int| end <= k < s.len() ==> #[trigger] s[k] == '/',
        end > 0 ==> s[end - 1] != '/',
    decreases s.len(),
{
    if s.len() > 0 && s.last() == '/' {
        let end = lemma_slashes(s.drop_last());
        assert(s.drop_last().take(end) =~= s.take(end));
        assert forall|k: int| end <= k < s.len() implies #[trigger] s[k] == '/' by {
            if k < s.len() - 1 {
                assert(s.drop_last()[k] == s[k]);
            }
        }
        end
    } else {
        assert(s.take(s.len() as int) =~= s);
        s.len() as int
    }
}

} // verus!
