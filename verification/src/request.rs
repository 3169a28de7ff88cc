//! Requests to the control API.

use crate::config::{Config, ConfigView};
use crate::json::{distinct_names, fields_view, json_bytes, json_members, write_object, written_members};
use crate::text::opt_text;
use vstd::prelude::*;

verus! {

/// A `POST` of a JSON body.
pub struct HttpRequest {
    pub url: String,
    /// Token for the header `Authorization: Bearer`, where it is to be sent.
    pub bearer: Option<String>,
    pub body: Vec<u8>,
}

/// A request, with texts as their characters.
pub struct RequestView {
    pub url: Seq<char>,
    pub bearer: Option<Seq<char>>,
    pub body: Seq<u8>,
}

impl View for HttpRequest {
    type V = RequestView;

    open spec fn view(&self) -> RequestView {
        RequestView { url: self.url@, bearer: opt_text(self.bearer), body: self.body@ }
    }
}

/// The request that posts `fields` to `path` below the configured address: it
/// carries the configured token as its bearer, unless that is empty.
pub open spec fn post_request(
    config: ConfigView,
    path: Seq<char>,
    fields: Seq<(Seq<char>, Option<Seq<char>>)>,
) -> RequestView {
    RequestView {
        url: config.url + path,
        bearer: if config.token.len() > 0 {
            Some(config.token)
        } else {
            None
        },
        body: json_bytes(fields),
    }
}

/// Builds a request whose body is a JSON object with the given fields.
pub(crate) fn post(config: &Config, path: &str, fields: Vec<(String, Option<String>)>) -> (request:
    HttpRequest)
    requires
        distinct_names(fields_view(fields@)),
    ensures
        request@ == post_request(config@, path@, fields_view(fields@)),
        json_members(request.body@) == Some(written_members(fields_view(fields@))),
{
    let mut url = config.url.clone();
    url.append(path);
    let bearer: Option<String> = if config.token.as_str().is_empty() {
        None
    } else {
        Some(config.token.clone())
    };
    HttpRequest { url, bearer, body: write_object(fields) }
}

/// A request as characters is the request, whole.
pub proof fn law_requests_are_whole(request: HttpRequest)
    ensures
        request@.url == request.url@,
        request.bearer is Some ==> request@.bearer == Some(request.bearer->0@),
        request.bearer is None ==> request@.bearer is None,
        request@.body == request.body@,
{
}

/// A request goes to the configured address with its path behind it. It carries the
/// configured token, all of it, exactly where that is not empty, and its body is written
/// from the given fields alone.
pub proof fn law_posts_are_addressed(
    config: ConfigView,
    path: Seq<char>,
    fields: Seq<(Seq<char>, Option<Seq<char>>)>,
)
    ensures
        post_request(config, path, fields).url == config.url + path,
        config.token.len() > 0 ==> post_request(config, path, fields).bearer == Some(config.token),
        config.token.len() == 0 ==> post_request(config, path, fields).bearer is None,
        post_request(config, path, fields).body == json_bytes(fields),
{
}

} // verus!
