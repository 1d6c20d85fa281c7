//! Requests to the Telegram Bot API, ready to be sent.
use vstd::prelude::*;
use vstd::string::*;

use crate::text::begins;
use crate::text::ends;
use crate::text::join;
use crate::text::join3;
use crate::text::views;

verus! {

/// The value of a request's parameter.
#[derive(Debug)]
pub enum Param {
    Text(String),
    Number(i64),
    List(Vec<String>),
}

/// What a parameter's value is.
pub enum ParamView {
    Text(Seq<char>),
    Number(i64),
    List(Seq<Seq<char>>),
}

impl View for Param {
    type V = ParamView;

    open spec fn view(&self) -> ParamView {
        match self {
            Param::Text(s) => ParamView::Text(s@),
            Param::Number(n) => ParamView::Number(*n),
            Param::List(l) => ParamView::List(views(l@)),
        }
    }
}

/// A POST request to a method of the API, with its parameters as a JSON
/// object and, where one is set, a timeout.
#[derive(Debug)]
pub struct ApiRequest {
    pub url: String,
    pub params: Vec<(String, Param)>,
    pub timeout_secs: Option<u64>,
}

/// What a request asks.
pub struct ApiRequestView {
    pub url: Seq<char>,
    pub params: Seq<(Seq<char>, ParamView)>,
    pub timeout_secs: Option<u64>,
}

/// The names and values of a list of parameters.
pub open spec fn param_views(ps: Seq<(String, Param)>) -> Seq<(Seq<char>, ParamView)> {
    ps.map_values(|p: (String, Param)| (p.0@, p.1@))
}

impl View for ApiRequest {
    type V = ApiRequestView;

    open spec fn view(&self) -> ApiRequestView {
        ApiRequestView {
            url: self.url@,
            params: param_views(self.params@),
            timeout_secs: self.timeout_secs,
        }
    }
}

/// Where a method of the API is found.
pub open spec fn method_url(token: Seq<char>, method: Seq<char>) -> Seq<char> {
    "https://api.telegram.org/bot"@ + token + "/"@ + method
}

/// Where a file of the API is found.
pub open spec fn download_url(token: Seq<char>, path: Seq<char>) -> Seq<char> {
    "https://api.telegram.org/file/bot"@ + token + "/"@ + path
}

/// Where a method of the API is found.
pub fn method_url_of(token: &str, method: &str) -> (r: String)
    ensures
        r@ == method_url(token@, method@),
{
    join(join3("https://api.telegram.org/bot", token, "/").as_str(), method)
}

/// Where a file of the API is found.
pub fn download_url_of(token: &str, path: &str) -> (r: String)
    ensures
        r@ == download_url(token@, path@),
{
    join(join3("https://api.telegram.org/file/bot", token, "/").as_str(), path)
}

/// A parameter that is a text.
pub fn text_param(name: &str, value: &str) -> (r: (String, Param))
    ensures
        (r.0@, r.1@) == (name@, ParamView::Text(value@)),
{
    (String::from_str(name), Param::Text(String::from_str(value)))
}

/// A parameter that is a number.
pub fn number_param(name: &str, value: i64) -> (r: (String, Param))
    ensures
        (r.0@, r.1@) == (name@, ParamView::Number(value)),
{
    (String::from_str(name), Param::Number(value))
}

/// What happened to a request: it could not be sent, its answer could not be
/// read, or here is the answer. The text says what went wrong.
pub enum Exchange<T> {
    Failed(String),
    Unreadable(String),
    Answer(T),
}

/// The address of a method names the bot and the method: behind the host and
/// the word `bot` stand the token, a slash and the method, and nothing else.
pub proof fn method_addresses_name_the_bot(token: Seq<char>, method: Seq<char>)
    ensures
        begins(method_url(token, method), "https://api.telegram.org/bot"@ + token + seq!['/']),
        ends(method_url(token, method), seq!['/'] + method),
        method_url(token, method).len() == 29 + token.len() + method.len(),
{
    reveal_strlit("https://api.telegram.org/bot");
    reveal_strlit("/");
    let head = "https://api.telegram.org/bot"@;
    let url = method_url(token, method);
    assert(head.len() == 28);
    assert(url.subrange(0, (head.len() + token.len() + 1) as int) =~= head + token + seq!['/']);
    assert(url.subrange(url.len() - method.len() - 1, url.len() as int) =~= seq!['/'] + method);
}

/// The address of a file names the bot and the path of the file.
pub proof fn file_addresses_name_the_path(token: Seq<char>, path: Seq<char>)
    ensures
        begins(download_url(token, path), "https://api.telegram.org/file/bot"@ + token + seq!['/']),
        ends(download_url(token, path), seq!['/'] + path),
        download_url(token, path).len() == 34 + token.len() + path.len(),
{
    reveal_strlit("https://api.telegram.org/file/bot");
    reveal_strlit("/");
    let head = "https://api.telegram.org/file/bot"@;
    let url = download_url(token, path);
    assert(head.len() == 33);
    assert(url.subrange(0, (head.len() + token.len() + 1) as int) =~= head + token + seq!['/']);
    assert(url.subrange(url.len() - path.len() - 1, url.len() as int) =~= seq!['/'] + path);
}

} // verus!
