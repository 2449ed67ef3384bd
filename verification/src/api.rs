//! What the forum sends: topics, posts, categories and users, and the
//! addresses under which they are asked for.

use vstd::prelude::*;
use vstd::string::StringExecFns;
use crate::config::DiscourseConfig;
use crate::error::{prefixed, LdUiError};
use crate::text::from_chars;

verus! {

/// One of the users that wrote in a topic.
#[derive(Clone, Debug)]
pub struct Poster {
    pub user_id: i64,
    pub primary_group_id: Option<u64>,
    pub description: Option<String>,
}

/// A topic of the forum. Times are seconds since the start of 1970, UTC.
#[derive(Clone, Debug)]
pub struct Topic {
    pub id: u64,
    pub title: String,
    pub posts_count: u64,
    pub views: u64,
    pub created_at: i64,
    pub last_posted_at: Option<i64>,
    pub posters: Vec<Poster>,
    pub tags: Option<Vec<String>>,
}

/// A post of a topic. `cooked` is its body as markup; times are seconds
/// since the start of 1970, UTC.
#[derive(Clone, Debug)]
pub struct Post {
    pub id: u64,
    pub topic_id: u64,
    pub user_id: u64,
    pub username: String,
    pub created_at: i64,
    pub updated_at: Option<i64>,
    pub cooked: String,
    pub posts_count: u64,
}

/// A category of the forum.
#[derive(Clone, Debug)]
pub struct Category {
    pub id: u64,
    pub name: String,
    pub slug: String,
    pub topic_count: u64,
    pub post_count: u64,
    pub description: Option<String>,
    pub color: String,
    pub text_color: String,
}

/// A user of the forum.
#[derive(Clone, Debug)]
pub struct User {
    pub id: u64,
    pub username: String,
    pub name: Option<String>,
    pub avatar_template: String,
    pub trust_level: u64,
}

/// The path under which the categories are asked for.
pub const CATEGORIES_PATH: &'static str = "/categories.json";

/// The path to which a new post is sent.
pub const POSTS_PATH: &'static str = "/t/posts.json";

/// The name under which the client presents itself with a key.
pub const API_USERNAME: &'static str = "ldui";

/// The header that carries the key of the user.
pub const KEY_HEADER: &'static str = "Api-Userkey";

/// The header that carries the name of the client.
pub const USERNAME_HEADER: &'static str = "Api-Username";

/// The decimal digit for a number below ten.
pub open spec fn digit_char(d: int) -> char {
    ((48 + d) as u8) as char
}

/// A number written in decimal digits, without leading zeros.
pub open spec fn decimal(n: nat) -> Seq<char>
    decreases n,
{
    if n < 10 {
        seq![digit_char(n as int)]
    } else {
        decimal(n / 10).push(digit_char((n % 10) as int))
    }
}

/// Writes a number in decimal digits.
pub fn to_decimal(n: u64) -> (text: String)
    ensures
        text@ == decimal(n as nat),
{
    let mut reversed: Vec<char> = Vec::new();
    let mut rest: u64 = n;
    while rest >= 10
        invariant
            decimal(n as nat) == decimal(rest as nat) + reversed@.reverse(),
        decreases rest,
    {
        let d = (rest % 10) as u8;
        let ghost before = reversed@;
        reversed.push((48 + d) as char);
        assert(reversed@.reverse() =~= seq![digit_char((rest % 10) as int)] + before.reverse());
        assert(decimal(rest as nat) == decimal((rest / 10) as nat).push(
            digit_char((rest % 10) as int),
        ));
        assert(decimal((rest / 10) as nat).push(digit_char((rest % 10) as int))
            + before.reverse() =~= decimal((rest / 10) as nat) + (seq![
            digit_char((rest % 10) as int),
        ] + before.reverse()));
        rest = rest / 10;
    }
    let ghost before = reversed@;
    reversed.push((48 + rest as u8) as char);
    assert(reversed@.reverse() =~= seq![digit_char(rest as int)] + before.reverse());
    let mut digits: Vec<char> = Vec::new();
    let count = reversed.len();
    for i in 0..count
        invariant
            count == reversed@.len(),
            digits@ == reversed@.reverse().subrange(0, i as int),
    {
        digits.push(reversed[count - 1 - i]);
        assert(digits@ =~= reversed@.reverse().subrange(0, i + 1));
    }
    assert(digits@ =~= reversed@.reverse());
    from_chars(digits.as_slice())
}

/// The address of a request: the address of the forum and the path.
pub fn endpoint(base_url: &str, path: &str) -> (url: String)
    ensures
        url@ == base_url@ + path@,
{
    let mut url = String::from_str(base_url);
    url.append(path);
    url
}

/// The path under which a page of the latest topics is asked for. The
/// forum counts its pages from 0, the client from 1.
pub fn latest_topics_path(page: u32) -> (path: String)
    ensures
        path@ == "/latest.json?page="@ + decimal(
            if page >= 1 {
                (page - 1) as nat
            } else {
                0
            },
        ),
{
    let number = if page >= 1 {
        page - 1
    } else {
        0
    };
    let mut path = String::from_str("/latest.json?page=");
    path.append(to_decimal(number as u64).as_str());
    path
}

/// The path under which a topic is asked for.
pub fn topic_path(id: u64) -> (path: String)
    ensures
        path@ == "/t/"@ + decimal(id as nat) + ".json"@,
{
    let mut path = String::from_str("/t/");
    path.append(to_decimal(id).as_str());
    path.append(".json");
    path
}

/// The path under which a page of the posts of a topic is asked for.
pub fn topic_posts_path(topic_id: u64, page: u32) -> (path: String)
    ensures
        path@ == "/t/topic/"@ + decimal(topic_id as nat) + ".json?page="@ + decimal(page as nat),
{
    let mut path = String::from_str("/t/topic/");
    path.append(to_decimal(topic_id).as_str());
    path.append(".json?page=");
    path.append(to_decimal(page as u64).as_str());
    path
}

/// The path under which a user is asked for.
pub fn user_path(username: &str) -> (path: String)
    ensures
        path@ == "/users/"@ + username@ + ".json"@,
{
    let mut path = String::from_str("/users/");
    path.append(username);
    path.append(".json");
    path
}

/// The texts of a list of pairs.
pub open spec fn pair_views(pairs: Seq<(String, String)>) -> Seq<(Seq<char>, Seq<char>)> {
    pairs.map_values(|pair: (String, String)| (pair.0@, pair.1@))
}

/// The headers that every request carries: the key of the user and the
/// name of the client if there is a key, none otherwise.
pub fn auth_headers(config: &DiscourseConfig) -> (headers: Vec<(String, String)>)
    ensures
        pair_views(headers@) == if config.api_key@.len() > 0 {
            seq![(KEY_HEADER@, config.api_key@), (USERNAME_HEADER@, API_USERNAME@)]
        } else {
            Seq::empty()
        },
{
    let mut headers: Vec<(String, String)> = Vec::new();
    if !config.api_key.as_str().is_empty() {
        headers.push((String::from_str(KEY_HEADER), config.api_key.clone()));
        headers.push((String::from_str(USERNAME_HEADER), String::from_str(API_USERNAME)));
        assert(pair_views(headers@) =~= seq![
            (KEY_HEADER@, config.api_key@),
            (USERNAME_HEADER@, API_USERNAME@),
        ]);
    } else {
        assert(pair_views(headers@) =~= Seq::empty());
    }
    headers
}

/// Tells whether a post can be sent: only with a key.
pub fn ensure_authorized(config: &DiscourseConfig) -> (allowed: Result<(), LdUiError>)
    ensures
        config.api_key@.len() > 0 ==> allowed is Ok,
        config.api_key@.len() == 0 ==> allowed == Err::<(), LdUiError>(LdUiError::Unauthorized),
{
    if config.api_key.as_str().is_empty() {
        Err(LdUiError::Unauthorized)
    } else {
        Ok(())
    }
}

/// The fields of the form with which a post is sent.
pub fn post_form(topic_id: u64, content: &str) -> (fields: Vec<(String, String)>)
    ensures
        pair_views(fields@) == seq![
            ("topic_id"@, decimal(topic_id as nat)),
            ("raw"@, content@),
        ],
{
    let mut fields: Vec<(String, String)> = Vec::new();
    fields.push((String::from_str("topic_id"), to_decimal(topic_id)));
    fields.push((String::from_str("raw"), String::from_str(content)));
    assert(pair_views(fields@) =~= seq![
        ("topic_id"@, decimal(topic_id as nat)),
        ("raw"@, content@),
    ]);
    fields
}

/// Judges the status of an answer: one of success is accepted, any other
/// is a refusal by the forum, told with what was asked for and the status.
pub fn check_status(success: bool, what: &str, status: &String) -> (judged: Result<(), LdUiError>)
    ensures
        success ==> judged is Ok,
        !success ==> judged is Err && judged->Err_0 is Api && judged->Err_0->Api_0@ == what@
            + status@,
{
    if success {
        Ok(())
    } else {
        Err(LdUiError::Api(prefixed(what, status)))
    }
}

} // verus!
