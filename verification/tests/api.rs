use ldui::api::{
    auth_headers, check_status, endpoint, ensure_authorized, latest_topics_path, post_form,
    to_decimal, topic_path, topic_posts_path, user_path, CATEGORIES_PATH, POSTS_PATH,
};
use ldui::config::DiscourseConfig;
use ldui::error::LdUiError;

fn config(api_key: &str) -> DiscourseConfig {
    DiscourseConfig { url: "https://linux.do".to_string(), api_key: api_key.to_string() }
}

#[test]
fn numbers_are_written_in_decimal() {
    assert_eq!(to_decimal(0), "0");
    assert_eq!(to_decimal(7), "7");
    assert_eq!(to_decimal(10), "10");
    assert_eq!(to_decimal(109), "109");
    assert_eq!(to_decimal(4_294_967_295), "4294967295");
    assert_eq!(to_decimal(u64::MAX), "18446744073709551615");
    for n in [1u64, 9, 11, 99, 100, 101, 12345, 1_000_000, 9_007_199_254_740_993] {
        assert_eq!(to_decimal(n), n.to_string());
    }
}

#[test]
fn paths_of_the_forum() {
    assert_eq!(latest_topics_path(1), "/latest.json?page=0");
    assert_eq!(latest_topics_path(12), "/latest.json?page=11");
    assert_eq!(latest_topics_path(0), "/latest.json?page=0");
    assert_eq!(latest_topics_path(u32::MAX), "/latest.json?page=4294967294");
    assert_eq!(topic_path(42), "/t/42.json");
    assert_eq!(topic_posts_path(42, 3), "/t/topic/42.json?page=3");
    assert_eq!(topic_posts_path(0, 0), "/t/topic/0.json?page=0");
    assert_eq!(user_path("neo"), "/users/neo.json");
    assert_eq!(CATEGORIES_PATH, "/categories.json");
    assert_eq!(POSTS_PATH, "/t/posts.json");
    assert_eq!(endpoint("https://linux.do", "/t/42.json"), "https://linux.do/t/42.json");
    assert_eq!(endpoint("", ""), "");
}

#[test]
fn key_is_sent_with_every_request() {
    assert_eq!(
        auth_headers(&config("secret")),
        vec![
            ("Api-Userkey".to_string(), "secret".to_string()),
            ("Api-Username".to_string(), "ldui".to_string()),
        ]
    );
    assert_eq!(auth_headers(&config("")), vec![]);
}

#[test]
fn post_needs_a_key() {
    assert_eq!(ensure_authorized(&config("secret")), Ok(()));
    assert_eq!(ensure_authorized(&config("")), Err(LdUiError::Unauthorized));
}

#[test]
fn post_is_sent_as_a_form() {
    assert_eq!(
        post_form(42, "hello & bye"),
        vec![
            ("topic_id".to_string(), "42".to_string()),
            ("raw".to_string(), "hello & bye".to_string()),
        ]
    );
}

#[test]
fn status_of_no_success_is_a_refusal() {
    assert_eq!(check_status(true, "x: ", &"200 OK".to_string()), Ok(()));
    assert_eq!(
        check_status(false, "获取主题失败，状态码: ", &"404 Not Found".to_string()),
        Err(LdUiError::Api("获取主题失败，状态码: 404 Not Found".to_string()))
    );
}

#[test]
fn failures_are_told_in_words() {
    assert_eq!(LdUiError::Io("disk".to_string()).message(), "IO错误: disk");
    assert_eq!(LdUiError::Api("no".to_string()).message(), "API错误: no");
    assert_eq!(LdUiError::Request("net".to_string()).message(), "HTTP请求错误: net");
    assert_eq!(LdUiError::Parse("json".to_string()).message(), "解析错误: json");
    assert_eq!(LdUiError::Config("toml".to_string()).message(), "配置错误: toml");
    assert_eq!(LdUiError::Unauthorized.message(), "未经授权");
}
