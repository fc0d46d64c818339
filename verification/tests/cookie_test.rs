use bilibili_api_rs::cookies::{commit_step, CommitStep, cookie_bench_data, gen_cookie, prepare_cookie_request, video_list_opts};
use bilibili_api_rs::json::{Json, JsonNumber};
use bilibili_api_rs::path_lodash::{parse_usize_str, Lodash};

fn cv(v: &serde_json::Value) -> Json {
    match v {
        serde_json::Value::Null => Json::Null,
        serde_json::Value::Bool(b) => Json::Bool(*b),
        serde_json::Value::Number(n) => match n.as_i64() {
            Some(i) => Json::Number(JsonNumber::Int(i as i128)),
            None => match n.as_u64() {
                Some(u) => Json::Number(JsonNumber::Int(u as i128)),
                None => Json::Number(JsonNumber::Float(n.to_string())),
            },
        },
        serde_json::Value::String(s) => Json::String(s.clone()),
        serde_json::Value::Array(a) => Json::Array(a.iter().map(cv).collect()),
        serde_json::Value::Object(m) => Json::Object(
            m.keys().cloned().collect(),
            m.values().map(cv).collect(),
        ),
    }
}

fn cparse(t: &str) -> Json {
    cv(&serde_json::from_str(t).unwrap())
}

fn cfollowing() -> Json {
    cparse(
        r#"{"following": [{"mid": 1472906636, "name": "ywwuyi"}, {"mid": 15810, "name": "Mr.Quin"}]}"#,
    )
}

fn cdata() -> Json {
    cookie_bench_data(Json::Null, "B3")
}

#[test]
fn test_lodash_got() {
    let v = cdata();
    assert_eq!(
        v.got(vec!["headers", "REFERER"]).to_text(),
        "\"https://www.bilibili.com\""
    );
    assert!(v.got(vec!["headers", "__must_null__"]).is_null());
}

#[test]
fn test_lodash_at() {
    let v = cdata();
    let r = Lodash::at(
        &v,
        vec![
            vec!["headers", "REFERER"],
            vec!["headers", "__must_null__"],
            vec!["cookies", "SESSDATA"],
        ],
    );
    assert_eq!(r.len(), 3);
    assert_eq!(r[0].to_text(), "\"https://www.bilibili.com\"");
    assert!(r[1].is_null());
    assert_eq!(r[2].to_text(), "\"\"");
}

#[test]
fn got_doc_example() {
    let v = cfollowing();
    assert_eq!(v.got(vec!["following", "0", "mid"]).to_text(), "1472906636");
    let names = Lodash::at(
        v.get_key("following"),
        vec![vec!["0", "name"], vec!["1", "name"]],
    );
    assert_eq!(names[0].to_text(), "\"ywwuyi\"");
    assert_eq!(names[1].to_text(), "\"Mr.Quin\"");
}

#[test]
fn got_reads_bad_index_as_zero() {
    let v = cfollowing();
    assert_eq!(v.got(vec!["following", "x", "name"]).to_text(), "\"ywwuyi\"");
    assert_eq!(v.got(vec!["following", "+1", "name"]).to_text(), "\"Mr.Quin\"");
    assert!(v.got(vec!["following", "7", "name"]).is_null());
}

#[test]
fn parse_usize_like_std() {
    assert_eq!(parse_usize_str("0"), Some(0));
    assert_eq!(parse_usize_str("+12"), Some(12));
    assert_eq!(parse_usize_str("007"), Some(7));
    assert_eq!(parse_usize_str(""), None);
    assert_eq!(parse_usize_str("+"), None);
    assert_eq!(parse_usize_str("-1"), None);
    assert_eq!(parse_usize_str(" 1"), None);
    assert_eq!(parse_usize_str("1a"), None);
    assert_eq!(parse_usize_str("18446744073709551615"), Some(usize::MAX));
    assert_eq!(parse_usize_str("18446744073709551616"), None);
    assert_eq!(parse_usize_str("99999999999999999999"), None);
}

#[test]
fn old_cookie_header() {
    let d = cdata();
    assert_eq!(gen_cookie(&d), "DedeUserID=; SESSDATA=; bili_jct=; buvid3=B3");
    let single = cparse(r#"{"cookies": {"a": "1"}}"#);
    assert_eq!(gen_cookie(&single), "a=1");
    let none = cparse(r#"{"cookies": {}}"#);
    assert_eq!(gen_cookie(&none), "");
}

#[test]
fn old_data_layout() {
    let d = cdata();
    assert_eq!(d.got(vec!["wbi_oe", "0"]).to_text(), "46");
    assert_eq!(d.got(vec!["headers", "USER_AGENT"]).to_text(), "\"Mozilla/5.0\"");
    assert!(d.got(vec!["api"]).is_null());
}

#[test]
fn old_request_plan() {
    let api = cparse(
        r#"{"user": {"info": {"info": {"url": "https://u", "wbi": true}, "video": {"url": "https://v", "method": "GET"}}}}"#,
    );
    let d = cookie_bench_data(api, "B3");
    let plan = prepare_cookie_request(&d, Some("s"), vec!["user", "info", "info"], cparse(r#"{"query": {"mid": 1}}"#), 9);
    assert_eq!(plan.method, "GET");
    assert_eq!(plan.url, "https://u");
    assert_eq!(plan.cookie, "DedeUserID=; SESSDATA=; bili_jct=; buvid3=B3");
    assert!(plan.query.to_text().contains("\"wts\":9"));
    let plan = prepare_cookie_request(&d, None, vec!["user", "info", "video"], video_list_opts(7), 9);
    assert_eq!(plan.url, "https://v");
    assert_eq!(
        plan.query.to_text(),
        "{\"keyword\":\"\",\"mid\":7,\"order\":\"pubdate\",\"pn\":1,\"ps\":30,\"tid\":0}"
    );
}


#[test]
fn commit_stores_only_unchanged_state() {
    assert!(matches!(commit_step(true), CommitStep::Store));
    assert!(matches!(commit_step(false), CommitStep::Retry));
}
