use bilibili_api_rs::cache::{Cacher, NoCacher, SimpleFishMemCacher, SimpleMemCacher};
use bilibili_api_rs::json::{Json, JsonNumber};
use bilibili_api_rs::lodash::Lodash;

fn lv(v: &serde_json::Value) -> Json {
    match v {
        serde_json::Value::Null => Json::Null,
        serde_json::Value::Bool(b) => Json::Bool(*b),
        serde_json::Value::Number(n) => match n.as_i64() {
            Some(i) => Json::Number(JsonNumber::Int(i as i128)),
            None => match n.as_u64() {
                Some(u) => Json::Number(JsonNumber::Int(u as i128)),
                None => Json::Number(JsonNumber::Float(n.to_string())),
            },
        },
        serde_json::Value::String(s) => Json::String(s.clone()),
        serde_json::Value::Array(a) => Json::Array(a.iter().map(lv).collect()),
        serde_json::Value::Object(m) => Json::Object(
            m.keys().cloned().collect(),
            m.values().map(lv).collect(),
        ),
    }
}

fn lparse(t: &str) -> Json {
    lv(&serde_json::from_str(t).unwrap())
}

fn following() -> Json {
    lparse(
        r#"{"following": [{"mid": 1472906636, "name": "ywwuyi"}, {"mid": 15810, "name": "Mr.Quin"}]}"#,
    )
}


#[test]
fn lodash_at_doc_example() {
    let v = following();
    assert_eq!(v.at(lparse(r#"["following", 0, "mid"]"#)).to_text(), "1472906636");
    assert_eq!(
        v.get_key("following").at(lparse(r#"[[0, "name"], [1, "name"]]"#)).to_text(),
        "[\"ywwuyi\",\"Mr.Quin\"]"
    );
}

#[test]
fn lodash_at_single_path_and_misses() {
    let v = following();
    assert!(v.at(lparse(r#"["following", 5, "mid"]"#)).is_null());
    assert!(v.at(lparse(r#"["nothing", "here"]"#)).is_null());
    assert!(v.at(lparse(r#""following""#)).is_null());
    assert_eq!(v.at(lparse(r#"[["following", 1, "mid"]]"#)).to_text(), "[15810]");
}

#[test]
fn test_simple_mem_cacher() {
    let mut c = SimpleMemCacher::default();
    c.cache_store("abc", "fed");
    assert_eq!(c.cache_get("abc"), Some(String::from("fed")));
}

#[test]
fn mem_cacher_keeps_other_keys() {
    let mut c = SimpleMemCacher::default();
    c.cache_store("a", "1");
    c.cache_store("b", "2");
    c.cache_store("a", "3");
    assert_eq!(c.cache_get("a"), Some(String::from("3")));
    assert_eq!(c.cache_get("b"), Some(String::from("2")));
    assert_eq!(c.cache_get("c"), None);
}

#[test]
fn no_cacher_forgets() {
    let mut c = NoCacher::default();
    c.cache_store("abc", "fed");
    assert_eq!(c.cache_get("abc"), None);
}

#[test]
fn fish_cacher_remembers_within_duration() {
    let mut c = SimpleFishMemCacher::new(std::time::Duration::from_secs(3600));
    c.cache_store("abc", "fed");
    assert_eq!(c.cache_get("abc"), Some(String::from("fed")));
    assert_eq!(c.cache_get("x"), None);
    let d = SimpleFishMemCacher::default();
    assert_eq!(d.forgot_duration, std::time::Duration::from_secs(120));
    let mut z = SimpleFishMemCacher::new(std::time::Duration::from_secs(0));
    z.cache_store("abc", "fed");
    assert_eq!(z.cache_get("abc"), None);
}

#[test]
fn fish_cacher_fresh_after() {
    let mut c = SimpleFishMemCacher::new(std::time::Duration::from_secs(60));
    c.cache_store("k", "v");
    assert_eq!(c.fresh_after("k", 0), Some(String::from("v")));
    assert_eq!(c.fresh_after("k", 59_999_999_999), Some(String::from("v")));
    assert_eq!(c.fresh_after("k", 60_000_000_000), None);
    assert_eq!(c.fresh_after("x", 0), None);
}
