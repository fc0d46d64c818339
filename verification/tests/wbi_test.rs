use bilibili_api_rs::bench::{bench_data, Bench};
use bilibili_api_rs::json::{Json, JsonNumber};
use bilibili_api_rs::lodash::Lodash;
use bilibili_api_rs::wbi::{
    api_result_validate, enc_wbi, enc_wbi_with_salt, fill_state, gen_cookie, prepare_request,
    state_needs, try_prepare_request, try_wbi_salt_compute, unsigned_query_text, uvid_from_spi,
    w_rid, wbi_parse_ae, wbi_salt_compute, wbi_salt_from_nav, Client, WbiError,
};

fn wv(v: &serde_json::Value) -> Json {
    match v {
        serde_json::Value::Null => Json::Null,
        serde_json::Value::Bool(b) => Json::Bool(*b),
        serde_json::Value::Number(n) => match n.as_i64() {
            Some(i) => Json::Number(JsonNumber::Int(i as i128)),
            None => match n.as_u64() {
                Some(u) => Json::Number(JsonNumber::Int(u as i128)),
                None => Json::Number(JsonNumber::Float(n.to_string())),
            },
        },
        serde_json::Value::String(s) => Json::String(s.clone()),
        serde_json::Value::Array(a) => Json::Array(a.iter().map(wv).collect()),
        serde_json::Value::Object(m) => Json::Object(
            m.keys().cloned().collect(),
            m.values().map(wv).collect(),
        ),
    }
}

fn wparse(t: &str) -> Json {
    wv(&serde_json::from_str(t).unwrap())
}

fn wvalue(j: &Json) -> serde_json::Value {
    serde_json::from_str(&j.to_text()).unwrap()
}

const IMG: &str = "https://i0.hdslb.com/bfs/wbi/e130e5f398924e569b7cca9f4713ec63.png";
const SUB: &str = "https://i0.hdslb.com/bfs/wbi/65c711c1f26b475a9305dad9f9903782.png";

#[test]
fn wbi_test_wbi_salt_compute() {
    let bench = Bench::new(Json::Null).0;
    let le = wbi_salt_compute(&bench, IMG, SUB);
    assert_eq!(le, "5a73a9f6609390773b53586cce514c2e");
}

#[test]
fn wbi_test_enc_wbi() {
    let salt = "b7ot4is0ba.3cp9fi5:ce0eme/l9d84s";
    let mut bench = Bench::new(Json::Null).0;
    bench.state.insert("wbi_salt".into(), salt.to_owned());
    let opts = enc_wbi(&bench, wparse(r#"{"query": {"mid": 213741}}"#), 1_686_163_791);
    let expected: serde_json::Value = serde_json::from_str(
        r#"{
            "_uq": "mid=213741&wts=1686163791",
            "query": {
                "w_rid": "dc7bb638dc082c354fd9624b72374f3b",
                "mid": 213741,
                "wts": 1686163791
            }
        }"#,
    )
    .unwrap();
    assert_eq!(wvalue(&opts), expected);
}

#[test]
fn wbi_test_enc_wbi2() {
    let salt = "5a73a9f6609390773b53586cce514c2e";
    let mut bench = Bench::new(Json::Null).0;
    bench.state.insert("wbi_salt".into(), salt.to_owned());
    let opts = enc_wbi(
        &bench,
        wparse(
            r#"{"query": {"mid": 1472906636, "token": "", "platform": "web", "web_location": 1550101}}"#,
        ),
        1_686_230_003,
    );
    let expected: serde_json::Value = serde_json::from_str(
        r#"{
            "_uq": "mid=1472906636&platform=web&token=&web_location=1550101&wts=1686230003",
            "query": {
                "wts": 1686230003,
                "w_rid": "9946c05f7b3d5a8505a97e1b8daab2be",
                "mid": 1472906636,
                "token": "",
                "platform": "web",
                "web_location": 1550101
            }
        }"#,
    )
    .unwrap();
    assert_eq!(wvalue(&opts), expected);
}

#[test]
fn signing_renders_non_string_values_as_json() {
    let q = wparse(r#"{"b": [1, "x"], "a": true, "c": "s", "wts": "old"}"#);
    let t = unsigned_query_text(&q, 5);
    assert_eq!(t, "a=true&b=[1,\"x\"]&c=s&wts=old");
}

#[test]
fn w_rid_is_md5_of_text_and_salt() {
    assert_eq!(
        w_rid("mid=213741&wts=1686163791", "b7ot4is0ba.3cp9fi5:ce0eme/l9d84s"),
        "dc7bb638dc082c354fd9624b72374f3b"
    );
    assert_eq!(w_rid("", ""), "d41d8cd98f00b204e9800998ecf8427e");
}

#[test]
fn enc_wbi_keeps_other_options() {
    let opts = enc_wbi_with_salt(wparse(r#"{"x": 1, "query": {}}"#), 7, "s");
    let v = wvalue(&opts);
    assert_eq!(v["x"], 1);
    assert_eq!(v["_uq"], "wts=7");
    assert_eq!(v["query"]["wts"], 7);
    assert_eq!(v["query"]["w_rid"], w_rid("wts=7", "s").as_str());
}

#[test]
fn parse_ae_reads_both_keys() {
    assert_eq!(
        wbi_parse_ae(IMG, SUB),
        Some(String::from(
            "e130e5f398924e569b7cca9f4713ec6365c711c1f26b475a9305dad9f9903782"
        ))
    );
    assert_eq!(wbi_parse_ae("https://example.com/a.png", SUB), None);
}

#[test]
fn salt_falls_back_to_url_pieces() {
    let bench = Bench::new(Json::Null).0;
    let img = "http://other.host/xx/e130e5f398924e569b7cca9f4713ec63.png";
    let sub = "http://other.host/yy/65c711c1f26b475a9305dad9f9903782.png";
    assert_eq!(wbi_salt_compute(&bench, img, sub), "5a73a9f6609390773b53586cce514c2e");
}

#[test]
fn salt_unavailable_for_short_urls() {
    let bench = Bench::new(Json::Null).0;
    assert_eq!(try_wbi_salt_compute(&bench, "short", "urls"), None);
    assert_eq!(
        try_wbi_salt_compute(&bench, IMG, SUB),
        Some(String::from("5a73a9f6609390773b53586cce514c2e"))
    );
}

#[test]
fn validate_takes_data_of_code_zero() {
    let ok = api_result_validate(wparse(r#"{"code": 0, "data": {"a": 1}}"#));
    match ok {
        Ok(d) => assert_eq!(d.to_text(), "{\"a\":1}"),
        Err(_) => panic!("code 0 is accepted"),
    }
    let rejected = api_result_validate(wparse(r#"{"code": -352, "message": "risk"}"#));
    match rejected {
        Err(e) => assert_eq!(e.message(), "bilibili api reject: -352 risk"),
        Ok(_) => panic!("code -352 is rejected"),
    }
    let bare = api_result_validate(wparse(r#"{}"#));
    match bare {
        Err(WbiError::Reject { code, message }) => {
            assert_eq!(code, -1);
            assert_eq!(message, "unknown");
        }
        _ => panic!("no code is rejected"),
    }
}

#[test]
fn error_messages() {
    assert_eq!(WbiError::RetryForState.message(), "Require retry for update state");
    assert_eq!(WbiError::UvidInvalid.message(), "fetch_uvid: b_3 invalid");
    assert_eq!(
        WbiError::ImgUrlInvalid.message(),
        "fetch_wbi_salt: wbi_img/img_url invalid"
    );
    assert_eq!(
        WbiError::SubUrlInvalid.message(),
        "fetch_wbi_salt: wbi_img/sub_url invalid"
    );
    assert_eq!(
        WbiError::SaltUnavailable.message(),
        "fetch_wbi_salt: salt unavailable"
    );
}

#[test]
fn uvid_and_salt_from_answers() {
    match uvid_from_spi(wparse(r#"{"data": {"b_3": "U-1"}}"#)) {
        Ok(u) => assert_eq!(u, "U-1"),
        Err(_) => panic!("b_3 is there"),
    }
    assert!(matches!(uvid_from_spi(wparse(r#"{"data": {}}"#)), Err(WbiError::UvidInvalid)));
    let bench = Bench::new(Json::Null).0;
    let nav = wparse(&format!(
        r#"{{"data": {{"wbi_img": {{"img_url": "{}", "sub_url": "{}"}}}}}}"#,
        IMG, SUB
    ));
    match wbi_salt_from_nav(&bench, &nav) {
        Ok(s) => assert_eq!(s, "5a73a9f6609390773b53586cce514c2e"),
        Err(_) => panic!("nav has both urls"),
    }
    let no_img = wparse(r#"{"data": {"wbi_img": {}}}"#);
    assert!(matches!(wbi_salt_from_nav(&bench, &no_img), Err(WbiError::ImgUrlInvalid)));
    let no_sub = wparse(r#"{"data": {"wbi_img": {"img_url": "x"}}}"#);
    assert!(matches!(wbi_salt_from_nav(&bench, &no_sub), Err(WbiError::SubUrlInvalid)));
    let short = wparse(r#"{"data": {"wbi_img": {"img_url": "x", "sub_url": "y"}}}"#);
    assert!(matches!(wbi_salt_from_nav(&bench, &short), Err(WbiError::SaltUnavailable)));
}

#[test]
fn fresh_bench_state_is_empty() {
    let mut bench = Bench::new(Json::Null).0;
    assert!(bench.state.is_empty());
    assert_eq!(gen_cookie(&bench), "");
    bench.state.insert("buvid3".into(), "B".into());
    assert_eq!(gen_cookie(&bench), "buvid3=B");
}

fn json_state(bench: &Bench) -> serde_json::Value {
    serde_json::Value::Object(
        bench
            .state
            .iter()
            .map(|(k, v)| (k.clone(), serde_json::Value::String(v.clone())))
            .collect(),
    )
}

#[test]
fn lib_commit_state() {
    let mut bench = Bench::new(Json::Null).0;
    assert_eq!(json_state(&bench), serde_json::from_str::<serde_json::Value>("{}").unwrap());
    bench.commit_state(|s| s.update("test".into(), "value".into()));
    assert_eq!(
        json_state(&bench),
        serde_json::from_str::<serde_json::Value>(r#"{"test":"value"}"#).unwrap()
    );
    bench.commit_state(|s| s.update("test".into(), "modified".into()));
    assert_eq!(
        json_state(&bench),
        serde_json::from_str::<serde_json::Value>(r#"{"test":"modified"}"#).unwrap()
    );
}

#[test]
fn lib_test_lodash_at() {
    let bench = Bench::new(Json::Null).0;
    let v = &*bench.data;
    assert_eq!(
        wvalue(&v.at(wparse(
            r#"[["headers", "REFERER"], ["headers", "__must_null__"], ["cookies", "SESSDATA"]]"#
        ))),
        serde_json::from_str::<serde_json::Value>(r#"["https://www.bilibili.com", null, ""]"#)
            .unwrap()
    );
    assert_eq!(
        wvalue(&v.at(wparse(r#"["headers", "REFERER"]"#))),
        serde_json::from_str::<serde_json::Value>(r#""https://www.bilibili.com""#).unwrap()
    );
}

#[test]
fn lodash_at_empty_path_is_the_value() {
    let v = wparse(r#"{"a": [1]}"#);
    assert_eq!(v.at(wparse("[]")).to_text(), "{\"a\":[1]}");
}

#[test]
fn state_is_filled_once() {
    let bench = Bench::new(Json::Null).0;
    let needs = state_needs(&bench.state);
    assert!(needs.domain && needs.wbi_salt && needs.buvid3);
    let filled = fill_state(&bench.state, Some("salt".into()), Some("uv".into())).unwrap();
    assert_eq!(filled.get("Domain").cloned().unwrap(), ".bilibili.com");
    assert_eq!(filled.get("wbi_salt").cloned().unwrap(), "salt");
    assert_eq!(filled.get("buvid3").cloned().unwrap(), "uv");
    assert!(fill_state(&filled, None, None).is_none());
}

#[test]
fn request_plan_signs_wbi_entries() {
    let api = wparse(
        r#"{"user": {"info": {"info": {"url": "https://u", "method": "GET", "wbi": true}}},
            "credential": {"info": {"valid": {"url": "https://nav"}}}}"#,
    );
    let mut bench = Bench::new(api).0;
    bench.state.insert("wbi_salt".into(), "s".into());
    bench.state.insert("buvid3".into(), "B".into());
    let path = wparse(r#"["user", "info", "info"]"#);
    let plan = prepare_request(&bench, path, wparse(r#"{"query": {"mid": 1}}"#), 9);
    assert_eq!(plan.method, "GET");
    assert_eq!(plan.url, "https://u");
    assert_eq!(plan.referer, "https://www.bilibili.com");
    assert_eq!(plan.user_agent, "Mozilla/5.0");
    assert!(plan.cookie.starts_with("buvid3="));
    let q = wvalue(&plan.query);
    assert_eq!(q["wts"], 9);
    assert_eq!(q["w_rid"], w_rid("mid=1&wts=9", "s").as_str());
    let nav = wparse(r#"["credential", "info", "valid"]"#);
    let plan = prepare_request(&bench, nav, wparse(r#"{"query": {"a": "b"}}"#), 9);
    assert_eq!(plan.url, "https://nav");
    assert_eq!(plan.query.to_text(), "{\"a\":\"b\"}");
}

#[test]
fn request_plan_refused_without_url() {
    let bench = Bench::new(Json::Null).0;
    let path = wparse(r#"["user", "info", "info"]"#);
    assert!(try_prepare_request(&bench, path, wparse(r#"{}"#), 1).is_none());
}

#[test]
fn client_handles_share_state() {
    let mut cli = Client::new(Json::Null);
    let mut u = cli.user(42);
    assert_eq!(u.1, 42);
    let (path, opts) = u.info();
    assert_eq!(path.to_text(), "[\"user\",\"info\",\"info\"]");
    assert_eq!(
        opts.to_text(),
        "{\"query\":{\"mid\":42,\"platform\":\"web\",\"token\":\"\",\"web_location\":1550101}}"
    );
    u.0.commit_state(|s| s.update("wbi_salt".into(), "salted".into()));
    let x = cli.xlive(1, 530);
    assert_eq!(x.0.state.get("wbi_salt").cloned().unwrap(), "salted");
    let (path, opts) = x.list(2);
    assert_eq!(path.to_text(), "[\"xlive\",\"info\",\"get_list\"]");
    assert_eq!(
        opts.to_text(),
        "{\"query\":{\"area_id\":530,\"page\":2,\"parent_area_id\":1,\"platform\":\"web\",\"sort_type\":\"sort_type_291\"}}"
    );
}

#[test]
fn bench_data_layout() {
    let d = wvalue(&bench_data(wparse(r#"{"user": {}}"#)));
    assert_eq!(d["api"]["user"], serde_json::Value::Object(serde_json::Map::new()));
    assert_eq!(d["cookie_state"][0], "buvid3");
    assert_eq!(d["wbi_oe"].as_array().unwrap().len(), 64);
    assert_eq!(d["wbi_oe"][0], 46);
    assert_eq!(d["headers"]["REFERER"], "https://www.bilibili.com");
    assert_eq!(d["headers"]["USER_AGENT"], "Mozilla/5.0");
}

#[test]
fn client_takes_received_state() {
    let mut cli = Client::new(Json::Null);
    let mut s = im::HashMap::new();
    s.insert(String::from("wbi_salt"), String::from("z"));
    cli.take_received(bilibili_api_rs::bench::Received::Empty);
    assert!(cli.bench.state.get("wbi_salt").is_none());
    cli.take_received(bilibili_api_rs::bench::Received::State(s));
    assert_eq!(cli.bench.state.get("wbi_salt").cloned().unwrap(), "z");
    assert_eq!(cli.bench.state.len(), 1);
    cli.take_received(bilibili_api_rs::bench::Received::Disconnected);
    assert_eq!(cli.bench.state.get("wbi_salt").cloned().unwrap(), "z");
}
