use bilibili_api_rs::api::user::User;
use bilibili_api_rs::api::xlive::{AreaID, ListSortType, PAreaID, Xlive};
use bilibili_api_rs::api::{ApiRequest, ApiRequestBuilder};
use bilibili_api_rs::api_info::GetFromPath;
use bilibili_api_rs::cred::{buvid_fp_from_hash, gen_buvid_fp, gen_payload, gen_payload_at, try_gen_buvid_fp};
use bilibili_api_rs::error::ApiError;
use bilibili_api_rs::json::{Json, JsonNumber};
use bilibili_api_rs::net::NetApiCall;
use bilibili_api_rs::plugin::{emit, finished, ApiRequestEvent, ApiRequestTag, Emitted};
use bilibili_api_rs::text::{bytes_to_hex, hex_to_string, int_to_string, join_strings, split_str};

fn av(v: &serde_json::Value) -> Json {
    match v {
        serde_json::Value::Null => Json::Null,
        serde_json::Value::Bool(b) => Json::Bool(*b),
        serde_json::Value::Number(n) => match n.as_i64() {
            Some(i) => Json::Number(JsonNumber::Int(i as i128)),
            None => match n.as_u64() {
                Some(u) => Json::Number(JsonNumber::Int(u as i128)),
                None => Json::Number(JsonNumber::Float(n.to_string())),
            },
        },
        serde_json::Value::String(s) => Json::String(s.clone()),
        serde_json::Value::Array(a) => Json::Array(a.iter().map(av).collect()),
        serde_json::Value::Object(m) => Json::Object(
            m.keys().cloned().collect(),
            m.values().map(av).collect(),
        ),
    }
}

fn aparse(t: &str) -> Json {
    av(&serde_json::from_str(t).unwrap())
}

fn user_table() -> Json {
    aparse(
        r#"{"info": {"info": {"url": "https://api.bilibili.com/x/space/acc/info", "method": "GET"},
                     "video": {"url": "https://api.bilibili.com/x/space/arc/search", "method": "get"}}}"#,
    )
}

fn pairs(q: &[(String, String)]) -> Vec<(&str, &str)> {
    q.iter().map(|(a, b)| (a.as_str(), b.as_str())).collect()
}

#[test]
fn get_from_path_splits_on_slash() {
    let t = user_table();
    assert_eq!(
        t.get_from_path("info/info/url").as_str(),
        Some("https://api.bilibili.com/x/space/acc/info")
    );
    assert!(t.get_from_path("info/nothing/url").is_null());
    assert!(t.get_from_path("").is_null());
}

#[test]
fn user_get_info_request() {
    let u = User::new(user_table(), String::from("474593913"));
    let req = u.get_info().ok().unwrap();
    assert_eq!(req.method, "GET");
    assert_eq!(req.url, "https://api.bilibili.com/x/space/acc/info");
    assert_eq!(pairs(&req.query), vec![("mid", "474593913")]);
    assert!(req.bufferable);
    assert!(req.reads_cache());
    let req = req.invalidate();
    assert!(!req.reads_cache());
    assert!(req.writes_cache());
}

#[test]
fn user_video_list_request() {
    let u = User::new(user_table(), String::from("10592068"));
    let req = u.video_list(-3).ok().unwrap();
    assert_eq!(req.method, "get");
    assert_eq!(
        pairs(&req.query),
        vec![("mid", "10592068"), ("pn", "-3"), ("tid", "0"), ("ps", "30"), ("order", "pubdate")]
    );
    assert!(!req.bufferable);
    assert!(!req.reads_cache());
}

#[test]
fn xlive_get_list_request() {
    let x = Xlive::new(aparse(r#"{"info": {"get_list": {"url": "https://live", "method": "GET"}}}"#));
    let req = x
        .get_list(PAreaID::Vup, AreaID::All, ListSortType::Entropy, 1)
        .ok()
        .unwrap();
    assert_eq!(req.url, "https://live");
    assert_eq!(
        pairs(&req.query),
        vec![
            ("platform", "web"),
            ("sort_type", "sort_type_291"),
            ("parent_area_id", "9"),
            ("area_id", "0"),
            ("page", "1")
        ]
    );
}

#[test]
fn area_ids() {
    assert_eq!(PAreaID::SingleGame.as_i32(), 6);
    assert_eq!(PAreaID::Vup.as_i32(), 9);
    assert_eq!(AreaID::All.as_i32(), 0);
    assert_eq!(AreaID::OtherSingleGame.as_i32(), 235);
    assert_eq!(AreaID::ConsoleGame.as_i32(), 236);
    assert_eq!(AreaID::HaloInfinite.as_i32(), 559);
    assert_eq!(ListSortType::Entropy.as_str(), "sort_type_291");
    assert_eq!(ListSortType::Latest.as_str(), "live_time");
}

#[test]
fn builder_query_appends() {
    let b = ApiRequestBuilder::new().api(user_table());
    let p = b.path2("info/info/method", "info/video/url");
    assert_eq!(p.method, "GET");
    assert_eq!(p.url, "https://api.bilibili.com/x/space/arc/search");
    let p = p.query(&[("a", "1")]).query(&[]).query(&[("b", "2"), ("a", "3")]);
    assert_eq!(pairs(&p.query), vec![("a", "1"), ("b", "2"), ("a", "3")]);
    let r = p.nobuffer().ok().unwrap();
    assert!(!r.bufferable && !r.invalidate_flag);
}

#[test]
fn filter_result_cases() {
    match ApiRequest::filter_result(aparse(r#"{"code": 0, "data": {"x": 1}}"#)) {
        Ok(d) => assert_eq!(d.to_text(), "{\"x\":1}"),
        Err(_) => panic!("code 0"),
    }
    match ApiRequest::filter_result(aparse(r#"{"code": 0, "data": null, "result": [1]}"#)) {
        Ok(d) => assert_eq!(d.to_text(), "[1]"),
        Err(_) => panic!("code 0 with result"),
    }
    match ApiRequest::filter_result(aparse(r#"{"code": -352, "message": "risk"}"#)) {
        Err(e) => assert_eq!(e.to_text(), "bad resp, code:-352 msg:risk"),
        _ => panic!("code -352"),
    }
    match ApiRequest::filter_result(aparse(r#"{"code": 1, "msg": "m", "message": "n"}"#)) {
        Err(ApiError::General(m)) => assert_eq!(m, "bad resp, code:1 msg:m"),
        _ => panic!("code 1"),
    }
    match ApiRequest::filter_result(aparse(r#"{"code": 1}"#)) {
        Err(ApiError::General(m)) => assert_eq!(m, "bad resp, code:1 msg:detail missed"),
        _ => panic!("code 1 without message"),
    }
    match ApiRequest::filter_result(aparse(r#"{"data": 1}"#)) {
        Err(ApiError::General(m)) => assert_eq!(m, "empty response"),
        _ => panic!("no code"),
    }
}

#[test]
fn answer_fills_cache_only_when_bufferable() {
    let u = User::new(user_table(), String::from("1"));
    let req = u.get_info().ok().unwrap();
    let (r, store) = req.answer(aparse(r#"{"code": 0, "data": {"mid": 1}}"#));
    assert_eq!(r.ok().unwrap().to_text(), "{\"mid\":1}");
    assert_eq!(store, Some(String::from("{\"mid\":1}")));
    let (r, store) = req.answer(aparse(r#"{"code": 3}"#));
    assert!(r.is_err());
    assert_eq!(store, None);
    assert_eq!(req.cached_answer(Some(aparse("5"))).unwrap().to_text(), "5");
    let req = req.invalidate();
    assert!(req.cached_answer(Some(aparse("5"))).is_none());
    let v = u.video_list(1).ok().unwrap();
    let (_, store) = v.answer(aparse(r#"{"code": 0, "data": 2}"#));
    assert_eq!(store, None);
}

#[test]
fn net_call_outcome() {
    match NetApiCall::outcome(aparse(r#"{"code": 0, "data": null, "result": "r"}"#)) {
        Ok(d) => assert_eq!(d.to_text(), "\"r\""),
        Err(_) => panic!("code 0"),
    }
    match NetApiCall::outcome(aparse(r#"{"code": -400, "message": "bad"}"#)) {
        Err(ApiError::Remote(None, Some(m))) => assert_eq!(m, "api return code -400: bad"),
        _ => panic!("code -400"),
    }
    match NetApiCall::outcome(aparse(r#"{}"#)) {
        Err(ApiError::Remote(None, Some(m))) => assert_eq!(m, "api return code null"),
        _ => panic!("no code"),
    }
}

#[test]
fn error_texts() {
    assert_eq!(
        ApiError::remote_err(Some(3), Some("a\"b")).to_text(),
        "Remote api error code Some(3): Some(\"a\\\"b\")"
    );
    assert_eq!(
        ApiError::remote_err(None, None).to_text(),
        "Remote api error code None: None"
    );
    assert_eq!(ApiError::general("boom").to_text(), "boom");
    assert!(!ApiError::general("x").is_network());
    assert!(ApiError::general("x").as_network().is_none());
}

#[test]
fn fingerprint_of_known_hash() {
    let m: u128 = (0xba93364b329dfb8a_u128 << 64) | 0x73041f73d5230702_u128;
    assert_eq!(buvid_fp_from_hash(m), "041f73d523070293364b329dfb8a");
}

#[test]
fn fingerprint_of_payload() {
    let p = aparse(r#"{"a": "b"}"#);
    assert_eq!(gen_buvid_fp(&p).ok().unwrap(), "041f73d523070293364b329dfb8a");
    assert_eq!(
        try_gen_buvid_fp(&aparse(r#"{"payload": "x"}"#)),
        Some(String::from("01fdc673a9c1838b4ba6ad2116eb"))
    );
}

#[test]
fn payload_carries_the_credentials() {
    let p = gen_payload_at(aparse(r#"{"z": 1}"#), "U", "K", 1234);
    assert_eq!(
        p.to_text(),
        "{\"payload\":\"{\\\"5062\\\":1234,\\\"54ef\\\":\\\"K\\\",\\\"df35\\\":\\\"U\\\",\\\"z\\\":1}\"}"
    );
    let now = gen_payload(Json::Null, "U", "K");
    let inner: serde_json::Value =
        serde_json::from_str(now.get_key("payload").as_str().unwrap()).unwrap();
    assert_eq!(inner["df35"], "U");
    assert!(inner["5062"].as_i64().unwrap() > 1_600_000_000_000);
}

#[test]
fn texts_of_numbers() {
    assert_eq!(int_to_string(0), "0");
    assert_eq!(int_to_string(-1234), "-1234");
    assert_eq!(int_to_string(i128::MIN), i128::MIN.to_string());
    assert_eq!(hex_to_string(255), "ff");
    assert_eq!(hex_to_string(0), "0");
    assert_eq!(bytes_to_hex(&[0, 15, 16, 255]), "000f10ff");
}

#[test]
fn split_and_join() {
    let parts = split_str("a//b/", '/');
    assert_eq!(parts, vec!["a", "", "b", ""]);
    assert_eq!(join_strings(&parts, "/"), "a//b/");
    assert_eq!(join_strings(&Vec::new(), "; "), "");
}

#[test]
fn json_text_escapes() {
    let v = aparse(r#"{"b": "q\"\\\n\u0001", "a": [true, null, 1.5, -2]}"#);
    assert_eq!(v.to_text(), "{\"a\":[true,null,1.5,-2],\"b\":\"q\\\"\\\\\\n\\u0001\"}");
}

#[test]
fn json_set_key_keeps_order() {
    let mut v = aparse(r#"{"b": 1, "d": 2}"#);
    v.set_key(String::from("c"), Json::Bool(true));
    v.set_key(String::from("a"), Json::Null);
    v.set_key(String::from("d"), Json::String(String::from("x")));
    assert_eq!(v.to_text(), "{\"a\":null,\"b\":1,\"c\":true,\"d\":\"x\"}");
    assert_eq!(v.get_key("c").as_bool(), Some(true));
    let mut n = Json::Null;
    n.set_key(String::from("k"), Json::Number(JsonNumber::Int(1)));
    assert_eq!(n.to_text(), "{\"k\":1}");
}

#[test]
fn plugin_routes_requests() {
    let u = User::new(user_table(), String::from("1"));
    let ev = ApiRequestEvent { req: u.get_info(), tag: ApiRequestTag::Num(7) };
    match emit(ev) {
        Emitted::Spawn(r, ApiRequestTag::Num(7)) => assert_eq!(r.url, "https://api.bilibili.com/x/space/acc/info"),
        _ => panic!("a built request goes out"),
    }
    let bad = ApiRequestEvent { req: Err(ApiError::general("no")), tag: ApiRequestTag::Str(String::from("t")) };
    match emit(bad) {
        Emitted::Report(res) => {
            assert!(matches!(res.result, Err(ApiError::General(_))));
            assert!(matches!(res.tag, ApiRequestTag::Str(_)));
        }
        _ => panic!("an error is reported"),
    }
    let done = finished(Ok(Json::Null), ApiRequestTag::UNum(1));
    assert!(matches!(done.tag, ApiRequestTag::UNum(1)));
}
