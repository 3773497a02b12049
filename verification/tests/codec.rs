use openquery_bridge::json::Json;
use openquery_bridge::parse::parse_json;

fn obj(fields: Vec<(&str, Json)>) -> Json {
    Json::Obj(fields.into_iter().map(|(k, v)| (k.to_string(), v)).collect())
}

#[test]
fn encode_scalars() {
    assert_eq!(Json::Null.encode(), "null");
    assert_eq!(Json::Bool(true).encode(), "true");
    assert_eq!(Json::Bool(false).encode(), "false");
    assert_eq!(Json::Int(0).encode(), "0");
    assert_eq!(Json::Int(42).encode(), "42");
    assert_eq!(Json::Int(-7).encode(), "-7");
    assert_eq!(Json::Int(i64::MAX).encode(), "9223372036854775807");
    assert_eq!(Json::Int(i64::MIN).encode(), "-9223372036854775808");
}

#[test]
fn encode_strings_and_escapes() {
    assert_eq!(Json::Str(String::new()).encode(), "\"\"");
    assert_eq!(Json::Str("hello".to_string()).encode(), "\"hello\"");
    assert_eq!(
        Json::Str("a\"b\\c\nd\re\tf".to_string()).encode(),
        "\"a\\\"b\\\\c\\nd\\re\\tf\""
    );
}

#[test]
fn encode_collections() {
    assert_eq!(Json::Arr(vec![]).encode(), "[]");
    assert_eq!(
        Json::Arr(vec![Json::Int(1), Json::Int(2), Json::Int(3)]).encode(),
        "[1,2,3]"
    );
    assert_eq!(obj(vec![]).encode(), "{}");
    assert_eq!(
        obj(vec![("a", Json::Int(1)), ("b", Json::Bool(false))]).encode(),
        "{\"a\":1,\"b\":false}"
    );
    assert_eq!(
        obj(vec![("xs", Json::Arr(vec![Json::Null, obj(vec![("k", Json::Str("v".to_string()))])]))])
            .encode(),
        "{\"xs\":[null,{\"k\":\"v\"}]}"
    );
}

#[test]
fn parse_scalars() {
    assert_eq!(parse_json("null"), Some(Json::Null));
    assert_eq!(parse_json("true"), Some(Json::Bool(true)));
    assert_eq!(parse_json("false"), Some(Json::Bool(false)));
    assert_eq!(parse_json("0"), Some(Json::Int(0)));
    assert_eq!(parse_json("-12"), Some(Json::Int(-12)));
    assert_eq!(parse_json("9223372036854775807"), Some(Json::Int(i64::MAX)));
    assert_eq!(parse_json("-9223372036854775808"), Some(Json::Int(i64::MIN)));
}

#[test]
fn parse_rejects_out_of_range_numbers() {
    assert_eq!(parse_json("9223372036854775808"), None);
    assert_eq!(parse_json("-9223372036854775809"), None);
    assert_eq!(parse_json("99999999999999999999999999"), None);
}

#[test]
fn parse_strings() {
    assert_eq!(parse_json("\"\""), Some(Json::Str(String::new())));
    assert_eq!(parse_json("\"hi\""), Some(Json::Str("hi".to_string())));
    assert_eq!(
        parse_json("\"a\\\"b\\\\c\\nd\\re\\tf\\/g\""),
        Some(Json::Str("a\"b\\c\nd\re\tf/g".to_string()))
    );
    assert_eq!(parse_json("\"unterminated"), None);
    assert_eq!(parse_json("\"bad\\escape\""), None);
}

#[test]
fn parse_collections() {
    assert_eq!(parse_json("[]"), Some(Json::Arr(vec![])));
    assert_eq!(
        parse_json("[1,\"two\",null]"),
        Some(Json::Arr(vec![Json::Int(1), Json::Str("two".to_string()), Json::Null]))
    );
    assert_eq!(parse_json("{}"), Some(obj(vec![])));
    assert_eq!(
        parse_json("{\"a\":1,\"b\":[true]}"),
        Some(obj(vec![("a", Json::Int(1)), ("b", Json::Arr(vec![Json::Bool(true)]))]))
    );
}

#[test]
fn parse_rejects_malformed_lines() {
    assert_eq!(parse_json(""), None);
    assert_eq!(parse_json("nul"), None);
    assert_eq!(parse_json("truthy"), None);
    assert_eq!(parse_json("1.5"), None);
    assert_eq!(parse_json("[1,2"), None);
    assert_eq!(parse_json("[1,]"), None);
    assert_eq!(parse_json("{\"a\"}"), None);
    assert_eq!(parse_json("{\"a\":}"), None);
    assert_eq!(parse_json("{,}"), None);
    assert_eq!(parse_json("42 extra"), None);
    assert_eq!(parse_json("not json at all"), None);
}

#[test]
fn parse_inverts_encode() {
    let v = obj(vec![
        ("id", Json::Str("x-1".to_string())),
        ("data", Json::Arr(vec![
            Json::Int(-5),
            Json::Str("line\nbreak\"quote\\slash".to_string()),
            Json::Bool(true),
            Json::Null,
            obj(vec![("nested", Json::Arr(vec![]))]),
        ])),
    ]);
    let encoded = v.encode();
    assert_eq!(parse_json(&encoded), Some(v));
}

#[test]
fn get_finds_members() {
    let v = obj(vec![("a", Json::Int(1)), ("b", Json::Int(2))]);
    assert_eq!(v.get("a"), Some(&Json::Int(1)));
    assert_eq!(v.get("b"), Some(&Json::Int(2)));
    assert_eq!(v.get("c"), None);
    assert_eq!(Json::Int(3).get("a"), None);
}

#[test]
fn deep_copy_preserves_value() {
    let v = obj(vec![("xs", Json::Arr(vec![Json::Int(1), Json::Str("s".to_string())]))]);
    let c = v.deep_copy();
    assert_eq!(c, v);
}
