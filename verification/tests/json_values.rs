use unified_ai::json::{Field, Json};

#[test]
fn parse_reads_an_object_with_its_fields() {
    let parsed = Json::parse(b"{\"a\": 1, \"b\": [true, null, \"x\"], \"c\": -2, \"d\": 1.5}").unwrap();
    assert_eq!(parsed.get("a").unwrap().as_u64(), Some(1));
    let items = parsed.get("b").unwrap().as_array().unwrap();
    assert_eq!(items.len(), 3);
    assert_eq!(items[0].as_bool(), Some(true));
    assert!(items[1].is_null());
    assert_eq!(items[2].as_str(), Some("x"));
    assert_eq!(parsed.get("c").unwrap().as_u64(), None);
    assert!(matches!(parsed.get("c").unwrap(), Json::Int(-2)));
    assert!(matches!(parsed.get("d").unwrap(), Json::Float(t) if t == "1.5"));
    assert!(parsed.get("e").is_none());
}

#[test]
fn parse_refuses_text_that_is_no_json() {
    assert!(Json::parse(b"{\"a\": ").is_none());
    assert!(Json::parse(b"").is_none());
    assert!(Json::parse_str("{} trailing").is_none());
}

#[test]
fn rendering_writes_what_parsing_reads() {
    let value = Json::Object(vec![
        Field { name: "name".to_string(), value: Json::Str("f".to_string()) },
        Field { name: "n".to_string(), value: Json::Int(7) },
        Field { name: "x".to_string(), value: Json::Float("2.5".to_string()) },
    ]);
    assert_eq!(value.to_text(), "{\"n\":7,\"name\":\"f\",\"x\":2.5}");
    assert_eq!(value.to_pretty_text(), "{\n  \"n\": 7,\n  \"name\": \"f\",\n  \"x\": 2.5\n}");
}
