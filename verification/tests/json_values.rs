use http_server_lib::json::{JsonValue, JsonObject, JsonRef, JsonMutRef, JsonKey, JsonError};

const ONE: u64 = 0x3ff0_0000_0000_0000;
const NEG_ZERO: u64 = 0x8000_0000_0000_0000;
const TWO: u64 = 0x4000_0000_0000_0000;

fn s(v: &str) -> JsonValue {
    JsonValue::String(String::from(v))
}

#[test]
fn type_names() {
    assert_eq!(JsonValue::null().type_of(), "null");
    assert_eq!(JsonValue::new().type_of(), "object");
    assert_eq!(JsonValue::with_capacity(4).type_of(), "object");
    assert_eq!(JsonValue::Undefined.type_of(), "undefined");
    assert_eq!(JsonValue::Integer(3).type_of(), "integer");
    assert_eq!(JsonValue::Number(ONE).type_of(), "number");
    assert_eq!(s("x").type_of(), "string");
    assert_eq!(JsonValue::Array(Vec::new()).type_of(), "array");
    assert_eq!(JsonValue::Boolean(true).type_of(), "boolean");
}

#[test]
fn truthiness_of_scalars() {
    assert!(JsonValue::Boolean(true).truthy());
    assert!(JsonValue::Integer(-2).truthy());
    assert!(JsonValue::Integer(0).falsy());
    assert!(JsonValue::Number(ONE).truthy());
    assert!(JsonValue::Number(0).falsy());
    assert!(JsonValue::Number(NEG_ZERO).falsy());
    assert!(!JsonValue::Number(NEG_ZERO).truthy());
    assert!(!JsonValue::Undefined.truthy());
    assert!(JsonValue::Undefined.falsy());
    assert!(JsonValue::null().falsy());
    assert!(JsonValue::new().truthy());
    assert!(JsonValue::Array(vec![JsonValue::Undefined]).truthy());
    assert!(JsonValue::Array(Vec::new()).falsy());
}

#[test]
fn truthiness_of_strings() {
    assert!(!s("false").truthy());
    assert!(!s(" FALSE ").truthy());
    assert!(s("0").falsy());
    assert!(s(" 0\n").falsy());
    assert!(s("   ").truthy());
    assert!(s("").falsy());
    assert!(!s("hello").truthy());
    assert!(!s("hello").falsy());
}

#[test]
fn booleans_of_values() {
    assert_eq!(JsonValue::Boolean(false).bool(None), Some(false));
    assert_eq!(JsonValue::Integer(1).bool(None), Some(true));
    assert_eq!(JsonValue::Integer(0).bool(None), Some(false));
    assert_eq!(JsonValue::Integer(2).bool(None), None);
    assert_eq!(JsonValue::Number(ONE).bool(None), Some(true));
    assert_eq!(JsonValue::Number(NEG_ZERO).bool(None), Some(false));
    assert_eq!(JsonValue::Number(TWO).bool(None), None);
    assert_eq!(s(" True ").bool(None), Some(true));
    assert_eq!(s("false").bool(None), Some(false));
    assert_eq!(s("1").bool(Some(ONE)), Some(true));
    assert_eq!(s("0.0").bool(Some(0)), Some(false));
    assert_eq!(s("2").bool(Some(TWO)), None);
    assert_eq!(s("yes").bool(None), None);
    assert_eq!(JsonValue::Array(Vec::new()).bool(None), Some(false));
    assert_eq!(JsonValue::null().bool(None), Some(false));
    assert_eq!(JsonValue::new().bool(None), Some(false));
    assert_eq!(JsonValue::Undefined.bool(None), Some(false));
}

#[test]
fn objects_keep_keys_distinct() {
    let mut o = JsonObject::new();
    o.insert(String::from("a"), JsonValue::Integer(1));
    o.insert(String::from("b"), JsonValue::Integer(2));
    o.insert(String::from("a"), JsonValue::Integer(3));
    assert_eq!(o.len(), 2);
    assert_eq!(o.key_at(0).unwrap(), "a");
    assert!(matches!(o.value_at(0), Some(JsonValue::Integer(3))));
    assert_eq!(o.key_at(1).unwrap(), "b");
    assert!(o.key_at(2).is_none());
    let v = JsonValue::Object(Some(o));
    assert_eq!(v.bool(None), Some(true));
}

#[test]
fn keys_skip_the_first_index() {
    let a = JsonValue::Array(vec![JsonValue::Integer(1), JsonValue::Integer(2), JsonValue::Integer(3)]);
    let mut keys = a.keys();
    assert!(matches!(keys.next(), Some(JsonKey::Index(1))));
    assert!(matches!(keys.next(), Some(JsonKey::Index(2))));
    assert!(keys.next().is_none());
    assert!(keys.next().is_none());
    let abc = s("abc");
    let mut keys = abc.keys();
    assert!(matches!(keys.next(), Some(JsonKey::Index(1))));
    assert!(matches!(keys.next(), Some(JsonKey::Index(2))));
    assert!(keys.next().is_none());
    let mut o = JsonObject::new();
    o.insert(String::from("k"), JsonValue::Boolean(true));
    let v = JsonValue::Object(Some(o));
    let mut keys = v.keys();
    assert!(matches!(keys.next(), Some(JsonKey::Key("k"))));
    assert!(keys.next().is_none());
    assert!(JsonValue::Integer(1).keys().next().is_none());
}

#[test]
fn values_of_strings_and_arrays() {
    let hi = s("hi");
    let mut values = hi.values();
    assert!(matches!(values.next(), Some(JsonValue::String(c)) if c == "h"));
    assert!(matches!(values.next(), Some(JsonValue::String(c)) if c == "i"));
    assert!(values.next().is_none());
    let a = JsonValue::Array(vec![JsonValue::Integer(7), s("x")]);
    let mut values = a.values();
    assert!(matches!(values.next(), Some(JsonValue::Integer(7))));
    assert!(matches!(values.next(), Some(JsonValue::String(c)) if c == "x"));
    assert!(values.next().is_none());
}

#[test]
fn references_and_entries() {
    let a = JsonValue::Array(vec![JsonValue::Integer(0), s("x")]);
    let mut it = a.iter();
    let first = it.next().unwrap();
    assert_eq!(first.type_of(), "interger");
    assert!(first.falsy());
    assert!(matches!(first.value(), JsonValue::Integer(0)));
    assert!(matches!(it.next(), Some(JsonRef::String(t)) if t == "x"));
    assert!(it.next().is_none());
    let mut entries = a.entries();
    assert!(matches!(entries.next(), Some((JsonKey::Index(0), JsonRef::Integer(0)))));
    assert!(matches!(entries.next(), Some((JsonKey::Index(1), JsonRef::String(_)))));
    assert!(entries.next().is_none());
    let zero_space = s("0 ");
    let mut chars = zero_space.iter();
    let zero = chars.next().unwrap();
    assert!(zero.falsy());
    assert_eq!(zero.type_of(), "string");
    assert!(matches!(zero.value(), JsonValue::String(c) if c == "0"));
    assert!(chars.next().unwrap().falsy());
    assert!(JsonRef::Char('a').truthy());
}

#[test]
fn reference_booleans() {
    let v = JsonValue::Boolean(true);
    let r = v.to_ref();
    assert_eq!(r.boolean(), Some(&true));
    assert!(r.truthy());
    assert!(JsonValue::Integer(1).to_ref().boolean().is_none());
    let copy = JsonValue::Array(vec![s("a")]).to_ref().value();
    assert!(matches!(copy, JsonValue::Array(v) if v.len() == 1));
}

#[test]
fn mutable_references() {
    let mut v = JsonValue::Boolean(true);
    {
        let mut r = JsonMutRef::from(&mut v);
        assert_eq!(r.type_of(), "boolean");
        assert!(r.truthy());
        if let Some(b) = r.boolean() {
            *b = false;
        }
        assert!(r.falsy());
    }
    assert!(matches!(v, JsonValue::Boolean(false)));
    let mut n = JsonValue::Integer(5);
    let r = JsonMutRef::from(&mut n);
    assert_eq!(r.type_of(), "interger");
    assert!(matches!(r.value(), JsonValue::Integer(5)));
    assert!(JsonMutRef::Char(' ').falsy());
    assert!(!JsonMutRef::Char('0').truthy());
}

#[test]
fn deep_copies() {
    let mut o = JsonObject::new();
    o.insert(String::from("list"), JsonValue::Array(vec![JsonValue::Integer(1)]));
    let v = JsonValue::Object(Some(o));
    let copy = v.duplicate();
    match copy {
        JsonValue::Object(Some(c)) => {
            assert_eq!(c.len(), 1);
            assert!(matches!(c.value_at(0), Some(JsonValue::Array(a)) if a.len() == 1));
        },
        _ => panic!("expected an object"),
    }
}

#[test]
fn errors_hold_the_value() {
    let e = JsonError::NotABoolean(JsonValue::Integer(2));
    assert!(matches!(e, JsonError::NotABoolean(JsonValue::Integer(2))));
}

#[test]
fn character_references_give_one_character_strings() {
    assert!(matches!(JsonRef::Char('q').value(), JsonValue::String(s) if s == "q"));
}

#[test]
fn values_from_plain_ones() {
    assert!(matches!(JsonValue::from(true), JsonValue::Boolean(true)));
    assert!(matches!(JsonValue::from(7u8), JsonValue::Integer(7)));
    assert!(matches!(JsonValue::from(-7i64), JsonValue::Integer(-7)));
    assert!(matches!(JsonValue::from(i128::MAX), JsonValue::Integer(i128::MAX)));
    assert!(matches!(JsonValue::from('x'), JsonValue::String(s) if s == "x"));
    assert!(matches!(JsonValue::from("ab"), JsonValue::String(s) if s == "ab"));
    assert!(matches!(JsonValue::from(String::from("c")), JsonValue::String(s) if s == "c"));
    assert!(matches!(JsonValue::from(vec![JsonValue::Undefined]), JsonValue::Array(a) if a.len() == 1));
}
