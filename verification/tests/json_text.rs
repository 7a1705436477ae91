use http_server_lib::json::{JsonError, JsonMutRef, JsonObject, JsonValue};
use http_server_lib::json as json_text;

fn s(v: &str) -> JsonValue {
    JsonValue::String(String::from(v))
}

fn number_texts(v: &JsonValue) -> Vec<String> {
    v.numbers().iter().map(|b| f64::from_bits(*b).to_string()).collect()
}

#[test]
fn scalars_as_strings() {
    let none: Vec<String> = Vec::new();
    assert_eq!(JsonValue::Undefined.string(&none), "undefined");
    assert_eq!(JsonValue::null().string(&none), "null");
    assert_eq!(JsonValue::Boolean(true).string(&none), "true");
    assert_eq!(JsonValue::Integer(-42).string(&none), "-42");
    assert_eq!(JsonValue::Integer(i128::MIN).string(&none), i128::MIN.to_string());
    assert_eq!(s("a b").string(&none), "a b");
    let n = JsonValue::Number(1.5f64.to_bits());
    assert_eq!(n.numbers(), vec![1.5f64.to_bits()]);
    assert_eq!(n.string(&number_texts(&n)), "1.5");
}

#[test]
fn containers_as_strings() {
    let none: Vec<String> = Vec::new();
    let a = JsonValue::Array(vec![JsonValue::Integer(1), s("a")]);
    assert_eq!(a.string(&none), "[ 1,  \"a\"]");
    let mut o = JsonObject::new();
    o.insert(String::from("k"), JsonValue::Boolean(false));
    let o = JsonValue::Object(Some(o));
    assert_eq!(o.string(&none), "{ k: false}");
}

#[test]
fn stringify_indents_each_level() {
    let a = JsonValue::Array(vec![JsonValue::Integer(1), s("a")]);
    let none: Vec<String> = Vec::new();
    assert_eq!(json_text::stringify(&a, None, &none), " [ 1,\n \"a\"]");
    assert_eq!(json_text::stringify(&a, Some(2), &none), " [    1,\n    \"a\"]");
    let mut o = JsonObject::new();
    o.insert(String::from("k"), JsonValue::Integer(1));
    let o = JsonValue::Object(Some(o));
    assert_eq!(json_text::stringify(&o, None, &none), " { k: 1}");
    assert_eq!(json_text::stringify(&o, Some(1), &none), " { k:  1}");
    let nested = JsonValue::Array(vec![JsonValue::Number(0.25f64.to_bits()), JsonValue::Array(vec![])]);
    let texts = number_texts(&nested);
    assert_eq!(texts, vec![String::from("0.25")]);
    assert_eq!(json_text::stringify(&nested, None, &texts), " [ 0.25,\n []]");
}

#[test]
fn arrays_of_values() {
    let chars = s("ab").array().unwrap();
    assert_eq!(chars.len(), 2);
    assert!(matches!(&chars[0], JsonValue::String(c) if c == "a"));
    assert!(matches!(&chars[1], JsonValue::String(c) if c == "b"));
    let copy = JsonValue::Array(vec![JsonValue::Integer(3)]).array().unwrap();
    assert!(matches!(copy.as_slice(), [JsonValue::Integer(3)]));
    assert!(JsonValue::Integer(3).array().is_none());
    assert!(JsonValue::null().array().is_none());
}

#[test]
fn objects_of_values() {
    let o = s("ab").object().unwrap();
    assert_eq!(o.len(), 2);
    assert_eq!(o.key_at(0).unwrap(), "0");
    assert_eq!(o.key_at(1).unwrap(), "1");
    assert!(matches!(o.value_at(1), Some(JsonValue::String(c)) if c == "b"));
    let items: Vec<JsonValue> = (0..12).map(|i| JsonValue::Integer(i)).collect();
    let o = JsonValue::Array(items).object().unwrap();
    assert_eq!(o.len(), 12);
    assert_eq!(o.key_at(11).unwrap(), "11");
    assert!(matches!(o.value_at(11), Some(JsonValue::Integer(11))));
    assert!(JsonValue::null().object().is_none());
    assert!(JsonValue::Boolean(true).object().is_none());
    assert_eq!(JsonValue::new().object().unwrap().len(), 0);
}

#[test]
fn integers_of_values() {
    assert_eq!(JsonValue::Undefined.integer(0), Some(0));
    assert_eq!(JsonValue::Boolean(true).integer(0), Some(1));
    assert_eq!(JsonValue::Integer(-5).integer(0), Some(-5));
    assert_eq!(JsonValue::Number(2.6f64.to_bits()).integer(3), Some(3));
    assert_eq!(s("-42").integer(0), Some(-42));
    assert_eq!(s("+7").integer(0), Some(7));
    assert_eq!(s("7a").integer(0), None);
    assert_eq!(s("").integer(0), None);
    assert_eq!(s("-").integer(0), None);
    assert_eq!(s(" 1").integer(0), None);
    assert_eq!(s("170141183460469231731687303715884105727").integer(0), Some(i128::MAX));
    assert_eq!(s("170141183460469231731687303715884105728").integer(0), None);
    assert_eq!(s("-170141183460469231731687303715884105728").integer(0), Some(i128::MIN));
    assert_eq!(JsonValue::Array(vec![JsonValue::Undefined, JsonValue::Undefined, JsonValue::Undefined]).integer(0), Some(3));
    assert_eq!(JsonValue::null().integer(0), Some(0));
    for t in ["0", "-1", "12345", "+99"] {
        assert_eq!(s(t).integer(0), t.parse::<i128>().ok());
    }
}

#[test]
fn references_give_their_contents() {
    let v = JsonValue::Integer(4);
    assert_eq!(v.to_ref().integer(), Some(&4));
    assert!(v.to_ref().number().is_none());
    let n = JsonValue::Number(7);
    assert_eq!(n.to_ref().number(), Some(&7));
    let a = JsonValue::Array(vec![JsonValue::Integer(1)]);
    assert_eq!(a.to_ref().array().unwrap().len(), 1);
    assert!(a.to_ref().object().is_none());
    let o = JsonValue::new();
    assert_eq!(o.to_ref().object().unwrap().len(), 0);
    assert!(JsonValue::null().to_ref().object().is_none());
}

#[test]
fn mutable_references_change_their_contents() {
    let mut v = JsonValue::Integer(4);
    {
        let mut r = JsonMutRef::from(&mut v);
        *r.integer().unwrap() = 9;
    }
    assert!(matches!(v, JsonValue::Integer(9)));
    let mut a = JsonValue::Array(vec![]);
    {
        let mut r = JsonMutRef::from(&mut a);
        r.array().unwrap().push(JsonValue::Boolean(true));
        assert!(r.object().is_none());
    }
    assert!(matches!(&a, JsonValue::Array(x) if x.len() == 1));
    let mut o = JsonValue::new();
    {
        let mut r = JsonMutRef::from(&mut o);
        r.object().unwrap().insert(String::from("x"), JsonValue::Undefined);
    }
    assert_eq!(o.object().unwrap().len(), 1);
    let mut n = JsonValue::Number(1);
    {
        let mut r = JsonMutRef::from(&mut n);
        *r.number().unwrap() = 2;
    }
    assert!(matches!(n, JsonValue::Number(2)));
}

#[test]
fn conversion_errors_say_what_failed() {
    let none: Vec<String> = Vec::new();
    let e = JsonError::NotABoolean(s("maybe"));
    let (wanted, value) = e.data();
    assert_eq!(wanted, "boolean");
    assert!(matches!(value, JsonValue::String(x) if x == "maybe"));
    assert_eq!(e.to_string(&none), "Failed to convert maybe as string to boolean!");
    let e = JsonError::NotAnInteger(JsonValue::Array(vec![JsonValue::Integer(1)]));
    assert_eq!(e.to_string(&none), "Failed to convert [ 1] as array to integer!");
}
