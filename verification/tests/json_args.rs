use serde_json::{Number, Value};
use unreal_mcphub::json::{JsonNumber, JsonValue};
use unreal_mcphub::json_args::{
    arguments_from_strict, parse_object_argument, ArgumentsError, RelaxedError,
};

fn to_serde(v: &JsonValue) -> Value {
    match v {
        JsonValue::Null => Value::Null,
        JsonValue::Bool(b) => Value::Bool(*b),
        JsonValue::Number(JsonNumber::NegInt(i)) => Value::Number(Number::from(*i)),
        JsonValue::Number(JsonNumber::PosInt(u)) => Value::Number(Number::from(*u)),
        JsonValue::Number(JsonNumber::Float(t)) => serde_json::from_str(t).unwrap(),
        JsonValue::String(s) => Value::String(s.clone()),
        JsonValue::Array(a) => Value::Array(a.iter().map(to_serde).collect()),
        JsonValue::Object(m) => Value::Object(object(m)),
    }
}

fn object(m: &[(String, JsonValue)]) -> serde_json::Map<String, Value> {
    m.iter().map(|(k, v)| (k.clone(), to_serde(v))).collect()
}

fn get<'a>(m: &'a [(String, JsonValue)], k: &str) -> Option<&'a JsonValue> {
    m.iter().find(|(key, _)| key == k).map(|(_, v)| v)
}

#[test]
fn parses_strict_json_object() {
    let parsed = parse_object_argument(r#"{"skill_name":"cpp_editor_api","args":{}}"#)
        .ok()
        .expect("strict JSON should parse");
    let mut expected = serde_json::Map::new();
    expected.insert("skill_name".to_string(), Value::String("cpp_editor_api".to_string()));
    expected.insert("args".to_string(), Value::Object(serde_json::Map::new()));
    assert_eq!(Value::Object(object(&parsed)), Value::Object(expected));
}

#[test]
fn parses_powershell_style_object_with_bare_words() {
    let parsed = parse_object_argument("{skill_name:cpp_editor_api,max_results:25}")
        .ok()
        .expect("relaxed object should parse");
    assert_eq!(
        object(&parsed),
        serde_json::Map::from_iter([
            ("skill_name".to_string(), Value::String("cpp_editor_api".to_string())),
            ("max_results".to_string(), Value::from(25)),
        ])
    );
}

#[test]
fn parses_relaxed_python_source_and_decodes_unicode_escapes() {
    let parsed = parse_object_argument(
        r#"{python:RESULT = {\u0027ok\u0027: True, \u0027source\u0027: \u0027manual-cli-smoke\u0027},args:{}}"#,
    )
    .ok()
    .expect("relaxed Python payload should parse");

    assert_eq!(
        get(&parsed, "python").map(to_serde),
        Some(Value::String(
            "RESULT = {'ok': True, 'source': 'manual-cli-smoke'}".to_string()
        ))
    );
    assert_eq!(get(&parsed, "args").map(to_serde), Some(Value::Object(serde_json::Map::new())));
}

#[test]
fn empty_and_null_arguments_are_an_empty_object() {
    assert_eq!(parse_object_argument("   ").ok().map(|m| m.len()), Some(0));
    assert_eq!(parse_object_argument("null").ok().map(|m| m.len()), Some(0));
}

#[test]
fn strict_json_that_is_no_object_is_refused() {
    match parse_object_argument("[1, 2]") {
        Err(ArgumentsError::NotAnObject(v)) => {
            assert_eq!(to_serde(&v), Value::Array(vec![Value::from(1), Value::from(2)]));
        }
        _ => panic!("an array is no object"),
    }
}

#[test]
fn relaxed_text_without_braces_is_refused() {
    match parse_object_argument("skill_name:cpp") {
        Err(ArgumentsError::Relaxed(_)) => {}
        _ => panic!("relaxed syntax needs braces"),
    }
}

#[test]
fn relaxed_values_keep_their_types() {
    let parsed = parse_object_argument("{a:true,b:null,c:-3,d:1.5,e:[x,'y'],f:'q\\'s'}")
        .ok()
        .expect("relaxed object");
    assert_eq!(get(&parsed, "a").map(to_serde), Some(Value::Bool(true)));
    assert_eq!(get(&parsed, "b").map(to_serde), Some(Value::Null));
    assert_eq!(get(&parsed, "c").map(to_serde), Some(Value::from(-3)));
    assert_eq!(get(&parsed, "d").map(to_serde), Some(Value::from(1.5)));
    assert_eq!(
        get(&parsed, "e").map(to_serde),
        Some(Value::Array(vec![Value::String("x".into()), Value::String("y".into())]))
    );
}

#[test]
fn unterminated_quote_is_refused() {
    match parse_object_argument("{a:'open}") {
        Err(ArgumentsError::Relaxed(RelaxedError::UnterminatedString)) => {}
        _ => panic!("an unterminated string is refused"),
    }
}

const OVERFLOW_BOUND: &str = "179769313486231580793728971405303415079934132710037826936173778980444968292764750946649017977587207096330286416692887910946555547851940402630657488671505820681908902000708383676273854845817711531764475730270069855571366959622842914819860834936475292719074168444365510704342711559699508093042880177904174497792";
const BELOW_BOUND: &str = "179769313486231580793728971405303415079934132710037826936173778980444968292764750946649017977587207096330286416692887910946555547851940402630657488671505820681908902000708383676273854845817711531764475730270069855571366959622842914819860834936475292719074168444365510704342711559699508093042880177904174497791";

fn is_text(v: Option<&JsonValue>, t: &str) -> bool {
    matches!(v, Some(JsonValue::String(s)) if s == t)
}

fn is_float(v: Option<&JsonValue>, t: &str) -> bool {
    matches!(v, Some(JsonValue::Number(JsonNumber::Float(s))) if s == t)
}

#[test]
fn the_overflow_bound_is_where_f64_parsing_overflows() {
    assert!(BELOW_BOUND.parse::<f64>().unwrap().is_finite());
    assert!(OVERFLOW_BOUND.parse::<f64>().unwrap().is_infinite());
    let raw = format!("{{below:{BELOW_BOUND},at:{OVERFLOW_BOUND}}}");
    let parsed = parse_object_argument(&raw).ok().expect("relaxed object");
    assert!(is_float(get(&parsed, "below"), BELOW_BOUND));
    assert!(is_text(get(&parsed, "at"), OVERFLOW_BOUND));
}

#[test]
fn overflowing_decimals_stay_text() {
    let parsed = parse_object_argument(
        "{a:1e400,b:-1e400,c:1e-400,d:1.7976931348623158e308,e:1.7976931348623159e308,f:0.0e99999999999999999999999,g:1e99999999999999999999999}",
    )
    .ok()
    .expect("relaxed object");
    assert!(is_text(get(&parsed, "a"), "1e400"));
    assert!(is_text(get(&parsed, "b"), "-1e400"));
    assert!(is_float(get(&parsed, "c"), "1e-400"));
    assert!(is_float(get(&parsed, "d"), "1.7976931348623158e308"));
    assert!(is_text(get(&parsed, "e"), "1.7976931348623159e308"));
    assert!(is_float(get(&parsed, "f"), "0.0e99999999999999999999999"));
    assert!(is_text(get(&parsed, "g"), "1e99999999999999999999999"));
    for t in ["1e400", "-1e400", "1.7976931348623159e308", "1e99999999999999999999999"] {
        assert!(t.parse::<f64>().unwrap().is_infinite());
    }
    for t in ["1e-400", "1.7976931348623158e308", "0.0e99999999999999999999999"] {
        assert!(t.parse::<f64>().unwrap().is_finite());
    }
}

#[test]
fn the_strict_result_decides_before_the_relaxed_syntax() {
    let obj = JsonValue::Object(vec![("k".to_string(), JsonValue::Bool(true))]);
    let m = arguments_from_strict("{ignored}", Some(obj)).ok().expect("an object is taken");
    assert!(matches!(get(&m, "k"), Some(JsonValue::Bool(true))));
    assert!(arguments_from_strict("null", Some(JsonValue::Null)).ok().expect("null").is_empty());
    assert!(matches!(
        arguments_from_strict("3", Some(JsonValue::Number(JsonNumber::PosInt(3)))),
        Err(ArgumentsError::NotAnObject(JsonValue::Number(JsonNumber::PosInt(3))))
    ));
    let m = arguments_from_strict("{a:b}", None).ok().expect("relaxed");
    assert!(is_text(get(&m, "a"), "b"));
    assert!(matches!(arguments_from_strict("a:b", None), Err(ArgumentsError::Relaxed(_))));
}

#[test]
fn text_the_relaxed_reader_would_cut_apart_is_refused() {
    for raw in [r#"{"a\é":1}"#, r#"{a:"\u000é"}"#] {
        match parse_object_argument(raw) {
            Err(ArgumentsError::Relaxed(RelaxedError::SplitsCharacter)) => {}
            _ => panic!("refused with an error"),
        }
    }
}
