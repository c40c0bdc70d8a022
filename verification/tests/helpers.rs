use urlencoded::helpers::require_body_params;
use urlencoded::helpers::require_parameter;
use urlencoded::helpers::require_query_params;
use urlencoded::DecodeError;
use urlencoded::MissingParamError;
use urlencoded::ParamError;
use urlencoded::QueryMap;

#[test]
fn test_require_single() {
    let mut hash = QueryMap::new();
    hash.insert("var".to_string(), vec!["value".to_string()]);
    let val = require_parameter(&hash, "var").unwrap();
    assert_eq!(val, "value");
}

#[test]
fn decoded_value_is_required_back() {
    let map = require_body_params(b"name=value").unwrap();
    assert_eq!(require_parameter(&map, "name").unwrap(), "value");
    let map = require_query_params("city=Oslo&name=value&lang=nb").unwrap();
    assert_eq!(require_parameter(&map, "name").unwrap(), "value");
    assert_eq!(require_parameter(&map, "city").unwrap(), "Oslo");
    assert_eq!(require_parameter(&map, "lang").unwrap(), "nb");
}

#[test]
fn first_value_wins() {
    let map = require_body_params(b"name=a&name=b").unwrap();
    assert_eq!(require_parameter(&map, "name").unwrap(), "a");
    assert_ne!(require_parameter(&map, "name").unwrap(), "b");
    assert_eq!(map.get("name").unwrap(), &vec!["a".to_string(), "b".to_string()]);
    assert_eq!(map.len(), 1);
}

#[test]
fn first_value_wins_between_other_names() {
    let map = require_query_params("x=0&name=a&y=1&name=b&name=c").unwrap();
    assert_eq!(require_parameter(&map, "name").unwrap(), "a");
    assert_eq!(
        map.get("name").unwrap(),
        &vec!["a".to_string(), "b".to_string(), "c".to_string()]
    );
    let mut keys = map.keys();
    keys.sort();
    assert_eq!(keys, vec!["name".to_string(), "x".to_string(), "y".to_string()]);
}

#[test]
fn absent_name_is_missing_under_that_name() {
    let map = require_body_params(b"a=1&b=2").unwrap();
    let err = require_parameter(&map, "c").unwrap_err();
    assert_eq!(err.name(), "c");
    assert_eq!(err, MissingParamError::new("c".to_string()));
    assert_ne!(err, MissingParamError::new("a".to_string()));
    let again = require_parameter(&map, "c").unwrap_err();
    assert_eq!(err, again);
}

#[test]
fn names_are_matched_exactly() {
    let map = require_body_params(b"Name=1").unwrap();
    assert_eq!(require_parameter(&map, "Name").unwrap(), "1");
    assert_eq!(require_parameter(&map, "name").unwrap_err().name(), "name");
    assert_eq!(require_parameter(&map, "Name ").unwrap_err().name(), "Name ");
    assert_eq!(require_parameter(&map, "").unwrap_err().name(), "");
}

#[test]
fn incomplete_escape_is_refused() {
    let failure = require_body_params(b"name=%ZZ").unwrap_err();
    assert_eq!(failure.cause, DecodeError::InvalidEscape { offset: 5 });
    let failure = require_query_params("name=%ZZ").unwrap_err();
    assert_eq!(failure.cause, DecodeError::InvalidEscape { offset: 5 });
    assert!(require_query_params("%").is_err());
    assert!(require_query_params("a=%4").is_err());
    assert!(require_query_params("a=%4&b=1").is_err());
    assert!(require_query_params("a=1&b=%g0").is_err());
    assert!(require_query_params("a=1&b=%0g").is_err());
    assert!(require_query_params("a=%%41").is_err());
}

#[test]
fn first_incomplete_escape_is_named() {
    let failure = require_query_params("a=%41&b=%4&c=%").unwrap_err();
    assert_eq!(failure.cause, DecodeError::InvalidEscape { offset: 8 });
    let failure = require_body_params(b"%ff=%zz").unwrap_err();
    assert_eq!(failure.cause, DecodeError::InvalidEscape { offset: 4 });
}

#[test]
fn bytes_that_are_not_utf8_are_refused() {
    let failure = require_query_params("name=%FF").unwrap_err();
    assert_eq!(failure.cause, DecodeError::InvalidUtf8);
    let failure = require_body_params(&[b'a', b'=', 0xff]).unwrap_err();
    assert_eq!(failure.cause, DecodeError::InvalidUtf8);
    let failure = require_body_params(b"a=%C3").unwrap_err();
    assert_eq!(failure.cause, DecodeError::InvalidUtf8);
    let failure = require_body_params(b"a=%ED%A0%80").unwrap_err();
    assert_eq!(failure.cause, DecodeError::InvalidUtf8);
    assert!(require_body_params(b"a=%C3%A9").is_ok());
}

#[test]
fn empty_input_has_no_parameters() {
    let map = require_body_params(b"").unwrap();
    assert!(map.is_empty());
    assert_eq!(map.len(), 0);
    assert_eq!(require_parameter(&map, "name").unwrap_err().name(), "name");
    let map = require_query_params("").unwrap();
    assert!(map.is_empty());
    assert!(map.keys().is_empty());
    assert_eq!(require_parameter(&map, "q").unwrap_err().name(), "q");
}

fn greet(body: &[u8]) -> (u16, String) {
    let map = match require_body_params(body) {
        Ok(map) => map,
        Err(failure) => return ParamError::Decode(failure).response(),
    };
    match require_parameter(&map, "name") {
        Ok(name) => (200, format!("Hello {}", name)),
        Err(missing) => ParamError::Missing(missing).response(),
    }
}

#[test]
fn greeting_end_to_end() {
    let map = require_body_params(b"name=world").unwrap();
    assert_eq!(map.len(), 1);
    assert_eq!(map.keys(), vec!["name".to_string()]);
    assert_eq!(map.get("name").unwrap(), &vec!["world".to_string()]);
    assert_eq!(greet(b"name=world"), (200, "Hello world".to_string()));
    assert_eq!(greet(b""), (400, "Missing parameter name".to_string()));
    assert_eq!(
        greet(b"name=%ZZ"),
        (400, "Malformed parameters: incomplete percent escape".to_string())
    );
}

#[test]
fn escapes_and_plus_are_decoded() {
    let map = require_body_params(b"q=a+b%21&%23first=%25try%25&caf%C3%A9=%e2%82%ac").unwrap();
    assert_eq!(require_parameter(&map, "q").unwrap(), "a b!");
    assert_eq!(require_parameter(&map, "#first").unwrap(), "%try%");
    assert_eq!(require_parameter(&map, "caf\u{e9}").unwrap(), "\u{20ac}");
    assert_eq!(map.len(), 3);
}

#[test]
fn pieces_without_value_or_content() {
    let map = require_query_params("flag&&a=1&=x&b=&c=d=e").unwrap();
    assert_eq!(require_parameter(&map, "flag").unwrap(), "");
    assert_eq!(require_parameter(&map, "a").unwrap(), "1");
    assert_eq!(require_parameter(&map, "").unwrap(), "x");
    assert_eq!(require_parameter(&map, "b").unwrap(), "");
    assert_eq!(require_parameter(&map, "c").unwrap(), "d=e");
    assert_eq!(map.len(), 5);
}
