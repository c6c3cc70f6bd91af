use fruit_client::codec::decode_fruit;
use fruit_client::models::Fruit;

fn fruit(name: &str, color: &str) -> Fruit {
    Fruit { name: name.as_bytes().to_vec(), color: color.as_bytes().to_vec() }
}

#[test]
fn decode_scenario_body() {
    let body = br#"{"name":"apple","color":"red"}"#.to_vec();
    assert_eq!(decode_fruit(&body), Some(fruit("apple", "red")));
}

#[test]
fn decode_other_values() {
    let body = br#"{"name":"banana","color":"yellow"}"#.to_vec();
    assert_eq!(decode_fruit(&body), Some(fruit("banana", "yellow")));
}

#[test]
fn decode_empty_fields() {
    let body = br#"{"name":"","color":""}"#.to_vec();
    assert_eq!(decode_fruit(&body), Some(fruit("", "")));
}

#[test]
fn decode_rejects_empty_body() {
    assert_eq!(decode_fruit(&Vec::new()), None);
}

#[test]
fn decode_rejects_wrong_opening() {
    let body = br#"["name":"apple","color":"red"}"#.to_vec();
    assert_eq!(decode_fruit(&body), None);
}

#[test]
fn decode_rejects_wrong_first_key() {
    let body = br#"{"mame":"apple","color":"red"}"#.to_vec();
    assert_eq!(decode_fruit(&body), None);
}

#[test]
fn decode_rejects_whitespace() {
    let body = br#"{ "name":"apple","color":"red" }"#.to_vec();
    assert_eq!(decode_fruit(&body), None);
}

#[test]
fn decode_rejects_swapped_fields() {
    let body = br#"{"color":"red","name":"apple"}"#.to_vec();
    assert_eq!(decode_fruit(&body), None);
}

#[test]
fn decode_rejects_missing_color() {
    let body = br#"{"name":"apple"}"#.to_vec();
    assert_eq!(decode_fruit(&body), None);
}

#[test]
fn decode_rejects_truncated_body() {
    let body = br#"{"name":"apple","color":"red"#.to_vec();
    assert_eq!(decode_fruit(&body), None);
}

#[test]
fn decode_rejects_trailing_bytes() {
    let body = br#"{"name":"apple","color":"red"}x"#.to_vec();
    assert_eq!(decode_fruit(&body), None);
}

#[test]
fn decode_round_trips_through_document() {
    let name = b"dragon fruit".to_vec();
    let color = b"pink".to_vec();
    let mut body = br#"{"name":""#.to_vec();
    body.extend_from_slice(&name);
    body.extend_from_slice(br#"","color":""#);
    body.extend_from_slice(&color);
    body.extend_from_slice(br#""}"#);
    assert_eq!(decode_fruit(&body), Some(Fruit { name, color }));
}
