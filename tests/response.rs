use actix_posts::handler::api::{
    create_response, delete_response, index_response, negotiate, not_found_response,
    show_response, update_response, Format, ResponseContent,
};
use actix_posts::handler::data::Message;

fn msg(id: i32, posted: &str, sender: &str, content: &str) -> Message {
    Message {
        id,
        posted: posted.to_string(),
        sender: sender.to_string(),
        content: content.to_string(),
    }
}

fn three() -> Vec<Message> {
    vec![
        msg(1, "2024-01-01 10:00:00", "alice", "first"),
        msg(2, "2024-01-02 09:00:00", "bob", "second"),
        msg(3, "2023-12-31 23:59:59", "carol", "third"),
    ]
}

#[test]
fn xml_token_selects_xml() {
    assert_eq!(negotiate(Some("xml")), Format::Xml);
}

#[test]
fn other_tokens_fall_back_to_json() {
    assert_eq!(negotiate(Some("yaml")), Format::Json);
    assert_eq!(negotiate(Some("json")), Format::Json);
    assert_eq!(negotiate(Some("XML")), Format::Json);
    assert_eq!(negotiate(Some("xmll")), Format::Json);
    assert_eq!(negotiate(Some("")), Format::Json);
    assert_eq!(negotiate(None), Format::Json);
}

#[test]
fn content_types() {
    assert_eq!(Format::Xml.content_type(), "application/xml; charset=utf-8");
    assert_eq!(Format::Json.content_type(), "application/json");
}

#[test]
fn unknown_route_answer() {
    let r = not_found_response();
    assert_eq!(r.status, "Error");
    match r.result {
        ResponseContent::Reason(s) => assert_eq!(s, "API not found"),
        other => panic!("unexpected {:?}", other),
    }
}

#[test]
fn index_answer_is_sorted_listing() {
    let r = index_response(three());
    assert_eq!(r.status, "OK");
    match r.result {
        ResponseContent::Items(v) => {
            let ids: Vec<i32> = v.iter().map(|m| m.id).collect();
            assert_eq!(ids, vec![2, 1, 3]);
        }
        other => panic!("unexpected {:?}", other),
    }
}

#[test]
fn show_answer_for_absent_id_is_zero_valued() {
    let r = show_response(&three(), 10);
    assert_eq!(r.status, "OK");
    match r.result {
        ResponseContent::Item(m) => assert_eq!(m, Message::default()),
        other => panic!("unexpected {:?}", other),
    }
}

#[test]
fn show_answer_for_present_id() {
    let r = show_response(&three(), 3);
    match r.result {
        ResponseContent::Item(m) => assert_eq!(m.sender, "carol"),
        other => panic!("unexpected {:?}", other),
    }
}

#[test]
fn create_answer_carries_assigned_id() {
    let mut v = three();
    let r = create_response(&mut v, "dan".to_string(), "hello".to_string(), "2024-03-01 12:00:00".to_string());
    assert_eq!(r.status, "OK");
    match r.result {
        ResponseContent::Item(m) => assert_eq!(m, msg(4, "2024-03-01 12:00:00", "dan", "hello")),
        other => panic!("unexpected {:?}", other),
    }
    assert_eq!(v.len(), 4);
}

#[test]
fn create_answer_without_id_left_is_error() {
    let mut v = vec![msg(i32::MAX, "t", "s", "c")];
    let r = create_response(&mut v, "s".to_string(), "c".to_string(), "t".to_string());
    assert_eq!(r.status, "Error");
    match r.result {
        ResponseContent::Reason(s) => assert_eq!(s, "no id left"),
        other => panic!("unexpected {:?}", other),
    }
    assert_eq!(v.len(), 1);
}

#[test]
fn update_answer_echoes_input_even_when_absent() {
    let mut v = three();
    let r = update_response(&mut v, msg(8, "p", "x", "y"));
    assert_eq!(r.status, "OK");
    match r.result {
        ResponseContent::Item(m) => assert_eq!(m, msg(8, "p", "x", "y")),
        other => panic!("unexpected {:?}", other),
    }
    assert_eq!(v, three());
}

#[test]
fn delete_answer_has_no_payload() {
    let mut v = three();
    let r = delete_response(&mut v, 1);
    assert_eq!(r.status, "OK");
    assert!(matches!(r.result, ResponseContent::Empty));
    assert_eq!(v.len(), 2);
    let r = delete_response(&mut v, 1);
    assert!(matches!(r.result, ResponseContent::Empty));
    assert_eq!(v.len(), 2);
}
