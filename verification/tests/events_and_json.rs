use spond_accept::events::{
    events_file_content, get_next_event, next_event_or_none, read_ids_and_invite_times,
    rows_from_items, select_next_event, EventRow, NextEventError,
};
use spond_accept::json::{format_response, parse_json, JsonDocument, JsonObject};
use spond_accept::time::{parse_event_time, Timestamp};

fn row(id: &str, invite: Option<&str>, heading: &str) -> EventRow {
    EventRow { id: id.to_string(), invite_time: invite.map(|s| s.to_string()), heading: heading.to_string() }
}

fn object(fields: &[(&str, Option<&str>)]) -> Option<JsonObject> {
    Some(JsonObject {
        fields: fields.iter().map(|(k, v)| (k.to_string(), v.map(|s| s.to_string()))).collect(),
    })
}

#[test]
fn parse_json_keeps_string_fields() {
    let doc = parse_json(r#"[{"id":"a","n":1,"heading":"h"}, 3, {"heading":null}]"#).unwrap();
    match doc {
        JsonDocument::Array(items) => {
            assert_eq!(items.len(), 3);
            let first = items[0].as_ref().unwrap();
            assert_eq!(first.get_str("id"), Some("a".to_string()));
            assert_eq!(first.get_str("n"), None);
            assert_eq!(first.get_str("heading"), Some("h".to_string()));
            assert_eq!(first.get_str("missing"), None);
            assert!(items[1].is_none());
            assert_eq!(items[2].as_ref().unwrap().get_str("heading"), None);
        },
        other => panic!("unexpected {:?}", other),
    }
    assert!(matches!(parse_json(r#"{"errorKey":"x"}"#), Ok(JsonDocument::Object(_))));
    assert_eq!(parse_json("42"), Ok(JsonDocument::Other));
    assert_eq!(parse_json("x"), Err("expected value at line 1 column 1".to_string()));
}

#[test]
fn format_response_pretty_prints() {
    assert_eq!(format_response(r#"{"a":1}"#), Ok("{\n  \"a\": 1\n}".to_string()));
    assert_eq!(format_response("[]"), Ok("[]".to_string()));
    assert!(format_response("{").is_err());
}

#[test]
fn read_ids_keeps_objects_with_id_and_heading() {
    let text = r#"[
        {"id":"E1","inviteTime":"2024-05-01T12:00:00Z","heading":"Training"},
        {"id":"E2","heading":"Match"},
        {"id":"E3"},
        {"heading":"No id"},
        {"id":7,"heading":"Numeric id"},
        "text",
        {"id":"E4","inviteTime":null,"heading":"Null invite"}
    ]"#;
    let rows = read_ids_and_invite_times(text).unwrap();
    assert_eq!(
        rows,
        vec![
            row("E1", Some("2024-05-01T12:00:00Z"), "Training"),
            row("E2", None, "Match"),
            row("E4", None, "Null invite"),
        ]
    );
}

#[test]
fn read_ids_of_non_array_is_empty_and_bad_json_fails() {
    assert_eq!(read_ids_and_invite_times(r#"{"id":"E1","heading":"x"}"#), Ok(vec![]));
    assert_eq!(read_ids_and_invite_times("[]"), Ok(vec![]));
    assert!(read_ids_and_invite_times("[").is_err());
}

#[test]
fn rows_from_items_keeps_order() {
    let items = vec![object(&[("id", Some("b")), ("heading", Some("B"))]), None, object(&[("id", Some("a")), ("heading", Some("A"))])];
    assert_eq!(rows_from_items(&items), vec![row("b", None, "B"), row("a", None, "A")]);
}

#[test]
fn select_picks_closest_first_and_skips_courses() {
    let now = parse_event_time("2024-05-01T12:00:00Z").unwrap();
    let items = vec![
        object(&[("id", Some("far")), ("inviteTime", Some("2024-05-03T12:00:00Z")), ("heading", Some("Far"))]),
        object(&[("id", Some("course")), ("inviteTime", Some("2024-05-01T12:00:01Z")), ("heading", Some("Svømmekurs"))]),
        object(&[("id", Some("near")), ("inviteTime", Some("2024-05-01T11:00:00Z")), ("heading", Some("Near"))]),
        object(&[("id", Some("tie")), ("inviteTime", Some("2024-05-01T13:00:00Z")), ("heading", Some("Tie"))]),
        object(&[("id", Some("no invite")), ("heading", Some("Nothing"))]),
        None,
    ];
    let mut skipped = vec![99];
    assert_eq!(
        select_next_event(&items, now, &mut skipped),
        Ok(Some(row("near", Some("2024-05-01T11:00:00Z"), "Near")))
    );
    assert_eq!(skipped, vec![99, 1]);
}

#[test]
fn select_fills_in_none_and_reports_bad_times() {
    let now = Timestamp { secs: 0, nanos: 0 };
    let items = vec![object(&[("inviteTime", Some("2024-05-01T11:00:00Z"))])];
    let mut skipped = Vec::new();
    assert_eq!(select_next_event(&items, now, &mut skipped), Ok(Some(row("none", Some("2024-05-01T11:00:00Z"), "none"))));
    let bad = vec![
        object(&[("heading", Some("kurs A"))]),
        object(&[("id", Some("ok")), ("inviteTime", Some("2024-05-01T11:00:00Z")), ("heading", Some("x"))]),
        object(&[("id", Some("bad")), ("inviteTime", Some("tomorrow")), ("heading", Some("y"))]),
        object(&[("heading", Some("kurs B"))]),
    ];
    let mut skipped = Vec::new();
    assert!(matches!(select_next_event(&bad, now, &mut skipped), Err(NextEventError::InviteTime(_))));
    assert_eq!(skipped, vec![0]);
    let empty: Vec<Option<JsonObject>> = vec![None, object(&[("heading", Some("kurs"))])];
    let mut skipped = Vec::new();
    assert_eq!(select_next_event(&empty, now, &mut skipped), Ok(None));
    assert_eq!(skipped, vec![1]);
    let unrepresentable = Timestamp { secs: i64::MAX, nanos: 0 };
    let mut skipped = Vec::new();
    assert_eq!(select_next_event(&items, unrepresentable, &mut skipped), Err(NextEventError::OutOfRange));
}

#[test]
fn get_next_event_reads_the_list() {
    let text = r#"[
        {"id":"later","inviteTime":"2991-01-01T00:00:00Z","heading":"Later"},
        {"id":"sooner","inviteTime":"2990-01-01T00:00:00Z","heading":"Sooner"},
        {"id":"course","inviteTime":"2990-01-01T00:00:00Z","heading":"Dansekurs"}
    ]"#;
    let mut skipped = Vec::new();
    assert_eq!(get_next_event(text, &mut skipped), Ok(row("sooner", Some("2990-01-01T00:00:00Z"), "Sooner")));
    assert_eq!(skipped, vec![2]);
    let mut skipped = Vec::new();
    assert_eq!(get_next_event(r#"{"id":"x"}"#, &mut skipped), Err(NextEventError::NotArray));
    assert!(matches!(get_next_event("nope", &mut skipped), Err(NextEventError::Json(_))));
    assert!(skipped.is_empty());
    assert_eq!(NextEventError::NotArray.message(), "Invalid JSON format".to_string());
    assert_eq!(NextEventError::Json("m".to_string()).message(), "m".to_string());
}

#[test]
fn next_event_or_none_covers_lists_without_candidates() {
    let mut skipped = Vec::new();
    assert_eq!(next_event_or_none("[]", &mut skipped), Ok(None));
    assert!(skipped.is_empty());
    let text = r#"[{"heading":"Dansekurs","inviteTime":"2990-01-01T00:00:00Z"},{"id":"x","heading":"No time"},{"heading":"kurs"}]"#;
    let mut skipped = Vec::new();
    assert_eq!(next_event_or_none(text, &mut skipped), Ok(None));
    assert_eq!(skipped, vec![0, 2]);
    let text = r#"[{"heading":"kurs"},{"id":"e","heading":"Match","inviteTime":"2990-01-01T00:00:00Z"}]"#;
    let mut skipped = Vec::new();
    assert_eq!(
        next_event_or_none(text, &mut skipped),
        Ok(Some(row("e", Some("2990-01-01T00:00:00Z"), "Match")))
    );
    assert_eq!(skipped, vec![0]);
    let mut skipped = Vec::new();
    assert_eq!(next_event_or_none("{}", &mut skipped), Err(NextEventError::NotArray));
}

#[test]
fn events_file_content_is_pretty_json() {
    let rows = vec![row("E1", Some("2024-05-01T12:00:00Z"), "Training"), row("E2", None, "Match")];
    let expected = "[\n  {\n    \"heading\": \"Training\",\n    \"id\": \"E1\",\n    \"inviteTime\": \"2024-05-01T12:00:00Z\"\n  },\n  {\n    \"heading\": \"Match\",\n    \"id\": \"E2\",\n    \"inviteTime\": null\n  }\n]";
    assert_eq!(events_file_content(&rows), expected);
    assert_eq!(events_file_content(&vec![]), "[]");
    // what is written is read back as the same rows
    assert_eq!(read_ids_and_invite_times(&events_file_content(&rows)), Ok(rows));
}
