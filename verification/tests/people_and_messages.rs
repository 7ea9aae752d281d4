use spond_accept::accept::{
    accept_outcome, accept_url, authorization_header, config_check, is_config_correct, AcceptError,
    ConfigCheck, Reply,
};
use spond_accept::config::{Config, ConfigSet};
use spond_accept::discord::{
    format_system_details, next_event_error_notice, prepare_discord_message, success_message,
    system_details,
};
use spond_accept::events::{EventRow, NextEventError};
use spond_accept::members::{get_name_by_id, hello_line, user_display_name, Event, Group, Member, Recipient};
use spond_accept::schedule::{acceptance_report, events_url, plan_round, update_event_build, AcceptReport, RoundPlan};

fn accepted(body: &[u8]) -> Reply {
    Reply::Accepted(body.to_vec())
}

fn refused(body: &str) -> Reply {
    Reply::Refused(body.to_string())
}

fn member(first: &str, last: &str, id: &str) -> Member {
    Member { first_name: first.to_string(), last_name: last.to_string(), id: id.to_string() }
}

fn event(members: Vec<Member>) -> Event {
    Event { recipients: Recipient { group: Group { members } } }
}

fn config_set(user: &str) -> ConfigSet {
    ConfigSet {
        bearer_token: "token-1".to_string(),
        group_id: "G1".to_string(),
        user_id: user.to_string(),
        discord_webhook: "none".to_string(),
    }
}

#[test]
fn name_lookup_finds_first_match() {
    let events = vec![
        event(vec![member("Kari", "Nordmann", "A"), member("Ola", "Nordmann", "B")]),
        event(vec![member("Other", "Person", "B"), member("Per", "Hansen", "C")]),
    ];
    assert_eq!(get_name_by_id(&events, "B"), Some(("Ola".to_string(), "Nordmann".to_string())));
    assert_eq!(get_name_by_id(&events, "C"), Some(("Per".to_string(), "Hansen".to_string())));
    assert_eq!(get_name_by_id(&events, "Z"), None);
    assert_eq!(get_name_by_id(&vec![], "A"), None);
}

#[test]
fn display_names_and_greetings() {
    let found = user_display_name(Some(("Ola".to_string(), "Nordmann".to_string())));
    assert_eq!(found, "Ola Nordmann");
    assert_eq!(user_display_name(None), "No user found");
    assert_eq!(hello_line("Ola Nordmann"), "Hello there Ola Nordmann!");
    assert_eq!(hello_line("No user found"), "No user found");
}

#[test]
fn authorization_header_checks_the_token() {
    assert_eq!(authorization_header("abc"), Ok("Bearer abc".to_string()));
    assert_eq!(authorization_header("tab\tok"), Ok("Bearer tab\tok".to_string()));
    assert_eq!(authorization_header("bøk"), Ok("Bearer bøk".to_string()));
    assert_eq!(authorization_header("line\nbreak"), Err(AcceptError::InvalidHeaderValue));
    assert_eq!(authorization_header("del\u{7f}"), Err(AcceptError::InvalidHeaderValue));
    assert_eq!(AcceptError::InvalidHeaderValue.message(), "failed to parse header value");
}

#[test]
fn accept_outcome_reads_the_reply() {
    assert_eq!(
        accept_outcome(&accepted(r#"{"errorKey":"inviteNotSent","message":"x"}"#.as_bytes())),
        Ok("Invite was not accepted, due to being too fast.".to_string())
    );
    assert_eq!(accept_outcome(&accepted(r#"{"errorKey":"other"}"#.as_bytes())), Ok("Success".to_string()));
    assert_eq!(accept_outcome(&accepted(r#"{}"#.as_bytes())), Ok("Success".to_string()));
    assert_eq!(accept_outcome(&accepted(r#"["inviteNotSent"]"#.as_bytes())), Ok("Success".to_string()));
    assert_eq!(accept_outcome(&accepted("not json".as_bytes())), Err(AcceptError::Decode));
    assert_eq!(accept_outcome(&refused("oops")), Ok("Failed: oops".to_string()));
    assert_eq!(AcceptError::Decode.message(), "error decoding response body");
    assert_eq!(accept_outcome(&accepted(&[0x7b, 0xff, 0x7d])), Err(AcceptError::Decode));
    assert_eq!(accept_outcome(&accepted(b"\"text\"")), Ok("Success".to_string()));
}

#[test]
fn accept_url_joins_the_parts() {
    assert_eq!(
        accept_url("DB736DCD48454137B16355ED7AB7AC50", "U1"),
        "https://api.spond.com/core/v1/sponds//DB736DCD48454137B16355ED7AB7AC50/responses/U1"
    );
}

#[test]
fn config_check_classifies_answers() {
    let not_sent = Ok("Failed: {\"message\":\"Invitation has not been sent out\"}".to_string());
    assert_eq!(config_check(&not_sent), ConfigCheck::Confirmed);
    assert!(is_config_correct(&not_sent));
    let refused = Ok("Failed: unauthorized".to_string());
    assert_eq!(config_check(&refused), ConfigCheck::Refused("Failed: unauthorized".to_string()));
    assert!(!is_config_correct(&refused));
    let fine = Ok("Success".to_string());
    assert_eq!(config_check(&fine), ConfigCheck::Passed);
    assert!(is_config_correct(&fine));
    let broken: Result<String, AcceptError> = Err(AcceptError::Request("timeout".to_string()));
    assert_eq!(config_check(&broken), ConfigCheck::Unchecked("timeout".to_string()));
    assert!(!is_config_correct(&broken));
}

#[test]
fn law_config_judgement_on_samples() {
    // refused: judged by the body alone
    assert!(is_config_correct(&accept_outcome(&refused("Invitation has not been sent out yet"))));
    assert!(!is_config_correct(&accept_outcome(&refused("Unauthorized"))));
    assert!(!is_config_correct(&accept_outcome(&refused(""))));
    // accepted with a JSON reply: always correct
    assert!(is_config_correct(&accept_outcome(&accepted(r#"{"errorKey":"inviteNotSent"}"#.as_bytes()))));
    assert!(is_config_correct(&accept_outcome(&accepted(r#"{"Failed":"Failed"}"#.as_bytes()))));
    // failed acceptance: incorrect
    assert!(!is_config_correct(&accept_outcome(&accepted("<html>".as_bytes()))));
}

#[test]
fn system_details_format() {
    assert_eq!(
        format_system_details("Ubuntu", "22.04", "64-bit", ""),
        "OS: Ubuntu 22.04 (Type: 64-bit, Version: )"
    );
    let details = system_details();
    assert!(details.starts_with("OS: "));
    assert!(!details.starts_with("OS:  "));
    assert!(details.contains("(Type: 32-bit, ") || details.contains("(Type: 64-bit, ") || details.contains("(Type: unknown bitness, "));
}

#[test]
fn discord_message_needs_a_webhook() {
    assert_eq!(prepare_discord_message("none", "hi"), None);
    let content = prepare_discord_message("https://discord.example/webhook", "hi").unwrap();
    assert!(content.starts_with("hi\nOS: "));
}

#[test]
fn messages_are_worded_exactly() {
    assert_eq!(
        success_message("Trening", -1500, "Ola Nordmann"),
        "API request sent for Trening\nWith a total of 1500 nanoseconds time delay\n Congrats Ola Nordmann!"
    );
    assert_eq!(
        success_message("T", i64::MAX, "U"),
        format!("API request sent for T\nWith a total of {} nanoseconds time delay\n Congrats U!", i64::MAX)
    );
    assert_eq!(
        next_event_error_notice("Invalid JSON format"),
        "Error getting next event: Invalid JSON format\nYou should do it manually to still get a spot"
    );
}

#[test]
fn events_url_and_update_build() {
    assert_eq!(
        events_url("G1", "2024-05-01T12:00:00Z"),
        "https://api.spond.com/core/v1/sponds?includeComments=false&includeHidden=false&addProfileInfo=false&scheduled=true&order=asc&max=20&groupId=G1&minEndTimestamp=2024-05-01T12:00:00Z"
    );
    let url = update_event_build(&config_set("U1"));
    let prefix = "https://api.spond.com/core/v1/sponds?includeComments=false&includeHidden=false&addProfileInfo=false&scheduled=true&order=asc&max=20&groupId=G1&minEndTimestamp=";
    assert!(url.starts_with(prefix));
    let stamp = &url[prefix.len()..];
    assert_eq!(stamp.len(), 20);
    assert!(stamp.ends_with('Z'));
    let chars: Vec<char> = stamp.chars().collect();
    for (i, c) in chars.iter().enumerate() {
        match i {
            4 | 7 => assert_eq!(*c, '-'),
            10 => assert_eq!(*c, 'T'),
            13 | 16 => assert_eq!(*c, ':'),
            19 => assert_eq!(*c, 'Z'),
            _ => assert!(c.is_ascii_digit()),
        }
    }
}

#[test]
fn plan_round_decides() {
    let next: Result<Option<EventRow>, NextEventError> = Ok(Some(EventRow {
        id: "E1".to_string(),
        invite_time: Some("2024-05-01T12:00:00Z".to_string()),
        heading: "Training".to_string(),
    }));
    assert_eq!(
        plan_round(&next, "U1"),
        RoundPlan::Accept {
            url: "https://api.spond.com/core/v1/sponds//E1/responses/U1".to_string(),
            invite_time: "2024-05-01T12:00:00Z".to_string(),
            header: "Training".to_string(),
        }
    );
    let no_time = Ok(Some(EventRow { id: "E1".to_string(), invite_time: None, heading: "T".to_string() }));
    assert_eq!(plan_round(&no_time, "U1"), RoundPlan::Retry);
    assert_eq!(
        plan_round(&Ok(None), "U1"),
        RoundPlan::Stop {
            console: "No more events to process.".to_string(),
            notice: "No more events to process".to_string(),
        }
    );
    assert_eq!(
        plan_round(&Err(NextEventError::NotArray), "U1"),
        RoundPlan::Stop {
            console: "Error getting next event: Invalid JSON format".to_string(),
            notice: "Error getting next event: Invalid JSON format\nYou should do it manually to still get a spot".to_string(),
        }
    );
}

#[test]
fn acceptance_report_wording() {
    assert_eq!(
        acceptance_report(&Ok("Success".to_string()), "Training", 42, "Ola Nordmann"),
        AcceptReport::Accepted("API request sent for Training\nWith a total of 42 nanoseconds time delay\n Congrats Ola Nordmann!".to_string())
    );
    assert_eq!(
        acceptance_report(&Err(AcceptError::Decode), "Training", 42, "Ola Nordmann"),
        AcceptReport::Failed("Failed to accept event: error decoding response body".to_string())
    );
    assert_eq!(
        acceptance_report(&Err(AcceptError::Decode), "Training", i64::MIN, "Ola Nordmann"),
        AcceptReport::Failed("Failed to accept event: error decoding response body".to_string())
    );
}

#[test]
fn clone_keeps_every_field() {
    let set = config_set("U1");
    assert_eq!(set.clone(), set);
    let config = Config { config: vec![config_set("U1"), config_set("U2")] };
    assert_eq!(config.clone(), config);
}
