use brok::session::{directed_prompt, App, PendingMessage, BOT_ACCOUNT};

const SECOND: u128 = 1_000_000_000;

fn pending(app: &App) -> Vec<(u64, &str, u128)> {
    app.pending_messages().iter().map(|m| (m.id, m.content.as_str(), m.timestamp)).collect()
}

fn names(list: &[&str]) -> Vec<String> {
    list.iter().map(|n| n.to_string()).collect()
}

#[test]
fn a_new_bot_has_seen_nothing() {
    let app = App::new("localhost:8080");
    assert_eq!(app.api_endpoint(), "http://localhost:8080/api/generate");
    assert!(app.message_history().is_empty());
    assert!(app.pending_messages().is_empty());
    assert!(app.available_users().is_empty());
    assert_eq!(app.next_message_id(), 1);
    assert_eq!(app.chat_log(), "");
}

#[test]
fn the_last_ten_messages_are_remembered() {
    let mut app = App::new("h");
    for i in 0..13 {
        app.add_message_to_history("ann", &format!("m{i}"));
    }
    let expected: Vec<String> = (3..13).map(|i| format!("ann: m{i}")).collect();
    assert_eq!(app.message_history(), &expected);
    assert_eq!(app.chat_log(), expected.join("\n"));
}

#[test]
fn ten_messages_fit() {
    let mut app = App::new("h");
    for i in 0..10 {
        app.add_message_to_history("ann", &format!("m{i}"));
    }
    assert_eq!(app.message_history().len(), 10);
    assert_eq!(app.message_history()[0], "ann: m0");
}

#[test]
fn sent_messages_get_new_ids() {
    let mut app = App::new("h");
    assert_eq!(app.add_pending_message("x".to_string(), 7), 1);
    assert_eq!(app.add_pending_message("x".to_string(), 8), 2);
    assert_eq!(pending(&app), vec![(1, "x", 7), (2, "x", 8)]);
    assert_eq!(app.next_message_id(), 3);
}

#[test]
fn confirmation_needs_id_and_text() {
    let mut app = App::new("h");
    app.add_pending_message("x".to_string(), 0);
    app.add_pending_message("y".to_string(), 0);
    app.confirm_message_sent(1, "y");
    app.confirm_message_sent(3, "x");
    assert_eq!(app.pending_messages().len(), 2);
    app.confirm_message_sent(1, "x");
    assert_eq!(pending(&app), vec![(2, "y", 0)]);
}

#[test]
fn messages_are_retried_after_five_seconds() {
    let mut app = App::new("h");
    app.add_pending_message("x".to_string(), 0);
    app.add_pending_message("y".to_string(), 2 * SECOND);
    assert!(app.get_messages_to_retry(5 * SECOND).is_empty());
    let overdue = app.get_messages_to_retry(5 * SECOND + 1);
    assert_eq!(
        overdue,
        vec![PendingMessage { id: 1, content: "x".to_string(), timestamp: 0 }]
    );
    assert_eq!(app.get_messages_to_retry(8 * SECOND).len(), 2);
    assert!(app.get_messages_to_retry(SECOND).is_empty());
}

#[test]
fn a_round_of_retries_keeps_every_message() {
    let mut app = App::new("h");
    app.add_pending_message("a".to_string(), 0);
    app.add_pending_message("b".to_string(), 9 * SECOND);
    app.add_pending_message("a".to_string(), 0);
    let now = 10 * SECOND;
    for message in app.get_messages_to_retry(now) {
        app.retry_message(&message, now);
    }
    assert_eq!(pending(&app), vec![(2, "b", 9 * SECOND), (4, "a", now), (5, "a", now)]);
    assert!(app.get_messages_to_retry(now).is_empty());
}

#[test]
fn echoes_are_found_by_text() {
    let mut app = App::new("h");
    assert_eq!(app.check_for_echo("x"), None);
    app.add_pending_message("y".to_string(), 0);
    app.add_pending_message("x".to_string(), 0);
    app.add_pending_message("x".to_string(), 0);
    assert_eq!(app.check_for_echo("x"), Some(2));
    assert_eq!(app.check_for_echo("z"), None);
}

#[test]
fn an_answer_that_is_seen_is_settled() {
    let mut app = App::new("h");
    assert_eq!(app.record_answer("hello", 3), 1);
    assert_eq!(app.message_history(), &names(&["brok: hello"]));
    assert_eq!(app.receive_message(BOT_ACCOUNT, "hello"), None);
    assert!(app.pending_messages().is_empty());
    assert_eq!(app.message_history(), &names(&["brok: hello", "brok: hello"]));
}

#[test]
fn an_echo_settles_the_oldest() {
    let mut app = App::new("h");
    app.add_pending_message("x".to_string(), 1);
    app.add_pending_message("x".to_string(), 2);
    app.receive_message(BOT_ACCOUNT, "x");
    assert_eq!(pending(&app), vec![(2, "x", 2)]);
}

#[test]
fn others_settle_nothing() {
    let mut app = App::new("h");
    app.record_answer("hello", 3);
    app.receive_message("ann", "hello");
    assert_eq!(pending(&app), vec![(1, "hello", 3)]);
}

#[test]
fn messages_to_the_bot_hold_a_prompt() {
    let mut app = App::new("h");
    assert_eq!(app.receive_message("ann", "@brok what is up"), Some("what is up".to_string()));
    assert_eq!(app.receive_message("ann", "hi @brok"), None);
    assert_eq!(app.message_history(), &names(&["ann: @brok what is up", "ann: hi @brok"]));
}

#[test]
fn prompts_follow_the_name() {
    assert_eq!(directed_prompt("@brok hi"), Some("hi".to_string()));
    assert_eq!(directed_prompt("@brok "), Some(String::new()));
    assert_eq!(directed_prompt("@brok"), Some("@brok".to_string()));
    assert_eq!(directed_prompt("@broken hi"), Some("@broken hi".to_string()));
    assert_eq!(directed_prompt("@bro hi"), None);
    assert_eq!(directed_prompt(""), None);
}

#[test]
fn users_are_loaded_once_each() {
    let mut app = App::new("h");
    assert_eq!(app.load_available_users(Ok(names(&["ann", "bob", "ann"]))), Ok(()));
    assert_eq!(app.available_users(), &names(&["ann", "bob"]));
    assert_eq!(
        app.load_available_users(Err("no directory".to_string())),
        Err("no directory".to_string())
    );
    assert_eq!(app.available_users(), &names(&["ann", "bob"]));
    assert_eq!(app.load_available_users(Ok(names(&["eve"]))), Ok(()));
    assert_eq!(app.available_users(), &names(&["eve"]));
}

#[test]
fn known_users_are_detected() {
    let mut app = App::new("h");
    assert_eq!(app.load_available_users(Ok(names(&["ann", "bob", "eve"]))), Ok(()));
    assert_eq!(app.detect_users_in_message("did bob meet annabel?"), names(&["ann", "bob"]));
    assert!(app.detect_users_in_message("nobody").is_empty());
    assert!(app.detect_users_in_message("Ann").is_empty());
}

#[test]
fn a_message_waits_for_its_echo() {
    let mut app = App::new("h");
    app.record_answer("hello", 3);
    app.receive_message(BOT_ACCOUNT, "hello!");
    app.receive_message("ann", "@brok hello");
    assert_eq!(pending(&app), vec![(1, "hello", 3)]);
}
