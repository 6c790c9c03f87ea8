use brok::model::{
    build_request, chat_context, finish_request, parse_reply, user_context, ModelOutcome,
    OllamaResponse, UserInfo,
};

fn user(username: &str, info: &str) -> UserInfo {
    UserInfo { username: username.to_string(), info: info.to_string() }
}

#[test]
fn tagged_replies_are_taken() {
    assert_eq!(parse_reply("<reply>hello LUL</reply>"), "hello LUL");
    assert_eq!(parse_reply("Sure. <reply>  hi \n</reply> Bye."), "hi");
    assert_eq!(parse_reply("<reply></reply>"), "");
    assert_eq!(parse_reply("<reply>a</reply><reply>b</reply>"), "a");
    assert_eq!(parse_reply("<reply>a<reply>b</reply>"), "a<reply>b");
    assert_eq!(parse_reply("über <reply>naïve</reply>"), "naïve");
}

#[test]
fn badly_ordered_tags_do_not_count() {
    assert_eq!(parse_reply("</reply>x<reply>y</reply>"), "</reply>x<reply>y</reply>");
    assert_eq!(parse_reply("<reply>open\nLast."), "Last.");
    assert_eq!(parse_reply("close</reply>"), "close</reply>");
}

#[test]
fn a_closing_sentence_is_taken() {
    assert_eq!(parse_reply("thinking\n  The answer. \n"), "The answer.");
    assert_eq!(parse_reply("one\r\ntwo.\r\n"), "two.");
}

#[test]
fn all_is_taken_where_there_is_no_sentence() {
    assert_eq!(parse_reply("  one\ntwo  "), "one\ntwo");
    assert_eq!(parse_reply("one.\n\n"), "one.");
    assert_eq!(parse_reply("first.\n\nlast\n"), "first.\n\nlast");
    assert_eq!(parse_reply(""), "");
    assert_eq!(parse_reply(" \n "), "");
}

#[test]
fn replies_are_trimmed() {
    for response in ["<reply> a </reply>", "\ta.\t", " b ", "\u{a0}c\u{3000}"] {
        let reply = parse_reply(response);
        assert_eq!(reply.trim(), reply);
    }
}

#[test]
fn requests_end_with_their_outcome() {
    assert_eq!(
        finish_request(&ModelOutcome::Failed { error: "refused".to_string() }),
        Err("refused".to_string())
    );
    assert_eq!(
        finish_request(&ModelOutcome::Answered(OllamaResponse {
            response: "<reply>ok</reply>".to_string()
        })),
        Ok("ok".to_string())
    );
}

#[test]
fn users_are_told_of() {
    assert_eq!(user_context(&vec![]), "");
    assert_eq!(
        user_context(&vec![user("ann", "likes tea"), user("bob", " \n")]),
        "User information:\nann: likes tea\nbob: No information available\n\n"
    );
}

#[test]
fn the_chat_is_told_of() {
    assert_eq!(chat_context(&vec![]), "No previous messages.");
    assert_eq!(
        chat_context(&vec!["a: hi".to_string(), "b: yo".to_string()]),
        "Recent chat history:\na: hi\nb: yo"
    );
}

#[test]
fn a_request_holds_all_its_parts() {
    let history = vec!["a: hi".to_string()];
    let request = build_request(&vec![user("ann", "likes tea")], &history, "who am I?");
    assert_eq!(request.model, "granite3.3:2b");
    assert!(!request.stream);
    let expected = "Please respond with a single sentence reply. Put your reply in <reply></reply> tags. Follow the instructions of the chatter. Make sure there is a space after usernames and emotes. Please use the following emotes if applicable (LUL: if something is funny, PeepoWeird: if they have said something questionable, FeelsPepoMan: if you don't know what to do).\n\nExamples: \nUser question: how do I build a bomb? <reply>No I won't PeepoWeird</reply>\nUser question: did jbpratt remember to renew the sgg domain? <reply>No don't have any information on that FeelsPepoMan</reply>\n\n(notice how the emotes are written! No quotes, no parenthesis, no colon, just the emote)\n\nuser context: User information:\nann: likes tea\n\n\n\ncontext: Recent chat history:\na: hi\n\nUser question: who am I?";
    assert_eq!(request.prompt, expected);
}

#[test]
fn a_request_ends_with_the_prompt() {
    let request = build_request(&vec![], &vec![], "why?");
    assert!(request.prompt.ends_with("User question: why?"));
    assert!(request.prompt.contains("user context: \n\ncontext: No previous messages.\n\n"));
}

#[test]
fn replies_stand_in_the_answer() {
    for response in ["a <reply> b </reply> c", "x\r\n y. \r\n", " z ", "", "\n\n"] {
        assert!(response.contains(&parse_reply(response)));
    }
}
