use stock_crawler::telegram::next_send_slot;
use stock_crawler::telegram::{
    alert_message, escape_markdown_v2, outgoing_messages, remove_backslashes, send_slot_wait_millis,
    split_message_into_chunks, BroadcastTally, Message, RecipientReply, ResponseParameters,
    SendAction, SendAttempt, SendError, SendMessageRequest, SendMessageResponse, SendStage,
    Telegram, MARKDOWN_V2, MAX_MESSAGE_LEN, MIN_SEND_INTERVAL_MILLIS,
};

#[test]
fn test_split_message_into_chunks_keeps_short_message_intact() {
    let msg = "line1\nline2\nline3\n";
    let chunks = split_message_into_chunks(msg, 4000);
    assert_eq!(chunks, vec![msg.to_string()]);
}

#[test]
fn test_split_message_into_chunks_splits_by_line_when_too_long() {
    let line = "x".repeat(30);
    let msg = std::iter::repeat_n(line.clone(), 10)
        .collect::<Vec<_>>()
        .join("\n");
    let limit = 100;

    let chunks = split_message_into_chunks(&msg, limit);

    assert!(chunks.len() > 1);
    for chunk in &chunks {
        assert!(chunk.chars().count() <= limit);
    }
    assert_eq!(
        chunks.iter().flat_map(|c| c.lines()).count(),
        msg.lines().count()
    );
}

#[test]
fn test_split_message_into_chunks_falls_back_to_char_split_for_oversized_line() {
    let msg = "a".repeat(250);
    let limit = 100;

    let chunks = split_message_into_chunks(&msg, limit);

    assert_eq!(chunks.len(), 3);
    for chunk in &chunks {
        assert!(chunk.chars().count() <= limit);
    }
    assert_eq!(chunks.iter().map(|c| c.chars().count()).sum::<usize>(), 250);
}

#[test]
fn chunks_concatenate_back_to_the_message() {
    let msg = format!("{}\n{}\nshort\n{}", "b".repeat(150), "c".repeat(40), "d".repeat(260));
    let chunks = split_message_into_chunks(&msg, 100);
    assert_eq!(chunks.concat(), msg);
    assert!(chunks.iter().all(|c| !c.is_empty() && c.chars().count() <= 100));
}

#[test]
fn blank_messages_are_not_sent() {
    assert!(outgoing_messages("   \n\t").is_empty());
    assert_eq!(outgoing_messages("hi"), vec!["hi".to_string()]);
    let long = "z".repeat(MAX_MESSAGE_LEN + 1);
    assert_eq!(outgoing_messages(&long).len(), 2);
}

/// The pacing of three back-to-back sends and of one after a long pause,
/// as the slot acquisition asks the library: the first goes at once, each
/// of the next two waits a full interval, and one after twice the interval
/// goes at once.
#[test]
fn test_acquire_send_slot_enforces_min_interval() {
    let mut clock: u64 = 0;
    let mut last_sent_at: Option<u64> = None;
    let mut acquire = |clock: &mut u64| {
        let wait = send_slot_wait_millis(last_sent_at.map(|previous| *clock - previous));
        *clock += wait;
        last_sent_at = Some(*clock);
    };

    acquire(&mut clock);
    assert_eq!(clock, 0);

    acquire(&mut clock);
    assert_eq!(clock, MIN_SEND_INTERVAL_MILLIS);

    acquire(&mut clock);
    assert_eq!(clock, MIN_SEND_INTERVAL_MILLIS * 2);

    clock += MIN_SEND_INTERVAL_MILLIS * 2;
    let before = clock;
    acquire(&mut clock);
    assert_eq!(clock, before);
}

#[test]
fn send_slot_waits_for_the_minimum_interval() {
    assert_eq!(send_slot_wait_millis(None), 0);
    assert_eq!(send_slot_wait_millis(Some(0)), MIN_SEND_INTERVAL_MILLIS);
    assert_eq!(send_slot_wait_millis(Some(1000)), 100);
    assert_eq!(send_slot_wait_millis(Some(MIN_SEND_INTERVAL_MILLIS * 2)), 0);
}

#[test]
fn telegram_client_and_request_shape() {
    let t = Telegram::new("SECRET-REDACTED");
    assert_eq!(
        t.send_message_url,
        "https://api.telegram.org/botSECRET-REDACTED/sendMessage"
    );
    let r = SendMessageRequest::new(42, "hello");
    assert_eq!(r.chat_id, 42);
    assert_eq!(r.text, "hello");
    assert_eq!(r.parse_mode, MARKDOWN_V2);
}

#[test]
fn markdown_special_characters_are_escaped() {
    assert_eq!(escape_markdown_v2("a_b*c"), "a\\_b\\*c");
    assert_eq!(escape_markdown_v2("1.5 (x)"), "1\\.5 \\(x\\)");
    assert_eq!(escape_markdown_v2("plain"), "plain");
}

#[test]
fn alert_message_has_the_banner_and_escaped_fields() {
    let m = alert_message("db_down", "2026-01-02 03:04:05", "x.y");
    assert_eq!(
        m,
        "⚠️ *【系統關鍵警報】*\n*標題*︰db\\_down\n*時間*︰2026\\-01\\-02 03:04:05\n*詳情*︰\n```\nx\\.y\n```"
    );
}

fn ok_reply(message_id: i64) -> SendMessageResponse {
    SendMessageResponse {
        ok: true,
        result: Some(Message { message_id }),
        error_code: None,
        description: None,
        parameters: None,
    }
}

fn error_reply(code: i32, retry_after: Option<u64>) -> SendMessageResponse {
    SendMessageResponse {
        ok: false,
        result: None,
        error_code: Some(code),
        description: Some("failed".to_string()),
        parameters: Some(ResponseParameters { retry_after }),
    }
}

fn broadcast_step(action: &SendAction) -> (u64, String, bool) {
    match action {
        SendAction::Broadcast { wait_secs, text, plain } => (*wait_secs, text.clone(), *plain),
        SendAction::Finish(_) => panic!("expected a broadcast"),
    }
}

#[test]
fn broadcast_returns_the_first_delivery_after_asking_everyone() {
    let mut tally = BroadcastTally::new();
    tally.record(RecipientReply::Unreachable);
    tally.record(RecipientReply::Answered(ok_reply(7)));
    tally.record(RecipientReply::Answered(ok_reply(8)));
    tally.record(RecipientReply::Answered(error_reply(429, Some(30))));
    match tally.finish() {
        Ok(resp) => assert_eq!(resp.result.map(|m| m.message_id), Some(7)),
        Err(_) => panic!("one recipient received the message"),
    }
}

#[test]
fn broadcast_failure_reports_the_longest_rate_limit_wait() {
    let mut tally = BroadcastTally::new();
    tally.record(RecipientReply::Answered(error_reply(429, Some(3))));
    tally.record(RecipientReply::Answered(error_reply(400, None)));
    tally.record(RecipientReply::Answered(error_reply(429, Some(17))));
    tally.record(RecipientReply::Answered(error_reply(429, Some(5))));
    assert!(matches!(tally.finish(), Err(Some(17))));

    // A 429 without `retry_after` asks for one second.
    let mut tally = BroadcastTally::new();
    tally.record(RecipientReply::Answered(SendMessageResponse {
        ok: false,
        result: None,
        error_code: Some(429),
        description: None,
        parameters: None,
    }));
    assert!(matches!(tally.finish(), Err(Some(1))));

    // Failures that are no rate limit ask for no wait.
    let mut tally = BroadcastTally::new();
    tally.record(RecipientReply::Unreachable);
    tally.record(RecipientReply::Answered(error_reply(400, Some(9))));
    assert!(matches!(tally.finish(), Err(None)));

    // Nobody to send to: nothing delivered, nothing to wait for.
    assert!(matches!(BroadcastTally::new().finish(), Err(None)));
}

#[test]
fn send_starts_with_the_markdown_text_at_once() {
    let (attempt, action) = SendAttempt::start("a\\.b");
    assert!(matches!(attempt.stage, SendStage::Markdown));
    assert_eq!(broadcast_step(&action), (0, "a\\.b".to_string(), false));
}

#[test]
fn rate_limit_repeats_the_markdown_once_after_the_wait_plus_a_second() {
    let (mut attempt, _) = SendAttempt::start("x\\-y");
    let action = attempt.on_broadcast(Err(Some(17)));
    assert!(matches!(attempt.stage, SendStage::MarkdownAgain));
    assert_eq!(broadcast_step(&action), (18, "x\\-y".to_string(), false));

    // A second failure falls back to plain text without the escapes.
    let action = attempt.on_broadcast(Err(Some(4)));
    assert!(matches!(attempt.stage, SendStage::PlainText));
    assert_eq!(broadcast_step(&action), (0, "x-y".to_string(), true));

    // A plain-text failure ends the attempt.
    let action = attempt.on_broadcast(Err(None));
    assert!(matches!(attempt.stage, SendStage::Done));
    assert!(matches!(action, SendAction::Finish(Err(SendError::AllRecipientsFailed))));
}

#[test]
fn other_failures_fall_back_to_plain_text_at_once() {
    let (mut attempt, _) = SendAttempt::start("1\\.5");
    let action = attempt.on_broadcast(Err(None));
    assert!(matches!(attempt.stage, SendStage::PlainText));
    assert_eq!(broadcast_step(&action), (0, "1.5".to_string(), true));

    let action = attempt.on_broadcast(Ok(ok_reply(3)));
    assert!(matches!(attempt.stage, SendStage::Done));
    match action {
        SendAction::Finish(Ok(resp)) => assert_eq!(resp.result.map(|m| m.message_id), Some(3)),
        _ => panic!("the plain-text delivery is the result"),
    }
}

#[test]
fn first_delivery_finishes_the_attempt() {
    let (mut attempt, _) = SendAttempt::start("hello");
    match attempt.on_broadcast(Ok(ok_reply(1))) {
        SendAction::Finish(Ok(resp)) => assert!(resp.ok),
        _ => panic!("a delivery ends the attempt"),
    }
    assert!(matches!(attempt.stage, SendStage::Done));
}

#[test]
fn send_error_text() {
    assert_eq!(
        SendError::AllRecipientsFailed.message(),
        "Failed to send message to any recipient even after plain-text fallback"
    );
    assert_eq!(remove_backslashes("a\\_b\\\\c"), "a_bc");
}

#[test]
fn lines_that_fit_are_never_cut() {
    // Three 6-character lines, then one of 15: with a limit of 10 the short
    // lines each stay whole; only the long one is cut.
    let msg = "aaaaa\nbbbbb\nccccc\ndddddddddddddd\n";
    let chunks = split_message_into_chunks(msg, 10);
    assert_eq!(
        chunks,
        vec!["aaaaa\n", "bbbbb\n", "ccccc\n", "dddddddddd", "dddd\n"]
    );
    assert!(chunks.iter().all(|c| !c.is_empty() && c.chars().count() <= 10));
    assert_eq!(chunks.concat(), msg);
}

#[test]
fn send_slots_are_spaced_on_the_clock() {
    assert_eq!(next_send_slot(None, 5_000), (0, 5_000));
    assert_eq!(next_send_slot(Some(5_000), 5_000), (MIN_SEND_INTERVAL_MILLIS, 5_000 + MIN_SEND_INTERVAL_MILLIS));
    assert_eq!(next_send_slot(Some(5_000), 5_400), (700, 6_100));
    assert_eq!(next_send_slot(Some(5_000), 9_000), (0, 9_000));
}

#[test]
fn a_later_round_may_ask_for_the_longest_wait() {
    let (mut attempt, _) = SendAttempt::start("a\\.b");
    let _ = attempt.on_broadcast(Err(Some(2)));
    let action = attempt.on_broadcast(Err(Some(u64::MAX)));
    assert!(matches!(attempt.stage, SendStage::PlainText));
    assert_eq!(broadcast_step(&action), (0, "a.b".to_string(), true));
}
