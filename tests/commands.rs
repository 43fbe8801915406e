use komari_tgbot::command::{parse, parse_callback_data, parse_signed, Command};
use komari_tgbot::nodes::{str_contains, str_lt};

#[test]
fn parse_plain_commands() {
    assert_eq!(parse("/start", "bot"), Ok(Some(Command::Start)));
    assert_eq!(parse("/help", "bot"), Ok(Some(Command::Help)));
    assert_eq!(parse("/disconnect", "bot"), Ok(Some(Command::Disconnect)));
    assert_eq!(parse("/update", "bot"), Ok(Some(Command::Update)));
    assert_eq!(parse("/get_node_id", "bot"), Ok(Some(Command::GetNodeId)));
    assert_eq!(parse("/total_status", "bot"), Ok(Some(Command::TotalStatus)));
    assert_eq!(
        parse("/generate_notification_token", "bot"),
        Ok(Some(Command::GenerateNotificationToken))
    );
}

#[test]
fn parse_connect_trims_trailing_slashes() {
    assert_eq!(
        parse("/connect https://status.example.com//", "bot"),
        Ok(Some(Command::Connect { http_url: "https://status.example.com".to_string() }))
    );
    assert_eq!(
        parse("/connect https://status.example.com", "bot"),
        Ok(Some(Command::Connect { http_url: "https://status.example.com".to_string() }))
    );
}

#[test]
fn parse_connect_without_url() {
    assert_eq!(parse("/connect", "bot"), Err("缺少HTTP URL".to_string()));
}

#[test]
fn parse_status_variants() {
    assert_eq!(parse("/status", "bot"), Ok(Some(Command::StatusId { node_id: 1 })));
    assert_eq!(
        parse("/status tokyo", "bot"),
        Ok(Some(Command::Status { node_name: "tokyo".to_string() }))
    );
    assert_eq!(parse("/status_id 3", "bot"), Ok(Some(Command::StatusId { node_id: 3 })));
    assert_eq!(parse("/status_id", "bot"), Ok(Some(Command::StatusId { node_id: 1 })));
    assert_eq!(parse("/status_id x", "bot"), Ok(Some(Command::StatusId { node_id: 1 })));
    assert_eq!(parse("/status_id -2", "bot"), Ok(Some(Command::StatusId { node_id: -2 })));
}

#[test]
fn parse_non_commands() {
    assert_eq!(parse("hello", "bot"), Ok(None));
    assert_eq!(parse("", "bot"), Ok(None));
    assert_eq!(parse("/unknown", "bot"), Ok(None));
}

#[test]
fn parse_bot_name_suffix() {
    assert_eq!(parse("/start@bot", "bot"), Ok(Some(Command::Start)));
    assert_eq!(parse("/start@BOT", "bot"), Ok(Some(Command::Start)));
    assert_eq!(parse("/start@otherbot", "bot"), Ok(None));
    assert_eq!(parse("/start@bot@extra", "bot"), Ok(Some(Command::Start)));
}

#[test]
fn parse_white_space() {
    assert_eq!(parse("  /start", "bot"), Ok(None));
    assert_eq!(
        parse("/status\u{3000}tokyo", "bot"),
        Ok(Some(Command::Status { node_name: "tokyo".to_string() }))
    );
    assert_eq!(
        parse("/status \t tokyo osaka", "bot"),
        Ok(Some(Command::Status { node_name: "tokyo".to_string() }))
    );
    assert_eq!(parse("/", "bot"), Ok(None));
}

#[test]
fn callback_data_well_formed() {
    assert_eq!(parse_callback_data("12345-3"), Ok((12345, 3)));
    assert_eq!(parse_callback_data("12-3-9"), Ok((12, 3)));
    assert_eq!(parse_callback_data("+7-0"), Ok((7, 0)));
}

#[test]
fn callback_data_malformed() {
    let err = Err("Invalid callback data".to_string());
    assert_eq!(parse_callback_data("abc"), err);
    assert_eq!(parse_callback_data("-5-3"), err);
    assert_eq!(parse_callback_data("12-x"), err);
    assert_eq!(parse_callback_data("12-"), err);
    assert_eq!(parse_callback_data("12-99999999999"), err);
}

#[test]
fn signed_integers() {
    assert_eq!(parse_signed("42", i64::MIN, i64::MAX), Some(42));
    assert_eq!(parse_signed("+42", i64::MIN, i64::MAX), Some(42));
    assert_eq!(parse_signed("-42", i64::MIN, i64::MAX), Some(-42));
    assert_eq!(parse_signed("007", i64::MIN, i64::MAX), Some(7));
    assert_eq!(parse_signed("-", i64::MIN, i64::MAX), None);
    assert_eq!(parse_signed("", i64::MIN, i64::MAX), None);
    assert_eq!(parse_signed("4 2", i64::MIN, i64::MAX), None);
    assert_eq!(parse_signed("9223372036854775807", i64::MIN, i64::MAX), Some(i64::MAX));
    assert_eq!(parse_signed("-9223372036854775808", i64::MIN, i64::MAX), Some(i64::MIN));
    assert_eq!(parse_signed("9223372036854775808", i64::MIN, i64::MAX), None);
    assert_eq!(parse_signed("2147483648", i32::MIN as i64, i32::MAX as i64), None);
    assert_eq!(parse_signed("00000000000000000000000000001", i64::MIN, i64::MAX), Some(1));
}

#[test]
fn string_order() {
    assert!(str_lt("a", "b"));
    assert!(str_lt("ab", "abc"));
    assert!(!str_lt("abc", "ab"));
    assert!(!str_lt("x", "x"));
    assert!(str_lt("", "a"));
    assert!(str_lt("Z", "a"));
}

#[test]
fn substring_search() {
    assert!(str_contains("tokyo-1", "kyo"));
    assert!(str_contains("tokyo-1", ""));
    assert!(!str_contains("tokyo-1", "osaka"));
    assert!(!str_contains("ab", "abc"));
    assert!(str_contains("香港节点", "港节"));
}
