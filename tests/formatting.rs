use komari_tgbot::text::bytes_to_pretty_string;
use komari_tgbot::utils::{mask_one_url, mask_url, msg_fixer, Config, ErrorType, LogLevel};

#[test]
fn bytes_zero() {
    assert_eq!(bytes_to_pretty_string(0), "0 B");
}

#[test]
fn bytes_below_one_kib() {
    assert_eq!(bytes_to_pretty_string(512), "512 B");
    assert_eq!(bytes_to_pretty_string(1023), "1023 B");
}

#[test]
fn bytes_exact_units() {
    assert_eq!(bytes_to_pretty_string(1024), "1.00 KB");
    assert_eq!(bytes_to_pretty_string(5 * 1024 * 1024), "5.00 MB");
    assert_eq!(bytes_to_pretty_string(4 * 1024 * 1024 * 1024), "4.00 GB");
}

#[test]
fn bytes_fraction_and_rounding() {
    assert_eq!(bytes_to_pretty_string(1536), "1.50 KB");
    // 1152 bytes are exactly 1.125 KB: the tie goes to the even neighbour
    assert_eq!(bytes_to_pretty_string(1152), "1.12 KB");
    // 1168 bytes are 1.140625 KB
    assert_eq!(bytes_to_pretty_string(1168), "1.14 KB");
    // just under one MiB stays in KB and rounds up to 1024.00
    assert_eq!(bytes_to_pretty_string(1048575), "1024.00 KB");
}

#[test]
fn bytes_negative_stay_in_bytes() {
    assert_eq!(bytes_to_pretty_string(-5), "-5 B");
    assert_eq!(bytes_to_pretty_string(-4096), "-4096 B");
}

#[test]
fn bytes_largest_value() {
    assert_eq!(bytes_to_pretty_string(i64::MAX), "8.00 EB");
}

#[test]
fn bytes_monotone_on_samples() {
    let a = bytes_to_pretty_string(2047);
    let b = bytes_to_pretty_string(2048);
    assert_eq!(a, "2.00 KB");
    assert_eq!(b, "2.00 KB");
    assert_eq!(bytes_to_pretty_string(2059), "2.01 KB");
}

#[test]
fn markdown_escaping() {
    assert_eq!(msg_fixer("a.b-c!".to_string()), "a\\.b\\-c\\!");
    assert_eq!(msg_fixer("`1` - x_y (z)".to_string()), "`1` \\- x\\_y \\(z\\)");
    assert_eq!(msg_fixer("{[#+=|<>&]}".to_string()), "\\{\\[\\#\\+\\=\\|\\<\\>\\&\\]\\}");
    assert_eq!(msg_fixer("plain `code` *b*".to_string()), "plain `code` *b*");
    assert_eq!(msg_fixer(String::new()), "");
}

#[test]
fn mask_long_url() {
    assert_eq!(
        mask_one_url("https://example.com/secret/path"),
        "https://example.co***ath"
    );
}

#[test]
fn mask_short_url() {
    assert_eq!(mask_one_url("http://a.io"), "http://***");
    assert_eq!(mask_one_url("no-scheme"), "***");
}

#[test]
fn mask_urls_in_text() {
    assert_eq!(
        mask_url("请求 https://example.com/secret/path 失败"),
        "请求 https://example.co***ath 失败"
    );
    assert_eq!(
        mask_url("a http://x.y and https://panel.example.org/api/rpc2 end"),
        "a http://*** and https://panel.exam***pc2 end"
    );
    assert_eq!(mask_url("nothing to hide"), "nothing to hide");
}

#[test]
fn error_messages() {
    assert_eq!(
        ErrorType::UserNotConnected.message(),
        "未连接 Komari，请使用 /connect [KOMARI_HTTP_URL] 连接"
    );
    assert_eq!(
        ErrorType::DataBaseError { error: "locked".to_string() }.message(),
        "数据库错误: locked"
    );
    assert_eq!(ErrorType::UnableToParseCommand.message(), "无法解析命令");
    assert_eq!(
        ErrorType::EnvironmentVariablesUndefined { var: "BOT_NAME".to_string() }.message(),
        "环境变量未定义: BOT_NAME"
    );
    assert_eq!(
        ErrorType::UnableToCreateReqwestClient { error: "tls".to_string() }.message(),
        "无法创建 Reqwest 客户端: tls"
    );
    assert_eq!(
        ErrorType::JsonParseError { error: "eof".to_string() }.message(),
        "JSON 解析错误: eof"
    );
    assert_eq!(
        ErrorType::UnableToFindServerByUUID.message(),
        "找不到指定 UUID 的服务器，请检查是否在 Komari 后台新建机器后，未连接上报导致无数据"
    );
    assert_eq!(
        ErrorType::GeneralError { error: "x".to_string() }.message(),
        "发生错误: x"
    );
}

#[test]
fn request_error_masks_url() {
    let e = ErrorType::RequestError {
        error: "error sending request for url (https://example.com/secret/path)".to_string(),
    };
    assert_eq!(
        e.message(),
        "请求错误: error sending request for url (https://example.co***th)"
    );
}

fn config(level: &str) -> Config {
    Config {
        db_file: "db.sqlite".to_string(),
        telegram_token: "SECRET-REDACTED".to_string(),
        bot_name: "komaritgbot".to_string(),
        callback_http_listen: "0.0.0.0:8080".to_string(),
        callback_http_url: "https://hook.example".to_string(),
        log_level: level.to_string(),
        admin_id: 1,
    }
}

#[test]
fn log_levels() {
    assert_eq!(config("debug").level(), LogLevel::Debug);
    assert_eq!(config("info").level(), LogLevel::Info);
    assert_eq!(config("warn").level(), LogLevel::Warn);
    assert_eq!(config("error").level(), LogLevel::Error);
    assert_eq!(config("verbose").level(), LogLevel::Info);
}
