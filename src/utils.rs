//! Error texts, URL masking, MarkdownV2 escaping and the bot's settings.
use vstd::prelude::*;
use vstd::string::*;

use crate::text::push_char;

verus! {

/// The characters that MarkdownV2 wants escaped, in the order they are escaped.
pub open spec fn is_markdown_special(c: char) -> bool {
    c == '.' || c == '-' || c == '|' || c == '(' || c == ')' || c == '#' || c == '+' || c == '='
        || c == '{' || c == '}' || c == '[' || c == ']' || c == '_' || c == '>' || c == '<'
        || c == '&' || c == '!'
}

/// `s` with a backslash put before every MarkdownV2 special character.
pub open spec fn escaped_text(s: Seq<char>) -> Seq<char>
    decreases s.len(),
{
    if s.len() == 0 {
        Seq::<char>::empty()
    } else if is_markdown_special(s.last()) {
        escaped_text(s.drop_last()).push('\\').push(s.last())
    } else {
        escaped_text(s.drop_last()).push(s.last())
    }
}

/// Escapes the characters that MarkdownV2 treats as markup; backquotes and `*` stay.
pub fn msg_fixer(msg: String) -> (r: String)
    ensures
        r@ == escaped_text(msg@),
{
    let n = msg.as_str().unicode_len();
    let mut out = String::new();
    let mut i: usize = 0;
    while i < n
        invariant
            i <= n,
            n == msg@.len(),
            out@ == escaped_text(msg@.take(i as int)),
        decreases n - i,
    {
        let c = msg.as_str().get_char(i);
        proof {
            assert(msg@.take(i + 1).drop_last() =~= msg@.take(i as int));
            assert(msg@.take(i + 1).last() == c);
        }
        if c == '.' || c == '-' || c == '|' || c == '(' || c == ')' || c == '#' || c == '+' || c
            == '=' || c == '{' || c == '}' || c == '[' || c == ']' || c == '_' || c == '>' || c
            == '<' || c == '&' || c == '!' {
            push_char(&mut out, '\\');
        }
        push_char(&mut out, c);
        i = i + 1;
    }
    proof {
        assert(msg@.take(n as int) =~= msg@);
    }
    out
}

/// The index of the first "://" from `from` on.
pub open spec fn scheme_end(s: Seq<char>, from: int) -> Option<int>
    decreases s.len() - from,
{
    if from + 3 > s.len() {
        None
    } else if s[from] == ':' && s[from + 1] == '/' && s[from + 2] == '/' {
        Some(from)
    } else {
        scheme_end(s, from + 1)
    }
}

/// A URL with most of it hidden: the scheme and "://", then the first ten and last
/// three characters of the rest around "***" where the rest is longer than thirteen
/// characters, else "***" alone.
pub open spec fn masked_url(url: Seq<char>) -> Seq<char> {
    match scheme_end(url, 0) {
        None => "***"@,
        Some(p) => {
            let rest = url.subrange(p + 3, url.len() as int);
            if rest.len() > 13 {
                url.subrange(0, p + 3) + rest.subrange(0, 10) + "***"@ + rest.subrange(
                    rest.len() - 3,
                    rest.len() as int,
                )
            } else {
                url.subrange(0, p + 3) + "***"@
            }
        },
    }
}

/// Masks one URL as `masked_url` describes it.
pub fn mask_one_url(url: &str) -> (r: String)
    ensures
        r@ == masked_url(url@),
{
    let n = url.unicode_len();
    let mut p: usize = 0;
    while n - p >= 3 && !(url.get_char(p) == ':' && url.get_char(p + 1) == '/' && url.get_char(
        p + 2,
    ) == '/')
        invariant
            p <= n,
            n == url@.len(),
            scheme_end(url@, 0) == scheme_end(url@, p as int),
        decreases n - p,
    {
        p = p + 1;
    }
    if n - p < 3 {
        return String::from_str("***");
    }
    let mut s = String::from_str(url.substring_char(0, p + 3));
    let rest = url.substring_char(p + 3, n);
    let rl = n - (p + 3);
    if rl > 13 {
        s.append(rest.substring_char(0, 10));
        s.append("***");
        s.append(rest.substring_char(rl - 3, rl));
    } else {
        s.append("***");
    }
    s
}

/// What `regex::Regex::new(pattern)` followed by `replace_all(text, ..)` returns when
/// every match is replaced by `mask_one_url` of it; `None` where the pattern does not compile.
pub uninterp spec fn urls_masked(pattern: Seq<char>, text: Seq<char>) -> Option<Seq<char>>;

/// Relies on regex::Regex::new and regex::Regex::replace_all: the pattern is compiled, and
/// each leftmost-first, non-overlapping match in `text` is replaced by the masked match.
#[verifier::external_body]
fn replace_urls(pattern: &str, text: &str) -> (r: Option<String>)
    ensures
        r is None <==> urls_masked(pattern@, text@) is None,
        r is Some ==> urls_masked(pattern@, text@) == Some(r->Some_0@),
{
    regex::Regex::new(pattern).ok().map(
        |re| re.replace_all(text, |caps: &regex::Captures| mask_one_url(&caps[0])).to_string(),
    )
}

/// The pattern of a URL in an error text: "http://" or "https://" and what follows up to
/// white space.
pub open spec fn url_pattern() -> Seq<char> {
    "https?://[^\\s]+"@
}

/// `text` with each URL in it masked.
pub open spec fn mask_url_text(text: Seq<char>) -> Seq<char> {
    match urls_masked(url_pattern(), text) {
        Some(m) => m,
        None => text,
    }
}

/// Masks every URL in `text`, so that error texts do not show monitored sites.
pub fn mask_url(text: &str) -> (r: String)
    ensures
        r@ == mask_url_text(text@),
{
    match replace_urls("https?://[^\\s]+", text) {
        Some(m) => m,
        None => String::from_str(text),
    }
}

pub type ErrorString = String;

/// The failures that a command can report.
#[derive(Debug, Clone, PartialEq)]
pub enum ErrorType {
    UserNotConnected,
    DataBaseError { error: ErrorString },
    UnableToParseCommand,
    EnvironmentVariablesUndefined { var: String },
    UnableToCreateReqwestClient { error: ErrorString },
    RequestError { error: ErrorString },
    JsonParseError { error: ErrorString },
    UnableToFindServerByUUID,
    GeneralError { error: ErrorString },
}

/// The text shown to the user for an error; request errors have their URLs masked.
pub open spec fn error_text(e: ErrorType) -> Seq<char> {
    match e {
        ErrorType::UserNotConnected => "未连接 Komari，请使用 /connect [KOMARI_HTTP_URL] 连接"@,
        ErrorType::DataBaseError { error } => "数据库错误: "@ + error@,
        ErrorType::UnableToParseCommand => "无法解析命令"@,
        ErrorType::EnvironmentVariablesUndefined { var } => "环境变量未定义: "@ + var@,
        ErrorType::UnableToCreateReqwestClient { error } => "无法创建 Reqwest 客户端: "@ + error@,
        ErrorType::RequestError { error } => "请求错误: "@ + mask_url_text(error@),
        ErrorType::JsonParseError { error } => "JSON 解析错误: "@ + error@,
        ErrorType::UnableToFindServerByUUID =>
            "找不到指定 UUID 的服务器，请检查是否在 Komari 后台新建机器后，未连接上报导致无数据"@,
        ErrorType::GeneralError { error } => "发生错误: "@ + error@,
    }
}

impl ErrorType {
    /// The text shown to the user, as `error_text` gives it.
    pub fn message(&self) -> (r: String)
        ensures
            r@ == error_text(*self),
    {
        match self {
            ErrorType::UserNotConnected => String::from_str(
                "未连接 Komari，请使用 /connect [KOMARI_HTTP_URL] 连接",
            ),
            ErrorType::DataBaseError { error } => {
                let mut s = String::from_str("数据库错误: ");
                s.append(error.as_str());
                s
            },
            ErrorType::UnableToParseCommand => String::from_str("无法解析命令"),
            ErrorType::EnvironmentVariablesUndefined { var } => {
                let mut s = String::from_str("环境变量未定义: ");
                s.append(var.as_str());
                s
            },
            ErrorType::UnableToCreateReqwestClient { error } => {
                let mut s = String::from_str("无法创建 Reqwest 客户端: ");
                s.append(error.as_str());
                s
            },
            ErrorType::RequestError { error } => {
                let mut s = String::from_str("请求错误: ");
                s.append(mask_url(error.as_str()).as_str());
                s
            },
            ErrorType::JsonParseError { error } => {
                let mut s = String::from_str("JSON 解析错误: ");
                s.append(error.as_str());
                s
            },
            ErrorType::UnableToFindServerByUUID => String::from_str(
                "找不到指定 UUID 的服务器，请检查是否在 Komari 后台新建机器后，未连接上报导致无数据",
            ),
            ErrorType::GeneralError { error } => {
                let mut s = String::from_str("发生错误: ");
                s.append(error.as_str());
                s
            },
        }
    }
}

/// The bot's settings, read from its configuration file.
#[derive(Debug, Clone, PartialEq)]
pub struct Config {
    pub db_file: String,
    pub telegram_token: String,
    pub bot_name: String,
    pub callback_http_listen: String,
    pub callback_http_url: String,
    pub log_level: String,
    pub admin_id: i64,
}

/// How much the bot logs.
#[derive(Debug, Clone, Copy, PartialEq, Eq)]
pub enum LogLevel {
    Debug,
    Info,
    Warn,
    Error,
}

/// The level a configured name selects: "debug", "warn" and "error" select theirs,
/// anything else selects `Info`.
pub open spec fn log_level_of(name: Seq<char>) -> LogLevel {
    if name == "debug"@ {
        LogLevel::Debug
    } else if name == "warn"@ {
        LogLevel::Warn
    } else if name == "error"@ {
        LogLevel::Error
    } else {
        LogLevel::Info
    }
}

impl Config {
    /// The log level that `log_level` names.
    pub fn level(&self) -> (r: LogLevel)
        ensures
            r == log_level_of(self.log_level@),
    {
        if self.log_level == String::from_str("debug") {
            LogLevel::Debug
        } else if self.log_level == String::from_str("warn") {
            LogLevel::Warn
        } else if self.log_level == String::from_str("error") {
            LogLevel::Error
        } else {
            LogLevel::Info
        }
    }
}

} // verus!
