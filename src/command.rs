//! Chat commands and button payloads.
use vstd::prelude::*;
use vstd::string::*;

use crate::text::{int_text, push_nat};

verus! {

/// A command that a user sends to the bot.
#[derive(Debug, Clone, PartialEq)]
pub enum Command {
    Start,
    Help,
    Connect { http_url: String },
    Disconnect,
    Update,
    GetNodeId,
    TotalStatus,
    StatusId { node_id: i32 },
    Status { node_name: String },
    GenerateNotificationToken,
}

pub open spec fn is_ascii_digit(c: char) -> bool {
    48 <= (c as u32) <= 57
}

/// The value of a string of decimal digits.
pub open spec fn digits_value(s: Seq<char>) -> int
    decreases s.len(),
{
    if s.len() == 0 {
        0
    } else {
        10 * digits_value(s.drop_last()) + ((s.last() as u32) - 48)
    }
}

pub open spec fn all_digits(s: Seq<char>) -> bool {
    forall|i: int| 0 <= i < s.len() ==> is_ascii_digit(#[trigger] s[i])
}

/// `s` without a leading `+` or `-`.
pub open spec fn unsigned_part(s: Seq<char>) -> Seq<char> {
    if s.len() > 0 && (s[0] == '-' || s[0] == '+') {
        s.drop_first()
    } else {
        s
    }
}

/// The integer that `s` writes, as Rust's integer parsing reads it: an optional
/// `+` or `-`, then one or more ASCII digits; `None` for anything else or for a
/// value outside `min ..= max`.
pub open spec fn parse_int(s: Seq<char>, min: int, max: int) -> Option<int> {
    let body = unsigned_part(s);
    let v = if s.len() > 0 && s[0] == '-' {
        -digits_value(body)
    } else {
        digits_value(body)
    };
    if body.len() == 0 || !all_digits(body) {
        None
    } else if min <= v <= max {
        Some(v)
    } else {
        None
    }
}

proof fn lemma_digits_value_nonneg(s: Seq<char>)
    requires
        forall|i: int| 0 <= i < s.len() ==> is_ascii_digit(#[trigger] s[i]),
    ensures
        digits_value(s) >= 0,
    decreases s.len(),
{
    if s.len() > 0 {
        lemma_digits_value_nonneg(s.drop_last());
    }
}

/// Two to the 64th power: a bound above every `i64` magnitude.
const CAP: u128 = 0x10000000000000000;

/// Reads a signed decimal integer in `min ..= max`, as `parse_int` describes it.
pub fn parse_signed(s: &str, min: i64, max: i64) -> (r: Option<i64>)
    ensures
        r is Some <==> parse_int(s@, min as int, max as int) is Some,
        r is Some ==> r->Some_0 as int == parse_int(s@, min as int, max as int)->Some_0,
{
    let n = s.unicode_len();
    if n == 0 {
        return None;
    }
    let first = s.get_char(0);
    let neg = first == '-';
    let start: usize = if first == '-' || first == '+' {
        1
    } else {
        0
    };
    let ghost body = unsigned_part(s@);
    assert(body =~= s@.skip(start as int));
    if start == n {
        assert(body.len() == 0);
        return None;
    }
    let mut acc: u128 = 0;
    let mut i: usize = start;
    while i < n
        invariant
            start <= i <= n,
            n == s@.len(),
            body == unsigned_part(s@),
            body =~= s@.skip(start as int),
            acc <= CAP,
            forall|k: int| 0 <= k < i - start ==> is_ascii_digit(#[trigger] body[k]),
            acc == if digits_value(body.take(i - start)) < CAP {
                digits_value(body.take(i - start))
            } else {
                CAP as int
            },
        decreases n - i,
    {
        let c = s.get_char(i);
        let code = c as u32;
        if code < 48 || code > 57 {
            proof {
                assert(body[i - start] == c);
                assert(!is_ascii_digit(body[i - start]));
                assert(!all_digits(body));
            }
            return None;
        }
        let d = (code - 48) as u128;
        proof {
            let pre = body.take(i - start);
            let next = body.take(i - start + 1);
            assert(next.drop_last() =~= pre);
            assert(next.last() == c);
            assert(digits_value(next) == 10 * digits_value(pre) + d);
            lemma_digits_value_nonneg(pre);
        }
        let t = 10 * acc + d;
        acc = if t > CAP {
            CAP
        } else {
            t
        };
        i = i + 1;
    }
    assert(body.take(n - start) =~= body);
    assert(all_digits(body));
    proof {
        lemma_digits_value_nonneg(body);
    }
    let v: i128 = if neg {
        -(acc as i128)
    } else {
        acc as i128
    };
    if v < min as i128 || v > max as i128 {
        None
    } else {
        Some(v as i64)
    }
}

/// The pieces of a button payload "chat id-node number": the text before the
/// first `-` and the text between it and the next `-` (or the end).
pub open spec fn first_dash(s: Seq<char>, from: int) -> int
    decreases s.len() - from,
{
    if from >= s.len() {
        s.len() as int
    } else if s[from] == '-' {
        from
    } else {
        first_dash(s, from + 1)
    }
}

/// The chat id and node number that a button payload carries, if it is well formed.
pub open spec fn callback_target(s: Seq<char>) -> Option<(int, int)> {
    let d1 = first_dash(s, 0);
    let d2 = first_dash(s, d1 + 1);
    if d1 >= s.len() {
        None
    } else {
        match (
            parse_int(s.subrange(0, d1), i64::MIN as int, i64::MAX as int),
            parse_int(s.subrange(d1 + 1, d2), i32::MIN as int, i32::MAX as int),
        ) {
            (Some(a), Some(b)) => Some((a, b)),
            _ => None,
        }
    }
}

fn first_dash_exec(s: &str, from: usize) -> (r: usize)
    requires
        from <= s@.len(),
    ensures
        r == first_dash(s@, from as int),
        from <= r <= s@.len(),
{
    let n = s.unicode_len();
    let mut i = from;
    while i < n && s.get_char(i) != '-'
        invariant
            from <= i <= n,
            n == s@.len(),
            first_dash(s@, from as int) == first_dash(s@, i as int),
        decreases n - i,
    {
        i = i + 1;
    }
    i
}

/// Reads the chat id and the node number from a button payload.
pub fn parse_callback_data(data: &str) -> (r: Result<(i64, i32), String>)
    ensures
        r is Ok <==> callback_target(data@) is Some,
        r is Ok ==> r->Ok_0.0 as int == callback_target(data@)->Some_0.0 && r->Ok_0.1 as int
            == callback_target(data@)->Some_0.1,
        r is Err ==> r->Err_0@ == "Invalid callback data"@,
{
    let n = data.unicode_len();
    let d1 = first_dash_exec(data, 0);
    if d1 >= n {
        return Err(String::from_str("Invalid callback data"));
    }
    let d2 = first_dash_exec(data, d1 + 1);
    let chat = parse_signed(data.substring_char(0, d1), i64::MIN, i64::MAX);
    let node = parse_signed(data.substring_char(d1 + 1, d2), i32::MIN as i64, i32::MAX as i64);
    match (chat, node) {
        (Some(a), Some(b)) => Ok((a, b as i32)),
        _ => Err(String::from_str("Invalid callback data")),
    }
}

/// A character with the Unicode `White_Space` property, as `char::is_whitespace` reads it.
pub open spec fn is_unicode_space(c: char) -> bool {
    let u = c as u32;
    (9 <= u <= 13) || u == 32 || u == 0x85 || u == 0xA0 || u == 0x1680 || (0x2000 <= u
        <= 0x200A) || u == 0x2028 || u == 0x2029 || u == 0x202F || u == 0x205F || u == 0x3000
}

/// The words of `s` (maximal runs without white space), the word begun so far being `cur`.
pub open spec fn words_from(s: Seq<char>, cur: Seq<char>) -> Seq<Seq<char>>
    decreases s.len(),
{
    if s.len() == 0 {
        if cur.len() > 0 {
            seq![cur]
        } else {
            seq![]
        }
    } else if is_unicode_space(s[0]) {
        (if cur.len() > 0 {
            seq![cur]
        } else {
            seq![]
        }) + words_from(s.drop_first(), seq![])
    } else {
        words_from(s.drop_first(), cur.push(s[0]))
    }
}

/// The white-space separated words of `s`, as `str::split_whitespace` gives them.
pub open spec fn words(s: Seq<char>) -> Seq<Seq<char>> {
    words_from(s, seq![])
}

/// The index of the first `@` from `from` on, or the length of `s`.
pub open spec fn at_sign(s: Seq<char>, from: int) -> int
    decreases s.len() - from,
{
    if from >= s.len() {
        s.len() as int
    } else if s[from] == '@' {
        from
    } else {
        at_sign(s, from + 1)
    }
}

/// `a` and `b` are equal but for the case of ASCII letters.
pub open spec fn same_ignoring_ascii_case(a: Seq<char>, b: Seq<char>) -> bool {
    a.len() == b.len() && forall|i: int|
        0 <= i < a.len() ==> #[trigger] same_letter_ignoring_ascii_case(a[i], b[i])
}

/// `x` and `y` are the same character but for the case of an ASCII letter.
pub open spec fn same_letter_ignoring_ascii_case(x: char, y: char) -> bool {
    let u = x as u32;
    let v = y as u32;
    u == v || (65 <= u <= 90 && v == u + 32) || (65 <= v <= 90 && u == v + 32)
}

/// What `teloxide::utils::command::parse_command(text, bot_name)` returns: for text
/// that starts with `/`, the first word without its `/` cut at the first `@` is the
/// command and the other words are its arguments; where the first word names a bot
/// after `@` (up to a second `@`), it must be `bot_name` but for ASCII case, else there
/// is no command.
pub open spec fn command_parts(text: Seq<char>, bot_name: Seq<char>) -> Option<
    (Seq<char>, Seq<Seq<char>>),
> {
    if !(text.len() > 0 && text[0] == '/') {
        None
    } else {
        let ws = words(text);
        let body = ws[0].drop_first();
        let a = at_sign(body, 0);
        if a >= body.len() || same_ignoring_ascii_case(
            body.subrange(a + 1, at_sign(body, a + 1)),
            bot_name,
        ) {
            Some((body.take(a), ws.drop_first()))
        } else {
            None
        }
    }
}

/// Relies on teloxide::utils::command::parse_command: it splits "/cmd@bot a b" into
/// the command and its arguments as `command_parts` states.
#[verifier::external_body]
fn split_command(text: &str, bot_name: &str) -> (r: Option<(String, Vec<String>)>)
    ensures
        r is None <==> command_parts(text@, bot_name@) is None,
        r is Some ==> command_parts(text@, bot_name@) == Some(
            (r->Some_0.0@, r->Some_0.1@.map_values(|a: String| a@)),
        ),
{
    teloxide::utils::command::parse_command(text, bot_name).map(
        |(cmd, args)| (cmd.to_string(), args.into_iter().map(|a| a.to_string()).collect()),
    )
}

/// `s` without its trailing slashes.
pub open spec fn without_trailing_slashes(s: Seq<char>) -> Seq<char>
    decreases s.len(),
{
    if s.len() > 0 && s.last() == '/' {
        without_trailing_slashes(s.drop_last())
    } else {
        s
    }
}

/// The outcome of reading a command word with its arguments.
pub open spec fn command_outcome(
    cmd: Seq<char>,
    args: Seq<Seq<char>>,
    r: Result<Option<Command>, String>,
) -> bool {
    if cmd == "start"@ {
        r == Ok::<Option<Command>, String>(Some(Command::Start))
    } else if cmd == "help"@ {
        r == Ok::<Option<Command>, String>(Some(Command::Help))
    } else if cmd == "connect"@ {
        if args.len() == 0 {
            r is Err && r->Err_0@ == "缺少HTTP URL"@
        } else {
            r is Ok && r->Ok_0 is Some && r->Ok_0->Some_0 is Connect
                && r->Ok_0->Some_0->http_url@ == without_trailing_slashes(args[0])
        }
    } else if cmd == "disconnect"@ {
        r == Ok::<Option<Command>, String>(Some(Command::Disconnect))
    } else if cmd == "update"@ {
        r == Ok::<Option<Command>, String>(Some(Command::Update))
    } else if cmd == "get_node_id"@ {
        r == Ok::<Option<Command>, String>(Some(Command::GetNodeId))
    } else if cmd == "total_status"@ {
        r == Ok::<Option<Command>, String>(Some(Command::TotalStatus))
    } else if cmd == "status"@ {
        if args.len() == 0 {
            r == Ok::<Option<Command>, String>(Some(Command::StatusId { node_id: 1 }))
        } else {
            r is Ok && r->Ok_0 is Some && r->Ok_0->Some_0 is Status
                && r->Ok_0->Some_0->node_name@ == args[0]
        }
    } else if cmd == "status_id"@ {
        let wanted = if args.len() == 0 {
            1
        } else {
            match parse_int(args[0], i32::MIN as int, i32::MAX as int) {
                Some(v) => v,
                None => 1,
            }
        };
        r is Ok && r->Ok_0 is Some && r->Ok_0->Some_0 is StatusId && r->Ok_0->Some_0->node_id
            == wanted
    } else if cmd == "generate_notification_token"@ {
        r == Ok::<Option<Command>, String>(Some(Command::GenerateNotificationToken))
    } else {
        r == Ok::<Option<Command>, String>(None)
    }
}

fn is_word(s: &String, w: &str) -> (r: bool)
    ensures
        r == (s@ == w@),
{
    *s == String::from_str(w)
}

fn trim_trailing_slashes(s: &String) -> (r: String)
    ensures
        r@ == without_trailing_slashes(s@),
{
    let mut end = s.as_str().unicode_len();
    assert(s@.take(end as int) =~= s@);
    while end > 0 && s.as_str().get_char(end - 1) == '/'
        invariant
            end <= s@.len(),
            without_trailing_slashes(s@) == without_trailing_slashes(s@.take(end as int)),
        decreases end,
    {
        proof {
            assert(s@.take(end as int).drop_last() =~= s@.take(end - 1));
        }
        end = end - 1;
    }
    proof {
        if end > 0 {
            assert(s@.take(end as int).last() == s@[end - 1]);
        }
    }
    String::from_str(s.as_str().substring_char(0, end))
}

/// The command that a command word with its arguments names.
pub fn command_from_parts(cmd: &String, args: &Vec<String>) -> (r: Result<Option<Command>, String>)
    ensures
        command_outcome(cmd@, args@.map_values(|a: String| a@), r),
{
    let ghost views = args@.map_values(|a: String| a@);
    if is_word(cmd, "start") {
        Ok(Some(Command::Start))
    } else if is_word(cmd, "help") {
        Ok(Some(Command::Help))
    } else if is_word(cmd, "connect") {
        if args.len() == 0 {
            Err(String::from_str("缺少HTTP URL"))
        } else {
            assert(views[0] == args@[0]@);
            Ok(Some(Command::Connect { http_url: trim_trailing_slashes(&args[0]) }))
        }
    } else if is_word(cmd, "disconnect") {
        Ok(Some(Command::Disconnect))
    } else if is_word(cmd, "update") {
        Ok(Some(Command::Update))
    } else if is_word(cmd, "get_node_id") {
        Ok(Some(Command::GetNodeId))
    } else if is_word(cmd, "total_status") {
        Ok(Some(Command::TotalStatus))
    } else if is_word(cmd, "status") {
        if args.len() == 0 {
            Ok(Some(Command::StatusId { node_id: 1 }))
        } else {
            assert(views[0] == args@[0]@);
            Ok(Some(Command::Status { node_name: args[0].clone() }))
        }
    } else if is_word(cmd, "status_id") {
        if args.len() == 0 {
            Ok(Some(Command::StatusId { node_id: 1 }))
        } else {
            assert(views[0] == args@[0]@);
            let node_id = match parse_signed(args[0].as_str(), i32::MIN as i64, i32::MAX as i64) {
                Some(v) => v as i32,
                None => 1,
            };
            Ok(Some(Command::StatusId { node_id }))
        }
    } else if is_word(cmd, "generate_notification_token") {
        Ok(Some(Command::GenerateNotificationToken))
    } else {
        Ok(None)
    }
}

/// Reads a chat message as a command for the bot `bot_name`: `Ok(None)` for text that
/// is no command (or names another bot, or an unknown command), an error where
/// `/connect` lacks its URL.
pub fn parse(text: &str, bot_name: &str) -> (r: Result<Option<Command>, String>)
    ensures
        !(text@.len() > 0 && text@[0] == '/') ==> r == Ok::<Option<Command>, String>(None),
        text@.len() > 0 && text@[0] == '/' ==> match command_parts(text@, bot_name@) {
            None => r == Ok::<Option<Command>, String>(None),
            Some(parts) => command_outcome(parts.0, parts.1, r),
        },
{
    if text.unicode_len() == 0 || text.get_char(0) != '/' {
        return Ok(None);
    }
    match split_command(text, bot_name) {
        None => Ok(None),
        Some((cmd, args)) => command_from_parts(&cmd, &args),
    }
}

pub open spec fn opt_view(o: Option<String>) -> Option<Seq<char>> {
    match o {
        Some(s) => Some(s@),
        None => None,
    }
}

/// What `url::Url::parse` makes of `text`, taken apart into its scheme, host and
/// explicit port; or the text of the parse error.
pub uninterp spec fn url_parts_of(text: Seq<char>) -> Result<
    (Seq<char>, Option<Seq<char>>, Option<u16>),
    Seq<char>,
>;

/// Relies on reqwest::Url::parse (the url crate) and on Url::scheme, Url::host_str and
/// Url::port: the parsed URL's scheme, host and explicit port, or the error's text.
#[verifier::external_body]
fn url_parts(text: &str) -> (r: Result<(String, Option<String>, Option<u16>), String>)
    ensures
        r is Ok ==> url_parts_of(text@) == Ok::<(Seq<char>, Option<Seq<char>>, Option<u16>), Seq<char>>(
            (r->Ok_0.0@, opt_view(r->Ok_0.1), r->Ok_0.2),
        ),
        r is Err ==> url_parts_of(text@) == Err::<(Seq<char>, Option<Seq<char>>, Option<u16>), Seq<char>>(
            r->Err_0@,
        ),
{
    match reqwest::Url::parse(text) {
        Ok(url) => Ok((url.scheme().to_string(), url.host_str().map(|h| h.to_string()), url.port())),
        Err(e) => Err(e.to_string()),
    }
}

/// "scheme://host" with ":port" where a port is given; nothing without a host.
pub open spec fn base_url_text(scheme: Seq<char>, host: Option<Seq<char>>, port: Option<u16>) -> Option<
    Seq<char>,
> {
    match host {
        None => None,
        Some(h) => Some(
            scheme + "://"@ + h + match port {
                Some(p) => ":"@ + int_text(p as int),
                None => Seq::<char>::empty(),
            },
        ),
    }
}

/// The site address kept for a URL given to /connect: its scheme, host and port alone,
/// or the message that rejects it.
pub open spec fn monitor_url_result(text: Seq<char>) -> Result<Seq<char>, Seq<char>> {
    match url_parts_of(text) {
        Err(e) => Err("无效的 URL: "@ + e),
        Ok(parts) => match base_url_text(parts.0, parts.1, parts.2) {
            None => Err("无效的 URL"@),
            Some(u) => Ok(u),
        },
    }
}

/// Builds "scheme://host[:port]" from the parts of a parsed URL.
pub fn base_url_from_parts(scheme: &str, host: Option<&str>, port: Option<u16>) -> (r: Option<String>)
    ensures
        r is Some <==> host is Some,
        r is Some ==> base_url_text(scheme@, Some(host->Some_0@), port) == Some(r->Some_0@),
{
    match host {
        None => None,
        Some(h) => {
            let mut s = String::from_str(scheme);
            s.append("://");
            s.append(h);
            match port {
                Some(p) => {
                    s.append(":");
                    push_nat(&mut s, p as u128);
                },
                None => {
                    assert(s@ =~= s@ + Seq::<char>::empty());
                },
            }
            Some(s)
        },
    }
}

/// The site address for a URL given to /connect, as `monitor_url_result` describes it.
pub fn monitor_base_url(http_url: &str) -> (r: Result<String, String>)
    ensures
        r is Ok <==> monitor_url_result(http_url@) is Ok,
        r is Ok ==> r->Ok_0@ == monitor_url_result(http_url@)->Ok_0,
        r is Err ==> r->Err_0@ == monitor_url_result(http_url@)->Err_0,
{
    match url_parts(http_url) {
        Err(e) => {
            let mut msg = String::from_str("无效的 URL: ");
            msg.append(e.as_str());
            Err(msg)
        },
        Ok((scheme, host, port)) => {
            let h = match &host {
                Some(h) => Some(h.as_str()),
                None => None,
            };
            match base_url_from_parts(scheme.as_str(), h, port) {
                Some(u) => Ok(u),
                None => Err(String::from_str("无效的 URL")),
            }
        },
    }
}

} // verus!
