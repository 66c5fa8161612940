//! The helper inside the desktop: what it is asked, and what it answers.
use crate::number::decimal;
use crate::screenshot::desktop::Input;
use crate::screenshot::ToolRun;
use crate::text::{cat2, cat3, cat5, join, lossy, owned, trim};
use crate::time::Duration;
use crate::{number, text};
use vstd::prelude::*;

verus! {

// ---------------------------------------------------------------------------
// JSON

/// What `serde_json` says of bytes that are not JSON; nothing of bytes that are.
pub uninterp spec fn json_fault(bytes: Seq<u8>) -> Option<Seq<char>>;

/// The truth value that stands at a pointer in JSON, if one stands there.
pub uninterp spec fn json_bool(bytes: Seq<u8>, pointer: Seq<char>) -> Option<bool>;

/// The integer that stands at a pointer in JSON, if one stands there.
pub uninterp spec fn json_integer(bytes: Seq<u8>, pointer: Seq<char>) -> Option<i64>;

/// The string that stands at a pointer in JSON, if one stands there.
pub uninterp spec fn json_string(bytes: Seq<u8>, pointer: Seq<char>) -> Option<Seq<char>>;

/// What stands at a pointer in JSON, written as JSON, if something stands there.
pub uninterp spec fn json_part(bytes: Seq<u8>, pointer: Seq<char>) -> Option<Seq<char>>;

/// A text as a JSON string.
pub uninterp spec fn json_quoted(plain: Seq<char>) -> Seq<char>;

/// `serde_json::from_slice` on bytes that may be JSON: its error, where it refuses them, depends
/// on the bytes alone.
#[verifier::external_body]
fn check_json(bytes: &[u8]) -> (out: Option<String>)
    ensures
        text::option_view(out) == json_fault(bytes@),
{
    match serde_json::from_slice::<serde_json::Value>(bytes) {
        Ok(_) => None,
        Err(error) => Some(error.to_string()),
    }
}

/// `Value::pointer` and `as_bool` of `serde_json`: what stands at a pointer depends on the bytes
/// and the pointer alone.
#[verifier::external_body]
fn bool_at(bytes: &[u8], pointer: &str) -> (out: Option<bool>)
    ensures
        out == json_bool(bytes@, pointer@),
{
    let value = serde_json::from_slice::<serde_json::Value>(bytes).ok()?;
    value.pointer(pointer)?.as_bool()
}

/// `Value::pointer` and `as_i64` of `serde_json`: what stands at a pointer depends on the bytes
/// and the pointer alone.
#[verifier::external_body]
fn integer_at(bytes: &[u8], pointer: &str) -> (out: Option<i64>)
    ensures
        out == json_integer(bytes@, pointer@),
{
    let value = serde_json::from_slice::<serde_json::Value>(bytes).ok()?;
    value.pointer(pointer)?.as_i64()
}

/// `Value::pointer` and `as_str` of `serde_json`: what stands at a pointer depends on the bytes
/// and the pointer alone.
#[verifier::external_body]
fn string_at(bytes: &[u8], pointer: &str) -> (out: Option<String>)
    ensures
        text::option_view(out) == json_string(bytes@, pointer@),
{
    let value = serde_json::from_slice::<serde_json::Value>(bytes).ok()?;
    Some(value.pointer(pointer)?.as_str()?.to_string())
}

/// `Value::pointer` of `serde_json`, and the compact form in which it displays a value: both
/// depend on the bytes and the pointer alone.
#[verifier::external_body]
fn part_at(bytes: &[u8], pointer: &str) -> (out: Option<String>)
    ensures
        text::option_view(out) == json_part(bytes@, pointer@),
{
    let value = serde_json::from_slice::<serde_json::Value>(bytes).ok()?;
    Some(value.pointer(pointer)?.to_string())
}

/// The form in which `serde_json` displays a string: it depends on the string alone.
#[verifier::external_body]
fn quoted(plain: &str) -> (out: String)
    ensures
        out@ == json_quoted(plain@),
{
    serde_json::Value::from(plain).to_string()
}

// ---------------------------------------------------------------------------
// Requests

/// What the helper is asked.
#[derive(Debug)]
pub enum Request {
    Ping,
    Windows,
    Resize { window: u64, width: u32, height: u32 },
    Capture { window: u64, path: String },
    Input { window: u64, input: Input },
}

/// Whole numbers with commas between them.
pub open spec fn listed(values: Seq<u32>) -> Seq<char> {
    text::join_seq(Seq::new(values.len(), |i: int| number::decimal_seq(values[i] as nat)), ","@)
}

/// A number of halves.
pub open spec fn halves(count: nat) -> Seq<char> {
    number::decimal_seq(count / 2) + if count % 2 == 0 {
        ".0"@
    } else {
        ".5"@
    }
}

/// The fields of a request that follow its action, in the order of their names.
pub open spec fn request_fields(request: Request, app_id: Seq<char>) -> Seq<char> {
    let app = ",\"app_id\":"@ + json_quoted(app_id);
    match request {
        Request::Ping => Seq::empty(),
        Request::Windows => Seq::empty(),
        Request::Resize { window, width, height } => app + ",\"height\":"@ + number::decimal_seq(
            height as nat,
        ) + ",\"width\":"@ + number::decimal_seq(width as nat) + ",\"window\":"@
            + number::decimal_seq(window as nat),
        Request::Capture { window, path } => app + ",\"path\":"@ + json_quoted(path@)
            + ",\"window\":"@ + number::decimal_seq(window as nat),
        Request::Input { window, input } => match input {
            Input::Click { x, y } => app + ",\"window\":"@ + number::decimal_seq(window as nat)
                + ",\"x\":"@ + halves(x as nat) + ",\"y\":"@ + halves(y as nat),
            Input::Key(keys) => app + ",\"keys\":["@ + listed(keys@) + "],\"window\":"@
                + number::decimal_seq(window as nat),
            Input::Text(typed) => app + ",\"text\":"@ + json_quoted(typed@) + ",\"window\":"@
                + number::decimal_seq(window as nat),
        },
    }
}

/// What a request asks for.
pub open spec fn request_action(request: Request) -> Seq<char> {
    match request {
        Request::Ping => "ping"@,
        Request::Windows => "windows"@,
        Request::Resize { .. } => "resize"@,
        Request::Capture { .. } => "capture"@,
        Request::Input { input, .. } => match input {
            Input::Click { .. } => "click"@,
            Input::Key(_) => "key"@,
            Input::Text(_) => "type_text"@,
        },
    }
}

/// A request as JSON.
pub open spec fn request_json(request: Request, app_id: Seq<char>) -> Seq<char> {
    "{\"action\":\""@ + request_action(request) + "\""@ + request_fields(request, app_id) + "}"@
}

/// A click lies on the window's side of its upper left corner.
pub open spec fn input_wf(input: Input) -> bool {
    input matches Input::Click { x, y } ==> x >= 0 && y >= 0
}

fn halves_text(count: i32) -> (out: String)
    requires
        count >= 0,
    ensures
        out@ == halves(count as nat),
{
    cat2(
        decimal((count / 2) as u128).as_str(),
        if count % 2 == 0 {
            ".0"
        } else {
            ".5"
        },
    )
}

fn list_text(values: &Vec<u32>) -> (out: String)
    ensures
        out@ == listed(values@),
{
    let mut parts: Vec<String> = Vec::new();
    let mut i: usize = 0;
    while i < values.len()
        invariant
            i <= values@.len(),
            parts@.len() == i,
            forall|k: int|
                0 <= k < i ==> (#[trigger] parts@[k])@ == number::decimal_seq(values@[k] as nat),
        decreases values@.len() - i,
    {
        parts.push(decimal(values[i] as u128));
        i = i + 1;
    }
    assert(text::views(parts@) =~= Seq::new(
        values@.len(),
        |k: int| number::decimal_seq(values@[k] as nat),
    ));
    join(&parts, ",")
}

impl Request {
    pub open spec fn wf(&self) -> bool {
        *self matches Request::Input { input, .. } ==> input_wf(input)
    }

    fn action(&self) -> (out: &'static str)
        ensures
            out@ == request_action(*self),
    {
        match self {
            Request::Ping => "ping",
            Request::Windows => "windows",
            Request::Resize { .. } => "resize",
            Request::Capture { .. } => "capture",
            Request::Input { input, .. } => match input {
                Input::Click { .. } => "click",
                Input::Key(_) => "key",
                Input::Text(_) => "type_text",
            },
        }
    }

    fn fields(&self, app_id: &str) -> (out: String)
        requires
            self.wf(),
        ensures
            out@ == request_fields(*self, app_id@),
    {
        let app = cat2(",\"app_id\":", quoted(app_id).as_str());
        match self {
            Request::Ping => String::new(),
            Request::Windows => String::new(),
            Request::Resize { window, width, height } => {
                let size = cat5(
                    app.as_str(),
                    ",\"height\":",
                    decimal(*height as u128).as_str(),
                    ",\"width\":",
                    decimal(*width as u128).as_str(),
                );
                cat3(size.as_str(), ",\"window\":", decimal(*window as u128).as_str())
            },
            Request::Capture { window, path } => cat5(
                app.as_str(),
                ",\"path\":",
                quoted(path.as_str()).as_str(),
                ",\"window\":",
                decimal(*window as u128).as_str(),
            ),
            Request::Input { window, input } => {
                let id = decimal(*window as u128);
                match input {
                    Input::Click { x, y } => {
                        let head = cat3(app.as_str(), ",\"window\":", id.as_str());
                        cat5(
                            head.as_str(),
                            ",\"x\":",
                            halves_text(*x).as_str(),
                            ",\"y\":",
                            halves_text(*y).as_str(),
                        )
                    },
                    Input::Key(keys) => cat5(
                        app.as_str(),
                        ",\"keys\":[",
                        list_text(keys).as_str(),
                        "],\"window\":",
                        id.as_str(),
                    ),
                    Input::Text(typed) => cat5(
                        app.as_str(),
                        ",\"text\":",
                        quoted(typed.as_str()).as_str(),
                        ",\"window\":",
                        id.as_str(),
                    ),
                }
            },
        }
    }

    /// The request as JSON, for the windows of an app.
    pub fn to_json(&self, app_id: &str) -> (out: String)
        requires
            self.wf(),
        ensures
            out@ == request_json(*self, app_id@),
    {
        cat5("{\"action\":\"", self.action(), "\"", self.fields(app_id).as_str(), "}")
    }
}

/// How long the helper may take, in milliseconds, as it is told: at least one, and no more than
/// it can count.
pub fn helper_timeout(left: Duration) -> (out: String)
    ensures
        out@ == number::decimal_seq(
            ({
                let count = left@ / 1_000_000;
                if count < 1 {
                    1nat
                } else if count > 2147483647 {
                    2147483647nat
                } else {
                    count
                }
            }),
        ),
{
    let count: u128 = left.as_millis();
    if count < 1 {
        decimal(1)
    } else if count > 2147483647 {
        decimal(2147483647)
    } else {
        decimal(count)
    }
}

// ---------------------------------------------------------------------------
// Replies

/// Why the helper gave no result: in a few words, and with the cause.
#[derive(Debug)]
pub struct HelperError {
    pub brief: String,
    pub message: String,
}

/// Why a reply brings no result: in a few words, and with the cause.
pub open spec fn reply_fault(run: Result<ToolRun, String>) -> Option<(Seq<char>, Seq<char>)> {
    match run {
        Err(error) => Some((error@, error@)),
        Ok(done) => {
            let bytes = done.stdout@;
            if !done.success {
                let told = "desktop helper failed: "@ + text::trimmed(
                    text::utf8_lossy(done.stderr@),
                );
                Some((told, told))
            } else if json_fault(bytes) is Some {
                Some(
                    (
                        "invalid desktop helper response"@,
                        "invalid desktop helper response: "@ + json_fault(bytes)->0,
                    ),
                )
            } else if json_bool(bytes, "/ok"@) != Some(true) {
                let told = "desktop helper: "@ + match json_string(bytes, "/error"@) {
                    Some(error) => error,
                    None => "unknown error"@,
                };
                Some((told, told))
            } else {
                None
            }
        },
    }
}

fn helper_error(message: String) -> (out: HelperError)
    ensures
        out.brief@ == message@,
        out.message@ == message@,
{
    HelperError { brief: owned(message.as_str()), message }
}

/// The bytes of a reply that brings a result.
pub fn reply(run: Result<ToolRun, String>) -> (out: Result<Vec<u8>, HelperError>)
    ensures
        match reply_fault(run) {
            Some((brief, message)) => out matches Err(error) && error.brief@ == brief
                && error.message@ == message,
            None => out matches Ok(bytes) && bytes == run->Ok_0.stdout,
        },
{
    let done = match run {
        Ok(done) => done,
        Err(error) => return Err(helper_error(error)),
    };
    if !done.success {
        return Err(
            helper_error(
                cat2("desktop helper failed: ", trim(lossy(&done.stderr).as_str()).as_str()),
            ),
        );
    }
    match check_json(&done.stdout) {
        Some(fault) => {
            return Err(
                HelperError {
                    brief: owned("invalid desktop helper response"),
                    message: cat2("invalid desktop helper response: ", fault.as_str()),
                },
            );
        },
        None => {},
    }
    let accepted = match bool_at(&done.stdout, "/ok") {
        Some(true) => true,
        _ => false,
    };
    if !accepted {
        let cause = match string_at(&done.stdout, "/error") {
            Some(error) => error,
            None => owned("unknown error"),
        };
        return Err(helper_error(cat2("desktop helper: ", cause.as_str())));
    }
    Ok(done.stdout)
}

/// The result that a reply brings, written as JSON; `null` where it brings none.
pub fn result_json(bytes: &[u8]) -> (out: String)
    ensures
        out@ == match json_part(bytes@, "/result"@) {
            Some(part) => part,
            None => "null"@,
        },
{
    match part_at(bytes, "/result") {
        Some(part) => part,
        None => owned("null"),
    }
}

/// What a ping led to.
#[derive(Debug)]
pub enum Ping {
    /// The helper is there; this is the desktop's version.
    Ready { version: String },
    /// It does not answer yet.
    Retry { error: HelperError },
    /// It cannot be used.
    Refused { message: String },
}

/// What a ping's answer means. The protocol and the version are those that the result names.
pub fn answered(protocol: Option<i64>, version: Option<String>) -> (out: Ping)
    ensures
        protocol != Some(1i64) ==> (out matches Ping::Refused { message } && message@
            == "unsupported desktop helper protocol"@),
        protocol == Some(1i64) ==> match version {
            Some(version) => out == (Ping::Ready { version }),
            None => out matches Ping::Refused { message } && message@
                == "desktop did not report version"@,
        },
{
    match protocol {
        Some(1) => match version {
            Some(version) => Ping::Ready { version },
            None => Ping::Refused { message: owned("desktop did not report version") },
        },
        _ => Ping::Refused { message: owned("unsupported desktop helper protocol") },
    }
}

/// What a ping led to.
pub fn ping(run: Result<ToolRun, String>) -> (out: Ping)
    ensures
        match reply_fault(run) {
            Some((brief, message)) => out matches Ping::Retry { error } && error.brief@ == brief
                && error.message@ == message,
            None => {
                let bytes = run->Ok_0.stdout@;
                if json_integer(bytes, "/result/protocol"@) != Some(1i64) {
                    out matches Ping::Refused { message } && message@
                        == "unsupported desktop helper protocol"@
                } else {
                    match json_string(bytes, "/result/version"@) {
                        Some(expected) => out matches Ping::Ready { version } && version@
                            == expected,
                        None => out matches Ping::Refused { message } && message@
                            == "desktop did not report version"@,
                    }
                }
            },
        },
{
    match reply(run) {
        Err(error) => Ping::Retry { error },
        Ok(bytes) => answered(
            integer_at(&bytes, "/result/protocol"),
            string_at(&bytes, "/result/version"),
        ),
    }
}

} // verus!
