//! The bootstrap of a remote window: the script that connects the window
//! to the relay hub, and the plan for opening the window.
//!
//! The script opens a WebSocket to the hub's port, registers under the
//! window's label as soon as the socket is open, offers `window.RemoteAPI`
//! to the page (messages sent while the socket is down are queued and sent
//! on connect), hands every message of the hub to the page as a
//! `remote-message` event, and connects again three seconds after the
//! socket is closed, for as long as the window lives.

use crate::relay::RemoteServiceState;
use crate::text::{chars_of, join, push_char};
use vstd::prelude::*;
use vstd::string::{StrSliceExecFns, StringExecFns};

verus! {

/// The script up to the number of the port.
pub const SCRIPT_HEAD: &'static str = "
    (function() {
        const PORT = ";

/// The script between the port and the label.
pub const SCRIPT_LABEL: &'static str = ";
        const LABEL = \"";

/// The script between the label and the caller's own script.
pub const SCRIPT_BODY: &'static str = "\";
        let ws = null;
        let queue = [];

        function connect() {
            console.log('[RemoteBridge] Connecting to port ' + PORT);
            ws = new WebSocket('ws://127.0.0.1:' + PORT);

            ws.onopen = () => {
                console.log('[RemoteBridge] Connected');
                ws.send(JSON.stringify({ type: 'register', label: LABEL }));
                while(queue.length > 0) {
                    ws.send(queue.shift());
                }
            };

            ws.onmessage = (e) => {
                try {
                    const data = JSON.parse(e.data);
                    const event = new CustomEvent('remote-message', { detail: data });
                    window.dispatchEvent(event);
                } catch(e) {}
            };

            ws.onclose = () => {
                console.log('[RemoteBridge] Disconnected, retrying in 3s...');
                setTimeout(connect, 3000);
            };
        }

        window.RemoteAPI = {
            send: (data) => {
                const payload = JSON.stringify(data);
                if (ws && ws.readyState === 1) {
                    ws.send(payload);
                } else {
                    queue.push(payload);
                }
            },
            label: LABEL
        };

        connect();
    })();

    ";

/// The end of the script, behind the caller's own script.
pub const SCRIPT_TAIL: &'static str = "
    ";

/// The title of a remote window.
pub const WINDOW_TITLE: &'static str = "Remote Service";

/// The digits of numbers written to base ten or sixteen.
pub const DIGITS: &'static str = "0123456789abcdef";

/// The digit that stands for `n`, for `n` below sixteen.
pub open spec fn digit(n: int) -> char {
    DIGITS@[n]
}

/// The number `n` written to base ten.
pub open spec fn decimal(n: nat) -> Seq<char>
    decreases n,
{
    if n < 10 {
        seq![digit(n as int)]
    } else {
        decimal(n / 10).push(digit((n % 10) as int))
    }
}

/// Whether `c` cannot stand for itself between the quotes of a string
/// literal of the script: the quote, the backslash, a control character or
/// a line or paragraph separator.
pub open spec fn needs_escape(c: char) -> bool {
    let u = c as u32;
    u == 0x22 || u == 0x5c || u < 0x20 || u == 0x7f || u == 0x2028 || u == 0x2029
}

/// What stands for `c` between the quotes: `c` itself, or a backslash, a
/// `u` and the code of `c` in four hexadecimal digits.
pub open spec fn escaped_char(c: char) -> Seq<char> {
    if needs_escape(c) {
        let u = c as u32 as int;
        seq![
            '\\',
            'u',
            digit(u / 4096 % 16),
            digit(u / 256 % 16),
            digit(u / 16 % 16),
            digit(u % 16),
        ]
    } else {
        seq![c]
    }
}

/// The text `s` as it stands between the quotes of a string literal.
pub open spec fn escaped(s: Seq<char>) -> Seq<char>
    decreases s.len(),
{
    if s.len() == 0 {
        Seq::empty()
    } else {
        escaped(s.drop_last()) + escaped_char(s.last())
    }
}

/// The script that a caller adds: the text given with the call, then, on
/// a line of its own, the text of the script file.
pub open spec fn user_script_text(content: Option<String>, file: Option<String>) -> Seq<char> {
    let first = match content {
        Some(text) => text@,
        None => Seq::empty(),
    };
    match file {
        Some(text) => first + "\n"@ + text@,
        None => first,
    }
}

/// The bootstrap script of the window `label` for a hub on `port`,
/// followed by the caller's own script.
pub open spec fn bootstrap_text(port: u16, label: Seq<char>, user_script: Seq<char>) -> Seq<char> {
    SCRIPT_HEAD@ + decimal(port as nat) + SCRIPT_LABEL@ + escaped(label) + SCRIPT_BODY@
        + user_script + SCRIPT_TAIL@
}

fn digit_of(n: u16) -> (c: char)
    requires
        n < 16,
    ensures
        c == digit(n as int),
{
    proof {
        reveal_strlit("0123456789abcdef");
    }
    DIGITS.get_char(n as usize)
}

fn push_decimal(out: &mut String, n: u16)
    ensures
        final(out)@ == old(out)@ + decimal(n as nat),
    decreases n,
{
    if n < 10 {
        push_char(out, digit_of(n));
    } else {
        push_decimal(out, n / 10);
        push_char(out, digit_of(n % 10));
    }
}

fn push_escaped_char(out: &mut String, c: char)
    ensures
        final(out)@ == old(out)@ + escaped_char(c),
{
    let u: u32 = c as u32;
    if u == 0x22 || u == 0x5c || u < 0x20 || u == 0x7f || u == 0x2028 || u == 0x2029 {
        let v: u16 = u as u16;
        push_char(out, '\\');
        push_char(out, 'u');
        push_char(out, digit_of(v / 4096 % 16));
        push_char(out, digit_of(v / 256 % 16));
        push_char(out, digit_of(v / 16 % 16));
        push_char(out, digit_of(v % 16));
    } else {
        push_char(out, c);
    }
}

/// Writes `label` as it has to stand between the quotes of a string
/// literal of the script.
pub fn escape_label(label: &str) -> (out: String)
    ensures
        out@ == escaped(label@),
{
    let v = chars_of(label);
    let mut out = String::new();
    let mut i: usize = 0;
    while i < v.len()
        invariant
            i <= v.len(),
            v@ == label@,
            out@ == escaped(v@.take(i as int)),
        decreases v.len() - i,
    {
        push_escaped_char(&mut out, v[i]);
        i += 1;
        assert(v@.take(i as int).drop_last() == v@.take(i - 1));
    }
    assert(v@.take(v.len() as int) == v@);
    out
}

/// The script that a caller adds to the bootstrap.
pub fn compose_user_script(content: Option<String>, file: Option<String>) -> (script: String)
    ensures
        script@ == user_script_text(content, file),
{
    let mut script = match content {
        Some(text) => text,
        None => String::new(),
    };
    match file {
        Some(text) => {
            script.append("\n");
            script.append(text.as_str());
        },
        None => {},
    }
    script
}

/// The script handed to a new window: the bootstrap for the hub on `port`
/// and the window `label`, then the caller's own script, which may thus
/// count on `window.RemoteAPI`.
pub fn bootstrap_script(port: u16, label: &str, user_script: &str) -> (script: String)
    ensures
        script@ == bootstrap_text(port, label@, user_script@),
{
    let mut script = String::from_str(SCRIPT_HEAD);
    push_decimal(&mut script, port);
    script.append(SCRIPT_LABEL);
    let quoted = escape_label(label);
    script.append(quoted.as_str());
    script.append(SCRIPT_BODY);
    script.append(user_script);
    script.append(SCRIPT_TAIL);
    script
}

/// Whether the character at `i` of `t` is harmless between the quotes of
/// a string literal: no quote, no control character, no line or paragraph
/// separator, and a backslash only where a `u` and four more characters
/// follow it.
pub open spec fn inert_at(t: Seq<char>, i: int) -> bool {
    let u = t[i] as u32;
    &&& u != 0x22
    &&& u >= 0x20
    &&& u != 0x7f
    &&& u != 0x2028
    &&& u != 0x2029
    &&& u == 0x5c ==> i + 5 < t.len() && t[i + 1] == 'u'
}

/// An escaped text cannot end the string literal it stands in, nor break
/// its line: every character of it is harmless there.
pub proof fn lemma_escaped_is_inert(s: Seq<char>)
    ensures
        forall|i: int| 0 <= i < escaped(s).len() ==> inert_at(escaped(s), i),
    decreases s.len(),
{
    reveal_strlit("0123456789abcdef");
    if s.len() > 0 {
        lemma_escaped_is_inert(s.drop_last());
        let before = escaped(s.drop_last());
        let last = escaped_char(s.last());
        let all = escaped(s);
        assert(all == before + last);
        assert forall|i: int| 0 <= i < all.len() implies inert_at(all, i) by {
            if i < before.len() {
                assert(inert_at(before, i));
                assert(all[i] == before[i]);
                if before[i] == '\\' {
                    assert(all[i + 1] == before[i + 1]);
                }
            } else {
                let k = i - before.len();
                assert(all[i] == last[k]);
                if needs_escape(s.last()) {
                    assert(last.len() == 6);
                    if k == 0 {
                        assert(all[i + 1] == last[1]);
                    }
                }
            }
        }
    }
}

/// A text without a character that needs escaping is its own escape.
pub proof fn lemma_plain_label_unchanged(s: Seq<char>)
    requires
        forall|i: int| 0 <= i < s.len() ==> !needs_escape(#[trigger] s[i]),
    ensures
        escaped(s) == s,
    decreases s.len(),
{
    if s.len() > 0 {
        assert forall|i: int| 0 <= i < s.drop_last().len() implies !needs_escape(
            #[trigger] s.drop_last()[i],
        ) by {
            assert(s.drop_last()[i] == s[i]);
        }
        lemma_plain_label_unchanged(s.drop_last());
        assert(!needs_escape(s[s.len() - 1]));
        assert(s.drop_last() + seq![s.last()] =~= s);
    } else {
        assert(escaped(s) =~= s);
    }
}

/// The number that a hexadecimal digit stands for.
pub open spec fn digit_value(c: char) -> int {
    if '0' <= c <= '9' {
        c as int - 48
    } else {
        c as int - 87
    }
}

/// What the script reads from the content `t` of a string literal, from
/// position `i` on: a backslash, a `u` and four hexadecimal digits give
/// the character with that code, any other character gives itself.
pub open spec fn unescaped_from(t: Seq<char>, i: int) -> Seq<char>
    decreases t.len() - i,
{
    if i < 0 || i >= t.len() {
        Seq::empty()
    } else if t[i] == '\\' && i + 5 < t.len() && t[i + 1] == 'u' {
        let code = digit_value(t[i + 2]) * 4096 + digit_value(t[i + 3]) * 256 + digit_value(
            t[i + 4],
        ) * 16 + digit_value(t[i + 5]);
        seq![code as u32 as char] + unescaped_from(t, i + 6)
    } else {
        seq![t[i]] + unescaped_from(t, i + 1)
    }
}

/// What the script reads from the content `t` of a string literal.
pub open spec fn unescaped(t: Seq<char>) -> Seq<char> {
    unescaped_from(t, 0)
}

proof fn lemma_escaped_concat(a: Seq<char>, b: Seq<char>)
    ensures
        escaped(a + b) == escaped(a) + escaped(b),
    decreases b.len(),
{
    if b.len() == 0 {
        assert(a + b =~= a);
        assert(escaped(a) + escaped(b) =~= escaped(a));
    } else {
        lemma_escaped_concat(a, b.drop_last());
        assert((a + b).drop_last() =~= a + b.drop_last());
        assert((a + b).last() == b.last());
        assert(escaped(a + b) =~= escaped(a) + escaped(b));
    }
}

proof fn lemma_unescaped_skips(p: Seq<char>, y: Seq<char>, j: int)
    requires
        0 <= j,
    ensures
        unescaped_from(p + y, p.len() + j) == unescaped_from(y, j),
    decreases y.len() - j,
{
    let t = p + y;
    let n = p.len() as int;
    if j < y.len() {
        assert(t[n + j] == y[j]);
        if j + 5 < y.len() {
            assert(t[n + j + 1] == y[j + 1]);
            assert(t[n + j + 2] == y[j + 2]);
            assert(t[n + j + 3] == y[j + 3]);
            assert(t[n + j + 4] == y[j + 4]);
            assert(t[n + j + 5] == y[j + 5]);
        }
        if y[j] == '\\' && j + 5 < y.len() && y[j + 1] == 'u' {
            lemma_unescaped_skips(p, y, j + 6);
        } else {
            lemma_unescaped_skips(p, y, j + 1);
        }
    }
}

/// The script reads an escaped label back as the label itself.
pub proof fn lemma_unescaped_escaped(s: Seq<char>)
    ensures
        unescaped(escaped(s)) == s,
    decreases s.len(),
{
    reveal_strlit("0123456789abcdef");
    if s.len() == 0 {
        assert(unescaped(escaped(s)) =~= s);
    } else {
        let c = s[0];
        let rest = s.drop_first();
        lemma_unescaped_escaped(rest);
        assert(s =~= seq![c] + rest);
        lemma_escaped_concat(seq![c], rest);
        assert(seq![c].drop_last() =~= Seq::<char>::empty());
        assert(escaped(seq![c].drop_last()) =~= Seq::<char>::empty());
        assert(seq![c].last() == c);
        assert(escaped(seq![c]) =~= escaped_char(c));
        let e = escaped_char(c);
        let t = e + escaped(rest);
        assert(escaped(s) == t);
        if needs_escape(c) {
            let u = c as u32 as int;
            assert(0 <= u < 65536);
            assert(e.len() == 6);
            assert(t[0] == e[0] && t[1] == e[1] && t[2] == e[2] && t[3] == e[3] && t[4] == e[4]
                && t[5] == e[5]);
            assert(digit_value(digit(u / 4096 % 16)) == u / 4096 % 16);
            assert(digit_value(digit(u / 256 % 16)) == u / 256 % 16);
            assert(digit_value(digit(u / 16 % 16)) == u / 16 % 16);
            assert(digit_value(digit(u % 16)) == u % 16);
            assert((u / 4096 % 16) * 4096 + (u / 256 % 16) * 256 + (u / 16 % 16) * 16 + u % 16
                == u) by (nonlinear_arith)
                requires
                    0 <= u < 65536,
            ;
            lemma_unescaped_skips(e, escaped(rest), 0);
            vstd::utf8::char_u32_cast(c, c as u32);
            assert(unescaped(t) =~= seq![c] + rest);
        } else {
            assert(e.len() == 1);
            assert(t[0] == c);
            lemma_unescaped_skips(e, escaped(rest), 0);
            assert(unescaped(t) =~= seq![c] + rest);
        }
    }
}

/// `url::Url`, a parsed absolute URL. Nothing of its inside is visible
/// here.
#[verifier::external_type_specification]
#[verifier::external_body]
pub struct ExUrl(url::Url);

/// What `url::Url::parse` makes of a text: the address, or the message of
/// the error it rejects the text with.
pub uninterp spec fn url_parsed(text: Seq<char>) -> Result<url::Url, Seq<char>>;

/// Parses an address by `url::Url::parse`; where that fails the error's
/// message comes back. The outcome is a function of the text alone, named
/// `url_parsed`.
#[verifier::external_body]
pub(crate) fn parse_address(text: &str) -> (address: Result<url::Url, String>)
    ensures
        match address {
            Ok(url) => url_parsed(text@) == Ok::<url::Url, Seq<char>>(url),
            Err(reason) => url_parsed(text@) == Err::<url::Url, Seq<char>>(reason@),
        },
{
    url::Url::parse(text).map_err(|e| e.to_string())
}

/// All that is needed to open a remote window.
#[derive(Debug)]
pub struct WindowPlan {
    pub label: String,
    pub address: url::Url,
    pub title: String,
    pub script: String,
}

/// Why a remote window was not opened.
#[derive(Debug)]
pub enum OpenError {
    /// The relay hub has not published its port yet.
    NotReady,
    /// The script file could not be read.
    ScriptFile { detail: String },
    /// The address of the window is no URL.
    Address { detail: String },
    /// The window could not be built.
    Window { detail: String },
}

/// What the caller is told when a window was not opened.
pub open spec fn open_error_text(error: OpenError) -> Seq<char> {
    match error {
        OpenError::NotReady => "Remote service not initialized yet"@,
        OpenError::ScriptFile { detail } => "Failed to read script file: "@ + detail@,
        OpenError::Address { detail } => detail@,
        OpenError::Window { detail } => detail@,
    }
}

impl OpenError {
    /// What the caller is told.
    pub fn message(&self) -> (text: String)
        ensures
            text@ == open_error_text(*self),
    {
        match self {
            OpenError::NotReady => String::from_str("Remote service not initialized yet"),
            OpenError::ScriptFile { detail } => join(
                "Failed to read script file: ",
                detail.as_str(),
            ),
            OpenError::Address { detail } => detail.clone(),
            OpenError::Window { detail } => detail.clone(),
        }
    }
}

/// The text of the script file, where one was read.
pub open spec fn file_text(file: Option<Result<String, String>>) -> Option<String> {
    match file {
        Some(Ok(text)) => Some(text),
        _ => None,
    }
}

/// Whether `result` is what opening a remote window comes to: refused
/// while the hub has no port, when the script file could not be read, and
/// when the address is no URL, in this order; planned otherwise, with the
/// bootstrap script for the hub's port and the label, followed by the
/// caller's own script.
pub open spec fn is_window_plan(
    port: u16,
    label: Seq<char>,
    url: Seq<char>,
    content: Option<String>,
    file: Option<Result<String, String>>,
    result: Result<WindowPlan, OpenError>,
) -> bool {
    if port == 0 {
        result == Err::<WindowPlan, OpenError>(OpenError::NotReady)
    } else if let Some(Err(detail)) = file {
        result matches Err(OpenError::ScriptFile { detail: d }) && d@ == detail@
    } else {
        match url_parsed(url) {
            Err(reason) => result matches Err(OpenError::Address { detail: d }) && d@ == reason,
            Ok(address) => {
                &&& result matches Ok(plan)
                &&& plan.label@ == label
                &&& plan.address == address
                &&& plan.title@ == WINDOW_TITLE@
                &&& plan.script@ == bootstrap_text(
                    port,
                    label,
                    user_script_text(content, file_text(file)),
                )
            },
        }
    }
}

/// The port of the hub, once it is published.
pub fn require_port(state: &RemoteServiceState) -> (port: Result<u16, OpenError>)
    ensures
        match port {
            Ok(p) => p != 0 && p == state.published_port(),
            Err(error) => state.published_port() == 0 && error == OpenError::NotReady,
        },
{
    let port = state.port();
    if port == 0 {
        Err(OpenError::NotReady)
    } else {
        Ok(port)
    }
}

/// Plans the opening of the remote window `label` at the address `url`.
///
/// `init_script_content` is script text given with the call, and
/// `init_script_file` is what reading the caller's script file gave, if a
/// file was named: its text, or the reason it could not be read.
pub fn open_remote_window(
    state: &RemoteServiceState,
    label: &str,
    url: &str,
    init_script_content: Option<String>,
    init_script_file: Option<Result<String, String>>,
) -> (result: Result<WindowPlan, OpenError>)
    ensures
        is_window_plan(
            state.published_port(),
            label@,
            url@,
            init_script_content,
            init_script_file,
            result,
        ),
{
    let port = match require_port(state) {
        Ok(port) => port,
        Err(error) => {
            return Err(error);
        },
    };
    let file = match init_script_file {
        Some(Err(detail)) => {
            return Err(OpenError::ScriptFile { detail });
        },
        Some(Ok(text)) => Some(text),
        None => None,
    };
    let user_script = compose_user_script(init_script_content, file);
    let script = bootstrap_script(port, label, user_script.as_str());
    match parse_address(url) {
        Ok(address) => Ok(
            WindowPlan {
                label: String::from_str(label),
                address,
                title: String::from_str(WINDOW_TITLE),
                script,
            },
        ),
        Err(detail) => Err(OpenError::Address { detail }),
    }
}

} // verus!
