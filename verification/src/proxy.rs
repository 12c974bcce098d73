//! The request pipeline of the reverse proxy: from the headers of an
//! incoming request and the current secrets to the upstream address and the
//! headers to send there, or to the error the caller gets.

use crate::secrets::SecretMap;
use crate::template::{render, replace_secrets};
use crate::text::{decode_text, join, names_match, same_name};
use vstd::prelude::*;
use vstd::string::{StrSliceExecFns, StringExecFns};
use vstd::utf8::{decode_utf8, encode_utf8, valid_utf8};

verus! {

/// The port the proxy listens on when no free port could be picked.
pub const FALLBACK_PROXY_PORT: u16 = 14500;

/// One header of a request: a name, and a value that may be any bytes.
#[derive(Debug)]
pub struct Header {
    pub name: String,
    pub value: Vec<u8>,
}

/// A header as contracts see it.
pub struct HeaderLine {
    pub name: Seq<char>,
    pub value: Seq<u8>,
}

impl View for Header {
    type V = HeaderLine;

    open spec fn view(&self) -> HeaderLine {
        HeaderLine { name: self.name@, value: self.value@ }
    }
}

/// The headers of a request as contracts see them.
pub open spec fn lines_of(headers: Seq<Header>) -> Seq<HeaderLine> {
    headers.map_values(|h: Header| h@)
}

/// What to send upstream: the resolved address and the rewritten headers.
/// Method and body of the request pass through untouched and are not part
/// of the plan.
#[derive(Debug)]
pub struct ForwardPlan {
    pub url: String,
    pub headers: Vec<Header>,
}

/// Why a request was not answered by the upstream host.
#[derive(Debug)]
pub enum ProxyError {
    /// The secret store could not be read.
    SecretStore { detail: String },
    /// The request names no upstream address.
    MissingTarget,
    /// The upstream address of the request is no text.
    InvalidTarget,
    /// The upstream host could not be reached, or the exchange with it
    /// failed.
    Upstream { detail: String },
}

/// The name of the header that carries the upstream address.
pub open spec fn forward_header() -> Seq<char> {
    "x-forward-to"@
}

/// Whether the transport layer sets the header `name` itself.
pub open spec fn is_transport_header(name: Seq<char>) -> bool {
    same_name(name, "host"@) || same_name(name, "content-length"@)
}

/// Whether `name` is the header that carries the upstream address.
pub open spec fn is_forward_header(name: Seq<char>) -> bool {
    same_name(name, forward_header())
}

/// A byte that may stand in a header value: anything from the space on but
/// DEL, and the tab.
pub open spec fn is_value_byte(b: u8) -> bool {
    (b >= 32 && b != 127) || b == 9
}

/// Whether `bytes` can be sent as a header value.
pub open spec fn legal_value(bytes: Seq<u8>) -> bool {
    forall|i: int| 0 <= i < bytes.len() ==> is_value_byte(#[trigger] bytes[i])
}

/// The first value of the forwarding header among `lines`, from `i` on.
pub open spec fn target_from(lines: Seq<HeaderLine>, i: int) -> Option<Seq<u8>>
    decreases lines.len() - i,
{
    if i < 0 || i >= lines.len() {
        None
    } else if is_forward_header(lines[i].name) {
        Some(lines[i].value)
    } else {
        target_from(lines, i + 1)
    }
}

/// The template of the upstream address: the first value of the forwarding
/// header, if the request has that header.
pub open spec fn target_of(lines: Seq<HeaderLine>) -> Option<Seq<u8>> {
    target_from(lines, 0)
}

/// The value sent upstream for an incoming `value`: text has its
/// placeholders filled, and is dropped if the result cannot be sent; bytes
/// that are no text go out as they came.
pub open spec fn outbound_value(value: Seq<u8>, secrets: Map<Seq<char>, Seq<char>>) -> Option<
    Seq<u8>,
> {
    if valid_utf8(value) {
        let filled = encode_utf8(render(decode_utf8(value), secrets));
        if legal_value(filled) {
            Some(filled)
        } else {
            None
        }
    } else {
        Some(value)
    }
}

/// The header sent upstream for an incoming header, if one is sent.
pub open spec fn outbound_line(line: HeaderLine, secrets: Map<Seq<char>, Seq<char>>) -> Option<
    HeaderLine,
> {
    if is_transport_header(line.name) || is_forward_header(line.name) {
        None
    } else {
        match outbound_value(line.value, secrets) {
            Some(value) => Some(HeaderLine { name: line.name, value }),
            None => None,
        }
    }
}

/// The headers sent upstream for the incoming `lines`, in their order.
pub open spec fn outbound_lines(lines: Seq<HeaderLine>, secrets: Map<Seq<char>, Seq<char>>) -> Seq<
    HeaderLine,
>
    decreases lines.len(),
{
    if lines.len() == 0 {
        Seq::empty()
    } else {
        let before = outbound_lines(lines.drop_last(), secrets);
        match outbound_line(lines.last(), secrets) {
            Some(line) => before.push(line),
            None => before,
        }
    }
}

/// The status code that answers a failed request.
pub open spec fn status_of(error: ProxyError) -> u16 {
    match error {
        ProxyError::SecretStore { .. } => 500,
        ProxyError::MissingTarget => 400,
        ProxyError::InvalidTarget => 400,
        ProxyError::Upstream { .. } => 502,
    }
}

/// The body that answers a failed request.
pub open spec fn body_of(error: ProxyError) -> Seq<char> {
    match error {
        ProxyError::SecretStore { detail } => "Failed to load secrets: "@ + detail@,
        ProxyError::MissingTarget => "Missing X-Forward-To header"@,
        ProxyError::InvalidTarget => "Invalid X-Forward-To header"@,
        ProxyError::Upstream { detail } => "Request failed: "@ + detail@,
    }
}

/// Whether `result` is the outcome that the pipeline owes for a request
/// with the headers `lines`, given what reading the secret store gave.
pub open spec fn is_planned(
    store: Result<SecretMap, String>,
    lines: Seq<HeaderLine>,
    result: Result<ForwardPlan, ProxyError>,
) -> bool {
    match store {
        Err(detail) => result matches Err(ProxyError::SecretStore { detail: d }) && d@ == detail@,
        Ok(secrets) => match target_of(lines) {
            None => result == Err::<ForwardPlan, ProxyError>(ProxyError::MissingTarget),
            Some(template) => if valid_utf8(template) {
                &&& result matches Ok(plan)
                &&& plan.url@ == render(decode_utf8(template), secrets@)
                &&& lines_of(plan.headers@) == outbound_lines(lines, secrets@)
            } else {
                result == Err::<ForwardPlan, ProxyError>(ProxyError::InvalidTarget)
            },
        },
    }
}

impl ProxyError {
    /// The status code of the answer: 400 for a request without a usable
    /// upstream address, 500 for an unreadable secret store, 502 for an
    /// upstream failure.
    pub fn status(&self) -> (code: u16)
        ensures
            code == status_of(*self),
    {
        match self {
            ProxyError::SecretStore { .. } => 500,
            ProxyError::MissingTarget => 400,
            ProxyError::InvalidTarget => 400,
            ProxyError::Upstream { .. } => 502,
        }
    }

    /// The body of the answer, which says what went wrong.
    pub fn body(&self) -> (text: String)
        ensures
            text@ == body_of(*self),
    {
        match self {
            ProxyError::SecretStore { detail } => join("Failed to load secrets: ", detail.as_str()),
            ProxyError::MissingTarget => String::from_str("Missing X-Forward-To header"),
            ProxyError::InvalidTarget => String::from_str("Invalid X-Forward-To header"),
            ProxyError::Upstream { detail } => join("Request failed: ", detail.as_str()),
        }
    }
}

/// The port to listen on: the one that was picked, or the fallback.
pub fn proxy_port_or_fallback(picked: Option<u16>) -> (port: u16)
    ensures
        port == match picked {
            Some(p) => p,
            None => FALLBACK_PROXY_PORT,
        },
{
    match picked {
        Some(p) => p,
        None => FALLBACK_PROXY_PORT,
    }
}

/// The published port of the proxy: 0 until the proxy is started, its port
/// from then on. The host keeps the cell behind a lock and publishes once,
/// at startup.
#[derive(Debug)]
pub struct ProxyPort(pub u16);

impl ProxyPort {
    /// The cell before the proxy is started.
    pub fn new() -> (cell: ProxyPort)
        ensures
            cell.0 == 0,
    {
        ProxyPort(0)
    }

    /// Publishes the port the proxy was started on.
    pub fn publish(&mut self, port: u16)
        ensures
            final(self).0 == port,
    {
        self.0 = port;
    }

    /// The published port.
    pub fn get(&self) -> (port: u16)
        ensures
            port == self.0,
    {
        self.0
    }
}

/// The port that the proxy published.
pub fn get_proxy_port(cell: &ProxyPort) -> (port: u16)
    ensures
        port == cell.0,
{
    cell.get()
}

/// Whether `name` is a header that the transport layer sets itself.
pub fn transport_header(name: &str) -> (dropped: bool)
    ensures
        dropped == is_transport_header(name@),
{
    names_match(name, "host") || names_match(name, "content-length")
}

/// Whether `name` is the header that carries the upstream address.
pub fn forwarding_header(name: &str) -> (is_it: bool)
    ensures
        is_it == is_forward_header(name@),
{
    names_match(name, "x-forward-to")
}

/// Whether `bytes` can be sent as a header value.
pub fn value_is_legal(bytes: &Vec<u8>) -> (legal: bool)
    ensures
        legal == legal_value(bytes@),
{
    let mut i: usize = 0;
    while i < bytes.len()
        invariant
            i <= bytes.len(),
            forall|k: int| 0 <= k < i ==> is_value_byte(#[trigger] bytes@[k]),
        decreases bytes.len() - i,
    {
        let b = bytes[i];
        if !((b >= 32 && b != 127) || b == 9) {
            return false;
        }
        i += 1;
    }
    true
}

fn copy_bytes(bytes: &Vec<u8>) -> (copy: Vec<u8>)
    ensures
        copy@ == bytes@,
{
    let mut copy: Vec<u8> = Vec::new();
    let mut i: usize = 0;
    while i < bytes.len()
        invariant
            i <= bytes.len(),
            copy@ == bytes@.take(i as int),
        decreases bytes.len() - i,
    {
        copy.push(bytes[i]);
        i += 1;
        assert(bytes@.take(i as int) == bytes@.take(i - 1).push(bytes@[i - 1]));
    }
    assert(bytes@.take(bytes.len() as int) == bytes@);
    copy
}

/// The value to send upstream for an incoming header value.
pub fn rewrite_value(value: &Vec<u8>, secrets: &SecretMap) -> (out: Option<Vec<u8>>)
    ensures
        match out {
            Some(bytes) => outbound_value(value@, secrets@) == Some(bytes@),
            None => outbound_value(value@, secrets@) is None,
        },
{
    match decode_text(value.as_slice()) {
        Some(text) => {
            let filled = replace_secrets(text, secrets);
            let bytes = filled.as_str().as_bytes_vec();
            if value_is_legal(&bytes) {
                Some(bytes)
            } else {
                None
            }
        },
        None => Some(copy_bytes(value)),
    }
}

/// The header to send upstream for an incoming header, if one is sent.
pub fn rewrite_header(header: &Header, secrets: &SecretMap) -> (out: Option<Header>)
    ensures
        match out {
            Some(h) => outbound_line(header@, secrets@) == Some(h@),
            None => outbound_line(header@, secrets@) is None,
        },
{
    if transport_header(header.name.as_str()) || forwarding_header(header.name.as_str()) {
        return None;
    }
    match rewrite_value(&header.value, secrets) {
        Some(value) => Some(Header { name: header.name.clone(), value }),
        None => None,
    }
}

/// The headers to send upstream for the incoming `headers`.
pub fn rewrite_headers(headers: &Vec<Header>, secrets: &SecretMap) -> (out: Vec<Header>)
    ensures
        lines_of(out@) == outbound_lines(lines_of(headers@), secrets@),
{
    let mut out: Vec<Header> = Vec::new();
    let mut i: usize = 0;
    let ghost lines = lines_of(headers@);
    assert(lines_of(out@) =~= outbound_lines(lines.take(0), secrets@));
    while i < headers.len()
        invariant
            i <= headers.len(),
            lines == lines_of(headers@),
            lines_of(out@) == outbound_lines(lines.take(i as int), secrets@),
        decreases headers.len() - i,
    {
        let ghost before = lines_of(out@);
        let rewritten = rewrite_header(&headers[i], secrets);
        proof {
            let upto = lines.take(i + 1);
            assert(upto.drop_last() =~= lines.take(i as int));
            assert(upto.last() == headers@[i as int]@);
        }
        match rewritten {
            Some(header) => {
                out.push(header);
                assert(lines_of(out@) =~= before.push(header@));
            },
            None => {},
        }
        i += 1;
    }
    assert(lines.take(headers.len() as int) =~= lines);
    out
}

/// The value of the first forwarding header of `headers`, if there is one.
pub fn find_target(headers: &Vec<Header>) -> (found: Option<usize>)
    ensures
        match found {
            Some(i) => i < headers.len() && target_of(lines_of(headers@)) == Some(
                headers@[i as int].value@,
            ),
            None => target_of(lines_of(headers@)) is None,
        },
{
    let ghost lines = lines_of(headers@);
    let mut i: usize = 0;
    while i < headers.len()
        invariant
            i <= headers.len(),
            lines == lines_of(headers@),
            target_of(lines) == target_from(lines, i as int),
        decreases headers.len() - i,
    {
        if forwarding_header(headers[i].name.as_str()) {
            return Some(i);
        }
        i += 1;
    }
    None
}

/// Plans the upstream request for an incoming request.
///
/// `store` is what reading the secret store gave: the secrets, or the
/// reason they could not be read. A request is refused when the store
/// could not be read, when it has no forwarding header, and when the value
/// of that header is no text. Otherwise the placeholders of the address
/// and of every header value are filled from the secrets; the headers that
/// the transport layer sets, and the forwarding header itself, are left
/// out.
pub fn plan_forward(store: Result<SecretMap, String>, headers: &Vec<Header>) -> (result: Result<
    ForwardPlan,
    ProxyError,
>)
    ensures
        is_planned(store, lines_of(headers@), result),
{
    let secrets = match store {
        Ok(secrets) => secrets,
        Err(detail) => {
            return Err(ProxyError::SecretStore { detail });
        },
    };
    let at = match find_target(headers) {
        Some(at) => at,
        None => {
            return Err(ProxyError::MissingTarget);
        },
    };
    let template = match decode_text(headers[at].value.as_slice()) {
        Some(template) => template,
        None => {
            return Err(ProxyError::InvalidTarget);
        },
    };
    let url = replace_secrets(template, &secrets);
    let out = rewrite_headers(headers, &secrets);
    Ok(ForwardPlan { url, headers: out })
}

/// No header that the transport layer sets is sent upstream, nor the
/// forwarding header: every header that goes out has the name of an
/// incoming header that is none of these.
pub proof fn lemma_transport_headers_left_out(
    lines: Seq<HeaderLine>,
    secrets: Map<Seq<char>, Seq<char>>,
)
    ensures
        forall|k: int|
            0 <= k < outbound_lines(lines, secrets).len() ==> {
                let name = (#[trigger] outbound_lines(lines, secrets)[k]).name;
                &&& !same_name(name, "host"@)
                &&& !same_name(name, "content-length"@)
                &&& !same_name(name, "x-forward-to"@)
                &&& exists|j: int| 0 <= j < lines.len() && (#[trigger] lines[j]).name == name
            },
    decreases lines.len(),
{
    if lines.len() > 0 {
        let before = lines.drop_last();
        lemma_transport_headers_left_out(before, secrets);
        let out = outbound_lines(lines, secrets);
        assert forall|k: int| 0 <= k < out.len() implies {
            let name = (#[trigger] out[k]).name;
            &&& !same_name(name, "host"@)
            &&& !same_name(name, "content-length"@)
            &&& !same_name(name, "x-forward-to"@)
            &&& exists|j: int| 0 <= j < lines.len() && (#[trigger] lines[j]).name == name
        } by {
            let name = out[k].name;
            if k < outbound_lines(before, secrets).len() {
                assert(out[k] == outbound_lines(before, secrets)[k]);
                let j = choose|j: int| 0 <= j < before.len() && (#[trigger] before[j]).name == name;
                assert(lines[j] == before[j]);
            } else {
                assert(lines[lines.len() - 1].name == name);
            }
        }
    }
}

/// Where every incoming header value can be sent as it is, so can every
/// value that goes out.
pub proof fn lemma_outbound_values_legal(lines: Seq<HeaderLine>, secrets: Map<Seq<char>, Seq<char>>)
    requires
        forall|j: int| 0 <= j < lines.len() ==> legal_value((#[trigger] lines[j]).value),
    ensures
        forall|k: int|
            0 <= k < outbound_lines(lines, secrets).len() ==> legal_value(
                (#[trigger] outbound_lines(lines, secrets)[k]).value,
            ),
    decreases lines.len(),
{
    if lines.len() > 0 {
        let before = lines.drop_last();
        assert forall|j: int| 0 <= j < before.len() implies legal_value(
            (#[trigger] before[j]).value,
        ) by {
            assert(before[j] == lines[j]);
        }
        lemma_outbound_values_legal(before, secrets);
        let out = outbound_lines(lines, secrets);
        let last = lines[lines.len() - 1];
        assert(lines.last() == last);
        assert(legal_value(last.value));
        assert forall|k: int| 0 <= k < out.len() implies legal_value((#[trigger] out[k]).value) by {
            if k < outbound_lines(before, secrets).len() {
                assert(out[k] == outbound_lines(before, secrets)[k]);
            } else {
                assert(outbound_line(last, secrets) == Some(out[k]));
            }
        }
    }
}

/// A header whose value holds no placeholder and can be sent as it is goes
/// out unchanged, unless it is left out by its name.
pub proof fn lemma_plain_header_unchanged(line: HeaderLine, secrets: Map<Seq<char>, Seq<char>>)
    requires
        !is_transport_header(line.name),
        !is_forward_header(line.name),
        legal_value(line.value),
        valid_utf8(line.value) ==> !crate::template::has_placeholder(decode_utf8(line.value)),
    ensures
        outbound_line(line, secrets) == Some(line),
{
    if valid_utf8(line.value) {
        crate::template::lemma_plain_text_stays(decode_utf8(line.value), secrets);
        vstd::utf8::decode_utf8_encode_utf8(line.value);
    }
}

} // verus!
