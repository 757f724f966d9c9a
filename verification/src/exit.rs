//! Asking, through the running engine, which address and country the
//! internet sees. The exchange is a SOCKS5 handshake (no authentication,
//! CONNECT by host name so the lookup happens at the far end of the tunnel)
//! followed by one plain HTTP request whose JSON reply names the exit. The
//! socket work is the caller's; this module decides, from each answer, what
//! to send or read next and what the exchange came to.

use vstd::prelude::*;
use vstd::utf8::{decode_utf8, encode_utf8, valid_utf8};
use crate::json::{json_field, json_field_value};
use crate::text::find;

verus! {

broadcast use vstd::string::group_string_axioms;

/// How an exit check can fail, other than by the socket itself failing.
#[derive(Debug, Clone, Copy, PartialEq, Eq, Structural)]
pub enum ExitError {
    /// The proxy accepted none of the authentication methods offered.
    NoAcceptableAuth,
    /// The host name does not fit in a SOCKS5 request.
    HostTooLong,
    /// The proxy refused to connect to the host.
    ConnectRefused,
    /// The proxy's reply named an address type that SOCKS5 does not have.
    BadReply,
    /// The reply carried no address.
    NoAddress,
    /// Reading the reply failed before any of it had arrived; the read's own
    /// error is the one to report.
    ReadFailed,
}

impl ExitError {
    /// What the error says.
    pub fn message(&self) -> (r: &'static str)
        ensures
            r@ == exit_error_message(*self),
    {
        match self {
            ExitError::NoAcceptableAuth => "socks: no acceptable auth method",
            ExitError::HostTooLong => "socks: host name too long",
            ExitError::ConnectRefused => "socks: connect refused",
            ExitError::BadReply => "socks: bad reply",
            ExitError::NoAddress => "no address in the reply",
            ExitError::ReadFailed => "read failed",
        }
    }
}

/// What each exit-check error says.
pub open spec fn exit_error_message(e: ExitError) -> Seq<char> {
    match e {
        ExitError::NoAcceptableAuth => "socks: no acceptable auth method"@,
        ExitError::HostTooLong => "socks: host name too long"@,
        ExitError::ConnectRefused => "socks: connect refused"@,
        ExitError::BadReply => "socks: bad reply"@,
        ExitError::NoAddress => "no address in the reply"@,
        ExitError::ReadFailed => "read failed"@,
    }
}

/// Where the exit is asked about: ip-api.com's free endpoint, which is plain
/// HTTP only; the request already travels inside the tunnel.
pub const EXIT_CHECK_HOST: &'static str = "ip-api.com";

pub const EXIT_CHECK_PORT: u16 = 80;

/// The reply names only the address and the country code.
pub const EXIT_CHECK_PATH: &'static str = "/json/?fields=query,countryCode";

/// The longest host name a SOCKS5 request can carry, in bytes.
pub const MAX_HOST_BYTES: usize = 255;

/// Past this many bytes of reply the reading stops, whatever has arrived.
pub const MAX_REPLY_BYTES: usize = 65536;

/// The SOCKS5 greeting: version 5, one method offered, "no authentication".
pub open spec fn greeting() -> Seq<u8> {
    seq![5u8, 1u8, 0u8]
}

/// The SOCKS5 CONNECT request for a host name and port: version 5, CONNECT,
/// reserved, address type 3 (a name), the name's length and bytes, then the
/// port most significant byte first.
pub open spec fn connect_request(host: Seq<char>, port: u16) -> Seq<u8> {
    seq![5u8, 1u8, 0u8, 3u8, encode_utf8(host).len() as u8] + encode_utf8(host) + seq![
        (port / 256) as u8,
        (port % 256) as u8,
    ]
}

/// How many bytes follow a successful CONNECT reply's first four, for the
/// address types whose length is fixed: an IPv4 address and a port, or an
/// IPv6 address and a port.
pub open spec fn fixed_address_skip(kind: u8) -> Option<nat> {
    if kind == 1 {
        Some(6)
    } else if kind == 4 {
        Some(18)
    } else {
        None
    }
}

/// The HTTP request sent through the tunnel, as one piece.
pub open spec fn http_request_text(path: Seq<char>, host: Seq<char>) -> Seq<char> {
    "GET "@ + path + " HTTP/1.1\r\nHost: "@ + host + "\r\nUser-Agent: Panther\r\nConnection: close\r\n\r\n"@
}

/// Whether enough of the reply has arrived to stop reading: the headers have
/// ended and a closing brace follows, or the reply has grown past the limit.
/// Some proxies keep the socket open well after the reply, so the end of the
/// JSON object is the signal rather than the far end closing.
pub open spec fn reply_complete(body: Seq<char>) -> bool {
    ||| (find(body, "\r\n\r\n"@) matches Some(h) && body.skip(h).contains('}'))
    ||| encode_utf8(body).len() > MAX_REPLY_BYTES
}

/// What a reply says: the address is required, the country code is optional
/// and empty when missing.
pub open spec fn exit_answer(body: Seq<char>) -> Result<(Seq<char>, Seq<char>), ExitError> {
    match json_field_value(body, "query"@) {
        None => Err(ExitError::NoAddress),
        Some(ip) => Ok(
            (
                ip,
                match json_field_value(body, "countryCode"@) {
                    Some(cc) => cc,
                    None => Seq::<char>::empty(),
                },
            ),
        ),
    }
}

/// The text of bytes decoded as UTF-8 with each invalid sequence replaced
/// by U+FFFD (`String::from_utf8_lossy`).
pub uninterp spec fn utf8_lossy(bytes: Seq<u8>) -> Seq<char>;

/// `String::from_utf8_lossy`. Of its result only this is claimed: it is the
/// named decoding of the bytes, and valid UTF-8 decodes to what it encodes.
#[verifier::external_body]
fn decode_lossy(bytes: &[u8]) -> (r: String)
    ensures
        r@ == utf8_lossy(bytes@),
        valid_utf8(bytes@) ==> r@ == decode_utf8(bytes@),
{
    String::from_utf8_lossy(bytes).into_owned()
}

/// The CONNECT request for a host name and port, or `None` when the name is
/// longer than a request can carry.
pub fn socks_connect_request(host: &str, port: u16) -> (r: Option<Vec<u8>>)
    ensures
        r matches Some(v) ==> encode_utf8(host@).len() <= MAX_HOST_BYTES && v@ == connect_request(
            host@,
            port,
        ),
        r is None ==> encode_utf8(host@).len() > MAX_HOST_BYTES,
{
    let name = host.as_bytes();
    if name.len() > MAX_HOST_BYTES {
        return None;
    }
    let mut req: Vec<u8> = vec![5u8, 1u8, 0u8, 3u8, name.len() as u8];
    let mut i: usize = 0;
    while i < name.len()
        invariant
            i <= name@.len(),
            name@ == encode_utf8(host@),
            name@.len() <= MAX_HOST_BYTES,
            req@ == seq![5u8, 1u8, 0u8, 3u8, name@.len() as u8] + name@.take(i as int),
        decreases name.len() - i,
    {
        req.push(name[i]);
        i = i + 1;
        assert(req@ =~= seq![5u8, 1u8, 0u8, 3u8, name@.len() as u8] + name@.take(i as int));
    }
    req.push((port / 256) as u8);
    req.push((port % 256) as u8);
    assert(name@.take(name@.len() as int) =~= name@);
    assert(req@ =~= connect_request(host@, port));
    Some(req)
}

/// The one-piece HTTP request for a path on a host.
pub fn http_request(path: &str, host: &str) -> (r: String)
    ensures
        r@ == http_request_text(path@, host@),
{
    let mut s = "GET ".to_string();
    s.append(path);
    s.append(" HTTP/1.1\r\nHost: ");
    s.append(host);
    s.append("\r\nUser-Agent: Panther\r\nConnection: close\r\n\r\n");
    s
}

fn has_char_from(v: &Vec<char>, from: usize, c: char) -> (r: bool)
    requires
        from <= v.len(),
    ensures
        r == v@.skip(from as int).contains(c),
{
    let mut k: usize = from;
    while k < v.len()
        invariant
            from <= k <= v.len(),
            forall|j: int| from <= j < k ==> v@[j] != c,
        decreases v.len() - k,
    {
        if v[k] == c {
            assert(v@.skip(from as int)[k - from] == c);
            return true;
        }
        k = k + 1;
    }
    assert forall|j: int| 0 <= j < v@.skip(from as int).len() implies v@.skip(from as int)[j] != c by {
        assert(v@.skip(from as int)[j] == v@[from + j]);
    }
    false
}

/// Whether enough of the reply has arrived to stop reading.
pub fn body_complete(body: &str) -> (r: bool)
    ensures
        r == reply_complete(body@),
{
    let chars = crate::text::chars_of(body);
    let mut sep: Vec<char> = Vec::new();
    sep.push('\r');
    sep.push('\n');
    sep.push('\r');
    sep.push('\n');
    proof {
        reveal_strlit("\r\n\r\n");
        assert(sep@ =~= "\r\n\r\n"@);
    }
    let mut ended = false;
    if let Some(h) = crate::text::find_chars(&chars, &sep) {
        proof {
            crate::text::lemma_find_bounds(chars@, sep@);
        }
        ended = has_char_from(&chars, h, '}');
        assert(find(body@, "\r\n\r\n"@) == Some(h as int));
        assert(ended == body@.skip(h as int).contains('}'));
    } else {
        assert(find(body@, "\r\n\r\n"@) is None);
    }
    assert(ended == (find(body@, "\r\n\r\n"@) matches Some(h) && body@.skip(h).contains('}')));
    ended || body.as_bytes().len() > MAX_REPLY_BYTES
}

/// What a complete reply says: the address, and the country code or empty.
pub fn exit_reply(body: &str) -> (r: Result<(String, String), ExitError>)
    ensures
        r matches Ok((ip, cc)) ==> exit_answer(body@) == Ok::<(Seq<char>, Seq<char>), ExitError>(
            (ip@, cc@),
        ),
        r matches Err(e) ==> exit_answer(body@) == Err::<(Seq<char>, Seq<char>), ExitError>(e),
{
    match json_field(body, "query") {
        None => Err(ExitError::NoAddress),
        Some(ip) => {
            let cc = match json_field(body, "countryCode") {
                Some(cc) => cc,
                None => String::new(),
            };
            Ok((ip, cc))
        },
    }
}


/// Where an exit check stands.
#[derive(Debug, Clone, Copy, PartialEq, Eq, Structural)]
pub enum ExitStage {
    /// The greeting went out; the proxy's choice of method is awaited.
    AwaitAuth,
    /// The CONNECT request went out; the first four bytes of its reply are awaited.
    AwaitHead,
    /// The reply names the bound address by name; the name's length is awaited.
    AwaitNameLength,
    /// The rest of the CONNECT reply (the bound address and port) is awaited.
    AwaitAddress,
    /// The HTTP request went out; its reply is being read.
    AwaitReply,
    /// The check is over.
    Over,
}

/// What the caller is to do next on the socket, or what the check came to.
pub enum ExitAction {
    /// Write `send` (when it is not empty), then read exactly `receive` bytes
    /// and hand them to `on_bytes`.
    Exchange { send: Vec<u8>, receive: usize },
    /// Write `send` (when it is not empty), then read what arrives, at most
    /// 2048 bytes, and hand it to `on_chunk`; or call `on_end` when the far
    /// end has closed, `on_read_error` when the read failed.
    Stream { send: Vec<u8> },
    /// The internet sees this address, in this country (empty when the
    /// reply named none).
    Finish { ip: String, country: String },
    /// The check failed.
    Fail(ExitError),
}

pub ghost enum ExitActionView {
    Exchange { send: Seq<u8>, receive: nat },
    Stream { send: Seq<u8> },
    Finish { ip: Seq<char>, country: Seq<char> },
    Fail(ExitError),
}

impl View for ExitAction {
    type V = ExitActionView;

    open spec fn view(&self) -> ExitActionView {
        match self {
            ExitAction::Exchange { send, receive } => ExitActionView::Exchange {
                send: send@,
                receive: *receive as nat,
            },
            ExitAction::Stream { send } => ExitActionView::Stream { send: send@ },
            ExitAction::Finish { ip, country } => ExitActionView::Finish { ip: ip@, country: country@ },
            ExitAction::Fail(e) => ExitActionView::Fail(*e),
        }
    }
}

/// One exit check in progress: where it is asking, and what it has heard.
pub struct ExitCheck {
    host: String,
    port: u16,
    path: String,
    progress: Progress,
    body: String,
}

/// The stage and the number of bytes its exchange reads, which change together.
#[derive(Clone, Copy)]
struct Progress {
    stage: ExitStage,
    pending: usize,
}

impl ExitCheck {
    /// Each read of the handshake is as long as what it reads: two bytes of
    /// method choice, four of reply head, one of name length.
    #[verifier::type_invariant]
    spec fn exchange_lengths(self) -> bool {
        &&& self.progress.stage is AwaitAuth ==> self.progress.pending == 2
        &&& self.progress.stage is AwaitHead ==> self.progress.pending == 4
        &&& self.progress.stage is AwaitNameLength ==> self.progress.pending == 1
    }
}

pub ghost struct ExitCheckView {
    pub host: Seq<char>,
    pub port: u16,
    pub path: Seq<char>,
    pub stage: ExitStage,
    /// How many bytes the current exchange reads.
    pub pending: nat,
    /// The reply text read so far.
    pub body: Seq<char>,
}

impl View for ExitCheck {
    type V = ExitCheckView;

    closed spec fn view(&self) -> ExitCheckView {
        ExitCheckView {
            host: self.host@,
            port: self.port,
            path: self.path@,
            stage: self.progress.stage,
            pending: self.progress.pending as nat,
            body: self.body@,
        }
    }
}

impl ExitCheckView {
    pub open spec fn with(self, stage: ExitStage, pending: nat) -> ExitCheckView {
        ExitCheckView { stage, pending, ..self }
    }

    pub open spec fn reading(self) -> bool {
        self.stage is AwaitAuth || self.stage is AwaitHead || self.stage is AwaitNameLength
            || self.stage is AwaitAddress
    }
}

/// How the check ends on the reply read so far.
pub open spec fn conclusion(body: Seq<char>) -> ExitActionView {
    match exit_answer(body) {
        Ok((ip, cc)) => ExitActionView::Finish { ip, country: cc },
        Err(e) => ExitActionView::Fail(e),
    }
}

/// The step taken on the bytes an exchange read.
pub open spec fn after_bytes(s: ExitCheckView, got: Seq<u8>) -> (ExitCheckView, ExitActionView) {
    match s.stage {
        ExitStage::AwaitAuth => if got != seq![5u8, 0u8] {
            (s.with(ExitStage::Over, 0), ExitActionView::Fail(ExitError::NoAcceptableAuth))
        } else if encode_utf8(s.host).len() > MAX_HOST_BYTES {
            (s.with(ExitStage::Over, 0), ExitActionView::Fail(ExitError::HostTooLong))
        } else {
            (
                s.with(ExitStage::AwaitHead, 4),
                ExitActionView::Exchange { send: connect_request(s.host, s.port), receive: 4 },
            )
        },
        ExitStage::AwaitHead => if got[1] != 0 {
            (s.with(ExitStage::Over, 0), ExitActionView::Fail(ExitError::ConnectRefused))
        } else if fixed_address_skip(got[3]) is Some {
            let k: nat = fixed_address_skip(got[3])->0;
            (
                s.with(ExitStage::AwaitAddress, k),
                ExitActionView::Exchange { send: Seq::<u8>::empty(), receive: k },
            )
        } else if got[3] == 3 {
            (
                s.with(ExitStage::AwaitNameLength, 1),
                ExitActionView::Exchange { send: Seq::<u8>::empty(), receive: 1 },
            )
        } else {
            (s.with(ExitStage::Over, 0), ExitActionView::Fail(ExitError::BadReply))
        },
        ExitStage::AwaitNameLength => {
            let k: nat = got[0] as nat + 2;
            (
                s.with(ExitStage::AwaitAddress, k),
                ExitActionView::Exchange { send: Seq::<u8>::empty(), receive: k },
            )
        },
        _ => (
            s.with(ExitStage::AwaitReply, 0),
            ExitActionView::Stream { send: encode_utf8(http_request_text(s.path, s.host)) },
        ),
    }
}

/// The step taken on a piece of the reply.
pub open spec fn after_chunk(s: ExitCheckView, got: Seq<u8>) -> (ExitCheckView, ExitActionView) {
    let body = s.body + utf8_lossy(got);
    if reply_complete(body) {
        (ExitCheckView { body, ..s.with(ExitStage::Over, 0) }, conclusion(body))
    } else {
        (ExitCheckView { body, ..s }, ExitActionView::Stream { send: Seq::<u8>::empty() })
    }
}

/// The step taken when the far end closes.
pub open spec fn after_end(s: ExitCheckView) -> (ExitCheckView, ExitActionView) {
    (s.with(ExitStage::Over, 0), conclusion(s.body))
}

/// The step taken when a read of the reply fails: with nothing read yet the
/// read's error is the answer, otherwise what was read is.
pub open spec fn after_read_error(s: ExitCheckView) -> (ExitCheckView, ExitActionView) {
    if s.body.len() == 0 {
        (s.with(ExitStage::Over, 0), ExitActionView::Fail(ExitError::ReadFailed))
    } else {
        (s.with(ExitStage::Over, 0), conclusion(s.body))
    }
}

/// The bytes an action has the caller write.
pub open spec fn sent(a: ExitActionView) -> Seq<u8> {
    match a {
        ExitActionView::Exchange { send, .. } => send,
        ExitActionView::Stream { send } => send,
        _ => Seq::<u8>::empty(),
    }
}

/// A proxy that accepts no authentication and connects, whatever kind of
/// address it reports having bound (IPv4, a name, or IPv6), is sent exactly
/// the greeting, the CONNECT request by host name, and then the whole HTTP
/// request in one piece, after which the reply is read. Each read asks for
/// exactly as many bytes as that part of the proxy's answer has.
pub proof fn lemma_accepting_proxy_gets_the_request(
    host: Seq<char>,
    port: u16,
    path: Seq<char>,
    head: Seq<u8>,
    name_len: Seq<u8>,
    bound: Seq<u8>,
)
    requires
        encode_utf8(host).len() <= MAX_HOST_BYTES,
        head.len() == 4,
        head[1] == 0,
        head[3] == 1 || head[3] == 3 || head[3] == 4,
        head[3] == 1 ==> bound.len() == 6,
        head[3] == 4 ==> bound.len() == 18,
        head[3] == 3 ==> name_len.len() == 1 && bound.len() == name_len[0] + 2,
    ensures
        ({
            let s0 = ExitCheckView {
                host,
                port,
                path,
                stage: ExitStage::AwaitAuth,
                pending: 2,
                body: Seq::<char>::empty(),
            };
            let (s1, a1) = after_bytes(s0, seq![5u8, 0u8]);
            let (s2, a2) = after_bytes(s1, head);
            let (s3, a3) = if head[3] == 3 {
                after_bytes(s2, name_len)
            } else {
                (s2, a2)
            };
            let (s4, a4) = after_bytes(s3, bound);
            &&& a1 == ExitActionView::Exchange { send: connect_request(host, port), receive: 4 }
            &&& a3 matches ExitActionView::Exchange { receive, .. } && receive == bound.len()
            &&& a4 == ExitActionView::Stream { send: encode_utf8(http_request_text(path, host)) }
            &&& s4.stage == ExitStage::AwaitReply
            &&& greeting() + sent(a1) + sent(a2) + (if head[3] == 3 {
                sent(a3)
            } else {
                Seq::<u8>::empty()
            }) + sent(a4) == greeting() + connect_request(host, port) + encode_utf8(
                http_request_text(path, host),
            )
        }),
{
    let e = Seq::<u8>::empty();
    assert(greeting() + connect_request(host, port) + e + e + encode_utf8(http_request_text(path, host))
        =~= greeting() + connect_request(host, port) + encode_utf8(http_request_text(path, host)));
    assert(greeting() + connect_request(host, port) + e + encode_utf8(http_request_text(path, host))
        =~= greeting() + connect_request(host, port) + encode_utf8(http_request_text(path, host)));
}

/// An exit check that finishes reports the address and country the reply
/// named, and a failed one that read a reply reports that it named no address.
pub proof fn lemma_answers_come_from_the_reply(s: ExitCheckView, got: Seq<u8>)
    ensures
        ({
            let (n, a) = after_chunk(s, got);
            &&& a matches ExitActionView::Finish { ip, .. } ==> json_field_value(n.body, "query"@)
                == Some(ip)
            &&& a matches ExitActionView::Fail(e) ==> e == ExitError::NoAddress && json_field_value(
                n.body,
                "query"@,
            ) is None
        }),
        after_end(s).1 matches ExitActionView::Finish { ip, country } ==> json_field_value(
            s.body,
            "query"@,
        ) == Some(ip),
        after_read_error(s).1 matches ExitActionView::Finish { ip, country } ==> json_field_value(
            s.body,
            "query"@,
        ) == Some(ip),
{
}

fn conclude(body: &String) -> (r: ExitAction)
    ensures
        r@ == conclusion(body@),
{
    match exit_reply(body.as_str()) {
        Ok((ip, country)) => ExitAction::Finish { ip, country },
        Err(e) => ExitAction::Fail(e),
    }
}

impl ExitCheck {
    /// Starts a check of what the internet sees when `path` on `host:port`
    /// is asked for through the proxy; the first action is the greeting.
    pub fn new(host: &str, port: u16, path: &str) -> (r: (ExitCheck, ExitAction))
        ensures
            r.0@ == (ExitCheckView {
                host: host@,
                port,
                path: path@,
                stage: ExitStage::AwaitAuth,
                pending: 2,
                body: Seq::<char>::empty(),
            }),
            r.1@ == (ExitActionView::Exchange { send: greeting(), receive: 2 }),
    {
        let check = ExitCheck {
            host: host.to_string(),
            port,
            path: path.to_string(),
            progress: Progress { stage: ExitStage::AwaitAuth, pending: 2 },
            body: String::new(),
        };
        let send: Vec<u8> = vec![5u8, 1u8, 0u8];
        assert(send@ =~= greeting());
        (check, ExitAction::Exchange { send, receive: 2 })
    }

    /// Where the check stands.
    pub fn stage(&self) -> (r: ExitStage)
        ensures
            r == self@.stage,
    {
        self.progress.stage
    }

    /// How many bytes the current exchange reads.
    pub fn pending(&self) -> (r: usize)
        ensures
            r == self@.pending,
    {
        self.progress.pending
    }

    /// Takes the bytes that the last exchange read.
    pub fn on_bytes(&mut self, got: &[u8]) -> (r: ExitAction)
        requires
            old(self)@.reading(),
            got@.len() == old(self)@.pending,
        ensures
            (final(self)@, r@) == after_bytes(old(self)@, got@),
    {
        proof {
            use_type_invariant(&*self);
        }
        match self.progress.stage {
            ExitStage::AwaitAuth => {
                if got[0] != 5 || got[1] != 0 {
                    self.progress = Progress { stage: ExitStage::Over, pending: 0 };
                    proof {
                        if got@ == seq![5u8, 0u8] {
                            assert(got@[0] == 5 && got@[1] == 0);
                        }
                    }
                    return ExitAction::Fail(ExitError::NoAcceptableAuth);
                }
                assert(got@ =~= seq![5u8, 0u8]);
                match socks_connect_request(self.host.as_str(), self.port) {
                    None => {
                        self.progress = Progress { stage: ExitStage::Over, pending: 0 };
                        ExitAction::Fail(ExitError::HostTooLong)
                    },
                    Some(req) => {
                        self.progress = Progress { stage: ExitStage::AwaitHead, pending: 4 };
                        ExitAction::Exchange { send: req, receive: 4 }
                    },
                }
            },
            ExitStage::AwaitHead => {
                if got[1] != 0 {
                    self.progress = Progress { stage: ExitStage::Over, pending: 0 };
                    ExitAction::Fail(ExitError::ConnectRefused)
                } else if got[3] == 1 || got[3] == 4 {
                    let k: usize = if got[3] == 1 { 6 } else { 18 };
                    self.progress = Progress { stage: ExitStage::AwaitAddress, pending: k };
                    ExitAction::Exchange { send: Vec::new(), receive: k }
                } else if got[3] == 3 {
                    self.progress = Progress { stage: ExitStage::AwaitNameLength, pending: 1 };
                    ExitAction::Exchange { send: Vec::new(), receive: 1 }
                } else {
                    self.progress = Progress { stage: ExitStage::Over, pending: 0 };
                    ExitAction::Fail(ExitError::BadReply)
                }
            },
            ExitStage::AwaitNameLength => {
                let k: usize = got[0] as usize + 2;
                self.progress = Progress { stage: ExitStage::AwaitAddress, pending: k };
                ExitAction::Exchange { send: Vec::new(), receive: k }
            },
            _ => {
                // One write for the whole request, so it leaves as one piece.
                let request = http_request(self.path.as_str(), self.host.as_str());
                let send = vstd::slice::slice_to_vec(request.as_str().as_bytes());
                self.progress = Progress { stage: ExitStage::AwaitReply, pending: 0 };
                ExitAction::Stream { send }
            },
        }
    }

    /// Takes a piece of the reply.
    pub fn on_chunk(&mut self, got: &[u8]) -> (r: ExitAction)
        requires
            old(self)@.stage is AwaitReply,
        ensures
            (final(self)@, r@) == after_chunk(old(self)@, got@),
    {
        let piece = decode_lossy(got);
        let mut body = self.body.clone();
        body.append(piece.as_str());
        self.body = body;
        if body_complete(self.body.as_str()) {
            self.progress = Progress { stage: ExitStage::Over, pending: 0 };
            conclude(&self.body)
        } else {
            ExitAction::Stream { send: Vec::new() }
        }
    }

    /// The far end closed before the reply looked complete.
    pub fn on_end(&mut self) -> (r: ExitAction)
        requires
            old(self)@.stage is AwaitReply,
        ensures
            (final(self)@, r@) == after_end(old(self)@),
    {
        self.progress = Progress { stage: ExitStage::Over, pending: 0 };
        conclude(&self.body)
    }

    /// A read of the reply failed.
    pub fn on_read_error(&mut self) -> (r: ExitAction)
        requires
            old(self)@.stage is AwaitReply,
        ensures
            (final(self)@, r@) == after_read_error(old(self)@),
    {
        self.progress = Progress { stage: ExitStage::Over, pending: 0 };
        if self.body.as_str().is_empty() {
            ExitAction::Fail(ExitError::ReadFailed)
        } else {
            conclude(&self.body)
        }
    }
}

} // verus!
