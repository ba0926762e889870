//! The negotiation: folding the server's records into a result.

use vstd::prelude::*;

use std::ops::ControlFlow;

use crate::cookies::{stored, CookieStash, MAX_COOKIES};
use crate::decoder::{decode_all, lemma_chunk_invariance, lemma_decode_prefix, NtsRecordDecoder};
use crate::record::{decode, NtsRecord, RecordView};

verus! {

/// The port a server is reached on when it names none.
pub const NTP_DEFAULT_PORT: u16 = 123;

/// The one next protocol this client speaks: NTPv4.
pub const NTP4: u16 = 0;

/// The one AEAD algorithm this client supports: AEAD_AES_SIV_CMAC_256.
pub const AES_SIV_CMAC_256: u16 = 15;

/// Why a key exchange failed.
#[derive(Debug)]
pub enum KeyExchangeError {
    UnrecognizedCriticalRecord,
    BadRequest,
    InternalServerError,
    UnknownErrorCode(u16),
    NoValidProtocol,
    NoValidAlgorithm,
    NoCookies,
    Io(std::io::Error),
    Tls(rustls::Error),
    DnsName(rustls::client::InvalidDnsNameError),
    IncompleteResponse,
}

/// What has been negotiated so far: an overriding server name and port, and
/// the cookies received.
pub struct NegotiationView {
    pub remote: Option<Seq<char>>,
    pub port: Option<u16>,
    pub cookies: Seq<Seq<u8>>,
}

/// Either the negotiation goes on from a state, or it has ended.
pub enum Outcome {
    Continue(NegotiationView),
    Done(Result<NegotiationView, KeyExchangeError>),
}

/// The failure that a server's error code stands for.
pub open spec fn error_for_code(code: u16) -> KeyExchangeError {
    if code == 0 {
        KeyExchangeError::UnrecognizedCriticalRecord
    } else if code == 1 {
        KeyExchangeError::BadRequest
    } else if code == 2 {
        KeyExchangeError::InternalServerError
    } else {
        KeyExchangeError::UnknownErrorCode(code)
    }
}

/// One step of the negotiation: the state after `r`, or its end.
pub open spec fn accept(s: NegotiationView, r: RecordView) -> Outcome {
    match r {
        RecordView::EndOfMessage => if s.cookies.len() == 0 {
            Outcome::Done(Err(KeyExchangeError::NoCookies))
        } else {
            Outcome::Done(Ok(s))
        },
        RecordView::NewCookie { cookie_data } => Outcome::Continue(
            NegotiationView {
                remote: s.remote,
                port: s.port,
                cookies: stored(s.cookies, cookie_data),
            },
        ),
        RecordView::Server { name, .. } => Outcome::Continue(
            NegotiationView { remote: Some(name), port: s.port, cookies: s.cookies },
        ),
        RecordView::Port { port, .. } => Outcome::Continue(
            NegotiationView { remote: s.remote, port: Some(port), cookies: s.cookies },
        ),
        RecordView::Error { errorcode } => Outcome::Done(Err(error_for_code(errorcode))),
        RecordView::NextProtocol { protocol_ids } => if protocol_ids.contains(NTP4) {
            Outcome::Continue(s)
        } else {
            Outcome::Done(Err(KeyExchangeError::NoValidProtocol))
        },
        RecordView::AeadAlgorithm { algorithm_ids, .. } => if algorithm_ids.contains(
            AES_SIV_CMAC_256,
        ) {
            Outcome::Continue(s)
        } else {
            Outcome::Done(Err(KeyExchangeError::NoValidAlgorithm))
        },
        RecordView::Warning { .. } => Outcome::Continue(s),
        RecordView::Unknown { .. } => Outcome::Continue(s),
    }
}

/// The negotiation over `rs` from `s`, left to right, stopping at the first end.
pub open spec fn accept_all(s: NegotiationView, rs: Seq<RecordView>) -> Outcome
    decreases rs.len(),
{
    if rs.len() == 0 {
        Outcome::Continue(s)
    } else {
        match accept(s, rs[0]) {
            Outcome::Continue(t) => accept_all(t, rs.skip(1)),
            done => done,
        }
    }
}

/// The state a negotiation starts from.
pub open spec fn initial() -> NegotiationView {
    NegotiationView { remote: None, port: None, cookies: seq![] }
}

pub proof fn lemma_accept_all_cons(s: NegotiationView, m: RecordView, rs: Seq<RecordView>)
    ensures
        accept_all(s, seq![m] + rs) == match accept(s, m) {
            Outcome::Continue(t) => accept_all(t, rs),
            done => done,
        },
{
    assert((seq![m] + rs).skip(1) =~= rs);
    assert((seq![m] + rs)[0] == m);
}

/// Without a cookie there is no success: from a state with no cookies, over
/// records of which none is a cookie, the negotiation never ends well, and an
/// end of message that it reaches fails with `NoCookies`.
pub proof fn lemma_no_cookies(s: NegotiationView, rs: Seq<RecordView>)
    requires
        s.cookies.len() == 0,
        forall|i: int| 0 <= i < rs.len() ==> !(rs[i] is NewCookie),
    ensures
        accept_all(s, rs) matches Outcome::Continue(t) ==> t.cookies.len() == 0,
        !(accept_all(s, rs) matches Outcome::Done(Ok(_))),
        accept_all(s, rs) is Continue ==> accept_all(s, rs.push(RecordView::EndOfMessage))
            == Outcome::Done(Err(KeyExchangeError::NoCookies)),
    decreases rs.len(),
{
    if rs.len() == 0 {
        assert(seq![RecordView::EndOfMessage] =~= rs.push(RecordView::EndOfMessage));
        lemma_accept_all_cons(s, RecordView::EndOfMessage, seq![]);
    } else {
        let tail = rs.skip(1);
        assert(rs =~= seq![rs[0]] + tail);
        assert(rs.push(RecordView::EndOfMessage) =~= seq![rs[0]] + tail.push(
            RecordView::EndOfMessage,
        ));
        lemma_accept_all_cons(s, rs[0], tail);
        lemma_accept_all_cons(s, rs[0], tail.push(RecordView::EndOfMessage));
        match accept(s, rs[0]) {
            Outcome::Continue(t) => {
                lemma_no_cookies(t, tail);
            },
            _ => {},
        }
    }
}

/// A negotiation that succeeds has received at least one cookie, and the stash
/// never holds more than it may.
pub proof fn lemma_success_has_cookies(s: NegotiationView, rs: Seq<RecordView>)
    requires
        s.cookies.len() <= MAX_COOKIES,
    ensures
        accept_all(s, rs) matches Outcome::Continue(t) ==> t.cookies.len() <= MAX_COOKIES,
        accept_all(s, rs) matches Outcome::Done(Ok(t)) ==> 0 < t.cookies.len() <= MAX_COOKIES,
    decreases rs.len(),
{
    if rs.len() > 0 {
        match accept(s, rs[0]) {
            Outcome::Continue(t) => lemma_success_has_cookies(t, rs.skip(1)),
            _ => {},
        }
    }
}

/// Without a cookie there is no success, whatever bytes arrive: when none of
/// the records they complete is a cookie, a negotiation that has none never
/// succeeds, and an end of message that follows fails with `NoCookies`.
pub proof fn lemma_no_cookies_in_bytes(s: NegotiationView, buffer: Seq<u8>, b: Seq<u8>)
    requires
        s.cookies.len() == 0,
        forall|i: int|
            0 <= i < decode_all(buffer + b).0.len() ==> !(#[trigger] decode_all(buffer + b).0[i] is NewCookie),
    ensures
        !(fold_bytes(s, buffer, b) matches Outcome::Done(Ok(_))),
        fold_bytes(s, buffer, b) is Continue ==> accept_all(
            s,
            decode_all(buffer + b).0.push(RecordView::EndOfMessage),
        ) == Outcome::Done(Err(KeyExchangeError::NoCookies)),
{
    lemma_no_cookies(s, decode_all(buffer + b).0);
}

/// Folding `xs` and then `ys` is folding `xs + ys`.
pub proof fn lemma_accept_all_append(s: NegotiationView, xs: Seq<RecordView>, ys: Seq<RecordView>)
    ensures
        accept_all(s, xs + ys) == match accept_all(s, xs) {
            Outcome::Continue(t) => accept_all(t, ys),
            done => done,
        },
    decreases xs.len(),
{
    if xs.len() == 0 {
        assert(xs + ys =~= ys);
    } else {
        assert((xs + ys)[0] == xs[0]);
        assert((xs + ys).skip(1) =~= xs.skip(1) + ys);
        match accept(s, xs[0]) {
            Outcome::Continue(t) => lemma_accept_all_append(t, xs.skip(1), ys),
            _ => {},
        }
    }
}

/// The negotiation from `s` with `buffer` undecoded, after the bytes `b` arrive.
pub open spec fn fold_bytes(s: NegotiationView, buffer: Seq<u8>, b: Seq<u8>) -> Outcome {
    accept_all(s, decode_all(buffer + b).0)
}

/// Bytes may arrive in pieces: when the negotiation goes on after `b`, what
/// `c` then does to it is what `b + c` does from the start.
pub proof fn lemma_fold_bytes_extend(s: NegotiationView, buffer: Seq<u8>, b: Seq<u8>, c: Seq<u8>)
    requires
        fold_bytes(s, buffer, b) is Continue,
    ensures
        fold_bytes(s, buffer, b + c) == accept_all(
            fold_bytes(s, buffer, b)->Continue_0,
            decode_all(decode_all(buffer + b).1 + c).0,
        ),
        decode_all(buffer + (b + c)).1 == decode_all(decode_all(buffer + b).1 + c).1,
{
    lemma_chunk_invariance(buffer + b, c);
    assert(buffer + b + c =~= buffer + (b + c));
    lemma_accept_all_append(
        s,
        decode_all(buffer + b).0,
        decode_all(decode_all(buffer + b).1 + c).0,
    );
}

/// The outcome of a negotiation: what it yielded, with its cookies.
#[derive(Debug)]
pub struct PartialKeyExchangeData {
    pub remote: Option<String>,
    pub port: Option<u16>,
    pub cookies: CookieStash,
}

impl View for PartialKeyExchangeData {
    type V = NegotiationView;

    open spec fn view(&self) -> NegotiationView {
        NegotiationView {
            remote: match self.remote {
                Some(r) => Some(r@),
                None => None,
            },
            port: self.port,
            cookies: self.cookies@,
        }
    }
}

/// The negotiation in progress: the bytes not yet decoded, and the state.
#[derive(Debug)]
pub struct KeyExchangeResultDecoder {
    decoder: NtsRecordDecoder,
    remote: Option<String>,
    port: Option<u16>,
    cookies: CookieStash,
}

/// What a step of the negotiation returned, as a value.
pub open spec fn flow_view(
    r: ControlFlow<Result<PartialKeyExchangeData, KeyExchangeError>, KeyExchangeResultDecoder>,
) -> Outcome {
    match r {
        ControlFlow::Continue(d) => Outcome::Continue(d.state()),
        ControlFlow::Break(Ok(p)) => Outcome::Done(Ok(p@)),
        ControlFlow::Break(Err(e)) => Outcome::Done(Err(e)),
    }
}

/// A step that goes on leaves a well-formed negotiation holding `buffer`.
pub open spec fn continues_with(
    r: ControlFlow<Result<PartialKeyExchangeData, KeyExchangeError>, KeyExchangeResultDecoder>,
    buffer: Seq<u8>,
) -> bool {
    r matches ControlFlow::Continue(d) ==> d.wf() && d.buffer() == buffer
}

impl KeyExchangeResultDecoder {
    /// The negotiated state.
    pub closed spec fn state(&self) -> NegotiationView {
        NegotiationView {
            remote: match self.remote {
                Some(r) => Some(r@),
                None => None,
            },
            port: self.port,
            cookies: self.cookies@,
        }
    }

    /// The received bytes not yet decoded.
    pub closed spec fn buffer(&self) -> Seq<u8> {
        self.decoder@
    }

    pub closed spec fn wf(&self) -> bool {
        self.cookies.wf()
    }

    pub fn new() -> (r: Self)
        ensures
            r.wf(),
            r.state() == initial(),
            r.buffer() == Seq::<u8>::empty(),
    {
        KeyExchangeResultDecoder {
            decoder: NtsRecordDecoder::new(),
            remote: None,
            port: None,
            cookies: CookieStash::new(),
        }
    }

    /// Appends received bytes and folds every whole record now buffered into
    /// the negotiation, stopping at the first end. When it goes on, the bytes
    /// of an incomplete record stay buffered.
    pub fn step_with_slice(self, bytes: &[u8]) -> (r: ControlFlow<
        Result<PartialKeyExchangeData, KeyExchangeError>,
        KeyExchangeResultDecoder,
    >)
        requires
            self.wf(),
        ensures
            flow_view(r) == accept_all(self.state(), decode_all(self.buffer() + bytes@).0),
            continues_with(r, decode_all(self.buffer() + bytes@).1),
            r matches ControlFlow::Break(Ok(p)) ==> p.cookies.wf() && p.cookies@.len() > 0,
    {
        proof {
            lemma_success_has_cookies(self.state(), decode_all(self.buffer() + bytes@).0);
        }
        let ghost all = self.buffer() + bytes@;
        let mut this = self;
        this.decoder.extend(bytes);
        loop
            invariant
                all == self.buffer() + bytes@,
                this.wf(),
                accept_all(self.state(), decode_all(all).0) == accept_all(
                    this.state(),
                    decode_all(this.buffer()).0,
                ),
                decode_all(this.buffer()).1 == decode_all(all).1,
            decreases this.buffer().len(),
        {
            let ghost before = this.buffer();
            let ghost state = this.state();
            match this.decoder.step() {
                None => {
                    assert(decode_all(before).0 =~= Seq::<RecordView>::empty());
                    assert(accept_all(state, Seq::<RecordView>::empty()) == Outcome::Continue(state));
                    return ControlFlow::Continue(this);
                },
                Some(record) => {
                    let ghost n = (decode(before)->0).1;
                    proof {
                        lemma_decode_prefix(before, seq![]);
                        assert(before + seq![] =~= before);
                        assert(decode_all(before).0 =~= seq![record@] + decode_all(
                            before.skip(n as int),
                        ).0);
                        lemma_accept_all_cons(state, record@, decode_all(before.skip(n as int)).0);
                    }
                    let ghost m = record@;
                    let ghost rest = decode_all(before.skip(n as int)).0;
                    let step = this.step_with_record(record);
                    match step {
                        ControlFlow::Continue(next) => {
                            this = next;
                        },
                        ControlFlow::Break(result) => {
                            assert(accept(state, m) is Done);
                            assert(accept_all(state, decode_all(before).0) == accept(state, m));
                            return ControlFlow::Break(result);
                        },
                    }
                },
            }
        }
    }

    /// Handles one read of decrypted bytes: a read of nothing means the
    /// server closed before the negotiation ended.
    pub fn step_with_read(self, bytes: &[u8]) -> (r: ControlFlow<
        Result<PartialKeyExchangeData, KeyExchangeError>,
        KeyExchangeResultDecoder,
    >)
        requires
            self.wf(),
        ensures
            bytes@.len() == 0 ==> flow_view(r) == Outcome::Done(
                Err(KeyExchangeError::IncompleteResponse),
            ),
            bytes@.len() > 0 ==> flow_view(r) == accept_all(
                self.state(),
                decode_all(self.buffer() + bytes@).0,
            ),
            continues_with(r, decode_all(self.buffer() + bytes@).1),
            r matches ControlFlow::Break(Ok(p)) ==> p.cookies.wf() && p.cookies@.len() > 0,
    {
        if bytes.len() == 0 {
            ControlFlow::Break(Err(KeyExchangeError::IncompleteResponse))
        } else {
            self.step_with_slice(bytes)
        }
    }

    /// Folds one record into the negotiation.
    pub fn step_with_record(self, record: NtsRecord) -> (r: ControlFlow<
        Result<PartialKeyExchangeData, KeyExchangeError>,
        KeyExchangeResultDecoder,
    >)
        requires
            self.wf(),
        ensures
            flow_view(r) == accept(self.state(), record@),
            continues_with(r, self.buffer()),
    {
        let mut state = self;
        match record {
            NtsRecord::EndOfMessage => {
                if state.cookies.is_empty() {
                    ControlFlow::Break(Err(KeyExchangeError::NoCookies))
                } else {
                    ControlFlow::Break(
                        Ok(
                            PartialKeyExchangeData {
                                remote: state.remote,
                                port: state.port,
                                cookies: state.cookies,
                            },
                        ),
                    )
                }
            },
            NtsRecord::NewCookie { cookie_data } => {
                state.cookies.store(cookie_data);
                ControlFlow::Continue(state)
            },
            NtsRecord::Server { name, .. } => {
                state.remote = Some(name);
                ControlFlow::Continue(state)
            },
            NtsRecord::Port { port, .. } => {
                state.port = Some(port);
                ControlFlow::Continue(state)
            },
            NtsRecord::Error { errorcode } => {
                let error = if errorcode == 0 {
                    KeyExchangeError::UnrecognizedCriticalRecord
                } else if errorcode == 1 {
                    KeyExchangeError::BadRequest
                } else if errorcode == 2 {
                    KeyExchangeError::InternalServerError
                } else {
                    KeyExchangeError::UnknownErrorCode(errorcode)
                };
                ControlFlow::Break(Err(error))
            },
            NtsRecord::Warning { .. } => ControlFlow::Continue(state),
            NtsRecord::NextProtocol { protocol_ids } => {
                if contains(&protocol_ids, NTP4) {
                    ControlFlow::Continue(state)
                } else {
                    ControlFlow::Break(Err(KeyExchangeError::NoValidProtocol))
                }
            },
            NtsRecord::AeadAlgorithm { algorithm_ids, .. } => {
                if contains(&algorithm_ids, AES_SIV_CMAC_256) {
                    ControlFlow::Continue(state)
                } else {
                    ControlFlow::Break(Err(KeyExchangeError::NoValidAlgorithm))
                }
            },
            NtsRecord::Unknown { .. } => ControlFlow::Continue(state),
        }
    }
}

/// What a client keeps of a server after the exchange: the cookies, and the
/// key material of the two directions.
#[derive(Debug)]
pub struct PeerNtsData {
    pub cookies: CookieStash,
    pub c2s: Vec<u8>,
    pub s2c: Vec<u8>,
}

/// The result of a successful key exchange.
#[derive(Debug)]
pub struct KeyExchangeResult {
    pub remote: String,
    pub port: u16,
    pub nts: PeerNtsData,
}

/// The context of the key exported for one direction: the protocol (NTPv4),
/// the algorithm, and 0 for client to server or 1 for server to client.
pub open spec fn key_context(server_to_client: bool) -> Seq<u8> {
    seq![0u8, 0, 0, 15, if server_to_client { 1u8 } else { 0u8 }]
}

/// The context under which the key of one direction is exported.
pub fn key_export_context(server_to_client: bool) -> (r: Vec<u8>)
    ensures
        r@ == key_context(server_to_client),
{
    let mut r: Vec<u8> = Vec::new();
    r.push(0);
    r.push(0);
    r.push((NTP4 / 256) as u8);
    r.push(AES_SIV_CMAC_256 as u8);
    r.push(if server_to_client { 1 } else { 0 });
    assert(r@ =~= key_context(server_to_client));
    r
}

impl KeyExchangeResult {
    /// The result of a negotiation that succeeded: the server and port it
    /// named, or the server first asked and the default port.
    pub fn from_negotiation(
        data: PartialKeyExchangeData,
        server_name: String,
        c2s: Vec<u8>,
        s2c: Vec<u8>,
    ) -> (r: Self)
        ensures
            r.remote@ == match data.remote {
                Some(name) => name@,
                None => server_name@,
            },
            r.port == match data.port {
                Some(p) => p,
                None => NTP_DEFAULT_PORT,
            },
            r.nts.cookies@ == data.cookies@,
            r.nts.c2s@ == c2s@,
            r.nts.s2c@ == s2c@,
    {
        let remote = match data.remote {
            Some(name) => name,
            None => server_name,
        };
        let port = match data.port {
            Some(p) => p,
            None => NTP_DEFAULT_PORT,
        };
        KeyExchangeResult { remote, port, nts: PeerNtsData { cookies: data.cookies, c2s, s2c } }
    }
}

/// Whether `ids` holds `id`.
fn contains(ids: &Vec<u16>, id: u16) -> (r: bool)
    ensures
        r == ids@.contains(id),
{
    let mut i: usize = 0;
    while i < ids.len()
        invariant
            i <= ids@.len(),
            forall|j: int| 0 <= j < i ==> ids@[j] != id,
        decreases ids@.len() - i,
    {
        if ids[i] == id {
            return true;
        }
        i += 1;
    }
    false
}

} // verus!
