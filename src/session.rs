//! A key exchange over a TLS client connection: the request goes out when the
//! session is made, and `progress` folds what the server answers.

use vstd::prelude::*;
use vstd::string::StringSliceAdditionalSpecFns;

use std::ops::ControlFlow;

use crate::decoder::{decode_all, lemma_decode_all_rest};
use crate::exchange::{
    accept_all, fold_bytes, initial, key_export_context, lemma_fold_bytes_extend, NegotiationView,
    Outcome, NTP_DEFAULT_PORT, KeyExchangeError, KeyExchangeResult, KeyExchangeResultDecoder,
};
use crate::record::{decode, NtsRecord, RecordView};

verus! {

#[verifier::external_type_specification]
#[verifier::external_body]
pub struct ExClientConnection(rustls::ClientConnection);

#[verifier::external_type_specification]
#[verifier::external_body]
pub struct ExClientConfig(rustls::ClientConfig);

#[verifier::external_type_specification]
#[verifier::external_body]
pub struct ExServerName(rustls::ServerName);

#[verifier::external_type_specification]
#[verifier::external_body]
pub struct ExTlsError(rustls::Error);

#[verifier::external_type_specification]
#[verifier::external_body]
pub struct ExInvalidDnsNameError(rustls::client::InvalidDnsNameError);

#[verifier::external_type_specification]
#[verifier::external_body]
pub struct ExIoError(std::io::Error);

/// Relies on `ClientConnection::wants_read` of rustls.
#[verifier::external_body]
fn tls_wants_read(conn: &rustls::ClientConnection) -> bool {
    conn.wants_read()
}

/// Relies on `ClientConnection::wants_write` of rustls.
#[verifier::external_body]
fn tls_wants_write(conn: &rustls::ClientConnection) -> bool {
    conn.wants_write()
}

/// Relies on `ClientConnection::read_tls` of rustls, reading from `received`:
/// a reader hands out no more bytes than it holds.
#[verifier::external_body]
fn tls_read_tls(conn: &mut rustls::ClientConnection, received: &[u8]) -> (r: std::io::Result<usize>)
    ensures
        r matches Ok(n) ==> n <= received@.len(),
{
    let mut reader: &[u8] = received;
    conn.read_tls(&mut reader)
}

/// Relies on `ClientConnection::write_tls` of rustls, writing into a new buffer.
#[verifier::external_body]
fn tls_write_tls(conn: &mut rustls::ClientConnection) -> std::io::Result<Vec<u8>> {
    let mut out: Vec<u8> = Vec::new();
    match conn.write_tls(&mut out) {
        Ok(_) => Ok(out),
        Err(e) => Err(e),
    }
}

/// Relies on `ClientConnection::process_new_packets` of rustls.
#[verifier::external_body]
fn tls_process_new_packets(conn: &mut rustls::ClientConnection) -> Result<(), rustls::Error> {
    match conn.process_new_packets() {
        Ok(_) => Ok(()),
        Err(e) => Err(e),
    }
}

/// Relies on `Read::read` of the plaintext reader of rustls: the count it
/// returns is at most the length of `buf`.
#[verifier::external_body]
fn tls_read_plaintext(conn: &mut rustls::ClientConnection, buf: &mut [u8; 128]) -> (r:
    std::io::Result<usize>)
    ensures
        r matches Ok(n) ==> n <= 128,
{
    std::io::Read::read(&mut conn.reader(), buf)
}

/// Relies on `Write::write_all` of the plaintext writer of rustls, which
/// queues the bytes for sending.
#[verifier::external_body]
fn tls_write_plaintext(conn: &mut rustls::ClientConnection, bytes: &[u8]) -> std::io::Result<()> {
    std::io::Write::write_all(&mut conn.writer(), bytes)
}

/// Relies on `ErrorKind::WouldBlock` of std: whether the read would have
/// had to wait for more bytes.
#[verifier::external_body]
fn io_would_block(e: &std::io::Error) -> bool {
    e.kind() == std::io::ErrorKind::WouldBlock
}

/// Relies on `ClientConnection::export_keying_material` of rustls, which fills
/// all of `output` and never changes its length. It panics on an output longer
/// than 255 hash lengths under TLS 1.3 (8160 bytes for SHA-256, the shortest
/// hash) and on a context longer than 65535 bytes under TLS 1.2.
#[verifier::external_body]
fn tls_export_keying_material(
    conn: &rustls::ClientConnection,
    output: &mut Vec<u8>,
    label: &[u8],
    context: &[u8],
) -> (r: Result<(), rustls::Error>)
    requires
        old(output)@.len() <= 8160,
        context@.len() <= 0xffff,
    ensures
        final(output)@.len() == old(output)@.len(),
{
    conn.export_keying_material(output.as_mut_slice(), label, Some(context))
}

/// Relies on `ClientConfig::alpn_protocols` of rustls: the protocols offered.
#[verifier::external_body]
fn tls_set_alpn(config: &mut rustls::ClientConfig, protocols: Vec<Vec<u8>>) {
    config.alpn_protocols = protocols;
}

/// Whether rustls takes `name` as a server name: a DNS name or an IP address.
pub uninterp spec fn server_name_accepted(name: Seq<char>) -> bool;

/// Relies on `ServerName::try_from` of rustls: it accepts a DNS name or an IP
/// address, and whether it does depends on the string alone.
#[verifier::external_body]
fn tls_server_name(name: &str) -> (r: Result<rustls::ServerName, rustls::client::InvalidDnsNameError>)
    ensures
        r is Ok <==> server_name_accepted(name@),
{
    rustls::ServerName::try_from(name)
}

/// Relies on `ClientConnection::new` of rustls: starts the handshake.
#[verifier::external_body]
fn tls_connect(config: rustls::ClientConfig, name: rustls::ServerName) -> Result<
    rustls::ClientConnection,
    rustls::Error,
> {
    rustls::ClientConnection::new(std::sync::Arc::new(config), name)
}

/// The length of each exported key: AES-SIV-CMAC-256 takes 32 bytes.
pub const KEY_LENGTH: usize = 32;

/// Copies the bytes of a string.
fn bytes_of(s: &str) -> (r: Vec<u8>)
    ensures
        r@ == s.spec_bytes(),
{
    let b = s.as_bytes();
    let mut out: Vec<u8> = Vec::new();
    let mut i: usize = 0;
    while i < b.len()
        invariant
            i <= b@.len(),
            out@ =~= b@.take(i as int),
        decreases b@.len() - i,
    {
        out.push(b[i]);
        i += 1;
    }
    assert(b@.take(i as int) =~= b@);
    out
}

/// Exports the key of one direction.
fn export_key(conn: &rustls::ClientConnection, server_to_client: bool) -> (r: Result<
    Vec<u8>,
    KeyExchangeError,
>)
    ensures
        r matches Ok(k) ==> k@.len() == KEY_LENGTH,
        r matches Err(e) ==> e is Tls,
{
    let label = bytes_of("EXPORTER-network-time-security");
    let context = key_export_context(server_to_client);
    let mut key: Vec<u8> = vec![0u8; KEY_LENGTH];
    match tls_export_keying_material(conn, &mut key, label.as_slice(), context.as_slice()) {
        Ok(()) => Ok(key),
        Err(e) => Err(KeyExchangeError::Tls(e)),
    }
}

/// A key exchange in progress over a TLS client connection.
pub struct KeyExchangeClient {
    tls_connection: rustls::ClientConnection,
    decoder: KeyExchangeResultDecoder,
    server_name: String,
}

impl KeyExchangeClient {
    /// The negotiation is well formed and holds no whole record undecoded.
    pub closed spec fn wf(&self) -> bool {
        self.decoder.wf() && decode(self.decoder.buffer()) is None
    }

    /// The server first asked for.
    pub closed spec fn server_name(&self) -> Seq<char> {
        self.server_name@
    }

    /// The negotiation so far, with the decrypted bytes not yet decoded.
    pub closed spec fn negotiation(&self) -> KeyExchangeResultDecoder {
        self.decoder
    }

    pub fn wants_read(&mut self) -> (r: bool)
        ensures
            *final(self) == *old(self),
    {
        tls_wants_read(&self.tls_connection)
    }

    /// Hands TLS bytes received from the server to the connection; returns how
    /// many of them it took.
    pub fn read_socket(&mut self, received: &[u8]) -> (r: std::io::Result<usize>)
        requires
            old(self).wf(),
        ensures
            final(self).wf(),
            final(self).server_name() == old(self).server_name(),
            final(self).negotiation() == old(self).negotiation(),
            r matches Ok(n) ==> n <= received@.len(),
    {
        tls_read_tls(&mut self.tls_connection, received)
    }

    pub fn wants_write(&mut self) -> (r: bool)
        ensures
            *final(self) == *old(self),
    {
        tls_wants_write(&self.tls_connection)
    }

    /// The TLS bytes that are ready to go to the server.
    pub fn write_socket(&mut self) -> (r: std::io::Result<Vec<u8>>)
        requires
            old(self).wf(),
        ensures
            final(self).wf(),
            final(self).server_name() == old(self).server_name(),
            final(self).negotiation() == old(self).negotiation(),
    {
        tls_write_tls(&mut self.tls_connection)
    }

    /// Folds the decrypted bytes that have arrived into the negotiation. Goes
    /// on while a read would have to wait; ends with the result once the
    /// server's message is complete, or with the first failure.
    ///
    /// Whatever the connection hands out, some bytes `b` were read, and the
    /// outcome is what they do to the negotiation (`fold_bytes`). The result
    /// names the server and port the server sent, or the server first asked
    /// and the default port. Other failures come from TLS or I/O, or from the
    /// server closing before its message was complete.
    ///
    /// A call reads at most `u64::MAX` chunks; should that many be ready, the
    /// session goes on and the next call reads on.
    pub fn progress(self) -> (r: ControlFlow<Result<KeyExchangeResult, KeyExchangeError>, Self>)
        requires
            self.wf(),
        ensures
            r matches ControlFlow::Continue(c) ==> c.wf() && c.server_name() == self.server_name()
                && exists|b: Seq<u8>|
                #![trigger fold_bytes(self.negotiation().state(), self.negotiation().buffer(), b)]
                fold_bytes(self.negotiation().state(), self.negotiation().buffer(), b)
                    == Outcome::Continue(c.negotiation().state()) && c.negotiation().buffer()
                    == decode_all(self.negotiation().buffer() + b).1,
            r matches ControlFlow::Break(Ok(res)) ==> res.nts.c2s@.len() == KEY_LENGTH
                && res.nts.s2c@.len() == KEY_LENGTH && res.nts.cookies@.len() > 0
                && res.nts.cookies.wf() && exists|b: Seq<u8>, t: NegotiationView|
                #![trigger fold_bytes(self.negotiation().state(), self.negotiation().buffer(), b), t.cookies]
                fold_bytes(self.negotiation().state(), self.negotiation().buffer(), b)
                    == Outcome::Done(Ok(t)) && res.remote@ == match t.remote {
                    Some(name) => name,
                    None => self.server_name(),
                } && res.port == match t.port {
                    Some(p) => p,
                    None => NTP_DEFAULT_PORT,
                } && res.nts.cookies@ == t.cookies,
            r matches ControlFlow::Break(Err(e)) ==> e is Tls || e is Io || e is IncompleteResponse
                || exists|b: Seq<u8>|
                #![trigger fold_bytes(self.negotiation().state(), self.negotiation().buffer(), b)]
                fold_bytes(self.negotiation().state(), self.negotiation().buffer(), b)
                    == Outcome::Done(Err(e)),
    {
        let ghost s0 = self.negotiation().state();
        let ghost buf0 = self.negotiation().buffer();
        let ghost sn = self.server_name();
        proof {
            assert(buf0 + Seq::<u8>::empty() =~= buf0);
            assert(decode_all(buf0).0 =~= Seq::<RecordView>::empty());
            assert(accept_all(s0, Seq::<RecordView>::empty()) == Outcome::Continue(s0));
        }
        let ghost mut consumed: Seq<u8> = Seq::empty();
        let mut this = self;
        let mut buf = [0u8; 128];
        let mut rounds: u64 = 0;
        while rounds < u64::MAX
            invariant
                this.wf(),
                this.server_name() == sn,
                s0 == self.negotiation().state(),
                buf0 == self.negotiation().buffer(),
                sn == self.server_name(),
                fold_bytes(s0, buf0, consumed) == Outcome::Continue(this.negotiation().state()),
                this.negotiation().buffer() == decode_all(buf0 + consumed).1,
            decreases u64::MAX - rounds,
        {
            rounds += 1;
            if let Err(e) = tls_process_new_packets(&mut this.tls_connection) {
                return ControlFlow::Break(Err(KeyExchangeError::Tls(e)));
            }
            let n = match tls_read_plaintext(&mut this.tls_connection, &mut buf) {
                Ok(n) => n,
                Err(e) => {
                    if io_would_block(&e) {
                        return ControlFlow::Continue(this);
                    } else {
                        return ControlFlow::Break(Err(KeyExchangeError::Io(e)));
                    }
                },
            };
            let chunk = &buf[0..n];
            let ghost c = chunk@;
            proof {
                lemma_fold_bytes_extend(s0, buf0, consumed, c);
                lemma_decode_all_rest(buf0 + (consumed + c));
            }
            let KeyExchangeClient { tls_connection, decoder, server_name } = this;
            match decoder.step_with_read(chunk) {
                ControlFlow::Continue(decoder) => {
                    this = KeyExchangeClient { tls_connection, decoder, server_name };
                    proof {
                        consumed = consumed + c;
                    }
                },
                ControlFlow::Break(Err(e)) => {
                    return ControlFlow::Break(Err(e));
                },
                ControlFlow::Break(Ok(data)) => {
                    let ghost t = data@;
                    let c2s = match export_key(&tls_connection, false) {
                        Ok(k) => k,
                        Err(e) => return ControlFlow::Break(Err(e)),
                    };
                    let s2c = match export_key(&tls_connection, true) {
                        Ok(k) => k,
                        Err(e) => return ControlFlow::Break(Err(e)),
                    };
                    let res = KeyExchangeResult::from_negotiation(data, server_name, c2s, s2c);
                    assert(fold_bytes(s0, buf0, consumed + c) == Outcome::Done(Ok(t)));
                    assert(t.cookies == res.nts.cookies@);
                    return ControlFlow::Break(Ok(res));
                },
            }
        }
        ControlFlow::Continue(this)
    }

    /// Starts a key exchange with `server_name`: offers only the `ntske/1`
    /// protocol and queues the client request on the connection.
    pub fn new(server_name: String, tls_config: rustls::ClientConfig) -> (r: Result<
        Self,
        KeyExchangeError,
    >)
        ensures
            r matches Ok(c) ==> c.wf() && c.server_name() == server_name@ && c.negotiation().state()
                == initial() && c.negotiation().buffer() == Seq::<u8>::empty(),
            !server_name_accepted(server_name@) ==> r matches Err(KeyExchangeError::DnsName(_)),
            r is Ok ==> server_name_accepted(server_name@),
            r matches Err(e) ==> (e is DnsName <==> !server_name_accepted(server_name@)) && (
            e is DnsName || e is Tls || e is Io),
    {
        let mut tls_config = tls_config;
        let mut protocols: Vec<Vec<u8>> = Vec::new();
        protocols.push(bytes_of("ntske/1"));
        tls_set_alpn(&mut tls_config, protocols);
        let name = match tls_server_name(server_name.as_str()) {
            Ok(name) => name,
            Err(e) => return Err(KeyExchangeError::DnsName(e)),
        };
        let mut tls_connection = match tls_connect(tls_config, name) {
            Ok(c) => c,
            Err(e) => return Err(KeyExchangeError::Tls(e)),
        };
        let request = NtsRecord::client_key_exchange_bytes();
        if let Err(e) = tls_write_plaintext(&mut tls_connection, request.as_slice()) {
            return Err(KeyExchangeError::Io(e));
        }
        Ok(KeyExchangeClient { tls_connection, decoder: KeyExchangeResultDecoder::new(), server_name })
    }
}

} // verus!
