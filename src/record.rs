//! NTS-KE records and their wire format:
//! `u16 type | critical bit`, `u16 body length`, body; all integers big-endian.

use vstd::prelude::*;
use vstd::utf8::*;

verus! {

/// Why a record cannot be serialized.
#[derive(Debug, Clone, Copy, PartialEq, Eq, Structural)]
pub enum WriteError {
    /// The record's fields break the wire format (a type with the critical bit set).
    Invalid,
    /// The body does not fit the 16-bit length field.
    TooLong,
}

/// The two big-endian bytes of `x`.
pub open spec fn be_bytes(x: u16) -> Seq<u8> {
    seq![(x / 256) as u8, (x % 256) as u8]
}

/// The value of the big-endian pair `hi`, `lo`.
pub open spec fn be_value(hi: u8, lo: u8) -> u16 {
    (hi as int * 256 + lo as int) as u16
}

/// The concatenated big-endian encodings of `ids`.
pub open spec fn u16s_to_bytes(ids: Seq<u16>) -> Seq<u8> {
    Seq::new(2 * ids.len(), |i: int| be_bytes(ids[i / 2])[i % 2])
}

/// The big-endian `u16`s of `b`, two bytes each (a trailing odd byte is ignored).
pub open spec fn bytes_to_u16s(b: Seq<u8>) -> Seq<u16> {
    Seq::new(b.len() / 2, |i: int| be_value(b[2 * i], b[2 * i + 1]))
}

pub proof fn lemma_be_round_trip(x: u16)
    ensures
        be_value(be_bytes(x)[0], be_bytes(x)[1]) == x,
{
}

pub proof fn lemma_u16s_round_trip(ids: Seq<u16>)
    ensures
        bytes_to_u16s(u16s_to_bytes(ids)) =~= ids,
        u16s_to_bytes(ids).len() == 2 * ids.len(),
{
    let b = u16s_to_bytes(ids);
    assert forall|j: int| 0 <= j < ids.len() implies bytes_to_u16s(b)[j] == ids[j] by {
        assert((2 * j) / 2 == j && (2 * j) % 2 == 0);
        assert((2 * j + 1) / 2 == j && (2 * j + 1) % 2 == 1);
        lemma_be_round_trip(ids[j]);
    }
}

/// Appends the big-endian encoding of `x`.
fn push_u16_be(out: &mut Vec<u8>, x: u16)
    ensures
        final(out)@ == old(out)@ + be_bytes(x),
{
    out.push((x / 256) as u8);
    out.push((x % 256) as u8);
    assert(out@ =~= old(out)@ + be_bytes(x));
}

/// Appends every byte of `data`.
fn push_bytes(out: &mut Vec<u8>, data: &[u8])
    ensures
        final(out)@ == old(out)@ + data@,
{
    let mut i: usize = 0;
    while i < data.len()
        invariant
            i <= data@.len(),
            out@ == old(out)@ + data@.take(i as int),
        decreases data@.len() - i,
    {
        out.push(data[i]);
        i += 1;
        assert(out@ =~= old(out)@ + data@.take(i as int));
    }
    assert(data@.take(i as int) =~= data@);
}

/// Appends the big-endian encodings of `ids`.
fn push_u16s_be(out: &mut Vec<u8>, ids: &[u16])
    requires
        ids@.len() < 0x8000,
    ensures
        final(out)@ == old(out)@ + u16s_to_bytes(ids@),
{
    let mut i: usize = 0;
    while i < ids.len()
        invariant
            i <= ids@.len() < 0x8000,
            out@ == old(out)@ + u16s_to_bytes(ids@.take(i as int)),
        decreases ids@.len() - i,
    {
        let ghost before = out@;
        push_u16_be(out, ids[i]);
        proof {
            let t = ids@.take(i as int);
            let t1 = ids@.take(i + 1);
            assert forall|k: int| 0 <= k < 2 * t1.len() implies u16s_to_bytes(t1)[k] == (
            u16s_to_bytes(t) + be_bytes(ids@[i as int]))[k] by {
                if k < 2 * i {
                    assert(k / 2 < i);
                } else {
                    assert(k / 2 == i);
                }
            }
            assert(u16s_to_bytes(t1) =~= u16s_to_bytes(t) + be_bytes(ids@[i as int]));
        }
        i += 1;
    }
    assert(ids@.take(i as int) =~= ids@);
}

/// Reads the big-endian `u16` at `pos`.
fn read_u16_be(bytes: &[u8], pos: usize) -> (r: u16)
    requires
        pos + 2 <= bytes@.len(),
    ensures
        r == be_value(bytes@[pos as int], bytes@[pos + 1]),
{
    (bytes[pos] as u16) * 256 + bytes[pos + 1] as u16
}

/// One NTS-KE record.
#[derive(Debug, Clone, PartialEq, Eq)]
pub enum NtsRecord {
    EndOfMessage,
    NextProtocol { protocol_ids: Vec<u16> },
    Error { errorcode: u16 },
    Warning { warningcode: u16 },
    AeadAlgorithm { critical: bool, algorithm_ids: Vec<u16> },
    NewCookie { cookie_data: Vec<u8> },
    Server { critical: bool, name: String },
    Port { critical: bool, port: u16 },
    Unknown { record_type: u16, critical: bool, data: Vec<u8> },
}

/// The mathematical value of an [`NtsRecord`].
pub enum RecordView {
    EndOfMessage,
    NextProtocol { protocol_ids: Seq<u16> },
    Error { errorcode: u16 },
    Warning { warningcode: u16 },
    AeadAlgorithm { critical: bool, algorithm_ids: Seq<u16> },
    NewCookie { cookie_data: Seq<u8> },
    Server { critical: bool, name: Seq<char> },
    Port { critical: bool, port: u16 },
    Unknown { record_type: u16, critical: bool, data: Seq<u8> },
}

impl View for NtsRecord {
    type V = RecordView;

    open spec fn view(&self) -> RecordView {
        match self {
            NtsRecord::EndOfMessage => RecordView::EndOfMessage,
            NtsRecord::NextProtocol { protocol_ids } => RecordView::NextProtocol {
                protocol_ids: protocol_ids@,
            },
            NtsRecord::Error { errorcode } => RecordView::Error { errorcode: *errorcode },
            NtsRecord::Warning { warningcode } => RecordView::Warning { warningcode: *warningcode },
            NtsRecord::AeadAlgorithm { critical, algorithm_ids } => RecordView::AeadAlgorithm {
                critical: *critical,
                algorithm_ids: algorithm_ids@,
            },
            NtsRecord::NewCookie { cookie_data } => RecordView::NewCookie {
                cookie_data: cookie_data@,
            },
            NtsRecord::Server { critical, name } => RecordView::Server {
                critical: *critical,
                name: name@,
            },
            NtsRecord::Port { critical, port } => RecordView::Port {
                critical: *critical,
                port: *port,
            },
            NtsRecord::Unknown { record_type, critical, data } => RecordView::Unknown {
                record_type: *record_type,
                critical: *critical,
                data: data@,
            },
        }
    }
}

impl RecordView {
    /// The type number written on the wire, without the critical bit.
    pub open spec fn record_type(self) -> u16 {
        match self {
            RecordView::EndOfMessage => 0,
            RecordView::NextProtocol { .. } => 1,
            RecordView::Error { .. } => 2,
            RecordView::Warning { .. } => 3,
            RecordView::AeadAlgorithm { .. } => 4,
            RecordView::NewCookie { .. } => 5,
            RecordView::Server { .. } => 6,
            RecordView::Port { .. } => 7,
            RecordView::Unknown { record_type, .. } => (record_type % 0x8000) as u16,
        }
    }

    pub open spec fn is_critical(self) -> bool {
        match self {
            RecordView::AeadAlgorithm { critical, .. } => critical,
            RecordView::NewCookie { .. } => false,
            RecordView::Server { critical, .. } => critical,
            RecordView::Port { critical, .. } => critical,
            RecordView::Unknown { critical, .. } => critical,
            _ => true,
        }
    }

    /// Whether the record can be written, and if not, why.
    pub open spec fn check(self) -> Result<(), WriteError> {
        match self {
            RecordView::Unknown { record_type, data, .. } => if record_type >= 0x8000 {
                Err(WriteError::Invalid)
            } else if data.len() > 0xffff {
                Err(WriteError::TooLong)
            } else {
                Ok(())
            },
            RecordView::NextProtocol { protocol_ids } => if protocol_ids.len() > 0x7fff {
                Err(WriteError::TooLong)
            } else {
                Ok(())
            },
            RecordView::AeadAlgorithm { algorithm_ids, .. } => if algorithm_ids.len() > 0x7fff {
                Err(WriteError::TooLong)
            } else {
                Ok(())
            },
            RecordView::NewCookie { cookie_data } => if cookie_data.len() > 0xffff {
                Err(WriteError::TooLong)
            } else {
                Ok(())
            },
            RecordView::Server { name, .. } => if encode_utf8(name).len() > 0xffff {
                Err(WriteError::TooLong)
            } else {
                Ok(())
            },
            _ => Ok(()),
        }
    }

    /// The body bytes of the record.
    pub open spec fn body(self) -> Seq<u8> {
        match self {
            RecordView::EndOfMessage => seq![],
            RecordView::NextProtocol { protocol_ids } => u16s_to_bytes(protocol_ids),
            RecordView::Error { errorcode } => be_bytes(errorcode),
            RecordView::Warning { warningcode } => be_bytes(warningcode),
            RecordView::AeadAlgorithm { algorithm_ids, .. } => u16s_to_bytes(algorithm_ids),
            RecordView::NewCookie { cookie_data } => cookie_data,
            RecordView::Server { name, .. } => encode_utf8(name),
            RecordView::Port { port, .. } => be_bytes(port),
            RecordView::Unknown { data, .. } => data,
        }
    }

    /// The first header field: the type with the critical flag in bit 15.
    pub open spec fn type_field(self) -> u16 {
        (self.record_type() + if self.is_critical() { 0x8000int } else { 0int }) as u16
    }

    /// The full wire encoding: header, then body.
    pub open spec fn to_bytes(self) -> Seq<u8> {
        be_bytes(self.type_field()) + be_bytes(self.body().len() as u16) + self.body()
    }
}

impl NtsRecord {
    fn record_type(&self) -> (r: u16)
        ensures
            r == self@.record_type(),
    {
        match self {
            NtsRecord::EndOfMessage => 0,
            NtsRecord::NextProtocol { .. } => 1,
            NtsRecord::Error { .. } => 2,
            NtsRecord::Warning { .. } => 3,
            NtsRecord::AeadAlgorithm { .. } => 4,
            NtsRecord::NewCookie { .. } => 5,
            NtsRecord::Server { .. } => 6,
            NtsRecord::Port { .. } => 7,
            NtsRecord::Unknown { record_type, .. } => *record_type % 0x8000,
        }
    }

    fn is_critical(&self) -> (r: bool)
        ensures
            r == self@.is_critical(),
    {
        match self {
            NtsRecord::EndOfMessage => true,
            NtsRecord::NextProtocol { .. } => true,
            NtsRecord::Error { .. } => true,
            NtsRecord::Warning { .. } => true,
            NtsRecord::AeadAlgorithm { critical, .. } => *critical,
            NtsRecord::NewCookie { .. } => false,
            NtsRecord::Server { critical, .. } => *critical,
            NtsRecord::Port { critical, .. } => *critical,
            NtsRecord::Unknown { critical, .. } => *critical,
        }
    }

    fn validate(&self) -> (r: Result<(), WriteError>)
        ensures
            r == self@.check(),
    {
        match self {
            NtsRecord::Unknown { record_type, data, .. } => {
                if *record_type >= 0x8000 {
                    return Err(WriteError::Invalid);
                }
                if data.len() > 0xffff {
                    return Err(WriteError::TooLong);
                }
            },
            NtsRecord::NextProtocol { protocol_ids } => {
                if protocol_ids.len() > 0x7fff {
                    return Err(WriteError::TooLong);
                }
            },
            NtsRecord::AeadAlgorithm { algorithm_ids, .. } => {
                if algorithm_ids.len() > 0x7fff {
                    return Err(WriteError::TooLong);
                }
            },
            NtsRecord::NewCookie { cookie_data } => {
                if cookie_data.len() > 0xffff {
                    return Err(WriteError::TooLong);
                }
            },
            NtsRecord::Server { name, .. } => {
                if name.as_str().as_bytes().len() > 0xffff {
                    return Err(WriteError::TooLong);
                }
            },
            _ => {},
        }
        Ok(())
    }

    /// Appends the wire encoding of the record to `writer`. An invalid record
    /// is refused before anything is written.
    pub fn write(&self, writer: &mut Vec<u8>) -> (r: Result<(), WriteError>)
        ensures
            r == self@.check(),
            r is Ok ==> final(writer)@ == old(writer)@ + self@.to_bytes(),
            r is Err ==> final(writer)@ == old(writer)@,
    {
        if let Err(e) = self.validate() {
            return Err(e);
        }
        let critical_bit: u16 = if self.is_critical() { 0x8000 } else { 0 };
        push_u16_be(writer, self.record_type() + critical_bit);
        match self {
            NtsRecord::EndOfMessage => {
                push_u16_be(writer, 0);
            },
            NtsRecord::Unknown { data, .. } => {
                push_u16_be(writer, data.len() as u16);
                push_bytes(writer, data.as_slice());
            },
            NtsRecord::NextProtocol { protocol_ids } => {
                proof { lemma_u16s_round_trip(protocol_ids@); }
                push_u16_be(writer, 2 * protocol_ids.len() as u16);
                push_u16s_be(writer, protocol_ids.as_slice());
            },
            NtsRecord::Error { errorcode } => {
                push_u16_be(writer, 2);
                push_u16_be(writer, *errorcode);
            },
            NtsRecord::Warning { warningcode } => {
                push_u16_be(writer, 2);
                push_u16_be(writer, *warningcode);
            },
            NtsRecord::AeadAlgorithm { algorithm_ids, .. } => {
                proof { lemma_u16s_round_trip(algorithm_ids@); }
                push_u16_be(writer, 2 * algorithm_ids.len() as u16);
                push_u16s_be(writer, algorithm_ids.as_slice());
            },
            NtsRecord::NewCookie { cookie_data } => {
                push_u16_be(writer, cookie_data.len() as u16);
                push_bytes(writer, cookie_data.as_slice());
            },
            NtsRecord::Server { name, .. } => {
                let bytes = name.as_str().as_bytes();
                push_u16_be(writer, bytes.len() as u16);
                push_bytes(writer, bytes);
            },
            NtsRecord::Port { port, .. } => {
                push_u16_be(writer, 2);
                push_u16_be(writer, *port);
            },
        }
        assert(writer@ =~= old(writer)@ + self@.to_bytes());
        Ok(())
    }
}

/// The record that a header announcing `record_type` and `critical` with body
/// `body` stands for. A known type whose body or critical flag does not fit it,
/// and a server name that is not UTF-8, is kept as `Unknown`.
pub open spec fn classify(record_type: u16, critical: bool, body: Seq<u8>) -> RecordView {
    if record_type == 0 && body.len() == 0 && critical {
        RecordView::EndOfMessage
    } else if record_type == 1 && body.len() % 2 == 0 && critical {
        RecordView::NextProtocol { protocol_ids: bytes_to_u16s(body) }
    } else if record_type == 2 && body.len() == 2 && critical {
        RecordView::Error { errorcode: be_value(body[0], body[1]) }
    } else if record_type == 3 && body.len() == 2 && critical {
        RecordView::Warning { warningcode: be_value(body[0], body[1]) }
    } else if record_type == 4 && body.len() % 2 == 0 {
        RecordView::AeadAlgorithm { critical, algorithm_ids: bytes_to_u16s(body) }
    } else if record_type == 5 && !critical {
        RecordView::NewCookie { cookie_data: body }
    } else if record_type == 6 && valid_utf8(body) {
        RecordView::Server { critical, name: decode_utf8(body) }
    } else if record_type == 7 && body.len() == 2 {
        RecordView::Port { critical, port: be_value(body[0], body[1]) }
    } else {
        RecordView::Unknown { record_type, critical, data: body }
    }
}

/// The length of the record at the front of `bytes` (header included), when
/// all of it is there.
pub open spec fn frame_len(bytes: Seq<u8>) -> Option<nat> {
    if bytes.len() < 4 {
        None
    } else if bytes.len() < 4 + be_value(bytes[2], bytes[3]) {
        None
    } else {
        Some((4 + be_value(bytes[2], bytes[3])) as nat)
    }
}

/// The record at the front of `bytes` and the number of bytes it takes, or
/// `None` when the record is not complete yet.
pub open spec fn decode(bytes: Seq<u8>) -> Option<(RecordView, nat)> {
    match frame_len(bytes) {
        None => None,
        Some(n) => {
            let raw = be_value(bytes[0], bytes[1]);
            Some(
                (
                    classify((raw % 0x8000) as u16, raw >= 0x8000, bytes.subrange(4, n as int)),
                    n,
                ),
            )
        },
    }
}

/// Relies on `String::from_utf8`: it accepts exactly the valid UTF-8 byte
/// strings, decoding them, and otherwise hands the bytes back.
#[verifier::external_body]
fn string_from_utf8(bytes: Vec<u8>) -> (r: Result<String, Vec<u8>>)
    ensures
        match r {
            Ok(s) => valid_utf8(bytes@) && s@ == decode_utf8(bytes@),
            Err(b) => !valid_utf8(bytes@) && b@ == bytes@,
        },
{
    match String::from_utf8(bytes) {
        Ok(s) => Ok(s),
        Err(e) => Err(e.into_bytes()),
    }
}

/// Reads `count` big-endian `u16`s starting at `start`.
fn read_u16s_be(bytes: &[u8], start: usize, count: usize) -> (r: Vec<u16>)
    requires
        start + 2 * count <= bytes@.len(),
    ensures
        r@ == bytes_to_u16s(bytes@.subrange(start as int, start + 2 * count)),
{
    let ghost body = bytes@.subrange(start as int, start + 2 * count);
    let total = bytes.len();
    let mut out: Vec<u16> = Vec::new();
    let mut i: usize = 0;
    while i < count
        invariant
            i <= count,
            total == bytes@.len(),
            start + 2 * count <= bytes@.len(),
            body == bytes@.subrange(start as int, start + 2 * count),
            out@ =~= bytes_to_u16s(body).take(i as int),
        decreases count - i,
    {
        out.push(read_u16_be(bytes, start + 2 * i));
        i += 1;
    }
    out
}

/// Copies `len` bytes starting at `start`.
fn read_bytes_exact(bytes: &[u8], start: usize, len: usize) -> (r: Vec<u8>)
    requires
        start + len <= bytes@.len(),
    ensures
        r@ == bytes@.subrange(start as int, start + len),
{
    let total = bytes.len();
    let mut out: Vec<u8> = Vec::new();
    let mut i: usize = 0;
    while i < len
        invariant
            i <= len,
            total == bytes@.len(),
            start + len <= bytes@.len(),
            out@ =~= bytes@.subrange(start as int, start + i),
        decreases len - i,
    {
        out.push(bytes[start + i]);
        i += 1;
    }
    out
}

/// A record that reading its own encoding gives back: every record but an
/// `Unknown` one whose type, flag and body make a known record.
pub open spec fn is_canonical(r: RecordView) -> bool {
    match r {
        RecordView::Unknown { record_type, critical, data } => classify(record_type, critical, data)
            == r,
        _ => true,
    }
}

/// Serializing a writable record and reading the bytes back gives the same
/// record, and reading takes exactly the bytes that were written.
pub proof fn lemma_round_trip(r: RecordView)
    requires
        r.check() is Ok,
        is_canonical(r),
    ensures
        decode(r.to_bytes()) == Some((r, r.to_bytes().len())),
{
    let body = r.body();
    let bytes = r.to_bytes();
    lemma_be_round_trip(r.type_field());
    lemma_be_round_trip(body.len() as u16);
    match r {
        RecordView::NextProtocol { protocol_ids } => lemma_u16s_round_trip(protocol_ids),
        RecordView::AeadAlgorithm { algorithm_ids, .. } => lemma_u16s_round_trip(algorithm_ids),
        RecordView::Server { name, .. } => {
            encode_utf8_valid_utf8(name);
            encode_utf8_decode_utf8(name);
        },
        RecordView::Error { errorcode } => lemma_be_round_trip(errorcode),
        RecordView::Warning { warningcode } => lemma_be_round_trip(warningcode),
        RecordView::Port { port, .. } => lemma_be_round_trip(port),
        _ => {},
    }
    assert(body.len() <= 0xffff);
    assert(bytes[2] == be_bytes(body.len() as u16)[0]);
    assert(bytes[3] == be_bytes(body.len() as u16)[1]);
    assert(bytes[0] == be_bytes(r.type_field())[0]);
    assert(bytes[1] == be_bytes(r.type_field())[1]);
    assert(bytes.subrange(4, bytes.len() as int) =~= body);
}

/// The request a client sends: NTPv4 (protocol 0) as the next protocol,
/// AEAD_AES_SIV_CMAC_256 (algorithm 15) as the algorithm, then the end mark.
pub open spec fn client_request_view() -> Seq<RecordView> {
    seq![
        RecordView::NextProtocol { protocol_ids: seq![0u16] },
        RecordView::AeadAlgorithm { critical: false, algorithm_ids: seq![15u16] },
        RecordView::EndOfMessage,
    ]
}

/// The wire bytes of the client request.
pub open spec fn client_request_bytes() -> Seq<u8> {
    seq![128u8, 1, 0, 2, 0, 0, 0, 4, 0, 2, 0, 15, 128, 0, 0, 0]
}

impl NtsRecord {
    pub fn client_key_exchange_records() -> (r: [NtsRecord; 3])
        ensures
            r@.map_values(|x: NtsRecord| x@) == client_request_view(),
    {
        let mut protocol_ids: Vec<u16> = Vec::new();
        protocol_ids.push(0);
        let mut algorithm_ids: Vec<u16> = Vec::new();
        algorithm_ids.push(15);
        assert(protocol_ids@ =~= seq![0u16]);
        assert(algorithm_ids@ =~= seq![15u16]);
        let r = [
            NtsRecord::NextProtocol { protocol_ids },
            NtsRecord::AeadAlgorithm { critical: false, algorithm_ids },
            NtsRecord::EndOfMessage,
        ];
        assert(r@.map_values(|x: NtsRecord| x@) =~= client_request_view());
        r
    }

    /// The serialized client request, all records in one buffer.
    pub fn client_key_exchange_bytes() -> (r: Vec<u8>)
        ensures
            r@ == client_request_bytes(),
    {
        let records = NtsRecord::client_key_exchange_records();
        let mut buffer: Vec<u8> = Vec::with_capacity(1024);
        let ghost views = records@.map_values(|x: NtsRecord| x@);
        assert(views[0] == client_request_view()[0]);
        assert(views[1] == client_request_view()[1]);
        assert(views[2] == client_request_view()[2]);
        let _ = records[0].write(&mut buffer);
        let _ = records[1].write(&mut buffer);
        let _ = records[2].write(&mut buffer);
        assert(u16s_to_bytes(seq![0u16]) =~= seq![0u8, 0]);
        assert(u16s_to_bytes(seq![15u16]) =~= seq![0u8, 15]);
        assert(buffer@ =~= client_request_bytes());
        buffer
    }

    /// Reads the record at the front of `bytes`. Returns the record and the
    /// number of bytes it took, or `None` when `bytes` holds less than a whole
    /// record. A malformed record of a known type is returned as `Unknown`.
    pub fn read(bytes: &[u8]) -> (r: Option<(NtsRecord, usize)>)
        ensures
            match r {
                None => decode(bytes@) is None,
                Some((record, n)) => decode(bytes@) == Some((record@, n as nat)),
            },
    {
        if bytes.len() < 4 {
            return None;
        }
        let raw = read_u16_be(bytes, 0);
        let critical = raw >= 0x8000;
        let record_type = raw % 0x8000;
        let record_len = read_u16_be(bytes, 2) as usize;
        if bytes.len() - 4 < record_len {
            return None;
        }
        let ghost body = bytes@.subrange(4, 4 + record_len);
        let record = if record_type == 0 && record_len == 0 && critical {
            NtsRecord::EndOfMessage
        } else if record_type == 1 && record_len % 2 == 0 && critical {
            NtsRecord::NextProtocol { protocol_ids: read_u16s_be(bytes, 4, record_len / 2) }
        } else if record_type == 2 && record_len == 2 && critical {
            NtsRecord::Error { errorcode: read_u16_be(bytes, 4) }
        } else if record_type == 3 && record_len == 2 && critical {
            NtsRecord::Warning { warningcode: read_u16_be(bytes, 4) }
        } else if record_type == 4 && record_len % 2 == 0 {
            NtsRecord::AeadAlgorithm {
                critical,
                algorithm_ids: read_u16s_be(bytes, 4, record_len / 2),
            }
        } else if record_type == 5 && !critical {
            NtsRecord::NewCookie { cookie_data: read_bytes_exact(bytes, 4, record_len) }
        } else if record_type == 6 {
            match string_from_utf8(read_bytes_exact(bytes, 4, record_len)) {
                Ok(name) => NtsRecord::Server { critical, name },
                Err(data) => NtsRecord::Unknown { record_type, critical, data },
            }
        } else if record_type == 7 && record_len == 2 {
            NtsRecord::Port { critical, port: read_u16_be(bytes, 4) }
        } else {
            NtsRecord::Unknown {
                record_type,
                critical,
                data: read_bytes_exact(bytes, 4, record_len),
            }
        };
        assert(record@ == classify(record_type, critical, body));
        Some((record, 4 + record_len))
    }
}

} // verus!
