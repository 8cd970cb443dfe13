//! Framing of the TCP tensor transport: message types and the fixed
//! 24-byte message header.
//!
//! Header layout: byte 0 is the message type; bytes 1..17 hold the tensor id
//! as UTF-8, cut to 16 bytes and padded with NUL bytes; bytes 17..24 hold the
//! seven most significant bytes of the payload length, big-endian. The least
//! significant byte of the length is not sent and reads back as zero.

use vstd::prelude::*;
use vstd::string::StringSliceAdditionalSpecFns;

verus! {

/// Size of a message header on the wire.
pub const HEADER_LEN: usize = 24;

/// Longest tensor id the header carries, in bytes.
pub const TENSOR_ID_LEN: usize = 16;

/// Kind of a transport message.
#[derive(Debug, Clone, Copy, PartialEq, Eq, Structural)]
pub enum MessageType {
    TensorTransfer,
    Ping,
    Ack,
}

/// Errors of the TCP transport.
#[derive(Debug, Clone, PartialEq, Eq)]
pub enum TcpError {
    BindFailed(String),
    ConnectFailed(String),
    ConnectionClosed,
    TransferFailed(String),
    InvalidMessage(u8),
    Io(String),
    Internal(String),
}

pub open spec fn message_type_code(t: MessageType) -> u8 {
    match t {
        MessageType::TensorTransfer => 0,
        MessageType::Ping => 1,
        MessageType::Ack => 2,
    }
}

impl MessageType {
    /// The message type with wire code `value`; codes above 2 are invalid.
    pub fn from_u8(value: u8) -> (r: Result<MessageType, TcpError>)
        ensures
            value <= 2 ==> (r matches Ok(t) && message_type_code(t) == value),
            value > 2 ==> r == Err::<MessageType, TcpError>(TcpError::InvalidMessage(value)),
    {
        if value == 0 {
            Ok(MessageType::TensorTransfer)
        } else if value == 1 {
            Ok(MessageType::Ping)
        } else if value == 2 {
            Ok(MessageType::Ack)
        } else {
            Err(TcpError::InvalidMessage(value))
        }
    }

    /// The wire code of this message type.
    pub fn as_u8(self) -> (r: u8)
        ensures
            r == message_type_code(self),
    {
        match self {
            MessageType::TensorTransfer => 0,
            MessageType::Ping => 1,
            MessageType::Ack => 2,
        }
    }
}

/// Reading a code back gives the message type it was written from.
pub proof fn lemma_message_type_code_injective(a: MessageType, b: MessageType)
    ensures
        message_type_code(a) == message_type_code(b) ==> a == b,
{
}

/// TCP transport configuration.
#[derive(Debug, Clone)]
pub struct TcpConfig {
    pub bind_address: String,
    pub max_connections: usize,
    pub buffer_size: usize,
    pub timeout_secs: u64,
}

impl Default for TcpConfig {
    /// Any local address and port, 100 connections, 64 KiB buffers, 30 s timeout.
    fn default() -> (r: Self)
        ensures
            r.bind_address@ == "0.0.0.0:0"@,
            r.max_connections == 100,
            r.buffer_size == 65536,
            r.timeout_secs == 30,
    {
        TcpConfig {
            bind_address: String::from_str("0.0.0.0:0"),
            max_connections: 100,
            buffer_size: 64 * 1024,
            timeout_secs: 30,
        }
    }
}

/// Transport statistics.
#[derive(Debug, Clone, Copy)]
pub struct TransportStats {
    pub active_connections: usize,
    pub max_connections: usize,
}

/// The bookkeeping of a TCP transport: its configuration and the number of
/// connections being handled.
pub struct TcpTransport {
    config: TcpConfig,
    active_connections: usize,
}

impl TcpTransport {
    /// The configuration.
    pub closed spec fn settings(&self) -> TcpConfig {
        self.config
    }

    /// The number of connections being handled.
    pub closed spec fn active(&self) -> nat {
        self.active_connections as nat
    }

    pub fn new(config: TcpConfig) -> (r: Self)
        ensures
            r.settings() == config,
            r.active() == 0,
    {
        TcpTransport { config, active_connections: 0 }
    }

    /// A connection is being handled.
    pub fn connection_opened(&mut self)
        requires
            old(self).active() < usize::MAX,
        ensures
            final(self).active() == old(self).active() + 1,
            final(self).settings() == old(self).settings(),
    {
        self.active_connections = self.active_connections + 1;
    }

    /// A connection is done; the count does not go below zero.
    pub fn connection_closed(&mut self)
        ensures
            final(self).active() == if old(self).active() == 0 { 0 } else { (old(self).active() - 1) as nat },
            final(self).settings() == old(self).settings(),
    {
        self.active_connections = self.active_connections.saturating_sub(1);
    }

    /// The active connection count and the configured maximum.
    pub fn get_stats(&self) -> (r: TransportStats)
        ensures
            r.active_connections == self.active(),
            r.max_connections == self.settings().max_connections,
    {
        TransportStats { active_connections: self.active_connections, max_connections: self.config.max_connections }
    }

    /// How many bytes of a payload to read next: what is left of it, taken
    /// as a `usize`, but at most one buffer.
    pub fn chunk_len(&self, payload_length: u64, received: u64) -> (r: usize)
        requires
            received < payload_length,
        ensures
            r == (if ((payload_length - received) as usize) < self.settings().buffer_size {
                (payload_length - received) as usize
            } else {
                self.settings().buffer_size
            }),
    {
        let remaining = (payload_length - received) as usize;
        if remaining < self.config.buffer_size {
            remaining
        } else {
            self.config.buffer_size
        }
    }
}

/// The acknowledgement byte: 1 for success, 0 for failure.
pub fn ack_byte(success: bool) -> (r: u8)
    ensures
        r == (if success { 1u8 } else { 0u8 }),
{
    if success {
        1
    } else {
        0
    }
}

/// Reads an acknowledgement: anything but 1 reports a failed transfer.
pub fn check_ack(byte: u8) -> (r: Result<(), TcpError>)
    ensures
        byte == 1 ==> r is Ok,
        byte != 1 ==> (r matches Err(TcpError::TransferFailed(m)) && m@ == "Remote acknowledged failure"@),
{
    if byte != 1 {
        return Err(TcpError::TransferFailed(String::from_str("Remote acknowledged failure")));
    }
    Ok(())
}

/// A message header.
#[derive(Debug, Clone)]
pub struct MessageHeader {
    pub message_type: MessageType,
    pub tensor_id: String,
    pub payload_length: u64,
}

/// What `String::from_utf8_lossy` makes of a byte sequence that is not valid
/// UTF-8: the decoded text with each ill-formed sequence replaced by U+FFFD.
pub uninterp spec fn utf8_lossy(bytes: Seq<u8>) -> Seq<char>;

/// The text of a byte sequence as `String::from_utf8_lossy` reads it.
pub open spec fn lossy_text(bytes: Seq<u8>) -> Seq<char> {
    if vstd::utf8::valid_utf8(bytes) {
        vstd::utf8::decode_utf8(bytes)
    } else {
        utf8_lossy(bytes)
    }
}

/// `String::from_utf8_lossy`: on valid UTF-8 exactly the decoded characters
/// (as its documentation states); otherwise the lossy text, named above.
#[verifier::external_body]
fn string_from_utf8_lossy(bytes: &[u8]) -> (r: String)
    ensures
        vstd::utf8::valid_utf8(bytes@) ==> r@ == vstd::utf8::decode_utf8(bytes@),
        !vstd::utf8::valid_utf8(bytes@) ==> r@ == utf8_lossy(bytes@),
{
    String::from_utf8_lossy(bytes).into_owned()
}

/// The text without its trailing NUL characters.
pub open spec fn trim_nul(s: Seq<char>) -> Seq<char>
    decreases s.len(),
{
    if s.len() > 0 && s.last() == '\0' {
        trim_nul(s.drop_last())
    } else {
        s
    }
}

/// The text without its trailing NUL characters, owned.
fn trim_trailing_nul(s: &str) -> (r: String)
    ensures
        r@ == trim_nul(s@),
{
    let n = s.unicode_len();
    let mut end: usize = n;
    assert(s@.take(n as int) =~= s@);
    while end > 0 && s.get_char(end - 1) == '\0'
        invariant
            end <= n,
            n == s@.len(),
            trim_nul(s@) == trim_nul(s@.take(end as int)),
        decreases end,
    {
        assert(s@.take(end as int).drop_last() =~= s@.take(end - 1));
        end = end - 1;
    }
    let kept = s.substring_char(0, end);
    assert(kept@ =~= s@.take(end as int));
    String::from_str(kept)
}

/// The big-endian value of seven bytes, shifted left by eight bits.
pub open spec fn be_length(b: Seq<u8>) -> int {
    ((((((b[0] as int * 256 + b[1] as int) * 256 + b[2] as int) * 256 + b[3] as int) * 256 + b[4] as int) * 256
        + b[5] as int) * 256 + b[6] as int) * 256
}

/// What a 24-byte header says: type, tensor id, payload length.
pub open spec fn decode_header_spec(b: Seq<u8>) -> Result<(MessageType, Seq<char>, u64), TcpError> {
    if b[0] > 2 {
        Err(TcpError::InvalidMessage(b[0]))
    } else {
        Ok((
            if b[0] == 0 {
                MessageType::TensorTransfer
            } else if b[0] == 1 {
                MessageType::Ping
            } else {
                MessageType::Ack
            },
            trim_nul(lossy_text(b.subrange(1, 17))),
            be_length(b.subrange(17, 24)) as u64,
        ))
    }
}

/// Reads a message header from its 24 bytes.
pub fn decode_header(buf: &[u8]) -> (r: Result<MessageHeader, TcpError>)
    requires
        buf@.len() == HEADER_LEN,
    ensures
        match r {
            Ok(h) => decode_header_spec(buf@) == Ok::<(MessageType, Seq<char>, u64), TcpError>((h.message_type, h.tensor_id@, h.payload_length)),
            Err(e) => decode_header_spec(buf@) == Err::<(MessageType, Seq<char>, u64), TcpError>(e),
        },
{
    let message_type = match MessageType::from_u8(buf[0]) {
        Ok(t) => t,
        Err(e) => return Err(e),
    };
    let id_bytes = &buf[1..17];
    let lossy = string_from_utf8_lossy(id_bytes);
    let tensor_id = trim_trailing_nul(lossy.as_str());
    let mut len: u64 = 0;
    let mut i: usize = 17;
    while i < 24
        invariant
            17 <= i <= 24,
            buf@.len() == 24,
            len as int == be_prefix(buf@.subrange(17, 24), (i - 17) as nat),
            len < pow256((i - 17) as nat),
        decreases 24 - i,
    {
        proof {
            lemma_pow256_step((i - 17) as nat);
        }
        len = len * 256 + buf[i] as u64;
        i = i + 1;
    }
    proof {
        lemma_pow256_step(0);
        reveal_with_fuel(be_prefix, 8);
        assert(buf@.subrange(17, 24).len() == 7);
    }
    len = len * 256;
    Ok(MessageHeader { message_type, tensor_id, payload_length: len })
}

/// The big-endian value of the first `n` bytes.
pub open spec fn be_prefix(b: Seq<u8>, n: nat) -> int
    decreases n,
{
    if n == 0 {
        0
    } else {
        be_prefix(b, (n - 1) as nat) * 256 + b[n - 1] as int
    }
}

pub open spec fn pow256(n: nat) -> int
    decreases n,
{
    if n == 0 {
        1
    } else {
        pow256((n - 1) as nat) * 256
    }
}

proof fn lemma_pow256_step(n: nat)
    requires
        n < 7,
    ensures
        pow256(n + 1) == pow256(n) * 256,
        pow256(n + 1) <= 0x100_0000_0000_0000,
        pow256(7) == 0x100_0000_0000_0000,
        pow256(n) > 0,
    decreases n,
{
    reveal_with_fuel(pow256, 9);
}

/// The 24 header bytes for a header.
pub open spec fn encode_header_spec(t: MessageType, id: Seq<u8>, len: u64) -> Seq<u8> {
    Seq::new(24, |i: int|
        if i == 0 {
            message_type_code(t)
        } else if 1 <= i < 17 {
            if i - 1 < id.len() { id[i - 1] } else { 0u8 }
        } else {
            ((len as int / pow256((24 - i) as nat)) % 256) as u8
        })
}

/// Writes a message header: type code, the first 16 bytes of the tensor id
/// padded with zeros, the seven most significant bytes of the length.
pub fn encode_header(header: &MessageHeader) -> (r: Vec<u8>)
    ensures
        r@ == encode_header_spec(header.message_type, vstd::utf8::encode_utf8(header.tensor_id@), header.payload_length),
{
    let ghost spec = encode_header_spec(header.message_type, vstd::utf8::encode_utf8(header.tensor_id@), header.payload_length);
    let mut out: Vec<u8> = Vec::new();
    out.push(header.message_type.as_u8());
    let id = header.tensor_id.as_str().as_bytes();
    let mut i: usize = 0;
    while i < TENSOR_ID_LEN
        invariant
            i <= 16,
            id@ == vstd::utf8::encode_utf8(header.tensor_id@),
            out@.len() == i + 1,
            spec.len() == 24,
            spec == encode_header_spec(header.message_type, vstd::utf8::encode_utf8(header.tensor_id@), header.payload_length),
            forall|j: int| 0 <= j < out@.len() ==> out@[j] == spec[j],
        decreases 16 - i,
    {
        if i < id.len() {
            out.push(id[i]);
        } else {
            out.push(0);
        }
        i = i + 1;
    }
    let len = header.payload_length;
    let mut d: u64 = 0x100_0000_0000_0000;
    let mut k: usize = 17;
    proof {
        reveal_with_fuel(pow256, 8);
    }
    while k < HEADER_LEN
        invariant
            17 <= k <= 24,
            out@.len() == k,
            spec.len() == 24,
            spec == encode_header_spec(header.message_type, vstd::utf8::encode_utf8(header.tensor_id@), header.payload_length),
            forall|j: int| 0 <= j < out@.len() ==> out@[j] == spec[j],
            k < 24 ==> d as int == pow256((24 - k) as nat) && d > 0,
            k < 24 ==> d == (if k == 17 { 0x100_0000_0000_0000u64 } else { d }),
            len == header.payload_length,
        decreases 24 - k,
    {
        proof {
            reveal_with_fuel(pow256, 9);
        }
        out.push(((len / d) % 256) as u8);
        d = d / 256;
        k = k + 1;
    }
    assert(out@ =~= spec);
    out
}


// ----- laws -----

/// `as_u8` and `from_u8` are inverse: every message type has a code below 3,
/// and no other type shares it.
pub proof fn law_message_type_roundtrip(t: MessageType)
    ensures
        message_type_code(t) <= 2,
        forall|u: MessageType| message_type_code(u) == message_type_code(t) ==> u == t,
{
}

pub open spec fn nuls(n: nat) -> Seq<char> {
    Seq::new(n, |i: int| '\0')
}

proof fn lemma_encode_utf8_concat(a: Seq<char>, b: Seq<char>)
    ensures
        vstd::utf8::encode_utf8(a + b) == vstd::utf8::encode_utf8(a) + vstd::utf8::encode_utf8(b),
    decreases a.len(),
{
    if a.len() == 0 {
        assert(a + b =~= b);
        assert(vstd::utf8::encode_utf8(a) + vstd::utf8::encode_utf8(b) =~= vstd::utf8::encode_utf8(b));
    } else {
        assert((a + b).drop_first() =~= a.drop_first() + b);
        lemma_encode_utf8_concat(a.drop_first(), b);
        assert((a + b)[0] == a[0]);
        assert(vstd::utf8::encode_scalar(a[0] as u32) + (vstd::utf8::encode_utf8(a.drop_first()) + vstd::utf8::encode_utf8(b))
            =~= (vstd::utf8::encode_scalar(a[0] as u32) + vstd::utf8::encode_utf8(a.drop_first())) + vstd::utf8::encode_utf8(b));
    }
}

proof fn lemma_encode_nuls(n: nat)
    ensures
        vstd::utf8::encode_utf8(nuls(n)) == Seq::new(n, |i: int| 0u8),
    decreases n,
{
    if n > 0 {
        lemma_encode_nuls((n - 1) as nat);
        assert(nuls(n).drop_first() =~= nuls((n - 1) as nat));
        assert(('\0' as u32) == 0u32);
        assert((0u32 & 0x7F) as u8 == 0u8) by (bit_vector);
        assert(vstd::utf8::encode_scalar(0u32) =~= seq![0u8]);
        assert(seq![0u8] + Seq::new((n - 1) as nat, |i: int| 0u8) =~= Seq::new(n, |i: int| 0u8));
    } else {
        assert(vstd::utf8::encode_utf8(nuls(n)) =~= Seq::new(n, |i: int| 0u8));
    }
}

proof fn lemma_trim_nuls(chars: Seq<char>, n: nat)
    requires
        chars.len() == 0 || chars.last() != '\0',
    ensures
        trim_nul(chars + nuls(n)) == chars,
    decreases n,
{
    if n == 0 {
        assert(chars + nuls(n) =~= chars);
    } else {
        assert((chars + nuls(n)).drop_last() =~= chars + nuls((n - 1) as nat));
        lemma_trim_nuls(chars, (n - 1) as nat);
    }
}

proof fn lemma_digits(x: int, n: nat)
    requires
        0 <= x < 0x1_0000_0000_0000_0000,
        n <= 7,
    ensures
        be_prefix(Seq::new(7, |i: int| ((x / pow256((7 - i) as nat)) % 256) as u8), n) == x / pow256((8 - n) as nat),
    decreases n,
{
    let b = Seq::new(7, |i: int| ((x / pow256((7 - i) as nat)) % 256) as u8);
    reveal_with_fuel(pow256, 9);
    if n == 0 {
        assert(pow256(8) == 0x1_0000_0000_0000_0000);
        vstd::arithmetic::div_mod::lemma_basic_div(x, 0x1_0000_0000_0000_0000);
    } else {
        lemma_digits(x, (n - 1) as nat);
        let q = pow256((8 - n) as nat);
        assert(pow256((9 - n) as nat) == q * 256);
        vstd::arithmetic::div_mod::lemma_div_denominator(x, q, 256);
        vstd::arithmetic::div_mod::lemma_fundamental_div_mod(x / q, 256);
        assert(b[n - 1] as int == (x / q) % 256);
    }
}


/// Reading back a written header gives its type, its tensor id and its
/// length rounded down to a multiple of 256, for ids of at most 16 bytes
/// that do not end in a NUL character.
pub proof fn law_header_roundtrip(t: MessageType, id: Seq<char>, len: u64)
    requires
        vstd::utf8::encode_utf8(id).len() <= TENSOR_ID_LEN,
        id.len() == 0 || id.last() != '\0',
    ensures
        decode_header_spec(encode_header_spec(t, vstd::utf8::encode_utf8(id), len))
            == Ok::<(MessageType, Seq<char>, u64), TcpError>((t, id, (len - len % 256) as u64)),
{
    let idb = vstd::utf8::encode_utf8(id);
    let b = encode_header_spec(t, idb, len);
    let pad = (16 - idb.len()) as nat;
    // the id field is the id's encoding followed by NUL characters' encoding
    lemma_encode_nuls(pad);
    lemma_encode_utf8_concat(id, nuls(pad));
    assert(b.subrange(1, 17) =~= vstd::utf8::encode_utf8(id + nuls(pad)));
    vstd::utf8::encode_utf8_valid_utf8(id + nuls(pad));
    vstd::utf8::encode_utf8_decode_utf8(id + nuls(pad));
    lemma_trim_nuls(id, pad);
    // the length field holds the base-256 digits of len / 256
    let lb = b.subrange(17, 24);
    assert(lb =~= Seq::new(7, |i: int| ((len as int / pow256((7 - i) as nat)) % 256) as u8));
    lemma_digits(len as int, 7);
    reveal_with_fuel(pow256, 9);
    reveal_with_fuel(be_prefix, 8);
    assert(be_length(lb) == be_prefix(lb, 7) * 256);
    vstd::arithmetic::div_mod::lemma_fundamental_div_mod(len as int, 256);
    lemma_message_type_code_injective(t, t);
    assert(b[0] == message_type_code(t));
}

} // verus!
