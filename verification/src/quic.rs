//! The QUIC data plane's message format and connection bookkeeping.
//!
//! A tensor travels on a stream as a 4-byte big-endian length, a JSON
//! object `{"size": .., "tensor_id": ..}` of that length, and the tensor's
//! bytes.

use vstd::prelude::*;
use crate::types::NodeId;

verus! {

/// What `serde_json` writes for an object with a string field and a
/// number field (`Value::to_string` of an `Object`, whose map orders the
/// keys).
pub uninterp spec fn json_object_text(str_key: Seq<char>, str_value: Seq<char>, num_key: Seq<char>, num_value: u64) -> Seq<u8>;

/// What `serde_json` reads from bytes, looking up a string field and an
/// unsigned number field by their keys: each value when present with that
/// type, or the parser's error message when the bytes are no JSON.
pub uninterp spec fn json_fields_read(bytes: Seq<u8>, str_key: Seq<char>, num_key: Seq<char>) -> Result<(Option<Seq<char>>, Option<u64>), Seq<char>>;

/// The key of a tensor message's id.
pub open spec fn tensor_id_key() -> Seq<char> {
    seq!['t', 'e', 'n', 's', 'o', 'r', '_', 'i', 'd']
}

/// The key of a tensor message's size.
pub open spec fn size_key() -> Seq<char> {
    seq!['s', 'i', 'z', 'e']
}

/// The metadata object of a tensor message with this id and size.
pub open spec fn tensor_metadata_json(tensor_id: Seq<char>, size: u64) -> Seq<u8> {
    json_object_text(tensor_id_key(), tensor_id, size_key(), size)
}

/// What metadata bytes name: the tensor id and the size when present, or
/// the parser's message.
pub open spec fn json_metadata_read(bytes: Seq<u8>) -> Result<(Option<Seq<char>>, Option<u64>), Seq<char>> {
    json_fields_read(bytes, tensor_id_key(), size_key())
}

/// Fields read as this string and this number.
pub open spec fn named_fields(tensor_id: Seq<char>, size: u64) -> Result<(Option<Seq<char>>, Option<u64>), Seq<char>> {
    Ok((Some(tensor_id), Some(size)))
}

/// What a read gave: the fields found, or the parser's message.
pub open spec fn read_outcome(r: Result<(Option<String>, Option<u64>), String>) -> Result<(Option<Seq<char>>, Option<u64>), Seq<char>> {
    match r {
        Ok((id, size)) => Ok((text_of(id), size)),
        Err(m) => Err(m@),
    }
}

pub open spec fn text_of(o: Option<String>) -> Option<Seq<char>> {
    match o {
        Some(s) => Some(s@),
        None => None,
    }
}

/// `serde_json::Value::to_string` of the object made of a string field and
/// a number field, as bytes. With two distinct keys, reading the bytes back
/// finds both values: `serde_json` writes strings and unsigned numbers so
/// that its parser reads them back.
#[verifier::external_body]
fn json_object(str_key: &str, str_value: &str, num_key: &str, num_value: u64) -> (r: Vec<u8>)
    ensures
        r@ == json_object_text(str_key@, str_value@, num_key@, num_value),
        str_key@ != num_key@ ==> json_fields_read(r@, str_key@, num_key@) == named_fields(str_value@, num_value),
{
    let mut map = serde_json::Map::new();
    map.insert(String::from(str_key), serde_json::Value::String(String::from(str_value)));
    map.insert(String::from(num_key), serde_json::Value::from(num_value));
    serde_json::Value::Object(map).to_string().into_bytes()
}

/// `serde_json::from_slice` into a JSON value, then the field under
/// `str_key` as a string and the field under `num_key` as an unsigned
/// number; the parser's message when the bytes are no JSON.
#[verifier::external_body]
fn json_fields(bytes: &[u8], str_key: &str, num_key: &str) -> (r: Result<(Option<String>, Option<u64>), String>)
    ensures
        json_fields_read(bytes@, str_key@, num_key@) == read_outcome(r),
{
    match serde_json::from_slice::<serde_json::Value>(bytes) {
        Ok(v) => Ok((v[str_key].as_str().map(String::from), v[num_key].as_u64())),
        Err(e) => Err(e.to_string()),
    }
}

/// The metadata of a tensor message with this id and size.
fn write_metadata_json(tensor_id: &str, size: u64) -> (r: Vec<u8>)
    ensures
        r@ == tensor_metadata_json(tensor_id@, size),
        json_metadata_read(r@) == named_fields(tensor_id@, size),
{
    proof {
        reveal_strlit("tensor_id");
        reveal_strlit("size");
        assert("tensor_id"@ =~= tensor_id_key());
        assert("size"@ =~= size_key());
        assert(tensor_id_key()[0] != size_key()[0]);
    }
    json_object("tensor_id", tensor_id, "size", size)
}

/// What metadata bytes name: the tensor id and the size when present, or
/// the parser's message.
fn read_metadata_json(bytes: &[u8]) -> (r: Result<(Option<String>, Option<u64>), String>)
    ensures
        json_metadata_read(bytes@) == read_outcome(r),
{
    proof {
        reveal_strlit("tensor_id");
        reveal_strlit("size");
        assert("tensor_id"@ =~= tensor_id_key());
        assert("size"@ =~= size_key());
    }
    json_fields(bytes, "tensor_id", "size")
}

/// Why a QUIC operation failed.
#[derive(Debug, Clone, PartialEq, Eq)]
pub enum QuicError {
    ConfigError(String),
    BindError(String),
    AcceptFailed(String),
    ConnectionError(String),
    StreamError(String),
    SendError(String),
    ReceiveError(String),
    ParseError(String),
    NodeNotFound(NodeId),
    Internal(String),
}

/// The server's connection count.
#[derive(Debug, Clone, Copy)]
pub struct ServerStats {
    pub active_connections: usize,
}

/// The four big-endian bytes of a 32-bit number.
pub open spec fn be32(n: u32) -> Seq<u8> {
    seq![(n / 0x1000000) as u8, ((n / 0x10000) % 256) as u8, ((n / 0x100) % 256) as u8, (n % 256) as u8]
}

/// The number that four big-endian bytes spell.
pub open spec fn be32_value(b: Seq<u8>) -> int {
    ((b[0] as int * 256 + b[1] as int) * 256 + b[2] as int) * 256 + b[3] as int
}

/// The message that carries a tensor: the metadata's length (as a 32-bit
/// number), the metadata, the data.
pub open spec fn tensor_message_spec(tensor_id: Seq<char>, data: Seq<u8>) -> Seq<u8> {
    let m = tensor_metadata_json(tensor_id, data.len() as u64);
    be32(m.len() as u32) + m + data
}

/// The length prefix of a metadata block of `len` bytes, as a 32-bit number.
pub fn length_prefix(len: usize) -> (r: Vec<u8>)
    ensures
        r@ == be32(len as u32),
{
    let n: u32 = len as u32;
    let mut r: Vec<u8> = Vec::new();
    r.push((n / 0x1000000) as u8);
    r.push(((n / 0x10000) % 256) as u8);
    r.push(((n / 0x100) % 256) as u8);
    r.push((n % 256) as u8);
    r
}

/// The metadata length that a 4-byte prefix announces.
pub fn read_length_prefix(prefix: &[u8]) -> (r: u32)
    requires
        prefix@.len() == 4,
    ensures
        r as int == be32_value(prefix@),
{
    let b0 = prefix[0] as u32;
    let b1 = prefix[1] as u32;
    let b2 = prefix[2] as u32;
    let b3 = prefix[3] as u32;
    ((b0 * 256 + b1) * 256 + b2) * 256 + b3
}

/// The bytes that carry a tensor with this id and data.
pub fn tensor_message(tensor_id: &str, data: &[u8]) -> (r: Vec<u8>)
    ensures
        r@ == tensor_message_spec(tensor_id@, data@),
        json_metadata_read(tensor_metadata_json(tensor_id@, data@.len() as u64)) == named_fields(tensor_id@, data@.len() as u64),
{
    let metadata = write_metadata_json(tensor_id, data.len() as u64);
    let mut r = length_prefix(metadata.len());
    let mut i: usize = 0;
    let ghost head = r@;
    while i < metadata.len()
        invariant
            i <= metadata@.len(),
            r@ == head + metadata@.take(i as int),
        decreases metadata@.len() - i,
    {
        r.push(metadata[i]);
        assert(metadata@.take(i + 1) =~= metadata@.take(i as int).push(metadata@[i as int]));
        i = i + 1;
    }
    assert(metadata@.take(i as int) =~= metadata@);
    let ghost mid = r@;
    let mut j: usize = 0;
    while j < data.len()
        invariant
            j <= data@.len(),
            r@ == mid + data@.take(j as int),
        decreases data@.len() - j,
    {
        r.push(data[j]);
        assert(data@.take(j + 1) =~= data@.take(j as int).push(data@[j as int]));
        j = j + 1;
    }
    assert(data@.take(j as int) =~= data@);
    assert(r@ =~= tensor_message_spec(tensor_id@, data@));
    r
}

/// The tensor id and size a metadata block names: refused when it is no
/// JSON (with the parser's message), or lacks the id or the size.
pub fn parse_tensor_metadata(bytes: &[u8]) -> (r: Result<(String, u64), QuicError>)
    ensures
        match json_metadata_read(bytes@) {
            Err(m) => r matches Err(QuicError::ParseError(t)) && t@ == m,
            Ok((None, _)) => r matches Err(QuicError::ParseError(t)) && t@ == "Missing tensor_id"@,
            Ok((Some(_), None)) => r matches Err(QuicError::ParseError(t)) && t@ == "Missing size"@,
            Ok((Some(id), Some(size))) => r matches Ok((i, s)) && i@ == id && s == size,
        },
{
    match read_metadata_json(bytes) {
        Err(m) => Err(QuicError::ParseError(m)),
        Ok((None, _)) => Err(QuicError::ParseError(String::from_str("Missing tensor_id"))),
        Ok((Some(_), None)) => Err(QuicError::ParseError(String::from_str("Missing size"))),
        Ok((Some(id), Some(size))) => Ok((id, size)),
    }
}

/// A tensor message read back in its three steps gives what was sent: the
/// prefix announces the metadata's length, the metadata names the tensor
/// and its size, and the data follows; for metadata shorter than 4 GiB.
pub proof fn law_tensor_message_roundtrip(tensor_id: Seq<char>, data: Seq<u8>)
    requires
        tensor_metadata_json(tensor_id, data.len() as u64).len() <= u32::MAX,
    ensures
        ({
            let msg = tensor_message_spec(tensor_id, data);
            let len = tensor_metadata_json(tensor_id, data.len() as u64).len();
            &&& be32_value(msg.take(4)) == len
            &&& msg.subrange(4, 4 + len as int) == tensor_metadata_json(tensor_id, data.len() as u64)
            &&& msg.skip(4 + len as int) == data
        }),
{
    let m = tensor_metadata_json(tensor_id, data.len() as u64);
    let n = m.len() as u32;
    let msg = tensor_message_spec(tensor_id, data);
    assert(msg.take(4) =~= be32(n));
    assert(msg.subrange(4, 4 + m.len() as int) =~= m);
    assert(msg.skip(4 + m.len() as int) =~= data);
    assert(be32_value(be32(n)) == n) by (nonlinear_arith);
}

/// The nodes with an open connection to a QUIC server, each once; the
/// connections themselves belong to the program that runs the server.
pub struct QuicServer {
    connections: Vec<NodeId>,
}

impl QuicServer {
    /// No node has two entries.
    pub closed spec fn wf(&self) -> bool {
        forall|i: int, j: int| 0 <= i < j < self.connections@.len() ==> self.connections@[i] != self.connections@[j]
    }

    /// The connected nodes.
    pub closed spec fn nodes(&self) -> Set<NodeId> {
        self.connections@.to_set()
    }

    /// A server with no connection.
    pub fn new() -> (r: Self)
        ensures
            r.wf(),
            r.nodes() == Set::<NodeId>::empty(),
    {
        let r = QuicServer { connections: Vec::new() };
        assert(r.connections@.to_set() =~= Set::<NodeId>::empty());
        r
    }

    /// Records the connection of a node; a node connecting again replaces
    /// its earlier connection.
    pub fn connected(&mut self, node_id: NodeId)
        requires
            old(self).wf(),
        ensures
            final(self).wf(),
            final(self).nodes() == old(self).nodes().insert(node_id),
    {
        let ghost s0 = self.connections@;
        if !self.has_connection(node_id) {
            self.connections.push(node_id);
            assert(self.connections@ == s0.push(node_id));
            assert(self.connections@.to_set() =~= s0.to_set().insert(node_id)) by {
                assert forall|x: NodeId| self.connections@.to_set().contains(x) == s0.to_set().insert(node_id).contains(x) by {
                    if s0.contains(x) {
                        let k = choose|k: int| 0 <= k < s0.len() && s0[k] == x;
                        assert(self.connections@[k] == x);
                    }
                    if self.connections@.contains(x) && x != node_id {
                        let k = choose|k: int| 0 <= k < self.connections@.len() && self.connections@[k] == x;
                        assert(s0[k] == x);
                    }
                    if x == node_id {
                        assert(self.connections@[s0.len() as int] == x);
                    }
                }
            }
        } else {
            assert(s0.to_set().insert(node_id) =~= s0.to_set());
        }
    }

    /// Whether a node has a connection.
    pub fn has_connection(&self, node_id: NodeId) -> (r: bool)
        ensures
            r == self.nodes().contains(node_id),
    {
        let mut i: usize = 0;
        while i < self.connections.len()
            invariant
                i <= self.connections@.len(),
                forall|k: int| 0 <= k < i ==> self.connections@[k] != node_id,
            decreases self.connections@.len() - i,
        {
            if self.connections[i] == node_id {
                assert(self.connections@[i as int] == node_id);
                return true;
            }
            i = i + 1;
        }
        false
    }

    /// A tensor can be sent to a node only over its connection.
    pub fn check_destination(&self, node_id: NodeId) -> (r: Result<(), QuicError>)
        ensures
            self.nodes().contains(node_id) ==> r is Ok,
            !self.nodes().contains(node_id) ==> r == Err::<(), QuicError>(QuicError::NodeNotFound(node_id)),
    {
        if self.has_connection(node_id) {
            Ok(())
        } else {
            Err(QuicError::NodeNotFound(node_id))
        }
    }

    /// The number of connected nodes.
    pub fn get_stats(&self) -> (r: ServerStats)
        requires
            self.wf(),
        ensures
            r.active_connections == self.nodes().len(),
    {
        proof {
            self.connections@.unique_seq_to_set();
        }
        ServerStats { active_connections: self.connections.len() }
    }
}

} // verus!
