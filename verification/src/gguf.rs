//! The GGUF model file format: a little-endian header, a metadata section of
//! typed key/value pairs and a table of tensor descriptors.
//!
//! The grammar is stated as spec functions over the file's bytes; the parser
//! is proved to compute exactly what they define, error cases included.

use vstd::prelude::*;
use vstd::string::StringSliceAdditionalSpecFns;
use crate::text::{str_eq, decimal, u64_to_decimal};

verus! {

/// "GGUF" read as a little-endian `u32`.
pub const GGUF_MAGIC: u32 = 0x46554747;

/// Why a byte sequence is not a GGUF model.
#[derive(Debug, Clone, Copy, PartialEq, Eq)]
pub enum GgufError {
    /// The bytes end before a field does.
    UnexpectedEof,
    /// The first four bytes are not "GGUF".
    InvalidMagic,
    /// A string field is not valid UTF-8.
    InvalidUtf8,
    /// A metadata value carries a type tag that GGUF does not define.
    UnknownValueType(u32),
    /// A tensor carries a data type id that the parser does not know.
    UnknownTypeId(u32),
}

/// The message describing an error.
pub open spec fn error_text(e: GgufError) -> Seq<char> {
    match e {
        GgufError::UnexpectedEof => "failed to fill whole buffer"@,
        GgufError::InvalidMagic => "Invalid GGUF magic number"@,
        GgufError::InvalidUtf8 => "invalid utf-8 sequence"@,
        GgufError::UnknownValueType(t) => "Unknown value type: "@ + decimal(t as nat),
        GgufError::UnknownTypeId(t) => "Unknown type ID: "@ + decimal(t as nat),
    }
}

impl GgufError {
    /// The message describing this error.
    pub fn message(&self) -> (r: String)
        ensures
            r@ == error_text(*self),
    {
        match self {
            GgufError::UnexpectedEof => String::from_str("failed to fill whole buffer"),
            GgufError::InvalidMagic => String::from_str("Invalid GGUF magic number"),
            GgufError::InvalidUtf8 => String::from_str("invalid utf-8 sequence"),
            GgufError::UnknownValueType(t) => {
                let mut m = String::from_str("Unknown value type: ");
                let d = u64_to_decimal(*t as u64);
                m.append(d.as_str());
                m
            },
            GgufError::UnknownTypeId(t) => {
                let mut m = String::from_str("Unknown type ID: ");
                let d = u64_to_decimal(*t as u64);
                m.append(d.as_str());
                m
            },
        }
    }
}

/// A metadata value. Floating-point values are carried as their IEEE-754 bit patterns.
#[derive(Debug)]
pub enum GgufValue {
    Uint8(u8),
    Int8(i8),
    Uint16(u16),
    Int16(i16),
    Uint32(u32),
    Int32(i32),
    Float32(u32),
    Bool(bool),
    String(String),
    Array(Vec<GgufValue>),
    Uint64(u64),
    Int64(i64),
    Float64(u64),
}

/// The mathematical value that a [`GgufValue`] stands for.
pub enum GValue {
    Uint8(u8),
    Int8(i8),
    Uint16(u16),
    Int16(i16),
    Uint32(u32),
    Int32(i32),
    Float32(u32),
    Bool(bool),
    Str(Seq<char>),
    Array(Seq<GValue>),
    Uint64(u64),
    Int64(i64),
    Float64(u64),
}

pub open spec fn value_view(v: GgufValue) -> GValue
    decreases v,
{
    match v {
        GgufValue::Uint8(x) => GValue::Uint8(x),
        GgufValue::Int8(x) => GValue::Int8(x),
        GgufValue::Uint16(x) => GValue::Uint16(x),
        GgufValue::Int16(x) => GValue::Int16(x),
        GgufValue::Uint32(x) => GValue::Uint32(x),
        GgufValue::Int32(x) => GValue::Int32(x),
        GgufValue::Float32(x) => GValue::Float32(x),
        GgufValue::Bool(x) => GValue::Bool(x),
        GgufValue::String(s) => GValue::Str(s@),
        GgufValue::Array(a) => GValue::Array(values_view(a@)),
        GgufValue::Uint64(x) => GValue::Uint64(x),
        GgufValue::Int64(x) => GValue::Int64(x),
        GgufValue::Float64(x) => GValue::Float64(x),
    }
}

pub open spec fn values_view(s: Seq<GgufValue>) -> Seq<GValue>
    decreases s,
{
    if s.len() == 0 {
        Seq::empty()
    } else {
        values_view(s.subrange(0, s.len() - 1)).push(value_view(s[s.len() - 1]))
    }
}

/// A tensor descriptor as the file states it.
pub struct GTensor {
    pub name: Seq<char>,
    pub shape: Seq<u64>,
    pub dtype: Seq<char>,
    pub offset: u64,
}

/// A parsed model: version, metadata pairs in file order, tensor descriptors.
pub struct GModel {
    pub version: u32,
    pub metadata: Seq<(Seq<char>, GValue)>,
    pub tensors: Seq<GTensor>,
}

// ----- the grammar -----

pub open spec fn le16(s: Seq<u8>) -> int {
    s[0] as int + s[1] as int * 256
}

pub open spec fn le32(s: Seq<u8>) -> int {
    s[0] as int + s[1] as int * 0x100 + s[2] as int * 0x10000 + s[3] as int * 0x1000000
}

pub open spec fn le64(s: Seq<u8>) -> int {
    le32(s) + le32(s.skip(4)) * 0x1_0000_0000
}

/// A length-prefixed UTF-8 string: a `u64` byte count, then the bytes.
pub open spec fn parse_string(s: Seq<u8>) -> Result<(Seq<char>, nat), GgufError> {
    if s.len() < 8 {
        Err(GgufError::UnexpectedEof)
    } else if s.len() - 8 < le64(s) {
        Err(GgufError::UnexpectedEof)
    } else {
        let bytes = s.subrange(8, 8 + le64(s));
        if vstd::utf8::valid_utf8(bytes) {
            Ok((vstd::utf8::decode_utf8(bytes), (8 + le64(s)) as nat))
        } else {
            Err(GgufError::InvalidUtf8)
        }
    }
}

/// A value of the given type tag.
pub open spec fn parse_value(s: Seq<u8>, ty: u32) -> Result<(GValue, nat), GgufError>
    decreases s.len(), 0int,
{
    if ty == 0 || ty == 1 || ty == 7 {
        if s.len() < 1 {
            Err(GgufError::UnexpectedEof)
        } else if ty == 0 {
            Ok((GValue::Uint8(s[0]), 1))
        } else if ty == 1 {
            Ok((GValue::Int8(s[0] as i8), 1))
        } else {
            Ok((GValue::Bool(s[0] != 0), 1))
        }
    } else if ty == 2 || ty == 3 {
        if s.len() < 2 {
            Err(GgufError::UnexpectedEof)
        } else if ty == 2 {
            Ok((GValue::Uint16(le16(s) as u16), 2))
        } else {
            Ok((GValue::Int16((le16(s) as u16) as i16), 2))
        }
    } else if ty == 4 || ty == 5 || ty == 6 {
        if s.len() < 4 {
            Err(GgufError::UnexpectedEof)
        } else if ty == 4 {
            Ok((GValue::Uint32(le32(s) as u32), 4))
        } else if ty == 5 {
            Ok((GValue::Int32((le32(s) as u32) as i32), 4))
        } else {
            Ok((GValue::Float32(le32(s) as u32), 4))
        }
    } else if ty == 10 || ty == 11 || ty == 12 {
        if s.len() < 8 {
            Err(GgufError::UnexpectedEof)
        } else if ty == 10 {
            Ok((GValue::Uint64(le64(s) as u64), 8))
        } else if ty == 11 {
            Ok((GValue::Int64((le64(s) as u64) as i64), 8))
        } else {
            Ok((GValue::Float64(le64(s) as u64), 8))
        }
    } else if ty == 8 {
        match parse_string(s) {
            Ok((t, n)) => Ok((GValue::Str(t), n)),
            Err(e) => Err(e),
        }
    } else if ty == 9 {
        if s.len() < 12 {
            Err(GgufError::UnexpectedEof)
        } else {
            match parse_elems(s.skip(12), le32(s) as u32, le64(s.skip(4)) as nat) {
                Ok((vs, n)) => Ok((GValue::Array(vs), 12 + n)),
                Err(e) => Err(e),
            }
        }
    } else {
        Err(GgufError::UnknownValueType(ty))
    }
}

/// `count` values of one type, one after the other.
pub open spec fn parse_elems(s: Seq<u8>, ty: u32, count: nat) -> Result<(Seq<GValue>, nat), GgufError>
    decreases s.len(), 1int,
{
    if count == 0 {
        Ok((Seq::empty(), 0))
    } else {
        match parse_value(s, ty) {
            Err(e) => Err(e),
            Ok((v, k)) => if k == 0 || k > s.len() {
                Err(GgufError::UnexpectedEof)
            } else {
                match parse_elems(s.skip(k as int), ty, (count - 1) as nat) {
                    Err(e) => Err(e),
                    Ok((vs, k2)) => Ok((seq![v] + vs, k + k2)),
                }
            },
        }
    }
}

/// A metadata pair: key string, `u32` type tag, value.
pub open spec fn parse_kv(s: Seq<u8>) -> Result<((Seq<char>, GValue), nat), GgufError> {
    match parse_string(s) {
        Err(e) => Err(e),
        Ok((key, k1)) => {
            let r = s.skip(k1 as int);
            if r.len() < 4 {
                Err(GgufError::UnexpectedEof)
            } else {
                match parse_value(r.skip(4), le32(r) as u32) {
                    Err(e) => Err(e),
                    Ok((v, k2)) => Ok(((key, v), k1 + 4 + k2)),
                }
            }
        },
    }
}

pub open spec fn parse_kvs(s: Seq<u8>, count: nat) -> Result<(Seq<(Seq<char>, GValue)>, nat), GgufError>
    decreases count,
{
    if count == 0 {
        Ok((Seq::empty(), 0))
    } else {
        match parse_kv(s) {
            Err(e) => Err(e),
            Ok((kv, k)) => match parse_kvs(s.skip(k as int), (count - 1) as nat) {
                Err(e) => Err(e),
                Ok((kvs, k2)) => Ok((seq![kv] + kvs, k + k2)),
            },
        }
    }
}

/// The data type names that tensor type ids stand for.
pub open spec fn dtype_name(type_id: u32) -> Option<Seq<char>> {
    if type_id == 0 {
        Some("f32"@)
    } else if type_id == 1 {
        Some("f16"@)
    } else if type_id == 2 {
        Some("q4_0"@)
    } else if type_id == 3 {
        Some("q4_1"@)
    } else if type_id == 6 {
        Some("q5_0"@)
    } else if type_id == 7 {
        Some("q5_1"@)
    } else if type_id == 8 {
        Some("q8_0"@)
    } else if type_id == 9 {
        Some("q8_1"@)
    } else if type_id == 10 {
        Some("i8"@)
    } else if type_id == 11 {
        Some("i16"@)
    } else if type_id == 12 {
        Some("i32"@)
    } else {
        None
    }
}

/// A tensor descriptor: name, `u32` dimension count, `u64` dimensions,
/// `u32` type id, `u64` offset.
#[verifier::opaque]
pub open spec fn parse_tensor(s: Seq<u8>) -> Result<(GTensor, nat), GgufError> {
    match parse_string(s) {
        Err(e) => Err(e),
        Ok((name, k1)) => {
            let r = s.skip(k1 as int);
            if r.len() < 4 {
                Err(GgufError::UnexpectedEof)
            } else {
                let n = le32(r);
                let d = r.skip(4);
                if d.len() < 8 * n + 12 {
                    Err(GgufError::UnexpectedEof)
                } else {
                    let t = d.skip(8 * n);
                    match dtype_name(le32(t) as u32) {
                        None => Err(GgufError::UnknownTypeId(le32(t) as u32)),
                        Some(dtype) => Ok((
                            GTensor {
                                name,
                                shape: Seq::new(n as nat, |i: int| le64(d.skip(8 * i)) as u64),
                                dtype,
                                offset: le64(t.skip(4)) as u64,
                            },
                            (k1 + 4 + 8 * n + 12) as nat,
                        )),
                    }
                }
            }
        },
    }
}

pub open spec fn parse_tensors(s: Seq<u8>, count: nat) -> Result<(Seq<GTensor>, nat), GgufError>
    decreases count,
{
    if count == 0 {
        Ok((Seq::empty(), 0))
    } else {
        match parse_tensor(s) {
            Err(e) => Err(e),
            Ok((t, k)) => match parse_tensors(s.skip(k as int), (count - 1) as nat) {
                Err(e) => Err(e),
                Ok((ts, k2)) => Ok((seq![t] + ts, k + k2)),
            },
        }
    }
}

/// A whole model file: magic, `u32` version, `u64` tensor count,
/// `u64` metadata count, the metadata pairs, the tensor descriptors.
/// Bytes after the last descriptor are not part of the header.
pub open spec fn parse_model(s: Seq<u8>) -> Result<GModel, GgufError> {
    if s.len() < 4 {
        Err(GgufError::UnexpectedEof)
    } else if le32(s) != GGUF_MAGIC as int {
        Err(GgufError::InvalidMagic)
    } else if s.len() < 24 {
        Err(GgufError::UnexpectedEof)
    } else {
        match parse_kvs(s.skip(24), le64(s.skip(16)) as nat) {
            Err(e) => Err(e),
            Ok((kvs, k)) => match parse_tensors(s.skip(24 + k as int), le64(s.skip(8)) as nat) {
                Err(e) => Err(e),
                Ok((ts, _)) => Ok(GModel { version: le32(s.skip(4)) as u32, metadata: kvs, tensors: ts }),
            },
        }
    }
}


// ----- reading -----

/// `String::from_utf8`: succeeds exactly on valid UTF-8, and the string then
/// holds the decoded characters.
#[verifier::external_body]
fn string_from_utf8(bytes: Vec<u8>) -> (r: Option<String>)
    ensures
        r is Some <==> vstd::utf8::valid_utf8(bytes@),
        r matches Some(t) ==> t@ == vstd::utf8::decode_utf8(bytes@),
{
    String::from_utf8(bytes).ok()
}

fn read_u8(buf: &[u8], pos: usize) -> (r: Result<(u8, usize), GgufError>)
    requires
        pos <= buf.len(),
    ensures
        match r {
            Ok((v, p)) => buf@.skip(pos as int).len() >= 1 && v == buf@.skip(pos as int)[0] && p == pos + 1,
            Err(e) => buf@.skip(pos as int).len() < 1 && e == GgufError::UnexpectedEof,
        },
{
    if buf.len() - pos < 1 {
        Err(GgufError::UnexpectedEof)
    } else {
        Ok((buf[pos], pos + 1))
    }
}

fn read_u16(buf: &[u8], pos: usize) -> (r: Result<(u16, usize), GgufError>)
    requires
        pos <= buf.len(),
    ensures
        match r {
            Ok((v, p)) => buf@.skip(pos as int).len() >= 2 && v as int == le16(buf@.skip(pos as int)) && p == pos + 2,
            Err(e) => buf@.skip(pos as int).len() < 2 && e == GgufError::UnexpectedEof,
        },
{
    if buf.len() - pos < 2 {
        Err(GgufError::UnexpectedEof)
    } else {
        let v: u16 = buf[pos] as u16 + (buf[pos + 1] as u16) * 0x100;
        Ok((v, pos + 2))
    }
}

fn read_u32(buf: &[u8], pos: usize) -> (r: Result<(u32, usize), GgufError>)
    requires
        pos <= buf.len(),
    ensures
        match r {
            Ok((v, p)) => buf@.skip(pos as int).len() >= 4 && v as int == le32(buf@.skip(pos as int)) && p == pos + 4,
            Err(e) => buf@.skip(pos as int).len() < 4 && e == GgufError::UnexpectedEof,
        },
{
    if buf.len() - pos < 4 {
        Err(GgufError::UnexpectedEof)
    } else {
        let v: u32 = buf[pos] as u32 + (buf[pos + 1] as u32) * 0x100 + (buf[pos + 2] as u32) * 0x10000
            + (buf[pos + 3] as u32) * 0x1000000;
        Ok((v, pos + 4))
    }
}

fn read_u64(buf: &[u8], pos: usize) -> (r: Result<(u64, usize), GgufError>)
    requires
        pos <= buf.len(),
    ensures
        match r {
            Ok((v, p)) => buf@.skip(pos as int).len() >= 8 && v as int == le64(buf@.skip(pos as int)) && p == pos + 8,
            Err(e) => buf@.skip(pos as int).len() < 8 && e == GgufError::UnexpectedEof,
        },
{
    if buf.len() - pos < 8 {
        Err(GgufError::UnexpectedEof)
    } else {
        let lo = read_u32(buf, pos);
        let hi = read_u32(buf, pos + 4);
        match (lo, hi) {
            (Ok((a, _)), Ok((b, _))) => {
                assert(buf@.skip(pos as int).skip(4) =~= buf@.skip(pos + 4));
                let v: u64 = a as u64 + (b as u64) * 0x1_0000_0000;
                Ok((v, pos + 8))
            },
            _ => Err(GgufError::UnexpectedEof),
        }
    }
}

fn read_string(buf: &[u8], pos: usize) -> (r: Result<(String, usize), GgufError>)
    requires
        pos <= buf.len(),
    ensures
        match r {
            Ok((t, p)) => pos <= p <= buf.len() && parse_string(buf@.skip(pos as int)) == Ok::<(Seq<char>, nat), GgufError>((t@, (p - pos) as nat)),
            Err(e) => parse_string(buf@.skip(pos as int)) == Err::<(Seq<char>, nat), GgufError>(e),
        },
{
    let ghost s = buf@.skip(pos as int);
    let (n, p) = match read_u64(buf, pos) {
        Ok(x) => x,
        Err(e) => return Err(e),
    };
    if ((buf.len() - p) as u64) < n {
        return Err(GgufError::UnexpectedEof);
    }
    let end: usize = p + n as usize;
    let mut bytes: Vec<u8> = Vec::new();
    let mut i: usize = p;
    while i < end
        invariant
            p <= i <= end <= buf.len(),
            bytes@ =~= buf@.subrange(p as int, i as int),
        decreases end - i,
    {
        bytes.push(buf[i]);
        i = i + 1;
    }
    assert(bytes@ =~= s.subrange(8, 8 + le64(s)));
    match string_from_utf8(bytes) {
        Some(t) => Ok((t, end)),
        None => Err(GgufError::InvalidUtf8),
    }
}


pub open spec fn shift_elems(acc: Seq<GValue>, d: nat, r: Result<(Seq<GValue>, nat), GgufError>) -> Result<(Seq<GValue>, nat), GgufError> {
    match r {
        Ok((vs, k)) => Ok((acc + vs, d + k)),
        Err(e) => Err(e),
    }
}

/// Every value takes at least one byte and no more bytes than there are.
pub proof fn lemma_parse_value_bounds(s: Seq<u8>, ty: u32)
    ensures
        parse_value(s, ty) matches Ok((_, k)) ==> 1 <= k <= s.len(),
    decreases s.len(), 0int,
{
    if ty == 9 && s.len() >= 12 {
        lemma_parse_elems_bounds(s.skip(12), le32(s) as u32, le64(s.skip(4)) as nat);
    }
}

pub proof fn lemma_parse_elems_bounds(s: Seq<u8>, ty: u32, count: nat)
    ensures
        parse_elems(s, ty, count) matches Ok((_, k)) ==> k <= s.len(),
    decreases s.len(), 1int,
{
    if count > 0 {
        lemma_parse_value_bounds(s, ty);
        if let Ok((v, k)) = parse_value(s, ty) {
            if 0 < k <= s.len() {
                lemma_parse_elems_bounds(s.skip(k as int), ty, (count - 1) as nat);
            }
        }
    }
}

fn read_value(buf: &[u8], pos: usize, ty: u32) -> (r: Result<(GgufValue, usize), GgufError>)
    requires
        pos <= buf.len(),
    ensures
        match r {
            Ok((v, p)) => pos <= p <= buf.len() && parse_value(buf@.skip(pos as int), ty) == Ok::<(GValue, nat), GgufError>((value_view(v), (p - pos) as nat)),
            Err(e) => parse_value(buf@.skip(pos as int), ty) == Err::<(GValue, nat), GgufError>(e),
        },
    decreases buf.len() - pos, 0int,
{
    let ghost s = buf@.skip(pos as int);
    if ty == 0 || ty == 1 || ty == 7 {
        let (b, p) = match read_u8(buf, pos) {
            Ok(x) => x,
            Err(e) => return Err(e),
        };
        if ty == 0 {
            Ok((GgufValue::Uint8(b), p))
        } else if ty == 1 {
            Ok((GgufValue::Int8(b as i8), p))
        } else {
            Ok((GgufValue::Bool(b != 0), p))
        }
    } else if ty == 2 || ty == 3 {
        let (x, p) = match read_u16(buf, pos) {
            Ok(x) => x,
            Err(e) => return Err(e),
        };
        if ty == 2 {
            Ok((GgufValue::Uint16(x), p))
        } else {
            Ok((GgufValue::Int16(x as i16), p))
        }
    } else if ty == 4 || ty == 5 || ty == 6 {
        let (x, p) = match read_u32(buf, pos) {
            Ok(x) => x,
            Err(e) => return Err(e),
        };
        if ty == 4 {
            Ok((GgufValue::Uint32(x), p))
        } else if ty == 5 {
            Ok((GgufValue::Int32(x as i32), p))
        } else {
            Ok((GgufValue::Float32(x), p))
        }
    } else if ty == 10 || ty == 11 || ty == 12 {
        let (x, p) = match read_u64(buf, pos) {
            Ok(x) => x,
            Err(e) => return Err(e),
        };
        if ty == 10 {
            Ok((GgufValue::Uint64(x), p))
        } else if ty == 11 {
            Ok((GgufValue::Int64(x as i64), p))
        } else {
            Ok((GgufValue::Float64(x), p))
        }
    } else if ty == 8 {
        match read_string(buf, pos) {
            Ok((t, p)) => Ok((GgufValue::String(t), p)),
            Err(e) => Err(e),
        }
    } else if ty == 9 {
        if buf.len() - pos < 12 {
            return Err(GgufError::UnexpectedEof);
        }
        let (et, p1) = match read_u32(buf, pos) {
            Ok(x) => x,
            Err(e) => return Err(e),
        };
        let (count, p2) = match read_u64(buf, p1) {
            Ok(x) => x,
            Err(e) => return Err(e),
        };
        assert(buf@.skip(pos as int).skip(4) =~= buf@.skip(p1 as int));
        assert(buf@.skip(pos as int).skip(12) =~= buf@.skip(p2 as int));
        match read_elems(buf, p2, et, count) {
            Ok((vs, p)) => Ok((GgufValue::Array(vs), p)),
            Err(e) => Err(e),
        }
    } else {
        Err(GgufError::UnknownValueType(ty))
    }
}

fn read_elems(buf: &[u8], start: usize, ty: u32, count: u64) -> (r: Result<(Vec<GgufValue>, usize), GgufError>)
    requires
        start <= buf.len(),
    ensures
        match r {
            Ok((vs, p)) => start <= p <= buf.len() && parse_elems(buf@.skip(start as int), ty, count as nat) == Ok::<(Seq<GValue>, nat), GgufError>((values_view(vs@), (p - start) as nat)),
            Err(e) => parse_elems(buf@.skip(start as int), ty, count as nat) == Err::<(Seq<GValue>, nat), GgufError>(e),
        },
    decreases buf.len() - start, 1int,
{
    let mut acc: Vec<GgufValue> = Vec::new();
    let mut p: usize = start;
    let mut i: u64 = 0;
    assert(buf@.skip(start as int) =~= buf@.skip(p as int));
    assert(values_view(acc@) =~= Seq::<GValue>::empty());
    proof {
        match parse_elems(buf@.skip(p as int), ty, count as nat) {
            Ok((vs, k)) => { assert(Seq::<GValue>::empty() + vs =~= vs); },
            Err(_) => {},
        }
    }
    while i < count
        invariant
            start <= p <= buf.len(),
            i <= count,
            parse_elems(buf@.skip(start as int), ty, count as nat) == shift_elems(
                values_view(acc@), (p - start) as nat, parse_elems(buf@.skip(p as int), ty, (count - i) as nat)),
        decreases count - i,
    {
        let ghost s = buf@.skip(p as int);
        let ghost old_acc = values_view(acc@);
        match read_value(buf, p, ty) {
            Err(e) => {
                return Err(e);
            },
            Ok((v, p2)) => {
                proof {
                    lemma_parse_value_bounds(s, ty);
                    assert(s.skip(p2 - p) =~= buf@.skip(p2 as int));
                    assert(acc@.push(v).subrange(0, acc@.len() as int) =~= acc@);
                    match parse_elems(buf@.skip(p2 as int), ty, (count - i - 1) as nat) {
                        Ok((vs, k)) => {
                            assert(old_acc + (seq![value_view(v)] + vs) =~= old_acc.push(value_view(v)) + vs);
                        },
                        Err(_) => {},
                    }
                }
                acc.push(v);
                p = p2;
                i = i + 1;
            },
        }
    }
    proof {
        assert(values_view(acc@) + Seq::<GValue>::empty() =~= values_view(acc@));
    }
    Ok((acc, p))
}


/// A tensor descriptor read from a GGUF file.
#[derive(Debug)]
pub struct GgufTensor {
    pub name: String,
    pub shape: Vec<u64>,
    pub dtype: String,
    pub offset: u64,
}

pub open spec fn tensor_view(t: GgufTensor) -> GTensor {
    GTensor { name: t.name@, shape: t.shape@, dtype: t.dtype@, offset: t.offset }
}

pub open spec fn tensors_view(s: Seq<GgufTensor>) -> Seq<GTensor> {
    s.map_values(|t: GgufTensor| tensor_view(t))
}

pub open spec fn pairs_view(s: Seq<(String, GgufValue)>) -> Seq<(Seq<char>, GValue)> {
    s.map_values(|p: (String, GgufValue)| (p.0@, value_view(p.1)))
}

/// The map that a sequence of key/value pairs builds when each pair is
/// inserted in turn: a later pair replaces an earlier one with the same key.
pub open spec fn pairs_to_map(s: Seq<(Seq<char>, GValue)>) -> Map<Seq<char>, GValue>
    decreases s.len(),
{
    if s.len() == 0 {
        Map::empty()
    } else {
        pairs_to_map(s.drop_last()).insert(s.last().0, s.last().1)
    }
}

/// The metadata section of a model: its key/value pairs in file order.
/// Lookups see the last pair with a key, as a map filled in file order does.
#[derive(Debug)]
pub struct GgufMetadata {
    pub entries: Vec<(String, GgufValue)>,
}

impl GgufMetadata {
    pub open spec fn view_map(&self) -> Map<Seq<char>, GValue> {
        pairs_to_map(pairs_view(self.entries@))
    }

    /// The value stored under `key`.
    pub fn get(&self, key: &str) -> (r: Option<&GgufValue>)
        ensures
            match r {
                Some(v) => self.view_map().contains_key(key@) && self.view_map()[key@] == value_view(*v),
                None => !self.view_map().contains_key(key@),
            },
    {
        let ghost ps = pairs_view(self.entries@);
        let mut i: usize = self.entries.len();
        while i > 0
            invariant
                i <= self.entries.len(),
                ps == pairs_view(self.entries@),
                forall|j: int| i <= j < self.entries.len() ==> ps[j].0 != key@,
            decreases i,
        {
            i = i - 1;
            if str_eq(self.entries[i].0.as_str(), key) {
                proof {
                    lemma_pairs_to_map_last(ps, key@, i as int);
                }
                return Some(&self.entries[i].1);
            }
        }
        proof {
            lemma_pairs_to_map_absent(ps, key@);
        }
        None
    }
}

proof fn lemma_pairs_to_map_absent(s: Seq<(Seq<char>, GValue)>, k: Seq<char>)
    requires
        forall|j: int| 0 <= j < s.len() ==> s[j].0 != k,
    ensures
        !pairs_to_map(s).contains_key(k),
    decreases s.len(),
{
    if s.len() > 0 {
        lemma_pairs_to_map_absent(s.drop_last(), k);
    }
}

proof fn lemma_pairs_to_map_last(s: Seq<(Seq<char>, GValue)>, k: Seq<char>, i: int)
    requires
        0 <= i < s.len(),
        s[i].0 == k,
        forall|j: int| i < j < s.len() ==> s[j].0 != k,
    ensures
        pairs_to_map(s).contains_key(k),
        pairs_to_map(s)[k] == s[i].1,
    decreases s.len(),
{
    if i < s.len() - 1 {
        lemma_pairs_to_map_last(s.drop_last(), k, i);
    }
}

/// A model's header: version, metadata and tensor descriptors.
#[derive(Debug)]
pub struct GgufModel {
    pub version: u32,
    pub metadata: GgufMetadata,
    pub tensors: Vec<GgufTensor>,
}

pub open spec fn model_view(m: GgufModel) -> GModel {
    GModel { version: m.version, metadata: pairs_view(m.metadata.entries@), tensors: tensors_view(m.tensors@) }
}

fn read_kv(buf: &[u8], pos: usize) -> (r: Result<((String, GgufValue), usize), GgufError>)
    requires
        pos <= buf.len(),
    ensures
        match r {
            Ok((kv, p)) => pos <= p <= buf.len() && parse_kv(buf@.skip(pos as int)) == Ok::<((Seq<char>, GValue), nat), GgufError>(((kv.0@, value_view(kv.1)), (p - pos) as nat)),
            Err(e) => parse_kv(buf@.skip(pos as int)) == Err::<((Seq<char>, GValue), nat), GgufError>(e),
        },
{
    let ghost s = buf@.skip(pos as int);
    let (key, p1) = match read_string(buf, pos) {
        Ok(x) => x,
        Err(e) => return Err(e),
    };
    assert(s.skip(p1 - pos) =~= buf@.skip(p1 as int));
    let (ty, p2) = match read_u32(buf, p1) {
        Ok(x) => x,
        Err(e) => return Err(e),
    };
    assert(buf@.skip(p1 as int).skip(4) =~= buf@.skip(p2 as int));
    match read_value(buf, p2, ty) {
        Ok((v, p)) => Ok(((key, v), p)),
        Err(e) => Err(e),
    }
}

pub open spec fn shift_kvs(acc: Seq<(Seq<char>, GValue)>, d: nat, r: Result<(Seq<(Seq<char>, GValue)>, nat), GgufError>) -> Result<(Seq<(Seq<char>, GValue)>, nat), GgufError> {
    match r {
        Ok((vs, k)) => Ok((acc + vs, d + k)),
        Err(e) => Err(e),
    }
}

fn read_kvs(buf: &[u8], start: usize, count: u64) -> (r: Result<(Vec<(String, GgufValue)>, usize), GgufError>)
    requires
        start <= buf.len(),
    ensures
        match r {
            Ok((vs, p)) => start <= p <= buf.len() && parse_kvs(buf@.skip(start as int), count as nat) == Ok::<(Seq<(Seq<char>, GValue)>, nat), GgufError>((pairs_view(vs@), (p - start) as nat)),
            Err(e) => parse_kvs(buf@.skip(start as int), count as nat) == Err::<(Seq<(Seq<char>, GValue)>, nat), GgufError>(e),
        },
{
    let mut acc: Vec<(String, GgufValue)> = Vec::new();
    let mut p: usize = start;
    let mut i: u64 = 0;
    assert(pairs_view(acc@) =~= Seq::<(Seq<char>, GValue)>::empty());
    proof {
        match parse_kvs(buf@.skip(p as int), count as nat) {
            Ok((vs, k)) => { assert(Seq::<(Seq<char>, GValue)>::empty() + vs =~= vs); },
            Err(_) => {},
        }
    }
    while i < count
        invariant
            start <= p <= buf.len(),
            i <= count,
            parse_kvs(buf@.skip(start as int), count as nat) == shift_kvs(
                pairs_view(acc@), (p - start) as nat, parse_kvs(buf@.skip(p as int), (count - i) as nat)),
        decreases count - i,
    {
        let ghost s = buf@.skip(p as int);
        let ghost old_acc = pairs_view(acc@);
        match read_kv(buf, p) {
            Err(e) => {
                return Err(e);
            },
            Ok((kv, p2)) => {
                proof {
                    assert(s.skip(p2 - p) =~= buf@.skip(p2 as int));
                    assert(pairs_view(acc@.push(kv)) =~= old_acc.push((kv.0@, value_view(kv.1))));
                    match parse_kvs(buf@.skip(p2 as int), (count - i - 1) as nat) {
                        Ok((vs, k)) => {
                            assert(old_acc + (seq![(kv.0@, value_view(kv.1))] + vs) =~= old_acc.push((kv.0@, value_view(kv.1))) + vs);
                        },
                        Err(_) => {},
                    }
                }
                acc.push(kv);
                p = p2;
                i = i + 1;
            },
        }
    }
    proof {
        assert(pairs_view(acc@) + Seq::<(Seq<char>, GValue)>::empty() =~= pairs_view(acc@));
    }
    Ok((acc, p))
}

/// The data type name of a tensor type id, or `UnknownTypeId`.
pub fn dtype_from_id(type_id: u32) -> (r: Result<String, GgufError>)
    ensures
        match r {
            Ok(t) => dtype_name(type_id) == Some(t@),
            Err(e) => dtype_name(type_id) is None && e == GgufError::UnknownTypeId(type_id),
        },
{
    let name = if type_id == 0 {
        "f32"
    } else if type_id == 1 {
        "f16"
    } else if type_id == 2 {
        "q4_0"
    } else if type_id == 3 {
        "q4_1"
    } else if type_id == 6 {
        "q5_0"
    } else if type_id == 7 {
        "q5_1"
    } else if type_id == 8 {
        "q8_0"
    } else if type_id == 9 {
        "q8_1"
    } else if type_id == 10 {
        "i8"
    } else if type_id == 11 {
        "i16"
    } else if type_id == 12 {
        "i32"
    } else {
        return Err(GgufError::UnknownTypeId(type_id));
    };
    Ok(String::from_str(name))
}

fn read_tensor(buf: &[u8], pos: usize) -> (r: Result<(GgufTensor, usize), GgufError>)
    requires
        pos <= buf.len(),
    ensures
        match r {
            Ok((t, p)) => pos <= p <= buf.len() && parse_tensor(buf@.skip(pos as int)) == Ok::<(GTensor, nat), GgufError>((tensor_view(t), (p - pos) as nat)),
            Err(e) => parse_tensor(buf@.skip(pos as int)) == Err::<(GTensor, nat), GgufError>(e),
        },
{
    reveal(parse_tensor);
    let ghost s = buf@.skip(pos as int);
    let (name, p1) = match read_string(buf, pos) {
        Ok(x) => x,
        Err(e) => return Err(e),
    };
    assert(s.skip(p1 - pos) =~= buf@.skip(p1 as int));
    let (n, p2) = match read_u32(buf, p1) {
        Ok(x) => x,
        Err(e) => return Err(e),
    };
    let ghost d = buf@.skip(p2 as int);
    assert(buf@.skip(p1 as int).skip(4) =~= d);
    if ((buf.len() - p2) as u64) < 8 * (n as u64) + 12 {
        return Err(GgufError::UnexpectedEof);
    }
    let mut shape: Vec<u64> = Vec::new();
    let mut q: usize = p2;
    let mut i: u32 = 0;
    while i < n
        invariant
            i <= n,
            q == p2 + 8 * i,
            p2 + 8 * n + 12 <= buf.len(),
            d == buf@.skip(p2 as int),
            shape@.len() == i,
            forall|j: int| 0 <= j < i ==> shape@[j] as int == le64(d.skip(8 * j)),
        decreases n - i,
    {
        let (x, q2) = match read_u64(buf, q) {
            Ok(v) => v,
            Err(e) => return Err(e),
        };
        assert(d.skip(8 * i) =~= buf@.skip(q as int));
        shape.push(x);
        q = q2;
        i = i + 1;
    }
    let ghost t = d.skip(8 * n);
    assert(t =~= buf@.skip(q as int));
    let (type_id, q3) = match read_u32(buf, q) {
        Ok(v) => v,
        Err(e) => return Err(e),
    };
    let (offset, q4) = match read_u64(buf, q3) {
        Ok(v) => v,
        Err(e) => return Err(e),
    };
    assert(t.skip(4) =~= buf@.skip(q3 as int));
    let dtype = match dtype_from_id(type_id) {
        Ok(x) => x,
        Err(e) => return Err(e),
    };
    let tensor = GgufTensor { name, shape, dtype, offset };
    assert(tensor_view(tensor).shape =~= Seq::new(n as nat, |j: int| le64(d.skip(8 * j)) as u64));
    Ok((tensor, q4))
}

pub open spec fn shift_tensors(acc: Seq<GTensor>, d: nat, r: Result<(Seq<GTensor>, nat), GgufError>) -> Result<(Seq<GTensor>, nat), GgufError> {
    match r {
        Ok((vs, k)) => Ok((acc + vs, d + k)),
        Err(e) => Err(e),
    }
}

fn read_tensors(buf: &[u8], start: usize, count: u64) -> (r: Result<(Vec<GgufTensor>, usize), GgufError>)
    requires
        start <= buf.len(),
    ensures
        match r {
            Ok((vs, p)) => start <= p <= buf.len() && parse_tensors(buf@.skip(start as int), count as nat) == Ok::<(Seq<GTensor>, nat), GgufError>((tensors_view(vs@), (p - start) as nat)),
            Err(e) => parse_tensors(buf@.skip(start as int), count as nat) == Err::<(Seq<GTensor>, nat), GgufError>(e),
        },
{
    let mut acc: Vec<GgufTensor> = Vec::new();
    let mut p: usize = start;
    let mut i: u64 = 0;
    assert(tensors_view(acc@) =~= Seq::<GTensor>::empty());
    proof {
        match parse_tensors(buf@.skip(p as int), count as nat) {
            Ok((vs, k)) => { assert(Seq::<GTensor>::empty() + vs =~= vs); },
            Err(_) => {},
        }
    }
    while i < count
        invariant
            start <= p <= buf.len(),
            i <= count,
            parse_tensors(buf@.skip(start as int), count as nat) == shift_tensors(
                tensors_view(acc@), (p - start) as nat, parse_tensors(buf@.skip(p as int), (count - i) as nat)),
        decreases count - i,
    {
        let ghost s = buf@.skip(p as int);
        let ghost old_acc = tensors_view(acc@);
        match read_tensor(buf, p) {
            Err(e) => {
                return Err(e);
            },
            Ok((t, p2)) => {
                proof {
                    assert(s.skip(p2 - p) =~= buf@.skip(p2 as int));
                    assert(tensors_view(acc@.push(t)) =~= old_acc.push(tensor_view(t)));
                    match parse_tensors(buf@.skip(p2 as int), (count - i - 1) as nat) {
                        Ok((vs, k)) => {
                            assert(old_acc + (seq![tensor_view(t)] + vs) =~= old_acc.push(tensor_view(t)) + vs);
                        },
                        Err(_) => {},
                    }
                }
                acc.push(t);
                p = p2;
                i = i + 1;
            },
        }
    }
    proof {
        assert(tensors_view(acc@) + Seq::<GTensor>::empty() =~= tensors_view(acc@));
    }
    Ok((acc, p))
}


/// Bytes per element of a tensor data type.
pub open spec fn dtype_size(d: Seq<char>) -> Option<u64> {
    if d == "f32"@ {
        Some(4)
    } else if d == "f16"@ {
        Some(2)
    } else if d == "q4_0"@ || d == "q4_1"@ {
        Some(1)
    } else if d == "q5_0"@ || d == "q5_1"@ {
        Some(1)
    } else if d == "q8_0"@ || d == "q8_1"@ {
        Some(1)
    } else if d == "i8"@ {
        Some(1)
    } else if d == "i16"@ {
        Some(2)
    } else if d == "i32"@ {
        Some(4)
    } else {
        None
    }
}

/// Bytes per element of a tensor data type, `None` for a name it does not know.
pub fn dtype_bytes(dtype: &str) -> (r: Option<u64>)
    ensures
        r == dtype_size(dtype@),
{
    if str_eq(dtype, "f32") {
        Some(4)
    } else if str_eq(dtype, "f16") {
        Some(2)
    } else if str_eq(dtype, "q4_0") || str_eq(dtype, "q4_1") {
        Some(1)
    } else if str_eq(dtype, "q5_0") || str_eq(dtype, "q5_1") {
        Some(1)
    } else if str_eq(dtype, "q8_0") || str_eq(dtype, "q8_1") {
        Some(1)
    } else if str_eq(dtype, "i8") {
        Some(1)
    } else if str_eq(dtype, "i16") {
        Some(2)
    } else if str_eq(dtype, "i32") {
        Some(4)
    } else {
        None
    }
}

/// The product of the dimensions, folded from the left from 1.
pub open spec fn shape_product(s: Seq<u64>) -> int
    decreases s.len(),
{
    if s.len() == 0 {
        1
    } else {
        shape_product(s.drop_last()) * s.last()
    }
}

/// The bytes a tensor takes: its element count times the element size,
/// 4 for a data type without a known size.
pub open spec fn tensor_bytes(t: GTensor) -> int {
    shape_product(t.shape) * match dtype_size(t.dtype) {
        Some(b) => b as int,
        None => 4,
    }
}

pub open spec fn total_bytes(ts: Seq<GTensor>) -> int
    decreases ts.len(),
{
    if ts.len() == 0 {
        0
    } else {
        total_bytes(ts.drop_last()) + tensor_bytes(ts.last())
    }
}

/// The size sums fit in a `u64` at every step: each partial product of a
/// shape, each tensor's byte count and each partial sum.
pub open spec fn sizes_fit(ts: Seq<GTensor>) -> bool {
    &&& forall|i: int, k: int| 0 <= i < ts.len() && 0 <= k <= ts[i].shape.len()
        ==> #[trigger] shape_product(ts[i].shape.take(k)) <= u64::MAX
    &&& forall|i: int| 0 <= i < ts.len() ==> #[trigger] tensor_bytes(ts[i]) <= u64::MAX
    &&& forall|k: int| 0 <= k <= ts.len() ==> #[trigger] total_bytes(ts.take(k)) <= u64::MAX
}

pub open spec fn get_str(m: Map<Seq<char>, GValue>, key: Seq<char>) -> Option<Seq<char>> {
    if m.contains_key(key) {
        match m[key] {
            GValue::Str(t) => Some(t),
            _ => None,
        }
    } else {
        None
    }
}

pub open spec fn as_u64_spec(v: GValue) -> Option<u64> {
    match v {
        GValue::Uint8(x) => Some(x as u64),
        GValue::Uint16(x) => Some(x as u64),
        GValue::Uint32(x) => Some(x as u64),
        GValue::Uint64(x) => Some(x),
        _ => None,
    }
}

pub open spec fn as_i64_spec(v: GValue) -> Option<i64> {
    match v {
        GValue::Int8(x) => Some(x as i64),
        GValue::Int16(x) => Some(x as i64),
        GValue::Int32(x) => Some(x as i64),
        GValue::Int64(x) => Some(x),
        _ => None,
    }
}

pub open spec fn get_u64(m: Map<Seq<char>, GValue>, key: Seq<char>) -> Option<u64> {
    if m.contains_key(key) {
        as_u64_spec(m[key])
    } else {
        None
    }
}

impl GgufValue {
    /// The text of a string value.
    pub fn as_string(&self) -> (r: Option<&str>)
        ensures
            match r {
                Some(t) => value_view(*self) == GValue::Str(t@),
                None => !(value_view(*self) is Str),
            },
    {
        match self {
            GgufValue::String(t) => Some(t.as_str()),
            _ => None,
        }
    }

    /// An unsigned integer value widened to `u64`.
    pub fn as_u64(&self) -> (r: Option<u64>)
        ensures
            r == as_u64_spec(value_view(*self)),
    {
        match self {
            GgufValue::Uint8(v) => Some(*v as u64),
            GgufValue::Uint16(v) => Some(*v as u64),
            GgufValue::Uint32(v) => Some(*v as u64),
            GgufValue::Uint64(v) => Some(*v),
            _ => None,
        }
    }

    /// A signed integer value widened to `i64`.
    pub fn as_i64(&self) -> (r: Option<i64>)
        ensures
            r == as_i64_spec(value_view(*self)),
    {
        match self {
            GgufValue::Int8(v) => Some(*v as i64),
            GgufValue::Int16(v) => Some(*v as i64),
            GgufValue::Int32(v) => Some(*v as i64),
            GgufValue::Int64(v) => Some(*v),
            _ => None,
        }
    }

    /// A boolean value.
    pub fn as_bool(&self) -> (r: Option<bool>)
        ensures
            r == (match value_view(*self) {
                GValue::Bool(b) => Some(b),
                _ => None,
            }),
    {
        match self {
            GgufValue::Bool(v) => Some(*v),
            _ => None,
        }
    }
}

/// Reader of GGUF model headers.
pub struct GgufParser;

impl GgufParser {
    /// The first four bytes as a little-endian `u32`.
    pub fn read_magic(buf: &[u8]) -> (r: Result<u32, GgufError>)
        ensures
            match r {
                Ok(m) => buf@.len() >= 4 && m as int == le32(buf@),
                Err(e) => buf@.len() < 4 && e == GgufError::UnexpectedEof,
            },
    {
        assert(buf@.skip(0) =~= buf@);
        match read_u32(buf, 0) {
            Ok((m, _)) => Ok(m),
            Err(e) => Err(e),
        }
    }

    /// Parses a model header from the bytes of a GGUF file.
    pub fn parse_bytes(buf: &[u8]) -> (r: Result<GgufModel, GgufError>)
        ensures
            match r {
                Ok(m) => parse_model(buf@) == Ok::<GModel, GgufError>(model_view(m)),
                Err(e) => parse_model(buf@) == Err::<GModel, GgufError>(e),
            },
    {
        let magic = match Self::read_magic(buf) {
            Ok(m) => m,
            Err(e) => return Err(e),
        };
        if magic != GGUF_MAGIC {
            return Err(GgufError::InvalidMagic);
        }
        if buf.len() < 24 {
            return Err(GgufError::UnexpectedEof);
        }
        let (version, p1) = match read_u32(buf, 4) {
            Ok(x) => x,
            Err(e) => return Err(e),
        };
        let (tensor_count, p2) = match read_u64(buf, p1) {
            Ok(x) => x,
            Err(e) => return Err(e),
        };
        let (kv_count, p3) = match read_u64(buf, p2) {
            Ok(x) => x,
            Err(e) => return Err(e),
        };
        let (entries, p4) = match read_kvs(buf, p3, kv_count) {
            Ok(x) => x,
            Err(e) => return Err(e),
        };
        assert(buf@.skip(24 + (p4 - p3)) =~= buf@.skip(p4 as int));
        let (tensors, _) = match read_tensors(buf, p4, tensor_count) {
            Ok(x) => x,
            Err(e) => return Err(e),
        };
        Ok(GgufModel { version, metadata: GgufMetadata { entries }, tensors })
    }

    /// The `general.architecture` string, when the metadata holds one.
    pub fn get_architecture(model: &GgufModel) -> (r: Option<String>)
        ensures
            match r {
                Some(t) => get_str(model.metadata.view_map(), "general.architecture"@) == Some(t@),
                None => get_str(model.metadata.view_map(), "general.architecture"@) is None,
            },
    {
        match model.metadata.get("general.architecture") {
            Some(v) => match v.as_string() {
                Some(t) => Some(String::from_str(t)),
                None => None,
            },
            None => None,
        }
    }

    /// The `llama.block_count` value as an unsigned integer.
    pub fn get_parameter_count(model: &GgufModel) -> (r: Option<u64>)
        ensures
            r == get_u64(model.metadata.view_map(), "llama.block_count"@),
    {
        match model.metadata.get("llama.block_count") {
            Some(v) => v.as_u64(),
            None => None,
        }
    }

    /// The `llama.context_length` value as an unsigned integer.
    pub fn get_context_length(model: &GgufModel) -> (r: Option<u64>)
        ensures
            r == get_u64(model.metadata.view_map(), "llama.context_length"@),
    {
        match model.metadata.get("llama.context_length") {
            Some(v) => v.as_u64(),
            None => None,
        }
    }

    /// The bytes all tensors take: for each, the product of its shape times
    /// the bytes per element of its data type (4 when unknown).
    pub fn calculate_size(model: &GgufModel) -> (r: u64)
        requires
            sizes_fit(tensors_view(model.tensors@)),
        ensures
            r as int == total_bytes(tensors_view(model.tensors@)),
    {
        let ghost ts = tensors_view(model.tensors@);
        let mut total: u64 = 0;
        let mut i: usize = 0;
        while i < model.tensors.len()
            invariant
                i <= model.tensors.len(),
                ts == tensors_view(model.tensors@),
                sizes_fit(ts),
                total as int == total_bytes(ts.take(i as int)),
            decreases model.tensors.len() - i,
        {
            let t = &model.tensors[i];
            let mut elements: u64 = 1;
            let mut j: usize = 0;
            assert(ts[i as int] == tensor_view(*t));
            while j < t.shape.len()
                invariant
                    j <= t.shape.len(),
                    i < ts.len(),
                    ts[i as int].shape == t.shape@,
                    sizes_fit(ts),
                    elements as int == shape_product(t.shape@.take(j as int)),
                decreases t.shape.len() - j,
            {
                assert(t.shape@.take(j + 1).drop_last() =~= t.shape@.take(j as int));
                assert(shape_product(ts[i as int].shape.take(j + 1)) <= u64::MAX);
                elements = elements * t.shape[j];
                j = j + 1;
            }
            assert(t.shape@.take(j as int) =~= t.shape@);
            let per = match dtype_bytes(t.dtype.as_str()) {
                Some(b) => b,
                None => 4,
            };
            assert(tensor_bytes(ts[i as int]) <= u64::MAX);
            let bytes = elements * per;
            assert(ts.take(i + 1).drop_last() =~= ts.take(i as int));
            assert(total_bytes(ts.take(i + 1)) <= u64::MAX);
            total = total + bytes;
            i = i + 1;
        }
        assert(ts.take(i as int) =~= ts);
        total
    }
}

/// The element sizes of the known data types: the quantized types (q4, q5,
/// q8) and i8 take one byte an element, f16 and i16 two, f32 and i32 four.
/// So a tensor of a one-byte type takes as many bytes as it has elements,
/// and a model of that one tensor as many again.
pub proof fn law_element_sizes(t: GTensor)
    ensures
        dtype_size("q4_0"@) == Some(1u64) && dtype_size("q4_1"@) == Some(1u64),
        dtype_size("q5_0"@) == Some(1u64) && dtype_size("q5_1"@) == Some(1u64),
        dtype_size("q8_0"@) == Some(1u64) && dtype_size("q8_1"@) == Some(1u64),
        dtype_size("i8"@) == Some(1u64),
        dtype_size("f16"@) == Some(2u64) && dtype_size("i16"@) == Some(2u64),
        dtype_size("f32"@) == Some(4u64) && dtype_size("i32"@) == Some(4u64),
        t.dtype == "q4_0"@ || t.dtype == "q4_1"@ || t.dtype == "q5_0"@ || t.dtype == "q5_1"@ || t.dtype == "q8_0"@ || t.dtype == "q8_1"@ || t.dtype == "i8"@ ==> tensor_bytes(t) == shape_product(t.shape)
            && total_bytes(seq![t]) == shape_product(t.shape),
        t.dtype == "f16"@ || t.dtype == "i16"@ ==> tensor_bytes(t) == 2 * shape_product(t.shape),
        t.dtype == "f32"@ || t.dtype == "i32"@ ==> tensor_bytes(t) == 4 * shape_product(t.shape),
{
    reveal_strlit("f32");
    reveal_strlit("f16");
    reveal_strlit("q4_0");
    reveal_strlit("q4_1");
    reveal_strlit("q5_0");
    reveal_strlit("q5_1");
    reveal_strlit("q8_0");
    reveal_strlit("q8_1");
    reveal_strlit("i8");
    reveal_strlit("i16");
    reveal_strlit("i32");
    // Names that differ in length or in a leading character are different.
    assert("f32"@.len() == 3 && "f32"@[0] == 'f' && "f32"@[1] == '3');
    assert("f16"@.len() == 3 && "f16"@[0] == 'f' && "f16"@[1] == '1');
    assert("q4_0"@.len() == 4 && "q4_0"@[0] == 'q' && "q4_0"@[1] == '4');
    assert("q4_1"@.len() == 4 && "q4_1"@[0] == 'q' && "q4_1"@[1] == '4');
    assert("q5_0"@.len() == 4 && "q5_0"@[0] == 'q' && "q5_0"@[1] == '5');
    assert("q5_1"@.len() == 4 && "q5_1"@[0] == 'q' && "q5_1"@[1] == '5');
    assert("q8_0"@.len() == 4 && "q8_0"@[0] == 'q' && "q8_0"@[1] == '8');
    assert("q8_1"@.len() == 4 && "q8_1"@[0] == 'q' && "q8_1"@[1] == '8');
    assert("i8"@.len() == 2 && "i8"@[0] == 'i' && "i8"@[1] == '8');
    assert("i16"@.len() == 3 && "i16"@[0] == 'i' && "i16"@[1] == '1');
    assert("i32"@.len() == 3 && "i32"@[0] == 'i' && "i32"@[1] == '3');
    let n = shape_product(t.shape);
    match dtype_size(t.dtype) {
        Some(b) => assert(tensor_bytes(t) == n * b),
        None => {},
    }
    if dtype_size(t.dtype) == Some(1u64) {
        assert(n * 1 == n) by (nonlinear_arith);
    }
    if dtype_size(t.dtype) == Some(2u64) {
        assert(n * 2 == 2 * n) by (nonlinear_arith);
    }
    if dtype_size(t.dtype) == Some(4u64) {
        assert(n * 4 == 4 * n) by (nonlinear_arith);
    }
    assert(seq![t].drop_last() =~= Seq::<GTensor>::empty());
    assert(seq![t].last() == t);
    assert(total_bytes(seq![t]) == total_bytes(Seq::<GTensor>::empty()) + tensor_bytes(t));
}

} // verus!
