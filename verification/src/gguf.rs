//! GGUF header parsing: magic, version, key/value metadata and the tensor
//! directory, read from the bytes at the start of a GGUF file.
//!
//! The byte layout is stated once, as spec functions over `Seq<u8>`
//! (`spec_parse` and the readers it is built from); every executable reader
//! is proved to agree with its spec counterpart on success and on failure.

use vstd::prelude::*;
use vstd::utf8::{decode_utf8, encode_utf8_decode_utf8, valid_utf8};
use vstd::string::StringSliceAdditionalSpecFns;
use byteorder::{ByteOrder, LittleEndian};

use crate::error::MarkusError;
use crate::text::{decimal, with_decimal};

verus! {

broadcast use vstd::string::group_string_axioms;

/// "GGUF" read as a little-endian `u32`.
pub const GGUF_MAGIC: u32 = 0x46554747;
pub const GGUF_VERSION_2: u32 = 2;
pub const GGUF_VERSION_3: u32 = 3;
/// Tensor data starts at the next multiple of this many bytes after the header.
pub const GGUF_ALIGNMENT: u64 = 32;

// ── Values ────────────────────────────────────────────────────────────────────

/// A typed metadata value. Floating-point values are kept as their IEEE-754
/// bit patterns (`f32::to_bits` / `f64::to_bits`), exactly as stored in the file.
pub enum GgufValue {
    Uint8(u8),
    Int8(i8),
    Uint16(u16),
    Int16(i16),
    Uint32(u32),
    Int32(i32),
    Float32(u32),
    Bool(bool),
    String(String),
    Array(Vec<GgufValue>),
    Uint64(u64),
    Int64(i64),
    Float64(u64),
}

/// The mathematical value of a [`GgufValue`]: strings as character sequences.
pub enum GgufValueView {
    Uint8(u8),
    Int8(i8),
    Uint16(u16),
    Int16(i16),
    Uint32(u32),
    Int32(i32),
    Float32(u32),
    Bool(bool),
    String(Seq<char>),
    Array(Seq<GgufValueView>),
    Uint64(u64),
    Int64(i64),
    Float64(u64),
}

impl View for GgufValue {
    type V = GgufValueView;

    open spec fn view(&self) -> GgufValueView
        decreases self,
    {
        match self {
            GgufValue::Uint8(x) => GgufValueView::Uint8(*x),
            GgufValue::Int8(x) => GgufValueView::Int8(*x),
            GgufValue::Uint16(x) => GgufValueView::Uint16(*x),
            GgufValue::Int16(x) => GgufValueView::Int16(*x),
            GgufValue::Uint32(x) => GgufValueView::Uint32(*x),
            GgufValue::Int32(x) => GgufValueView::Int32(*x),
            GgufValue::Float32(x) => GgufValueView::Float32(*x),
            GgufValue::Bool(x) => GgufValueView::Bool(*x),
            GgufValue::String(s) => GgufValueView::String(s@),
            GgufValue::Array(a) => GgufValueView::Array(
                Seq::new(a@.len(), |i: int| if 0 <= i < a@.len() { a@[i].view() } else { GgufValueView::Bool(false) }),
            ),
            GgufValue::Uint64(x) => GgufValueView::Uint64(*x),
            GgufValue::Int64(x) => GgufValueView::Int64(*x),
            GgufValue::Float64(x) => GgufValueView::Float64(*x),
        }
    }
}


/// The views of a sequence of values, element by element.
pub open spec fn values_view(s: Seq<GgufValue>) -> Seq<GgufValueView> {
    Seq::new(s.len(), |i: int| s[i]@)
}

/// An array's view is the array of its elements' views.
pub proof fn lemma_array_view(v: GgufValue)
    requires
        v is Array,
    ensures
        v@ == GgufValueView::Array(values_view(v->Array_0@)),
{
    let a = v->Array_0;
    reveal_with_fuel(<GgufValue as View>::view, 2);
    assert(v@->Array_0 =~= values_view(a@));
}

/// A tensor's entry in the GGUF directory.
pub struct GgufTensor {
    pub name: String,
    pub shape: Vec<u64>,
    /// GGML element type code.
    pub dtype: u32,
    /// Byte offset of the tensor's data from the start of the data section.
    pub offset: u64,
}

pub struct GgufTensorView {
    pub name: Seq<char>,
    pub shape: Seq<u64>,
    pub dtype: u32,
    pub offset: u64,
}

impl View for GgufTensor {
    type V = GgufTensorView;

    open spec fn view(&self) -> GgufTensorView {
        GgufTensorView { name: self.name@, shape: self.shape@, dtype: self.dtype, offset: self.offset }
    }
}

/// The parsed header: format version, the two counts it declares, and the
/// key/value pairs in file order. Looking a key up finds its last occurrence.
pub struct GgufMeta {
    pub version: u32,
    pub tensor_count: u64,
    pub kv_count: u64,
    pub kv: Vec<(String, GgufValue)>,
}

pub struct GgufMetaView {
    pub version: u32,
    pub tensor_count: u64,
    pub kv_count: u64,
    pub kv: Seq<(Seq<char>, GgufValueView)>,
}

pub open spec fn kv_view(s: Seq<(String, GgufValue)>) -> Seq<(Seq<char>, GgufValueView)> {
    Seq::new(s.len(), |i: int| (s[i].0@, s[i].1@))
}

impl View for GgufMeta {
    type V = GgufMetaView;

    open spec fn view(&self) -> GgufMetaView {
        GgufMetaView {
            version: self.version,
            tensor_count: self.tensor_count,
            kv_count: self.kv_count,
            kv: kv_view(self.kv@),
        }
    }
}

/// A parsed GGUF header together with where the tensor data begins.
pub struct GgufLoader {
    pub meta: GgufMeta,
    pub tensors: Vec<GgufTensor>,
    /// Byte offset where tensor data begins in the file.
    pub data_offset: u64,
}

pub struct GgufLoaderView {
    pub meta: GgufMetaView,
    pub tensors: Seq<GgufTensorView>,
    pub data_offset: u64,
}

pub open spec fn tensors_view(s: Seq<GgufTensor>) -> Seq<GgufTensorView> {
    Seq::new(s.len(), |i: int| s[i]@)
}

impl View for GgufLoader {
    type V = GgufLoaderView;

    open spec fn view(&self) -> GgufLoaderView {
        GgufLoaderView { meta: self.meta@, tensors: tensors_view(self.tensors@), data_offset: self.data_offset }
    }
}

// ── The byte layout ───────────────────────────────────────────────────────────

/// Why a byte string is not a GGUF header.
#[derive(Clone, Copy, Debug, PartialEq, Eq, Structural)]
pub enum ParseFault {
    /// The bytes end before the header does.
    Eof,
    /// A string's bytes are not UTF-8.
    BadUtf8,
    /// A metadata value has an unknown type code.
    UnknownType(u32),
    /// An array declares an element type that arrays cannot hold.
    UnknownElemType(u32),
    BadMagic,
    BadVersion(u32),
}

pub open spec fn le_u16(b: Seq<u8>, p: int) -> u16 {
    (b[p] as int + b[p + 1] as int * 0x100) as u16
}

pub open spec fn le_u32(b: Seq<u8>, p: int) -> u32 {
    (b[p] as int + b[p + 1] as int * 0x100 + b[p + 2] as int * 0x1_0000 + b[p + 3] as int * 0x100_0000) as u32
}

pub open spec fn le_u64(b: Seq<u8>, p: int) -> u64 {
    (le_u32(b, p) as int + le_u32(b, p + 4) as int * 0x1_0000_0000) as u64
}

pub open spec fn has_bytes(b: Seq<u8>, p: int, n: int) -> bool {
    0 <= p && p + n <= b.len()
}

pub open spec fn spec_u8_at(b: Seq<u8>, p: int) -> Result<(u8, int), ParseFault> {
    if has_bytes(b, p, 1) { Ok((b[p], p + 1)) } else { Err(ParseFault::Eof) }
}

pub open spec fn spec_u16_at(b: Seq<u8>, p: int) -> Result<(u16, int), ParseFault> {
    if has_bytes(b, p, 2) { Ok((le_u16(b, p), p + 2)) } else { Err(ParseFault::Eof) }
}

pub open spec fn spec_u32_at(b: Seq<u8>, p: int) -> Result<(u32, int), ParseFault> {
    if has_bytes(b, p, 4) { Ok((le_u32(b, p), p + 4)) } else { Err(ParseFault::Eof) }
}

pub open spec fn spec_u64_at(b: Seq<u8>, p: int) -> Result<(u64, int), ParseFault> {
    if has_bytes(b, p, 8) { Ok((le_u64(b, p), p + 8)) } else { Err(ParseFault::Eof) }
}

/// A string: a `u64` byte length, then that many bytes of UTF-8.
pub open spec fn spec_string_at(b: Seq<u8>, p: int) -> Result<(Seq<char>, int), ParseFault> {
    match spec_u64_at(b, p) {
        Err(f) => Err(f),
        Ok((n, q)) => if q + n <= b.len() {
            if valid_utf8(b.subrange(q, q + n)) {
                Ok((decode_utf8(b.subrange(q, q + n)), q + n))
            } else {
                Err(ParseFault::BadUtf8)
            }
        } else {
            Err(ParseFault::Eof)
        },
    }
}

/// `n` items read one after another by `step`, starting at `p`; the first
/// failing item decides the failure.
pub open spec fn repeat<T>(p: int, n: nat, step: spec_fn(int) -> Result<(T, int), ParseFault>) -> Result<(Seq<T>, int), ParseFault>
    decreases n,
{
    if n == 0 {
        Ok((Seq::empty(), p))
    } else {
        match repeat(p, (n - 1) as nat, step) {
            Err(f) => Err(f),
            Ok((s, q)) => match step(q) {
                Err(f) => Err(f),
                Ok((v, r)) => Ok((s.push(v), r)),
            },
        }
    }
}

/// Type codes of values other than arrays.
pub open spec fn is_plain_type(t: u32) -> bool {
    t <= 12 && t != 9
}

/// A value of plain type `t` (0-8, 10-12) at `p`.
pub open spec fn spec_plain(b: Seq<u8>, p: int, t: u32) -> Result<(GgufValueView, int), ParseFault> {
    if t == 0 || t == 1 || t == 7 {
        match spec_u8_at(b, p) {
            Err(f) => Err(f),
            Ok((x, q)) => Ok((
                if t == 0 { GgufValueView::Uint8(x) } else if t == 1 { GgufValueView::Int8(x as i8) } else { GgufValueView::Bool(x != 0) },
                q,
            )),
        }
    } else if t == 2 || t == 3 {
        match spec_u16_at(b, p) {
            Err(f) => Err(f),
            Ok((x, q)) => Ok((if t == 2 { GgufValueView::Uint16(x) } else { GgufValueView::Int16(x as i16) }, q)),
        }
    } else if t == 4 || t == 5 || t == 6 {
        match spec_u32_at(b, p) {
            Err(f) => Err(f),
            Ok((x, q)) => Ok((
                if t == 4 { GgufValueView::Uint32(x) } else if t == 5 { GgufValueView::Int32(x as i32) } else { GgufValueView::Float32(x) },
                q,
            )),
        }
    } else if t == 8 {
        match spec_string_at(b, p) {
            Err(f) => Err(f),
            Ok((s, q)) => Ok((GgufValueView::String(s), q)),
        }
    } else {
        match spec_u64_at(b, p) {
            Err(f) => Err(f),
            Ok((x, q)) => Ok((
                if t == 10 { GgufValueView::Uint64(x) } else if t == 11 { GgufValueView::Int64(x as i64) } else { GgufValueView::Float64(x) },
                q,
            )),
        }
    }
}

/// One array element of element type `et`: any plain type; anything else is refused.
pub open spec fn spec_element(b: Seq<u8>, p: int, et: u32) -> Result<(GgufValueView, int), ParseFault> {
    if is_plain_type(et) { spec_plain(b, p, et) } else { Err(ParseFault::UnknownElemType(et)) }
}

pub open spec fn element_step(b: Seq<u8>, et: u32) -> spec_fn(int) -> Result<(GgufValueView, int), ParseFault> {
    |q: int| spec_element(b, q, et)
}

/// A typed value: a `u32` type code, then the value. Code 9 is an array: a
/// `u32` element type, a `u64` count, then the elements.
pub open spec fn spec_value(b: Seq<u8>, p: int) -> Result<(GgufValueView, int), ParseFault> {
    match spec_u32_at(b, p) {
        Err(f) => Err(f),
        Ok((t, q)) => if t == 9 {
            match spec_u32_at(b, q) {
                Err(f) => Err(f),
                Ok((et, q1)) => match spec_u64_at(b, q1) {
                    Err(f) => Err(f),
                    Ok((n, q2)) => match repeat(q2, n as nat, element_step(b, et)) {
                        Err(f) => Err(f),
                        Ok((s, r)) => Ok((GgufValueView::Array(s), r)),
                    },
                },
            }
        } else if is_plain_type(t) {
            spec_plain(b, q, t)
        } else {
            Err(ParseFault::UnknownType(t))
        },
    }
}

/// A key/value pair: the key string, then the typed value.
pub open spec fn spec_kv(b: Seq<u8>, p: int) -> Result<((Seq<char>, GgufValueView), int), ParseFault> {
    match spec_string_at(b, p) {
        Err(f) => Err(f),
        Ok((k, q)) => match spec_value(b, q) {
            Err(f) => Err(f),
            Ok((v, r)) => Ok(((k, v), r)),
        },
    }
}

pub open spec fn kv_step(b: Seq<u8>) -> spec_fn(int) -> Result<((Seq<char>, GgufValueView), int), ParseFault> {
    |q: int| spec_kv(b, q)
}

pub open spec fn u64_step(b: Seq<u8>) -> spec_fn(int) -> Result<(u64, int), ParseFault> {
    |q: int| spec_u64_at(b, q)
}

/// A tensor entry: name, `u32` dimension count, that many `u64` extents,
/// `u32` element type, `u64` data offset.
pub open spec fn spec_tensor(b: Seq<u8>, p: int) -> Result<(GgufTensorView, int), ParseFault> {
    match spec_string_at(b, p) {
        Err(f) => Err(f),
        Ok((name, q)) => match spec_u32_at(b, q) {
            Err(f) => Err(f),
            Ok((nd, q1)) => match repeat(q1, nd as nat, u64_step(b)) {
                Err(f) => Err(f),
                Ok((shape, q2)) => match spec_u32_at(b, q2) {
                    Err(f) => Err(f),
                    Ok((dtype, q3)) => match spec_u64_at(b, q3) {
                        Err(f) => Err(f),
                        Ok((offset, q4)) => Ok((GgufTensorView { name, shape, dtype, offset }, q4)),
                    },
                },
            },
        },
    }
}

pub open spec fn tensor_step(b: Seq<u8>) -> spec_fn(int) -> Result<(GgufTensorView, int), ParseFault> {
    |q: int| spec_tensor(b, q)
}

/// The least multiple of 32 that is at least `p`.
pub open spec fn align_up(p: int) -> int {
    (p + 31) / 32 * 32
}

/// The GGUF header: magic, version (2 or 3), tensor count, key/value count,
/// the key/value pairs, the tensor entries; tensor data starts at the next
/// 32-byte boundary.
pub open spec fn spec_parse(b: Seq<u8>) -> Result<GgufLoaderView, ParseFault> {
    match spec_u32_at(b, 0) {
        Err(f) => Err(f),
        Ok((magic, p1)) => if magic != GGUF_MAGIC {
            Err(ParseFault::BadMagic)
        } else {
            match spec_u32_at(b, p1) {
                Err(f) => Err(f),
                Ok((version, p2)) => if version != GGUF_VERSION_2 && version != GGUF_VERSION_3 {
                    Err(ParseFault::BadVersion(version))
                } else {
                    match spec_u64_at(b, p2) {
                        Err(f) => Err(f),
                        Ok((tensor_count, p3)) => match spec_u64_at(b, p3) {
                            Err(f) => Err(f),
                            Ok((kv_count, p4)) => match repeat(p4, kv_count as nat, kv_step(b)) {
                                Err(f) => Err(f),
                                Ok((kv, p5)) => match repeat(p5, tensor_count as nat, tensor_step(b)) {
                                    Err(f) => Err(f),
                                    Ok((tensors, p6)) => Ok(GgufLoaderView {
                                        meta: GgufMetaView { version, tensor_count, kv_count, kv },
                                        tensors,
                                        data_offset: align_up(p6) as u64,
                                    }),
                                },
                            },
                        },
                    }
                },
            }
        },
    }
}

/// The error the library reports for each kind of fault.
pub open spec fn fault_error(e: MarkusError, f: ParseFault) -> bool {
    match f {
        ParseFault::Eof => e matches MarkusError::Io(m) && m@ == "failed to fill whole buffer"@,
        ParseFault::BadUtf8 => e matches MarkusError::GgufParse(m) && "Invalid UTF-8 string: "@.is_prefix_of(m@),
        ParseFault::UnknownType(t) => e matches MarkusError::GgufParse(m)
            && m@ == "Unknown GGUF value type: "@ + decimal(t as nat),
        ParseFault::UnknownElemType(t) => e matches MarkusError::GgufParse(m)
            && m@ == "Unknown GGUF array elem type: "@ + decimal(t as nat),
        ParseFault::BadMagic => e matches MarkusError::GgufParse(m) && m@ == "Invalid GGUF magic number"@,
        ParseFault::BadVersion(v) => e matches MarkusError::GgufParse(m)
            && m@ == "Unsupported GGUF version: "@ + decimal(v as nat),
    }
}

/// An executable read agrees with its spec: the same value (by view) and end
/// position, or the error of the same fault.
pub open spec fn step_agrees<T: View>(r: Result<(T, usize), MarkusError>, s: Result<(T::V, int), ParseFault>) -> bool {
    match s {
        Ok((v, p)) => r matches Ok((w, q)) && w@ == v && q as int == p,
        Err(f) => r matches Err(e) && fault_error(e, f),
    }
}

proof fn lemma_repeat_fails<T>(p: int, i: nat, n: nat, step: spec_fn(int) -> Result<(T, int), ParseFault>, f: ParseFault)
    requires
        i <= n,
        repeat(p, i, step) == Err::<(Seq<T>, int), ParseFault>(f),
    ensures
        repeat(p, n, step) == Err::<(Seq<T>, int), ParseFault>(f),
    decreases n - i,
{
    if i < n {
        lemma_repeat_fails(p, i, (n - 1) as nat, step, f);
    }
}


// ── Trusted readers ───────────────────────────────────────────────────────────

/// byteorder's `LittleEndian::read_u16`: the first two bytes, least
/// significant first. It panics on a shorter slice, which `requires` rules out.
#[verifier::external_body]
fn read_u16_le(buf: &[u8]) -> (v: u16)
    requires
        buf@.len() >= 2,
    ensures
        v == le_u16(buf@, 0),
{
    LittleEndian::read_u16(buf)
}

/// byteorder's `LittleEndian::read_i16`: the `u16` of the first two bytes, reinterpreted as signed.
#[verifier::external_body]
fn read_i16_le(buf: &[u8]) -> (v: i16)
    requires
        buf@.len() >= 2,
    ensures
        v == le_u16(buf@, 0) as i16,
{
    LittleEndian::read_i16(buf)
}

/// byteorder's `LittleEndian::read_u32`: the first four bytes, least significant first.
#[verifier::external_body]
fn read_u32_le(buf: &[u8]) -> (v: u32)
    requires
        buf@.len() >= 4,
    ensures
        v == le_u32(buf@, 0),
{
    LittleEndian::read_u32(buf)
}

/// byteorder's `LittleEndian::read_i32`: the `u32` of the first four bytes, reinterpreted as signed.
#[verifier::external_body]
fn read_i32_le(buf: &[u8]) -> (v: i32)
    requires
        buf@.len() >= 4,
    ensures
        v == le_u32(buf@, 0) as i32,
{
    LittleEndian::read_i32(buf)
}

/// byteorder's `LittleEndian::read_u64`: the first eight bytes, least significant first.
#[verifier::external_body]
fn read_u64_le(buf: &[u8]) -> (v: u64)
    requires
        buf@.len() >= 8,
    ensures
        v == le_u64(buf@, 0),
{
    LittleEndian::read_u64(buf)
}

/// byteorder's `LittleEndian::read_i64`: the `u64` of the first eight bytes, reinterpreted as signed.
#[verifier::external_body]
fn read_i64_le(buf: &[u8]) -> (v: i64)
    requires
        buf@.len() >= 8,
    ensures
        v == le_u64(buf@, 0) as i64,
{
    LittleEndian::read_i64(buf)
}

#[verifier::external_type_specification]
#[verifier::external_body]
pub struct ExUtf8Error(core::str::Utf8Error);

/// `core::str::from_utf8`: succeeds exactly when the bytes are valid UTF-8
/// (vstd's `valid_utf8`), and the text it returns has exactly those bytes.
#[verifier::external_body]
fn str_from_utf8(bytes: &[u8]) -> (r: Result<&str, core::str::Utf8Error>)
    ensures
        r is Ok <==> valid_utf8(bytes@),
        r matches Ok(s) ==> s.spec_bytes() == bytes@,
{
    core::str::from_utf8(bytes)
}

// ── Errors ────────────────────────────────────────────────────────────────────

fn eof_error() -> (e: MarkusError)
    ensures
        fault_error(e, ParseFault::Eof),
{
    MarkusError::Io(String::from_str("failed to fill whole buffer"))
}

/// The error for a fault. A string read that meets bad UTF-8 reports the
/// decoder's own message after the prefix; this gives the bare prefix.
fn fault_to_error(f: &ParseFault) -> (e: MarkusError)
    ensures
        fault_error(e, *f),
{
    match f {
        ParseFault::Eof => eof_error(),
        ParseFault::BadUtf8 => MarkusError::GgufParse(String::from_str("Invalid UTF-8 string: ")),
        ParseFault::UnknownType(t) => MarkusError::GgufParse(with_decimal("Unknown GGUF value type: ", *t as u64)),
        ParseFault::UnknownElemType(t) => MarkusError::GgufParse(with_decimal("Unknown GGUF array elem type: ", *t as u64)),
        ParseFault::BadMagic => MarkusError::GgufParse(String::from_str("Invalid GGUF magic number")),
        ParseFault::BadVersion(v) => MarkusError::GgufParse(with_decimal("Unsupported GGUF version: ", *v as u64)),
    }
}

// ── Executable readers ────────────────────────────────────────────────────────

fn read_u8_at(data: &[u8], pos: usize) -> (r: Result<(u8, usize), MarkusError>)
    requires
        pos <= data@.len(),
    ensures
        step_agrees(r, spec_u8_at(data@, pos as int)),
{
    if data.len() - pos < 1 {
        return Err(eof_error());
    }
    Ok((data[pos], pos + 1))
}

fn read_u32_at(data: &[u8], pos: usize) -> (r: Result<(u32, usize), MarkusError>)
    requires
        pos <= data@.len(),
    ensures
        step_agrees(r, spec_u32_at(data@, pos as int)),
{
    if data.len() - pos < 4 {
        return Err(eof_error());
    }
    let v = read_u32_le(&data[pos..pos + 4]);
    Ok((v, pos + 4))
}

fn read_u64_at(data: &[u8], pos: usize) -> (r: Result<(u64, usize), MarkusError>)
    requires
        pos <= data@.len(),
    ensures
        step_agrees(r, spec_u64_at(data@, pos as int)),
{
    if data.len() - pos < 8 {
        return Err(eof_error());
    }
    let v = read_u64_le(&data[pos..pos + 8]);
    Ok((v, pos + 8))
}

/// Reads a length-prefixed UTF-8 string.
fn read_gguf_string(data: &[u8], pos: usize) -> (r: Result<(String, usize), MarkusError>)
    requires
        pos <= data@.len(),
    ensures
        step_agrees(r, spec_string_at(data@, pos as int)),
{
    let (n, q) = read_u64_at(data, pos)?;
    if ((data.len() - q) as u64) < n {
        return Err(eof_error());
    }
    let end = q + n as usize;
    let bytes = &data[q..end];
    match str_from_utf8(bytes) {
        Ok(s) => {
            proof {
                encode_utf8_decode_utf8(s@);
            }
            Ok((s.to_owned(), end))
        },
        Err(e) => {
            let mut m = String::from_str("Invalid UTF-8 string: ");
            let detail = e.to_string();
            m.append(detail.as_str());
            assert("Invalid UTF-8 string: "@.is_prefix_of(m@)) by {
                assert(m@.subrange(0, "Invalid UTF-8 string: "@.len() as int) =~= "Invalid UTF-8 string: "@);
            }
            Err(MarkusError::GgufParse(m))
        },
    }
}


/// Reads a value of plain type `t` (every type but arrays).
fn read_plain(data: &[u8], pos: usize, t: u32) -> (r: Result<(GgufValue, usize), MarkusError>)
    requires
        pos <= data@.len(),
        is_plain_type(t),
    ensures
        step_agrees(r, spec_plain(data@, pos as int, t)),
{
    if t == 0 || t == 1 || t == 7 {
        let (x, q) = read_u8_at(data, pos)?;
        let v = if t == 0 {
            GgufValue::Uint8(x)
        } else if t == 1 {
            GgufValue::Int8(#[verifier::truncate] (x as i8))
        } else {
            GgufValue::Bool(x != 0)
        };
        Ok((v, q))
    } else if t == 2 || t == 3 {
        if data.len() - pos < 2 {
            return Err(eof_error());
        }
        let v = if t == 2 {
            GgufValue::Uint16(read_u16_le(&data[pos..pos + 2]))
        } else {
            GgufValue::Int16(read_i16_le(&data[pos..pos + 2]))
        };
        Ok((v, pos + 2))
    } else if t == 4 || t == 5 || t == 6 {
        if data.len() - pos < 4 {
            return Err(eof_error());
        }
        let v = if t == 4 {
            GgufValue::Uint32(read_u32_le(&data[pos..pos + 4]))
        } else if t == 5 {
            GgufValue::Int32(read_i32_le(&data[pos..pos + 4]))
        } else {
            GgufValue::Float32(read_u32_le(&data[pos..pos + 4]))
        };
        Ok((v, pos + 4))
    } else if t == 8 {
        let (s, q) = read_gguf_string(data, pos)?;
        Ok((GgufValue::String(s), q))
    } else {
        if data.len() - pos < 8 {
            return Err(eof_error());
        }
        let v = if t == 10 {
            GgufValue::Uint64(read_u64_le(&data[pos..pos + 8]))
        } else if t == 11 {
            GgufValue::Int64(read_i64_le(&data[pos..pos + 8]))
        } else {
            GgufValue::Float64(read_u64_le(&data[pos..pos + 8]))
        };
        Ok((v, pos + 8))
    }
}

/// Reads one array element of element type `elem_type`.
fn read_gguf_array_element(data: &[u8], pos: usize, elem_type: u32) -> (r: Result<(GgufValue, usize), MarkusError>)
    requires
        pos <= data@.len(),
    ensures
        step_agrees(r, spec_element(data@, pos as int, elem_type)),
{
    if elem_type <= 12 && elem_type != 9 {
        read_plain(data, pos, elem_type)
    } else {
        Err(fault_to_error(&ParseFault::UnknownElemType(elem_type)))
    }
}

/// Reads `count` array elements starting at `pos`.
fn read_elements(data: &[u8], pos: usize, elem_type: u32, count: u64) -> (r: Result<(Vec<GgufValue>, usize), MarkusError>)
    requires
        pos <= data@.len(),
    ensures
        match repeat(pos as int, count as nat, element_step(data@, elem_type)) {
            Ok((s, p)) => r matches Ok((w, q)) && values_view(w@) == s && q as int == p,
            Err(f) => r matches Err(e) && fault_error(e, f),
        },
{
    let ghost step = element_step(data@, elem_type);
    let mut arr: Vec<GgufValue> = Vec::new();
    let mut cur = pos;
    let mut i: u64 = 0;
    assert(values_view(arr@) =~= Seq::<GgufValueView>::empty());
    while i < count
        invariant
            i <= count,
            cur <= data@.len(),
            step == element_step(data@, elem_type),
            repeat(pos as int, i as nat, step) == Ok::<(Seq<GgufValueView>, int), ParseFault>((values_view(arr@), cur as int)),
        decreases count - i,
    {
        match read_gguf_array_element(data, cur, elem_type) {
            Ok((v, q)) => {
                proof {
                    assert(values_view(arr@.push(v)) =~= values_view(arr@).push(v@));
                }
                arr.push(v);
                cur = q;
                i = i + 1;
            },
            Err(e) => {
                proof {
                    let f = spec_element(data@, cur as int, elem_type)->Err_0;
                    assert(repeat(pos as int, (i + 1) as nat, step) == Err::<(Seq<GgufValueView>, int), ParseFault>(f));
                    lemma_repeat_fails(pos as int, (i + 1) as nat, count as nat, step, f);
                }
                return Err(e);
            },
        }
    }
    Ok((arr, cur))
}

/// Reads a typed value: type code, then the value (arrays recursively by element).
fn read_gguf_value(data: &[u8], pos: usize) -> (r: Result<(GgufValue, usize), MarkusError>)
    requires
        pos <= data@.len(),
    ensures
        step_agrees(r, spec_value(data@, pos as int)),
{
    let (t, q) = read_u32_at(data, pos)?;
    if t == 9 {
        let (et, q1) = read_u32_at(data, q)?;
        let (n, q2) = read_u64_at(data, q1)?;
        let (arr, end) = read_elements(data, q2, et, n)?;
        let v = GgufValue::Array(arr);
        proof {
            lemma_array_view(v);
        }
        Ok((v, end))
    } else if t <= 12 {
        read_plain(data, q, t)
    } else {
        Err(fault_to_error(&ParseFault::UnknownType(t)))
    }
}


/// Reads one key/value pair.
fn read_kv(data: &[u8], pos: usize) -> (r: Result<((String, GgufValue), usize), MarkusError>)
    requires
        pos <= data@.len(),
    ensures
        step_agrees(r, spec_kv(data@, pos as int)),
{
    let (key, q) = read_gguf_string(data, pos)?;
    let (value, end) = read_gguf_value(data, q)?;
    Ok(((key, value), end))
}

/// Reads `count` key/value pairs.
fn read_kvs(data: &[u8], pos: usize, count: u64) -> (r: Result<(Vec<(String, GgufValue)>, usize), MarkusError>)
    requires
        pos <= data@.len(),
    ensures
        match repeat(pos as int, count as nat, kv_step(data@)) {
            Ok((s, p)) => r matches Ok((w, q)) && kv_view(w@) == s && q as int == p,
            Err(f) => r matches Err(e) && fault_error(e, f),
        },
{
    let ghost step = kv_step(data@);
    let mut kv: Vec<(String, GgufValue)> = Vec::new();
    let mut cur = pos;
    let mut i: u64 = 0;
    assert(kv_view(kv@) =~= Seq::<(Seq<char>, GgufValueView)>::empty());
    while i < count
        invariant
            i <= count,
            cur <= data@.len(),
            step == kv_step(data@),
            repeat(pos as int, i as nat, step) == Ok::<(Seq<(Seq<char>, GgufValueView)>, int), ParseFault>((kv_view(kv@), cur as int)),
        decreases count - i,
    {
        match read_kv(data, cur) {
            Ok((pair, q)) => {
                proof {
                    assert(kv_view(kv@.push(pair)) =~= kv_view(kv@).push(pair@));
                }
                kv.push(pair);
                cur = q;
                i = i + 1;
            },
            Err(e) => {
                proof {
                    let f = spec_kv(data@, cur as int)->Err_0;
                    assert(repeat(pos as int, (i + 1) as nat, step) == Err::<(Seq<(Seq<char>, GgufValueView)>, int), ParseFault>(f));
                    lemma_repeat_fails(pos as int, (i + 1) as nat, count as nat, step, f);
                }
                return Err(e);
            },
        }
    }
    Ok((kv, cur))
}

/// Reads `count` little-endian `u64`s.
fn read_u64s(data: &[u8], pos: usize, count: u32) -> (r: Result<(Vec<u64>, usize), MarkusError>)
    requires
        pos <= data@.len(),
    ensures
        match repeat(pos as int, count as nat, u64_step(data@)) {
            Ok((s, p)) => r matches Ok((w, q)) && w@ == s && q as int == p,
            Err(f) => r matches Err(e) && fault_error(e, f),
        },
{
    let ghost step = u64_step(data@);
    let mut out: Vec<u64> = Vec::new();
    let mut cur = pos;
    let mut i: u32 = 0;
    while i < count
        invariant
            i <= count,
            cur <= data@.len(),
            step == u64_step(data@),
            repeat(pos as int, i as nat, step) == Ok::<(Seq<u64>, int), ParseFault>((out@, cur as int)),
        decreases count - i,
    {
        match read_u64_at(data, cur) {
            Ok((x, q)) => {
                out.push(x);
                cur = q;
                i = i + 1;
            },
            Err(e) => {
                proof {
                    let f = spec_u64_at(data@, cur as int)->Err_0;
                    assert(repeat(pos as int, (i + 1) as nat, step) == Err::<(Seq<u64>, int), ParseFault>(f));
                    lemma_repeat_fails(pos as int, (i + 1) as nat, count as nat, step, f);
                }
                return Err(e);
            },
        }
    }
    Ok((out, cur))
}

/// Reads one tensor directory entry.
fn read_tensor(data: &[u8], pos: usize) -> (r: Result<(GgufTensor, usize), MarkusError>)
    requires
        pos <= data@.len(),
    ensures
        step_agrees(r, spec_tensor(data@, pos as int)),
{
    let (name, q) = read_gguf_string(data, pos)?;
    let (ndim, q1) = read_u32_at(data, q)?;
    let (shape, q2) = read_u64s(data, q1, ndim)?;
    let (dtype, q3) = read_u32_at(data, q2)?;
    let (offset, q4) = read_u64_at(data, q3)?;
    Ok((GgufTensor { name, shape, dtype, offset }, q4))
}

/// Reads `count` tensor directory entries.
fn read_tensors(data: &[u8], pos: usize, count: u64) -> (r: Result<(Vec<GgufTensor>, usize), MarkusError>)
    requires
        pos <= data@.len(),
    ensures
        match repeat(pos as int, count as nat, tensor_step(data@)) {
            Ok((s, p)) => r matches Ok((w, q)) && tensors_view(w@) == s && q as int == p,
            Err(f) => r matches Err(e) && fault_error(e, f),
        },
{
    let ghost step = tensor_step(data@);
    let mut out: Vec<GgufTensor> = Vec::new();
    let mut cur = pos;
    let mut i: u64 = 0;
    assert(tensors_view(out@) =~= Seq::<GgufTensorView>::empty());
    while i < count
        invariant
            i <= count,
            cur <= data@.len(),
            step == tensor_step(data@),
            repeat(pos as int, i as nat, step) == Ok::<(Seq<GgufTensorView>, int), ParseFault>((tensors_view(out@), cur as int)),
        decreases count - i,
    {
        match read_tensor(data, cur) {
            Ok((t, q)) => {
                proof {
                    assert(tensors_view(out@.push(t)) =~= tensors_view(out@).push(t@));
                }
                out.push(t);
                cur = q;
                i = i + 1;
            },
            Err(e) => {
                proof {
                    let f = spec_tensor(data@, cur as int)->Err_0;
                    assert(repeat(pos as int, (i + 1) as nat, step) == Err::<(Seq<GgufTensorView>, int), ParseFault>(f));
                    lemma_repeat_fails(pos as int, (i + 1) as nat, count as nat, step, f);
                }
                return Err(e);
            },
        }
    }
    Ok((out, cur))
}

impl GgufLoader {
    /// Parses a GGUF header from the first bytes of a file. The bytes may end
    /// anywhere after the tensor directory; a header cut short is reported as
    /// the I/O error of reading past the end of the file.
    pub fn parse(data: &[u8]) -> (r: Result<GgufLoader, MarkusError>)
        requires
            data@.len() <= isize::MAX,
        ensures
            match spec_parse(data@) {
                Ok(v) => r matches Ok(l) && l@ == v,
                Err(f) => r matches Err(e) && fault_error(e, f),
            },
    {
        let (magic, p1) = read_u32_at(data, 0)?;
        if magic != GGUF_MAGIC {
            return Err(fault_to_error(&ParseFault::BadMagic));
        }
        let (version, p2) = read_u32_at(data, p1)?;
        if version != GGUF_VERSION_2 && version != GGUF_VERSION_3 {
            return Err(fault_to_error(&ParseFault::BadVersion(version)));
        }
        let (tensor_count, p3) = read_u64_at(data, p2)?;
        let (kv_count, p4) = read_u64_at(data, p3)?;
        let (kv, p5) = read_kvs(data, p4, kv_count)?;
        let meta = GgufMeta { version, tensor_count, kv_count, kv };
        let (tensors, p6) = read_tensors(data, p5, tensor_count)?;
        let current_pos = p6 as u64;
        let data_offset = (current_pos + (GGUF_ALIGNMENT - 1)) / GGUF_ALIGNMENT * GGUF_ALIGNMENT;
        Ok(GgufLoader { meta, tensors, data_offset })
    }
}


// ── Memory estimate ───────────────────────────────────────────────────────────

/// Bits per element for a GGML type code (32 for codes it does not know).
pub open spec fn spec_ggml_type_size(t: u32) -> u64 {
    if t == 0 { 32 } else if t == 1 { 16 } else if t == 2 || t == 3 { 4 } else if t == 6 || t == 7 { 5 }
    else if t == 8 || t == 9 { 8 } else if t == 10 { 2 } else if t == 11 { 3 } else if t == 12 { 4 }
    else if t == 13 { 5 } else if t == 14 { 6 } else if t == 15 || t == 16 { 8 } else if t == 17 { 16 }
    else { 32 }
}

/// Returns bits per element for a GGML type.
pub fn ggml_type_size(t: u32) -> (bits: u64)
    ensures
        bits == spec_ggml_type_size(t),
{
    match t {
        0 => 32,
        1 => 16,
        2 => 4,
        3 => 4,
        6 => 5,
        7 => 5,
        8 => 8,
        9 => 8,
        10 => 2,
        11 => 3,
        12 => 4,
        13 => 5,
        14 => 6,
        15 => 8,
        16 => 8,
        17 => 16,
        18 => 32,
        _ => 32,
    }
}

/// The product of the extents.
pub open spec fn shape_product(s: Seq<u64>) -> int
    decreases s.len(),
{
    if s.len() == 0 { 1 } else { shape_product(s.drop_last()) * s.last() }
}

/// Estimated bytes of one tensor: elements times bits per element, over 8.
pub open spec fn tensor_bytes(t: GgufTensorView) -> int {
    shape_product(t.shape) * spec_ggml_type_size(t.dtype) / 8
}

pub open spec fn total_tensor_bytes(ts: Seq<GgufTensorView>) -> int
    decreases ts.len(),
{
    if ts.len() == 0 { 0 } else { total_tensor_bytes(ts.drop_last()) + tensor_bytes(ts.last()) }
}

/// Every running product of the extents, and the element count times the
/// bits per element, fit in a `u64`.
pub open spec fn tensor_size_fits(t: GgufTensorView) -> bool {
    &&& forall|k: int| 0 <= k <= t.shape.len() ==> #[trigger] shape_product(t.shape.take(k)) <= u64::MAX
    &&& shape_product(t.shape) * spec_ggml_type_size(t.dtype) <= u64::MAX
}

/// The memory estimate is computed without overflow: each tensor's size and
/// every running total fit in a `u64`.
pub open spec fn memory_estimate_fits(ts: Seq<GgufTensorView>) -> bool {
    &&& forall|i: int| 0 <= i < ts.len() ==> #[trigger] tensor_size_fits(ts[i])
    &&& forall|k: int| 0 <= k <= ts.len() ==> #[trigger] total_tensor_bytes(ts.take(k)) <= u64::MAX
}

/// Tensor bytes in MiB, plus 20% for the KV cache.
pub open spec fn spec_estimated_memory_mb(ts: Seq<GgufTensorView>) -> u64 {
    (total_tensor_bytes(ts) / 1024 / 1024 * 12 / 10) as u64
}

proof fn lemma_shape_product_nonneg(s: Seq<u64>)
    ensures
        shape_product(s) >= 0,
    decreases s.len(),
{
    if s.len() > 0 {
        lemma_shape_product_nonneg(s.drop_last());
        vstd::arithmetic::mul::lemma_mul_nonnegative(shape_product(s.drop_last()), s.last() as int);
    }
}

proof fn lemma_total_nonneg(ts: Seq<GgufTensorView>)
    ensures
        total_tensor_bytes(ts) >= 0,
    decreases ts.len(),
{
    if ts.len() > 0 {
        lemma_total_nonneg(ts.drop_last());
        lemma_shape_product_nonneg(ts.last().shape);
        vstd::arithmetic::mul::lemma_mul_nonnegative(shape_product(ts.last().shape), spec_ggml_type_size(ts.last().dtype) as int);
    }
}

/// Element count of a shape, or `None` when a running product overflows.
fn checked_shape_product(shape: &Vec<u64>) -> (r: Option<u64>)
    ensures
        match r {
            Some(p) => p == shape_product(shape@) && forall|k: int| 0 <= k <= shape@.len() ==> #[trigger] shape_product(shape@.take(k)) <= u64::MAX,
            None => exists|k: int| 0 <= k <= shape@.len() && #[trigger] shape_product(shape@.take(k)) > u64::MAX,
        },
{
    let mut p: u64 = 1;
    let mut i: usize = 0;
    assert(shape@.take(0) =~= Seq::<u64>::empty());
    while i < shape.len()
        invariant
            i <= shape@.len(),
            p == shape_product(shape@.take(i as int)),
            forall|k: int| 0 <= k <= i ==> #[trigger] shape_product(shape@.take(k)) <= u64::MAX,
        decreases shape@.len() - i,
    {
        assert(shape@.take(i + 1).drop_last() =~= shape@.take(i as int));
        match p.checked_mul(shape[i]) {
            Some(q) => {
                p = q;
                i = i + 1;
            },
            None => {
                assert(shape_product(shape@.take(i + 1)) > u64::MAX);
                return None;
            },
        }
    }
    assert(shape@.take(shape@.len() as int) =~= shape@);
    Some(p)
}

impl GgufLoader {
    /// Whether `estimated_memory_mb` can be computed without overflow.
    pub fn estimate_fits(&self) -> (r: bool)
        ensures
            r == memory_estimate_fits(self@.tensors),
    {
        let ghost ts = self@.tensors;
        let mut total: u64 = 0;
        let mut i: usize = 0;
        assert(ts.take(0) =~= Seq::<GgufTensorView>::empty());
        while i < self.tensors.len()
            invariant
                i <= self.tensors@.len(),
                ts == self@.tensors,
                ts.len() == self.tensors@.len(),
                total == total_tensor_bytes(ts.take(i as int)),
                forall|j: int| 0 <= j < i ==> #[trigger] tensor_size_fits(ts[j]),
                forall|k: int| 0 <= k <= i ==> #[trigger] total_tensor_bytes(ts.take(k)) <= u64::MAX,
            decreases self.tensors@.len() - i,
        {
            let t = &self.tensors[i];
            assert(ts[i as int] == t@);
            assert(ts.take(i + 1).drop_last() =~= ts.take(i as int));
            let elements = match checked_shape_product(&t.shape) {
                Some(e) => e,
                None => {
                    proof {
                        let k = choose|k: int| 0 <= k <= t.shape@.len() && #[trigger] shape_product(t.shape@.take(k)) > u64::MAX;
                        assert(!tensor_size_fits(ts[i as int]));
                    }
                    return false;
                },
            };
            let bits = match elements.checked_mul(ggml_type_size(t.dtype)) {
                Some(b) => b,
                None => {
                    assert(!tensor_size_fits(ts[i as int]));
                    return false;
                },
            };
            match total.checked_add(bits / 8) {
                Some(n) => {
                    total = n;
                    i = i + 1;
                },
                None => {
                    assert(total_tensor_bytes(ts.take(i + 1)) > u64::MAX);
                    return false;
                },
            }
        }
        assert(ts.take(ts.len() as int) =~= ts);
        true
    }

    /// Estimate of the memory needed to load the model, in MiB: the tensor
    /// sizes summed, plus 20% for the KV cache.
    pub fn estimated_memory_mb(&self) -> (r: u64)
        requires
            memory_estimate_fits(self@.tensors),
        ensures
            r == spec_estimated_memory_mb(self@.tensors),
    {
        let ghost ts = self@.tensors;
        let mut total: u64 = 0;
        let mut i: usize = 0;
        assert(ts.take(0) =~= Seq::<GgufTensorView>::empty());
        while i < self.tensors.len()
            invariant
                i <= self.tensors@.len(),
                ts == self@.tensors,
                ts.len() == self.tensors@.len(),
                memory_estimate_fits(ts),
                total == total_tensor_bytes(ts.take(i as int)),
            decreases self.tensors@.len() - i,
        {
            let t = &self.tensors[i];
            assert(ts[i as int] == t@);
            assert(tensor_size_fits(ts[i as int]));
            assert(ts.take(i + 1).drop_last() =~= ts.take(i as int));
            assert(total_tensor_bytes(ts.take(i + 1)) <= u64::MAX);
            let elements = match checked_shape_product(&t.shape) {
                Some(e) => e,
                None => 0,
            };
            let bits = elements * ggml_type_size(t.dtype);
            proof {
                lemma_total_nonneg(ts.take(i as int));
                lemma_shape_product_nonneg(t.shape@);
            }
            total = total + bits / 8;
            i = i + 1;
        }
        assert(ts.take(ts.len() as int) =~= ts);
        proof {
            lemma_total_nonneg(ts);
        }
        total / 1024 / 1024 * 12 / 10
    }
}

} // verus!

verus! {

// ── More bytes change nothing ─────────────────────────────────────────────────

/// A reader's result at `p` in `b` is decided by `b`: a success read within
/// `b` and any fault other than running out of bytes come out the same from
/// any longer stretch of the file.
pub open spec fn stable<T>(r1: Result<(T, int), ParseFault>, r2: Result<(T, int), ParseFault>, len: int) -> bool {
    &&& r1 matches Ok((_, q)) ==> 0 <= q <= len && r2 == r1
    &&& decisive_fault(r1) ==> r2 == r1
}

/// A failure for a reason other than running out of bytes.
pub open spec fn decisive_fault<T>(r: Result<T, ParseFault>) -> bool {
    match r {
        Err(f) => f != ParseFault::Eof,
        Ok(_) => false,
    }
}

proof fn lemma_ext_index(b: Seq<u8>, rest: Seq<u8>, i: int)
    requires
        0 <= i < b.len(),
    ensures
        (b + rest)[i] == b[i],
{
}

proof fn lemma_ext_ints(b: Seq<u8>, rest: Seq<u8>, p: int)
    ensures
        stable(spec_u8_at(b, p), spec_u8_at(b + rest, p), b.len() as int),
        stable(spec_u16_at(b, p), spec_u16_at(b + rest, p), b.len() as int),
        stable(spec_u32_at(b, p), spec_u32_at(b + rest, p), b.len() as int),
        stable(spec_u64_at(b, p), spec_u64_at(b + rest, p), b.len() as int),
{
    let e = b + rest;
    if has_bytes(b, p, 8) {
        assert(le_u32(e, p) == le_u32(b, p) && le_u32(e, p + 4) == le_u32(b, p + 4)) by {
            lemma_ext_index(b, rest, p);
            lemma_ext_index(b, rest, p + 1);
            lemma_ext_index(b, rest, p + 2);
            lemma_ext_index(b, rest, p + 3);
            lemma_ext_index(b, rest, p + 4);
            lemma_ext_index(b, rest, p + 5);
            lemma_ext_index(b, rest, p + 6);
            lemma_ext_index(b, rest, p + 7);
        }
    }
    if has_bytes(b, p, 4) {
        lemma_ext_index(b, rest, p);
        lemma_ext_index(b, rest, p + 1);
        lemma_ext_index(b, rest, p + 2);
        lemma_ext_index(b, rest, p + 3);
    }
    if has_bytes(b, p, 2) {
        lemma_ext_index(b, rest, p);
        lemma_ext_index(b, rest, p + 1);
    }
    if has_bytes(b, p, 1) {
        lemma_ext_index(b, rest, p);
    }
}

proof fn lemma_ext_string(b: Seq<u8>, rest: Seq<u8>, p: int)
    ensures
        stable(spec_string_at(b, p), spec_string_at(b + rest, p), b.len() as int),
{
    lemma_ext_ints(b, rest, p);
    if let Ok((n, q)) = spec_u64_at(b, p) {
        if q + n <= b.len() {
            assert((b + rest).subrange(q, q + n) =~= b.subrange(q, q + n));
        }
    }
}

proof fn lemma_ext_plain(b: Seq<u8>, rest: Seq<u8>, p: int, t: u32)
    ensures
        stable(spec_plain(b, p, t), spec_plain(b + rest, p, t), b.len() as int),
{
    lemma_ext_ints(b, rest, p);
    lemma_ext_string(b, rest, p);
}

/// `repeat` keeps a success when every step it takes keeps its own.
proof fn lemma_ext_repeat<T>(
    p: int,
    n: nat,
    s1: spec_fn(int) -> Result<(T, int), ParseFault>,
    s2: spec_fn(int) -> Result<(T, int), ParseFault>,
    len: int,
)
    requires
        0 <= p <= len,
        forall|q: int| #[trigger] stable(s1(q), s2(q), len),
    ensures
        stable(repeat(p, n, s1), repeat(p, n, s2), len),
    decreases n,
{
    if n > 0 {
        lemma_ext_repeat(p, (n - 1) as nat, s1, s2, len);
        if let Ok((_, q)) = repeat(p, (n - 1) as nat, s1) {
            assert(stable(s1(q), s2(q), len));
        }
    }
}

proof fn lemma_ext_value(b: Seq<u8>, rest: Seq<u8>, p: int)
    ensures
        stable(spec_value(b, p), spec_value(b + rest, p), b.len() as int),
{
    let e = b + rest;
    let len = b.len() as int;
    lemma_ext_ints(b, rest, p);
    if let Ok((t, q)) = spec_u32_at(b, p) {
        if t == 9 {
            lemma_ext_ints(b, rest, q);
            if let Ok((et, q1)) = spec_u32_at(b, q) {
                lemma_ext_ints(b, rest, q1);
                if let Ok((n, q2)) = spec_u64_at(b, q1) {
                    assert forall|r: int| #[trigger] stable(element_step(b, et)(r), element_step(e, et)(r), len) by {
                        lemma_ext_plain(b, rest, r, et);
                    }
                    lemma_ext_repeat(q2, n as nat, element_step(b, et), element_step(e, et), len);
                }
            }
        } else {
            lemma_ext_plain(b, rest, q, t);
        }
    }
}

proof fn lemma_ext_kv(b: Seq<u8>, rest: Seq<u8>, p: int)
    ensures
        stable(spec_kv(b, p), spec_kv(b + rest, p), b.len() as int),
{
    lemma_ext_string(b, rest, p);
    if let Ok((_, q)) = spec_string_at(b, p) {
        lemma_ext_value(b, rest, q);
    }
}

proof fn lemma_ext_tensor(b: Seq<u8>, rest: Seq<u8>, p: int)
    ensures
        stable(spec_tensor(b, p), spec_tensor(b + rest, p), b.len() as int),
{
    let e = b + rest;
    let len = b.len() as int;
    lemma_ext_string(b, rest, p);
    if let Ok((_, q)) = spec_string_at(b, p) {
        lemma_ext_ints(b, rest, q);
        if let Ok((nd, q1)) = spec_u32_at(b, q) {
            assert forall|r: int| #[trigger] stable(u64_step(b)(r), u64_step(e)(r), len) by {
                lemma_ext_ints(b, rest, r);
            }
            lemma_ext_repeat(q1, nd as nat, u64_step(b), u64_step(e), len);
            if let Ok((_, q2)) = repeat(q1, nd as nat, u64_step(b)) {
                lemma_ext_ints(b, rest, q2);
                if let Ok((_, q3)) = spec_u32_at(b, q2) {
                    lemma_ext_ints(b, rest, q3);
                }
            }
        }
    }
}

/// The header fields before the key/value pairs keep their values.
proof fn lemma_ext_prologue(b: Seq<u8>, rest: Seq<u8>)
    ensures
        stable(spec_u32_at(b, 0), spec_u32_at(b + rest, 0), b.len() as int),
        spec_u32_at(b, 0) matches Ok((_, p1)) ==> stable(spec_u32_at(b, p1), spec_u32_at(b + rest, p1), b.len() as int)
            && (spec_u32_at(b, p1) matches Ok((_, p2)) ==> stable(spec_u64_at(b, p2), spec_u64_at(b + rest, p2), b.len() as int)
                && (spec_u64_at(b, p2) matches Ok((_, p3)) ==> stable(spec_u64_at(b, p3), spec_u64_at(b + rest, p3), b.len() as int))),
{
    lemma_ext_ints(b, rest, 0);
    if let Ok((_, p1)) = spec_u32_at(b, 0) {
        lemma_ext_ints(b, rest, p1);
        if let Ok((_, p2)) = spec_u32_at(b, p1) {
            lemma_ext_ints(b, rest, p2);
            if let Ok((_, p3)) = spec_u64_at(b, p2) {
                lemma_ext_ints(b, rest, p3);
            }
        }
    }
}

proof fn lemma_ext_kvs(b: Seq<u8>, rest: Seq<u8>, p: int, n: nat)
    requires
        0 <= p <= b.len(),
    ensures
        stable(repeat(p, n, kv_step(b)), repeat(p, n, kv_step(b + rest)), b.len() as int),
{
    assert forall|r: int| #[trigger] stable(kv_step(b)(r), kv_step(b + rest)(r), b.len() as int) by {
        lemma_ext_kv(b, rest, r);
    }
    lemma_ext_repeat(p, n, kv_step(b), kv_step(b + rest), b.len() as int);
}

proof fn lemma_ext_tensors(b: Seq<u8>, rest: Seq<u8>, p: int, n: nat)
    requires
        0 <= p <= b.len(),
    ensures
        stable(repeat(p, n, tensor_step(b)), repeat(p, n, tensor_step(b + rest)), b.len() as int),
{
    assert forall|r: int| #[trigger] stable(tensor_step(b)(r), tensor_step(b + rest)(r), b.len() as int) by {
        lemma_ext_tensor(b, rest, r);
    }
    lemma_ext_repeat(p, n, tensor_step(b), tensor_step(b + rest), b.len() as int);
}

/// The start of a file decides its header: once the bytes at hand hold the
/// whole header (magic to tensor directory), or show a fault other than
/// running out of bytes, reading further bytes of the file gives the same
/// result. Tensor data then starts at a multiple of 32.
pub proof fn law_header_from_prefix(b: Seq<u8>, rest: Seq<u8>)
    requires
        spec_parse(b) is Ok || decisive_fault(spec_parse(b)),
        b.len() + 31 <= u64::MAX,
    ensures
        spec_parse(b + rest) == spec_parse(b),
        spec_parse(b) is Ok ==> (spec_parse(b)->Ok_0.data_offset as int) % 32 == 0,
{
    if spec_parse(b) is Ok {
        lemma_header_ok_prefix(b, rest);
    } else {
        lemma_header_fault_prefix(b, rest);
    }
}

proof fn lemma_header_fault_prefix(b: Seq<u8>, rest: Seq<u8>)
    requires
        decisive_fault(spec_parse(b)),
    ensures
        spec_parse(b + rest) == spec_parse(b),
{
    let e = b + rest;
    lemma_ext_prologue(b, rest);
    if let Ok((_, p1)) = spec_u32_at(b, 0) {
        if let Ok((_, p2)) = spec_u32_at(b, p1) {
            if let Ok((tensor_count, p3)) = spec_u64_at(b, p2) {
                if let Ok((kv_count, p4)) = spec_u64_at(b, p3) {
                    lemma_ext_kvs(b, rest, p4, kv_count as nat);
                    if let Ok((_, p5)) = repeat(p4, kv_count as nat, kv_step(b)) {
                        lemma_ext_tensors(b, rest, p5, tensor_count as nat);
                    }
                }
            }
        }
    }
}

proof fn lemma_header_ok_prefix(b: Seq<u8>, rest: Seq<u8>)
    requires
        spec_parse(b) is Ok,
        b.len() + 31 <= u64::MAX,
    ensures
        spec_parse(b + rest) == spec_parse(b),
        (spec_parse(b)->Ok_0.data_offset as int) % 32 == 0,
{
    let e = b + rest;
    lemma_ext_prologue(b, rest);
    let (_, p1) = spec_u32_at(b, 0)->Ok_0;
    let (_, p2) = spec_u32_at(b, p1)->Ok_0;
    let (tensor_count, p3) = spec_u64_at(b, p2)->Ok_0;
    let (kv_count, p4) = spec_u64_at(b, p3)->Ok_0;
    lemma_ext_kvs(b, rest, p4, kv_count as nat);
    let (_, p5) = repeat(p4, kv_count as nat, kv_step(b))->Ok_0;
    lemma_ext_tensors(b, rest, p5, tensor_count as nat);
    let (_, p6) = repeat(p5, tensor_count as nat, tensor_step(b))->Ok_0;
    assert(spec_u32_at(e, 0) == spec_u32_at(b, 0));
    assert(spec_u32_at(e, p1) == spec_u32_at(b, p1));
    assert(spec_u64_at(e, p2) == spec_u64_at(b, p2));
    assert(spec_u64_at(e, p3) == spec_u64_at(b, p3));
    assert(repeat(p4, kv_count as nat, kv_step(e)) == repeat(p4, kv_count as nat, kv_step(b)));
    assert(repeat(p5, tensor_count as nat, tensor_step(e)) == repeat(p5, tensor_count as nat, tensor_step(b)));
    lemma_align_up(p6);
}

proof fn lemma_align_up(p: int)
    ensures
        align_up(p) % 32 == 0,
        0 <= p ==> p <= align_up(p) < p + 32,
{
    assert(((p + 31) / 32 * 32) % 32 == 0) by (nonlinear_arith);
    assert(0 <= p ==> p <= (p + 31) / 32 * 32 < p + 32) by (nonlinear_arith);
}

} // verus!

verus! {

/// A successful read that started at `p` ends at or after `p`, inside the bytes.
pub open spec fn ends_inside<T>(b: Seq<u8>, p: int, r: Result<(T, int), ParseFault>) -> bool {
    r matches Ok((_, q)) ==> p <= q <= b.len()
}

proof fn lemma_repeat_inside<T>(b: Seq<u8>, p: int, n: nat, step: spec_fn(int) -> Result<(T, int), ParseFault>)
    requires
        0 <= p <= b.len(),
        forall|q: int| ends_inside(b, q, #[trigger] step(q)),
    ensures
        repeat(p, n, step) matches Ok((s, q)) ==> s.len() == n && p <= q <= b.len(),
    decreases n,
{
    if n > 0 {
        lemma_repeat_inside(b, p, (n - 1) as nat, step);
        if let Ok((s, q)) = repeat(p, (n - 1) as nat, step) {
            assert(ends_inside(b, q, step(q)));
        }
    }
}

proof fn lemma_string_inside(b: Seq<u8>, p: int)
    ensures
        ends_inside(b, p, spec_string_at(b, p)),
{
}

proof fn lemma_plain_inside(b: Seq<u8>, p: int, t: u32)
    ensures
        ends_inside(b, p, spec_plain(b, p, t)),
{
    lemma_string_inside(b, p);
}

proof fn lemma_value_inside(b: Seq<u8>, p: int)
    ensures
        ends_inside(b, p, spec_value(b, p)),
{
    if let Ok((t, q)) = spec_u32_at(b, p) {
        if t == 9 {
            if let Ok((et, q1)) = spec_u32_at(b, q) {
                if let Ok((n, q2)) = spec_u64_at(b, q1) {
                    let step = element_step(b, et);
                    assert forall|x: int| ends_inside(b, x, #[trigger] step(x)) by {
                        lemma_plain_inside(b, x, et);
                    }
                    lemma_repeat_inside(b, q2, n as nat, step);
                }
            }
        } else {
            lemma_plain_inside(b, q, t);
        }
    }
}

proof fn lemma_kv_inside(b: Seq<u8>, p: int)
    ensures
        ends_inside(b, p, spec_kv(b, p)),
{
    lemma_string_inside(b, p);
    if let Ok((k, q)) = spec_string_at(b, p) {
        lemma_value_inside(b, q);
    }
}

proof fn lemma_kvs_inside(b: Seq<u8>, p: int, n: nat)
    requires
        0 <= p <= b.len(),
    ensures
        repeat(p, n, kv_step(b)) matches Ok((s, q)) ==> s.len() == n && p <= q <= b.len(),
{
    let ks = kv_step(b);
    assert forall|x: int| ends_inside(b, x, #[trigger] ks(x)) by {
        lemma_kv_inside(b, x);
    }
    lemma_repeat_inside(b, p, n, ks);
}

proof fn lemma_tensors_inside(b: Seq<u8>, p: int, n: nat)
    requires
        0 <= p <= b.len(),
    ensures
        repeat(p, n, tensor_step(b)) matches Ok((s, q)) ==> s.len() == n && p <= q <= b.len(),
{
    let ts = tensor_step(b);
    assert forall|x: int| ends_inside(b, x, #[trigger] ts(x)) by {
        lemma_tensor_inside(b, x);
    }
    lemma_repeat_inside(b, p, n, ts);
}

proof fn lemma_tensor_inside(b: Seq<u8>, p: int)
    ensures
        ends_inside(b, p, spec_tensor(b, p)),
{
    lemma_string_inside(b, p);
    if let Ok((name, q)) = spec_string_at(b, p) {
        if let Ok((nd, q1)) = spec_u32_at(b, q) {
            let us = u64_step(b);
            assert forall|x: int| ends_inside(b, x, #[trigger] us(x)) by {}
            lemma_repeat_inside(b, q1, nd as nat, us);
        }
    }
}

/// What a parsed header holds: as many tensor entries as its tensor count
/// and as many key/value pairs as its key/value count, version 2 or 3, and
/// the tensor data starting at the first 32-byte boundary at or after the
/// end `p` of the header, which lies within the bytes (a machine limit:
/// the bytes are short enough for that boundary to be a `u64`).
pub proof fn law_parsed_header_layout(b: Seq<u8>)
    requires
        spec_parse(b) is Ok,
        b.len() + 31 <= u64::MAX,
    ensures
        ({
            let l = spec_parse(b)->Ok_0;
            &&& l.tensors.len() == l.meta.tensor_count
            &&& l.meta.kv.len() == l.meta.kv_count
            &&& (l.meta.version == 2 || l.meta.version == 3)
            &&& l.data_offset % 32 == 0
            &&& exists|p: int| 24 <= p <= b.len() && l.data_offset == #[trigger] align_up(p) && p <= l.data_offset < p + 32
        }),
{
    let (magic, p1) = spec_u32_at(b, 0)->Ok_0;
    let (version, p2) = spec_u32_at(b, p1)->Ok_0;
    let (tensor_count, p3) = spec_u64_at(b, p2)->Ok_0;
    let (kv_count, p4) = spec_u64_at(b, p3)->Ok_0;
    assert(p4 == 24);
    lemma_kvs_inside(b, p4, kv_count as nat);
    let (kv, p5) = repeat(p4, kv_count as nat, kv_step(b))->Ok_0;
    lemma_tensors_inside(b, p5, tensor_count as nat);
    let (tensors, p6) = repeat(p5, tensor_count as nat, tensor_step(b))->Ok_0;
    lemma_align_up(p6);
    assert(align_up(p6) as u64 == align_up(p6));
    let l = spec_parse(b)->Ok_0;
    assert(l == GgufLoaderView {
        meta: GgufMetaView { version, tensor_count, kv_count, kv },
        tensors,
        data_offset: align_up(p6) as u64,
    });
    assert(l.data_offset == align_up(p6) && 24 <= p6 <= b.len());
}

} // verus!
