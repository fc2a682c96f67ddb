//! Reading from and writing to the linear memory of a WebAssembly guest.
//!
//! A guest hands over positions in its memory. Nothing it hands over is
//! trusted: whatever does not lie within the memory is an error.

use vstd::prelude::*;
use vstd::utf8::{decode_utf8, valid_utf8};

verus! {

/// What a host call answers.
#[derive(Debug, Clone, Copy, PartialEq, Eq, Structural)]
pub enum OrionWasmResult {
    Success,
    NotFound,
    BufferTooSmall,
    InvalidMemoryAccess,
    InternalError,
}

/// Why a host call failed.
#[derive(Debug, Clone, Copy, PartialEq, Eq, Structural)]
pub enum OrionWasmError {
    NotFound,
    BufferTooSmall,
    InvalidMemoryAccess,
    InternalError,
    Timeout,
}

impl OrionWasmError {
    /// The number a guest sees.
    pub open spec fn spec_code(self) -> i32 {
        match self {
            OrionWasmError::NotFound => 1,
            OrionWasmError::BufferTooSmall => 2,
            OrionWasmError::InvalidMemoryAccess => 3,
            OrionWasmError::InternalError => 4,
            OrionWasmError::Timeout => 5,
        }
    }

    pub fn code(self) -> (code: i32)
        ensures
            code == self.spec_code(),
    {
        match self {
            OrionWasmError::NotFound => 1,
            OrionWasmError::BufferTooSmall => 2,
            OrionWasmError::InvalidMemoryAccess => 3,
            OrionWasmError::InternalError => 4,
            OrionWasmError::Timeout => 5,
        }
    }
}

impl OrionWasmResult {
    /// The number a guest sees.
    pub open spec fn spec_code(self) -> i32 {
        match self {
            OrionWasmResult::Success => 0,
            OrionWasmResult::NotFound => 1,
            OrionWasmResult::BufferTooSmall => 2,
            OrionWasmResult::InvalidMemoryAccess => 3,
            OrionWasmResult::InternalError => 4,
        }
    }

    pub fn code(self) -> (code: i32)
        ensures
            code == self.spec_code(),
    {
        match self {
            OrionWasmResult::Success => 0,
            OrionWasmResult::NotFound => 1,
            OrionWasmResult::BufferTooSmall => 2,
            OrionWasmResult::InvalidMemoryAccess => 3,
            OrionWasmResult::InternalError => 4,
        }
    }
}

/// The number a guest sees for the outcome of a host call: zero for success.
pub fn into_wasm_abi(outcome: Result<(), OrionWasmError>) -> (code: i32)
    ensures
        code == (match outcome {
            Ok(_) => 0,
            Err(e) => e.spec_code(),
        }),
        code == 0 <==> outcome is Ok,
{
    match outcome {
        Ok(_) => 0,
        Err(e) => e.code(),
    }
}

/// Whether `len` bytes from `start` on lie within a memory.
pub open spec fn within(mem: Seq<u8>, start: int, len: int) -> bool {
    start + len <= mem.len()
}

/// A memory with bytes written from `start` on.
pub open spec fn patched(mem: Seq<u8>, start: int, bytes: Seq<u8>) -> Seq<u8> {
    Seq::new(
        mem.len(),
        |i: int|
            if start <= i < start + bytes.len() {
                bytes[i - start]
            } else {
                mem[i]
            },
    )
}

/// A number in four bytes, the lowest first.
pub open spec fn le4(n: u32) -> Seq<u8> {
    seq![
        (n % 256) as u8,
        (n / 256 % 256) as u8,
        (n / 65_536 % 256) as u8,
        (n / 16_777_216) as u8,
    ]
}

/// A number in eight bytes, the lowest first.
pub open spec fn le8(n: u64) -> Seq<u8> {
    le4((n % 4_294_967_296) as u32) + le4((n / 4_294_967_296) as u32)
}

/// The number in four bytes, the lowest first.
pub open spec fn from_le4(bytes: Seq<u8>) -> int {
    bytes[0] + 256 * bytes[1] + 65_536 * bytes[2] + 16_777_216 * bytes[3]
}

fn le4_bytes(n: u32) -> (bytes: Vec<u8>)
    ensures
        bytes@ == le4(n),
{
    let mut bytes: Vec<u8> = Vec::new();
    bytes.push((n % 256) as u8);
    bytes.push((n / 256 % 256) as u8);
    bytes.push((n / 65_536 % 256) as u8);
    bytes.push((n / 16_777_216) as u8);
    assert(bytes@ =~= le4(n));
    bytes
}

fn le8_bytes(n: u64) -> (bytes: Vec<u8>)
    ensures
        bytes@ == le8(n),
{
    let mut bytes: Vec<u8> = le4_bytes((n % 4_294_967_296) as u32);
    let mut high: Vec<u8> = le4_bytes((n / 4_294_967_296) as u32);
    bytes.append(&mut high);
    assert(bytes@ =~= le8(n));
    bytes
}

/// A length as a guest sees it; zero for one that it cannot see.
pub open spec fn guest_len(len: int) -> u32 {
    if 0 <= len <= u32::MAX {
        len as u32
    } else {
        0
    }
}

/// The length of some bytes as a guest sees it.
pub fn guest_length(bytes: &Vec<u8>) -> (len: u32)
    ensures
        len == guest_len(bytes@.len() as int),
{
    let n: u64 = bytes.len() as u64;
    if n <= u32::MAX as u64 {
        n as u32
    } else {
        0
    }
}

/// The length of some bytes as the argument of the guest's allocator; zero for
/// one beyond its signed argument.
pub fn alloc_length(bytes: &Vec<u8>) -> (len: i32)
    ensures
        len == (if bytes@.len() <= i32::MAX {
            bytes@.len() as i32
        } else {
            0
        }),
{
    let n: u64 = bytes.len() as u64;
    if n <= i32::MAX as u64 {
        n as i32
    } else {
        0
    }
}

/// Reads bytes from the memory.
pub fn read_bytes(mem: &[u8], ptr: u32, len: u32) -> (res: Result<Vec<u8>, OrionWasmError>)
    ensures
        match res {
            Ok(bytes) => within(mem@, ptr as int, len as int) && bytes@ == mem@.subrange(ptr as int, ptr + len),
            Err(e) => !within(mem@, ptr as int, len as int) && e == OrionWasmError::InvalidMemoryAccess,
        },
{
    let size: u64 = mem.len() as u64;
    let end: u64 = ptr as u64 + len as u64;
    if end > size {
        return Err(OrionWasmError::InvalidMemoryAccess);
    }
    let mut bytes: Vec<u8> = Vec::new();
    let mut i: usize = ptr as usize;
    while i < end as usize
        invariant
            ptr <= i <= end,
            end == ptr + len,
            end <= mem@.len(),
            bytes@ == mem@.subrange(ptr as int, i as int),
        decreases end - i,
    {
        bytes.push(mem[i]);
        assert(mem@.subrange(ptr as int, i + 1) =~= mem@.subrange(ptr as int, i as int).push(mem@[i as int]));
        i = i + 1;
    }
    Ok(bytes)
}

/// `std::str::from_utf8`: the text that bytes encode, where they encode one.
#[verifier::external_body]
pub(crate) fn utf8_text(bytes: &Vec<u8>) -> (text: Option<String>)
    ensures
        text is Some <==> valid_utf8(bytes@),
        text matches Some(t) ==> t@ == decode_utf8(bytes@),
{
    std::str::from_utf8(bytes).ok().map(|text| text.to_owned())
}

/// Whether a memory holds a text at a place.
pub open spec fn holds_text(mem: Seq<u8>, ptr: u32, len: u32) -> bool {
    within(mem, ptr as int, len as int) && valid_utf8(mem.subrange(ptr as int, ptr + len))
}

/// Reads a text from the memory.
pub fn read_text(mem: &[u8], ptr: u32, len: u32) -> (res: Result<String, OrionWasmError>)
    ensures
        match res {
            Ok(text) => holds_text(mem@, ptr, len) && text@ == decode_utf8(mem@.subrange(ptr as int, ptr + len)),
            Err(e) => !holds_text(mem@, ptr, len) && e == OrionWasmError::InvalidMemoryAccess,
        },
{
    match read_bytes(mem, ptr, len) {
        Err(e) => Err(e),
        Ok(bytes) => match utf8_text(&bytes) {
            Some(text) => Ok(text),
            None => Err(OrionWasmError::InvalidMemoryAccess),
        },
    }
}

/// Writes bytes to the memory, all or none.
pub fn write_bytes(mem: &mut [u8], ptr: u32, bytes: &Vec<u8>) -> (done: bool)
    ensures
        done == within(old(mem)@, ptr as int, bytes@.len() as int),
        done ==> final(mem)@ == patched(old(mem)@, ptr as int, bytes@),
        !done ==> final(mem)@ == old(mem)@,
{
    let size: usize = mem.len();
    let len: usize = bytes.len();
    if len > size || ptr as u64 > (size - len) as u64 {
        return false;
    }
    let start: usize = ptr as usize;
    let ghost before = mem@;
    let mut i: usize = 0;
    while i < len
        invariant
            i <= len,
            len == bytes@.len(),
            start == ptr,
            start + len <= before.len(),
            size == before.len(),
            mem@ == patched(before, start as int, bytes@.take(i as int)),
        decreases len - i,
    {
        mem[start + i] = bytes[i];
        assert(mem@ =~= patched(before, start as int, bytes@.take(i + 1)));
        i = i + 1;
    }
    assert(bytes@.take(len as int) =~= bytes@);
    assert(patched(before, start as int, bytes@.take(0)) =~= before);
    true
}

/// The outcome of handing a value to a guest that gave a buffer for it.
pub open spec fn value_outcome(
    mem: Seq<u8>,
    value: Seq<u8>,
    ptr: u32,
    max_len: u32,
    len_ptr: u32,
) -> Result<(), OrionWasmError> {
    if value.len() > max_len {
        Err(OrionWasmError::BufferTooSmall)
    } else if !within(mem, ptr as int, value.len() as int) || !within(mem, len_ptr as int, 4) {
        Err(OrionWasmError::InvalidMemoryAccess)
    } else {
        Ok(())
    }
}

/// The memory after handing over a value: the value, then its length. Where
/// the value fits and the length does not, the value has been written.
pub open spec fn value_memory(mem: Seq<u8>, value: Seq<u8>, ptr: u32, max_len: u32, len_ptr: u32) -> Seq<u8> {
    if value.len() > max_len || !within(mem, ptr as int, value.len() as int) {
        mem
    } else if !within(mem, len_ptr as int, 4) {
        patched(mem, ptr as int, value)
    } else {
        patched(patched(mem, ptr as int, value), len_ptr as int, le4(value.len() as u32))
    }
}

/// Hands a value to a guest that gave a buffer for it and a place for its length.
pub fn write_value(mem: &mut [u8], value: &Vec<u8>, ptr: u32, max_len: u32, len_ptr: u32) -> (res: Result<
    (),
    OrionWasmError,
>)
    ensures
        res == value_outcome(old(mem)@, value@, ptr, max_len, len_ptr),
        final(mem)@ == value_memory(old(mem)@, value@, ptr, max_len, len_ptr),
{
    let len: u64 = value.len() as u64;
    if len > max_len as u64 {
        return Err(OrionWasmError::BufferTooSmall);
    }
    if !write_bytes(mem, ptr, value) {
        return Err(OrionWasmError::InvalidMemoryAccess);
    }
    let length: Vec<u8> = le4_bytes(len as u32);
    if !write_bytes(mem, len_ptr, &length) {
        return Err(OrionWasmError::InvalidMemoryAccess);
    }
    Ok(())
}

/// The outcome of handing a value to a guest that made room for it at `at`.
pub open spec fn allocated_outcome(
    mem: Seq<u8>,
    value: Seq<u8>,
    at: u32,
    ptr_ptr: u32,
    len_ptr: u32,
) -> Result<(), OrionWasmError> {
    if within(mem, at as int, value.len() as int) && within(mem, ptr_ptr as int, 4) && within(
        mem,
        len_ptr as int,
        4,
    ) {
        Ok(())
    } else {
        Err(OrionWasmError::InvalidMemoryAccess)
    }
}

/// The memory after handing over a value for which the guest made room: the
/// value, then where it is, then its length, up to the first that does not fit.
pub open spec fn allocated_memory(mem: Seq<u8>, value: Seq<u8>, at: u32, ptr_ptr: u32, len_ptr: u32) -> Seq<u8> {
    if !within(mem, at as int, value.len() as int) {
        mem
    } else if !within(mem, ptr_ptr as int, 4) {
        patched(mem, at as int, value)
    } else if !within(mem, len_ptr as int, 4) {
        patched(patched(mem, at as int, value), ptr_ptr as int, le4(at))
    } else {
        patched(
            patched(patched(mem, at as int, value), ptr_ptr as int, le4(at)),
            len_ptr as int,
            le4(guest_len(value.len() as int)),
        )
    }
}

/// Hands a value to a guest that made room for it.
pub fn write_allocated(mem: &mut [u8], value: &Vec<u8>, at: u32, ptr_ptr: u32, len_ptr: u32) -> (res: Result<
    (),
    OrionWasmError,
>)
    ensures
        res == allocated_outcome(old(mem)@, value@, at, ptr_ptr, len_ptr),
        final(mem)@ == allocated_memory(old(mem)@, value@, at, ptr_ptr, len_ptr),
{
    if !write_bytes(mem, at, value) {
        return Err(OrionWasmError::InvalidMemoryAccess);
    }
    let place: Vec<u8> = le4_bytes(at);
    if !write_bytes(mem, ptr_ptr, &place) {
        return Err(OrionWasmError::InvalidMemoryAccess);
    }
    let length: Vec<u8> = le4_bytes(guest_length(value));
    if !write_bytes(mem, len_ptr, &length) {
        return Err(OrionWasmError::InvalidMemoryAccess);
    }
    Ok(())
}

/// Writes a number in four bytes, the lowest first.
pub fn write_u32(mem: &mut [u8], ptr: u32, n: u32) -> (done: bool)
    ensures
        done == within(old(mem)@, ptr as int, 4),
        done ==> final(mem)@ == patched(old(mem)@, ptr as int, le4(n)),
        !done ==> final(mem)@ == old(mem)@,
{
    write_bytes(mem, ptr, &le4_bytes(n))
}

/// Writes a number in eight bytes, the lowest first.
pub fn write_u64(mem: &mut [u8], ptr: u32, n: u64) -> (done: bool)
    ensures
        done == within(old(mem)@, ptr as int, 8),
        done ==> final(mem)@ == patched(old(mem)@, ptr as int, le8(n)),
        !done ==> final(mem)@ == old(mem)@,
{
    write_bytes(mem, ptr, &le8_bytes(n))
}

/// A number read back from its four bytes is the number.
pub proof fn law_le4_reads_back(n: u32)
    ensures
        from_le4(le4(n)) == n,
{
}

/// What was written is read back, and the rest of the memory is untouched.
pub proof fn law_written_bytes_read_back(mem: Seq<u8>, start: int, bytes: Seq<u8>, i: int)
    requires
        0 <= start,
        within(mem, start, bytes.len() as int),
        0 <= i < mem.len(),
    ensures
        patched(mem, start, bytes).len() == mem.len(),
        patched(mem, start, bytes).subrange(start, start + bytes.len()) == bytes,
        i < start || i >= start + bytes.len() ==> patched(mem, start, bytes)[i] == mem[i],
{
    assert(patched(mem, start, bytes).subrange(start, start + bytes.len()) =~= bytes);
}

/// A guest whose buffer and length do not overlap reads back the value and its length.
pub proof fn law_value_reads_back(mem: Seq<u8>, value: Seq<u8>, ptr: u32, max_len: u32, len_ptr: u32)
    requires
        value_outcome(mem, value, ptr, max_len, len_ptr) is Ok,
        len_ptr + 4 <= ptr || ptr + value.len() <= len_ptr,
    ensures
        value_memory(mem, value, ptr, max_len, len_ptr).subrange(ptr as int, ptr + value.len()) == value,
        from_le4(value_memory(mem, value, ptr, max_len, len_ptr).subrange(len_ptr as int, len_ptr + 4))
            == value.len(),
{
    let after = value_memory(mem, value, ptr, max_len, len_ptr);
    assert(after.subrange(ptr as int, ptr + value.len()) =~= value);
    assert(after.subrange(len_ptr as int, len_ptr + 4) =~= le4(value.len() as u32));
    law_le4_reads_back(value.len() as u32);
}

/// Handing over a value never changes the size of the memory, and a value
/// that is refused for its size changes nothing.
pub proof fn law_refused_value_changes_nothing(mem: Seq<u8>, value: Seq<u8>, ptr: u32, max_len: u32, len_ptr: u32)
    ensures
        value_memory(mem, value, ptr, max_len, len_ptr).len() == mem.len(),
        value_outcome(mem, value, ptr, max_len, len_ptr) == Err::<(), OrionWasmError>(OrionWasmError::BufferTooSmall)
            ==> value_memory(mem, value, ptr, max_len, len_ptr) == mem,
{
}

/// Every error has a code of its own, and none has that of a success.
pub proof fn law_error_codes_differ(a: OrionWasmError, b: OrionWasmError)
    ensures
        a.spec_code() == b.spec_code() <==> a == b,
        1 <= a.spec_code() <= 5,
        OrionWasmError::NotFound.spec_code() == OrionWasmResult::NotFound.spec_code(),
        OrionWasmError::BufferTooSmall.spec_code() == OrionWasmResult::BufferTooSmall.spec_code(),
        OrionWasmError::InvalidMemoryAccess.spec_code() == OrionWasmResult::InvalidMemoryAccess.spec_code(),
        OrionWasmError::InternalError.spec_code() == OrionWasmResult::InternalError.spec_code(),
        OrionWasmResult::Success.spec_code() == 0,
{
}

/// A value is handed over exactly where it is no longer than the guest allows
/// and both it and its length lie within the memory.
pub proof fn law_value_is_handed_over_where_it_fits(
    mem: Seq<u8>,
    value: Seq<u8>,
    ptr: u32,
    max_len: u32,
    len_ptr: u32,
)
    ensures
        value_outcome(mem, value, ptr, max_len, len_ptr) is Ok <==> value.len() <= max_len && ptr + value.len()
            <= mem.len() && len_ptr + 4 <= mem.len(),
        value_outcome(mem, value, ptr, max_len, len_ptr) == Err::<(), OrionWasmError>(OrionWasmError::BufferTooSmall)
            <==> value.len() > max_len,
{
}

/// A value put into room that the guest gave can be found again: its place
/// and its length stand where the guest asked for them.
pub proof fn law_allocated_value_reads_back(mem: Seq<u8>, value: Seq<u8>, at: u32, ptr_ptr: u32, len_ptr: u32)
    requires
        at + value.len() <= mem.len(),
        ptr_ptr + 4 <= mem.len(),
        len_ptr + 4 <= mem.len(),
        value.len() <= u32::MAX,
        ptr_ptr + 4 <= at || at + value.len() <= ptr_ptr,
        len_ptr + 4 <= at || at + value.len() <= len_ptr,
        len_ptr + 4 <= ptr_ptr || ptr_ptr + 4 <= len_ptr,
    ensures
        allocated_outcome(mem, value, at, ptr_ptr, len_ptr) is Ok,
        ({
            let after = allocated_memory(mem, value, at, ptr_ptr, len_ptr);
            &&& after.len() == mem.len()
            &&& after.subrange(at as int, at + value.len()) == value
            &&& from_le4(after.subrange(ptr_ptr as int, ptr_ptr + 4)) == at
            &&& from_le4(after.subrange(len_ptr as int, len_ptr + 4)) == value.len()
        }),
{
    let after = allocated_memory(mem, value, at, ptr_ptr, len_ptr);
    assert(after.subrange(at as int, at + value.len()) =~= value);
    assert(after.subrange(ptr_ptr as int, ptr_ptr + 4) =~= le4(at));
    assert(after.subrange(len_ptr as int, len_ptr + 4) =~= le4(value.len() as u32));
    law_le4_reads_back(at);
    law_le4_reads_back(value.len() as u32);
}

/// A number of eight bytes, the lowest first, can be read back.
pub proof fn law_le8_reads_back(n: u64)
    ensures
        le8(n).len() == 8,
        from_le4(le8(n).take(4)) + 0x1_0000_0000 * from_le4(le8(n).skip(4)) == n,
{
    let low = (n % 4_294_967_296) as u32;
    let high = (n / 4_294_967_296) as u32;
    assert(le8(n).take(4) =~= le4(low));
    assert(le8(n).skip(4) =~= le4(high));
    law_le4_reads_back(low);
    law_le4_reads_back(high);
}

} // verus!
