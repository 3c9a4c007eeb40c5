//! Guest-memory access: null-terminated strings and tables of 32-bit words,
//! read and written through the [`ByteRead`] and [`ByteWrite`] traits.
use vstd::prelude::*;

verus! {

/// Errors reported by the emulator core.
#[derive(Debug)]
pub enum WieError {
    InvalidMemoryAccess(u32),
    AllocationFailure,
    JavaException(u32),
    JavaExceptionUnwind { context_base: u32, target: u32, next_pc: u32 },
    Unimplemented(String),
    FatalError(String),
}

/// The digit `d` (below 16) in lower case.
pub open spec fn digit_char(d: nat) -> char {
    if d < 10 {
        (d + 48) as char
    } else {
        (d + 87) as char
    }
}

/// `n` in decimal.
pub open spec fn decimal_text(n: nat) -> Seq<char>
    decreases n,
{
    if n < 10 {
        seq![digit_char(n)]
    } else {
        decimal_text(n / 10).push(digit_char(n % 10))
    }
}

/// `n` in lower-case hexadecimal.
pub open spec fn hex_text(n: nat) -> Seq<char>
    decreases n,
{
    if n < 16 {
        seq![digit_char(n)]
    } else {
        hex_text(n / 16).push(digit_char(n % 16))
    }
}

/// The message an error is shown with.
pub open spec fn error_message(e: WieError) -> Seq<char> {
    match e {
        WieError::InvalidMemoryAccess(address) => "Invalid memory access; address: "@ + decimal_text(
            address as nat,
        ),
        WieError::AllocationFailure => "Allocation failure"@,
        WieError::JavaException(exception) => "Java exception: 0x"@ + hex_text(exception as nat),
        WieError::JavaExceptionUnwind { context_base, target, next_pc } => "Java exception unwind: context_base=0x"@
            + hex_text(context_base as nat) + ", target=0x"@ + hex_text(target as nat) + ", next_pc=0x"@
            + hex_text(next_pc as nat),
        WieError::Unimplemented(message) => "Unimplemented: "@ + message@,
        WieError::FatalError(message) => "Fatal error: "@ + message@,
    }
}

fn digit(d: u32) -> (c: char)
    requires
        d < 16,
    ensures
        c == digit_char(d as nat),
{
    let b: u8 = d as u8;
    if b < 10 {
        (b + 48) as char
    } else {
        (b + 87) as char
    }
}

fn push_decimal(out: &mut Vec<char>, n: u32)
    ensures
        final(out)@ == old(out)@ + decimal_text(n as nat),
    decreases n,
{
    if n >= 10 {
        push_decimal(out, n / 10);
    }
    out.push(digit(n % 10));
}

fn push_hex(out: &mut Vec<char>, n: u32)
    ensures
        final(out)@ == old(out)@ + hex_text(n as nat),
    decreases n,
{
    if n >= 16 {
        push_hex(out, n / 16);
    }
    out.push(digit(n % 16));
}

fn push_str(out: &mut Vec<char>, text: &str)
    ensures
        final(out)@ == old(out)@ + text@,
{
    let n = text.unicode_len();
    let mut i: usize = 0;
    while i < n
        invariant
            i <= n == text@.len(),
            out@ == old(out)@ + text@.subrange(0, i as int),
        decreases n - i,
    {
        out.push(text.get_char(i));
        proof {
            assert(text@.subrange(0, i + 1) =~= text@.subrange(0, i as int).push(text@[i as int]));
        }
        i += 1;
    }
    proof {
        assert(text@.subrange(0, n as int) =~= text@);
    }
}

impl WieError {
    /// The message the error is shown with.
    pub fn message(&self) -> (r: Vec<char>)
        ensures
            r@ == error_message(*self),
    {
        let mut out: Vec<char> = Vec::new();
        match self {
            WieError::InvalidMemoryAccess(address) => {
                push_str(&mut out, "Invalid memory access; address: ");
                push_decimal(&mut out, *address);
            },
            WieError::AllocationFailure => {
                push_str(&mut out, "Allocation failure");
            },
            WieError::JavaException(exception) => {
                push_str(&mut out, "Java exception: 0x");
                push_hex(&mut out, *exception);
            },
            WieError::JavaExceptionUnwind { context_base, target, next_pc } => {
                push_str(&mut out, "Java exception unwind: context_base=0x");
                push_hex(&mut out, *context_base);
                push_str(&mut out, ", target=0x");
                push_hex(&mut out, *target);
                push_str(&mut out, ", next_pc=0x");
                push_hex(&mut out, *next_pc);
            },
            WieError::Unimplemented(message) => {
                push_str(&mut out, "Unimplemented: ");
                push_str(&mut out, message.as_str());
            },
            WieError::FatalError(message) => {
                push_str(&mut out, "Fatal error: ");
                push_str(&mut out, message.as_str());
            },
        }
        proof {
            assert(out@ =~= error_message(*self));
        }
        out
    }
}

/// Something guest bytes can be read from.
pub trait ByteRead {
    /// The byte this reader holds at `address`. Every verified reader
    /// gives its own; the default only lets readers written outside Verus
    /// be built.
    closed spec fn byte_at(&self, address: int) -> u8 {
        arbitrary()
    }

    /// What this reader reports for a read of `len` bytes at `address`.
    /// Every verified reader gives its own; the default only lets readers
    /// written outside Verus be built.
    closed spec fn read_result(&self, address: int, len: nat) -> Result<usize, WieError> {
        arbitrary()
    }

    /// Copies up to `result.len()` bytes starting at `address` into `result`
    /// and reports how many were copied.
    fn read_bytes(&self, address: u32, result: &mut [u8]) -> (r: Result<usize, WieError>)
        ensures
            r == self.read_result(address as int, old(result)@.len()),
            final(result)@.len() == old(result)@.len(),
            r matches Ok(n) ==> n <= old(result)@.len() && forall|i: int|
                0 <= i < n ==> #[trigger] final(result)@[i] == self.byte_at(address + i),
    ;
}

/// One write handed to a writer: the address, the bytes, and what the
/// writer reported.
pub type WriteRecord = (int, Seq<u8>, Result<(), WieError>);

/// Something guest bytes can be written to.
pub trait ByteWrite {
    /// The byte this writer holds at `address`. Every verified writer
    /// gives its own; the default only lets writers written outside Verus
    /// be built.
    closed spec fn stored_byte(&self, address: int) -> u8 {
        arbitrary()
    }

    /// Every write handed to this writer so far, oldest first. Every
    /// verified writer gives its own; the default only lets writers written
    /// outside Verus be built.
    closed spec fn writes(&self) -> Seq<WriteRecord> {
        arbitrary()
    }

    /// Stores `data` starting at `address`; on success every other byte is
    /// unchanged. The write is recorded, whatever it reports.
    fn write_bytes(&mut self, address: u32, data: &[u8]) -> (r: Result<(), WieError>)
        ensures
            final(self).writes() == old(self).writes().push((address as int, data@, r)),
            r is Ok ==> {
                &&& forall|i: int|
                    0 <= i < data@.len() ==> #[trigger] final(self).stored_byte(address + i)
                        == data@[i]
                &&& forall|a: int|
                    !(address <= a < address + data@.len()) ==> #[trigger] final(self).stored_byte(a)
                        == old(self).stored_byte(a)
            },
    ;
}

/// The `n` bytes a reader holds from `address` on.
pub open spec fn bytes_at<R: ?Sized + ByteRead>(reader: &R, address: int, n: nat) -> Seq<u8> {
    Seq::new(n, |i: int| reader.byte_at(address + i))
}

/// The `n` bytes a writer holds from `address` on.
pub open spec fn stored_bytes_at<W: ?Sized + ByteWrite>(writer: &W, address: int, n: nat) -> Seq<u8> {
    Seq::new(n, |i: int| writer.stored_byte(address + i))
}

/// Four bytes read as a little-endian number.
pub open spec fn u32_le(b: Seq<u8>) -> int {
    b[0] + 256 * b[1] + 65536 * b[2] + 16777216 * b[3]
}

/// Four bytes read as a big-endian number.
pub open spec fn u32_be(b: Seq<u8>) -> int {
    b[3] + 256 * b[2] + 65536 * b[1] + 16777216 * b[0]
}

/// `bytes` are the four bytes of `value` in one of the two byte orders
/// a machine can have.
pub open spec fn encodes_u32(value: u32, bytes: Seq<u8>) -> bool {
    &&& bytes.len() == 4
    &&& (value == u32_le(bytes) || value == u32_be(bytes))
}

/// `s` is a string of non-zero bytes that the reader holds at `address`,
/// followed by a zero byte.
pub open spec fn null_terminated_at<R: ?Sized + ByteRead>(reader: &R, address: int, s: Seq<u8>) -> bool {
    &&& forall|i: int| 0 <= i < s.len() ==> #[trigger] s[i] != 0 && s[i] == reader.byte_at(address + i)
    &&& reader.byte_at(address + s.len()) == 0
}

/// The word at index `k` of a table based at `base`.
pub open spec fn table_word_at<R: ?Sized + ByteRead>(reader: &R, base: int, k: int) -> Seq<u8> {
    bytes_at(reader, base + 4 * k, 4)
}

/// `items` are the non-zero words the reader holds from `base` on, followed
/// by a zero word.
pub open spec fn null_terminated_table_at<R: ?Sized + ByteRead>(reader: &R, base: int, items: Seq<u32>) -> bool {
    &&& forall|k: int|
        0 <= k < items.len() ==> #[trigger] items[k] != 0 && encodes_u32(
            items[k],
            table_word_at(reader, base, k),
        )
    &&& table_word_at(reader, base, items.len() as int) == seq![0u8, 0u8, 0u8, 0u8]
}

/// The message of a short read at `address`: `expected` bytes were asked
/// for, `got` were read.
pub open spec fn short_read_text(address: u32, expected: nat, got: nat) -> Seq<char> {
    "Short read at 0x"@ + hex_text(address as nat) + ": expected "@ + decimal_text(expected)
        + ", got "@ + decimal_text(got)
}

/// `e` is the error of a short read at `address`.
pub open spec fn is_short_read(e: WieError, address: u32, expected: nat, got: nat) -> bool {
    e matches WieError::FatalError(m) && m@ == short_read_text(address, expected, got)
}

/// The digit `d` as a string.
fn digit_str(d: u32) -> (r: &'static str)
    requires
        d < 16,
    ensures
        r@ == seq![digit_char(d as nat)],
{
    proof {
        reveal_strlit("0");
        reveal_strlit("1");
        reveal_strlit("2");
        reveal_strlit("3");
        reveal_strlit("4");
        reveal_strlit("5");
        reveal_strlit("6");
        reveal_strlit("7");
        reveal_strlit("8");
        reveal_strlit("9");
        reveal_strlit("a");
        reveal_strlit("b");
        reveal_strlit("c");
        reveal_strlit("d");
        reveal_strlit("e");
        reveal_strlit("f");
    }
    match d {
        0 => "0",
        1 => "1",
        2 => "2",
        3 => "3",
        4 => "4",
        5 => "5",
        6 => "6",
        7 => "7",
        8 => "8",
        9 => "9",
        10 => "a",
        11 => "b",
        12 => "c",
        13 => "d",
        14 => "e",
        _ => "f",
    }
}

fn append_decimal(out: &mut String, n: usize)
    ensures
        final(out)@ == old(out)@ + decimal_text(n as nat),
    decreases n,
{
    if n >= 10 {
        append_decimal(out, n / 10);
    }
    out.append(digit_str((n % 10) as u32));
}

fn append_hex(out: &mut String, n: u32)
    ensures
        final(out)@ == old(out)@ + hex_text(n as nat),
    decreases n,
{
    if n >= 16 {
        append_hex(out, n / 16);
    }
    out.append(digit_str(n % 16));
}

/// The message of a short read at `address`.
fn short_read_message(address: u32, expected: usize, got: usize) -> (r: String)
    ensures
        r@ == short_read_text(address, expected as nat, got as nat),
{
    let mut out = String::from_str("Short read at 0x");
    append_hex(&mut out, address);
    out.append(": expected ");
    append_decimal(&mut out, expected);
    out.append(", got ");
    append_decimal(&mut out, got);
    proof {
        assert(out@ =~= short_read_text(address, expected as nat, got as nat));
    }
    out
}

/// What a reader's report on a read of `expected` bytes at `address`
/// decides: the read stands when all bytes came, a short read fails, and
/// the reader's own error is passed on.
pub open spec fn read_checked(address: u32, expected: nat, read: Result<usize, WieError>, r: Result<(), WieError>) -> bool {
    match read {
        Err(e) => r == Err::<(), WieError>(e),
        Ok(n) => if n == expected {
            r is Ok
        } else {
            r matches Err(e) && is_short_read(e, address, expected, n as nat)
        },
    }
}

/// Decides on a reader's report `read` on a read of `expected` bytes at
/// `address`; see [`read_checked`].
pub fn check_read(address: u32, expected: usize, read: Result<usize, WieError>) -> (r: Result<(), WieError>)
    ensures
        read_checked(address, expected as nat, read, r),
{
    match read {
        Err(e) => Err(e),
        Ok(n) => if n == expected {
            Ok(())
        } else {
            Err(WieError::FatalError(short_read_message(address, expected, n)))
        },
    }
}

/// What one step of a loop that reads up to a terminator decides.
#[derive(Debug)]
pub enum ReadStep {
    /// Keep what was read and read on at this address.
    Continue(u32),
    /// The terminator was read.
    Done,
    /// The read fails with this error.
    Fail(WieError),
}

/// One step of reading a string: the reader's report `read` on the byte at
/// `cursor`, and the byte it gave.
pub open spec fn string_step(cursor: u32, read: Result<usize, WieError>, byte: u8, r: ReadStep) -> bool {
    match read {
        Err(e) => r == ReadStep::Fail(e),
        Ok(n) => if n != 1 {
            r matches ReadStep::Fail(e) && is_short_read(e, cursor, 1, n as nat)
        } else if byte == 0 {
            r == ReadStep::Done
        } else if cursor == u32::MAX {
            r == ReadStep::Fail(WieError::InvalidMemoryAccess(cursor))
        } else {
            r == ReadStep::Continue((cursor + 1) as u32)
        },
    }
}

/// Decides one step of reading a string; see [`string_step`].
pub fn string_read_step(cursor: u32, read: Result<usize, WieError>, byte: u8) -> (r: ReadStep)
    ensures
        string_step(cursor, read, byte, r),
{
    match read {
        Err(e) => ReadStep::Fail(e),
        Ok(n) => if n != 1 {
            ReadStep::Fail(WieError::FatalError(short_read_message(cursor, 1, n)))
        } else if byte == 0 {
            ReadStep::Done
        } else if cursor == u32::MAX {
            ReadStep::Fail(WieError::InvalidMemoryAccess(cursor))
        } else {
            ReadStep::Continue(cursor + 1)
        },
    }
}

/// One step of reading a table: the outcome `word` of reading the word at
/// `cursor`.
pub open spec fn table_step(cursor: u32, word: Result<u32, WieError>, r: ReadStep) -> bool {
    match word {
        Err(e) => r == ReadStep::Fail(e),
        Ok(v) => if v == 0 {
            r == ReadStep::Done
        } else if cursor > u32::MAX - 4 {
            r == ReadStep::Fail(WieError::InvalidMemoryAccess(cursor))
        } else {
            r == ReadStep::Continue((cursor + 4) as u32)
        },
    }
}

/// Decides one step of reading a table; see [`table_step`].
pub fn table_read_step(cursor: u32, word: Result<u32, WieError>) -> (r: ReadStep)
    ensures
        table_step(cursor, word, r),
{
    match word {
        Err(e) => ReadStep::Fail(e),
        Ok(v) => if v == 0 {
            ReadStep::Done
        } else if cursor > u32::MAX - 4 {
            ReadStep::Fail(WieError::InvalidMemoryAccess(cursor))
        } else {
            ReadStep::Continue(cursor + 4)
        },
    }
}

/// What reading the word at `address` gives: the null address is refused
/// without a read; else the reader's error is passed on, a short read
/// fails, and four bytes read give the word they encode.
pub open spec fn word_read<R: ?Sized + ByteRead>(reader: &R, address: u32, r: Result<u32, WieError>) -> bool {
    if address == 0 {
        r == Err::<u32, WieError>(WieError::InvalidMemoryAccess(0))
    } else {
        match reader.read_result(address as int, 4) {
            Err(e) => r == Err::<u32, WieError>(e),
            Ok(n) => if n != 4 {
                r matches Err(e) && is_short_read(e, address, 4, n as nat)
            } else {
                r matches Ok(v) && encodes_u32(v, bytes_at(reader, address as int, 4))
            },
        }
    }
}

/// `bytemuck::pod_read_unaligned::<u32>`: reinterprets four bytes as a `u32`
/// in the byte order of the machine. Which order that is, is not stated.
#[verifier::external_body]
fn u32_from_bytes(bytes: &[u8]) -> (value: u32)
    requires
        bytes@.len() == 4,
    ensures
        encodes_u32(value, bytes@),
{
    bytemuck::pod_read_unaligned::<u32>(bytes)
}

/// `bytemuck::bytes_of::<u32>`: the four bytes of `value` in the byte order
/// of the machine. Which order that is, is not stated.
#[verifier::external_body]
fn u32_to_bytes(value: &u32) -> (bytes: &[u8])
    ensures
        encodes_u32(*value, bytes@),
{
    bytemuck::bytes_of(value)
}

/// Reads one 32-bit word at `address`; see [`word_read`].
pub fn read_generic<R: ?Sized + ByteRead>(reader: &R, address: u32) -> (r: Result<u32, WieError>)
    ensures
        word_read(reader, address, r),
{
    if address == 0 {
        return Err(WieError::InvalidMemoryAccess(address));
    }
    let mut buffer = [0u8; 4];
    let read = reader.read_bytes(address, &mut buffer);
    match check_read(address, 4, read) {
        Err(e) => Err(e),
        Ok(()) => {
            let value = u32_from_bytes(&buffer);
            assert(buffer@ =~= bytes_at(reader, address as int, 4));
            Ok(value)
        },
    }
}

/// `before` is what the writes of `after` began with.
pub open spec fn log_extends(before: Seq<WriteRecord>, after: Seq<WriteRecord>) -> bool {
    before.len() <= after.len() && after.subrange(0, before.len() as int) == before
}

/// The writes of `after` that `before` did not have.
pub open spec fn new_writes(before: Seq<WriteRecord>, after: Seq<WriteRecord>) -> Seq<WriteRecord> {
    after.subrange(before.len() as int, after.len() as int)
}

/// The writes that writing the word `data` at `address` hands over: one
/// write of four bytes that encode it, whose report is `r`.
pub open spec fn word_write_log(log: Seq<WriteRecord>, address: u32, data: u32, r: Result<(), WieError>) -> bool {
    &&& log.len() == 1
    &&& log[0].0 == address
    &&& encodes_u32(data, log[0].1)
    &&& log[0].2 == r
}

/// Writes one 32-bit word at `address`, in the byte order of the machine.
/// The null address is refused without a write; else the writer gets one
/// write and its report is the result.
pub fn write_generic<W: ?Sized + ByteWrite>(writer: &mut W, address: u32, data: u32) -> (r: Result<
    (),
    WieError,
>)
    ensures
        address == 0 ==> r == Err::<(), WieError>(WieError::InvalidMemoryAccess(0)) && final(writer).writes()
            == old(writer).writes() && forall|a: int| #[trigger] final(writer).stored_byte(a) == old(
            writer).stored_byte(a),
        address != 0 ==> log_extends(old(writer).writes(), final(writer).writes()) && word_write_log(
            new_writes(old(writer).writes(), final(writer).writes()),
            address,
            data,
            r,
        ),
        r is Ok ==> address != 0 && word_written_at(old(writer), final(writer), address as int, data),
{
    if address == 0 {
        return Err(WieError::InvalidMemoryAccess(address));
    }
    let data_slice = u32_to_bytes(&data);
    let r = writer.write_bytes(address, data_slice);
    proof {
        assert(final(writer).writes().subrange(0, old(writer).writes().len() as int) =~= old(writer).writes());
        assert(new_writes(old(writer).writes(), final(writer).writes()) =~= seq![
            (address as int, data_slice@, r),
        ]);
        if r is Ok {
            assert(stored_bytes_at(final(writer), address as int, 4) == data_slice@);
        }
    }
    r
}

/// After a write, `data` is stored at `address` and nothing outside those
/// four bytes changed.
pub open spec fn word_written_at<W: ?Sized + ByteWrite>(before: &W, after: &W, address: int, data: u32) -> bool {
    &&& encodes_u32(data, stored_bytes_at(after, address, 4))
    &&& forall|a: int|
        !(address <= a < address + 4) ==> #[trigger] after.stored_byte(a) == before.stored_byte(a)
}

/// What reading the string at `address` gives once its first `k` bytes
/// were read: the reader's error is passed on, a short read fails, a zero
/// byte ends the string, and reading on past the last address fails.
pub open spec fn string_read_from<R: ?Sized + ByteRead>(
    reader: &R,
    address: u32,
    k: nat,
    r: Result<Vec<u8>, WieError>,
) -> bool
    decreases u32::MAX - (address + k),
{
    if address + k > u32::MAX {
        false
    } else {
        let cursor = (address + k) as u32;
        match reader.read_result(cursor as int, 1) {
            Err(e) => r == Err::<Vec<u8>, WieError>(e),
            Ok(n) => if n != 1 {
                r matches Err(e) && is_short_read(e, cursor, 1, n as nat)
            } else if reader.byte_at(cursor as int) == 0 {
                r matches Ok(v) && v@ == bytes_at(reader, address as int, k)
            } else if cursor == u32::MAX {
                r == Err::<Vec<u8>, WieError>(WieError::InvalidMemoryAccess(cursor))
            } else {
                string_read_from(reader, address, k + 1, r)
            },
        }
    }
}

/// Reads the bytes of a null-terminated string at `address`, without the
/// terminator, one byte at a time; see [`string_read_from`] and
/// [`string_step`].
pub fn read_null_terminated_string_bytes<R: ?Sized + ByteRead>(reader: &R, address: u32) -> (r: Result<
    Vec<u8>,
    WieError,
>)
    ensures
        address == 0 ==> r == Err::<Vec<u8>, WieError>(WieError::InvalidMemoryAccess(0)),
        address != 0 ==> string_read_from(reader, address, 0, r),
        r matches Ok(v) ==> address != 0 && null_terminated_at(reader, address as int, v@),
{
    if address == 0 {
        return Err(WieError::InvalidMemoryAccess(address));
    }
    let mut result: Vec<u8> = Vec::with_capacity(20);
    let mut cursor = address;
    let mut byte = [0u8; 1];
    loop
        invariant
            address != 0,
            cursor == address + result@.len(),
            forall|i: int|
                0 <= i < result@.len() ==> #[trigger] result@[i] != 0 && result@[i] == reader.byte_at(
                    address + i,
                ),
            forall|o: Result<Vec<u8>, WieError>|
                string_read_from(reader, address, 0, o) == string_read_from(reader, address, result@.len(), o),
        decreases u32::MAX - cursor,
    {
        let ghost k = result@.len();
        let read = reader.read_bytes(cursor, &mut byte);
        let ghost report = read;
        let value = byte[0];
        proof {
            if report == Ok::<usize, WieError>(1usize) {
                assert(value == reader.byte_at(cursor + 0));
            }
        }
        match string_read_step(cursor, read, value) {
            ReadStep::Fail(e) => {
                let r = Err(e);
                proof {
                    assert(string_read_from(reader, address, k, r));
                }
                return r;
            },
            ReadStep::Done => {
                let ghost v = result@;
                proof {
                    assert(v =~= bytes_at(reader, address as int, k));
                    assert(string_read_from(reader, address, k, Ok::<Vec<u8>, WieError>(result)));
                }
                return Ok(result);
            },
            ReadStep::Continue(next) => {
                proof {
                    assert forall|o: Result<Vec<u8>, WieError>|
                        string_read_from(reader, address, k, o) == string_read_from(reader, address, k + 1, o) by {}
                }
                result.push(value);
                cursor = next;
            },
        }
    }
}

/// The writes that writing a string of `bytes` at `address` hands over:
/// the bytes, then, if that write stood, a zero byte right after them; the
/// report of the last write is the result.
pub open spec fn string_write_log(log: Seq<WriteRecord>, address: u32, bytes: Seq<u8>, r: Result<(), WieError>) -> bool {
    &&& 1 <= log.len() <= 2
    &&& log[0].0 == address
    &&& log[0].1 == bytes
    &&& log.len() == 1 ==> log[0].2 is Err
    &&& log.len() == 2 ==> log[0].2 is Ok && log[1].0 == address + bytes.len() && log[1].1 == seq![0u8]
    &&& r == log.last().2
}

/// Writes `bytes` and a terminating zero byte at `address`; see
/// [`string_write_log`].
pub fn write_null_terminated_string_bytes<W: ?Sized + ByteWrite>(writer: &mut W, address: u32, bytes: &[u8]) -> (r:
    Result<(), WieError>)
    requires
        address != 0 ==> address + bytes@.len() <= u32::MAX,
    ensures
        address == 0 ==> r == Err::<(), WieError>(WieError::InvalidMemoryAccess(0)) && final(writer).writes()
            == old(writer).writes() && forall|a: int| #[trigger] final(writer).stored_byte(a) == old(
            writer).stored_byte(a),
        address != 0 ==> log_extends(old(writer).writes(), final(writer).writes()) && string_write_log(
            new_writes(old(writer).writes(), final(writer).writes()),
            address,
            bytes@,
            r,
        ),
        r is Ok ==> address != 0 && string_written_at(old(writer), final(writer), address as int, bytes@),
{
    if address == 0 {
        return Err(WieError::InvalidMemoryAccess(address));
    }
    let ghost start = writer.writes();
    let first = writer.write_bytes(address, bytes);
    match first {
        Err(e) => {
            proof {
                assert(writer.writes().subrange(0, start.len() as int) =~= start);
                assert(new_writes(start, writer.writes()) =~= seq![(address as int, bytes@, Err::<(), WieError>(e))]);
            }
            return Err(e);
        },
        Ok(()) => {},
    }
    let ghost middle: &W = &*writer;
    let ghost mid_log = writer.writes();
    assert(mid_log == start.push((address as int, bytes@, first)));
    let terminator = [0u8; 1];
    let end = address + bytes.len() as u32;
    let r = writer.write_bytes(end, &terminator);
    proof {
        assert(terminator@ =~= seq![0u8]);
        assert(final(writer).writes() == start.push((address as int, bytes@, first)).push(
            (end as int, seq![0u8], r),
        ));
        assert(final(writer).writes().subrange(0, start.len() as int) =~= start);
        assert(new_writes(start, final(writer).writes()) =~= seq![
            (address as int, bytes@, first),
            (end as int, seq![0u8], r),
        ]);
        if r is Ok {
            assert forall|i: int| 0 <= i < bytes@.len() implies #[trigger] final(writer).stored_byte(
                address + i,
            ) == bytes@[i] by {
                assert(middle.stored_byte(address + i) == bytes@[i]);
            }
            assert(final(writer).stored_byte(end + 0) == terminator@[0]);
        }
    }
    r
}

/// Four bytes of a word are zero exactly when the word is.
proof fn lemma_zero_word(v: u32, b: Seq<u8>)
    requires
        encodes_u32(v, b),
    ensures
        (v == 0) == (b == seq![0u8, 0u8, 0u8, 0u8]),
{
    if v == 0 {
        assert(b =~= seq![0u8, 0u8, 0u8, 0u8]);
    }
}

/// What reading the table at `base` gives once its first `k` words were
/// read: the reader's error is passed on, a short read fails, a zero word
/// ends the table, and reading on past the last address fails.
pub open spec fn table_read_from<R: ?Sized + ByteRead>(
    reader: &R,
    base: u32,
    k: nat,
    r: Result<Vec<u32>, WieError>,
) -> bool
    decreases u32::MAX - (base + 4 * k),
{
    if base + 4 * k > u32::MAX {
        false
    } else {
        let cursor = (base + 4 * k) as u32;
        match reader.read_result(cursor as int, 4) {
            Err(e) => r == Err::<Vec<u32>, WieError>(e),
            Ok(n) => if n != 4 {
                r matches Err(e) && is_short_read(e, cursor, 4, n as nat)
            } else if bytes_at(reader, cursor as int, 4) == seq![0u8, 0u8, 0u8, 0u8] {
                r matches Ok(v) && v@.len() == k
            } else if cursor > u32::MAX - 4 {
                r == Err::<Vec<u32>, WieError>(WieError::InvalidMemoryAccess(cursor))
            } else {
                table_read_from(reader, base, k + 1, r)
            },
        }
    }
}

/// Reads a table of 32-bit words at `base_address`, up to and without the
/// terminating zero word; see [`table_read_from`] and [`table_step`].
pub fn read_null_terminated_table<R: ?Sized + ByteRead>(reader: &R, base_address: u32) -> (r: Result<
    Vec<u32>,
    WieError,
>)
    ensures
        base_address == 0 ==> r == Err::<Vec<u32>, WieError>(WieError::InvalidMemoryAccess(0)),
        base_address != 0 ==> table_read_from(reader, base_address, 0, r),
        r matches Ok(v) ==> base_address != 0 && null_terminated_table_at(
            reader,
            base_address as int,
            v@,
        ),
{
    if base_address == 0 {
        return Err(WieError::InvalidMemoryAccess(base_address));
    }
    let mut cursor = base_address;
    let mut result: Vec<u32> = Vec::new();
    loop
        invariant
            base_address != 0,
            cursor == base_address + 4 * result@.len(),
            forall|k: int|
                0 <= k < result@.len() ==> #[trigger] result@[k] != 0 && encodes_u32(
                    result@[k],
                    table_word_at(reader, base_address as int, k),
                ),
            forall|o: Result<Vec<u32>, WieError>|
                table_read_from(reader, base_address, 0, o) == table_read_from(
                    reader,
                    base_address,
                    result@.len(),
                    o,
                ),
        decreases u32::MAX - cursor,
    {
        let ghost k = result@.len();
        let word = read_generic(reader, cursor);
        let item: u32 = match &word {
            Ok(v) => *v,
            Err(_) => 0,
        };
        proof {
            assert(table_word_at(reader, base_address as int, k as int) =~= bytes_at(reader, cursor as int, 4));
            if word is Ok {
                lemma_zero_word(item, bytes_at(reader, cursor as int, 4));
            }
        }
        match table_read_step(cursor, word) {
            ReadStep::Fail(e) => {
                let r = Err(e);
                proof {
                    assert(table_read_from(reader, base_address, k, r));
                }
                return r;
            },
            ReadStep::Done => {
                proof {
                    assert(table_read_from(reader, base_address, k, Ok::<Vec<u32>, WieError>(result)));
                    assert(table_word_at(reader, base_address as int, k as int) =~= seq![0u8, 0u8, 0u8, 0u8]);
                }
                return Ok(result);
            },
            ReadStep::Continue(next) => {
                proof {
                    assert forall|o: Result<Vec<u32>, WieError>|
                        table_read_from(reader, base_address, k, o) == table_read_from(
                            reader,
                            base_address,
                            k + 1,
                            o,
                        ) by {}
                }
                result.push(item);
                cursor = next;
            },
        }
    }
}

/// The writes that writing a table of `items` at `base` hands over: the
/// word at `base + 4 * i` for each item in order, then a zero word after
/// them, each only while the writes before it stood; the report of the
/// last write is the result.
pub open spec fn table_write_log(log: Seq<WriteRecord>, base: u32, items: Seq<u32>, r: Result<(), WieError>) -> bool {
    &&& 1 <= log.len() <= items.len() + 1
    &&& forall|i: int|
        0 <= i < log.len() ==> (#[trigger] log[i]).0 == base + 4 * i && encodes_u32(
            if i < items.len() {
                items[i]
            } else {
                0u32
            },
            log[i].1,
        )
    &&& forall|i: int| 0 <= i < log.len() - 1 ==> (#[trigger] log[i]).2 is Ok
    &&& log.len() < items.len() + 1 ==> log.last().2 is Err
    &&& r == log.last().2
}

/// Writes `items` and a terminating zero word at `base_address`; see
/// [`table_write_log`].
pub fn write_null_terminated_table<W: ?Sized + ByteWrite>(writer: &mut W, base_address: u32, items: &[u32]) -> (r:
    Result<(), WieError>)
    requires
        base_address != 0 ==> base_address + 4 * items@.len() <= u32::MAX,
    ensures
        base_address == 0 ==> r == Err::<(), WieError>(WieError::InvalidMemoryAccess(0)) && final(
            writer).writes() == old(writer).writes() && forall|a: int| #[trigger] final(writer).stored_byte(a)
            == old(writer).stored_byte(a),
        base_address != 0 ==> log_extends(old(writer).writes(), final(writer).writes()) && table_write_log(
            new_writes(old(writer).writes(), final(writer).writes()),
            base_address,
            items@,
            r,
        ),
        r is Ok ==> base_address != 0 && table_written_at(
            old(writer),
            final(writer),
            base_address as int,
            items@,
        ),
{
    if base_address == 0 {
        return Err(WieError::InvalidMemoryAccess(base_address));
    }
    let ghost start = writer.writes();
    assert(start.subrange(0, start.len() as int) =~= start);
    let mut cursor = base_address;
    let mut index: usize = 0;
    while index < items.len()
        invariant
            base_address != 0,
            base_address + 4 * items@.len() <= u32::MAX,
            0 <= index <= items@.len(),
            cursor == base_address + 4 * index,
            start == old(writer).writes(),
            log_extends(start, writer.writes()),
            new_writes(start, writer.writes()).len() == index,
            forall|i: int|
                0 <= i < index ==> (#[trigger] new_writes(start, writer.writes())[i]).0 == base_address + 4
                    * i && encodes_u32(items@[i], new_writes(start, writer.writes())[i].1) && new_writes(
                    start,
                    writer.writes(),
                )[i].2 is Ok,
            forall|k: int|
                0 <= k < index ==> #[trigger] encodes_u32(
                    items@[k],
                    stored_bytes_at(writer, base_address + 4 * k, 4),
                ),
            forall|a: int|
                !(base_address <= a < base_address + 4 * index) ==> #[trigger] writer.stored_byte(a)
                    == old(writer).stored_byte(a),
        decreases items@.len() - index,
    {
        let ghost before: &W = &*writer;
        let ghost before_log = writer.writes();
        let w = write_generic(writer, cursor, items[index]);
        proof {
            assert(writer.writes().subrange(0, before_log.len() as int) =~= before_log);
            assert(writer.writes() =~= before_log.push(writer.writes().last()));
            assert(writer.writes().subrange(0, start.len() as int) =~= start);
            assert(new_writes(start, writer.writes()) =~= new_writes(start, before_log).push(writer.writes().last()));
        }
        match w {
            Err(e) => {
                proof {
                    assert(new_writes(start, writer.writes()).last().2 == Err::<(), WieError>(e));
                }
                return Err(e);
            },
            Ok(()) => {},
        }
        proof {
            assert forall|k: int| 0 <= k < index + 1 implies #[trigger] encodes_u32(
                items@[k],
                stored_bytes_at(writer, base_address + 4 * k, 4),
            ) by {
                if k < index {
                    assert(stored_bytes_at(writer, base_address + 4 * k, 4) =~= stored_bytes_at(
                        before,
                        base_address + 4 * k,
                        4,
                    ));
                }
            }
        }
        cursor += 4;
        index += 1;
    }
    let ghost before: &W = &*writer;
    let ghost before_log = writer.writes();
    let r = write_generic(writer, cursor, 0u32);
    proof {
        assert(final(writer).writes().subrange(0, before_log.len() as int) =~= before_log);
        assert(final(writer).writes() =~= before_log.push(final(writer).writes().last()));
        assert(final(writer).writes().subrange(0, start.len() as int) =~= start);
        assert(new_writes(start, final(writer).writes()) =~= new_writes(start, before_log).push(
            final(writer).writes().last(),
        ));
        if r is Ok {
            assert forall|k: int| 0 <= k < items@.len() implies #[trigger] encodes_u32(
                items@[k],
                stored_bytes_at(final(writer), base_address + 4 * k, 4),
            ) by {
                assert(stored_bytes_at(final(writer), base_address + 4 * k, 4) =~= stored_bytes_at(
                    before,
                    base_address + 4 * k,
                    4,
                ));
            }
            let w = stored_bytes_at(final(writer), cursor as int, 4);
            assert(w =~= seq![0u8, 0u8, 0u8, 0u8]);
        }
    }
    r
}

/// `bytes` followed by a zero byte are stored at `address`, and every byte
/// outside that span is as it was.
pub open spec fn string_written_at<W: ?Sized + ByteWrite>(before: &W, after: &W, address: int, bytes: Seq<u8>) -> bool {
    &&& forall|i: int| 0 <= i < bytes.len() ==> #[trigger] after.stored_byte(address + i) == bytes[i]
    &&& after.stored_byte(address + bytes.len()) == 0
    &&& forall|a: int|
        !(address <= a <= address + bytes.len()) ==> #[trigger] after.stored_byte(a) == before.stored_byte(a)
}

/// `items` followed by a zero word are stored from `base` on, and every byte
/// outside that span is as it was.
pub open spec fn table_written_at<W: ?Sized + ByteWrite>(before: &W, after: &W, base: int, items: Seq<u32>) -> bool {
    &&& forall|k: int|
        0 <= k < items.len() ==> #[trigger] encodes_u32(
            items[k],
            stored_bytes_at(after, base + 4 * k, 4),
        )
    &&& stored_bytes_at(after, base + 4 * items.len(), 4) == seq![0u8, 0u8, 0u8, 0u8]
    &&& forall|a: int|
        !(base <= a < base + 4 * items.len() + 4) ==> #[trigger] after.stored_byte(a)
            == before.stored_byte(a)
}

/// A memory whose reads see what its writes stored.
pub open spec fn reads_what_is_stored<M: ?Sized + ByteRead + ByteWrite>(memory: &M) -> bool {
    forall|a: int| #[trigger] memory.byte_at(a) == memory.stored_byte(a)
}

/// The string at an address is unique: two null-terminated strings read at
/// the same address are equal.
pub proof fn lemma_null_terminated_unique<R: ?Sized + ByteRead>(reader: &R, address: int, s: Seq<u8>, t: Seq<u8>)
    requires
        null_terminated_at(reader, address, s),
        null_terminated_at(reader, address, t),
    ensures
        s == t,
{
    if s.len() < t.len() {
        assert(t[s.len() as int] != 0);
    } else if t.len() < s.len() {
        assert(s[t.len() as int] != 0);
    }
    assert(s =~= t);
}

/// Reading a string back: once a string of non-zero bytes has been written
/// at `address`, that string is the null-terminated string held there, and
/// any successful read at `address` gives exactly those bytes.
pub proof fn lemma_written_string_reads_back<M: ?Sized + ByteRead + ByteWrite>(
    before: &M,
    after: &M,
    address: int,
    bytes: Seq<u8>,
    read: Seq<u8>,
)
    requires
        reads_what_is_stored(after),
        string_written_at(before, after, address, bytes),
        forall|i: int| 0 <= i < bytes.len() ==> #[trigger] bytes[i] != 0,
        null_terminated_at(after, address, read),
    ensures
        null_terminated_at(after, address, bytes),
        read == bytes,
{
    assert forall|i: int| 0 <= i < bytes.len() implies #[trigger] bytes[i] != 0 && bytes[i]
        == after.byte_at(address + i) by {
        assert(after.stored_byte(address + i) == bytes[i]);
    }
    assert(after.byte_at(address + bytes.len()) == after.stored_byte(address + bytes.len()));
    lemma_null_terminated_unique(after, address, bytes, read);
}

/// Reading a table back: once a table of non-zero words has been written at
/// `base`, a successful read at `base` gives as many words, each held in
/// the very bytes that the written word was stored in.
pub proof fn lemma_written_table_reads_back<M: ?Sized + ByteRead + ByteWrite>(
    before: &M,
    after: &M,
    base: int,
    items: Seq<u32>,
    read: Seq<u32>,
)
    requires
        reads_what_is_stored(after),
        table_written_at(before, after, base, items),
        forall|k: int| 0 <= k < items.len() ==> #[trigger] items[k] != 0,
        null_terminated_table_at(after, base, read),
    ensures
        read.len() == items.len(),
        forall|k: int|
            0 <= k < read.len() ==> encodes_u32(#[trigger] read[k], stored_bytes_at(after, base + 4 * k, 4))
                && encodes_u32(items[k], stored_bytes_at(after, base + 4 * k, 4)),
{
    assert forall|k: int| 0 <= k <= items.len() implies #[trigger] table_word_at(after, base, k)
        == stored_bytes_at(after, base + 4 * k, 4) by {
        assert(table_word_at(after, base, k) =~= stored_bytes_at(after, base + 4 * k, 4));
    }
    if read.len() < items.len() {
        let k = read.len() as int;
        assert(encodes_u32(items[k], stored_bytes_at(after, base + 4 * k, 4)));
        assert(table_word_at(after, base, k) == seq![0u8, 0u8, 0u8, 0u8]);
    } else if read.len() > items.len() {
        let k = items.len() as int;
        assert(encodes_u32(read[k], table_word_at(after, base, k)));
        assert(table_word_at(after, base, k) == seq![0u8, 0u8, 0u8, 0u8]);
    }
    assert forall|k: int| 0 <= k < read.len() implies encodes_u32(
        #[trigger] read[k],
        stored_bytes_at(after, base + 4 * k, 4),
    ) && encodes_u32(items[k], stored_bytes_at(after, base + 4 * k, 4)) by {
        assert(encodes_u32(read[k], table_word_at(after, base, k)));
    }
}

} // verus!
