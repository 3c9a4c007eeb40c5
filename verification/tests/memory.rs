use wie::memory::{
    check_read, read_generic, read_null_terminated_string_bytes, read_null_terminated_table, string_read_step,
    table_read_step, write_generic, write_null_terminated_string_bytes, write_null_terminated_table, ByteRead,
    ByteWrite, ReadStep, WieError,
};

struct StrictMemory {
    memory: Vec<u8>,
}

impl ByteRead for StrictMemory {
    fn read_bytes(&self, address: u32, result: &mut [u8]) -> Result<usize, WieError> {
        let address = address as usize;
        let end = address + result.len();
        if end > self.memory.len() {
            return Err(WieError::InvalidMemoryAccess(address as u32));
        }

        result.copy_from_slice(&self.memory[address..end]);

        Ok(result.len())
    }
}

impl ByteWrite for StrictMemory {
    fn write_bytes(&mut self, address: u32, data: &[u8]) -> Result<(), WieError> {
        let address = address as usize;
        let end = address + data.len();
        if end > self.memory.len() {
            return Err(WieError::InvalidMemoryAccess(address as u32));
        }

        self.memory[address..end].copy_from_slice(data);

        Ok(())
    }
}

#[test]
fn read_generic_reads_into_initialized_storage() {
    let memory = StrictMemory {
        memory: vec![0, 0x78, 0x56, 0x34, 0x12],
    };

    let value: u32 = read_generic(&memory, 1).unwrap();

    assert_eq!(value, 0x1234_5678);
}

#[test]
fn read_null_terminated_string_handles_four_byte_boundaries() {
    let memory = StrictMemory {
        memory: vec![0, b't', b'e', b's', b't', 0],
    };

    let value = read_null_terminated_string_bytes(&memory, 1).unwrap();

    assert_eq!(value, b"test");
}

#[test]
fn null_address_is_an_invalid_access() {
    let mut memory = StrictMemory { memory: vec![0; 16] };
    assert!(matches!(read_generic(&memory, 0), Err(WieError::InvalidMemoryAccess(0))));
    assert!(matches!(read_null_terminated_string_bytes(&memory, 0), Err(WieError::InvalidMemoryAccess(0))));
    assert!(matches!(read_null_terminated_table(&memory, 0), Err(WieError::InvalidMemoryAccess(0))));
    assert!(matches!(write_generic(&mut memory, 0, 7), Err(WieError::InvalidMemoryAccess(0))));
    assert!(matches!(
        write_null_terminated_string_bytes(&mut memory, 0, b"x"),
        Err(WieError::InvalidMemoryAccess(0))
    ));
    assert!(matches!(
        write_null_terminated_table(&mut memory, 0, &[1]),
        Err(WieError::InvalidMemoryAccess(0))
    ));
    assert_eq!(memory.memory, vec![0; 16]);
}

#[test]
fn written_string_reads_back() {
    let mut memory = StrictMemory { memory: vec![0xff; 12] };
    write_null_terminated_string_bytes(&mut memory, 2, b"hello").unwrap();
    assert_eq!(memory.memory, vec![0xff, 0xff, b'h', b'e', b'l', b'l', b'o', 0, 0xff, 0xff, 0xff, 0xff]);
    assert_eq!(read_null_terminated_string_bytes(&memory, 2).unwrap(), b"hello");
    assert_eq!(read_null_terminated_string_bytes(&memory, 4).unwrap(), b"llo");
}

#[test]
fn unterminated_string_reports_the_reader_error() {
    let memory = StrictMemory { memory: vec![0, b'a', b'b'] };
    assert!(matches!(read_null_terminated_string_bytes(&memory, 1), Err(WieError::InvalidMemoryAccess(3))));
}

#[test]
fn written_table_reads_back() {
    let mut memory = StrictMemory { memory: vec![0xaa; 20] };
    write_null_terminated_table(&mut memory, 4, &[1, 0x0102_0304]).unwrap();
    assert_eq!(&memory.memory[0..4], &[0xaa; 4]);
    assert_eq!(&memory.memory[12..16], &[0, 0, 0, 0]);
    assert_eq!(&memory.memory[16..20], &[0xaa; 4]);
    assert_eq!(read_null_terminated_table(&memory, 4).unwrap(), vec![1, 0x0102_0304]);
    assert_eq!(read_null_terminated_table(&memory, 12).unwrap(), Vec::<u32>::new());
}

#[test]
fn write_generic_stores_a_word_that_reads_back() {
    let mut memory = StrictMemory { memory: vec![0; 8] };
    write_generic(&mut memory, 2, 0xdead_beef).unwrap();
    assert_eq!(read_generic(&memory, 2).unwrap(), 0xdead_beef);
    assert_eq!(memory.memory[0], 0);
    assert_eq!(memory.memory[6], 0);
}

#[test]
fn short_reads_are_fatal() {
    struct ShortReader;
    impl ByteRead for ShortReader {
        fn read_bytes(&self, _address: u32, _result: &mut [u8]) -> Result<usize, WieError> {
            Ok(0)
        }
    }
    assert!(matches!(read_generic(&ShortReader, 4), Err(WieError::FatalError(_))));
    assert!(matches!(read_null_terminated_string_bytes(&ShortReader, 4), Err(WieError::FatalError(_))));
}

fn shown(error: &WieError) -> String {
    error.message().into_iter().collect()
}

#[test]
fn errors_are_shown_with_their_numbers() {
    assert_eq!(shown(&WieError::InvalidMemoryAccess(1234)), "Invalid memory access; address: 1234");
    assert_eq!(shown(&WieError::InvalidMemoryAccess(0)), "Invalid memory access; address: 0");
    assert_eq!(shown(&WieError::AllocationFailure), "Allocation failure");
    assert_eq!(shown(&WieError::JavaException(0xdead_beef)), format!("Java exception: {:#x}", 0xdead_beefu32));
    assert_eq!(shown(&WieError::JavaException(0)), "Java exception: 0x0");
    assert_eq!(
        shown(&WieError::JavaExceptionUnwind { context_base: 0x10, target: 0xff, next_pc: u32::MAX }),
        "Java exception unwind: context_base=0x10, target=0xff, next_pc=0xffffffff"
    );
    assert_eq!(shown(&WieError::Unimplemented("opcode".to_string())), "Unimplemented: opcode");
    assert_eq!(shown(&WieError::FatalError("boom".to_string())), "Fatal error: boom");
    assert_eq!(shown(&WieError::InvalidMemoryAccess(u32::MAX)), format!("Invalid memory access; address: {}", u32::MAX));
}

/// Reads at most `limit` bytes at a time and records every write; writes
/// fail from the `fail_from`-th one on.
struct RecordingMemory {
    memory: Vec<u8>,
    limit: usize,
    writes: Vec<(u32, Vec<u8>)>,
    fail_from: usize,
}

impl ByteRead for RecordingMemory {
    fn read_bytes(&self, address: u32, result: &mut [u8]) -> Result<usize, WieError> {
        let address = address as usize;
        if address >= self.memory.len() {
            return Err(WieError::AllocationFailure);
        }
        let n = result.len().min(self.limit).min(self.memory.len() - address);
        result[..n].copy_from_slice(&self.memory[address..address + n]);
        Ok(n)
    }
}

impl ByteWrite for RecordingMemory {
    fn write_bytes(&mut self, address: u32, data: &[u8]) -> Result<(), WieError> {
        self.writes.push((address, data.to_vec()));
        if self.writes.len() > self.fail_from {
            return Err(WieError::JavaException(self.writes.len() as u32));
        }
        let address = address as usize;
        self.memory[address..address + data.len()].copy_from_slice(data);
        Ok(())
    }
}

fn recording(memory: Vec<u8>, limit: usize, fail_from: usize) -> RecordingMemory {
    RecordingMemory { memory, limit, writes: Vec::new(), fail_from }
}

fn fatal(error: WieError) -> String {
    match error {
        WieError::FatalError(message) => message,
        other => panic!("expected a fatal error, got {other:?}"),
    }
}

#[test]
fn short_reads_fail_with_their_numbers_and_reader_errors_pass_on() {
    let memory = recording(vec![0, 1, 2, 3, 4, 0, 0, 0, 0], 2, usize::MAX);
    assert_eq!(fatal(read_generic(&memory, 1).unwrap_err()), "Short read at 0x1: expected 4, got 2");
    assert_eq!(fatal(read_null_terminated_table(&memory, 0x1).unwrap_err()), "Short read at 0x1: expected 4, got 2");
    let short_string = recording(vec![0, 7, 7], 1, usize::MAX);
    // the string runs off the end: the reader's own error comes back unchanged
    assert!(matches!(read_null_terminated_string_bytes(&short_string, 1), Err(WieError::AllocationFailure)));
    let empty = recording(vec![0, 9], 0, usize::MAX);
    assert_eq!(fatal(read_null_terminated_string_bytes(&empty, 1).unwrap_err()), "Short read at 0x1: expected 1, got 0");
    assert!(matches!(read_generic(&empty, 40), Err(WieError::AllocationFailure)));
}

#[test]
fn read_steps_decide_on_the_readers_report() {
    assert!(matches!(check_read(16, 4, Ok(4)), Ok(())));
    assert_eq!(fatal(check_read(0xff, 4, Ok(3)).unwrap_err()), "Short read at 0xff: expected 4, got 3");
    assert!(matches!(check_read(16, 4, Err(WieError::AllocationFailure)), Err(WieError::AllocationFailure)));
    assert!(matches!(string_read_step(10, Ok(1), b'a'), ReadStep::Continue(11)));
    assert!(matches!(string_read_step(10, Ok(1), 0), ReadStep::Done));
    assert!(matches!(string_read_step(u32::MAX, Ok(1), 1), ReadStep::Fail(WieError::InvalidMemoryAccess(u32::MAX))));
    assert!(matches!(string_read_step(10, Err(WieError::JavaException(3)), 1), ReadStep::Fail(WieError::JavaException(3))));
    match string_read_step(0x10, Ok(0), 1) {
        ReadStep::Fail(error) => assert_eq!(fatal(error), "Short read at 0x10: expected 1, got 0"),
        _ => panic!("a short read fails"),
    }
    assert!(matches!(table_read_step(8, Ok(5)), ReadStep::Continue(12)));
    assert!(matches!(table_read_step(8, Ok(0)), ReadStep::Done));
    assert!(matches!(table_read_step(u32::MAX - 3, Ok(5)), ReadStep::Fail(WieError::InvalidMemoryAccess(_))));
    assert!(matches!(table_read_step(8, Err(WieError::AllocationFailure)), ReadStep::Fail(WieError::AllocationFailure)));
}

#[test]
fn writes_are_handed_over_in_order_and_stop_at_the_first_failure() {
    let mut memory = recording(vec![0xff; 32], 4, usize::MAX);
    write_null_terminated_table(&mut memory, 4, &[1, 2]).unwrap();
    let addresses: Vec<u32> = memory.writes.iter().map(|w| w.0).collect();
    assert_eq!(addresses, [4, 8, 12]);
    assert_eq!(memory.writes[2].1, vec![0, 0, 0, 0]);
    assert_eq!(memory.writes[1].1, 2u32.to_ne_bytes());

    let mut failing = recording(vec![0xff; 32], 4, 1);
    assert!(matches!(write_null_terminated_table(&mut failing, 4, &[1, 2, 3]), Err(WieError::JavaException(2))));
    assert_eq!(failing.writes.len(), 2, "no write after the failing one");

    let mut string = recording(vec![0xff; 16], 4, usize::MAX);
    write_null_terminated_string_bytes(&mut string, 2, b"ab").unwrap();
    assert_eq!(string.writes, vec![(2, b"ab".to_vec()), (4, vec![0])]);
    let mut refused = recording(vec![0xff; 16], 4, 0);
    assert!(matches!(write_null_terminated_string_bytes(&mut refused, 2, b"ab"), Err(WieError::JavaException(1))));
    assert_eq!(refused.writes.len(), 1);
}
