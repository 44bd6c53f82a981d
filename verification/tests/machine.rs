use arsm::fault::Fault;
use arsm::iter::BufIter;
use arsm::mem::Memory;
use arsm::registry::{Position as RegPosition, Register};
use arsm::status::Status;
use arsm::traits::Pos;
use arsm::utils::{
    clone_into_array, join_slices, read_from_mem_16, read_from_mem_32, read_from_mem_8,
    write_to_mem_16, write_to_mem_32, write_to_mem_8,
};

#[test]
fn mem_test_stack() {
    let mut env = Memory::init(1024, 5);
    env.s_push::<u8>(13).unwrap();
    env.s_push::<i32>(128935).unwrap();

    assert_eq!(env.s_pop_32(), Some(128935));

    env.s_push::<i16>(345).unwrap();
    env.s_push::<u8>(68).unwrap();
    env.s_push::<u8>(31).unwrap();

    assert_eq!(env.s_pop_8(), Some(31));
    assert_eq!(env.s_pop_8(), Some(68));
    assert_eq!(env.s_pop_16(), Some(345));
    assert_eq!(env.s_pop_8(), Some(13));
}

#[test]
fn mem_test_registry() {
    let mut env = Memory::init(1024, 10);
    env.r_write(&'e', 276);
    env.r_write(&('a', 'b'), 128935);
    env.r_write(&('c', Pos::Upper), 7);

    assert_eq!(env.r_read(&('a', 'b')), 128935);
    assert_eq!(env.r_read(&('c', Pos::Upper)), 7);
    assert_eq!(env.r_read(&'e'), 276);
}

#[test]
fn mem_test_memory() {
    let mut env = Memory::init(1024, 0);
    env.m_write::<u8>(0, 15).unwrap();
    env.m_write::<i16>(5, 1056).unwrap();
    env.m_write::<u8>(3, 18).unwrap();
    env.m_write::<i32>(100, -65412).unwrap();

    assert_eq!(env.m_read::<i16>(5).unwrap(), 1056);
    assert_eq!(env.m_read::<i32>(100).unwrap(), -65412);
    assert_eq!(env.m_read::<u8>(0).unwrap(), 15);
    assert_eq!(env.m_read::<u8>(3).unwrap(), 18);
}

#[test]
fn mem_test_together() {
    let mut env = Memory::init(1024, 5);
    env.s_push::<u8>(13).unwrap();
    env.r_write(&'e', 1342);
    assert_eq!(env.s_pop_8(), Some(13));
    assert_eq!(env.r_read(&'e'), 1342);
}

#[test]
fn test_registry() {
    let mut env = Memory::init(1024, 10);
    env.r_write(&'e', 276);
    env.r_write(&('a', 'b'), 128935);
    env.r_write(&('c', Pos::Upper), 7);

    assert_eq!(env.r_read(&('a', 'b')), 128935);
    assert_eq!(env.r_read(&('c', Pos::Upper)), 7);
    assert_eq!(env.r_read(&'e'), 276);
}

#[test]
fn test_memory() {
    let mut env = Memory::init(1024, 0);
    env.m_write::<u8>(0, 15).unwrap();
    env.m_write::<i16>(5, 1056).unwrap();
    env.m_write::<u8>(3, 18).unwrap();
    env.m_write::<i32>(100, -65412).unwrap();

    assert_eq!(env.m_read::<i16>(5).unwrap(), 1056);
    assert_eq!(env.m_read::<i32>(100).unwrap(), -65412);
    assert_eq!(env.m_read::<u8>(0).unwrap(), 15);
    assert_eq!(env.m_read::<u8>(3).unwrap(), 18);
}

#[test]
fn test_stack() {
    let mut env = Memory::init(1024, 5);
    env.s_push::<u8>(13).unwrap();
    env.s_push::<i32>(128935).unwrap();

    assert_eq!(env.s_pop_32(), Some(128935));

    env.s_push::<i16>(345).unwrap();
    env.s_push::<u8>(68).unwrap();
    env.s_push::<u8>(31).unwrap();

    assert_eq!(env.s_pop_8(), Some(31));
    assert_eq!(env.s_pop_8(), Some(68));
    assert_eq!(env.s_pop_16(), Some(345));
    assert_eq!(env.s_pop_8(), Some(13));
}

#[test]
fn test_together() {
    let mut env = Memory::init(1024, 5);
    env.s_push::<u8>(13).unwrap();
    env.r_write(&'e', 1342);
    assert_eq!(env.s_pop_8(), Some(13));
    assert_eq!(env.r_read(&'e'), 1342);
}

#[test]
fn test_flags() {
    let mut env = Memory::init(20, 0);
    env.flag_write_cmp();

    assert!(env.flag_read_cmp());
    env.flag_reset_cmp();
    assert!(!env.flag_read_cmp());
}

#[test]
fn test_modifications() {
    let mut mem = Register::init();

    mem.write_8('e', RegPosition::Lower, 13);
    mem.write_8('e', RegPosition::Upper, 56);
    mem.write_16('a', 1034);
    mem.write_32('c', 'd', 34000);

    assert_eq!(mem.read_16('a'), 1034);
    assert_eq!(mem.read_16('b'), 0);
    assert_eq!(mem.read_32('c', 'd'), 34000);
    assert_eq!(mem.read_8('e', RegPosition::Lower), 13);
    assert_eq!(mem.read_8('e', RegPosition::Upper), 56);

    assert_eq!(mem.buf.len(), 10);
}

#[test]
fn test_read_write() {
    let mut mem = vec![0u8; 16];

    write_to_mem_8(&mut mem, 0, 56);
    write_to_mem_16(&mut mem, 2, 467);
    write_to_mem_32(&mut mem, 5, 567_735);

    assert_eq!(read_from_mem_32(&mem, 5), 567_735);
    assert_eq!(read_from_mem_8(&mem, 0), 56);
    assert_eq!(read_from_mem_16(&mem, 2), 467);
    assert_eq!(read_from_mem_8(&mem, 4), 0);
}

#[test]
fn test_read() {
    let v = vec![1, 2, 3, 5, 3, 9, 6];
    let mut iter = BufIter::new(v.as_slice());

    assert_eq!(iter.next(), Some(1));
    assert_eq!(iter.next(), Some(2));
    iter.next();
    assert_eq!(iter.next(), Some(5))
}

#[test]
fn iter_test_empty() {
    let mut iter: BufIter<u8> = BufIter::new(&[]);
    assert!(iter.next().is_none());
}

#[test]
fn register_16_roundtrip_negative() {
    let mut env = Memory::init(64, 0);
    env.r_write(&'b', -1234);
    assert_eq!(env.r_read(&'b'), -1234);
}

#[test]
fn register_pair_halves() {
    let mut env = Memory::init(64, 0);
    // 0x0102_0304: the first identity holds the low half.
    env.r_write(&('c', 'd'), 0x0102_0304);
    assert_eq!(env.r_read(&('c', 'd')), 0x0102_0304);
    assert_eq!(env.r_read(&'c'), 0x0304);
    assert_eq!(env.r_read(&'d'), 0x0102);
}

#[test]
fn register_byte_halves_independent() {
    let mut env = Memory::init(64, 0);
    env.r_write(&('a', Pos::Lower), 0xAB);
    env.r_write(&('a', Pos::Upper), 0x10);
    assert_eq!(env.r_read(&('a', Pos::Lower)), 0xAB);
    assert_eq!(env.r_read(&('a', Pos::Upper)), 0x10);
    assert_eq!(env.r_read(&'a'), 0x10AB);
}

#[test]
fn memory_overlapping_writes_touch_only_their_range() {
    let mut env = Memory::init(1024, 0);
    env.m_write::<i32>(0, -1).unwrap();
    env.m_write::<u8>(1, 0).unwrap();
    // Bytes are now ff 00 ff ff, little-endian.
    assert_eq!(env.m_read::<i32>(0).unwrap(), -65281);
    assert_eq!(env.m_read::<u8>(0).unwrap(), 0xff);
    assert_eq!(env.m_read::<u8>(1).unwrap(), 0);
}

#[test]
fn memory_out_of_bounds_read_fails() {
    let env = Memory::init(64, 0);
    // The general region holds 44 bytes; a 4-byte read at 41 runs over.
    assert_eq!(env.m_read::<i32>(41), Err(Fault::OutOfBounds));
    assert!(env.m_read::<i32>(40).is_ok());
}

#[test]
fn stack_overflow_and_underflow_are_reported() {
    let mut env = Memory::init(1024, 2);
    assert_eq!(env.s_push::<i32>(5), Err(Fault::StackOverflow));
    assert_eq!(env.s_push::<i16>(5), Ok(()));
    assert_eq!(env.s_pop_32(), None);
    assert_eq!(env.s_pop_16(), Some(5));
    assert_eq!(env.s_pop_8(), None);
}

#[test]
fn resize_stack_grows_and_clamps() {
    let mut env = Memory::init(64, 4);
    env.s_push::<i32>(7).unwrap();
    env.resize_stack(2).unwrap();
    // Depth was clamped to the new capacity; a 4-byte pop no longer fits.
    assert_eq!(env.s_pop_32(), None);
    env.resize_stack(44).unwrap();
    assert!(env.resize_stack(45).is_err());
    assert_eq!(env.memory_len(), 0);
}

#[test]
fn read_and_write_ranges() {
    let mut env = Memory::init(64, 0);
    env.write_range(30, &[1, 2, 3]).unwrap();
    assert_eq!(env.read_range(30, 33), vec![1, 2, 3]);
    assert!(env.write_range(62, &[1, 2, 3]).is_err());
}

#[test]
fn clear_zeroes_everything() {
    let mut env = Memory::init(64, 0);
    env.m_write::<i32>(0, 77).unwrap();
    env.clear();
    assert_eq!(env.m_read::<i32>(0).unwrap(), 0);
}

#[test]
fn status_carries_jump_and_value() {
    let s = Status::of_jmp(true);
    assert!(s.has_jmp());
    assert_eq!(s.get_val(), 0);
    let v = Status::of_val(42);
    assert!(!v.has_jmp());
    assert_eq!(v.get_val(), 42);
    let b = Status::of_jmp_val(true, 7);
    assert!(b.has_jmp());
    assert_eq!(b.get_val(), 7);
}

#[test]
fn clone_into_array_copies_the_slice() {
    let a: [u8; 4] = clone_into_array(&[9, 8, 7, 6]);
    assert_eq!(a, [9, 8, 7, 6]);
    let b: [i32; 2] = clone_into_array(&[-1, 5]);
    assert_eq!(b, [-1, 5]);
}

#[test]
fn join_slices_concatenates_pairs() {
    let left = [10u8, 20u8, 99u8];
    let right = [30u8, 40u8];
    assert_eq!(join_slices(&left, &right), [10, 20, 30, 40]);
}
