use rtrb::{ChunkError, PopError, PushError, RingBuffer, WriteChunk};

#[test]
fn commit_of_nothing_changes_nothing() {
    let (mut p, mut c) = RingBuffer::<u32>::new(3).split();
    assert_eq!(p.push(1), Ok(()));
    if let Ok(chunk) = p.write_chunk_maybe_uninit(2) {
        assert_eq!(chunk.len(), 2);
        chunk.commit(0);
    } else {
        unreachable!();
    }
    assert_eq!(p.slots(), 2);
    assert_eq!(c.slots(), 1);
    assert_eq!(c.pop(), Ok(1));
    assert_eq!(c.pop(), Err(PopError::Empty));
}

#[test]
fn uncommitted_write_chunk_publishes_nothing() {
    let (mut p, mut c) = RingBuffer::new(3).split();
    if let Ok(mut chunk) = p.write_chunk(3) {
        let (first, second) = chunk.as_mut_slices();
        assert_eq!(first.len(), 3);
        assert_eq!(second.len(), 0);
        first[0] = 1;
        first[1] = 2;
        first[2] = 3;
    } else {
        unreachable!();
    }
    assert_eq!(p.slots(), 3);
    assert_eq!(c.slots(), 0);
    assert_eq!(c.pop(), Err(PopError::Empty));
    assert_eq!(p.push(9), Ok(()));
    assert_eq!(c.pop(), Ok(9));
}

#[test]
fn uncommitted_read_chunk_keeps_the_elements() {
    let (mut p, mut c) = RingBuffer::new(3).split();
    assert_eq!(p.push(1), Ok(()));
    assert_eq!(p.push(2), Ok(()));
    if let Ok(chunk) = c.read_chunk(2) {
        let (first, second) = chunk.as_slices();
        assert_eq!(first, &[1, 2]);
        assert_eq!(second, &[]);
    } else {
        unreachable!();
    }
    assert_eq!(c.slots(), 2);
    assert_eq!(p.slots(), 1);
    if let Ok(chunk) = c.read_chunk(2) {
        let (first, second) = chunk.as_slices();
        assert_eq!(first, &[1, 2]);
        assert_eq!(second, &[]);
    } else {
        unreachable!();
    }
    assert_eq!(c.pop(), Ok(1));
    assert_eq!(c.pop(), Ok(2));
    assert_eq!(c.pop(), Err(PopError::Empty));
}

#[test]
fn write_chunk_starts_with_default_values() {
    let (mut p, mut c) = RingBuffer::<i32>::new(4).split();
    if let Ok(mut chunk) = p.write_chunk(3) {
        assert!(!chunk.is_empty());
        assert_eq!(chunk.len(), 3);
        let (first, second) = chunk.as_mut_slices();
        assert_eq!(first, &[0, 0, 0]);
        assert_eq!(second, &[]);
        first[1] = 5;
        chunk.commit_all();
    } else {
        unreachable!();
    }
    assert_eq!(c.pop(), Ok(0));
    assert_eq!(c.pop(), Ok(5));
    assert_eq!(c.pop(), Ok(0));
    assert_eq!(c.pop(), Err(PopError::Empty));
}

#[test]
fn filled_chunk_forgets_what_was_written_before() {
    let (mut p, mut c) = RingBuffer::<i32>::new(2).split();
    if let Ok(mut vacant) = p.write_chunk_maybe_uninit(2) {
        let (first, _) = vacant.as_mut_slices();
        first[0] = Some(7);
        let mut chunk = WriteChunk::from(vacant);
        let (first, second) = chunk.as_mut_slices();
        assert_eq!(first, &[0, 0]);
        assert_eq!(second, &[]);
        chunk.commit(1);
    } else {
        unreachable!();
    }
    assert_eq!(c.pop(), Ok(0));
    assert_eq!(c.pop(), Err(PopError::Empty));
}

#[test]
fn commit_publishes_a_prefix() {
    let (mut p, mut c) = RingBuffer::new(4).split();
    if let Ok(mut chunk) = p.write_chunk_maybe_uninit(4) {
        let (first, second) = chunk.as_mut_slices();
        assert_eq!(first.len(), 4);
        assert_eq!(second.len(), 0);
        first[0] = Some('a');
        first[1] = Some('b');
        first[2] = Some('c');
        chunk.commit(2);
    } else {
        unreachable!();
    }
    assert_eq!(p.slots(), 2);
    assert_eq!(c.slots(), 2);
    assert_eq!(c.pop(), Ok('a'));
    assert_eq!(c.pop(), Ok('b'));
    assert_eq!(c.pop(), Err(PopError::Empty));
}

#[test]
fn write_chunk_hands_out_its_slots_in_order() {
    let (mut p, mut c) = RingBuffer::new(3).split();
    assert_eq!(p.push(0), Ok(()));
    assert_eq!(p.push(0), Ok(()));
    assert_eq!(c.pop(), Ok(0));
    assert_eq!(c.pop(), Ok(0));
    if let Ok(mut chunk) = p.write_chunk(3) {
        let mut value = 10;
        let mut handed = 0;
        while handed < 2 {
            if let Some(slot) = chunk.next() {
                *slot = value;
                value += 10;
            }
            handed += 1;
        }
        chunk.commit_iterated();
    } else {
        unreachable!();
    }
    assert_eq!(c.slots(), 2);
    assert_eq!(c.pop(), Ok(10));
    assert_eq!(c.pop(), Ok(20));
    assert_eq!(c.pop(), Err(PopError::Empty));
}

#[test]
fn vacant_chunk_hands_out_its_slots_in_order() {
    let (mut p, mut c) = RingBuffer::new(2).split();
    if let Ok(mut chunk) = p.write_chunk_maybe_uninit(2) {
        let mut count = 0;
        while let Some(slot) = chunk.next() {
            assert!(slot.is_none());
            *slot = Some(format!("element {}", count));
            count += 1;
        }
        assert_eq!(count, 2);
        assert!(chunk.next().is_none());
        chunk.commit_iterated();
    } else {
        unreachable!();
    }
    assert_eq!(p.push(String::new()), Err(PushError::Full(String::new())));
    assert_eq!(c.pop(), Ok(String::from("element 0")));
    assert_eq!(c.pop(), Ok(String::from("element 1")));
}

#[test]
fn read_chunk_stops_after_its_last_element() {
    let (mut p, mut c) = RingBuffer::new(3).split();
    for v in [1, 2, 3] {
        assert_eq!(p.push(v), Ok(()));
    }
    if let Ok(mut chunk) = c.read_chunk(2) {
        assert_eq!(chunk.next(), Some(&1));
        assert_eq!(chunk.next(), Some(&2));
        assert_eq!(chunk.next(), None);
        assert_eq!(chunk.next(), None);
        chunk.commit_iterated();
    } else {
        unreachable!();
    }
    assert_eq!(c.slots(), 1);
    assert_eq!(c.pop(), Ok(3));
}

#[test]
fn chunk_requests_tell_what_is_available() {
    let (mut p, mut c) = RingBuffer::<u8>::new(4).split();
    assert_eq!(p.write_chunk(5).err(), Some(ChunkError::TooFewSlots(4)));
    assert_eq!(p.write_chunk_maybe_uninit(5).err(), Some(ChunkError::TooFewSlots(4)));
    assert_eq!(c.read_chunk(1).err(), Some(ChunkError::TooFewSlots(0)));
    assert_eq!(p.push(1), Ok(()));
    assert_eq!(p.push(2), Ok(()));
    assert_eq!(p.push(3), Ok(()));
    assert_eq!(p.write_chunk(2).err(), Some(ChunkError::TooFewSlots(1)));
    assert_eq!(c.read_chunk(4).err(), Some(ChunkError::TooFewSlots(3)));
    assert!(c.read_chunk(3).is_ok());
    assert!(p.write_chunk(1).is_ok());
}

#[test]
fn empty_chunks_are_empty() {
    let (mut p, mut c) = RingBuffer::<u8>::new(2).split();
    if let Ok(mut chunk) = p.write_chunk(0) {
        assert!(chunk.is_empty());
        assert_eq!(chunk.len(), 0);
        let (first, second) = chunk.as_mut_slices();
        assert!(first.is_empty());
        assert!(second.is_empty());
        assert!(chunk.next().is_none());
        chunk.commit_all();
    } else {
        unreachable!();
    }
    if let Ok(mut chunk) = c.read_chunk(0) {
        assert!(chunk.is_empty());
        assert_eq!(chunk.len(), 0);
        assert!(chunk.next().is_none());
        chunk.commit_all();
    } else {
        unreachable!();
    }
    assert_eq!(p.slots(), 2);
}

#[test]
fn chunks_and_single_elements_mix() {
    let (mut p, mut c) = RingBuffer::new(4).split();
    let mut next = 0u32;
    let mut expect = 0u32;
    for round in 0..30usize {
        let n = round % 4 + 1;
        while p.slots() < n {
            assert_eq!(c.pop(), Ok(expect));
            expect += 1;
        }
        if round % 2 == 0 {
            if let Ok(mut chunk) = p.write_chunk(n) {
                let (first, second) = chunk.as_mut_slices();
                for slot in first.iter_mut().chain(second.iter_mut()) {
                    *slot = next;
                    next += 1;
                }
                chunk.commit_all();
            } else {
                unreachable!();
            }
        } else {
            for _ in 0..n {
                assert_eq!(p.push(next), Ok(()));
                next += 1;
            }
        }
        let m = c.slots() / 2;
        if let Ok(chunk) = c.read_chunk(m) {
            let (first, second) = chunk.as_slices();
            assert_eq!(first.len() + second.len(), m);
            for value in first.iter().chain(second.iter()) {
                assert_eq!(*value, expect);
                expect += 1;
            }
            chunk.commit_all();
        } else {
            unreachable!();
        }
    }
    while let Ok(value) = c.pop() {
        assert_eq!(value, expect);
        expect += 1;
    }
    assert_eq!(expect, next);
}

#[test]
fn commit_ends_before_a_vacant_slot() {
    let (mut p, mut c) = RingBuffer::new(4).split();
    if let Ok(mut chunk) = p.write_chunk_maybe_uninit(4) {
        let (first, _) = chunk.as_mut_slices();
        first[0] = Some(1);
        first[1] = Some(2);
        first[3] = Some(4);
        chunk.commit_all();
    } else {
        unreachable!();
    }
    assert_eq!(p.slots(), 2);
    assert_eq!(c.slots(), 2);
    assert_eq!(c.pop(), Ok(1));
    assert_eq!(c.pop(), Ok(2));
    assert_eq!(c.pop(), Err(PopError::Empty));
    assert_eq!(p.push(3), Ok(()));
    assert_eq!(c.pop(), Ok(3));
}
