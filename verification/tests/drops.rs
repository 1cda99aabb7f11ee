use rtrb::RingBuffer;
use std::cell::Cell;
use std::rc::Rc;

struct Thing {
    drops: Rc<Cell<usize>>,
}

impl Drop for Thing {
    fn drop(&mut self) {
        self.drops.set(self.drops.get() + 1);
    }
}

fn thing(drops: &Rc<Cell<usize>>) -> Thing {
    Thing { drops: drops.clone() }
}

#[test]
fn every_element_is_dropped_once() {
    let drops = Rc::new(Cell::new(0));
    {
        let (mut p, mut c) = RingBuffer::new(3).split();
        assert!(p.push(thing(&drops)).is_ok());
        assert!(p.push(thing(&drops)).is_ok());
        assert!(p.push(thing(&drops)).is_ok());
        assert_eq!(drops.get(), 0);
        if let Ok(popped) = c.pop() {
            // Moved out of the queue, not dropped yet.
            assert_eq!(drops.get(), 0);
            drop(popped);
        } else {
            unreachable!();
        }
        assert_eq!(drops.get(), 1);
        if let Ok(chunk) = c.read_chunk(2) {
            let (first, second) = chunk.as_slices();
            assert_eq!(first.len(), 2);
            assert_eq!(second.len(), 0);
            assert_eq!(drops.get(), 1);
            chunk.commit(1);
            assert_eq!(drops.get(), 2);
        } else {
            unreachable!();
        }
        assert_eq!(drops.get(), 2);
    }
    assert_eq!(drops.get(), 3);
}

#[test]
fn read_chunk_across_the_wrap_drops_what_it_commits() {
    let drops = Rc::new(Cell::new(0));
    {
        let (mut p, mut c) = RingBuffer::new(2).split();
        assert!(p.push(thing(&drops)).is_ok());
        assert!(p.push(thing(&drops)).is_ok());
        assert!(c.pop().is_ok());
        assert_eq!(drops.get(), 1);
        assert!(p.push(thing(&drops)).is_ok());
        if let Ok(chunk) = c.read_chunk(2) {
            let (first, second) = chunk.as_slices();
            assert_eq!(first.len(), 1);
            assert_eq!(second.len(), 1);
            chunk.commit(1);
            assert_eq!(drops.get(), 2);
        } else {
            unreachable!();
        }
    }
    assert_eq!(drops.get(), 3);
}

#[test]
fn elements_left_in_the_queue_are_dropped_with_it() {
    let drops = Rc::new(Cell::new(0));
    {
        let (mut p, c) = RingBuffer::new(4).split();
        for _ in 0..4 {
            assert!(p.push(thing(&drops)).is_ok());
        }
        assert!(p.push(thing(&drops)).is_err());
        // The rejected element came back in the error and was dropped there.
        assert_eq!(drops.get(), 1);
        drop(c);
        assert_eq!(drops.get(), 1);
    }
    assert_eq!(drops.get(), 5);
}

#[test]
fn uncommitted_read_chunk_drops_nothing() {
    let drops = Rc::new(Cell::new(0));
    let (mut p, mut c) = RingBuffer::new(2).split();
    assert!(p.push(thing(&drops)).is_ok());
    assert!(p.push(thing(&drops)).is_ok());
    if let Ok(chunk) = c.read_chunk(2) {
        assert_eq!(chunk.len(), 2);
    } else {
        unreachable!();
    }
    assert_eq!(drops.get(), 0);
    assert_eq!(c.slots(), 2);
    assert_eq!(p.slots(), 0);
    assert!(c.pop().is_ok());
    assert_eq!(drops.get(), 1);
    assert!(c.pop().is_ok());
    assert_eq!(drops.get(), 2);
    assert!(c.pop().is_err());
}

#[test]
fn uncommitted_write_chunk_keeps_what_was_written_out_of_the_queue() {
    let drops = Rc::new(Cell::new(0));
    {
        let (mut p, mut c) = RingBuffer::new(2).split();
        if let Ok(mut chunk) = p.write_chunk_maybe_uninit(2) {
            let (first, _) = chunk.as_mut_slices();
            first[0] = Some(thing(&drops));
            first[1] = Some(thing(&drops));
        } else {
            unreachable!();
        }
        // Nothing was published.
        assert_eq!(c.slots(), 0);
        assert!(c.pop().is_err());
        assert_eq!(drops.get(), 0);
        // The next chunk starts out vacant: what the last one held is gone.
        if let Ok(mut chunk) = p.write_chunk_maybe_uninit(1) {
            assert_eq!(drops.get(), 2);
            let (first, second) = chunk.as_mut_slices();
            assert!(first[0].is_none());
            assert!(second.is_empty());
            first[0] = Some(thing(&drops));
            chunk.commit_all();
        } else {
            unreachable!();
        }
        assert_eq!(c.slots(), 1);
        assert_eq!(drops.get(), 2);
    }
    assert_eq!(drops.get(), 3);
}

#[test]
fn commit_keeps_what_lies_behind_it_out_of_the_queue() {
    let drops = Rc::new(Cell::new(0));
    {
        let (mut p, mut c) = RingBuffer::new(3).split();
        if let Ok(mut chunk) = p.write_chunk_maybe_uninit(3) {
            let (first, _) = chunk.as_mut_slices();
            first[0] = Some(thing(&drops));
            first[1] = Some(thing(&drops));
            first[2] = Some(thing(&drops));
            chunk.commit(2);
        } else {
            unreachable!();
        }
        assert_eq!(c.slots(), 2);
        assert!(c.pop().is_ok());
        assert!(c.pop().is_ok());
        assert!(c.pop().is_err());
        assert_eq!(drops.get(), 2);
    }
    assert_eq!(drops.get(), 3);
}
