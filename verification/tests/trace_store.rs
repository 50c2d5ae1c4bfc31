use tracedis::record::TracedInstruction;
use tracedis::trace::Trace;

fn record(i: u8) -> TracedInstruction {
    let mut data = [0u8; 16];
    data[0] = 0x90;
    data[1] = i;
    TracedInstruction { haddr: 0x1000 + i as u64, vaddr: 0x40_0000 + 4 * i as u64, size: 1 + i % 4, data }
}

fn buffer(n: u8) -> Vec<u8> {
    let mut bytes = Vec::new();
    for i in 0..n {
        bytes.extend_from_slice(&record(i).encode());
    }
    bytes
}

fn collect(trace: &Trace) -> Vec<(u64, TracedInstruction)> {
    let mut iter = trace.records();
    let mut out = Vec::new();
    while let Some(item) = iter.next() {
        out.push(item);
    }
    out
}

#[test]
fn aligned_buffer_yields_every_record_in_order() {
    for n in [0u8, 1, 2, 7, 50] {
        let trace = Trace::new(buffer(n));
        assert_eq!(trace.record_count(), n as usize);
        let items = collect(&trace);
        assert_eq!(items.len(), n as usize);
        for (index, (offset, item)) in items.iter().enumerate() {
            let expected = record(index as u8);
            assert_eq!(*offset, 40 * index as u64);
            assert_eq!(item.haddr, expected.haddr);
            assert_eq!(item.vaddr, expected.vaddr);
            assert_eq!(item.size, expected.size);
            assert_eq!(item.data, expected.data);
        }
    }
}

#[test]
fn stray_tail_bytes_are_ignored() {
    let mut bytes = buffer(1);
    bytes.extend_from_slice(&[1, 2, 3, 4, 5]);
    assert_eq!(bytes.len(), 45);
    let trace = Trace::new(bytes);
    assert_eq!(trace.record_count(), 1);
    let mut iter = trace.records();
    let (offset, first) = iter.next().unwrap();
    assert_eq!(offset, 0);
    assert_eq!(first.vaddr, record(0).vaddr);
    assert!(iter.next().is_none());
    assert!(iter.next().is_none());
}

#[test]
fn buffer_shorter_than_a_record_is_empty() {
    for len in [0usize, 1, 39] {
        let trace = Trace::new(vec![0xFF; len]);
        assert_eq!(trace.record_count(), 0);
        assert!(trace.records().next().is_none());
    }
}

#[test]
fn seventy_nine_bytes_hold_one_record() {
    let mut bytes = buffer(2);
    bytes.truncate(79);
    let trace = Trace::new(bytes);
    assert_eq!(collect(&trace).len(), 1);
}

#[test]
fn records_can_be_walked_again() {
    let trace = Trace::new(buffer(3));
    let first = collect(&trace);
    let second = collect(&trace);
    assert_eq!(first.len(), 3);
    assert_eq!(second.len(), 3);
    for (a, b) in first.iter().zip(second.iter()) {
        assert_eq!(a.0, b.0);
        assert_eq!(a.1.vaddr, b.1.vaddr);
    }
}

#[test]
fn walking_does_not_change_the_buffer() {
    let bytes = buffer(4);
    let trace = Trace::new(bytes.clone());
    let _ = collect(&trace);
    assert_eq!(trace.as_bytes(), &bytes[..]);
}

#[test]
fn from_vec_is_new() {
    let bytes = buffer(2);
    let trace = Trace::from(bytes.clone());
    assert_eq!(trace.as_bytes(), &bytes[..]);
    assert_eq!(trace.record_count(), 2);
}

#[test]
fn to_vec_is_the_walk() {
    let trace = Trace::new(buffer(6));
    let all = trace.to_vec();
    let walked = collect(&trace);
    assert_eq!(all.len(), 6);
    for (a, b) in all.iter().zip(walked.iter()) {
        assert_eq!(a.0, b.0);
        assert_eq!((a.1.haddr, a.1.vaddr, a.1.size, a.1.data), (b.1.haddr, b.1.vaddr, b.1.size, b.1.data));
    }
    assert_eq!(all[5].0, 200);
}

#[test]
fn record_by_index() {
    let mut bytes = buffer(3);
    bytes.extend_from_slice(&[7; 39]);
    let trace = Trace::new(bytes);
    for index in 0..3usize {
        let (offset, item) = trace.record(index).unwrap();
        assert_eq!(offset, 40 * index as u64);
        assert_eq!(item.vaddr, record(index as u8).vaddr);
        assert_eq!(item.data, record(index as u8).data);
    }
    assert!(trace.record(3).is_none());
    assert!(trace.record(usize::MAX).is_none());
    assert!(Trace::new(Vec::new()).record(0).is_none());
}
