use tracedis::record::{RecordError, TracedInstruction, DATA_SIZE, RECORD_SIZE};

fn sample() -> TracedInstruction {
    let mut data = [0u8; 16];
    data[0] = 0x48;
    data[1] = 0x89;
    data[2] = 0xE5;
    data[15] = 0x7F;
    TracedInstruction { haddr: 0x0000_7F12_3456_789A, vaddr: 0xFFFF_FFFF_8000_1000, size: 3, data }
}

#[test]
fn record_is_forty_bytes_with_sixteen_opcode_bytes() {
    assert_eq!(RECORD_SIZE, 40);
    assert_eq!(DATA_SIZE, 16);
}

#[test]
fn encode_places_fields_at_fixed_offsets() {
    let bytes = sample().encode();
    assert_eq!(bytes.len(), 40);
    assert_eq!(&bytes[0..8], &[0x9A, 0x78, 0x56, 0x34, 0x12, 0x7F, 0x00, 0x00]);
    assert_eq!(&bytes[8..16], &[0x00, 0x10, 0x00, 0x80, 0xFF, 0xFF, 0xFF, 0xFF]);
    assert_eq!(bytes[16], 3);
    assert_eq!(&bytes[17..20], &[0x48, 0x89, 0xE5]);
    assert_eq!(bytes[32], 0x7F);
    assert_eq!(&bytes[33..40], &[0u8; 7]);
}

#[test]
fn encode_matches_native_little_endian_layout() {
    let record = sample();
    let bytes = record.encode();
    assert_eq!(&bytes[0..8], &record.haddr.to_le_bytes());
    assert_eq!(&bytes[8..16], &record.vaddr.to_le_bytes());
}

#[test]
fn decode_reads_fields_at_fixed_offsets() {
    let mut bytes = vec![0u8; 40];
    bytes[0] = 0x01;
    bytes[7] = 0x80;
    bytes[8] = 0xEF;
    bytes[9] = 0xBE;
    bytes[10] = 0xAD;
    bytes[11] = 0xDE;
    bytes[16] = 2;
    bytes[17] = 0xCD;
    bytes[18] = 0x80;
    bytes[32] = 0x11;
    let record = TracedInstruction::decode(&bytes).unwrap().unwrap();
    assert_eq!(record.haddr, 0x8000_0000_0000_0001);
    assert_eq!(record.vaddr, 0xDEAD_BEEF);
    assert_eq!(record.size, 2);
    assert_eq!(record.data[0], 0xCD);
    assert_eq!(record.data[1], 0x80);
    assert_eq!(record.data[15], 0x11);
    assert_eq!(record.code(), Some(&[0xCD, 0x80][..]));
}

#[test]
fn decode_ignores_tail_padding() {
    let mut bytes = sample().encode();
    for b in bytes[33..40].iter_mut() {
        *b = 0xFF;
    }
    let record = TracedInstruction::decode(&bytes).unwrap().unwrap();
    assert_eq!(record.haddr, sample().haddr);
    assert_eq!(record.vaddr, sample().vaddr);
    assert_eq!(record.size, 3);
    assert_eq!(record.data, sample().data);
}

#[test]
fn decode_does_not_read_past_the_record() {
    let mut bytes = sample().encode();
    bytes.extend_from_slice(&[0xAA; 13]);
    let record = TracedInstruction::decode(&bytes).unwrap().unwrap();
    assert_eq!(record.data, sample().data);
    assert_eq!(record.size, 3);
}

#[test]
fn round_trip_keeps_every_field() {
    let record = sample();
    let back = TracedInstruction::decode(&record.encode()).unwrap().unwrap();
    assert_eq!(back.haddr, record.haddr);
    assert_eq!(back.vaddr, record.vaddr);
    assert_eq!(back.size, record.size);
    assert_eq!(back.data, record.data);
    assert_eq!(back.code(), record.code());
}

#[test]
fn round_trip_of_extreme_values() {
    for (haddr, vaddr, size) in [(0u64, 0u64, 0u8), (u64::MAX, u64::MAX, 16), (1, u64::MAX - 1, 1)] {
        let record = TracedInstruction { haddr, vaddr, size, data: [0xA5; 16] };
        let back = TracedInstruction::decode(&record.encode()).unwrap().unwrap();
        assert_eq!((back.haddr, back.vaddr, back.size, back.data), (haddr, vaddr, size, [0xA5; 16]));
    }
}

#[test]
fn decode_of_empty_span_is_end_of_sequence() {
    assert!(matches!(TracedInstruction::decode(&[]), Ok(None)));
}

#[test]
fn decode_of_short_span_is_truncated() {
    assert_eq!(TracedInstruction::decode(&[0u8; 1]).err(), Some(RecordError::Truncated));
    assert_eq!(TracedInstruction::decode(&[0u8; 39]).err(), Some(RecordError::Truncated));
}

#[test]
fn code_is_the_meaningful_prefix() {
    let mut record = sample();
    assert_eq!(record.code(), Some(&[0x48, 0x89, 0xE5][..]));
    record.size = 0;
    assert_eq!(record.code(), Some(&[][..]));
    record.size = 16;
    assert_eq!(record.code().map(|c| c.len()), Some(16));
}

#[test]
fn code_of_overlong_record_is_none() {
    let mut record = sample();
    record.size = 17;
    assert_eq!(record.code(), None);
    record.size = 255;
    assert_eq!(record.code(), None);
}
