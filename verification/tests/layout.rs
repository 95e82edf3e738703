use bucket_store::database::bucket::layout::{
    build_header_page, count_records, encode_cursor, encode_record, read_cursor, read_schema,
};

#[test]
fn record_is_length_payload_and_padding() {
    assert_eq!(encode_record(&[]).unwrap(), vec![0, 0, 0, 0, 0, 0, 0, 0]);
    assert_eq!(
        encode_record(&[7]).unwrap(),
        vec![1, 0, 0, 0, 0, 0, 0, 0, 7, 0, 0, 0, 0, 0, 0, 0]
    );
    assert_eq!(
        encode_record(&[1, 2, 3, 4, 5, 6, 7, 8]).unwrap(),
        vec![8, 0, 0, 0, 0, 0, 0, 0, 1, 2, 3, 4, 5, 6, 7, 8]
    );
    assert_eq!(encode_record(&[0; 9]).unwrap().len(), 24);
}

#[test]
fn record_length_is_rounded_to_eight() {
    for n in 0..64usize {
        let record = encode_record(&vec![0xaa; n]).unwrap();
        assert_eq!(record.len() % 8, 0);
        assert!(record.len() >= 8 + n);
        assert!(record.len() < 8 + n + 8);
        assert_eq!(&record[..8], &(n as u64).to_le_bytes());
        assert!(record[8 + n..].iter().all(|b| *b == 0));
    }
}

#[test]
fn header_page_holds_schema_and_cursor() {
    let page = build_header_page(&[9, 8, 7], 64, 0x0102030405060708).unwrap();
    assert_eq!(page.len(), 64);
    assert_eq!(&page[..2], &[3, 0]);
    assert_eq!(&page[2..5], &[9, 8, 7]);
    assert!(page[5..48].iter().all(|b| *b == 0));
    assert_eq!(&page[48..56], &[8, 7, 6, 5, 4, 3, 2, 1]);
    assert!(page[56..].iter().all(|b| *b == 0));
    assert_eq!(read_schema(&page), Some(&[9u8, 8, 7][..]));
    assert_eq!(read_cursor(&page, 64), Some(0x0102030405060708));
}

#[test]
fn header_page_needs_room_for_the_schema() {
    assert!(build_header_page(&[0; 46], 64, 64).is_some());
    assert!(build_header_page(&[0; 47], 64, 64).is_none());
    assert!(build_header_page(&[], 18, 18).is_some());
    assert!(build_header_page(&[], 17, 17).is_none());
    assert!(build_header_page(&[], 0, 0).is_none());
    assert!(build_header_page(&vec![0; 65536], 1 << 20, 0).is_none());
    assert!(build_header_page(&vec![0; 65535], 1 << 20, 0).is_some());
}

#[test]
fn short_pages_hold_nothing() {
    assert_eq!(read_schema(&[]), None);
    assert_eq!(read_schema(&[1]), None);
    assert_eq!(read_schema(&[1, 0]), None);
    assert_eq!(read_schema(&[1, 0, 5]), Some(&[5u8][..]));
    assert_eq!(read_schema(&[0, 0]), Some(&[][..]));
    assert_eq!(read_cursor(&[0; 63], 80), None);
    assert_eq!(read_cursor(&[0; 8], 15), None);
    assert_eq!(read_cursor(&[5, 0, 0, 0, 0, 0, 0, 0], 16), Some(5));
    assert_eq!(read_cursor(&[0; 7], 16), None);
}

#[test]
fn cursor_is_eight_little_endian_bytes() {
    assert_eq!(encode_cursor(4096), vec![0, 16, 0, 0, 0, 0, 0, 0]);
}

#[test]
fn scan_counts_the_records() {
    let mut file = vec![0xee; 32];
    assert_eq!(count_records(&file, 32), 0);
    for (i, n) in [0usize, 1, 8, 9, 100].iter().enumerate() {
        file.extend(encode_record(&vec![1; *n]).unwrap());
        assert_eq!(count_records(&file, 32), i + 1);
    }
    assert_eq!(count_records(&file, file.len() as u64), 0);
    assert_eq!(count_records(&file, file.len() as u64 + 1), 0);
}

#[test]
fn scan_stops_at_a_short_read() {
    let mut file = encode_record(&[1, 2, 3]).unwrap();
    file.extend_from_slice(&[9, 0, 0]);
    assert_eq!(count_records(&file, 0), 1);
    let mut file = encode_record(&[1, 2, 3]).unwrap();
    file.extend_from_slice(&[200, 0, 0, 0, 0, 0, 0, 0]);
    assert_eq!(count_records(&file, 0), 2);
    let huge = u64::MAX.to_le_bytes().to_vec();
    assert_eq!(count_records(&huge, 0), 1);
}
