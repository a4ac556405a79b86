use dexpaprika_cli::framer::LineFramer;

fn drain(f: &mut LineFramer) -> Vec<Vec<u8>> {
    let mut records = Vec::new();
    while let Some(rec) = f.next_record() {
        records.push(rec);
    }
    records
}

fn frame_in_chunks(bytes: &[u8], chunk_size: usize) -> Vec<Vec<u8>> {
    let mut f = LineFramer::new();
    let mut records = Vec::new();
    let mut start = 0;
    while start < bytes.len() {
        let end = if start + chunk_size < bytes.len() {
            start + chunk_size
        } else {
            bytes.len()
        };
        f.push_chunk(&bytes[start..end]);
        records.append(&mut drain(&mut f));
        start = end;
    }
    records
}

#[test]
fn framer_emits_data_lines_only() {
    let mut f = LineFramer::new();
    f.push_chunk(b"data: one\n: keep-alive\n\ndata: two\n");
    let records = drain(&mut f);
    assert_eq!(records, vec![b"one".to_vec(), b"two".to_vec()]);
}

#[test]
fn framer_holds_partial_line() {
    let mut f = LineFramer::new();
    f.push_chunk(b"data: first\ndata: par");
    assert_eq!(drain(&mut f), vec![b"first".to_vec()]);
    f.push_chunk(b"tial\n");
    assert_eq!(drain(&mut f), vec![b"partial".to_vec()]);
}

#[test]
fn framer_trims_surrounding_whitespace() {
    let mut f = LineFramer::new();
    f.push_chunk(b"  data: padded\r\n\tdata: tabbed\n");
    let records = drain(&mut f);
    assert_eq!(records, vec![b"padded".to_vec(), b"tabbed".to_vec()]);
}

#[test]
fn framer_is_transparent_to_chunking() {
    let bytes: &[u8] = b"data: alpha\nping\ndata: beta\n data: gamma \nnoise\ndata: tail";
    let whole = frame_in_chunks(bytes, bytes.len());
    for chunk_size in 1..=bytes.len() {
        assert_eq!(frame_in_chunks(bytes, chunk_size), whole);
    }
    assert_eq!(
        whole,
        vec![b"alpha".to_vec(), b"beta".to_vec(), b"gamma".to_vec()]
    );
}

#[test]
fn framer_ignores_trailing_bytes_without_newline() {
    let mut f = LineFramer::new();
    f.push_chunk(b"data: never-finished");
    assert_eq!(drain(&mut f), Vec::<Vec<u8>>::new());
}
