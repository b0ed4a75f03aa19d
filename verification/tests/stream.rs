use freenet::stream::fragment_stream;

fn reassemble(fragments: &[freenet::stream::StreamFragment]) -> Vec<u8> {
    let mut bytes = Vec::new();
    for f in fragments {
        bytes.extend_from_slice(&f.payload);
    }
    bytes
}

#[test]
fn a_short_stream_is_one_fragment() {
    let message = vec![1, 2, 3, 4, 5];
    let fragments = fragment_stream(7, message.clone(), 1000);
    assert_eq!(fragments.len(), 1);
    assert_eq!(fragments[0].stream_id, 7);
    assert_eq!(fragments[0].total_length_bytes, 5);
    assert_eq!(fragments[0].fragment_number, 1);
    assert_eq!(fragments[0].payload, message);
    assert_eq!(reassemble(&fragments), message);
}

#[test]
fn a_long_stream_is_cut_into_full_chunks_and_a_rest() {
    let message: Vec<u8> = (0..2500u32).map(|i| (i % 251) as u8).collect();
    let fragments = fragment_stream(3, message.clone(), 1000);
    assert_eq!(fragments.len(), 3);
    let sizes: Vec<usize> = fragments.iter().map(|f| f.payload.len()).collect();
    assert_eq!(sizes, vec![1000, 1000, 500]);
    let numbers: Vec<u32> = fragments.iter().map(|f| f.fragment_number).collect();
    assert_eq!(numbers, vec![1, 2, 3]);
    assert!(fragments.iter().all(|f| f.total_length_bytes == 2500));
    assert_eq!(reassemble(&fragments), message);
}

#[test]
fn an_exact_multiple_has_no_short_rest() {
    let message = vec![9u8; 30];
    let fragments = fragment_stream(1, message.clone(), 10);
    assert_eq!(fragments.len(), 3);
    assert!(fragments.iter().all(|f| f.payload.len() == 10));
    assert_eq!(reassemble(&fragments), message);
}

#[test]
fn an_empty_stream_has_no_fragments() {
    let fragments = fragment_stream(1, Vec::new(), 10);
    assert!(fragments.is_empty());
}

#[test]
fn test_send_stream_success() {
    let message = vec![1, 2, 3, 4, 5];
    let fragments = fragment_stream(0, message.clone(), 1000);
    let mut inbound_bytes = Vec::new();
    for fragment in &fragments {
        inbound_bytes.extend_from_slice(&fragment.payload);
    }
    assert!(!fragments.is_empty());
    assert_eq!(message, inbound_bytes);
}
