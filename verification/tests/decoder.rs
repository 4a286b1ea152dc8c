use chatml::decode::decode_chunk;
use chatml::decode::decode_records;
use chatml::decode::ChatCompletion;
use chatml::decode::Choice;
use chatml::decode::ChunkEvent;
use chatml::decode::Delta;
use chatml::decode::StreamDecoder;

fn event_line(content: &str) -> String {
    format!(
        "data: {{\"id\":\"x\",\"model\":\"m\",\"created\":1,\"object\":\"o\",\"choices\":[{{\"index\":0,\"delta\":{{\"content\":\"{}\"}},\"finish_reason\":null}}]}}",
        content
    )
}

#[test]
fn chunk_without_data_lines_is_empty_fragment() {
    let chunk = b"event: ping\n: comment\n\n".to_vec();
    assert_eq!(decode_records(&chunk), "");
    let empty: Vec<u8> = Vec::new();
    assert_eq!(decode_records(&empty), "");
}

#[test]
fn well_formed_record_decodes_to_its_content() {
    let chunk = format!("{}\n", event_line("Hi")).into_bytes();
    assert_eq!(decode_records(&chunk), "Hi");
}

#[test]
fn two_records_concatenate_in_arrival_order() {
    let chunk = format!("{}\n{}\n", event_line("Hi"), event_line(" there")).into_bytes();
    assert_eq!(decode_records(&chunk), "Hi there");
}

#[test]
fn invalid_record_is_skipped_silently() {
    let chunk = format!("{}\ndata: {{not json\n", event_line("Hi")).into_bytes();
    assert_eq!(decode_records(&chunk), "Hi");
}

#[test]
fn control_record_without_content_contributes_nothing() {
    let line = "data: {\"id\":\"x\",\"model\":\"m\",\"created\":1,\"object\":\"o\",\"choices\":[{\"index\":0,\"delta\":{},\"finish_reason\":\"stop\"}]}";
    let chunk = format!("{}\n{}\n", event_line("Hi"), line).into_bytes();
    assert_eq!(decode_records(&chunk), "Hi");
}

#[test]
fn done_marker_is_not_an_event() {
    let chunk = b"data: [DONE]\n".to_vec();
    assert_eq!(decode_records(&chunk), "");
}

#[test]
fn record_missing_required_field_is_skipped() {
    // no "model" field: not a completion event
    let line = "data: {\"id\":\"x\",\"created\":1,\"object\":\"o\",\"choices\":[{\"index\":0,\"delta\":{\"content\":\"Hi\"}}]}";
    let chunk = format!("{}\n", line).into_bytes();
    assert_eq!(decode_records(&chunk), "");
}

#[test]
fn malformed_bytes_are_replaced_not_fatal() {
    // a raw invalid byte inside the content: the lossy decoding replaces
    // it, the record still parses, and the stream goes on
    let mut chunk = Vec::new();
    chunk.extend_from_slice(b"data: {\"id\":\"x\",\"model\":\"m\",\"created\":1,\"object\":\"o\",\"choices\":[{\"index\":0,\"delta\":{\"content\":\"H");
    chunk.push(0xFF);
    chunk.extend_from_slice(b"i\"},\"finish_reason\":null}]}\n");
    assert_eq!(decode_chunk(&chunk), "H\u{FFFD}i");
}

#[test]
fn record_split_across_chunks_is_dropped() {
    let line = event_line("Hi");
    let (a, b) = line.split_at(40);
    let first = a.as_bytes().to_vec();
    let second = format!("{}\n", b).into_bytes();
    assert_eq!(decode_chunk(&first), "");
    assert_eq!(decode_chunk(&second), "");
}

#[test]
fn get_content_takes_first_choice_or_nothing() {
    let ev = ChatCompletion { choices: vec![] };
    assert_eq!(ev.get_content(), "");
    let ev = ChatCompletion { choices: vec![Choice { delta: Delta { content: None } }] };
    assert_eq!(ev.get_content(), "");
    let ev = ChatCompletion {
        choices: vec![
            Choice { delta: Delta { content: Some("first".to_string()) } },
            Choice { delta: Delta { content: Some("second".to_string()) } },
        ],
    };
    assert_eq!(ev.get_content(), "first");
}

#[test]
fn cursor_decodes_until_end() {
    let mut d = StreamDecoder::new();
    let chunk = format!("{}\n", event_line("Hi")).into_bytes();
    assert_eq!(d.next_fragment(ChunkEvent::Bytes(chunk)), Some("Hi".to_string()));
    let quiet = b"event: ping\n".to_vec();
    assert_eq!(d.next_fragment(ChunkEvent::Bytes(quiet)), Some("".to_string()));
    assert_eq!(d.next_fragment(ChunkEvent::End), None);
}

#[test]
fn exhausted_cursor_stays_terminal() {
    let mut d = StreamDecoder::new();
    assert_eq!(d.next_fragment(ChunkEvent::End), None);
    assert_eq!(d.next_fragment(ChunkEvent::End), None);
    let chunk = format!("{}\n", event_line("Hi")).into_bytes();
    assert_eq!(d.next_fragment(ChunkEvent::Bytes(chunk)), None);
}
