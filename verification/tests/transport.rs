use program_scanner::ResponseAssembler;
use program_scanner::TransportError;
use program_scanner::frame_command;

#[test]
fn frame_appends_single_terminator() {
    assert_eq!(frame_command("PRG"), b"PRG\r".to_vec());
    assert_eq!(frame_command("CIN,5"), b"CIN,5\r".to_vec());
    assert_eq!(frame_command(""), b"\r".to_vec());
}

#[test]
fn reassembles_response_spanning_three_chunks() {
    // A reply whose payload spans three 64-byte chunks and whose terminating
    // carriage return falls exactly on the third chunk's boundary.
    let mut payload = String::from("CIN,5,");
    while payload.len() < 191 {
        payload.push('X');
    }
    let mut response = payload.clone();
    response.push('\r');
    assert_eq!(response.len(), 192);
    let bytes = response.as_bytes();

    let mut assembler = ResponseAssembler::new();
    assert!(!assembler.is_complete());
    assembler.push_chunk(&bytes[0..64]);
    assert!(!assembler.is_complete());
    assembler.push_chunk(&bytes[64..128]);
    assert!(!assembler.is_complete());
    assembler.push_chunk(&bytes[128..192]);
    assert!(assembler.is_complete());
    assert_eq!(assembler.finish().unwrap(), response);
}

#[test]
fn terminator_inside_a_chunk_completes() {
    let mut assembler = ResponseAssembler::new();
    assembler.push_chunk(b"PRG,");
    assert!(!assembler.is_complete());
    assembler.push_chunk(b"OK\rmore");
    assert!(assembler.is_complete());
    assert_eq!(assembler.finish().unwrap(), "PRG,OK\rmore");
}

#[test]
fn short_chunks_reassemble_split_fields() {
    // A field straddling chunk boundaries is reassembled by concatenation.
    let mut assembler = ResponseAssembler::new();
    assembler.push_chunk(b"CIN,5,TEST");
    assembler.push_chunk(b"TAG         ,000");
    assembler.push_chunk(b"14620,FM,0,2,1,0\r");
    assert!(assembler.is_complete());
    assert_eq!(
        assembler.finish().unwrap(),
        "CIN,5,TESTTAG         ,00014620,FM,0,2,1,0\r"
    );
}

#[test]
fn non_text_response_is_decode_error() {
    let mut assembler = ResponseAssembler::new();
    assembler.push_chunk(&[0xff, 0xfe, b'\r']);
    assert!(assembler.is_complete());
    assert_eq!(assembler.finish().unwrap_err(), TransportError::Decode);
}

#[test]
fn empty_buffer_is_incomplete() {
    let assembler = ResponseAssembler::new();
    assert!(!assembler.is_complete());
    assert_eq!(assembler.finish().unwrap(), "");
}
