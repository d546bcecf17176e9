use lbp_core::message::{decode, encode, Message, MessageKind, ProcessError};
use lbp_core::process::{process_image, process_message};

fn gray_rgba(values: &[u8]) -> Vec<u8> {
    let mut out = Vec::new();
    for v in values {
        out.push(*v);
        out.push(*v);
        out.push(*v);
        out.push(255);
    }
    out
}

#[test]
fn process_answers_with_the_codes_of_the_request() {
    let request = encode(3, 3, &gray_rgba(&[48, 26, 105, 82, 56, 12, 64, 7, 32]));
    let response = process_image(&request).unwrap();
    assert_eq!(response, encode(3, 3, &[0, 0, 0, 0, 0b00100011, 0, 0, 0, 0]));
    assert_eq!(
        decode(&response, MessageKind::Response),
        Ok(Message { width: 3, height: 3, buf: vec![0, 0, 0, 0, 35, 0, 0, 0, 0] })
    );
}

#[test]
fn process_keeps_the_dimensions_of_the_request() {
    let pixel_data = vec![
        68, 32, 130, 60, 253, 230, 241, 194, 107, 48, 249, 14, 199, 221, 1, 228, 136, 117, 52,
        162, 15, 11, 13, 4, 195, 110, 216, 14, 113, 224, 253, 119, 176, 118, 112, 235, 148, 11,
        213, 51, 95, 151, 61, 170, 216, 97, 155, 145,
    ];
    let response = process_image(&encode(4, 3, &pixel_data)).unwrap();
    assert_eq!(response, encode(4, 3, &[0, 0, 0, 0, 0, 255, 176, 0, 0, 0, 0, 0]));
}

#[test]
fn process_twice_gives_the_same_bytes() {
    let (w, h) = (6u32, 5u32);
    let rgba: Vec<u8> = (0..w * h * 4).map(|i| ((i * 61 + 5) % 256) as u8).collect();
    let request = encode(w, h, &rgba);
    let first = process_image(&request);
    let second = process_image(&request);
    assert!(first.is_ok());
    assert_eq!(first, second);
    let broken = &request[..request.len() - 3];
    assert_eq!(process_image(broken), process_image(broken));
}

#[test]
fn process_of_a_small_image_is_all_zero() {
    for (w, h) in [(1u32, 1u32), (2, 2), (2, 6), (6, 2), (1, 3)] {
        let rgba = vec![123u8; (w * h * 4) as usize];
        let response = process_image(&encode(w, h, &rgba)).unwrap();
        assert_eq!(response, encode(w, h, &vec![0u8; (w * h) as usize]));
    }
}

#[test]
fn process_rejects_bytes_that_are_no_message() {
    assert_eq!(process_image(&[]), Err(ProcessError::SchemaDecode));
    assert_eq!(process_image(&[1, 2, 3]), Err(ProcessError::SchemaDecode));
    let mut request = encode(1, 1, &[1, 2, 3, 4]);
    request[1] = 0;
    assert_eq!(process_image(&request), Err(ProcessError::SchemaDecode));
    let request = encode(1, 1, &[1, 2, 3, 4]);
    assert_eq!(process_image(&request[..23]), Err(ProcessError::SchemaDecode));
}

#[test]
fn process_rejects_a_payload_of_the_wrong_length() {
    assert_eq!(process_image(&encode(3, 3, &[0; 9])), Err(ProcessError::DimensionMismatch));
    assert_eq!(process_image(&encode(3, 3, &[0; 37])), Err(ProcessError::DimensionMismatch));
    assert_eq!(process_image(&encode(0, 3, &[0; 12])), Err(ProcessError::DimensionMismatch));
}

#[test]
fn process_rejects_an_image_without_pixels() {
    assert_eq!(process_image(&encode(0, 0, &[])), Err(ProcessError::InvalidDimensions));
    assert_eq!(process_image(&encode(0, 5, &[])), Err(ProcessError::InvalidDimensions));
    assert_eq!(process_image(&encode(5, 0, &[])), Err(ProcessError::InvalidDimensions));
}

#[test]
fn process_message_answers_a_decoded_request() {
    let request = Message {
        width: 3,
        height: 3,
        buf: gray_rgba(&[255, 255, 255, 255, 0, 0, 0, 255, 255]),
    };
    assert_eq!(
        process_message(request),
        Ok(Message { width: 3, height: 3, buf: vec![0, 0, 0, 0, 255, 0, 0, 0, 0] })
    );
}

#[test]
fn process_message_checks_before_it_computes() {
    let request = Message { width: 3, height: 3, buf: vec![0; 35] };
    assert_eq!(process_message(request), Err(ProcessError::DimensionMismatch));
    let request = Message { width: 0, height: 3, buf: vec![] };
    assert_eq!(process_message(request), Err(ProcessError::InvalidDimensions));
    let request = Message { width: 3, height: 0, buf: vec![] };
    assert_eq!(process_message(request), Err(ProcessError::InvalidDimensions));
    let request = Message { width: 0, height: 0, buf: vec![1] };
    assert_eq!(process_message(request), Err(ProcessError::DimensionMismatch));
}
