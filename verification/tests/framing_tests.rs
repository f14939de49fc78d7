use blobshare::errors::ShareError;
use blobshare::framing::{assemble, disassemble};

#[test]
fn assemble_exact_trailer() {
    let payload = assemble(vec![97, 98, 99], &vec![97, 46, 116, 120, 116]);
    assert_eq!(
        payload,
        vec![97, 98, 99, 97, 46, 116, 120, 116, 5, 0, 0, 0, 0, 0, 0, 0]
    );
}

#[test]
fn frame_round_trip() {
    let file = b"hello world".to_vec();
    let name = b"greeting.txt".to_vec();
    let payload = assemble(file.clone(), &name);
    let (f, n) = disassemble(&payload).unwrap();
    assert_eq!(f, file);
    assert_eq!(n, name);
}

#[test]
fn frame_round_trip_empty_name() {
    let payload = assemble(vec![1, 2, 3], &Vec::new());
    assert_eq!(payload, vec![1, 2, 3, 0, 0, 0, 0, 0, 0, 0, 0]);
    let (f, n) = disassemble(&payload).unwrap();
    assert_eq!(f, vec![1, 2, 3]);
    assert_eq!(n, Vec::<u8>::new());
}

#[test]
fn frame_round_trip_empty_file() {
    let payload = assemble(Vec::new(), &vec![120]);
    let (f, n) = disassemble(&payload).unwrap();
    assert_eq!(f, Vec::<u8>::new());
    assert_eq!(n, vec![120]);
}

#[test]
fn disassemble_too_short_for_trailer() {
    assert_eq!(disassemble(&vec![1, 2, 3]), Err(ShareError::Decode));
    assert_eq!(disassemble(&Vec::new()), Err(ShareError::Decode));
}

#[test]
fn disassemble_claimed_length_too_large() {
    // A trailer claiming one filename byte, with no byte left for it.
    assert_eq!(
        disassemble(&vec![1, 0, 0, 0, 0, 0, 0, 0]),
        Err(ShareError::Decode)
    );
    // A huge claimed length must be rejected, not underflow.
    assert_eq!(
        disassemble(&vec![9, 255, 255, 255, 255, 255, 255, 255, 255]),
        Err(ShareError::Decode)
    );
}

#[test]
fn disassemble_exact_boundary() {
    // The whole body is the filename.
    let payload = vec![120, 121, 2, 0, 0, 0, 0, 0, 0, 0];
    let (f, n) = disassemble(&payload).unwrap();
    assert_eq!(f, Vec::<u8>::new());
    assert_eq!(n, vec![120, 121]);
}
