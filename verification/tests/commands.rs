use image_manipulation::commands::{decode_command, encode_command, CommandError};
use image_manipulation::envelope::EnvelopeError;
use image_manipulation::steganography::{CarrierError, DataLengthError, DefaultSteganoGrapher};

const KEY: &[u8; 32] = b"an example very very secret key.";
const NONCE: [u8; 16] = *b"any unique nonce";

fn carrier_of(len: usize) -> Vec<u8> {
    (0..len).map(|i| (i * 31 + 7) as u8).collect()
}

#[test]
fn plain_message_round_trip() {
    let mut carrier = carrier_of(4096);
    let before = carrier.clone();
    assert_eq!(
        encode_command(b"hello", None, &NONCE, &mut carrier),
        Ok(())
    );
    assert_ne!(carrier, before);
    assert_eq!(decode_command(&carrier, None), Ok(b"hello".to_vec()));
    let mut same = before.clone();
    DefaultSteganoGrapher::embed(b"hello", &mut same).unwrap();
    assert_eq!(carrier, same);
}

#[test]
fn sealed_message_round_trip() {
    let mut carrier = carrier_of(4096);
    assert_eq!(
        encode_command(b"This is a simple Text", Some(KEY), &NONCE, &mut carrier),
        Ok(())
    );
    assert_eq!(
        decode_command(&carrier, Some(KEY)),
        Ok(b"This is a simple Text".to_vec())
    );
    // without the key the envelope itself comes out: nonce, tag, ciphertext
    let raw = decode_command(&carrier, None).unwrap();
    assert_eq!(raw.len(), 21 + 32);
    assert_eq!(&raw[..16], &NONCE[..]);
    assert_ne!(&raw[32..], b"This is a simple Text");
}

#[test]
fn sealed_message_under_another_key() {
    let mut carrier = carrier_of(4096);
    encode_command(b"secret", Some(KEY), &NONCE, &mut carrier).unwrap();
    let other = [0x42u8; 32];
    assert_eq!(
        decode_command(&carrier, Some(&other)),
        Err(CommandError::Envelope(EnvelopeError::DecryptionFailure))
    );
}

#[test]
fn plain_message_read_with_a_key() {
    let mut carrier = carrier_of(4096);
    encode_command(b"not sealed at all, but long enough", None, &NONCE, &mut carrier).unwrap();
    assert_eq!(
        decode_command(&carrier, Some(KEY)),
        Err(CommandError::Envelope(EnvelopeError::DecryptionFailure))
    );
    let mut carrier = carrier_of(4096);
    encode_command(b"short", None, &NONCE, &mut carrier).unwrap();
    assert_eq!(
        decode_command(&carrier, Some(KEY)),
        Err(CommandError::Envelope(EnvelopeError::DecryptionFailure))
    );
}

#[test]
fn bad_key_leaves_the_carrier_alone() {
    for len in [0usize, 1, 31, 33] {
        let key = vec![7u8; len];
        let mut carrier = carrier_of(4096);
        let before = carrier.clone();
        assert_eq!(
            encode_command(b"hello", Some(&key), &NONCE, &mut carrier),
            Err(CommandError::Envelope(EnvelopeError::InvalidKeyLength))
        );
        assert_eq!(carrier, before);
    }
}

#[test]
fn bad_key_is_judged_before_the_carrier() {
    let key = [7u8; 5];
    assert_eq!(
        decode_command(&[], Some(&key)),
        Err(CommandError::Envelope(EnvelopeError::InvalidKeyLength))
    );
    assert_eq!(
        encode_command(b"hello", Some(&key), &NONCE, &mut Vec::new()),
        Err(CommandError::Envelope(EnvelopeError::InvalidKeyLength))
    );
}

#[test]
fn sealed_message_needs_room_for_its_envelope() {
    // 5 bytes of data travel as 16 + 16 + 5 bytes
    let exact = 32 + 8 * 37;
    let mut carrier = carrier_of(exact);
    assert_eq!(
        encode_command(b"hello", Some(KEY), &NONCE, &mut carrier),
        Ok(())
    );
    assert_eq!(decode_command(&carrier, Some(KEY)), Ok(b"hello".to_vec()));

    let mut carrier = carrier_of(exact - 1);
    let before = carrier.clone();
    assert_eq!(
        encode_command(b"hello", Some(KEY), &NONCE, &mut carrier),
        Err(CommandError::CapacityExceeded(DataLengthError {
            required_bits: 296,
            available_bits: 295,
        }))
    );
    assert_eq!(carrier, before);
    // the same data fits unsealed
    assert_eq!(
        encode_command(b"hello", None, &NONCE, &mut carrier),
        Ok(())
    );
}

#[test]
fn unreadable_carrier() {
    assert_eq!(
        decode_command(&[0u8; 10], None),
        Err(CommandError::Carrier(CarrierError::MissingHeader))
    );
    assert_eq!(
        decode_command(&[0xFFu8; 100], Some(KEY)),
        Err(CommandError::Carrier(CarrierError::TruncatedPayload))
    );
}

#[test]
fn empty_message() {
    let mut carrier = carrier_of(32);
    assert_eq!(encode_command(b"", None, &NONCE, &mut carrier), Ok(()));
    assert_eq!(decode_command(&carrier, None), Ok(vec![]));
    let mut carrier = carrier_of(32 + 8 * 32);
    assert_eq!(
        encode_command(b"", Some(KEY), &NONCE, &mut carrier),
        Ok(())
    );
    assert_eq!(decode_command(&carrier, Some(KEY)), Ok(vec![]));
}

#[test]
fn command_error_messages() {
    let capacity = CommandError::CapacityExceeded(DataLengthError {
        required_bits: 8,
        available_bits: 0,
    });
    assert_eq!(
        capacity.message(),
        "Error: The data is to long to be encoded into the given image"
    );
    assert_eq!(
        CommandError::Envelope(EnvelopeError::InvalidKeyLength).message(),
        "Error: The key should be 32 bytes."
    );
    assert_eq!(
        CommandError::Carrier(CarrierError::MissingHeader).message(),
        "Error: The image is too small to hold any data"
    );
}
