use sponsor_block::client::user::segments::{hash_prefix_of_digest, hash_prefix_of_video_id};
use sponsor_block::util::bytes_to_hex_string;

#[test]
fn no_bytes_no_digits() {
    assert_eq!(bytes_to_hex_string(&[]), "");
}

#[test]
fn two_lower_case_digits_per_byte() {
    assert_eq!(bytes_to_hex_string(&[0x00, 0x0f, 0xa0, 0xff, 0x10, 0x9c]), "000fa0ff109c");
}

#[test]
fn every_byte_is_written_as_by_the_formatter() {
    for byte in 0..=255u8 {
        assert_eq!(bytes_to_hex_string(&[byte]), format!("{:02x}", byte));
    }
}

#[test]
fn prefix_of_a_digest() {
    let digest = [0xce, 0x06, 0x15, 0xcb];
    assert_eq!(hash_prefix_of_digest(&digest, 0), "");
    assert_eq!(hash_prefix_of_digest(&digest, 4), "ce06");
    assert_eq!(hash_prefix_of_digest(&digest, 5), "ce061");
    assert_eq!(hash_prefix_of_digest(&digest, 8), "ce0615cb");
}

#[test]
fn prefix_of_the_hash_of_a_video_id() {
    assert_eq!(hash_prefix_of_video_id("9Yhc6mmdJC4", 4), "ce06");
    assert_eq!(hash_prefix_of_video_id("9Yhc6mmdJC4", 32), "ce0615cbe12acf60995439b42ad89441");
    assert_eq!(
        hash_prefix_of_video_id("9Yhc6mmdJC4", 64),
        "ce0615cbe12acf60995439b42ad89441c11fdfa7f1529b46ee83a5e693319063"
    );
    assert_eq!(hash_prefix_of_video_id("dQw4w9WgXcQ", 4), "5f6b");
    assert_eq!(
        hash_prefix_of_video_id("", 64),
        "e3b0c44298fc1c149afbf4c8996fb92427ae41e4649b934ca495991b7852b855"
    );
}
