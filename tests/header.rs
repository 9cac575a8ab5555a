use rscpi::header::{
    decode_response_header, next_tag, pack_bulk_out_header, pack_dev_dep_msg_in_header,
    pack_dev_dep_msg_out, pack_dev_dep_msg_out_header, padding_len, ResponseHeader,
};
use rscpi::UsbtmcErrors;

#[test]
fn bulk_out_header_carries_tag_and_complement() {
    assert_eq!(pack_bulk_out_header(1, 1), vec![1, 1, 254, 0]);
    assert_eq!(pack_bulk_out_header(2, 0x5A), vec![2, 0x5A, 0xA5, 0]);
}

#[test]
fn dev_dep_msg_out_header_layout() {
    assert_eq!(
        pack_dev_dep_msg_out_header(6, true, 1),
        vec![1, 1, 254, 0, 6, 0, 0, 0, 1, 0, 0, 0]
    );
    assert_eq!(
        pack_dev_dep_msg_out_header(0x1234_5678, false, 7),
        vec![1, 7, 248, 0, 0x78, 0x56, 0x34, 0x12, 0, 0, 0, 0]
    );
}

#[test]
fn dev_dep_msg_in_header_layout() {
    assert_eq!(
        pack_dev_dep_msg_in_header(1024 * 1024, None, 2),
        vec![2, 2, 253, 0, 0x00, 0x00, 0x10, 0x00, 0, 0, 0, 0]
    );
    assert_eq!(
        pack_dev_dep_msg_in_header(0xAABB_CCDD, Some(b'\n'), 3),
        vec![2, 3, 252, 0, 0xDD, 0xCC, 0xBB, 0xAA, 2, b'\n', 0, 0]
    );
}

#[test]
fn response_header_decoding() {
    let bytes = [2u8, 1, 254, 0, 0x13, 0x00, 0x01, 0x00, 1, 0, 0, 0, b'x'];
    assert_eq!(
        decode_response_header(&bytes),
        Ok(ResponseHeader { transfer_size: 0x0001_0013, eom: true })
    );
    let bytes = [2u8, 1, 254, 0, 0xff, 0xff, 0xff, 0xff, 2, 0, 0, 0];
    assert_eq!(
        decode_response_header(&bytes),
        Ok(ResponseHeader { transfer_size: u32::MAX, eom: false })
    );
}

#[test]
fn response_header_too_short() {
    assert_eq!(decode_response_header(&[]), Err(UsbtmcErrors::InvalidData));
    assert_eq!(decode_response_header(&[2u8; 11]), Err(UsbtmcErrors::InvalidData));
}

#[test]
fn header_round_trip_on_values() {
    for &size in &[0u32, 1, 19, 255, 256, 65_536, 0x8000_0000, u32::MAX] {
        for &eom in &[true, false] {
            let h = pack_dev_dep_msg_out_header(size, eom, 9);
            assert_eq!(
                decode_response_header(&h),
                Ok(ResponseHeader { transfer_size: size, eom })
            );
        }
    }
}

#[test]
fn tags_rotate_and_skip_zero() {
    assert_eq!(next_tag(0), 1);
    assert_eq!(next_tag(1), 2);
    assert_eq!(next_tag(254), 255);
    assert_eq!(next_tag(255), 1);
}

#[test]
fn padding_fills_words() {
    assert_eq!(padding_len(0), 0);
    assert_eq!(padding_len(1), 3);
    assert_eq!(padding_len(2), 2);
    assert_eq!(padding_len(3), 1);
    assert_eq!(padding_len(6), 2);
    for len in 0..64usize {
        let pad = padding_len(len);
        assert!(pad <= 3);
        assert_eq!((12 + len + pad) % 4, 0);
    }
}

#[test]
fn command_message_is_framed_and_padded() {
    let msg = pack_dev_dep_msg_out(b"*IDN?\n", 1);
    assert_eq!(
        msg,
        vec![1, 1, 254, 0, 6, 0, 0, 0, 1, 0, 0, 0, b'*', b'I', b'D', b'N', b'?', b'\n', 0, 0]
    );
    let msg = pack_dev_dep_msg_out(b"*RST\n", 4);
    assert_eq!(msg.len(), 20);
    assert_eq!(&msg[4..8], &[5, 0, 0, 0]);
    assert_eq!(&msg[12..17], b"*RST\n");
    assert_eq!(&msg[17..], &[0, 0, 0]);
    let msg = pack_dev_dep_msg_out(b"ABCD", 4);
    assert_eq!(msg.len(), 16);
}
