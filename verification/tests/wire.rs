use nanochat_ws::chat::{Message, RECIPIENT_FIELD, TOKEN_FIELD};
use nanochat_ws::wire::{read_delimited, read_key, read_varint, skip_field, skip_group, WireType};
use prost::encoding::DecodeContext;

fn their_wire_type(wire_type: WireType) -> prost::encoding::WireType {
    match wire_type {
        WireType::Varint => prost::encoding::WireType::Varint,
        WireType::SixtyFourBit => prost::encoding::WireType::SixtyFourBit,
        WireType::LengthDelimited => prost::encoding::WireType::LengthDelimited,
        WireType::StartGroup => prost::encoding::WireType::StartGroup,
        WireType::EndGroup => prost::encoding::WireType::EndGroup,
        WireType::ThirtyTwoBit => prost::encoding::WireType::ThirtyTwoBit,
    }
}

fn envelope(token: &str, recipient: &str) -> Vec<u8> {
    let mut bytes = Vec::new();
    prost::encoding::string::encode(TOKEN_FIELD, &token.to_string(), &mut bytes);
    prost::encoding::string::encode(RECIPIENT_FIELD, &recipient.to_string(), &mut bytes);
    bytes
}

fn samples() -> Vec<Vec<u8>> {
    let mut all: Vec<Vec<u8>> = vec![
        vec![],
        vec![0x00],
        vec![0x7f],
        vec![0x80],
        vec![0x80, 0x00],
        vec![0x96, 0x01],
        vec![0xff, 0xff, 0xff, 0xff, 0x0f],
        vec![0xff, 0xff, 0xff, 0xff, 0x10],
        vec![0xff, 0xff, 0xff, 0xff, 0xff, 0xff, 0xff, 0xff, 0x7f],
        vec![0xff, 0xff, 0xff, 0xff, 0xff, 0xff, 0xff, 0xff, 0xff, 0x01],
        vec![0xff, 0xff, 0xff, 0xff, 0xff, 0xff, 0xff, 0xff, 0xff, 0x02],
        vec![0x80, 0x80, 0x80, 0x80, 0x80, 0x80, 0x80, 0x80, 0x80, 0x00],
        vec![0x80, 0x80, 0x80, 0x80, 0x80, 0x80, 0x80, 0x80, 0x80, 0x80, 0x00],
        vec![0x80, 0x80, 0x80, 0x80, 0x80, 0x80, 0x80, 0x80, 0x80],
        vec![0x0a, 0x01, 0x41],
        vec![0x0a, 0x05, 0x41],
        vec![0x08, 0x96, 0x01],
        vec![0x0d, 1, 2, 3, 4],
        vec![0x0d, 1, 2, 3],
        vec![0x09, 1, 2, 3, 4, 5, 6, 7, 8],
        vec![0x09, 1, 2, 3, 4, 5, 6, 7],
        vec![0x0b, 0x08, 0x01, 0x0c],
        vec![0x0b, 0x08, 0x01, 0x14],
        vec![0x0b, 0x13, 0x14, 0x0c, 0x00],
        vec![0x0c],
        vec![0x0e],
        vec![0x0f],
        vec![0x00, 0x00],
        vec![0x07],
        vec![0xf8, 0xff, 0xff, 0xff, 0x0f],
        vec![0xf8, 0xff, 0xff, 0xff, 0x1f],
    ];
    all.push(envelope("a.b.c", "67e55044-10b1-426f-9247-bb680e5fe0c8"));
    all
}

#[test]
fn varint_of_150_is_two_bytes() {
    assert_eq!(read_varint(&[0x96, 0x01], 0), Some((150, 2)));
    assert_eq!(read_varint(&[0xff, 0x96, 0x01, 0x00], 1), Some((150, 3)));
}

#[test]
fn varint_single_byte_values() {
    assert_eq!(read_varint(&[0x00], 0), Some((0, 1)));
    assert_eq!(read_varint(&[0x7f], 0), Some((127, 1)));
    assert_eq!(read_varint(&[0x80, 0x01], 0), Some((128, 2)));
}

#[test]
fn varint_accepts_padded_zero() {
    assert_eq!(read_varint(&[0x80, 0x00], 0), Some((0, 2)));
}

#[test]
fn varint_largest_value_takes_ten_bytes() {
    let bytes = [0xff, 0xff, 0xff, 0xff, 0xff, 0xff, 0xff, 0xff, 0xff, 0x01];
    assert_eq!(read_varint(&bytes, 0), Some((u64::MAX, 10)));
}

#[test]
fn varint_beyond_64_bits_is_refused() {
    let bytes = [0xff, 0xff, 0xff, 0xff, 0xff, 0xff, 0xff, 0xff, 0xff, 0x02];
    assert_eq!(read_varint(&bytes, 0), None);
}

#[test]
fn varint_longer_than_ten_bytes_is_refused() {
    let bytes = [0x80, 0x80, 0x80, 0x80, 0x80, 0x80, 0x80, 0x80, 0x80, 0x80, 0x00];
    assert_eq!(read_varint(&bytes, 0), None);
}

#[test]
fn varint_cut_short_is_refused() {
    assert_eq!(read_varint(&[], 0), None);
    assert_eq!(read_varint(&[0x80], 0), None);
    assert_eq!(read_varint(&[0x01], 1), None);
}

#[test]
fn varint_reads_what_the_encoder_writes() {
    let values: [u64; 9] =
        [0, 1, 127, 128, 300, 16_383, 16_384, 0x0123_4567_89ab_cdef, u64::MAX];
    for value in values {
        let mut bytes = Vec::new();
        prost::encoding::encode_varint(value, &mut bytes);
        assert_eq!(read_varint(&bytes, 0), Some((value, bytes.len())));
    }
}

#[test]
fn varint_agrees_with_prost() {
    for bytes in samples() {
        let mut rest: &[u8] = &bytes;
        let theirs = prost::encoding::decode_varint(&mut rest).ok();
        let ours = read_varint(&bytes, 0);
        assert_eq!(ours.map(|read| read.0), theirs);
        if let Some((_, next)) = ours {
            assert_eq!(next, bytes.len() - rest.len());
        }
    }
}

#[test]
fn key_splits_number_and_wire_type() {
    assert_eq!(read_key(&[0x0a], 0), Some((1, WireType::LengthDelimited, 1)));
    assert_eq!(read_key(&[0x10], 0), Some((2, WireType::Varint, 1)));
    assert_eq!(read_key(&[0x19], 0), Some((3, WireType::SixtyFourBit, 1)));
    assert_eq!(read_key(&[0x23], 0), Some((4, WireType::StartGroup, 1)));
    assert_eq!(read_key(&[0x24], 0), Some((4, WireType::EndGroup, 1)));
    assert_eq!(read_key(&[0x2d], 0), Some((5, WireType::ThirtyTwoBit, 1)));
    assert_eq!(read_key(&[0x82, 0x01], 0), Some((16, WireType::LengthDelimited, 2)));
}

#[test]
fn key_with_field_number_zero_is_refused() {
    assert_eq!(read_key(&[0x00], 0), None);
    assert_eq!(read_key(&[0x02], 0), None);
}

#[test]
fn key_with_unknown_wire_type_is_refused() {
    assert_eq!(read_key(&[0x0e], 0), None);
    assert_eq!(read_key(&[0x0f], 0), None);
}

#[test]
fn key_beyond_32_bits_is_refused() {
    assert_eq!(
        read_key(&[0xf8, 0xff, 0xff, 0xff, 0x0f], 0),
        Some((0x1fff_ffff, WireType::Varint, 5))
    );
    assert_eq!(read_key(&[0xf8, 0xff, 0xff, 0xff, 0x1f], 0), None);
}

#[test]
fn key_agrees_with_prost() {
    for bytes in samples() {
        let mut rest: &[u8] = &bytes;
        let theirs = prost::encoding::decode_key(&mut rest).ok();
        let ours = read_key(&bytes, 0);
        assert_eq!(ours.map(|key| (key.0, their_wire_type(key.1))), theirs);
    }
}

#[test]
fn delimited_value_gives_its_extent() {
    assert_eq!(read_delimited(&[0x02, 0x41, 0x42, 0x43], 0), Some((1, 3)));
    assert_eq!(read_delimited(&[0x00], 0), Some((1, 1)));
    assert_eq!(read_delimited(&[0x03, 0x41, 0x42], 0), None);
}

#[test]
fn skip_passes_over_each_wire_type() {
    assert_eq!(skip_field(&[0x96, 0x01, 0xff], 0, WireType::Varint, 7, 100), Some(2));
    assert_eq!(skip_field(&[1, 2, 3, 4, 5, 6, 7, 8, 9], 0, WireType::SixtyFourBit, 7, 100), Some(8));
    assert_eq!(skip_field(&[1, 2, 3, 4, 5], 1, WireType::ThirtyTwoBit, 7, 100), Some(5));
    assert_eq!(skip_field(&[0x02, 0x41, 0x42, 0x43], 0, WireType::LengthDelimited, 7, 100), Some(3));
    assert_eq!(skip_field(&[0x3c], 0, WireType::StartGroup, 7, 100), Some(1));
}

#[test]
fn skip_refuses_what_runs_past_the_end() {
    assert_eq!(skip_field(&[1, 2, 3, 4, 5, 6, 7], 0, WireType::SixtyFourBit, 7, 100), None);
    assert_eq!(skip_field(&[1, 2, 3], 0, WireType::ThirtyTwoBit, 7, 100), None);
    assert_eq!(skip_field(&[0x05, 0x41], 0, WireType::LengthDelimited, 7, 100), None);
    assert_eq!(skip_field(&[0x80], 0, WireType::Varint, 7, 100), None);
}

#[test]
fn skip_refuses_a_stray_group_end() {
    assert_eq!(skip_field(&[0x00], 0, WireType::EndGroup, 7, 100), None);
}

#[test]
fn skip_refuses_everything_at_depth_zero() {
    assert_eq!(skip_field(&[0x00], 0, WireType::Varint, 7, 0), None);
}

#[test]
fn group_ends_at_its_own_end_key() {
    // field 1 group { field 1 varint 1 } end of group 1
    assert_eq!(skip_group(&[0x08, 0x01, 0x0c], 0, 1, 100), Some(3));
    // closed by the end key of another field
    assert_eq!(skip_group(&[0x08, 0x01, 0x14], 0, 1, 100), None);
    // never closed
    assert_eq!(skip_group(&[0x08, 0x01], 0, 1, 100), None);
}

#[test]
fn nested_groups_are_limited_in_depth() {
    let mut bytes = Vec::new();
    for _ in 0..3 {
        bytes.push(0x0b);
    }
    for _ in 0..3 {
        bytes.push(0x0c);
    }
    // As the value of a field that opened a group: two more groups inside.
    assert_eq!(skip_field(&bytes, 1, WireType::StartGroup, 1, 3), Some(6));
    assert_eq!(skip_field(&bytes, 1, WireType::StartGroup, 1, 2), None);
}

#[test]
fn skip_agrees_with_prost() {
    let kinds = [
        WireType::Varint,
        WireType::SixtyFourBit,
        WireType::LengthDelimited,
        WireType::StartGroup,
        WireType::EndGroup,
        WireType::ThirtyTwoBit,
    ];
    for bytes in samples() {
        for kind in kinds {
            let mut rest: &[u8] = &bytes;
            let theirs = prost::encoding::skip_field(
                their_wire_type(kind),
                1,
                &mut rest,
                DecodeContext::default(),
            )
            .ok()
            .map(|_| bytes.len() - rest.len());
            assert_eq!(skip_field(&bytes, 0, kind, 1, 100), theirs);
        }
    }
}

#[test]
fn deep_nesting_is_refused_where_prost_refuses_it() {
    for depth in [98usize, 99, 100, 101] {
        let mut bytes = Vec::new();
        for _ in 0..depth {
            bytes.push(0x0b);
        }
        for _ in 0..depth {
            bytes.push(0x0c);
        }
        let mut rest: &[u8] = &bytes[1..];
        let theirs = prost::encoding::skip_field(
            prost::encoding::WireType::StartGroup,
            1,
            &mut rest,
            DecodeContext::default(),
        )
        .is_ok();
        let ours = skip_field(&bytes, 1, WireType::StartGroup, 1, 100);
        assert_eq!(ours.is_some(), theirs);
        if theirs {
            assert_eq!(ours, Some(bytes.len()));
        }
    }
}

#[test]
fn envelope_decodes_both_texts() {
    let bytes = envelope("header.claims.signature", "67e55044-10b1-426f-9247-bb680e5fe0c8");
    let message = Message::decode(&bytes).unwrap();
    assert_eq!(message.token, "header.claims.signature");
    assert_eq!(message.recipient_id, "67e55044-10b1-426f-9247-bb680e5fe0c8");
}

#[test]
fn envelope_from_exact_bytes() {
    let bytes = [0x0a, 0x02, b't', b'k', 0x12, 0x03, b'a', b'b', b'c'];
    let message = Message::decode(&bytes).unwrap();
    assert_eq!(
        message,
        Message { token: "tk".to_string(), recipient_id: "abc".to_string() }
    );
}

#[test]
fn empty_envelope_has_empty_texts() {
    let message = Message::decode(&[]).unwrap();
    assert_eq!(message, Message { token: String::new(), recipient_id: String::new() });
}

#[test]
fn envelope_keeps_the_last_of_a_repeated_field() {
    let mut bytes = envelope("first", "one");
    bytes.extend_from_slice(&envelope("second", "two"));
    let message = Message::decode(&bytes).unwrap();
    assert_eq!(message.token, "second");
    assert_eq!(message.recipient_id, "two");
}

#[test]
fn envelope_fields_may_come_in_any_order() {
    let mut bytes = Vec::new();
    prost::encoding::string::encode(RECIPIENT_FIELD, &"to".to_string(), &mut bytes);
    prost::encoding::string::encode(TOKEN_FIELD, &"tk".to_string(), &mut bytes);
    let message = Message::decode(&bytes).unwrap();
    assert_eq!(message.token, "tk");
    assert_eq!(message.recipient_id, "to");
}

#[test]
fn envelope_passes_over_other_fields() {
    let mut bytes = Vec::new();
    prost::encoding::uint64::encode(5, &77u64, &mut bytes);
    prost::encoding::string::encode(TOKEN_FIELD, &"tk".to_string(), &mut bytes);
    prost::encoding::string::encode(3, &"hello there".to_string(), &mut bytes);
    prost::encoding::fixed32::encode(9, &1u32, &mut bytes);
    prost::encoding::string::encode(RECIPIENT_FIELD, &"to".to_string(), &mut bytes);
    prost::encoding::fixed64::encode(4, &1u64, &mut bytes);
    let message = Message::decode(&bytes).unwrap();
    assert_eq!(message.token, "tk");
    assert_eq!(message.recipient_id, "to");
}

#[test]
fn envelope_with_text_that_is_not_utf8_is_refused() {
    assert_eq!(Message::decode(&[0x0a, 0x02, 0xc3, 0x28]), None);
    assert_eq!(Message::decode(&[0x12, 0x01, 0xff]), None);
}

#[test]
fn envelope_with_text_in_utf8_is_read() {
    let message = Message::decode(&[0x0a, 0x02, 0xc3, 0xa9]).unwrap();
    assert_eq!(message.token, "\u{e9}");
}

#[test]
fn envelope_with_a_text_field_of_another_wire_type_is_refused() {
    assert_eq!(Message::decode(&[0x08, 0x01]), None);
    assert_eq!(Message::decode(&[0x10, 0x01]), None);
}

#[test]
fn envelope_cut_short_is_refused() {
    assert_eq!(Message::decode(&[0x0a, 0x05, b'a']), None);
    assert_eq!(Message::decode(&[0x0a]), None);
    assert_eq!(Message::decode(&[0x1a, 0x02, b'a']), None);
}

#[test]
fn envelope_with_a_malformed_key_is_refused() {
    assert_eq!(Message::decode(&[0x00]), None);
    assert_eq!(Message::decode(&[0x0f]), None);
    assert_eq!(Message::decode(&[0x1c]), None);
}

#[test]
fn reading_past_the_end_finds_nothing() {
    assert_eq!(read_varint(&[0x01], 5), None);
    assert_eq!(read_varint(&[0x01], usize::MAX), None);
    assert_eq!(read_key(&[0x08], 2), None);
    assert_eq!(read_delimited(&[0x00], 2), None);
    assert_eq!(skip_field(&[1, 2, 3, 4], 5, WireType::ThirtyTwoBit, 1, 100), None);
    assert_eq!(skip_field(&[1, 2, 3, 4], usize::MAX, WireType::SixtyFourBit, 1, 100), None);
    assert_eq!(skip_group(&[0x0c], 3, 1, 100), None);
}
