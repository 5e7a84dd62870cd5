use anchor_lang::solana_program::hash::hash;
use escrow::{Address, Escrow, DISCRIMINATOR, ESCROW_LEN};

fn sample() -> Escrow {
    Escrow {
        bump: 254,
        seed: 7,
        receive_amount: 0x0102_0304_0506_0708,
        maker: Address { bytes: [1; 32] },
        mint_a: Address { bytes: [2; 32] },
        mint_b: Address { bytes: [3; 32] },
    }
}

#[test]
fn discriminator_is_the_head_of_the_hash_of_the_records_name() {
    assert_eq!(DISCRIMINATOR[..], hash(b"account:Escrow").to_bytes()[..8]);
}

#[test]
fn record_is_written_field_by_field() {
    let data = sample().try_serialize();
    assert_eq!(data.len(), ESCROW_LEN);
    assert_eq!(ESCROW_LEN, 8 + 1 + 8 + 8 + 32 + 32 + 32);
    let mut expected = vec![31, 213, 123, 187, 186, 22, 218, 155];
    expected.push(254);
    expected.extend_from_slice(&[7, 0, 0, 0, 0, 0, 0, 0]);
    expected.extend_from_slice(&[8, 7, 6, 5, 4, 3, 2, 1]);
    expected.extend_from_slice(&[1; 32]);
    expected.extend_from_slice(&[2; 32]);
    expected.extend_from_slice(&[3; 32]);
    assert_eq!(data, expected);
}

#[test]
fn record_is_read_back() {
    let data = sample().try_serialize();
    assert_eq!(Escrow::try_deserialize(&data), Some(sample()));
    let largest = Escrow { bump: 255, seed: u64::MAX, receive_amount: u64::MAX, ..sample() };
    assert_eq!(Escrow::try_deserialize(&largest.try_serialize()), Some(largest));
    let least = Escrow { bump: 0, seed: 0, receive_amount: 0, ..sample() };
    assert_eq!(Escrow::try_deserialize(&least.try_serialize()), Some(least));
}

#[test]
fn bytes_past_the_record_are_not_looked_at() {
    let mut data = sample().try_serialize();
    data.extend_from_slice(&[9, 9, 9]);
    assert_eq!(Escrow::try_deserialize(&data), Some(sample()));
}

#[test]
fn record_with_another_tag_is_not_read() {
    for i in 0..8 {
        let mut data = sample().try_serialize();
        data[i] ^= 1;
        assert_eq!(Escrow::try_deserialize(&data), None);
    }
    assert_eq!(Escrow::try_deserialize(&[0; 121]), None);
}

#[test]
fn record_cut_short_is_not_read() {
    let data = sample().try_serialize();
    assert_eq!(Escrow::try_deserialize(&data[..120]), None);
    assert_eq!(Escrow::try_deserialize(&data[..8]), None);
    assert_eq!(Escrow::try_deserialize(&[]), None);
}
