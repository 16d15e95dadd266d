use vuzic::frame::RgbaFrame;
use vuzic::strip::to_bytes;

/// Reference packing of one RGBA pixel, as the wire format defines it.
fn packed(r: u8, g: u8, b: u8, a: u8) -> u32 {
    (((a as u32).min(31) | 0xe0) << 24) | ((b as u32) << 16) | ((g as u32) << 8) | (r as u32)
}

#[test]
pub fn to_output_buffer() {
    for i in 0..16 {
        let raw: Vec<u8> = (0..16)
            .map(|j| {
                if i == j {
                    [vec![0xa5; 4], vec![0x5a; 4]].concat()
                } else {
                    vec![0; 8]
                }
            })
            .flatten()
            .collect();
        let image = RgbaFrame::from_raw(2, 16, raw).unwrap();
        let buffer = vuzic::strip::to_output_buffer(&image);
        println!("{:?}", buffer);
    }
}

#[test]
fn bit_plane_round_trip_single_row() {
    // One active row, all other rows zero: decoding bit nk = 31 - k of each
    // 16-bit output word must reproduce exactly bit nk of the packed word
    // for the active row, shifted to that row's bit position.
    for active in 0..16u32 {
        let raw: Vec<u8> = (0..16)
            .map(|j| {
                if active == j {
                    [vec![0xa5u8; 4], vec![0x5au8; 4]].concat()
                } else {
                    vec![0u8; 8]
                }
            })
            .flatten()
            .collect();
        let image = RgbaFrame::from_raw(2, 16, raw).unwrap();
        let buffer = vuzic::strip::to_output_buffer(&image);
        assert_eq!(buffer.len(), 64);

        let word_for = |col: u32, row: u32| -> u32 {
            if row == active {
                if col == 0 {
                    packed(0xa5, 0xa5, 0xa5, 0xa5)
                } else {
                    packed(0x5a, 0x5a, 0x5a, 0x5a)
                }
            } else {
                packed(0, 0, 0, 0)
            }
        };

        for col in 0..2u32 {
            for k in 0..32u32 {
                let nk = 31 - k;
                let out = buffer[(col * 32 + k) as usize];
                for row in 0..16u32 {
                    let got = (out >> row) & 1;
                    let expected = ((word_for(col, row) >> nk) & 1) as u16;
                    assert_eq!(
                        got, expected,
                        "col {} plane {} row {} (active {})",
                        col, k, row, active
                    );
                }
            }
        }
    }
}

#[test]
fn data_planes_have_no_crosstalk() {
    // In the planes below the three fixed command bits, only the active
    // row's bit can be set.
    let active = 5u32;
    let raw: Vec<u8> = (0..16)
        .map(|j| {
            if j == active {
                vec![0xa5u8, 0xa5, 0xa5, 0xa5]
            } else {
                vec![0u8; 4]
            }
        })
        .flatten()
        .collect();
    let image = RgbaFrame::from_raw(1, 16, raw).unwrap();
    let buffer = vuzic::strip::to_output_buffer(&image);
    for k in 3..32u32 {
        let out = buffer[k as usize];
        for row in 0..16u32 {
            if row != active {
                assert_eq!((out >> row) & 1, 0, "crosstalk at plane {} row {}", k, row);
            }
        }
    }
    // The three command planes carry every row's fixed 0xE0 bits.
    for k in 0..3u32 {
        assert_eq!(buffer[k as usize], 0xffff);
    }
}

#[test]
fn short_frames_leave_high_row_bits_clear() {
    let raw = vec![0xffu8; 4 * 2 * 2];
    let image = RgbaFrame::from_raw(2, 2, raw).unwrap();
    let buffer = vuzic::strip::to_output_buffer(&image);
    assert_eq!(buffer.len(), 64);
    for word in buffer {
        assert_eq!(word & !0b11, 0);
    }
}

#[test]
fn alpha_is_clamped_to_five_bits() {
    // alpha 0x07 stays, alpha 0xa5 clamps to 31; both get the 0xE0 command
    // bits. Check through the brightness planes of a 1x1 image.
    let image = RgbaFrame::from_raw(1, 1, vec![0, 0, 0, 0x07]).unwrap();
    let buffer = vuzic::strip::to_output_buffer(&image);
    let word = packed(0, 0, 0, 0x07);
    assert_eq!(word, 0xe7000000);
    for k in 0..32u32 {
        assert_eq!(buffer[k as usize] & 1, ((word >> (31 - k)) & 1) as u16);
    }
}

#[test]
fn to_bytes_is_big_endian() {
    let words: Vec<u16> = vec![0x1234, 0xabcd, 0x0001];
    let bytes = to_bytes(words.as_slice());
    assert_eq!(bytes, vec![0x12, 0x34, 0xab, 0xcd, 0x00, 0x01]);
}

#[test]
fn to_bytes_empty() {
    let words: Vec<u16> = Vec::new();
    let bytes = to_bytes(words.as_slice());
    assert!(bytes.is_empty());
}
