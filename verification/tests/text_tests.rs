use l2portal::text::decode_utf16_lossy;

#[test]
fn utf16_decoding_agrees_with_std() {
    let cases: [&[u16]; 9] = [
        &[],
        &[0x45, 0x74, 0x68],
        &[0xD83D, 0xDE00],
        &[0xD800],
        &[0xDC00],
        &[0xD800, 0x41],
        &[0xDBFF, 0xDFFF, 0xD7FF, 0xE000, 0xFFFF],
        &[0xDC00, 0xD800, 0xDC00],
        &[0x0, 0xD800, 0xD800],
    ];
    for units in cases {
        assert_eq!(decode_utf16_lossy(units), String::from_utf16_lossy(units), "{units:?}");
    }
    assert_eq!(decode_utf16_lossy(&[0xDBFF, 0xDFFF]), "\u{10FFFF}");
}
