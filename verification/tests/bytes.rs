use geebee::bytes::{assemble, extract};

#[test]
fn test_extract() {
    assert_eq!(extract(0x0000), (0x00, 0x00));
    assert_eq!(extract(0xffff), (0xff, 0xff));
    assert_eq!(extract(0x0102), (0x01, 0x02));
}

#[test]
fn test_assemble() {
    assert_eq!(assemble(0x00, 0x00), 0x0000);
    assert_eq!(assemble(0xff, 0xff), 0xffff);
    assert_eq!(assemble(0x01, 0x02), 0x0102);
}

#[test]
fn extract_undoes_assemble() {
    for high in [0x00u8, 0x01, 0x7f, 0x80, 0xfe, 0xff] {
        for low in [0x00u8, 0x10, 0xab, 0xff] {
            assert_eq!(extract(assemble(high, low)), (high, low));
        }
    }
    for value in [0x0000u16, 0x1234, 0x8000, 0xbeef, 0xffff] {
        let (h, l) = extract(value);
        assert_eq!(assemble(h, l), value);
    }
}
