use orbital_viewer::gpu_bytes::{index_bytes_u16, index_bytes_u32};

#[test]
fn u32_indices_are_laid_out_in_machine_order() {
    let v: Vec<u32> = vec![1, 0x0102_0304, u32::MAX];
    let b = index_bytes_u32(&v);
    assert_eq!(b.len(), 12);
    let expected: Vec<u8> = v.iter().flat_map(|x| x.to_ne_bytes()).collect();
    assert_eq!(b, &expected[..]);
    assert!(index_bytes_u32(&[]).is_empty());
}

#[test]
fn u16_indices_are_laid_out_in_machine_order() {
    let v: Vec<u16> = vec![0x0a0b, 7];
    let b = index_bytes_u16(&v);
    assert_eq!(b.len(), 4);
    let expected: Vec<u8> = v.iter().flat_map(|x| x.to_ne_bytes()).collect();
    assert_eq!(b, &expected[..]);
    assert_eq!(u16::from_ne_bytes([b[0], b[1]]), 0x0a0b);
    assert_eq!(u16::from_ne_bytes([b[2], b[3]]), 7);
}
