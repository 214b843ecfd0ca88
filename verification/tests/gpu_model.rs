use aixker_rlt::gpu_model::{ceil_div, params_bytes, u32_bytes};

#[test]
fn ceil_div_rounds_up() {
    assert_eq!(ceil_div(0, 8), 0);
    assert_eq!(ceil_div(8, 8), 1);
    assert_eq!(ceil_div(9, 8), 2);
    assert_eq!(ceil_div(u32::MAX, 64), u32::MAX.div_ceil(64));
    assert_eq!(ceil_div(u32::MAX, 1), u32::MAX);
}

#[test]
fn params_bytes_lays_out_lanes_in_native_order() {
    let p = [1u32, 0x0102_0304, 7, u32::MAX];
    let out = params_bytes(p);
    for (i, v) in p.iter().enumerate() {
        assert_eq!(out[i * 4..i * 4 + 4], v.to_ne_bytes());
    }
    assert_ne!(out, [0u8; 16]);
}

#[test]
fn u32_bytes_concatenates_native_forms() {
    let data = [0xdead_beefu32, 3];
    let out = u32_bytes(&data);
    assert_eq!(out.len(), 8);
    let expected: Vec<u8> = data.iter().flat_map(|v| v.to_ne_bytes()).collect();
    assert_eq!(out, expected);
    assert!(u32_bytes(&[]).is_empty());
}
