use render_core::packing::{
    pack_base_block, pack_extra_block, record_stride, InstanceParams, BASE_RECORD_BYTES,
    EXTRA_RECORD_BYTES,
};

fn word(b: &[u8], i: usize) -> u32 {
    u32::from_ne_bytes([b[4 * i], b[4 * i + 1], b[4 * i + 2], b[4 * i + 3]])
}

fn inst(color: [f32; 4], offset: [f32; 2], scale: f32) -> InstanceParams {
    InstanceParams {
        color: color.map(f32::to_bits),
        offset: offset.map(f32::to_bits),
        scale: scale.to_bits(),
    }
}

#[test]
fn stride_is_at_least_32_bytes() {
    assert_eq!(record_stride(BASE_RECORD_BYTES, 0), 32);
    assert_eq!(record_stride(EXTRA_RECORD_BYTES, 16), 32);
    assert_eq!(record_stride(40, 32), 64);
}

#[test]
fn stride_follows_a_larger_device_alignment() {
    assert_eq!(record_stride(BASE_RECORD_BYTES, 256), 256);
    assert_eq!(record_stride(300, 256), 512);
    assert_eq!(record_stride(0, 256), 0);
}

#[test]
fn base_block_holds_colour_offset_and_padding() {
    let ps = vec![
        inst([1.0, 0.0, 0.0, 1.0], [0.0, 0.0], 0.3),
        inst([0.1, 0.2, 0.3, 0.4], [-0.5, 0.9], 0.2),
    ];
    let b = pack_base_block(&ps, 32);
    assert_eq!(b.len(), 64);
    assert_eq!(f32::from_bits(word(&b, 0)), 1.0);
    assert_eq!(f32::from_bits(word(&b, 1)), 0.0);
    assert_eq!(f32::from_bits(word(&b, 3)), 1.0);
    assert_eq!(word(&b, 6), 0);
    assert_eq!(word(&b, 7), 0);
    assert_eq!(f32::from_bits(word(&b, 8)), 0.1);
    assert_eq!(f32::from_bits(word(&b, 12)), -0.5);
    assert_eq!(f32::from_bits(word(&b, 13)), 0.9);
}

#[test]
fn extra_record_is_scale_over_aspect_and_scale() {
    let (s, a) = (0.5f32, 2.0f32);
    let ps = vec![inst([0.0; 4], [0.0; 2], s)];
    let b = pack_extra_block(&ps, &vec![(s / a).to_bits()], 32);
    assert_eq!(b.len(), 32);
    assert_eq!(f32::from_bits(word(&b, 0)), 0.25);
    assert_eq!(f32::from_bits(word(&b, 1)), 0.5);
    for k in 2..8 {
        assert_eq!(word(&b, k), 0);
    }
}

#[test]
fn extra_block_keeps_instance_order() {
    let ps = vec![inst([0.0; 4], [0.0; 2], 0.2), inst([0.0; 4], [0.0; 2], 0.4)];
    let sx = vec![0.1f32.to_bits(), 0.2f32.to_bits()];
    let b = pack_extra_block(&ps, &sx, 256);
    assert_eq!(b.len(), 512);
    assert_eq!(f32::from_bits(word(&b, 0)), 0.1);
    assert_eq!(f32::from_bits(word(&b, 1)), 0.2);
    assert_eq!(f32::from_bits(word(&b, 64)), 0.2);
    assert_eq!(f32::from_bits(word(&b, 65)), 0.4);
}

#[test]
fn empty_blocks_for_no_instances() {
    assert!(pack_base_block(&vec![], 32).is_empty());
    assert!(pack_extra_block(&vec![], &vec![], 32).is_empty());
}
