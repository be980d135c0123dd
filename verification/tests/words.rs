use glslgen::bits::element_offset;
use glslgen::bits::word_extract_signed;
use glslgen::bits::word_extract_unsigned;
use glslgen::bits::word_pack_signed;
use glslgen::bits::word_pack_unsigned;
use glslgen::coverage::struct_coverage;
use glslgen::glsl::extract_ibits;
use glslgen::glsl::extract_ubits;
use glslgen::glsl::gen_pack_bits_scalar;
use glslgen::glsl::simplified_add;
use glslgen::ir::Field;
use glslgen::ir::GpuScalar;
use glslgen::ir::GpuType;
use glslgen::ir::LayoutType;
use glslgen::strfmt::dec_string;

fn unsigned_rest(byte: u32, nbytes: u32) -> u32 {
    let mask: u32 = match nbytes {
        1 => 0xff,
        2 => 0xffff,
        _ => 0xffff_ffff,
    };
    !(mask << (8 * byte))
}

#[test]
fn unsigned_round_trip_all_placements() {
    for &nbytes in &[1u32, 2, 4] {
        let max: u32 = match nbytes {
            1 => 0xff,
            2 => 0xffff,
            _ => 0xffff_ffff,
        };
        for byte in 0..=(4 - nbytes) {
            for &v in &[0u32, 1, max / 2, max] {
                let packed = word_pack_unsigned(v, byte, nbytes);
                assert_eq!(word_extract_unsigned(packed, byte, nbytes), v);
                let noisy = unsigned_rest(byte, nbytes) | packed;
                assert_eq!(word_extract_unsigned(noisy, byte, nbytes), v);
            }
        }
    }
}

#[test]
fn signed_round_trip_boundary_values() {
    for byte in 0..4u32 {
        for &v in &[-128i32, -1, 0, 1, 127] {
            let packed = word_pack_signed(v, byte, 1);
            assert_eq!(word_extract_signed(packed, byte, 1), v);
            let noisy = unsigned_rest(byte, 1) | packed;
            assert_eq!(word_extract_signed(noisy, byte, 1), v);
        }
    }
    for byte in 0..3u32 {
        for &v in &[-32768i32, -1, 0, 32767] {
            let packed = word_pack_signed(v, byte, 2);
            assert_eq!(word_extract_signed(packed, byte, 2), v);
            let noisy = unsigned_rest(byte, 2) | packed;
            assert_eq!(word_extract_signed(noisy, byte, 2), v);
        }
    }
    for &v in &[i32::MIN, -1, 0, i32::MAX] {
        let packed = word_pack_signed(v, 0, 4);
        assert_eq!(word_extract_signed(packed, 0, 4), v);
    }
}

#[test]
fn float_bit_patterns_survive_a_full_word() {
    for &f in &[0.0f32, -0.0, 1.5, f32::NAN, f32::INFINITY, f32::MIN_POSITIVE] {
        let bits = f.to_bits();
        let packed = word_pack_unsigned(bits, 0, 4);
        let back = word_extract_unsigned(packed, 0, 4);
        assert_eq!(back, bits);
        assert_eq!(f32::from_bits(back).to_bits(), f.to_bits());
    }
}

#[test]
fn sign_extension_examples() {
    // An i8 value of -2 stored at byte 1 of a word otherwise full of ones.
    let packed = word_pack_signed(-2, 1, 1);
    assert_eq!(packed, 0xfe00);
    assert_eq!(word_extract_signed(0xffff_0000 | packed, 1, 1), -2);
    // An i16 at the top of the word needs no mask when packed.
    assert_eq!(word_pack_signed(-1, 2, 2), 0xffff_0000);
}

#[test]
fn element_offset_scales_linearly() {
    assert_eq!(element_offset(0, 0, 8), 0);
    assert_eq!(element_offset(16, 0, 8), 16);
    assert_eq!(element_offset(16, 1, 8), 24);
    assert_eq!(element_offset(16, 5, 12), 76);
}

#[test]
fn unsigned_extraction_text_shapes() {
    assert_eq!(extract_ubits(0, 4), "raw0");
    assert_eq!(extract_ubits(4, 4), "raw1");
    assert_eq!(extract_ubits(0, 1), "raw0 & 0xff");
    assert_eq!(extract_ubits(4, 2), "raw1 & 0xffff");
    assert_eq!(extract_ubits(2, 2), "raw0 >> 16");
    assert_eq!(extract_ubits(3, 1), "raw0 >> 24");
    assert_eq!(extract_ubits(1, 1), "(raw0 >> 8) & 0xff");
    assert_eq!(extract_ubits(9, 2), "(raw2 >> 8) & 0xffff");
}

#[test]
fn signed_extraction_text_shapes() {
    assert_eq!(extract_ibits(0, 4), "int(raw0)");
    assert_eq!(extract_ibits(3, 1), "int(raw0) >> 24");
    assert_eq!(extract_ibits(2, 2), "int(raw0) >> 16");
    assert_eq!(extract_ibits(0, 1), "int(raw0 << 24) >> 24");
    assert_eq!(extract_ibits(1, 2), "int(raw0 << 8) >> 16");
    assert_eq!(extract_ibits(6, 1), "int(raw1 << 8) >> 24");
}

#[test]
fn packing_text_shapes() {
    assert_eq!(gen_pack_bits_scalar(&GpuScalar::U8, 0, "s.a"), "s.a");
    assert_eq!(gen_pack_bits_scalar(&GpuScalar::U8, 3, "s.a"), "(s.a << 24)");
    assert_eq!(
        gen_pack_bits_scalar(&GpuScalar::I8, 1, "s.b"),
        "((uint(s.b) & 0xff) << 8)"
    );
    assert_eq!(gen_pack_bits_scalar(&GpuScalar::I8, 3, "s.b"), "(uint(s.b) << 24)");
    assert_eq!(gen_pack_bits_scalar(&GpuScalar::I16, 2, "s.c"), "(uint(s.c) << 16)");
    assert_eq!(
        gen_pack_bits_scalar(&GpuScalar::I16, 0, "s.c"),
        "(uint(s.c) & 0xffff)"
    );
    assert_eq!(gen_pack_bits_scalar(&GpuScalar::I32, 0, "s.d"), "uint(s.d)");
    assert_eq!(
        gen_pack_bits_scalar(&GpuScalar::F32, 4, "s.e"),
        "floatBitsToUint(s.e)"
    );
}

#[test]
fn simplified_add_drops_zero() {
    assert_eq!(simplified_add("ref.offset", 0), "ref.offset");
    assert_eq!(simplified_add("ref.offset", 12), "ref.offset + 12");
}

#[test]
fn decimal_rendering() {
    assert_eq!(dec_string(0), "0");
    assert_eq!(dec_string(7), "7");
    assert_eq!(dec_string(10), "10");
    assert_eq!(dec_string(105), "105");
    assert_eq!(dec_string(123456789), "123456789");
}

fn cov_field(name: &str, offset: usize, size: usize, ty: GpuType) -> Field {
    Field {
        name: name.to_string(),
        offset,
        ty: LayoutType { size, ty },
    }
}

#[test]
fn coverage_lists_every_overlapping_field_per_word() {
    let fields = vec![
        cov_field("pad", 0, 2, GpuType::Scalar(GpuScalar::U16)),
        cov_field("v", 2, 3, GpuType::Vector(GpuScalar::U8, 3)),
    ];
    let cov = struct_coverage(&fields, false);
    assert_eq!(cov, vec![vec![0, 1], vec![1]]);
}

#[test]
fn coverage_of_each_byte_is_its_containing_word() {
    // One aligned word-sized field per word: byte b belongs to field b / 4.
    let fields = vec![
        cov_field("a", 0, 4, GpuType::Scalar(GpuScalar::U32)),
        cov_field("b", 4, 4, GpuType::Scalar(GpuScalar::F32)),
        cov_field("c", 8, 4, GpuType::Scalar(GpuScalar::I32)),
    ];
    let cov = struct_coverage(&fields, false);
    assert_eq!(cov, vec![vec![0], vec![1], vec![2]]);
}

#[test]
fn nested_struct_coverage_differs_between_modes() {
    let fields = vec![
        cov_field("a", 0, 4, GpuType::Scalar(GpuScalar::U32)),
        cov_field("b", 4, 8, GpuType::InlineStruct("B".to_string())),
    ];
    // Reading must load every word the nested struct's bytes touch.
    assert_eq!(struct_coverage(&fields, false), vec![vec![0], vec![1], vec![1]]);
    // Writing pins the nested struct to its first word: one recursive call.
    assert_eq!(struct_coverage(&fields, true), vec![vec![0], vec![1]]);
}

#[test]
fn reference_fields_cover_one_word() {
    let fields = vec![
        cov_field("next", 0, 4, GpuType::Reference("N".to_string())),
        cov_field("a", 4, 1, GpuType::Scalar(GpuScalar::U8)),
    ];
    let cov = struct_coverage(&fields, true);
    assert_eq!(cov, vec![vec![0], vec![1]]);
}

#[test]
fn empty_struct_covers_no_words() {
    let fields: Vec<Field> = vec![];
    assert_eq!(struct_coverage(&fields, false).len(), 0);
}
