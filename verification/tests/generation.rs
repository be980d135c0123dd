use glslgen::gen_glsl;
use glslgen::ir::Field;
use glslgen::ir::GpuScalar;
use glslgen::ir::GpuType;
use glslgen::ir::LayoutModule;
use glslgen::ir::LayoutType;
use glslgen::ir::LayoutTypeDef;
use glslgen::ir::NamedDef;
use glslgen::ir::PayloadItem;
use glslgen::ir::Variant;

fn field(name: &str, offset: usize, size: usize, ty: GpuType) -> Field {
    Field {
        name: name.to_string(),
        offset,
        ty: LayoutType { size, ty },
    }
}

fn scalar_field(name: &str, offset: usize, s: GpuScalar, size: usize) -> Field {
    field(name, offset, size, GpuType::Scalar(s))
}

fn module(name: &str, defs: Vec<NamedDef>, gpu_write: bool) -> LayoutModule {
    LayoutModule {
        name: name.to_string(),
        defs,
        gpu_write,
    }
}

fn mixed_scalar_module() -> LayoutModule {
    let fields = vec![
        scalar_field("a", 0, GpuScalar::U8, 1),
        scalar_field("b", 1, GpuScalar::I8, 1),
        scalar_field("c", 2, GpuScalar::U16, 2),
        scalar_field("d", 4, GpuScalar::F32, 4),
    ];
    module(
        "memory",
        vec![NamedDef {
            name: "Mix".to_string(),
            size: 8,
            def: LayoutTypeDef::Struct(fields),
        }],
        true,
    )
}

#[test]
fn single_word_struct_full_output() {
    let m = module(
        "buf",
        vec![NamedDef {
            name: "A".to_string(),
            size: 4,
            def: LayoutTypeDef::Struct(vec![scalar_field("x", 0, GpuScalar::U32, 4)]),
        }],
        true,
    );
    let out = gen_glsl(&m);
    let expected = "// GLSL layout accessors\n\n\
struct ARef {\n    uint offset;\n};\n\n\
struct A {\n    uint x;\n};\n\n\
#define A_size 4\n\n\
ARef A_index(ARef ref, uint index) {\n    return ARef(ref.offset + index * A_size);\n}\n\n\
A A_read(ARef ref) {\n    uint ix = ref.offset >> 2;\n    uint raw0 = buf[ix + 0];\n    A s;\n    s.x = raw0;\n    return s;\n}\n\n\
void A_write(ARef ref, A s) {\n    uint ix = ref.offset >> 2;\n    buf[ix + 0] = s.x;\n}\n\n";
    assert_eq!(out, expected);
}

#[test]
fn mixed_scalar_extraction_expressions() {
    let out = gen_glsl(&mixed_scalar_module());
    assert!(out.contains("    s.a = raw0 & 0xff;\n"));
    assert!(out.contains("    s.b = int(raw0 << 16) >> 24;\n"));
    assert!(out.contains("    s.c = raw0 >> 16;\n"));
    assert!(out.contains("    s.d = uintBitsToFloat(raw1);\n"));
}

#[test]
fn mixed_scalar_loads_both_words() {
    let out = gen_glsl(&mixed_scalar_module());
    assert!(out.contains("    uint raw0 = memory[ix + 0];\n"));
    assert!(out.contains("    uint raw1 = memory[ix + 1];\n"));
}

#[test]
fn mixed_scalar_write_words() {
    let out = gen_glsl(&mixed_scalar_module());
    assert!(out.contains(
        "    memory[ix + 0] = s.a | ((uint(s.b) & 0xff) << 8) | (s.c << 16);\n"
    ));
    assert!(out.contains("    memory[ix + 1] = floatBitsToUint(s.d);\n"));
}

fn byte_vector_module(gpu_write: bool) -> LayoutModule {
    let fields = vec![
        scalar_field("pad", 0, GpuScalar::U16, 2),
        field("v", 2, 3, GpuType::Vector(GpuScalar::U8, 3)),
    ];
    module(
        "buf",
        vec![NamedDef {
            name: "V".to_string(),
            size: 8,
            def: LayoutTypeDef::Struct(fields),
        }],
        gpu_write,
    )
}

#[test]
fn vector_lanes_split_across_words_on_read() {
    let out = gen_glsl(&byte_vector_module(false));
    assert!(out.contains("    s.v = uvec3((raw0 >> 16) & 0xff, raw0 >> 24, raw1 & 0xff);\n"));
    assert!(out.contains("    uint raw0 = buf[ix + 0];\n"));
    assert!(out.contains("    uint raw1 = buf[ix + 1];\n"));
}

#[test]
fn vector_lanes_split_across_words_on_write() {
    let out = gen_glsl(&byte_vector_module(true));
    assert!(out.contains("    buf[ix + 0] = s.pad | (s.v.x << 16) | (s.v.y << 24);\n"));
    assert!(out.contains("    buf[ix + 1] = s.v.z;\n"));
}

fn union_module() -> LayoutModule {
    let point_fields = vec![
        scalar_field("x", 0, GpuScalar::F32, 4),
        scalar_field("y", 4, GpuScalar::F32, 4),
    ];
    let variants = vec![
        Variant {
            name: "Empty".to_string(),
            payload: vec![],
        },
        Variant {
            name: "Filled".to_string(),
            payload: vec![PayloadItem {
                offset: 4,
                ty: LayoutType {
                    size: 8,
                    ty: GpuType::InlineStruct("PointStruct".to_string()),
                },
            }],
        },
    ];
    module(
        "memory",
        vec![
            NamedDef {
                name: "PointStruct".to_string(),
                size: 8,
                def: LayoutTypeDef::Struct(point_fields),
            },
            NamedDef {
                name: "Shape".to_string(),
                size: 12,
                def: LayoutTypeDef::Enum(variants),
            },
        ],
        true,
    )
}

#[test]
fn union_tags_are_declaration_order() {
    let out = gen_glsl(&union_module());
    assert!(out.contains("#define Shape_Empty 0\n"));
    assert!(out.contains("#define Shape_Filled 1\n"));
}

#[test]
fn union_tag_reader_reads_word_zero() {
    let out = gen_glsl(&union_module());
    assert!(out.contains(
        "uint Shape_tag(ShapeRef ref) {\n    return memory[ref.offset >> 2];\n}\n\n"
    ));
}

#[test]
fn union_payload_reader_delegates_at_fixed_offset() {
    let out = gen_glsl(&union_module());
    assert!(out.contains(
        "PointStruct Shape_Filled_read(ShapeRef ref) {\n    return PointStruct_read(PointStructRef(ref.offset + 4));\n}\n\n"
    ));
    assert!(!out.contains("Shape_Empty_read"));
}

#[test]
fn union_writers_store_tag_then_payload() {
    let out = gen_glsl(&union_module());
    assert!(out.contains(
        "void Shape_Empty_write(ShapeRef ref) {\n    memory[ref.offset >> 2] = Shape_Empty;\n}\n\n"
    ));
    assert!(out.contains(
        "void Shape_Filled_write(ShapeRef ref, PointStruct s) {\n    memory[ref.offset >> 2] = Shape_Filled;\n    PointStruct_write(PointStructRef(ref.offset + 4), s);\n}\n\n"
    ));
}

#[test]
fn index_helper_advances_by_item_size() {
    let out = gen_glsl(&union_module());
    assert!(out.contains(
        "ShapeRef Shape_index(ShapeRef ref, uint index) {\n    return ShapeRef(ref.offset + index * Shape_size);\n}\n\n"
    ));
    assert!(out.contains("#define Shape_size 12\n"));
    assert!(out.contains("#define PointStruct_size 8\n"));
}

#[test]
fn generation_is_idempotent() {
    let out1 = gen_glsl(&union_module());
    let out2 = gen_glsl(&union_module());
    assert_eq!(out1, out2);
    let out3 = gen_glsl(&mixed_scalar_module());
    let out4 = gen_glsl(&mixed_scalar_module());
    assert_eq!(out3, out4);
}

#[test]
fn read_only_module_emits_no_writers() {
    let out = gen_glsl(&byte_vector_module(false));
    assert!(!out.contains("_write"));
}

fn nested_module() -> LayoutModule {
    let inner = vec![scalar_field("w", 0, GpuScalar::U32, 4)];
    let outer = vec![
        scalar_field("a", 0, GpuScalar::U32, 4),
        field("b", 4, 8, GpuType::InlineStruct("B".to_string())),
        field("next", 12, 4, GpuType::Reference("Outer".to_string())),
    ];
    module(
        "buf",
        vec![
            NamedDef {
                name: "B".to_string(),
                size: 8,
                def: LayoutTypeDef::Struct(inner),
            },
            NamedDef {
                name: "Outer".to_string(),
                size: 16,
                def: LayoutTypeDef::Struct(outer),
            },
        ],
        true,
    )
}

#[test]
fn nested_struct_read_delegates_and_reference_stays_a_handle() {
    let out = gen_glsl(&nested_module());
    assert!(out.contains("    s.b = B_read(BRef(ref.offset + 4));\n"));
    assert!(out.contains("    s.next = OuterRef(raw3);\n"));
}

#[test]
fn nested_struct_write_emits_one_recursive_call() {
    let out = gen_glsl(&nested_module());
    assert!(out.contains("    B_write(BRef(ref.offset + 4), s.b);\n"));
    assert_eq!(out.matches("B_write(BRef(ref.offset + 4), s.b);").count(), 1);
    assert!(out.contains("    buf[ix + 3] = s.next.offset;\n"));
}

#[test]
fn nested_struct_at_offset_zero_drops_the_add() {
    let inner = vec![scalar_field("w", 0, GpuScalar::U32, 4)];
    let outer = vec![
        field("b", 0, 4, GpuType::InlineStruct("B".to_string())),
        scalar_field("a", 4, GpuScalar::U32, 4),
    ];
    let m = module(
        "buf",
        vec![
            NamedDef {
                name: "B".to_string(),
                size: 4,
                def: LayoutTypeDef::Struct(inner),
            },
            NamedDef {
                name: "Outer".to_string(),
                size: 8,
                def: LayoutTypeDef::Struct(outer),
            },
        ],
        true,
    );
    let out = gen_glsl(&m);
    assert!(out.contains("    s.b = B_read(BRef(ref.offset));\n"));
    assert!(out.contains("    B_write(BRef(ref.offset), s.b);\n"));
}

#[test]
fn struct_declaration_lists_fields_with_glsl_types() {
    let out = gen_glsl(&mixed_scalar_module());
    assert!(out.contains(
        "struct Mix {\n    uint a;\n    int b;\n    uint c;\n    float d;\n};\n\n"
    ));
    assert!(out.contains("struct MixRef {\n    uint offset;\n};\n\n"));
}

#[test]
fn vector_types_are_named_by_family_and_lanes() {
    let fields = vec![
        field("u", 0, 4, GpuType::Vector(GpuScalar::U8, 4)),
        field("i", 4, 4, GpuType::Vector(GpuScalar::I16, 2)),
        field("f", 8, 8, GpuType::Vector(GpuScalar::F32, 2)),
        field("one", 16, 4, GpuType::Vector(GpuScalar::U32, 1)),
    ];
    let m = module(
        "buf",
        vec![NamedDef {
            name: "Vecs".to_string(),
            size: 20,
            def: LayoutTypeDef::Struct(fields),
        }],
        false,
    );
    let out = gen_glsl(&m);
    assert!(out.contains("    uvec4 u;\n"));
    assert!(out.contains("    ivec2 i;\n"));
    assert!(out.contains("    vec2 f;\n"));
    assert!(out.contains("    uint one;\n"));
}

#[test]
fn signed_full_word_and_mid_word_extraction() {
    let fields = vec![
        scalar_field("i", 0, GpuScalar::I32, 4),
        scalar_field("h", 4, GpuScalar::I16, 2),
        scalar_field("t", 6, GpuScalar::I16, 2),
    ];
    let m = module(
        "buf",
        vec![NamedDef {
            name: "S".to_string(),
            size: 8,
            def: LayoutTypeDef::Struct(fields),
        }],
        true,
    );
    let out = gen_glsl(&m);
    assert!(out.contains("    s.i = int(raw0);
"));
    assert!(out.contains("    s.h = int(raw1 << 16) >> 16;
"));
    assert!(out.contains("    s.t = int(raw1) >> 16;
"));
    assert!(out.contains("    buf[ix + 0] = uint(s.i);
"));
    assert!(out.contains("    buf[ix + 1] = (uint(s.h) & 0xffff) | (uint(s.t) << 16);
"));
}

#[test]
fn unsigned_halfword_at_word_start_is_masked() {
    let out = gen_glsl(&byte_vector_module(false));
    assert!(out.contains("    s.pad = raw0 & 0xffff;
"));
}
