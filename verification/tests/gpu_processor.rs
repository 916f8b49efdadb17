use ocio::{
    cache_id_hash, cache_id_hash_text, shader_key_from_hash, shader_key_from_text, write_shader_footer,
    write_shader_header, GPUProcessor, GpuLanguage, GpuShaderCreator, GpuShaderText, OpsSummary,
};

fn expected_hash_text(key: &str) -> String {
    let h = xxhash_rust::xxh3::xxh3_128(key.as_bytes());
    format!("{:x}{:x}", h as u64, (h >> 64) as u64)
}

#[test]
fn header_glsl() {
    let mut c = GpuShaderCreator::new(GpuLanguage::GLSL_1_2, "OCIOMain", "outColor", "");
    write_shader_header(&mut c);
    assert_eq!(
        c.get_function_header(),
        "\n// Declaration of the OCIO shader function\n\nvec4 OCIOMain(vec4 inPixel)\n{\n  vec4 outColor = inPixel;\n"
    );
}

#[test]
fn header_hlsl() {
    let mut c = GpuShaderCreator::new(GpuLanguage::HLSL_DX11, "main", "px", "");
    write_shader_header(&mut c);
    assert_eq!(
        c.get_function_header(),
        "\n// Declaration of the OCIO shader function\n\nfloat4 main(float4 inPixel)\n{\n  float4 px = inPixel;\n"
    );
}

#[test]
fn header_osl() {
    let mut c = GpuShaderCreator::new(GpuLanguage::OSL_1, "OCIOMain", "outColor", "");
    write_shader_header(&mut c);
    assert_eq!(
        c.get_function_header(),
        "\n// Declaration of the OCIO shader function\n\ncolor4 OCIOMain(color4 inPixel)\n{\n  color4 outColor = inPixel;\n"
    );
}

#[test]
fn footer() {
    let mut c = GpuShaderCreator::new(GpuLanguage::GLSL_4_0, "OCIOMain", "outColor", "");
    write_shader_footer(&mut c);
    assert_eq!(c.get_function_footer(), "\n  return outColor;\n}\n");
}

#[test]
fn shader_text_lines() {
    let mut t = GpuShaderText::new(GpuLanguage::MSL_2_0);
    t.push_line("a");
    t.indent();
    t.indent();
    t.push_line("b");
    t.dedent();
    t.new_line();
    t.push_line("c");
    assert_eq!(t.string(), "a\n    b\n\n  c\n");
    assert_eq!(t.float4_keyword(), "float4");
}

#[test]
fn hash_text_matches_xxh3() {
    assert_eq!(cache_id_hash("abc"), expected_hash_text("abc"));
    assert_eq!(cache_id_hash(""), expected_hash_text(""));
    assert_eq!(cache_id_hash_text(0), "00");
    assert_eq!(cache_id_hash_text((1u128 << 64) | 0xab), "ab1");
}

#[test]
fn shader_key_fixes_first_char_and_filters() {
    assert_eq!(shader_key_from_text("0af"), "k0af");
    assert_eq!(shader_key_from_text("af0"), "af0");
    assert_eq!(shader_key_from_text("a-b_c"), "ab_c");
    assert_eq!(shader_key_from_hash(0), "k00");
    assert_eq!(shader_key_from_hash(0xabu128 << 64 | 0xcd), "cdab");
}

#[test]
fn new_gpu_processor_defaults() {
    let p = GPUProcessor::new();
    assert!(!p.is_no_op());
    assert!(p.has_channel_crosstalk());
    assert_eq!(p.get_cache_id(), "");
}

#[test]
fn gpu_finalize_sets_flags_and_cache_id() {
    let mut p = GPUProcessor::new();
    p.finalize(&OpsSummary { is_no_op: true, has_channel_crosstalk: false, cache_id: "ops".to_string() }, 12);
    assert!(p.is_no_op());
    assert!(!p.has_channel_crosstalk());
    assert_eq!(p.get_cache_id(), "GPU Processor: oFlags 12 ops: ops");
}

#[test]
fn extract_puts_shader_together() {
    let p = GPUProcessor::new();
    let mut c = GpuShaderCreator::new(GpuLanguage::GLSL_1_2, "OCIOMain", "outColor", "");
    p.extract_gpu_shader_info(&mut c);
    let expected = format!("{}{}", c.get_function_header(), c.get_function_footer());
    assert_eq!(c.get_shader_text(), expected);
    assert!(c.get_shader_text().starts_with("\n// Declaration"));
    assert!(c.get_shader_text().ends_with("return outColor;\n}\n"));
}

#[test]
fn extract_with_creator_sets_unique_key() {
    let mut p = GPUProcessor::new();
    p.finalize(&OpsSummary { is_no_op: false, has_channel_crosstalk: true, cache_id: "X".to_string() }, 3);
    let mut c = GpuShaderCreator::new(GpuLanguage::GLSL_1_2, "OCIOMain", "outColor", "creator-id");
    p.extract_gpu_shader_info_with_creator(&mut c);
    let text = expected_hash_text("creator-idGPU Processor: oFlags 3 ops: X");
    let key = if text.chars().next().unwrap().is_alphabetic() { text } else { format!("k{}", text) };
    assert_eq!(c.get_unique_id(), key);
    assert!(c.get_shader_text().contains("vec4 OCIOMain(vec4 inPixel)"));
}

#[test]
fn gpu_op_adds_its_code_to_the_body() {
    let op = ocio::GpuOp { shader_code: "  outColor.rgb *= 2.0;\n".to_string() };
    let mut c = GpuShaderCreator::new(GpuLanguage::GLSL_1_2, "OCIOMain", "outColor", "");
    op.extract_gpu_shader_info(&mut c);
    op.extract_gpu_shader_info(&mut c);
    assert_eq!(c.get_function_body(), "  outColor.rgb *= 2.0;\n  outColor.rgb *= 2.0;\n");
    c.add_to_function_header_shader_code("H");
    c.add_to_function_footer_shader_code("F");
    c.begin("uid");
    c.end();
    c.finalize();
    assert_eq!(c.get_unique_id(), "uid");
    assert_eq!(c.get_shader_text(), "H  outColor.rgb *= 2.0;\n  outColor.rgb *= 2.0;\nF");
}

#[test]
fn shader_keys_are_identifiers() {
    for h in [0u128, 1, 0xf, 0xa0, u128::MAX, 12345678901234567890123456789u128] {
        let k = shader_key_from_hash(h);
        let first = k.chars().next().unwrap();
        assert!(first.is_ascii_alphabetic());
        assert!(k.chars().all(|c| c.is_ascii_alphanumeric()));
    }
}
