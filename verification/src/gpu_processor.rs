//! The state of a GPU processor and the shader code it writes: the function
//! header and footer, the ops' code, and the unique key of the program.
use vstd::prelude::*;
use vstd::string::*;
use vstd::utf8::encode_utf8;
use crate::gpu_shader::{
    float4_keyword_chars, line, spaces, GpuLanguage, GpuShaderCreator, GpuShaderCreatorModel,
    GpuShaderDesc, GpuShaderText,
};
use crate::hash::{xxh3_128, xxh3_128_of};
use crate::text::{decimal_digits, digit_char, hex_digits, push_char, push_decimal, push_hex};
use crate::types::{OpsSummary, OptimizationFlags};

verus! {

/// An op of a GPU program, by the shader code it contributes.
pub struct GpuOp {
    pub shader_code: String,
}

impl GpuOp {
    /// Adds the op's code to the body of the shader function.
    pub fn extract_gpu_shader_info(&self, shader_creator: &mut GpuShaderCreator)
        ensures
            final(shader_creator)@ == (GpuShaderCreatorModel {
                function_body: old(shader_creator)@.function_body + self.shader_code@,
                ..old(shader_creator)@
            }),
    {
        shader_creator.add_to_function_shader_code(self.shader_code.as_str());
    }
}

/// The code of the ops, in order.
pub open spec fn ops_code(ops: Seq<GpuOp>) -> Seq<char>
    decreases ops.len(),
{
    if ops.len() == 0 {
        Seq::empty()
    } else {
        ops_code(ops.drop_last()) + ops.last().shader_code@
    }
}

/// The header of the shader function: a comment, then the signature, the
/// opening brace and the declaration of the output pixel from the input.
pub open spec fn shader_header_text(lang: GpuLanguage, function_name: Seq<char>, pixel_name: Seq<char>) -> Seq<char> {
    let kw = float4_keyword_chars(lang);
    seq!['\n'] + line(0, "// Declaration of the OCIO shader function"@) + seq!['\n'] + if lang
        == GpuLanguage::OSL_1 {
        line(0, "color4 "@ + function_name + "(color4 inPixel)"@) + line(0, "{"@) + line(
            1,
            "color4 "@ + pixel_name + " = inPixel;"@,
        )
    } else {
        line(0, kw + " "@ + function_name + "("@ + kw + " inPixel)"@) + line(0, "{"@) + line(
            1,
            kw + " "@ + pixel_name + " = inPixel;"@,
        )
    }
}

/// The footer of the shader function: it returns the output pixel and closes.
pub open spec fn shader_footer_text(pixel_name: Seq<char>) -> Seq<char> {
    seq!['\n'] + line(1, "return "@ + pixel_name + ";"@) + line(0, "}"@)
}

/// Appends the header of the shader function to the creator's header code.
pub fn write_shader_header(shader_creator: &mut GpuShaderCreator)
    ensures
        final(shader_creator)@ == (GpuShaderCreatorModel {
            function_header: old(shader_creator)@.function_header + shader_header_text(
                old(shader_creator)@.language,
                old(shader_creator)@.function_name,
                old(shader_creator)@.pixel_name,
            ),
            ..old(shader_creator)@
        }),
{
    let fcn_name = shader_creator.get_function_name().to_owned();
    let lang = shader_creator.get_language();
    let mut ss = GpuShaderText::new(lang);
    ss.new_line();
    ss.push_line("// Declaration of the OCIO shader function");
    ss.new_line();
    if lang == GpuLanguage::OSL_1 {
        let mut sig = String::new();
        sig.append("color4 ");
        sig.append(fcn_name.as_str());
        sig.append("(color4 inPixel)");
        ss.push_line(sig.as_str());
        ss.push_line("{");
        ss.indent();
        let mut decl = String::new();
        decl.append("color4 ");
        decl.append(shader_creator.get_pixel_name());
        decl.append(" = inPixel;");
        ss.push_line(decl.as_str());
    } else {
        let mut sig = String::new();
        sig.append(ss.float4_keyword());
        sig.append(" ");
        sig.append(fcn_name.as_str());
        sig.append("(");
        sig.append(ss.float4_keyword());
        sig.append(" inPixel)");
        ss.push_line(sig.as_str());
        ss.push_line("{");
        ss.indent();
        let mut decl = String::new();
        decl.append(ss.float4_decl());
        decl.append(" ");
        decl.append(shader_creator.get_pixel_name());
        decl.append(" = inPixel;");
        ss.push_line(decl.as_str());
    }
    let text = ss.string();
    assert(text@ =~= shader_header_text(
        shader_creator@.language,
        shader_creator@.function_name,
        shader_creator@.pixel_name,
    ));
    shader_creator.add_to_function_header_shader_code(text.as_str());
}

/// Appends the footer of the shader function to the creator's footer code.
pub fn write_shader_footer(shader_creator: &mut GpuShaderCreator)
    ensures
        final(shader_creator)@ == (GpuShaderCreatorModel {
            function_footer: old(shader_creator)@.function_footer + shader_footer_text(
                old(shader_creator)@.pixel_name,
            ),
            ..old(shader_creator)@
        }),
{
    let mut ss = GpuShaderText::new(shader_creator.get_language());
    ss.new_line();
    ss.indent();
    let mut ret = String::new();
    ret.append("return ");
    ret.append(shader_creator.get_pixel_name());
    ret.append(";");
    ss.push_line(ret.as_str());
    ss.dedent();
    ss.push_line("}");
    let text = ss.string();
    assert(text@ =~= shader_footer_text(shader_creator@.pixel_name));
    shader_creator.add_to_function_footer_shader_code(text.as_str());
}

/// The creator after the ops' code, the header and the footer are written
/// and the shader text is put together.
pub open spec fn extracted(m: GpuShaderCreatorModel, code: Seq<char>) -> GpuShaderCreatorModel {
    let header = m.function_header + shader_header_text(m.language, m.function_name, m.pixel_name);
    let body = m.function_body + code;
    let footer = m.function_footer + shader_footer_text(m.pixel_name);
    GpuShaderCreatorModel {
        function_header: header,
        function_body: body,
        function_footer: footer,
        shader_text: header + body + footer,
        ..m
    }
}

/// The hash printed as `{:x}{:x}` of its low and high 64-bit halves.
pub open spec fn hash_text(hash: u128) -> Seq<char> {
    hex_digits((hash as u64) as nat) + hex_digits(((hash >> 64u128) as u64) as nat)
}

pub open spec fn is_ascii_letter(c: char) -> bool {
    let v = c as int;
    (65 <= v <= 90) || (97 <= v <= 122)
}

/// A character that may stand in a shader identifier: an ASCII letter or
/// digit, or `_`.
pub open spec fn is_identifier_char(c: char) -> bool {
    let v = c as int;
    is_ascii_letter(c) || (48 <= v <= 57) || c == '_'
}

/// The characters of `s` that may stand in an identifier, in order.
pub open spec fn identifier_chars(s: Seq<char>) -> Seq<char>
    decreases s.len(),
{
    if s.len() == 0 {
        Seq::empty()
    } else if is_identifier_char(s.last()) {
        identifier_chars(s.drop_last()).push(s.last())
    } else {
        identifier_chars(s.drop_last())
    }
}

/// The unique key of a shader program from its hash text: `k` is put in
/// front when the text does not start with a letter, and only identifier
/// characters are kept.
pub open spec fn shader_key(text: Seq<char>) -> Seq<char> {
    identifier_chars(
        if text.len() > 0 && !is_ascii_letter(text[0]) {
            seq!['k'] + text
        } else {
            text
        },
    )
}

/// The cache identifier that finalization gives a GPU processor.
pub open spec fn gpu_cache_id(optimization_flags: OptimizationFlags, ops_cache_id: Seq<char>) -> Seq<char> {
    "GPU Processor: oFlags "@ + decimal_digits(optimization_flags as nat) + " ops: "@ + ops_cache_id
}

/// Prints a 128-bit hash as `{:x}{:x}` of its low and high halves.
pub fn cache_id_hash_text(hash: u128) -> (r: String)
    ensures
        r@ == hash_text(hash),
{
    let mut s = String::new();
    push_hex(&mut s, hash as u64);
    push_hex(&mut s, (hash >> 64u128) as u64);
    assert(s@ =~= hash_text(hash));
    s
}

/// The hash text of `key`'s UTF-8 bytes under XXH3-128.
pub fn cache_id_hash(key: &str) -> (r: String)
    ensures
        r@ == hash_text(xxh3_128_of(encode_utf8(key@))),
{
    let hash = xxh3_128(key.as_bytes());
    cache_id_hash_text(hash)
}

fn is_letter(c: char) -> (r: bool)
    ensures
        r == is_ascii_letter(c),
{
    let v: u32 = c as u32;
    (65 <= v && v <= 90) || (97 <= v && v <= 122)
}

fn is_identifier(c: char) -> (r: bool)
    ensures
        r == is_identifier_char(c),
{
    let v: u32 = c as u32;
    is_letter(c) || (48 <= v && v <= 57) || c == '_'
}

/// The unique key of a shader program from its hash text.
pub fn shader_key_from_text(text: &str) -> (r: String)
    ensures
        r@ == shader_key(text@),
{
    let mut key = String::new();
    if text.unicode_len() > 0 && !is_letter(text.get_char(0)) {
        push_char(&mut key, 'k');
    }
    key.append(text);
    let ghost k = key@;
    assert(k =~= if text@.len() > 0 && !is_ascii_letter(text@[0]) {
        seq!['k'] + text@
    } else {
        text@
    });
    let src = key.as_str();
    let n = src.unicode_len();
    let mut r = String::new();
    let mut i: usize = 0;
    while i < n
        invariant
            n == k.len(),
            src@ == k,
            i <= n,
            r@ == identifier_chars(k.take(i as int)),
        decreases n - i,
    {
        let c = src.get_char(i);
        assert(k.take(i + 1).drop_last() =~= k.take(i as int));
        assert(k.take(i + 1).last() == c);
        if is_identifier(c) {
            push_char(&mut r, c);
        }
        i = i + 1;
    }
    assert(k.take(n as int) =~= k);
    r
}

/// The unique key of the shader program whose cache key hashes to `hash`.
pub fn shader_key_from_hash(hash: u128) -> (r: String)
    ensures
        r@ == shader_key(hash_text(hash)),
{
    let text = cache_id_hash_text(hash);
    shader_key_from_text(text.as_str())
}

/// What a GPU processor holds, as the contracts speak of it.
#[verifier::ext_equal]
pub struct GpuProcessorModel {
    pub ops: Seq<GpuOp>,
    pub is_no_op: bool,
    pub has_channel_crosstalk: bool,
    pub cache_id: Seq<char>,
}

struct Impl {
    ops: Vec<GpuOp>,
    is_no_op: bool,
    has_channel_crosstalk: bool,
    cache_id: String,
}

impl Impl {
    spec fn model(&self) -> GpuProcessorModel {
        GpuProcessorModel {
            ops: self.ops@,
            is_no_op: self.is_no_op,
            has_channel_crosstalk: self.has_channel_crosstalk,
            cache_id: self.cache_id@,
        }
    }

    fn new() -> (r: Impl)
        ensures
            r.model() == (GpuProcessorModel {
                ops: Seq::empty(),
                is_no_op: false,
                has_channel_crosstalk: true,
                cache_id: Seq::empty(),
            }),
    {
        let r = Impl { ops: Vec::new(), is_no_op: false, has_channel_crosstalk: true, cache_id: String::new() };
        assert(r.model() =~= (GpuProcessorModel {
            ops: Seq::empty(),
            is_no_op: false,
            has_channel_crosstalk: true,
            cache_id: Seq::empty(),
        }));
        r
    }

    fn finalize(&mut self, ops: &OpsSummary, optimization_flags: OptimizationFlags)
        ensures
            final(self).model() == (GpuProcessorModel {
                is_no_op: ops.is_no_op,
                has_channel_crosstalk: ops.has_channel_crosstalk,
                cache_id: gpu_cache_id(optimization_flags, ops.cache_id@),
                ..old(self).model()
            }),
    {
        let ghost before = self.model();
        self.is_no_op = ops.is_no_op;
        self.has_channel_crosstalk = ops.has_channel_crosstalk;
        let mut ss = String::new();
        ss.append("GPU Processor: oFlags ");
        push_decimal(&mut ss, optimization_flags as u64);
        ss.append(" ops: ");
        ss.append(ops.cache_id.as_str());
        self.cache_id = ss;
        assert(self.model() =~= (GpuProcessorModel {
            is_no_op: ops.is_no_op,
            has_channel_crosstalk: ops.has_channel_crosstalk,
            cache_id: gpu_cache_id(optimization_flags, ops.cache_id@),
            ..before
        }));
    }

    fn extract_gpu_shader_info(&self, shader_creator: &mut GpuShaderCreator)
        ensures
            final(shader_creator)@ == extracted(old(shader_creator)@, ops_code(self.ops@)),
    {
        let ghost start = shader_creator@;
        let n = self.ops.len();
        let mut i: usize = 0;
        while i < n
            invariant
                n == self.ops@.len(),
                i <= n,
                shader_creator@ == (GpuShaderCreatorModel {
                    function_body: start.function_body + ops_code(self.ops@.take(i as int)),
                    ..start
                }),
            decreases n - i,
        {
            self.ops[i].extract_gpu_shader_info(shader_creator);
            assert(self.ops@.take(i + 1).drop_last() =~= self.ops@.take(i as int));
            assert(start.function_body + ops_code(self.ops@.take(i + 1)) =~= start.function_body
                + ops_code(self.ops@.take(i as int)) + self.ops@[i as int].shader_code@);
            i = i + 1;
        }
        assert(self.ops@.take(n as int) =~= self.ops@);
        if n == 0 {
            assert(start.function_body + ops_code(self.ops@.take(0)) =~= start.function_body);
        }
        write_shader_header(shader_creator);
        write_shader_footer(shader_creator);
        shader_creator.finalize();
        assert(shader_creator@ =~= extracted(start, ops_code(self.ops@)));
    }
}

/// A GPU processor: the state that finalization leaves, and the shader code
/// it writes.
pub struct GPUProcessor {
    impl_: Impl,
}

impl View for GPUProcessor {
    type V = GpuProcessorModel;

    closed spec fn view(&self) -> GpuProcessorModel {
        self.impl_.model()
    }
}

impl GPUProcessor {
    /// A processor that has not been finalized: no ops, not a no-op, with
    /// channel crosstalk, empty cache id.
    pub fn new() -> (r: GPUProcessor)
        ensures
            r@ == (GpuProcessorModel {
                ops: Seq::empty(),
                is_no_op: false,
                has_channel_crosstalk: true,
                cache_id: Seq::empty(),
            }),
    {
        GPUProcessor { impl_: Impl::new() }
    }

    /// Takes what the finalized op list tells; the ops held are left as they are.
    pub fn finalize(&mut self, ops: &OpsSummary, optimization_flags: OptimizationFlags)
        ensures
            final(self)@ == (GpuProcessorModel {
                is_no_op: ops.is_no_op,
                has_channel_crosstalk: ops.has_channel_crosstalk,
                cache_id: gpu_cache_id(optimization_flags, ops.cache_id@),
                ..old(self)@
            }),
    {
        self.impl_.finalize(ops, optimization_flags);
    }

    pub fn is_no_op(&self) -> (r: bool)
        ensures
            r == self@.is_no_op,
    {
        self.impl_.is_no_op
    }

    pub fn has_channel_crosstalk(&self) -> (r: bool)
        ensures
            r == self@.has_channel_crosstalk,
    {
        self.impl_.has_channel_crosstalk
    }

    pub fn get_cache_id(&self) -> (r: String)
        ensures
            r@ == self@.cache_id,
    {
        self.impl_.cache_id.clone()
    }

    /// Writes the ops' code, the function header and footer, and puts the
    /// shader text together.
    pub fn extract_gpu_shader_info(&self, shader_desc: &mut GpuShaderDesc)
        ensures
            final(shader_desc)@ == extracted(old(shader_desc)@, ops_code(self@.ops)),
    {
        self.impl_.extract_gpu_shader_info(shader_desc);
    }

    /// As `extract_gpu_shader_info`, inside a program whose unique key comes
    /// from `hash`, the hash of the program's cache key.
    pub fn extract_gpu_shader_info_with_hash(&self, shader_creator: &mut GpuShaderCreator, hash: u128)
        ensures
            final(shader_creator)@ == extracted(
                GpuShaderCreatorModel { unique_id: shader_key(hash_text(hash)), ..old(shader_creator)@ },
                ops_code(self@.ops),
            ),
    {
        let key = shader_key_from_hash(hash);
        shader_creator.begin(key.as_str());
        self.impl_.extract_gpu_shader_info(shader_creator);
        shader_creator.end();
    }

    /// Writes the shader code inside a program whose unique key is made from
    /// the hash of the creator's cache id followed by the processor's.
    pub fn extract_gpu_shader_info_with_creator(&self, shader_creator: &mut GpuShaderCreator)
        ensures
            final(shader_creator)@ == extracted(
                GpuShaderCreatorModel {
                    unique_id: shader_key(
                        hash_text(
                            xxh3_128_of(encode_utf8(old(shader_creator)@.cache_id + self@.cache_id)),
                        ),
                    ),
                    ..old(shader_creator)@
                },
                ops_code(self@.ops),
            ),
    {
        let mut key = shader_creator.get_cache_id().to_owned();
        key.append(self.impl_.cache_id.as_str());
        let hash = xxh3_128(key.as_str().as_bytes());
        self.extract_gpu_shader_info_with_hash(shader_creator, hash);
    }
}

/// The digits of `hex_digits` are `0`..`9` and `a`..`f`, and there is at least one.
pub proof fn lemma_hex_digits_chars(n: nat)
    ensures
        hex_digits(n).len() > 0,
        forall|i: int| 0 <= i < hex_digits(n).len() ==> {
            let v = (#[trigger] hex_digits(n)[i]) as int;
            (48 <= v <= 57) || (97 <= v <= 102)
        },
    decreases n,
{
    if n >= 16 {
        lemma_hex_digits_chars(n / 16);
        let d = (n % 16) as int;
        assert(hex_digits(n) == hex_digits(n / 16).push(digit_char(d)));
        assert forall|i: int| 0 <= i < hex_digits(n).len() implies {
            let v = (#[trigger] hex_digits(n)[i]) as int;
            (48 <= v <= 57) || (97 <= v <= 102)
        } by {
            if i < hex_digits(n / 16).len() {
                assert(hex_digits(n)[i] == hex_digits(n / 16)[i]);
            }
        }
    }
}

/// Keeping the identifier characters of a text made of them gives the text back.
pub proof fn lemma_identifier_chars_keep_all(s: Seq<char>)
    requires
        forall|i: int| 0 <= i < s.len() ==> is_identifier_char(#[trigger] s[i]),
    ensures
        identifier_chars(s) == s,
    decreases s.len(),
{
    if s.len() > 0 {
        assert(forall|i: int| 0 <= i < s.drop_last().len() ==> s.drop_last()[i] == s[i]);
        lemma_identifier_chars_keep_all(s.drop_last());
        assert(is_identifier_char(s[s.len() - 1]));
        assert(s.drop_last().push(s.last()) =~= s);
    }
}

/// The unique key of a shader program is an identifier: it starts with an
/// ASCII letter and holds only ASCII letters and digits; it is the hash text,
/// with `k` in front when the text starts with a digit.
pub proof fn lemma_shader_key_is_identifier(hash: u128)
    ensures
        shader_key(hash_text(hash)).len() > 0,
        is_ascii_letter(shader_key(hash_text(hash))[0]),
        forall|i: int| 0 <= i < shader_key(hash_text(hash)).len() ==> is_identifier_char(
            #[trigger] shader_key(hash_text(hash))[i],
        ),
        shader_key(hash_text(hash)) == if is_ascii_letter(hash_text(hash)[0]) {
            hash_text(hash)
        } else {
            seq!['k'] + hash_text(hash)
        },
{
    let lo = hex_digits((hash as u64) as nat);
    let hi = hex_digits(((hash >> 64u128) as u64) as nat);
    lemma_hex_digits_chars((hash as u64) as nat);
    lemma_hex_digits_chars(((hash >> 64u128) as u64) as nat);
    let t = hash_text(hash);
    assert(t == lo + hi);
    assert forall|i: int| 0 <= i < t.len() implies is_identifier_char(#[trigger] t[i]) by {
        if i < lo.len() {
            assert(t[i] == lo[i]);
        } else {
            assert(t[i] == hi[i - lo.len()]);
        }
    }
    let k = if t.len() > 0 && !is_ascii_letter(t[0]) { seq!['k'] + t } else { t };
    assert forall|i: int| 0 <= i < k.len() implies is_identifier_char(#[trigger] k[i]) by {
        if !is_ascii_letter(t[0]) {
            if i > 0 {
                assert(k[i] == t[i - 1]);
            } else {
                assert(k[0] == 'k');
            }
        }
    }
    lemma_identifier_chars_keep_all(k);
    if is_ascii_letter(t[0]) {
    } else {
        assert(k[0] == 'k');
    }
}

/// The vector keyword that a shader function header uses: `color4` in OSL,
/// `float4` in HLSL and Metal, `vec4` in every GLSL version.
pub open spec fn header_vector_keyword(lang: GpuLanguage) -> Seq<char> {
    match lang {
        GpuLanguage::OSL_1 => "color4"@,
        GpuLanguage::HLSL_DX11 => "float4"@,
        GpuLanguage::MSL_2_0 => "float4"@,
        _ => "vec4"@,
    }
}

proof fn lemma_line_shapes(c: Seq<char>)
    ensures
        line(0, c) == c + seq!['\n'],
        line(1, c) == seq![' ', ' '] + c + seq!['\n'],
{
    assert(spaces(0) =~= Seq::<char>::empty());
    assert(spaces(2) =~= seq![' ', ' ']);
    assert(line(0, c) =~= c + seq!['\n']);
    assert(line(1, c) =~= seq![' ', ' '] + c + seq!['\n']);
}

/// The signature, brace and pixel declaration lines of the header.
proof fn lemma_header_body_lines(lang: GpuLanguage, f: Seq<char>, p: Seq<char>)
    ensures
        (if lang == GpuLanguage::OSL_1 {
            line(0, "color4 "@ + f + "(color4 inPixel)"@) + line(0, "{"@) + line(1, "color4 "@ + p + " = inPixel;"@)
        } else {
            line(0, float4_keyword_chars(lang) + " "@ + f + "("@ + float4_keyword_chars(lang) + " inPixel)"@)
                + line(0, "{"@) + line(1, float4_keyword_chars(lang) + " "@ + p + " = inPixel;"@)
        }) == header_vector_keyword(lang) + seq![' '] + f + seq!['('] + header_vector_keyword(lang)
            + " inPixel)"@ + seq!['\n', '{', '\n', ' ', ' '] + header_vector_keyword(lang) + seq![' '] + p
            + " = inPixel;"@ + seq!['\n'],
{
    reveal_strlit("color4 ");
    reveal_strlit("(color4 inPixel)");
    reveal_strlit(" inPixel)");
    reveal_strlit("{");
    reveal_strlit(" ");
    reveal_strlit("(");
    reveal_strlit("color4");
    let k = header_vector_keyword(lang);
    if lang == GpuLanguage::OSL_1 {
        let sig = "color4 "@ + f + "(color4 inPixel)"@;
        let decl = "color4 "@ + p + " = inPixel;"@;
        lemma_line_shapes(sig);
        lemma_line_shapes("{"@);
        lemma_line_shapes(decl);
        assert("color4 "@ =~= k + seq![' ']);
        assert("(color4 inPixel)"@ =~= seq!['('] + k + " inPixel)"@);
        assert(line(0, sig) + line(0, "{"@) + line(1, decl) =~= k + seq![' '] + f + seq!['('] + k
            + " inPixel)"@ + seq!['\n', '{', '\n', ' ', ' '] + k + seq![' '] + p + " = inPixel;"@
            + seq!['\n']);
    } else {
        assert(float4_keyword_chars(lang) == k);
        let sig = k + " "@ + f + "("@ + k + " inPixel)"@;
        let decl = k + " "@ + p + " = inPixel;"@;
        lemma_line_shapes(sig);
        lemma_line_shapes("{"@);
        lemma_line_shapes(decl);
        assert(line(0, sig) + line(0, "{"@) + line(1, decl) =~= k + seq![' '] + f + seq!['('] + k
            + " inPixel)"@ + seq!['\n', '{', '\n', ' ', ' '] + k + seq![' '] + p + " = inPixel;"@
            + seq!['\n']);
    }
}

/// The header of the shader function, character by character: a line feed,
/// the declaration comment, an empty line, then `K name(K inPixel)`, `{`,
/// and `  K pixel = inPixel;`, where `K` is the language's vector keyword
/// (`color4` only in OSL).
#[verifier::rlimit(50)]
pub proof fn lemma_header_text(lang: GpuLanguage, function_name: Seq<char>, pixel_name: Seq<char>)
    ensures
        shader_header_text(lang, function_name, pixel_name) == seq!['\n']
            + "// Declaration of the OCIO shader function"@ + seq!['\n', '\n'] + header_vector_keyword(lang)
            + seq![' '] + function_name + seq!['('] + header_vector_keyword(lang) + " inPixel)"@
            + seq!['\n', '{', '\n', ' ', ' '] + header_vector_keyword(lang) + seq![' '] + pixel_name
            + " = inPixel;"@ + seq!['\n'],
{
    let d = "// Declaration of the OCIO shader function"@;
    lemma_line_shapes(d);
    lemma_header_body_lines(lang, function_name, pixel_name);
    let k = header_vector_keyword(lang);
    let f = function_name;
    let p = pixel_name;
    let prefix = seq!['\n'] + d + seq!['\n', '\n'];
    assert(seq!['\n'] + line(0, d) + seq!['\n'] =~= prefix);
    let body = k + seq![' '] + f + seq!['('] + k + " inPixel)"@ + seq!['\n', '{', '\n', ' ', ' '] + k
        + seq![' '] + p + " = inPixel;"@ + seq!['\n'];
    assert(shader_header_text(lang, f, p) == prefix + body);
    assert(prefix + body =~= prefix + k + seq![' '] + f + seq!['('] + k + " inPixel)"@
        + seq!['\n', '{', '\n', ' ', ' '] + k + seq![' '] + p + " = inPixel;"@ + seq!['\n']);
}

} // verus!
