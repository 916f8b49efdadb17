//! Shader languages, the line-by-line shader text builder, and the shader
//! creator that collects the parts of a shader program.
use vstd::prelude::*;
use vstd::string::*;
use crate::text::push_char;

verus! {

/// The shading languages a GPU processor can write.
#[allow(non_camel_case_types)]
#[derive(Clone, Copy, Debug, PartialEq, Eq, Structural)]
pub enum GpuLanguage {
    GLSL_1_2,
    GLSL_1_3,
    GLSL_4_0,
    GLSL_ES_1_0,
    GLSL_ES_3_0,
    HLSL_DX11,
    OSL_1,
    MSL_2_0,
}

/// The keyword of a four-component float vector in a language.
pub open spec fn float4_keyword_chars(lang: GpuLanguage) -> Seq<char> {
    match lang {
        GpuLanguage::HLSL_DX11 => "float4"@,
        GpuLanguage::MSL_2_0 => "float4"@,
        GpuLanguage::OSL_1 => "vector4"@,
        _ => "vec4"@,
    }
}

/// `n` spaces.
pub open spec fn spaces(n: nat) -> Seq<char> {
    Seq::new(n, |i: int| ' ')
}

/// One line of shader text: two spaces per indentation level, the content,
/// and a line feed.
pub open spec fn line(indent: nat, content: Seq<char>) -> Seq<char> {
    spaces(2 * indent) + content + seq!['\n']
}

/// Shader text built line by line at a current indentation level.
pub struct GpuShaderText {
    language: GpuLanguage,
    indent: usize,
    text: String,
}

impl GpuShaderText {
    pub closed spec fn language_of(&self) -> GpuLanguage {
        self.language
    }

    pub closed spec fn indent_level(&self) -> nat {
        self.indent as nat
    }

    pub closed spec fn text_chars(&self) -> Seq<char> {
        self.text@
    }

    pub fn new(language: GpuLanguage) -> (r: GpuShaderText)
        ensures
            r.language_of() == language,
            r.indent_level() == 0,
            r.text_chars() == Seq::<char>::empty(),
    {
        GpuShaderText { language, indent: 0, text: String::new() }
    }

    /// Appends an empty line.
    pub fn new_line(&mut self)
        ensures
            final(self).language_of() == old(self).language_of(),
            final(self).indent_level() == old(self).indent_level(),
            final(self).text_chars() == old(self).text_chars() + seq!['\n'],
    {
        push_char(&mut self.text, '\n');
    }

    /// Appends a line holding `content` at the current indentation.
    pub fn push_line(&mut self, content: &str)
        ensures
            final(self).language_of() == old(self).language_of(),
            final(self).indent_level() == old(self).indent_level(),
            final(self).text_chars() == old(self).text_chars() + line(
                old(self).indent_level(),
                content@,
            ),
    {
        let ghost start = self.text@;
        let mut i: usize = 0;
        while i < self.indent
            invariant
                i <= self.indent,
                self.indent == old(self).indent,
                self.language == old(self).language,
                start == old(self).text@,
                self.text@ == start + spaces(2 * i as nat),
            decreases self.indent - i,
        {
            push_char(&mut self.text, ' ');
            push_char(&mut self.text, ' ');
            assert(self.text@ =~= start + spaces(2 * (i + 1) as nat));
            i = i + 1;
        }
        self.text.append(content);
        push_char(&mut self.text, '\n');
        assert(self.text@ =~= start + line(self.indent as nat, content@));
    }

    pub fn indent(&mut self)
        requires
            old(self).indent_level() < usize::MAX,
        ensures
            final(self).language_of() == old(self).language_of(),
            final(self).indent_level() == old(self).indent_level() + 1,
            final(self).text_chars() == old(self).text_chars(),
    {
        self.indent = self.indent + 1;
    }

    pub fn dedent(&mut self)
        requires
            old(self).indent_level() > 0,
        ensures
            final(self).language_of() == old(self).language_of(),
            final(self).indent_level() == old(self).indent_level() - 1,
            final(self).text_chars() == old(self).text_chars(),
    {
        self.indent = self.indent - 1;
    }

    /// The keyword of a four-component float vector in the text's language.
    pub fn float4_keyword(&self) -> (r: &'static str)
        ensures
            r@ == float4_keyword_chars(self.language_of()),
    {
        match self.language {
            GpuLanguage::HLSL_DX11 => "float4",
            GpuLanguage::MSL_2_0 => "float4",
            GpuLanguage::OSL_1 => "vector4",
            _ => "vec4",
        }
    }

    /// The type that declares a four-component float vector variable.
    pub fn float4_decl(&self) -> (r: &'static str)
        ensures
            r@ == float4_keyword_chars(self.language_of()),
    {
        self.float4_keyword()
    }

    pub fn string(&self) -> (r: String)
        ensures
            r@ == self.text_chars(),
    {
        self.text.clone()
    }
}

/// What a shader creator holds, as the contracts speak of it.
#[verifier::ext_equal]
pub struct GpuShaderCreatorModel {
    pub language: GpuLanguage,
    pub function_name: Seq<char>,
    pub pixel_name: Seq<char>,
    pub cache_id: Seq<char>,
    pub unique_id: Seq<char>,
    pub function_header: Seq<char>,
    pub function_body: Seq<char>,
    pub function_footer: Seq<char>,
    pub shader_text: Seq<char>,
}

/// Collects the header, body and footer of a shader function and, once
/// finalized, the whole shader text.
pub struct GpuShaderCreator {
    language: GpuLanguage,
    function_name: String,
    pixel_name: String,
    cache_id: String,
    unique_id: String,
    function_header: String,
    function_body: String,
    function_footer: String,
    shader_text: String,
}

/// A shader description is a shader creator whose text the caller reads back.
pub type GpuShaderDesc = GpuShaderCreator;

impl View for GpuShaderCreator {
    type V = GpuShaderCreatorModel;

    closed spec fn view(&self) -> GpuShaderCreatorModel {
        GpuShaderCreatorModel {
            language: self.language,
            function_name: self.function_name@,
            pixel_name: self.pixel_name@,
            cache_id: self.cache_id@,
            unique_id: self.unique_id@,
            function_header: self.function_header@,
            function_body: self.function_body@,
            function_footer: self.function_footer@,
            shader_text: self.shader_text@,
        }
    }
}

impl GpuShaderCreator {
    /// A creator for `language` whose function and output pixel carry the
    /// given names, with the given cache identifier and nothing written yet.
    pub fn new(language: GpuLanguage, function_name: &str, pixel_name: &str, cache_id: &str) -> (r: GpuShaderCreator)
        ensures
            r@ == (GpuShaderCreatorModel {
                language: language,
                function_name: function_name@,
                pixel_name: pixel_name@,
                cache_id: cache_id@,
                unique_id: Seq::empty(),
                function_header: Seq::empty(),
                function_body: Seq::empty(),
                function_footer: Seq::empty(),
                shader_text: Seq::empty(),
            }),
    {
        let r = GpuShaderCreator {
            language,
            function_name: function_name.to_owned(),
            pixel_name: pixel_name.to_owned(),
            cache_id: cache_id.to_owned(),
            unique_id: String::new(),
            function_header: String::new(),
            function_body: String::new(),
            function_footer: String::new(),
            shader_text: String::new(),
        };
        assert(r@ =~= (GpuShaderCreatorModel {
            language: language,
            function_name: function_name@,
            pixel_name: pixel_name@,
            cache_id: cache_id@,
            unique_id: Seq::empty(),
            function_header: Seq::empty(),
            function_body: Seq::empty(),
            function_footer: Seq::empty(),
            shader_text: Seq::empty(),
        }));
        r
    }

    pub fn get_language(&self) -> (r: GpuLanguage)
        ensures
            r == self@.language,
    {
        self.language
    }

    pub fn get_function_name(&self) -> (r: &str)
        ensures
            r@ == self@.function_name,
    {
        self.function_name.as_str()
    }

    pub fn get_pixel_name(&self) -> (r: &str)
        ensures
            r@ == self@.pixel_name,
    {
        self.pixel_name.as_str()
    }

    pub fn get_cache_id(&self) -> (r: &str)
        ensures
            r@ == self@.cache_id,
    {
        self.cache_id.as_str()
    }

    pub fn get_unique_id(&self) -> (r: &str)
        ensures
            r@ == self@.unique_id,
    {
        self.unique_id.as_str()
    }

    pub fn get_function_header(&self) -> (r: &str)
        ensures
            r@ == self@.function_header,
    {
        self.function_header.as_str()
    }

    pub fn get_function_body(&self) -> (r: &str)
        ensures
            r@ == self@.function_body,
    {
        self.function_body.as_str()
    }

    pub fn get_function_footer(&self) -> (r: &str)
        ensures
            r@ == self@.function_footer,
    {
        self.function_footer.as_str()
    }

    pub fn get_shader_text(&self) -> (r: &str)
        ensures
            r@ == self@.shader_text,
    {
        self.shader_text.as_str()
    }

    pub fn add_to_function_header_shader_code(&mut self, code: &str)
        ensures
            final(self)@ == (GpuShaderCreatorModel {
                function_header: old(self)@.function_header + code@,
                ..old(self)@
            }),
    {
        let ghost before = self@;
        self.function_header.append(code);
        assert(self@ =~= (GpuShaderCreatorModel { function_header: before.function_header + code@, ..before }));
    }

    pub fn add_to_function_shader_code(&mut self, code: &str)
        ensures
            final(self)@ == (GpuShaderCreatorModel {
                function_body: old(self)@.function_body + code@,
                ..old(self)@
            }),
    {
        let ghost before = self@;
        self.function_body.append(code);
        assert(self@ =~= (GpuShaderCreatorModel { function_body: before.function_body + code@, ..before }));
    }

    pub fn add_to_function_footer_shader_code(&mut self, code: &str)
        ensures
            final(self)@ == (GpuShaderCreatorModel {
                function_footer: old(self)@.function_footer + code@,
                ..old(self)@
            }),
    {
        let ghost before = self@;
        self.function_footer.append(code);
        assert(self@ =~= (GpuShaderCreatorModel { function_footer: before.function_footer + code@, ..before }));
    }

    /// Starts a shader program under the unique identifier `uid`.
    pub fn begin(&mut self, uid: &str)
        ensures
            final(self)@ == (GpuShaderCreatorModel { unique_id: uid@, ..old(self)@ }),
    {
        let ghost before = self@;
        self.unique_id = uid.to_owned();
        assert(self@ =~= (GpuShaderCreatorModel { unique_id: uid@, ..before }));
    }

    /// Ends the shader program; nothing is held for it.
    pub fn end(&mut self)
        ensures
            final(self)@ == old(self)@,
    {
    }

    /// Puts the shader text together: header, body, footer.
    pub fn finalize(&mut self)
        ensures
            final(self)@ == (GpuShaderCreatorModel {
                shader_text: old(self)@.function_header + old(self)@.function_body
                    + old(self)@.function_footer,
                ..old(self)@
            }),
    {
        let ghost before = self@;
        let mut text = self.function_header.clone();
        text.append(self.function_body.as_str());
        text.append(self.function_footer.as_str());
        self.shader_text = text;
        assert(self@ =~= (GpuShaderCreatorModel {
            shader_text: before.function_header + before.function_body + before.function_footer,
            ..before
        }));
    }
}

} // verus!
