//! The description of a color space: its names, aliases, categories,
//! allocation and transforms, and the text that describes it.
use vstd::prelude::*;
use vstd::string::*;
use crate::text::{
    lemma_join_holds_item, lemma_occurs_between, occurs_in, contains_ignore_case, contains_str, copy_strings, eq_ignore_case, join,
    lemma_remove_all, lemma_remove_all_no_duplicates, push_joined, remove_all, str_eq, views,
    without,
};
use crate::tokens::{has_token_in, token_matches, tokens_wf, TokensManager};
use crate::types::{Allocation, BitDepth, ColorSpaceDirection, ReferenceSpaceType};

verus! {

/// A transform attached to a color space: the identity under which the
/// application keeps it, and the text that its `Display` form prints.
pub struct Transform {
    pub id: u64,
    pub text: String,
}

impl Transform {
    /// A copy with the same identity and text.
    pub fn copy(&self) -> (r: Transform)
        ensures
            r == *self,
    {
        Transform { id: self.id, text: self.text.clone() }
    }
}

fn copy_transform(t: &Option<Transform>) -> (r: Option<Transform>)
    ensures
        r == *t,
{
    match t {
        Some(x) => Some(x.copy()),
        None => None,
    }
}

fn copy_words(v: &Vec<u32>) -> (r: Vec<u32>)
    ensures
        r@ == v@,
{
    let mut r: Vec<u32> = Vec::new();
    let n = v.len();
    let mut i: usize = 0;
    while i < n
        invariant
            n == v@.len(),
            i <= n,
            r@ == v@.take(i as int),
        decreases n - i,
    {
        r.push(v[i]);
        assert(r@ =~= v@.take(i + 1));
        i = i + 1;
    }
    assert(v@.take(n as int) =~= v@);
    r
}

/// What a color space holds, as the contracts speak of it.
#[verifier::ext_equal]
pub struct ColorSpaceModel {
    pub name: Seq<char>,
    pub family: Seq<char>,
    pub equality_group: Seq<char>,
    pub description: Seq<char>,
    pub encoding: Seq<char>,
    pub aliases: Seq<Seq<char>>,
    pub bit_depth: BitDepth,
    pub is_data: bool,
    pub reference_space_type: ReferenceSpaceType,
    pub allocation: Allocation,
    /// The allocation variables as IEEE-754 bit patterns (`f32::to_bits`).
    pub allocation_vars: Seq<u32>,
    pub to_ref_transform: Option<Transform>,
    pub from_ref_transform: Option<Transform>,
    pub categories: Seq<Seq<char>>,
}

/// A fresh color space of the given reference space: every text empty, no
/// aliases or categories, unknown bit depth, not data, uniform allocation
/// without variables, and no transforms.
pub open spec fn default_model(reference_space: ReferenceSpaceType) -> ColorSpaceModel {
    ColorSpaceModel {
        name: Seq::empty(),
        family: Seq::empty(),
        equality_group: Seq::empty(),
        description: Seq::empty(),
        encoding: Seq::empty(),
        aliases: Seq::empty(),
        bit_depth: BitDepth::Unknown,
        is_data: false,
        reference_space_type: reference_space,
        allocation: Allocation::Uniform,
        allocation_vars: Seq::empty(),
        to_ref_transform: None,
        from_ref_transform: None,
        categories: Seq::empty(),
    }
}

/// No alias occurs twice, no alias is the name, and the categories are a
/// well-formed token list.
pub open spec fn model_wf(m: ColorSpaceModel) -> bool {
    &&& m.aliases.no_duplicates()
    &&& !m.aliases.contains(m.name)
    &&& tokens_wf(m.categories)
}

/// Some alias equals `alias` without regard to ASCII case.
pub open spec fn has_alias_in(m: ColorSpaceModel, alias: Seq<char>) -> bool {
    exists|i: int| 0 <= i < m.aliases.len() && eq_ignore_case(#[trigger] m.aliases[i], alias)
}

/// The aliases after `add_alias(alias)`: `alias` is appended unless it is the
/// name or already an alias.
pub open spec fn aliases_after_add(m: ColorSpaceModel, alias: Seq<char>) -> Seq<Seq<char>> {
    if alias != m.name && !m.aliases.contains(alias) {
        m.aliases.push(alias)
    } else {
        m.aliases
    }
}

/// The alias at `idx`, or the empty text past the end.
pub open spec fn alias_at(m: ColorSpaceModel, idx: int) -> Seq<char> {
    if 0 <= idx < m.aliases.len() {
        m.aliases[idx]
    } else {
        Seq::empty()
    }
}

/// The transform held for a direction.
pub open spec fn transform_for(m: ColorSpaceModel, dir: ColorSpaceDirection) -> Option<Transform> {
    match dir {
        ColorSpaceDirection::ToReference => m.to_ref_transform,
        ColorSpaceDirection::FromReference => m.from_ref_transform,
    }
}

/// The part of the description that lists the aliases.
pub open spec fn aliases_text(m: ColorSpaceModel) -> Seq<char> {
    if m.aliases.len() == 1 {
        "alias="@ + m.aliases[0] + ", "@
    } else if m.aliases.len() > 1 {
        "aliases=["@ + join(m.aliases, ", "@) + "], "@
    } else {
        Seq::empty()
    }
}

/// The part of the description from the family up to the data flag.
pub open spec fn middle_text(m: ColorSpaceModel) -> Seq<char> {
    (if m.family.len() > 0 {
        "family="@ + m.family + ", "@
    } else {
        Seq::empty()
    }) + (if m.equality_group.len() > 0 {
        "equalityGroup="@ + m.equality_group + ", "@
    } else {
        Seq::empty()
    }) + (if m.bit_depth != BitDepth::Unknown {
        "bitDepth="@ + m.bit_depth.name_chars() + ", "@
    } else {
        Seq::empty()
    }) + "isData="@ + (if m.is_data {
        "true"@
    } else {
        "false"@
    })
}

/// The part of the description from the allocation up to the description.
pub open spec fn tail_text(m: ColorSpaceModel, var_texts: Seq<Seq<char>>) -> Seq<char> {
    (if m.allocation_vars.len() > 0 {
        ", allocation="@ + m.allocation.name_chars() + ", vars="@ + join(var_texts, " "@)
    } else {
        Seq::empty()
    }) + (if m.categories.len() > 0 {
        ", categories="@ + join(m.categories, ","@)
    } else {
        Seq::empty()
    }) + (if m.encoding.len() > 0 {
        ", encoding="@ + m.encoding
    } else {
        Seq::empty()
    }) + (if m.description.len() > 0 {
        ", description="@ + m.description
    } else {
        Seq::empty()
    })
}

/// The part of the description that shows the transforms.
pub open spec fn transforms_text(m: ColorSpaceModel) -> Seq<char> {
    (match m.to_ref_transform {
        Some(t) => ",\n    "@ + m.name + " --> Reference\n        "@ + t.text@,
        None => Seq::empty(),
    }) + (match m.from_ref_transform {
        Some(t) => ",\n    Reference --> "@ + m.name + "\n        "@ + t.text@,
        None => Seq::empty(),
    })
}

/// The whole description of a color space, given the printed forms of its
/// allocation variables.
pub open spec fn describe_text(m: ColorSpaceModel, var_texts: Seq<Seq<char>>) -> Seq<char> {
    "<ColorSpace referenceSpaceType="@ + m.reference_space_type.name_chars() + ", name="@ + m.name
        + ", "@ + aliases_text(m) + middle_text(m) + tail_text(m, var_texts) + transforms_text(m)
        + ">"@
}

struct Impl {
    name: String,
    family: String,
    equality_group: String,
    description: String,
    encoding: String,
    aliases: Vec<String>,
    bit_depth: BitDepth,
    is_data: bool,
    reference_space_type: ReferenceSpaceType,
    allocation: Allocation,
    allocation_vars: Vec<u32>,
    to_ref_transform: Option<Transform>,
    from_ref_transform: Option<Transform>,
    to_ref_specified: bool,
    from_ref_specified: bool,
    categories: TokensManager,
}

impl Impl {
    spec fn model(&self) -> ColorSpaceModel {
        ColorSpaceModel {
            name: self.name@,
            family: self.family@,
            equality_group: self.equality_group@,
            description: self.description@,
            encoding: self.encoding@,
            aliases: views(self.aliases@),
            bit_depth: self.bit_depth,
            is_data: self.is_data,
            reference_space_type: self.reference_space_type,
            allocation: self.allocation,
            allocation_vars: self.allocation_vars@,
            to_ref_transform: self.to_ref_transform,
            from_ref_transform: self.from_ref_transform,
            categories: self.categories@,
        }
    }

    fn new(reference_space: ReferenceSpaceType) -> (r: Impl)
        ensures
            r.model() == default_model(reference_space),
            model_wf(r.model()),
    {
        let r = Impl {
            name: String::new(),
            family: String::new(),
            equality_group: String::new(),
            description: String::new(),
            encoding: String::new(),
            aliases: Vec::new(),
            bit_depth: BitDepth::Unknown,
            is_data: false,
            reference_space_type: reference_space,
            allocation: Allocation::Uniform,
            allocation_vars: Vec::new(),
            to_ref_transform: None,
            from_ref_transform: None,
            to_ref_specified: false,
            from_ref_specified: false,
            categories: TokensManager::new(),
        };
        assert(views(r.aliases@) =~= Seq::<Seq<char>>::empty());
        assert(r.model() =~= default_model(reference_space));
        r
    }

    fn copy(&self) -> (r: Impl)
        ensures
            r.model() == self.model(),
    {
        let r = Impl {
            name: self.name.clone(),
            family: self.family.clone(),
            equality_group: self.equality_group.clone(),
            description: self.description.clone(),
            encoding: self.encoding.clone(),
            aliases: copy_strings(&self.aliases),
            bit_depth: self.bit_depth,
            is_data: self.is_data,
            reference_space_type: self.reference_space_type,
            allocation: self.allocation,
            allocation_vars: copy_words(&self.allocation_vars),
            to_ref_transform: copy_transform(&self.to_ref_transform),
            from_ref_transform: copy_transform(&self.from_ref_transform),
            to_ref_specified: self.to_ref_specified,
            from_ref_specified: self.from_ref_specified,
            categories: self.categories.copy(),
        };
        assert(r.model() =~= self.model());
        r
    }
}

/// A color space. Each setter changes only the part of the description it names.
pub struct ColorSpace {
    impl_: Impl,
}

impl View for ColorSpace {
    type V = ColorSpaceModel;

    closed spec fn view(&self) -> ColorSpaceModel {
        self.impl_.model()
    }
}

impl ColorSpace {
    pub open spec fn wf(&self) -> bool {
        model_wf(self@)
    }

    /// A new scene-referred color space.
    pub fn create() -> (r: ColorSpace)
        ensures
            r@ == default_model(ReferenceSpaceType::Scene),
            r.wf(),
    {
        ColorSpace { impl_: Impl::new(ReferenceSpaceType::Scene) }
    }

    /// A new color space defined against `reference_space`.
    pub fn create_with_reference_space(reference_space: ReferenceSpaceType) -> (r: ColorSpace)
        ensures
            r@ == default_model(reference_space),
            r.wf(),
    {
        ColorSpace { impl_: Impl::new(reference_space) }
    }

    /// An independent copy that describes the same color space.
    pub fn create_editable_copy(&self) -> (r: ColorSpace)
        ensures
            r@ == self@,
    {
        ColorSpace { impl_: self.impl_.copy() }
    }

    pub fn get_name(&self) -> (r: String)
        ensures
            r@ == self@.name,
    {
        self.impl_.name.clone()
    }

    /// Sets the name and drops the alias equal to it, if there is one.
    pub fn set_name(&mut self, name: &str)
        requires
            old(self).wf(),
        ensures
            final(self).wf(),
            final(self)@ == (ColorSpaceModel {
                name: name@,
                aliases: remove_all(old(self)@.aliases, name@),
                ..old(self)@
            }),
    {
        let ghost before = self@;
        let kept = without(&self.impl_.aliases, name);
        self.impl_.aliases = kept;
        self.impl_.name = name.to_owned();
        proof {
            lemma_remove_all(before.aliases, name@);
            lemma_remove_all_no_duplicates(before.aliases, name@);
        }
        assert(self@ =~= (ColorSpaceModel {
            name: name@,
            aliases: remove_all(before.aliases, name@),
            ..before
        }));
    }

    pub fn get_num_aliases(&self) -> (r: usize)
        ensures
            r == self@.aliases.len(),
    {
        self.impl_.aliases.len()
    }

    /// The alias at `idx`, or an empty string past the end.
    pub fn get_alias(&self, idx: usize) -> (r: String)
        ensures
            r@ == alias_at(self@, idx as int),
    {
        if idx < self.impl_.aliases.len() {
            self.impl_.aliases[idx].clone()
        } else {
            String::new()
        }
    }

    /// Whether some alias equals `alias` without regard to ASCII case.
    pub fn has_alias(&self, alias: &str) -> (r: bool)
        ensures
            r == has_alias_in(self@, alias@),
    {
        let r = contains_ignore_case(&self.impl_.aliases, alias);
        assert(r == has_alias_in(self@, alias@)) by {
            if r {
                let j = choose|j: int| 0 <= j < self.impl_.aliases@.len() && eq_ignore_case(#[trigger] self.impl_.aliases@[j]@, alias@);
                assert(eq_ignore_case(self@.aliases[j], alias@));
            }
            if has_alias_in(self@, alias@) {
                let j = choose|j: int| 0 <= j < self@.aliases.len() && eq_ignore_case(#[trigger] self@.aliases[j], alias@);
                assert(eq_ignore_case(self.impl_.aliases@[j]@, alias@));
            }
        }
        r
    }

    /// Appends `alias` unless it is the name or already an alias.
    pub fn add_alias(&mut self, alias: &str)
        requires
            old(self).wf(),
        ensures
            final(self).wf(),
            final(self)@ == (ColorSpaceModel { aliases: aliases_after_add(old(self)@, alias@), ..old(self)@ }),
    {
        let ghost before = self@;
        if !str_eq(alias, self.impl_.name.as_str()) && !contains_str(&self.impl_.aliases, alias) {
            self.impl_.aliases.push(alias.to_owned());
            assert(views(self.impl_.aliases@) =~= before.aliases.push(alias@));
            let ghost p = before.aliases.push(alias@);
            assert forall|i: int, j: int| 0 <= i < p.len() && 0 <= j < p.len() && i != j implies p[i] != p[j] by {
                if i == before.aliases.len() as int {
                    assert(p[j] == before.aliases[j]);
                } else if j == before.aliases.len() as int {
                    assert(p[i] == before.aliases[i]);
                } else {
                    assert(p[i] == before.aliases[i] && p[j] == before.aliases[j]);
                }
            }
            assert(!p.contains(before.name)) by {
                if p.contains(before.name) {
                    let k = choose|k: int| 0 <= k < p.len() && p[k] == before.name;
                    if k < before.aliases.len() {
                        assert(before.aliases[k] == before.name);
                    }
                }
            }
        }
        assert(self@ =~= (ColorSpaceModel { aliases: aliases_after_add(before, alias@), ..before }));
    }

    /// Drops the alias equal to `alias`, if there is one.
    pub fn remove_alias(&mut self, alias: &str)
        requires
            old(self).wf(),
        ensures
            final(self).wf(),
            final(self)@ == (ColorSpaceModel { aliases: remove_all(old(self)@.aliases, alias@), ..old(self)@ }),
    {
        let ghost before = self@;
        let kept = without(&self.impl_.aliases, alias);
        self.impl_.aliases = kept;
        proof {
            lemma_remove_all(before.aliases, alias@);
            lemma_remove_all_no_duplicates(before.aliases, alias@);
        }
        assert(self@ =~= (ColorSpaceModel { aliases: remove_all(before.aliases, alias@), ..before }));
    }

    pub fn clear_aliases(&mut self)
        requires
            old(self).wf(),
        ensures
            final(self).wf(),
            final(self)@ == (ColorSpaceModel { aliases: Seq::empty(), ..old(self)@ }),
    {
        let ghost before = self@;
        self.impl_.aliases = Vec::new();
        assert(self@ =~= (ColorSpaceModel { aliases: Seq::empty(), ..before }));
    }

    pub fn get_family(&self) -> (r: String)
        ensures
            r@ == self@.family,
    {
        self.impl_.family.clone()
    }

    pub fn set_family(&mut self, family: &str)
        requires
            old(self).wf(),
        ensures
            final(self).wf(),
            final(self)@ == (ColorSpaceModel { family: family@, ..old(self)@ }),
    {
        let ghost before = self@;
        self.impl_.family = family.to_owned();
        assert(self@ =~= (ColorSpaceModel { family: family@, ..before }));
    }

    pub fn get_equality_group(&self) -> (r: String)
        ensures
            r@ == self@.equality_group,
    {
        self.impl_.equality_group.clone()
    }

    pub fn set_equality_group(&mut self, equality_group: &str)
        requires
            old(self).wf(),
        ensures
            final(self).wf(),
            final(self)@ == (ColorSpaceModel { equality_group: equality_group@, ..old(self)@ }),
    {
        let ghost before = self@;
        self.impl_.equality_group = equality_group.to_owned();
        assert(self@ =~= (ColorSpaceModel { equality_group: equality_group@, ..before }));
    }

    pub fn get_description(&self) -> (r: String)
        ensures
            r@ == self@.description,
    {
        self.impl_.description.clone()
    }

    pub fn set_description(&mut self, description: &str)
        requires
            old(self).wf(),
        ensures
            final(self).wf(),
            final(self)@ == (ColorSpaceModel { description: description@, ..old(self)@ }),
    {
        let ghost before = self@;
        self.impl_.description = description.to_owned();
        assert(self@ =~= (ColorSpaceModel { description: description@, ..before }));
    }

    pub fn get_bit_depth(&self) -> (r: BitDepth)
        ensures
            r == self@.bit_depth,
    {
        self.impl_.bit_depth
    }

    pub fn set_bit_depth(&mut self, bit_depth: BitDepth)
        requires
            old(self).wf(),
        ensures
            final(self).wf(),
            final(self)@ == (ColorSpaceModel { bit_depth: bit_depth, ..old(self)@ }),
    {
        let ghost before = self@;
        self.impl_.bit_depth = bit_depth;
        assert(self@ =~= (ColorSpaceModel { bit_depth: bit_depth, ..before }));
    }

    /// Whether some category answers to `category` (see `TokensManager`).
    pub fn has_category(&self, category: &str) -> (r: bool)
        ensures
            r == has_token_in(self@.categories, category@),
    {
        self.impl_.categories.has_token(category)
    }

    /// Adds `category` unless it is empty or some category answers to it.
    pub fn add_category(&mut self, category: &str)
        requires
            old(self).wf(),
        ensures
            final(self).wf(),
            final(self)@ == (ColorSpaceModel {
                categories: if category@.len() > 0 && !has_token_in(old(self)@.categories, category@) {
                    old(self)@.categories.push(category@)
                } else {
                    old(self)@.categories
                },
                ..old(self)@
            }),
    {
        let ghost before = self@;
        self.impl_.categories.add_token(category);
        assert(self@ =~= (ColorSpaceModel {
            categories: if category@.len() > 0 && !has_token_in(before.categories, category@) {
                before.categories.push(category@)
            } else {
                before.categories
            },
            ..before
        }));
    }

    /// Removes the category that answers to `category`, if there is one.
    pub fn remove_category(&mut self, category: &str)
        requires
            old(self).wf(),
        ensures
            final(self).wf(),
            final(self)@ == (ColorSpaceModel { categories: final(self)@.categories, ..old(self)@ }),
            !has_token_in(old(self)@.categories, category@) ==> final(self)@.categories
                == old(self)@.categories,
            has_token_in(old(self)@.categories, category@) ==> exists|k: int|
                0 <= k < old(self)@.categories.len() && token_matches(
                    #[trigger] old(self)@.categories[k],
                    category@,
                ) && final(self)@.categories == old(self)@.categories.remove(k),
            !has_token_in(final(self)@.categories, category@),
    {
        let ghost before = self@;
        self.impl_.categories.remove_token(category);
        assert(self@ =~= (ColorSpaceModel { categories: self@.categories, ..before }));
    }

    pub fn get_num_categories(&self) -> (r: usize)
        ensures
            r == self@.categories.len(),
    {
        self.impl_.categories.get_num_tokens()
    }

    /// The category at `index`, or an empty string past the end.
    pub fn get_category(&self, index: usize) -> (r: String)
        ensures
            r@ == if index < self@.categories.len() {
                self@.categories[index as int]
            } else {
                Seq::<char>::empty()
            },
    {
        self.impl_.categories.get_token(index).to_owned()
    }

    pub fn clear_categories(&mut self)
        requires
            old(self).wf(),
        ensures
            final(self).wf(),
            final(self)@ == (ColorSpaceModel { categories: Seq::empty(), ..old(self)@ }),
    {
        let ghost before = self@;
        self.impl_.categories.clear_tokens();
        assert(self@ =~= (ColorSpaceModel { categories: Seq::empty(), ..before }));
    }

    pub fn get_encoding(&self) -> (r: String)
        ensures
            r@ == self@.encoding,
    {
        self.impl_.encoding.clone()
    }

    pub fn set_encoding(&mut self, encoding: &str)
        requires
            old(self).wf(),
        ensures
            final(self).wf(),
            final(self)@ == (ColorSpaceModel { encoding: encoding@, ..old(self)@ }),
    {
        let ghost before = self@;
        self.impl_.encoding = encoding.to_owned();
        assert(self@ =~= (ColorSpaceModel { encoding: encoding@, ..before }));
    }

    pub fn is_data(&self) -> (r: bool)
        ensures
            r == self@.is_data,
    {
        self.impl_.is_data
    }

    pub fn set_is_data(&mut self, val: bool)
        requires
            old(self).wf(),
        ensures
            final(self).wf(),
            final(self)@ == (ColorSpaceModel { is_data: val, ..old(self)@ }),
    {
        let ghost before = self@;
        self.impl_.is_data = val;
        assert(self@ =~= (ColorSpaceModel { is_data: val, ..before }));
    }

    pub fn get_reference_space_type(&self) -> (r: ReferenceSpaceType)
        ensures
            r == self@.reference_space_type,
    {
        self.impl_.reference_space_type
    }

    pub fn get_allocation(&self) -> (r: Allocation)
        ensures
            r == self@.allocation,
    {
        self.impl_.allocation
    }

    pub fn set_allocation(&mut self, allocation: Allocation)
        requires
            old(self).wf(),
        ensures
            final(self).wf(),
            final(self)@ == (ColorSpaceModel { allocation: allocation, ..old(self)@ }),
    {
        let ghost before = self@;
        self.impl_.allocation = allocation;
        assert(self@ =~= (ColorSpaceModel { allocation: allocation, ..before }));
    }

    pub fn get_allocation_num_vars(&self) -> (r: usize)
        ensures
            r == self@.allocation_vars.len(),
    {
        self.impl_.allocation_vars.len()
    }

    /// The allocation variables, as IEEE-754 bit patterns.
    pub fn get_allocation_vars(&self) -> (r: Vec<u32>)
        ensures
            r@ == self@.allocation_vars,
    {
        copy_words(&self.impl_.allocation_vars)
    }

    /// Sets the allocation variables, given as IEEE-754 bit patterns.
    pub fn set_allocation_vars(&mut self, vars: &[u32])
        requires
            old(self).wf(),
        ensures
            final(self).wf(),
            final(self)@ == (ColorSpaceModel { allocation_vars: vars@, ..old(self)@ }),
    {
        let ghost before = self@;
        let mut copied: Vec<u32> = Vec::new();
        let n = vars.len();
        let mut i: usize = 0;
        while i < n
            invariant
                n == vars@.len(),
                i <= n,
                copied@ == vars@.take(i as int),
            decreases n - i,
        {
            copied.push(vars[i]);
            assert(copied@ =~= vars@.take(i + 1));
            i = i + 1;
        }
        assert(vars@.take(n as int) =~= vars@);
        self.impl_.allocation_vars = copied;
        assert(self@ =~= (ColorSpaceModel { allocation_vars: vars@, ..before }));
    }

    /// The transform held for `dir`.
    pub fn get_transform(&self, dir: ColorSpaceDirection) -> (r: Option<Transform>)
        ensures
            r == transform_for(self@, dir),
    {
        match dir {
            ColorSpaceDirection::ToReference => copy_transform(&self.impl_.to_ref_transform),
            ColorSpaceDirection::FromReference => copy_transform(&self.impl_.from_ref_transform),
        }
    }

    /// Replaces the transform held for `dir`.
    pub fn set_transform(&mut self, transform: Option<Transform>, dir: ColorSpaceDirection)
        requires
            old(self).wf(),
        ensures
            final(self).wf(),
            final(self)@ == (match dir {
                ColorSpaceDirection::ToReference => ColorSpaceModel {
                    to_ref_transform: transform,
                    ..old(self)@
                },
                ColorSpaceDirection::FromReference => ColorSpaceModel {
                    from_ref_transform: transform,
                    ..old(self)@
                },
            }),
    {
        let ghost before = self@;
        match dir {
            ColorSpaceDirection::ToReference => {
                self.impl_.to_ref_transform = transform;
                assert(self@ =~= (ColorSpaceModel { to_ref_transform: transform, ..before }));
            },
            ColorSpaceDirection::FromReference => {
                self.impl_.from_ref_transform = transform;
                assert(self@ =~= (ColorSpaceModel { from_ref_transform: transform, ..before }));
            },
        }
    }

    fn push_aliases_text(&self, s: &mut String)
        ensures
            final(s)@ == old(s)@ + aliases_text(self@),
    {
        let ghost start = s@;
        let n = self.impl_.aliases.len();
        if n == 1 {
            s.append("alias=");
            s.append(self.impl_.aliases[0].as_str());
            s.append(", ");
            assert(s@ =~= start + aliases_text(self@));
        } else if n > 1 {
            s.append("aliases=[");
            push_joined(s, &self.impl_.aliases, ", ");
            s.append("], ");
            assert(s@ =~= start + aliases_text(self@));
        } else {
            assert(s@ =~= start + aliases_text(self@));
        }
    }

    #[verifier::rlimit(40)]
    fn push_middle_text(&self, s: &mut String)
        ensures
            final(s)@ == old(s)@ + middle_text(self@),
    {
        let ghost start = s@;
        let m = &self.impl_;
        let ghost a = s@;
        if m.family.as_str().unicode_len() > 0 {
            s.append("family=");
            s.append(m.family.as_str());
            s.append(", ");
        }
        assert(s@ =~= a + (if self@.family.len() > 0 { "family="@ + self@.family + ", "@ } else { Seq::empty() }));
        let ghost b = s@;
        if m.equality_group.as_str().unicode_len() > 0 {
            s.append("equalityGroup=");
            s.append(m.equality_group.as_str());
            s.append(", ");
        }
        assert(s@ =~= b + (if self@.equality_group.len() > 0 { "equalityGroup="@ + self@.equality_group + ", "@ } else { Seq::empty() }));
        let ghost c = s@;
        if m.bit_depth != BitDepth::Unknown {
            s.append("bitDepth=");
            s.append(m.bit_depth.name());
            s.append(", ");
        }
        assert(s@ =~= c + (if self@.bit_depth != BitDepth::Unknown { "bitDepth="@ + self@.bit_depth.name_chars() + ", "@ } else { Seq::empty() }));
        s.append("isData=");
        if m.is_data {
            s.append("true");
        } else {
            s.append("false");
        }
        assert(s@ =~= start + middle_text(self@));
    }

    fn push_categories_text(&self, s: &mut String)
        ensures
            final(s)@ == old(s)@ + (if self@.categories.len() > 0 {
                ", categories="@ + join(self@.categories, ","@)
            } else {
                Seq::empty()
            }),
    {
        let ghost start = s@;
        let m = &self.impl_;
        if m.categories.get_num_tokens() > 0 {
            s.append(", categories=");
            let mut names: Vec<String> = Vec::new();
            let k = m.categories.get_num_tokens();
            let mut i: usize = 0;
            while i < k
                invariant
                    k == m.categories@.len(),
                    i <= k,
                    names@.len() == i,
                    views(names@) == m.categories@.take(i as int),
                decreases k - i,
            {
                let tok = m.categories.get_token(i).to_owned();
                assert(tok@ == m.categories@[i as int]);
                let ghost prev = names@;
                names.push(tok);
                assert(names@ == prev.push(tok));
                assert(views(names@)[i as int] == tok@);
                assert(views(names@) =~= m.categories@.take(i + 1));
                i = i + 1;
            }
            assert(m.categories@.take(k as int) =~= m.categories@);
            push_joined(s, &names, ",");
        }
        assert(s@ =~= start + (if self@.categories.len() > 0 {
            ", categories="@ + join(self@.categories, ","@)
        } else {
            Seq::empty()
        }));
    }

    fn push_tail_text(&self, s: &mut String, var_texts: &Vec<String>)
        ensures
            final(s)@ == old(s)@ + tail_text(self@, views(var_texts@)),
    {
        let ghost start = s@;
        let m = &self.impl_;
        let ghost a = s@;
        if m.allocation_vars.len() > 0 {
            s.append(", allocation=");
            s.append(m.allocation.name());
            s.append(", vars=");
            push_joined(s, var_texts, " ");
        }
        assert(s@ =~= a + (if self@.allocation_vars.len() > 0 {
            ", allocation="@ + self@.allocation.name_chars() + ", vars="@ + join(views(var_texts@), " "@)
        } else {
            Seq::empty()
        }));
        let ghost b = s@;
        self.push_categories_text(s);
        let ghost c = s@;
        if m.encoding.as_str().unicode_len() > 0 {
            s.append(", encoding=");
            s.append(m.encoding.as_str());
        }
        assert(s@ =~= c + (if self@.encoding.len() > 0 { ", encoding="@ + self@.encoding } else { Seq::empty() }));
        let ghost d = s@;
        if m.description.as_str().unicode_len() > 0 {
            s.append(", description=");
            s.append(m.description.as_str());
        }
        assert(s@ =~= d + (if self@.description.len() > 0 { ", description="@ + self@.description } else { Seq::empty() }));
        assert(s@ =~= start + tail_text(self@, views(var_texts@)));
    }

    fn push_transforms_text(&self, s: &mut String)
        ensures
            final(s)@ == old(s)@ + transforms_text(self@),
    {
        let ghost start = s@;
        let m = &self.impl_;
        match &m.to_ref_transform {
            Some(t) => {
                s.append(",\n    ");
                s.append(m.name.as_str());
                s.append(" --> Reference\n        ");
                s.append(t.text.as_str());
            },
            None => {},
        }
        let ghost a = s@;
        assert(a =~= start + (match self@.to_ref_transform {
            Some(t) => ",\n    "@ + self@.name + " --> Reference\n        "@ + t.text@,
            None => Seq::empty(),
        }));
        match &m.from_ref_transform {
            Some(t) => {
                s.append(",\n    Reference --> ");
                s.append(m.name.as_str());
                s.append("\n        ");
                s.append(t.text.as_str());
            },
            None => {},
        }
        assert(s@ =~= start + transforms_text(self@));
    }

    /// The one-line description of the color space that its `Display` form
    /// prints, given the printed forms of the allocation variables.
    pub fn describe(&self, var_texts: &Vec<String>) -> (r: String)
        requires
            var_texts@.len() == self@.allocation_vars.len(),
        ensures
            r@ == describe_text(self@, views(var_texts@)),
    {
        let mut s = String::new();
        s.append("<ColorSpace referenceSpaceType=");
        s.append(self.impl_.reference_space_type.name());
        s.append(", name=");
        s.append(self.impl_.name.as_str());
        s.append(", ");
        self.push_aliases_text(&mut s);
        self.push_middle_text(&mut s);
        self.push_tail_text(&mut s, var_texts);
        self.push_transforms_text(&mut s);
        s.append(">");
        assert(s@ =~= describe_text(self@, views(var_texts@)));
        s
    }
}

/// The name of a well-formed color space is never one of its aliases.
pub proof fn lemma_name_is_no_alias(cs: &ColorSpace)
    requires
        cs.wf(),
    ensures
        !cs@.aliases.contains(cs@.name),
{
}

/// After `add_alias(alias)`, with `alias` other than the name, `alias` is an
/// alias and `has_alias(alias)` answers yes.
pub proof fn lemma_added_alias_is_present(m: ColorSpaceModel, alias: Seq<char>)
    requires
        alias != m.name,
    ensures
        aliases_after_add(m, alias).contains(alias),
        has_alias_in(ColorSpaceModel { aliases: aliases_after_add(m, alias), ..m }, alias),
{
    let a = aliases_after_add(m, alias);
    let m2 = ColorSpaceModel { aliases: a, ..m };
    if m.aliases.contains(alias) {
        let k = choose|k: int| 0 <= k < m.aliases.len() && m.aliases[k] == alias;
        assert(eq_ignore_case(m2.aliases[k], alias));
    } else {
        assert(a[m.aliases.len() as int] == alias);
        assert(eq_ignore_case(m2.aliases[m.aliases.len() as int], alias));
    }
}

/// After `remove_alias(alias)`, `alias` is no alias, and every other alias stays.
pub proof fn lemma_removed_alias_is_absent(m: ColorSpaceModel, alias: Seq<char>)
    ensures
        !remove_all(m.aliases, alias).contains(alias),
        forall|x: Seq<char>| x != alias ==> (remove_all(m.aliases, alias).contains(x) <==> m.aliases.contains(x)),
{
    lemma_remove_all(m.aliases, alias);
}

/// Removing an alias that was just added gives back the aliases there were.
pub proof fn lemma_add_then_remove_alias(m: ColorSpaceModel, alias: Seq<char>)
    requires
        !m.aliases.contains(alias),
    ensures
        remove_all(aliases_after_add(m, alias), alias) == m.aliases,
{
    lemma_remove_all(m.aliases, alias);
    if alias != m.name {
        let p = m.aliases.push(alias);
        assert(p.drop_last() =~= m.aliases);
        assert(p.last() == alias);
    }
}

/// Reading a text part back after setting it gives what was set, and a second
/// setting replaces the first as if it alone had been made.
pub proof fn lemma_set_then_get(m: ColorSpaceModel, a: Seq<char>, b: Seq<char>)
    ensures
        (ColorSpaceModel { family: a, ..m }).family == a,
        (ColorSpaceModel { family: b, ..ColorSpaceModel { family: a, ..m } }) == (ColorSpaceModel { family: b, ..m }),
        (ColorSpaceModel { equality_group: a, ..m }).equality_group == a,
        (ColorSpaceModel { equality_group: b, ..ColorSpaceModel { equality_group: a, ..m } }) == (ColorSpaceModel { equality_group: b, ..m }),
        (ColorSpaceModel { description: a, ..m }).description == a,
        (ColorSpaceModel { description: b, ..ColorSpaceModel { description: a, ..m } }) == (ColorSpaceModel { description: b, ..m }),
        (ColorSpaceModel { encoding: a, ..m }).encoding == a,
        (ColorSpaceModel { encoding: b, ..ColorSpaceModel { encoding: a, ..m } }) == (ColorSpaceModel { encoding: b, ..m }),
{
}

/// What `get_transform` gives for a direction is what was last given to
/// `set_transform` for that direction, whatever is held for the other; a
/// fresh color space holds no transform.
pub proof fn lemma_transform_round_trip(m: ColorSpaceModel, t: Option<Transform>, rs: ReferenceSpaceType)
    ensures
        transform_for(ColorSpaceModel { to_ref_transform: t, ..m }, ColorSpaceDirection::ToReference) == t,
        transform_for(ColorSpaceModel { from_ref_transform: t, ..m }, ColorSpaceDirection::FromReference) == t,
        transform_for(ColorSpaceModel { from_ref_transform: t, ..m }, ColorSpaceDirection::ToReference)
            == transform_for(m, ColorSpaceDirection::ToReference),
        transform_for(ColorSpaceModel { to_ref_transform: t, ..m }, ColorSpaceDirection::FromReference)
            == transform_for(m, ColorSpaceDirection::FromReference),
        transform_for(default_model(rs), ColorSpaceDirection::ToReference) is None,
        transform_for(default_model(rs), ColorSpaceDirection::FromReference) is None,
{
}

/// A color space with categories lists them in its description: the text
/// `, categories=` followed by the categories joined with `,` occurs in it,
/// and so does every single category.
#[verifier::rlimit(50)]
pub proof fn lemma_describe_lists_categories(m: ColorSpaceModel, var_texts: Seq<Seq<char>>)
    requires
        m.categories.len() > 0,
    ensures
        occurs_in(", categories="@ + join(m.categories, ","@), describe_text(m, var_texts)),
        forall|i: int| 0 <= i < m.categories.len() ==> occurs_in(#[trigger] m.categories[i], describe_text(m, var_texts)),
{
    let alloc = if m.allocation_vars.len() > 0 {
        ", allocation="@ + m.allocation.name_chars() + ", vars="@ + join(var_texts, " "@)
    } else {
        Seq::empty()
    };
    let cats = ", categories="@ + join(m.categories, ","@);
    let enc = if m.encoding.len() > 0 {
        ", encoding="@ + m.encoding
    } else {
        Seq::empty()
    };
    let desc = if m.description.len() > 0 {
        ", description="@ + m.description
    } else {
        Seq::empty()
    };
    assert(tail_text(m, var_texts) == alloc + cats + enc + desc);
    let head = "<ColorSpace referenceSpaceType="@ + m.reference_space_type.name_chars() + ", name="@ + m.name
        + ", "@ + aliases_text(m) + middle_text(m);
    let rest = transforms_text(m) + ">"@;
    let a = head + alloc;
    let b = enc + desc + rest;
    assert(describe_text(m, var_texts) == head + tail_text(m, var_texts) + rest);
    assert(describe_text(m, var_texts) =~= a + cats + b);
    lemma_occurs_between(a, cats, b);
    assert forall|i: int| 0 <= i < m.categories.len() implies occurs_in(
        #[trigger] m.categories[i],
        describe_text(m, var_texts),
    ) by {
        let (x, y) = lemma_join_holds_item(m.categories, ","@, i);
        let a2 = a + ", categories="@ + x;
        let b2 = y + b;
        assert(describe_text(m, var_texts) =~= a2 + m.categories[i] + b2);
        lemma_occurs_between(a2, m.categories[i], b2);
    }
}

} // verus!
