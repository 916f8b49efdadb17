//! The state of a CPU processor: its bit depths, flags, cache identifier and
//! the ops of its CPU engine, and the search for dynamic properties.
use vstd::prelude::*;
use vstd::string::*;
use crate::text::{decimal_digits, push_decimal};
use crate::types::{BitDepth, DynamicPropertyType, OpsSummary, OptimizationFlags};

verus! {

/// A parameter of an op that may be changed after finalization; `id` is the
/// identity under which the application keeps the shared value.
#[derive(Clone, Copy, Debug, PartialEq, Eq, Structural)]
pub struct DynamicProperty {
    pub property_type: DynamicPropertyType,
    pub is_dynamic: bool,
    pub id: u64,
}

/// The first property of the list of type `t` that is dynamic.
pub open spec fn find_property(ps: Seq<DynamicProperty>, t: DynamicPropertyType) -> Option<DynamicProperty>
    decreases ps.len(),
{
    if ps.len() == 0 {
        None
    } else if ps[0].property_type == t && ps[0].is_dynamic {
        Some(ps[0])
    } else {
        find_property(ps.drop_first(), t)
    }
}

/// An op of a CPU engine, by the dynamic properties it holds.
pub struct CpuOp {
    pub dynamic_properties: Vec<DynamicProperty>,
}

impl CpuOp {
    /// Some property of the op is dynamic.
    pub open spec fn dynamic(&self) -> bool {
        exists|j: int| 0 <= j < self.dynamic_properties@.len() && (#[trigger] self.dynamic_properties@[j]).is_dynamic
    }

    /// The op's first dynamic property of type `t`.
    pub open spec fn find(&self, t: DynamicPropertyType) -> Option<DynamicProperty> {
        find_property(self.dynamic_properties@, t)
    }

    pub fn is_dynamic(&self) -> (r: bool)
        ensures
            r == self.dynamic(),
    {
        let n = self.dynamic_properties.len();
        let mut i: usize = 0;
        while i < n
            invariant
                n == self.dynamic_properties@.len(),
                i <= n,
                forall|j: int| 0 <= j < i ==> !(#[trigger] self.dynamic_properties@[j]).is_dynamic,
            decreases n - i,
        {
            if self.dynamic_properties[i].is_dynamic {
                return true;
            }
            i = i + 1;
        }
        false
    }

    fn find_exec(&self, t: DynamicPropertyType) -> (r: Option<DynamicProperty>)
        ensures
            r == self.find(t),
    {
        let ghost ps = self.dynamic_properties@;
        let n = self.dynamic_properties.len();
        let mut i: usize = 0;
        assert(ps.skip(0) =~= ps);
        while i < n
            invariant
                n == ps.len(),
                ps == self.dynamic_properties@,
                i <= n,
                find_property(ps, t) == find_property(ps.skip(i as int), t),
            decreases n - i,
        {
            let p = self.dynamic_properties[i];
            assert(ps.skip(i as int)[0] == p);
            assert(ps.skip(i as int).drop_first() =~= ps.skip(i + 1));
            if p.property_type == t && p.is_dynamic {
                return Some(p);
            }
            i = i + 1;
        }
        assert(ps.skip(n as int).len() == 0);
        None
    }

    pub fn has_dynamic_property(&self, property_type: DynamicPropertyType) -> (r: bool)
        ensures
            r == self.find(property_type) is Some,
    {
        self.find_exec(property_type).is_some()
    }

    pub fn get_dynamic_property(&self, property_type: DynamicPropertyType) -> (r: DynamicProperty)
        requires
            self.find(property_type) is Some,
        ensures
            Some(r) == self.find(property_type),
    {
        self.find_exec(property_type).unwrap()
    }
}

/// The first dynamic property of type `t` over a list of ops, in order.
pub open spec fn find_in_ops(ops: Seq<CpuOp>, t: DynamicPropertyType) -> Option<DynamicProperty>
    decreases ops.len(),
{
    if ops.len() == 0 {
        None
    } else if ops[0].find(t) is Some {
        ops[0].find(t)
    } else {
        find_in_ops(ops.drop_first(), t)
    }
}

pub open spec fn find_in_optional(op: Option<CpuOp>, t: DynamicPropertyType) -> Option<DynamicProperty> {
    match op {
        Some(o) => o.find(t),
        None => None,
    }
}

pub open spec fn optional_dynamic(op: Option<CpuOp>) -> bool {
    match op {
        Some(o) => o.dynamic(),
        None => false,
    }
}

/// The ops a finalized CPU engine runs: the conversion from the input bit
/// depth, the ops proper, and the conversion to the output bit depth.
pub struct CpuEngine {
    pub in_bit_depth_op: Option<CpuOp>,
    pub cpu_ops: Vec<CpuOp>,
    pub out_bit_depth_op: Option<CpuOp>,
}

/// What a CPU processor holds, as the contracts speak of it.
#[verifier::ext_equal]
pub struct CpuProcessorModel {
    pub in_bit_depth_op: Option<CpuOp>,
    pub cpu_ops: Seq<CpuOp>,
    pub out_bit_depth_op: Option<CpuOp>,
    pub in_bit_depth: BitDepth,
    pub out_bit_depth: BitDepth,
    pub is_no_op: bool,
    pub is_identity: bool,
    pub has_channel_crosstalk: bool,
    pub cache_id: Seq<char>,
}

impl CpuProcessorModel {
    /// Some op of the engine, in any of its three places, is dynamic.
    pub open spec fn dynamic(self) -> bool {
        ||| optional_dynamic(self.in_bit_depth_op)
        ||| exists|i: int| 0 <= i < self.cpu_ops.len() && (#[trigger] self.cpu_ops[i]).dynamic()
        ||| optional_dynamic(self.out_bit_depth_op)
    }

    /// The first dynamic property of type `t`, looking at the input
    /// conversion, then the ops in order, then the output conversion.
    pub open spec fn find(self, t: DynamicPropertyType) -> Option<DynamicProperty> {
        match find_in_optional(self.in_bit_depth_op, t) {
            Some(p) => Some(p),
            None => match find_in_ops(self.cpu_ops, t) {
                Some(p) => Some(p),
                None => find_in_optional(self.out_bit_depth_op, t),
            },
        }
    }
}

/// The cache identifier that finalization gives a CPU processor.
pub open spec fn cpu_cache_id(
    in_bit_depth: BitDepth,
    out_bit_depth: BitDepth,
    optimization_flags: OptimizationFlags,
    ops_cache_id: Seq<char>,
) -> Seq<char> {
    "CPU Processor: from "@ + in_bit_depth.name_chars() + " to "@ + out_bit_depth.name_chars()
        + " oFlags "@ + decimal_digits(optimization_flags as nat) + " ops: "@ + ops_cache_id
}

struct Impl {
    in_bit_depth_op: Option<CpuOp>,
    cpu_ops: Vec<CpuOp>,
    out_bit_depth_op: Option<CpuOp>,
    in_bit_depth: BitDepth,
    out_bit_depth: BitDepth,
    is_no_op: bool,
    is_identity: bool,
    has_channel_crosstalk: bool,
    cache_id: String,
}

impl Impl {
    spec fn model(&self) -> CpuProcessorModel {
        CpuProcessorModel {
            in_bit_depth_op: self.in_bit_depth_op,
            cpu_ops: self.cpu_ops@,
            out_bit_depth_op: self.out_bit_depth_op,
            in_bit_depth: self.in_bit_depth,
            out_bit_depth: self.out_bit_depth,
            is_no_op: self.is_no_op,
            is_identity: self.is_identity,
            has_channel_crosstalk: self.has_channel_crosstalk,
            cache_id: self.cache_id@,
        }
    }

    fn new() -> (r: Impl)
        ensures
            r.model() == (CpuProcessorModel {
                in_bit_depth_op: None,
                cpu_ops: Seq::empty(),
                out_bit_depth_op: None,
                in_bit_depth: BitDepth::F32,
                out_bit_depth: BitDepth::F32,
                is_no_op: false,
                is_identity: false,
                has_channel_crosstalk: true,
                cache_id: Seq::empty(),
            }),
    {
        let r = Impl {
            in_bit_depth_op: None,
            cpu_ops: Vec::new(),
            out_bit_depth_op: None,
            in_bit_depth: BitDepth::F32,
            out_bit_depth: BitDepth::F32,
            is_no_op: false,
            is_identity: false,
            has_channel_crosstalk: true,
            cache_id: String::new(),
        };
        assert(r.model() =~= (CpuProcessorModel {
            in_bit_depth_op: None,
            cpu_ops: Seq::empty(),
            out_bit_depth_op: None,
            in_bit_depth: BitDepth::F32,
            out_bit_depth: BitDepth::F32,
            is_no_op: false,
            is_identity: false,
            has_channel_crosstalk: true,
            cache_id: Seq::empty(),
        }));
        r
    }

    fn is_dynamic(&self) -> (r: bool)
        ensures
            r == self.model().dynamic(),
    {
        if let Some(op) = &self.in_bit_depth_op {
            if op.is_dynamic() {
                return true;
            }
        }
        let n = self.cpu_ops.len();
        let mut i: usize = 0;
        while i < n
            invariant
                n == self.cpu_ops@.len(),
                i <= n,
                forall|j: int| 0 <= j < i ==> !(#[trigger] self.cpu_ops@[j]).dynamic(),
            decreases n - i,
        {
            if self.cpu_ops[i].is_dynamic() {
                assert(self.model().cpu_ops[i as int].dynamic());
                return true;
            }
            i = i + 1;
        }
        if let Some(op) = &self.out_bit_depth_op {
            if op.is_dynamic() {
                return true;
            }
        }
        false
    }

    fn find_exec(&self, t: DynamicPropertyType) -> (r: Option<DynamicProperty>)
        ensures
            r == self.model().find(t),
    {
        if let Some(op) = &self.in_bit_depth_op {
            if op.has_dynamic_property(t) {
                return Some(op.get_dynamic_property(t));
            }
        }
        let ghost ops = self.cpu_ops@;
        let n = self.cpu_ops.len();
        let mut i: usize = 0;
        assert(ops.skip(0) =~= ops);
        while i < n
            invariant
                n == ops.len(),
                ops == self.cpu_ops@,
                find_in_optional(self.in_bit_depth_op, t) is None,
                i <= n,
                find_in_ops(ops, t) == find_in_ops(ops.skip(i as int), t),
            decreases n - i,
        {
            assert(ops.skip(i as int)[0] == ops[i as int]);
            assert(ops.skip(i as int).drop_first() =~= ops.skip(i + 1));
            if self.cpu_ops[i].has_dynamic_property(t) {
                return Some(self.cpu_ops[i].get_dynamic_property(t));
            }
            i = i + 1;
        }
        assert(ops.skip(n as int).len() == 0);
        if let Some(op) = &self.out_bit_depth_op {
            if op.has_dynamic_property(t) {
                return Some(op.get_dynamic_property(t));
            }
        }
        None
    }

    fn has_dynamic_property(&self, property_type: DynamicPropertyType) -> (r: bool)
        ensures
            r == self.model().find(property_type) is Some,
    {
        self.find_exec(property_type).is_some()
    }

    fn get_dynamic_property(&self, property_type: DynamicPropertyType) -> (r: DynamicProperty)
        requires
            self.model().find(property_type) is Some,
        ensures
            Some(r) == self.model().find(property_type),
    {
        self.find_exec(property_type).unwrap()
    }

    fn finalize(
        &mut self,
        ops: &OpsSummary,
        engine: CpuEngine,
        in_bit_depth: BitDepth,
        out_bit_depth: BitDepth,
        optimization_flags: OptimizationFlags,
    )
        ensures
            final(self).model() == (CpuProcessorModel {
                in_bit_depth_op: engine.in_bit_depth_op,
                cpu_ops: engine.cpu_ops@,
                out_bit_depth_op: engine.out_bit_depth_op,
                in_bit_depth: in_bit_depth,
                out_bit_depth: out_bit_depth,
                is_no_op: ops.is_no_op && in_bit_depth == out_bit_depth,
                is_identity: ops.is_no_op,
                has_channel_crosstalk: ops.has_channel_crosstalk,
                cache_id: cpu_cache_id(in_bit_depth, out_bit_depth, optimization_flags, ops.cache_id@),
            }),
    {
        self.in_bit_depth = in_bit_depth;
        self.out_bit_depth = out_bit_depth;
        self.is_identity = ops.is_no_op;
        self.is_no_op = self.is_identity && self.in_bit_depth == self.out_bit_depth;
        self.has_channel_crosstalk = ops.has_channel_crosstalk;
        self.cpu_ops = Vec::new();
        self.in_bit_depth_op = None;
        self.out_bit_depth_op = None;
        let CpuEngine { in_bit_depth_op, cpu_ops, out_bit_depth_op } = engine;
        self.in_bit_depth_op = in_bit_depth_op;
        self.cpu_ops = cpu_ops;
        self.out_bit_depth_op = out_bit_depth_op;
        let mut ss = String::new();
        ss.append("CPU Processor: from ");
        ss.append(in_bit_depth.name());
        ss.append(" to ");
        ss.append(out_bit_depth.name());
        ss.append(" oFlags ");
        push_decimal(&mut ss, optimization_flags as u64);
        ss.append(" ops: ");
        ss.append(ops.cache_id.as_str());
        self.cache_id = ss;
        assert(self.cache_id@ =~= cpu_cache_id(in_bit_depth, out_bit_depth, optimization_flags, ops.cache_id@));
    }
}

/// A CPU processor: the state that finalization leaves and the queries on it.
pub struct CPUProcessor {
    impl_: Impl,
}

impl View for CPUProcessor {
    type V = CpuProcessorModel;

    closed spec fn view(&self) -> CpuProcessorModel {
        self.impl_.model()
    }
}

impl CPUProcessor {
    /// The processor does nothing exactly when its ops do nothing and the
    /// input and output bit depths agree.
    pub open spec fn wf(&self) -> bool {
        self@.is_no_op == (self@.is_identity && self@.in_bit_depth == self@.out_bit_depth)
    }

    /// A processor that has not been finalized: F32 in and out, no ops, not
    /// a no-op, not an identity, with channel crosstalk, empty cache id.
    pub fn new() -> (r: CPUProcessor)
        ensures
            r@ == (CpuProcessorModel {
                in_bit_depth_op: None,
                cpu_ops: Seq::empty(),
                out_bit_depth_op: None,
                in_bit_depth: BitDepth::F32,
                out_bit_depth: BitDepth::F32,
                is_no_op: false,
                is_identity: false,
                has_channel_crosstalk: true,
                cache_id: Seq::empty(),
            }),
            r.wf(),
    {
        CPUProcessor { impl_: Impl::new() }
    }

    /// Takes the finalized op list and the CPU engine built from it.
    pub fn finalize(
        &mut self,
        ops: &OpsSummary,
        engine: CpuEngine,
        in_bit_depth: BitDepth,
        out_bit_depth: BitDepth,
        optimization_flags: OptimizationFlags,
    )
        ensures
            final(self)@ == (CpuProcessorModel {
                in_bit_depth_op: engine.in_bit_depth_op,
                cpu_ops: engine.cpu_ops@,
                out_bit_depth_op: engine.out_bit_depth_op,
                in_bit_depth: in_bit_depth,
                out_bit_depth: out_bit_depth,
                is_no_op: ops.is_no_op && in_bit_depth == out_bit_depth,
                is_identity: ops.is_no_op,
                has_channel_crosstalk: ops.has_channel_crosstalk,
                cache_id: cpu_cache_id(in_bit_depth, out_bit_depth, optimization_flags, ops.cache_id@),
            }),
            final(self).wf(),
    {
        self.impl_.finalize(ops, engine, in_bit_depth, out_bit_depth, optimization_flags);
    }

    pub fn is_no_op(&self) -> (r: bool)
        ensures
            r == self@.is_no_op,
    {
        self.impl_.is_no_op
    }

    pub fn is_identity(&self) -> (r: bool)
        ensures
            r == self@.is_identity,
    {
        self.impl_.is_identity
    }

    pub fn has_channel_crosstalk(&self) -> (r: bool)
        ensures
            r == self@.has_channel_crosstalk,
    {
        self.impl_.has_channel_crosstalk
    }

    pub fn get_cache_id(&self) -> (r: String)
        ensures
            r@ == self@.cache_id,
    {
        self.impl_.cache_id.clone()
    }

    pub fn get_input_bit_depth(&self) -> (r: BitDepth)
        ensures
            r == self@.in_bit_depth,
    {
        self.impl_.in_bit_depth
    }

    pub fn get_output_bit_depth(&self) -> (r: BitDepth)
        ensures
            r == self@.out_bit_depth,
    {
        self.impl_.out_bit_depth
    }

    pub fn is_dynamic(&self) -> (r: bool)
        ensures
            r == self@.dynamic(),
    {
        self.impl_.is_dynamic()
    }

    pub fn has_dynamic_property(&self, property_type: DynamicPropertyType) -> (r: bool)
        ensures
            r == self@.find(property_type) is Some,
    {
        self.impl_.has_dynamic_property(property_type)
    }

    /// The first dynamic property of the given type; the processor must have one.
    pub fn get_dynamic_property(&self, property_type: DynamicPropertyType) -> (r: DynamicProperty)
        requires
            self@.find(property_type) is Some,
        ensures
            Some(r) == self@.find(property_type),
    {
        self.impl_.get_dynamic_property(property_type)
    }
}

/// A property that `find_property` returns belongs to the list, has the
/// type asked for, and is dynamic.
pub proof fn lemma_find_property(ps: Seq<DynamicProperty>, t: DynamicPropertyType)
    ensures
        find_property(ps, t) matches Some(p) ==> p.property_type == t && p.is_dynamic && ps.contains(p),
    decreases ps.len(),
{
    if ps.len() > 0 && !(ps[0].property_type == t && ps[0].is_dynamic) {
        lemma_find_property(ps.drop_first(), t);
        if let Some(p) = find_property(ps, t) {
            let j = choose|j: int| 0 <= j < ps.drop_first().len() && ps.drop_first()[j] == p;
            assert(ps[j + 1] == p);
        }
    } else if ps.len() > 0 {
        assert(ps[0] == ps[0]);
    }
}

/// A property that `find_in_ops` returns comes from a dynamic op.
pub proof fn lemma_find_in_ops(ops: Seq<CpuOp>, t: DynamicPropertyType)
    ensures
        find_in_ops(ops, t) matches Some(p) ==> p.property_type == t && p.is_dynamic
            && exists|i: int| 0 <= i < ops.len() && (#[trigger] ops[i]).dynamic(),
    decreases ops.len(),
{
    if ops.len() > 0 {
        lemma_find_property(ops[0].dynamic_properties@, t);
        if ops[0].find(t) is Some {
            let p = ops[0].find(t).unwrap();
            let j = choose|j: int| 0 <= j < ops[0].dynamic_properties@.len() && ops[0].dynamic_properties@[j] == p;
            assert(ops[0].dynamic_properties@[j].is_dynamic);
            assert(ops[0].dynamic());
        } else {
            lemma_find_in_ops(ops.drop_first(), t);
            if find_in_ops(ops, t) is Some {
                let i = choose|i: int| 0 <= i < ops.drop_first().len() && (#[trigger] ops.drop_first()[i]).dynamic();
                assert(ops[i + 1].dynamic());
            }
        }
    }
}

/// A processor that has a dynamic property of some type is dynamic, and the
/// property it hands out has that type and is dynamic.
pub proof fn lemma_dynamic_property_makes_dynamic(m: CpuProcessorModel, t: DynamicPropertyType)
    ensures
        m.find(t) matches Some(p) ==> m.dynamic() && p.property_type == t && p.is_dynamic,
{
    lemma_find_in_ops(m.cpu_ops, t);
    match m.in_bit_depth_op {
        Some(o) => {
            lemma_find_property(o.dynamic_properties@, t);
            if let Some(p) = o.find(t) {
                let j = choose|j: int| 0 <= j < o.dynamic_properties@.len() && o.dynamic_properties@[j] == p;
                assert(o.dynamic_properties@[j].is_dynamic);
            }
        },
        None => {},
    }
    match m.out_bit_depth_op {
        Some(o) => {
            lemma_find_property(o.dynamic_properties@, t);
            if let Some(p) = o.find(t) {
                let j = choose|j: int| 0 <= j < o.dynamic_properties@.len() && o.dynamic_properties@[j] == p;
                assert(o.dynamic_properties@[j].is_dynamic);
            }
        },
        None => {},
    }
}

/// A processor is a no-op only if it is an identity and its input and
/// output bit depths agree.
pub proof fn lemma_no_op_is_identity(p: &CPUProcessor)
    requires
        p.wf(),
    ensures
        p@.is_no_op ==> p@.is_identity && p@.in_bit_depth == p@.out_bit_depth,
{
}

/// A property is of type `t` and dynamic.
pub open spec fn property_matches(p: DynamicProperty, t: DynamicPropertyType) -> bool {
    p.property_type == t && p.is_dynamic
}

/// Some property of the op is of type `t` and dynamic.
pub open spec fn op_holds(op: CpuOp, t: DynamicPropertyType) -> bool {
    exists|j: int| 0 <= j < op.dynamic_properties@.len() && property_matches(#[trigger] op.dynamic_properties@[j], t)
}

/// `p` is the first property of the op that is of type `t` and dynamic.
pub open spec fn first_match(op: CpuOp, t: DynamicPropertyType, p: DynamicProperty) -> bool {
    exists|j: int|
        0 <= j < op.dynamic_properties@.len() && op.dynamic_properties@[j] == p && property_matches(p, t)
            && forall|k: int| 0 <= k < j ==> !property_matches(#[trigger] op.dynamic_properties@[k], t)
}

pub open spec fn optional_holds(op: Option<CpuOp>, t: DynamicPropertyType) -> bool {
    match op {
        Some(o) => op_holds(o, t),
        None => false,
    }
}

pub open spec fn optional_first_match(op: Option<CpuOp>, t: DynamicPropertyType, p: DynamicProperty) -> bool {
    match op {
        Some(o) => first_match(o, t, p),
        None => false,
    }
}

/// An op's lookup finds nothing exactly when no property of the op is of
/// type `t` and dynamic, and otherwise finds the first such property.
pub proof fn lemma_op_find_is_first_match(op: CpuOp, t: DynamicPropertyType)
    ensures
        (op.find(t) is None) <==> !op_holds(op, t),
        op.find(t) matches Some(p) ==> first_match(op, t, p),
{
    lemma_find_property_first(op.dynamic_properties@, t);
}

proof fn lemma_find_property_first(ps: Seq<DynamicProperty>, t: DynamicPropertyType)
    ensures
        (find_property(ps, t) is None) <==> !exists|j: int| 0 <= j < ps.len() && property_matches(#[trigger] ps[j], t),
        find_property(ps, t) matches Some(p) ==> exists|j: int|
            0 <= j < ps.len() && ps[j] == p && property_matches(p, t)
                && forall|k: int| 0 <= k < j ==> !property_matches(#[trigger] ps[k], t),
    decreases ps.len(),
{
    if ps.len() > 0 {
        let d = ps.drop_first();
        lemma_find_property_first(d, t);
        if property_matches(ps[0], t) {
            assert(property_matches(ps[0], t) && ps[0] == ps[0]);
        } else {
            if exists|j: int| 0 <= j < ps.len() && property_matches(#[trigger] ps[j], t) {
                let j = choose|j: int| 0 <= j < ps.len() && property_matches(#[trigger] ps[j], t);
                assert(d[j - 1] == ps[j]);
            }
            if exists|j: int| 0 <= j < d.len() && property_matches(#[trigger] d[j], t) {
                let j = choose|j: int| 0 <= j < d.len() && property_matches(#[trigger] d[j], t);
                assert(ps[j + 1] == d[j]);
            }
            if let Some(p) = find_property(ps, t) {
                let j = choose|j: int|
                    0 <= j < d.len() && d[j] == p && property_matches(p, t)
                        && forall|k: int| 0 <= k < j ==> !property_matches(#[trigger] d[k], t);
                assert(ps[j + 1] == p);
                assert forall|k: int| 0 <= k < j + 1 implies !property_matches(#[trigger] ps[k], t) by {
                    if k > 0 {
                        assert(ps[k] == d[k - 1]);
                    }
                }
            }
        }
    }
}

proof fn lemma_find_in_ops_first(ops: Seq<CpuOp>, t: DynamicPropertyType)
    ensures
        (find_in_ops(ops, t) is None) <==> forall|i: int| 0 <= i < ops.len() ==> !op_holds(#[trigger] ops[i], t),
        find_in_ops(ops, t) matches Some(p) ==> exists|i: int|
            0 <= i < ops.len() && first_match(ops[i], t, p)
                && forall|k: int| 0 <= k < i ==> !op_holds(#[trigger] ops[k], t),
    decreases ops.len(),
{
    if ops.len() > 0 {
        let d = ops.drop_first();
        lemma_find_in_ops_first(d, t);
        lemma_op_find_is_first_match(ops[0], t);
        if ops[0].find(t) is Some {
            assert(op_holds(ops[0], t));
        } else {
            assert forall|i: int| 0 <= i < d.len() implies d[i] == ops[i + 1] by {}
            if !(forall|i: int| 0 <= i < ops.len() ==> !op_holds(#[trigger] ops[i], t)) {
                let i = choose|i: int| 0 <= i < ops.len() && op_holds(#[trigger] ops[i], t);
                assert(op_holds(d[i - 1], t));
            }
            if let Some(p) = find_in_ops(ops, t) {
                let i = choose|i: int|
                    0 <= i < d.len() && first_match(d[i], t, p)
                        && forall|k: int| 0 <= k < i ==> !op_holds(#[trigger] d[k], t);
                assert(ops[i + 1] == d[i]);
                assert forall|k: int| 0 <= k < i + 1 implies !op_holds(#[trigger] ops[k], t) by {
                    if k > 0 {
                        assert(ops[k] == d[k - 1]);
                    }
                }
            }
        }
    }
}

/// The lookup of a dynamic property of type `t` finds nothing exactly when
/// no op of the engine (input conversion, any op, output conversion) holds
/// a dynamic property of type `t`; otherwise it finds the first such
/// property of the first op, in that order, that holds one.
pub proof fn lemma_find_is_first_match(m: CpuProcessorModel, t: DynamicPropertyType)
    ensures
        (m.find(t) is None) <==> (!optional_holds(m.in_bit_depth_op, t) && (forall|i: int|
            0 <= i < m.cpu_ops.len() ==> !op_holds(#[trigger] m.cpu_ops[i], t)) && !optional_holds(
            m.out_bit_depth_op,
            t,
        )),
        m.find(t) matches Some(p) ==> {
            ||| optional_first_match(m.in_bit_depth_op, t, p)
            ||| !optional_holds(m.in_bit_depth_op, t) && exists|i: int|
                0 <= i < m.cpu_ops.len() && first_match(m.cpu_ops[i], t, p) && forall|k: int|
                    0 <= k < i ==> !op_holds(#[trigger] m.cpu_ops[k], t)
            ||| !optional_holds(m.in_bit_depth_op, t) && (forall|i: int|
                0 <= i < m.cpu_ops.len() ==> !op_holds(#[trigger] m.cpu_ops[i], t))
                && optional_first_match(m.out_bit_depth_op, t, p)
        },
{
    lemma_find_in_ops_first(m.cpu_ops, t);
    match m.in_bit_depth_op {
        Some(o) => lemma_op_find_is_first_match(o, t),
        None => {},
    }
    match m.out_bit_depth_op {
        Some(o) => lemma_op_find_is_first_match(o, t),
        None => {},
    }
}

} // verus!
