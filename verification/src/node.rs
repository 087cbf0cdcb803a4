//! The runtime meaning of a generated node surface. A [`NodeInstance`]
//! carries one value per non-reserved field together with the two reserved
//! counters; the operations here are the behaviors the derive synthesizer
//! emits — construction, setters, per-field and aggregate resets, and the
//! three-phase execution — with the framework's behavioral laws proved
//! over them.

use vstd::prelude::*;

use crate::ast::LitValue;
use crate::ast::{MethodBody, MethodDecl};
use crate::derive::{reset_plans, FieldPlan, NodeSurface};
use crate::impulse::Impulse;
use crate::text::str_eq;

verus! {

/// The abstract state of a node instance.
pub struct NodeView {
    /// One value per non-reserved field, in declaration order.
    pub values: Seq<i64>,
    /// The reserved capacity counter.
    pub num_fields: int,
    /// The reserved population counter.
    pub set_fields: int,
}

/// A node instance as the generated code holds it: the non-reserved field
/// values in declaration order, and the two reserved counters.
#[derive(Debug, PartialEq)]
pub struct NodeInstance {
    /// One value per non-reserved field, in declaration order.
    pub values: Vec<i64>,
    /// The capacity stored by the default constructor.
    pub num_fields: i32,
    /// The population count moved by setters and resets.
    pub set_fields: i32,
}

impl View for NodeInstance {
    type V = NodeView;

    open spec fn view(&self) -> NodeView {
        NodeView {
            values: self.values@,
            num_fields: self.num_fields as int,
            set_fields: self.set_fields as int,
        }
    }
}

/// The declared default of a field: its `delta_default` integer literal if
/// it carries one, the type's zero otherwise.
pub open spec fn plan_default(p: FieldPlan) -> i64 {
    match p.default_lit {
        Some(LitValue::Int(n)) => n,
        _ => 0,
    }
}

/// The state the default constructor establishes: every field at its
/// declared default, capacity at the field count, population at zero.
pub open spec fn default_view(ps: Seq<FieldPlan>) -> NodeView {
    NodeView {
        values: Seq::new(ps.len(), |i: int| plan_default(ps[i])),
        num_fields: ps.len() as int,
        set_fields: 0,
    }
}

/// What a generated setter does: store the value and increment the
/// population count.
pub open spec fn v_set(v: NodeView, i: int, x: i64) -> NodeView {
    NodeView { values: v.values.update(i, x), num_fields: v.num_fields, set_fields: v.set_fields + 1 }
}

/// A plain assignment to a field, as user phase code performs it: no
/// counter moves.
pub open spec fn v_assign(v: NodeView, i: int, x: i64) -> NodeView {
    NodeView { values: v.values.update(i, x), num_fields: v.num_fields, set_fields: v.set_fields }
}

/// What a generated per-field reset does: restore the declared default and
/// decrement the population count.
pub open spec fn v_reset_field(ps: Seq<FieldPlan>, v: NodeView, i: int) -> NodeView {
    NodeView {
        values: v.values.update(i, plan_default(ps[i])),
        num_fields: v.num_fields,
        set_fields: v.set_fields - 1,
    }
}

/// What the aggregate reset does: run every participating field's reset in
/// declaration order — each participant back at its default, the
/// population count down by the participant count, everything else
/// untouched.
pub open spec fn v_reset_all(ps: Seq<FieldPlan>, v: NodeView) -> NodeView {
    NodeView {
        values: Seq::new(
            v.values.len(),
            |i: int|
                if 0 <= i < ps.len() && ps[i].in_reset {
                    plan_default(ps[i])
                } else {
                    v.values[i]
                },
        ),
        num_fields: v.num_fields,
        set_fields: v.set_fields - reset_plans(ps).len(),
    }
}

/// What a lifecycle hook (custom-initialize, pre- or post-execute) does to
/// the state.
#[derive(Debug, Clone, Copy, PartialEq, Eq)]
pub enum HookSpec {
    /// The default stub: no effect.
    DoNothing,
    /// Invoke the aggregate reset, as the default post-execute does.
    ResetAll,
    /// Assign a value to one field, as instrumented user code does.
    SetFieldTo(usize, i64),
}

/// What the on-phase emits.
#[derive(Debug, Clone, Copy, PartialEq, Eq)]
pub enum OnSpec {
    /// Emit nothing, as the default on-execute does.
    EmitNoOp,
    /// Emit the advance signal.
    EmitTick,
    /// Emit a fixed payload.
    EmitValue(i64),
    /// Emit the sum of two fields.
    EmitSum(usize, usize),
    /// Emit one field's value.
    EmitField(usize),
}

/// A completed node as the engine drives it: its surface and the behavior
/// of its four lifecycle phases.
#[derive(Debug, PartialEq)]
pub struct NodeProgram {
    /// The generated per-field surface.
    pub surface: NodeSurface,
    /// The custom-initialize phase.
    pub custom_init: HookSpec,
    /// The pre-execute phase.
    pub pre: HookSpec,
    /// The on-execute phase.
    pub on: OnSpec,
    /// The post-execute phase.
    pub post: HookSpec,
}

/// The hook's effect on the state.
pub open spec fn hook_effect(ps: Seq<FieldPlan>, v: NodeView, h: HookSpec) -> NodeView {
    match h {
        HookSpec::DoNothing => v,
        HookSpec::ResetAll => v_reset_all(ps, v),
        HookSpec::SetFieldTo(i, x) => v_assign(v, i as int, x),
    }
}

/// What running the hook on the state demands of the machine: indices in
/// range and the population counter not underflowing.
pub open spec fn hook_ok(ps: Seq<FieldPlan>, v: NodeView, h: HookSpec) -> bool {
    match h {
        HookSpec::DoNothing => true,
        HookSpec::ResetAll => v.set_fields - reset_plans(ps).len() >= i32::MIN,
        HookSpec::SetFieldTo(i, _) => i < v.values.len(),
    }
}

/// The impulse the on-phase emits from the state.
pub open spec fn on_result(o: OnSpec, v: NodeView) -> Impulse<i64> {
    match o {
        OnSpec::EmitNoOp => Impulse::NOOP,
        OnSpec::EmitTick => Impulse::TICK,
        OnSpec::EmitValue(x) => Impulse::SEND(x),
        OnSpec::EmitSum(i, j) => Impulse::SEND((v.values[i as int] + v.values[j as int]) as i64),
        OnSpec::EmitField(i) => Impulse::SEND(v.values[i as int]),
    }
}

/// What the on-phase demands of the machine: indices in range and the sum
/// not overflowing.
pub open spec fn on_ok(o: OnSpec, v: NodeView) -> bool {
    match o {
        OnSpec::EmitNoOp => true,
        OnSpec::EmitTick => true,
        OnSpec::EmitValue(_) => true,
        OnSpec::EmitSum(i, j) => i < v.values.len() && j < v.values.len() && i64::MIN <= v.values[i
            as int] + v.values[j as int] <= i64::MAX,
        OnSpec::EmitField(i) => i < v.values.len(),
    }
}

proof fn lemma_reset_plans_take_unfold(ps: Seq<FieldPlan>, i: int)
    requires
        0 <= i < ps.len(),
    ensures
        reset_plans(ps.take(i + 1)) == if ps[i].in_reset {
            reset_plans(ps.take(i)).push(ps[i])
        } else {
            reset_plans(ps.take(i))
        },
{
    assert(ps.take(i + 1).drop_last() =~= ps.take(i));
    assert(ps.take(i + 1).last() == ps[i]);
}

proof fn lemma_reset_plans_take_le(ps: Seq<FieldPlan>, i: int)
    requires
        0 <= i <= ps.len(),
    ensures
        reset_plans(ps.take(i)).len() <= reset_plans(ps).len(),
    decreases ps.len() - i,
{
    if i == ps.len() {
        assert(ps.take(i) =~= ps);
    } else {
        lemma_reset_plans_take_unfold(ps, i);
        lemma_reset_plans_take_le(ps, i + 1);
    }
}

/// The declared default of a field, as a machine value.
pub fn field_default(p: &FieldPlan) -> (r: i64)
    ensures
        r == plan_default(*p),
{
    match &p.default_lit {
        Some(LitValue::Int(n)) => *n,
        _ => 0,
    }
}

/// The position of a named field among the surface's plans.
pub fn find_field(surface: &NodeSurface, name: &String) -> (r: Option<usize>)
    ensures
        r matches Some(i) ==> i < surface.fields@.len() && surface.fields@[i as int].name@ == name@
            && (forall|j: int| 0 <= j < i ==> surface.fields@[j].name@ != name@),
        r is None ==> forall|j: int| 0 <= j < surface.fields@.len() ==> surface.fields@[j].name@
            != name@,
{
    let n = surface.fields.len();
    let mut i: usize = 0;
    while i < n
        invariant
            0 <= i <= n,
            n == surface.fields@.len(),
            forall|j: int| 0 <= j < i ==> surface.fields@[j].name@ != name@,
        decreases n - i,
    {
        if str_eq(surface.fields[i].name.as_str(), name.as_str()) {
            return Some(i);
        }
        i += 1;
    }
    None
}

impl NodeInstance {
    /// The generated setter: stores the value and increments the
    /// population count.
    pub fn set_field(&mut self, idx: usize, value: i64)
        requires
            idx < old(self)@.values.len(),
            old(self).set_fields < i32::MAX,
        ensures
            final(self)@ == v_set(old(self)@, idx as int, value),
    {
        self.values[idx] = value;
        self.set_fields = self.set_fields + 1;
    }

    /// A plain field assignment, as user phase code performs it.
    pub fn assign_field(&mut self, idx: usize, value: i64)
        requires
            idx < old(self)@.values.len(),
        ensures
            final(self)@ == v_assign(old(self)@, idx as int, value),
    {
        self.values[idx] = value;
    }

    /// Reads one field.
    pub fn get_field(&self, idx: usize) -> (r: i64)
        requires
            idx < self@.values.len(),
        ensures
            r == self@.values[idx as int],
    {
        self.values[idx]
    }

    /// The generated per-field reset: restores the declared default and
    /// decrements the population count.
    pub fn reset_field(&mut self, surface: &NodeSurface, idx: usize)
        requires
            idx < old(self)@.values.len(),
            old(self)@.values.len() == surface.fields@.len(),
            old(self).set_fields > i32::MIN,
        ensures
            final(self)@ == v_reset_field(surface.fields@, old(self)@, idx as int),
    {
        let d = field_default(&surface.fields[idx]);
        self.values[idx] = d;
        self.set_fields = self.set_fields - 1;
    }

    /// The aggregate reset: runs every participating field's reset in
    /// declaration order.
    pub fn reset_all(&mut self, surface: &NodeSurface)
        requires
            old(self)@.values.len() == surface.fields@.len(),
            old(self)@.set_fields - reset_plans(surface.fields@).len() >= i32::MIN,
        ensures
            final(self)@ == v_reset_all(surface.fields@, old(self)@),
    {
        let ghost v0 = self@;
        let n = surface.fields.len();
        let mut i: usize = 0;
        while i < n
            invariant
                0 <= i <= n,
                n == surface.fields@.len(),
                self@.values.len() == v0.values.len(),
                v0.values.len() == n,
                self@.num_fields == v0.num_fields,
                self@.set_fields == v0.set_fields - reset_plans(surface.fields@.take(i as int)).len(),
                v0.set_fields - reset_plans(surface.fields@).len() >= i32::MIN,
                self.set_fields as int == self@.set_fields,
                forall|k: int|
                    0 <= k < n ==> self@.values[k] == (if k < i && surface.fields@[k].in_reset {
                        plan_default(surface.fields@[k])
                    } else {
                        v0.values[k]
                    }),
            decreases n - i,
        {
            proof {
                lemma_reset_plans_take_unfold(surface.fields@, i as int);
                lemma_reset_plans_take_le(surface.fields@, i as int + 1);
            }
            if surface.fields[i].in_reset {
                let d = field_default(&surface.fields[i]);
                self.values[i] = d;
                self.set_fields = self.set_fields - 1;
            }
            i += 1;
        }
        proof {
            assert(surface.fields@.take(n as int) =~= surface.fields@);
            assert(self@.values =~= v_reset_all(surface.fields@, v0).values);
        }
    }
}

/// The generated default constructor: a heap instance with every field at
/// its declared default, the capacity counter at the field count, and the
/// population counter at zero.
pub fn default_initialize_node(surface: &NodeSurface) -> (r: Box<NodeInstance>)
    requires
        surface.fields@.len() <= i32::MAX,
    ensures
        r@ == default_view(surface.fields@),
{
    let n = surface.fields.len();
    let mut values: Vec<i64> = Vec::new();
    let mut i: usize = 0;
    while i < n
        invariant
            0 <= i <= n,
            n == surface.fields@.len(),
            values@.len() == i,
            forall|k: int| 0 <= k < i ==> values@[k] == plan_default(surface.fields@[k]),
        decreases n - i,
    {
        values.push(field_default(&surface.fields[i]));
        i += 1;
    }
    let inst = NodeInstance { values, num_fields: n as i32, set_fields: 0 };
    proof {
        assert(inst@.values =~= default_view(surface.fields@).values);
    }
    Box::new(inst)
}

/// Runs one lifecycle hook on the instance.
pub fn run_hook(surface: &NodeSurface, inst: &mut NodeInstance, h: &HookSpec)
    requires
        old(inst)@.values.len() == surface.fields@.len(),
        hook_ok(surface.fields@, old(inst)@, *h),
    ensures
        final(inst)@ == hook_effect(surface.fields@, old(inst)@, *h),
{
    match h {
        HookSpec::DoNothing => (),
        HookSpec::ResetAll => inst.reset_all(surface),
        HookSpec::SetFieldTo(i, x) => inst.assign_field(*i, *x),
    }
}

/// Runs the on-phase on the instance and yields its impulse; the state is
/// not touched.
pub fn run_on(inst: &NodeInstance, o: &OnSpec) -> (r: Impulse<i64>)
    requires
        on_ok(*o, inst@),
    ensures
        r == on_result(*o, inst@),
{
    match o {
        OnSpec::EmitNoOp => Impulse::NOOP,
        OnSpec::EmitTick => Impulse::TICK,
        OnSpec::EmitValue(x) => Impulse::SEND(*x),
        OnSpec::EmitSum(i, j) => Impulse::SEND(inst.get_field(*i) + inst.get_field(*j)),
        OnSpec::EmitField(i) => Impulse::SEND(inst.get_field(*i)),
    }
}

/// The generated `__initialize`: default construction followed by the
/// custom-initialize phase, yielding the owning handle.
pub fn initialize_node(program: &NodeProgram) -> (r: Box<NodeInstance>)
    requires
        program.surface.fields@.len() <= i32::MAX,
        hook_ok(
            program.surface.fields@,
            default_view(program.surface.fields@),
            program.custom_init,
        ),
    ensures
        r@ == hook_effect(
            program.surface.fields@,
            default_view(program.surface.fields@),
            program.custom_init,
        ),
{
    let mut inst = default_initialize_node(&program.surface);
    run_hook(&program.surface, &mut inst, &program.custom_init);
    inst
}

/// The phase core of the generated `__execute`: pre-execute, then
/// on-execute whose impulse is captured, then post-execute; the impulse is
/// returned. The returned impulse is the on-phase's result on the state
/// the pre-phase left, and the final state is the post-phase's effect on
/// it — the three phases in strict order.
pub fn run_phases(program: &NodeProgram, inst: &mut NodeInstance) -> (r: Impulse<i64>)
    requires
        old(inst)@.values.len() == program.surface.fields@.len(),
        hook_ok(program.surface.fields@, old(inst)@, program.pre),
        on_ok(program.on, hook_effect(program.surface.fields@, old(inst)@, program.pre)),
        hook_ok(
            program.surface.fields@,
            hook_effect(program.surface.fields@, old(inst)@, program.pre),
            program.post,
        ),
    ensures
        r == on_result(program.on, hook_effect(program.surface.fields@, old(inst)@, program.pre)),
        final(inst)@ == hook_effect(
            program.surface.fields@,
            hook_effect(program.surface.fields@, old(inst)@, program.pre),
            program.post,
        ),
{
    run_hook(&program.surface, inst, &program.pre);
    let r = run_on(inst, &program.on);
    run_hook(&program.surface, inst, &program.post);
    r
}

/// The generated `__execute`: consumes the instance, runs the three phases
/// in order, and yields the on-phase's impulse.
pub fn execute_node(program: &NodeProgram, inst: Box<NodeInstance>) -> (r: Impulse<i64>)
    requires
        inst@.values.len() == program.surface.fields@.len(),
        hook_ok(program.surface.fields@, inst@, program.pre),
        on_ok(program.on, hook_effect(program.surface.fields@, inst@, program.pre)),
        hook_ok(
            program.surface.fields@,
            hook_effect(program.surface.fields@, inst@, program.pre),
            program.post,
        ),
    ensures
        r == on_result(program.on, hook_effect(program.surface.fields@, inst@, program.pre)),
{
    let mut inst = inst;
    run_phases(program, &mut inst)
}


/// The semantics of a synthesized hook body, where the model gives it one:
/// the empty placeholder does nothing and a delegation to the aggregate
/// reset resets. A delegation to a user method has no meaning here — the
/// caller supplies the user behavior.
pub open spec fn spec_hook_semantics(b: MethodBody) -> Option<HookSpec> {
    match b {
        MethodBody::Placeholder(e) => if e@ == ""@ {
            Some(HookSpec::DoNothing)
        } else {
            None
        },
        MethodBody::Invoke { target, through_self } => if through_self && target@ == "__reset"@ {
            Some(HookSpec::ResetAll)
        } else {
            None
        },
    }
}

/// The semantics of a synthesized on-phase body, where the model gives it
/// one: the no-impulse placeholder emits nothing.
pub open spec fn spec_on_semantics(b: MethodBody) -> Option<OnSpec> {
    match b {
        MethodBody::Placeholder(e) => if e@ == "Impulse::<i32>::NOOP"@ {
            Some(OnSpec::EmitNoOp)
        } else {
            None
        },
        MethodBody::Invoke { .. } => None,
    }
}

/// Reads a synthesized hook's behavior off its body.
pub fn hook_semantics(d: &MethodDecl) -> (r: Option<HookSpec>)
    ensures
        r == spec_hook_semantics(d.body),
{
    match &d.body {
        MethodBody::Placeholder(e) => if str_eq(e.as_str(), "") {
            Some(HookSpec::DoNothing)
        } else {
            None
        },
        MethodBody::Invoke { target, through_self } => if *through_self && str_eq(
            target.as_str(),
            "__reset",
        ) {
            Some(HookSpec::ResetAll)
        } else {
            None
        },
    }
}

/// Reads a synthesized on-phase's behavior off its body.
pub fn on_semantics(d: &MethodDecl) -> (r: Option<OnSpec>)
    ensures
        r == spec_on_semantics(d.body),
{
    match &d.body {
        MethodBody::Placeholder(e) => if str_eq(e.as_str(), "Impulse::<i32>::NOOP") {
            Some(OnSpec::EmitNoOp)
        } else {
            None
        },
        MethodBody::Invoke { .. } => None,
    }
}

/// After default construction with the stub custom initializer, one setter
/// call leaves the field holding the value and the population count at
/// exactly one.
pub proof fn lemma_set_after_initialize(ps: Seq<FieldPlan>, i: int, x: i64)
    requires
        0 <= i < ps.len(),
    ensures
        v_set(default_view(ps), i, x).values[i] == x,
        v_set(default_view(ps), i, x).set_fields == 1,
{
}

/// A setter followed by the same field's reset restores the field to its
/// declared default, leaves the population count at its pre-set value, and
/// touches no other field.
pub proof fn lemma_set_then_reset(ps: Seq<FieldPlan>, v: NodeView, i: int, x: i64)
    requires
        0 <= i < ps.len(),
        v.values.len() == ps.len(),
    ensures
        v_reset_field(ps, v_set(v, i, x), i).values[i] == plan_default(ps[i]),
        v_reset_field(ps, v_set(v, i, x), i).set_fields == v.set_fields,
        forall|j: int|
            0 <= j < v.values.len() && j != i ==> v_reset_field(ps, v_set(v, i, x), i).values[j]
                == v.values[j],
{
}

/// After the aggregate reset, every participating field — exposed and not
/// tagged to stay out — holds its declared default, and every other field,
/// suppressed or kept out by tag, is unchanged.
pub proof fn lemma_reset_discipline(ps: Seq<FieldPlan>, v: NodeView)
    requires
        v.values.len() == ps.len(),
    ensures
        forall|i: int|
            0 <= i < ps.len() && ps[i].in_reset ==> v_reset_all(ps, v).values[i] == plan_default(
                ps[i],
            ),
        forall|i: int|
            0 <= i < ps.len() && !ps[i].in_reset ==> v_reset_all(ps, v).values[i] == v.values[i],
{
}

/// An on-phase that emits a fixed impulse emits it from every state, so
/// execution returns that impulse whatever the pre- and post-phases do.
pub proof fn lemma_fixed_impulse(o: OnSpec, v1: NodeView, v2: NodeView)
    requires
        o is EmitNoOp || o is EmitTick || o matches OnSpec::EmitValue(_),
    ensures
        on_result(o, v1) == on_result(o, v2),
{
}

} // verus!
