use delta_node::add_integers;
use delta_node::ast::{
    AttrArgs, AttrNode, FieldNode, ImplNode, LitValue, MethodNode, RecordFields, RecordNode,
};
use delta_node::derive::{register_delta_node, NodeSurface};
use delta_node::impl_transform::delta_node_impl;
use delta_node::impulse::Impulse;
use delta_node::node::{
    execute_node, hook_semantics, initialize_node, on_semantics, run_phases, HookSpec, NodeProgram,
    OnSpec,
};
use delta_node::struct_transform::delta_node_struct;

fn int_field(name: &str, attrs: Vec<AttrNode>) -> FieldNode {
    FieldNode { name: name.to_string(), ty: "i32".to_string(), public: false, attrs }
}

fn record_of(name: &str, fields: Vec<FieldNode>) -> RecordNode {
    RecordNode { name: name.to_string(), fields: RecordFields::Named(fields) }
}

fn surface_of(record: RecordNode) -> NodeSurface {
    let augmented = delta_node_struct(&Vec::new(), record).unwrap();
    register_delta_node(&augmented).unwrap()
}

fn method_of(name: &str, tags: Vec<&str>) -> MethodNode {
    MethodNode { name: name.to_string(), tags: tags.iter().map(|t| t.to_string()).collect() }
}

fn field_index(surface: &NodeSurface, name: &str) -> usize {
    delta_node::node::find_field(surface, &name.to_string()).expect("field must exist")
}

/// Builds a program whose defaults come from the completed impl block and
/// whose user-supplied on-phase, if any, is the given behavior.
fn program_of(surface: NodeSurface, block: ImplNode, user_on: Option<OnSpec>) -> NodeProgram {
    let done = delta_node_impl(&Vec::new(), block).unwrap();
    let mut custom_init = HookSpec::DoNothing;
    let mut pre = HookSpec::DoNothing;
    let mut on = user_on.unwrap_or(OnSpec::EmitNoOp);
    let mut post = HookSpec::DoNothing;
    for d in done.generated.iter() {
        match d.name.as_str() {
            "__custom_initialize" => custom_init = hook_semantics(d).expect("default body"),
            "__pre_execute" => pre = hook_semantics(d).expect("default body"),
            "__on_execute" => {
                on = match on_semantics(d) {
                    Some(b) => b,
                    None => user_on.expect("wrapper delegates to a user behavior"),
                }
            }
            "__post_execute" => post = hook_semantics(d).expect("default body"),
            _ => panic!("unexpected generated method"),
        }
    }
    NodeProgram { surface, custom_init, pre, on, post }
}

#[test]
fn lib_it_works() {
    let noop: Impulse<i32> = Impulse::NOOP;
    assert_eq!(noop, Impulse::<i32>::NOOP);

    let num_send: Impulse<i32> = Impulse::SEND(100);
    assert_eq!(num_send, Impulse::<i32>::SEND(100));

    let my_vec: Vec<f32> = vec![100.0, 1.0, 0.0, 20.0];
    let vec_send: Impulse<&Vec<f32>> = Impulse::SEND(&my_vec);
    assert_eq!(vec_send, Impulse::<&Vec<f32>>::SEND(&my_vec));
}

#[test]
fn it_works() {
    assert_eq!(add_integers(2, 2), 4);
}

#[test]
fn adder_node_emits_the_sum() {
    let surface = surface_of(record_of(
        "Addi",
        vec![int_field("x", vec![]), int_field("y", vec![])],
    ));
    let ix = field_index(&surface, "x");
    let iy = field_index(&surface, "y");
    let block = ImplNode {
        self_ty: "Addi".to_string(),
        methods: vec![method_of("__on_execute", vec![])],
    };
    let program = program_of(surface, block, Some(OnSpec::EmitSum(ix, iy)));
    let mut node = initialize_node(&program);
    node.set_field(ix, 100);
    node.set_field(iy, 100);
    assert_eq!(execute_node(&program, node), Impulse::SEND(200));
}

#[test]
fn default_node_emits_nothing() {
    let surface = surface_of(record_of("Solo", vec![int_field("n", vec![])]));
    let block = ImplNode { self_ty: "Solo".to_string(), methods: Vec::new() };
    let program = program_of(surface, block, None);
    let node = initialize_node(&program);
    assert_eq!(execute_node(&program, node), Impulse::<i64>::NOOP);
}

#[test]
fn noreset_field_survives_the_aggregate_reset() {
    let noreset = AttrNode {
        outer: true,
        name: "delta_noreset".to_string(),
        args: AttrArgs::NoArgs,
    };
    let surface = surface_of(record_of(
        "Pair",
        vec![int_field("a", vec![]), int_field("b", vec![noreset])],
    ));
    let ia = field_index(&surface, "a");
    let ib = field_index(&surface, "b");
    let block = ImplNode { self_ty: "Pair".to_string(), methods: Vec::new() };
    let program = program_of(surface, block, None);
    let mut node = initialize_node(&program);
    node.set_field(ia, 7);
    node.set_field(ib, 9);
    assert_eq!(node.set_fields, 2);
    node.reset_all(&program.surface);
    assert_eq!(node.get_field(ia), 0);
    assert_eq!(node.get_field(ib), 9);
    assert_eq!(node.set_fields, 1);
}

#[test]
fn renamed_lifecycle_method_drives_execution() {
    let surface = surface_of(record_of("Fixed", vec![int_field("n", vec![])]));
    let block = ImplNode {
        self_ty: "Fixed".to_string(),
        methods: vec![method_of("custom_execute", vec!["deltaf-on"])],
    };
    let done = delta_node_impl(
        &Vec::new(),
        ImplNode {
            self_ty: "Fixed".to_string(),
            methods: vec![method_of("custom_execute", vec!["deltaf-on"])],
        },
    )
    .unwrap();
    let wrapper = done.generated.iter().find(|d| d.name == "__on_execute").unwrap();
    assert_eq!(
        wrapper.body,
        delta_node::ast::MethodBody::Invoke {
            target: "custom_execute".to_string(),
            through_self: true
        }
    );
    let program = program_of(surface, block, Some(OnSpec::EmitValue(42)));
    let node = initialize_node(&program);
    assert_eq!(execute_node(&program, node), Impulse::SEND(42));
}

#[test]
fn setter_stores_value_and_counts_once() {
    let surface = surface_of(record_of("One", vec![int_field("x", vec![])]));
    let ix = field_index(&surface, "x");
    let block = ImplNode { self_ty: "One".to_string(), methods: Vec::new() };
    let program = program_of(surface, block, None);
    let mut node = initialize_node(&program);
    assert_eq!(node.set_fields, 0);
    assert_eq!(node.num_fields, 1);
    node.set_field(ix, 5);
    assert_eq!(node.get_field(ix), 5);
    assert_eq!(node.set_fields, 1);
}

#[test]
fn reset_restores_declared_default_and_count() {
    let with_default = AttrNode {
        outer: true,
        name: "delta_default".to_string(),
        args: AttrArgs::LitArg(LitValue::Int(10)),
    };
    let surface = surface_of(record_of("D", vec![int_field("x", vec![with_default])]));
    let ix = field_index(&surface, "x");
    let block = ImplNode { self_ty: "D".to_string(), methods: Vec::new() };
    let program = program_of(surface, block, None);
    let mut node = initialize_node(&program);
    assert_eq!(node.get_field(ix), 10);
    node.set_field(ix, 77);
    assert_eq!(node.get_field(ix), 77);
    node.reset_field(&program.surface, ix);
    assert_eq!(node.get_field(ix), 10);
    assert_eq!(node.set_fields, 0);
}

#[test]
fn phases_run_in_order_around_the_emission() {
    let surface = surface_of(record_of("Traced", vec![int_field("t", vec![])]));
    let it = field_index(&surface, "t");
    let program = NodeProgram {
        surface,
        custom_init: HookSpec::DoNothing,
        pre: HookSpec::SetFieldTo(it, 5),
        on: OnSpec::EmitField(it),
        post: HookSpec::SetFieldTo(it, 9),
    };
    let mut node = initialize_node(&program);
    let impulse = run_phases(&program, &mut node);
    assert_eq!(impulse, Impulse::SEND(5));
    assert_eq!(node.get_field(it), 9);
}

#[test]
fn default_post_phase_resets_the_node() {
    let surface = surface_of(record_of("R", vec![int_field("x", vec![])]));
    let ix = field_index(&surface, "x");
    let block = ImplNode { self_ty: "R".to_string(), methods: Vec::new() };
    let program = program_of(surface, block, None);
    assert_eq!(program.post, HookSpec::ResetAll);
    let mut node = initialize_node(&program);
    node.set_field(ix, 3);
    let impulse = run_phases(&program, &mut node);
    assert_eq!(impulse, Impulse::<i64>::NOOP);
    assert_eq!(node.get_field(ix), 0);
    assert_eq!(node.set_fields, 0);
}

#[test]
fn tick_impulse_passes_through_execution() {
    let surface = surface_of(record_of("T", vec![int_field("x", vec![])]));
    let block = ImplNode {
        self_ty: "T".to_string(),
        methods: vec![method_of("__on_execute", vec![])],
    };
    let program = program_of(surface, block, Some(OnSpec::EmitTick));
    let node = initialize_node(&program);
    assert_eq!(execute_node(&program, node), Impulse::<i64>::TICK);
}

#[test]
fn add_integers_handles_negatives() {
    assert_eq!(add_integers(-3, 5), 2);
    assert_eq!(add_integers(0, 0), 0);
}
