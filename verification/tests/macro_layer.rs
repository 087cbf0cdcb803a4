use delta_node::ast::{
    AttrArgs, AttrNode, FieldNode, ImplNode, LitValue, MacroError, MethodBody, MethodNode,
    RecordFields, RecordNode,
};
use delta_node::derive::{
    default_initialize, generated_method_names, init_field_list, register_delta_node,
    reset_call_names,
};
use delta_node::impl_transform::delta_node_impl;
use delta_node::struct_transform::delta_node_struct;
use delta_node::wrapper::generate_wrapper;

fn plain_field(name: &str, ty: &str, public: bool) -> FieldNode {
    FieldNode { name: name.to_string(), ty: ty.to_string(), public, attrs: Vec::new() }
}

fn tagged_field(name: &str, ty: &str, public: bool, attrs: Vec<AttrNode>) -> FieldNode {
    FieldNode { name: name.to_string(), ty: ty.to_string(), public, attrs }
}

fn bare_attr(name: &str) -> AttrNode {
    AttrNode { outer: true, name: name.to_string(), args: AttrArgs::NoArgs }
}

fn lit_attr(name: &str, lit: LitValue) -> AttrNode {
    AttrNode { outer: true, name: name.to_string(), args: AttrArgs::LitArg(lit) }
}

fn named_record(name: &str, fields: Vec<FieldNode>) -> RecordNode {
    RecordNode { name: name.to_string(), fields: RecordFields::Named(fields) }
}

fn user_method(name: &str, tags: Vec<&str>) -> MethodNode {
    MethodNode { name: name.to_string(), tags: tags.iter().map(|t| t.to_string()).collect() }
}

#[test]
fn struct_transformer_appends_reserved_counters() {
    let record = named_record("Addi", vec![plain_field("x", "i32", false), plain_field("y", "i32", false)]);
    let out = delta_node_struct(&Vec::new(), record).unwrap();
    match out.fields {
        RecordFields::Named(fs) => {
            assert_eq!(fs.len(), 4);
            assert_eq!(fs[0].name, "x");
            assert_eq!(fs[1].name, "y");
            assert_eq!(fs[2].name, "__num_fields");
            assert_eq!(fs[2].ty, "i32");
            assert!(!fs[2].public);
            assert_eq!(fs[3].name, "__set_fields");
            assert_eq!(fs[3].ty, "i32");
            assert!(!fs[3].public);
        }
        _ => panic!("expected named fields"),
    }
}

#[test]
fn struct_transformer_rejects_arguments() {
    let record = named_record("A", vec![plain_field("x", "i32", false)]);
    let r = delta_node_struct(&vec!["extra".to_string()], record);
    assert_eq!(r, Err(MacroError::UnexpectedArgs));
}

#[test]
fn struct_transformer_rejects_unit_record() {
    let record = RecordNode { name: "A".to_string(), fields: RecordFields::Unit };
    assert_eq!(delta_node_struct(&Vec::new(), record), Err(MacroError::UnsupportedShape));
    let record = RecordNode { name: "A".to_string(), fields: RecordFields::Unnamed };
    assert_eq!(delta_node_struct(&Vec::new(), record), Err(MacroError::UnsupportedShape));
}

#[test]
fn derive_skips_reserved_fields_and_counts_the_rest() {
    let record = named_record("Addi", vec![plain_field("x", "i32", false), plain_field("y", "i32", false)]);
    let augmented = delta_node_struct(&Vec::new(), record).unwrap();
    let surface = register_delta_node(&augmented).unwrap();
    assert_eq!(surface.record_name, "Addi");
    assert_eq!(surface.fields.len(), 2);
    assert_eq!(surface.num_fields, 2);
    assert!(surface.fields.iter().all(|p| p.exposed && p.in_reset));
}

#[test]
fn ignored_public_field_gets_no_accessors() {
    let record = named_record(
        "Mixed",
        vec![plain_field("p", "f32", true), plain_field("q", "i32", false)],
    );
    let surface = register_delta_node(&record).unwrap();
    let names = generated_method_names(&surface);
    assert!(names.contains(&"__set_q".to_string()));
    assert!(names.contains(&"__reset_q".to_string()));
    assert!(!names.contains(&"__set_p".to_string()));
    assert!(!names.contains(&"__reset_p".to_string()));
}

#[test]
fn forced_exposed_public_field_gets_accessors() {
    let record = named_record(
        "Mixed",
        vec![
            tagged_field("p", "f32", true, vec![lit_attr("delta_ignore", LitValue::Bool(false))]),
            plain_field("q", "i32", false),
        ],
    );
    let surface = register_delta_node(&record).unwrap();
    let names = generated_method_names(&surface);
    assert!(names.contains(&"__set_p".to_string()));
    assert!(names.contains(&"__reset_p".to_string()));
    assert!(names.contains(&"__set_q".to_string()));
    assert_eq!(names, vec!["__set_p", "__reset_p", "__set_q", "__reset_q"]);
}

#[test]
fn bare_ignore_suppresses_and_noreset_leaves_aggregate() {
    let record = named_record(
        "Tagged",
        vec![
            tagged_field("hidden", "i32", false, vec![bare_attr("delta_ignore")]),
            tagged_field("kept", "i32", false, vec![bare_attr("delta_noreset")]),
            plain_field("normal", "i32", false),
        ],
    );
    let surface = register_delta_node(&record).unwrap();
    assert!(!surface.fields[0].exposed);
    assert!(surface.fields[1].exposed && !surface.fields[1].in_reset);
    assert!(surface.fields[2].exposed && surface.fields[2].in_reset);
    assert_eq!(reset_call_names(&surface), vec!["__reset_normal".to_string()]);
}

#[test]
fn non_boolean_ignore_argument_is_an_error() {
    let record = named_record(
        "Bad",
        vec![tagged_field("x", "i32", false, vec![lit_attr("delta_ignore", LitValue::Int(3))])],
    );
    assert_eq!(
        register_delta_node(&record),
        Err(MacroError::BadTagArg { field: "x".to_string() })
    );
}

#[test]
fn meta_ignore_argument_is_an_error() {
    let attr = AttrNode {
        outer: true,
        name: "delta_ignore".to_string(),
        args: AttrArgs::MetaArg,
    };
    let record = named_record("Bad", vec![tagged_field("y", "i32", false, vec![attr])]);
    assert_eq!(
        register_delta_node(&record),
        Err(MacroError::BadTagArg { field: "y".to_string() })
    );
}

#[test]
fn derive_rejects_unnamed_record() {
    let record = RecordNode { name: "T".to_string(), fields: RecordFields::Unnamed };
    assert_eq!(register_delta_node(&record), Err(MacroError::UnsupportedShape));
}

#[test]
fn declared_default_is_recorded() {
    let record = named_record(
        "D",
        vec![tagged_field("x", "i32", false, vec![lit_attr("delta_default", LitValue::Int(10))])],
    );
    let surface = register_delta_node(&record).unwrap();
    assert_eq!(surface.fields[0].default_lit, Some(LitValue::Int(10)));
}

#[test]
fn default_constructor_lists_every_non_reserved_field() {
    let record = named_record(
        "D",
        vec![
            tagged_field("hidden", "i32", false, vec![bare_attr("delta_ignore")]),
            plain_field("shown", "i32", false),
        ],
    );
    let augmented = delta_node_struct(&Vec::new(), record).unwrap();
    let surface = register_delta_node(&augmented).unwrap();
    let field_list = init_field_list(&surface);
    assert_eq!(field_list, vec!["hidden".to_string(), "shown".to_string()]);
    let init = default_initialize(&field_list, &"D".to_string());
    assert_eq!(init.record_name, "D");
    assert_eq!(init.field_names, field_list);
    assert_eq!(init.num_fields, 2);
}

#[test]
fn empty_impl_gets_all_four_defaults() {
    let block = ImplNode { self_ty: "A".to_string(), methods: Vec::new() };
    let done = delta_node_impl(&Vec::new(), block).unwrap();
    assert!(done.methods.is_empty());
    let names: Vec<&str> = done.generated.iter().map(|d| d.name.as_str()).collect();
    assert_eq!(
        names,
        vec!["__custom_initialize", "__pre_execute", "__on_execute", "__post_execute"]
    );
    let pre = &done.generated[1];
    assert!(!pre.public);
    let on = &done.generated[2];
    assert_eq!(on.return_ty.as_deref(), Some("Impulse<i32>"));
    assert_eq!(on.body, MethodBody::Placeholder("Impulse::<i32>::NOOP".to_string()));
    let post = &done.generated[3];
    assert_eq!(
        post.body,
        MethodBody::Invoke { target: "__reset".to_string(), through_self: true }
    );
}

#[test]
fn single_tag_fills_free_slot_with_delegating_wrapper() {
    let block = ImplNode {
        self_ty: "A".to_string(),
        methods: vec![user_method("my_init", vec!["deltaf-init"])],
    };
    let done = delta_node_impl(&Vec::new(), block).unwrap();
    let wrapper = done
        .generated
        .iter()
        .find(|d| d.name == "__custom_initialize")
        .expect("slot must be filled");
    assert_eq!(
        wrapper.body,
        MethodBody::Invoke { target: "my_init".to_string(), through_self: true }
    );
    assert!(wrapper.public && wrapper.takes_receiver);
    let count = done.generated.iter().filter(|d| d.name == "__custom_initialize").count();
    assert_eq!(count, 1);
}

#[test]
fn reserved_name_beats_tag_claim() {
    let block = ImplNode {
        self_ty: "A".to_string(),
        methods: vec![
            user_method("__pre_execute", vec![]),
            user_method("other", vec!["deltaf-pre"]),
        ],
    };
    let done = delta_node_impl(&Vec::new(), block).unwrap();
    let count = done.generated.iter().filter(|d| d.name == "__pre_execute").count();
    assert_eq!(count, 0);
    assert_eq!(done.methods.len(), 2);
}

#[test]
fn one_method_may_claim_several_slots() {
    let block = ImplNode {
        self_ty: "A".to_string(),
        methods: vec![user_method("both", vec!["deltaf-pre", "deltaf-post"])],
    };
    let done = delta_node_impl(&Vec::new(), block).unwrap();
    let pre = done.generated.iter().find(|d| d.name == "__pre_execute").unwrap();
    let post = done.generated.iter().find(|d| d.name == "__post_execute").unwrap();
    assert_eq!(pre.body, MethodBody::Invoke { target: "both".to_string(), through_self: true });
    assert_eq!(post.body, MethodBody::Invoke { target: "both".to_string(), through_self: true });
}

#[test]
fn duplicate_tag_claim_is_a_dedicated_diagnostic() {
    let block = ImplNode {
        self_ty: "A".to_string(),
        methods: vec![
            user_method("first", vec!["deltaf-on"]),
            user_method("second", vec!["deltaf-on"]),
        ],
    };
    assert_eq!(
        delta_node_impl(&Vec::new(), block),
        Err(MacroError::DuplicateSlotClaim { slot: "__on_execute".to_string() })
    );
}

#[test]
fn impl_transformer_rejects_arguments() {
    let block = ImplNode { self_ty: "A".to_string(), methods: Vec::new() };
    assert_eq!(
        delta_node_impl(&vec!["one_off".to_string()], block),
        Err(MacroError::UnexpectedArgs)
    );
}

#[test]
fn malformed_delegate_name_is_reported() {
    let block = ImplNode {
        self_ty: "A".to_string(),
        methods: vec![user_method("1bad", vec!["deltaf-pre"])],
    };
    assert_eq!(
        delta_node_impl(&Vec::new(), block),
        Err(MacroError::BadNameFragment { fragment: "1bad".to_string() })
    );
}

#[test]
fn wrapper_emitter_checks_its_fragments() {
    let ok = generate_wrapper("__pre_execute", "target", None, true, true, true).unwrap();
    assert_eq!(ok.name, "__pre_execute");
    assert_eq!(ok.body, MethodBody::Invoke { target: "target".to_string(), through_self: true });
    let bad = generate_wrapper("not an ident", "target", None, true, true, true);
    assert_eq!(bad, Err(MacroError::BadNameFragment { fragment: "not an ident".to_string() }));
    let placeholder = generate_wrapper("__on_execute", "Impulse::<i32>::NOOP", Some("Impulse<i32>"), true, true, false)
        .unwrap();
    assert_eq!(
        placeholder.body,
        MethodBody::Placeholder("Impulse::<i32>::NOOP".to_string())
    );
    assert_eq!(placeholder.return_ty.as_deref(), Some("Impulse<i32>"));
}

#[test]
fn empty_record_surface_is_empty() {
    let record = named_record("Empty", vec![]);
    let augmented = delta_node_struct(&Vec::new(), record).unwrap();
    let surface = register_delta_node(&augmented).unwrap();
    assert_eq!(surface.num_fields, 0);
    assert!(generated_method_names(&surface).is_empty());
    assert!(reset_call_names(&surface).is_empty());
}
