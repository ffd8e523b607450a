use ggml_loader::element::{blck_size, ftype_to_type, get_accelerator, type_size, Accelerator,
    Backend, Type};
use ggml_loader::mode::{repl_step, substitute_prompt, ReplAction, ReplEvent};
use ggml_loader::overrides::{ModelDynamicOverrideValue, ModelDynamicOverrides};
use ggml_loader::split::{contains_sub, split_axis, SplitAxis};

#[test]
fn accelerator_is_plain_cpu() {
    assert_eq!(get_accelerator(), Accelerator::Cpu);
}

#[test]
fn default_backend_is_cpu() {
    assert_eq!(Backend::default(), Backend::Cpu);
}

#[test]
fn quantized_types_are_quantized() {
    assert!(Type::Q4_0.is_quantized());
    assert!(Type::Q4_1.is_quantized());
    assert!(Type::Q8_0.is_quantized());
    assert!(Type::Q6_K.is_quantized());
    assert!(!Type::F32.is_quantized());
    assert!(!Type::F16.is_quantized());
    assert!(!Type::I32.is_quantized());
}

#[test]
fn type_labels() {
    assert_eq!(Type::Q4_0.label(), "q4_0");
    assert_eq!(Type::F16.label(), "f16");
    assert_eq!(Type::Q5_K.label(), "q5_k");
}

#[test]
fn ftype_table_matches_the_format() {
    assert_eq!(ftype_to_type(0), Some(Type::F32));
    assert_eq!(ftype_to_type(1), Some(Type::F16));
    assert_eq!(ftype_to_type(2), Some(Type::Q4_0));
    assert_eq!(ftype_to_type(3), Some(Type::Q4_1));
    assert_eq!(ftype_to_type(4), None);
    assert_eq!(ftype_to_type(u32::MAX), None);
}

#[test]
fn element_sizes() {
    assert_eq!((type_size(Type::F32), blck_size(Type::F32)), (4, 1));
    assert_eq!((type_size(Type::F16), blck_size(Type::F16)), (2, 1));
    assert_eq!((type_size(Type::Q4_0), blck_size(Type::Q4_0)), (20, 32));
    assert_eq!((type_size(Type::Q4_1), blck_size(Type::Q4_1)), (24, 32));
}

#[test]
fn split_axis_follows_the_name_rules() {
    assert_eq!(split_axis(b"tok_embeddings.weight"), SplitAxis::Columns);
    assert_eq!(split_axis(b"layers.0.attention.wo.weight"), SplitAxis::Columns);
    assert_eq!(split_axis(b"layers.3.feed_forward.w2.weight"), SplitAxis::Columns);
    assert_eq!(split_axis(b"layers.1.attention.wq.weight"), SplitAxis::Rows);
    assert_eq!(split_axis(b"layers.2.feed_forward.w1.weight"), SplitAxis::Rows);
    assert_eq!(split_axis(b"output.weight"), SplitAxis::Rows);
    assert_eq!(split_axis(b"norm.weight"), SplitAxis::Columns);
}

#[test]
fn contains_sub_finds_fragments() {
    assert!(contains_sub(b"layers.0.attention.wo.weight", b"attention.wo.weight"));
    assert!(!contains_sub(b"layers.0.attention.wq.weight", b"attention.wo.weight"));
    assert!(contains_sub(b"abc", b""));
    assert!(!contains_sub(b"ab", b"abc"));
}

#[test]
fn overrides_insert_get_and_shadow() {
    let mut o = ModelDynamicOverrides::new();
    o.insert("gpu".to_string(), ModelDynamicOverrideValue::Bool(true));
    o.insert("name".to_string(), ModelDynamicOverrideValue::Text("alpaca".to_string()));
    o.insert("layers".to_string(), ModelDynamicOverrideValue::Int(32));
    assert_eq!(o.len(), 3);
    o.insert("layers".to_string(), ModelDynamicOverrideValue::Int(48));
    assert_eq!(o.len(), 3);
    assert_eq!(
        o.get(&"layers".to_string()),
        Some(&ModelDynamicOverrideValue::Int(48))
    );
    assert_eq!(o.get(&"missing".to_string()), None);
}

#[test]
fn overrides_merge_prefers_the_other_side() {
    let mut a = ModelDynamicOverrides::new();
    a.insert("x".to_string(), ModelDynamicOverrideValue::Int(1));
    a.insert("y".to_string(), ModelDynamicOverrideValue::Int(2));
    let mut b = ModelDynamicOverrides::new();
    b.insert("y".to_string(), ModelDynamicOverrideValue::Int(20));
    b.insert("z".to_string(), ModelDynamicOverrideValue::Int(30));
    a.merge(b);
    assert_eq!(a.len(), 3);
    assert_eq!(a.get(&"x".to_string()), Some(&ModelDynamicOverrideValue::Int(1)));
    assert_eq!(a.get(&"y".to_string()), Some(&ModelDynamicOverrideValue::Int(20)));
    assert_eq!(a.get(&"z".to_string()), Some(&ModelDynamicOverrideValue::Int(30)));
}

#[test]
fn repl_step_decides_each_event() {
    assert!(matches!(
        repl_step(ReplEvent::Line("hi".to_string())),
        ReplAction::Infer(l) if l == "hi"
    ));
    assert!(matches!(repl_step(ReplEvent::Eof), ReplAction::Stop));
    assert!(matches!(repl_step(ReplEvent::Interrupted), ReplAction::Stop));
    assert!(matches!(repl_step(ReplEvent::ReadFailed), ReplAction::ReportError));
}

#[test]
fn substitute_prompt_replaces_every_placeholder() {
    let out = substitute_prompt(b"Q: $PROMPT\nA: $PROMPT", b"$PROMPT", b"hello");
    assert_eq!(out, b"Q: hello\nA: hello".to_vec());
}

#[test]
fn substitute_prompt_without_placeholder_is_identity() {
    let out = substitute_prompt(b"no placeholders here", b"$PROMPT", b"x");
    assert_eq!(out, b"no placeholders here".to_vec());
}

#[test]
fn substitute_prompt_empty_pattern_is_identity() {
    let out = substitute_prompt(b"abc", b"", b"x");
    assert_eq!(out, b"abc".to_vec());
}
