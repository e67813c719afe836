use option_extra::extract::Binding;
use option_extra::extract::ExtractError;
use option_extra::extract::Extracted;
use option_extra::extract::FieldStyle;
use option_extra::extract::Invocation;
use option_extra::extract::Shape;
use option_extra::extract::TaggedValue;
use option_extra::extract::UnionDecl;
use option_extra::extract::VariantDecl;
use option_extra::extract::classify;
use option_extra::extract::plan;
use option_extra::extract::run_bare;
use option_extra::extract::run_mapped;

fn pos(name: u64) -> Binding {
    Binding { name, named: false }
}

fn nam(name: u64) -> Binding {
    Binding { name, named: true }
}

fn inv(variant: u64, bindings: Option<Vec<Binding>>, has_guard: bool, has_output: bool) -> Invocation {
    Invocation { variant, bindings, has_guard, has_output }
}

/// A union with a three-field tuple variant, a two-field struct variant,
/// a one-field tuple variant, and a fieldless variant.
fn demo_decl() -> UnionDecl {
    UnionDecl {
        variants: vec![
            VariantDecl { tag: 1, style: FieldStyle::Tuple { arity: 3 } },
            VariantDecl { tag: 2, style: FieldStyle::Struct { names: vec![100, 200] } },
            VariantDecl { tag: 3, style: FieldStyle::Tuple { arity: 1 } },
            VariantDecl { tag: 4, style: FieldStyle::Tuple { arity: 0 } },
        ],
    }
}

const NO_GUARD: Option<fn(Vec<i32>) -> bool> = None;

#[test]
fn classify_accepts_shorthand() {
    assert_eq!(classify(&inv(3, None, false, false)), Ok(Shape::Shorthand));
}

#[test]
fn classify_rejects_guard_or_output_without_bindings() {
    assert_eq!(classify(&inv(3, None, true, false)), Err(ExtractError::UnsupportedShape));
    assert_eq!(classify(&inv(3, None, false, true)), Err(ExtractError::UnsupportedShape));
}

#[test]
fn classify_rejects_empty_binding_list() {
    assert_eq!(classify(&inv(1, Some(vec![]), false, false)), Err(ExtractError::UnsupportedShape));
}

#[test]
fn classify_distinguishes_the_binding_shapes() {
    assert_eq!(classify(&inv(1, Some(vec![pos(5)]), false, false)), Ok(Shape::PositionalBare));
    assert_eq!(classify(&inv(1, Some(vec![pos(5)]), true, true)), Ok(Shape::PositionalMapped));
    assert_eq!(classify(&inv(2, Some(vec![nam(100)]), true, false)), Ok(Shape::NamedBare));
    assert_eq!(classify(&inv(2, Some(vec![nam(100)]), false, true)), Ok(Shape::NamedMapped));
}

#[test]
fn classify_rejects_mixed_styles() {
    assert_eq!(
        classify(&inv(1, Some(vec![pos(5), nam(6)]), false, false)),
        Err(ExtractError::MixedStyles)
    );
}

#[test]
fn plan_rejects_unknown_variant() {
    let r = plan(&inv(9, Some(vec![pos(5)]), false, false), &demo_decl());
    assert_eq!(r.unwrap_err(), ExtractError::UnknownVariant);
}

#[test]
fn plan_rejects_style_mismatch_both_ways() {
    let positional_on_struct = plan(&inv(2, Some(vec![pos(5), pos(6)]), false, false), &demo_decl());
    assert_eq!(positional_on_struct.unwrap_err(), ExtractError::StyleMismatch);
    let named_on_tuple = plan(&inv(1, Some(vec![nam(5), nam(6), nam(7)]), false, false), &demo_decl());
    assert_eq!(named_on_tuple.unwrap_err(), ExtractError::StyleMismatch);
    let shorthand_on_struct = plan(&inv(2, None, false, false), &demo_decl());
    assert_eq!(shorthand_on_struct.unwrap_err(), ExtractError::StyleMismatch);
}

#[test]
fn plan_rejects_field_count_mismatch() {
    let two_of_three = plan(&inv(1, Some(vec![pos(5), pos(6)]), false, false), &demo_decl());
    assert_eq!(two_of_three.unwrap_err(), ExtractError::FieldCountMismatch);
    let one_of_two = plan(&inv(2, Some(vec![nam(100)]), false, false), &demo_decl());
    assert_eq!(one_of_two.unwrap_err(), ExtractError::FieldCountMismatch);
    let shorthand_on_three = plan(&inv(1, None, false, false), &demo_decl());
    assert_eq!(shorthand_on_three.unwrap_err(), ExtractError::FieldCountMismatch);
    let shorthand_on_fieldless = plan(&inv(4, None, false, false), &demo_decl());
    assert_eq!(shorthand_on_fieldless.unwrap_err(), ExtractError::FieldCountMismatch);
}

#[test]
fn plan_rejects_unknown_field() {
    let r = plan(&inv(2, Some(vec![nam(100), nam(999)]), false, false), &demo_decl());
    assert_eq!(r.unwrap_err(), ExtractError::UnknownField);
}

#[test]
fn plan_rejects_duplicate_field() {
    let named_twice = plan(&inv(2, Some(vec![nam(100), nam(100)]), false, false), &demo_decl());
    assert_eq!(named_twice.unwrap_err(), ExtractError::DuplicateField);
    let binder_twice = plan(&inv(1, Some(vec![pos(5), pos(5), pos(6)]), false, false), &demo_decl());
    assert_eq!(binder_twice.unwrap_err(), ExtractError::DuplicateField);
}

#[test]
fn plan_positional_binds_in_declared_order() {
    let p = plan(&inv(1, Some(vec![pos(5), pos(6), pos(7)]), false, false), &demo_decl()).unwrap();
    assert_eq!(p.shape, Shape::PositionalBare);
    assert_eq!(p.variant, 1);
    assert_eq!(p.indices, vec![0usize, 1, 2]);
}

#[test]
fn plan_orders_named_bindings_by_listing() {
    let p = plan(&inv(2, Some(vec![nam(200), nam(100)]), false, false), &demo_decl()).unwrap();
    assert_eq!(p.shape, Shape::NamedBare);
    assert_eq!(p.indices, vec![1usize, 0]);
}

#[test]
fn triple_guard_false_yields_empty() {
    let p = plan(&inv(1, Some(vec![pos(5), pos(6), pos(7)]), true, false), &demo_decl()).unwrap();
    let value = TaggedValue { tag: 1, fields: vec![10, 20, 30] };
    let r = run_bare(&p, &value, Some(|b: Vec<i32>| b[0] > 100));
    assert_eq!(r, None);
}

#[test]
fn triple_guard_true_yields_ordered_triple() {
    let p = plan(&inv(1, Some(vec![pos(5), pos(6), pos(7)]), true, false), &demo_decl()).unwrap();
    let value = TaggedValue { tag: 1, fields: vec![10, 20, 30] };
    let r = run_bare(&p, &value, Some(|b: Vec<i32>| b[0] == 10));
    assert_eq!(r, Some(Extracted::Tuple(vec![10, 20, 30])));
}

#[test]
fn triple_without_guard_yields_ordered_triple() {
    let p = plan(&inv(1, Some(vec![pos(5), pos(6), pos(7)]), false, false), &demo_decl()).unwrap();
    let value = TaggedValue { tag: 1, fields: vec![10, 20, 30] };
    assert_eq!(run_bare(&p, &value, NO_GUARD), Some(Extracted::Tuple(vec![10, 20, 30])));
}

#[test]
fn triple_output_expression_replaces_bindings() {
    let p = plan(&inv(1, Some(vec![pos(5), pos(6), pos(7)]), false, true), &demo_decl()).unwrap();
    let value = TaggedValue { tag: 1, fields: vec![10, 20, 30] };
    let r = run_mapped(&p, &value, NO_GUARD, |b: Vec<i32>| b[0] + b[1] + b[2]);
    assert_eq!(r, Some(60));
}

#[test]
fn other_variant_always_yields_empty() {
    let p = plan(&inv(1, Some(vec![pos(5), pos(6), pos(7)]), true, false), &demo_decl()).unwrap();
    let value = TaggedValue { tag: 3, fields: vec![7] };
    let mut guard_calls = 0;
    let r = run_bare(
        &p,
        &value,
        Some(|_b: Vec<i32>| {
            guard_calls += 1;
            true
        }),
    );
    assert_eq!(r, None);
    assert_eq!(guard_calls, 0);

    let mut output_calls = 0;
    let r2 = run_mapped(&p, &value, NO_GUARD, |b: Vec<i32>| {
        output_calls += 1;
        b[0]
    });
    assert_eq!(r2, None);
    assert_eq!(output_calls, 0);
}

#[test]
fn shorthand_yields_field_directly() {
    let p = plan(&inv(3, None, false, false), &demo_decl()).unwrap();
    assert_eq!(p.shape, Shape::Shorthand);
    assert_eq!(p.indices, vec![0usize]);
    let value = TaggedValue { tag: 3, fields: vec![42] };
    assert_eq!(run_bare(&p, &value, NO_GUARD), Some(Extracted::Single(42)));
}

#[test]
fn guard_runs_once_and_only_after_match() {
    let p = plan(&inv(1, Some(vec![pos(5), pos(6), pos(7)]), true, false), &demo_decl()).unwrap();
    let value = TaggedValue { tag: 1, fields: vec![10, 20, 30] };
    let mut guard_calls = 0;
    let r = run_bare(
        &p,
        &value,
        Some(|b: Vec<i32>| {
            guard_calls += 1;
            b[2] == 30
        }),
    );
    assert_eq!(r, Some(Extracted::Tuple(vec![10, 20, 30])));
    assert_eq!(guard_calls, 1);
}

#[test]
fn named_extraction_hands_values_out_in_listing_order() {
    let p = plan(&inv(2, Some(vec![nam(200), nam(100)]), false, false), &demo_decl()).unwrap();
    let value = TaggedValue { tag: 2, fields: vec![7, 8] };
    assert_eq!(run_bare(&p, &value, NO_GUARD), Some(Extracted::Tuple(vec![8, 7])));
}

#[test]
fn declined_guard_skips_the_output_mapping() {
    let p = plan(&inv(1, Some(vec![pos(5), pos(6), pos(7)]), true, true), &demo_decl()).unwrap();
    let value = TaggedValue { tag: 1, fields: vec![10, 20, 30] };
    let mut output_calls = 0;
    let r = run_mapped(&p, &value, Some(|_b: Vec<i32>| false), |b: Vec<i32>| {
        output_calls += 1;
        b[0]
    });
    assert_eq!(r, None);
    assert_eq!(output_calls, 0);
}

#[test]
fn single_binding_yields_bare_value_not_tuple() {
    let p = plan(&inv(3, Some(vec![pos(5)]), false, false), &demo_decl()).unwrap();
    assert_eq!(p.shape, Shape::PositionalBare);
    let value = TaggedValue { tag: 3, fields: vec![42] };
    assert_eq!(run_bare(&p, &value, NO_GUARD), Some(Extracted::Single(42)));
}
