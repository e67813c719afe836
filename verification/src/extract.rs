//! The pattern-extraction facility.
//!
//! An invocation names one variant of a tagged union, optionally lists
//! the fields to bind (positionally, or by name), and optionally carries
//! a guard and an output mapping. Shape disambiguation ([`classify`]) and
//! binding resolution ([`plan`]) happen once, against the union's
//! declaration, and either reject the invocation or produce a [`Plan`].
//! Running a plan against a value of the union ([`run_bare`],
//! [`run_mapped`]) is an ordinary conditional match that yields an
//! optional value: empty when a different variant is active or the guard
//! declines, the bound fields (or the output mapping's value) otherwise.

use vstd::prelude::*;

verus! {

/// One binding as written in an invocation: a field identifier, which
/// either stands on its own (positional style) or carries the
/// named-field marker (named style). Identifiers are interned symbols.
#[derive(Clone, Copy, Debug, PartialEq, Eq, Structural)]
pub struct Binding {
    pub name: u64,
    pub named: bool,
}

/// The syntactic shape of one invocation of the facility: the variant
/// path to match, the binding list when one was written, and whether a
/// guard and an output mapping were written.
pub struct Invocation {
    pub variant: u64,
    pub bindings: Option<Vec<Binding>>,
    pub has_guard: bool,
    pub has_output: bool,
}

/// The accepted invocation shapes, in precedence order of the
/// disambiguation rules.
#[derive(Clone, Copy, Debug, PartialEq, Eq, Structural)]
pub enum Shape {
    /// No binding list, no guard, no output: bind the sole unnamed field.
    Shorthand,
    /// Positional bindings, optional guard, no output.
    PositionalBare,
    /// Positional bindings, optional guard, an output mapping.
    PositionalMapped,
    /// Named bindings, optional guard, no output.
    NamedBare,
    /// Named bindings, optional guard, an output mapping.
    NamedMapped,
}

/// Why an invocation is rejected. Rejection happens during shape
/// disambiguation and binding resolution, never while a plan runs.
#[derive(Clone, Copy, Debug, PartialEq, Eq, Structural)]
pub enum ExtractError {
    /// No rule matches the written shape: a guard or output without a
    /// binding list, or an empty binding list.
    UnsupportedShape,
    /// Positional and named bindings mixed in one list.
    MixedStyles,
    /// The named variant is not part of the union's declaration.
    UnknownVariant,
    /// Positional bindings against a struct-style variant, or named
    /// bindings against a tuple-style one.
    StyleMismatch,
    /// The binding list's size differs from the variant's field count.
    FieldCountMismatch,
    /// A named binding that is no field of the variant.
    UnknownField,
    /// The same identifier bound twice.
    DuplicateField,
}

/// How one variant of the tagged union declares its fields: so many
/// unnamed ordered fields, or named fields in declaration order.
pub enum FieldStyle {
    Tuple { arity: usize },
    Struct { names: Vec<u64> },
}

/// One variant of the tagged union: its discriminant and field layout.
pub struct VariantDecl {
    pub tag: u64,
    pub style: FieldStyle,
}

/// The declaration of a tagged union: its variants.
pub struct UnionDecl {
    pub variants: Vec<VariantDecl>,
}

/// A runtime value of a tagged union: the active variant's discriminant
/// and its field values in declaration order.
pub struct TaggedValue<T> {
    pub tag: u64,
    pub fields: Vec<T>,
}

/// A resolved invocation: which variant to match and which of its fields
/// to hand out, in output order.
#[derive(Debug)]
pub struct Plan {
    pub shape: Shape,
    pub variant: u64,
    pub indices: Vec<usize>,
}

/// What a successful extraction without an output mapping yields: the
/// sole bound field by itself, or the bound fields as an ordered tuple.
#[derive(Debug, PartialEq, Eq)]
pub enum Extracted<T> {
    Single(T),
    Tuple(Vec<T>),
}

/// The mathematical reading of a [`Plan`].
pub struct PlanView {
    pub shape: Shape,
    pub variant: u64,
    pub indices: Seq<usize>,
}

impl View for Plan {
    type V = PlanView;

    open spec fn view(&self) -> PlanView {
        PlanView { shape: self.shape, variant: self.variant, indices: self.indices@ }
    }
}

impl VariantDecl {
    /// How many fields the variant carries.
    pub open spec fn arity(self) -> nat {
        match self.style {
            FieldStyle::Tuple { arity } => arity as nat,
            FieldStyle::Struct { names } => names@.len(),
        }
    }
}

impl UnionDecl {
    /// Well-formed: no two variants share a discriminant.
    pub open spec fn wf(self) -> bool {
        forall|i: int, j: int|
            0 <= i < j < self.variants@.len() ==> self.variants@[i].tag != self.variants@[j].tag
    }
}

/// The value is one the declared union can take: its active variant is
/// declared, and it carries exactly that variant's fields.
pub open spec fn conforms<T>(value: TaggedValue<T>, decl: UnionDecl) -> bool {
    exists|i: int|
        0 <= i < decl.variants@.len() && decl.variants@[i].tag == value.tag
            && value.fields@.len() == decl.variants@[i].arity()
}

/// All bindings in the list are positional.
pub open spec fn all_positional(bs: Seq<Binding>) -> bool {
    forall|i: int| 0 <= i < bs.len() ==> !bs[i].named
}

/// All bindings in the list carry the named-field marker.
pub open spec fn all_named(bs: Seq<Binding>) -> bool {
    forall|i: int| 0 <= i < bs.len() ==> bs[i].named
}

/// No identifier is bound twice.
pub open spec fn distinct_names(bs: Seq<Binding>) -> bool {
    forall|i: int, j: int| 0 <= i < j < bs.len() ==> bs[i].name != bs[j].name
}

/// The disambiguation table of the facility: which shape an invocation
/// has, by the precedence order of the rules, or why none applies.
pub open spec fn spec_classify(inv: Invocation) -> Result<Shape, ExtractError> {
    match inv.bindings {
        Option::None => if inv.has_guard || inv.has_output {
            Result::Err(ExtractError::UnsupportedShape)
        } else {
            Result::Ok(Shape::Shorthand)
        },
        Option::Some(bs) => if bs@.len() == 0 {
            Result::Err(ExtractError::UnsupportedShape)
        } else if all_positional(bs@) {
            if inv.has_output {
                Result::Ok(Shape::PositionalMapped)
            } else {
                Result::Ok(Shape::PositionalBare)
            }
        } else if all_named(bs@) {
            if inv.has_output {
                Result::Ok(Shape::NamedMapped)
            } else {
                Result::Ok(Shape::NamedBare)
            }
        } else {
            Result::Err(ExtractError::MixedStyles)
        },
    }
}

/// The first declared variant carrying the given discriminant, if any.
pub open spec fn spec_find_variant(vs: Seq<VariantDecl>, tag: u64) -> Option<VariantDecl>
    decreases vs.len(),
{
    if vs.len() == 0 {
        Option::None
    } else if vs.first().tag == tag {
        Option::Some(vs.first())
    } else {
        spec_find_variant(vs.drop_first(), tag)
    }
}

/// Position of the first occurrence of `x` among `names`, meaningful
/// only when `names` contains `x`.
pub open spec fn spec_index_of(names: Seq<u64>, x: u64) -> int
    decreases names.len(),
{
    if names.len() == 0 {
        0
    } else if names.first() == x {
        0
    } else {
        1 + spec_index_of(names.drop_first(), x)
    }
}

proof fn lemma_spec_index_of(names: Seq<u64>, x: u64, i: int)
    requires
        0 <= i < names.len(),
        names[i] == x,
        forall|j: int| 0 <= j < i ==> names[j] != x,
    ensures
        spec_index_of(names, x) == i,
    decreases i,
{
    if i > 0 {
        assert(names.drop_first()[i - 1] == x);
        assert(forall|j: int| 0 <= j < i - 1 ==> names.drop_first()[j] != x);
        lemma_spec_index_of(names.drop_first(), x, i - 1);
    }
}

/// Binding resolution for the single-field shorthand: the variant must
/// carry exactly one unnamed field.
pub open spec fn spec_plan_shorthand(variant: u64, vd: VariantDecl) -> Result<PlanView, ExtractError> {
    match vd.style {
        FieldStyle::Tuple { arity } => if arity == 1 {
            Result::Ok(PlanView { shape: Shape::Shorthand, variant, indices: seq![0usize] })
        } else {
            Result::Err(ExtractError::FieldCountMismatch)
        },
        FieldStyle::Struct { .. } => Result::Err(ExtractError::StyleMismatch),
    }
}

/// Binding resolution for the positional styles: the variant must be
/// tuple-style with exactly as many fields as bindings, the binders must
/// be distinct, and the fields are handed out in declared order.
pub open spec fn spec_plan_positional(shape: Shape, variant: u64, bs: Seq<Binding>, vd: VariantDecl) -> Result<
    PlanView,
    ExtractError,
> {
    match vd.style {
        FieldStyle::Struct { .. } => Result::Err(ExtractError::StyleMismatch),
        FieldStyle::Tuple { arity } => if bs.len() != arity {
            Result::Err(ExtractError::FieldCountMismatch)
        } else if !distinct_names(bs) {
            Result::Err(ExtractError::DuplicateField)
        } else {
            Result::Ok(
                PlanView { shape, variant, indices: Seq::new(bs.len(), |k: int| k as usize) },
            )
        },
    }
}

/// Binding resolution for the named styles: the variant must be
/// struct-style, every one of its fields bound exactly once, and the
/// fields are handed out in listing order.
pub open spec fn spec_plan_named(shape: Shape, variant: u64, bs: Seq<Binding>, vd: VariantDecl) -> Result<
    PlanView,
    ExtractError,
> {
    match vd.style {
        FieldStyle::Tuple { .. } => Result::Err(ExtractError::StyleMismatch),
        FieldStyle::Struct { names } => if bs.len() != names@.len() {
            Result::Err(ExtractError::FieldCountMismatch)
        } else if exists|k: int| 0 <= k < bs.len() && !names@.contains(bs[k].name) {
            Result::Err(ExtractError::UnknownField)
        } else if !distinct_names(bs) {
            Result::Err(ExtractError::DuplicateField)
        } else {
            Result::Ok(
                PlanView {
                    shape,
                    variant,
                    indices: Seq::new(bs.len(), |k: int| spec_index_of(names@, bs[k].name) as usize),
                },
            )
        },
    }
}

/// Binding resolution for a whole invocation: disambiguate its shape,
/// look its variant up in the union's declaration, and resolve the
/// bindings against that variant's field layout.
pub open spec fn spec_plan(inv: Invocation, decl: UnionDecl) -> Result<PlanView, ExtractError> {
    match spec_classify(inv) {
        Result::Err(e) => Result::Err(e),
        Result::Ok(shape) => match spec_find_variant(decl.variants@, inv.variant) {
            Option::None => Result::Err(ExtractError::UnknownVariant),
            Option::Some(vd) => match shape {
                Shape::Shorthand => spec_plan_shorthand(inv.variant, vd),
                Shape::PositionalBare => spec_plan_positional(shape, inv.variant, inv.bindings->0@, vd),
                Shape::PositionalMapped => spec_plan_positional(shape, inv.variant, inv.bindings->0@, vd),
                Shape::NamedBare => spec_plan_named(shape, inv.variant, inv.bindings->0@, vd),
                Shape::NamedMapped => spec_plan_named(shape, inv.variant, inv.bindings->0@, vd),
            },
        },
    }
}

/// An executable plan agrees with the resolution the table calls for.
pub open spec fn plan_matches(r: Result<Plan, ExtractError>, s: Result<PlanView, ExtractError>) -> bool {
    match r {
        Result::Ok(p) => s matches Result::Ok(pv) && p@ == pv,
        Result::Err(e) => s matches Result::Err(f) && e == f,
    }
}

/// Decides which of the shapes an invocation has, or rejects it.
pub fn classify(inv: &Invocation) -> (r: Result<Shape, ExtractError>)
    ensures
        r == spec_classify(*inv),
{
    match &inv.bindings {
        Option::None => if inv.has_guard || inv.has_output {
            Result::Err(ExtractError::UnsupportedShape)
        } else {
            Result::Ok(Shape::Shorthand)
        },
        Option::Some(bs) => {
            if bs.len() == 0 {
                return Result::Err(ExtractError::UnsupportedShape);
            }
            let mut saw_named = false;
            let mut saw_positional = false;
            let mut k: usize = 0;
            while k < bs.len()
                invariant
                    k <= bs@.len(),
                    saw_named == exists|i: int| 0 <= i < k && bs@[i].named,
                    saw_positional == exists|i: int| 0 <= i < k && !bs@[i].named,
                decreases bs@.len() - k,
            {
                if bs[k].named {
                    saw_named = true;
                } else {
                    saw_positional = true;
                }
                k += 1;
            }
            if saw_named && saw_positional {
                Result::Err(ExtractError::MixedStyles)
            } else if saw_named {
                if inv.has_output {
                    Result::Ok(Shape::NamedMapped)
                } else {
                    Result::Ok(Shape::NamedBare)
                }
            } else {
                if inv.has_output {
                    Result::Ok(Shape::PositionalMapped)
                } else {
                    Result::Ok(Shape::PositionalBare)
                }
            }
        }
    }
}

/// Every index points into a field list of the given length.
pub open spec fn in_bounds(indices: Seq<usize>, len: nat) -> bool {
    forall|k: int| 0 <= k < indices.len() ==> indices[k] < len
}

/// The fields a plan binds, in output order: the elements of `fields`
/// selected by `indices`.
pub open spec fn selection<T>(fields: Seq<T>, indices: Seq<usize>) -> Seq<T> {
    Seq::new(indices.len(), |k: int| fields[indices[k] as int])
}

/// How a run without an output mapping presents the bound fields `s`:
/// the sole field by itself when one is bound, the ordered tuple
/// otherwise.
pub open spec fn extracted_matches<T>(e: Extracted<T>, s: Seq<T>) -> bool {
    if s.len() == 1 {
        e == Extracted::Single(s[0])
    } else {
        e matches Extracted::Tuple(v) && v@ == s
    }
}

/// The guard, handed the bound fields `s`, can answer `verdict`.
pub open spec fn guard_verdict<T, G: FnOnce(Vec<T>) -> bool>(g: G, s: Seq<T>, verdict: bool) -> bool {
    exists|v: Vec<T>| v@ == s && call_ensures(g, (v,), verdict)
}

/// The output mapping, handed the bound fields `s`, can yield `u`.
pub open spec fn output_yields<T, U, H: FnOnce(Vec<T>) -> U>(output: H, s: Seq<T>, u: U) -> bool {
    exists|w: Vec<T>| w@ == s && call_ensures(output, (w,), u)
}

/// Copies the plan's selection of fields out of the value, in output
/// order.
fn select_fields<T: Copy>(fields: &Vec<T>, indices: &Vec<usize>) -> (r: Vec<T>)
    requires
        in_bounds(indices@, fields@.len() as nat),
    ensures
        r@ == selection(fields@, indices@),
{
    let mut out: Vec<T> = Vec::new();
    let mut k: usize = 0;
    while k < indices.len()
        invariant
            in_bounds(indices@, fields@.len() as nat),
            k <= indices@.len(),
            out@.len() == k,
            forall|j: int| 0 <= j < k ==> out@[j] == fields@[indices@[j] as int],
        decreases indices@.len() - k,
    {
        let i = indices[k];
        out.push(fields[i]);
        k += 1;
    }
    proof {
        assert(out@ =~= selection(fields@, indices@));
    }
    out
}

/// Wraps the bound fields as a run without an output mapping hands them
/// out.
fn pack<T: Copy>(bound: Vec<T>) -> (r: Extracted<T>)
    ensures
        extracted_matches(r, bound@),
{
    if bound.len() == 1 {
        Extracted::Single(bound[0])
    } else {
        Extracted::Tuple(bound)
    }
}

/// Runs a plan without an output mapping against a value: empty when a
/// different variant is active, empty when the guard declines the bound
/// fields, and the bound fields themselves otherwise. The guard is
/// consulted at most once, and only after the variant matched.
pub fn run_bare<T: Copy, G: FnOnce(Vec<T>) -> bool>(
    p: &Plan,
    value: &TaggedValue<T>,
    guard: Option<G>,
) -> (r: Option<Extracted<T>>)
    requires
        value.tag == p.variant ==> in_bounds(p.indices@, value.fields@.len() as nat),
        value.tag == p.variant ==> (guard matches Option::Some(g) ==> forall|v: Vec<T>|
            v@ == selection(value.fields@, p.indices@) ==> call_requires(g, (v,))),
    ensures
        value.tag != p.variant ==> r is None,
        value.tag == p.variant && guard is None ==> r is Some && extracted_matches(
            r->0,
            selection(value.fields@, p.indices@),
        ),
        value.tag == p.variant && guard is Some && r is Some ==> extracted_matches(
            r->0,
            selection(value.fields@, p.indices@),
        ) && guard_verdict(guard->0, selection(value.fields@, p.indices@), true),
        value.tag == p.variant && guard is Some && r is None ==> guard_verdict(
            guard->0,
            selection(value.fields@, p.indices@),
            false,
        ),
{
    if value.tag != p.variant {
        return Option::None;
    }
    let ghost g0 = guard;
    match guard {
        Option::Some(g) => {
            let checked = select_fields(&value.fields, &p.indices);
            let ghost gc = checked;
            let ok = g(checked);
            proof {
                assert(guard_verdict(g0->0, selection(value.fields@, p.indices@), ok)) by {
                    assert(gc@ == selection(value.fields@, p.indices@)
                        && call_ensures(g0->0, (gc,), ok));
                }
            }
            if !ok {
                return Option::None;
            }
        },
        Option::None => {},
    }
    let bound = select_fields(&value.fields, &p.indices);
    Option::Some(pack(bound))
}

/// Runs a plan with an output mapping against a value: empty when a
/// different variant is active or the guard declines, the mapping's
/// value over the bound fields otherwise. Guard and mapping are each
/// consulted at most once, and only after the variant matched.
pub fn run_mapped<T: Copy, U, G: FnOnce(Vec<T>) -> bool, H: FnOnce(Vec<T>) -> U>(
    p: &Plan,
    value: &TaggedValue<T>,
    guard: Option<G>,
    output: H,
) -> (r: Option<U>)
    requires
        value.tag == p.variant ==> in_bounds(p.indices@, value.fields@.len() as nat),
        value.tag == p.variant ==> (guard matches Option::Some(g) ==> forall|v: Vec<T>|
            v@ == selection(value.fields@, p.indices@) ==> call_requires(g, (v,))),
        value.tag == p.variant ==> forall|v: Vec<T>|
            v@ == selection(value.fields@, p.indices@) ==> call_requires(output, (v,)),
    ensures
        value.tag != p.variant ==> r is None,
        value.tag == p.variant && guard is None ==> r is Some && output_yields(
            output,
            selection(value.fields@, p.indices@),
            r->0,
        ),
        value.tag == p.variant && guard is Some && r is Some ==> guard_verdict(
            guard->0,
            selection(value.fields@, p.indices@),
            true,
        ) && output_yields(output, selection(value.fields@, p.indices@), r->0),
        value.tag == p.variant && guard is Some && r is None ==> guard_verdict(
            guard->0,
            selection(value.fields@, p.indices@),
            false,
        ),
{
    if value.tag != p.variant {
        return Option::None;
    }
    let ghost g0 = guard;
    match guard {
        Option::Some(g) => {
            let checked = select_fields(&value.fields, &p.indices);
            let ghost gc = checked;
            let ok = g(checked);
            proof {
                assert(guard_verdict(g0->0, selection(value.fields@, p.indices@), ok)) by {
                    assert(gc@ == selection(value.fields@, p.indices@)
                        && call_ensures(g0->0, (gc,), ok));
                }
            }
            if !ok {
                return Option::None;
            }
        },
        Option::None => {},
    }
    let bound = select_fields(&value.fields, &p.indices);
    let ghost gb = bound;
    let ghost h0 = output;
    let u = output(bound);
    proof {
        assert(output_yields(h0, selection(value.fields@, p.indices@), u)) by {
            assert(gb@ == selection(value.fields@, p.indices@) && call_ensures(h0, (gb,), u));
        }
    }
    Option::Some(u)
}

/// Law: the single-field shorthand, run on a value of a one-field
/// tuple-style variant, hands that field's value out by itself, not
/// wrapped as a one-element tuple. An invocation with no binding list,
/// no guard and no output resolves to the plan that binds field 0, and
/// whatever a run without an output mapping presents for that binding
/// is the bare field value.
pub proof fn lemma_shorthand_yields_field<T>(
    inv: Invocation,
    decl: UnionDecl,
    fields: Seq<T>,
    e: Extracted<T>,
)
    requires
        inv.bindings is None,
        !inv.has_guard,
        !inv.has_output,
        spec_find_variant(decl.variants@, inv.variant) matches Option::Some(vd)
            && vd.style == (FieldStyle::Tuple { arity: 1 }),
        fields.len() == 1,
        extracted_matches(e, selection(fields, seq![0usize])),
    ensures
        spec_plan(inv, decl) == Result::<PlanView, ExtractError>::Ok(
            PlanView { shape: Shape::Shorthand, variant: inv.variant, indices: seq![0usize] },
        ),
        e == Extracted::Single(fields[0]),
{
    assert(spec_classify(inv) == Result::<Shape, ExtractError>::Ok(Shape::Shorthand));
    let s = selection(fields, seq![0usize]);
    assert(s.len() == 1);
    assert(s[0] == fields[0]);
}

proof fn lemma_spec_index_of_bounds(names: Seq<u64>, x: u64)
    requires
        names.contains(x),
    ensures
        0 <= spec_index_of(names, x) < names.len(),
        names[spec_index_of(names, x)] == x,
    decreases names.len(),
{
    if names.first() != x {
        let i = choose|i: int| 0 <= i < names.len() && names[i] == x;
        assert(names.drop_first()[i - 1] == x);
        lemma_spec_index_of_bounds(names.drop_first(), x);
    }
}

proof fn lemma_find_variant_found(vs: Seq<VariantDecl>, tag: u64, vd: VariantDecl)
    requires
        spec_find_variant(vs, tag) == Option::Some(vd),
    ensures
        vd.tag == tag,
        exists|i: int| 0 <= i < vs.len() && vs[i] == vd,
    decreases vs.len(),
{
    if vs.first().tag != tag {
        lemma_find_variant_found(vs.drop_first(), tag, vd);
        let i = choose|i: int| 0 <= i < vs.drop_first().len() && vs.drop_first()[i] == vd;
        assert(vs[i + 1] == vd);
    } else {
        assert(vs[0] == vd);
    }
}

/// Law: a plan resolved against a well-formed declaration fits every
/// value that conforms to that declaration. When the plan's variant is
/// the active one, all of its binding indices point into the value's
/// fields, so a caller of [`plan`] may hand any conforming value to
/// [`run_bare`] or [`run_mapped`].
pub proof fn lemma_plan_fits_conforming_values<T>(
    inv: Invocation,
    decl: UnionDecl,
    pv: PlanView,
    value: TaggedValue<T>,
)
    requires
        decl.wf(),
        spec_plan(inv, decl) == Result::<PlanView, ExtractError>::Ok(pv),
        conforms(value, decl),
        value.tag == pv.variant,
    ensures
        in_bounds(pv.indices, value.fields@.len() as nat),
{
    let vd = spec_find_variant(decl.variants@, inv.variant)->0;
    lemma_find_variant_found(decl.variants@, inv.variant, vd);
    let i = choose|i: int| 0 <= i < decl.variants@.len() && decl.variants@[i] == vd;
    let j = choose|j: int|
        0 <= j < decl.variants@.len() && decl.variants@[j].tag == value.tag
            && value.fields@.len() == decl.variants@[j].arity();
    assert(i == j);
    assert(value.fields@.len() == vd.arity());
    match spec_classify(inv) {
        Result::Ok(shape) => match shape {
            Shape::Shorthand => {
                assert(pv.indices == seq![0usize]);
                assert(pv.indices[0] == 0usize);
            },
            Shape::PositionalBare | Shape::PositionalMapped => {
                let bs = inv.bindings->0@;
                assert(pv.indices == Seq::new(bs.len(), |k: int| k as usize));
            },
            Shape::NamedBare | Shape::NamedMapped => {
                let bs = inv.bindings->0@;
                let names = vd.style->names@;
                assert(pv.indices == Seq::new(
                    bs.len(),
                    |k: int| spec_index_of(names, bs[k].name) as usize,
                ));
                assert forall|k: int| 0 <= k < pv.indices.len() implies pv.indices[k]
                    < value.fields@.len() by {
                    assert(names.contains(bs[k].name));
                    lemma_spec_index_of_bounds(names, bs[k].name);
                }
            },
        },
        Result::Err(_) => {},
    }
}

/// Linear search for the invocation's variant among the declared ones.
fn find_variant(decl: &UnionDecl, tag: u64) -> (r: Option<usize>)
    ensures
        match r {
            Option::Some(i) => i < decl.variants@.len()
                && spec_find_variant(decl.variants@, tag) == Option::Some(decl.variants@[i as int]),
            Option::None => spec_find_variant(decl.variants@, tag) is None,
        },
{
    let ghost vs = decl.variants@;
    proof {
        assert(vs.skip(0) =~= vs);
    }
    let mut k: usize = 0;
    while k < decl.variants.len()
        invariant
            vs == decl.variants@,
            k <= vs.len(),
            spec_find_variant(vs, tag) == spec_find_variant(vs.skip(k as int), tag),
        decreases vs.len() - k,
    {
        if decl.variants[k].tag == tag {
            proof {
                assert(vs.skip(k as int).first() == vs[k as int]);
            }
            return Option::Some(k);
        }
        proof {
            assert(vs.skip(k as int).first() == vs[k as int]);
            assert(vs.skip(k as int).drop_first() =~= vs.skip(k as int + 1));
        }
        k += 1;
    }
    proof {
        assert(vs.skip(k as int) =~= Seq::<VariantDecl>::empty());
    }
    Option::None
}

/// Linear search for a field name among a variant's declared names.
fn index_of_name(names: &Vec<u64>, x: u64) -> (r: Option<usize>)
    ensures
        match r {
            Option::Some(i) => names@.contains(x) && i as int == spec_index_of(names@, x)
                && i < names@.len() && names@[i as int] == x,
            Option::None => !names@.contains(x),
        },
{
    let mut k: usize = 0;
    while k < names.len()
        invariant
            k <= names@.len(),
            forall|j: int| 0 <= j < k ==> names@[j] != x,
        decreases names@.len() - k,
    {
        if names[k] == x {
            proof {
                lemma_spec_index_of(names@, x, k as int);
            }
            return Option::Some(k);
        }
        k += 1;
    }
    Option::None
}

/// True when no identifier appears twice in the binding list.
fn names_distinct(bs: &Vec<Binding>) -> (r: bool)
    ensures
        r == distinct_names(bs@),
{
    let mut i: usize = 0;
    while i < bs.len()
        invariant
            i <= bs@.len(),
            forall|p: int, q: int| 0 <= p < q < bs@.len() && p < i ==> bs@[p].name != bs@[q].name,
        decreases bs@.len() - i,
    {
        let mut j: usize = i + 1;
        while j < bs.len()
            invariant
                i < bs@.len(),
                i < j,
                j <= bs@.len() || j == i + 1,
                forall|q: int| i < q < j ==> bs@[i as int].name != bs@[q].name,
            decreases bs@.len() - j,
        {
            if bs[i].name == bs[j].name {
                return false;
            }
            j += 1;
        }
        i += 1;
    }
    true
}

/// Resolves an invocation against a union's declaration: disambiguates
/// the shape, finds the variant, checks the bindings against its field
/// layout, and hands back the plan, or the reason for rejection.
#[verifier::loop_isolation(false)]
pub fn plan(inv: &Invocation, decl: &UnionDecl) -> (r: Result<Plan, ExtractError>)
    ensures
        plan_matches(r, spec_plan(*inv, *decl)),
{
    let shape = match classify(inv) {
        Result::Ok(s) => s,
        Result::Err(e) => {
            return Result::Err(e);
        },
    };
    let vi = match find_variant(decl, inv.variant) {
        Option::Some(i) => i,
        Option::None => {
            return Result::Err(ExtractError::UnknownVariant);
        },
    };
    let vd = &decl.variants[vi];
    match shape {
        Shape::Shorthand => match &vd.style {
            FieldStyle::Tuple { arity } => if *arity == 1 {
                let mut indices: Vec<usize> = Vec::new();
                indices.push(0);
                proof {
                    assert(indices@ =~= seq![0usize]);
                }
                Result::Ok(Plan { shape, variant: inv.variant, indices })
            } else {
                Result::Err(ExtractError::FieldCountMismatch)
            },
            FieldStyle::Struct { .. } => Result::Err(ExtractError::StyleMismatch),
        },
        Shape::PositionalBare | Shape::PositionalMapped => {
            let bs = match &inv.bindings {
                Option::Some(bs) => bs,
                Option::None => {
                    // Unreachable: these shapes only arise from a
                    // binding list.
                    return Result::Err(ExtractError::UnsupportedShape);
                },
            };
            match &vd.style {
                FieldStyle::Struct { .. } => Result::Err(ExtractError::StyleMismatch),
                FieldStyle::Tuple { arity } => if bs.len() != *arity {
                    Result::Err(ExtractError::FieldCountMismatch)
                } else if !names_distinct(bs) {
                    Result::Err(ExtractError::DuplicateField)
                } else {
                    let mut indices: Vec<usize> = Vec::new();
                    let mut k: usize = 0;
                    while k < bs.len()
                        invariant
                            k <= bs@.len(),
                            indices@.len() == k,
                            forall|j: int| 0 <= j < k ==> indices@[j] == j as usize,
                        decreases bs@.len() - k,
                    {
                        indices.push(k);
                        k += 1;
                    }
                    proof {
                        assert(indices@ =~= Seq::new(bs@.len(), |j: int| j as usize));
                    }
                    Result::Ok(Plan { shape, variant: inv.variant, indices })
                },
            }
        },
        Shape::NamedBare | Shape::NamedMapped => {
            let bs = match &inv.bindings {
                Option::Some(bs) => bs,
                Option::None => {
                    // Unreachable: these shapes only arise from a
                    // binding list.
                    return Result::Err(ExtractError::UnsupportedShape);
                },
            };
            match &vd.style {
                FieldStyle::Tuple { .. } => Result::Err(ExtractError::StyleMismatch),
                FieldStyle::Struct { names } => if bs.len() != names.len() {
                    Result::Err(ExtractError::FieldCountMismatch)
                } else {
                    let mut indices: Vec<usize> = Vec::new();
                    let mut k: usize = 0;
                    while k < bs.len()
                        invariant
                            k <= bs@.len(),
                            indices@.len() == k,
                            forall|j: int| 0 <= j < k ==> names@.contains(bs@[j].name),
                            forall|j: int| 0 <= j < k ==> indices@[j] == spec_index_of(names@, bs@[j].name) as usize,
                        decreases bs@.len() - k,
                    {
                        match index_of_name(names, bs[k].name) {
                            Option::Some(i) => {
                                indices.push(i);
                            },
                            Option::None => {
                                proof {
                                    let ghost sbs = inv.bindings->0@;
                                    let ghost snames = vd.style->names@;
                                    assert(exists|j: int|
                                        0 <= j < sbs.len() && !snames.contains(sbs[j].name)) by {
                                        assert(!snames.contains(sbs[k as int].name));
                                    }
                                }
                                return Result::Err(ExtractError::UnknownField);
                            },
                        }
                        k += 1;
                    }
                    if !names_distinct(bs) {
                        Result::Err(ExtractError::DuplicateField)
                    } else {
                        proof {
                            assert(indices@ =~= Seq::new(
                                bs@.len(),
                                |j: int| spec_index_of(names@, bs@[j].name) as usize,
                            ));
                        }
                        Result::Ok(Plan { shape, variant: inv.variant, indices })
                    }
                },
            }
        },
    }
}

} // verus!
