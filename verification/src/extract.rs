//! Extraction of the name table from the annotated type definition.
//!
//! The extractor rejects configuration blocks on the type itself and targets
//! that are not sum types; it then walks the variants in declaration order,
//! validating each variant's configuration and synthesizing its terminated
//! name.  The first diagnostic aborts the whole invocation.

use vstd::prelude::*;

use crate::attrs::MetaError;
use crate::attrs::MetaOutcome;
use crate::attrs::VariantMeta;
use crate::attrs::parse_blocks;
use crate::resolve::BindingView;
use crate::resolve::NameBinding;
use crate::resolve::TERMINATOR;
use crate::resolve::has_terminator;
use crate::resolve::resolve_name;
use crate::resolve::resolved_text;
use crate::schema::DeriveError;
use crate::schema::ErrorView;
use crate::schema::FieldKind;
use crate::schema::TypeBody;
use crate::schema::TypeDef;
use crate::schema::VariantDef;
use crate::schema::copy_bytes;

verus! {

/// The outcome of validating one variant's configuration blocks.
pub open spec fn variant_outcome(v: VariantDef) -> MetaOutcome {
    parse_blocks(v.attrs@, None)
}

/// The text a settled variant resolves to: its override if one was
/// supplied, else its identifier.
pub open spec fn resolved_text_of(v: VariantDef) -> Seq<u8> {
    match variant_outcome(v) {
        MetaOutcome::Settled(m) => resolved_text(v.ident@, m),
        _ => Seq::empty(),
    }
}

/// The name table row a settled variant yields.
pub open spec fn binding_of(v: VariantDef) -> BindingView {
    BindingView { ident: v.ident@, bytes: resolved_text_of(v).push(TERMINATOR) }
}

/// The first diagnostic the variant at index `i` raises, if any.
pub open spec fn variant_error(v: VariantDef, i: int, unit_only: bool) -> Option<ErrorView> {
    if unit_only && !(v.fields is Unit) {
        Some(ErrorView::VariantHasFields { variant: i, ident: v.ident@ })
    } else {
        match variant_outcome(v) {
            MetaOutcome::Settled(m) => if has_terminator(resolved_text(v.ident@, m)) {
                Some(ErrorView::EmbeddedTerminatorByte { variant: i })
            } else {
                None
            },
            MetaOutcome::UnknownKey(k) => Some(ErrorView::UnknownArgument { variant: i, key: k }),
            MetaOutcome::NonStringValue => Some(ErrorView::TypeMismatchLiteral { variant: i }),
            MetaOutcome::Repeated => Some(ErrorView::DuplicateArgument { variant: i }),
        }
    }
}

/// The first diagnostic among the variants from index `i` on, if any.
pub open spec fn first_variant_error(vs: Seq<VariantDef>, i: int, unit_only: bool) -> Option<
    ErrorView,
>
    decreases vs.len() - i,
{
    if i < 0 || i >= vs.len() {
        None
    } else {
        match variant_error(vs[i], i, unit_only) {
            Some(e) => Some(e),
            None => first_variant_error(vs, i + 1, unit_only),
        }
    }
}

/// What one generation invocation extracts from the type definition:
/// the name table, in declaration order, or the first diagnostic.
pub enum Extraction {
    Table(Seq<BindingView>),
    Fault(ErrorView),
}

/// The whole extraction, as a value.
pub open spec fn extraction(input: TypeDef, unit_only: bool) -> Extraction {
    if input.attrs@.len() > 0 {
        Extraction::Fault(ErrorView::MisplacedAttribute)
    } else {
        match input.body {
            TypeBody::NotEnum => Extraction::Fault(ErrorView::NonEnumTarget),
            TypeBody::Enum(vs) => match first_variant_error(vs@, 0, unit_only) {
                Some(e) => Extraction::Fault(e),
                None => Extraction::Table(vs@.map_values(|v: VariantDef| binding_of(v))),
            },
        }
    }
}

/// Skipping variants that raise no diagnostic leaves the first
/// diagnostic unchanged.
proof fn lemma_first_error_skip(vs: Seq<VariantDef>, i: int, unit_only: bool)
    requires
        0 <= i <= vs.len(),
        forall|j: int| 0 <= j < i ==> variant_error(vs[j], j, unit_only) is None,
    ensures
        first_variant_error(vs, 0, unit_only) == first_variant_error(vs, i, unit_only),
    decreases i,
{
    if i > 0 {
        assert(variant_error(vs[i - 1], i - 1, unit_only) is None);
        lemma_first_error_skip(vs, i - 1, unit_only);
    }
}

/// A table was only extracted because no variant raised a diagnostic.
proof fn lemma_no_error_all(vs: Seq<VariantDef>, i: int, unit_only: bool)
    requires
        0 <= i <= vs.len(),
        first_variant_error(vs, i, unit_only) is None,
    ensures
        forall|j: int| i <= j < vs.len() ==> variant_error(vs[j], j, unit_only) is None,
    decreases vs.len() - i,
{
    if i < vs.len() {
        assert(variant_error(vs[i], i, unit_only) is None);
        lemma_no_error_all(vs, i + 1, unit_only);
    }
}

/// Every name in an extracted table is terminated: nonempty, ending in
/// the terminator byte, with no terminator byte in its interior.
pub proof fn lemma_table_wf(input: TypeDef, unit_only: bool, bs: Seq<BindingView>)
    requires
        extraction(input, unit_only) == Extraction::Table(bs),
    ensures
        forall|j: int| 0 <= j < bs.len() ==> (#[trigger] bs[j].bytes).len() > 0
            && bs[j].bytes.last() == TERMINATOR && !has_terminator(bs[j].bytes.drop_last()),
{
    match input.body {
        TypeBody::NotEnum => {
            assert(false);
        },
        TypeBody::Enum(vs) => {
            lemma_no_error_all(vs@, 0, unit_only);
            assert forall|j: int| 0 <= j < bs.len() implies (#[trigger] bs[j].bytes).len() > 0
                && bs[j].bytes.last() == TERMINATOR && !has_terminator(
                bs[j].bytes.drop_last(),
            ) by {
                assert(variant_error(vs@[j], j, unit_only) is None);
                assert(bs[j] == binding_of(vs@[j]));
                assert(bs[j].bytes.drop_last() =~= resolved_text_of(vs@[j]));
            }
        },
    }
}

/// A variant with no override resolves to its identifier text, verbatim,
/// with the terminator byte appended.
pub proof fn lemma_default_name(v: VariantDef)
    requires
        variant_outcome(v) == MetaOutcome::Settled(Option::<Seq<u8>>::None),
    ensures
        resolved_text_of(v) == v.ident@,
        binding_of(v).bytes == v.ident@.push(TERMINATOR),
{
}

/// A variant with an override resolves to the override text, verbatim,
/// with the terminator byte appended.
pub proof fn lemma_override_name(v: VariantDef, alias: Seq<u8>)
    requires
        variant_outcome(v) == MetaOutcome::Settled(Some(alias)),
    ensures
        resolved_text_of(v) == alias,
        binding_of(v).bytes == alias.push(TERMINATOR),
{
}

/// Discriminant values play no part in name resolution: a variant
/// differing only in its discriminant raises the same diagnostics and
/// resolves to the same binding.
pub proof fn lemma_discriminant_irrelevant(v: VariantDef, d: Option<u64>, i: int, unit_only: bool)
    ensures
        variant_error(
            VariantDef { ident: v.ident, fields: v.fields, attrs: v.attrs, discriminant: d },
            i,
            unit_only,
        ) == variant_error(v, i, unit_only),
        binding_of(
            VariantDef { ident: v.ident, fields: v.fields, attrs: v.attrs, discriminant: d },
        ) == binding_of(v),
{
}

/// Variants that raise the same diagnostics, index by index, leave the
/// same first diagnostic.
proof fn lemma_first_error_congruent(
    v1: Seq<VariantDef>,
    v2: Seq<VariantDef>,
    i: int,
    unit_only: bool,
)
    requires
        v1.len() == v2.len(),
        forall|j: int| 0 <= j < v1.len() ==> variant_error(v2[j], j, unit_only) == variant_error(
            v1[j],
            j,
            unit_only,
        ),
    ensures
        first_variant_error(v2, i, unit_only) == first_variant_error(v1, i, unit_only),
    decreases v1.len() - i,
{
    if 0 <= i < v1.len() {
        assert(variant_error(v2[i], i, unit_only) == variant_error(v1[i], i, unit_only));
        lemma_first_error_congruent(v1, v2, i + 1, unit_only);
    }
}

/// Discriminant values play no part in the invocation as a whole: two
/// type definitions that differ only in their variants' discriminants
/// extract to the same outcome.
pub proof fn lemma_discriminants_irrelevant_invocation(t1: TypeDef, t2: TypeDef, unit_only: bool)
    requires
        t2.ident == t1.ident,
        t2.attrs == t1.attrs,
        match (t1.body, t2.body) {
            (TypeBody::Enum(v1), TypeBody::Enum(v2)) => {
                &&& v1@.len() == v2@.len()
                &&& forall|j: int| 0 <= j < v1@.len() ==> (#[trigger] v2@[j]).ident == v1@[j].ident
                    && v2@[j].fields == v1@[j].fields && v2@[j].attrs == v1@[j].attrs
            },
            (TypeBody::NotEnum, TypeBody::NotEnum) => true,
            _ => false,
        },
    ensures
        extraction(t2, unit_only) == extraction(t1, unit_only),
{
    if t1.attrs@.len() == 0 {
        match (t1.body, t2.body) {
            (TypeBody::Enum(v1), TypeBody::Enum(v2)) => {
                assert forall|j: int| 0 <= j < v1@.len() implies variant_error(
                    v2@[j],
                    j,
                    unit_only,
                ) == variant_error(v1@[j], j, unit_only) && binding_of(v2@[j]) == binding_of(
                    v1@[j],
                ) by {
                    lemma_discriminant_irrelevant(v1@[j], v2@[j].discriminant, j, unit_only);
                    assert(v2@[j] == (VariantDef {
                        ident: v1@[j].ident,
                        fields: v1@[j].fields,
                        attrs: v1@[j].attrs,
                        discriminant: v2@[j].discriminant,
                    }));
                }
                lemma_first_error_congruent(v1@, v2@, 0, unit_only);
                if first_variant_error(v1@, 0, unit_only) is None {
                    assert(v2@.map_values(|v: VariantDef| binding_of(v)) =~= v1@.map_values(
                        |v: VariantDef| binding_of(v),
                    ));
                }
            },
            _ => {},
        }
    }
}

/// Rejects configuration blocks standing on the type instead of a variant.
pub fn check_enum_attrs(input: &TypeDef) -> (r: Result<(), DeriveError>)
    ensures
        r matches Ok(u) <==> input.attrs@.len() == 0,
        r matches Err(e) ==> e@ == ErrorView::MisplacedAttribute,
{
    if input.attrs.len() > 0 {
        Err(DeriveError::MisplacedAttribute)
    } else {
        Ok(())
    }
}

/// Extracts the name table: one terminated name per variant, in
/// declaration order; or the invocation's first diagnostic.
///
/// With `unit_variants_only`, a variant carrying fields is rejected.
#[verifier::loop_isolation(false)]
pub fn get_name_mapping(input: &TypeDef, unit_variants_only: bool) -> (r: Result<
    Vec<NameBinding>,
    DeriveError,
>)
    ensures
        match r {
            Ok(table) => extraction(*input, unit_variants_only) == Extraction::Table(
                table@.map_values(|b: NameBinding| b@),
            ),
            Err(e) => extraction(*input, unit_variants_only) == Extraction::Fault(e@),
        },
{
    match check_enum_attrs(input) {
        Err(e) => {
            return Err(e);
        },
        Ok(u) => {},
    }
    let variants: &Vec<VariantDef> = match &input.body {
        TypeBody::Enum(vs) => vs,
        TypeBody::NotEnum => {
            return Err(DeriveError::NonEnumTarget);
        },
    };
    let mut table: Vec<NameBinding> = Vec::new();
    let mut i: usize = 0;
    while i < variants.len()
        invariant
            i <= variants.len(),
            table@.len() == i,
            forall|j: int| 0 <= j < i ==> variant_error(variants@[j], j, unit_variants_only)
                is None,
            forall|j: int| 0 <= j < i ==> #[trigger] table@[j]@ == binding_of(variants@[j]),
        decreases variants.len() - i,
    {
        let v = &variants[i];
        if unit_variants_only {
            let unit = match &v.fields {
                FieldKind::Unit => true,
                FieldKind::Positional(_) => false,
                FieldKind::Named(_) => false,
            };
            if !unit {
                proof {
                    lemma_first_error_skip(variants@, i as int, unit_variants_only);
                }
                return Err(
                    DeriveError::VariantHasFields { variant: i, ident: copy_bytes(&v.ident) },
                );
            }
        }
        let opts = match VariantMeta::from_attrs(&v.attrs) {
            Ok(m) => m,
            Err(me) => {
                proof {
                    lemma_first_error_skip(variants@, i as int, unit_variants_only);
                }
                return Err(
                    match me {
                        MetaError::UnknownArgument { key } => DeriveError::UnknownArgument {
                            variant: i,
                            key,
                        },
                        MetaError::TypeMismatchLiteral => DeriveError::TypeMismatchLiteral {
                            variant: i,
                        },
                        MetaError::DuplicateArgument => DeriveError::DuplicateArgument {
                            variant: i,
                        },
                    },
                );
            },
        };
        let binding = match resolve_name(&v.ident, &opts) {
            Some(b) => b,
            None => {
                proof {
                    lemma_first_error_skip(variants@, i as int, unit_variants_only);
                }
                return Err(DeriveError::EmbeddedTerminatorByte { variant: i });
            },
        };
        table.push(binding);
        i = i + 1;
    }
    proof {
        lemma_first_error_skip(variants@, variants@.len() as int, unit_variants_only);
        assert(table@.map_values(|b: NameBinding| b@) =~= variants@.map_values(
            |v: VariantDef| binding_of(v),
        ));
    }
    Ok(table)
}

} // verus!
