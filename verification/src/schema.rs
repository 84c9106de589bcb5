//! The data model of one generation invocation: the shape of the annotated
//! type definition as the generator sees it, and the diagnostics it can raise.

use vstd::prelude::*;

verus! {

/// A fresh copy of a byte string.
pub fn copy_bytes(v: &Vec<u8>) -> (r: Vec<u8>)
    ensures
        r@ == v@,
{
    let mut out: Vec<u8> = Vec::new();
    let mut i: usize = 0;
    while i < v.len()
        invariant
            i <= v.len(),
            out@ == v@.take(i as int),
        decreases v.len() - i,
    {
        out.push(v[i]);
        proof {
            assert(v@.take(i as int + 1) =~= v@.take(i as int).push(v@[i as int]));
        }
        i = i + 1;
    }
    proof {
        assert(v@.take(v@.len() as int) =~= v@);
    }
    out
}

/// Byte-for-byte equality of two byte strings.
pub fn bytes_eq(a: &Vec<u8>, b: &Vec<u8>) -> (r: bool)
    ensures
        r == (a@ == b@),
{
    if a.len() != b.len() {
        return false;
    }
    let mut i: usize = 0;
    while i < a.len()
        invariant
            i <= a.len(),
            a@.len() == b@.len(),
            forall|j: int| 0 <= j < i ==> a@[j] == b@[j],
        decreases a.len() - i,
    {
        if a[i] != b[i] {
            return false;
        }
        i = i + 1;
    }
    proof {
        assert(a@ =~= b@);
    }
    true
}

/// A literal standing as the value of a configuration argument.
///
/// Only string literals are meaningful to the generator; every other literal
/// kind is collapsed into `Other`, since the generator rejects it uniformly.
pub enum Lit {
    /// A string literal, as its bytes.
    Str(Vec<u8>),
    /// Any non-string literal (a number, a boolean, ...).
    Other,
}

/// One `key = value` pair inside a configuration block.
pub struct AttrArg {
    /// The argument's key, as its bytes.
    pub key: Vec<u8>,
    /// The argument's value.
    pub value: Lit,
}

/// One configuration block: a list of `key = value` pairs.
pub struct AttrBlock {
    /// The block's arguments, in source order.
    pub args: Vec<AttrArg>,
}

/// The field shape of one variant.
pub enum FieldKind {
    /// No associated fields.
    Unit,
    /// Positional (tuple-style) fields, with their count.
    Positional(usize),
    /// Named (record-style) fields, with their count.
    Named(usize),
}

/// One variant of the annotated sum type.
pub struct VariantDef {
    /// The variant's identifier, as its bytes.
    pub ident: Vec<u8>,
    /// The shape of the variant's fields.
    pub fields: FieldKind,
    /// The configuration blocks attached to the variant, in source order.
    pub attrs: Vec<AttrBlock>,
    /// An explicit discriminant value, if the variant carries one.
    /// It plays no part in name resolution.
    pub discriminant: Option<u64>,
}

/// The body of the annotated type definition.
pub enum TypeBody {
    /// A sum type, with its variants in declaration order.
    Enum(Vec<VariantDef>),
    /// Anything that is not a sum type (a struct, a union).
    NotEnum,
}

/// The annotated type definition handed to one generation invocation.
pub struct TypeDef {
    /// The type's identifier, as its bytes.
    pub ident: Vec<u8>,
    /// Configuration blocks attached to the type itself.  Any such block is
    /// rejected: configuration belongs on the variants.
    pub attrs: Vec<AttrBlock>,
    /// The definition's body.
    pub body: TypeBody,
}

/// A diagnostic aborting the generation invocation, pointing at the
/// offending source construct.
#[derive(Debug, Clone, PartialEq, Eq)]
pub enum DeriveError {
    /// The annotated type is not a sum type.
    NonEnumTarget,
    /// A configuration block stands on the type instead of a variant.
    MisplacedAttribute,
    /// An argument with an unrecognized key, on the variant at this index.
    UnknownArgument { variant: usize, key: Vec<u8> },
    /// A `name` argument whose value is not a string literal.
    TypeMismatchLiteral { variant: usize },
    /// A `name` argument supplied more than once on one variant.
    DuplicateArgument { variant: usize },
    /// A resolved name containing the terminator byte in its interior.
    EmbeddedTerminatorByte { variant: usize },
    /// A variant with fields, where reverse mapping demands unit variants.
    VariantHasFields { variant: usize, ident: Vec<u8> },
}

/// The mathematical shape of a [`DeriveError`].
pub enum ErrorView {
    NonEnumTarget,
    MisplacedAttribute,
    UnknownArgument { variant: int, key: Seq<u8> },
    TypeMismatchLiteral { variant: int },
    DuplicateArgument { variant: int },
    EmbeddedTerminatorByte { variant: int },
    VariantHasFields { variant: int, ident: Seq<u8> },
}

impl View for DeriveError {
    type V = ErrorView;

    open spec fn view(&self) -> ErrorView {
        match self {
            DeriveError::NonEnumTarget => ErrorView::NonEnumTarget,
            DeriveError::MisplacedAttribute => ErrorView::MisplacedAttribute,
            DeriveError::UnknownArgument { variant, key } => ErrorView::UnknownArgument {
                variant: *variant as int,
                key: key@,
            },
            DeriveError::TypeMismatchLiteral { variant } => ErrorView::TypeMismatchLiteral {
                variant: *variant as int,
            },
            DeriveError::DuplicateArgument { variant } => ErrorView::DuplicateArgument {
                variant: *variant as int,
            },
            DeriveError::EmbeddedTerminatorByte { variant } => ErrorView::EmbeddedTerminatorByte {
                variant: *variant as int,
            },
            DeriveError::VariantHasFields { variant, ident } => ErrorView::VariantHasFields {
                variant: *variant as int,
                ident: ident@,
            },
        }
    }
}

} // verus!
