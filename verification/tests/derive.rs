use cstr_enum::attrs::MetaError;
use cstr_enum::attrs::VariantMeta;
use cstr_enum::emit::derive_ascstr_enum;
use cstr_enum::emit::derive_fromcstr_enum;
use cstr_enum::schema::AttrArg;
use cstr_enum::schema::AttrBlock;
use cstr_enum::schema::DeriveError;
use cstr_enum::schema::FieldKind;
use cstr_enum::schema::Lit;
use cstr_enum::schema::TypeBody;
use cstr_enum::schema::TypeDef;
use cstr_enum::schema::VariantDef;

fn name_arg(value: Lit) -> AttrArg {
    AttrArg { key: b"name".to_vec(), value }
}

fn name_block(alias: &[u8]) -> AttrBlock {
    AttrBlock { args: vec![name_arg(Lit::Str(alias.to_vec()))] }
}

fn unit_variant(ident: &[u8]) -> VariantDef {
    VariantDef { ident: ident.to_vec(), fields: FieldKind::Unit, attrs: vec![], discriminant: None }
}

fn renamed_variant(ident: &[u8], alias: &[u8]) -> VariantDef {
    VariantDef {
        ident: ident.to_vec(),
        fields: FieldKind::Unit,
        attrs: vec![name_block(alias)],
        discriminant: None,
    }
}

fn enum_def(ident: &[u8], variants: Vec<VariantDef>) -> TypeDef {
    TypeDef { ident: ident.to_vec(), attrs: vec![], body: TypeBody::Enum(variants) }
}

/// The `Constants` enum of the crate documentation: `Apple`, `Bacon`,
/// `Cat = 1337`.
fn constants() -> TypeDef {
    let mut cat = unit_variant(b"Cat");
    cat.discriminant = Some(1337);
    enum_def(b"Constants", vec![unit_variant(b"Apple"), unit_variant(b"Bacon"), cat])
}

#[test]
fn compile_tests() {
    // Plain unit enums derive both mappings.
    let plain = enum_def(b"Enum0", vec![unit_variant(b"A"), unit_variant(b"B"), unit_variant(b"C")]);
    assert!(derive_fromcstr_enum(&plain).is_ok());
    assert!(derive_ascstr_enum(&plain).is_ok());

    // An override on one variant is accepted by both derivations.
    let renamed = enum_def(
        b"Enum3",
        vec![renamed_variant(b"A", b"apple"), unit_variant(b"B"), unit_variant(b"C")],
    );
    assert!(derive_fromcstr_enum(&renamed).is_ok());
    assert!(derive_ascstr_enum(&renamed).is_ok());

    // `name` supplied twice on one variant.
    let dup = enum_def(
        b"Enum4",
        vec![VariantDef {
            ident: b"A".to_vec(),
            fields: FieldKind::Unit,
            attrs: vec![AttrBlock {
                args: vec![name_arg(Lit::Str(b"x".to_vec())), name_arg(Lit::Str(b"y".to_vec()))],
            }],
            discriminant: None,
        }],
    );
    assert_eq!(derive_ascstr_enum(&dup).unwrap_err(), DeriveError::DuplicateArgument { variant: 0 });

    // An argument with a key other than `name`.
    let wrong = enum_def(
        b"Enum5",
        vec![VariantDef {
            ident: b"A".to_vec(),
            fields: FieldKind::Unit,
            attrs: vec![AttrBlock {
                args: vec![AttrArg { key: b"rename".to_vec(), value: Lit::Str(b"x".to_vec()) }],
            }],
            discriminant: None,
        }],
    );
    assert_eq!(
        derive_ascstr_enum(&wrong).unwrap_err(),
        DeriveError::UnknownArgument { variant: 0, key: b"rename".to_vec() }
    );

    // A variant with fields blocks the reverse mapping but not the forward.
    let mixed = enum_def(
        b"Enum6",
        vec![
            unit_variant(b"A"),
            VariantDef {
                ident: b"B".to_vec(),
                fields: FieldKind::Named(1),
                attrs: vec![],
                discriminant: None,
            },
        ],
    );
    assert_eq!(
        derive_fromcstr_enum(&mixed).unwrap_err(),
        DeriveError::VariantHasFields { variant: 1, ident: b"B".to_vec() }
    );
    assert!(derive_ascstr_enum(&mixed).is_ok());

    // A target that is not a sum type.
    let not_enum =
        TypeDef { ident: b"Struct0".to_vec(), attrs: vec![], body: TypeBody::NotEnum };
    assert_eq!(derive_ascstr_enum(&not_enum).unwrap_err(), DeriveError::NonEnumTarget);

    // An override with an interior terminator byte.
    let nul = enum_def(b"Enum7", vec![renamed_variant(b"A", b"p\0rk")]);
    assert_eq!(
        derive_ascstr_enum(&nul).unwrap_err(),
        DeriveError::EmbeddedTerminatorByte { variant: 0 }
    );

    // A configuration block on the enum itself.
    let on_enum = TypeDef {
        ident: b"Enum8".to_vec(),
        attrs: vec![name_block(b"x")],
        body: TypeBody::Enum(vec![unit_variant(b"A")]),
    };
    assert_eq!(derive_ascstr_enum(&on_enum).unwrap_err(), DeriveError::MisplacedAttribute);
}

#[test]
fn forward_uses_identifier_by_default() {
    let fwd = derive_ascstr_enum(&constants()).unwrap();
    assert_eq!(fwd.type_ident, b"Constants".to_vec());
    assert_eq!(fwd.as_cstr(0), &b"Apple\0".to_vec());
    assert_eq!(fwd.as_cstr(1), &b"Bacon\0".to_vec());
    assert_eq!(fwd.as_cstr(2), &b"Cat\0".to_vec());
}

#[test]
fn forward_uses_override_when_supplied() {
    let def = enum_def(b"Constants", vec![renamed_variant(b"Bacon", b"pork")]);
    let fwd = derive_ascstr_enum(&def).unwrap();
    assert_eq!(fwd.as_cstr(0), &b"pork\0".to_vec());
}

#[test]
fn reverse_uses_override_when_supplied() {
    let def = enum_def(
        b"Constants",
        vec![unit_variant(b"Apple"), renamed_variant(b"Bacon", b"pork")],
    );
    let rev = derive_fromcstr_enum(&def).unwrap();
    assert_eq!(rev.from_cstr(&b"pork".to_vec()), Ok(1));
    // The variant's own identifier is not a name once overridden.
    assert!(rev.from_cstr(&b"Bacon".to_vec()).is_err());
}

#[test]
fn round_trip_over_all_variants() {
    let def = enum_def(
        b"Constants",
        vec![unit_variant(b"Apple"), renamed_variant(b"Bacon", b"pork"), unit_variant(b"Cat")],
    );
    let fwd = derive_ascstr_enum(&def).unwrap();
    let rev = derive_fromcstr_enum(&def).unwrap();
    for tag in 0..3 {
        let mut bytes = fwd.as_cstr(tag).clone();
        let terminator = bytes.pop();
        assert_eq!(terminator, Some(0));
        assert_eq!(rev.from_cstr(&bytes), Ok(tag));
    }
}

#[test]
fn duplicate_name_across_two_blocks() {
    let def = enum_def(
        b"Constants",
        vec![VariantDef {
            ident: b"A".to_vec(),
            fields: FieldKind::Unit,
            attrs: vec![name_block(b"x"), name_block(b"y")],
            discriminant: None,
        }],
    );
    assert_eq!(
        derive_fromcstr_enum(&def).unwrap_err(),
        DeriveError::DuplicateArgument { variant: 0 }
    );
}

#[test]
fn name_value_must_be_a_string_literal() {
    let def = enum_def(
        b"Constants",
        vec![VariantDef {
            ident: b"A".to_vec(),
            fields: FieldKind::Unit,
            attrs: vec![AttrBlock { args: vec![name_arg(Lit::Other)] }],
            discriminant: None,
        }],
    );
    assert_eq!(
        derive_ascstr_enum(&def).unwrap_err(),
        DeriveError::TypeMismatchLiteral { variant: 0 }
    );
}

#[test]
fn attribute_on_type_rejected_regardless_of_content() {
    // Even a block that would be valid on a variant is rejected on the type.
    let def = TypeDef {
        ident: b"Constants".to_vec(),
        attrs: vec![name_block(b"pork")],
        body: TypeBody::Enum(vec![unit_variant(b"Apple")]),
    };
    assert_eq!(derive_ascstr_enum(&def).unwrap_err(), DeriveError::MisplacedAttribute);
    assert_eq!(derive_fromcstr_enum(&def).unwrap_err(), DeriveError::MisplacedAttribute);

    // An empty block is rejected all the same.
    let def = TypeDef {
        ident: b"Constants".to_vec(),
        attrs: vec![AttrBlock { args: vec![] }],
        body: TypeBody::Enum(vec![unit_variant(b"Apple")]),
    };
    assert_eq!(derive_ascstr_enum(&def).unwrap_err(), DeriveError::MisplacedAttribute);
}

#[test]
fn reverse_names_offending_field_variant() {
    let def = enum_def(
        b"Constants",
        vec![
            unit_variant(b"Foo"),
            VariantDef {
                ident: b"Baz".to_vec(),
                fields: FieldKind::Positional(2),
                attrs: vec![],
                discriminant: None,
            },
        ],
    );
    assert_eq!(
        derive_fromcstr_enum(&def).unwrap_err(),
        DeriveError::VariantHasFields { variant: 1, ident: b"Baz".to_vec() }
    );
}

#[test]
fn forward_accepts_field_variants() {
    let def = enum_def(
        b"Constants",
        vec![
            VariantDef {
                ident: b"Foo".to_vec(),
                fields: FieldKind::Named(1),
                attrs: vec![],
                discriminant: None,
            },
            VariantDef {
                ident: b"Baz".to_vec(),
                fields: FieldKind::Positional(2),
                attrs: vec![],
                discriminant: None,
            },
        ],
    );
    let fwd = derive_ascstr_enum(&def).unwrap();
    assert_eq!(fwd.as_cstr(0), &b"Foo\0".to_vec());
    assert_eq!(fwd.as_cstr(1), &b"Baz\0".to_vec());
}

#[test]
fn embedded_terminator_rejected() {
    let def = enum_def(b"Constants", vec![renamed_variant(b"Bacon", b"p\0rk")]);
    assert_eq!(
        derive_ascstr_enum(&def).unwrap_err(),
        DeriveError::EmbeddedTerminatorByte { variant: 0 }
    );
    let def = enum_def(
        b"Constants",
        vec![unit_variant(b"Apple"), renamed_variant(b"Bacon", b"\0")],
    );
    assert_eq!(
        derive_fromcstr_enum(&def).unwrap_err(),
        DeriveError::EmbeddedTerminatorByte { variant: 1 }
    );
}

#[test]
fn reverse_failure_names_the_type() {
    let rev = derive_fromcstr_enum(&constants()).unwrap();
    let err = rev.from_cstr(&b"unknown".to_vec()).unwrap_err();
    assert_eq!(err.type_ident, b"Constants".to_vec());
}

#[test]
fn discriminants_do_not_affect_resolution() {
    let with = derive_ascstr_enum(&constants()).unwrap();
    let without = derive_ascstr_enum(&enum_def(
        b"Constants",
        vec![unit_variant(b"Apple"), unit_variant(b"Bacon"), unit_variant(b"Cat")],
    ))
    .unwrap();
    for tag in 0..3 {
        assert_eq!(with.as_cstr(tag), without.as_cstr(tag));
    }
    let rev = derive_fromcstr_enum(&constants()).unwrap();
    assert_eq!(rev.from_cstr(&b"Cat".to_vec()), Ok(2));
}

#[test]
fn duplicate_resolved_names_first_match_wins() {
    // Nothing checks that two variants resolve to distinct names; the
    // reverse mapping picks the earliest declared match, unverified for
    // uniqueness.
    let def = enum_def(
        b"Constants",
        vec![renamed_variant(b"Ham", b"pork"), renamed_variant(b"Bacon", b"pork")],
    );
    let fwd = derive_ascstr_enum(&def).unwrap();
    assert_eq!(fwd.as_cstr(0), fwd.as_cstr(1));
    let rev = derive_fromcstr_enum(&def).unwrap();
    assert_eq!(rev.from_cstr(&b"pork".to_vec()), Ok(0));
}

#[test]
fn empty_enum_derives_empty_table() {
    let def = enum_def(b"Constants", vec![]);
    let fwd = derive_ascstr_enum(&def).unwrap();
    assert_eq!(fwd.table.len(), 0);
    let rev = derive_fromcstr_enum(&def).unwrap();
    assert!(rev.from_cstr(&b"Apple".to_vec()).is_err());
}

#[test]
fn empty_override_is_just_a_terminator() {
    let def = enum_def(b"Constants", vec![renamed_variant(b"Apple", b"")]);
    let fwd = derive_ascstr_enum(&def).unwrap();
    assert_eq!(fwd.as_cstr(0), &b"\0".to_vec());
    let rev = derive_fromcstr_enum(&def).unwrap();
    assert_eq!(rev.from_cstr(&b"".to_vec()), Ok(0));
}

#[test]
fn variant_meta_collects_the_override() {
    let meta = VariantMeta::from_attrs(&vec![name_block(b"pork")]).unwrap();
    assert_eq!(meta.name, Some(b"pork".to_vec()));

    let meta = VariantMeta::from_attrs(&vec![]).unwrap();
    assert_eq!(meta.name, None);

    let err = VariantMeta::from_attrs(&vec![name_block(b"x"), name_block(b"y")]).unwrap_err();
    assert_eq!(err, MetaError::DuplicateArgument);
}

#[test]
fn parse_meta_checks_arguments_in_order() {
    let mut meta = VariantMeta::default();
    let block = AttrBlock {
        args: vec![
            name_arg(Lit::Str(b"x".to_vec())),
            AttrArg { key: b"other".to_vec(), value: Lit::Other },
        ],
    };
    // The first argument settles before the second one is rejected.
    assert_eq!(
        meta.parse_meta(&block),
        Err(MetaError::UnknownArgument { key: b"other".to_vec() })
    );
    assert_eq!(meta.name, Some(b"x".to_vec()));

    // A duplicate is reported before the value's kind is inspected.
    let mut meta = VariantMeta::default();
    let block = AttrBlock {
        args: vec![name_arg(Lit::Str(b"x".to_vec())), name_arg(Lit::Other)],
    };
    assert_eq!(meta.parse_meta(&block), Err(MetaError::DuplicateArgument));
}
