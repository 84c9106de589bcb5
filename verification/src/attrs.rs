//! Validation of per-variant configuration attributes.
//!
//! A variant carries zero or more configuration blocks, each a list of
//! `key = value` arguments.  The only recognized key is `name`, whose value
//! must be a string literal and may be supplied at most once per variant.
//! The outcome is an optional name override.

use vstd::prelude::*;

use crate::schema::AttrArg;
use crate::schema::AttrBlock;
use crate::schema::Lit;
use crate::schema::copy_bytes;

verus! {

/// The bytes of the one recognized configuration key, `name`.
pub open spec fn name_key() -> Seq<u8> {
    seq![110u8, 97u8, 109u8, 101u8]
}

/// The outcome of validating a prefix of a variant's configuration
/// arguments: either the arguments seen so far settled on an optional
/// override, or the first offending argument was found.
pub enum MetaOutcome {
    /// All arguments were valid; the override collected so far, if any.
    Settled(Option<Seq<u8>>),
    /// An argument carried a key other than `name`.
    UnknownKey(Seq<u8>),
    /// A `name` argument carried a value that is not a string literal.
    NonStringValue,
    /// A second `name` argument was found.
    Repeated,
}

/// How one argument advances the validation, given the override
/// collected so far.
pub open spec fn parse_step(arg: AttrArg, cur: Option<Seq<u8>>) -> MetaOutcome {
    if arg.key@ != name_key() {
        MetaOutcome::UnknownKey(arg.key@)
    } else if cur is Some {
        MetaOutcome::Repeated
    } else {
        match arg.value {
            Lit::Str(s) => MetaOutcome::Settled(Some(s@)),
            Lit::Other => MetaOutcome::NonStringValue,
        }
    }
}

/// Validation of a list of arguments, in order, starting from the
/// override collected so far.  The first offending argument wins.
pub open spec fn parse_args(args: Seq<AttrArg>, cur: Option<Seq<u8>>) -> MetaOutcome
    decreases args.len(),
{
    if args.len() == 0 {
        MetaOutcome::Settled(cur)
    } else {
        match parse_step(args[0], cur) {
            MetaOutcome::Settled(next) => parse_args(args.drop_first(), next),
            MetaOutcome::UnknownKey(k) => MetaOutcome::UnknownKey(k),
            MetaOutcome::NonStringValue => MetaOutcome::NonStringValue,
            MetaOutcome::Repeated => MetaOutcome::Repeated,
        }
    }
}

/// Validation of a list of configuration blocks, block by block,
/// threading the collected override through, so that a `name` repeated
/// across two blocks of one variant is still a repetition.
pub open spec fn parse_blocks(blocks: Seq<AttrBlock>, cur: Option<Seq<u8>>) -> MetaOutcome
    decreases blocks.len(),
{
    if blocks.len() == 0 {
        MetaOutcome::Settled(cur)
    } else {
        match parse_args(blocks[0].args@, cur) {
            MetaOutcome::Settled(next) => parse_blocks(blocks.drop_first(), next),
            MetaOutcome::UnknownKey(k) => MetaOutcome::UnknownKey(k),
            MetaOutcome::NonStringValue => MetaOutcome::NonStringValue,
            MetaOutcome::Repeated => MetaOutcome::Repeated,
        }
    }
}

/// The view of an optional byte string.
pub open spec fn opt_bytes(o: Option<Vec<u8>>) -> Option<Seq<u8>> {
    match o {
        Some(v) => Some(v@),
        None => None,
    }
}

/// A diagnostic raised while validating one variant's configuration.
/// The enclosing extraction attaches the variant's index.
#[derive(Debug, Clone, PartialEq, Eq)]
pub enum MetaError {
    /// An argument whose key is not `name`.
    UnknownArgument { key: Vec<u8> },
    /// A `name` value that is not a string literal.
    TypeMismatchLiteral,
    /// A `name` supplied more than once.
    DuplicateArgument,
}

/// The outcome that a [`MetaError`] stands for.
pub open spec fn outcome_of_error(e: MetaError) -> MetaOutcome {
    match e {
        MetaError::UnknownArgument { key } => MetaOutcome::UnknownKey(key@),
        MetaError::TypeMismatchLiteral => MetaOutcome::NonStringValue,
        MetaError::DuplicateArgument => MetaOutcome::Repeated,
    }
}

/// The validated configuration of one variant.
#[derive(Debug)]
pub struct VariantMeta {
    /// The name override, if one was supplied.
    pub name: Option<Vec<u8>>,
}

impl Default for VariantMeta {
    /// A configuration with nothing supplied.
    fn default() -> (r: Self)
        ensures
            r.name is None,
    {
        VariantMeta { name: None }
    }
}

impl VariantMeta {
    /// Decides whether `k` is the `name` key.
    pub fn is_name_key(k: &Vec<u8>) -> (r: bool)
        ensures
            r == (k@ == name_key()),
    {
        if k.len() != 4 {
            return false;
        }
        let r = k[0] == 110 && k[1] == 97 && k[2] == 109 && k[3] == 101;
        proof {
            if r {
                assert(k@ =~= name_key());
            }
        }
        r
    }

    /// Rejects a second supply of an argument that is already set.
    pub fn check_not_set<T>(field: &Option<T>) -> (r: Result<(), MetaError>)
        ensures
            r matches Ok(u) <==> field is None,
            r matches Err(e) ==> e is DuplicateArgument,
    {
        if field.is_some() {
            Err(MetaError::DuplicateArgument)
        } else {
            Ok(())
        }
    }

    /// Validates a single `key = value` argument against the configuration
    /// collected so far, recording the override on success.
    pub fn parse_nv(&mut self, arg: &AttrArg) -> (r: Result<(), MetaError>)
        ensures
            match r {
                Ok(u) => parse_step(*arg, opt_bytes(old(self).name)) == MetaOutcome::Settled(
                    opt_bytes(final(self).name),
                ),
                Err(e) => {
                    &&& *final(self) == *old(self)
                    &&& parse_step(*arg, opt_bytes(old(self).name)) == outcome_of_error(e)
                },
            },
    {
        if !Self::is_name_key(&arg.key) {
            return Err(MetaError::UnknownArgument { key: copy_bytes(&arg.key) });
        }
        match Self::check_not_set(&self.name) {
            Err(e) => Err(e),
            Ok(u) => match &arg.value {
                Lit::Str(s) => {
                    self.name = Some(copy_bytes(s));
                    Ok(())
                },
                Lit::Other => Err(MetaError::TypeMismatchLiteral),
            },
        }
    }

    /// Validates one configuration block, argument by argument, in order.
    pub fn parse_meta(&mut self, block: &AttrBlock) -> (r: Result<(), MetaError>)
        ensures
            match r {
                Ok(u) => parse_args(block.args@, opt_bytes(old(self).name)) == MetaOutcome::Settled(
                    opt_bytes(final(self).name),
                ),
                Err(e) => parse_args(block.args@, opt_bytes(old(self).name)) == outcome_of_error(e),
            },
    {
        let ghost start: Option<Seq<u8>> = opt_bytes(self.name);
        proof {
            assert(block.args@.skip(0) =~= block.args@);
        }
        let mut i: usize = 0;
        while i < block.args.len()
            invariant
                i <= block.args.len(),
                start == opt_bytes(old(self).name),
                parse_args(block.args@, start) == parse_args(
                    block.args@.skip(i as int),
                    opt_bytes(self.name),
                ),
            decreases block.args.len() - i,
        {
            let ghost rest = block.args@.skip(i as int);
            proof {
                assert(rest[0] == block.args@[i as int]);
                assert(rest.drop_first() =~= block.args@.skip(i as int + 1));
            }
            match self.parse_nv(&block.args[i]) {
                Err(e) => {
                    return Err(e);
                },
                Ok(u) => {},
            }
            i = i + 1;
        }
        proof {
            assert(block.args@.skip(block.args@.len() as int) =~= Seq::<AttrArg>::empty());
        }
        Ok(())
    }

    /// Build the variant's configuration from its attribute blocks.
    pub fn from_attrs(attrs: &Vec<AttrBlock>) -> (r: Result<VariantMeta, MetaError>)
        ensures
            match r {
                Ok(m) => parse_blocks(attrs@, None) == MetaOutcome::Settled(opt_bytes(m.name)),
                Err(e) => parse_blocks(attrs@, None) == outcome_of_error(e),
            },
    {
        let mut opts = VariantMeta::default();
        proof {
            assert(attrs@.skip(0) =~= attrs@);
        }
        let mut i: usize = 0;
        while i < attrs.len()
            invariant
                i <= attrs.len(),
                parse_blocks(attrs@, None) == parse_blocks(
                    attrs@.skip(i as int),
                    opt_bytes(opts.name),
                ),
            decreases attrs.len() - i,
        {
            let ghost rest = attrs@.skip(i as int);
            proof {
                assert(rest[0] == attrs@[i as int]);
                assert(rest.drop_first() =~= attrs@.skip(i as int + 1));
            }
            match opts.parse_meta(&attrs[i]) {
                Err(e) => {
                    return Err(e);
                },
                Ok(u) => {},
            }
            i = i + 1;
        }
        proof {
            assert(attrs@.skip(attrs@.len() as int) =~= Seq::<AttrBlock>::empty());
        }
        Ok(opts)
    }
}

} // verus!
