//! The two emitted mappings: variant to terminated name, and name to
//! variant.
//!
//! Generation validates the schema once and leaves behind an immutable name
//! table; the emitted functions are pure lookups over it.  The reverse
//! mapping compares its input against each name without the terminator, in
//! declaration order, first match winning.

use vstd::prelude::*;

use crate::extract::Extraction;
use crate::extract::extraction;
use crate::extract::get_name_mapping;
use crate::extract::lemma_table_wf;
use crate::resolve::BindingView;
use crate::resolve::NameBinding;
use crate::schema::DeriveError;
use crate::schema::TypeDef;
use crate::schema::bytes_eq;
use crate::schema::copy_bytes;

verus! {

/// The names a table holds, row by row.
pub open spec fn names_of(table: Seq<NameBinding>) -> Seq<Seq<u8>> {
    table.map_values(|b: NameBinding| b@.bytes)
}

/// The first index from `i` on whose name equals `s`, if any.
pub open spec fn first_match_from(names: Seq<Seq<u8>>, s: Seq<u8>, i: int) -> Option<int>
    decreases names.len() - i,
{
    if i < 0 || i >= names.len() {
        None
    } else if names[i] == s {
        Some(i)
    } else {
        first_match_from(names, s, i + 1)
    }
}

/// The first index whose name equals `s`, if any.
pub open spec fn first_match(names: Seq<Seq<u8>>, s: Seq<u8>) -> Option<int> {
    first_match_from(names, s, 0)
}

/// Skipping names that do not match leaves the first match unchanged.
proof fn lemma_first_match_skip(names: Seq<Seq<u8>>, s: Seq<u8>, i: int)
    requires
        0 <= i <= names.len(),
        forall|j: int| 0 <= j < i ==> names[j] != s,
    ensures
        first_match(names, s) == first_match_from(names, s, i),
    decreases i,
{
    if i > 0 {
        assert(names[i - 1] != s);
        lemma_first_match_skip(names, s, i - 1);
    }
}

/// The forward mapping emitted for one type: for each variant, in
/// declaration order, its terminated name.
#[derive(Debug)]
pub struct AsCStrImpl {
    /// The identifier of the type the mapping was generated for.
    pub type_ident: Vec<u8>,
    /// The name table, in declaration order.
    pub table: Vec<NameBinding>,
}

impl AsCStrImpl {
    /// The emitted forward function: the terminated name of the variant
    /// whose tag is `tag`.  Dispatch goes by tag alone; any fields the
    /// variant carries play no part.  Total over the declared variants,
    /// and allocation-free.
    pub fn as_cstr(&self, tag: usize) -> (r: &Vec<u8>)
        requires
            tag < self.table@.len(),
        ensures
            r@ == self.table@[tag as int]@.bytes,
    {
        &self.table[tag].bytes
    }
}

/// Generation of the forward mapping.  Variants may carry fields; they
/// are matched by tag only.
pub fn derive_ascstr_enum(input: &TypeDef) -> (r: Result<AsCStrImpl, DeriveError>)
    ensures
        match r {
            Ok(imp) => {
                &&& imp.type_ident@ == input.ident@
                &&& extraction(*input, false) == Extraction::Table(
                    imp.table@.map_values(|b: NameBinding| b@),
                )
            },
            Err(e) => extraction(*input, false) == Extraction::Fault(e@),
        },
{
    let table = match get_name_mapping(input, false) {
        Ok(t) => t,
        Err(e) => {
            return Err(e);
        },
    };
    Ok(AsCStrImpl { type_ident: copy_bytes(&input.ident), table })
}

/// The reverse table a name table strips to: each name without its
/// trailing terminator byte.
pub open spec fn stripped(bs: Seq<BindingView>) -> Seq<BindingView> {
    bs.map_values(|b: BindingView| BindingView { ident: b.ident, bytes: b.bytes.drop_last() })
}

/// The runtime failure of the reverse mapping: no name matched.  It
/// names the generating type, and carries no candidate-name detail.
#[derive(Debug, Clone, PartialEq, Eq)]
pub struct ParseError {
    /// The identifier of the type the mapping was generated for.
    pub type_ident: Vec<u8>,
}

/// The reverse mapping emitted for one type: for each variant, in
/// declaration order, its resolved name without the terminator.
#[derive(Debug)]
pub struct FromCStrImpl {
    /// The identifier of the type the mapping was generated for.
    pub type_ident: Vec<u8>,
    /// The name table, terminators stripped, in declaration order.
    pub table: Vec<NameBinding>,
}

impl FromCStrImpl {
    /// The emitted reverse function: the tag of the first variant, in
    /// declaration order, whose stripped name equals the input bytes; or
    /// a failure naming the generating type.  Comparison is exact,
    /// byte for byte.
    pub fn from_cstr(&self, s: &Vec<u8>) -> (r: Result<usize, ParseError>)
        ensures
            match r {
                Ok(tag) => first_match(names_of(self.table@), s@) == Some(tag as int),
                Err(e) => {
                    &&& first_match(names_of(self.table@), s@) is None
                    &&& e.type_ident@ == self.type_ident@
                },
            },
    {
        let ghost names = names_of(self.table@);
        let mut i: usize = 0;
        while i < self.table.len()
            invariant
                i <= self.table@.len(),
                names == names_of(self.table@),
                forall|j: int| 0 <= j < i ==> names[j] != s@,
            decreases self.table@.len() - i,
        {
            if bytes_eq(&self.table[i].bytes, s) {
                proof {
                    assert(names[i as int] == s@);
                    lemma_first_match_skip(names, s@, i as int);
                }
                return Ok(i);
            }
            proof {
                assert(names[i as int] != s@);
            }
            i = i + 1;
        }
        proof {
            lemma_first_match_skip(names, s@, names.len() as int);
        }
        Err(ParseError { type_ident: copy_bytes(&self.type_ident) })
    }
}

/// Generation of the reverse mapping.  Every variant must be a unit
/// variant; the table is the forward table with each terminator
/// stripped.
pub fn derive_fromcstr_enum(input: &TypeDef) -> (r: Result<FromCStrImpl, DeriveError>)
    ensures
        match r {
            Ok(imp) => {
                &&& imp.type_ident@ == input.ident@
                &&& extraction(*input, true) matches Extraction::Table(bs) && imp.table@.map_values(
                    |b: NameBinding| b@,
                ) == stripped(bs)
            },
            Err(e) => extraction(*input, true) == Extraction::Fault(e@),
        },
{
    let table = match get_name_mapping(input, true) {
        Ok(t) => t,
        Err(e) => {
            return Err(e);
        },
    };
    let ghost bs = table@.map_values(|b: NameBinding| b@);
    proof {
        lemma_table_wf(*input, true, bs);
    }
    let mut out: Vec<NameBinding> = Vec::new();
    let mut i: usize = 0;
    while i < table.len()
        invariant
            i <= table@.len(),
            bs == table@.map_values(|b: NameBinding| b@),
            out@.len() == i,
            forall|j: int| 0 <= j < bs.len() ==> (#[trigger] bs[j].bytes).len() > 0,
            forall|j: int| 0 <= j < i ==> #[trigger] out@[j]@ == (BindingView {
                ident: bs[j].ident,
                bytes: bs[j].bytes.drop_last(),
            }),
        decreases table@.len() - i,
    {
        let b = &table[i];
        proof {
            assert(bs[i as int] == table@[i as int]@);
        }
        let mut bytes = copy_bytes(&b.bytes);
        let _ = bytes.pop();
        proof {
            assert(bytes@ == bs[i as int].bytes.drop_last());
        }
        out.push(NameBinding { ident: copy_bytes(&b.ident), bytes });
        i = i + 1;
    }
    proof {
        assert(out@.map_values(|b: NameBinding| b@) =~= stripped(bs));
    }
    Ok(FromCStrImpl { type_ident: copy_bytes(&input.ident), table: out })
}

/// Round trip of one invocation: the forward name of a variant, without
/// its terminator, reverse-maps to that same variant — provided no
/// earlier variant resolved to the same name.  Nothing prevents two
/// variants from resolving to one name; the reverse mapping then yields
/// the earliest of them, so the round trip is stated away from that case.
pub proof fn lemma_round_trip(bs: Seq<BindingView>, k: int)
    requires
        0 <= k < bs.len(),
        forall|j: int| 0 <= j < k ==> bs[j].bytes.drop_last() != bs[k].bytes.drop_last(),
    ensures
        first_match(
            stripped(bs).map_values(|b: BindingView| b.bytes),
            bs[k].bytes.drop_last(),
        ) == Some(k),
{
    let names = stripped(bs).map_values(|b: BindingView| b.bytes);
    assert forall|j: int| 0 <= j < k implies names[j] != names[k] by {
        assert(names[j] == bs[j].bytes.drop_last());
        assert(names[k] == bs[k].bytes.drop_last());
    }
    lemma_first_match_skip(names, names[k], k);
    assert(first_match_from(names, names[k], k) == Some(k));
}

} // verus!
