//! Synthesis of one variant's resolved, terminated name.
//!
//! The resolved text is the override if one was supplied, else the variant's
//! identifier, verbatim.  Exactly one terminator byte is appended; a
//! terminator byte inside the text itself is rejected.

use vstd::prelude::*;

use crate::attrs::VariantMeta;
use crate::attrs::opt_bytes;
use crate::schema::copy_bytes;

verus! {

/// The terminator byte appended to every resolved name.
pub const TERMINATOR: u8 = 0;

/// Whether the byte string holds the terminator byte anywhere.
pub open spec fn has_terminator(s: Seq<u8>) -> bool {
    exists|i: int| 0 <= i < s.len() && s[i] == TERMINATOR
}

/// The text a variant resolves to: the override if present, else the
/// variant's identifier, verbatim.
pub open spec fn resolved_text(ident: Seq<u8>, alias: Option<Seq<u8>>) -> Seq<u8> {
    match alias {
        Some(s) => s,
        None => ident,
    }
}

/// One row of the name table: a variant's identifier and the terminated
/// name it resolved to.
#[derive(Debug)]
pub struct NameBinding {
    /// The variant's identifier, as its bytes.
    pub ident: Vec<u8>,
    /// The resolved name, with the terminator byte appended.
    pub bytes: Vec<u8>,
}

/// The mathematical shape of a [`NameBinding`].
pub struct BindingView {
    pub ident: Seq<u8>,
    pub bytes: Seq<u8>,
}

impl View for NameBinding {
    type V = BindingView;

    open spec fn view(&self) -> BindingView {
        BindingView { ident: self.ident@, bytes: self.bytes@ }
    }
}

impl NameBinding {
    /// A well-formed binding: exactly one terminator byte, at the end.
    pub open spec fn wf(self) -> bool {
        &&& self.bytes@.len() > 0
        &&& self.bytes@.last() == TERMINATOR
        &&& !has_terminator(self.bytes@.drop_last())
    }
}

/// Synthesizes one variant's binding from its identifier and its validated
/// configuration: the resolved text, terminated; or nothing, if the text
/// holds a terminator byte of its own.
pub fn resolve_name(ident: &Vec<u8>, meta: &VariantMeta) -> (r: Option<NameBinding>)
    ensures
        match r {
            Some(b) => {
                &&& !has_terminator(resolved_text(ident@, opt_bytes(meta.name)))
                &&& b.ident@ == ident@
                &&& b.bytes@ == resolved_text(ident@, opt_bytes(meta.name)).push(TERMINATOR)
                &&& b.wf()
            },
            None => has_terminator(resolved_text(ident@, opt_bytes(meta.name))),
        },
{
    let text: &Vec<u8> = match &meta.name {
        Some(n) => n,
        None => ident,
    };
    let ghost rt: Seq<u8> = resolved_text(ident@, opt_bytes(meta.name));
    proof {
        assert(text@ == rt);
    }
    let mut i: usize = 0;
    while i < text.len()
        invariant
            i <= text.len(),
            text@ == rt,
            rt == resolved_text(ident@, opt_bytes(meta.name)),
            forall|j: int| 0 <= j < i ==> rt[j] != TERMINATOR,
        decreases text.len() - i,
    {
        if text[i] == TERMINATOR {
            proof {
                assert(rt[i as int] == TERMINATOR);
            }
            return None;
        }
        i = i + 1;
    }
    let mut bytes = copy_bytes(text);
    bytes.push(TERMINATOR);
    let b = NameBinding { ident: copy_bytes(ident), bytes };
    proof {
        assert(b.bytes@.drop_last() =~= rt);
    }
    Some(b)
}

} // verus!
