//! The trait-reference reconciler.
//!
//! A directive may reference a generic trait, `Trait<Args>`.  The
//! reconciler walks that argument list in reverse declaration order and
//! classifies every argument: a type argument written as the self-type
//! placeholder (or textually equal to the self type) is resolved to the
//! self type and remembered; an associated-type equality is extracted into
//! a standalone declaration; a lifetime or any other type argument is kept
//! as a genuine generic argument; everything else is dropped.  Because the
//! walk runs last-declared-first, the kept arguments and the extracted
//! declarations both come out last-declared-first.

use vstd::prelude::*;

use crate::model::AssocTypeDecl;
use crate::model::AssocView;
use crate::model::ArgView;
use crate::model::GenericArg;
use crate::model::args_view;
use crate::model::assocs_view;
use crate::model::clone_arg;
use crate::model::is_self_placeholder;
use crate::model::lemma_args_view_push;
use crate::model::lemma_assocs_view_push;
use crate::model::self_placeholder;
use crate::model::text_eq;

verus! {

/// The reconciler's running state: the genuine generic arguments kept so
/// far, the associated-type declarations extracted so far, and whether a
/// self-type substitution was seen.
#[verifier::ext_equal]
pub struct ReconState {
    pub kept: Seq<ArgView>,
    pub assoc: Seq<AssocView>,
    pub saw_self: bool,
}

pub open spec fn recon_init() -> ReconState {
    ReconState { kept: Seq::empty(), assoc: Seq::empty(), saw_self: false }
}

/// How one generic argument of the trait reference is classified.
pub open spec fn recon_step(st: ReconState, a: ArgView, self_ty: Seq<char>) -> ReconState {
    match a {
        ArgView::TypeArg(t) => if t == self_placeholder() || t == self_ty {
            ReconState { kept: st.kept, assoc: st.assoc, saw_self: true }
        } else {
            ReconState { kept: st.kept.push(a), assoc: st.assoc, saw_self: st.saw_self }
        },
        ArgView::Binding(name, ty) => ReconState {
            kept: st.kept,
            assoc: st.assoc.push(AssocView { name, ty }),
            saw_self: st.saw_self,
        },
        ArgView::Lifetime(_) => ReconState {
            kept: st.kept.push(a),
            assoc: st.assoc,
            saw_self: st.saw_self,
        },
        ArgView::Constraint(_) => st,
        ArgView::ConstArg(_) => st,
    }
}

/// The state after processing the arguments at indices `[i, args.len())`,
/// last declared first.
pub open spec fn recon_from(args: Seq<ArgView>, i: int, self_ty: Seq<char>) -> ReconState
    decreases args.len() - i,
{
    if i < 0 || i >= args.len() {
        recon_init()
    } else {
        recon_step(recon_from(args, i + 1, self_ty), args[i], self_ty)
    }
}

/// The finished reconciliation of one whole argument list.
pub open spec fn spec_reconcile(args: Seq<ArgView>, self_ty: Seq<char>) -> ReconState {
    recon_from(args, 0, self_ty)
}

/// The trait reference's final argument list: the kept arguments; when none
/// remain, the single resolved self type if one was found, else no list at
/// all.
pub open spec fn spec_final_args(args: Option<Seq<ArgView>>, self_ty: Seq<char>) -> Option<
    Seq<ArgView>,
> {
    match args {
        None => None,
        Some(a) => {
            let st = spec_reconcile(a, self_ty);
            if st.kept.len() == 0 {
                if st.saw_self {
                    Some(seq![ArgView::TypeArg(self_ty)])
                } else {
                    None
                }
            } else {
                Some(st.kept)
            }
        },
    }
}

/// The associated-type declarations extracted from one argument list.
pub open spec fn spec_assoc_of(args: Option<Seq<ArgView>>, self_ty: Seq<char>) -> Seq<AssocView> {
    match args {
        None => Seq::empty(),
        Some(a) => spec_reconcile(a, self_ty).assoc,
    }
}

/// The outcome of reconciling one trait argument list.
pub struct Reconciled {
    pub kept: Vec<GenericArg>,
    pub assoc: Vec<AssocTypeDecl>,
    pub saw_self: bool,
}

/// Walks one trait argument list in reverse declaration order and
/// classifies every argument, as [`spec_reconcile`] states.
pub fn reconcile_args(args: &Vec<GenericArg>, self_ty: &String) -> (r: Reconciled)
    ensures
        args_view(r.kept@) == spec_reconcile(args_view(args@), self_ty@).kept,
        assocs_view(r.assoc@) == spec_reconcile(args_view(args@), self_ty@).assoc,
        r.saw_self == spec_reconcile(args_view(args@), self_ty@).saw_self,
{
    let mut kept: Vec<GenericArg> = Vec::new();
    let mut assoc: Vec<AssocTypeDecl> = Vec::new();
    let mut saw_self: bool = false;
    let mut i: usize = args.len();
    proof {
        assert(args_view(kept@) =~~= recon_from(args_view(args@), i as int, self_ty@).kept);
        assert(assocs_view(assoc@) =~~= recon_from(args_view(args@), i as int, self_ty@).assoc);
    }
    while i > 0
        invariant
            i <= args.len(),
            args_view(kept@) == recon_from(args_view(args@), i as int, self_ty@).kept,
            assocs_view(assoc@) == recon_from(args_view(args@), i as int, self_ty@).assoc,
            saw_self == recon_from(args_view(args@), i as int, self_ty@).saw_self,
        decreases i,
    {
        i = i - 1;
        proof {
            assert(args_view(args@)[i as int] == args@[i as int]@);
            assert(recon_from(args_view(args@), i as int, self_ty@) == recon_step(
                recon_from(args_view(args@), i as int + 1, self_ty@),
                args_view(args@)[i as int],
                self_ty@,
            ));
        }
        match &args[i] {
            GenericArg::TypeArg { text } => {
                if is_self_placeholder(text) || text_eq(text, self_ty) {
                    saw_self = true;
                } else {
                    let c = clone_arg(&args[i]);
                    proof {
                        lemma_args_view_push(kept@, c);
                    }
                    kept.push(c);
                }
            },
            GenericArg::Binding { name, ty } => {
                let a = AssocTypeDecl { name: name.clone(), ty: ty.clone() };
                proof {
                    lemma_assocs_view_push(assoc@, a);
                }
                assoc.push(a);
            },
            GenericArg::Lifetime { .. } => {
                let c = clone_arg(&args[i]);
                proof {
                    lemma_args_view_push(kept@, c);
                }
                kept.push(c);
            },
            GenericArg::Constraint { .. } => {},
            GenericArg::ConstArg { .. } => {},
        }
    }
    Reconciled { kept, assoc, saw_self }
}

} // verus!
