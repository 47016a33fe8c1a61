//! The method synthesizer.
//!
//! Builds one complete trait-implementation declaration per delegate
//! directive: the method named by the directive's final path segment,
//! generic parameters taken from that segment's own argument list (falling
//! back to the original method's own generics when the segment carries
//! none), the original method's where-clause kept, the trait reference
//! reconciled against the self type, and a body that is exactly one
//! forwarding call to the original method on the self type.

use vstd::prelude::*;

use crate::model::AssocTypeDecl;
use crate::model::ArgView;
use crate::model::CallView;
use crate::model::Directive;
use crate::model::DirectiveView;
use crate::model::FnInput;
use crate::model::ForwardCall;
use crate::model::GenericArg;
use crate::model::GenericParam;
use crate::model::InputView;
use crate::model::ParamView;
use crate::model::PathSegment;
use crate::model::SegView;
use crate::model::SigView;
use crate::model::Signature;
use crate::model::SynthError;
use crate::model::SynthImpl;
use crate::model::SynthView;
use crate::model::args_view;
use crate::model::assocs_view;
use crate::model::clone_opt_params;
use crate::model::clone_opt_text;
use crate::model::clone_segment;
use crate::model::inputs_view;
use crate::model::is_self_placeholder;
use crate::model::lemma_params_view_push;
use crate::model::opt_args_view;
use crate::model::opt_params_view;
use crate::model::params_view;
use crate::model::segs_view;
use crate::model::self_placeholder;
use crate::model::texts_view;
use crate::reconcile::Reconciled;
use crate::reconcile::reconcile_args;
use crate::reconcile::spec_assoc_of;
use crate::reconcile::spec_final_args;
use crate::reconcile::spec_reconcile;

verus! {

// ------------------------------------------------------------------
// method generics
// ------------------------------------------------------------------

/// Whether a generic argument may stand in the method-generics position.
pub open spec fn param_supported(a: ArgView) -> bool {
    match a {
        ArgView::Lifetime(_) => true,
        ArgView::TypeArg(_) => true,
        _ => false,
    }
}

/// The generic parameter a supported argument converts to: a lifetime
/// argument becomes a lifetime parameter, a type argument a type parameter.
pub open spec fn param_of(a: ArgView) -> ParamView {
    match a {
        ArgView::Lifetime(t) => ParamView::Lifetime(t),
        ArgView::TypeArg(t) => ParamView::TypeParam(t),
        _ => ParamView::TypeParam(Seq::empty()),
    }
}

/// The failure an unsupported argument at index `i` is rejected with.
pub open spec fn param_err(a: ArgView, i: int) -> SynthError {
    match a {
        ArgView::Binding(_, _) => SynthError::BindingInMethodGenerics { index: i as usize },
        ArgView::Constraint(_) => SynthError::ConstraintInMethodGenerics { index: i as usize },
        ArgView::ConstArg(_) => SynthError::ConstInMethodGenerics { index: i as usize },
        _ => SynthError::MissingTraitSegment,
    }
}

/// Converts the arguments at indices `[i, args.len())` to generic
/// parameters, in declared order; the first unsupported argument wins.
pub open spec fn spec_params_from(args: Seq<ArgView>, i: int) -> Result<Seq<ParamView>, SynthError>
    decreases args.len() - i,
{
    if i < 0 || i >= args.len() {
        Ok(Seq::empty())
    } else if !param_supported(args[i]) {
        Err(param_err(args[i], i))
    } else {
        match spec_params_from(args, i + 1) {
            Ok(rest) => Ok(seq![param_of(args[i])] + rest),
            Err(e) => Err(e),
        }
    }
}

pub open spec fn params_result_view(r: Result<Vec<GenericParam>, SynthError>) -> Result<
    Seq<ParamView>,
    SynthError,
> {
    match r {
        Ok(ps) => Ok(params_view(ps@)),
        Err(e) => Err(e),
    }
}

/// Converts a method-generics argument list to a generic parameter list,
/// rejecting bindings, constraints and constant arguments.
pub fn convert_method_generics(args: &Vec<GenericArg>) -> (r: Result<
    Vec<GenericParam>,
    SynthError,
>)
    ensures
        params_result_view(r) == spec_params_from(args_view(args@), 0),
{
    let ghost av = args_view(args@);
    let mut params: Vec<GenericParam> = Vec::new();
    let mut i: usize = 0;
    proof {
        assert(params_view(params@) + Seq::<ParamView>::empty() =~= params_view(params@));
    }
    while i < args.len()
        invariant
            i <= args.len(),
            av == args_view(args@),
            spec_params_from(av, 0) == (match spec_params_from(av, i as int) {
                Ok(rest) => Ok::<Seq<ParamView>, SynthError>(params_view(params@) + rest),
                Err(e) => Err::<Seq<ParamView>, SynthError>(e),
            }),
        decreases args.len() - i,
    {
        proof {
            assert(av[i as int] == args@[i as int]@);
        }
        let p: GenericParam = match &args[i] {
            GenericArg::Lifetime { text } => GenericParam::Lifetime { text: text.clone() },
            GenericArg::TypeArg { text } => GenericParam::TypeParam { text: text.clone() },
            GenericArg::Binding { .. } => {
                return Err(SynthError::BindingInMethodGenerics { index: i });
            },
            GenericArg::Constraint { .. } => {
                return Err(SynthError::ConstraintInMethodGenerics { index: i });
            },
            GenericArg::ConstArg { .. } => {
                return Err(SynthError::ConstInMethodGenerics { index: i });
            },
        };
        proof {
            lemma_params_view_push(params@, p);
            let rest_old = spec_params_from(av, i as int);
            let rest_new = spec_params_from(av, i as int + 1);
            if rest_new is Ok {
                assert(params_view(params@) + rest_old.unwrap() =~= params_view(params@.push(p))
                    + rest_new.unwrap());
            }
        }
        params.push(p);
        i = i + 1;
    }
    proof {
        assert(params_view(params@) + Seq::<ParamView>::empty() =~= params_view(params@));
    }
    Ok(params)
}

// ------------------------------------------------------------------
// self substitution and forwarding
// ------------------------------------------------------------------

/// A type text with the self-type placeholder resolved to the self type.
pub open spec fn subst_self(t: Seq<char>, self_ty: Seq<char>) -> Seq<char> {
    if t == self_placeholder() {
        self_ty
    } else {
        t
    }
}

/// An input with its type's self-type placeholder resolved; the receiver is
/// left as written.
pub open spec fn subst_input(iv: InputView, self_ty: Seq<char>) -> InputView {
    match iv {
        InputView::Receiver(t) => InputView::Receiver(t),
        InputView::Typed(pat, ty) => InputView::Typed(pat, subst_self(ty, self_ty)),
    }
}

/// The argument expression an input is forwarded as: the receiver as
/// written, any other input by its binding pattern.
pub open spec fn forward_arg(iv: InputView) -> Seq<char> {
    match iv {
        InputView::Receiver(t) => t,
        InputView::Typed(pat, _) => pat,
    }
}

// ------------------------------------------------------------------
// the synthesizer
// ------------------------------------------------------------------

pub open spec fn opt_ref_text_view(o: Option<&String>) -> Option<Seq<char>> {
    match o {
        Some(s) => Some(s@),
        None => None,
    }
}

/// What synthesizing one implementation yields, stated over views.
pub open spec fn spec_synthesize(
    self_ty: Option<Seq<char>>,
    d: DirectiveView,
    s: SigView,
) -> Result<SynthView, SynthError> {
    match self_ty {
        None => Err(SynthError::MissingSelfType),
        Some(st) => {
            let target = match d.target {
                Some(t) => t,
                None => st,
            };
            if d.path.len() == 0 {
                Err(SynthError::MissingTraitSegment)
            } else {
                let fn_seg = d.path.last();
                let gens = match fn_seg.args {
                    None => Ok(s.generics),
                    Some(a) => match spec_params_from(a, 0) {
                        Ok(ps) => Ok(Some(ps)),
                        Err(e) => Err::<Option<Seq<ParamView>>, SynthError>(e),
                    },
                };
                match gens {
                    Err(e) => Err(e),
                    Ok(g) => {
                        if d.path.len() == 1 {
                            Err(SynthError::MissingTraitSegment)
                        } else {
                            let tseg = d.path[d.path.len() - 2];
                            let new_seg = SegView {
                                ident: tseg.ident,
                                args: spec_final_args(tseg.args, st),
                            };
                            Ok(
                                SynthView {
                                    impl_generics: d.impl_generics,
                                    trait_path: d.path.subrange(0, d.path.len() - 2).push(new_seg),
                                    target,
                                    where_clause: d.where_clause,
                                    assoc_types: spec_assoc_of(tseg.args, st),
                                    sig: SigView {
                                        name: fn_seg.ident,
                                        generics: g,
                                        inputs: s.inputs.map_values(
                                            |iv: InputView| subst_input(iv, st),
                                        ),
                                        output: s.output,
                                        where_clause: s.where_clause,
                                    },
                                    call: CallView {
                                        callee: st,
                                        method: s.name,
                                        args: s.inputs.map_values(|iv: InputView| forward_arg(iv)),
                                    },
                                },
                            )
                        }
                    },
                }
            }
        },
    }
}

pub open spec fn synth_result_view(r: Result<SynthImpl, SynthError>) -> Result<
    SynthView,
    SynthError,
> {
    match r {
        Ok(s) => Ok(s@),
        Err(e) => Err(e),
    }
}

/// Builds the one trait implementation a directive asks for, forwarding to
/// the method `sig` describes on the self type.
pub fn synthesize(self_ty: Option<&String>, d: &Directive, sig: &Signature) -> (r: Result<
    SynthImpl,
    SynthError,
>)
    ensures
        synth_result_view(r) == spec_synthesize(opt_ref_text_view(self_ty), d@, sig@),
{
    let st: &String = match self_ty {
        Some(s) => s,
        None => {
            return Err(SynthError::MissingSelfType);
        },
    };
    let target: String = match &d.target {
        Some(t) => t.clone(),
        None => st.clone(),
    };
    if d.path.len() == 0 {
        return Err(SynthError::MissingTraitSegment);
    }
    let fn_seg: &PathSegment = &d.path[d.path.len() - 1];
    proof {
        assert(d@.path.last() == fn_seg@);
    }
    let generics: Option<Vec<GenericParam>> = match &fn_seg.args {
        None => clone_opt_params(&sig.generics),
        Some(a) => match convert_method_generics(a) {
            Ok(ps) => Some(ps),
            Err(e) => {
                return Err(e);
            },
        },
    };
    if d.path.len() == 1 {
        return Err(SynthError::MissingTraitSegment);
    }
    let trait_seg: &PathSegment = &d.path[d.path.len() - 2];
    proof {
        assert(d@.path[d@.path.len() - 2] == trait_seg@);
    }
    let (final_args, assoc_types): (Option<Vec<GenericArg>>, Vec<AssocTypeDecl>) = match &trait_seg
        .args {
        None => (None, Vec::new()),
        Some(a) => {
            let Reconciled { kept, assoc, saw_self } = reconcile_args(a, st);
            let fa: Option<Vec<GenericArg>> = if kept.len() == 0 {
                if saw_self {
                    let mut v: Vec<GenericArg> = Vec::new();
                    v.push(GenericArg::TypeArg { text: st.clone() });
                    proof {
                        assert(args_view(v@) =~~= seq![ArgView::TypeArg(st@)]);
                    }
                    Some(v)
                } else {
                    None
                }
            } else {
                Some(kept)
            };
            (fa, assoc)
        },
    };
    proof {
        assert(opt_args_view(final_args) == spec_final_args(trait_seg@.args, st@));
        assert(assocs_view(assoc_types@) =~~= spec_assoc_of(trait_seg@.args, st@));
    }
    let mut trait_path: Vec<PathSegment> = Vec::new();
    let mut i: usize = 0;
    while i < d.path.len() - 2
        invariant
            i <= d.path.len() - 2,
            d.path.len() >= 2,
            trait_path@.len() == i as int,
            forall|j: int| 0 <= j < i as int ==> #[trigger] trait_path@[j]@ == d.path@[j]@,
        decreases d.path.len() - 2 - i,
    {
        trait_path.push(clone_segment(&d.path[i]));
        i = i + 1;
    }
    trait_path.push(PathSegment { ident: trait_seg.ident.clone(), args: final_args });
    proof {
        assert(segs_view(trait_path@) =~~= d@.path.subrange(0, d@.path.len() - 2).push(
            SegView { ident: trait_seg@.ident, args: spec_final_args(trait_seg@.args, st@) },
        ));
    }
    let mut new_inputs: Vec<FnInput> = Vec::new();
    let mut call_args: Vec<String> = Vec::new();
    let mut j: usize = 0;
    while j < sig.inputs.len()
        invariant
            j <= sig.inputs.len(),
            new_inputs@.len() == j as int,
            call_args@.len() == j as int,
            forall|k: int| 0 <= k < j as int ==> #[trigger] new_inputs@[k]@ == subst_input(
                sig.inputs@[k]@,
                st@,
            ),
            forall|k: int| 0 <= k < j as int ==> #[trigger] call_args@[k]@ == forward_arg(
                sig.inputs@[k]@,
            ),
        decreases sig.inputs.len() - j,
    {
        match &sig.inputs[j] {
            FnInput::Receiver { text } => {
                new_inputs.push(FnInput::Receiver { text: text.clone() });
                call_args.push(text.clone());
            },
            FnInput::Typed { pat, ty } => {
                let nty: String = if is_self_placeholder(ty) {
                    st.clone()
                } else {
                    ty.clone()
                };
                new_inputs.push(FnInput::Typed { pat: pat.clone(), ty: nty });
                call_args.push(pat.clone());
            },
        }
        j = j + 1;
    }
    proof {
        assert(inputs_view(new_inputs@) =~~= sig@.inputs.map_values(
            |iv: InputView| subst_input(iv, st@),
        ));
        assert(texts_view(call_args@) =~~= sig@.inputs.map_values(|iv: InputView| forward_arg(iv)));
    }
    let out = SynthImpl {
        impl_generics: clone_opt_text(&d.impl_generics),
        trait_path,
        target,
        where_clause: clone_opt_text(&d.where_clause),
        assoc_types,
        sig: Signature {
            name: fn_seg.ident.clone(),
            generics,
            inputs: new_inputs,
            output: clone_opt_text(&sig.output),
            where_clause: clone_opt_text(&sig.where_clause),
        },
        call: ForwardCall { callee: st.clone(), method: sig.name.clone(), args: call_args },
    };
    proof {
        let expected = spec_synthesize(opt_ref_text_view(self_ty), d@, sig@);
        assert(expected is Ok);
        assert(out@ =~~= expected.unwrap());
    }
    Ok(out)
}

} // verus!
