//! The laws the rewriter obeys, stated and proved over the specification
//! functions that the executable functions' contracts are written against.

use vstd::prelude::*;

use crate::model::ArgView;
use crate::model::AssocView;
use crate::model::AttrView;
use crate::model::BlockView;
use crate::model::DirectiveView;
use crate::model::InputView;
use crate::model::ItemView;
use crate::model::RewriteError;
use crate::model::RewriteOutputView;
use crate::model::SegView;
use crate::model::SigView;
use crate::model::SynthError;
use crate::model::SynthView;
use crate::reconcile::recon_from;
use crate::reconcile::recon_step;
use crate::reconcile::spec_final_args;
use crate::rewrite::LinkView;
use crate::rewrite::delegates_from;
use crate::rewrite::scan_from;
use crate::rewrite::spec_rewrite_block;
use crate::rewrite::spec_strip_attrs;
use crate::rewrite::spec_strip_item;
use crate::rewrite::strip_from;
use crate::rewrite::synth_from;
use crate::synthesize::forward_arg;
use crate::synthesize::spec_synthesize;
use crate::synthesize::subst_input;
use crate::synthesize::subst_self;

verus! {

// ------------------------------------------------------------------
// forwarding correctness
// ------------------------------------------------------------------

/// Forwarding correctness: the synthesized method's body is exactly one
/// call of the original method on the self type, passed the receiver as
/// written followed by every other input's binding pattern, in declared
/// order — argument count, order and values are never altered.
pub proof fn lemma_forwarding_correctness(
    self_ty: Seq<char>,
    d: DirectiveView,
    s: SigView,
    out: SynthView,
)
    requires
        spec_synthesize(Some(self_ty), d, s) == Ok::<SynthView, SynthError>(out),
    ensures
        out.call.callee == self_ty,
        out.call.method == s.name,
        out.call.args.len() == s.inputs.len(),
        forall|i: int|
            0 <= i < s.inputs.len() ==> #[trigger] out.call.args[i] == forward_arg(s.inputs[i]),
{
}

// ------------------------------------------------------------------
// directive stripping
// ------------------------------------------------------------------

/// The predicate a stripped metadata list satisfies: keep everything that
/// is not a delegate directive.
pub open spec fn keep_attr() -> spec_fn(AttrView) -> bool {
    |a: AttrView| !(a is Delegate)
}

/// No delegate directive survives stripping.
pub proof fn lemma_strip_attrs_clean(attrs: Seq<AttrView>, j: int)
    ensures
        forall|t: int|
            0 <= t < strip_from(attrs, j).len() ==> !((#[trigger] strip_from(attrs, j)[t])
                is Delegate),
    decreases attrs.len() - j,
{
    if 0 <= j < attrs.len() {
        lemma_strip_attrs_clean(attrs, j + 1);
    }
}

proof fn lemma_strip_push(attrs: Seq<AttrView>, x: AttrView, j: int)
    requires
        0 <= j <= attrs.len(),
    ensures
        strip_from(attrs.push(x), j) == strip_from(attrs, j) + (if x is Delegate {
            Seq::<AttrView>::empty()
        } else {
            seq![x]
        }),
    decreases attrs.len() - j,
{
    let part = if x is Delegate {
        Seq::<AttrView>::empty()
    } else {
        seq![x]
    };
    if j == attrs.len() {
        assert(strip_from(attrs, j) =~= Seq::<AttrView>::empty());
        assert(strip_from(attrs.push(x), j + 1) =~= Seq::<AttrView>::empty());
        assert(attrs.push(x)[j] == x);
        assert(strip_from(attrs.push(x), j) =~= strip_from(attrs, j) + part);
    } else {
        lemma_strip_push(attrs, x, j + 1);
        assert(attrs.push(x)[j] == attrs[j]);
        assert(strip_from(attrs.push(x), j) =~= strip_from(attrs, j) + part);
    }
}

/// Everything that is not a delegate directive is preserved unchanged and
/// in its original relative order: stripping is exactly filtering.
pub proof fn lemma_strip_attrs_keeps_others(attrs: Seq<AttrView>)
    ensures
        spec_strip_attrs(attrs) == attrs.filter(keep_attr()),
    decreases attrs.len(),
{
    reveal(Seq::filter);
    if attrs.len() == 0 {
        assert(spec_strip_attrs(attrs) =~= attrs.filter(keep_attr()));
    } else {
        let prefix = attrs.drop_last();
        let x = attrs.last();
        lemma_strip_attrs_keeps_others(prefix);
        lemma_strip_push(prefix, x, 0);
        assert(prefix.push(x) =~= attrs);
        if x is Delegate {
            assert(spec_strip_attrs(attrs) =~= attrs.filter(keep_attr()));
        } else {
            assert(spec_strip_attrs(attrs) =~= attrs.filter(keep_attr()));
        }
    }
}

/// Directive stripping: a successful rewrite emits the owning block with
/// the same self type and the same items in the same order, where every
/// method keeps exactly its non-directive metadata and no method carries a
/// delegate directive any more.
pub proof fn lemma_directive_stripping(b: BlockView, out: RewriteOutputView)
    requires
        spec_rewrite_block(b) == Ok::<RewriteOutputView, RewriteError>(out),
    ensures
        out.block.self_ty == b.self_ty,
        out.block.items.len() == b.items.len(),
        forall|i: int|
            0 <= i < b.items.len() ==> #[trigger] out.block.items[i] == spec_strip_item(b.items[i]),
{
}

// ------------------------------------------------------------------
// self-substitution idempotence
// ------------------------------------------------------------------

/// A trait generic argument with the self-type placeholder written out as
/// the concrete self type.
pub open spec fn subst_trait_arg(a: ArgView, self_ty: Seq<char>) -> ArgView {
    match a {
        ArgView::TypeArg(t) => ArgView::TypeArg(subst_self(t, self_ty)),
        _ => a,
    }
}

/// A trait segment with every type argument's placeholder written out.
pub open spec fn subst_seg_args(seg: SegView, self_ty: Seq<char>) -> SegView {
    SegView {
        ident: seg.ident,
        args: match seg.args {
            Some(a) => Some(a.map_values(|x: ArgView| subst_trait_arg(x, self_ty))),
            None => None,
        },
    }
}

/// A directive with the trait segment's placeholders written out.
pub open spec fn subst_directive(d: DirectiveView, self_ty: Seq<char>) -> DirectiveView {
    if d.path.len() < 2 {
        d
    } else {
        DirectiveView {
            impl_generics: d.impl_generics,
            path: d.path.update(
                d.path.len() - 2,
                subst_seg_args(d.path[d.path.len() - 2], self_ty),
            ),
            target: d.target,
            where_clause: d.where_clause,
        }
    }
}

/// A signature with every parameter type's placeholder written out.
pub open spec fn subst_sig(s: SigView, self_ty: Seq<char>) -> SigView {
    SigView {
        name: s.name,
        generics: s.generics,
        inputs: s.inputs.map_values(|iv: InputView| subst_input(iv, self_ty)),
        output: s.output,
        where_clause: s.where_clause,
    }
}

proof fn lemma_recon_subst(args: Seq<ArgView>, i: int, self_ty: Seq<char>)
    ensures
        recon_from(args.map_values(|x: ArgView| subst_trait_arg(x, self_ty)), i, self_ty)
            == recon_from(args, i, self_ty),
    decreases args.len() - i,
{
    let mapped = args.map_values(|x: ArgView| subst_trait_arg(x, self_ty));
    assert(mapped.len() == args.len());
    if i < 0 || i >= args.len() {
    } else {
        lemma_recon_subst(args, i + 1, self_ty);
        assert(mapped[i] == subst_trait_arg(args[i], self_ty));
        let st_rest = recon_from(args, i + 1, self_ty);
        assert(recon_step(st_rest, mapped[i], self_ty) =~~= recon_step(
            st_rest,
            args[i],
            self_ty,
        ));
    }
}

/// Self-substitution idempotence: writing the self-type placeholder where a
/// concrete type is expected — in a parameter type or in a trait generic
/// argument — yields exactly the output of writing the concrete self type
/// there directly.
pub proof fn lemma_self_substitution(self_ty: Seq<char>, d: DirectiveView, s: SigView)
    ensures
        spec_synthesize(Some(self_ty), subst_directive(d, self_ty), subst_sig(s, self_ty))
            == spec_synthesize(Some(self_ty), d, s),
{
    let d2 = subst_directive(d, self_ty);
    let s2 = subst_sig(s, self_ty);
    assert(s2.inputs.map_values(|iv: InputView| subst_input(iv, self_ty)) =~= s.inputs.map_values(
        |iv: InputView| subst_input(iv, self_ty),
    ));
    assert(s2.inputs.map_values(|iv: InputView| forward_arg(iv)) =~= s.inputs.map_values(
        |iv: InputView| forward_arg(iv),
    ));
    if d.path.len() < 2 {
    } else {
        let l = d.path.len();
        assert(d2.path.len() == l);
        assert(d2.path.last() == d.path.last());
        let tseg = d.path[l - 2];
        let tseg2 = d2.path[l - 2];
        assert(tseg2 == subst_seg_args(tseg, self_ty));
        assert(d2.path.subrange(0, l - 2) =~= d.path.subrange(0, l - 2));
        match tseg.args {
            None => {
            },
            Some(a) => {
                lemma_recon_subst(a, 0, self_ty);
                assert(spec_final_args(tseg2.args, self_ty) == spec_final_args(
                    tseg.args,
                    self_ty,
                ));
            },
        }
        let r1 = spec_synthesize(Some(self_ty), d2, s2);
        let r2 = spec_synthesize(Some(self_ty), d, s);
        if r1 is Ok && r2 is Ok {
            assert(r1.unwrap() =~~= r2.unwrap());
        }
    }
}

// ------------------------------------------------------------------
// one implementation per directive
// ------------------------------------------------------------------

/// How many delegate directives the metadata at `[j, attrs.len())` carries.
pub open spec fn delegate_count(attrs: Seq<AttrView>, j: int) -> int
    decreases attrs.len() - j,
{
    if j < 0 || j >= attrs.len() {
        0
    } else {
        (if attrs[j] is Delegate {
            1int
        } else {
            0int
        }) + delegate_count(attrs, j + 1)
    }
}

/// A method carrying N well-formed directives contributes exactly N links,
/// each pairing that method's own signature with one directive.
pub proof fn lemma_links_per_method(
    attrs: Seq<AttrView>,
    j: int,
    item: int,
    sig: SigView,
    ds: Seq<LinkView>,
)
    requires
        delegates_from(attrs, j, item, sig) == Ok::<Seq<LinkView>, RewriteError>(ds),
    ensures
        ds.len() == delegate_count(attrs, j),
        forall|t: int| 0 <= t < ds.len() ==> (#[trigger] ds[t]).sig == sig && ds[t].item == item,
    decreases attrs.len() - j,
{
    if j < 0 || j >= attrs.len() {
    } else {
        match attrs[j] {
            AttrView::Delegate(None) => {
            },
            AttrView::Delegate(Some(d)) => {
                let rest = delegates_from(attrs, j + 1, item, sig);
                lemma_links_per_method(attrs, j + 1, item, sig, rest.unwrap());
            },
            AttrView::Other(_) => {
                lemma_links_per_method(attrs, j + 1, item, sig, ds);
            },
        }
    }
}

proof fn lemma_synth_from_ok(
    self_ty: Seq<char>,
    links: Seq<LinkView>,
    k: int,
    r: Seq<SynthView>,
)
    requires
        0 <= k <= links.len(),
        synth_from(self_ty, links, k) == Ok::<Seq<SynthView>, RewriteError>(r),
    ensures
        r.len() == links.len() - k,
        forall|t: int|
            k <= t < links.len() ==> spec_synthesize(
                Some(self_ty),
                (#[trigger] links[t]).directive,
                links[t].sig,
            ) == Ok::<SynthView, SynthError>(r[t - k]),
    decreases links.len() - k,
{
    if k < links.len() {
        let first = spec_synthesize(Some(self_ty), links[k].directive, links[k].sig);
        let rest = synth_from(self_ty, links, k + 1);
        lemma_synth_from_ok(self_ty, links, k + 1, rest.unwrap());
        assert(r == seq![first.unwrap()] + rest.unwrap());
        assert(forall|t: int|
            k + 1 <= t < links.len() ==> #[trigger] r[t - k] == rest.unwrap()[t - (k + 1)]);
    }
}

/// One implementation per directive: a successful rewrite yields exactly
/// one synthesized implementation per collected directive, in directive
/// collection order (method order, then attr order), each synthesized
/// independently from its own directive and its own method's signature.
pub proof fn lemma_one_impl_per_directive(
    b: BlockView,
    out: RewriteOutputView,
    links: Seq<LinkView>,
)
    requires
        spec_rewrite_block(b) == Ok::<RewriteOutputView, RewriteError>(out),
        scan_from(b.items, 0) == Ok::<Seq<LinkView>, RewriteError>(links),
    ensures
        out.impls.len() == links.len(),
        forall|k: int|
            0 <= k < links.len() ==> spec_synthesize(
                Some(b.self_ty),
                (#[trigger] links[k]).directive,
                links[k].sig,
            ) == Ok::<SynthView, SynthError>(out.impls[k]),
{
    lemma_synth_from_ok(b.self_ty, links, 0, out.impls);
}

// ------------------------------------------------------------------
// default target
// ------------------------------------------------------------------

/// Default target: a directive without a `for` clause implements the trait
/// for the self type; with one, for the given type — and the forwarding
/// call still targets the self type's method either way.
pub proof fn lemma_default_target(self_ty: Seq<char>, d: DirectiveView, s: SigView, out: SynthView)
    requires
        spec_synthesize(Some(self_ty), d, s) == Ok::<SynthView, SynthError>(out),
    ensures
        d.target is None ==> out.target == self_ty,
        d.target matches Some(t) ==> out.target == t,
        out.call.callee == self_ty,
{
}

// ------------------------------------------------------------------
// associated-type extraction
// ------------------------------------------------------------------

/// The associated-type declarations of one argument list, last declared
/// first — the order the reverse reconciliation walk extracts them in.
pub open spec fn bindings_last_first(args: Seq<ArgView>) -> Seq<AssocView>
    decreases args.len(),
{
    if args.len() == 0 {
        Seq::empty()
    } else {
        let rest = bindings_last_first(args.drop_last());
        match args.last() {
            ArgView::Binding(n, t) => seq![AssocView { name: n, ty: t }] + rest,
            _ => rest,
        }
    }
}

pub open spec fn binding_part(a: ArgView) -> Seq<AssocView> {
    match a {
        ArgView::Binding(n, t) => seq![AssocView { name: n, ty: t }],
        _ => Seq::empty(),
    }
}

proof fn lemma_blf_prepend(x: ArgView, s: Seq<ArgView>)
    ensures
        bindings_last_first(seq![x] + s) == bindings_last_first(s) + binding_part(x),
    decreases s.len(),
{
    let whole = seq![x] + s;
    if s.len() == 0 {
        assert(whole.len() == 1);
        assert(whole.last() == x);
        assert(whole.drop_last() =~= Seq::<ArgView>::empty());
        assert(bindings_last_first(Seq::<ArgView>::empty()) =~= Seq::<AssocView>::empty());
        assert(bindings_last_first(s) =~= Seq::<AssocView>::empty());
        assert(bindings_last_first(whole) =~= bindings_last_first(s) + binding_part(x));
    } else {
        assert(whole.last() == s.last());
        assert(whole.drop_last() =~= seq![x] + s.drop_last());
        lemma_blf_prepend(x, s.drop_last());
        assert(bindings_last_first(whole) =~= bindings_last_first(s) + binding_part(x));
    }
}

proof fn lemma_recon_assoc(args: Seq<ArgView>, i: int, self_ty: Seq<char>)
    requires
        0 <= i <= args.len(),
    ensures
        recon_from(args, i, self_ty).assoc == bindings_last_first(
            args.subrange(i, args.len() as int),
        ),
    decreases args.len() - i,
{
    if i == args.len() {
        assert(args.subrange(i, args.len() as int) =~= Seq::<ArgView>::empty());
    } else {
        lemma_recon_assoc(args, i + 1, self_ty);
        let tail = args.subrange(i + 1, args.len() as int);
        assert(args.subrange(i, args.len() as int) =~= seq![args[i]] + tail);
        lemma_blf_prepend(args[i], tail);
        assert(recon_from(args, i, self_ty).assoc =~= bindings_last_first(
            args.subrange(i, args.len() as int),
        ));
    }
}

/// Whether no element of the sequence is a named binding.
pub open spec fn no_bindings_in(a: Seq<ArgView>) -> bool {
    forall|t: int| 0 <= t < a.len() ==> !((#[trigger] a[t]) is Binding)
}

/// No binding survives among a reconciled trait reference's arguments.
pub open spec fn no_bindings(o: Option<Seq<ArgView>>) -> bool {
    match o {
        None => true,
        Some(a) => no_bindings_in(a),
    }
}

proof fn lemma_recon_kept_clean(args: Seq<ArgView>, i: int, self_ty: Seq<char>)
    ensures
        no_bindings_in(recon_from(args, i, self_ty).kept),
    decreases args.len() - i,
{
    if 0 <= i < args.len() {
        lemma_recon_kept_clean(args, i + 1, self_ty);
    }
}

/// Associated-type extraction: every named-binding argument of the trait
/// reference becomes one standalone associated-type declaration (last
/// declared first, matching the reverse reconciliation walk), and no
/// binding remains in the trait's final argument list.
pub proof fn lemma_assoc_type_extraction(
    self_ty: Seq<char>,
    d: DirectiveView,
    s: SigView,
    out: SynthView,
)
    requires
        spec_synthesize(Some(self_ty), d, s) == Ok::<SynthView, SynthError>(out),
    ensures
        d.path.len() >= 2,
        out.assoc_types == (match d.path[d.path.len() - 2].args {
            Some(a) => bindings_last_first(a),
            None => Seq::<AssocView>::empty(),
        }),
        no_bindings(out.trait_path.last().args),
{
    let tseg = d.path[d.path.len() - 2];
    let prefix = d.path.subrange(0, d.path.len() - 2);
    let new_seg = SegView { ident: tseg.ident, args: spec_final_args(tseg.args, self_ty) };
    assert(out.trait_path == prefix.push(new_seg));
    assert(out.trait_path.len() == prefix.len() + 1);
    assert(out.trait_path.last() == new_seg);
    match tseg.args {
        None => {
        },
        Some(a) => {
            lemma_recon_assoc(a, 0, self_ty);
            assert(a.subrange(0, a.len() as int) =~= a);
            lemma_recon_kept_clean(a, 0, self_ty);
        },
    }
}

} // verus!
