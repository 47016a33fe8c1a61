//! The owning-block scanner and the top-level dispatch.
//!
//! The scanner walks every method of an owning block, separates delegate
//! directives from all other metadata (which is preserved verbatim, in
//! order), and pairs each directive with its method's signature.  The
//! dispatch then synthesizes one trait implementation per directive, in
//! method order then directive order, and emits the stripped block followed
//! by the implementations.  The first failure anywhere aborts the whole
//! rewrite: no partial output is ever produced.

use vstd::prelude::*;

use crate::model::Attr;
use crate::model::AttrView;
use crate::model::BlockView;
use crate::model::Directive;
use crate::model::DirectiveView;
use crate::model::ImplItem;
use crate::model::InputItem;
use crate::model::InputItemView;
use crate::model::ItemView;
use crate::model::MethodDecl;
use crate::model::MethodView;
use crate::model::OwningBlock;
use crate::model::RewriteError;
use crate::model::RewriteOutput;
use crate::model::RewriteOutputView;
use crate::model::SigView;
use crate::model::Signature;
use crate::model::SynthView;
use crate::model::attrs_view;
use crate::model::clone_directive;
use crate::model::clone_sig;
use crate::model::impls_view;
use crate::model::items_view;
use crate::model::lemma_attrs_view_push;
use crate::model::lemma_impls_view_push;
use crate::synthesize::spec_synthesize;
use crate::synthesize::synthesize;
use crate::synthesize::synth_result_view;

verus! {

// ------------------------------------------------------------------
// scanning
// ------------------------------------------------------------------

/// One directive found by the scanner: where it was found, the signature
/// of the method that carries it, and the directive itself.
#[verifier::ext_equal]
pub struct LinkView {
    pub item: int,
    pub attr: int,
    pub sig: SigView,
    pub directive: DirectiveView,
}

pub struct Link {
    pub item: usize,
    pub attr: usize,
    pub sig: Signature,
    pub directive: Directive,
}

impl View for Link {
    type V = LinkView;

    open spec fn view(&self) -> LinkView {
        LinkView {
            item: self.item as int,
            attr: self.attr as int,
            sig: self.sig@,
            directive: self.directive@,
        }
    }
}

pub open spec fn links_view(s: Seq<Link>) -> Seq<LinkView> {
    s.map_values(|l: Link| l@)
}

pub proof fn lemma_links_view_push(s: Seq<Link>, x: Link)
    ensures
        links_view(s.push(x)) == links_view(s).push(x@),
{
    assert(links_view(s.push(x)) =~~= links_view(s).push(x@));
}

/// The links of one method's metadata at indices `[j, attrs.len())`, in
/// order; the first directive whose text failed the grammar wins.
pub open spec fn delegates_from(
    attrs: Seq<AttrView>,
    j: int,
    item: int,
    sig: SigView,
) -> Result<Seq<LinkView>, RewriteError>
    decreases attrs.len() - j,
{
    if j < 0 || j >= attrs.len() {
        Ok(Seq::empty())
    } else {
        match attrs[j] {
            AttrView::Delegate(None) => Err(
                RewriteError::DirectiveParse { item: item as usize, attr: j as usize },
            ),
            AttrView::Delegate(Some(d)) => match delegates_from(attrs, j + 1, item, sig) {
                Ok(rest) => Ok(seq![LinkView { item, attr: j, sig, directive: d }] + rest),
                Err(e) => Err(e),
            },
            AttrView::Other(_) => delegates_from(attrs, j + 1, item, sig),
        }
    }
}

/// The links of the items at `[i, items.len())`, in item order then attr
/// order; the first failure wins.
pub open spec fn scan_from(items: Seq<ItemView>, i: int) -> Result<Seq<LinkView>, RewriteError>
    decreases items.len() - i,
{
    if i < 0 || i >= items.len() {
        Ok(Seq::empty())
    } else {
        match items[i] {
            ItemView::Other(_) => scan_from(items, i + 1),
            ItemView::Method(m) => match delegates_from(m.attrs, 0, i, m.sig) {
                Err(e) => Err(e),
                Ok(ds) => match scan_from(items, i + 1) {
                    Ok(rest) => Ok(ds + rest),
                    Err(e) => Err(e),
                },
            },
        }
    }
}

// ------------------------------------------------------------------
// stripping
// ------------------------------------------------------------------

/// The metadata at `[j, attrs.len())` with every delegate directive
/// removed; all other metadata stays, in order.
pub open spec fn strip_from(attrs: Seq<AttrView>, j: int) -> Seq<AttrView>
    decreases attrs.len() - j,
{
    if j < 0 || j >= attrs.len() {
        Seq::empty()
    } else {
        match attrs[j] {
            AttrView::Delegate(_) => strip_from(attrs, j + 1),
            AttrView::Other(_) => seq![attrs[j]] + strip_from(attrs, j + 1),
        }
    }
}

pub open spec fn spec_strip_attrs(attrs: Seq<AttrView>) -> Seq<AttrView> {
    strip_from(attrs, 0)
}

/// One item with its delegate directives stripped.
pub open spec fn spec_strip_item(it: ItemView) -> ItemView {
    match it {
        ItemView::Method(m) => ItemView::Method(
            MethodView { attrs: spec_strip_attrs(m.attrs), sig: m.sig },
        ),
        ItemView::Other(t) => ItemView::Other(t),
    }
}

pub open spec fn spec_strip_items(items: Seq<ItemView>) -> Seq<ItemView> {
    items.map_values(|it: ItemView| spec_strip_item(it))
}

// ------------------------------------------------------------------
// the rewrite
// ------------------------------------------------------------------

/// The implementations synthesized from the links at `[k, links.len())`;
/// the first failure wins.
pub open spec fn synth_from(self_ty: Seq<char>, links: Seq<LinkView>, k: int) -> Result<
    Seq<SynthView>,
    RewriteError,
>
    decreases links.len() - k,
{
    if k < 0 || k >= links.len() {
        Ok(Seq::empty())
    } else {
        match spec_synthesize(Some(self_ty), links[k].directive, links[k].sig) {
            Err(e) => Err(
                RewriteError::Synth {
                    item: links[k].item as usize,
                    attr: links[k].attr as usize,
                    error: e,
                },
            ),
            Ok(s) => match synth_from(self_ty, links, k + 1) {
                Ok(rest) => Ok(seq![s] + rest),
                Err(e) => Err(e),
            },
        }
    }
}

/// What rewriting one owning block yields: the block with directives
/// stripped, followed by one implementation per directive, in directive
/// order; or the first failure.
pub open spec fn spec_rewrite_block(b: BlockView) -> Result<RewriteOutputView, RewriteError> {
    match scan_from(b.items, 0) {
        Err(e) => Err(e),
        Ok(links) => match synth_from(b.self_ty, links, 0) {
            Err(e) => Err(e),
            Ok(impls) => Ok(
                RewriteOutputView {
                    block: BlockView { self_ty: b.self_ty, items: spec_strip_items(b.items) },
                    impls,
                },
            ),
        },
    }
}

/// What the top-level dispatch yields for any input.
pub open spec fn spec_rewrite(input: InputItemView) -> Result<RewriteOutputView, RewriteError> {
    match input {
        InputItemView::Unsupported => Err(RewriteError::UnsupportedItem),
        InputItemView::Block(b) => spec_rewrite_block(b),
    }
}

pub open spec fn rewrite_result_view(r: Result<RewriteOutput, RewriteError>) -> Result<
    RewriteOutputView,
    RewriteError,
> {
    match r {
        Ok(o) => Ok(o@),
        Err(e) => Err(e),
    }
}

/// Rewrites one owning block, as [`spec_rewrite_block`] states.
pub fn rewrite_block(b: &OwningBlock) -> (r: Result<RewriteOutput, RewriteError>)
    ensures
        rewrite_result_view(r) == spec_rewrite_block(b@),
{
    let ghost iv = items_view(b.items@);
    let mut links: Vec<Link> = Vec::new();
    let mut stripped: Vec<ImplItem> = Vec::new();
    let mut i: usize = 0;
    proof {
        assert(links_view(links@) + Seq::<LinkView>::empty() =~= links_view(links@));
    }
    while i < b.items.len()
        invariant
            i <= b.items.len(),
            iv == items_view(b.items@),
            scan_from(iv, 0) == (match scan_from(iv, i as int) {
                Ok(rest) => Ok::<Seq<LinkView>, RewriteError>(links_view(links@) + rest),
                Err(e) => Err::<Seq<LinkView>, RewriteError>(e),
            }),
            stripped@.len() == i as int,
            forall|t: int| 0 <= t < i as int ==> #[trigger] stripped@[t]@ == spec_strip_item(iv[t]),
        decreases b.items.len() - i,
    {
        proof {
            assert(iv[i as int] == b.items@[i as int]@);
        }
        match &b.items[i] {
            ImplItem::Other { text } => {
                stripped.push(ImplItem::Other { text: text.clone() });
            },
            ImplItem::Method { method } => {
                let ghost av = attrs_view(method.attrs@);
                let ghost mv = MethodView { attrs: av, sig: method.sig@ };
                proof {
                    assert(iv[i as int] == ItemView::Method(mv));
                }
                let mut mlinks: Vec<Link> = Vec::new();
                let mut kept: Vec<Attr> = Vec::new();
                let mut j: usize = 0;
                proof {
                    assert(links_view(mlinks@) + Seq::<LinkView>::empty() =~= links_view(
                        mlinks@,
                    ));
                    assert(attrs_view(kept@) + strip_from(av, 0) =~= strip_from(av, 0));
                }
                while j < method.attrs.len()
                    invariant
                        j <= method.attrs.len(),
                        iv == items_view(b.items@),
                        av == attrs_view(method.attrs@),
                        mv == (MethodView { attrs: av, sig: method.sig@ }),
                        i < b.items.len(),
                        iv[i as int] == ItemView::Method(mv),
                        scan_from(iv, 0) == (match scan_from(iv, i as int) {
                            Ok(rest) => Ok::<Seq<LinkView>, RewriteError>(
                                links_view(links@) + rest,
                            ),
                            Err(e) => Err::<Seq<LinkView>, RewriteError>(e),
                        }),
                        delegates_from(av, 0, i as int, method.sig@) == (match delegates_from(
                            av,
                            j as int,
                            i as int,
                            method.sig@,
                        ) {
                            Ok(rest) => Ok::<Seq<LinkView>, RewriteError>(
                                links_view(mlinks@) + rest,
                            ),
                            Err(e) => Err::<Seq<LinkView>, RewriteError>(e),
                        }),
                        attrs_view(kept@) + strip_from(av, j as int) == strip_from(av, 0),
                    decreases method.attrs.len() - j,
                {
                    proof {
                        assert(av[j as int] == method.attrs@[j as int]@);
                    }
                    match &method.attrs[j] {
                        Attr::Delegate { directive: Some(dir) } => {
                            let l = Link {
                                item: i,
                                attr: j,
                                sig: clone_sig(&method.sig),
                                directive: clone_directive(dir),
                            };
                            proof {
                                lemma_links_view_push(mlinks@, l);
                                let rest_new = delegates_from(
                                    av,
                                    j as int + 1,
                                    i as int,
                                    method.sig@,
                                );
                                if rest_new is Ok {
                                    assert(links_view(mlinks@) + (seq![
                                        LinkView {
                                            item: i as int,
                                            attr: j as int,
                                            sig: method.sig@,
                                            directive: dir@,
                                        },
                                    ] + rest_new.unwrap()) =~= links_view(mlinks@).push(l@)
                                        + rest_new.unwrap());
                                }
                            }
                            mlinks.push(l);
                        },
                        Attr::Delegate { directive: None } => {
                            return Err(RewriteError::DirectiveParse { item: i, attr: j });
                        },
                        Attr::Other { text } => {
                            let a = Attr::Other { text: text.clone() };
                            proof {
                                lemma_attrs_view_push(kept@, a);
                                assert(attrs_view(kept@).push(av[j as int]) + strip_from(
                                    av,
                                    j as int + 1,
                                ) =~= attrs_view(kept@) + (seq![av[j as int]] + strip_from(
                                    av,
                                    j as int + 1,
                                )));
                            }
                            kept.push(a);
                        },
                    }
                    j = j + 1;
                }
                proof {
                    assert(links_view(mlinks@) + Seq::<LinkView>::empty() =~= links_view(
                        mlinks@,
                    ));
                    assert(attrs_view(kept@) + Seq::<AttrView>::empty() =~= attrs_view(kept@));
                    assert(delegates_from(av, 0, i as int, method.sig@) == Ok::<
                        Seq<LinkView>,
                        RewriteError,
                    >(links_view(mlinks@)));
                }
                let m = MethodDecl { attrs: kept, sig: clone_sig(&method.sig) };
                proof {
                    assert((ImplItem::Method { method: m })@ =~~= spec_strip_item(iv[i as int]));
                    let ds = links_view(mlinks@);
                    let links0 = links_view(links@);
                    let rest_new = scan_from(iv, i as int + 1);
                    if rest_new is Ok {
                        assert(links0 + (ds + rest_new.unwrap()) =~= (links0 + ds)
                            + rest_new.unwrap());
                    }
                    assert(links_view(links@ + mlinks@) =~~= links_view(links@) + links_view(
                        mlinks@,
                    ));
                }
                stripped.push(ImplItem::Method { method: m });
                links.append(&mut mlinks);
            },
        }
        i = i + 1;
    }
    proof {
        assert(links_view(links@) + Seq::<LinkView>::empty() =~= links_view(links@));
        assert(scan_from(iv, 0) == Ok::<Seq<LinkView>, RewriteError>(links_view(links@)));
    }
    let ghost lv = links_view(links@);
    let mut impls: Vec<crate::model::SynthImpl> = Vec::new();
    let mut k: usize = 0;
    proof {
        assert(impls_view(impls@) + Seq::<SynthView>::empty() =~= impls_view(impls@));
    }
    while k < links.len()
        invariant
            k <= links.len(),
            lv == links_view(links@),
            scan_from(iv, 0) == Ok::<Seq<LinkView>, RewriteError>(lv),
            iv == items_view(b.items@),
            synth_from(b.self_ty@, lv, 0) == (match synth_from(b.self_ty@, lv, k as int) {
                Ok(rest) => Ok::<Seq<SynthView>, RewriteError>(impls_view(impls@) + rest),
                Err(e) => Err::<Seq<SynthView>, RewriteError>(e),
            }),
            stripped@.len() == b.items@.len(),
            forall|t: int| 0 <= t < b.items@.len() ==> #[trigger] stripped@[t]@ == spec_strip_item(
                iv[t],
            ),
        decreases links.len() - k,
    {
        proof {
            assert(lv[k as int] == links@[k as int]@);
        }
        match synthesize(Some(&b.self_ty), &links[k].directive, &links[k].sig) {
            Ok(s) => {
                proof {
                    lemma_impls_view_push(impls@, s);
                    let rest_new = synth_from(b.self_ty@, lv, k as int + 1);
                    if rest_new is Ok {
                        assert(impls_view(impls@) + (seq![s@] + rest_new.unwrap()) =~= impls_view(
                            impls@,
                        ).push(s@) + rest_new.unwrap());
                    }
                }
                impls.push(s);
            },
            Err(e) => {
                return Err(
                    RewriteError::Synth { item: links[k].item, attr: links[k].attr, error: e },
                );
            },
        }
        k = k + 1;
    }
    proof {
        assert(impls_view(impls@) + Seq::<SynthView>::empty() =~= impls_view(impls@));
        assert(synth_from(b.self_ty@, lv, 0) == Ok::<Seq<SynthView>, RewriteError>(
            impls_view(impls@),
        ));
    }
    let out = RewriteOutput {
        block: OwningBlock { self_ty: b.self_ty.clone(), items: stripped },
        impls,
    };
    proof {
        assert(items_view(out.block.items@) =~~= spec_strip_items(iv));
        assert(out@ =~~= spec_rewrite_block(b@).unwrap());
    }
    Ok(out)
}

/// The single entry point: rewrites an owning block, refuses anything
/// else with a diagnostic, and never produces partial output.
pub fn rewrite(input: &InputItem) -> (r: Result<RewriteOutput, RewriteError>)
    ensures
        rewrite_result_view(r) == spec_rewrite(input@),
{
    match input {
        InputItem::Unsupported => Err(RewriteError::UnsupportedItem),
        InputItem::Block { block } => rewrite_block(block),
    }
}

} // verus!
