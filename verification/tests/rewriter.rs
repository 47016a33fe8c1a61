use dizpacho::model::Attr;
use dizpacho::model::AssocTypeDecl;
use dizpacho::model::Directive;
use dizpacho::model::FnInput;
use dizpacho::model::ForwardCall;
use dizpacho::model::GenericArg;
use dizpacho::model::GenericParam;
use dizpacho::model::ImplItem;
use dizpacho::model::InputItem;
use dizpacho::model::MethodDecl;
use dizpacho::model::OwningBlock;
use dizpacho::model::PathSegment;
use dizpacho::model::RewriteError;
use dizpacho::model::Signature;
use dizpacho::model::SynthError;
use dizpacho::rewrite::rewrite;
use dizpacho::rewrite::rewrite_block;
use dizpacho::synthesize::synthesize;

fn s(x: &str) -> String {
    x.to_string()
}

fn tyarg(t: &str) -> GenericArg {
    GenericArg::TypeArg { text: s(t) }
}

fn lifearg(t: &str) -> GenericArg {
    GenericArg::Lifetime { text: s(t) }
}

fn binding(name: &str, ty: &str) -> GenericArg {
    GenericArg::Binding { name: s(name), ty: s(ty) }
}

fn seg(ident: &str, args: Option<Vec<GenericArg>>) -> PathSegment {
    PathSegment { ident: s(ident), args }
}

fn directive(path: Vec<PathSegment>) -> Directive {
    Directive { impl_generics: None, path, target: None, where_clause: None }
}

fn typed(pat: &str, ty: &str) -> FnInput {
    FnInput::Typed { pat: s(pat), ty: s(ty) }
}

fn receiver(text: &str) -> FnInput {
    FnInput::Receiver { text: s(text) }
}

fn sig(name: &str, inputs: Vec<FnInput>, output: Option<&str>) -> Signature {
    Signature { name: s(name), generics: None, inputs, output: output.map(s), where_clause: None }
}

// ------------------------------------------------------------------
// concrete scenarios
// ------------------------------------------------------------------

#[test]
fn scenario_conversion_trait_default_target() {
    // make_one(self_instance) -> Other, directive From<Self>::default, no `for`
    let self_ty = s("Widget");
    let d = directive(vec![seg("From", Some(vec![tyarg("Self")])), seg("default", None)]);
    let m = sig("make_one", vec![typed("self_instance", "Widget")], Some("Other"));
    let out = synthesize(Some(&self_ty), &d, &m).unwrap();
    assert_eq!(out.trait_path, vec![seg("From", Some(vec![tyarg("Widget")]))]);
    assert_eq!(out.target, s("Widget"));
    assert_eq!(out.assoc_types, vec![]);
    assert_eq!(out.sig.name, s("default"));
    assert_eq!(out.sig.generics, None);
    assert_eq!(out.sig.inputs, vec![typed("self_instance", "Widget")]);
    assert_eq!(out.sig.output, Some(s("Other")));
    assert_eq!(
        out.call,
        ForwardCall { callee: s("Widget"), method: s("make_one"), args: vec![s("self_instance")] }
    );
}

#[test]
fn scenario_two_directives_one_method() {
    // nab_string(&self) -> &str annotated twice: a reference-conversion
    // trait with no generic arguments, and a dereference trait with the
    // binding Target = str.
    let m = MethodDecl {
        attrs: vec![
            Attr::Delegate {
                directive: Some(directive(vec![seg("AsRef", None), seg("as_ref", None)])),
            },
            Attr::Delegate {
                directive: Some(directive(vec![
                    seg("Deref", Some(vec![binding("Target", "str")])),
                    seg("deref", None),
                ])),
            },
        ],
        sig: sig("nab_string", vec![receiver("&self")], Some("&str")),
    };
    let b = OwningBlock { self_ty: s("Holder"), items: vec![ImplItem::Method { method: m }] };
    let out = rewrite_block(&b).unwrap();
    assert_eq!(out.impls.len(), 2);

    let first = &out.impls[0];
    assert_eq!(first.trait_path, vec![seg("AsRef", None)]);
    assert_eq!(first.assoc_types, vec![]);
    assert_eq!(first.sig.name, s("as_ref"));
    assert_eq!(
        first.call,
        ForwardCall { callee: s("Holder"), method: s("nab_string"), args: vec![s("&self")] }
    );

    let second = &out.impls[1];
    // the binding is extracted and the argument list vanishes entirely
    assert_eq!(second.trait_path, vec![seg("Deref", None)]);
    assert_eq!(
        second.assoc_types,
        vec![AssocTypeDecl { name: s("Target"), ty: s("str") }]
    );
    assert_eq!(second.sig.name, s("deref"));
    assert_eq!(
        second.call,
        ForwardCall { callee: s("Holder"), method: s("nab_string"), args: vec![s("&self")] }
    );

    // the emitted method no longer carries any directive
    match &out.block.items[0] {
        ImplItem::Method { method } => assert_eq!(method.attrs, vec![]),
        ImplItem::Other { .. } => panic!("expected a method"),
    }
}

#[test]
fn scenario_generic_trait_method() {
    // extend<T>(&mut self, iter: T) with its own where-constraint,
    // delegated to a generic trait method extend<T> whose trait argument
    // is concrete.
    let self_ty = s("Bag");
    let d = directive(vec![
        seg("Extend", Some(vec![tyarg("char")])),
        seg("extend", Some(vec![tyarg("T")])),
    ]);
    let m = Signature {
        name: s("extend"),
        generics: Some(vec![GenericParam::TypeParam { text: s("T") }]),
        inputs: vec![receiver("&mut self"), typed("iter", "T")],
        output: None,
        where_clause: Some(s("where T: IntoIterator<Item = char>")),
    };
    let out = synthesize(Some(&self_ty), &d, &m).unwrap();
    assert_eq!(out.trait_path, vec![seg("Extend", Some(vec![tyarg("char")]))]);
    // the method-segment generics re-introduce T, and the method's own
    // where-constraint stays on the synthesized method
    assert_eq!(out.sig.generics, Some(vec![GenericParam::TypeParam { text: s("T") }]));
    assert_eq!(out.sig.where_clause, Some(s("where T: IntoIterator<Item = char>")));
    assert_eq!(
        out.call,
        ForwardCall { callee: s("Bag"), method: s("extend"), args: vec![s("&mut self"), s("iter")] }
    );
}

#[test]
fn absent_method_segment_generics_keep_the_methods_own() {
    // a directive whose method segment carries no argument list falls back
    // to the original method's own generics, still attached via the
    // signature, where-clause included
    let self_ty = s("Bag");
    let d = directive(vec![seg("Extend", Some(vec![tyarg("char")])), seg("extend", None)]);
    let m = Signature {
        name: s("extend"),
        generics: Some(vec![GenericParam::TypeParam { text: s("T") }]),
        inputs: vec![receiver("&mut self"), typed("iter", "T")],
        output: None,
        where_clause: Some(s("where T: IntoIterator<Item = char>")),
    };
    let out = synthesize(Some(&self_ty), &d, &m).unwrap();
    assert_eq!(out.sig.generics, Some(vec![GenericParam::TypeParam { text: s("T") }]));
    assert_eq!(out.sig.where_clause, Some(s("where T: IntoIterator<Item = char>")));
}

#[test]
fn empty_method_segment_generics_replace_the_methods_own() {
    // an argument list that is present but empty is a written-out `<>`:
    // it replaces the method's generics with none
    let self_ty = s("Bag");
    let d = directive(vec![seg("Marker", None), seg("mark", Some(vec![]))]);
    let m = Signature {
        name: s("tag"),
        generics: Some(vec![GenericParam::TypeParam { text: s("T") }]),
        inputs: vec![receiver("&self")],
        output: None,
        where_clause: None,
    };
    let out = synthesize(Some(&self_ty), &d, &m).unwrap();
    assert_eq!(out.sig.generics, Some(vec![]));
}

#[test]
fn scenario_unsupported_item() {
    let r = rewrite(&InputItem::Unsupported);
    assert_eq!(r, Err(RewriteError::UnsupportedItem));
    assert_eq!(
        RewriteError::UnsupportedItem.message(),
        "unsupported item! impl blocks and impl fns both need the attribute"
    );
}

#[test]
fn scenario_unparsable_directive() {
    // a directive whose text failed the grammar aborts the whole rewrite,
    // pinpointing the directive, and nothing is emitted
    let m = MethodDecl {
        attrs: vec![
            Attr::Other { text: s("#[inline]") },
            Attr::Delegate { directive: None },
        ],
        sig: sig("broken", vec![receiver("&self")], None),
    };
    let b = OwningBlock { self_ty: s("Gadget"), items: vec![ImplItem::Method { method: m }] };
    let r = rewrite_block(&b);
    assert_eq!(r, Err(RewriteError::DirectiveParse { item: 0, attr: 1 }));
}

// ------------------------------------------------------------------
// directive stripping
// ------------------------------------------------------------------

#[test]
fn stripping_preserves_other_metadata_in_order() {
    let d1 = directive(vec![seg("AsRef", None), seg("as_ref", None)]);
    let d2 = directive(vec![seg("Borrow", None), seg("borrow", None)]);
    let m = MethodDecl {
        attrs: vec![
            Attr::Other { text: s("#[inline]") },
            Attr::Delegate { directive: Some(d1) },
            Attr::Other { text: s("/// docs") },
            Attr::Delegate { directive: Some(d2) },
        ],
        sig: sig("get", vec![receiver("&self")], Some("&str")),
    };
    let b = OwningBlock {
        self_ty: s("Holder"),
        items: vec![
            ImplItem::Other { text: s("const LIMIT: usize = 8;") },
            ImplItem::Method { method: m },
        ],
    };
    let out = rewrite_block(&b).unwrap();
    assert_eq!(out.block.self_ty, s("Holder"));
    assert_eq!(out.block.items.len(), 2);
    assert_eq!(
        out.block.items[0],
        ImplItem::Other { text: s("const LIMIT: usize = 8;") }
    );
    match &out.block.items[1] {
        ImplItem::Method { method } => {
            assert_eq!(
                method.attrs,
                vec![
                    Attr::Other { text: s("#[inline]") },
                    Attr::Other { text: s("/// docs") },
                ]
            );
        },
        ImplItem::Other { .. } => panic!("expected a method"),
    }
    // one implementation per directive, in directive order
    assert_eq!(out.impls.len(), 2);
    assert_eq!(out.impls[0].trait_path, vec![seg("AsRef", None)]);
    assert_eq!(out.impls[1].trait_path, vec![seg("Borrow", None)]);
}

#[test]
fn impls_come_in_method_then_directive_order() {
    let da = directive(vec![seg("TraitA", None), seg("alpha", None)]);
    let db = directive(vec![seg("TraitB", None), seg("beta", None)]);
    let dc = directive(vec![seg("TraitC", None), seg("gamma", None)]);
    let m1 = MethodDecl {
        attrs: vec![
            Attr::Delegate { directive: Some(da) },
            Attr::Delegate { directive: Some(db) },
        ],
        sig: sig("first", vec![receiver("&self")], None),
    };
    let m2 = MethodDecl {
        attrs: vec![Attr::Delegate { directive: Some(dc) }],
        sig: sig("second", vec![receiver("&self")], None),
    };
    let b = OwningBlock {
        self_ty: s("Pair"),
        items: vec![ImplItem::Method { method: m1 }, ImplItem::Method { method: m2 }],
    };
    let out = rewrite_block(&b).unwrap();
    assert_eq!(out.impls.len(), 3);
    assert_eq!(out.impls[0].trait_path, vec![seg("TraitA", None)]);
    assert_eq!(out.impls[0].call.method, s("first"));
    assert_eq!(out.impls[1].trait_path, vec![seg("TraitB", None)]);
    assert_eq!(out.impls[1].call.method, s("first"));
    assert_eq!(out.impls[2].trait_path, vec![seg("TraitC", None)]);
    assert_eq!(out.impls[2].call.method, s("second"));
}

// ------------------------------------------------------------------
// default and overridden targets
// ------------------------------------------------------------------

#[test]
fn target_override_still_forwards_to_self_type() {
    let self_ty = s("Inner");
    let d = Directive {
        impl_generics: None,
        path: vec![seg("From", Some(vec![tyarg("Inner")])), seg("from", None)],
        target: Some(s("Outer")),
        where_clause: None,
    };
    let m = sig("into_outer", vec![typed("value", "Inner")], Some("Outer"));
    let out = synthesize(Some(&self_ty), &d, &m).unwrap();
    assert_eq!(out.target, s("Outer"));
    // the `for` type changes, the forwarding callee does not
    assert_eq!(out.call.callee, s("Inner"));
    // the trait argument textually equal to the self type resolves to it
    assert_eq!(out.trait_path, vec![seg("From", Some(vec![tyarg("Inner")]))]);
}

// ------------------------------------------------------------------
// self substitution
// ------------------------------------------------------------------

#[test]
fn self_placeholder_equals_spelled_out_type() {
    let self_ty = s("Widget");
    let with_placeholder = directive(vec![
        seg("From", Some(vec![tyarg("Self")])),
        seg("from", None),
    ]);
    let spelled_out = directive(vec![
        seg("From", Some(vec![tyarg("Widget")])),
        seg("from", None),
    ]);
    let m1 = sig("make", vec![typed("it", "Self")], Some("Widget"));
    let m2 = sig("make", vec![typed("it", "Widget")], Some("Widget"));
    let a = synthesize(Some(&self_ty), &with_placeholder, &m1).unwrap();
    let b = synthesize(Some(&self_ty), &spelled_out, &m2).unwrap();
    assert_eq!(a, b);
    assert_eq!(a.sig.inputs, vec![typed("it", "Widget")]);
}

// ------------------------------------------------------------------
// trait-argument reconciliation
// ------------------------------------------------------------------

#[test]
fn kept_arguments_come_out_in_reverse_order() {
    // the reverse walk keeps genuine arguments last-declared-first
    let self_ty = s("S");
    let d = directive(vec![
        seg("Tri", Some(vec![tyarg("A"), binding("Out", "u8"), tyarg("B")])),
        seg("tri", None),
    ]);
    let m = sig("go", vec![receiver("&self")], None);
    let out = synthesize(Some(&self_ty), &d, &m).unwrap();
    assert_eq!(out.trait_path, vec![seg("Tri", Some(vec![tyarg("B"), tyarg("A")]))]);
    assert_eq!(out.assoc_types, vec![AssocTypeDecl { name: s("Out"), ty: s("u8") }]);
}

#[test]
fn bindings_are_extracted_last_declared_first() {
    let self_ty = s("S");
    let d = directive(vec![
        seg("Duo", Some(vec![binding("X", "u8"), binding("Y", "u16")])),
        seg("duo", None),
    ]);
    let m = sig("go", vec![receiver("&self")], None);
    let out = synthesize(Some(&self_ty), &d, &m).unwrap();
    // all arguments were bindings, so the argument list vanishes
    assert_eq!(out.trait_path, vec![seg("Duo", None)]);
    assert_eq!(
        out.assoc_types,
        vec![
            AssocTypeDecl { name: s("Y"), ty: s("u16") },
            AssocTypeDecl { name: s("X"), ty: s("u8") },
        ]
    );
}

#[test]
fn lone_self_argument_resolves_to_self_type() {
    let self_ty = s("S");
    let d = directive(vec![seg("From", Some(vec![tyarg("Self")])), seg("from", None)]);
    let m = sig("go", vec![receiver("&self")], None);
    let out = synthesize(Some(&self_ty), &d, &m).unwrap();
    assert_eq!(out.trait_path, vec![seg("From", Some(vec![tyarg("S")]))]);
}

#[test]
fn empty_argument_list_is_removed() {
    let self_ty = s("S");
    let d = directive(vec![seg("Marker", Some(vec![])), seg("mark", None)]);
    let m = sig("go", vec![receiver("&self")], None);
    let out = synthesize(Some(&self_ty), &d, &m).unwrap();
    assert_eq!(out.trait_path, vec![seg("Marker", None)]);
}

#[test]
fn constants_and_constraints_are_dropped_from_trait_arguments() {
    let self_ty = s("S");
    let d = directive(vec![
        seg(
            "Mix",
            Some(vec![
                GenericArg::ConstArg { text: s("3") },
                tyarg("A"),
                GenericArg::Constraint { text: s("B: Clone") },
                lifearg("'a"),
            ]),
        ),
        seg("mix", None),
    ]);
    let m = sig("go", vec![receiver("&self")], None);
    let out = synthesize(Some(&self_ty), &d, &m).unwrap();
    // reverse order again: the lifetime was declared last, so it leads
    assert_eq!(out.trait_path, vec![seg("Mix", Some(vec![lifearg("'a"), tyarg("A")]))]);
}

// ------------------------------------------------------------------
// method generics
// ------------------------------------------------------------------

#[test]
fn method_segment_arguments_become_parameters_in_order() {
    let self_ty = s("S");
    let d = directive(vec![
        seg("Visit", None),
        seg("visit", Some(vec![lifearg("'a"), tyarg("T")])),
    ]);
    let m = sig("go", vec![receiver("&self")], None);
    let out = synthesize(Some(&self_ty), &d, &m).unwrap();
    assert_eq!(
        out.sig.generics,
        Some(vec![
            GenericParam::Lifetime { text: s("'a") },
            GenericParam::TypeParam { text: s("T") },
        ])
    );
}

#[test]
fn binding_in_method_generics_is_rejected() {
    let self_ty = s("S");
    let d = directive(vec![
        seg("Deref", None),
        seg("deref", Some(vec![binding("Target", "str")])),
    ]);
    let m = sig("go", vec![receiver("&self")], None);
    let e = synthesize(Some(&self_ty), &d, &m).unwrap_err();
    assert_eq!(e, SynthError::BindingInMethodGenerics { index: 0 });
    assert_eq!(e.message(), "type binding not supported here");
}

#[test]
fn const_in_method_generics_is_rejected() {
    let self_ty = s("S");
    let d = directive(vec![
        seg("Get", None),
        seg("get", Some(vec![tyarg("T"), GenericArg::ConstArg { text: s("3") }])),
    ]);
    let m = sig("go", vec![receiver("&self")], None);
    let e = synthesize(Some(&self_ty), &d, &m).unwrap_err();
    assert_eq!(e, SynthError::ConstInMethodGenerics { index: 1 });
    assert_eq!(e.message(), "const not supported here");
}

#[test]
fn constraint_in_method_generics_is_rejected() {
    let self_ty = s("S");
    let d = directive(vec![
        seg("Get", None),
        seg("get", Some(vec![GenericArg::Constraint { text: s("T: Clone") }])),
    ]);
    let m = sig("go", vec![receiver("&self")], None);
    let e = synthesize(Some(&self_ty), &d, &m).unwrap_err();
    assert_eq!(e, SynthError::ConstraintInMethodGenerics { index: 0 });
    assert_eq!(e.message(), "constraint not supported here");
}

// ------------------------------------------------------------------
// failure shapes
// ------------------------------------------------------------------

#[test]
fn missing_self_type_is_rejected() {
    let d = directive(vec![seg("Default", None), seg("default", None)]);
    let m = sig("new", vec![], Some("Self"));
    let e = synthesize(None, &d, &m).unwrap_err();
    assert_eq!(e, SynthError::MissingSelfType);
    assert_eq!(
        e.message(),
        "The impl containing this function also needs to the dizpacho trait"
    );
}

#[test]
fn single_segment_path_is_rejected() {
    let self_ty = s("S");
    let d = directive(vec![seg("default", None)]);
    let m = sig("new", vec![], Some("Self"));
    let e = synthesize(Some(&self_ty), &d, &m).unwrap_err();
    assert_eq!(e, SynthError::MissingTraitSegment);
}

#[test]
fn method_generics_are_checked_before_the_trait_segment() {
    // a lone segment with a bad argument fails on the argument, because
    // the method-segment generics are examined before the trait segment
    // is looked for
    let self_ty = s("S");
    let d = directive(vec![seg("lonely", Some(vec![GenericArg::ConstArg { text: s("3") }]))]);
    let m = sig("go", vec![receiver("&self")], None);
    let e = synthesize(Some(&self_ty), &d, &m).unwrap_err();
    assert_eq!(e, SynthError::ConstInMethodGenerics { index: 0 });
}

#[test]
fn synthesis_failure_is_located_in_the_block() {
    let good = directive(vec![seg("AsRef", None), seg("as_ref", None)]);
    let bad = directive(vec![seg("lonely", None)]);
    let m = MethodDecl {
        attrs: vec![
            Attr::Delegate { directive: Some(good) },
            Attr::Delegate { directive: Some(bad) },
        ],
        sig: sig("go", vec![receiver("&self")], None),
    };
    let b = OwningBlock { self_ty: s("S"), items: vec![ImplItem::Method { method: m }] };
    let r = rewrite_block(&b);
    assert_eq!(
        r,
        Err(RewriteError::Synth {
            item: 0,
            attr: 1,
            error: SynthError::MissingTraitSegment,
        })
    );
    assert_eq!(
        RewriteError::Synth { item: 0, attr: 1, error: SynthError::MissingTraitSegment }.message(),
        "the delegate path names no trait before the method name"
    );
}

#[test]
fn directive_parse_failure_wins_over_later_synthesis() {
    // scanning finishes before any synthesis starts, so a parse failure in
    // a later method outranks a synthesis failure in an earlier one
    let bad_synth = directive(vec![seg("lonely", None)]);
    let m1 = MethodDecl {
        attrs: vec![Attr::Delegate { directive: Some(bad_synth) }],
        sig: sig("first", vec![receiver("&self")], None),
    };
    let m2 = MethodDecl {
        attrs: vec![Attr::Delegate { directive: None }],
        sig: sig("second", vec![receiver("&self")], None),
    };
    let b = OwningBlock {
        self_ty: s("S"),
        items: vec![ImplItem::Method { method: m1 }, ImplItem::Method { method: m2 }],
    };
    assert_eq!(rewrite_block(&b), Err(RewriteError::DirectiveParse { item: 1, attr: 0 }));
}

// ------------------------------------------------------------------
// forwarding shapes
// ------------------------------------------------------------------

#[test]
fn by_value_receiver_is_forwarded_as_written() {
    let self_ty = s("S");
    let d = directive(vec![seg("IntoIterator", None), seg("into_iter", None)]);
    let m = sig("consume", vec![receiver("self")], Some("Iter"));
    let out = synthesize(Some(&self_ty), &d, &m).unwrap();
    assert_eq!(out.call.args, vec![s("self")]);
}

#[test]
fn directive_extras_are_carried_onto_the_impl() {
    let self_ty = s("S");
    let d = Directive {
        impl_generics: Some(s("<'a>")),
        path: vec![seg("AsRef", None), seg("as_ref", None)],
        target: Some(s("&'a S")),
        where_clause: Some(s("where S: 'a")),
    };
    let m = sig("go", vec![receiver("&self")], None);
    let out = synthesize(Some(&self_ty), &d, &m).unwrap();
    assert_eq!(out.impl_generics, Some(s("<'a>")));
    assert_eq!(out.where_clause, Some(s("where S: 'a")));
    assert_eq!(out.target, s("&'a S"));
}
