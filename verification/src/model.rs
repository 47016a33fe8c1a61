//! The library's model of the host language's declarations.
//!
//! Every piece of syntax the rewriter has to read is held as plain values:
//! an identifier or a type expression is the text it was written as, a path
//! is a sequence of segments, a generic argument list is a sequence of
//! classified arguments.  Text the rewriter only copies (method bodies,
//! where-clauses, extra generic parameter lists, foreign attributes) is kept
//! as opaque text.
//!
//! Each executable type has a ghost view (`...View`) over `Seq<char>` that
//! the contracts speak of.

use vstd::prelude::*;

verus! {

// ------------------------------------------------------------------
// generic arguments and parameters
// ------------------------------------------------------------------

/// One generic argument as written inside an `<...>` argument list.
#[derive(Debug, Clone, PartialEq, Eq)]
pub enum GenericArg {
    /// A lifetime argument such as `'a`.
    Lifetime { text: String },
    /// A type argument such as `u8` or `Self`.
    TypeArg { text: String },
    /// An associated-type equality such as `Target = str`.
    Binding { name: String, ty: String },
    /// A constraint such as `Item: Clone`.
    Constraint { text: String },
    /// A constant argument such as `3`.
    ConstArg { text: String },
}

pub enum ArgView {
    Lifetime(Seq<char>),
    TypeArg(Seq<char>),
    Binding(Seq<char>, Seq<char>),
    Constraint(Seq<char>),
    ConstArg(Seq<char>),
}

impl View for GenericArg {
    type V = ArgView;

    open spec fn view(&self) -> ArgView {
        match self {
            GenericArg::Lifetime { text } => ArgView::Lifetime(text@),
            GenericArg::TypeArg { text } => ArgView::TypeArg(text@),
            GenericArg::Binding { name, ty } => ArgView::Binding(name@, ty@),
            GenericArg::Constraint { text } => ArgView::Constraint(text@),
            GenericArg::ConstArg { text } => ArgView::ConstArg(text@),
        }
    }
}

/// One generic parameter of a synthesized method.
#[derive(Debug, Clone, PartialEq, Eq)]
pub enum GenericParam {
    /// A lifetime parameter such as `'a`.
    Lifetime { text: String },
    /// A type parameter such as `T`.
    TypeParam { text: String },
}

pub enum ParamView {
    Lifetime(Seq<char>),
    TypeParam(Seq<char>),
}

impl View for GenericParam {
    type V = ParamView;

    open spec fn view(&self) -> ParamView {
        match self {
            GenericParam::Lifetime { text } => ParamView::Lifetime(text@),
            GenericParam::TypeParam { text } => ParamView::TypeParam(text@),
        }
    }
}

pub open spec fn args_view(s: Seq<GenericArg>) -> Seq<ArgView> {
    s.map_values(|a: GenericArg| a@)
}

pub open spec fn opt_args_view(o: Option<Vec<GenericArg>>) -> Option<Seq<ArgView>> {
    match o {
        Some(v) => Some(args_view(v@)),
        None => None,
    }
}

pub open spec fn params_view(s: Seq<GenericParam>) -> Seq<ParamView> {
    s.map_values(|p: GenericParam| p@)
}

pub open spec fn opt_params_view(o: Option<Vec<GenericParam>>) -> Option<Seq<ParamView>> {
    match o {
        Some(v) => Some(params_view(v@)),
        None => None,
    }
}

pub open spec fn opt_text_view(o: Option<String>) -> Option<Seq<char>> {
    match o {
        Some(s) => Some(s@),
        None => None,
    }
}

// ------------------------------------------------------------------
// paths
// ------------------------------------------------------------------

/// One segment of a dotted path, such as `Deref` in `ops::Deref<Target = str>`.
#[derive(Debug, Clone, PartialEq, Eq)]
pub struct PathSegment {
    pub ident: String,
    /// `None` when the segment carries no `<...>` list at all; `Some` holds
    /// the arguments, possibly none, written between the angle brackets.
    pub args: Option<Vec<GenericArg>>,
}

#[verifier::ext_equal]
pub struct SegView {
    pub ident: Seq<char>,
    pub args: Option<Seq<ArgView>>,
}

impl View for PathSegment {
    type V = SegView;

    open spec fn view(&self) -> SegView {
        SegView { ident: self.ident@, args: opt_args_view(self.args) }
    }
}

pub open spec fn segs_view(s: Seq<PathSegment>) -> Seq<SegView> {
    s.map_values(|seg: PathSegment| seg@)
}

// ------------------------------------------------------------------
// directives
// ------------------------------------------------------------------

/// A delegate directive: which external trait method the annotated method
/// should satisfy, and for which type.
#[derive(Debug, Clone, PartialEq, Eq)]
pub struct Directive {
    /// Extra generic parameter list text for the synthesized impl header.
    pub impl_generics: Option<String>,
    /// The trait path; its final segment names the trait method.
    pub path: Vec<PathSegment>,
    /// Optional override for the type the trait is implemented for.
    pub target: Option<String>,
    /// Optional extra constraints for the synthesized impl.
    pub where_clause: Option<String>,
}

#[verifier::ext_equal]
pub struct DirectiveView {
    pub impl_generics: Option<Seq<char>>,
    pub path: Seq<SegView>,
    pub target: Option<Seq<char>>,
    pub where_clause: Option<Seq<char>>,
}

impl View for Directive {
    type V = DirectiveView;

    open spec fn view(&self) -> DirectiveView {
        DirectiveView {
            impl_generics: opt_text_view(self.impl_generics),
            path: segs_view(self.path@),
            target: opt_text_view(self.target),
            where_clause: opt_text_view(self.where_clause),
        }
    }
}

// ------------------------------------------------------------------
// signatures
// ------------------------------------------------------------------

/// One input of a method signature.
#[derive(Debug, Clone, PartialEq, Eq)]
pub enum FnInput {
    /// The receiver, kept as the text it was written as (`self`, `&self`,
    /// `&mut self`, ...).
    Receiver { text: String },
    /// A typed input: its binding pattern and its type.
    Typed { pat: String, ty: String },
}

pub enum InputView {
    Receiver(Seq<char>),
    Typed(Seq<char>, Seq<char>),
}

impl View for FnInput {
    type V = InputView;

    open spec fn view(&self) -> InputView {
        match self {
            FnInput::Receiver { text } => InputView::Receiver(text@),
            FnInput::Typed { pat, ty } => InputView::Typed(pat@, ty@),
        }
    }
}

pub open spec fn inputs_view(s: Seq<FnInput>) -> Seq<InputView> {
    s.map_values(|i: FnInput| i@)
}

/// A method signature: name, generic parameters, inputs, return type,
/// where-clause.
#[derive(Debug, Clone, PartialEq, Eq)]
pub struct Signature {
    pub name: String,
    /// `None` when the method has no `<...>` list at all.
    pub generics: Option<Vec<GenericParam>>,
    pub inputs: Vec<FnInput>,
    /// The rendered return type, `None` when the method returns nothing.
    pub output: Option<String>,
    /// The method's own where-clause, kept as opaque text.
    pub where_clause: Option<String>,
}

#[verifier::ext_equal]
pub struct SigView {
    pub name: Seq<char>,
    pub generics: Option<Seq<ParamView>>,
    pub inputs: Seq<InputView>,
    pub output: Option<Seq<char>>,
    pub where_clause: Option<Seq<char>>,
}

impl View for Signature {
    type V = SigView;

    open spec fn view(&self) -> SigView {
        SigView {
            name: self.name@,
            generics: opt_params_view(self.generics),
            inputs: inputs_view(self.inputs@),
            output: opt_text_view(self.output),
            where_clause: opt_text_view(self.where_clause),
        }
    }
}

// ------------------------------------------------------------------
// owning blocks
// ------------------------------------------------------------------

/// One piece of metadata attached to a method declaration.
#[derive(Debug, Clone, PartialEq, Eq)]
pub enum Attr {
    /// A delegate directive.  `None` records that the directive's text did
    /// not match the directive grammar; scanning surfaces that as an error.
    Delegate { directive: Option<Directive> },
    /// Any other metadata, preserved verbatim on the emitted method.
    Other { text: String },
}

pub enum AttrView {
    Delegate(Option<DirectiveView>),
    Other(Seq<char>),
}

impl View for Attr {
    type V = AttrView;

    open spec fn view(&self) -> AttrView {
        match self {
            Attr::Delegate { directive: Some(d) } => AttrView::Delegate(Some(d@)),
            Attr::Delegate { directive: None } => AttrView::Delegate(None),
            Attr::Other { text } => AttrView::Other(text@),
        }
    }
}

pub open spec fn attrs_view(s: Seq<Attr>) -> Seq<AttrView> {
    s.map_values(|a: Attr| a@)
}

/// A method declaration inside an owning block: its metadata and its
/// signature.  The body is never inspected and stays with the shell.
#[derive(Debug, Clone, PartialEq, Eq)]
pub struct MethodDecl {
    pub attrs: Vec<Attr>,
    pub sig: Signature,
}

#[verifier::ext_equal]
pub struct MethodView {
    pub attrs: Seq<AttrView>,
    pub sig: SigView,
}

impl View for MethodDecl {
    type V = MethodView;

    open spec fn view(&self) -> MethodView {
        MethodView { attrs: attrs_view(self.attrs@), sig: self.sig@ }
    }
}

/// One item of an owning block.
#[derive(Debug, Clone, PartialEq, Eq)]
pub enum ImplItem {
    Method { method: MethodDecl },
    /// Any non-method item, passed through untouched.
    Other { text: String },
}

pub enum ItemView {
    Method(MethodView),
    Other(Seq<char>),
}

impl View for ImplItem {
    type V = ItemView;

    open spec fn view(&self) -> ItemView {
        match self {
            ImplItem::Method { method } => ItemView::Method(method@),
            ImplItem::Other { text } => ItemView::Other(text@),
        }
    }
}

pub open spec fn items_view(s: Seq<ImplItem>) -> Seq<ItemView> {
    s.map_values(|i: ImplItem| i@)
}

/// The owning declaration block: a self type and its items.
#[derive(Debug, Clone, PartialEq, Eq)]
pub struct OwningBlock {
    pub self_ty: String,
    pub items: Vec<ImplItem>,
}

#[verifier::ext_equal]
pub struct BlockView {
    pub self_ty: Seq<char>,
    pub items: Seq<ItemView>,
}

impl View for OwningBlock {
    type V = BlockView;

    open spec fn view(&self) -> BlockView {
        BlockView { self_ty: self.self_ty@, items: items_view(self.items@) }
    }
}

/// What the shell hands to the top-level dispatch: either an owning block,
/// or anything else, which is refused with a diagnostic.
#[derive(Debug, Clone, PartialEq, Eq)]
pub enum InputItem {
    Block { block: OwningBlock },
    Unsupported,
}

pub enum InputItemView {
    Block(BlockView),
    Unsupported,
}

impl View for InputItem {
    type V = InputItemView;

    open spec fn view(&self) -> InputItemView {
        match self {
            InputItem::Block { block } => InputItemView::Block(block@),
            InputItem::Unsupported => InputItemView::Unsupported,
        }
    }
}

// ------------------------------------------------------------------
// synthesized output
// ------------------------------------------------------------------

/// A standalone associated-type declaration, `type Name = Ty;`.
#[derive(Debug, Clone, PartialEq, Eq)]
pub struct AssocTypeDecl {
    pub name: String,
    pub ty: String,
}

#[verifier::ext_equal]
pub struct AssocView {
    pub name: Seq<char>,
    pub ty: Seq<char>,
}

impl View for AssocTypeDecl {
    type V = AssocView;

    open spec fn view(&self) -> AssocView {
        AssocView { name: self.name@, ty: self.ty@ }
    }
}

pub open spec fn assocs_view(s: Seq<AssocTypeDecl>) -> Seq<AssocView> {
    s.map_values(|a: AssocTypeDecl| a@)
}

pub open spec fn texts_view(s: Seq<String>) -> Seq<Seq<char>> {
    s.map_values(|a: String| a@)
}

/// The forwarding call `<callee>::method(args)` that forms the entire body
/// of a synthesized method.
#[derive(Debug, Clone, PartialEq, Eq)]
pub struct ForwardCall {
    /// The type the call is made on: always the self type.
    pub callee: String,
    /// The original method's name.
    pub method: String,
    /// The argument expressions, one per input, in declared order.
    pub args: Vec<String>,
}

#[verifier::ext_equal]
pub struct CallView {
    pub callee: Seq<char>,
    pub method: Seq<char>,
    pub args: Seq<Seq<char>>,
}

impl View for ForwardCall {
    type V = CallView;

    open spec fn view(&self) -> CallView {
        CallView { callee: self.callee@, method: self.method@, args: texts_view(self.args@) }
    }
}

/// One synthesized trait implementation.
#[derive(Debug, Clone, PartialEq, Eq)]
pub struct SynthImpl {
    pub impl_generics: Option<String>,
    /// The reconciled trait reference.
    pub trait_path: Vec<PathSegment>,
    /// The type the trait is implemented for.
    pub target: String,
    pub where_clause: Option<String>,
    /// Associated-type declarations extracted from the directive.
    pub assoc_types: Vec<AssocTypeDecl>,
    /// The synthesized method's signature.
    pub sig: Signature,
    /// The synthesized method's entire body.
    pub call: ForwardCall,
}

#[verifier::ext_equal]
pub struct SynthView {
    pub impl_generics: Option<Seq<char>>,
    pub trait_path: Seq<SegView>,
    pub target: Seq<char>,
    pub where_clause: Option<Seq<char>>,
    pub assoc_types: Seq<AssocView>,
    pub sig: SigView,
    pub call: CallView,
}

impl View for SynthImpl {
    type V = SynthView;

    open spec fn view(&self) -> SynthView {
        SynthView {
            impl_generics: opt_text_view(self.impl_generics),
            trait_path: segs_view(self.trait_path@),
            target: self.target@,
            where_clause: opt_text_view(self.where_clause),
            assoc_types: assocs_view(self.assoc_types@),
            sig: self.sig@,
            call: self.call@,
        }
    }
}

pub open spec fn impls_view(s: Seq<SynthImpl>) -> Seq<SynthView> {
    s.map_values(|i: SynthImpl| i@)
}

/// The replacement for one owning block: the block with directives
/// stripped, followed by the synthesized implementations in directive
/// order.
#[derive(Debug, Clone, PartialEq, Eq)]
pub struct RewriteOutput {
    pub block: OwningBlock,
    pub impls: Vec<SynthImpl>,
}

#[verifier::ext_equal]
pub struct RewriteOutputView {
    pub block: BlockView,
    pub impls: Seq<SynthView>,
}

impl View for RewriteOutput {
    type V = RewriteOutputView;

    open spec fn view(&self) -> RewriteOutputView {
        RewriteOutputView { block: self.block@, impls: impls_view(self.impls@) }
    }
}

// ------------------------------------------------------------------
// errors
// ------------------------------------------------------------------

/// Why synthesizing one implementation failed.
#[derive(Debug, Clone, Copy, PartialEq, Eq, Structural)]
pub enum SynthError {
    /// The directive sits on a declaration with no enclosing self type.
    MissingSelfType,
    /// An associated-type binding in the method-generics position.
    BindingInMethodGenerics { index: usize },
    /// A constraint in the method-generics position.
    ConstraintInMethodGenerics { index: usize },
    /// A constant argument in the method-generics position.
    ConstInMethodGenerics { index: usize },
    /// The directive's path names no trait segment before the method name.
    MissingTraitSegment,
}

/// Why rewriting an input failed.  The indices point back into the input so
/// the shell can attach the diagnostic to the right source span.
#[derive(Debug, Clone, Copy, PartialEq, Eq, Structural)]
pub enum RewriteError {
    /// The input is not an owning declaration block.
    UnsupportedItem,
    /// The directive at attr `attr` of item `item` failed the directive
    /// grammar.
    DirectiveParse { item: usize, attr: usize },
    /// Synthesis failed for the directive at attr `attr` of item `item`.
    Synth { item: usize, attr: usize, error: SynthError },
}

impl SynthError {
    pub open spec fn spec_message(self) -> Seq<char> {
        match self {
            SynthError::MissingSelfType => "The impl containing this function also needs to the dizpacho trait"@,
            SynthError::BindingInMethodGenerics { .. } => "type binding not supported here"@,
            SynthError::ConstraintInMethodGenerics { .. } => "constraint not supported here"@,
            SynthError::ConstInMethodGenerics { .. } => "const not supported here"@,
            SynthError::MissingTraitSegment => "the delegate path names no trait before the method name"@,
        }
    }

    /// The diagnostic text for this failure.
    pub fn message(&self) -> (r: &'static str)
        ensures
            r@ == self.spec_message(),
    {
        match self {
            SynthError::MissingSelfType => "The impl containing this function also needs to the dizpacho trait",
            SynthError::BindingInMethodGenerics { .. } => "type binding not supported here",
            SynthError::ConstraintInMethodGenerics { .. } => "constraint not supported here",
            SynthError::ConstInMethodGenerics { .. } => "const not supported here",
            SynthError::MissingTraitSegment => "the delegate path names no trait before the method name",
        }
    }
}

impl RewriteError {
    pub open spec fn spec_message(self) -> Seq<char> {
        match self {
            RewriteError::UnsupportedItem => "unsupported item! impl blocks and impl fns both need the attribute"@,
            RewriteError::DirectiveParse { .. } => "expected a reference to a trait method"@,
            RewriteError::Synth { error, .. } => error.spec_message(),
        }
    }

    /// The diagnostic text for this failure.
    pub fn message(&self) -> (r: &'static str)
        ensures
            r@ == self.spec_message(),
    {
        match self {
            RewriteError::UnsupportedItem => "unsupported item! impl blocks and impl fns both need the attribute",
            RewriteError::DirectiveParse { .. } => "expected a reference to a trait method",
            RewriteError::Synth { error, .. } => error.message(),
        }
    }
}

// ------------------------------------------------------------------
// the self-type placeholder
// ------------------------------------------------------------------

/// The reserved type text that stands for "the type this block belongs to".
pub open spec fn self_placeholder() -> Seq<char> {
    "Self"@
}

/// Decides whether `t` is written exactly as the self-type placeholder.
pub fn is_self_placeholder(t: &String) -> (b: bool)
    ensures
        b == (t@ == self_placeholder()),
{
    let lit: String = "Self".to_owned();
    t.eq(&lit)
}

/// Decides whether two type texts are equal.
pub fn text_eq(a: &String, b: &String) -> (r: bool)
    ensures
        r == (a@ == b@),
{
    a.eq(b)
}

// ------------------------------------------------------------------
// verified deep copies
//
// The copies promise, in their contracts, that the copy's view equals the
// original's; everything the rewriter states is stated over views.
// ------------------------------------------------------------------

pub fn clone_opt_text(o: &Option<String>) -> (r: Option<String>)
    ensures
        r == *o,
{
    match o {
        Some(s) => Some(s.clone()),
        None => None,
    }
}

pub fn clone_arg(a: &GenericArg) -> (r: GenericArg)
    ensures
        r == *a,
{
    match a {
        GenericArg::Lifetime { text } => GenericArg::Lifetime { text: text.clone() },
        GenericArg::TypeArg { text } => GenericArg::TypeArg { text: text.clone() },
        GenericArg::Binding { name, ty } => GenericArg::Binding {
            name: name.clone(),
            ty: ty.clone(),
        },
        GenericArg::Constraint { text } => GenericArg::Constraint { text: text.clone() },
        GenericArg::ConstArg { text } => GenericArg::ConstArg { text: text.clone() },
    }
}

pub fn clone_args(v: &Vec<GenericArg>) -> (r: Vec<GenericArg>)
    ensures
        r@ == v@,
{
    let mut r: Vec<GenericArg> = Vec::new();
    let mut i: usize = 0;
    proof {
        assert(r@ =~= v@.subrange(0, 0));
    }
    while i < v.len()
        invariant
            i <= v.len(),
            r@ == v@.subrange(0, i as int),
        decreases v.len() - i,
    {
        r.push(clone_arg(&v[i]));
        i = i + 1;
        proof {
            assert(r@ =~= v@.subrange(0, i as int));
        }
    }
    proof {
        assert(v@.subrange(0, v@.len() as int) =~= v@);
    }
    r
}

pub fn clone_opt_args(o: &Option<Vec<GenericArg>>) -> (r: Option<Vec<GenericArg>>)
    ensures
        opt_args_view(r) == opt_args_view(*o),
{
    match o {
        Some(v) => Some(clone_args(v)),
        None => None,
    }
}

pub fn clone_segment(s: &PathSegment) -> (r: PathSegment)
    ensures
        r@ == s@,
{
    PathSegment { ident: s.ident.clone(), args: clone_opt_args(&s.args) }
}

pub fn clone_path(p: &Vec<PathSegment>) -> (r: Vec<PathSegment>)
    ensures
        segs_view(r@) == segs_view(p@),
{
    let mut r: Vec<PathSegment> = Vec::new();
    let mut i: usize = 0;
    while i < p.len()
        invariant
            i <= p.len(),
            r@.len() == i as int,
            forall|j: int| 0 <= j < i as int ==> #[trigger] r@[j]@ == p@[j]@,
        decreases p.len() - i,
    {
        r.push(clone_segment(&p[i]));
        i = i + 1;
    }
    proof {
        assert(segs_view(r@) =~~= segs_view(p@));
    }
    r
}

pub fn clone_directive(d: &Directive) -> (r: Directive)
    ensures
        r@ == d@,
{
    let r = Directive {
        impl_generics: clone_opt_text(&d.impl_generics),
        path: clone_path(&d.path),
        target: clone_opt_text(&d.target),
        where_clause: clone_opt_text(&d.where_clause),
    };
    proof {
        assert(r@ =~= d@);
    }
    r
}

pub fn clone_input(i: &FnInput) -> (r: FnInput)
    ensures
        r == *i,
{
    match i {
        FnInput::Receiver { text } => FnInput::Receiver { text: text.clone() },
        FnInput::Typed { pat, ty } => FnInput::Typed { pat: pat.clone(), ty: ty.clone() },
    }
}

pub fn clone_param(p: &GenericParam) -> (r: GenericParam)
    ensures
        r == *p,
{
    match p {
        GenericParam::Lifetime { text } => GenericParam::Lifetime { text: text.clone() },
        GenericParam::TypeParam { text } => GenericParam::TypeParam { text: text.clone() },
    }
}

pub fn clone_opt_params(o: &Option<Vec<GenericParam>>) -> (r: Option<Vec<GenericParam>>)
    ensures
        opt_params_view(r) == opt_params_view(*o),
{
    match o {
        Some(v) => {
            let mut r: Vec<GenericParam> = Vec::new();
            let mut i: usize = 0;
            proof {
                assert(r@ =~= v@.subrange(0, 0));
            }
            while i < v.len()
                invariant
                    i <= v.len(),
                    r@ == v@.subrange(0, i as int),
                decreases v.len() - i,
            {
                r.push(clone_param(&v[i]));
                i = i + 1;
                proof {
                    assert(r@ =~= v@.subrange(0, i as int));
                }
            }
            proof {
                assert(v@.subrange(0, v@.len() as int) =~= v@);
            }
            Some(r)
        },
        None => None,
    }
}

pub fn clone_inputs(v: &Vec<FnInput>) -> (r: Vec<FnInput>)
    ensures
        r@ == v@,
{
    let mut r: Vec<FnInput> = Vec::new();
    let mut i: usize = 0;
    proof {
        assert(r@ =~= v@.subrange(0, 0));
    }
    while i < v.len()
        invariant
            i <= v.len(),
            r@ == v@.subrange(0, i as int),
        decreases v.len() - i,
    {
        r.push(clone_input(&v[i]));
        i = i + 1;
        proof {
            assert(r@ =~= v@.subrange(0, i as int));
        }
    }
    proof {
        assert(v@.subrange(0, v@.len() as int) =~= v@);
    }
    r
}

pub fn clone_sig(s: &Signature) -> (r: Signature)
    ensures
        r@ == s@,
{
    let r = Signature {
        name: s.name.clone(),
        generics: clone_opt_params(&s.generics),
        inputs: clone_inputs(&s.inputs),
        output: clone_opt_text(&s.output),
        where_clause: clone_opt_text(&s.where_clause),
    };
    proof {
        assert(r@ =~= s@);
    }
    r
}


// ------------------------------------------------------------------
// views of pushed sequences
// ------------------------------------------------------------------

pub proof fn lemma_args_view_push(s: Seq<GenericArg>, x: GenericArg)
    ensures
        args_view(s.push(x)) == args_view(s).push(x@),
{
    assert(args_view(s.push(x)) =~~= args_view(s).push(x@));
}

pub proof fn lemma_params_view_push(s: Seq<GenericParam>, x: GenericParam)
    ensures
        params_view(s.push(x)) == params_view(s).push(x@),
{
    assert(params_view(s.push(x)) =~~= params_view(s).push(x@));
}

pub proof fn lemma_assocs_view_push(s: Seq<AssocTypeDecl>, x: AssocTypeDecl)
    ensures
        assocs_view(s.push(x)) == assocs_view(s).push(x@),
{
    assert(assocs_view(s.push(x)) =~~= assocs_view(s).push(x@));
}




pub proof fn lemma_attrs_view_push(s: Seq<Attr>, x: Attr)
    ensures
        attrs_view(s.push(x)) == attrs_view(s).push(x@),
{
    assert(attrs_view(s.push(x)) =~~= attrs_view(s).push(x@));
}


pub proof fn lemma_impls_view_push(s: Seq<SynthImpl>, x: SynthImpl)
    ensures
        impls_view(s.push(x)) == impls_view(s).push(x@),
{
    assert(impls_view(s.push(x)) =~~= impls_view(s).push(x@));
}

} // verus!
