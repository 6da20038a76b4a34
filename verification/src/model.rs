//! Plain-value model of the parts of a function item that the rewriter reads
//! or writes.
//!
//! Everything the rewriting engine does not inspect (a parameter's pattern, a
//! pre-existing generic parameter, the referent of a reference type, the text
//! of a statement) is carried through as opaque surface text, so a caller can
//! round-trip a whole item through the rewriter.

use vstd::prelude::*;

verus! {

/// A borrow region identifier.
///
/// Regions written by the user, regions synthesized by the rewriter, and the
/// single synthetic body region live in separate namespaces, so a synthesized
/// name can never collide with a pre-existing one.
#[derive(Debug, PartialEq, Eq)]
pub enum Region {
    /// A region name written by the user in the input signature (without the
    /// leading tick), e.g. `a` for `'a`.
    Named(String),
    /// The `n`-th region synthesized for a reference that lacked an explicit
    /// region, rendered as `'life<n>`.
    Synth(u64),
    /// The synthetic body region that bounds the rewritten return type,
    /// rendered as `'async_recursion`.
    Body,
}

/// Mathematical model of a [`Region`].
#[verifier::ext_equal]
pub enum RegionV {
    Named(Seq<char>),
    Synth(int),
    Body,
}

impl View for Region {
    type V = RegionV;

    open spec fn view(&self) -> RegionV {
        match self {
            Region::Named(s) => RegionV::Named(s@),
            Region::Synth(n) => RegionV::Synth(*n as int),
            Region::Body => RegionV::Body,
        }
    }
}

impl Clone for Region {
    fn clone(&self) -> (r: Self)
        ensures
            r@ == self@,
    {
        match self {
            Region::Named(s) => Region::Named(s.clone()),
            Region::Synth(n) => Region::Synth(*n),
            Region::Body => Region::Body,
        }
    }
}

impl DeepView for Region {
    type V = RegionV;

    open spec fn deep_view(&self) -> RegionV {
        self@
    }
}

/// Decides equality of two regions at the level of their models.
pub fn region_eq(a: &Region, b: &Region) -> (r: bool)
    ensures
        r == (a@ == b@),
{
    match (a, b) {
        (Region::Named(x), Region::Named(y)) => *x == *y,
        (Region::Synth(x), Region::Synth(y)) => *x == *y,
        (Region::Body, Region::Body) => true,
        _ => false,
    }
}

/// A generic parameter of a signature.
#[derive(Debug, PartialEq, Eq)]
pub enum GenericParam {
    /// A pre-existing generic parameter (a type, const, or region parameter
    /// together with its bounds), carried through untouched as surface text.
    Opaque(String),
    /// A region parameter declared by the rewriter.
    Region(Region),
}

/// Mathematical model of a [`GenericParam`].
#[verifier::ext_equal]
pub enum GenericParamV {
    Opaque(Seq<char>),
    Region(RegionV),
}

impl View for GenericParam {
    type V = GenericParamV;

    open spec fn view(&self) -> GenericParamV {
        match self {
            GenericParam::Opaque(s) => GenericParamV::Opaque(s@),
            GenericParam::Region(r) => GenericParamV::Region(r@),
        }
    }
}

impl DeepView for GenericParam {
    type V = GenericParamV;

    open spec fn deep_view(&self) -> GenericParamV {
        self@
    }
}

/// A borrowed-reference type: `&'region mut? elem`.
#[derive(Debug, PartialEq, Eq)]
pub struct RefType {
    /// The explicit region of the reference, if any is named.
    pub region: Option<Region>,
    /// Whether the reference is a mutable one.
    pub mutable: bool,
    /// The referent type, carried through untouched as surface text.
    pub elem: String,
}

/// Mathematical model of a [`RefType`].
#[verifier::ext_equal]
pub struct RefTypeV {
    pub region: Option<RegionV>,
    pub mutable: bool,
    pub elem: Seq<char>,
}

impl View for RefType {
    type V = RefTypeV;

    open spec fn view(&self) -> RefTypeV {
        RefTypeV { region: self.region.deep_view(), mutable: self.mutable, elem: self.elem@ }
    }
}

impl DeepView for RefType {
    type V = RefTypeV;

    open spec fn deep_view(&self) -> RefTypeV {
        self@
    }
}

impl Clone for RefType {
    fn clone(&self) -> (r: Self)
        ensures
            r@ == self@,
    {
        RefType {
            region: match &self.region {
                Some(rg) => Some(rg.clone()),
                None => None,
            },
            mutable: self.mutable,
            elem: self.elem.clone(),
        }
    }
}

/// The declared type of a value parameter.
#[derive(Debug, PartialEq, Eq)]
pub enum ParamType {
    /// Any type that is not a borrowed reference, carried through untouched
    /// as surface text.
    Plain(String),
    /// A borrowed-reference type.
    Reference(RefType),
}

/// Mathematical model of a [`ParamType`].
#[verifier::ext_equal]
pub enum ParamTypeV {
    Plain(Seq<char>),
    Reference(RefTypeV),
}

impl View for ParamType {
    type V = ParamTypeV;

    open spec fn view(&self) -> ParamTypeV {
        match self {
            ParamType::Plain(s) => ParamTypeV::Plain(s@),
            ParamType::Reference(r) => ParamTypeV::Reference(r@),
        }
    }
}

impl DeepView for ParamType {
    type V = ParamTypeV;

    open spec fn deep_view(&self) -> ParamTypeV {
        self@
    }
}

impl Clone for ParamType {
    fn clone(&self) -> (r: Self)
        ensures
            r@ == self@,
    {
        match self {
            ParamType::Plain(s) => ParamType::Plain(s.clone()),
            ParamType::Reference(rt) => ParamType::Reference(rt.clone()),
        }
    }
}

/// A value parameter: a binding pattern and its declared type.
#[derive(Debug, PartialEq, Eq)]
pub struct Param {
    /// The binding pattern, carried through untouched as surface text.
    pub pattern: String,
    /// The declared type.
    pub ty: ParamType,
}

/// Mathematical model of a [`Param`].
#[verifier::ext_equal]
pub struct ParamV {
    pub pattern: Seq<char>,
    pub ty: ParamTypeV,
}

impl View for Param {
    type V = ParamV;

    open spec fn view(&self) -> ParamV {
        ParamV { pattern: self.pattern@, ty: self.ty@ }
    }
}

impl DeepView for Param {
    type V = ParamV;

    open spec fn deep_view(&self) -> ParamV {
        self@
    }
}

impl Clone for Param {
    fn clone(&self) -> (r: Self)
        ensures
            r@ == self@,
    {
        Param { pattern: self.pattern.clone(), ty: self.ty.clone() }
    }
}

/// The self-receiver of a method signature.
#[derive(Debug, PartialEq, Eq)]
pub enum Receiver {
    /// The receiver is taken by value.
    Owned,
    /// The receiver is taken by reference, with an optional named region.
    Ref { region: Option<Region>, mutable: bool },
}

/// Mathematical model of a [`Receiver`].
#[verifier::ext_equal]
pub enum ReceiverV {
    Owned,
    Ref { region: Option<RegionV>, mutable: bool },
}

impl View for Receiver {
    type V = ReceiverV;

    open spec fn view(&self) -> ReceiverV {
        match self {
            Receiver::Owned => ReceiverV::Owned,
            Receiver::Ref { region, mutable } => ReceiverV::Ref {
                region: region.deep_view(),
                mutable: *mutable,
            },
        }
    }
}

impl DeepView for Receiver {
    type V = ReceiverV;

    open spec fn deep_view(&self) -> ReceiverV {
        self@
    }
}

/// A predicate of the signature's constraint clause.
#[derive(Debug, PartialEq, Eq)]
pub enum WherePredicate {
    /// A pre-existing predicate, carried through untouched as surface text.
    Opaque(String),
    /// `Outlives(r, b)` states that region `r` is valid at least as long as
    /// region `b`, written `'r : 'b`.
    Outlives(Region, Region),
}

/// Mathematical model of a [`WherePredicate`].
#[verifier::ext_equal]
pub enum WherePredicateV {
    Opaque(Seq<char>),
    Outlives(RegionV, RegionV),
}

impl View for WherePredicate {
    type V = WherePredicateV;

    open spec fn view(&self) -> WherePredicateV {
        match self {
            WherePredicate::Opaque(s) => WherePredicateV::Opaque(s@),
            WherePredicate::Outlives(r, b) => WherePredicateV::Outlives(r@, b@),
        }
    }
}

impl DeepView for WherePredicate {
    type V = WherePredicateV;

    open spec fn deep_view(&self) -> WherePredicateV {
        self@
    }
}

impl Clone for WherePredicate {
    fn clone(&self) -> (r: Self)
        ensures
            r@ == self@,
    {
        match self {
            WherePredicate::Opaque(s) => WherePredicate::Opaque(s.clone()),
            WherePredicate::Outlives(a, b) => WherePredicate::Outlives(a.clone(), b.clone()),
        }
    }
}

/// The rewritten return type: a heap-allocated, pinned, dynamically
/// dispatched asynchronous computation.
#[derive(Debug, PartialEq, Eq)]
pub struct BoxedFuture {
    /// The original return type's surface text; `None` stands for the unit
    /// type.
    pub output: Option<String>,
    /// The computation is bounded by the synthetic body region.
    pub body_region: bool,
    /// The computation carries the thread-transferability bound.
    pub send: bool,
    /// The computation carries the thread-shareability bound.
    pub sync: bool,
}

/// Mathematical model of a [`BoxedFuture`].
#[verifier::ext_equal]
pub struct BoxedFutureV {
    pub output: Option<Seq<char>>,
    pub body_region: bool,
    pub send: bool,
    pub sync: bool,
}

impl View for BoxedFuture {
    type V = BoxedFutureV;

    open spec fn view(&self) -> BoxedFutureV {
        BoxedFutureV {
            output: self.output.deep_view(),
            body_region: self.body_region,
            send: self.send,
            sync: self.sync,
        }
    }
}

impl DeepView for BoxedFuture {
    type V = BoxedFutureV;

    open spec fn deep_view(&self) -> BoxedFutureV {
        self@
    }
}

/// The return type of a signature.
#[derive(Debug, PartialEq, Eq)]
pub enum ReturnType {
    /// No declared return type, which stands for the unit type.
    Default,
    /// A declared return type, carried through untouched as surface text.
    Type(String),
    /// The rewritten, heap-indirected return type.
    Boxed(BoxedFuture),
}

/// Mathematical model of a [`ReturnType`].
#[verifier::ext_equal]
pub enum ReturnTypeV {
    Default,
    Type(Seq<char>),
    Boxed(BoxedFutureV),
}

impl View for ReturnType {
    type V = ReturnTypeV;

    open spec fn view(&self) -> ReturnTypeV {
        match self {
            ReturnType::Default => ReturnTypeV::Default,
            ReturnType::Type(s) => ReturnTypeV::Type(s@),
            ReturnType::Boxed(b) => ReturnTypeV::Boxed(b@),
        }
    }
}

impl DeepView for ReturnType {
    type V = ReturnTypeV;

    open spec fn deep_view(&self) -> ReturnTypeV {
        self@
    }
}

/// A function signature.
#[derive(Debug, PartialEq, Eq)]
pub struct Signature {
    /// The function's name.
    pub name: String,
    /// Whether the signature is declared asynchronous.
    pub asyncness: bool,
    /// The ordered generic-parameter list.
    pub generics: Vec<GenericParam>,
    /// The optional self-receiver.
    pub receiver: Option<Receiver>,
    /// The ordered value-parameter list, the receiver excluded.
    pub inputs: Vec<Param>,
    /// The return type.
    pub output: ReturnType,
    /// The optional constraint clause; `None` when the signature has no such
    /// clause at all.
    pub where_clause: Option<Vec<WherePredicate>>,
}

/// Mathematical model of a [`Signature`].
#[verifier::ext_equal]
pub struct SignatureV {
    pub name: Seq<char>,
    pub asyncness: bool,
    pub generics: Seq<GenericParamV>,
    pub receiver: Option<ReceiverV>,
    pub inputs: Seq<ParamV>,
    pub output: ReturnTypeV,
    pub where_clause: Option<Seq<WherePredicateV>>,
}

impl View for Signature {
    type V = SignatureV;

    open spec fn view(&self) -> SignatureV {
        SignatureV {
            name: self.name@,
            asyncness: self.asyncness,
            generics: self.generics.deep_view(),
            receiver: self.receiver.deep_view(),
            inputs: self.inputs.deep_view(),
            output: self.output@,
            where_clause: self.where_clause.deep_view(),
        }
    }
}

impl DeepView for Signature {
    type V = SignatureV;

    open spec fn deep_view(&self) -> SignatureV {
        self@
    }
}

/// A function body.
#[derive(Debug, PartialEq, Eq)]
pub enum Block {
    /// A plain block; its statement sequence is carried through untouched as
    /// surface text.
    Plain(String),
    /// A block whose single expression is an immediately heap-allocated,
    /// pinned indirection around a move-capturing asynchronous block holding
    /// the inner block: `{ Box::pin(async move <inner>) }`.
    Pinned(Box<Block>),
}

/// Mathematical model of a [`Block`]: the statement text of the innermost
/// block together with the number of heap-indirection wrappers around it.
#[verifier::ext_equal]
pub struct BlockV {
    pub wraps: nat,
    pub stmts: Seq<char>,
}

/// The model of a block, by structural recursion.
pub open spec fn block_view(b: Block) -> BlockV
    decreases b,
{
    match b {
        Block::Plain(s) => BlockV { wraps: 0, stmts: s@ },
        Block::Pinned(inner) => BlockV {
            wraps: block_view(*inner).wraps + 1,
            stmts: block_view(*inner).stmts,
        },
    }
}

impl View for Block {
    type V = BlockV;

    open spec fn view(&self) -> BlockV {
        block_view(*self)
    }
}

impl DeepView for Block {
    type V = BlockV;

    open spec fn deep_view(&self) -> BlockV {
        self@
    }
}

} // verus!
