use async_recursion::expand::{expand, transform_block, transform_sig, ArgLifetime};
use async_recursion::model::{
    Block, BoxedFuture, GenericParam, Param, ParamType, Receiver, RefType, Region, ReturnType,
    Signature, WherePredicate,
};
use async_recursion::parse::{AsyncItem, RecursionArgs};

fn plain_param(pattern: &str, ty: &str) -> Param {
    Param { pattern: pattern.to_string(), ty: ParamType::Plain(ty.to_string()) }
}

fn ref_param(pattern: &str, region: Option<Region>, elem: &str) -> Param {
    Param {
        pattern: pattern.to_string(),
        ty: ParamType::Reference(RefType { region, mutable: false, elem: elem.to_string() }),
    }
}

fn named(name: &str) -> Region {
    Region::Named(name.to_string())
}

fn base_sig(inputs: Vec<Param>) -> Signature {
    Signature {
        name: "f".to_string(),
        asyncness: true,
        generics: Vec::new(),
        receiver: None,
        inputs,
        output: ReturnType::Type("U".to_string()),
        where_clause: None,
    }
}

fn default_args() -> RecursionArgs {
    RecursionArgs::default()
}

fn boxed(output: Option<&str>, body_region: bool, send: bool, sync: bool) -> ReturnType {
    ReturnType::Boxed(BoxedFuture {
        output: output.map(|s| s.to_string()),
        body_region,
        send,
        sync,
    })
}

#[test]
fn scenario_no_references() {
    // fn f(x: T) -> U with the default configuration: no new generics, no
    // constraint clause, only the thread-transferability bound.
    let mut sig = base_sig(vec![plain_param("x", "T")]);
    transform_sig(&mut sig, &default_args());
    assert!(!sig.asyncness);
    assert!(sig.generics.is_empty());
    assert!(sig.where_clause.is_none());
    assert_eq!(sig.inputs, vec![plain_param("x", "T")]);
    assert_eq!(sig.output, boxed(Some("U"), false, true, false));
}

#[test]
fn scenario_named_reference() {
    // fn f<'a>(x: &'a T) -> U gains a body region, one predicate binding 'a
    // to it, and a return type bounded by the body region.
    let mut sig = base_sig(vec![ref_param("x", Some(named("a")), "T")]);
    sig.generics = vec![GenericParam::Region(named("a"))];
    transform_sig(&mut sig, &default_args());
    assert_eq!(
        sig.generics,
        vec![GenericParam::Region(named("a")), GenericParam::Region(Region::Body)]
    );
    assert_eq!(
        sig.where_clause,
        Some(vec![WherePredicate::Outlives(named("a"), Region::Body)])
    );
    assert_eq!(sig.inputs, vec![ref_param("x", Some(named("a")), "T")]);
    assert_eq!(sig.output, boxed(Some("U"), true, true, false));
}

#[test]
fn scenario_unnamed_reference() {
    // fn f(x: &T) -> U: one region is synthesized, declared as a generic
    // parameter, attached to the parameter, and bound to the body region.
    let mut sig = base_sig(vec![ref_param("x", None, "T")]);
    transform_sig(&mut sig, &default_args());
    assert_eq!(
        sig.generics,
        vec![GenericParam::Region(Region::Synth(0)), GenericParam::Region(Region::Body)]
    );
    assert_eq!(
        sig.where_clause,
        Some(vec![WherePredicate::Outlives(Region::Synth(0), Region::Body)])
    );
    assert_eq!(sig.inputs, vec![ref_param("x", Some(Region::Synth(0)), "T")]);
    assert_eq!(sig.output, boxed(Some("U"), true, true, false));
}

#[test]
fn scenario_receiver_without_send() {
    // A method with an elided by-reference receiver and no other reference,
    // under `?Send`: self's region is synthesized and bound to the body
    // region, and the return type carries no thread-transferability bound.
    let mut sig = base_sig(vec![plain_param("n", "u32")]);
    sig.receiver = Some(Receiver::Ref { region: None, mutable: false });
    let args = RecursionArgs { send_bound: false, sync_bound: false };
    transform_sig(&mut sig, &args);
    assert_eq!(
        sig.generics,
        vec![GenericParam::Region(Region::Body), GenericParam::Region(Region::Synth(0))]
    );
    assert_eq!(
        sig.receiver,
        Some(Receiver::Ref { region: Some(Region::Synth(0)), mutable: false })
    );
    assert_eq!(
        sig.where_clause,
        Some(vec![WherePredicate::Outlives(Region::Synth(0), Region::Body)])
    );
    assert_eq!(sig.output, boxed(Some("U"), true, false, false));
}

#[test]
fn receiver_with_named_region() {
    let mut sig = base_sig(vec![]);
    sig.receiver = Some(Receiver::Ref { region: Some(named("s")), mutable: false });
    transform_sig(&mut sig, &default_args());
    assert_eq!(sig.generics, vec![GenericParam::Region(Region::Body)]);
    assert_eq!(
        sig.receiver,
        Some(Receiver::Ref { region: Some(named("s")), mutable: false })
    );
    assert_eq!(
        sig.where_clause,
        Some(vec![WherePredicate::Outlives(named("s"), Region::Body)])
    );
}

#[test]
fn owned_receiver_adds_nothing() {
    let mut sig = base_sig(vec![plain_param("x", "T")]);
    sig.receiver = Some(Receiver::Owned);
    transform_sig(&mut sig, &default_args());
    assert!(sig.generics.is_empty());
    assert!(sig.where_clause.is_none());
    assert_eq!(sig.receiver, Some(Receiver::Owned));
}

#[test]
fn receiver_is_skipped_when_other_references_exist() {
    // With both a by-reference receiver and a reference parameter, only the
    // parameter's region is collected; the receiver keeps its elided region.
    let mut sig = base_sig(vec![ref_param("x", None, "T")]);
    sig.receiver = Some(Receiver::Ref { region: None, mutable: true });
    transform_sig(&mut sig, &default_args());
    assert_eq!(sig.receiver, Some(Receiver::Ref { region: None, mutable: true }));
    assert_eq!(
        sig.generics,
        vec![GenericParam::Region(Region::Synth(0)), GenericParam::Region(Region::Body)]
    );
    assert_eq!(
        sig.where_clause,
        Some(vec![WherePredicate::Outlives(Region::Synth(0), Region::Body)])
    );
}

#[test]
fn shared_region_bound_once() {
    // Two parameters naming the same region yield a single predicate.
    let mut sig = base_sig(vec![
        ref_param("x", Some(named("a")), "T"),
        ref_param("y", Some(named("a")), "T"),
    ]);
    transform_sig(&mut sig, &default_args());
    assert_eq!(
        sig.where_clause,
        Some(vec![WherePredicate::Outlives(named("a"), Region::Body)])
    );
    assert_eq!(sig.generics, vec![GenericParam::Region(Region::Body)]);
}

#[test]
fn mixed_parameters_number_regions_in_order() {
    // fn f(a: &A, b: B, c: &'x C, d: &D): the two elided regions become
    // 'life0 and 'life1 in parameter order; 'x is reused, never re-declared.
    let mut sig = base_sig(vec![
        ref_param("a", None, "A"),
        plain_param("b", "B"),
        ref_param("c", Some(named("x")), "C"),
        ref_param("d", None, "D"),
    ]);
    transform_sig(&mut sig, &default_args());
    assert_eq!(
        sig.inputs,
        vec![
            ref_param("a", Some(Region::Synth(0)), "A"),
            plain_param("b", "B"),
            ref_param("c", Some(named("x")), "C"),
            ref_param("d", Some(Region::Synth(1)), "D"),
        ]
    );
    assert_eq!(
        sig.generics,
        vec![
            GenericParam::Region(Region::Synth(0)),
            GenericParam::Region(Region::Synth(1)),
            GenericParam::Region(Region::Body),
        ]
    );
    assert_eq!(
        sig.where_clause,
        Some(vec![
            WherePredicate::Outlives(Region::Synth(0), Region::Body),
            WherePredicate::Outlives(named("x"), Region::Body),
            WherePredicate::Outlives(Region::Synth(1), Region::Body),
        ])
    );
}

#[test]
fn existing_clause_predicates_are_kept() {
    let mut sig = base_sig(vec![ref_param("x", None, "T")]);
    sig.where_clause = Some(vec![WherePredicate::Opaque("T: Clone".to_string())]);
    transform_sig(&mut sig, &default_args());
    assert_eq!(
        sig.where_clause,
        Some(vec![
            WherePredicate::Opaque("T: Clone".to_string()),
            WherePredicate::Outlives(Region::Synth(0), Region::Body),
        ])
    );
}

#[test]
fn absent_return_type_becomes_unit_output() {
    let mut sig = base_sig(vec![]);
    sig.output = ReturnType::Default;
    transform_sig(&mut sig, &default_args());
    assert_eq!(sig.output, boxed(None, false, true, false));
}

#[test]
fn sync_bound_is_carried() {
    let mut sig = base_sig(vec![]);
    let args = RecursionArgs { send_bound: true, sync_bound: true };
    transform_sig(&mut sig, &args);
    assert_eq!(sig.output, boxed(Some("U"), false, true, true));
}

#[test]
fn generics_other_than_regions_are_kept() {
    let mut sig = base_sig(vec![ref_param("x", None, "T")]);
    sig.generics = vec![GenericParam::Opaque("T: Send".to_string())];
    transform_sig(&mut sig, &default_args());
    assert_eq!(
        sig.generics,
        vec![
            GenericParam::Opaque("T: Send".to_string()),
            GenericParam::Region(Region::Synth(0)),
            GenericParam::Region(Region::Body),
        ]
    );
}

#[test]
fn name_is_preserved() {
    let mut sig = base_sig(vec![]);
    sig.name = "fib".to_string();
    transform_sig(&mut sig, &default_args());
    assert_eq!(sig.name, "fib");
}

#[test]
fn block_is_wrapped_once() {
    let mut block = Block::Plain("self.calc(n)".to_string());
    transform_block(&mut block);
    assert_eq!(block, Block::Pinned(Box::new(Block::Plain("self.calc(n)".to_string()))));
}

#[test]
fn expand_rewrites_signature_and_block() {
    let sig = base_sig(vec![ref_param("x", None, "T")]);
    let block = Block::Plain("x.touch()".to_string());
    let mut item = AsyncItem::new(sig, block).unwrap();
    expand(&mut item, &default_args());
    assert!(!item.sig.asyncness);
    assert_eq!(item.sig.output, boxed(Some("U"), true, true, false));
    assert_eq!(item.block, Block::Pinned(Box::new(Block::Plain("x.touch()".to_string()))));
}

#[test]
fn non_async_item_is_rejected() {
    // Scenario: the target item is not an asynchronous function.
    let mut sig = base_sig(vec![]);
    sig.asyncness = false;
    let e = AsyncItem::new(sig, Block::Plain(String::new())).unwrap_err();
    assert_eq!(e.message(), "expected an async function");
}

#[test]
fn arg_lifetime_accessor_ignores_the_tag() {
    assert_eq!(ArgLifetime::New(Region::Synth(3)).lifetime(), Region::Synth(3));
    assert_eq!(ArgLifetime::Existing(named("a")).lifetime(), named("a"));
}
