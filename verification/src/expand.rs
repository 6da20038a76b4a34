//! The signature and body rewriting engine.
//!
//! [`transform_sig`] computes the borrow regions the signature depends on,
//! synthesizes missing ones, threads them through one synthetic body region,
//! and replaces the return type by a heap-allocated, pinned, dynamically
//! dispatched future. [`transform_block`] wraps the body in the matching
//! heap-indirected asynchronous block. [`expand`] applies both to a whole
//! item.

use vstd::prelude::*;

use crate::model::{
    Block, BoxedFuture, BoxedFutureV, GenericParam, GenericParamV, Param, ParamTypeV,
    ParamV, RefTypeV, Receiver, ReceiverV, Region, RegionV, ReturnType, ReturnTypeV, Signature,
    SignatureV, WherePredicate, WherePredicateV,
};
use crate::model::{ParamType, RefType};
use crate::model::region_eq;
use crate::parse::{AsyncItem, RecursionArgs};

verus! {

/// A borrow region collected from a reference parameter, tagged by whether
/// the rewriter introduced it (and must also declare it as a generic
/// parameter) or found it already named in the signature (and must never
/// re-declare it).
#[derive(Debug, PartialEq, Eq)]
pub enum ArgLifetime {
    New(Region),
    Existing(Region),
}

/// Mathematical model of an [`ArgLifetime`].
#[verifier::ext_equal]
pub enum ArgLifetimeV {
    New(RegionV),
    Existing(RegionV),
}

impl View for ArgLifetime {
    type V = ArgLifetimeV;

    open spec fn view(&self) -> ArgLifetimeV {
        match self {
            ArgLifetime::New(r) => ArgLifetimeV::New(r@),
            ArgLifetime::Existing(r) => ArgLifetimeV::Existing(r@),
        }
    }
}

impl DeepView for ArgLifetime {
    type V = ArgLifetimeV;

    open spec fn deep_view(&self) -> ArgLifetimeV {
        self@
    }
}

impl ArgLifetimeV {
    /// The underlying region, whatever the tag.
    pub open spec fn region(self) -> RegionV {
        match self {
            ArgLifetimeV::New(r) => r,
            ArgLifetimeV::Existing(r) => r,
        }
    }
}

impl ArgLifetime {
    /// Extracts the underlying region, whatever the tag.
    pub fn lifetime(self) -> (r: Region)
        ensures
            r@ == self@.region(),
    {
        match self {
            ArgLifetime::New(lt) => lt,
            ArgLifetime::Existing(lt) => lt,
        }
    }
}

/// Whether the working set `acc` already holds region `r`, collected from a
/// parameter that named it explicitly.
pub open spec fn contains_existing(acc: Seq<ArgLifetimeV>, r: RegionV) -> bool {
    exists|j: int| 0 <= j < acc.len() && acc[j] == ArgLifetimeV::Existing(r)
}

/// The working set of borrow regions after scanning the parameter list `ps`,
/// the synthesis counter standing at `counter` and the regions in `acc`
/// already collected: one freshly synthesized region per reference parameter
/// without an explicit region, in parameter order, and every explicitly named
/// region once, at its first occurrence.
pub open spec fn collect_regions(
    ps: Seq<ParamV>,
    counter: int,
    acc: Seq<ArgLifetimeV>,
) -> Seq<ArgLifetimeV>
    decreases ps.len(),
{
    if ps.len() == 0 {
        acc
    } else {
        let rest = ps.drop_first();
        match ps[0].ty {
            ParamTypeV::Reference(rt) => match rt.region {
                None => collect_regions(
                    rest,
                    counter + 1,
                    acc.push(ArgLifetimeV::New(RegionV::Synth(counter))),
                ),
                Some(r) => if contains_existing(acc, r) {
                    collect_regions(rest, counter, acc)
                } else {
                    collect_regions(rest, counter, acc.push(ArgLifetimeV::Existing(r)))
                },
            },
            ParamTypeV::Plain(_) => collect_regions(rest, counter, acc),
        }
    }
}

/// The parameter list with a freshly synthesized region, numbered from
/// `counter` on in parameter order, attached to every reference parameter
/// that lacked an explicit one; all other parameters unchanged.
pub open spec fn assign_regions(ps: Seq<ParamV>, counter: int) -> Seq<ParamV>
    decreases ps.len(),
{
    if ps.len() == 0 {
        ps
    } else {
        let rest = ps.drop_first();
        match ps[0].ty {
            ParamTypeV::Reference(rt) => match rt.region {
                None => seq![
                    ParamV {
                        pattern: ps[0].pattern,
                        ty: ParamTypeV::Reference(
                            RefTypeV {
                                region: Some(RegionV::Synth(counter)),
                                mutable: rt.mutable,
                                elem: rt.elem,
                            },
                        ),
                    },
                ] + assign_regions(rest, counter + 1),
                Some(_) => seq![ps[0]] + assign_regions(rest, counter),
            },
            ParamTypeV::Plain(_) => seq![ps[0]] + assign_regions(rest, counter),
        }
    }
}

/// The region parameters the rewriter must declare: one generic parameter per
/// freshly synthesized region of the working set, in collection order.
pub open spec fn new_region_params(lts: Seq<ArgLifetimeV>) -> Seq<GenericParamV>
    decreases lts.len(),
{
    if lts.len() == 0 {
        Seq::empty()
    } else {
        match lts[0] {
            ArgLifetimeV::New(r) => seq![GenericParamV::Region(r)] + new_region_params(
                lts.drop_first(),
            ),
            ArgLifetimeV::Existing(_) => new_region_params(lts.drop_first()),
        }
    }
}

/// One outlives predicate per collected region, in collection order: the
/// region is valid at least as long as the body region.
pub open spec fn outlives_predicates(lts: Seq<ArgLifetimeV>) -> Seq<WherePredicateV>
    decreases lts.len(),
{
    if lts.len() == 0 {
        Seq::empty()
    } else {
        seq![WherePredicateV::Outlives(lts[0].region(), RegionV::Body)] + outlives_predicates(
            lts.drop_first(),
        )
    }
}

/// The predicates of the signature's constraint clause, an absent clause
/// standing for none.
pub open spec fn clause_predicates(s: SignatureV) -> Seq<WherePredicateV> {
    match s.where_clause {
        Some(ps) => ps,
        None => Seq::empty(),
    }
}

/// The original return type as the future's result: a declared type stands
/// for itself, an absent one for the unit type.
pub open spec fn future_output(output: ReturnTypeV) -> Option<Seq<char>> {
    match output {
        ReturnTypeV::Default => None,
        ReturnTypeV::Type(t) => Some(t),
        ReturnTypeV::Boxed(b) => b.output,
    }
}

/// The rewritten return type: a heap-allocated, pinned, dynamically
/// dispatched future of the original return type, bounded by the body region
/// when one was introduced and by the configured thread capabilities.
pub open spec fn boxed_output(
    output: ReturnTypeV,
    body_region: bool,
    args: RecursionArgs,
) -> ReturnTypeV {
    ReturnTypeV::Boxed(
        BoxedFutureV {
            output: future_output(output),
            body_region: body_region,
            send: args.send_bound,
            sync: args.sync_bound,
        },
    )
}

/// The rewritten signature.
///
/// When the parameter list holds borrowed references, every collected region
/// is bounded by one new body region; otherwise a by-reference self-receiver
/// alone is, its region synthesized first when it is elided; with no borrowed
/// input at all, nothing is added. The asynchronous flag is cleared and the
/// return type is replaced by the heap-indirected future, bounded by the body
/// region exactly when one was introduced.
pub open spec fn spec_transform_sig(s: SignatureV, args: RecursionArgs) -> SignatureV {
    let lts = collect_regions(s.inputs, 0, Seq::empty());
    if lts.len() > 0 {
        SignatureV {
            asyncness: false,
            generics: s.generics + new_region_params(lts) + seq![
                GenericParamV::Region(RegionV::Body),
            ],
            inputs: assign_regions(s.inputs, 0),
            output: boxed_output(s.output, true, args),
            where_clause: Some(clause_predicates(s) + outlives_predicates(lts)),
            receiver: s.receiver,
            name: s.name,
        }
    } else {
        match s.receiver {
            Some(ReceiverV::Ref { region: Some(r), mutable }) => SignatureV {
                asyncness: false,
                generics: s.generics + seq![GenericParamV::Region(RegionV::Body)],
                inputs: s.inputs,
                output: boxed_output(s.output, true, args),
                where_clause: Some(
                    clause_predicates(s) + seq![
                        WherePredicateV::Outlives(r, RegionV::Body),
                    ],
                ),
                receiver: s.receiver,
                name: s.name,
            },
            Some(ReceiverV::Ref { region: None, mutable }) => SignatureV {
                asyncness: false,
                generics: s.generics + seq![
                    GenericParamV::Region(RegionV::Body),
                    GenericParamV::Region(RegionV::Synth(0)),
                ],
                inputs: s.inputs,
                output: boxed_output(s.output, true, args),
                where_clause: Some(
                    clause_predicates(s) + seq![
                        WherePredicateV::Outlives(RegionV::Synth(0), RegionV::Body),
                    ],
                ),
                receiver: Some(ReceiverV::Ref { region: Some(RegionV::Synth(0)), mutable }),
                name: s.name,
            },
            _ => SignatureV {
                asyncness: false,
                generics: s.generics,
                inputs: s.inputs,
                output: boxed_output(s.output, false, args),
                where_clause: s.where_clause,
                receiver: s.receiver,
                name: s.name,
            },
        }
    }
}

/// Whether the working set already holds `r` as an explicitly named region.
fn holds_existing(lts: &Vec<ArgLifetime>, r: &Region) -> (b: bool)
    ensures
        b == contains_existing(lts.deep_view(), r@),
{
    let n = lts.len();
    let mut j: usize = 0;
    let mut found = false;
    while j < n
        invariant
            j <= n,
            n == lts.len(),
            found == exists|k: int|
                0 <= k < j && lts.deep_view()[k] == ArgLifetimeV::Existing(r@),
        decreases n - j,
    {
        proof {
            assert(lts.deep_view()[j as int] == lts@[j as int]@);
        }
        match &lts[j] {
            ArgLifetime::Existing(e) => {
                if region_eq(e, r) {
                    found = true;
                    assert(lts.deep_view()[j as int] == ArgLifetimeV::Existing(r@));
                }
            },
            _ => {},
        }
        j = j + 1;
    }
    found
}

/// Clones a predicate list.
fn clone_predicates(v: &Vec<WherePredicate>) -> (r: Vec<WherePredicate>)
    ensures
        r.deep_view() == v.deep_view(),
{
    let n = v.len();
    let mut out: Vec<WherePredicate> = Vec::new();
    let mut j: usize = 0;
    proof {
        assert(out.deep_view() =~= v.deep_view().take(0));
    }
    while j < n
        invariant
            j <= n,
            n == v.len(),
            out.deep_view() == v.deep_view().take(j as int),
        decreases n - j,
    {
        let ghost pre = out.deep_view();
        out.push(v[j].clone());
        j = j + 1;
        proof {
            assert(out.deep_view() =~= pre.push(v.deep_view()[j - 1]));
            assert(out.deep_view() =~= v.deep_view().take(j as int));
        }
    }
    proof {
        assert(v.deep_view().take(n as int) =~= v.deep_view());
    }
    out
}

/// Rewrites the signature in place, deterministically, as
/// [`spec_transform_sig`] describes: the asynchronous flag is cleared, every
/// reference parameter without an explicit region receives a fresh,
/// sequentially numbered one, the collected regions are bounded by one new
/// body region, and the return type becomes the heap-indirected future.
pub fn transform_sig(sig: &mut Signature, args: &RecursionArgs)
    requires
        old(sig)@.asyncness,
    ensures
        final(sig)@ == spec_transform_sig(old(sig)@, *args),
{
    let ghost s0 = old(sig)@;

    // Capture the original return type.
    let ret: Option<String> = match &sig.output {
        ReturnType::Default => None,
        ReturnType::Type(t) => Some(t.clone()),
        ReturnType::Boxed(b) => match &b.output {
            Some(t) => Some(t.clone()),
            None => None,
        },
    };
    assert(ret.deep_view() == future_output(s0.output));

    // Scan the value parameters: collect the working set of borrow regions
    // and attach a fresh region to every reference that lacks one.
    let n = sig.inputs.len();
    let mut new_inputs: Vec<Param> = Vec::new();
    let mut lts: Vec<ArgLifetime> = Vec::new();
    let mut counter: u64 = 0;
    let mut idx: usize = 0;
    proof {
        assert(s0.inputs.skip(0) =~= s0.inputs);
        assert(new_inputs.deep_view() =~= Seq::<ParamV>::empty());
        assert(lts.deep_view() =~= Seq::<ArgLifetimeV>::empty());
        assert(new_inputs.deep_view() + assign_regions(s0.inputs, 0) =~= assign_regions(
            s0.inputs,
            0,
        ));
    }
    while idx < n
        invariant
            idx <= n,
            n == sig.inputs.len(),
            sig@ == s0,
            counter as int <= idx as int,
            new_inputs.deep_view() + assign_regions(s0.inputs.skip(idx as int), counter as int)
                == assign_regions(s0.inputs, 0),
            collect_regions(s0.inputs.skip(idx as int), counter as int, lts.deep_view())
                == collect_regions(s0.inputs, 0, Seq::empty()),
        decreases n - idx,
    {
        let ghost pre_inputs = new_inputs.deep_view();
        let ghost pre_lts = lts.deep_view();
        let ghost pre_counter = counter as int;
        let ghost rest = s0.inputs.skip(idx as int);
        proof {
            assert(rest[0] == s0.inputs[idx as int]);
            assert(rest.drop_first() =~= s0.inputs.skip(idx as int + 1));
            assert(s0.inputs[idx as int] == sig.inputs@[idx as int]@);
        }
        let param = &sig.inputs[idx];
        match &param.ty {
            ParamType::Plain(_) => {
                new_inputs.push(param.clone());
                proof {
                    assert(new_inputs.deep_view() =~= pre_inputs.push(rest[0]));
                    assert(assign_regions(rest, pre_counter) =~= seq![rest[0]] + assign_regions(
                        rest.drop_first(),
                        pre_counter,
                    ));
                    assert(pre_inputs + assign_regions(rest, pre_counter) =~= new_inputs.deep_view()
                        + assign_regions(rest.drop_first(), pre_counter));
                }
            },
            ParamType::Reference(rt) => {
                match &rt.region {
                    None => {
                        lts.push(ArgLifetime::New(Region::Synth(counter)));
                        new_inputs.push(
                            Param {
                                pattern: param.pattern.clone(),
                                ty: ParamType::Reference(
                                    RefType {
                                        region: Some(Region::Synth(counter)),
                                        mutable: rt.mutable,
                                        elem: rt.elem.clone(),
                                    },
                                ),
                            },
                        );
                        counter = counter + 1;
                        proof {
                            let rt0 = rest[0].ty->Reference_0;
                            assert(lts.deep_view() =~= pre_lts.push(
                                ArgLifetimeV::New(RegionV::Synth(pre_counter)),
                            ));
                            assert(new_inputs.deep_view() =~= pre_inputs.push(
                                ParamV {
                                    pattern: rest[0].pattern,
                                    ty: ParamTypeV::Reference(
                                        RefTypeV {
                                            region: Some(RegionV::Synth(pre_counter)),
                                            mutable: rt0.mutable,
                                            elem: rt0.elem,
                                        },
                                    ),
                                },
                            ));
                            assert(pre_inputs + assign_regions(rest, pre_counter)
                                =~= new_inputs.deep_view() + assign_regions(
                                rest.drop_first(),
                                pre_counter + 1,
                            ));
                        }
                    },
                    Some(r0) => {
                        if !holds_existing(&lts, r0) {
                            lts.push(ArgLifetime::Existing(r0.clone()));
                            proof {
                                assert(lts.deep_view() =~= pre_lts.push(
                                    ArgLifetimeV::Existing(r0@),
                                ));
                            }
                        }
                        new_inputs.push(param.clone());
                        proof {
                            assert(new_inputs.deep_view() =~= pre_inputs.push(rest[0]));
                            assert(pre_inputs + assign_regions(rest, pre_counter)
                                =~= new_inputs.deep_view() + assign_regions(
                                rest.drop_first(),
                                pre_counter,
                            ));
                        }
                    },
                }
            },
        }
        idx = idx + 1;
    }
    proof {
        assert(s0.inputs.skip(n as int) =~= Seq::<ParamV>::empty());
        assert(assign_regions(Seq::<ParamV>::empty(), counter as int)
            =~= Seq::<ParamV>::empty());
        assert(new_inputs.deep_view() + Seq::<ParamV>::empty() =~= new_inputs.deep_view());
    }
    let ghost ltsv = lts.deep_view();
    assert(ltsv == collect_regions(s0.inputs, 0, Seq::empty()));
    assert(new_inputs.deep_view() == assign_regions(s0.inputs, 0));

    // Clear the asynchronous flag.
    sig.asyncness = false;

    if lts.len() > 0 {
        // Every collected region is bounded by the body region; freshly
        // synthesized regions are also declared as generic parameters.
        sig.inputs = new_inputs;
        let m = lts.len();
        let mut gen_add: Vec<GenericParam> = Vec::new();
        let mut pred_add: Vec<WherePredicate> = Vec::new();
        let mut j: usize = 0;
        proof {
            assert(ltsv.skip(0) =~= ltsv);
            assert(gen_add.deep_view() =~= Seq::<GenericParamV>::empty());
            assert(pred_add.deep_view() =~= Seq::<WherePredicateV>::empty());
            assert(gen_add.deep_view() + new_region_params(ltsv) =~= new_region_params(ltsv));
            assert(pred_add.deep_view() + outlives_predicates(ltsv) =~= outlives_predicates(
                ltsv,
            ));
        }
        while j < m
            invariant
                j <= m,
                m == lts.len(),
                ltsv == lts.deep_view(),
                gen_add.deep_view() + new_region_params(ltsv.skip(j as int))
                    == new_region_params(ltsv),
                pred_add.deep_view() + outlives_predicates(ltsv.skip(j as int))
                    == outlives_predicates(ltsv),
            decreases m - j,
        {
            let ghost pre_gen = gen_add.deep_view();
            let ghost pre_pred = pred_add.deep_view();
            let ghost lrest = ltsv.skip(j as int);
            proof {
                assert(lrest[0] == ltsv[j as int]);
                assert(lrest.drop_first() =~= ltsv.skip(j as int + 1));
                assert(ltsv[j as int] == lts@[j as int]@);
            }
            match &lts[j] {
                ArgLifetime::New(r) => {
                    gen_add.push(GenericParam::Region(r.clone()));
                    pred_add.push(WherePredicate::Outlives(r.clone(), Region::Body));
                    proof {
                        assert(gen_add.deep_view() =~= pre_gen.push(
                            GenericParamV::Region(r@),
                        ));
                        assert(pre_gen + new_region_params(lrest) =~= gen_add.deep_view()
                            + new_region_params(lrest.drop_first()));
                        assert(pred_add.deep_view() =~= pre_pred.push(
                            WherePredicateV::Outlives(lrest[0].region(), RegionV::Body),
                        ));
                        assert(pre_pred + outlives_predicates(lrest) =~= pred_add.deep_view()
                            + outlives_predicates(lrest.drop_first()));
                    }
                },
                ArgLifetime::Existing(r) => {
                    pred_add.push(WherePredicate::Outlives(r.clone(), Region::Body));
                    proof {
                        assert(pred_add.deep_view() =~= pre_pred.push(
                            WherePredicateV::Outlives(lrest[0].region(), RegionV::Body),
                        ));
                        assert(pre_pred + outlives_predicates(lrest) =~= pred_add.deep_view()
                            + outlives_predicates(lrest.drop_first()));
                    }
                },
            }
            j = j + 1;
        }
        proof {
            assert(ltsv.skip(m as int) =~= Seq::<ArgLifetimeV>::empty());
            assert(gen_add.deep_view() + Seq::<GenericParamV>::empty() =~= gen_add.deep_view());
            assert(pred_add.deep_view() + Seq::<WherePredicateV>::empty()
                =~= pred_add.deep_view());
        }
        let ghost gen_addv = gen_add.deep_view();
        let ghost pred_addv = pred_add.deep_view();
        assert(gen_addv == new_region_params(ltsv));
        assert(pred_addv == outlives_predicates(ltsv));

        sig.generics.append(&mut gen_add);
        sig.generics.push(GenericParam::Region(Region::Body));
        proof {
            assert(sig.generics.deep_view() =~= s0.generics + gen_addv + seq![
                GenericParamV::Region(RegionV::Body),
            ]);
        }
        let mut preds: Vec<WherePredicate> = match &sig.where_clause {
            Some(v) => clone_predicates(v),
            None => Vec::new(),
        };
        assert(preds.deep_view() =~= clause_predicates(s0));
        preds.append(&mut pred_add);
        assert(preds.deep_view() =~= clause_predicates(s0) + pred_addv);
        sig.where_clause = Some(preds);
        sig.output = ReturnType::Boxed(
            BoxedFuture {
                output: ret,
                body_region: true,
                send: args.send_bound,
                sync: args.sync_bound,
            },
        );
        assert(sig@ =~~= spec_transform_sig(s0, *args));
    } else {
        // No reference parameter was found: only a by-reference
        // self-receiver, if any, binds the body region.
        let mut recv_ref = false;
        let mut recv_mut = false;
        let mut recv_region: Option<Region> = None;
        match &sig.receiver {
            Some(Receiver::Ref { region, mutable }) => {
                recv_ref = true;
                recv_mut = *mutable;
                recv_region = match region {
                    Some(r) => Some(r.clone()),
                    None => None,
                };
            },
            _ => {},
        }
        if recv_ref {
            let mut preds: Vec<WherePredicate> = match &sig.where_clause {
                Some(v) => clone_predicates(v),
                None => Vec::new(),
            };
            assert(preds.deep_view() =~= clause_predicates(s0));
            sig.generics.push(GenericParam::Region(Region::Body));
            match recv_region {
                Some(rc) => {
                    preds.push(WherePredicate::Outlives(rc, Region::Body));
                },
                None => {
                    sig.generics.push(GenericParam::Region(Region::Synth(0)));
                    sig.receiver = Some(
                        Receiver::Ref { region: Some(Region::Synth(0)), mutable: recv_mut },
                    );
                    preds.push(WherePredicate::Outlives(Region::Synth(0), Region::Body));
                },
            }
            sig.where_clause = Some(preds);
            sig.output = ReturnType::Boxed(
                BoxedFuture {
                    output: ret,
                    body_region: true,
                    send: args.send_bound,
                    sync: args.sync_bound,
                },
            );
            assert(sig@ =~~= spec_transform_sig(s0, *args));
        } else {
            // No borrowed input at all: nothing is added and the future
            // carries no body region.
            sig.output = ReturnType::Boxed(
                BoxedFuture {
                    output: ret,
                    body_region: false,
                    send: args.send_bound,
                    sync: args.sync_bound,
                },
            );
            assert(sig@ =~~= spec_transform_sig(s0, *args));
        }
    }
}

/// Replaces the block's statement sequence by a single expression: an
/// immediately heap-allocated, pinned indirection around a move-capturing
/// asynchronous block holding the original statements. The block's outer
/// delimiters stay those of the original block, so diagnostics keep their
/// anchors; no statement is changed.
pub fn transform_block(block: &mut Block)
    ensures
        final(block)@.wraps == old(block)@.wraps + 1,
        final(block)@.stmts == old(block)@.stmts,
{
    let mut inner = Block::Plain(String::new());
    core::mem::swap(block, &mut inner);
    *block = Block::Pinned(Box::new(inner));
}

/// Rewrites a whole item under the given configuration: the signature as
/// [`spec_transform_sig`] describes, and the body wrapped in the matching
/// heap indirection.
pub fn expand(item: &mut AsyncItem, args: &RecursionArgs)
    requires
        old(item).sig@.asyncness,
    ensures
        final(item).sig@ == spec_transform_sig(old(item).sig@, *args),
        final(item).block@.wraps == old(item).block@.wraps + 1,
        final(item).block@.stmts == old(item).block@.stmts,
{
    transform_sig(&mut item.sig, args);
    transform_block(&mut item.block);
}

} // verus!
