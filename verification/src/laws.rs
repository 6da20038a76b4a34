//! The general laws of the rewriting engine, stated and proved over the
//! mathematical models: what the rewriter adds for signatures without
//! borrowed inputs, how synthesized regions relate to the parameters that
//! needed them, that a shared region is bound only once, and how the thread
//! capability bounds of the rewritten return type follow the argument tokens.

use vstd::prelude::*;

use crate::expand::{
    assign_regions, boxed_output, clause_predicates, collect_regions, contains_existing,
    new_region_params, outlives_predicates, spec_transform_sig, ArgLifetimeV,
};
use crate::model::{GenericParamV, ParamTypeV, ParamV, ReceiverV, RefTypeV, RegionV, SignatureV,
    WherePredicateV};
use crate::parse::{parse_args_from, spec_parse_args, ArgTokenV, RecursionArgs};

verus! {

/// Whether some parameter of `ps` is a borrowed reference.
pub open spec fn has_ref_param(ps: Seq<ParamV>) -> bool
    decreases ps.len(),
{
    if ps.len() == 0 {
        false
    } else {
        ps[0].ty is Reference || has_ref_param(ps.drop_first())
    }
}

/// Some parameter of `ps` is a borrowed reference exactly when one is found
/// at some index.
pub proof fn lemma_has_ref_param_iff(ps: Seq<ParamV>)
    ensures
        has_ref_param(ps) <==> exists|i: int| 0 <= i < ps.len() && ps[i].ty is Reference,
    decreases ps.len(),
{
    if ps.len() == 0 {
    } else {
        let rest = ps.drop_first();
        lemma_has_ref_param_iff(rest);
        if ps[0].ty is Reference {
            assert(ps[0].ty is Reference);
        } else {
            if has_ref_param(rest) {
                let i = choose|i: int| 0 <= i < rest.len() && rest[i].ty is Reference;
                assert(ps[i + 1] == rest[i]);
            }
            if exists|i: int| 0 <= i < ps.len() && ps[i].ty is Reference {
                let i = choose|i: int| 0 <= i < ps.len() && ps[i].ty is Reference;
                assert(rest[i - 1] == ps[i]);
            }
        }
    }
}

/// The number of reference parameters of `ps` without an explicit region.
pub open spec fn count_unnamed(ps: Seq<ParamV>) -> int
    decreases ps.len(),
{
    if ps.len() == 0 {
        0
    } else {
        (match ps[0].ty {
            ParamTypeV::Reference(rt) => if rt.region is None {
                1int
            } else {
                0int
            },
            ParamTypeV::Plain(_) => 0int,
        }) + count_unnamed(ps.drop_first())
    }
}

/// Whether parameter `p` is a borrowed reference that explicitly names the
/// region `r`.
pub open spec fn param_has_named_region(p: ParamV, r: RegionV) -> bool {
    match p.ty {
        ParamTypeV::Reference(rt) => rt.region == Some(r),
        ParamTypeV::Plain(_) => false,
    }
}

/// The set of regions explicitly named on reference parameters of `ps`.
pub open spec fn param_regions(ps: Seq<ParamV>) -> Set<RegionV>
    decreases ps.len(),
{
    if ps.len() == 0 {
        Set::empty()
    } else {
        let rest = param_regions(ps.drop_first());
        match ps[0].ty {
            ParamTypeV::Reference(rt) => match rt.region {
                Some(r) => rest.insert(r),
                None => rest,
            },
            ParamTypeV::Plain(_) => rest,
        }
    }
}

/// A region belongs to `param_regions(ps)` exactly when some parameter
/// names it.
pub proof fn lemma_param_regions_iff(ps: Seq<ParamV>)
    ensures
        forall|r: RegionV| #[trigger]
            param_regions(ps).contains(r) <==> exists|i: int|
                0 <= i < ps.len() && param_has_named_region(ps[i], r),
    decreases ps.len(),
{
    if ps.len() == 0 {
    } else {
        let rest = ps.drop_first();
        lemma_param_regions_iff(rest);
        assert forall|r: RegionV| #[trigger]
            param_regions(ps).contains(r) <==> exists|i: int|
                0 <= i < ps.len() && param_has_named_region(ps[i], r) by {
            if param_regions(ps).contains(r) {
                if param_has_named_region(ps[0], r) {
                    assert(0 <= 0 < ps.len() && param_has_named_region(ps[0], r));
                } else {
                    assert(param_regions(rest).contains(r));
                    let i = choose|i: int|
                        0 <= i < rest.len() && param_has_named_region(rest[i], r);
                    assert(ps[i + 1] == rest[i]);
                    assert(param_has_named_region(ps[i + 1], r));
                }
            }
            if exists|i: int| 0 <= i < ps.len() && param_has_named_region(ps[i], r) {
                let i = choose|i: int| 0 <= i < ps.len() && param_has_named_region(ps[i], r);
                if i == 0 {
                    assert(param_regions(ps).contains(r));
                } else {
                    assert(rest[i - 1] == ps[i]);
                    assert(param_regions(rest).contains(r));
                }
            }
        }
    }
}

/// Every explicit region on a reference parameter of the input is one the
/// user named.
pub open spec fn param_named_ok(p: ParamV) -> bool {
    match p.ty {
        ParamTypeV::Reference(rt) => match rt.region {
            Some(r) => r is Named,
            None => true,
        },
        ParamTypeV::Plain(_) => true,
    }
}

/// All parameter regions of `ps` are user-named.
pub open spec fn params_named(ps: Seq<ParamV>) -> bool {
    forall|i: int| 0 <= i < ps.len() ==> param_named_ok(#[trigger] ps[i])
}

/// All region parameters in the generic-parameter list are user-named.
pub open spec fn generics_named(gs: Seq<GenericParamV>) -> bool {
    forall|i: int| 0 <= i < gs.len() ==> (match #[trigger] gs[i] {
        GenericParamV::Region(r) => r is Named,
        GenericParamV::Opaque(_) => true,
    })
}

/// The receiver's explicit region, if any, is user-named.
pub open spec fn receiver_named(recv: Option<ReceiverV>) -> bool {
    match recv {
        Some(ReceiverV::Ref { region: Some(r), mutable }) => r is Named,
        _ => true,
    }
}

/// Well-formedness of an input signature, as the validating entry point
/// hands it to the rewriter: the asynchronous flag is set, the return type
/// is a surface type, and every explicit region — on generic parameters, on
/// reference parameters, on the receiver — is one the user named, since
/// synthesized regions and the body region are the rewriter's own.
pub open spec fn input_wf(s: SignatureV) -> bool {
    &&& s.asyncness
    &&& !(s.output is Boxed)
    &&& params_named(s.inputs)
    &&& generics_named(s.generics)
    &&& receiver_named(s.receiver)
}

/// The working set entry `a` is well formed under synthesis counter
/// `counter`: a freshly introduced entry holds a synthesized region numbered
/// below the counter, a reused entry holds a user-named region.
pub open spec fn entry_wf(a: ArgLifetimeV, counter: int) -> bool {
    match a {
        ArgLifetimeV::New(r) => match r {
            RegionV::Synth(k) => 0 <= k < counter,
            _ => false,
        },
        ArgLifetimeV::Existing(r) => r is Named,
    }
}

/// The working set `acc` is well formed under synthesis counter `counter`:
/// its regions are mutually distinct and every entry is well formed.
pub open spec fn acc_wf(acc: Seq<ArgLifetimeV>, counter: int) -> bool {
    &&& forall|j: int, k: int|
        0 <= j < k < acc.len() ==> (#[trigger] acc[j]).region() != (#[trigger] acc[k]).region()
    &&& forall|j: int| 0 <= j < acc.len() ==> entry_wf(#[trigger] acc[j], counter)
}

/// Whether the working set holds region `r`, under either tag.
pub open spec fn has_region(lts: Seq<ArgLifetimeV>, r: RegionV) -> bool {
    exists|j: int| 0 <= j < lts.len() && (#[trigger] lts[j]).region() == r
}

/// Appending one entry to the working set appends its region's generic
/// parameter when the entry is freshly introduced, and nothing otherwise.
pub proof fn lemma_new_region_params_push(lts: Seq<ArgLifetimeV>, a: ArgLifetimeV)
    ensures
        new_region_params(lts.push(a)) =~= new_region_params(lts) + (match a {
            ArgLifetimeV::New(r) => seq![GenericParamV::Region(r)],
            ArgLifetimeV::Existing(_) => Seq::<GenericParamV>::empty(),
        }),
    decreases lts.len(),
{
    let p = lts.push(a);
    if lts.len() == 0 {
        assert(p[0] == a);
        assert(p.drop_first() =~= Seq::<ArgLifetimeV>::empty());
        assert(new_region_params(Seq::<ArgLifetimeV>::empty()) =~= Seq::<GenericParamV>::empty());
    } else {
        assert(p[0] == lts[0]);
        assert(p.drop_first() =~= lts.drop_first().push(a));
        lemma_new_region_params_push(lts.drop_first(), a);
    }
}

/// The collection invariant: scanning `ps` under synthesis counter `counter`
/// extends a well-formed working set into a well-formed one. The set stays
/// mutually distinct; it gains exactly one freshly synthesized region per
/// reference parameter without an explicit one, numbered sequentially from
/// the counter on, and otherwise exactly the regions the parameters name.
pub proof fn lemma_collect_props(ps: Seq<ParamV>, counter: int, acc: Seq<ArgLifetimeV>)
    requires
        params_named(ps),
        counter >= 0,
        acc_wf(acc, counter),
    ensures
        ({
            let out = collect_regions(ps, counter, acc);
            let cu = count_unnamed(ps);
            &&& cu >= 0
            &&& out.len() >= acc.len()
            &&& (has_ref_param(ps) ==> out.len() > 0)
            &&& acc_wf(out, counter + cu)
            &&& (forall|r: RegionV| #[trigger]
                has_region(out, r) <==> (has_region(acc, r) || (exists|k: int|
                    counter <= k < counter + cu && r == RegionV::Synth(k))
                    || param_regions(ps).contains(r)))
            &&& new_region_params(out) =~= new_region_params(acc) + Seq::new(
                cu as nat,
                |k: int| GenericParamV::Region(RegionV::Synth(counter + k)),
            )
        }),
    decreases ps.len(),
{
    let out = collect_regions(ps, counter, acc);
    let cu = count_unnamed(ps);
    if ps.len() == 0 {
        assert(Seq::new(0nat, |k: int| GenericParamV::Region(RegionV::Synth(counter + k)))
            =~= Seq::<GenericParamV>::empty());
        assert(new_region_params(out) =~= new_region_params(acc)
            + Seq::<GenericParamV>::empty());
    } else {
        let rest = ps.drop_first();
        assert forall|i: int| 0 <= i < rest.len() implies param_named_ok(#[trigger] rest[i]) by {
            assert(rest[i] == ps[i + 1]);
        }
        assert(param_named_ok(ps[0]));
        match ps[0].ty {
            ParamTypeV::Plain(_) => {
                lemma_collect_props(rest, counter, acc);
                let out2 = collect_regions(rest, counter, acc);
                assert(out == out2);
                assert(cu == count_unnamed(rest));
                assert(param_regions(ps) == param_regions(rest));
                assert forall|r: RegionV| #[trigger]
                    has_region(out, r) <==> (has_region(acc, r) || (exists|k: int|
                        counter <= k < counter + cu && r == RegionV::Synth(k))
                        || param_regions(ps).contains(r)) by {
                    assert(has_region(out2, r) <==> (has_region(acc, r) || (exists|k: int|
                        counter <= k < counter + count_unnamed(rest) && r == RegionV::Synth(k))
                        || param_regions(rest).contains(r)));
                }
            },
            ParamTypeV::Reference(rt) => {
                match rt.region {
                    None => {
                        let a = ArgLifetimeV::New(RegionV::Synth(counter));
                        let acc2 = acc.push(a);
                        assert forall|j: int| 0 <= j < acc2.len() implies entry_wf(
                            #[trigger] acc2[j],
                            counter + 1,
                        ) by {
                            if j < acc.len() {
                                assert(acc2[j] == acc[j]);
                                assert(entry_wf(acc[j], counter));
                            } else {
                                assert(acc2[j] == a);
                            }
                        }
                        assert forall|j: int, k: int| 0 <= j < k < acc2.len() implies (
                        #[trigger] acc2[j]).region() != (#[trigger] acc2[k]).region() by {
                            if k < acc.len() {
                                assert(acc2[j] == acc[j] && acc2[k] == acc[k]);
                            } else {
                                assert(acc2[k] == a);
                                assert(acc2[j] == acc[j]);
                                assert(entry_wf(acc[j], counter));
                            }
                        }
                        lemma_collect_props(rest, counter + 1, acc2);
                        let out2 = collect_regions(rest, counter + 1, acc2);
                        let cu2 = count_unnamed(rest);
                        assert(out == out2);
                        assert(cu == 1 + cu2);
                        assert(param_regions(ps) == param_regions(rest));
                        assert(out.len() >= acc2.len());
                        // membership
                        assert forall|r: RegionV| #[trigger]
                            has_region(out, r) <==> (has_region(acc, r) || (exists|k: int|
                                counter <= k < counter + cu && r == RegionV::Synth(k))
                                || param_regions(ps).contains(r)) by {
                            assert(has_region(out2, r) <==> (has_region(acc2, r) || (
                            exists|k: int|
                                counter + 1 <= k < counter + 1 + cu2 && r == RegionV::Synth(k))
                                || param_regions(rest).contains(r)));
                            // the pushed entry holds the fresh region
                            assert(has_region(acc2, r) <==> (has_region(acc, r) || r
                                == RegionV::Synth(counter))) by {
                                if has_region(acc2, r) {
                                    let j = choose|j: int|
                                        0 <= j < acc2.len() && (#[trigger] acc2[j]).region()
                                            == r;
                                    if j < acc.len() {
                                        assert(acc[j].region() == r);
                                    } else {
                                        assert(acc2[j] == a);
                                    }
                                }
                                if has_region(acc, r) {
                                    let j = choose|j: int|
                                        0 <= j < acc.len() && (#[trigger] acc[j]).region()
                                            == r;
                                    assert(acc2[j].region() == r);
                                }
                                if r == RegionV::Synth(counter) {
                                    assert(acc2[acc.len() as int].region() == r);
                                }
                            }
                        }
                        // the synthesized generic parameters
                        lemma_new_region_params_push(acc, a);
                        assert(new_region_params(out2) =~= new_region_params(acc2) + Seq::new(
                            cu2 as nat,
                            |k: int| GenericParamV::Region(RegionV::Synth(counter + 1 + k)),
                        ));
                        assert(new_region_params(out) =~= new_region_params(acc) + Seq::new(
                            cu as nat,
                            |k: int| GenericParamV::Region(RegionV::Synth(counter + k)),
                        ));
                    },
                    Some(r0) => {
                        assert(r0 is Named);
                        if contains_existing(acc, r0) {
                            lemma_collect_props(rest, counter, acc);
                            let out2 = collect_regions(rest, counter, acc);
                            assert(out == out2);
                            assert(cu == count_unnamed(rest));
                            // the region is already in the working set
                            let j0 = choose|j: int|
                                0 <= j < acc.len() && acc[j] == ArgLifetimeV::Existing(r0);
                            assert((acc[j0]).region() == r0);
                            assert(has_region(acc, r0));
                            assert(out.len() >= acc.len());
                            assert(acc.len() > 0);
                            assert forall|r: RegionV| #[trigger]
                                has_region(out, r) <==> (has_region(acc, r) || (
                                exists|k: int|
                                    counter <= k < counter + cu && r == RegionV::Synth(k))
                                    || param_regions(ps).contains(r)) by {
                                assert(has_region(out2, r) <==> (has_region(acc, r) || (
                                exists|k: int|
                                    counter <= k < counter + count_unnamed(rest) && r
                                        == RegionV::Synth(k)) || param_regions(
                                    rest,
                                ).contains(r)));
                                assert(param_regions(ps) == param_regions(rest).insert(r0));
                            }
                        } else {
                            let a = ArgLifetimeV::Existing(r0);
                            let acc2 = acc.push(a);
                            assert forall|j: int| 0 <= j < acc2.len() implies entry_wf(
                                #[trigger] acc2[j],
                                counter,
                            ) by {
                                if j < acc.len() {
                                    assert(acc2[j] == acc[j]);
                                    assert(entry_wf(acc[j], counter));
                                } else {
                                    assert(acc2[j] == a);
                                }
                            }
                            assert forall|j: int, k: int| 0 <= j < k < acc2.len() implies (
                            #[trigger] acc2[j]).region() != (#[trigger] acc2[k]).region() by {
                                if k < acc.len() {
                                    assert(acc2[j] == acc[j] && acc2[k] == acc[k]);
                                } else {
                                    assert(acc2[k] == a);
                                    assert(acc2[j] == acc[j]);
                                    assert(entry_wf(acc[j], counter));
                                    if acc[j].region() == r0 {
                                        match acc[j] {
                                            ArgLifetimeV::New(rn) => {
                                                assert(rn is Synth);
                                                assert(false);
                                            },
                                            ArgLifetimeV::Existing(re) => {
                                                assert(acc[j] == ArgLifetimeV::Existing(r0));
                                                assert(contains_existing(acc, r0));
                                                assert(false);
                                            },
                                        }
                                    }
                                }
                            }
                            lemma_collect_props(rest, counter, acc2);
                            let out2 = collect_regions(rest, counter, acc2);
                            assert(out == out2);
                            assert(cu == count_unnamed(rest));
                            assert(out.len() >= acc2.len());
                            assert forall|r: RegionV| #[trigger]
                                has_region(out, r) <==> (has_region(acc, r) || (
                                exists|k: int|
                                    counter <= k < counter + cu && r == RegionV::Synth(k))
                                    || param_regions(ps).contains(r)) by {
                                assert(has_region(out2, r) <==> (has_region(acc2, r) || (
                                exists|k: int|
                                    counter <= k < counter + count_unnamed(rest) && r
                                        == RegionV::Synth(k)) || param_regions(
                                    rest,
                                ).contains(r)));
                                assert(has_region(acc2, r) <==> (has_region(acc, r) || r
                                    == r0)) by {
                                    if has_region(acc2, r) {
                                        let j = choose|j: int|
                                            0 <= j < acc2.len() && (#[trigger] acc2[j]).region()
                                                == r;
                                        if j < acc.len() {
                                            assert(acc[j].region() == r);
                                        } else {
                                            assert(acc2[j] == a);
                                        }
                                    }
                                    if has_region(acc, r) {
                                        let j = choose|j: int|
                                            0 <= j < acc.len() && (#[trigger] acc[j]).region()
                                                == r;
                                        assert(acc2[j].region() == r);
                                    }
                                    if r == r0 {
                                        assert(acc2[acc.len() as int].region() == r);
                                    }
                                }
                                assert(param_regions(ps) == param_regions(rest).insert(r0));
                            }
                            lemma_new_region_params_push(acc, a);
                            assert(new_region_params(out) =~= new_region_params(acc)
                                + Seq::new(
                                cu as nat,
                                |k: int| GenericParamV::Region(RegionV::Synth(counter + k)),
                            ));
                        }
                    },
                }
            },
        }
    }
}

/// A parameter list without reference parameters collects nothing.
pub proof fn lemma_collect_no_refs(ps: Seq<ParamV>, counter: int, acc: Seq<ArgLifetimeV>)
    requires
        !has_ref_param(ps),
    ensures
        collect_regions(ps, counter, acc) == acc,
    decreases ps.len(),
{
    if ps.len() == 0 {
    } else {
        lemma_collect_no_refs(ps.drop_first(), counter, acc);
    }
}

/// How often the generic parameter `g` occurs in `gs`.
pub open spec fn count_generic(gs: Seq<GenericParamV>, g: GenericParamV) -> int
    decreases gs.len(),
{
    if gs.len() == 0 {
        0
    } else {
        (if gs[0] == g {
            1int
        } else {
            0int
        }) + count_generic(gs.drop_first(), g)
    }
}

/// Counting distributes over concatenation of generic-parameter lists.
pub proof fn lemma_count_generic_concat(a: Seq<GenericParamV>, b: Seq<GenericParamV>,
    g: GenericParamV)
    ensures
        count_generic(a + b, g) == count_generic(a, g) + count_generic(b, g),
    decreases a.len(),
{
    if a.len() == 0 {
        assert(a + b =~= b);
    } else {
        assert((a + b)[0] == a[0]);
        assert((a + b).drop_first() =~= a.drop_first() + b);
        lemma_count_generic_concat(a.drop_first(), b, g);
    }
}

/// A generic-parameter list that holds `g` nowhere counts it zero times.
pub proof fn lemma_count_generic_none(gs: Seq<GenericParamV>, g: GenericParamV)
    requires
        forall|i: int| 0 <= i < gs.len() ==> #[trigger] gs[i] != g,
    ensures
        count_generic(gs, g) == 0,
    decreases gs.len(),
{
    if gs.len() == 0 {
    } else {
        let rest = gs.drop_first();
        assert forall|i: int| 0 <= i < rest.len() implies #[trigger] rest[i] != g by {
            assert(rest[i] == gs[i + 1]);
        }
        lemma_count_generic_none(rest, g);
    }
}

/// How often the predicate "`r` outlives the body region" occurs in `preds`.
pub open spec fn count_outlives(preds: Seq<WherePredicateV>, r: RegionV) -> int
    decreases preds.len(),
{
    if preds.len() == 0 {
        0
    } else {
        (if preds[0] == WherePredicateV::Outlives(r, RegionV::Body) {
            1int
        } else {
            0int
        }) + count_outlives(preds.drop_first(), r)
    }
}

/// The emitted outlives predicates, one per entry of the working set.
pub proof fn lemma_outlives_len(lts: Seq<ArgLifetimeV>)
    ensures
        outlives_predicates(lts).len() == lts.len(),
    decreases lts.len(),
{
    if lts.len() == 0 {
    } else {
        lemma_outlives_len(lts.drop_first());
    }
}

/// Over a working set with mutually distinct regions, the emitted outlives
/// predicates bind a collected region exactly once and any other region not
/// at all.
pub proof fn lemma_outlives_count(lts: Seq<ArgLifetimeV>, r: RegionV)
    requires
        forall|j: int, k: int|
            0 <= j < k < lts.len() ==> (#[trigger] lts[j]).region() != (
            #[trigger] lts[k]).region(),
    ensures
        count_outlives(outlives_predicates(lts), r) == if has_region(lts, r) {
            1int
        } else {
            0int
        },
    decreases lts.len(),
{
    if lts.len() == 0 {
        assert(!has_region(lts, r));
    } else {
        let rest = lts.drop_first();
        let preds = outlives_predicates(lts);
        assert(preds[0] == WherePredicateV::Outlives(lts[0].region(), RegionV::Body));
        assert(preds.drop_first() =~= outlives_predicates(rest));
        assert forall|j: int, k: int| 0 <= j < k < rest.len() implies (
        #[trigger] rest[j]).region() != (#[trigger] rest[k]).region() by {
            assert(rest[j] == lts[j + 1] && rest[k] == lts[k + 1]);
        }
        lemma_outlives_count(rest, r);
        if lts[0].region() == r {
            assert(has_region(lts, r));
            // distinctness keeps the region out of the remainder
            assert(!has_region(rest, r)) by {
                if has_region(rest, r) {
                    let j = choose|j: int|
                        0 <= j < rest.len() && (#[trigger] rest[j]).region() == r;
                    assert(rest[j] == lts[j + 1]);
                    assert(lts[0].region() != lts[j + 1].region());
                }
            }
            assert(preds[0] == WherePredicateV::Outlives(r, RegionV::Body));
        } else {
            assert(preds[0] != WherePredicateV::Outlives(r, RegionV::Body));
            assert(has_region(lts, r) <==> has_region(rest, r)) by {
                if has_region(lts, r) {
                    let j = choose|j: int|
                        0 <= j < lts.len() && (#[trigger] lts[j]).region() == r;
                    assert(j > 0);
                    assert(rest[j - 1] == lts[j]);
                }
                if has_region(rest, r) {
                    let j = choose|j: int|
                        0 <= j < rest.len() && (#[trigger] rest[j]).region() == r;
                    assert(lts[j + 1] == rest[j]);
                }
            }
        }
    }
}

/// What region assignment does to one parameter when the synthesis counter
/// stands at `c`.
pub open spec fn assigned_param(p: ParamV, c: int) -> ParamV {
    match p.ty {
        ParamTypeV::Reference(rt) => match rt.region {
            None => ParamV {
                pattern: p.pattern,
                ty: ParamTypeV::Reference(
                    RefTypeV {
                        region: Some(RegionV::Synth(c)),
                        mutable: rt.mutable,
                        elem: rt.elem,
                    },
                ),
            },
            Some(_) => p,
        },
        ParamTypeV::Plain(_) => p,
    }
}

/// Region assignment, parameter by parameter: each parameter keeps its place
/// and its pattern, and the `k`-th reference parameter without an explicit
/// region receives the `k`-th synthesized region.
pub proof fn lemma_assign_props(ps: Seq<ParamV>, counter: int)
    ensures
        assign_regions(ps, counter).len() == ps.len(),
        forall|i: int|
            0 <= i < ps.len() ==> #[trigger] assign_regions(ps, counter)[i] == assigned_param(
                ps[i],
                counter + count_unnamed(ps.take(i)),
            ),
    decreases ps.len(),
{
    if ps.len() == 0 {
    } else {
        let rest = ps.drop_first();
        let head_unnamed: int = match ps[0].ty {
            ParamTypeV::Reference(rt) => if rt.region is None {
                1int
            } else {
                0int
            },
            ParamTypeV::Plain(_) => 0int,
        };
        lemma_assign_props(rest, counter + head_unnamed);
        let out = assign_regions(ps, counter);
        assert(out.drop_first() =~= assign_regions(rest, counter + head_unnamed));
        assert forall|i: int| 0 <= i < ps.len() implies #[trigger] out[i] == assigned_param(
            ps[i],
            counter + count_unnamed(ps.take(i)),
        ) by {
            if i == 0 {
                assert(ps.take(0) =~= Seq::<ParamV>::empty());
                assert(count_unnamed(ps.take(0)) == 0);
                assert(out[0] == assigned_param(ps[0], counter));
            } else {
                assert(out[i] == out.drop_first()[i - 1]);
                assert(rest[i - 1] == ps[i]);
                assert(ps.take(i)[0] == ps[0]);
                assert(ps.take(i).drop_first() =~= rest.take(i - 1));
                assert(count_unnamed(ps.take(i)) == head_unnamed + count_unnamed(
                    rest.take(i - 1),
                ));
            }
        }
    }
}

/// For all signatures with no borrowed-reference parameter and no
/// by-reference self-receiver: the rewriter adds no generic parameter and no
/// constraint clause, leaves parameters and receiver unchanged, and the
/// rewritten return type's only bounds are the configured thread-capability
/// markers.
pub proof fn lemma_no_borrowed_inputs(s: SignatureV, args: RecursionArgs)
    requires
        forall|i: int| 0 <= i < s.inputs.len() ==> !((#[trigger] s.inputs[i]).ty is Reference),
        !(s.receiver matches Some(ReceiverV::Ref { .. })),
    ensures
        spec_transform_sig(s, args).generics == s.generics,
        spec_transform_sig(s, args).where_clause == s.where_clause,
        spec_transform_sig(s, args).inputs == s.inputs,
        spec_transform_sig(s, args).receiver == s.receiver,
        !spec_transform_sig(s, args).asyncness,
        spec_transform_sig(s, args).output == boxed_output(s.output, false, args),
{
    lemma_has_ref_param_iff(s.inputs);
    assert(!has_ref_param(s.inputs));
    lemma_collect_no_refs(s.inputs, 0, Seq::empty());
}

/// For all well-formed signatures with at least one borrowed-reference
/// parameter: the rewriter synthesizes exactly one region per parameter that
/// lacked an explicit one — mutually distinct, numbered sequentially from
/// zero, each attached to its parameter — declares exactly those regions and
/// exactly one body region as new generic parameters, and emits exactly one
/// outlives predicate per distinct collected region.
pub proof fn lemma_unnamed_refs(s: SignatureV, args: RecursionArgs)
    requires
        input_wf(s),
        has_ref_param(s.inputs),
    ensures
        ({
            let out = spec_transform_sig(s, args);
            let lts = collect_regions(s.inputs, 0, Seq::empty());
            let cu = count_unnamed(s.inputs);
            &&& lts.len() > 0
            &&& out.generics =~= s.generics + Seq::new(
                cu as nat,
                |k: int| GenericParamV::Region(RegionV::Synth(k)),
            ) + seq![GenericParamV::Region(RegionV::Body)]
            &&& count_generic(out.generics, GenericParamV::Region(RegionV::Body)) == 1
            &&& out.inputs.len() == s.inputs.len()
            &&& (forall|i: int|
                0 <= i < s.inputs.len() ==> #[trigger] out.inputs[i] == assigned_param(
                    s.inputs[i],
                    count_unnamed(s.inputs.take(i)),
                ))
            &&& out.where_clause == Some(
                clause_predicates(s) + outlives_predicates(lts),
            )
            &&& outlives_predicates(lts).len() == lts.len()
            &&& (forall|j: int, k: int|
                0 <= j < k < lts.len() ==> (#[trigger] lts[j]).region() != (
                #[trigger] lts[k]).region())
            &&& (forall|r: RegionV| #[trigger]
                has_region(lts, r) <==> ((exists|k: int|
                    0 <= k < cu && r == RegionV::Synth(k)) || param_regions(
                    s.inputs,
                ).contains(r)))
            &&& (forall|r: RegionV|
                has_region(lts, r) ==> #[trigger] count_outlives(
                    outlives_predicates(lts),
                    r,
                ) == 1)
        }),
{
    let out = spec_transform_sig(s, args);
    let lts = collect_regions(s.inputs, 0, Seq::empty());
    let cu = count_unnamed(s.inputs);
    lemma_collect_props(s.inputs, 0, Seq::empty());
    lemma_assign_props(s.inputs, 0);
    lemma_outlives_len(lts);
    assert forall|i: int|
        0 <= i < s.inputs.len() implies #[trigger] out.inputs[i] == assigned_param(
        s.inputs[i],
        count_unnamed(s.inputs.take(i)),
    ) by {
        assert(assign_regions(s.inputs, 0)[i] == assigned_param(
            s.inputs[i],
            0 + count_unnamed(s.inputs.take(i)),
        ));
    }
    // exactly one body region among the generic parameters
    let body = GenericParamV::Region(RegionV::Body);
    let synths = Seq::new(cu as nat, |k: int| GenericParamV::Region(RegionV::Synth(k)));
    assert(new_region_params(Seq::<ArgLifetimeV>::empty()) =~= Seq::<GenericParamV>::empty());
    assert(new_region_params(lts) =~= synths);
    assert(out.generics =~= s.generics + synths + seq![body]);
    assert forall|i: int| 0 <= i < s.generics.len() implies #[trigger] s.generics[i] != body by {
        assert(match s.generics[i] {
            GenericParamV::Region(r) => r is Named,
            GenericParamV::Opaque(_) => true,
        });
    }
    lemma_count_generic_none(s.generics, body);
    assert forall|i: int| 0 <= i < synths.len() implies #[trigger] synths[i] != body by {}
    lemma_count_generic_none(synths, body);
    lemma_count_generic_concat(s.generics, synths, body);
    lemma_count_generic_concat(s.generics + synths, seq![body], body);
    assert(count_generic(seq![body], body) == 1) by {
        assert(seq![body].drop_first() =~= Seq::<GenericParamV>::empty());
        assert(count_generic(Seq::<GenericParamV>::empty(), body) == 0);
        assert(seq![body][0] == body);
    }
    assert(out.generics == (s.generics + synths) + seq![body]);
    // one predicate per collected region
    assert forall|r: RegionV|
        has_region(lts, r) implies #[trigger] count_outlives(outlives_predicates(lts), r)
        == 1 by {
        lemma_outlives_count(lts, r);
    }
}

/// For all well-formed signatures where two parameters share one explicit
/// region name: exactly one outlives predicate is emitted for that region,
/// never two.
pub proof fn lemma_shared_region_once(
    s: SignatureV,
    args: RecursionArgs,
    i: int,
    j: int,
    r: RegionV,
)
    requires
        input_wf(s),
        0 <= i < j < s.inputs.len(),
        param_has_named_region(s.inputs[i], r),
        param_has_named_region(s.inputs[j], r),
    ensures
        ({
            let lts = collect_regions(s.inputs, 0, Seq::empty());
            &&& spec_transform_sig(s, args).where_clause == Some(
                clause_predicates(s) + outlives_predicates(lts),
            )
            &&& count_outlives(outlives_predicates(lts), r) == 1
        }),
{
    let lts = collect_regions(s.inputs, 0, Seq::empty());
    lemma_collect_props(s.inputs, 0, Seq::empty());
    lemma_param_regions_iff(s.inputs);
    lemma_has_ref_param_iff(s.inputs);
    assert(s.inputs[i].ty is Reference);
    assert(has_ref_param(s.inputs));
    assert(param_regions(s.inputs).contains(r));
    assert(has_region(lts, r));
    lemma_outlives_count(lts, r);
}

/// The body region is introduced exactly when it is needed: the rewritten
/// return type carries the body region if and only if the generic-parameter
/// list grew, and if and only if at least one outlives predicate was emitted
/// onto the constraint clause.
pub proof fn lemma_body_region_iff_predicates(s: SignatureV, args: RecursionArgs)
    ensures
        ({
            let out = spec_transform_sig(s, args);
            &&& out.output is Boxed
            &&& (out.output->Boxed_0.body_region <==> out.generics.len() > s.generics.len())
            &&& (out.output->Boxed_0.body_region <==> (match out.where_clause {
                Some(ps) => ps.len() > clause_predicates(s).len(),
                None => false,
            }))
        }),
{
    let out = spec_transform_sig(s, args);
    let lts = collect_regions(s.inputs, 0, Seq::empty());
    lemma_outlives_len(lts);
}

/// Whether a `?` token occurs at or after index `i`.
pub open spec fn has_question(ts: Seq<ArgTokenV>, i: int) -> bool {
    exists|j: int| i <= j < ts.len() && ts[j] == ArgTokenV::Question
}

/// Whether a `Sync` token occurs at or after index `i`.
pub open spec fn has_sync_token(ts: Seq<ArgTokenV>, i: int) -> bool {
    exists|j: int| i <= j < ts.len() && ts[j] == ArgTokenV::Ident("Sync"@)
}

/// The flags of a successful parse, related to the tokens still ahead: the
/// thread-transferability flag ends up cleared exactly when a `?Send` marker
/// was seen or lies ahead, the thread-shareability flag set exactly when a
/// `Sync` token was seen or lies ahead.
proof fn lemma_parse_flags(ts: Seq<ArgTokenV>, i: int, ss: bool, sy: bool)
    requires
        0 <= i <= ts.len(),
        parse_args_from(ts, i, ss, sy) is Ok,
    ensures
        ({
            let c = parse_args_from(ts, i, ss, sy)->Ok_0;
            &&& (c.send_bound <==> (!ss && !has_question(ts, i)))
            &&& (c.sync_bound <==> (sy || has_sync_token(ts, i)))
        }),
    decreases ts.len() - i,
{
    reveal_strlit("Send");
    reveal_strlit("Sync");
    assert("Send"@ != "Sync"@) by {
        assert("Send"@[1] == 'e');
        assert("Sync"@[1] == 'y');
    }
    if i == ts.len() {
        assert(!has_question(ts, i));
        assert(!has_sync_token(ts, i));
    } else {
        match ts[i] {
            ArgTokenV::Question => {
                assert(!ss);
                assert(i + 1 < ts.len() && ts[i + 1] == ArgTokenV::Ident("Send"@));
                lemma_parse_flags(ts, i + 2, true, sy);
                assert(has_question(ts, i));
                assert(has_sync_token(ts, i) <==> has_sync_token(ts, i + 2)) by {
                    if has_sync_token(ts, i) {
                        let j = choose|j: int|
                            i <= j < ts.len() && ts[j] == ArgTokenV::Ident("Sync"@);
                        assert(j != i);
                        assert(j != i + 1);
                    }
                    if has_sync_token(ts, i + 2) {
                        let j = choose|j: int|
                            i + 2 <= j < ts.len() && ts[j] == ArgTokenV::Ident("Sync"@);
                        assert(i <= j < ts.len() && ts[j] == ArgTokenV::Ident("Sync"@));
                    }
                }
            },
            ArgTokenV::Ident(w) => {
                assert(w == "Sync"@ && !sy);
                lemma_parse_flags(ts, i + 1, ss, true);
                assert(ts[i] == ArgTokenV::Ident("Sync"@));
                assert(has_sync_token(ts, i));
                assert(has_question(ts, i) <==> has_question(ts, i + 1)) by {
                    if has_question(ts, i) {
                        let j = choose|j: int| i <= j < ts.len() && ts[j] == ArgTokenV::Question;
                        assert(j != i);
                    }
                    if has_question(ts, i + 1) {
                        let j = choose|j: int|
                            i + 1 <= j < ts.len() && ts[j] == ArgTokenV::Question;
                        assert(i <= j < ts.len() && ts[j] == ArgTokenV::Question);
                    }
                }
            },
            ArgTokenV::Other => {
                assert(false);
            },
        }
    }
}

/// The thread-transferability bound is present in the rewritten return type
/// if and only if the `?Send` marker was absent from the argument tokens the
/// configuration was parsed from.
pub proof fn lemma_send_marker(ts: Seq<ArgTokenV>, s: SignatureV, args: RecursionArgs)
    requires
        spec_parse_args(ts) == Ok::<RecursionArgs, int>(args),
    ensures
        spec_transform_sig(s, args).output is Boxed,
        spec_transform_sig(s, args).output->Boxed_0.send <==> !ts.contains(
            ArgTokenV::Question,
        ),
{
    lemma_parse_flags(ts, 0, false, false);
    assert(ts.contains(ArgTokenV::Question) <==> has_question(ts, 0)) by {
        if ts.contains(ArgTokenV::Question) {
            let j = choose|j: int| 0 <= j < ts.len() && ts[j] == ArgTokenV::Question;
            assert(0 <= j < ts.len() && ts[j] == ArgTokenV::Question);
        }
        if has_question(ts, 0) {
            let j = choose|j: int| 0 <= j < ts.len() && ts[j] == ArgTokenV::Question;
            assert(ts.contains(ArgTokenV::Question));
        }
    }
}

/// The thread-shareability bound is present in the rewritten return type if
/// and only if the `Sync` token was present among the argument tokens the
/// configuration was parsed from.
pub proof fn lemma_sync_marker(ts: Seq<ArgTokenV>, s: SignatureV, args: RecursionArgs)
    requires
        spec_parse_args(ts) == Ok::<RecursionArgs, int>(args),
    ensures
        spec_transform_sig(s, args).output is Boxed,
        spec_transform_sig(s, args).output->Boxed_0.sync <==> ts.contains(
            ArgTokenV::Ident("Sync"@),
        ),
{
    lemma_parse_flags(ts, 0, false, false);
    assert(ts.contains(ArgTokenV::Ident("Sync"@)) <==> has_sync_token(ts, 0)) by {
        if ts.contains(ArgTokenV::Ident("Sync"@)) {
            let j = choose|j: int| 0 <= j < ts.len() && ts[j] == ArgTokenV::Ident("Sync"@);
            assert(0 <= j < ts.len() && ts[j] == ArgTokenV::Ident("Sync"@));
        }
        if has_sync_token(ts, 0) {
            let j = choose|j: int| 0 <= j < ts.len() && ts[j] == ArgTokenV::Ident("Sync"@);
            assert(ts.contains(ArgTokenV::Ident("Sync"@)));
        }
    }
}

} // verus!
