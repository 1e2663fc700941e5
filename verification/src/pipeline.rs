use vstd::prelude::*;

verus! {

// The output contract of the generated code: the emitted expression is a
// pull-based filter-and-map pipeline.  This module states what such a
// pipeline produces — which elements pass the guard conjunction, in what
// order, and what is evaluated for them — and provides executable pipelines
// proved against that statement, one over a finite source and one pulling a
// bounded number of elements from an unbounded source.

/// Every guard in the ordered list holds of `x`.  With zero guards this is
/// vacuously true: the conjunction is seeded with a literal `true`.
pub open spec fn accepted<A>(guards: Seq<spec_fn(A) -> bool>, x: A) -> bool {
    forall|i: int| 0 <= i < guards.len() ==> (#[trigger] guards[i])(x)
}

/// What the pipeline produces from source `s` under `guards` and mapping
/// `f`: each element accepted by every guard, in source order, mapped.
pub open spec fn comp_output<A, B>(
    s: Seq<A>,
    guards: Seq<spec_fn(A) -> bool>,
    f: spec_fn(A) -> B,
) -> Seq<B>
    decreases s.len(),
{
    if s.len() == 0 {
        Seq::empty()
    } else if accepted(guards, s.last()) {
        comp_output(s.drop_last(), guards, f).push(f(s.last()))
    } else {
        comp_output(s.drop_last(), guards, f)
    }
}

/// How many source elements pass every guard: exactly the elements whose
/// mapping is evaluated.
pub open spec fn accepted_count<A>(s: Seq<A>, guards: Seq<spec_fn(A) -> bool>) -> nat
    decreases s.len(),
{
    if s.len() == 0 {
        0
    } else if accepted(guards, s.last()) {
        accepted_count(s.drop_last(), guards) + 1
    } else {
        accepted_count(s.drop_last(), guards)
    }
}

/// With no guards and the identity mapping, the pipeline yields exactly the
/// elements of the source, in source order, unmapped.
pub proof fn lemma_no_guard_identity<A>(s: Seq<A>)
    ensures
        comp_output(s, Seq::empty(), |x: A| x) == s,
    decreases s.len(),
{
    if s.len() > 0 {
        lemma_no_guard_identity::<A>(s.drop_last());
        assert(comp_output(s, Seq::empty(), |x: A| x) =~= s);
    } else {
        assert(comp_output(s, Seq::empty(), |x: A| x) =~= s);
    }
}

/// With no guards, the pipeline is exactly the mapping applied to every
/// element, element for element, in source order.
pub proof fn lemma_no_guard_map<A, B>(s: Seq<A>, f: spec_fn(A) -> B)
    ensures
        comp_output(s, Seq::empty(), f) == s.map_values(f),
    decreases s.len(),
{
    if s.len() > 0 {
        lemma_no_guard_map(s.drop_last(), f);
        assert(comp_output(s, Seq::empty(), f) =~= s.map_values(f));
    } else {
        assert(comp_output(s, Seq::empty(), f) =~= s.map_values(f));
    }
}

/// Guards that exclude no element leave exactly the mapped source: in
/// particular, zero guards never exclude.
pub proof fn lemma_all_accepted<A, B>(
    s: Seq<A>,
    guards: Seq<spec_fn(A) -> bool>,
    f: spec_fn(A) -> B,
)
    requires
        forall|x: A| accepted(guards, x),
    ensures
        comp_output(s, guards, f) == s.map_values(f),
    decreases s.len(),
{
    if s.len() > 0 {
        lemma_all_accepted(s.drop_last(), guards, f);
        assert(comp_output(s, guards, f) =~= s.map_values(f));
    } else {
        assert(comp_output(s, guards, f) =~= s.map_values(f));
    }
}

/// The guard conjunction: an element is accepted exactly when every guard
/// holds, any single false guard excludes it, and zero guards exclude
/// nothing.
pub proof fn lemma_guard_conjunction<A>(guards: Seq<spec_fn(A) -> bool>, x: A)
    ensures
        accepted(guards, x) <==> (forall|i: int|
            0 <= i < guards.len() ==> (#[trigger] guards[i])(x)),
        (exists|i: int| 0 <= i < guards.len() && !(#[trigger] guards[i])(x)) ==> !accepted(
            guards,
            x,
        ),
        guards.len() == 0 ==> accepted(guards, x),
{
}

/// One pipeline step: appending a source element appends its mapping to the
/// output when every guard passes, and changes nothing otherwise.  The
/// mapping is evaluated only in the accepted case.
pub proof fn lemma_step<A, B>(s: Seq<A>, guards: Seq<spec_fn(A) -> bool>, f: spec_fn(A) -> B, x: A)
    ensures
        accepted(guards, x) ==> comp_output(s.push(x), guards, f) == comp_output(
            s,
            guards,
            f,
        ).push(f(x)),
        !accepted(guards, x) ==> comp_output(s.push(x), guards, f) == comp_output(s, guards, f),
{
    assert(s.push(x).drop_last() =~= s);
    assert(s.push(x).last() == x);
}

/// The pipeline produces one value per accepted element: the length of the
/// output is the number of elements that passed every guard, not the number
/// of source elements.
pub proof fn lemma_output_per_accepted<A, B>(
    s: Seq<A>,
    guards: Seq<spec_fn(A) -> bool>,
    f: spec_fn(A) -> B,
)
    ensures
        comp_output(s, guards, f).len() == accepted_count(s, guards),
        accepted_count(s, guards) <= s.len(),
    decreases s.len(),
{
    if s.len() > 0 {
        lemma_output_per_accepted(s.drop_last(), guards, f);
    }
}

// ---------------------------------------------------------------------------
// Executable pipelines.
// ---------------------------------------------------------------------------

/// The trace a pipeline run leaves behind: `keep` lists, in increasing
/// order, the source positions whose element the guard passed; the output
/// holds the mapping's result for exactly those elements, in that order;
/// every other position was refused by the guard.
pub open spec fn pipeline_witness<A, B, G: Fn(&A) -> bool, F: Fn(&A) -> B>(
    src: Seq<A>,
    out: Seq<B>,
    keep: Seq<int>,
    guard: G,
    f: F,
) -> bool {
    &&& keep.len() == out.len()
    &&& forall|k: int| 0 <= k < keep.len() ==> 0 <= #[trigger] keep[k] < src.len()
    &&& forall|k1: int, k2: int| 0 <= k1 < k2 < keep.len() ==> keep[k1] < keep[k2]
    &&& forall|k: int|
        0 <= k < keep.len() ==> call_ensures(guard, (&src[#[trigger] keep[k]],), true)
    &&& forall|k: int| 0 <= k < keep.len() ==> call_ensures(f, (&src[keep[k]],), #[trigger] out[k])
    &&& forall|j: int|
        0 <= j < src.len() && !keep.contains(j) ==> call_ensures(guard, (&src[j],), false)
}

/// Run the pipeline over a finite source: for each element in order, ask
/// the guard, and evaluate the mapping only when it passed.
pub fn run_pipeline<A, B, G: Fn(&A) -> bool, F: Fn(&A) -> B>(src: &Vec<A>, guard: G, f: F) -> (out:
    Vec<B>)
    requires
        forall|i: int| 0 <= i < src@.len() ==> call_requires(guard, (&src@[i],)),
        forall|i: int| 0 <= i < src@.len() ==> call_requires(f, (&src@[i],)),
    ensures
        exists|keep: Seq<int>| pipeline_witness(src@, out@, keep, guard, f),
{
    let mut out: Vec<B> = Vec::new();
    let ghost mut keep: Seq<int> = Seq::empty();
    let mut j: usize = 0;
    while j < src.len()
        invariant
            j <= src@.len(),
            forall|i: int| 0 <= i < src@.len() ==> call_requires(guard, (&src@[i],)),
            forall|i: int| 0 <= i < src@.len() ==> call_requires(f, (&src@[i],)),
            keep.len() == out@.len(),
            forall|k: int| 0 <= k < keep.len() ==> 0 <= #[trigger] keep[k] < j as int,
            forall|k1: int, k2: int| 0 <= k1 < k2 < keep.len() ==> keep[k1] < keep[k2],
            forall|k: int|
                0 <= k < keep.len() ==> call_ensures(guard, (&src@[#[trigger] keep[k]],), true),
            forall|k: int|
                0 <= k < keep.len() ==> call_ensures(f, (&src@[keep[k]],), #[trigger] out@[k]),
            forall|jj: int|
                0 <= jj < j as int && !keep.contains(jj) ==> call_ensures(
                    guard,
                    (&src@[jj],),
                    false,
                ),
        decreases src@.len() - j,
    {
        let x = &src[j];
        if guard(x) {
            let y = f(x);
            out.push(y);
            proof {
                let keep0 = keep;
                keep = keep.push(j as int);
                assert forall|jj: int| keep0.contains(jj) implies keep.contains(jj) by {
                    let w = choose|w: int| 0 <= w < keep0.len() && keep0[w] == jj;
                    assert(keep[w] == jj);
                }
                assert forall|jj: int| 0 <= jj < j + 1 && !keep.contains(jj) implies call_ensures(
                    guard,
                    (&src@[jj],),
                    false,
                ) by {
                    assert(keep[keep.len() - 1] == j as int);
                    assert(jj != j as int);
                    assert(!keep0.contains(jj)) by {
                        if keep0.contains(jj) {
                            assert(keep.contains(jj));
                        }
                    }
                }
            }
        } else {
            proof {
                assert forall|jj: int| 0 <= jj < j + 1 && !keep.contains(jj) implies call_ensures(
                    guard,
                    (&src@[jj],),
                    false,
                ) by {
                    if jj < j as int {
                    } else {
                        assert(jj == j as int);
                    }
                }
            }
        }
        j = j + 1;
    }
    proof {
        assert(pipeline_witness(src@, out@, keep, guard, f));
    }
    out
}

/// Pull lazily from an unbounded source: `src` yields the element at each
/// position of an arbitrarily long sequence, and nothing of it is demanded
/// up front.  Elements are drawn one at a time, in order, until `want`
/// outputs have been produced or `fuel` elements have been examined, so the
/// call is bounded however long the source runs on.  The witness covers
/// exactly the elements that were pulled.
pub fn pipeline_take<A, B, S: Fn(u64) -> A, G: Fn(&A) -> bool, F: Fn(&A) -> B>(
    src: S,
    guard: G,
    f: F,
    want: usize,
    fuel: usize,
) -> (out: Vec<B>)
    requires
        forall|i: u64| (i as int) < fuel as int ==> call_requires(src, (i,)),
        forall|i: u64, x: A|
            (i as int) < fuel as int && #[trigger] call_ensures(src, (i,), x) ==> call_requires(
                guard,
                (&x,),
            ),
        forall|i: u64, x: A|
            (i as int) < fuel as int && #[trigger] call_ensures(src, (i,), x) ==> call_requires(
                f,
                (&x,),
            ),
    ensures
        out@.len() <= want,
        exists|vals: Seq<A>, keep: Seq<int>|
            {
                &&& vals.len() <= fuel
                &&& (forall|j: int|
                    0 <= j < vals.len() ==> call_ensures(src, (j as u64,), #[trigger] vals[j]))
                &&& pipeline_witness(vals, out@, keep, guard, f)
                &&& (out@.len() == want || vals.len() == fuel)
            },
{
    let mut out: Vec<B> = Vec::new();
    let ghost mut vals: Seq<A> = Seq::empty();
    let ghost mut keep: Seq<int> = Seq::empty();
    let mut pulled: usize = 0;
    while pulled < fuel && out.len() < want
        invariant
            pulled <= fuel,
            out@.len() <= want,
            vals.len() == pulled as int,
            forall|i: u64| (i as int) < fuel as int ==> call_requires(src, (i,)),
            forall|i: u64, x: A|
                (i as int) < fuel as int && #[trigger] call_ensures(src, (i,), x)
                    ==> call_requires(guard, (&x,)),
            forall|i: u64, x: A|
                (i as int) < fuel as int && #[trigger] call_ensures(src, (i,), x)
                    ==> call_requires(f, (&x,)),
            forall|j: int| 0 <= j < vals.len() ==> call_ensures(src, (j as u64,), #[trigger] vals[j]),
            keep.len() == out@.len(),
            forall|k: int| 0 <= k < keep.len() ==> 0 <= #[trigger] keep[k] < pulled as int,
            forall|k1: int, k2: int| 0 <= k1 < k2 < keep.len() ==> keep[k1] < keep[k2],
            forall|k: int|
                0 <= k < keep.len() ==> call_ensures(guard, (&vals[#[trigger] keep[k]],), true),
            forall|k: int|
                0 <= k < keep.len() ==> call_ensures(f, (&vals[keep[k]],), #[trigger] out@[k]),
            forall|jj: int|
                0 <= jj < pulled as int && !keep.contains(jj) ==> call_ensures(
                    guard,
                    (&vals[jj],),
                    false,
                ),
        decreases fuel - pulled,
    {
        let x = src(pulled as u64);
        proof {
            vals = vals.push(x);
            assert(vals[pulled as int] == x);
        }
        if guard(&x) {
            let y = f(&x);
            out.push(y);
            proof {
                let keep0 = keep;
                keep = keep.push(pulled as int);
                assert forall|jj: int| keep0.contains(jj) implies keep.contains(jj) by {
                    let w = choose|w: int| 0 <= w < keep0.len() && keep0[w] == jj;
                    assert(keep[w] == jj);
                }
                assert forall|jj: int|
                    0 <= jj < pulled + 1 && !keep.contains(jj) implies call_ensures(
                    guard,
                    (&vals[jj],),
                    false,
                ) by {
                    assert(keep[keep.len() - 1] == pulled as int);
                    assert(jj != pulled as int);
                    assert(!keep0.contains(jj)) by {
                        if keep0.contains(jj) {
                            assert(keep.contains(jj));
                        }
                    }
                }
            }
        } else {
            proof {
                assert forall|jj: int|
                    0 <= jj < pulled + 1 && !keep.contains(jj) implies call_ensures(
                    guard,
                    (&vals[jj],),
                    false,
                ) by {
                    if jj < pulled as int {
                    } else {
                        assert(jj == pulled as int);
                    }
                }
            }
        }
        pulled = pulled + 1;
    }
    proof {
        assert(pipeline_witness(vals, out@, keep, guard, f));
    }
    out
}

/// When the guard and the mapping are functions of their argument alone —
/// every return the guard admits agrees with `gs`, every return the mapping
/// admits agrees with `fs` — a pipeline run produces exactly the declared
/// output for the single-guard conjunction `[gs]`.
pub proof fn lemma_pipeline_exact<A, B, G: Fn(&A) -> bool, F: Fn(&A) -> B>(
    src: Seq<A>,
    out: Seq<B>,
    keep: Seq<int>,
    guard: G,
    f: F,
    gs: spec_fn(A) -> bool,
    fs: spec_fn(A) -> B,
)
    requires
        pipeline_witness(src, out, keep, guard, f),
        forall|x: &A, r: bool| call_ensures(guard, (x,), r) ==> r == gs(*x),
        forall|x: &A, y: B| call_ensures(f, (x,), y) ==> y == fs(*x),
    ensures
        out == comp_output(src, seq![gs], fs),
    decreases src.len(),
{
    if src.len() == 0 {
        assert(out =~= comp_output(src, seq![gs], fs));
    } else {
        let n = src.len() - 1;
        let prefix = src.drop_last();
        assert(accepted(seq![gs], src.last()) <==> gs(src[n])) by {
            if gs(src[n]) {
                assert forall|i: int| 0 <= i < seq![gs].len() implies (#[trigger] seq![gs][i])(
                    src.last(),
                ) by {
                    assert(seq![gs][i] == gs);
                }
            } else {
                assert(seq![gs][0] == gs);
            }
        }
        if gs(src[n]) {
            // The last element was accepted, so it must stand in `keep`,
            // and increasing order puts it last.
            assert(keep.contains(n)) by {
                if !keep.contains(n) {
                    assert(call_ensures(guard, (&src[n],), false));
                }
            }
            let w = choose|w: int| 0 <= w < keep.len() && keep[w] == n;
            assert(w == keep.len() - 1) by {
                if w < keep.len() - 1 {
                    assert(keep[w] < keep[keep.len() - 1]);
                }
            }
            assert(out.len() > 0);
            let keep2 = keep.drop_last();
            let out2 = out.drop_last();
            assert(pipeline_witness(prefix, out2, keep2, guard, f)) by {
                assert forall|k: int| 0 <= k < keep2.len() implies 0 <= #[trigger] keep2[k]
                    < prefix.len() by {
                    assert(keep[k] < keep[keep.len() - 1]);
                }
                assert forall|k: int| 0 <= k < keep2.len() implies call_ensures(
                    guard,
                    (&prefix[#[trigger] keep2[k]],),
                    true,
                ) by {
                    assert(keep[k] < keep[keep.len() - 1]);
                    assert(prefix[keep2[k]] == src[keep[k]]);
                }
                assert forall|k: int| 0 <= k < keep2.len() implies call_ensures(
                    f,
                    (&prefix[keep2[k]],),
                    #[trigger] out2[k],
                ) by {
                    assert(keep[k] < keep[keep.len() - 1]);
                    assert(prefix[keep2[k]] == src[keep[k]]);
                    assert(out2[k] == out[k]);
                }
                assert forall|j: int|
                    0 <= j < prefix.len() && !keep2.contains(j) implies call_ensures(
                    guard,
                    (&prefix[j],),
                    false,
                ) by {
                    assert(!keep.contains(j)) by {
                        if keep.contains(j) {
                            let v = choose|v: int| 0 <= v < keep.len() && keep[v] == j;
                            if v < keep.len() - 1 {
                                assert(keep2[v] == j);
                            } else {
                                assert(j == n);
                            }
                        }
                    }
                    assert(prefix[j] == src[j]);
                }
            }
            lemma_pipeline_exact(prefix, out2, keep2, guard, f, gs, fs);
            assert(out.last() == fs(src[n])) by {
                assert(call_ensures(f, (&src[keep[keep.len() - 1]],), out[out.len() - 1]));
            }
            assert(out =~= comp_output(src, seq![gs], fs));
        } else {
            assert(!keep.contains(n)) by {
                if keep.contains(n) {
                    let v = choose|v: int| 0 <= v < keep.len() && keep[v] == n;
                    assert(call_ensures(guard, (&src[keep[v]],), true));
                }
            }
            assert(pipeline_witness(prefix, out, keep, guard, f)) by {
                assert forall|k: int| 0 <= k < keep.len() implies 0 <= #[trigger] keep[k]
                    < prefix.len() by {
                    assert(keep[k] != n);
                }
                assert forall|k: int| 0 <= k < keep.len() implies call_ensures(
                    guard,
                    (&prefix[#[trigger] keep[k]],),
                    true,
                ) by {
                    assert(keep[k] != n);
                    assert(prefix[keep[k]] == src[keep[k]]);
                }
                assert forall|k: int| 0 <= k < keep.len() implies call_ensures(
                    f,
                    (&prefix[keep[k]],),
                    #[trigger] out[k],
                ) by {
                    assert(keep[k] != n);
                    assert(prefix[keep[k]] == src[keep[k]]);
                }
                assert forall|j: int|
                    0 <= j < prefix.len() && !keep.contains(j) implies call_ensures(
                    guard,
                    (&prefix[j],),
                    false,
                ) by {
                    assert(prefix[j] == src[j]);
                }
            }
            lemma_pipeline_exact(prefix, out, keep, guard, f, gs, fs);
            assert(out =~= comp_output(src, seq![gs], fs));
        }
    }
}

} // verus!
