//! Fair merging of the per-resource event sequences into one flow.
//!
//! The merge is round-robin: one event from every source that still has
//! one, round after round, so no source with pending events waits on the
//! others indefinitely. Per-source order is preserved exactly and every
//! event appears once, tagged with its source.

use crate::object::{view_dyn, DynamicObject, ObjModel};
use vstd::prelude::*;

verus! {

/// The models of a sequence of events.
pub open spec fn models_of(s: Seq<DynamicObject>) -> Seq<ObjModel>
    decreases s,
{
    if s.len() == 0 {
        Seq::empty()
    } else {
        seq![view_dyn(s[0])] + models_of(s.subrange(1, s.len() as int))
    }
}

pub proof fn lemma_models_of_len(s: Seq<DynamicObject>)
    ensures
        models_of(s).len() == s.len(),
    decreases s.len(),
{
    if s.len() > 0 {
        lemma_models_of_len(s.subrange(1, s.len() as int));
    }
}

/// `models_of` agrees with pointwise models.
pub proof fn lemma_models_of_index(s: Seq<DynamicObject>, i: int)
    requires
        0 <= i < s.len(),
    ensures
        models_of(s).len() == s.len(),
        models_of(s)[i] == view_dyn(s[i]),
    decreases s.len(),
{
    lemma_models_of_len(s);
    if i > 0 {
        lemma_models_of_index(s.subrange(1, s.len() as int), i - 1);
    }
}

/// The models of the merged events that came from one source, in order.
pub open spec fn project_view(s: Seq<(usize, DynamicObject)>, src: int) -> Seq<ObjModel>
    decreases s.len(),
{
    if s.len() == 0 {
        Seq::empty()
    } else {
        let init = project_view(s.drop_last(), src);
        if s.last().0 == src {
            init.push(view_dyn(s.last().1))
        } else {
            init
        }
    }
}

/// Appending one tagged event extends exactly its own source's projection.
pub proof fn lemma_project_push(s: Seq<(usize, DynamicObject)>, e: (usize, DynamicObject), src: int)
    ensures
        project_view(s.push(e), src) == if e.0 == src {
            project_view(s, src).push(view_dyn(e.1))
        } else {
            project_view(s, src)
        },
{
    assert(s.push(e).drop_last() =~= s);
    assert(s.push(e).last() == e);
}

/// How many events of a source with `n_s` pending have been emitted after
/// `r` full rounds.
pub open spec fn emitted(r: int, n_s: int) -> int {
    if r <= n_s {
        r
    } else {
        n_s
    }
}

/// Merge the sources round-robin into one tagged flow. Every source's
/// events appear, in their own order; each merged event names a real
/// source.
#[verifier::loop_isolation(false)]
pub fn merge_streams(sources: &Vec<Vec<DynamicObject>>) -> (r: Vec<(usize, DynamicObject)>)
    ensures
        forall|s: int|
            0 <= s < sources@.len() ==> project_view(r@, s) == models_of(sources@[s]@),
        forall|p: int| 0 <= p < r@.len() ==> (r@[p].0 as int) < sources@.len(),
{
    let n = sources.len();
    let mut max_len: usize = 0;
    let mut i0: usize = 0;
    while i0 < n
        invariant
            i0 <= n,
            forall|j: int| 0 <= j < i0 ==> sources@[j]@.len() <= max_len,
        decreases n - i0,
    {
        if sources[i0].len() > max_len {
            max_len = sources[i0].len();
        }
        i0 = i0 + 1;
    }
    let mut out: Vec<(usize, DynamicObject)> = Vec::new();
    let mut round: usize = 0;
    proof {
        assert forall|s: int| 0 <= s < n implies project_view(out@, s) == models_of(
            sources@[s]@,
        ).take(emitted(0, sources@[s]@.len() as int)) by {
            lemma_models_of_len(sources@[s]@);
            assert(models_of(sources@[s]@).take(0) =~= Seq::<ObjModel>::empty());
        }
    }
    while round < max_len
        invariant
            round <= max_len,
            forall|s: int|
                0 <= s < n ==> project_view(out@, s) == models_of(sources@[s]@).take(
                    emitted(round as int, sources@[s]@.len() as int),
                ),
            forall|p: int| 0 <= p < out@.len() ==> (out@[p].0 as int) < n,
        decreases max_len - round,
    {
        let mut i: usize = 0;
        while i < n
            invariant
                i <= n,
                round < max_len,
                forall|s: int|
                    0 <= s < i ==> project_view(out@, s) == models_of(sources@[s]@).take(
                        emitted(round as int + 1, sources@[s]@.len() as int),
                    ),
                forall|s: int|
                    i <= s < n ==> project_view(out@, s) == models_of(sources@[s]@).take(
                        emitted(round as int, sources@[s]@.len() as int),
                    ),
                forall|p: int| 0 <= p < out@.len() ==> (out@[p].0 as int) < n,
            decreases n - i,
        {
            let ghost out0 = out@;
            if round < sources[i].len() {
                let e = sources[i][round].deep_clone();
                out.push((i, e));
                proof {
                    lemma_models_of_index(sources@[i as int]@, round as int);
                    assert forall|s: int| 0 <= s < n implies project_view(out@, s) == models_of(
                        sources@[s]@,
                    ).take(
                        emitted(
                            if s <= i {
                                round as int + 1
                            } else {
                                round as int
                            },
                            sources@[s]@.len() as int,
                        ),
                    ) by {
                        lemma_project_push(out0, (i, e), s);
                        lemma_models_of_len(sources@[s]@);
                        if s == i {
                            let ms = models_of(sources@[s]@);
                            assert(ms.take(round as int + 1) =~= ms.take(round as int).push(
                                ms[round as int],
                            ));
                        }
                    }
                }
            } else {
                proof {
                    assert forall|s: int| 0 <= s < n implies project_view(out@, s) == models_of(
                        sources@[s]@,
                    ).take(
                        emitted(
                            if s <= i {
                                round as int + 1
                            } else {
                                round as int
                            },
                            sources@[s]@.len() as int,
                        ),
                    ) by {
                        if s == i {
                            assert(emitted(round as int + 1, sources@[s]@.len() as int) == emitted(
                                round as int,
                                sources@[s]@.len() as int,
                            ));
                        }
                    }
                }
            }
            i = i + 1;
        }
        round = round + 1;
    }
    proof {
        assert forall|s: int| 0 <= s < n implies project_view(out@, s) == models_of(
            sources@[s]@,
        ) by {
            lemma_models_of_len(sources@[s]@);
            assert(emitted(max_len as int, sources@[s]@.len() as int) == sources@[s]@.len());
            assert(models_of(sources@[s]@).take(sources@[s]@.len() as int) =~= models_of(
                sources@[s]@,
            ));
        }
    }
    out
}

} // verus!
