//! Pipeline validation and layering: step ids are distinct and non-empty,
//! every dependency names a step, the dependency graph has no cycle, and the
//! steps are grouped into layers by the length of the longest dependency
//! chain that ends in them.
use crate::config::{PipelineDef, StepDef};
use crate::utils::text::{concat2, push_str};
use vstd::prelude::*;

verus! {

/// Why a pipeline cannot be layered.
#[derive(Debug)]
pub enum DagError {
    /// A step has an empty id.
    EmptyStepId,
    /// Two steps share this id.
    DuplicateStepId(String),
    /// `step` depends on `dep`, which no step has as id.
    MissingDependency { step: String, dep: String },
    /// The dependencies form a cycle.
    Cycle,
}

/// Why a pipeline definition is refused.
#[derive(Debug)]
pub enum PipelineError {
    /// The named pipeline cannot be layered.
    Invalid { pipeline: String, cause: DagError },
    /// The named pipeline layers into nothing.
    Empty { pipeline: String },
}

/// The text of a layering error.
pub open spec fn dag_error_text(e: DagError) -> Seq<char> {
    match e {
        DagError::EmptyStepId => "step id 不能为空"@,
        DagError::DuplicateStepId(id) => "step id 重复: "@ + id@,
        DagError::MissingDependency { step, dep } => "step ["@ + step@ + "] 依赖了不存在的 step ["@ + dep@ + "]"@,
        DagError::Cycle => "pipeline 存在循环依赖"@,
    }
}

/// The text of a refused pipeline.
pub open spec fn pipeline_error_text(e: PipelineError) -> Seq<char> {
    match e {
        PipelineError::Invalid { pipeline, .. } => "pipeline ["@ + pipeline@ + "] 非法"@,
        PipelineError::Empty { pipeline } => "pipeline ["@ + pipeline@ + "] 没有任何 step"@,
    }
}

impl DagError {
    /// The text of this error.
    pub fn message(&self) -> (s: String)
        ensures
            s@ == dag_error_text(*self),
    {
        match self {
            DagError::EmptyStepId => "step id 不能为空".to_owned(),
            DagError::DuplicateStepId(id) => concat2("step id 重复: ", id.as_str()),
            DagError::MissingDependency { step, dep } => {
                let mut s = concat2("step [", step.as_str());
                push_str(&mut s, "] 依赖了不存在的 step [");
                push_str(&mut s, dep.as_str());
                push_str(&mut s, "]");
                s
            },
            DagError::Cycle => "pipeline 存在循环依赖".to_owned(),
        }
    }
}

impl PipelineError {
    /// The text of this error.
    pub fn message(&self) -> (s: String)
        ensures
            s@ == pipeline_error_text(*self),
    {
        match self {
            PipelineError::Invalid { pipeline, .. } => {
                let mut s = concat2("pipeline [", pipeline.as_str());
                push_str(&mut s, "] 非法");
                s
            },
            PipelineError::Empty { pipeline } => {
                let mut s = concat2("pipeline [", pipeline.as_str());
                push_str(&mut s, "] 没有任何 step");
                s
            },
        }
    }
}

/// The ids of the steps.
pub open spec fn ids_of(steps: Seq<StepDef>) -> Seq<Seq<char>> {
    steps.map_values(|s: StepDef| s.id@)
}

/// Step `i` has an empty id or repeats the id of an earlier step.
pub open spec fn bad_id(steps: Seq<StepDef>, i: int) -> bool {
    steps[i].id@.len() == 0 || exists|j: int| 0 <= j < i && #[trigger] steps[j].id@ == steps[i].id@
}

/// Step `i` is the first step whose id is empty or repeated.
pub open spec fn first_bad_id(steps: Seq<StepDef>, i: int) -> bool {
    0 <= i < steps.len() && bad_id(steps, i) && forall|j: int| 0 <= j < i ==> !bad_id(steps, j)
}

/// Every step has a non-empty id and no two steps share one.
pub open spec fn ids_valid(steps: Seq<StepDef>) -> bool {
    forall|i: int| 0 <= i < steps.len() ==> !bad_id(steps, i)
}

/// Some step has `d` as id.
pub open spec fn has_step(steps: Seq<StepDef>, d: Seq<char>) -> bool {
    exists|j: int| 0 <= j < steps.len() && #[trigger] steps[j].id@ == d
}

/// Dependency `k` of step `i` names no step.
pub open spec fn missing_dep(steps: Seq<StepDef>, i: int, k: int) -> bool {
    0 <= i < steps.len() && 0 <= k < steps[i].depends_on.len() && !has_step(
        steps,
        steps[i].depends_on@[k]@,
    )
}

/// Dependency `k` of step `i` is the first one (by step, then by position) naming no step.
pub open spec fn first_missing_dep(steps: Seq<StepDef>, i: int, k: int) -> bool {
    &&& missing_dep(steps, i, k)
    &&& forall|i2: int, k2: int| #![trigger missing_dep(steps, i2, k2)]
        (i2 < i || (i2 == i && k2 < k)) ==> !missing_dep(steps, i2, k2)
}

/// Every dependency names a step.
pub open spec fn deps_resolve(steps: Seq<StepDef>) -> bool {
    forall|i: int, k: int| !#[trigger] missing_dep(steps, i, k)
}

/// Step `b` depends on step `a`.
pub open spec fn depends(steps: Seq<StepDef>, a: int, b: int) -> bool {
    0 <= a < steps.len() && 0 <= b < steps.len() && exists|k: int|
        0 <= k < steps[b].depends_on.len() && #[trigger] steps[b].depends_on@[k]@ == steps[a].id@
}

/// `o` lists `0..n` in some order.
pub open spec fn is_perm(o: Seq<usize>, n: nat) -> bool {
    &&& o.len() == n
    &&& forall|p: int| 0 <= p < n ==> #[trigger] o[p] < n
    &&& forall|p: int, q: int| 0 <= p < q < n ==> o[p] != o[q]
}

/// `o` lists every step once, each after all the steps it depends on.
pub open spec fn is_topo_order(steps: Seq<StepDef>, o: Seq<usize>) -> bool {
    &&& is_perm(o, steps.len())
    &&& forall|p: int, q: int|
        0 <= p < steps.len() && 0 <= q < steps.len() && #[trigger] depends(steps, o[p] as int, o[q] as int)
            ==> p < q
}

/// The dependency graph has no cycle.
pub open spec fn acyclic(steps: Seq<StepDef>) -> bool {
    exists|o: Seq<usize>| is_topo_order(steps, o)
}

/// `lv[b]` is the length of the longest dependency chain ending in step `b`.
pub open spec fn is_depth(steps: Seq<StepDef>, lv: Seq<nat>) -> bool {
    &&& lv.len() == steps.len()
    &&& forall|a: int, b: int| #[trigger] depends(steps, a, b) ==> lv[b] >= lv[a] + 1
    &&& forall|b: int| 0 <= b < steps.len() ==> #[trigger] lv[b] == 0 || exists|a: int|
        #[trigger] depends(steps, a, b) && lv[b] == lv[a] + 1
}

/// `layers[l]` lists, in increasing order, exactly the steps `i` with `lv[i] == l`,
/// and there is one layer per level up to the deepest.
pub open spec fn layered(lv: Seq<nat>, layers: Seq<Seq<usize>>) -> bool {
    &&& layers.len() >= 1
    &&& forall|i: int| 0 <= i < lv.len() ==> #[trigger] lv[i] < layers.len()
    &&& (lv.len() > 0 ==> exists|i: int| 0 <= i < lv.len() && lv[i] == layers.len() - 1)
    &&& forall|l: int| 0 <= l < layers.len() ==> #[trigger] layer_ok(lv, layers[l], l)
}

/// `layer` lists, in increasing order, exactly the steps `i` with `lv[i] == l`.
pub open spec fn layer_ok(lv: Seq<nat>, layer: Seq<usize>, l: int) -> bool {
    &&& forall|p: int, q: int| 0 <= p < q < layer.len() ==> layer[p] < layer[q]
    &&& forall|p: int| 0 <= p < layer.len() ==> #[trigger] layer[p] < lv.len() && lv[layer[p] as int] == l
    &&& forall|i: int| 0 <= i < lv.len() && lv[i] == l ==> #[trigger] layer.contains(i as usize)
}

/// `o` lists `0..n` with every edge going forward.
pub open spec fn topo_for_edges(n: nat, edges: Seq<(usize, usize)>, o: Seq<usize>) -> bool {
    &&& is_perm(o, n)
    &&& forall|j: int, p: int, q: int|
        0 <= j < edges.len() && 0 <= p < n && 0 <= q < n && #[trigger] edges[j] == (
            #[trigger] o[p],
            #[trigger] o[q],
        ) ==> p < q
}

/// Topological sort of the graph with nodes `0..n` and the given edges (petgraph's
/// `toposort`): an order in which every edge goes forward, or `None` when the
/// graph has a cycle (and so no such order exists).
#[verifier::external_body]
fn toposort_edges(n: usize, edges: &Vec<(usize, usize)>) -> (r: Option<Vec<usize>>)
    requires
        forall|j: int| 0 <= j < edges.len() ==> #[trigger] edges[j].0 < n && edges[j].1 < n,
    ensures
        match r {
            Some(o) => topo_for_edges(n as nat, edges@, o@),
            None => forall|o: Seq<usize>| !topo_for_edges(n as nat, edges@, o),
        },
{
    let mut g = petgraph::graph::DiGraph::<usize, (), usize>::default();
    let nodes: Vec<petgraph::graph::NodeIndex<usize>> = (0..n).map(|i| g.add_node(i)).collect();
    for &(a, b) in edges {
        g.add_edge(nodes[a], nodes[b], ());
    }
    match petgraph::algo::toposort(&g, None) {
        Ok(order) => Some(order.iter().map(|x| g[*x]).collect()),
        Err(_) => None,
    }
}


/// A duplicate-free list of numbers below `m` has at most `m` entries.
proof fn lemma_distinct_bound(o: Seq<usize>, m: nat)
    requires
        forall|p: int| 0 <= p < o.len() ==> #[trigger] o[p] < m,
        forall|p: int, q: int| 0 <= p < q < o.len() ==> o[p] != o[q],
    ensures
        o.len() <= m,
    decreases m,
{
    if m == 0 {
        if o.len() > 0 {
            assert(o[0] < 0);
        }
    } else {
        let top: usize = (m - 1) as usize;
        if exists|p: int| 0 <= p < o.len() && o[p] == top {
            let p: int = choose|p: int| 0 <= p < o.len() && o[p] == top;
            let r = o.remove(p);
            assert forall|x: int| 0 <= x < r.len() implies #[trigger] r[x] < (m - 1) as nat by {
                if x < p {
                    assert(r[x] == o[x]);
                    assert(o[x] != o[p]);
                } else {
                    assert(r[x] == o[x + 1]);
                    assert(o[x + 1] != o[p]);
                }
            }
            assert forall|x: int, y: int| 0 <= x < y < r.len() implies r[x] != r[y] by {
                let ox = if x < p { x } else { x + 1 };
                let oy = if y < p { y } else { y + 1 };
                assert(r[x] == o[ox]);
                assert(r[y] == o[oy]);
            }
            lemma_distinct_bound(r, (m - 1) as nat);
        } else {
            assert forall|x: int| 0 <= x < o.len() implies #[trigger] o[x] < (m - 1) as nat by {
                assert(o[x] != top);
            }
            lemma_distinct_bound(o, (m - 1) as nat);
        }
    }
}

/// A permutation of `0..n` contains every number below `n`.
proof fn lemma_perm_covers(o: Seq<usize>, n: nat, x: usize)
    requires
        is_perm(o, n),
        x < n,
    ensures
        exists|p: int| 0 <= p < n && o[p] == x,
{
    if !(exists|p: int| 0 <= p < n && o[p] == x) {
        let o2 = o.map_values(|v: usize| if v > x { (v - 1) as usize } else { v });
        assert forall|p: int| 0 <= p < o2.len() implies #[trigger] o2[p] < (n - 1) as nat by {
            assert(o[p] != x);
            assert(o[p] < n);
        }
        assert forall|p: int, q: int| 0 <= p < q < o2.len() implies o2[p] != o2[q] by {
            assert(o[p] != x);
            assert(o[q] != x);
            assert(o[p] != o[q]);
        }
        lemma_distinct_bound(o2, (n - 1) as nat);
    }
}


/// The index of the step whose id is `d`.
fn find_step(steps: &Vec<StepDef>, d: &String) -> (r: Option<usize>)
    ensures
        match r {
            Some(j) => j < steps.len() && steps@[j as int].id@ == d@,
            None => !has_step(steps@, d@),
        },
{
    let mut j: usize = 0;
    while j < steps.len()
        invariant
            j <= steps.len(),
            forall|x: int| 0 <= x < j ==> steps@[x].id@ != d@,
        decreases steps.len() - j,
    {
        if steps[j].id == *d {
            return Some(j);
        }
        j += 1;
    }
    None
}

/// Checks that step ids are non-empty and distinct; on failure reports the first offending step.
fn check_ids(steps: &Vec<StepDef>) -> (r: Result<(), DagError>)
    ensures
        r is Ok <==> ids_valid(steps@),
        match r {
            Ok(_) => true,
            Err(DagError::EmptyStepId) => exists|i: int| first_bad_id(steps@, i) && steps@[i].id@.len() == 0,
            Err(DagError::DuplicateStepId(id)) => exists|i: int|
                first_bad_id(steps@, i) && steps@[i].id@.len() > 0 && id@ == steps@[i].id@,
            Err(_) => false,
        },
{
    let mut i: usize = 0;
    while i < steps.len()
        invariant
            i <= steps.len(),
            forall|x: int| 0 <= x < i ==> !bad_id(steps@, x),
        decreases steps.len() - i,
    {
        if steps[i].id.as_str().is_empty() {
            assert(first_bad_id(steps@, i as int));
            return Err(DagError::EmptyStepId);
        }
        let mut j: usize = 0;
        while j < i
            invariant
                i < steps.len(),
                j <= i,
                steps@[i as int].id@.len() > 0,
                forall|x: int| 0 <= x < i ==> !bad_id(steps@, x),
                forall|x: int| 0 <= x < j ==> steps@[x].id@ != steps@[i as int].id@,
            decreases i - j,
        {
            if steps[j].id == steps[i].id {
                assert(bad_id(steps@, i as int));
                assert(first_bad_id(steps@, i as int));
                assert(steps@[i as int].id@.len() > 0);
                let dup = steps[i].id.clone();
                assert(dup@ == steps@[i as int].id@);
                return Err(DagError::DuplicateStepId(dup));
            }
            j += 1;
        }
        assert(!bad_id(steps@, i as int));
        i += 1;
    }
    Ok(())
}

/// The dependency `k` of step `b` is recorded by some edge.
pub open spec fn covered(steps: Seq<StepDef>, edges: Seq<(usize, usize)>, b: int, k: int) -> bool {
    exists|j: int|
        0 <= j < edges.len() && edges[j].1 == b && edges[j].0 < steps.len()
            && #[trigger] steps[edges[j].0 as int].id@ == steps[b].depends_on@[k]@
}

/// Every edge `(a, b)` is a dependency of step `b` on step `a`.
pub open spec fn edges_sound(steps: Seq<StepDef>, edges: Seq<(usize, usize)>) -> bool {
    forall|j: int| 0 <= j < edges.len() ==> depends(steps, #[trigger] edges[j].0 as int, edges[j].1 as int)
}

/// Every dependency of step `b` on step `a` is an edge `(a, b)`.
pub open spec fn edges_complete(steps: Seq<StepDef>, edges: Seq<(usize, usize)>) -> bool {
    forall|a: int, b: int| #[trigger] depends(steps, a, b) ==> exists|j: int|
        0 <= j < edges.len() && #[trigger] edges[j].0 == a && edges[j].1 == b
}

/// The edge list of the dependency graph (an edge `(a, b)` for each dependency of
/// `b` on `a`), or the first dependency that names no step.
fn collect_edges(steps: &Vec<StepDef>) -> (r: Result<Vec<(usize, usize)>, DagError>)
    requires
        ids_valid(steps@),
    ensures
        r is Ok <==> deps_resolve(steps@),
        match r {
            Ok(edges) => edges_sound(steps@, edges@) && edges_complete(steps@, edges@),
            Err(DagError::MissingDependency { step, dep }) => exists|i: int, k: int|
                first_missing_dep(steps@, i, k) && step@ == steps@[i].id@ && dep@
                    == steps@[i].depends_on@[k]@,
            Err(_) => false,
        },
{
    let mut edges: Vec<(usize, usize)> = Vec::new();
    let mut i: usize = 0;
    while i < steps.len()
        invariant
            ids_valid(steps@),
            i <= steps.len(),
            forall|i2: int, k2: int| i2 < i ==> !#[trigger] missing_dep(steps@, i2, k2),
            forall|j: int| 0 <= j < edges.len() ==> depends(steps@, #[trigger] edges@[j].0 as int, edges@[j].1 as int),
            forall|b: int, k: int|
                0 <= b < i && 0 <= k < steps@[b].depends_on.len() ==> #[trigger] covered(steps@, edges@, b, k),
        decreases steps.len() - i,
    {
        let deps = &steps[i].depends_on;
        let mut k: usize = 0;
        while k < deps.len()
            invariant
                ids_valid(steps@),
                i < steps.len(),
                *deps == steps@[i as int].depends_on,
                k <= deps.len(),
                forall|i2: int, k2: int|
                    (i2 < i || (i2 == i && k2 < k)) ==> !#[trigger] missing_dep(steps@, i2, k2),
                forall|j: int| 0 <= j < edges.len() ==> depends(steps@, #[trigger] edges@[j].0 as int, edges@[j].1 as int),
                forall|b: int, k2: int|
                    ((0 <= b < i && 0 <= k2 < steps@[b].depends_on.len()) || (b == i && 0 <= k2 < k))
                        ==> #[trigger] covered(steps@, edges@, b, k2),
            decreases deps.len() - k,
        {
            match find_step(steps, &deps[k]) {
                Some(d) => {
                    let ghost old_edges = edges@;
                    edges.push((d, i));
                    assert(depends(steps@, d as int, i as int)) by {
                        assert(steps@[i as int].depends_on@[k as int]@ == steps@[d as int].id@);
                    }
                    assert forall|b: int, k2: int|
                        ((0 <= b < i && 0 <= k2 < steps@[b].depends_on.len()) || (b == i && 0 <= k2 < k + 1))
                            implies #[trigger] covered(steps@, edges@, b, k2) by {
                        if b == i && k2 == k {
                            let jj: int = old_edges.len() as int;
                            assert(edges@[jj] == (d, i));
                            assert(steps@[edges@[jj].0 as int].id@ == steps@[b].depends_on@[k2]@);
                        } else {
                            assert(covered(steps@, old_edges, b, k2));
                            let j: int = choose|j: int|
                                0 <= j < old_edges.len() && old_edges[j].1 == b && old_edges[j].0 < steps@.len()
                                    && #[trigger] steps@[old_edges[j].0 as int].id@ == steps@[b].depends_on@[k2]@;
                            assert(edges@[j] == old_edges[j]);
                        }
                    }
                },
                None => {
                    assert(missing_dep(steps@, i as int, k as int));
                    assert(first_missing_dep(steps@, i as int, k as int));
                    return Err(DagError::MissingDependency { step: steps[i].id.clone(), dep: deps[k].clone() });
                },
            }
            k += 1;
        }
        assert forall|i2: int, k2: int| i2 < i + 1 implies !#[trigger] missing_dep(steps@, i2, k2) by {
            if i2 == i && missing_dep(steps@, i2, k2) {
                assert(k2 < k);
            }
        }
        i += 1;
    }
    assert forall|a: int, b: int| #[trigger] depends(steps@, a, b) implies exists|j: int|
        0 <= j < edges.len() && #[trigger] edges@[j].0 == a && edges@[j].1 == b by {
        let k: int = choose|k: int|
            0 <= k < steps@[b].depends_on.len() && #[trigger] steps@[b].depends_on@[k]@ == steps@[a].id@;
        assert(covered(steps@, edges@, b, k));
        let j: int = choose|j: int|
            0 <= j < edges.len() && edges@[j].1 == b && edges@[j].0 < steps@.len()
                && #[trigger] steps@[edges@[j].0 as int].id@ == steps@[b].depends_on@[k]@;
        let e0 = edges@[j].0 as int;
        if e0 != a {
            if e0 < a {
                assert(bad_id(steps@, a));
            } else {
                assert(bad_id(steps@, e0));
            }
        }
    }
    assert(deps_resolve(steps@));
    assert(edges_complete(steps@, edges@));
    assert(edges_sound(steps@, edges@));
    Ok(edges)
}


/// Step `x` appears among the first `t` entries of `o`.
pub open spec fn placed(o: Seq<usize>, t: int, x: int) -> bool {
    exists|p: int| 0 <= p < t && o[p] == x
}

/// The depth conditions hold for step `b` under the levels `lv`.
pub open spec fn depth_at(steps: Seq<StepDef>, lv: Seq<usize>, b: int) -> bool {
    &&& forall|a: int| #[trigger] depends(steps, a, b) ==> lv[b] >= lv[a] + 1
    &&& (lv[b] == 0 || exists|a: int| #[trigger] depends(steps, a, b) && lv[b] == lv[a] + 1)
}

/// The levels as natural numbers.
pub open spec fn nat_levels(lv: Seq<usize>) -> Seq<nat> {
    lv.map_values(|x: usize| x as nat)
}

/// Longest-chain depth of every step, computed along a topological order.
fn compute_levels(steps: &Vec<StepDef>, order: &Vec<usize>) -> (lv: Vec<usize>)
    requires
        ids_valid(steps@),
        deps_resolve(steps@),
        is_topo_order(steps@, order@),
    ensures
        is_depth(steps@, nat_levels(lv@)),
        lv.len() == steps.len(),
        forall|x: int| 0 <= x < steps.len() ==> #[trigger] lv@[x] < steps.len(),
{
    let n: usize = steps.len();
    let mut level: Vec<usize> = Vec::new();
    for x in 0..n
        invariant
            level.len() == x,
            forall|y: int| 0 <= y < x ==> level@[y] == 0,
    {
        level.push(0);
    }
    for t in 0..n
        invariant
            n == steps.len(),
            ids_valid(steps@),
            deps_resolve(steps@),
            is_topo_order(steps@, order@),
            level.len() == n,
            forall|p: int| 0 <= p < t ==> #[trigger] level@[order@[p] as int] <= p,
            forall|x: int| 0 <= x < n && !placed(order@, t as int, x) ==> #[trigger] level@[x] == 0,
            forall|p: int| 0 <= p < t ==> #[trigger] depth_at(steps@, level@, order@[p] as int),
    {
        let i = order[t];
        let deps = &steps[i].depends_on;
        let mut m: usize = 0;
        for k in 0..deps.len()
            invariant
                n == steps.len(),
                t < n,
                i == order@[t as int],
                i < n,
                *deps == steps@[i as int].depends_on,
                ids_valid(steps@),
                deps_resolve(steps@),
                is_topo_order(steps@, order@),
                level.len() == n,
                forall|p: int| 0 <= p < t ==> #[trigger] level@[order@[p] as int] <= p,
                forall|x: int| 0 <= x < n && !placed(order@, t as int, x) ==> #[trigger] level@[x] == 0,
                m <= t,
                forall|a: int| 0 <= a < n && (exists|k2: int| 0 <= k2 < k && #[trigger] deps@[k2]@ == steps@[a].id@)
                    ==> m >= level@[a] + 1,
                m == 0 || exists|a: int| #[trigger] depends(steps@, a, i as int) && m == level@[a] + 1,
        {
            assert(!missing_dep(steps@, i as int, k as int));
            match find_step(steps, &deps[k]) {
                Some(d) => {
                    assert(depends(steps@, d as int, i as int)) by {
                        assert(steps@[i as int].depends_on@[k as int]@ == steps@[d as int].id@);
                    }
                    proof {
                        lemma_perm_covers(order@, n as nat, d);
                        let q: int = choose|q: int| 0 <= q < n && order@[q] == d;
                        assert(depends(steps@, order@[q] as int, order@[t as int] as int));
                        assert(q < t);
                        assert(level@[order@[q] as int] <= q);
                    }
                    if level[d] + 1 > m {
                        m = level[d] + 1;
                    }
                    assert forall|a: int| 0 <= a < n && (exists|k2: int| 0 <= k2 < k + 1 && #[trigger] deps@[k2]@ == steps@[a].id@)
                        implies m >= level@[a] + 1 by {
                        let k2: int = choose|k2: int| 0 <= k2 < k + 1 && #[trigger] deps@[k2]@ == steps@[a].id@;
                        if k2 == k {
                            if a != d as int {
                                if a < d {
                                    assert(bad_id(steps@, d as int));
                                } else {
                                    assert(bad_id(steps@, a));
                                }
                            }
                        }
                    }
                },
                None => {
                    assert(has_step(steps@, steps@[i as int].depends_on@[k as int]@));
                },
            }
        }
        proof {
            assert forall|a: int| #[trigger] depends(steps@, a, i as int) implies m >= level@[a] + 1 by {
                let k: int = choose|k: int|
                    0 <= k < steps@[i as int].depends_on.len() && #[trigger] steps@[i as int].depends_on@[k]@ == steps@[a].id@;
                assert(deps@[k]@ == steps@[a].id@);
            }
        }
        let ghost old_level = level@;
        level.set(i, m);
        proof {
            // levels of steps placed earlier, and of their dependencies, are untouched
            assert forall|p: int| 0 <= p < t + 1 implies #[trigger] depth_at(steps@, level@, order@[p] as int) by {
                let b = order@[p] as int;
                if p < t {
                    assert(order@[p] != order@[t as int]);
                    assert(depth_at(steps@, old_level, b));
                    assert forall|a: int| #[trigger] depends(steps@, a, b) implies level@[a] == old_level[a] by {
                        if a == i as int {
                            assert(depends(steps@, order@[t as int] as int, order@[p] as int));
                        }
                    }
                    if old_level[b] != 0 {
                        let a: int = choose|a: int| #[trigger] depends(steps@, a, b) && old_level[b] == old_level[a] + 1;
                        assert(level@[a] == old_level[a]);
                    }
                } else {
                    assert forall|a: int| #[trigger] depends(steps@, a, b) implies level@[a] == old_level[a] by {
                        if a == i as int {
                            assert(depends(steps@, order@[t as int] as int, order@[t as int] as int));
                        }
                    }
                    if m != 0 {
                        let a: int = choose|a: int| #[trigger] depends(steps@, a, i as int) && m == old_level[a] + 1;
                        assert(level@[a] == old_level[a]);
                    }
                }
            }
            assert forall|p: int| 0 <= p < t + 1 implies #[trigger] level@[order@[p] as int] <= p by {
                if p < t {
                    assert(order@[p] != order@[t as int]);
                }
            }
            assert forall|x: int| 0 <= x < n && !placed(order@, t + 1, x) implies #[trigger] level@[x] == 0 by {
                assert(x != i as int);
                assert(!placed(order@, t as int, x)) by {
                    if placed(order@, t as int, x) {
                        let p: int = choose|p: int| 0 <= p < t && order@[p] == x;
                        assert(placed(order@, t + 1, x));
                    }
                }
            }
        }
    }
    proof {
        let lvn = nat_levels(level@);
        assert forall|b: int| 0 <= b < n implies depth_at(steps@, level@, b) by {
            lemma_perm_covers(order@, n as nat, b as usize);
            let p: int = choose|p: int| 0 <= p < n && order@[p] == b as usize;
            assert(depth_at(steps@, level@, order@[p] as int));
        }
        assert forall|a: int, b: int| #[trigger] depends(steps@, a, b) implies lvn[b] >= lvn[a] + 1 by {
            assert(depth_at(steps@, level@, b));
        }
        assert forall|b: int| 0 <= b < steps.len() implies #[trigger] lvn[b] == 0 || exists|a: int|
            #[trigger] depends(steps@, a, b) && lvn[b] == lvn[a] + 1 by {
            assert(depth_at(steps@, level@, b));
            if level@[b] != 0 {
                let a: int = choose|a: int| #[trigger] depends(steps@, a, b) && level@[b] == level@[a] + 1;
                assert(lvn[b] == lvn[a] + 1);
            }
        }
        assert forall|x: int| 0 <= x < steps.len() implies #[trigger] level@[x] < steps.len() by {
            lemma_perm_covers(order@, n as nat, x as usize);
            let p: int = choose|p: int| 0 <= p < n && order@[p] == x as usize;
            assert(level@[order@[p] as int] <= p);
        }
    }
    level
}


/// The views of a list of layers.
pub open spec fn layer_views(layers: Seq<Vec<usize>>) -> Seq<Seq<usize>> {
    layers.map_values(|v: Vec<usize>| v@)
}

/// `layer` lists, in increasing order, exactly the steps `i < upto` with `lv[i] == l`.
pub open spec fn partial_layer(lv: Seq<nat>, layer: Seq<usize>, l: int, upto: int) -> bool {
    &&& forall|p: int, q: int| 0 <= p < q < layer.len() ==> layer[p] < layer[q]
    &&& forall|p: int| 0 <= p < layer.len() ==> #[trigger] layer[p] < upto && lv[layer[p] as int] == l
    &&& forall|i: int| 0 <= i < upto && lv[i] == l ==> #[trigger] layer.contains(i as usize)
}

/// Groups steps into layers by level.
fn group_layers(lv: &Vec<usize>) -> (layers: Vec<Vec<usize>>)
    requires
        forall|x: int| 0 <= x < lv.len() ==> #[trigger] lv@[x] < lv.len(),
    ensures
        layered(nat_levels(lv@), layer_views(layers@)),
{
    let n: usize = lv.len();
    let mut mx: usize = 0;
    let mut top: usize = 0;
    for i in 0..n
        invariant
            n == lv.len(),
            forall|x: int| 0 <= x < lv.len() ==> #[trigger] lv@[x] < lv.len(),
            forall|x: int| 0 <= x < i ==> #[trigger] lv@[x] <= mx,
            i > 0 ==> top < i && lv@[top as int] == mx,
            i == 0 ==> mx == 0,
            mx < n || n == 0,
    {
        if lv[i] > mx {
            mx = lv[i];
            top = i;
        } else if i == 0 {
            top = 0;
        }
    }
    let mut layers: Vec<Vec<usize>> = Vec::new();
    let count: usize = mx + 1;
    for l in 0..count
        invariant
            layers.len() == l,
            forall|x: int| 0 <= x < l ==> (#[trigger] layers@[x])@.len() == 0,
    {
        layers.push(Vec::new());
    }
    let ghost lvn = nat_levels(lv@);
    assert forall|l: int| #![trigger layers@[l]] 0 <= l < count implies partial_layer(lvn, layers@[l]@, l, 0) by {
        assert(layers@[l]@.len() == 0);
    }
    for i in 0..n
        invariant
            n == lv.len(),
            lvn == nat_levels(lv@),
            layers.len() == count,
            count == mx + 1,
            forall|x: int| 0 <= x < n ==> #[trigger] lv@[x] <= mx,
            forall|l: int| #![trigger layers@[l]] 0 <= l < count ==> partial_layer(lvn, layers@[l]@, l, i as int),
    {
        let l = lv[i];
        let mut cur = layers[l].clone();
        let ghost before = cur@;
        cur.push(i);
        let ghost old_layers = layers@;
        layers.set(l, cur);
        assert forall|ll: int| #![trigger layers@[ll]] 0 <= ll < count implies partial_layer(lvn, layers@[ll]@, ll, i + 1) by {
            assert(partial_layer(lvn, old_layers[ll]@, ll, i as int));
            if ll == l as int {
                assert(layers@[ll]@ == before.push(i));
                assert forall|j: int| 0 <= j < i + 1 && lvn[j] == ll implies #[trigger] layers@[ll]@.contains(j as usize) by {
                    if j < i {
                        assert(before.contains(j as usize));
                        let p: int = choose|p: int| 0 <= p < before.len() && before[p] == j as usize;
                        assert(layers@[ll]@[p] == j as usize);
                    } else {
                        assert(layers@[ll]@[before.len() as int] == i);
                    }
                }
            } else {
                assert(layers@[ll] == old_layers[ll]);
                assert forall|j: int| 0 <= j < i + 1 && lvn[j] == ll implies #[trigger] layers@[ll]@.contains(j as usize) by {
                    assert(j < i);
                }
            }
        }
    }
    proof {
        let views = layer_views(layers@);
        assert forall|l: int| 0 <= l < views.len() implies #[trigger] layer_ok(lvn, views[l], l) by {
            assert(partial_layer(lvn, layers@[l]@, l, n as int));
        }
        if n > 0 {
            assert(lvn[top as int] == views.len() - 1);
        }
    }
    layers
}

/// The steps grouped into layers: a step's layer is the length of the longest
/// dependency chain that ends in it, so steps in one layer never depend on each
/// other and every step comes after the steps it depends on. Refused when ids are
/// empty or repeated, when a dependency names no step, or when dependencies form
/// a cycle (checked in that order, the first offending step reported).
pub fn build_layers(def: &PipelineDef) -> (r: Result<Vec<Vec<usize>>, DagError>)
    ensures
        r is Ok <==> ids_valid(def.steps@) && deps_resolve(def.steps@) && acyclic(def.steps@),
        match r {
            Ok(layers) => exists|lv: Seq<nat>| is_depth(def.steps@, lv) && layered(lv, layer_views(layers@)),
            Err(DagError::EmptyStepId) => exists|i: int|
                first_bad_id(def.steps@, i) && def.steps@[i].id@.len() == 0,
            Err(DagError::DuplicateStepId(id)) => exists|i: int|
                first_bad_id(def.steps@, i) && def.steps@[i].id@.len() > 0 && id@ == def.steps@[i].id@,
            Err(DagError::MissingDependency { step, dep }) => ids_valid(def.steps@) && exists|i: int, k: int|
                first_missing_dep(def.steps@, i, k) && step@ == def.steps@[i].id@ && dep@
                    == def.steps@[i].depends_on@[k]@,
            Err(DagError::Cycle) => ids_valid(def.steps@) && deps_resolve(def.steps@) && !acyclic(def.steps@),
        },
{
    let steps = &def.steps;
    match check_ids(steps) {
        Ok(_) => {},
        Err(e) => return Err(e),
    }
    let edges = match collect_edges(steps) {
        Ok(e) => e,
        Err(e) => return Err(e),
    };
    match toposort_edges(steps.len(), &edges) {
        Some(order) => {
            assert(is_topo_order(steps@, order@)) by {
                assert forall|p: int, q: int|
                    0 <= p < steps.len() && 0 <= q < steps.len() && #[trigger] depends(steps@, order@[p] as int, order@[q] as int)
                        implies p < q by {
                    let j: int = choose|j: int| 0 <= j < edges.len() && #[trigger] edges@[j].0 == order@[p] as int
                        && edges@[j].1 == order@[q] as int;
                    assert(edges@[j] == (order@[p], order@[q]));
                }
            }
            let lv = compute_levels(steps, &order);
            let layers = group_layers(&lv);
            Ok(layers)
        },
        None => {
            assert(!acyclic(steps@)) by {
                if acyclic(steps@) {
                    let o = choose|o: Seq<usize>| is_topo_order(steps@, o);
                    assert(topo_for_edges(steps.len() as nat, edges@, o)) by {
                        assert forall|j: int, p: int, q: int|
                            0 <= j < edges.len() && 0 <= p < steps.len() && 0 <= q < steps.len()
                                && #[trigger] edges@[j] == (#[trigger] o[p], #[trigger] o[q]) implies p < q by {
                            assert(depends(steps@, edges@[j].0 as int, edges@[j].1 as int));
                        }
                    }
                }
            }
            Err(DagError::Cycle)
        },
    }
}

/// Validates a pipeline definition: it must layer (see [`build_layers`]) into a
/// non-empty list of layers.
pub fn validate_pipeline(name: &str, def: &PipelineDef) -> (r: Result<(), PipelineError>)
    ensures
        r is Ok <==> ids_valid(def.steps@) && deps_resolve(def.steps@) && acyclic(def.steps@),
        match r {
            Ok(_) => true,
            Err(PipelineError::Invalid { pipeline, cause }) => pipeline@ == name@,
            Err(PipelineError::Empty { pipeline }) => false,
        },
{
    match build_layers(def) {
        Ok(layers) => {
            if layers.len() == 0 {
                return Err(PipelineError::Empty { pipeline: name.to_owned() });
            }
            Ok(())
        },
        Err(cause) => Err(PipelineError::Invalid { pipeline: name.to_owned(), cause }),
    }
}

} // verus!
