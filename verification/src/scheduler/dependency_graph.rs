use vstd::prelude::*;
use crate::text::{views, contains_string, push_unique};

verus! {

broadcast use vstd::seq_lib::group_seq_properties;

/// Abstract edges: `(dependent, dependency)`, the dependent waits for the dependency.
pub type EdgesView = Seq<(Seq<char>, Seq<char>)>;

/// A dependency graph between capabilities: each edge `(a, b)` says that `a`
/// may only run once `b` has run.
#[derive(Debug)]
pub struct DependencyGraph {
    pub edges: Vec<(String, String)>,
}

impl View for DependencyGraph {
    type V = EdgesView;

    open spec fn view(&self) -> EdgesView {
        self.edges@.map_values(|e: (String, String)| (e.0@, e.1@))
    }
}

/// `a` depends on `b` in `g`.
pub open spec fn depends_on(g: EdgesView, a: Seq<char>, b: Seq<char>) -> bool {
    g.contains((a, b))
}

/// Every dependency of `a` is among `done`.
pub open spec fn ready_wrt(g: EdgesView, a: Seq<char>, done: Seq<Seq<char>>) -> bool {
    forall|b: Seq<char>| #[trigger] depends_on(g, a, b) ==> done.contains(b)
}

/// The graph has a dependency cycle: a nonempty group of capabilities in which
/// every member waits on another member of the group, so none can ever start.
pub open spec fn has_cycle(g: EdgesView) -> bool {
    exists|s: Seq<Seq<char>>| #[trigger] self_blocking(g, s)
}

/// `x` depends on some member of `s`.
pub open spec fn has_dependency_in(g: EdgesView, x: Seq<char>, s: Seq<Seq<char>>) -> bool {
    exists|y: Seq<char>| s.contains(y) && #[trigger] depends_on(g, x, y)
}

/// Every member of the nonempty group `s` depends on some member of `s`.
pub open spec fn self_blocking(g: EdgesView, s: Seq<Seq<char>>) -> bool {
    &&& s.len() > 0
    &&& forall|x: Seq<char>| #[trigger] s.contains(x) ==> has_dependency_in(g, x, s)
}

/// The capabilities run before level `k` of the layering `bs`.
pub open spec fn done_before(bs: Seq<Seq<Seq<char>>>, k: int) -> Seq<Seq<char>> {
    bs.take(k).flatten()
}

/// `bs` is the layering of `nodes` by dependency depth: layer `k` holds
/// exactly the capabilities whose dependencies all lie in earlier layers
/// and which were not already ready before layer `k - 1`; the nodes left
/// out are exactly those that can never become ready.
pub open spec fn leveled(g: EdgesView, nodes: Seq<Seq<char>>, bs: Seq<Seq<Seq<char>>>) -> bool {
    &&& forall|k: int| 0 <= k < bs.len() ==> #[trigger] bs[k].len() > 0
    &&& bs.flatten().no_duplicates()
    &&& forall|x: Seq<char>| #[trigger] bs.flatten().contains(x) ==> nodes.contains(x)
    &&& forall|k: int, j: int| 0 <= k < bs.len() && 0 <= j < bs[k].len() ==> ready_wrt(g, #[trigger] bs[k][j], done_before(bs, k))
    &&& forall|k: int, j: int| 0 < k < bs.len() && 0 <= j < bs[k].len() ==> !ready_wrt(g, #[trigger] bs[k][j], done_before(bs, k - 1))
    &&& forall|x: Seq<char>| #[trigger] nodes.contains(x) && !bs.flatten().contains(x) ==> !ready_wrt(g, x, bs.flatten())
}

/// The views of a sequence of layers.
pub open spec fn layer_views(bs: Seq<Vec<String>>) -> Seq<Seq<Seq<char>>> {
    bs.map_values(|b: Vec<String>| views(b@))
}

/// The edge `e` starts or ends at `x`.
pub open spec fn touches(e: (Seq<char>, Seq<char>), x: Seq<char>) -> bool {
    e.0 == x || e.1 == x
}

/// `x` is an endpoint of one of the first `n` edges of `g`.
pub open spec fn endpoint_within(g: EdgesView, x: Seq<char>, n: int) -> bool {
    exists|i: int| 0 <= i < n && #[trigger] touches(g[i], x)
}

/// `x` is an endpoint of an edge of `g`.
pub open spec fn is_endpoint(g: EdgesView, x: Seq<char>) -> bool {
    endpoint_within(g, x, g.len() as int)
}

impl DependencyGraph {
    /// An empty graph.
    pub fn new() -> (r: DependencyGraph)
        ensures
            r@ == Seq::<(Seq<char>, Seq<char>)>::empty(),
    {
        let r = DependencyGraph { edges: Vec::new() };
        assert(r@ =~= Seq::<(Seq<char>, Seq<char>)>::empty());
        r
    }

    /// Records that `dependent` waits for `dependency` (no duplicate edges are kept).
    pub fn add_edge(&mut self, dependent: &String, dependency: &String)
        ensures
            forall|a: Seq<char>, b: Seq<char>| depends_on(final(self)@, a, b) <==> (depends_on(old(self)@, a, b) || (a == dependent@ && b == dependency@)),
            old(self)@.no_duplicates() ==> final(self)@.no_duplicates(),
    {
        let ghost before = self@;
        if !self.has_edge(dependent, dependency) {
            self.edges.push((dependent.clone(), dependency.clone()));
            proof {
                assert(self@ =~= before.push((dependent@, dependency@)));
            }
        }
    }

    /// Whether `a` depends on `b`.
    pub fn has_edge(&self, a: &String, b: &String) -> (r: bool)
        ensures
            r == depends_on(self@, a@, b@),
    {
        let mut i: usize = 0;
        while i < self.edges.len()
            invariant
                i <= self.edges.len(),
                forall|j: int| 0 <= j < i ==> self@[j] != (a@, b@),
            decreases self.edges.len() - i,
        {
            if self.edges[i].0 == *a && self.edges[i].1 == *b {
                assert(self@[i as int] == (a@, b@));
                return true;
            }
            i += 1;
        }
        false
    }

    /// The dependencies recorded for `a`, each once, in edge order.
    pub fn dependencies_of(&self, a: &String) -> (r: Vec<String>)
        ensures
            forall|b: Seq<char>| views(r@).contains(b) <==> depends_on(self@, a@, b),
            views(r@).no_duplicates(),
    {
        let mut r: Vec<String> = Vec::new();
        let mut i: usize = 0;
        while i < self.edges.len()
            invariant
                i <= self.edges.len(),
                views(r@).no_duplicates(),
                forall|b: Seq<char>| views(r@).contains(b) <==> exists|j: int| 0 <= j < i && #[trigger] self@[j] == (a@, b),
            decreases self.edges.len() - i,
        {
            if self.edges[i].0 == *a {
                let ghost before = r@;
                push_unique(&mut r, &self.edges[i].1);
                proof {
                    assert forall|b: Seq<char>| views(r@).contains(b) <==> exists|j: int| 0 <= j < i + 1 && #[trigger] self@[j] == (a@, b) by {
                        if b == self@[i as int].1 {
                            assert(self@[i as int] == (a@, b));
                        }
                    }
                }
            } else {
                proof {
                    assert forall|b: Seq<char>| views(r@).contains(b) <==> exists|j: int| 0 <= j < i + 1 && #[trigger] self@[j] == (a@, b) by {
                        if exists|j: int| 0 <= j < i + 1 && #[trigger] self@[j] == (a@, b) {
                            let j = choose|j: int| 0 <= j < i + 1 && #[trigger] self@[j] == (a@, b);
                            assert(j != i);
                        }
                    }
                }
            }
            i += 1;
        }
        proof {
            assert forall|b: Seq<char>| views(r@).contains(b) <==> depends_on(self@, a@, b) by {
                if depends_on(self@, a@, b) {
                    let j = choose|j: int| 0 <= j < self@.len() && self@[j] == (a@, b);
                }
            }
        }
        r
    }

    /// Whether every dependency of `a` is among `done`.
    pub fn is_ready(&self, a: &String, done: &Vec<String>) -> (r: bool)
        ensures
            r == ready_wrt(self@, a@, views(done@)),
    {
        let mut i: usize = 0;
        while i < self.edges.len()
            invariant
                i <= self.edges.len(),
                forall|j: int| 0 <= j < i && (#[trigger] self@[j]).0 == a@ ==> views(done@).contains(self@[j].1),
            decreases self.edges.len() - i,
        {
            if self.edges[i].0 == *a && !contains_string(done, &self.edges[i].1) {
                proof {
                    let b = self@[i as int].1;
                    assert(self@[i as int] == (a@, b));
                    assert(depends_on(self@, a@, b));
                }
                return false;
            }
            i += 1;
        }
        proof {
            assert forall|b: Seq<char>| #[trigger] depends_on(self@, a@, b) implies views(done@).contains(b) by {
                let j = choose|j: int| 0 <= j < self@.len() && self@[j] == (a@, b);
                assert(self@[j].0 == a@);
            }
        }
        true
    }

    /// All endpoints of the edges, each once, in edge order.
    pub fn endpoints(&self) -> (r: Vec<String>)
        ensures
            views(r@).no_duplicates(),
            forall|x: Seq<char>| views(r@).contains(x) <==> is_endpoint(self@, x),
    {
        let mut r: Vec<String> = Vec::new();
        let mut i: usize = 0;
        while i < self.edges.len()
            invariant
                i <= self.edges.len(),
                views(r@).no_duplicates(),
                forall|x: Seq<char>| views(r@).contains(x) <==> endpoint_within(self@, x, i as int),
            decreases self.edges.len() - i,
        {
            let ghost r0 = r@;
            push_unique(&mut r, &self.edges[i].0);
            push_unique(&mut r, &self.edges[i].1);
            proof {
                let e = self@[i as int];
                assert forall|x: Seq<char>| views(r@).contains(x) <==> endpoint_within(self@, x, i + 1) by {
                    if views(r@).contains(x) {
                        if views(r0).contains(x) {
                            let j = choose|j: int| 0 <= j < i && #[trigger] touches(self@[j], x);
                            assert(touches(self@[j], x));
                        } else {
                            assert(touches(self@[i as int], x));
                        }
                    }
                    if endpoint_within(self@, x, i + 1) {
                        let j = choose|j: int| 0 <= j < i + 1 && #[trigger] touches(self@[j], x);
                        if j < i {
                            assert(endpoint_within(self@, x, i as int));
                        }
                    }
                }
            }
            i += 1;
        }
        r
    }

    /// Splits `candidates` into those ready with respect to `done` and the rest,
    /// keeping their order.
    fn split_ready(&self, candidates: &Vec<String>, done: &Vec<String>) -> (r: (Vec<String>, Vec<String>))
        requires
            views(candidates@).no_duplicates(),
        ensures
            views(r.0@).no_duplicates(),
            views(r.1@).no_duplicates(),
            r.0.len() + r.1.len() == candidates.len(),
            forall|x: Seq<char>| #[trigger] views(r.0@).contains(x) <==> (views(candidates@).contains(x) && ready_wrt(self@, x, views(done@))),
            forall|x: Seq<char>| #[trigger] views(r.1@).contains(x) <==> (views(candidates@).contains(x) && !ready_wrt(self@, x, views(done@))),
            forall|x: Seq<char>| #[trigger] views(candidates@).contains(x) ==> (views(r.0@).contains(x) || views(r.1@).contains(x)),
    {
        let mut ready: Vec<String> = Vec::new();
        let mut rest: Vec<String> = Vec::new();
        let mut i: usize = 0;
        while i < candidates.len()
            invariant
                i <= candidates.len(),
                views(candidates@).no_duplicates(),
                views(ready@).no_duplicates(),
                views(rest@).no_duplicates(),
                ready.len() + rest.len() == i,
                forall|x: Seq<char>| #[trigger] views(ready@).contains(x) <==> (views(candidates@).take(i as int).contains(x) && ready_wrt(self@, x, views(done@))),
                forall|x: Seq<char>| #[trigger] views(rest@).contains(x) <==> (views(candidates@).take(i as int).contains(x) && !ready_wrt(self@, x, views(done@))),
            decreases candidates.len() - i,
        {
            let ghost cv = views(candidates@);
            let ghost c = cv[i as int];
            proof {
                assert(cv.take(i + 1) =~= cv.take(i as int).push(c));
                assert(!cv.take(i as int).contains(c)) by {
                    if cv.take(i as int).contains(c) {
                        let k = choose|k: int| 0 <= k < i && cv.take(i as int)[k] == c;
                        assert(cv[k] == cv[i as int]);
                    }
                }
            }
            if self.is_ready(&candidates[i], done) {
                let ghost before = ready@;
                ready.push(candidates[i].clone());
                proof {
                    assert(views(ready@) =~= views(before).push(c));
                    assert(!views(before).contains(c));
                }
            } else {
                let ghost before = rest@;
                rest.push(candidates[i].clone());
                proof {
                    assert(views(rest@) =~= views(before).push(c));
                    assert(!views(before).contains(c));
                }
            }
            i += 1;
        }
        proof {
            assert(views(candidates@).take(candidates.len() as int) =~= views(candidates@));
        }
        (ready, rest)
    }

    /// Layers `nodes` by dependency depth: each layer holds every remaining node
    /// whose dependencies all lie in earlier layers; stops when no node is ready.
    pub fn layers(&self, nodes: &Vec<String>) -> (bs: Vec<Vec<String>>)
        requires
            views(nodes@).no_duplicates(),
        ensures
            leveled(self@, views(nodes@), layer_views(bs@)),
    {
        let mut bs: Vec<Vec<String>> = Vec::new();
        let mut done: Vec<String> = Vec::new();
        let mut remaining: Vec<String> = Vec::new();
        let mut i: usize = 0;
        while i < nodes.len()
            invariant
                i <= nodes.len(),
                views(remaining@) == views(nodes@).take(i as int),
            decreases nodes.len() - i,
        {
            remaining.push(nodes[i].clone());
            proof {
                assert(views(nodes@).take(i + 1) =~= views(nodes@).take(i as int).push(nodes@[i as int]@));
            }
            i += 1;
        }
        proof {
            assert(views(nodes@).take(nodes.len() as int) =~= views(nodes@));
            assert(views(done@) =~= layer_views(bs@).flatten());
        }
        loop
            invariant
                views(nodes@).no_duplicates(),
                views(done@) == layer_views(bs@).flatten(),
                views(done@).no_duplicates(),
                views(remaining@).no_duplicates(),
                forall|x: Seq<char>| views(remaining@).contains(x) <==> (views(nodes@).contains(x) && !views(done@).contains(x)),
                forall|x: Seq<char>| #[trigger] views(done@).contains(x) ==> views(nodes@).contains(x),
                forall|k: int| 0 <= k < layer_views(bs@).len() ==> #[trigger] layer_views(bs@)[k].len() > 0,
                forall|k: int, j: int| 0 <= k < layer_views(bs@).len() && 0 <= j < layer_views(bs@)[k].len() ==> ready_wrt(self@, #[trigger] layer_views(bs@)[k][j], done_before(layer_views(bs@), k)),
                forall|k: int, j: int| 0 < k < layer_views(bs@).len() && 0 <= j < layer_views(bs@)[k].len() ==> !ready_wrt(self@, #[trigger] layer_views(bs@)[k][j], done_before(layer_views(bs@), k - 1)),
                bs.len() > 0 ==> forall|x: Seq<char>| #[trigger] views(remaining@).contains(x) ==> !ready_wrt(self@, x, done_before(layer_views(bs@), bs.len() - 1)),
            decreases remaining.len(),
        {
            let (batch, rest) = self.split_ready(&remaining, &done);
            let ghost lv = layer_views(bs@);
            let ghost d0 = views(done@);
            let ghost bv = views(batch@);
            proof {
                assert forall|x: Seq<char>| #[trigger] bv.contains(x) implies ready_wrt(self@, x, d0) && views(remaining@).contains(x) by {
                    assert(views(batch@).contains(x));
                }
            }
            if batch.len() == 0 {
                proof {
                    assert forall|x: Seq<char>| #[trigger] views(nodes@).contains(x) && !lv.flatten().contains(x) implies !ready_wrt(self@, x, lv.flatten()) by {
                        assert(views(remaining@).contains(x));
                        if ready_wrt(self@, x, lv.flatten()) {
                            assert(views(batch@).contains(x));
                            assert(views(batch@)[0] == views(batch@)[0]);
                        }
                    }
                }
                return bs;
            }
            let mut j: usize = 0;
            while j < batch.len()
                invariant
                    j <= batch.len(),
                    views(done@) == d0 + views(batch@).take(j as int),
                    bv == views(batch@),
                decreases batch.len() - j,
            {
                let ghost dprev = views(done@);
                done.push(batch[j].clone());
                proof {
                    assert(views(done@) =~= dprev.push(batch@[j as int]@));
                    assert(views(batch@).take(j + 1) =~= views(batch@).take(j as int).push(batch@[j as int]@));
                    assert(views(done@) =~= d0 + views(batch@).take(j + 1));
                }
                j += 1;
            }
            proof {
                assert(bv.take(batch.len() as int) =~= bv);
                assert(views(done@) == d0 + bv);
                assert forall|i: int, j: int| 0 <= i < d0.len() && 0 <= j < bv.len() implies d0[i] != bv[j] by {
                    assert(bv.contains(bv[j]));
                    assert(views(remaining@).contains(bv[j]));
                    assert(d0.contains(d0[i]));
                }
                vstd::seq_lib::lemma_no_dup_in_concat(d0, bv);
            }
            let ghost old_len = bs.len();
            bs.push(batch);
            proof {
                let lv2 = layer_views(bs@);
                assert(lv2 =~= lv.push(bv));
                lv.lemma_flatten_push(bv);
                assert(lv2.flatten() =~= lv.flatten() + bv);
                assert(lv2.take(old_len as int) =~= lv);
                assert forall|k: int| 0 <= k <= old_len implies #[trigger] done_before(lv2, k) == done_before(lv, k) by {
                    assert(lv2.take(k) =~= lv.take(k));
                }
                assert(done_before(lv2, old_len as int) == lv.flatten()) by {
                    assert(lv.take(old_len as int) =~= lv);
                }
                assert forall|x: Seq<char>| #[trigger] views(done@).contains(x) implies views(nodes@).contains(x) by {
                    if !d0.contains(x) {
                        assert(bv.contains(x));
                        assert(views(remaining@).contains(x));
                    }
                }
                assert forall|k: int, j: int| 0 <= k < lv2.len() && 0 <= j < lv2[k].len() implies ready_wrt(self@, #[trigger] lv2[k][j], done_before(lv2, k)) by {
                    if k < old_len {
                        assert(lv2[k] == lv[k]);
                        assert(done_before(lv2, k) == done_before(lv, k));
                    } else {
                        assert(lv2[k] == bv);
                        assert(bv.contains(bv[j]));
                        assert(ready_wrt(self@, bv[j], d0));
                        assert(d0 == lv.flatten());
                        assert(done_before(lv2, k) == lv.flatten());
                    }
                }
                assert forall|k: int, j: int| 0 < k < lv2.len() && 0 <= j < lv2[k].len() implies !ready_wrt(self@, #[trigger] lv2[k][j], done_before(lv2, k - 1)) by {
                    if k < old_len {
                        assert(lv2[k] == lv[k]);
                        assert(done_before(lv2, k - 1) == done_before(lv, k - 1));
                    } else {
                        assert(lv2[k] == bv);
                        assert(bv.contains(bv[j]));
                        assert(views(remaining@).contains(bv[j]));
                        assert(done_before(lv2, k - 1) == done_before(lv, k - 1));
                    }
                }
                assert forall|k: int| 0 <= k < lv2.len() implies #[trigger] lv2[k].len() > 0 by {
                    if k < old_len {
                        assert(lv2[k] == lv[k]);
                    }
                }
                assert forall|x: Seq<char>| views(rest@).contains(x) <==> (views(nodes@).contains(x) && !views(done@).contains(x)) by {
                    if views(nodes@).contains(x) && !views(done@).contains(x) {
                        assert(!d0.contains(x));
                        assert(views(remaining@).contains(x));
                        assert(!bv.contains(x));
                    }
                }
                assert forall|x: Seq<char>| #[trigger] views(rest@).contains(x) implies !ready_wrt(self@, x, done_before(lv2, lv2.len() - 1)) by {
                    assert(done_before(lv2, lv2.len() - 1) == lv.flatten());
                }
            }
            remaining = rest;
        }
    }

    /// Whether the graph holds a dependency cycle.
    pub fn has_cycles(&self) -> (r: bool)
        ensures
            r == has_cycle(self@),
    {
        let nodes = self.endpoints();
        let bs = self.layers(&nodes);
        let done = concat_layers(&bs);
        let ghost lv = layer_views(bs@);
        let mut i: usize = 0;
        while i < nodes.len()
            invariant
                i <= nodes.len(),
                forall|j: int| 0 <= j < i ==> views(done@).contains(#[trigger] views(nodes@)[j]),
                leveled(self@, views(nodes@), lv),
                views(done@) == lv.flatten(),
                forall|x: Seq<char>| views(nodes@).contains(x) <==> is_endpoint(self@, x),
            decreases nodes.len() - i,
        {
            if !contains_string(&done, &nodes[i]) {
                proof {
                    lemma_blocked_rest_is_cycle(self@, views(nodes@), lv, views(nodes@)[i as int]);
                }
                return true;
            }
            i += 1;
        }
        proof {
            if has_cycle(self@) {
                let s = choose|s: Seq<Seq<char>>| #[trigger] self_blocking(self@, s);
                assert forall|x: Seq<char>| #[trigger] views(nodes@).contains(x) implies lv.flatten().contains(x) by {
                    let j = choose|j: int| 0 <= j < views(nodes@).len() && views(nodes@)[j] == x;
                }
                lemma_layered_never_blocked(self@, views(nodes@), lv, s);
            }
        }
        false
    }
}

/// `c` lists a dependency cycle: each member depends on the next and the last on the first.
pub open spec fn is_cycle(g: EdgesView, c: Seq<Seq<char>>) -> bool {
    &&& c.len() > 0
    &&& forall|i: int| 0 <= i < c.len() - 1 ==> #[trigger] depends_on(g, c[i], c[i + 1])
    &&& depends_on(g, c.last(), c[0])
}

/// A listed cycle is a self-blocking group.
pub proof fn lemma_cycle_blocks(g: EdgesView, c: Seq<Seq<char>>)
    requires
        is_cycle(g, c),
    ensures
        has_cycle(g),
{
    assert forall|x: Seq<char>| #[trigger] c.contains(x) implies has_dependency_in(g, x, c) by {
        let i = choose|i: int| 0 <= i < c.len() && c[i] == x;
        if i < c.len() - 1 {
            assert(depends_on(g, c[i], c[i + 1]));
            assert(c.contains(c[i + 1]));
        } else {
            assert(c.contains(c[0]));
        }
    }
    assert(self_blocking(g, c));
}

impl DependencyGraph {
    /// Some dependency cycle of the graph, if it has one.
    pub fn find_cycle(&self) -> (r: Option<Vec<String>>)
        ensures
            r is Some <==> has_cycle(self@),
            r matches Some(c) ==> is_cycle(self@, views(c@)),
    {
        let cyclic = self.has_cycles();
        if !cyclic {
            return None;
        }
        let nodes = self.endpoints();
        let bs = self.layers(&nodes);
        let done = concat_layers(&bs);
        let ghost lv = layer_views(bs@);
        // find a node left out of the layering
        let mut start: usize = 0;
        while start < nodes.len()
            invariant
                start <= nodes.len(),
                has_cycle(self@),
                leveled(self@, views(nodes@), lv),
                views(done@) == lv.flatten(),
                forall|x: Seq<char>| views(nodes@).contains(x) <==> is_endpoint(self@, x),
                views(nodes@).no_duplicates(),
                forall|j: int| 0 <= j < start ==> views(done@).contains(#[trigger] views(nodes@)[j]),
            ensures
                start <= nodes.len(),
                start < nodes.len() ==> !views(done@).contains(views(nodes@)[start as int]),
                forall|j: int| 0 <= j < start ==> views(done@).contains(#[trigger] views(nodes@)[j]),
            decreases nodes.len() - start,
        {
            if !contains_string(&done, &nodes[start]) {
                break;
            }
            start += 1;
        }
        if start >= nodes.len() {
            proof {
                let s = choose|s: Seq<Seq<char>>| #[trigger] self_blocking(self@, s);
                assert forall|x: Seq<char>| #[trigger] views(nodes@).contains(x) implies lv.flatten().contains(x) by {
                    let j = choose|j: int| 0 <= j < views(nodes@).len() && views(nodes@)[j] == x;
                }
                lemma_layered_never_blocked(self@, views(nodes@), lv, s);
            }
            return None;
        }
        let mut path: Vec<String> = Vec::new();
        path.push(nodes[start].clone());
        proof {
            assert(views(nodes@).contains(views(nodes@)[start as int]));
            assert(views(path@) =~= seq![views(nodes@)[start as int]]);
        }
        loop
            invariant
                leveled(self@, views(nodes@), lv),
                views(done@) == lv.flatten(),
                forall|x: Seq<char>| views(nodes@).contains(x) <==> is_endpoint(self@, x),
                views(nodes@).no_duplicates(),
                path.len() > 0,
                views(path@).no_duplicates(),
                forall|x: Seq<char>| #[trigger] views(path@).contains(x) ==> views(nodes@).contains(x) && !views(done@).contains(x),
                forall|i: int| 0 <= i < path.len() - 1 ==> #[trigger] depends_on(self@, views(path@)[i], views(path@)[i + 1]),
            decreases views(nodes@).len() - path.len(),
        {
            let ghost pv = views(path@);
            let cur_idx = path.len() - 1;
            proof {
                assert(pv.contains(pv[cur_idx as int]));
                assert(!ready_wrt(self@, pv[cur_idx as int], lv.flatten()));
            }
            // a dependency of the current node that never ran
            let mut e: usize = 0;
            let mut found: Option<usize> = None;
            while e < self.edges.len()
                invariant
                    e <= self.edges.len(),
                    cur_idx < path.len(),
                    pv == views(path@),
                    found matches Some(k) ==> k < self.edges.len() && self@[k as int].0 == pv[cur_idx as int] && !views(done@).contains(self@[k as int].1),
                    found is None ==> forall|j: int| 0 <= j < e && (#[trigger] self@[j]).0 == pv[cur_idx as int] ==> views(done@).contains(self@[j].1),
                decreases self.edges.len() - e,
            {
                if found.is_none() && self.edges[e].0 == path[cur_idx] && !contains_string(&done, &self.edges[e].1) {
                    found = Some(e);
                }
                e += 1;
            }
            let k = match found {
                Some(k) => k,
                None => {
                    proof {
                        assert forall|b: Seq<char>| #[trigger] depends_on(self@, pv[cur_idx as int], b) implies lv.flatten().contains(b) by {
                            let j = choose|j: int| 0 <= j < self@.len() && self@[j] == (pv[cur_idx as int], b);
                            assert(self@[j].0 == pv[cur_idx as int]);
                        }
                    }
                    return None;
                }
            };
            let ghost d = self@[k as int].1;
            proof {
                assert(self@[k as int] == (pv[cur_idx as int], d));
                assert(depends_on(self@, pv[cur_idx as int], d));
                assert(touches(self@[k as int], d));
                assert(is_endpoint(self@, d));
            }
            // is the dependency already on the path?
            let mut p: usize = 0;
            while p < path.len()
                invariant
                    p <= path.len(),
                    pv == views(path@),
                    d == self@[k as int].1,
                    k < self.edges.len(),
                    forall|j: int| 0 <= j < p ==> #[trigger] pv[j] != d,
                    cur_idx == path.len() - 1,
                    depends_on(self@, pv[cur_idx as int], d),
                    forall|i: int| 0 <= i < path.len() - 1 ==> #[trigger] depends_on(self@, pv[i], pv[i + 1]),
                decreases path.len() - p,
            {
                if path[p] == self.edges[k].1 {
                    let cycle = suffix_from(&path, p);
                    proof {
                        let c = views(cycle@);
                        assert(c =~= pv.subrange(p as int, pv.len() as int));
                        assert forall|i: int| 0 <= i < c.len() - 1 implies #[trigger] depends_on(self@, c[i], c[i + 1]) by {
                            assert(c[i] == pv[p + i]);
                            assert(c[i + 1] == pv[p + i + 1]);
                            assert(depends_on(self@, pv[p + i], pv[p + i + 1]));
                        }
                        assert(c.last() == pv[cur_idx as int]);
                        assert(c[0] == d);
                        lemma_cycle_blocks(self@, c);
                    }
                    return Some(cycle);
                }
                p += 1;
            }
            let ghost old_len = path.len();
            path.push(self.edges[k].1.clone());
            proof {
                let pv2 = views(path@);
                assert(pv2 =~= pv.push(d));
                assert(!pv.contains(d));
                assert forall|i: int| 0 <= i < pv2.len() - 1 implies #[trigger] depends_on(self@, pv2[i], pv2[i + 1]) by {
                    if i < pv.len() - 1 {
                        assert(pv2[i] == pv[i] && pv2[i + 1] == pv[i + 1]);
                    }
                }
                assert forall|x: Seq<char>| #[trigger] pv2.contains(x) implies views(nodes@).contains(x) && !views(done@).contains(x) by {
                    if x != d {
                        let j = choose|j: int| 0 <= j < pv2.len() && pv2[j] == x;
                        assert(pv.contains(x));
                    }
                }
                lemma_distinct_subset_len(pv2, views(nodes@));
            }
        }
    }
}

/// The strings of `v` from index `p` on.
fn suffix_from(v: &Vec<String>, p: usize) -> (r: Vec<String>)
    requires
        p <= v.len(),
    ensures
        views(r@) == views(v@).subrange(p as int, v.len() as int),
{
    let mut r: Vec<String> = Vec::new();
    let mut q: usize = p;
    while q < v.len()
        invariant
            p <= q <= v.len(),
            views(r@) == views(v@).subrange(p as int, q as int),
        decreases v.len() - q,
    {
        let ghost prev = views(r@);
        r.push(v[q].clone());
        proof {
            assert(views(r@) =~= prev.push(v@[q as int]@));
            assert(views(v@).subrange(p as int, q + 1) =~= views(v@).subrange(p as int, q as int).push(v@[q as int]@));
        }
        q += 1;
    }
    r
}

/// A duplicate-free sequence whose members all lie in a duplicate-free `big`
/// is no longer than `big`.
pub proof fn lemma_distinct_subset_len(small: Seq<Seq<char>>, big: Seq<Seq<char>>)
    requires
        small.no_duplicates(),
        big.no_duplicates(),
        forall|x: Seq<char>| #[trigger] small.contains(x) ==> big.contains(x),
    ensures
        small.len() <= big.len(),
{
    small.unique_seq_to_set();
    big.unique_seq_to_set();
    assert(small.to_set().subset_of(big.to_set()));
    vstd::set_lib::lemma_len_subset(small.to_set(), big.to_set());
}

/// Concatenates the layers in order.
pub fn concat_layers(bs: &Vec<Vec<String>>) -> (r: Vec<String>)
    ensures
        views(r@) == layer_views(bs@).flatten(),
{
    let mut r: Vec<String> = Vec::new();
    let mut k: usize = 0;
    while k < bs.len()
        invariant
            k <= bs.len(),
            views(r@) == layer_views(bs@).take(k as int).flatten(),
        decreases bs.len() - k,
    {
        let ghost r0 = views(r@);
        let mut j: usize = 0;
        while j < bs[k].len()
            invariant
                k < bs.len(),
                j <= bs[k as int].len(),
                views(r@) == r0 + views(bs[k as int]@).take(j as int),
            decreases bs[k as int].len() - j,
        {
            let ghost prev = views(r@);
            r.push(bs[k][j].clone());
            proof {
                assert(views(r@) =~= prev.push(bs[k as int]@[j as int]@));
                assert(views(bs[k as int]@).take(j + 1) =~= views(bs[k as int]@).take(j as int).push(bs[k as int]@[j as int]@));
            }
            j += 1;
        }
        proof {
            let lv = layer_views(bs@);
            assert(views(bs[k as int]@).take(bs[k as int].len() as int) =~= views(bs[k as int]@));
            assert(lv.take(k + 1) =~= lv.take(k as int).push(lv[k as int]));
            lv.take(k as int).lemma_flatten_push(lv[k as int]);
        }
        k += 1;
    }
    proof {
        assert(layer_views(bs@).take(bs.len() as int) =~= layer_views(bs@));
    }
    r
}

/// A node left out of a complete layering lies in a self-blocking group, so the
/// graph has a cycle, provided every endpoint of an edge is a node.
pub proof fn lemma_blocked_rest_is_cycle(g: EdgesView, nodes: Seq<Seq<char>>, bs: Seq<Seq<Seq<char>>>, x: Seq<char>)
    requires
        leveled(g, nodes, bs),
        forall|y: Seq<char>| nodes.contains(y) <==> is_endpoint(g, y),
        nodes.contains(x),
        !bs.flatten().contains(x),
    ensures
        has_cycle(g),
{
    let f = bs.flatten();
    let pred = |y: Seq<char>| !f.contains(y);
    let rest = nodes.filter(pred);
    assert forall|y: Seq<char>| #[trigger] rest.contains(y) <==> (nodes.contains(y) && !f.contains(y)) by {
        if nodes.contains(y) && !f.contains(y) {
            let j = choose|j: int| 0 <= j < nodes.len() && nodes[j] == y;
            nodes.lemma_filter_contains(pred, j);
        }
        if rest.contains(y) {
            nodes.lemma_filter_contains_rev(pred, y);
            let j = choose|j: int| 0 <= j < rest.len() && rest[j] == y;
            nodes.lemma_filter_pred(pred, j);
        }
    }
    assert forall|y: Seq<char>| #[trigger] rest.contains(y) implies has_dependency_in(g, y, rest) by {
        assert(!ready_wrt(g, y, f));
        let b = choose|b: Seq<char>| #[trigger] depends_on(g, y, b) && !f.contains(b);
        let j = choose|j: int| 0 <= j < g.len() && g[j] == (y, b);
        assert(touches(g[j], b));
        assert(is_endpoint(g, b));
        assert(rest.contains(b));
    }
    assert(rest.contains(x));
    assert(rest.len() > 0);
    assert(self_blocking(g, rest));
}

/// When every endpoint was placed in some layer, no group is self-blocking.
pub proof fn lemma_layered_never_blocked(g: EdgesView, nodes: Seq<Seq<char>>, bs: Seq<Seq<Seq<char>>>, s: Seq<Seq<char>>)
    requires
        leveled(g, nodes, bs),
        forall|y: Seq<char>| #[trigger] nodes.contains(y) ==> bs.flatten().contains(y),
        forall|y: Seq<char>| is_endpoint(g, y) ==> #[trigger] nodes.contains(y),
    ensures
        !self_blocking(g, s),
{
    if self_blocking(g, s) {
        lemma_blocked_group_outside_prefix(g, nodes, bs, s, bs.len() as int);
        assert(bs.take(bs.len() as int) =~= bs);
        assert(s.contains(s[0]));
        let y = choose|y: Seq<char>| s.contains(y) && #[trigger] depends_on(g, s[0], y);
        let j = choose|j: int| 0 <= j < g.len() && g[j] == (s[0], y);
        assert(touches(g[j], s[0]));
        assert(nodes.contains(s[0]));
    }
}

/// No member of a self-blocking group lies in the first `k` layers.
pub proof fn lemma_blocked_group_outside_prefix(g: EdgesView, nodes: Seq<Seq<char>>, bs: Seq<Seq<Seq<char>>>, s: Seq<Seq<char>>, k: int)
    requires
        leveled(g, nodes, bs),
        self_blocking(g, s),
        0 <= k <= bs.len(),
    ensures
        forall|y: Seq<char>| #[trigger] s.contains(y) ==> !done_before(bs, k).contains(y),
    decreases k,
{
    if k == 0 {
        assert(bs.take(0) =~= Seq::<Seq<Seq<char>>>::empty());
        assert(done_before(bs, 0) =~= Seq::<Seq<char>>::empty());
    } else {
        lemma_blocked_group_outside_prefix(g, nodes, bs, s, k - 1);
        let prev = done_before(bs, k - 1);
        assert(bs.take(k) =~= bs.take(k - 1).push(bs[k - 1]));
        bs.take(k - 1).lemma_flatten_push(bs[k - 1]);
        assert(done_before(bs, k) =~= prev + bs[k - 1]);
        assert forall|y: Seq<char>| #[trigger] s.contains(y) implies !done_before(bs, k).contains(y) by {
            if bs[k - 1].contains(y) {
                let layer = bs[k - 1];
                let j = choose|j: int| 0 <= j < layer.len() && #[trigger] layer[j] == y;
                assert(ready_wrt(g, bs[k - 1][j], done_before(bs, k - 1)));
                let z = choose|z: Seq<char>| s.contains(z) && #[trigger] depends_on(g, y, z);
                assert(prev.contains(z));
            }
        }
    }
}

} // verus!
