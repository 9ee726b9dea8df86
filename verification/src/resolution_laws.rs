//! What holds of every walk through the dependency graph.
use vstd::prelude::*;

use crate::abi;
use crate::config;
use crate::config::{CookConfig, DependencyVisibility};
use crate::findings;
use crate::findings::Findings;
use crate::ordered_map;
use crate::packages;
use crate::paths;
use crate::resolution;
use crate::resolution::{LinkView, NodeView, VisitState, WalkOptions, WalkView};
use crate::text;

verus! {

broadcast use vstd::string::group_string_axioms;

// ---------------------------------------------------------------------------
// The invariant
// ---------------------------------------------------------------------------

/// `item` stands in `order` before position `end`.
pub open spec fn stands_before(order: Seq<int>, end: int, item: int) -> bool {
    exists|q: int| 0 <= q < end && q < order.len() && order[q] == item
}

/// The package `i` has been left.
pub open spec fn finished(walk: WalkView, i: int) -> bool {
    stands_before(walk.post_order, walk.post_order.len() as int, i)
}

/// The package `i` has been entered and not left.
pub open spec fn unfinished(walk: WalkView, i: int) -> bool {
    exists|k: int|
        0 <= k < walk.stack.len() && walk.by_manifest.dom().contains(#[trigger] walk.stack[k])
            && walk.by_manifest[walk.stack[k]] == i
}

/// Manifests and packages are numbered consistently.
pub open spec fn numbers_sound(walk: WalkView) -> bool {
    &&& forall|m: Seq<char>|
        walk.states.dom().contains(m) <==> #[trigger] walk.by_manifest.dom().contains(m)
    &&& forall|m: Seq<char>| #[trigger]
        walk.by_manifest.dom().contains(m) ==> 0 <= walk.by_manifest[m] < walk.nodes.len()
    &&& forall|m: Seq<char>, n: Seq<char>| #[trigger]
        walk.by_manifest.dom().contains(m) && #[trigger] walk.by_manifest.dom().contains(n)
            && walk.by_manifest[m] == walk.by_manifest[n] ==> m == n
    &&& forall|r: Seq<char>| #[trigger]
        walk.by_external.dom().contains(r) ==> 0 <= walk.by_external[r] < walk.nodes.len()
            && finished(walk, walk.by_external[r])
}

/// The stack holds the packages that have been entered and not left, and the
/// order holds each of the others once.
pub open spec fn order_sound(walk: WalkView) -> bool {
    &&& forall|m: Seq<char>| #[trigger]
        walk.states.dom().contains(m) && walk.states[m] == VisitState::Visited ==> finished(
            walk,
            walk.by_manifest[m],
        )
    &&& forall|m: Seq<char>| #[trigger]
        walk.states.dom().contains(m) && walk.states[m] == VisitState::Visiting ==> !finished(
            walk,
            walk.by_manifest[m],
        ) && walk.stack.contains(m)
    &&& forall|k: int|
        0 <= k < walk.stack.len() ==> walk.states.dom().contains(#[trigger] walk.stack[k])
            && walk.states[walk.stack[k]] == VisitState::Visiting
    &&& walk.stack.no_duplicates()
    &&& forall|p: int|
        0 <= p < walk.post_order.len() ==> 0 <= #[trigger] walk.post_order[p] < walk.nodes.len()
    &&& walk.post_order.no_duplicates()
    &&& forall|i: int| 0 <= i < walk.nodes.len() ==> finished(walk, i) || #[trigger] unfinished(walk, i)
}

/// The uses of the package `i` are in order: every used package has been left
/// and fits, and none is used twice.
pub open spec fn links_sound(walk: WalkView, i: int) -> bool {
    let links = walk.nodes[i].dependencies;
    &&& forall|e: int|
        0 <= e < links.len() ==> 0 <= (#[trigger] links[e]).target < walk.nodes.len() && finished(
            walk,
            links[e].target,
        ) && abi::abi_fits(walk.nodes[i].abi, walk.nodes[links[e].target].abi)
    &&& forall|e: int, f: int|
        0 <= e < f < links.len() ==> (#[trigger] links[e]).target != (#[trigger] links[f]).target
}

/// The package at position `p` of the order comes after all packages that it uses.
pub open spec fn comes_after_uses(walk: WalkView, p: int) -> bool {
    let links = walk.nodes[walk.post_order[p]].dependencies;
    forall|e: int|
        0 <= e < links.len() ==> stands_before(walk.post_order, p, (#[trigger] links[e]).target)
}

/// The invariant of the walk.
pub open spec fn sound(walk: WalkView) -> bool {
    &&& numbers_sound(walk)
    &&& order_sound(walk)
    &&& forall|i: int| 0 <= i < walk.nodes.len() ==> #[trigger] links_sound(walk, i)
    &&& forall|p: int| 0 <= p < walk.post_order.len() ==> #[trigger] comes_after_uses(walk, p)
}

/// Nothing that `a` knows is lost or changed in `b`, except for the uses of the package `open`.
pub open spec fn grows(a: WalkView, b: WalkView, open: int) -> bool {
    &&& a.stack == b.stack
    &&& forall|m: Seq<char>| #[trigger]
        a.states.dom().contains(m) ==> b.states.dom().contains(m) && b.states[m] == a.states[m]
    &&& forall|m: Seq<char>| #[trigger]
        a.by_manifest.dom().contains(m) ==> b.by_manifest.dom().contains(m) && b.by_manifest[m]
            == a.by_manifest[m]
    &&& forall|r: Seq<char>| #[trigger]
        a.by_external.dom().contains(r) ==> b.by_external.dom().contains(r) && b.by_external[r]
            == a.by_external[r]
    &&& a.nodes.len() <= b.nodes.len()
    &&& forall|i: int| 0 <= i < a.nodes.len() && i != open ==> #[trigger] b.nodes[i] == a.nodes[i]
    &&& 0 <= open < a.nodes.len() ==> b.nodes[open] == (NodeView {
        dependencies: b.nodes[open].dependencies,
        ..a.nodes[open]
    }) && a.nodes[open].dependencies.is_prefix_of(b.nodes[open].dependencies)
    &&& a.post_order.is_prefix_of(b.post_order)
    &&& a.turn <= b.turn
}

// ---------------------------------------------------------------------------
// The steps keep the invariant
// ---------------------------------------------------------------------------

proof fn lemma_stands_before_push(order: Seq<int>, new: int, end: int, item: int)
    requires
        stands_before(order, end, item),
    ensures
        stands_before(order.push(new), end, item),
{
    let q = choose|q: int| 0 <= q < end && q < order.len() && order[q] == item;
    assert(order.push(new)[q] == item);
}

pub proof fn lemma_start_sound()
    ensures
        sound(resolution::start()),
{
}

pub proof fn lemma_entered_sound(walk: WalkView, manifest: Seq<char>, node: NodeView)
    requires
        sound(walk),
        !walk.states.dom().contains(manifest),
        node.dependencies.len() == 0,
    ensures
        sound(resolution::entered(walk, manifest, node)),
{
    let next = resolution::entered(walk, manifest, node);
    let new = walk.nodes.len() as int;
    assert(next.by_manifest.dom().contains(manifest));
    assert forall|i: int| 0 <= i < next.nodes.len() implies finished(next, i) || #[trigger] unfinished(
        next,
        i,
    ) by {
        if i == new {
            assert(next.stack[walk.stack.len() as int] == manifest);
        } else {
            assert(finished(walk, i) || unfinished(walk, i));
            if unfinished(walk, i) {
                let k = choose|k: int|
                    0 <= k < walk.stack.len() && walk.by_manifest.dom().contains(
                        #[trigger] walk.stack[k],
                    ) && walk.by_manifest[walk.stack[k]] == i;
                assert(next.stack[k] == walk.stack[k]);
            }
        }
    }
    assert forall|m: Seq<char>| #[trigger]
        next.states.dom().contains(m) && next.states[m] == VisitState::Visiting implies !finished(
        next,
        next.by_manifest[m],
    ) && next.stack.contains(m) by {
        if m == manifest {
            assert(next.stack[walk.stack.len() as int] == manifest);
        } else {
            assert(walk.states.dom().contains(m));
            let k = choose|k: int| 0 <= k < walk.stack.len() && walk.stack[k] == m;
            assert(next.stack[k] == m);
        }
    }
    assert forall|k: int| 0 <= k < next.stack.len() implies next.states.dom().contains(
        #[trigger] next.stack[k],
    ) && next.states[next.stack[k]] == VisitState::Visiting by {
        if k < walk.stack.len() {
            assert(next.stack[k] == walk.stack[k]);
        }
    }
    assert(!walk.stack.contains(manifest));
    assert forall|i: int| 0 <= i < next.nodes.len() implies #[trigger] links_sound(next, i) by {
        if i < new {
            assert(links_sound(walk, i));
        }
    }
    assert forall|p: int| 0 <= p < next.post_order.len() implies #[trigger] comes_after_uses(
        next,
        p,
    ) by {
        assert(comes_after_uses(walk, p));
    }
}

proof fn lemma_left_sound(walk: WalkView, manifest: Seq<char>, index: int)
    requires
        sound(walk),
        walk.stack.len() > 0,
        walk.stack.last() == manifest,
        walk.by_manifest.dom().contains(manifest),
        walk.by_manifest[manifest] == index,
    ensures
        sound(resolution::left(walk, manifest, index)),
        finished(resolution::left(walk, manifest, index), index),
{
    let next = resolution::left(walk, manifest, index);
    let top = walk.stack.len() - 1;
    assert(walk.stack[top] == manifest);
    assert(walk.states.dom().contains(manifest));
    assert(next.post_order[walk.post_order.len() as int] == index);
    assert(finished(next, index));
    assert forall|i: int| finished(walk, i) implies finished(next, i) by {
        lemma_stands_before_push(walk.post_order, index, walk.post_order.len() as int, i);
    }
    assert forall|i: int| finished(next, i) && i != index implies finished(walk, i) by {
        let q = choose|q: int|
            0 <= q < next.post_order.len() && q < next.post_order.len() && next.post_order[q] == i;
        assert(walk.post_order[q] == i);
    }
    assert forall|m: Seq<char>| #[trigger]
        next.states.dom().contains(m) && next.states[m] == VisitState::Visiting implies !finished(
        next,
        next.by_manifest[m],
    ) && next.stack.contains(m) by {
        assert(m != manifest);
        assert(walk.states.dom().contains(m));
        assert(walk.by_manifest.dom().contains(m));
        let k = choose|k: int| 0 <= k < walk.stack.len() && walk.stack[k] == m;
        assert(next.stack[k] == m);
    }
    assert forall|m: Seq<char>| #[trigger]
        next.states.dom().contains(m) && next.states[m] == VisitState::Visited implies finished(
        next,
        next.by_manifest[m],
    ) by {
        if m != manifest {
            assert(walk.states.dom().contains(m));
        }
    }
    assert forall|k: int| 0 <= k < next.stack.len() implies next.states.dom().contains(
        #[trigger] next.stack[k],
    ) && next.states[next.stack[k]] == VisitState::Visiting by {
        assert(next.stack[k] == walk.stack[k]);
        assert(walk.stack[k] != walk.stack[top]);
    }
    assert forall|i: int| 0 <= i < next.nodes.len() implies finished(next, i) || #[trigger] unfinished(
        next,
        i,
    ) by {
        assert(finished(walk, i) || unfinished(walk, i));
        if unfinished(walk, i) && i != index {
            let k = choose|k: int|
                0 <= k < walk.stack.len() && walk.by_manifest.dom().contains(
                    #[trigger] walk.stack[k],
                ) && walk.by_manifest[walk.stack[k]] == i;
            assert(next.stack[k] == walk.stack[k]);
        }
    }
    assert(next.post_order.no_duplicates()) by {
        assert(!finished(walk, index));
        assert forall|p: int| 0 <= p < walk.post_order.len() implies #[trigger] walk.post_order[p]
            != index by {
            if walk.post_order[p] == index {
                assert(finished(walk, index));
            }
        }
    }
    assert forall|i: int| 0 <= i < next.nodes.len() implies #[trigger] links_sound(next, i) by {
        assert(links_sound(walk, i));
    }
    assert forall|p: int| 0 <= p < next.post_order.len() implies #[trigger] comes_after_uses(
        next,
        p,
    ) by {
        let links = next.nodes[next.post_order[p]].dependencies;
        if p < walk.post_order.len() {
            assert(comes_after_uses(walk, p));
            assert(walk.post_order[p] == next.post_order[p]);
            assert forall|e: int| 0 <= e < links.len() implies stands_before(
                next.post_order,
                p,
                (#[trigger] links[e]).target,
            ) by {
                lemma_stands_before_push(walk.post_order, index, p, links[e].target);
            }
        } else {
            assert(links_sound(walk, index));
            assert forall|e: int| 0 <= e < links.len() implies stands_before(
                next.post_order,
                p,
                (#[trigger] links[e]).target,
            ) by {
                lemma_stands_before_push(
                    walk.post_order,
                    index,
                    walk.post_order.len() as int,
                    links[e].target,
                );
            }
        }
    }
}

pub proof fn lemma_linked_sound(
    walk: WalkView,
    index: int,
    target: int,
    visibility: DependencyVisibility,
)
    requires
        sound(walk),
        0 <= index < walk.nodes.len(),
        !finished(walk, index),
        0 <= target < walk.nodes.len(),
        finished(walk, target),
        abi::abi_fits(walk.nodes[index].abi, walk.nodes[target].abi),
    ensures
        sound(resolution::linked(walk, index, target, visibility)),
        grows(walk, resolution::linked(walk, index, target, visibility), index),
{
    let next = resolution::linked(walk, index, target, visibility);
    let node = walk.nodes[index];
    if !resolution::links_to(node, target) {
        let links = next.nodes[index].dependencies;
        assert(links == node.dependencies.push(LinkView { target, visibility }));
        assert forall|i: int| 0 <= i < next.nodes.len() implies #[trigger] next.nodes[i].abi
            == walk.nodes[i].abi by {}
        assert forall|i: int| finished(walk, i) == finished(next, i) by {}
        assert forall|i: int| 0 <= i < next.nodes.len() implies #[trigger] links_sound(next, i) by {
            assert(links_sound(walk, i));
            if i == index {
                assert forall|e: int| 0 <= e < links.len() implies 0 <= (#[trigger] links[e]).target
                    < next.nodes.len() && finished(next, links[e].target) && abi::abi_fits(
                    next.nodes[i].abi,
                    next.nodes[links[e].target].abi,
                ) by {
                    if e < node.dependencies.len() {
                        assert(links[e] == node.dependencies[e]);
                    }
                }
                assert forall|e: int, f: int| 0 <= e < f < links.len() implies (
                #[trigger] links[e]).target != (#[trigger] links[f]).target by {
                    assert(links[e] == node.dependencies[e]);
                    if f < node.dependencies.len() {
                        assert(links[f] == node.dependencies[f]);
                    }
                }
            } else {
                let old_links = walk.nodes[i].dependencies;
                assert(next.nodes[i] == walk.nodes[i]);
                assert forall|e: int| 0 <= e < old_links.len() implies 0 <= (
                #[trigger] old_links[e]).target < next.nodes.len() && finished(
                    next,
                    old_links[e].target,
                ) && abi::abi_fits(next.nodes[i].abi, next.nodes[old_links[e].target].abi) by {}
            }
        }
        assert forall|p: int| 0 <= p < next.post_order.len() implies #[trigger] comes_after_uses(
            next,
            p,
        ) by {
            assert(comes_after_uses(walk, p));
            assert(walk.post_order[p] != index) by {
                if walk.post_order[p] == index {
                    assert(finished(walk, index));
                }
            }
        }
        assert forall|i: int| 0 <= i < next.nodes.len() implies finished(next, i)
            || #[trigger] unfinished(next, i) by {
            assert(finished(walk, i) || unfinished(walk, i));
            if unfinished(walk, i) {
                let k = choose|k: int|
                    0 <= k < walk.stack.len() && walk.by_manifest.dom().contains(
                        #[trigger] walk.stack[k],
                    ) && walk.by_manifest[walk.stack[k]] == i;
                assert(next.stack[k] == walk.stack[k]);
            }
        }
        assert(node.dependencies.is_prefix_of(links)) by {
            assert(node.dependencies =~= links.subrange(0, node.dependencies.len() as int));
        }
        assert(walk.post_order.subrange(0, walk.post_order.len() as int) =~= walk.post_order);
    } else {
        assert(node.dependencies.subrange(0, node.dependencies.len() as int)
            =~= node.dependencies);
        assert(walk.post_order.subrange(0, walk.post_order.len() as int) =~= walk.post_order);
    }
}

pub proof fn lemma_interned_sound(
    walk: WalkView,
    data: resolution::ExternalView,
    cpp_standard: Seq<char>,
)
    requires
        sound(walk),
    ensures
        resolution::interned(walk, data, cpp_standard) matches Ok((next, index)) ==> sound(next)
            && grows(walk, next, -1) && 0 <= index < next.nodes.len() && finished(next, index)
            && next.states == walk.states && next.by_external.dom().contains(data.root_dir)
            && next.by_external[data.root_dir] == index,
{
    if let Ok((next, index)) = resolution::interned(walk, data, cpp_standard) {
        if !walk.by_external.dom().contains(data.root_dir) {
            assert(next.post_order[walk.post_order.len() as int] == index);
            assert(finished(next, index));
            assert forall|i: int| finished(walk, i) implies finished(next, i) by {
                lemma_stands_before_push(walk.post_order, index, walk.post_order.len() as int, i);
            }
            assert forall|i: int| finished(next, i) && i != index implies finished(walk, i) by {
                let q = choose|q: int|
                    0 <= q < next.post_order.len() && q < next.post_order.len()
                        && next.post_order[q] == i;
                assert(walk.post_order[q] == i);
            }
            assert forall|m: Seq<char>| #[trigger]
                next.states.dom().contains(m) && next.states[m]
                    == VisitState::Visiting implies !finished(next, next.by_manifest[m])
                && next.stack.contains(m) by {
                assert(walk.by_manifest.dom().contains(m));
            }
            assert forall|r: Seq<char>| #[trigger]
                next.by_external.dom().contains(r) implies 0 <= next.by_external[r]
                < next.nodes.len() && finished(next, next.by_external[r]) by {
                if r != data.root_dir {
                    assert(walk.by_external.dom().contains(r));
                }
            }
            assert forall|i: int| 0 <= i < next.nodes.len() implies finished(next, i)
                || #[trigger] unfinished(next, i) by {
                if i < walk.nodes.len() {
                    assert(finished(walk, i) || unfinished(walk, i));
                }
            }
            assert forall|i: int| 0 <= i < next.nodes.len() implies #[trigger] links_sound(
                next,
                i,
            ) by {
                if i < walk.nodes.len() {
                    assert(links_sound(walk, i));
                    assert(next.nodes[i] == walk.nodes[i]);
                }
            }
            assert forall|p: int| 0 <= p < next.post_order.len() implies #[trigger] comes_after_uses(
                next,
                p,
            ) by {
                if p < walk.post_order.len() {
                    assert(comes_after_uses(walk, p));
                    assert(walk.post_order[p] == next.post_order[p]);
                    let links = next.nodes[next.post_order[p]].dependencies;
                    assert forall|e: int| 0 <= e < links.len() implies stands_before(
                        next.post_order,
                        p,
                        (#[trigger] links[e]).target,
                    ) by {
                        lemma_stands_before_push(walk.post_order, index, p, links[e].target);
                    }
                }
            }
            assert(next.post_order.subrange(0, walk.post_order.len() as int) =~= walk.post_order);
        } else {
            assert(walk.post_order.subrange(0, walk.post_order.len() as int) =~= walk.post_order);
        }
    }
}

// ---------------------------------------------------------------------------
// The walk keeps the invariant
// ---------------------------------------------------------------------------

pub proof fn lemma_grows_transitive(a: WalkView, b: WalkView, c: WalkView, open: int)
    requires
        grows(a, b, open),
        grows(b, c, open),
    ensures
        grows(a, c, open),
{
    assert forall|m: Seq<char>| #[trigger] a.states.dom().contains(m) implies c.states.dom().contains(
        m,
    ) && c.states[m] == a.states[m] by {
        assert(b.states.dom().contains(m));
    }
    assert forall|m: Seq<char>| #[trigger] a.by_manifest.dom().contains(m) implies
        c.by_manifest.dom().contains(m) && c.by_manifest[m] == a.by_manifest[m] by {
        assert(b.by_manifest.dom().contains(m));
    }
    assert forall|m: Seq<char>| #[trigger] a.by_external.dom().contains(m) implies
        c.by_external.dom().contains(m) && c.by_external[m] == a.by_external[m] by {
        assert(b.by_external.dom().contains(m));
    }
    assert forall|i: int| 0 <= i < a.nodes.len() && i != open implies #[trigger] c.nodes[i]
        == a.nodes[i] by {
        assert(b.nodes[i] == a.nodes[i]);
    }
    lemma_prefix_transitive(a.post_order, b.post_order, c.post_order);
    if 0 <= open < a.nodes.len() {
        lemma_prefix_transitive(
            a.nodes[open].dependencies,
            b.nodes[open].dependencies,
            c.nodes[open].dependencies,
        );
    }
}

proof fn lemma_prefix_transitive<T>(a: Seq<T>, b: Seq<T>, c: Seq<T>)
    requires
        a.is_prefix_of(b),
        b.is_prefix_of(c),
    ensures
        a.is_prefix_of(c),
{
    assert(c.subrange(0, a.len() as int) =~= b.subrange(0, a.len() as int));
}

pub proof fn lemma_grows_weaken(a: WalkView, b: WalkView, open: int)
    requires
        grows(a, b, -1),
    ensures
        grows(a, b, open),
{
    if 0 <= open < a.nodes.len() {
        assert(b.nodes[open] == a.nodes[open]);
        assert(a.nodes[open].dependencies.subrange(0, a.nodes[open].dependencies.len() as int)
            =~= a.nodes[open].dependencies);
    }
}

pub proof fn lemma_grows_counts(known: Findings, a: WalkView, b: WalkView, open: int)
    requires
        grows(a, b, open),
    ensures
        resolution::unvisited(known, b) <= resolution::unvisited(known, a),
{
    let keys = known.manifests@.map_values(
        |e: (Seq<char>, Result<CookConfig, crate::failure::Failure>)| e.0,
    );
    vstd::seq_lib::seq_to_set_is_finite(keys);
    let all = resolution::known_manifests(known);
    let x = all.difference(a.states.dom());
    let y = all.difference(b.states.dom());
    assert(y.subset_of(x));
    vstd::set_lib::lemma_len_subset(y, x);
}

/// Counting checkouts changes nothing else.
pub proof fn lemma_turned_sound(known: Findings, walk: WalkView, turn: int)
    ensures
        sound(walk) ==> sound(resolution::turned(walk, turn)),
        walk.turn <= turn ==> grows(walk, resolution::turned(walk, turn), -1),
        resolution::unvisited(known, resolution::turned(walk, turn)) == resolution::unvisited(
            known,
            walk,
        ),
{
    let next = resolution::turned(walk, turn);
    assert(walk.post_order.subrange(0, walk.post_order.len() as int) =~= walk.post_order);
    if sound(walk) {
        assert forall|i: int| finished(walk, i) == finished(next, i) by {}
        assert forall|i: int| unfinished(walk, i) implies #[trigger] unfinished(next, i) by {
            let k = choose|k: int|
                0 <= k < walk.stack.len() && walk.by_manifest.dom().contains(
                    #[trigger] walk.stack[k],
                ) && walk.by_manifest[walk.stack[k]] == i;
            assert(next.by_manifest[next.stack[k]] == i);
        }
        assert forall|i: int| unfinished(next, i) implies #[trigger] unfinished(walk, i) by {
            let k = choose|k: int|
                0 <= k < next.stack.len() && next.by_manifest.dom().contains(
                    #[trigger] next.stack[k],
                ) && next.by_manifest[next.stack[k]] == i;
            assert(walk.by_manifest[walk.stack[k]] == i);
        }
        assert forall|i: int| 0 <= i < next.nodes.len() implies finished(next, i)
            || #[trigger] unfinished(next, i) by {
            assert(finished(walk, i) || unfinished(walk, i));
        }
        assert forall|i: int| 0 <= i < next.nodes.len() implies #[trigger] links_sound(next, i) by {
            assert(links_sound(walk, i));
        }
        assert forall|p: int| 0 <= p < next.post_order.len() implies #[trigger] comes_after_uses(
            next,
            p,
        ) by {
            assert(comes_after_uses(walk, p));
        }
    }
}

/// Visiting a package keeps what was known before, and leaves that package finished.
pub proof fn walk_only_grows(
    options: WalkOptions,
    known: Findings,
    walk: WalkView,
    manifest: Seq<char>,
    source: packages::OriginView,
)
    requires
        sound(walk),
    ensures
        resolution::visited(options, known, walk, manifest, source) matches Ok((after, index)) ==> {
            &&& sound(after)
            &&& grows(walk, after, -1)
            &&& 0 <= index < after.nodes.len()
            &&& finished(after, index)
            &&& after.by_manifest.dom().contains(manifest)
            &&& after.by_manifest[manifest] == index
            &&& resolution::unvisited(known, after) <= resolution::unvisited(known, walk)
        },
    decreases resolution::unvisited(known, walk), 0int, 0int,
{
    if walk.states.dom().contains(manifest) {
        assert(walk.post_order.subrange(0, walk.post_order.len() as int) =~= walk.post_order);
        assert(walk.by_manifest.dom().contains(manifest));
    } else if let Some(Ok(cfg)) = ordered_map::lookup(known.manifests@, manifest) {
        if let Some(root_dir) = paths::parent(options.windows, manifest) {
            let index = walk.nodes.len() as int;
            let node = resolution::cook_node(cfg, root_dir, source);
            let inside = resolution::entered(walk, manifest, node);
            lemma_entered_sound(walk, manifest, node);
            resolution::lemma_entering_counts(known, walk, inside, manifest);
            uses_only_grow(options, known, inside, manifest, index, cfg, root_dir, 0);
            if let Ok(after) = resolution::visited_dependencies(
                options,
                known,
                inside,
                index,
                cfg,
                root_dir,
                0,
            ) {
                let done = resolution::left(after, manifest, index);
                assert(inside.by_manifest.dom().contains(manifest));
                lemma_left_sound(after, manifest, index);
                assert(done.stack =~= walk.stack);
                assert(walk.post_order.is_prefix_of(done.post_order)) by {
                    assert(done.post_order.subrange(0, walk.post_order.len() as int)
                        =~= after.post_order.subrange(0, walk.post_order.len() as int));
                }
                assert forall|m: Seq<char>| #[trigger]
                    walk.states.dom().contains(m) implies done.states.dom().contains(m)
                    && done.states[m] == walk.states[m] by {
                    assert(inside.states.dom().contains(m));
                }
                assert forall|m: Seq<char>| #[trigger]
                    walk.by_manifest.dom().contains(m) implies done.by_manifest.dom().contains(m)
                    && done.by_manifest[m] == walk.by_manifest[m] by {
                    assert(inside.by_manifest.dom().contains(m));
                }
                assert forall|i: int| 0 <= i < walk.nodes.len() implies #[trigger] done.nodes[i]
                    == walk.nodes[i] by {
                    assert(inside.nodes[i] == walk.nodes[i]);
                    assert(after.nodes[i] == inside.nodes[i]);
                }
                lemma_grows_counts(known, walk, done, -1);
            }
        }
    }
}

/// Visiting the dependencies of a package keeps what was known before.
#[verifier::rlimit(30)]
pub proof fn uses_only_grow(
    options: WalkOptions,
    known: Findings,
    walk: WalkView,
    manifest: Seq<char>,
    index: int,
    cfg: CookConfig,
    root_dir: Seq<char>,
    from: nat,
)
    requires
        sound(walk),
        walk.stack.len() > 0,
        walk.stack.last() == manifest,
        walk.by_manifest.dom().contains(manifest),
        walk.by_manifest[manifest] == index,
        walk.nodes[index].abi == cfg.project.abi@,
    ensures
        resolution::visited_dependencies(
            options,
            known,
            walk,
            index,
            cfg,
            root_dir,
            from,
        ) matches Ok(after) ==> {
            &&& sound(after)
            &&& grows(walk, after, index)
            &&& resolution::unvisited(known, after) <= resolution::unvisited(known, walk)
        },
    decreases resolution::unvisited(known, walk), 1int, cfg.dependencies@.len() - from,
{
    if from >= cfg.dependencies@.len() {
        assert(walk.post_order.subrange(0, walk.post_order.len() as int) =~= walk.post_order);
        assert(walk.nodes[index].dependencies.subrange(
            0,
            walk.nodes[index].dependencies.len() as int,
        ) =~= walk.nodes[index].dependencies);
    } else {
        let alias = cfg.dependencies@[from as int].0;
        let want = config::described(cfg.dependencies@[from as int].1);
        if let Ok(place) = resolution::located(
            options,
            known,
            walk.turn,
            root_dir,
            alias,
            want,
        ) {
            let here = resolution::turned(walk, resolution::turn_after(want, walk.turn));
            lemma_turned_sound(known, walk, here.turn);
            let step = match place {
                resolution::LocatedView::Cook { manifest, source } => resolution::visited(
                    options,
                    known,
                    here,
                    manifest,
                    source,
                ),
                resolution::LocatedView::External(data) => resolution::interned(
                    here,
                    data,
                    cfg.project.cpp_standard@,
                ),
            };
            match place {
                resolution::LocatedView::Cook { manifest, source } => {
                    walk_only_grows(options, known, here, manifest, source);
                },
                resolution::LocatedView::External(data) => {
                    lemma_interned_sound(here, data, cfg.project.cpp_standard@);
                },
            }
            if let Ok((next, target)) = step {
                if resolution::edge_conflict(cfg, alias, want, next.nodes[target]) is None {
                    abi::conflict_iff_misfit(
                        abi::AbiPair {
                            parent: cfg.project.name@,
                            child: next.nodes[target].name,
                            context: "parent-child"@,
                        },
                        cfg.project.abi@,
                        next.nodes[target].abi,
                    );
                    assert(next.stack[next.stack.len() - 1] == manifest);
                    assert(next.by_manifest.dom().contains(manifest));
                    assert(next.states.dom().contains(manifest));
                    assert(!finished(next, index));
                    lemma_grows_transitive(walk, here, next, -1);
                    lemma_grows_weaken(walk, next, index);
                    lemma_linked_sound(next, index, target, want.visibility);
                    let after = resolution::linked(next, index, target, want.visibility);
                    lemma_grows_transitive(walk, next, after, index);
                    lemma_grows_counts(known, walk, after, index);
                    uses_only_grow(
                        options,
                        known,
                        after,
                        manifest,
                        index,
                        cfg,
                        root_dir,
                        from + 1,
                    );
                    if let Ok(end) = resolution::visited_dependencies(
                        options,
                        known,
                        after,
                        index,
                        cfg,
                        root_dir,
                        from + 1,
                    ) {
                        lemma_grows_transitive(walk, after, end, index);
                    }
                }
            }
        }
    }
}

// ---------------------------------------------------------------------------
// Laws of the result
// ---------------------------------------------------------------------------

proof fn lemma_others_keeps(order: Seq<int>, root: int)
    requires
        forall|i: int| 0 <= i < order.len() ==> order[i] != root,
    ensures
        resolution::others(order, root) == order,
    decreases order.len(),
{
    if order.len() > 0 {
        lemma_others_keeps(order.drop_last(), root);
        assert(order.drop_last().push(order.last()) =~= order);
    } else {
        assert(order =~= Seq::empty());
    }
}

/// The walk that begins with the manifest of a project ends with the project.
proof fn lemma_root_walk(options: WalkOptions, known: Findings, manifest: Seq<char>)
    ensures
        resolution::visited(
            options,
            known,
            resolution::start(),
            manifest,
            packages::OriginView::Root,
        ) matches Ok((walk, root)) ==> {
            &&& root == 0
            &&& walk.stack.len() == 0
            &&& walk.nodes.len() > 0
            &&& walk.nodes[0].source == packages::OriginView::Root
            &&& walk.post_order.len() > 0
            &&& walk.post_order.last() == 0
        },
{
    let walk = resolution::start();
    lemma_start_sound();
    walk_only_grows(options, known, walk, manifest, packages::OriginView::Root);
    if let Some(Ok(cfg)) = ordered_map::lookup(known.manifests@, manifest) {
        if let Some(root_dir) = paths::parent(options.windows, manifest) {
            let node = resolution::cook_node(cfg, root_dir, packages::OriginView::Root);
            let inside = resolution::entered(walk, manifest, node);
            lemma_entered_sound(walk, manifest, node);
            assert(inside.by_manifest.dom().contains(manifest));
            uses_only_grow(options, known, inside, manifest, 0, cfg, root_dir, 0);
        }
    }
}

/// `order` lists the packages of `result` other than the project itself, each
/// once and after all packages that it uses, and the build order names them in
/// this order.
pub open spec fn is_build_order(result: packages::ResolutionView, order: Seq<int>) -> bool {
    &&& order.no_duplicates()
    &&& forall|i: int| #[trigger] order.contains(i) <==> 1 <= i < result.packages.len()
    &&& result.build_order == order.map_values(|i: int| result.packages[i].name)
    &&& forall|j: int, e: int|
        0 <= j < order.len() && 0 <= e < result.packages[order[j]].dependencies.len()
            ==> built_before(
            result,
            order,
            j,
            (#[trigger] result.packages[order[j]].dependencies[e]).name,
        )
}

/// A package with the name `name` stands in `order` before position `j`.
pub open spec fn built_before(
    result: packages::ResolutionView,
    order: Seq<int>,
    j: int,
    name: Seq<char>,
) -> bool {
    exists|k: int| 0 <= k < j && result.packages[#[trigger] order[k]].name == name
}

/// The build order of a resolution names every package but the project itself
/// once, each after all packages that it uses.
pub proof fn build_order_is_topological(options: WalkOptions, known: Findings, manifest: Seq<char>)
    ensures
        resolution::resolved(options, known, manifest) matches Ok(result) ==> {
            &&& result.packages.len() == result.build_order.len() + 1
            &&& exists|order: Seq<int>| is_build_order(result, order)
        },
{
    let first = resolution::visited(
        options,
        known,
        resolution::start(),
        manifest,
        packages::OriginView::Root,
    );
    if let Ok((walk, root)) = first {
        lemma_start_sound();
        walk_only_grows(
            options,
            known,
            resolution::start(),
            manifest,
            packages::OriginView::Root,
        );
        lemma_root_walk(options, known, manifest);
        let result = resolution::summary(walk, root);
        let order = walk.post_order.drop_last();
        let last = walk.post_order.len() - 1;
        assert forall|i: int| 0 <= i < order.len() implies order[i] != root by {
            assert(walk.post_order[i] != walk.post_order[last]);
        }
        lemma_others_keeps(order, root);
        assert(resolution::others(walk.post_order, root) == order);
        assert(result.build_order =~= order.map_values(|i: int| result.packages[i].name)) by {
            assert forall|j: int| 0 <= j < order.len() implies result.packages[#[trigger] order[j]].name
                == walk.nodes[order[j]].name by {
                assert(walk.post_order[j] == order[j]);
            }
        }
        assert forall|i: int| #[trigger] order.contains(i) <==> 1 <= i < result.packages.len() by {
            if order.contains(i) {
                let q = choose|q: int| 0 <= q < order.len() && order[q] == i;
                assert(walk.post_order[q] == i);
            }
            if 1 <= i < result.packages.len() {
                assert(finished(walk, i) || unfinished(walk, i));
                let q = choose|q: int|
                    0 <= q < walk.post_order.len() && q < walk.post_order.len()
                        && walk.post_order[q] == i;
                assert(order[q] == i);
            }
        }
        assert forall|j: int, e: int|
            0 <= j < order.len() && 0 <= e
                < result.packages[order[j]].dependencies.len() implies built_before(
            result,
            order,
            j,
            (#[trigger] result.packages[order[j]].dependencies[e]).name,
        ) by {
            assert(walk.post_order[j] == order[j]);
            assert(comes_after_uses(walk, j));
            let links = walk.nodes[order[j]].dependencies;
            assert(stands_before(walk.post_order, j, links[e].target));
            let q = choose|q: int|
                0 <= q < j && q < walk.post_order.len() && walk.post_order[q] == links[e].target;
            assert(order[q] == links[e].target);
            assert(result.packages[order[q]].name == walk.nodes[links[e].target].name);
        }
        assert(is_build_order(result, order));
        lemma_order_len(order, walk.nodes.len());
    }
}

/// A list that holds each of the numbers from 1 up to `n` once has `n - 1` items.
proof fn lemma_order_len(order: Seq<int>, n: nat)
    requires
        order.no_duplicates(),
        forall|i: int| #[trigger] order.contains(i) <==> 1 <= i < n,
        n > 0,
    ensures
        order.len() + 1 == n,
{
    order.unique_seq_to_set();
    vstd::set_lib::lemma_int_range(1, n as int);
    assert(order.to_set() =~= vstd::set_lib::set_int_range(1, n as int));
}

/// The first package of a resolution is the project itself, and the direct
/// dependencies are the packages that it uses.
pub proof fn direct_dependencies_are_those_of_the_project(
    options: WalkOptions,
    known: Findings,
    manifest: Seq<char>,
)
    ensures
        resolution::resolved(options, known, manifest) matches Ok(result) ==> {
            &&& result.packages.len() > 0
            &&& result.packages[0].source == packages::OriginView::Root
            &&& result.direct_dependencies.len() == result.packages[0].dependencies.len()
            &&& forall|e: int|
                0 <= e < result.direct_dependencies.len() ==> (
                #[trigger] result.direct_dependencies[e]).name
                    == result.packages[0].dependencies[e].name
                    && result.direct_dependencies[e].visibility
                    == result.packages[0].dependencies[e].visibility
        },
{
    lemma_root_walk(options, known, manifest);
}

/// Two packages that a walk joins fit together.
pub proof fn joined_packages_fit(
    options: WalkOptions,
    known: Findings,
    manifest: Seq<char>,
    walk: WalkView,
    root: int,
    i: int,
    e: int,
)
    requires
        resolution::visited(
            options,
            known,
            resolution::start(),
            manifest,
            packages::OriginView::Root,
        ) == Ok::<(WalkView, int), findings::StopView>((walk, root)),
        0 <= i < walk.nodes.len(),
        0 <= e < walk.nodes[i].dependencies.len(),
    ensures
        abi::abi_fits(walk.nodes[i].abi, walk.nodes[walk.nodes[i].dependencies[e].target].abi),
{
    lemma_start_sound();
    walk_only_grows(
        options,
        known,
        resolution::start(),
        manifest,
        packages::OriginView::Root,
    );
    assert(links_sound(walk, i));
}

proof fn lemma_place(list: Seq<Seq<char>>, item: Seq<char>)
    requires
        list.contains(item),
    ensures
        0 <= resolution::place(list, item) < list.len(),
        list[resolution::place(list, item)] == item,
    decreases list.len(),
{
    if list[0] != item {
        let k = choose|k: int| 0 <= k < list.len() && list[k] == item;
        assert(list.drop_first()[k - 1] == item);
        lemma_place(list.drop_first(), item);
    }
}

/// A walk complains of a cycle only where it comes back to a package that it
/// has entered and not left; the report begins and ends with that package.
pub proof fn reported_cycle_is_real(walk: WalkView, manifest: Seq<char>)
    requires
        sound(walk),
        walk.states.dom().contains(manifest),
        walk.states[manifest] == VisitState::Visiting,
    ensures
        ({
            let p = resolution::place(walk.stack, manifest);
            &&& 0 <= p < walk.stack.len()
            &&& walk.stack[p] == manifest
            &&& forall|k: int|
                p <= k < walk.stack.len() ==> walk.states.dom().contains(#[trigger] walk.stack[k])
                    && walk.states[walk.stack[k]] == VisitState::Visiting
        }),
{
    lemma_place(walk.stack, manifest);
}

/// Every package that `a` has visited has been visited in `b`, under the same number.
pub open spec fn remembers(a: WalkView, b: WalkView) -> bool {
    forall|m: Seq<char>| #[trigger]
        a.states.dom().contains(m) && a.states[m] == VisitState::Visited ==> {
            &&& b.states.dom().contains(m)
            &&& b.states[m] == VisitState::Visited
            &&& a.by_manifest.dom().contains(m) ==> b.by_manifest.dom().contains(m)
                && b.by_manifest[m] == a.by_manifest[m]
        }
}

/// A walk remembers what it has visited, whatever it enters, visits, notes or
/// checks out after that.
pub proof fn visits_are_remembered(
    options: WalkOptions,
    known: Findings,
    walk: WalkView,
    manifest: Seq<char>,
    source: packages::OriginView,
    node: NodeView,
    data: resolution::ExternalView,
    cpp_standard: Seq<char>,
    turn: int,
)
    requires
        sound(walk),
    ensures
        !walk.states.dom().contains(manifest) ==> remembers(
            walk,
            resolution::entered(walk, manifest, node),
        ),
        resolution::visited(options, known, walk, manifest, source) matches Ok((later, _))
            ==> remembers(walk, later),
        resolution::interned(walk, data, cpp_standard) matches Ok((later, _)) ==> remembers(
            walk,
            later,
        ),
        remembers(walk, resolution::turned(walk, turn)),
{
    walk_only_grows(options, known, walk, manifest, source);
}

/// A package that has been visited is not visited again: whatever is known by
/// then and wherever it is used from, the second visit gives the number of the
/// first, changes nothing and does not look at the manifest.
pub proof fn second_visit_changes_nothing(
    options: WalkOptions,
    known: Findings,
    walk: WalkView,
    manifest: Seq<char>,
    source: packages::OriginView,
    later: WalkView,
    known_later: Findings,
    source_later: packages::OriginView,
)
    requires
        sound(walk),
        resolution::visited(options, known, walk, manifest, source) is Ok,
        remembers(resolution::visited(options, known, walk, manifest, source)->Ok_0.0, later),
    ensures
        resolution::visited(options, known_later, later, manifest, source_later) == Ok::<
            (WalkView, int),
            findings::StopView,
        >((later, resolution::visited(options, known, walk, manifest, source)->Ok_0.1)),
{
    walk_only_grows(options, known, walk, manifest, source);
    let after = resolution::visited(options, known, walk, manifest, source)->Ok_0.0;
    assert(after.states.dom().contains(manifest));
}

// ---------------------------------------------------------------------------
// Laws of the findings
// ---------------------------------------------------------------------------

/// Every use of a git dependency is checked out by itself: the checkout that
/// answers for it is the one that follows the `turn` before it, and what comes
/// after looks further on.
pub proof fn every_use_is_checked_out(
    options: WalkOptions,
    known: Findings,
    turn: int,
    base_dir: Seq<char>,
    name: Seq<char>,
    want: config::DescriptorView,
)
    requires
        want.source is Git,
        resolution::located(options, known, turn, base_dir, name, want) is Ok,
    ensures
        resolution::turn_after(want, turn) == turn + 1,
        0 <= turn < known.checkouts@.len(),
        want.source matches config::SourceView::Git { url, rev, branch, tag } && rev is Some
            && known.checkouts@[turn].0@ == (findings::CheckoutView {
            dir: resolution::checkout_dir(options.windows, options.workspace_root, name),
            url,
            rev: rev->0,
            branch,
            tag,
            offline: options.offline,
            windows: options.windows,
        }),
{
}

/// `known` holds the answer to `request`.
pub open spec fn answered(known: Findings, request: findings::RequestView) -> bool {
    match request {
        findings::RequestView::Manifest(path) => ordered_map::has_key(known.manifests@, path),
        findings::RequestView::Directory { path, turn } => findings::directory_seen(
            known,
            turn,
            path,
        ) is Some,
        findings::RequestView::File { path, turn } => findings::file_seen(known, turn, path)
            is Some,
        findings::RequestView::Checkout { want, turn } => findings::checkout_answer(
            known,
            turn,
            want,
        ) is Some,
    }
}

/// `more` holds every answer that `known` holds.
pub open spec fn knows_at_least(more: Findings, known: Findings) -> bool {
    &&& forall|path: Seq<char>| #[trigger]
        ordered_map::lookup(known.manifests@, path) is Some ==> ordered_map::lookup(
            more.manifests@,
            path,
        ) == ordered_map::lookup(known.manifests@, path)
    &&& forall|turn: int, path: Seq<char>| #[trigger]
        findings::directory_seen(known, turn, path) is Some ==> findings::directory_seen(
            more,
            turn,
            path,
        ) == findings::directory_seen(known, turn, path)
    &&& forall|turn: int, path: Seq<char>| #[trigger]
        findings::file_seen(known, turn, path) is Some ==> findings::file_seen(more, turn, path)
            == findings::file_seen(known, turn, path)
    &&& forall|turn: int, want: findings::CheckoutView| #[trigger]
        findings::checkout_answer(known, turn, want) is Some ==> findings::checkout_answer(
            more,
            turn,
            want,
        ) == findings::checkout_answer(known, turn, want)
}

/// A request is for something that is not known, and where it is for a checkout,
/// it names a repository and keeps to what the user said about the network.
pub open spec fn is_proper(
    options: WalkOptions,
    known: Findings,
    request: findings::RequestView,
) -> bool {
    &&& !answered(known, request)
    &&& request matches findings::RequestView::Checkout { want, .. } ==> want.offline == options.offline
        && text::trimmed(want.url).len() > 0
}

/// A walk asks only for what it has not been told, and asks for nothing from the
/// network where the user forbids it.
pub proof fn requests_are_proper(
    options: WalkOptions,
    known: Findings,
    walk: WalkView,
    manifest: Seq<char>,
    source: packages::OriginView,
)
    ensures
        resolution::visited(options, known, walk, manifest, source) matches Err(
            findings::StopView::Need(request),
        ) ==> is_proper(options, known, request),
    decreases resolution::unvisited(known, walk), 0int, 0int,
{
    if !walk.states.dom().contains(manifest) {
        if let Some(Ok(cfg)) = ordered_map::lookup(known.manifests@, manifest) {
            if let Some(root_dir) = paths::parent(options.windows, manifest) {
                let index = walk.nodes.len() as int;
                let node = resolution::cook_node(cfg, root_dir, source);
                let inside = resolution::entered(walk, manifest, node);
                resolution::lemma_entering_counts(known, walk, inside, manifest);
                lemma_uses_ask_properly(options, known, inside, index, cfg, root_dir, 0);
            }
        }
    }
}

proof fn lemma_uses_ask_properly(
    options: WalkOptions,
    known: Findings,
    walk: WalkView,
    index: int,
    cfg: CookConfig,
    root_dir: Seq<char>,
    from: nat,
)
    ensures
        resolution::visited_dependencies(
            options,
            known,
            walk,
            index,
            cfg,
            root_dir,
            from,
        ) matches Err(findings::StopView::Need(request)) ==> is_proper(options, known, request),
    decreases resolution::unvisited(known, walk), 1int, cfg.dependencies@.len() - from,
{
    if from < cfg.dependencies@.len() {
        let alias = cfg.dependencies@[from as int].0;
        let want = config::described(cfg.dependencies@[from as int].1);
        if let Ok(place) = resolution::located(
            options,
            known,
            walk.turn,
            root_dir,
            alias,
            want,
        ) {
            let here = resolution::turned(walk, resolution::turn_after(want, walk.turn));
            lemma_turned_sound(known, walk, here.turn);
            let step = match place {
                resolution::LocatedView::Cook { manifest, source } => resolution::visited(
                    options,
                    known,
                    here,
                    manifest,
                    source,
                ),
                resolution::LocatedView::External(data) => resolution::interned(
                    here,
                    data,
                    cfg.project.cpp_standard@,
                ),
            };
            if let resolution::LocatedView::Cook { manifest, source } = place {
                requests_are_proper(options, known, here, manifest, source);
            }
            if let Ok((next, target)) = step {
                let after = resolution::linked(next, index, target, want.visibility);
                if resolution::edge_conflict(cfg, alias, want, next.nodes[target]) is None
                    && resolution::unvisited(known, after) <= resolution::unvisited(known, walk) {
                    lemma_uses_ask_properly(
                        options,
                        known,
                        after,
                        index,
                        cfg,
                        root_dir,
                        from + 1,
                    );
                }
            }
        }
    }
}

/// A walk that came to an end comes to the same end when more is known.
pub proof fn answers_are_final(
    options: WalkOptions,
    known: Findings,
    more: Findings,
    walk: WalkView,
    manifest: Seq<char>,
    source: packages::OriginView,
)
    requires
        sound(walk),
        knows_at_least(more, known),
        !(resolution::visited(options, known, walk, manifest, source) matches Err(
            findings::StopView::Need(_),
        )),
    ensures
        resolution::visited(options, more, walk, manifest, source) == resolution::visited(
            options,
            known,
            walk,
            manifest,
            source,
        ),
    decreases resolution::unvisited(known, walk), 0int, 0int,
{
    if !walk.states.dom().contains(manifest) {
        assert(ordered_map::lookup(known.manifests@, manifest) is Some);
        if let Some(Ok(cfg)) = ordered_map::lookup(known.manifests@, manifest) {
            if let Some(root_dir) = paths::parent(options.windows, manifest) {
                let index = walk.nodes.len() as int;
                let node = resolution::cook_node(cfg, root_dir, source);
                let inside = resolution::entered(walk, manifest, node);
                lemma_entered_sound(walk, manifest, node);
                resolution::lemma_entering_counts(known, walk, inside, manifest);
                assert(inside.by_manifest.dom().contains(manifest));
                lemma_uses_final(options, known, more, inside, manifest, index, cfg, root_dir, 0);
            }
        }
    }
}

proof fn lemma_located_final(
    options: WalkOptions,
    known: Findings,
    more: Findings,
    turn: int,
    base_dir: Seq<char>,
    name: Seq<char>,
    want: config::DescriptorView,
)
    requires
        knows_at_least(more, known),
        !(resolution::located(options, known, turn, base_dir, name, want) matches Err(
            findings::StopView::Need(_),
        )),
    ensures
        resolution::located(options, more, turn, base_dir, name, want) == resolution::located(
            options,
            known,
            turn,
            base_dir,
            name,
            want,
        ),
{
}

proof fn lemma_uses_final(
    options: WalkOptions,
    known: Findings,
    more: Findings,
    walk: WalkView,
    manifest: Seq<char>,
    index: int,
    cfg: CookConfig,
    root_dir: Seq<char>,
    from: nat,
)
    requires
        knows_at_least(more, known),
        sound(walk),
        walk.stack.len() > 0,
        walk.stack.last() == manifest,
        walk.by_manifest.dom().contains(manifest),
        walk.by_manifest[manifest] == index,
        walk.nodes[index].abi == cfg.project.abi@,
        !(resolution::visited_dependencies(
            options,
            known,
            walk,
            index,
            cfg,
            root_dir,
            from,
        ) matches Err(findings::StopView::Need(_))),
    ensures
        resolution::visited_dependencies(options, more, walk, index, cfg, root_dir, from)
            == resolution::visited_dependencies(options, known, walk, index, cfg, root_dir, from),
    decreases resolution::unvisited(known, walk), 1int, cfg.dependencies@.len() - from,
{
    if from < cfg.dependencies@.len() {
        let alias = cfg.dependencies@[from as int].0;
        let want = config::described(cfg.dependencies@[from as int].1);
        lemma_located_final(options, known, more, walk.turn, root_dir, alias, want);
        if let Ok(place) = resolution::located(
            options,
            known,
            walk.turn,
            root_dir,
            alias,
            want,
        ) {
            let here = resolution::turned(walk, resolution::turn_after(want, walk.turn));
            lemma_turned_sound(known, walk, here.turn);
            let step = match place {
                resolution::LocatedView::Cook { manifest, source } => resolution::visited(
                    options,
                    known,
                    here,
                    manifest,
                    source,
                ),
                resolution::LocatedView::External(data) => resolution::interned(
                    here,
                    data,
                    cfg.project.cpp_standard@,
                ),
            };
            match place {
                resolution::LocatedView::Cook { manifest, source } => {
                    answers_are_final(options, known, more, here, manifest, source);
                    walk_only_grows(options, known, here, manifest, source);
                },
                resolution::LocatedView::External(data) => {
                    lemma_interned_sound(here, data, cfg.project.cpp_standard@);
                },
            }
            if let Ok((next, target)) = step {
                if resolution::edge_conflict(cfg, alias, want, next.nodes[target]) is None {
                    abi::conflict_iff_misfit(
                        abi::AbiPair {
                            parent: cfg.project.name@,
                            child: next.nodes[target].name,
                            context: "parent-child"@,
                        },
                        cfg.project.abi@,
                        next.nodes[target].abi,
                    );
                    assert(next.stack[next.stack.len() - 1] == manifest);
                    assert(next.by_manifest.dom().contains(manifest));
                    assert(next.states.dom().contains(manifest));
                    assert(!finished(next, index));
                    lemma_grows_transitive(walk, here, next, -1);
                    lemma_grows_weaken(walk, next, index);
                    lemma_linked_sound(next, index, target, want.visibility);
                    let after = resolution::linked(next, index, target, want.visibility);
                    lemma_grows_transitive(walk, next, after, index);
                    lemma_grows_counts(known, walk, after, index);
                    lemma_grows_counts(more, walk, after, index);
                    lemma_uses_final(
                        options,
                        known,
                        more,
                        after,
                        manifest,
                        index,
                        cfg,
                        root_dir,
                        from + 1,
                    );
                }
            }
        }
    }
}

}
