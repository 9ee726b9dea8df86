//! The uses that a walk notes are those that the manifests declare.
use vstd::prelude::*;

use crate::abi;
use crate::config;
use crate::config::CookConfig;
use crate::findings::Findings;
use crate::ordered_map;
use crate::packages;
use crate::paths;
use crate::resolution;
use crate::resolution::{LinkView, LocatedView, VisitState, WalkOptions, WalkView};
use crate::resolution_laws;

verus! {

broadcast use vstd::string::group_string_axioms;

// ---------------------------------------------------------------------------
// Declared and noted uses
// ---------------------------------------------------------------------------

/// The number of the package that a dependency turned out to be.
pub open spec fn number_of(walk: WalkView, place: LocatedView) -> Option<int> {
    match place {
        LocatedView::Cook { manifest, .. } => if walk.by_manifest.dom().contains(manifest) {
            Some(walk.by_manifest[manifest])
        } else {
            None
        },
        LocatedView::External(data) => if walk.by_external.dom().contains(data.root_dir) {
            Some(walk.by_external[data.root_dir])
        } else {
            None
        },
    }
}

/// The number of the package that the dependency `k` of a manifest turns out to be
/// when it is looked at after `turn` checkouts.
pub open spec fn declared_at(
    options: WalkOptions,
    known: Findings,
    walk: WalkView,
    cfg: CookConfig,
    root_dir: Seq<char>,
    k: int,
    turn: int,
) -> Option<int> {
    match resolution::located(
        options,
        known,
        turn,
        root_dir,
        cfg.dependencies@[k].0,
        config::described(cfg.dependencies@[k].1),
    ) {
        Ok(place) => number_of(walk, place),
        Err(_) => None,
    }
}

/// `target` is the package that the dependency `k` of a manifest turned out to be
/// at some time of the walk.
pub open spec fn declared(
    options: WalkOptions,
    known: Findings,
    walk: WalkView,
    cfg: CookConfig,
    root_dir: Seq<char>,
    k: int,
    target: int,
) -> bool {
    exists|turn: int|
        0 <= turn <= walk.turn && #[trigger] declared_at(
            options,
            known,
            walk,
            cfg,
            root_dir,
            k,
            turn,
        ) == Some(target)
}

/// The dependency `k` of a manifest is noted as a use of the package `index` and
/// fits the profile that its declaration asks for.
pub open spec fn is_noted(
    options: WalkOptions,
    known: Findings,
    walk: WalkView,
    index: int,
    cfg: CookConfig,
    root_dir: Seq<char>,
    k: int,
) -> bool {
    exists|target: int|
        #![trigger declared(options, known, walk, cfg, root_dir, k, target)]
        declared(options, known, walk, cfg, root_dir, k, target) && 0 <= target
            < walk.nodes.len() && resolution::links_to(walk.nodes[index], target) && abi::abi_fits(
            config::described(cfg.dependencies@[k].1).abi,
            walk.nodes[target].abi,
        )
}

/// Every dependency that a manifest declares, from the one with the number
/// `from` on, is noted as a use of the package `index` and fits the profile that
/// its declaration asks for.
pub open spec fn declared_are_noted(
    options: WalkOptions,
    known: Findings,
    walk: WalkView,
    index: int,
    cfg: CookConfig,
    root_dir: Seq<char>,
    from: nat,
) -> bool {
    forall|k: int|
        from <= k < cfg.dependencies@.len() ==> #[trigger] is_noted(
            options,
            known,
            walk,
            index,
            cfg,
            root_dir,
            k,
        )
}

/// `link` leads to what some dependency of a manifest turned out to be, and is as
/// visible as that dependency is declared to be.
pub open spec fn is_declared(
    options: WalkOptions,
    known: Findings,
    walk: WalkView,
    cfg: CookConfig,
    root_dir: Seq<char>,
    link: LinkView,
) -> bool {
    exists|k: int|
        0 <= k < cfg.dependencies@.len() && #[trigger] declared(
            options,
            known,
            walk,
            cfg,
            root_dir,
            k,
            link.target,
        ) && config::described(cfg.dependencies@[k].1).visibility == link.visibility
}

/// Every noted use of the package `index` is declared in its manifest.
pub open spec fn noted_are_declared(
    options: WalkOptions,
    known: Findings,
    walk: WalkView,
    index: int,
    cfg: CookConfig,
    root_dir: Seq<char>,
) -> bool {
    forall|e: int|
        0 <= e < walk.nodes[index].dependencies.len() ==> is_declared(
            options,
            known,
            walk,
            cfg,
            root_dir,
            #[trigger] walk.nodes[index].dependencies[e],
        )
}

/// The package of `manifest` is what the manifest says.
pub open spec fn is_faithful(
    options: WalkOptions,
    known: Findings,
    walk: WalkView,
    manifest: Seq<char>,
) -> bool {
    let found = ordered_map::lookup(known.manifests@, manifest);
    let index = walk.by_manifest[manifest];
    &&& found matches Some(Ok(cfg))
    &&& paths::parent(options.windows, manifest) is Some
    &&& ({
        let cfg = found->0->Ok_0;
        let root_dir = paths::parent(options.windows, manifest)->0;
        &&& walk.nodes[index].name == cfg.project.name@
        &&& walk.nodes[index].root_dir == root_dir
        &&& walk.nodes[index].abi == cfg.project.abi@
        &&& declared_are_noted(options, known, walk, index, cfg, root_dir, 0)
        &&& noted_are_declared(options, known, walk, index, cfg, root_dir)
    })
}

/// Every package that has been left is what its manifest says.
pub open spec fn all_faithful(options: WalkOptions, known: Findings, walk: WalkView) -> bool {
    forall|m: Seq<char>| #[trigger]
        walk.states.dom().contains(m) && walk.states[m] == VisitState::Visited ==> is_faithful(
            options,
            known,
            walk,
            m,
        )
}

// ---------------------------------------------------------------------------
// What is noted stays noted
// ---------------------------------------------------------------------------

/// The numbers that `a` gives are kept in `b`, and so are its packages, except
/// that the package `open` may have got more uses.
pub open spec fn keeps(a: WalkView, b: WalkView, open: int) -> bool {
    &&& forall|m: Seq<char>| #[trigger]
        a.by_manifest.dom().contains(m) ==> b.by_manifest.dom().contains(m) && b.by_manifest[m]
            == a.by_manifest[m]
    &&& forall|r: Seq<char>| #[trigger]
        a.by_external.dom().contains(r) ==> b.by_external.dom().contains(r) && b.by_external[r]
            == a.by_external[r]
    &&& a.nodes.len() <= b.nodes.len()
    &&& forall|i: int| 0 <= i < a.nodes.len() && i != open ==> #[trigger] b.nodes[i] == a.nodes[i]
    &&& 0 <= open < a.nodes.len() ==> b.nodes[open].abi == a.nodes[open].abi
        && a.nodes[open].dependencies.is_prefix_of(b.nodes[open].dependencies)
    &&& a.turn <= b.turn
}

proof fn lemma_one_declared_stays(
    options: WalkOptions,
    known: Findings,
    a: WalkView,
    b: WalkView,
    open: int,
    cfg: CookConfig,
    root_dir: Seq<char>,
    k: int,
    target: int,
)
    requires
        keeps(a, b, open),
        declared(options, known, a, cfg, root_dir, k, target),
    ensures
        declared(options, known, b, cfg, root_dir, k, target),
{
    let turn = choose|turn: int|
        0 <= turn <= a.turn && #[trigger] declared_at(
            options,
            known,
            a,
            cfg,
            root_dir,
            k,
            turn,
        ) == Some(target);
    assert(declared_at(options, known, b, cfg, root_dir, k, turn) == Some(target));
}

proof fn lemma_noted_stays(
    options: WalkOptions,
    known: Findings,
    a: WalkView,
    b: WalkView,
    open: int,
    index: int,
    cfg: CookConfig,
    root_dir: Seq<char>,
    from: nat,
)
    requires
        resolution_laws::sound(a),
        keeps(a, b, open),
        0 <= index < a.nodes.len(),
        declared_are_noted(options, known, a, index, cfg, root_dir, from),
    ensures
        declared_are_noted(options, known, b, index, cfg, root_dir, from),
{
    assert forall|k: int| from <= k < cfg.dependencies@.len() implies #[trigger] is_noted(
        options,
        known,
        b,
        index,
        cfg,
        root_dir,
        k,
    ) by {
        assert(is_noted(options, known, a, index, cfg, root_dir, k));
        let t = choose|t: int|
            #![trigger declared(options, known, a, cfg, root_dir, k, t)]
            declared(options, known, a, cfg, root_dir, k, t) && 0 <= t < a.nodes.len()
                && resolution::links_to(a.nodes[index], t) && abi::abi_fits(
                config::described(cfg.dependencies@[k].1).abi,
                a.nodes[t].abi,
            );
        lemma_one_declared_stays(options, known, a, b, open, cfg, root_dir, k, t);
        assert(b.nodes[t].abi == a.nodes[t].abi);
        let x = a.nodes[index].dependencies;
        let y = b.nodes[index].dependencies;
        let i = choose|i: int| 0 <= i < x.len() && x[i].target == t;
        assert(x.is_prefix_of(y)) by {
            if index != open {
                assert(x.subrange(0, x.len() as int) =~= x);
            }
        }
        assert(y.subrange(0, x.len() as int)[i] == y[i]);
        assert(y[i].target == t);
    }
}

proof fn lemma_declared_stays(
    options: WalkOptions,
    known: Findings,
    a: WalkView,
    b: WalkView,
    open: int,
    cfg: CookConfig,
    root_dir: Seq<char>,
    link: LinkView,
)
    requires
        keeps(a, b, open),
        is_declared(options, known, a, cfg, root_dir, link),
    ensures
        is_declared(options, known, b, cfg, root_dir, link),
{
    let k = choose|k: int|
        0 <= k < cfg.dependencies@.len() && #[trigger] declared(
            options,
            known,
            a,
            cfg,
            root_dir,
            k,
            link.target,
        ) && config::described(cfg.dependencies@[k].1).visibility == link.visibility;
    lemma_one_declared_stays(options, known, a, b, open, cfg, root_dir, k, link.target);
}

proof fn lemma_faithful_stays(
    options: WalkOptions,
    known: Findings,
    a: WalkView,
    b: WalkView,
    open: int,
    manifest: Seq<char>,
)
    requires
        resolution_laws::sound(a),
        keeps(a, b, open),
        a.by_manifest.dom().contains(manifest),
        0 <= a.by_manifest[manifest] < a.nodes.len(),
        a.by_manifest[manifest] != open,
        is_faithful(options, known, a, manifest),
    ensures
        is_faithful(options, known, b, manifest),
{
    let cfg = ordered_map::lookup(known.manifests@, manifest)->0->Ok_0;
    let root_dir = paths::parent(options.windows, manifest)->0;
    let index = a.by_manifest[manifest];
    lemma_noted_stays(options, known, a, b, open, index, cfg, root_dir, 0);
    assert(b.nodes[index] == a.nodes[index]);
    assert forall|e: int| 0 <= e < b.nodes[index].dependencies.len() implies is_declared(
        options,
        known,
        b,
        cfg,
        root_dir,
        #[trigger] b.nodes[index].dependencies[e],
    ) by {
        lemma_declared_stays(
            options,
            known,
            a,
            b,
            open,
            cfg,
            root_dir,
            a.nodes[index].dependencies[e],
        );
    }
}

proof fn lemma_all_stay(
    options: WalkOptions,
    known: Findings,
    a: WalkView,
    b: WalkView,
    open: int,
)
    requires
        resolution_laws::sound(a),
        keeps(a, b, open),
        !resolution_laws::finished(a, open),
        all_faithful(options, known, a),
    ensures
        forall|m: Seq<char>| #[trigger]
            a.states.dom().contains(m) && a.states[m] == VisitState::Visited ==> is_faithful(
                options,
                known,
                b,
                m,
            ),
{
    assert forall|m: Seq<char>| #[trigger]
        a.states.dom().contains(m) && a.states[m] == VisitState::Visited implies is_faithful(
        options,
        known,
        b,
        m,
    ) by {
        assert(a.by_manifest.dom().contains(m));
        assert(resolution_laws::finished(a, a.by_manifest[m]));
        lemma_faithful_stays(options, known, a, b, open, m);
    }
}

// ---------------------------------------------------------------------------
// The walk notes what is declared
// ---------------------------------------------------------------------------

proof fn lemma_visit_faithful(
    options: WalkOptions,
    known: Findings,
    walk: WalkView,
    manifest: Seq<char>,
    source: packages::OriginView,
)
    requires
        resolution_laws::sound(walk),
        all_faithful(options, known, walk),
    ensures
        resolution::visited(options, known, walk, manifest, source) matches Ok((after, index))
            ==> all_faithful(options, known, after),
    decreases resolution::unvisited(known, walk), 0int, 0int,
{
    if walk.states.dom().contains(manifest) {
    } else if let Some(Ok(cfg)) = ordered_map::lookup(known.manifests@, manifest) {
        if let Some(root_dir) = paths::parent(options.windows, manifest) {
            let index = walk.nodes.len() as int;
            let node = resolution::cook_node(cfg, root_dir, source);
            let inside = resolution::entered(walk, manifest, node);
            resolution_laws::lemma_entered_sound(walk, manifest, node);
            resolution::lemma_entering_counts(known, walk, inside, manifest);
            assert(inside.by_manifest.dom().contains(manifest));
            assert(keeps(walk, inside, -1)) by {
                assert forall|m: Seq<char>| #[trigger]
                    walk.by_manifest.dom().contains(m) implies inside.by_manifest.dom().contains(m)
                    && inside.by_manifest[m] == walk.by_manifest[m] by {
                    assert(walk.states.dom().contains(m));
                }
            }
            assert(!resolution_laws::finished(walk, -1)) by {
                if resolution_laws::finished(walk, -1) {
                    let q = choose|q: int|
                        0 <= q < walk.post_order.len() && q < walk.post_order.len()
                            && walk.post_order[q] == -1;
                    assert(0 <= walk.post_order[q]);
                }
            }
            lemma_all_stay(options, known, walk, inside, -1);
            assert forall|m: Seq<char>| #[trigger]
                inside.states.dom().contains(m) && inside.states[m]
                    == VisitState::Visited implies is_faithful(options, known, inside, m) by {
                assert(walk.states.dom().contains(m));
            }
            resolution_laws::uses_only_grow(
                options,
                known,
                inside,
                manifest,
                index,
                cfg,
                root_dir,
                0,
            );
            lemma_uses_faithful(options, known, inside, manifest, index, cfg, root_dir, 0);
            if let Ok(after) = resolution::visited_dependencies(
                options,
                known,
                inside,
                index,
                cfg,
                root_dir,
                0,
            ) {
                let done = resolution::left(after, manifest, index);
                assert(after.by_manifest.dom().contains(manifest));
                assert(keeps(after, done, -1));
                assert forall|m: Seq<char>| #[trigger]
                    done.states.dom().contains(m) && done.states[m]
                        == VisitState::Visited implies is_faithful(options, known, done, m) by {
                    if m == manifest {
                        lemma_noted_stays(
                            options,
                            known,
                            after,
                            done,
                            -1,
                            index,
                            cfg,
                            root_dir,
                            0,
                        );
                        assert forall|e: int|
                            0 <= e < done.nodes[index].dependencies.len() implies is_declared(
                            options,
                            known,
                            done,
                            cfg,
                            root_dir,
                            #[trigger] done.nodes[index].dependencies[e],
                        ) by {
                            lemma_declared_stays(
                                options,
                                known,
                                after,
                                done,
                                -1,
                                cfg,
                                root_dir,
                                after.nodes[index].dependencies[e],
                            );
                        }
                        assert(inside.nodes[index] == node);
                    } else {
                        assert(after.states.dom().contains(m));
                        assert(after.by_manifest.dom().contains(m));
                        lemma_faithful_stays(options, known, after, done, -1, m);
                    }
                }
            }
        }
    }
}

#[verifier::rlimit(30)]
proof fn lemma_uses_faithful(
    options: WalkOptions,
    known: Findings,
    walk: WalkView,
    manifest: Seq<char>,
    index: int,
    cfg: CookConfig,
    root_dir: Seq<char>,
    from: nat,
)
    requires
        resolution_laws::sound(walk),
        all_faithful(options, known, walk),
        walk.stack.len() > 0,
        walk.stack.last() == manifest,
        walk.by_manifest.dom().contains(manifest),
        walk.by_manifest[manifest] == index,
        walk.nodes[index].abi == cfg.project.abi@,
        noted_are_declared(options, known, walk, index, cfg, root_dir),
    ensures
        resolution::visited_dependencies(
            options,
            known,
            walk,
            index,
            cfg,
            root_dir,
            from,
        ) matches Ok(after) ==> {
            &&& all_faithful(options, known, after)
            &&& declared_are_noted(options, known, after, index, cfg, root_dir, from)
            &&& noted_are_declared(options, known, after, index, cfg, root_dir)
        },
    decreases resolution::unvisited(known, walk), 1int, cfg.dependencies@.len() - from,
{
    if from < cfg.dependencies@.len() {
        let alias = cfg.dependencies@[from as int].0;
        let want = config::described(cfg.dependencies@[from as int].1);
        if let Ok(place) = resolution::located(
            options,
            known,
            walk.turn,
            root_dir,
            alias,
            want,
        ) {
            let here = resolution::turned(walk, resolution::turn_after(want, walk.turn));
            resolution_laws::lemma_turned_sound(known, walk, here.turn);
            assert(keeps(walk, here, -1));
            let step = match place {
                LocatedView::Cook { manifest, source } => resolution::visited(
                    options,
                    known,
                    here,
                    manifest,
                    source,
                ),
                LocatedView::External(data) => resolution::interned(
                    here,
                    data,
                    cfg.project.cpp_standard@,
                ),
            };
            assert(walk.stack[walk.stack.len() - 1] == manifest);
            assert(walk.states.dom().contains(manifest));
            assert(!resolution_laws::finished(walk, index));
            assert(!resolution_laws::finished(walk, -1)) by {
                if resolution_laws::finished(walk, -1) {
                    let q = choose|q: int|
                        0 <= q < walk.post_order.len() && q < walk.post_order.len()
                            && walk.post_order[q] == -1;
                    assert(0 <= walk.post_order[q]);
                }
            }
            lemma_all_stay(options, known, walk, here, -1);
            assert(all_faithful(options, known, here));
            match place {
                LocatedView::Cook { manifest, source } => {
                    resolution_laws::walk_only_grows(options, known, here, manifest, source);
                    lemma_visit_faithful(options, known, here, manifest, source);
                },
                LocatedView::External(data) => {
                    resolution_laws::lemma_interned_sound(here, data, cfg.project.cpp_standard@);
                    if let Ok((next, target)) = step {
                        assert(keeps(walk, next, -1));
                        lemma_all_stay(options, known, walk, next, -1);
                        assert(all_faithful(options, known, next));
                    }
                },
            }
            if let Ok((next, target)) = step {
                if resolution::edge_conflict(cfg, alias, want, next.nodes[target]) is None {
                    abi::conflict_iff_misfit(
                        abi::AbiPair {
                            parent: cfg.project.name@,
                            child: next.nodes[target].name,
                            context: "parent-child"@,
                        },
                        cfg.project.abi@,
                        next.nodes[target].abi,
                    );
                    abi::conflict_iff_misfit(
                        abi::AbiPair {
                            parent: alias,
                            child: next.nodes[target].name,
                            context: "dependency-constraint"@,
                        },
                        want.abi,
                        next.nodes[target].abi,
                    );
                    assert(next.stack[next.stack.len() - 1] == manifest);
                    assert(next.by_manifest.dom().contains(manifest));
                    assert(next.states.dom().contains(manifest));
                    assert(!resolution_laws::finished(next, index));
                    assert(keeps(walk, next, -1));
                    assert(number_of(next, place) == Some(target));
                    resolution_laws::lemma_grows_transitive(walk, here, next, -1);
                    resolution_laws::lemma_grows_weaken(walk, next, index);
                    resolution_laws::lemma_linked_sound(next, index, target, want.visibility);
                    let after = resolution::linked(next, index, target, want.visibility);
                    assert(keeps(next, after, index));
                    assert(resolution::links_to(after.nodes[index], target)) by {
                        let old_links = next.nodes[index].dependencies;
                        if !resolution::links_to(next.nodes[index], target) {
                            assert(after.nodes[index].dependencies[old_links.len() as int].target
                                == target);
                        }
                    }
                    lemma_all_stay(options, known, next, after, index);
                    assert(all_faithful(options, known, after));
                    assert(declared_at(
                        options,
                        known,
                        next,
                        cfg,
                        root_dir,
                        from as int,
                        walk.turn,
                    ) == Some(target));
                    assert(declared(options, known, next, cfg, root_dir, from as int, target));
                    lemma_one_declared_stays(
                        options,
                        known,
                        next,
                        after,
                        index,
                        cfg,
                        root_dir,
                        from as int,
                        target,
                    );
                    lemma_linked_declared(
                        options,
                        known,
                        walk,
                        next,
                        index,
                        target,
                        cfg,
                        root_dir,
                        from,
                    );
                    resolution_laws::lemma_grows_transitive(walk, next, after, index);
                    resolution_laws::lemma_grows_counts(known, walk, after, index);
                    resolution_laws::uses_only_grow(
                        options,
                        known,
                        after,
                        manifest,
                        index,
                        cfg,
                        root_dir,
                        from + 1,
                    );
                    lemma_uses_faithful(
                        options,
                        known,
                        after,
                        manifest,
                        index,
                        cfg,
                        root_dir,
                        from + 1,
                    );
                    if let Ok(end) = resolution::visited_dependencies(
                        options,
                        known,
                        after,
                        index,
                        cfg,
                        root_dir,
                        from + 1,
                    ) {
                        assert(keeps(after, end, index));
                        lemma_one_noted(
                            options,
                            known,
                            after,
                            end,
                            index,
                            target,
                            cfg,
                            root_dir,
                            from,
                        );
                    }
                }
            }
        }
    }
}

proof fn lemma_linked_declared(
    options: WalkOptions,
    known: Findings,
    walk: WalkView,
    next: WalkView,
    index: int,
    target: int,
    cfg: CookConfig,
    root_dir: Seq<char>,
    from: nat,
)
    requires
        keeps(walk, next, -1),
        0 <= index < walk.nodes.len(),
        from < cfg.dependencies@.len(),
        noted_are_declared(options, known, walk, index, cfg, root_dir),
        declared(options, known, next, cfg, root_dir, from as int, target),
    ensures
        ({
            let want = config::described(cfg.dependencies@[from as int].1);
            let after = resolution::linked(next, index, target, want.visibility);
            noted_are_declared(options, known, after, index, cfg, root_dir)
        }),
{
    let want = config::described(cfg.dependencies@[from as int].1);
    let after = resolution::linked(next, index, target, want.visibility);
    let x = walk.nodes[index].dependencies;
    let y = after.nodes[index].dependencies;
    assert(next.nodes[index] == walk.nodes[index]);
    assert(keeps(next, after, index)) by {
        assert(y.subrange(0, x.len() as int) =~= x);
    }
    assert forall|e: int| 0 <= e < y.len() implies is_declared(
        options,
        known,
        after,
        cfg,
        root_dir,
        #[trigger] after.nodes[index].dependencies[e],
    ) by {
        if e < x.len() {
            assert(y[e] == x[e]);
            lemma_declared_stays(
                options,
                known,
                walk,
                next,
                -1,
                cfg,
                root_dir,
                walk.nodes[index].dependencies[e],
            );
            lemma_declared_stays(
                options,
                known,
                next,
                after,
                index,
                cfg,
                root_dir,
                x[e],
            );
        } else {
            let link = LinkView { target, visibility: want.visibility };
            assert(y[e] == link);
            assert(declared(options, known, next, cfg, root_dir, from as int, link.target));
            assert(config::described(cfg.dependencies@[from as int].1).visibility
                == link.visibility);
            assert(is_declared(options, known, next, cfg, root_dir, link));
            lemma_declared_stays(options, known, next, after, index, cfg, root_dir, link);
        }
    }
}

proof fn lemma_one_noted(
    options: WalkOptions,
    known: Findings,
    after: WalkView,
    end: WalkView,
    index: int,
    target: int,
    cfg: CookConfig,
    root_dir: Seq<char>,
    from: nat,
)
    requires
        keeps(after, end, index),
        0 <= index < after.nodes.len(),
        resolution::links_to(after.nodes[index], target),
        declared(options, known, after, cfg, root_dir, from as int, target),
        0 <= target < after.nodes.len(),
        from < cfg.dependencies@.len(),
        abi::abi_fits(
            config::described(cfg.dependencies@[from as int].1).abi,
            after.nodes[target].abi,
        ),
        declared_are_noted(options, known, end, index, cfg, root_dir, from + 1),
    ensures
        declared_are_noted(options, known, end, index, cfg, root_dir, from),
{
    let x = after.nodes[index].dependencies;
    let y = end.nodes[index].dependencies;
    let i = choose|i: int| 0 <= i < x.len() && x[i].target == target;
    assert(y.subrange(0, x.len() as int)[i] == y[i]);
    assert(y[i].target == target);
    lemma_one_declared_stays(
        options,
        known,
        after,
        end,
        index,
        cfg,
        root_dir,
        from as int,
        target,
    );
    assert(end.nodes[target].abi == after.nodes[target].abi);
    assert(is_noted(options, known, end, index, cfg, root_dir, from as int));
}

/// In a finished walk, the package of every manifest that was met bears the name
/// and the profile that its manifest gives, and uses exactly the packages that
/// the dependencies in its manifest turned out to be, each as visible as a
/// declaration of it says. Each of those fits the profile that its declaration asks for.
pub proof fn packages_follow_their_manifests(
    options: WalkOptions,
    known: Findings,
    root_manifest: Seq<char>,
    walk: WalkView,
    root: int,
    manifest: Seq<char>,
)
    requires
        resolution::visited(
            options,
            known,
            resolution::start(),
            root_manifest,
            packages::OriginView::Root,
        ) == Ok::<(WalkView, int), crate::findings::StopView>((walk, root)),
        walk.by_manifest.dom().contains(manifest),
    ensures
        is_faithful(options, known, walk, manifest),
{
    resolution_laws::lemma_start_sound();
    resolution_laws::walk_only_grows(
        options,
        known,
        resolution::start(),
        root_manifest,
        packages::OriginView::Root,
    );
    lemma_visit_faithful(
        options,
        known,
        resolution::start(),
        root_manifest,
        packages::OriginView::Root,
    );
    assert(walk.states.dom().contains(manifest));
    if walk.states[manifest] == VisitState::Visiting {
        let k = choose|k: int| 0 <= k < walk.stack.len() && walk.stack[k] == manifest;
        assert(walk.stack == resolution::start().stack);
    }
}

}
