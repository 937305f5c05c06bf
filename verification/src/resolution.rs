//! Dependency resolution as a whole. Recursive depth-first resolution
//! records a package, then resolves each dependency that it follows, in
//! order, before the next; the `DependencyWalker` does the same with an
//! explicit stack. Given the same reader of manifests, a run of the
//! walker ends exactly as the recursion does: with the same packages in
//! the same order, or with the same error.

use vstd::prelude::*;

use crate::package::{
    followed_refs, package_names, pending_refs, pending_refs_follow_manifest_order,
    referenced_dependency, visit_state, Dependency, DependencyInfo, DependencyRef, PackageError,
    SourceManifest,
};

verus! {

/// The outcome of resolution: the reached packages in order, or the error
/// that stopped it; `None` where the bound on its work ran out first.
pub type Resolution = Option<Result<Seq<DependencyInfo>, PackageError>>;

/// The dependencies that resolution follows of a package with manifest
/// `m`, in order: its dependencies, then (in development mode) its
/// development dependencies.
pub open spec fn followed_dependencies(m: SourceManifest, dev_mode: bool) -> Seq<Dependency> {
    m.dependencies@.map_values(|e: (String, Dependency)| e.1) + if dev_mode {
        m.dev_dependencies@.map_values(|e: (String, Dependency)| e.1)
    } else {
        seq![]
    }
}

/// Recursive resolution of package `info` after the packages `out`, with
/// at most `fuel` nested packages: a package whose name has been reached is
/// skipped; otherwise it is recorded, then its followed dependencies are
/// resolved in order. `read(parent, dep)` is the package that dependency
/// `dep` of `parent` names, as read from disk.
pub open spec fn resolve_package(
    info: DependencyInfo,
    out: Seq<DependencyInfo>,
    dev_mode: bool,
    read: spec_fn(DependencyInfo, Dependency) -> DependencyInfo,
    fuel: nat,
) -> Resolution
    decreases fuel, 0nat,
{
    if fuel == 0 {
        None
    } else if package_names(out).contains(info.source_manifest.package_name@) {
        Some(Ok(out))
    } else {
        resolve_dependencies(
            info,
            followed_dependencies(info.source_manifest, dev_mode),
            0,
            out.push(info),
            dev_mode,
            read,
            (fuel - 1) as nat,
        )
    }
}

/// Recursive resolution of the dependencies `deps` of `parent` from the
/// `i`-th on: a dependency that is not local stops resolution with
/// `NonLocalDependency`; otherwise the package it names is resolved, then
/// the next dependency.
pub open spec fn resolve_dependencies(
    parent: DependencyInfo,
    deps: Seq<Dependency>,
    i: nat,
    out: Seq<DependencyInfo>,
    dev_mode: bool,
    read: spec_fn(DependencyInfo, Dependency) -> DependencyInfo,
    fuel: nat,
) -> Resolution
    decreases fuel, deps.len() + 1 - i,
{
    if i >= deps.len() {
        Some(Ok(out))
    } else if !(deps[i as int].kind is Local) {
        Some(Err(PackageError::NonLocalDependency))
    } else {
        match resolve_package(read(parent, deps[i as int]), out, dev_mode, read, fuel) {
            Some(Ok(o)) => resolve_dependencies(parent, deps, i + 1, o, dev_mode, read, fuel),
            r => r,
        }
    }
}

/// A run of the walker of at most `steps` steps from the reached packages
/// and pending references given: each step takes up the last pending
/// reference (`next_request`), stops with `NonLocalDependency` where it
/// names a dependency that is not local, and otherwise hands the package
/// read for it to `visit`. The run ends when nothing is pending.
pub open spec fn run_walker(
    packages: Seq<DependencyInfo>,
    pending: Seq<DependencyRef>,
    dev_mode: bool,
    read: spec_fn(DependencyInfo, Dependency) -> DependencyInfo,
    steps: nat,
) -> Resolution
    decreases steps,
{
    if pending.len() == 0 {
        Some(Ok(packages))
    } else if steps == 0 {
        None
    } else {
        let d = pending.last();
        let parent = packages[d.package as int];
        let dep = referenced_dependency(parent.source_manifest, d).1;
        if !(dep.kind is Local) {
            Some(Err(PackageError::NonLocalDependency))
        } else {
            let next = visit_state(packages, pending.drop_last(), dev_mode, read(parent, dep));
            run_walker(next.0, next.1, dev_mode, read, (steps - 1) as nat)
        }
    }
}

/// The reached packages and pending references after at most `steps`
/// steps of a run (see `run_walker`): unchanged once nothing is pending;
/// where the next dependency is not local, `next_request` has removed it
/// and the run stops there.
pub open spec fn walker_state_after(
    packages: Seq<DependencyInfo>,
    pending: Seq<DependencyRef>,
    dev_mode: bool,
    read: spec_fn(DependencyInfo, Dependency) -> DependencyInfo,
    steps: nat,
) -> (Seq<DependencyInfo>, Seq<DependencyRef>)
    decreases steps,
{
    if pending.len() == 0 || steps == 0 {
        (packages, pending)
    } else {
        let d = pending.last();
        let parent = packages[d.package as int];
        let dep = referenced_dependency(parent.source_manifest, d).1;
        if !(dep.kind is Local) {
            (packages, pending.drop_last())
        } else {
            let next = visit_state(packages, pending.drop_last(), dev_mode, read(parent, dep));
            walker_state_after(next.0, next.1, dev_mode, read, (steps - 1) as nat)
        }
    }
}

/// Resolution only adds packages: after any number of steps of a run,
/// whether it has ended, stopped at a dependency that is not local, or is
/// still going, the packages reached before are all still there, in their
/// places, ahead of those added, and so is every name reached before. A
/// run that ends well ends with the packages of that state.
pub proof fn resolution_only_adds_packages(
    packages: Seq<DependencyInfo>,
    pending: Seq<DependencyRef>,
    dev_mode: bool,
    read: spec_fn(DependencyInfo, Dependency) -> DependencyInfo,
    steps: nat,
)
    ensures
        ({
            let after = walker_state_after(packages, pending, dev_mode, read, steps).0;
            &&& packages.len() <= after.len()
            &&& after.subrange(0, packages.len() as int) == packages
            &&& forall|name: Seq<char>|
                package_names(packages).contains(name) ==> #[trigger] package_names(after).contains(
                    name,
                )
        }),
        run_walker(packages, pending, dev_mode, read, steps) matches Some(Ok(o)) ==> o
            == walker_state_after(packages, pending, dev_mode, read, steps).0,
    decreases steps,
{
    let after = walker_state_after(packages, pending, dev_mode, read, steps).0;
    if pending.len() > 0 && steps > 0 {
        let d = pending.last();
        let parent = packages[d.package as int];
        let dep = referenced_dependency(parent.source_manifest, d).1;
        if dep.kind is Local {
            let next = visit_state(packages, pending.drop_last(), dev_mode, read(parent, dep));
            resolution_only_adds_packages(next.0, next.1, dev_mode, read, (steps - 1) as nat);
            assert(next.0.subrange(0, packages.len() as int) =~= packages);
            assert(after.subrange(0, packages.len() as int) =~= packages) by {
                assert forall|j: int| 0 <= j < packages.len() implies after[j] == packages[j] by {
                    assert(after.subrange(0, next.0.len() as int)[j] == next.0[j]);
                }
            }
        }
    }
    assert(after.subrange(0, packages.len() as int) =~= packages);
    assert forall|name: Seq<char>| package_names(packages).contains(name) implies #[trigger] package_names(
        after,
    ).contains(name) by {
        let j = choose|j: int| 0 <= j < package_names(packages).len() && package_names(packages)[j] == name;
        assert(after[j] == packages[j]);
        assert(package_names(after)[j] == name);
    }
}

/// A run that ends within `k` steps ends the same way with more.
proof fn run_more_steps(
    ps: Seq<DependencyInfo>,
    st: Seq<DependencyRef>,
    dev_mode: bool,
    read: spec_fn(DependencyInfo, Dependency) -> DependencyInfo,
    k: nat,
    j: nat,
)
    requires
        run_walker(ps, st, dev_mode, read, k) is Some,
    ensures
        run_walker(ps, st, dev_mode, read, k + j) == run_walker(ps, st, dev_mode, read, k),
    decreases k,
{
    if st.len() > 0 && k > 0 {
        let d = st.last();
        let parent = ps[d.package as int];
        let dep = referenced_dependency(parent.source_manifest, d).1;
        if dep.kind is Local {
            let next = visit_state(ps, st.drop_last(), dev_mode, read(parent, dep));
            run_more_steps(next.0, next.1, dev_mode, read, (k - 1) as nat, j);
            assert((k + j - 1) as nat == (k - 1) as nat + j);
        }
    }
}

/// The packages that a run ends with begin with those it started from.
proof fn run_extends(
    ps: Seq<DependencyInfo>,
    st: Seq<DependencyRef>,
    dev_mode: bool,
    read: spec_fn(DependencyInfo, Dependency) -> DependencyInfo,
    k: nat,
    o: Seq<DependencyInfo>,
)
    requires
        run_walker(ps, st, dev_mode, read, k) == Some(Ok::<Seq<DependencyInfo>, PackageError>(o)),
    ensures
        ps.len() <= o.len(),
        forall|j: int| 0 <= j < ps.len() ==> o[j] == ps[j],
    decreases k,
{
    if st.len() > 0 {
        let d = st.last();
        let parent = ps[d.package as int];
        let dep = referenced_dependency(parent.source_manifest, d).1;
        let next = visit_state(ps, st.drop_last(), dev_mode, read(parent, dep));
        run_extends(next.0, next.1, dev_mode, read, (k - 1) as nat, o);
    }
}

/// What lies below the pending references `top` waits until they are all
/// taken up: a run from `base + top` first does what a run from `top`
/// does, then goes on from `base`.
proof fn run_frame(
    ps: Seq<DependencyInfo>,
    base: Seq<DependencyRef>,
    top: Seq<DependencyRef>,
    dev_mode: bool,
    read: spec_fn(DependencyInfo, Dependency) -> DependencyInfo,
    k1: nat,
    k2: nat,
)
    requires
        run_walker(ps, top, dev_mode, read, k1) is Some,
        run_walker(ps, top, dev_mode, read, k1) matches Some(Ok(o)) ==> run_walker(
            o,
            base,
            dev_mode,
            read,
            k2,
        ) is Some,
    ensures
        run_walker(ps, top, dev_mode, read, k1) matches Some(Ok(o)) ==> run_walker(
            ps,
            base + top,
            dev_mode,
            read,
            k1 + k2,
        ) == run_walker(o, base, dev_mode, read, k2),
        run_walker(ps, top, dev_mode, read, k1) matches Some(Err(e)) ==> run_walker(
            ps,
            base + top,
            dev_mode,
            read,
            k1 + k2,
        ) == Some(Err::<Seq<DependencyInfo>, PackageError>(e)),
    decreases k1,
{
    if top.len() == 0 {
        assert(base + top =~= base);
        run_more_steps(ps, base, dev_mode, read, k2, k1);
        assert(k2 + k1 == k1 + k2);
    } else {
        let all = base + top;
        assert(all.last() == top.last());
        assert(all.drop_last() =~= base + top.drop_last());
        let d = top.last();
        let parent = ps[d.package as int];
        let dep = referenced_dependency(parent.source_manifest, d).1;
        if dep.kind is Local {
            let child = read(parent, dep);
            let next_top = visit_state(ps, top.drop_last(), dev_mode, child);
            let next_all = visit_state(ps, all.drop_last(), dev_mode, child);
            assert(next_all.0 == next_top.0);
            assert(next_all.1 =~= base + next_top.1);
            run_frame(next_top.0, base, next_top.1, dev_mode, read, (k1 - 1) as nat, k2);
            assert((k1 + k2 - 1) as nat == (k1 - 1) as nat + k2);
        }
    }
}

/// The packages have distinct names, all of them in `names`.
pub open spec fn names_within(ps: Seq<DependencyInfo>, names: Set<Seq<char>>) -> bool {
    &&& package_names(ps).no_duplicates()
    &&& forall|j: int| 0 <= j < ps.len() ==> names.contains(#[trigger] ps[j].source_manifest.package_name@)
}

/// Every package that `read` yields has its name in `names`.
pub open spec fn reads_within(
    read: spec_fn(DependencyInfo, Dependency) -> DependencyInfo,
    names: Set<Seq<char>>,
) -> bool {
    forall|parent: DependencyInfo, dep: Dependency|
        names.contains(#[trigger] read(parent, dep).source_manifest.package_name@)
}

/// Packages with distinct names drawn from a finite set are no more than
/// the set's members.
proof fn names_within_bound(ps: Seq<DependencyInfo>, names: Set<Seq<char>>)
    requires
        names.finite(),
        names_within(ps, names),
    ensures
        ps.len() <= names.len(),
{
    let s = package_names(ps);
    s.unique_seq_to_set();
    assert(s.to_set().subset_of(names)) by {
        assert forall|a: Seq<char>| s.to_set().contains(a) implies names.contains(a) by {
            let j = choose|j: int| 0 <= j < s.len() && s[j] == a;
            assert(names.contains(ps[j].source_manifest.package_name@));
        }
    }
    vstd::set_lib::lemma_len_subset(s.to_set(), names);
}

/// Taking up a package read by `read` keeps the names distinct and within
/// `names`.
proof fn visit_within(
    ps: Seq<DependencyInfo>,
    st: Seq<DependencyRef>,
    dev_mode: bool,
    info: DependencyInfo,
    names: Set<Seq<char>>,
)
    requires
        names_within(ps, names),
        names.contains(info.source_manifest.package_name@),
    ensures
        names_within(visit_state(ps, st, dev_mode, info).0, names),
{
    let name = info.source_manifest.package_name@;
    if !package_names(ps).contains(name) {
        let ps2 = ps.push(info);
        assert(package_names(ps2) =~= package_names(ps).push(name));
        assert forall|j: int| 0 <= j < ps2.len() implies names.contains(
            #[trigger] ps2[j].source_manifest.package_name@,
        ) by {
            if j < ps.len() {
                assert(ps2[j] == ps[j]);
            }
        }
    }
}

/// A run keeps the names of the packages distinct and within `names`.
proof fn run_within(
    ps: Seq<DependencyInfo>,
    st: Seq<DependencyRef>,
    dev_mode: bool,
    read: spec_fn(DependencyInfo, Dependency) -> DependencyInfo,
    names: Set<Seq<char>>,
    k: nat,
    o: Seq<DependencyInfo>,
)
    requires
        run_walker(ps, st, dev_mode, read, k) == Some(Ok::<Seq<DependencyInfo>, PackageError>(o)),
        names_within(ps, names),
        reads_within(read, names),
    ensures
        names_within(o, names),
    decreases k,
{
    if st.len() > 0 {
        let d = st.last();
        let parent = ps[d.package as int];
        let dep = referenced_dependency(parent.source_manifest, d).1;
        let child = read(parent, dep);
        let next = visit_state(ps, st.drop_last(), dev_mode, child);
        visit_within(ps, st.drop_last(), dev_mode, child, names);
        run_within(next.0, next.1, dev_mode, read, names, (k - 1) as nat, o);
    }
}

/// The pending references to the followed dependencies of package `p`
/// from the `i`-th on, stacked so that the `i`-th is taken up next.
pub open spec fn refs_from(p: usize, m: SourceManifest, dev_mode: bool, i: nat) -> Seq<
    DependencyRef,
> {
    let refs = followed_refs(p, m, dev_mode);
    refs.subrange(i as int, refs.len() as int).reverse()
}

/// The followed references name the followed dependencies, in order.
proof fn followed_refs_name_dependencies(p: usize, m: SourceManifest, dev_mode: bool)
    ensures
        followed_refs(p, m, dev_mode).len() == followed_dependencies(m, dev_mode).len(),
        forall|i: int|
            0 <= i < followed_dependencies(m, dev_mode).len() ==> {
                &&& (#[trigger] followed_refs(p, m, dev_mode)[i]).package == p
                &&& referenced_dependency(m, followed_refs(p, m, dev_mode)[i]).1
                    == followed_dependencies(m, dev_mode)[i]
            },
{
    let nd = m.dependencies@.len();
    assert(m.dependencies.len() == nd);
    assert(m.dev_dependencies.len() == m.dev_dependencies@.len());
    let refs = followed_refs(p, m, dev_mode);
    let deps = followed_dependencies(m, dev_mode);
    assert forall|i: int| 0 <= i < deps.len() implies {
        &&& (#[trigger] refs[i]).package == p
        &&& referenced_dependency(m, refs[i]).1 == deps[i]
    } by {
        if i < nd {
            assert(refs[i].index as int == i);
        } else {
            assert(refs[i].index as int == i - nd);
        }
    }
}

/// Right after a package is recorded, its pending references are those to
/// all of its followed dependencies.
proof fn pending_refs_are_refs_from_start(p: usize, m: SourceManifest, dev_mode: bool)
    ensures
        pending_refs(p, m, dev_mode) == refs_from(p, m, dev_mode, 0),
{
    pending_refs_follow_manifest_order(p, m, dev_mode);
    let s = pending_refs(p, m, dev_mode);
    let f = followed_refs(p, m, dev_mode);
    assert(f.subrange(0, f.len() as int) =~= f);
    assert(s.len() == f.len());
    assert forall|i: int| 0 <= i < s.len() implies #[trigger] f.reverse()[i] == s[i] by {
        assert(f[s.len() - 1 - i] == s.reverse()[s.len() - 1 - i]);
    }
    assert(f.reverse() =~= s);
}

/// Taking up the next of the pending followed references leaves those
/// after it.
proof fn refs_from_step(p: usize, m: SourceManifest, dev_mode: bool, i: nat)
    requires
        i < followed_refs(p, m, dev_mode).len(),
    ensures
        refs_from(p, m, dev_mode, i).len() > 0,
        refs_from(p, m, dev_mode, i).last() == followed_refs(p, m, dev_mode)[i as int],
        refs_from(p, m, dev_mode, i).drop_last() == refs_from(p, m, dev_mode, i + 1),
{
    let f = followed_refs(p, m, dev_mode);
    let a = refs_from(p, m, dev_mode, i);
    let b = refs_from(p, m, dev_mode, i + 1);
    assert(a.len() == f.len() - i);
    assert(a.drop_last() =~= b);
}

/// Recursive resolution of a package is a run of the walker from the
/// state that taking the package up leaves.
proof fn package_as_run(
    info: DependencyInfo,
    out: Seq<DependencyInfo>,
    dev_mode: bool,
    read: spec_fn(DependencyInfo, Dependency) -> DependencyInfo,
    names: Set<Seq<char>>,
    fuel: nat,
) -> (k: nat)
    requires
        resolve_package(info, out, dev_mode, read, fuel) is Some,
        names.finite(),
        names.len() < usize::MAX,
        names_within(out, names),
        reads_within(read, names),
        names.contains(info.source_manifest.package_name@),
    ensures
        run_walker(
            visit_state(out, seq![], dev_mode, info).0,
            visit_state(out, seq![], dev_mode, info).1,
            dev_mode,
            read,
            k,
        ) == resolve_package(info, out, dev_mode, read, fuel),
    decreases fuel, 0nat,
{
    let m = info.source_manifest;
    if package_names(out).contains(m.package_name@) {
        0
    } else {
        let ps = out.push(info);
        visit_within(out, seq![], dev_mode, info, names);
        names_within_bound(ps, names);
        let p = out.len() as usize;
        assert(p as int == out.len());
        pending_refs_are_refs_from_start(p, m, dev_mode);
        assert(seq![] + pending_refs(p, m, dev_mode) =~= pending_refs(p, m, dev_mode));
        dependencies_as_run(info, p, 0, ps, dev_mode, read, names, (fuel - 1) as nat)
    }
}

/// Recursive resolution of the followed dependencies of package `p` from
/// the `i`-th on is a run of the walker from their pending references.
proof fn dependencies_as_run(
    parent: DependencyInfo,
    p: usize,
    i: nat,
    ps: Seq<DependencyInfo>,
    dev_mode: bool,
    read: spec_fn(DependencyInfo, Dependency) -> DependencyInfo,
    names: Set<Seq<char>>,
    fuel: nat,
) -> (k: nat)
    requires
        p < ps.len(),
        ps[p as int] == parent,
        i <= followed_dependencies(parent.source_manifest, dev_mode).len(),
        resolve_dependencies(
            parent,
            followed_dependencies(parent.source_manifest, dev_mode),
            i,
            ps,
            dev_mode,
            read,
            fuel,
        ) is Some,
        names.finite(),
        names.len() < usize::MAX,
        names_within(ps, names),
        reads_within(read, names),
    ensures
        run_walker(ps, refs_from(p, parent.source_manifest, dev_mode, i), dev_mode, read, k)
            == resolve_dependencies(
            parent,
            followed_dependencies(parent.source_manifest, dev_mode),
            i,
            ps,
            dev_mode,
            read,
            fuel,
        ),
    decreases fuel, followed_dependencies(parent.source_manifest, dev_mode).len() + 1 - i,
{
    let m = parent.source_manifest;
    let deps = followed_dependencies(m, dev_mode);
    let refs = followed_refs(p, m, dev_mode);
    followed_refs_name_dependencies(p, m, dev_mode);
    if i == deps.len() {
        assert(refs_from(p, m, dev_mode, i) =~= Seq::<DependencyRef>::empty());
        0
    } else {
        refs_from_step(p, m, dev_mode, i);
        let rest = refs_from(p, m, dev_mode, i + 1);
        assert(refs[i as int].package == p);
        let dep = deps[i as int];
        if !(dep.kind is Local) {
            1
        } else {
            let child = read(parent, dep);
            let k1 = package_as_run(child, ps, dev_mode, read, names, fuel);
            let vs = visit_state(ps, seq![], dev_mode, child);
            assert(visit_state(ps, rest, dev_mode, child).0 == vs.0);
            assert(visit_state(ps, rest, dev_mode, child).1 =~= rest + vs.1);
            visit_within(ps, seq![], dev_mode, child, names);
            match resolve_package(child, ps, dev_mode, read, fuel) {
                Some(Ok(o)) => {
                    run_extends(vs.0, vs.1, dev_mode, read, k1, o);
                    run_within(vs.0, vs.1, dev_mode, read, names, k1, o);
                    let k2 = dependencies_as_run(parent, p, i + 1, o, dev_mode, read, names, fuel);
                    run_frame(vs.0, rest, vs.1, dev_mode, read, k1, k2);
                    assert((1 + k1 + k2 - 1) as nat == k1 + k2);
                    1 + k1 + k2
                },
                _ => {
                    run_frame(vs.0, rest, vs.1, dev_mode, read, k1, 0);
                    1 + k1
                },
            }
        }
    }
}

/// The walker resolves as recursive depth-first resolution does. Start a
/// walker, hand `visit` the root package, then repeatedly take up the next
/// request and hand `visit` the package that `read` yields for it: where
/// recursive resolution of the root ends (within `fuel` nested packages),
/// such a run ends within some number of steps with the same packages in
/// the same order, or with the same error. `names` holds the name of every
/// package that can be read; that there are fewer of them than the largest
/// `usize` keeps every package's position a `usize`.
pub proof fn walker_resolves_like_recursion(
    root: DependencyInfo,
    dev_mode: bool,
    read: spec_fn(DependencyInfo, Dependency) -> DependencyInfo,
    names: Set<Seq<char>>,
    fuel: nat,
)
    requires
        resolve_package(root, seq![], dev_mode, read, fuel) is Some,
        names.finite(),
        names.len() < usize::MAX,
        names.contains(root.source_manifest.package_name@),
        reads_within(read, names),
    ensures
        exists|steps: nat|
            run_walker(
                visit_state(seq![], seq![], dev_mode, root).0,
                visit_state(seq![], seq![], dev_mode, root).1,
                dev_mode,
                read,
                steps,
            ) == resolve_package(root, seq![], dev_mode, read, fuel),
{
    assert(package_names(Seq::<DependencyInfo>::empty()) =~= Seq::<Seq<char>>::empty());
    let k = package_as_run(root, seq![], dev_mode, read, names, fuel);
    assert(run_walker(
        visit_state(seq![], seq![], dev_mode, root).0,
        visit_state(seq![], seq![], dev_mode, root).1,
        dev_mode,
        read,
        k,
    ) == resolve_package(root, seq![], dev_mode, read, fuel));
}

} // verus!
