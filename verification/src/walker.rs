//! The tree walker: turns the input tree model into the complete run plan —
//! the finite task list, and the mirrored directories that must exist before
//! any worker writes.
//!
//! The contracts state the walk both ways: every produced task is an
//! eligible file of the tree with its destination derived by extension
//! replacement, and every eligible file of the tree is produced. Task order
//! is left unspecified on purpose: directory enumeration order is
//! platform-defined, and no caller may rely on it.

use vstd::prelude::*;
use crate::name::{eligible_name, png_name_of};
use crate::tree::{DirTree, path_view, eligible_under, dir_under, dest_of};

verus! {

/// One unit of work: convert the file at `source` (components relative to
/// the input root) and write the result at `destination` (components
/// relative to the output root). Immutable once created; consumed exactly
/// once by a worker, then discarded.
pub struct ConversionTask {
    pub source: Vec<Vec<u8>>,
    pub destination: Vec<Vec<u8>>,
}

/// Everything a run needs before any worker starts: the mirrored
/// directories to create, and the complete task list. The caller creates
/// every listed directory strictly before the first task runs; that single-
/// threaded phase is what keeps concurrent workers from ever racing on
/// directory creation.
pub struct RunPlan {
    pub dirs: Vec<Vec<Vec<u8>>>,
    pub tasks: Vec<ConversionTask>,
}

/// `task` is one that walking `t` below `prefix` may produce.
pub open spec fn task_fits(
    t: DirTree,
    prefix: Seq<Seq<u8>>,
    recursive: bool,
    task: ConversionTask,
) -> bool {
    let src = path_view(task.source);
    &&& src.len() > prefix.len()
    &&& src.take(prefix.len() as int) == prefix
    &&& eligible_under(t, recursive, src.skip(prefix.len() as int))
    &&& path_view(task.destination) == dest_of(src)
}

/// Some task at index `from` or later has `src` as its source.
pub open spec fn has_task(tasks: Seq<ConversionTask>, from: int, src: Seq<Seq<u8>>) -> bool {
    exists|k: int| from <= k < tasks.len() && path_view(tasks[k].source) == src
}

/// `d` is a directory path that walking `t` below `prefix` may record.
pub open spec fn dir_fits(t: DirTree, prefix: Seq<Seq<u8>>, d: Seq<Seq<u8>>) -> bool {
    &&& d.len() > prefix.len()
    &&& d.take(prefix.len() as int) == prefix
    &&& dir_under(t, d.skip(prefix.len() as int))
}

/// Some recorded directory at index `from` or later is `d`.
pub open spec fn has_dir(dirs: Seq<Vec<Vec<u8>>>, from: int, d: Seq<Seq<u8>>) -> bool {
    exists|k: int| from <= k < dirs.len() && path_view(dirs[k]) == d
}

/// `rel` descends through one of the first `bound` subdirectories to an
/// eligible file.
spec fn eligible_via(t: DirTree, bound: int, recursive: bool, rel: Seq<Seq<u8>>) -> bool {
    rel.len() >= 2 && exists|j: int|
        0 <= j < bound && t.subdirs@[j].0@ == rel[0] && eligible_under(
            t.subdirs@[j].1,
            recursive,
            rel.skip(1),
        )
}

/// `rel` names a directory through one of the first `bound` subdirectories.
spec fn dir_via(t: DirTree, bound: int, rel: Seq<Seq<u8>>) -> bool {
    rel.len() >= 1 && exists|j: int|
        0 <= j < bound && t.subdirs@[j].0@ == rel[0] && (rel.len() == 1 || dir_under(
            t.subdirs@[j].1,
            rel.skip(1),
        ))
}

/// Byte-for-byte copy of a name.
fn copy_bytes(b: &Vec<u8>) -> (r: Vec<u8>)
    ensures
        r@ == b@,
{
    let mut r: Vec<u8> = Vec::new();
    let mut i: usize = 0;
    while i < b.len()
        invariant
            i <= b@.len(),
            r@ == b@.subrange(0, i as int),
        decreases b@.len() - i,
    {
        r.push(b[i]);
        proof {
            assert(r@ =~= b@.subrange(0, i + 1 as int));
        }
        i = i + 1;
    }
    proof {
        assert(b@.subrange(0, b@.len() as int) =~= b@);
    }
    r
}

/// Component-for-component copy of a path.
fn copy_path(p: &Vec<Vec<u8>>) -> (r: Vec<Vec<u8>>)
    ensures
        r@.len() == p@.len(),
        path_view(r) == path_view(*p),
{
    let mut r: Vec<Vec<u8>> = Vec::new();
    let mut i: usize = 0;
    while i < p.len()
        invariant
            i <= p@.len(),
            r@.len() == i,
            forall|j: int| 0 <= j < i ==> r@[j]@ == p@[j]@,
        decreases p@.len() - i,
    {
        r.push(copy_bytes(&p[i]));
        i = i + 1;
    }
    proof {
        assert(path_view(r) =~= path_view(*p));
    }
    r
}

/// The path one component below `p`.
fn pushed(p: &Vec<Vec<u8>>, c: &Vec<u8>) -> (r: Vec<Vec<u8>>)
    ensures
        path_view(r) == path_view(*p).push(c@),
{
    let mut r = copy_path(p);
    r.push(copy_bytes(c));
    proof {
        assert forall|j: int| 0 <= j < p@.len() implies r@[j]@ == p@[j]@ by {
            assert(path_view(r)[j] == r@[j]@);
            assert(path_view(*p)[j] == p@[j]@);
        }
        assert(path_view(r) =~= path_view(*p).push(c@));
    }
    r
}

/// Walks one directory of the tree: appends a task for each eligible file
/// below `prefix`, and — when `recursive` is set — records each mirrored
/// subdirectory before descending into it, exactly as the serial walk phase
/// of the run performs it.
#[verifier::rlimit(100)]
fn walk_dir(
    t: &DirTree,
    prefix: &Vec<Vec<u8>>,
    recursive: bool,
    tasks: &mut Vec<ConversionTask>,
    dirs: &mut Vec<Vec<Vec<u8>>>,
)
    ensures
        final(tasks)@.len() >= old(tasks)@.len(),
        forall|k: int| 0 <= k < old(tasks)@.len() ==> final(tasks)@[k] == old(tasks)@[k],
        forall|k: int|
            old(tasks)@.len() <= k < final(tasks)@.len() ==> task_fits(
                *t,
                path_view(*prefix),
                recursive,
                final(tasks)@[k],
            ),
        forall|rel: Seq<Seq<u8>>|
            eligible_under(*t, recursive, rel) ==> has_task(
                final(tasks)@,
                old(tasks)@.len() as int,
                path_view(*prefix) + rel,
            ),
        final(dirs)@.len() >= old(dirs)@.len(),
        forall|k: int| 0 <= k < old(dirs)@.len() ==> final(dirs)@[k] == old(dirs)@[k],
        forall|k: int|
            old(dirs)@.len() <= k < final(dirs)@.len() ==> dir_fits(
                *t,
                path_view(*prefix),
                path_view(final(dirs)@[k]),
            ),
        forall|rel: Seq<Seq<u8>>|
            recursive && dir_under(*t, rel) ==> has_dir(
                final(dirs)@,
                old(dirs)@.len() as int,
                path_view(*prefix) + rel,
            ),
        !recursive ==> final(dirs)@.len() == old(dirs)@.len(),
    decreases *t,
{
    let ghost pv = path_view(*prefix);
    let ghost tasks0 = tasks@;
    let ghost dirs0 = dirs@;

    let mut fi: usize = 0;
    while fi < t.files.len()
        invariant
            fi <= t.files@.len(),
            tasks@.len() >= tasks0.len(),
            forall|k: int| 0 <= k < tasks0.len() ==> tasks@[k] == tasks0[k],
            forall|k: int|
                tasks0.len() <= k < tasks@.len() ==> task_fits(*t, pv, recursive, tasks@[k]),
            forall|j: int|
                0 <= j < fi && eligible_name(t.files@[j]@) ==> has_task(
                    tasks@,
                    tasks0.len() as int,
                    pv.push(t.files@[j]@),
                ),
            dirs@ == dirs0,
            pv == path_view(*prefix),
        decreases t.files@.len() - fi,
    {
        let ghost fname = t.files@[fi as int]@;
        match crate::name::try_output_name(&t.files[fi]) {
            Some(out) => {
                let src = pushed(prefix, &t.files[fi]);
                let mut dst = copy_path(prefix);
                dst.push(out);
                proof {
                    assert(path_view(dst) =~= pv.push(png_name_of(fname))) by {
                        assert forall|j: int| 0 <= j < prefix@.len() implies dst@[j]@ == pv[j] by {
                            assert(path_view(dst)[j] == dst@[j]@);
                        }
                    }
                }
                let ghost srcv = path_view(src);
                let ghost tpre = tasks@;
                tasks.push(ConversionTask { source: src, destination: dst });
                proof {
                    assert forall|j: int|
                        0 <= j < fi && eligible_name(t.files@[j]@) implies has_task(
                        tasks@,
                        tasks0.len() as int,
                        pv.push(t.files@[j]@),
                    ) by {
                        let k = choose|k: int|
                            tasks0.len() <= k < tpre.len() && path_view(tpre[k].source) == pv.push(
                                t.files@[j]@,
                            );
                        assert(tasks@[k] == tpre[k]);
                        assert(path_view(tasks@[k].source) == pv.push(t.files@[j]@));
                    }
                    let rel = seq![fname];
                    assert(srcv =~= pv + rel);
                    assert(srcv.take(pv.len() as int) =~= pv);
                    assert(srcv.skip(pv.len() as int) =~= rel);
                    assert(eligible_under(*t, recursive, rel)) by {
                        assert(0 <= fi < t.files@.len() && t.files@[fi as int]@ == rel[0]
                            && eligible_name(rel[0]));
                    }
                    assert(dest_of(srcv) =~= pv.push(png_name_of(fname))) by {
                        assert(srcv.last() == fname);
                    }
                    let new_task = tasks@[tasks@.len() - 1];
                    assert(task_fits(*t, pv, recursive, new_task));
                    assert(has_task(tasks@, tasks0.len() as int, pv.push(fname))) by {
                        let k = tasks@.len() - 1;
                        assert(path_view(tasks@[k].source) == pv.push(fname));
                    }
                }
            },
            None => {
                proof {
                    assert(!eligible_name(fname));
                }
            },
        }
        fi = fi + 1;
    }

    if recursive {
        let mut di: usize = 0;
        while di < t.subdirs.len()
            invariant
                recursive,
                di <= t.subdirs@.len(),
                tasks@.len() >= tasks0.len(),
                forall|k: int| 0 <= k < tasks0.len() ==> tasks@[k] == tasks0[k],
                forall|k: int|
                    tasks0.len() <= k < tasks@.len() ==> task_fits(*t, pv, recursive, tasks@[k]),
                forall|j: int|
                    0 <= j < t.files@.len() && eligible_name(t.files@[j]@) ==> has_task(
                        tasks@,
                        tasks0.len() as int,
                        pv.push(t.files@[j]@),
                    ),
                forall|rel: Seq<Seq<u8>>|
                    eligible_via(*t, di as int, recursive, rel) ==> has_task(
                        tasks@,
                        tasks0.len() as int,
                        pv + rel,
                    ),
                dirs@.len() >= dirs0.len(),
                forall|k: int| 0 <= k < dirs0.len() ==> dirs@[k] == dirs0[k],
                forall|k: int|
                    dirs0.len() <= k < dirs@.len() ==> dir_fits(*t, pv, path_view(dirs@[k])),
                forall|rel: Seq<Seq<u8>>|
                    dir_via(*t, di as int, rel) ==> has_dir(dirs@, dirs0.len() as int, pv + rel),
                pv == path_view(*prefix),
            decreases t.subdirs@.len() - di,
        {
            let ghost dname = t.subdirs@[di as int].0@;
            let ghost tasks_top = tasks@;
            let ghost dirs_top = dirs@;
            let cp = pushed(prefix, &t.subdirs[di].0);
            let ghost cpv = path_view(cp);
            dirs.push(copy_path(&cp));
            proof {
                let rel = seq![dname];
                assert(cpv =~= pv + rel);
                assert(cpv.take(pv.len() as int) =~= pv);
                assert(cpv.skip(pv.len() as int) =~= rel);
                assert(dir_under(*t, rel)) by {
                    assert(0 <= di < t.subdirs@.len() && t.subdirs@[di as int].0@ == rel[0]
                        && rel.len() == 1);
                }
                assert(path_view(dirs@[dirs@.len() - 1]) == cpv);
                assert(dir_fits(*t, pv, cpv));
            }
            let ghost tasks_mid = tasks@;
            let ghost dirs_mid = dirs@;
            proof {
                assert(decreases_to!(*t => t.subdirs@[di as int].1));
            }
            walk_dir(&t.subdirs[di].1, &cp, recursive, tasks, dirs);
            proof {
                let sub = t.subdirs@[di as int].1;
                // Every task the call appended fits this directory too: its
                // relative path gains the subdirectory's name in front.
                assert forall|k: int|
                    tasks0.len() <= k < tasks@.len() implies task_fits(
                    *t,
                    pv,
                    recursive,
                    tasks@[k],
                ) by {
                    if k < tasks_mid.len() {
                        assert(tasks@[k] == tasks_mid[k]);
                    } else {
                        let src = path_view(tasks@[k].source);
                        assert(task_fits(sub, cpv, recursive, tasks@[k]));
                        let rel = src.skip(pv.len() as int);
                        assert(rel[0] == src[pv.len() as int]);
                        assert(src[pv.len() as int] == cpv[pv.len() as int]) by {
                            assert(src.take(cpv.len() as int) == cpv);
                            assert(src.take(cpv.len() as int)[pv.len() as int] == src[pv.len()
                                as int]);
                        }
                        assert(rel[0] == dname);
                        assert(rel.skip(1) =~= src.skip(cpv.len() as int));
                        assert(rel.len() >= 2);
                        assert(eligible_under(*t, recursive, rel)) by {
                            assert(0 <= di < t.subdirs@.len() && t.subdirs@[di as int].0@ == rel[0]
                                && eligible_under(sub, recursive, rel.skip(1)));
                        }
                        assert(src.take(pv.len() as int) =~= pv) by {
                            assert(src.take(cpv.len() as int) == cpv);
                            assert forall|j: int| 0 <= j < pv.len() implies src.take(
                                pv.len() as int,
                            )[j] == pv[j] by {
                                assert(src.take(cpv.len() as int)[j] == cpv[j]);
                            }
                        }
                    }
                }
                assert forall|k: int|
                    dirs0.len() <= k < dirs@.len() implies dir_fits(*t, pv, path_view(dirs@[k])) by {
                    if k < dirs_mid.len() {
                        assert(dirs@[k] == dirs_mid[k]);
                    } else {
                        let d = path_view(dirs@[k]);
                        assert(dir_fits(sub, cpv, d));
                        let rel = d.skip(pv.len() as int);
                        assert(rel[0] == d[pv.len() as int]);
                        assert(d[pv.len() as int] == cpv[pv.len() as int]) by {
                            assert(d.take(cpv.len() as int) == cpv);
                            assert(d.take(cpv.len() as int)[pv.len() as int] == d[pv.len() as int]);
                        }
                        assert(rel[0] == dname);
                        assert(rel.skip(1) =~= d.skip(cpv.len() as int));
                        assert(dir_under(*t, rel)) by {
                            assert(0 <= di < t.subdirs@.len() && t.subdirs@[di as int].0@ == rel[0]
                                && rel.len() >= 2 && dir_under(sub, rel.skip(1)));
                        }
                        assert(d.take(pv.len() as int) =~= pv) by {
                            assert(d.take(cpv.len() as int) == cpv);
                            assert forall|j: int| 0 <= j < pv.len() implies d.take(
                                pv.len() as int,
                            )[j] == pv[j] by {
                                assert(d.take(cpv.len() as int)[j] == cpv[j]);
                            }
                        }
                    }
                }
                // Completeness: old witnesses survive both appends, and the
                // child's witnesses serve paths through this subdirectory.
                assert forall|rel: Seq<Seq<u8>>|
                    eligible_via(*t, di + 1 as int, recursive, rel) implies has_task(
                    tasks@,
                    tasks0.len() as int,
                    pv + rel,
                ) by {
                    let j = choose|j: int|
                        0 <= j < di + 1 && t.subdirs@[j].0@ == rel[0] && eligible_under(
                            t.subdirs@[j].1,
                            recursive,
                            rel.skip(1),
                        );
                    if j < di {
                        assert(eligible_via(*t, di as int, recursive, rel));
                        assert(has_task(tasks_top, tasks0.len() as int, pv + rel));
                        let k = choose|k: int|
                            tasks0.len() <= k < tasks_top.len() && path_view(tasks_top[k].source)
                                == pv + rel;
                        assert(tasks@[k] == tasks_top[k]);
                        assert(path_view(tasks@[k].source) == pv + rel);
                    } else {
                        assert(eligible_under(sub, recursive, rel.skip(1)));
                        assert(has_task(tasks@, tasks_mid.len() as int, cpv + rel.skip(1)));
                        assert(cpv + rel.skip(1) =~= pv + rel);
                    }
                }
                assert forall|rel: Seq<Seq<u8>>|
                    dir_via(*t, di + 1 as int, rel) implies has_dir(
                    dirs@,
                    dirs0.len() as int,
                    pv + rel,
                ) by {
                    let j = choose|j: int|
                        0 <= j < di + 1 && t.subdirs@[j].0@ == rel[0] && (rel.len() == 1
                            || dir_under(t.subdirs@[j].1, rel.skip(1)));
                    if j < di {
                        assert(dir_via(*t, di as int, rel));
                        assert(has_dir(dirs_top, dirs0.len() as int, pv + rel));
                        let k = choose|k: int|
                            dirs0.len() <= k < dirs_top.len() && path_view(dirs_top[k]) == pv
                                + rel;
                        assert(dirs_mid[k] == dirs_top[k]);
                        assert(dirs@[k] == dirs_mid[k]);
                        assert(path_view(dirs@[k]) == pv + rel);
                    } else {
                        if rel.len() == 1 {
                            assert(rel =~= seq![dname]);
                            let k = dirs_mid.len() - 1;
                            assert(dirs@[k] == dirs_mid[k]);
                            assert(path_view(dirs@[k]) == cpv);
                            assert(cpv =~= pv + rel);
                        } else {
                            assert(dir_under(sub, rel.skip(1)));
                            assert(has_dir(dirs@, dirs_mid.len() as int, cpv + rel.skip(1)));
                            assert(cpv + rel.skip(1) =~= pv + rel);
                        }
                    }
                }
                assert forall|j: int|
                    0 <= j < t.files@.len() && eligible_name(t.files@[j]@) implies has_task(
                    tasks@,
                    tasks0.len() as int,
                    pv.push(t.files@[j]@),
                ) by {
                    assert(has_task(tasks_top, tasks0.len() as int, pv.push(t.files@[j]@)));
                    let k = choose|k: int|
                        tasks0.len() <= k < tasks_top.len() && path_view(tasks_top[k].source)
                            == pv.push(t.files@[j]@);
                    assert(tasks@[k] == tasks_top[k]);
                    assert(path_view(tasks@[k].source) == pv.push(t.files@[j]@));
                }
            }
            di = di + 1;
        }
    }

    proof {
        assert forall|rel: Seq<Seq<u8>>|
            eligible_under(*t, recursive, rel) implies has_task(
            tasks@,
            tasks0.len() as int,
            pv + rel,
        ) by {
            if rel.len() == 1 {
                let k = choose|k: int|
                    0 <= k < t.files@.len() && t.files@[k]@ == rel[0] && eligible_name(rel[0]);
                assert(pv + rel =~= pv.push(t.files@[k]@));
            } else {
                assert(recursive && rel.len() >= 2);
                assert(eligible_via(*t, t.subdirs@.len() as int, recursive, rel));
            }
        }
        if recursive {
            assert forall|rel: Seq<Seq<u8>>| dir_under(*t, rel) implies has_dir(
                dirs@,
                dirs0.len() as int,
                pv + rel,
            ) by {
                assert(dir_via(*t, t.subdirs@.len() as int, rel));
            }
        }
    }
}

/// The whole correctness of a plan against a tree, both directions: every
/// task's source is an eligible file of the tree and its destination is the
/// mirrored path with the extension replaced by `png`; conversely every
/// eligible file of the tree has a task. Every recorded directory exists in
/// the tree, and — when `recursive` is set — every directory of the tree is
/// recorded; with `recursive` unset no directory is recorded at all, since
/// subdirectories are skipped.
pub open spec fn plan_matches(t: DirTree, recursive: bool, plan: RunPlan) -> bool {
    &&& forall|k: int|
        0 <= k < plan.tasks@.len() ==> #[trigger] eligible_under(
            t,
            recursive,
            path_view(plan.tasks@[k].source),
        ) && path_view(plan.tasks@[k].destination) == dest_of(path_view(plan.tasks@[k].source))
    &&& forall|rel: Seq<Seq<u8>>| eligible_under(t, recursive, rel) ==> has_task(plan.tasks@, 0, rel)
    &&& forall|k: int|
        0 <= k < plan.dirs@.len() ==> #[trigger] dir_under(t, path_view(plan.dirs@[k]))
    &&& forall|rel: Seq<Seq<u8>>| recursive && dir_under(t, rel) ==> has_dir(plan.dirs@, 0, rel)
    &&& !recursive ==> plan.dirs@.len() == 0
}

/// Produces the complete plan for one run over the whole input tree; the
/// plan is correct in the sense of `plan_matches`.
pub fn plan_run(t: &DirTree, recursive: bool) -> (plan: RunPlan)
    ensures
        plan_matches(*t, recursive, plan),
{
    let mut tasks: Vec<ConversionTask> = Vec::new();
    let mut dirs: Vec<Vec<Vec<u8>>> = Vec::new();
    let prefix: Vec<Vec<u8>> = Vec::new();
    walk_dir(t, &prefix, recursive, &mut tasks, &mut dirs);
    proof {
        let pv = path_view(prefix);
        assert(pv =~= Seq::<Seq<u8>>::empty());
        assert forall|k: int| 0 <= k < tasks@.len() implies #[trigger] eligible_under(
            *t,
            recursive,
            path_view(tasks@[k].source),
        ) && path_view(tasks@[k].destination) == dest_of(path_view(tasks@[k].source)) by {
            assert(task_fits(*t, pv, recursive, tasks@[k]));
            let src = path_view(tasks@[k].source);
            assert(src.skip(0) =~= src);
        }
        assert forall|rel: Seq<Seq<u8>>| eligible_under(*t, recursive, rel) implies has_task(
            tasks@,
            0,
            rel,
        ) by {
            assert(has_task(tasks@, 0, pv + rel));
            assert(pv + rel =~= rel);
        }
        assert forall|k: int| 0 <= k < dirs@.len() implies #[trigger] dir_under(
            *t,
            path_view(dirs@[k]),
        ) by {
            assert(dir_fits(*t, pv, path_view(dirs@[k])));
            let d = path_view(dirs@[k]);
            assert(d.skip(0) =~= d);
        }
        assert forall|rel: Seq<Seq<u8>>| recursive && dir_under(*t, rel) implies has_dir(
            dirs@,
            0,
            rel,
        ) by {
            assert(has_dir(dirs@, 0, pv + rel));
            assert(pv + rel =~= rel);
        }
    }
    RunPlan { dirs, tasks }
}

} // verus!
