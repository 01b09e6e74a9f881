use avif2png::tree::DirTree;
use avif2png::walker::plan_run;
use avif2png::runner::plan_from_listing;

fn leaf(files: Vec<&[u8]>) -> DirTree {
    DirTree { files: files.into_iter().map(|f| f.to_vec()).collect(), subdirs: Vec::new() }
}

fn path(components: Vec<&[u8]>) -> Vec<Vec<u8>> {
    components.into_iter().map(|c| c.to_vec()).collect()
}

fn source_set(plan: &avif2png::walker::RunPlan) -> Vec<Vec<Vec<u8>>> {
    let mut v: Vec<Vec<Vec<u8>>> = plan.tasks.iter().map(|t| t.source.clone()).collect();
    v.sort();
    v
}

fn dir_set(plan: &avif2png::walker::RunPlan) -> Vec<Vec<Vec<u8>>> {
    let mut v = plan.dirs.clone();
    v.sort();
    v
}

#[test]
fn recursive_walk_mirrors_the_tree() {
    let tree = DirTree {
        files: vec![b"top.avif".to_vec(), b"notes".to_vec()],
        subdirs: vec![
            (b"inner".to_vec(), DirTree {
                files: vec![b"deep.avif".to_vec()],
                subdirs: vec![(b"most".to_vec(), leaf(vec![b"leaf.heic"]))],
            }),
            (b"empty".to_vec(), leaf(vec![])),
        ],
    };
    let plan = plan_run(&tree, true);

    let mut expected_sources = vec![
        path(vec![b"top.avif"]),
        path(vec![b"inner", b"deep.avif"]),
        path(vec![b"inner", b"most", b"leaf.heic"]),
    ];
    expected_sources.sort();
    assert_eq!(source_set(&plan), expected_sources);

    for task in plan.tasks.iter() {
        let mut expected_dest = task.source.clone();
        let name = expected_dest.last().unwrap().clone();
        let dot = name.iter().rposition(|&b| b == b'.').unwrap();
        let mut out = name[..dot].to_vec();
        out.extend_from_slice(b".png");
        *expected_dest.last_mut().unwrap() = out;
        assert_eq!(task.destination, expected_dest);
    }

    // Every directory of the tree is mirrored, eligible files inside or not.
    let mut expected_dirs = vec![
        path(vec![b"inner"]),
        path(vec![b"inner", b"most"]),
        path(vec![b"empty"]),
    ];
    expected_dirs.sort();
    assert_eq!(dir_set(&plan), expected_dirs);
}

#[test]
fn flat_walk_skips_subdirectories() {
    let tree = DirTree {
        files: vec![b"only.avif".to_vec()],
        subdirs: vec![(b"inner".to_vec(), leaf(vec![b"deep.avif"]))],
    };
    let plan = plan_run(&tree, false);
    assert_eq!(source_set(&plan), vec![path(vec![b"only.avif"])]);
    assert!(plan.dirs.is_empty());
}

#[test]
fn same_stem_collision_is_kept_last_writer_wins() {
    // Two eligible files whose stems agree map to one destination; the
    // walk keeps both tasks and lets the later write win.
    let tree = leaf(vec![b"shot.avif", b"shot.heic"]);
    let plan = plan_run(&tree, false);
    assert_eq!(plan.tasks.len(), 2);
    assert_eq!(plan.tasks[0].destination, plan.tasks[1].destination);
    assert_eq!(plan.tasks[0].destination, path(vec![b"shot.png"]));
    assert_ne!(plan.tasks[0].source, plan.tasks[1].source);
}

#[test]
fn empty_directory_plans_no_work() {
    let plan = plan_run(&leaf(vec![]), true);
    assert!(plan.tasks.is_empty());
    assert!(plan.dirs.is_empty());
}

#[test]
fn unreadable_root_degrades_to_empty_plan() {
    let plan = plan_from_listing(None, true);
    assert!(plan.tasks.is_empty());
    assert!(plan.dirs.is_empty());
}

#[test]
fn readable_root_plans_its_listing() {
    let plan = plan_from_listing(Some(leaf(vec![b"one.avif"])), true);
    assert_eq!(plan.tasks.len(), 1);
    assert_eq!(plan.tasks[0].source, path(vec![b"one.avif"]));
    assert_eq!(plan.tasks[0].destination, path(vec![b"one.png"]));
}
