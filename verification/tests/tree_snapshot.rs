use map_editor::tree::{is_shown, load_tree_from, EntryInfo, Listing, Node, NodeKind, Snapshot};

enum Raw {
    File(&'static str),
    Dir(&'static str, Vec<Raw>),
    Locked(&'static str),
}

fn info(dir: &str, name: &str, is_dir: bool) -> EntryInfo {
    EntryInfo {
        name: name.to_string(),
        id: format!("{}/{}", dir, name),
        path: format!("{}/{}", dir, name),
        is_dir,
    }
}

fn list(dir: &str, children: &[Raw], out: &mut Vec<Listing>) {
    let mut entries = Vec::new();
    for child in children {
        match child {
            Raw::File(name) => entries.push(info(dir, name, false)),
            Raw::Dir(name, below) => {
                entries.push(info(dir, name, true));
                list(&format!("{}/{}", dir, name), below, out);
            }
            Raw::Locked(name) => {
                entries.push(info(dir, name, true));
                out.push(Listing { dir: format!("{}/{}", dir, name), entries: None });
            }
        }
    }
    out.push(Listing { dir: dir.to_string(), entries: Some(entries) });
}

/// The listings of the directory `/p/r` with the given contents, all read.
fn all_read(children: &[Raw]) -> Vec<Listing> {
    let mut out = Vec::new();
    list("/p/r", children, &mut out);
    out
}

fn root() -> EntryInfo {
    info("/p", "r", true)
}

fn snapshot(children: &[Raw], max_depth: usize, max_entries: usize) -> Node {
    match load_tree_from(&root(), &all_read(children), max_depth, max_entries) {
        Snapshot::Ready(node) => node,
        Snapshot::Needs(dir) => panic!("{} was read", dir),
    }
}

/// Builds the snapshot as a reader of the disk does: lists a directory only
/// when it is asked for. Returns the snapshot and the directories that
/// were asked for, in that order.
fn on_demand(children: &[Raw], max_depth: usize, max_entries: usize) -> (Node, Vec<String>) {
    let disk = all_read(children);
    let mut read: Vec<Listing> = Vec::new();
    let mut asked = Vec::new();
    loop {
        match load_tree_from(&root(), &read, max_depth, max_entries) {
            Snapshot::Ready(node) => return (node, asked),
            Snapshot::Needs(dir) => {
                assert!(!asked.contains(&dir), "{} is asked for twice", dir);
                let listing = disk.iter().find(|l| l.dir == dir).unwrap().clone();
                asked.push(dir);
                read.push(listing);
            }
        }
    }
}

fn names(node: &Node) -> Vec<String> {
    match &node.kind {
        NodeKind::Folder { children } => children.iter().map(|c| c.name.clone()).collect(),
        NodeKind::File { .. } => Vec::new(),
    }
}

fn count(node: &Node) -> usize {
    match &node.kind {
        NodeKind::Folder { children } => 1 + children.iter().map(count).sum::<usize>(),
        NodeKind::File { .. } => 1,
    }
}

fn child<'a>(node: &'a Node, name: &str) -> &'a Node {
    match &node.kind {
        NodeKind::Folder { children } => children.iter().find(|c| c.name == name).unwrap(),
        NodeKind::File { .. } => panic!("a file has no children"),
    }
}

fn files(n: usize) -> Vec<Raw> {
    ["f0", "f1", "f2", "f3", "f4"].iter().take(n).map(|name| Raw::File(name)).collect()
}

fn nested() -> Vec<Raw> {
    vec![
        Raw::Dir("a", vec![Raw::File("1"), Raw::File("2")]),
        Raw::Dir("b", vec![Raw::File("3")]),
        Raw::File("c"),
    ]
}

#[test]
fn folders_come_first_then_names_without_case() {
    let tree = snapshot(&[Raw::File("b.txt"), Raw::Dir("A", vec![]), Raw::File("a.txt")], 4, 5000);
    assert_eq!(names(&tree), vec!["A", "a.txt", "b.txt"]);
    assert_eq!(tree.id, "/p/r");
    assert_eq!(tree.name, "r");
}

#[test]
fn order_ignores_case_and_keeps_equal_names_as_listed() {
    let tree = snapshot(
        &[
            Raw::File("Zeta"),
            Raw::File("alpha"),
            Raw::Dir("zoo", vec![]),
            Raw::File("ALPHA"),
            Raw::Dir("Bar", vec![]),
            Raw::File("beta"),
            Raw::File("alph"),
        ],
        4,
        5000,
    );
    assert_eq!(names(&tree), vec!["Bar", "zoo", "alph", "alpha", "ALPHA", "beta", "Zeta"]);
}

#[test]
fn every_folder_is_in_order() {
    fn in_order(node: &Node) -> bool {
        match &node.kind {
            NodeKind::File { .. } => true,
            NodeKind::Folder { children } => {
                let keys: Vec<(bool, String)> = children
                    .iter()
                    .map(|c| (matches!(c.kind, NodeKind::File { .. }), c.name.to_ascii_lowercase()))
                    .collect();
                keys.windows(2).all(|w| w[0] <= w[1]) && children.iter().all(in_order)
            }
        }
    }
    let tree = snapshot(
        &[
            Raw::File("zz"),
            Raw::Dir("Sub", vec![Raw::File("b"), Raw::File("A"), Raw::Dir("c", vec![])]),
            Raw::File("Ab"),
            Raw::Dir("aa", vec![Raw::File("2"), Raw::File("10")]),
        ],
        4,
        5000,
    );
    assert!(in_order(&tree));
    assert_eq!(names(&tree), vec!["aa", "Sub", "Ab", "zz"]);
    assert_eq!(names(child(&tree, "Sub")), vec!["c", "A", "b"]);
    assert_eq!(names(child(&tree, "aa")), vec!["10", "2"]);
}

#[test]
fn hidden_entries_and_legacy_maps_are_left_out() {
    let tree = snapshot(
        &[
            Raw::File(".gitignore"),
            Raw::Dir(".git", vec![Raw::File("config")]),
            Raw::File("old.map"),
            Raw::File("OLD.MAP"),
            Raw::File("new.mpr"),
            Raw::Dir("x.map", vec![]),
            Raw::File("map"),
        ],
        4,
        5000,
    );
    assert_eq!(names(&tree), vec!["x.map", "map", "new.mpr"]);
}

#[test]
fn what_is_shown() {
    assert!(is_shown("maps", true));
    assert!(is_shown("main.mpr", false));
    assert!(is_shown("x.map", true));
    assert!(!is_shown("x.map", false));
    assert!(!is_shown("x.MaP", false));
    assert!(!is_shown(".git", true));
    assert!(!is_shown(".env", false));
    assert!(is_shown("", false));
    assert!(is_shown("a.map.bak", false));
}

#[test]
fn file_nodes_carry_path_and_extension() {
    let mut main = info("/p/r", "Main.MPR", false);
    main.id = "/canonical/Main.MPR".to_string();
    let listings = vec![Listing {
        dir: "/p/r".to_string(),
        entries: Some(vec![main, info("/p/r", "README", false), info("/p/r", "a.tar.gz", false)]),
    }];
    let Snapshot::Ready(tree) = load_tree_from(&root(), &listings, 4, 5000) else {
        panic!("the root was read");
    };
    let main = child(&tree, "Main.MPR");
    assert_eq!(main.id, "/canonical/Main.MPR");
    assert_eq!(
        main.kind,
        NodeKind::File { path: "/p/r/Main.MPR".to_string(), ext: "MPR".to_string() }
    );
    assert_eq!(
        child(&tree, "README").kind,
        NodeKind::File { path: "/p/r/README".to_string(), ext: String::new() }
    );
    assert_eq!(
        child(&tree, "a.tar.gz").kind,
        NodeKind::File { path: "/p/r/a.tar.gz".to_string(), ext: "gz".to_string() }
    );
}

#[test]
fn entries_past_the_cap_are_omitted() {
    let tree = snapshot(&files(5), 4, 1);
    assert_eq!(names(&tree), vec!["f0"]);
    assert_eq!(count(&tree), 2);
    let tree = snapshot(&files(5), 4, 3);
    assert_eq!(names(&tree), vec!["f0", "f1", "f2"]);
    let tree = snapshot(&files(5), 4, 0);
    assert_eq!(count(&tree), 1);
    let tree = snapshot(&files(5), 4, 6);
    assert_eq!(count(&tree), 6);
}

#[test]
fn the_cap_counts_across_folders() {
    let tree = snapshot(&nested(), 4, 3);
    assert_eq!(names(&tree), vec!["a"]);
    assert_eq!(names(child(&tree, "a")), vec!["1", "2"]);
    assert_eq!(count(&tree), 4);
    for cap in 0..10 {
        let tree = snapshot(&nested(), 4, cap);
        assert!(count(&tree) <= cap + 1);
        assert!(count(&tree) <= 7);
    }
}

#[test]
fn folders_at_the_depth_limit_stay_closed() {
    let deep = [Raw::Dir(
        "a",
        vec![Raw::Dir("b", vec![Raw::File("f")]), Raw::File("g")],
    )];
    let tree = snapshot(&deep, 2, 5000);
    let a = child(&tree, "a");
    assert_eq!(names(a), vec!["b", "g"]);
    assert_eq!(child(a, "b").kind, NodeKind::Folder { children: vec![] });
    let tree = snapshot(&deep, 0, 5000);
    assert_eq!(tree.kind, NodeKind::Folder { children: vec![] });
}

#[test]
fn an_unreadable_folder_is_shown_empty() {
    let tree = snapshot(&[Raw::Locked("locked"), Raw::File("f")], 4, 5000);
    assert_eq!(names(&tree), vec!["locked", "f"]);
    assert_eq!(child(&tree, "locked").kind, NodeKind::Folder { children: vec![] });
}

#[test]
fn an_unreadable_root_is_shown_empty() {
    let listings = vec![Listing { dir: "/p/r".to_string(), entries: None }];
    assert_eq!(
        load_tree_from(&root(), &listings, 4, 5000),
        Snapshot::Ready(Node {
            id: "/p/r".to_string(),
            name: "r".to_string(),
            kind: NodeKind::Folder { children: vec![] }
        })
    );
}

#[test]
fn a_root_that_is_a_file() {
    let tree = load_tree_from(&info("/p", "single.mpr", false), &Vec::new(), 4, 5000);
    assert_eq!(
        tree,
        Snapshot::Ready(Node {
            id: "/p/single.mpr".to_string(),
            name: "single.mpr".to_string(),
            kind: NodeKind::File { path: "/p/single.mpr".to_string(), ext: "mpr".to_string() }
        })
    );
}

#[test]
fn a_directory_that_was_not_read_is_asked_for() {
    assert_eq!(
        load_tree_from(&root(), &Vec::new(), 4, 5000),
        Snapshot::Needs("/p/r".to_string())
    );
    let top = vec![Listing {
        dir: "/p/r".to_string(),
        entries: Some(vec![info("/p/r", "z", true), info("/p/r", "a", true)]),
    }];
    assert_eq!(load_tree_from(&root(), &top, 4, 5000), Snapshot::Needs("/p/r/a".to_string()));
}

#[test]
fn directories_are_read_in_the_order_of_the_visit() {
    let (tree, asked) = on_demand(&nested(), 4, 5000);
    assert_eq!(asked, vec!["/p/r", "/p/r/a", "/p/r/b"]);
    assert_eq!(count(&tree), 7);
    assert_eq!(tree, snapshot(&nested(), 4, 5000));
}

#[test]
fn only_directories_that_are_shown_open_are_read() {
    let disk = vec![
        Raw::Dir(".git", vec![Raw::File("config")]),
        Raw::Dir("a", vec![Raw::Dir("deep", vec![Raw::File("x")])]),
        Raw::Dir("b", vec![Raw::File("y")]),
        Raw::Dir("c", vec![Raw::File("z")]),
    ];
    let (_, asked) = on_demand(&disk, 2, 5000);
    assert_eq!(asked, vec!["/p/r", "/p/r/a", "/p/r/b", "/p/r/c"]);
    let (tree, asked) = on_demand(&disk, 4, 3);
    assert_eq!(asked, vec!["/p/r", "/p/r/a", "/p/r/a/deep"]);
    assert_eq!(count(&tree), 4);
    let (tree, asked) = on_demand(&disk, 4, 1);
    assert_eq!(asked, vec!["/p/r"]);
    assert_eq!(names(&tree), vec!["a"]);
    let (tree, asked) = on_demand(&disk, 4, 0);
    assert!(asked.is_empty());
    assert_eq!(count(&tree), 1);
    let (_, asked) = on_demand(&disk, 0, 5000);
    assert!(asked.is_empty());
    for cap in 0..12 {
        for depth in 0..5 {
            let (tree, _) = on_demand(&disk, depth, cap);
            assert_eq!(tree, snapshot(&disk, depth, cap));
        }
    }
}
