use hdc_deploy::locate::{comes_first, locate_package, TreeEntry};
use hdc_deploy::text::chars_of;

fn file(path: &str) -> TreeEntry {
    TreeEntry { path: path.to_string(), is_file: true }
}

fn dir(path: &str) -> TreeEntry {
    TreeEntry { path: path.to_string(), is_file: false }
}

fn located(tree: &Vec<TreeEntry>) -> Option<String> {
    locate_package(tree).map(|at| tree[at].path.clone())
}

#[test]
fn paths_are_ordered_character_by_character() {
    assert!(comes_first(&chars_of("a"), &chars_of("b")));
    assert!(!comes_first(&chars_of("b"), &chars_of("a")));
    assert!(comes_first(&chars_of("a/b"), &chars_of("a/c")));
    assert!(comes_first(&chars_of("a"), &chars_of("a")));
    assert!(comes_first(&chars_of(""), &chars_of("")));
    assert!(comes_first(&chars_of(""), &chars_of("a")));
    assert!(!comes_first(&chars_of("a"), &chars_of("")));
}

#[test]
fn a_prefix_sorts_before_its_extensions() {
    assert!(comes_first(&chars_of("/tmp/a"), &chars_of("/tmp/a.hap")));
    assert!(!comes_first(&chars_of("/tmp/a.hap"), &chars_of("/tmp/a")));
}

#[test]
fn the_order_is_by_code_point() {
    assert!(comes_first(&chars_of("a-b/x"), &chars_of("a/x")));
    assert!(comes_first(&chars_of("Z"), &chars_of("a")));
    assert!(comes_first(&chars_of("z"), &chars_of("错")));
    assert!(!comes_first(&chars_of("错"), &chars_of("z")));
}

#[test]
fn an_empty_listing_holds_no_package() {
    assert_eq!(locate_package(&Vec::new()), None);
}

#[test]
fn a_listing_without_packages_holds_no_package() {
    let tree = vec![
        dir("/tmp/bundle"),
        file("/tmp/bundle/readme.txt"),
        dir("/tmp/bundle/pkg"),
        file("/tmp/bundle/pkg/app.zip"),
        file("/tmp/bundle/pkg/.hap"),
    ];
    assert_eq!(locate_package(&tree), None);
}

#[test]
fn a_directory_named_like_a_package_is_no_package() {
    let tree = vec![dir("/tmp/bundle"), dir("/tmp/bundle/app.hap")];
    assert_eq!(locate_package(&tree), None);
}

#[test]
fn the_only_package_is_found_at_any_depth() {
    let tree = vec![
        dir("/tmp/bundle"),
        file("/tmp/bundle/a.txt"),
        dir("/tmp/bundle/pkg"),
        dir("/tmp/bundle/pkg/inner"),
        file("/tmp/bundle/pkg/inner/app.hap"),
        file("/tmp/bundle/z.txt"),
    ];
    assert_eq!(locate_package(&tree), Some(4));
    assert_eq!(located(&tree), Some("/tmp/bundle/pkg/inner/app.hap".to_string()));
}

#[test]
fn the_only_package_is_found_in_whatever_order_the_entries_come() {
    let paths = ["/r", "/r/b.txt", "/r/pkg", "/r/pkg/app.hap", "/r/a.txt", "/r/zz"];
    let orders: [[usize; 6]; 6] = [
        [0, 1, 2, 3, 4, 5],
        [5, 4, 3, 2, 1, 0],
        [3, 0, 1, 2, 4, 5],
        [1, 5, 0, 4, 2, 3],
        [4, 3, 5, 0, 1, 2],
        [2, 1, 4, 5, 3, 0],
    ];
    for order in orders.iter() {
        let tree: Vec<TreeEntry> = order
            .iter()
            .map(|&k| if k == 0 || k == 2 { dir(paths[k]) } else { file(paths[k]) })
            .collect();
        assert_eq!(located(&tree), Some("/r/pkg/app.hap".to_string()));
    }
}

#[test]
fn of_several_packages_the_one_that_sorts_first_is_chosen() {
    let tree = vec![
        file("/r/z/late.hap"),
        file("/r/b/second.hap"),
        file("/r/a/first.hap"),
        file("/r/c/third.HAP"),
    ];
    assert_eq!(locate_package(&tree), Some(2));
    let reversed: Vec<TreeEntry> = tree.into_iter().rev().collect();
    assert_eq!(located(&reversed), Some("/r/a/first.hap".to_string()));
}

#[test]
fn the_choice_among_several_packages_does_not_depend_on_the_order() {
    let paths = ["/r/m.hap", "/r/a/x.hap", "/r/a-b/x.hap", "/r/a.hap", "/r/note.txt"];
    let orders: [[usize; 5]; 5] = [
        [0, 1, 2, 3, 4],
        [4, 3, 2, 1, 0],
        [2, 0, 4, 1, 3],
        [1, 3, 0, 4, 2],
        [3, 4, 1, 2, 0],
    ];
    for order in orders.iter() {
        let tree: Vec<TreeEntry> = order.iter().map(|&k| file(paths[k])).collect();
        assert_eq!(located(&tree), Some("/r/a-b/x.hap".to_string()));
    }
}

#[test]
fn of_equal_paths_the_first_entry_is_chosen() {
    let tree = vec![file("/r/b.hap"), file("/r/a.hap"), file("/r/a.hap")];
    assert_eq!(locate_package(&tree), Some(1));
}
