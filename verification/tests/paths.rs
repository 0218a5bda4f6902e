use std::path::Path;

use sidebar::path::{
    is_inside_worktree, is_text_inside, remap_path, worktree_relative, FilePath,
};
use sidebar::path_set::PathSet;
use sidebar::spelling::Letter;
use sidebar::table::Table;

fn path(text: &str) -> FilePath {
    FilePath::parse(text)
}

fn remapped(from: &str, old: &str, new: &str) -> Option<String> {
    remap_path(&path(from), &path(old), &path(new)).map(|there| there.display())
}

#[test]
fn remapping_moves_a_path_and_its_whole_subtree() {
    let old = "/repo/src";
    let new = "/repo/lib";
    assert_eq!(remapped(old, old, new), Some("/repo/lib".to_string()));
    assert_eq!(
        remapped("/repo/src/inner/a.rs", old, new),
        Some("/repo/lib/inner/a.rs".to_string())
    );
    assert_eq!(remapped("/repo/other.rs", old, new), None);
    assert_eq!(remapped("/repo/srcs/a.rs", old, new), None);
}

#[test]
fn only_plain_paths_inside_the_worktree_are_operable() {
    let root = path("/repo");
    assert!(is_inside_worktree(&root, &path("/repo/src/main.rs")));
    assert!(!is_inside_worktree(&root, &path("/repo")));
    assert!(!is_inside_worktree(&root, &path("/elsewhere/a.rs")));
    assert!(!is_inside_worktree(&root, &path("/repo/../escape.rs")));
}

/// Paths in many spellings.
const SPELLINGS: [&str; 26] = [
    "", "/", "//", "/.", "/..", ".", "..", "./", "../", "a", "a/", "a//", "a/.", "a/./", "./a",
    ".//a", "a/b", "a//b", "a/./b", "/a", "//a", "/./a", "/a//b/./c/.", "a/../b", "/a/b", ".a/..b",
];

fn shown(path: Option<FilePath>) -> Option<String> {
    path.map(|path| path.display())
}

fn shown_std(path: Option<&Path>) -> Option<String> {
    path.map(|path| path.display().to_string())
}

#[test]
fn a_path_is_shown_as_it_was_given() {
    for text in SPELLINGS {
        assert_eq!(path(text).display(), text);
        assert_eq!(path(text).display(), Path::new(text).display().to_string());
        assert_eq!(path(text).clone().display(), text);
    }
}

#[test]
fn a_path_is_its_components() {
    for text in SPELLINGS {
        let std = Path::new(text);
        let ours = path(text);
        assert_eq!(ours.part_count(), std.components().count(), "{text:?}");
        assert_eq!(shown(ours.parent()), shown_std(std.parent()), "{text:?}");
        let name = std.file_name().map(|name| name.to_string_lossy().into_owned());
        assert_eq!(ours.file_name(), name, "{text:?}");
        for (count, above) in std.ancestors().enumerate().skip(1) {
            let front = ours.prefix(ours.part_count() - count);
            assert_eq!(front.display(), above.display().to_string(), "{text:?}");
        }
    }
}

#[test]
fn two_paths_go_together_as_they_do_in_std() {
    for one in SPELLINGS {
        for other in SPELLINGS {
            let (a, b) = (path(one), path(other));
            let (x, y) = (Path::new(one), Path::new(other));
            assert_eq!(a.same(&b), x == y, "{one:?} {other:?}");
            assert_eq!(a.starts_with(&b), x.starts_with(y), "{one:?} {other:?}");
            assert_eq!(a.join(&b).display(), x.join(y).display().to_string(), "{one:?} {other:?}");
            assert_eq!(
                shown(a.strip_prefix(&b)),
                shown_std(x.strip_prefix(y).ok()),
                "{one:?} {other:?}"
            );
        }
    }
}

#[test]
fn the_text_of_a_path_reads_back_as_the_path() {
    for text in SPELLINGS {
        let read = path(text);
        assert!(path(&read.display()).same(&read));
    }
}

/// A path of a platform where `\\` separates too, with what stands before its
/// root.
fn back(prefix: &str, body: &str) -> FilePath {
    let letters = body.chars().map(|c| if c == '\\' { Letter::Back } else { Letter::Char(c) });
    FilePath::with_prefix(prefix, letters.collect())
}

#[test]
fn where_backslashes_separate_they_part_components_and_are_shown() {
    let relative = back("", "src\\deep/a.rs");
    assert_eq!(relative.part_count(), 3);
    assert!(relative.same(&path("src/deep/a.rs")));
    assert_eq!(relative.display(), "src\\deep/a.rs");
    assert_eq!(relative.file_name().as_deref(), Some("a.rs"));
    assert_eq!(shown(relative.parent()).as_deref(), Some("src\\deep"));
    assert_eq!(relative.join(&path("b")).display(), "src\\deep/a.rs\\b");
    assert_eq!(path("src\\a.rs").part_count(), 1, "elsewhere it is a character");

    let root = back("C:", "\\repo");
    let file = back("c:", "\\repo\\src\\a.rs");
    assert_eq!(file.display(), "c:\\repo\\src\\a.rs");
    assert_eq!(file.part_count(), 5);
    assert!(file.starts_with(&root), "a drive is the same in small letters");
    assert_eq!(shown(file.strip_prefix(&root)).as_deref(), Some("src\\a.rs"));
    assert!(is_inside_worktree(&root, &file));
    assert!(!back("D:", "\\repo\\a").starts_with(&root));
    assert_eq!(root.join(&path("b")).display(), "C:\\repo\\b");
    assert_eq!(root.join(&back("D:", "\\x")).display(), "D:\\x");
    assert_eq!(root.join(&back("", "\\x")).display(), "C:\\x");
    assert_eq!(shown(root.parent()).as_deref(), Some("C:\\"));
    assert_eq!(shown(back("C:", "\\").parent()), None);
    assert_eq!(shown(back("C:", "").parent()), None);
    assert_eq!(back("C:", "").join(&path("a")).display(), "C:a");
    assert_eq!(back("C:", "\\").join(&path("a")).display(), "C:\\a");
    assert_eq!(back("C:", "\\").file_name(), None);
    let moved = remap_path(&file, &root, &back("C:", "\\other")).expect("below");
    assert_eq!(moved.display(), "C:\\other\\src\\a.rs");
    let prefix: String = file.prefix_chars().iter().collect();
    assert_eq!(prefix, "c:");
}

#[test]
fn a_name_that_is_no_text_is_kept_and_shown_with_a_sign() {
    let odd = |number: u32| {
        FilePath::from_letters(vec![
            Letter::Char('/'),
            Letter::Char('a'),
            Letter::Char('/'),
            Letter::Char('b'),
            Letter::Stray(number),
        ])
    };
    assert_eq!(odd(0x1ff).display(), "/a/b\u{fffd}");
    assert_eq!(odd(0x1ff).file_name().as_deref(), Some("b\u{fffd}"));
    assert!(odd(0x1ff).same(&odd(0x1ff)));
    assert!(!odd(0x1ff).same(&odd(0x1fe)), "they only look alike");
    assert!(!odd(0x1ff).same(&path("/a/b\u{fffd}")));
    assert_eq!(shown(odd(0x1ff).strip_prefix(&path("/a"))).as_deref(), Some("b\u{fffd}"));
    assert!(is_inside_worktree(&path("/a"), &odd(0x1ff)));
    assert!(!is_text_inside(&path("/a"), &odd(0x1ff)));
    assert!(is_text_inside(&path("/a"), &path("/a//b")));
    assert_eq!(odd(0x1ff).as_letters().len(), 5);
}

#[test]
fn parents_and_names() {
    assert_eq!(path("/a/b").parent().map(|p| p.display()), Some("/a".to_string()));
    assert_eq!(path("/a").parent().map(|p| p.display()), Some("/".to_string()));
    assert!(path("/").parent().is_none());
    assert!(path("").parent().is_none());
    assert_eq!(path("a").parent().map(|p| p.display()), Some(String::new()));
    assert_eq!(path("/a/b.rs").file_name(), Some("b.rs".to_string()));
    assert_eq!(path("/").file_name(), None);
    assert_eq!(path("a/..").file_name(), None);
}

#[test]
fn joining_goes_below_or_starts_anew() {
    assert_eq!(path("/a").join(&path("b/c")).display(), "/a/b/c");
    assert_eq!(path("/a").join(&path("/b")).display(), "/b");
    assert_eq!(path("/a").join(&path("./b")).display(), "/a/./b");
    assert!(path("/a").join(&path("./b")).same(&path("/a/b")));
    assert_eq!(path("").join(&path("b")).display(), "b");
    assert_eq!(path("/a").join(&path("")).display(), "/a/");
}

#[test]
fn a_rename_and_the_rename_back_bring_a_path_home() {
    let there = remapped("/repo/src/a/b.rs", "/repo/src", "/repo/lib/inner").expect("moved");
    assert_eq!(there, "/repo/lib/inner/a/b.rs");
    assert_eq!(
        remapped(&there, "/repo/lib/inner", "/repo/src"),
        Some("/repo/src/a/b.rs".to_string())
    );
}

#[test]
fn relative_paths_fall_back_to_the_path_itself() {
    assert_eq!(worktree_relative(&path("/repo"), &path("/repo/src/a.rs")).display(), "src/a.rs");
    assert_eq!(worktree_relative(&path("/repo"), &path("/other/a.rs")).display(), "/other/a.rs");
    assert_eq!(worktree_relative(&path("/repo"), &path("/repo")).display(), "");
}

#[test]
fn a_path_set_holds_each_path_once() {
    let mut set = PathSet::new();
    assert!(set.is_empty());
    assert!(set.insert(path("a/b")));
    assert!(!set.insert(path("a//b")));
    assert!(set.insert(path("c")));
    assert_eq!(set.len(), 2);
    assert!(set.contains(&path("a/b")));
    assert!(set.remove(&path("a/b")));
    assert!(!set.remove(&path("a/b")));
    assert_eq!(set.any().map(|p| p.display()), Some("c".to_string()));
}

#[test]
fn a_path_set_follows_a_rename_and_forgets_a_subtree() {
    let mut set = PathSet::new();
    for text in ["src/a.rs", "src/deep/b.rs", "srcs/c.rs"] {
        set.insert(path(text));
    }
    set.remap(&path("src"), &path("lib"));
    let mut shown: Vec<String> = set.to_vec().iter().map(|p| p.display()).collect();
    shown.sort();
    assert_eq!(shown, vec!["lib/a.rs", "lib/deep/b.rs", "srcs/c.rs"]);
    set.remove_under(&path("lib/deep"));
    let mut shown: Vec<String> = set.to_vec().iter().map(|p| p.display()).collect();
    shown.sort();
    assert_eq!(shown, vec!["lib/a.rs", "srcs/c.rs"]);
    let mut others = PathSet::new();
    others.insert(path("srcs/c.rs"));
    set.intersect(&others);
    assert_eq!(set.len(), 1);
}

#[test]
fn a_table_has_one_value_under_each_key() {
    let mut table: Table<FilePath, u32> = Table::new();
    table.insert(path("a"), 1);
    table.insert(path("a"), 2);
    table.insert(path("a/b"), 3);
    table.insert(path("c"), 4);
    assert_eq!(table.get(&path("a")), Some(&2));
    table.remove_under(&path("a"));
    assert!(!table.contains_key(&path("a/b")));
    assert_eq!(table.get(&path("c")), Some(&4));
    assert!(table.remove(&path("c")));
    assert_eq!(table.get(&path("c")), None);
    assert!(table.drain().is_empty());
}
