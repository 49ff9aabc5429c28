use std::cmp::Ordering;

use cbz_viewer::util::archive_path::{
    is_supported_archive_path, is_supported_image_name, is_supported_image_path,
};
use cbz_viewer::util::book_nav::{
    adjacent_paths, is_supported_navigation_book_path, list_supported_books_in_dir,
    list_supported_navigation_books_in_dir, move_target_index, move_target_path,
    move_target_path_at, move_target_path_from_insertion_index, paths_beside, sort_named_books,
    DirListing, NamedPath, NavDirection,
};
use cbz_viewer::util::natural_sort::{compare, is_naturally_before};
use cbz_viewer::util::path_eq::{
    normalize_path_for_override, normalize_path_for_selection, paths_equivalent_for_selection,
};

fn strings(items: &[&str]) -> Vec<String> {
    items.iter().map(|item| item.to_string()).collect()
}

#[test]
fn archives_are_told_by_extension() {
    for path in ["a.cbz", "/x/b.ZIP", "c.rar", "d.cbr", "e.epub", "/x/y.tar.cbz"] {
        assert!(is_supported_archive_path(path), "{}", path);
    }
    for path in ["a", "a.", ".cbz", "a.7z", "/x/..", "dir/a.cbz/", ""] {
        let by_std = std::path::Path::new(path)
            .extension()
            .and_then(|ext| ext.to_str())
            .map(|ext| ["cbz", "zip", "rar", "cbr", "epub"].contains(&ext.to_lowercase().as_str()))
            .unwrap_or(false);
        assert_eq!(is_supported_archive_path(path), by_std, "{}", path);
    }
}

#[test]
fn images_are_told_by_extension() {
    for ext in ["jpg", "jpeg", "png", "webp", "gif", "avif", "avifs", "bmp", "tif", "tiff", "PNG"] {
        assert!(is_supported_image_name(ext));
        assert!(is_supported_image_path(&format!("/pics/a.{}", ext)));
    }
    assert!(!is_supported_image_name("svg"));
    assert!(!is_supported_image_name(""));
    assert!(!is_supported_image_path("png"));
    assert!(!is_supported_image_path("/pics/.png"));
}

#[test]
fn digits_count_as_numbers() {
    assert_eq!(compare("rfc1.txt", "rfc822.txt"), Ordering::Less);
    assert_eq!(compare("rfc2086.txt", "rfc822.txt"), Ordering::Greater);
    assert_eq!(compare("a", "a"), Ordering::Equal);
    assert!(is_naturally_before("vol 2", "vol 10"));
    assert!(!is_naturally_before("vol 10", "vol 2"));
}

#[test]
fn books_are_listed_in_natural_order() {
    let files = strings(&["/b/vol10.cbz", "/b/vol2.zip", "/b/readme.txt", "/b/vol1.rar"]);
    assert_eq!(
        list_supported_books_in_dir(&files),
        strings(&["/b/vol1.rar", "/b/vol2.zip", "/b/vol10.cbz"])
    );
}

#[test]
fn folders_with_images_are_books_too() {
    let files = strings(&["/b/vol10.cbz", "/b/vol2.zip"]);
    let dirs = vec![
        DirListing {
            path: "/b/vol3".to_string(),
            files: strings(&["/b/vol3/001.jpg"]),
        },
        DirListing {
            path: "/b/notes".to_string(),
            files: strings(&["/b/notes/a.txt"]),
        },
        DirListing {
            path: "/b/vol2.zip".to_string(),
            files: strings(&["/b/vol2.zip/001.png"]),
        },
    ];
    assert_eq!(
        list_supported_navigation_books_in_dir(&files, &dirs),
        strings(&["/b/vol2.zip", "/b/vol3", "/b/vol10.cbz"])
    );
}

#[test]
fn navigation_books_depend_on_what_is_on_disk() {
    let none: Vec<String> = Vec::new();
    let pictures = strings(&["/x/a.txt", "/x/b.png"]);
    assert!(is_supported_navigation_book_path("/x.cbz", true, false, &none));
    assert!(!is_supported_navigation_book_path("/x.cbz", false, false, &pictures));
    assert!(!is_supported_navigation_book_path("/x.txt", true, false, &none));
    assert!(is_supported_navigation_book_path("/x", false, true, &pictures));
    assert!(!is_supported_navigation_book_path("/x", false, true, &none));
}

#[test]
fn neighbours_of_a_path() {
    let paths = strings(&["/a", "/b", "/c"]);
    assert_eq!(
        adjacent_paths(&paths, "/b"),
        (Some("/a".to_string()), Some("/c".to_string()))
    );
    assert_eq!(adjacent_paths(&paths, "/a"), (None, Some("/b".to_string())));
    assert_eq!(adjacent_paths(&paths, "/c"), (Some("/b".to_string()), None));
    assert_eq!(adjacent_paths(&paths, "/d"), (None, None));
    assert_eq!(
        adjacent_paths(&paths, "//b").0.is_some(),
        std::path::Path::new("/b") == std::path::Path::new("//b")
    );
    assert_eq!(
        adjacent_paths(&paths, "/b/"),
        (Some("/a".to_string()), Some("/c".to_string()))
    );
}

#[test]
fn moves_stop_at_the_ends_or_wrap() {
    assert_eq!(move_target_index(3, 1, NavDirection::Next, false), Some(2));
    assert_eq!(move_target_index(3, 2, NavDirection::Next, false), None);
    assert_eq!(move_target_index(3, 2, NavDirection::Next, true), Some(0));
    assert_eq!(move_target_index(3, 0, NavDirection::Previous, true), None);
    assert_eq!(move_target_index(3, 3, NavDirection::Previous, true), None);
    assert_eq!(move_target_index(1, 0, NavDirection::Next, true), None);
    assert_eq!(move_target_index(0, 0, NavDirection::Next, true), None);
}

#[test]
fn moves_by_path() {
    let paths = strings(&["/a", "/b", "/c"]);
    assert_eq!(
        move_target_path(&paths, "/c", NavDirection::Next, true),
        Some("/a".to_string())
    );
    assert_eq!(
        move_target_path(&paths, "/c", NavDirection::Previous, false),
        Some("/b".to_string())
    );
    assert_eq!(move_target_path(&paths, "/x", NavDirection::Next, true), None);
}

#[test]
fn moves_from_a_place_between_paths() {
    let paths = strings(&["/a", "/b"]);
    let go = |index, direction, wrap| {
        move_target_path_from_insertion_index(&paths, index, direction, wrap)
    };
    assert_eq!(go(1, NavDirection::Previous, false), Some("/a".to_string()));
    assert_eq!(go(1, NavDirection::Next, false), Some("/b".to_string()));
    assert_eq!(go(0, NavDirection::Previous, true), None);
    assert_eq!(go(2, NavDirection::Next, false), None);
    assert_eq!(go(2, NavDirection::Next, true), Some("/a".to_string()));
    assert_eq!(go(9, NavDirection::Previous, true), None);
    assert_eq!(
        move_target_path_from_insertion_index(&Vec::new(), 0, NavDirection::Next, true),
        None
    );
}

#[test]
fn a_step_and_its_undoing() {
    for current in 0..4usize {
        if let Some(next) = move_target_index(4, current, NavDirection::Next, false) {
            assert_eq!(
                move_target_index(4, next, NavDirection::Previous, false),
                Some(current)
            );
        }
    }
}

#[test]
fn selection_form_elsewhere_has_slashes() {
    assert_eq!(normalize_path_for_selection("a\\B/c", false), "a/B/c");
    assert_eq!(normalize_path_for_override("a\\B/c", false), "a/B/c");
    assert!(paths_equivalent_for_selection("a\\b", "a/b", false));
    assert!(!paths_equivalent_for_selection("a/B", "a/b", false));
}

#[test]
fn selection_form_on_windows_folds_case_and_prefixes() {
    assert_eq!(
        normalize_path_for_selection("\\\\?\\C:\\Books/A.CBZ", true),
        "c:\\books\\a.cbz"
    );
    assert_eq!(
        normalize_path_for_selection("\\\\?\\UNC\\Server\\Share", true),
        "\\\\server\\share"
    );
    assert_eq!(normalize_path_for_selection("C:/X", true), "c:\\x");
    assert!(paths_equivalent_for_selection("C:/Books/a.cbz", "\\\\?\\c:\\books\\A.cbz", true));
    let once = normalize_path_for_selection("C:/Books/a.cbz", true);
    assert_eq!(normalize_path_for_selection(&once, true), once);
}

#[test]
fn paths_on_a_drive() {
    assert!(is_supported_archive_path("C:\\Books\\a.CBZ"));
    assert!(is_supported_archive_path("C:a.cbz"));
    assert!(!is_supported_archive_path("C:\\a.cbz\\b"));
    assert!(is_supported_image_path("D:\\pics/x.y.webp"));
    let paths = strings(&["C:\\a.cbz", "C:\\b.cbz"]);
    assert_eq!(
        adjacent_paths(&paths, "C:\\b.cbz"),
        (Some("C:\\a.cbz".to_string()), None)
    );
    let files = strings(&["C:\\b\\vol10.cbz", "C:\\b\\vol9.cbz"]);
    assert_eq!(
        list_supported_books_in_dir(&files),
        strings(&["C:\\b\\vol9.cbz", "C:\\b\\vol10.cbz"])
    );
}

#[test]
fn the_other_way_round_is_the_opposite() {
    for (a, b) in [("a1", "a2"), ("a10", "a9"), ("015", "12"), ("a b", "ab"), ("", "x")] {
        assert_eq!(compare(a, b), compare(b, a).reverse());
    }
}

#[test]
fn paths_on_a_share() {
    assert!(is_supported_archive_path("\\\\server\\share\\a.cbz"));
    assert!(is_supported_archive_path("//server/share/x/a.cbz"));
    assert!(is_supported_archive_path("\\\\?\\C:\\Books\\a.cbz"));
    assert!(!is_supported_archive_path("\\\\server\\share\\a"));
    let files = strings(&["\\\\server\\share\\b.cbz", "\\\\server\\share\\a.cbz"]);
    assert_eq!(
        list_supported_books_in_dir(&files),
        strings(&["\\\\server\\share\\a.cbz", "\\\\server\\share\\b.cbz"])
    );
    let dirs = vec![DirListing {
        path: "\\\\server\\share\\c".to_string(),
        files: strings(&["\\\\server\\share\\c\\.x", "\\\\server\\share\\c\\1.png"]),
    }];
    assert_eq!(list_supported_navigation_books_in_dir(&files, &dirs).len(), 3);
}

#[test]
fn one_image_among_odd_files_makes_a_book() {
    let files = strings(&["/x/.png", "C:\\x\\.y", "/x/z.txt", "/x/p.jpg"]);
    assert!(is_supported_navigation_book_path("/x", false, true, &files));
    assert!(!is_supported_navigation_book_path("/x.cbz", false, true, &strings(&["/x.cbz/a.txt"])));
}

#[test]
fn neighbours_are_mutual() {
    let paths = strings(&["/a", "\\\\s\\t\\b", "C:\\c", "/d"]);
    for i in 0..paths.len() - 1 {
        assert_eq!(adjacent_paths(&paths, &paths[i]).1.as_ref(), Some(&paths[i + 1]));
        assert_eq!(adjacent_paths(&paths, &paths[i + 1]).0.as_ref(), Some(&paths[i]));
    }
    assert_eq!(adjacent_paths(&paths, &paths[0]).0, None);
    assert_eq!(adjacent_paths(&paths, &paths[3]).1, None);
}

#[test]
fn steps_lead_to_the_neighbours() {
    let paths = strings(&["/a", "\\\\s\\t\\b", "C:\\c"]);
    for path in paths.iter().map(String::as_str).chain(["/x"]) {
        let (before, behind) = adjacent_paths(&paths, path);
        for wrap in [false, true] {
            assert_eq!(move_target_path(&paths, path, NavDirection::Previous, wrap), before);
        }
        assert_eq!(move_target_path(&paths, path, NavDirection::Next, false), behind);
        let wrapped = if path == paths[2] {
            Some(paths[0].clone())
        } else {
            behind
        };
        assert_eq!(move_target_path(&paths, path, NavDirection::Next, true), wrapped);
    }
}

#[test]
fn deletion_keeps_the_targets() {
    for count in 1..5usize {
        let paths: Vec<String> = (0..count).map(|i| format!("/{}", i)).collect();
        for i in 0..count {
            let mut rest = paths.clone();
            rest.remove(i);
            for direction in [NavDirection::Previous, NavDirection::Next] {
                for wrap in [false, true] {
                    assert_eq!(
                        move_target_path_from_insertion_index(&rest, i, direction, wrap),
                        move_target_path(&paths, &paths[i], direction, wrap)
                    );
                }
            }
        }
    }
}

#[test]
fn slashes_and_dots_that_every_platform_passes_over() {
    assert!(is_supported_archive_path("a.cbz/"));
    assert!(is_supported_archive_path("a.cbz/."));
    assert!(is_supported_image_path("x//a.png//"));
    assert!(!is_supported_archive_path("a.cbz/.."));
    assert!(!is_supported_archive_path("."));
    let paths = strings(&["x/a", "x/b", "x/c"]);
    for current in ["x//b", "x/./b", "x/b/", "x/b/."] {
        assert_eq!(
            adjacent_paths(&paths, current),
            (Some("x/a".to_string()), Some("x/c".to_string()))
        );
    }
    assert_eq!(adjacent_paths(&paths, "./x/b"), (None, None));
    assert_eq!(adjacent_paths(&paths, "/x/b"), (None, None));
}

#[test]
fn books_are_sorted_by_the_names_beside_them() {
    let item = |path: &str, name: &str| NamedPath {
        path: path.to_string(),
        name: name.to_string(),
    };
    assert_eq!(
        sort_named_books(vec![item("x", "b10"), item("y", "b9"), item("z", "b10"), item("w", "")]),
        strings(&["w", "y", "x", "z"])
    );
}

#[test]
fn steps_from_a_position() {
    let paths = strings(&["/a", "/b"]);
    assert_eq!(paths_beside(&paths, Some(1)), (Some("/a".to_string()), None));
    assert_eq!(paths_beside(&paths, None), (None, None));
    assert_eq!(
        move_target_path_at(&paths, Some(1), NavDirection::Next, true),
        Some("/a".to_string())
    );
    assert_eq!(move_target_path_at(&paths, None, NavDirection::Next, true), None);
}
