use gitignored::gitignore::Gitignore;
use gitignored::matcher::MatchOptions;

const ROOT: &str = "/home/user/project";

fn engine() -> Gitignore {
    Gitignore::new(String::from(ROOT), MatchOptions::new())
}

fn join(ig: &Gitignore, path: &str) -> String {
    format!("{}/{}", ig.root, path)
}

#[test]
fn multiple_lines() {
    let ig = engine();

    let a = vec!["lib/", "!lib/*.js"];
    let b = vec!["lib", "!lib/*.js"];
    let c = vec!["!lib/*.js", "lib"];
    let d = vec!["lib/", "!lib/deep/include.js"];
    let e = vec!["/lib/", "!/lib/deep/"];

    let f = vec!["lib/", "!/lib/"];

    let g = vec!["!/lib/", "lib/"];
    let h = vec!["**/remove-items.js"];
    let i = vec!["remove-items*"];
    let j = vec!["remove*, !remove-items.js"];

    let k = vec!["lib/*.js", "!lib/include.js"];
    let l = vec!["lib/*.js", "!lib/"];
    let m = vec!["lib/", "!lib/"];
    let n = vec!["lib/", "!/lib/"];

    let o = vec!["*.js", "!lib.js"];
    let p = vec!["src/*.js", "target/"];

    assert!(ig.ignores(&a, &join(&ig, "lib/include.js")));

    assert!(ig.ignores(&c, &join(&ig, "lib/include.js")));
    assert!(ig.ignores(&d, &join(&ig, "lib/deep/include.js")));
    assert!(ig.ignores(&e, &join(&ig, "lib/deep/include.js")));

    assert!(ig.ignores(&g, &join(&ig, "deep/lib/include.js")));
    assert!(ig.ignores(&h, &join(&ig, "deep/lib/remove-items.js")));
    assert!(ig.ignores(&i, &join(&ig, "deep/lib/remove-items.js")));
    assert!(ig.ignores(&p, &join(&ig, "src/lib.js")));

    assert!(!ig.ignores(&j, &join(&ig, "deep/lib/remove-items.js")));
    assert!(!ig.ignores(&k, &join(&ig, "lib/include.js")));
    assert!(!ig.ignores(&l, &join(&ig, "lib/include.js")));
    assert!(!ig.ignores(&m, &join(&ig, "lib/include.js")));
    assert!(!ig.ignores(&n, &join(&ig, "lib/include.js")));
    assert!(!ig.ignores(&o, &join(&ig, "src/lib.js")));
    assert!(ig.ignores(&b, &join(&ig, "lib/include.js")));

    assert!(ig.ignores(&d, &join(&ig, "lib/deep/ignored.js")));
    assert!(ig.ignores(&f, &join(&ig, "deep/lib/include.js")));
}

#[test]
fn single_rule_matches_at_the_root_and_below() {
    let ig = engine();
    let rules = vec!["*.js"];
    assert!(ig.ignores(&rules, &join(&ig, "module.js")));
    assert!(ig.ignores(&rules, &join(&ig, "dist/module.js")));
    assert!(!ig.ignores(&rules, &join(&ig, "module.rs")));
}

#[test]
fn leading_slash_anchors_to_the_root() {
    let ig = engine();
    let rules = vec!["/lib.js"];
    assert!(ig.ignores(&rules, &join(&ig, "lib.js")));
    assert!(!ig.ignores(&rules, &join(&ig, "lib/lib.js")));
}

#[test]
fn last_matching_rule_wins() {
    let ig = engine();
    assert!(!ig.ignores(&vec!["*.js", "!lib.js"], &join(&ig, "lib.js")));
    assert!(ig.ignores(&vec!["!lib.js", "*.js"], &join(&ig, "lib.js")));
    assert!(!ig.ignores(&vec!["*.js", "other", "!lib.js"], &join(&ig, "lib.js")));
}

#[test]
fn nested_negated_file_does_not_reopen_a_blocked_directory() {
    let ig = engine();
    let rules = vec!["lib/", "!lib/deep/include.js"];
    assert!(ig.ignores(&rules, &join(&ig, "lib/deep/include.js")));
}

#[test]
fn negating_the_same_directory_reopens_it() {
    let ig = engine();
    assert!(!ig.ignores(&vec!["lib/", "!lib/"], &join(&ig, "lib/x.js")));
    assert!(!ig.ignores(&vec!["lib/", "!/lib/"], &join(&ig, "lib/x.js")));
}

fn blocked(rules: &[&str]) -> Vec<String> {
    engine().find_ignored_dirs(rules).into_iter().map(|p| p.string).collect()
}

#[test]
fn blocked_directories_are_the_unnegated_directory_rules() {
    assert_eq!(blocked(&["lib/", "!lib/*.js"]), vec!["lib/"]);
    assert_eq!(blocked(&["lib/", "!lib/"]), Vec::<String>::new());
    assert_eq!(blocked(&["lib/", "!/lib/"]), Vec::<String>::new());
    assert_eq!(blocked(&["/lib/", "!/lib/deep/"]), vec!["/lib/"]);
    assert_eq!(blocked(&["lib/deep/", "!lib/"]), Vec::<String>::new());
    assert_eq!(blocked(&["/lib/", "!lib/"]), Vec::<String>::new());
    assert_eq!(blocked(&["/lib/deep/", "!lib/"]), Vec::<String>::new());
    assert_eq!(blocked(&["lib/*", "lib/", "/"]), vec!["lib/*", "lib/", "/"]);
    assert_eq!(blocked(&["lib"]), vec!["lib"]);
    assert_eq!(
        blocked(&["lib", "x.js", "!y/", "a/b", "*", "lib/**"]),
        vec!["lib", "a/b", "*", "lib/**"]
    );
    assert_eq!(blocked(&["a/b", "!a/"]), Vec::<String>::new());
    assert_eq!(blocked(&["a/b", "!/a/"]), Vec::<String>::new());
    assert_eq!(blocked(&["", " ", "!"]), Vec::<String>::new());
    assert_eq!(blocked(&[]), Vec::<String>::new());
}

#[test]
fn negation_of_a_parent_is_compared_letter_for_letter() {
    assert_eq!(blocked(&["lib/", "! lib/"]), vec!["lib/"]);
    assert_eq!(blocked(&["lib/", "!lib"]), vec!["lib/"]);
}

#[test]
fn no_rules_exclude_nothing() {
    let ig = engine();
    assert!(!ig.ignores(&[], &join(&ig, "lib/include.js")));
    assert!(!ig.ignores(&[], ROOT));
}

#[test]
fn rules_without_text_are_no_ops() {
    let ig = engine();
    assert!(!ig.ignores(&["", "   ", "\t", "!", "! "], &join(&ig, "lib/include.js")));
    assert!(ig.ignores(&["*.js", "", "!"], &join(&ig, "lib/include.js")));
    assert!(!ig.ignores(&["*.js", "!*.js", ""], &join(&ig, "lib/include.js")));
}

#[test]
fn rejected_rules_are_skipped_and_reported() {
    let ig = engine();
    let rules = vec!["a[", "*.js", "***", "lib/"];
    assert_eq!(ig.rejected_rules(&rules), vec![0, 2]);
    assert!(ig.ignores(&rules, &join(&ig, "x.js")));
    assert!(!ig.ignores(&rules, &join(&ig, "x.rs")));
    assert!(!ig.ignores(&["a["], &join(&ig, "a[")));
    assert_eq!(ig.rejected_rules(&["*.js", "lib/", "", "lib"]), Vec::<usize>::new());
    assert_eq!(ig.rejected_rules(&[]), Vec::<usize>::new());
}

#[test]
fn rejected_directories_are_reported() {
    let ig = engine();
    let rules = vec!["a[/", "lib/", "!b[/", "c[/*", "d["];
    assert_eq!(ig.rejected_directories(&rules), vec![0, 3, 4]);
    assert_eq!(ig.rejected_rules(&rules), vec![0, 2, 3, 4]);
    assert!(ig.ignores(&rules, &join(&ig, "lib/x.js")));
    assert!(!ig.ignores(&rules, &join(&ig, "a[/x.js")));
    assert_eq!(ig.rejected_directories(&["lib/", "lib", "!lib"]), Vec::<usize>::new());
    assert_eq!(ig.rejected_directories(&[]), Vec::<usize>::new());
}

#[test]
fn rooted_rule_of_either_kind_covers_what_lies_beneath_it() {
    let ig = engine();
    assert!(ig.ignores(&["src/lib"], &join(&ig, "src/lib")));
    assert!(ig.ignores(&["src/lib"], &join(&ig, "src/lib/x.js")));
    assert!(ig.ignores(&["src/lib"], &join(&ig, "src/lib/deep/x.js")));
    assert!(ig.ignores(&["src/lib"], &join(&ig, "src/library")));
    assert!(!ig.ignores(&["src/lib"], &join(&ig, "src/other/x.js")));
    assert!(!ig.ignores(&["src/lib"], &join(&ig, "deep/src/lib/x.js")));
    assert!(ig.ignores(&["/lib"], &join(&ig, "lib/x.js")));
    assert!(ig.ignores(&["src/lib", "!src/lib/x.js"], &join(&ig, "src/lib/x.js")));
    assert!(!ig.ignores(&["src/lib", "!src/lib"], &join(&ig, "src/lib")));
}

#[test]
fn rule_of_either_kind_blocks_what_lies_beneath_it() {
    let ig = engine();
    assert!(ig.ignores(&["lib"], &join(&ig, "lib/include.js")));
    assert!(ig.ignores(&["lib", "!lib/*.js"], &join(&ig, "lib/include.js")));
    assert!(ig.ignores(&["lib", "!include.js"], &join(&ig, "deep/lib/include.js")));
    assert!(!ig.ignores(&["lib", "!lib"], &join(&ig, "lib")));
    assert!(!ig.ignores(&["lib", "!library"], &join(&ig, "library")));
    assert!(!ig.ignores(&["*", "!keep.txt"], &join(&ig, "keep.txt")));
    assert!(ig.ignores(&["*", "!keep.txt"], &join(&ig, "other.txt")));
    assert!(ig.ignores(&["*", "!keep.txt"], &join(&ig, "sub/keep.txt")));
}

#[test]
fn negating_either_spelling_reopens_a_rooted_directory() {
    let ig = engine();
    assert!(ig.ignores(&["/lib/", "!lib/x.js"], &join(&ig, "lib/x.js")));
    assert!(!ig.ignores(&["/lib/", "!lib/"], &join(&ig, "lib/x.js")));
    assert!(!ig.ignores(&["/lib/", "!/lib/"], &join(&ig, "lib/x.js")));
}

#[test]
fn rule_for_all_children_blocks_the_directory() {
    let ig = engine();
    assert!(ig.ignores(&["lib/*", "!lib/keep.js"], &join(&ig, "lib/keep.js")));
    assert!(!ig.ignores(&["lib/*", "!lib/"], &join(&ig, "lib/keep.js")));
}

#[test]
fn directory_rule_covers_descendants_only() {
    let ig = engine();
    assert!(ig.ignores(&["/lib/"], &join(&ig, "lib/a/b/c.txt")));
    assert!(!ig.ignores(&["/lib/"], &join(&ig, "lib")));
    assert!(!ig.ignores(&["/lib/"], &join(&ig, "deep/lib/c.txt")));
    assert!(ig.ignores(&["lib/"], &join(&ig, "deep/lib/c.txt")));
}

#[test]
fn relative_wildcard_stays_within_one_segment() {
    let ig = engine();
    assert!(ig.ignores(&["src/*.js"], &join(&ig, "src/a.js")));
    assert!(!ig.ignores(&["src/*.js"], &join(&ig, "src/deep/a.js")));
}

#[test]
fn case_sensitivity_comes_from_the_options() {
    let loose = MatchOptions {
        case_sensitive: false,
        require_literal_separator: false,
        require_literal_leading_dot: false,
    };
    let ig = Gitignore::new(String::from(ROOT), loose);
    assert!(ig.ignores(&["*.JS"], &join(&ig, "lib.js")));
    assert!(!engine().ignores(&["*.JS"], &join(&ig, "lib.js")));
}

#[test]
fn stored_separator_flag_has_no_part_in_the_verdict() {
    let strict = MatchOptions {
        case_sensitive: true,
        require_literal_separator: true,
        require_literal_leading_dot: false,
    };
    let a = Gitignore::new(String::from(ROOT), strict);
    let b = engine();
    for rules in [vec!["lib/", "!lib/*.js"], vec!["*.js", "!lib.js"], vec!["lib"], vec!["src/*.js"]] {
        for path in ["lib/include.js", "src/lib.js", "lib.js", "src/deep/x.js"] {
            assert_eq!(a.ignores(&rules, &join(&a, path)), b.ignores(&rules, &join(&b, path)));
        }
    }
}

#[test]
fn repeated_calls_agree() {
    let ig = engine();
    let rules = vec!["lib/", "!lib/*.js", "*.log"];
    for path in ["lib/include.js", "a.log", "src/main.rs"] {
        let first = ig.ignores(&rules, &join(&ig, path));
        assert_eq!(ig.ignores(&rules, &join(&ig, path)), first);
        assert_eq!(ig.ignores(&rules, &join(&ig, path)), first);
    }
}
