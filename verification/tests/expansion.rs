use gitignored::gitignore::Gitignore;
use gitignored::matcher::MatchOptions;
use gitignored::pattern::Pattern;

fn engine() -> Gitignore {
    Gitignore::new(String::from("/root"), MatchOptions::new())
}

fn expand(rule: &str) -> (String, bool) {
    let ig = engine();
    let p = Pattern::new(rule);
    let spec = ig.make_full_path(&p, &p.string);
    (spec.expression, spec.options.require_literal_separator)
}

fn descendants(rule: &str) -> Option<String> {
    let ig = engine();
    let p = Pattern::new(rule);
    ig.make_full_path(&p, &p.string).descendants
}

#[test]
fn new_keeps_root_and_options() {
    let options = MatchOptions {
        case_sensitive: false,
        require_literal_separator: true,
        require_literal_leading_dot: true,
    };
    let ig = Gitignore::new(String::from("/r"), options);
    assert_eq!(ig.root, "/r");
    assert_eq!(ig.options, options);
}

#[test]
fn plain_options_are_case_sensitive_only() {
    let options = MatchOptions::new();
    assert!(options.case_sensitive);
    assert!(!options.require_literal_separator);
    assert!(!options.require_literal_leading_dot);
}

#[test]
fn relative_expressions_join_root_and_rule_by_one_slash() {
    let ig = engine();
    assert_eq!(ig.make_relative("lib/*.js"), "/root/lib/*.js");
    assert_eq!(ig.make_relative("/lib/"), "/root/lib/");
    assert_eq!(ig.make_relative("**/x.js"), "**/x.js");
    assert_eq!(ig.make_relative("lib/*"), "/root/lib/");
    assert_eq!(ig.make_relative("**/*"), "**/");
    assert_eq!(ig.make_relative(""), "/root/");
}

#[test]
fn anywhere_expressions_put_a_recursive_wildcard_behind_the_root() {
    let ig = engine();
    assert_eq!(ig.make_matchable_anywhere("*.js"), "/root/**/*.js");
    assert_eq!(ig.make_matchable_anywhere("lib/"), "/root/**/lib/");
    assert_eq!(ig.make_matchable_anywhere("remove-items*"), "/root/**/remove-items");
}

#[test]
fn expansion_by_kind_and_anchor() {
    assert_eq!(expand("/lib.js"), (String::from("/root/lib.js"), true));
    assert_eq!(expand("lib/*.js"), (String::from("/root/lib/*.js"), true));
    assert_eq!(expand("**/x.js"), (String::from("**/x.js"), true));
    assert_eq!(expand("*.js"), (String::from("/root/**/*.js"), false));
    assert_eq!(expand("/lib/"), (String::from("/root/lib/**/*"), true));
    assert_eq!(expand("lib/"), (String::from("/root/**/lib/**/*"), false));
    assert_eq!(expand("lib/deep"), (String::from("/root/lib/deep*"), true));
    assert_eq!(expand("lib"), (String::from("/root/**/lib*"), false));
    assert_eq!(expand("remove-items*"), (String::from("/root/**/remove-items*"), false));
    assert_eq!(expand("!lib/"), (String::from("/root/**/lib/**/*"), false));
}

#[test]
fn only_a_rooted_rule_of_either_kind_has_a_descendants_expression() {
    assert_eq!(descendants("lib/deep"), Some(String::from("/root/lib/deep/**/*")));
    assert_eq!(descendants("/lib"), Some(String::from("/root/lib/**/*")));
    assert_eq!(descendants("src/lib*"), Some(String::from("/root/src/lib*/**/*")));
    assert_eq!(descendants("**/lib"), Some(String::from("**/lib/**/*")));
    assert_eq!(descendants("lib"), None);
    assert_eq!(descendants("/lib/"), None);
    assert_eq!(descendants("lib/"), None);
    assert_eq!(descendants("/lib.js"), None);
    assert_eq!(descendants("*.js"), None);
}

#[test]
fn expansion_takes_kind_and_anchor_from_the_pattern_and_text_from_the_argument() {
    let ig = engine();
    let p = Pattern::new("/lib/");
    let spec = ig.make_full_path(&p, "other/");
    assert_eq!(spec.expression, "/root/other/**/*");
    assert!(spec.options.require_literal_separator);
}

#[test]
fn expansion_does_not_depend_on_the_stored_separator_flag() {
    for flag in [false, true] {
        let options = MatchOptions {
            case_sensitive: true,
            require_literal_separator: flag,
            require_literal_leading_dot: false,
        };
        let ig = Gitignore::new(String::from("/root"), options);
        let a = Pattern::new("lib/");
        let b = Pattern::new("/lib/");
        assert!(!ig.make_full_path(&a, &a.string).options.require_literal_separator);
        assert!(ig.make_full_path(&b, &b.string).options.require_literal_separator);
        assert_eq!(ig.make_full_path(&a, &a.string).expression, "/root/**/lib/**/*");
    }
}

#[test]
fn expansion_keeps_the_other_options() {
    let options = MatchOptions {
        case_sensitive: false,
        require_literal_separator: false,
        require_literal_leading_dot: true,
    };
    let ig = Gitignore::new(String::from("/root"), options);
    let p = Pattern::new("/lib.js");
    let spec = ig.make_full_path(&p, &p.string);
    assert!(!spec.options.case_sensitive);
    assert!(spec.options.require_literal_leading_dot);
    assert!(spec.options.require_literal_separator);
}

#[test]
fn directory_path_reads_the_text_as_a_directory() {
    let ig = engine();
    assert_eq!(ig.make_directory_path(&Pattern::new("lib/")).expression, "/root/**/lib/**/*");
    assert_eq!(ig.make_directory_path(&Pattern::new("/lib/")).expression, "/root/lib/**/*");
    assert_eq!(ig.make_directory_path(&Pattern::new("lib/*")).expression, "/root/lib/**/*");
    assert_eq!(ig.make_directory_path(&Pattern::new("lib")).expression, "/root/**/lib/**/*");
    assert_eq!(ig.make_directory_path(&Pattern::new("/lib")).expression, "/root/lib/**/*");
    assert_eq!(ig.make_directory_path(&Pattern::new("lib/")).descendants, None);
    assert!(ig.make_directory_path(&Pattern::new("/lib/")).options.require_literal_separator);
    assert!(!ig.make_directory_path(&Pattern::new("lib/")).options.require_literal_separator);
}
