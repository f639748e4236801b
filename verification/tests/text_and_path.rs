use home_symlink::path::{expand_home, join};
use home_symlink::text::{chars_of, find, trim_range, white_space};
use std::path::Path;

fn trim(s: &str) -> String {
    let chars = chars_of(s);
    let (lo, hi) = trim_range(&chars, 0, chars.len());
    chars[lo..hi].iter().collect()
}

#[test]
fn white_space_agrees_with_std_on_every_char() {
    let mut code: u32 = 0;
    while code <= 0x10FFFF {
        if let Some(c) = char::from_u32(code) {
            assert_eq!(white_space(c), c.is_whitespace(), "U+{:04X}", code);
        }
        code += 1;
    }
}

#[test]
fn white_space_on_named_characters() {
    assert!(white_space(' '));
    assert!(white_space('\t'));
    assert!(white_space('\n'));
    assert!(white_space('\r'));
    assert!(white_space('\u{85}'));
    assert!(white_space('\u{a0}'));
    assert!(white_space('\u{1680}'));
    assert!(white_space('\u{2000}'));
    assert!(white_space('\u{200a}'));
    assert!(white_space('\u{2028}'));
    assert!(white_space('\u{3000}'));
    assert!(!white_space('='));
    assert!(!white_space('a'));
    assert!(!white_space('\u{8}'));
    assert!(!white_space('\u{e}'));
    assert!(!white_space('\u{200b}'));
    assert!(!white_space('\u{180e}'));
    assert!(!white_space('\u{feff}'));
}

#[test]
fn chars_of_keeps_every_character_in_order() {
    assert_eq!(chars_of(""), Vec::<char>::new());
    assert_eq!(chars_of("a=b"), vec!['a', '=', 'b']);
    assert_eq!(chars_of("\u{e9}t\u{e9} \u{2713}"), vec!['\u{e9}', 't', '\u{e9}', ' ', '\u{2713}']);
}

#[test]
fn trimming_agrees_with_std() {
    let samples = [
        "",
        " ",
        "\t \r\n",
        "a",
        " a",
        "a ",
        "  a b  ",
        "\u{3000}a\u{a0}b\u{2003}",
        "\u{200b} a \u{200b}",
        " = ",
        "\n\n~/x = y\r\n",
    ];
    for s in samples {
        assert_eq!(trim(s), s.trim(), "{:?}", s);
    }
}

#[test]
fn trim_range_stays_within_its_bounds() {
    let chars = chars_of("ab  cd  ef");
    assert_eq!(trim_range(&chars, 2, 8), (4, 6));
    assert_eq!(trim_range(&chars, 2, 4), (4, 4));
    assert_eq!(trim_range(&chars, 0, 10), (0, 10));
    assert_eq!(trim_range(&chars, 5, 5), (5, 5));
    assert_eq!(trim_range(&chars, 1, 9), (1, 9));
}

#[test]
fn find_returns_the_first_occurrence_or_the_upper_bound() {
    let chars = chars_of("a=b=c");
    assert_eq!(find(&chars, '=', 0, 5), 1);
    assert_eq!(find(&chars, '=', 2, 5), 3);
    assert_eq!(find(&chars, '=', 4, 5), 5);
    assert_eq!(find(&chars, 'x', 0, 5), 5);
    assert_eq!(find(&chars, 'a', 0, 0), 0);
    assert_eq!(find(&chars, '=', 0, 1), 1);
}

#[test]
fn join_puts_a_separator_between_base_and_relative_path() {
    assert_eq!(join("/pkgs/fish", "config.fish"), "/pkgs/fish/config.fish");
    assert_eq!(join("/pkgs/fish/", "config.fish"), "/pkgs/fish/config.fish");
    assert_eq!(join("/pkgs/fish", "conf.d/a.fish"), "/pkgs/fish/conf.d/a.fish");
    assert_eq!(join("/", "etc"), "/etc");
    assert_eq!(join("", "etc"), "etc");
    assert_eq!(join("/pkgs/fish", ""), "/pkgs/fish/");
    assert_eq!(join("", ""), "");
}

#[test]
fn join_lets_an_absolute_path_replace_the_base() {
    assert_eq!(join("/pkgs/fish", "/etc/fish"), "/etc/fish");
    assert_eq!(join("", "/"), "/");
    assert_eq!(join("relative", "/abs"), "/abs");
}

#[test]
fn join_agrees_with_std_paths() {
    let bases = ["", "/", "/a", "/a/", "a", "a/b", "a/b/", "/a//", ".", "..", "~"];
    let rels = ["", "/", "x", "x/", "/x", "x/y", "./x", "../x", "//x", ".symlink", "~"];
    for base in bases {
        for rel in rels {
            let expected = Path::new(base).join(rel);
            assert_eq!(
                join(base, rel).as_str(),
                expected.to_str().unwrap(),
                "{:?} joined with {:?}",
                base,
                rel
            );
        }
    }
}

#[test]
fn expand_home_replaces_the_shorthand() {
    assert_eq!(expand_home("~/.config/fish/config.fish", Some("/home/u")), "/home/u/.config/fish/config.fish");
    assert_eq!(expand_home("~/x", Some("/home/u/")), "/home/u/x");
    assert_eq!(expand_home("~/", Some("/home/u")), "/home/u/");
    assert_eq!(expand_home("~/x", Some("")), "x");
}

#[test]
fn expand_home_leaves_other_paths_alone() {
    assert_eq!(expand_home("/etc/fish", Some("/home/u")), "/etc/fish");
    assert_eq!(expand_home("config.fish", Some("/home/u")), "config.fish");
    assert_eq!(expand_home("~", Some("/home/u")), "~");
    assert_eq!(expand_home("~x/y", Some("/home/u")), "~x/y");
    assert_eq!(expand_home("a/~/b", Some("/home/u")), "a/~/b");
    assert_eq!(expand_home("", Some("/home/u")), "");
}

#[test]
fn expand_home_without_a_home_directory_changes_nothing() {
    assert_eq!(expand_home("~/x", None), "~/x");
    assert_eq!(expand_home("/x", None), "/x");
    assert_eq!(expand_home("", None), "");
}

#[test]
fn expand_home_stays_under_the_home_directory() {
    assert_eq!(expand_home("~//etc/passwd", Some("/home/u")), "/home/u/etc/passwd");
    assert_eq!(expand_home("~///x", Some("/home/u")), "/home/u/x");
    assert_eq!(expand_home("~//", Some("/home/u")), "/home/u/");
    assert_eq!(expand_home("~//x//y", Some("/home/u/")), "/home/u/x//y");
    assert_eq!(expand_home("~//x", None), "~//x");
}
