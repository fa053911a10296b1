use flutter::order::{sort_texts, stands_before};
use flutter::paths::{file_name, join, parent, relative_path, PathStyle};
use flutter::text::{
    begins_with, chars_of, contains_text, decimal_text, ends_with, is_white_space, joined, replace_text, same_text,
    split_lines, string_of, trim, trim_breaks, trim_end,
};
use std::path::Path;

const SAMPLES: [&str; 12] = [
    "",
    " ",
    "\n",
    "plain",
    "  both \t\r\n",
    "a\nb\n\nc",
    "\u{a0}nbsp\u{3000}",
    "trailing\n\n\n",
    "\n\nleading",
    "caf\u{e9} \u{1f600}",
    "http://http://x",
    "aaaa",
];

#[test]
fn characters_come_back_as_they_were() {
    for s in SAMPLES {
        let chars = chars_of(s);
        assert_eq!(chars, s.chars().collect::<Vec<char>>());
        assert_eq!(string_of(&chars, 0, chars.len()), s);
    }
    assert_eq!(string_of(&chars_of("caf\u{e9}s"), 2, 4), "f\u{e9}");
}

#[test]
fn white_space_is_unicode_white_space() {
    for code in 0..=0x10ffffu32 {
        if let Some(c) = char::from_u32(code) {
            assert_eq!(is_white_space(c), c.is_whitespace(), "{:x}", code);
        }
    }
}

#[test]
fn trimming_agrees_with_str() {
    for s in SAMPLES {
        assert_eq!(trim(s), s.trim());
        assert_eq!(trim_end(s), s.trim_end());
        assert_eq!(trim_breaks(s), s.trim_end_matches('\n'));
    }
}

#[test]
fn lines_agree_with_str() {
    for s in SAMPLES {
        let expected: Vec<&str> = s.split('\n').collect();
        assert_eq!(split_lines(s), expected);
    }
    assert_eq!(split_lines("a\n\nb"), vec!["a", "", "b"]);
}

#[test]
fn lines_with_breaks_make_up_the_text() {
    for s in SAMPLES {
        let mut text = String::new();
        for line in split_lines(s) {
            assert!(!line.contains('\n'));
            text.push_str(&line);
            text.push('\n');
        }
        assert_eq!(text, format!("{}\n", s));
    }
}

#[test]
fn replacing_agrees_with_str() {
    for s in SAMPLES {
        for (from, to) in [("a", "bb"), ("aa", "b"), ("http://", "ws://"), ("\n", ""), ("\u{e9}", "e")] {
            assert_eq!(replace_text(s, from, to), s.replace(from, to));
        }
    }
}

#[test]
fn searching_agrees_with_str() {
    for s in SAMPLES {
        for p in ["", "a", "aa", "lead", "\n", "http://", "ing", "caf\u{e9}"] {
            assert_eq!(contains_text(s, p), s.contains(p));
            assert_eq!(begins_with(s, p), s.starts_with(p));
            assert_eq!(ends_with(s, p), s.ends_with(p));
            assert_eq!(same_text(s, p), s == p);
        }
    }
}

#[test]
fn decimals_agree_with_to_string() {
    for n in [0u64, 1, 9, 10, 11, 99, 100, 1234567890, u64::MAX] {
        assert_eq!(decimal_text(n), n.to_string());
    }
}

#[test]
fn joining_keeps_both_texts() {
    assert_eq!(joined("ab", "cd"), "abcd");
    assert_eq!(joined("", ""), "");
}

#[test]
fn order_agrees_with_str() {
    let samples = ["", "a", "a-b/lib", "a/lib", "ab", "b", "\u{e9}", "\u{1f600}", "\u{fb01}"];
    for a in samples {
        for b in samples {
            assert_eq!(stands_before(a, b), a <= b, "{} {}", a, b);
        }
    }
}

#[test]
fn sorting_agrees_with_sort() {
    let mut v: Vec<String> = vec!["b", "a/lib", "a-b/lib", "", "a/lib", "\u{e9}", "Z"]
        .into_iter()
        .map(|s| s.to_string())
        .collect();
    let mut expected = v.clone();
    expected.sort();
    sort_texts(&mut v);
    assert_eq!(v, expected);
}

#[test]
fn paths_agree_with_std() {
    let samples = [
        "", "/", "//", ".", "./", "./.", "..", "../..", "a", "a/", "a//", "a/.", "a/./", "a/b", "a//b", "a/./b",
        "/a", "/a/", "/a/b/..", "/a/b/.", "./a", "./a/b", ".a", ".a/b", "a/..", "lib/main.dart",
        "packages/x/lib/main_dev.dart", "...", "a/...", "Loading...", "No Target", "/.", "/./a", "//a", "a.b/c.d",
        "caf\u{e9}/lib/main.dart",
    ];
    for s in samples {
        let path = Path::new(s);
        assert_eq!(
            file_name(PathStyle::Posix, s),
            path.file_name().map(|n| n.to_str().unwrap().to_string()),
            "file_name of {:?}",
            s
        );
        assert_eq!(
            parent(PathStyle::Posix, s),
            path.parent().map(|p| p.to_str().unwrap().to_string()),
            "parent of {:?}",
            s
        );
        for base in ["", "/", "/root", "/root/", "rel"] {
            let joined = join(PathStyle::Posix, base, s);
            assert_eq!(joined, Path::new(base).join(s).to_str().unwrap(), "{:?} {:?}", base, s);
        }
    }
}

#[test]
fn relative_paths_begin_at_the_root() {
    assert_eq!(relative_path(PathStyle::Posix, "", "lib"), "lib");
    assert_eq!(relative_path(PathStyle::Posix, "packages/a", "lib"), "packages/a/lib");
    assert_eq!(relative_path(PathStyle::Windows, "", "lib"), "lib");
    assert_eq!(relative_path(PathStyle::Windows, "packages\\a", "lib"), "packages\\a\\lib");
}

#[test]
fn windows_paths_have_names_and_parents() {
    // Each path with its last segment and what is left without it.
    let samples: [(&str, Option<&str>, Option<&str>); 34] = [
        ("", None, None),
        ("foo", Some("foo"), Some("")),
        ("a\\b\\c", Some("c"), Some("a\\b")),
        ("a/b/c", Some("c"), Some("a/b")),
        ("a\\b/c", Some("c"), Some("a\\b")),
        ("a\\b\\", Some("b"), Some("a")),
        ("a\\.", Some("a"), Some("")),
        ("a\\..", None, Some("a")),
        ("packages\\x\\lib\\main.dart", Some("main.dart"), Some("packages\\x\\lib")),
        (".", None, Some("")),
        (".\\foo", Some("foo"), Some(".")),
        ("\\", None, None),
        ("/foo", Some("foo"), Some("/")),
        ("C:", None, None),
        ("C:\\", None, None),
        ("C:a", Some("a"), Some("C:")),
        ("C:.", None, Some("C:")),
        ("C:\\foo", Some("foo"), Some("C:\\")),
        ("c:/foo/bar", Some("bar"), Some("c:/foo")),
        ("1:foo", Some("1:foo"), Some("")),
        ("\\\\server", Some("server"), Some("\\")),
        ("\\\\server\\share", None, None),
        ("//server/share/foo", Some("foo"), Some("//server/share/")),
        ("\\\\server\\share\\foo", Some("foo"), Some("\\\\server\\share\\")),
        ("\\\\.\\foo", None, None),
        ("\\\\.\\foo\\bar", Some("bar"), Some("\\\\.\\foo\\")),
        ("\\\\?\\", None, None),
        ("\\\\?\\bar\\foo", Some("foo"), Some("\\\\?\\bar\\")),
        ("\\\\?\\C:\\bar", Some("bar"), Some("\\\\?\\C:\\")),
        ("\\\\?\\C:\\a/b", Some("a/b"), Some("\\\\?\\C:\\")),
        ("\\\\?\\C:\\a\\.", None, Some("\\\\?\\C:\\a")),
        ("\\\\?\\C:foo\\bar", Some("bar"), Some("\\\\?\\C:foo\\")),
        ("\\\\?\\UNC\\server\\share\\foo", Some("foo"), Some("\\\\?\\UNC\\server\\share\\")),
        ("\\\\?\\UNC\\server", None, None),
    ];
    for (path, name, above) in samples {
        assert_eq!(file_name(PathStyle::Windows, path).as_deref(), name, "{:?}", path);
        assert_eq!(parent(PathStyle::Windows, path).as_deref(), above, "{:?}", path);
    }
}

#[test]
fn windows_paths_are_joined() {
    let samples = [
        ("", "foo", "foo"),
        ("foo", "bar", "foo\\bar"),
        ("foo/", "bar", "foo/bar"),
        ("foo\\", "bar", "foo\\bar"),
        ("foo", "", "foo\\"),
        ("foo", "..", "foo\\.."),
        ("foo", "\\bar", "\\bar"),
        ("foo", "C:\\bar", "C:\\bar"),
        ("foo", "\\\\server\\share\\bar", "\\\\server\\share\\bar"),
        ("C:\\", "Windows", "C:\\Windows"),
        ("C:\\app", ".dart_tool/flutter_url", "C:\\app\\.dart_tool/flutter_url"),
        ("C:\\a", "\\b", "C:\\b"),
        ("C:", "foo", "C:foo"),
        ("C:", "\\foo", "C:\\foo"),
        ("C:\\foo", "C:bar", "C:bar"),
        ("\\\\server\\share\\foo", "bar", "\\\\server\\share\\foo\\bar"),
        ("\\\\server\\share\\foo", "\\bar", "\\\\server\\share\\bar"),
        ("\\\\?\\C:\\bar", "foo", "\\\\?\\C:\\bar\\foo"),
        ("\\\\?\\C:\\bar", "\\foo", "\\\\?\\C:\\foo"),
        ("\\\\?\\C:\\bar", "C:baz\\", "C:baz\\"),
        ("\\\\?\\C:", "foo", "\\\\?\\C:\\foo"),
        ("\\\\?\\C:\\bar", "../foo", "\\\\?\\C:\\foo"),
        ("\\\\?\\C:\\bar", "../../foo", "\\\\?\\C:\\foo"),
        ("\\\\?\\C:\\", "../foo", "\\\\?\\C:\\foo"),
        ("\\\\?\\A:\\x\\y", "/foo", "\\\\?\\A:\\foo"),
        ("\\\\?\\A:", "..\\foo\\.", "\\\\?\\A:\\foo"),
        ("\\\\?\\A:\\x\\y", ".\\foo\\.", "\\\\?\\A:\\x\\y\\foo"),
        ("\\\\?\\A:\\x\\y", "", "\\\\?\\A:\\x\\y\\"),
        ("\\\\?\\UNC\\server\\share\\foo", "bar", "\\\\?\\UNC\\server\\share\\foo\\bar"),
        ("\\\\?\\UNC\\server", "foo", "\\\\?\\UNC\\server\\foo"),
        ("\\\\?\\C:\\app", ".dart_tool/flutter_url", "\\\\?\\C:\\app\\.dart_tool\\flutter_url"),
        ("\\\\.\\foo", "..\\bar", "\\\\.\\foo\\..\\bar"),
    ];
    for (base, path, joined) in samples {
        assert_eq!(join(PathStyle::Windows, base, path), joined, "{:?} {:?}", base, path);
    }
}
