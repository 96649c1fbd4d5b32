use herdr_federation::path::UnixPath;
use herdr_federation::text::{
    decimal_text, find_char, is_control, is_whitespace, precedes, same_text, trim,
    trim_end_matches,
};

#[test]
fn character_classes_are_those_of_unicode() {
    for c in (0..=0x10_ffffu32).filter_map(char::from_u32) {
        assert_eq!(is_whitespace(c), c.is_whitespace(), "{c:?}");
        assert_eq!(is_control(c), c.is_control(), "{c:?}");
    }
}

#[test]
fn trimming_is_that_of_std() {
    for text in ["", " ", "a", " a", "a ", "\t a b \u{3000}", "\u{85}é\u{a0}", "\u{200b}x"] {
        assert_eq!(trim(text), text.trim());
        assert_eq!(trim_end_matches(text, 'a'), text.trim_end_matches('a'));
    }
    assert_eq!(trim_end_matches("a...", '.'), "a");
    assert_eq!(trim_end_matches("...", '.'), "");
}

#[test]
fn order_is_that_of_std() {
    let texts = ["", "a", "ab", "b", "B", "é", "z", "𝄞", "\u{fb01}", "a\u{0}"];
    for a in texts {
        for b in texts {
            assert_eq!(precedes(a, b), a < b, "{a:?} {b:?}");
            assert_eq!(same_text(a, b), a == b);
        }
    }
}

#[test]
fn characters_are_found_by_characters() {
    assert_eq!(find_char("münch~en~", '~'), 5);
    assert_eq!(find_char("none", '~'), 4);
    assert_eq!(find_char("", '~'), 0);
}

#[test]
fn decimals_are_those_of_std() {
    for n in [0, 7, 10, 99, 100, 4_294_967_295, u64::MAX] {
        assert_eq!(decimal_text(n), n.to_string());
    }
}

#[test]
fn paths_are_those_of_std() {
    let texts = [
        "", "/", "//", "a", "./a", ".", "a/.", "a//b", "/a/./b/", "a/../b", "..", ".hidden/x", "/.",
        "./.", "a/b", "/a/b",
    ];
    for a in texts {
        let mine = UnixPath::from_string(a.to_string());
        let theirs: Vec<String> = std::path::Path::new(a)
            .components()
            .map(|part| part.as_os_str().to_string_lossy().into_owned())
            .collect();
        assert_eq!(mine.components(), theirs, "{a:?}");
        for b in texts {
            assert_eq!(
                mine == UnixPath::from_string(b.to_string()),
                std::path::Path::new(a) == std::path::Path::new(b),
                "{a:?} {b:?}"
            );
            assert_eq!(
                mine.join(b).as_str(),
                std::path::Path::new(a).join(b).to_str().unwrap(),
                "{a:?} {b:?}"
            );
        }
    }
}
