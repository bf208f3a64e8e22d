use rtk::text::{
    chars_of, is_white_space, join_spaced, same_text, split_whitespace, strip_leading_bom, trim,
};

const SAMPLES: [&str; 9] = [
    "",
    " ",
    "a",
    "  git   status\t\n",
    "\u{a0}x\u{3000}y\u{2028}",
    "\u{feff} a",
    "one\u{200b}two",
    "\u{85}\u{1680}",
    "\u{1f980} crab \u{e9}",
];

#[test]
fn white_space_is_unicode_white_space() {
    for n in 0..=0x10ffffu32 {
        if let Some(c) = char::from_u32(n) {
            assert_eq!(is_white_space(c), c.is_whitespace(), "{:x}", n);
        }
    }
}

#[test]
fn trimming_and_splitting() {
    for s in SAMPLES {
        assert_eq!(trim(s), s.trim());
        let words: Vec<String> = s.split_whitespace().map(|w| w.to_string()).collect();
        assert_eq!(split_whitespace(s), words);
        let chars: Vec<char> = s.chars().collect();
        assert_eq!(chars_of(s), chars);
    }
}

#[test]
fn joining() {
    assert_eq!(join_spaced(&[]), "");
    assert_eq!(join_spaced(&["a".to_string()]), "a");
    assert_eq!(join_spaced(&["a".to_string(), "".to_string(), "b".to_string()]), "a  b");
}

#[test]
fn comparing() {
    for a in SAMPLES {
        for b in SAMPLES {
            assert_eq!(same_text(a, b), a == b);
        }
    }
}

#[test]
fn marks_are_stripped_once_and_for_all() {
    let once = strip_leading_bom("\u{feff}\u{feff} \u{feff}x");
    assert_eq!(once, " \u{feff}x");
    assert_eq!(strip_leading_bom(once), once);
}

#[test]
fn white_space_separates_words_and_nothing_else_does() {
    for s in SAMPLES {
        for t in SAMPLES {
            let mut apart = split_whitespace(s);
            apart.extend(split_whitespace(t));
            assert_eq!(split_whitespace(&format!("{}\u{2003}{}", s, t)), apart);
        }
    }
    assert_eq!(split_whitespace("one\u{200b}two"), vec!["one\u{200b}two".to_string()]);
}
