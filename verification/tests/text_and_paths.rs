use gpt_image_2_skill::args::{has_positional, positional_at};
use gpt_image_2_skill::client::provider_arg;
use gpt_image_2_skill::paths::{extension, file_stem, numbered_name, numbered_out, OutParts};
use gpt_image_2_skill::text::{
    begins_with_dash, copy_opt, decimal_text, lowered_is, owned, parse_decimal, same_text, trim,
};

fn strings(list: &[&str]) -> Vec<String> {
    list.iter().map(|s| s.to_string()).collect()
}

#[test]
fn texts_are_compared_by_their_characters() {
    assert!(same_text("", ""));
    assert!(same_text("höhe", "höhe"));
    assert!(!same_text("auto", "Auto"));
    assert!(!same_text("auto", "aut"));
}

#[test]
fn copies_of_texts_are_equal() {
    assert_eq!(owned("a b"), "a b");
    assert_eq!(copy_opt(&Some("x".to_string())), Some("x".to_string()));
    assert_eq!(copy_opt(&None), None);
}

#[test]
fn only_a_leading_dash_makes_a_flag() {
    assert!(begins_with_dash("-m"));
    assert!(begins_with_dash("-"));
    assert!(!begins_with_dash("a-b"));
    assert!(!begins_with_dash(""));
}

#[test]
fn decimal_numerals_round_trip() {
    for n in [0u64, 9, 10, 8787, 65535, u64::MAX] {
        assert_eq!(decimal_text(n), n.to_string());
        assert_eq!(parse_decimal(&decimal_text(n), u64::MAX), Some(n));
    }
}

#[test]
fn numerals_are_read_as_unsigned_integers_are() {
    for s in ["", "+", "-1", "-0", " 1", "1 ", "1_0", "0x1", "65536", "99999999999999999999", "1a", "a1"] {
        assert_eq!(parse_decimal(s, 65535), s.parse::<u16>().ok().map(u64::from), "{s}");
    }
    for s in ["0", "+7", "007", "65535", "000000000000000000000065535"] {
        assert_eq!(parse_decimal(s, 65535), s.parse::<u16>().ok().map(u64::from), "{s}");
        assert!(parse_decimal(s, 65535).is_some());
    }
    assert_eq!(parse_decimal("5", 3), None);
    assert_eq!(parse_decimal("0", 0), Some(0));
}

#[test]
fn lower_case_is_that_of_ascii() {
    assert!(lowered_is("TrUe", "true"));
    assert!(lowered_is("ON", "on"));
    assert!(!lowered_is("true ", "true"));
    assert!(!lowered_is("Ü", "ü"));
    assert!(lowered_is("@[`{", "@[`{"));
}

#[test]
fn positional_arguments_leave_out_flags_and_the_program() {
    let argv = strings(&["images", "--json", "images", "-m", "fanout", ""]);
    assert_eq!(positional_at(&argv, 0), Some(&"images".to_string()));
    assert_eq!(positional_at(&argv, 1), Some(&"fanout".to_string()));
    assert_eq!(positional_at(&argv, 2), Some(&"".to_string()));
    assert_eq!(positional_at(&argv, 3), None);
    assert_eq!(positional_at(&[], 0), None);
    assert!(has_positional(&argv, 1, "fanout"));
    assert!(!has_positional(&argv, 3, ""));
}

#[test]
fn a_path_is_taken_apart_once_for_all_its_outputs() {
    let parts = OutParts::of("a/b.webp");
    assert_eq!((parts.dir.as_str(), parts.name.as_deref()), ("a", Some("b.webp")));
    assert_eq!((parts.at(0), parts.at(11)), ("a/b-1.webp".to_string(), "a/b-12.webp".to_string()));
}

#[test]
fn outputs_are_numbered_from_one() {
    let stem = Some("cat".to_string());
    let ext = Some("webp".to_string());
    assert_eq!(numbered_name(&stem, &ext, 0), "cat-1.webp");
    assert_eq!(numbered_name(&stem, &None, 9), "cat-10.png");
    assert_eq!(numbered_name(&None, &None, 1), "image-2.png");
    assert_eq!(numbered_name(&None, &Some(String::new()), 1), "image-2.");
}

#[test]
fn numbered_outputs_stand_beside_the_path() {
    assert_eq!(numbered_out("a/b/cat.webp", 0), "a/b/cat-1.webp");
    assert_eq!(numbered_out("d.x/pic", 9), "d.x/pic-10.png");
    assert_eq!(numbered_out("a/b.png/", 0), "a/b-1.png");
    assert_eq!(numbered_out("a//b.png", 0), "a/b-1.png");
    assert_eq!(numbered_out("C:/x/cat.png", 0), "C:/x/cat-1.png");
    assert_eq!(numbered_out("cat.png", 1), "cat-2.png");
    assert_eq!(numbered_out("/cat", 2), "/cat-3.png");
    assert_eq!(numbered_out("a/.hidden", 0), "a/.hidden-1.png");
    assert_eq!(numbered_out("a/x.tar.gz", 0), "a/x.tar-1.gz");
    assert_eq!(numbered_out("/", 0), "./image-1.png");
    assert_eq!(numbered_out("", 4), "./image-5.png");
    assert_eq!(numbered_out("a/..", 0), "a/image-1.png");
}

#[test]
fn numbered_outputs_differ() {
    for out in ["dir/x.png", "C:\\images\\x.png", "a//b/./x-1.png", ".", "\\\\box\\share\\x"] {
        let mut seen: Vec<String> = Vec::new();
        for i in 0..120 {
            let path = numbered_out(out, i);
            assert!(!seen.contains(&path));
            assert_ne!(path, out);
            seen.push(path);
        }
    }
}

#[test]
fn every_path_has_one_directory() {
    for (out, dir) in [
        ("a/b", "a"),
        ("a/b/", "a"),
        ("a//b", "a"),
        ("a/./b", "a"),
        ("a/b/.", "a"),
        ("a//b//c", "a//b"),
        ("a", ""),
        ("..", ""),
        ("a/..", "a"),
        (".", ""),
        ("./", ""),
        ("./.", ""),
        ("./a", "."),
        ("./..", "."),
        ("/a", "/"),
        ("/./b", "/"),
        ("/..", "/"),
        ("/", "."),
        ("/.", "."),
        ("", "."),
        (".hidden/x", ".hidden"),
        ("C:/x/cat.png", "C:/x"),
        ("x\\y/z/cat.png", "x\\y/z"),
    ] {
        assert_eq!(OutParts::of(out).dir, dir, "{out}");
    }
}

#[test]
fn every_path_has_one_name() {
    for (out, name) in [
        ("a/b", Some("b")),
        ("a/b/", Some("b")),
        ("a/b/.//", Some("b")),
        ("a/..", None),
        ("..", None),
        (".", None),
        ("./", None),
        ("/", None),
        ("", None),
        ("...", Some("...")),
        ("C:/cat.png", Some("cat.png")),
        ("x\\y/cat.png", Some("cat.png")),
    ] {
        assert_eq!(OutParts::of(out).name.as_deref(), name, "{out}");
    }
}

#[test]
fn backslashes_are_read_in_one_of_two_ways() {
    for (out, slash, backslash) in [
        ("d\\o", ("", "d\\o"), ("d", "o")),
        ("C:\\x\\cat.png", ("", "C:\\x\\cat.png"), ("C:\\x", "cat.png")),
        ("C:cat.png", ("", "C:cat.png"), ("C:", "cat.png")),
        ("a/b\\c", ("a", "b\\c"), ("a/b", "c")),
    ] {
        let parts = OutParts::of(out);
        let read = (parts.dir.as_str(), parts.name.as_deref().unwrap());
        assert!(read == slash || read == backslash, "{out}");
        assert_ne!(numbered_out(out, 0), out);
        assert_ne!(numbered_out(out, 0), numbered_out(out, 10));
    }
}

#[test]
fn outputs_keep_the_parent_of_their_path() {
    for out in ["a/b.png", "a/b/", "./x", "/x", "x", "", "/", "a//b", "a/.."] {
        let parent = std::path::Path::new(out).parent().unwrap_or(std::path::Path::new("."));
        let path = numbered_out(out, 3);
        assert_eq!(std::path::Path::new(&path).parent(), Some(parent), "{out}");
    }
}

#[test]
fn names_are_split_at_their_last_dot() {
    for name in ["a", "a.b", ".a", ".a.b", "a.", "a.b.c", "...", "ä.ö", "..a", "a..b"] {
        let owned = Some(name.to_string());
        let path = std::path::Path::new(name);
        assert_eq!(file_stem(&owned).as_deref(), path.file_stem().and_then(|s| s.to_str()), "{name}");
        assert_eq!(extension(&owned).as_deref(), path.extension().and_then(|s| s.to_str()), "{name}");
    }
    assert_eq!(file_stem(&Some("x.tar.gz".to_string())).as_deref(), Some("x.tar"));
    assert_eq!(extension(&Some("x.tar.gz".to_string())).as_deref(), Some("gz"));
    assert_eq!((file_stem(&None), extension(&None)), (None, None));
}

#[test]
fn white_space_is_trimmed_at_both_ends() {
    for s in ["", " ", " a b\t", "\u{2003}\u{85}x\u{a0}", "x", "\n\nx y\r\n", "\u{200b}x"] {
        assert_eq!(trim(s), s.trim());
    }
    for code in 0..=0x10ffffu32 {
        if let Some(c) = char::from_u32(code) {
            let s = c.to_string();
            assert_eq!(trim(&s).is_empty(), s.trim().is_empty(), "{code:x}");
        }
    }
    assert_eq!(provider_arg("\u{3000}x\u{1680}"), Some("x".to_string()));
}
