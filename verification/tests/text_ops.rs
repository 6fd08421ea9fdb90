use falcon_launcher::mods::SearchFacet;
use falcon_launcher::text::{
    contains_sub, ends_with_str, index_of, parse_u32, replace_all, split_char, starts_with_str,
    str_eq, to_ascii_lowercase, u64_to_string, vec_contains_str, vec_to_string,
};

#[test]
fn str_eq_basic() {
    assert!(str_eq("abc", "abc"));
    assert!(!str_eq("abc", "abd"));
    assert!(!str_eq("abc", "ab"));
    assert!(str_eq("", ""));
}

#[test]
fn lowercase_maps_ascii_only() {
    assert_eq!(to_ascii_lowercase("Forge-1.20"), "forge-1.20");
    assert_eq!(to_ascii_lowercase("DARWIN"), "darwin");
    assert_eq!(to_ascii_lowercase("already"), "already");
}

#[test]
fn contains_finds_substrings() {
    assert!(contains_sub("1.20.1-forge-47.2.0", "forge"));
    assert!(!contains_sub("1.20.1", "forge"));
    assert!(contains_sub("abc", ""));
    assert!(!contains_sub("ab", "abc"));
}

#[test]
fn starts_and_ends() {
    assert!(starts_with_str("https://host/x", "https://"));
    assert!(!starts_with_str("http://host/x", "https://"));
    assert!(ends_with_str("https://repo/maven/", "/"));
    assert!(!ends_with_str("https://repo/maven", "/"));
}

#[test]
fn replace_all_replaces_left_to_right() {
    assert_eq!(replace_all("a.b.c", ".", "/"), "a/b/c");
    assert_eq!(replace_all("darwin", "darwin", "osx"), "osx");
    assert_eq!(replace_all("aaa", "aa", "b"), "ba");
    assert_eq!(replace_all("none", "x", "y"), "none");
}

#[test]
fn split_char_pieces() {
    let parts = split_char("net.minecraftforge:forge:1.12.2", ':');
    assert_eq!(parts, vec!["net.minecraftforge", "forge", "1.12.2"]);
    let parts = split_char("1.20.1", '.');
    assert_eq!(parts, vec!["1", "20", "1"]);
    let parts = split_char("nosep", ':');
    assert_eq!(parts, vec!["nosep"]);
    let parts = split_char("a--b", '-');
    assert_eq!(parts, vec!["a", "", "b"]);
}

#[test]
fn index_of_first_occurrence() {
    assert_eq!(index_of("abcb", 'b'), Some(1));
    assert_eq!(index_of("abc", 'z'), None);
}

#[test]
fn vec_to_string_joins_and_trims_one_char() {
    let v = vec!["a".to_string(), "b".to_string(), "c".to_string()];
    assert_eq!(vec_to_string(v, ";".to_string()), "a;b;c");
    // a multi-character separator loses only its final character at the end
    let v = vec!["a".to_string(), "b".to_string()];
    assert_eq!(vec_to_string(v, "; ".to_string()), "a; b;");
    let v = vec!["only".to_string()];
    assert_eq!(vec_to_string(v, ":".to_string()), "only");
}

#[test]
fn u64_to_string_decimal() {
    assert_eq!(u64_to_string(0), "0");
    assert_eq!(u64_to_string(7), "7");
    assert_eq!(u64_to_string(2048), "2048");
    assert_eq!(u64_to_string(u64::MAX), format!("{}", u64::MAX));
}

#[test]
fn parse_u32_digits_only() {
    assert_eq!(parse_u32("12"), Some(12));
    assert_eq!(parse_u32("0"), Some(0));
    assert_eq!(parse_u32(""), None);
    assert_eq!(parse_u32("1a"), None);
    assert_eq!(parse_u32("4294967295"), Some(u32::MAX));
    assert_eq!(parse_u32("4294967296"), None);
}

#[test]
fn vec_contains_str_checks_views() {
    let v = vec!["osx".to_string(), "linux".to_string()];
    assert!(vec_contains_str(&v, "linux"));
    assert!(!vec_contains_str(&v, "windows"));
}

#[test]
fn test_facet_helper() {
    let facets = SearchFacet::new()
        .version("1.21")
        .category("forge")
        .project_type("mod")
        .get_str();
    assert_eq!(
        facets,
        "[[\"versions:1.21\"],[\"categories:forge\"],[\"project_types:mod\"]]"
    );
    assert_eq!(SearchFacet::new().get_str(), "");
    assert_eq!(
        SearchFacet::new().category("adventure").get_str(),
        "[[\"categories:adventure\"]]"
    );
}
