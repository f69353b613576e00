use freo::comment::{default_comment_tokens, normalize_extension_key, CommentTokenResolver};
use std::collections::HashMap;

fn pairs(map: HashMap<String, String>) -> Vec<(String, String)> {
    map.into_iter().collect()
}

#[test]
fn comment_token_resolver_uses_defaults_when_no_custom_tokens_are_provided() {
    let resolver = CommentTokenResolver::new(None);

    for (ext, token) in default_comment_tokens() {
        let file = format!("file.{}", ext);
        assert_eq!(resolver.token_for(&file), Some(token));
    }
}

#[test]
fn comment_token_resolver_custom_tokens_are_used_when_provided_and_no_overlap_with_defaults() {
    assert!(
        CommentTokenResolver::new(None).token_for("file.txt").is_none(),
        "`txt` already exists in the defaults so this test is meaningless"
    );

    let resolver = CommentTokenResolver::new(Some(pairs(HashMap::from([(
        "txt".to_string(),
        "X".to_string(),
    )]))));

    assert_eq!(resolver.token_for("file.txt"), Some("X"));
}

#[test]
fn comment_token_resolver_custom_tokens_override_defaults() {
    assert!(
        !CommentTokenResolver::new(None).token_for("file.rs").is_none(),
        "`rs` does not exist in defaults so this test is meaningless"
    );

    let resolver = CommentTokenResolver::new(Some(pairs(HashMap::from([(
        "rs".to_string(),
        "X".to_string(),
    )]))));

    assert_eq!(resolver.token_for("file.rs"), Some("X"));
}

#[test]
fn comment_token_resolver_custom_tokens_are_normalized() {
    let resolver = CommentTokenResolver::new(Some(pairs(HashMap::from([
        (".rs".to_string(), "A".to_string()),
        ("PY".to_string(), "B".to_string()),
        ("   txt   ".to_string(), "C".to_string()),
        ("   YaMl   ".to_string(), "D".to_string()),
        ("   .Yml   ".to_string(), "E".to_string()),
        ("sql.".to_string(), "F".to_string()),
    ]))));

    assert_eq!(resolver.token_for("file.rs"), Some("A"));
    assert_eq!(resolver.token_for("file.py"), Some("B"));
    assert_eq!(resolver.token_for("file.txt"), Some("C"));
    assert_eq!(resolver.token_for("file.yaml"), Some("D"));
    assert_eq!(resolver.token_for("file.yml"), Some("E"));
    assert_ne!(resolver.token_for("file.sql"), Some("F"));
    assert_ne!(resolver.token_for("file.sql."), Some("F"));
}

#[test]
fn extension_lookup_ignores_ascii_case() {
    let resolver = CommentTokenResolver::new(None);
    assert_eq!(resolver.token_for("MAIN.RS"), Some("//"));
    assert_eq!(resolver.token_for_extension("Py"), Some("#"));
    assert_eq!(resolver.token_for_extension("SQL"), Some("--"));
}

#[test]
fn paths_without_a_usable_extension_have_no_token() {
    let resolver = CommentTokenResolver::new(None);
    assert_eq!(resolver.token_for("Makefile"), None);
    assert_eq!(resolver.token_for(".rs"), None);
    assert_eq!(resolver.token_for("dir.rs/"), Some("//"));
    assert_eq!(resolver.token_for("archive.tar.sh"), Some("#"));
}

#[test]
fn the_last_configured_pair_for_an_extension_wins() {
    let resolver = CommentTokenResolver::new(Some(vec![
        ("lua".to_string(), "--".to_string()),
        (".LUA".to_string(), "  ;;  ".to_string()),
    ]));
    assert_eq!(resolver.token_for_extension("lua"), Some(";;"));
}

#[test]
fn blank_configured_tokens_are_ignored() {
    let resolver = CommentTokenResolver::new(Some(vec![
        ("rs".to_string(), "   ".to_string()),
        ("txt".to_string(), "\t\u{3000}".to_string()),
    ]));
    assert_eq!(resolver.token_for_extension("rs"), Some("//"));
    assert_eq!(resolver.token_for_extension("txt"), None);
}

#[test]
fn configured_tokens_are_trimmed() {
    let resolver = CommentTokenResolver::new(Some(vec![("tf".to_string(), "\u{a0} # ".to_string())]));
    assert_eq!(resolver.token_for_extension("tf"), Some("#"));
}

#[test]
fn extension_keys_are_normalized() {
    assert_eq!(normalize_extension_key("  ..Yml \n"), "yml");
    assert_eq!(normalize_extension_key("TXT"), "txt");
    assert_eq!(normalize_extension_key("sql."), "sql.");
    assert_eq!(normalize_extension_key(""), "");
}

#[test]
fn default_table_has_every_listed_extension() {
    let defaults = default_comment_tokens();
    assert_eq!(defaults.len(), 24);
    assert!(defaults.contains(&("sql", "--")));
    assert!(defaults.contains(&("toml", "#")));
    assert!(defaults.contains(&("tsx", "//")));
}
