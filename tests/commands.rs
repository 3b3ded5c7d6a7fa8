use mcp_client::features::{all_features, default_for, is_enabled};
use mcp_client::mcp_cmd::{parse_env_pair, validate_server_name};
use mcp_client::prompts::{default_prompts_dir, project_prompts_dir};

#[test]
fn env_pairs_split_at_the_first_equals() {
    assert_eq!(parse_env_pair("KEY=VALUE"), Ok(("KEY".to_string(), "VALUE".to_string())));
    assert_eq!(parse_env_pair("  KEY  =a=b"), Ok(("KEY".to_string(), "a=b".to_string())));
    assert_eq!(parse_env_pair("EMPTY="), Ok(("EMPTY".to_string(), String::new())));
}

#[test]
fn env_pairs_need_a_key_and_an_equals() {
    let message = "environment entries must be in KEY=VALUE form".to_string();
    assert_eq!(parse_env_pair("NOVALUE"), Err(message.clone()));
    assert_eq!(parse_env_pair("  =value"), Err(message.clone()));
    assert_eq!(parse_env_pair(""), Err(message));
}

#[test]
fn server_names_are_letters_digits_dashes_underscores() {
    assert_eq!(validate_server_name("docs"), Ok(()));
    assert_eq!(validate_server_name("my-server_2"), Ok(()));
    assert_eq!(
        validate_server_name("bad name"),
        Err("invalid server name 'bad name' (use letters, numbers, '-', '_')".to_string())
    );
    assert!(validate_server_name("").is_err());
    assert!(validate_server_name("é").is_err());
}

#[test]
fn project_prompts_dir_points_to_dot_codex() {
    let base = "/workspace/project";
    let expected = "/workspace/project/.codex/prompts".to_string();
    assert_eq!(project_prompts_dir(base), expected);
}

#[test]
fn prompt_dirs_join_with_one_separator() {
    assert_eq!(project_prompts_dir("/srv/"), "/srv/.codex/prompts".to_string());
    assert_eq!(project_prompts_dir(""), ".codex/prompts".to_string());
    assert_eq!(default_prompts_dir(Some("/home/a/.codex".to_string())), Some("/home/a/.codex/prompts".to_string()));
    assert_eq!(default_prompts_dir(None), None);
}

#[test]
fn feature_defaults_come_from_the_registry() {
    assert_eq!(all_features().len(), 1);
    assert_eq!(all_features()[0].key, "comment");
    assert!(!default_for("comment"));
    assert!(!default_for("unknown"));
    assert!(is_enabled(Some(true), "comment"));
    assert!(!is_enabled(None, "comment"));
}
