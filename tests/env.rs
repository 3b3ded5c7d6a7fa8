use mcp_client::env::{create_env_for_mcp_server, unix_default_env_vars, windows_default_env_vars};

fn pairs(items: &[(&str, &str)]) -> Vec<(String, String)> {
    items.iter().map(|(k, v)| (k.to_string(), v.to_string())).collect()
}

#[test]
fn test_create_env_for_mcp_server() {
    let host = pairs(&[("PATH", "/usr/bin"), ("USER", "alice"), ("SECRET_TOKEN", "t")]);
    let env_var = "USER";
    let env_var_existing_value = "alice";
    let env_var_new_value = format!("{env_var_existing_value}-extra");
    let extra_env = vec![(env_var.to_owned(), env_var_new_value.clone())];
    let mcp_server_env = create_env_for_mcp_server(&unix_default_env_vars(), &host, Some(extra_env));
    assert!(mcp_server_env.contains_key(&"PATH".to_string()));
    assert_eq!(Some(env_var_new_value), mcp_server_env.get(&env_var.to_string()));
}

#[test]
fn override_wins_and_nothing_else_leaks() {
    let host = pairs(&[("PATH", "/usr/bin"), ("AWS_SECRET", "s"), ("EDITOR", "vi")]);
    let extra = pairs(&[("PATH", "/custom:/usr/bin")]);
    let env = create_env_for_mcp_server(&unix_default_env_vars(), &host, Some(extra));
    assert_eq!(env.get(&"PATH".to_string()), Some("/custom:/usr/bin".to_string()));
    assert!(!env.contains_key(&"AWS_SECRET".to_string()));
    assert!(!env.contains_key(&"EDITOR".to_string()));
    assert_eq!(env.len(), 1);
    assert_eq!(env.to_pairs(), pairs(&[("PATH", "/custom:/usr/bin")]));
}

#[test]
fn unset_allowed_variables_are_absent() {
    let host = pairs(&[("HOME", "/home/a")]);
    let env = create_env_for_mcp_server(&unix_default_env_vars(), &host, None);
    assert_eq!(env.len(), 1);
    assert!(!env.contains_key(&"PATH".to_string()));
    assert_eq!(env.get(&"HOME".to_string()), Some("/home/a".to_string()));
}

#[test]
fn extra_variables_are_added_even_off_the_list() {
    let host = pairs(&[("TERM", "xterm")]);
    let extra = pairs(&[("API_MODE", "test"), ("API_MODE", "final")]);
    let env = create_env_for_mcp_server(&unix_default_env_vars(), &host, Some(extra));
    assert_eq!(env.get(&"API_MODE".to_string()), Some("final".to_string()));
    assert_eq!(env.get(&"TERM".to_string()), Some("xterm".to_string()));
    assert_eq!(env.len(), 2);
}

#[test]
fn windows_list_keeps_its_own_names() {
    let host = pairs(&[("PATHEXT", ".CMD"), ("HOME", "/h")]);
    let env = create_env_for_mcp_server(&windows_default_env_vars(), &host, None);
    assert!(env.contains_key(&"PATHEXT".to_string()));
    assert!(!env.contains_key(&"HOME".to_string()));
}
