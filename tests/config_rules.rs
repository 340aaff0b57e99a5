use stash::assist::{clean_command_args, create_rewrite_prompt};
use stash::config::{Config, ConfigError};

#[test]
fn system_prompt_follows_style() {
    let mut c = Config::new_default();
    let base = c.get_ai_system_prompt();
    assert!(base.ends_with(" Make the writing more professional and polished."));
    c.set_prompt_style("unknown".to_string());
    let plain = c.get_ai_system_prompt();
    assert!(base.starts_with(&plain));
    c.set_prompt_style("custom".to_string());
    assert_eq!(c.get_ai_system_prompt(), plain);
    c.set_custom_prompt(Some("rhyme".to_string()));
    assert_eq!(c.get_ai_system_prompt(), format!("{} rhyme", plain));
}

#[test]
fn api_key_lifecycle() {
    let mut c = Config::default();
    assert!(!c.has_api_key());
    assert!(matches!(c.get_api_key(), Err(ConfigError::ApiKeyNotSet)));
    c.set_api_key(String::new());
    assert!(!c.has_api_key());
    c.set_api_key("k".to_string());
    assert!(c.has_api_key() && c.ai_enabled);
    assert_eq!(c.get_api_key().ok(), Some("k"));
    c.clear_api_key();
    assert!(!c.has_api_key() && !c.ai_enabled);
}

#[test]
fn command_reply_is_cleaned() {
    assert_eq!(clean_command_args("  `stash search \"#rust -#old\"`  "), "#rust -#old");
    assert_eq!(clean_command_args("search 'math'"), "math");
    assert_eq!(clean_command_args("+webapp"), "+webapp");
    assert!(create_rewrite_prompt("body").ends_with("formatting:\n\nbody"));
}
