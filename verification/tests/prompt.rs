use motif::prompt::{Prompt, PromptBuilder, SystemPrompt};

#[test]
fn test_system_prompt_base_only() {
    let p = SystemPrompt::new("You are a helpful assistant.");
    assert_eq!(p.build(), "You are a helpful assistant.");
}

#[test]
fn test_system_prompt_with_extensions() {
    let p = SystemPrompt::new("Base prompt.")
        .extend("Extension A")
        .extend("Extension B");
    let result = p.build();
    assert!(result.contains("Base prompt."));
    assert!(result.contains("Extension A"));
    assert!(result.contains("Extension B"));
    assert!(result.contains("\n\n---\n\n"));
}

struct TestBuilder;

impl PromptBuilder for TestBuilder {
    fn build(&self) -> Option<String> {
        Some("test".into())
    }
}

#[test]
fn test_prompt_builder_trait_is_object_safe() {
    let builder: Box<dyn PromptBuilder> = Box::new(TestBuilder);
    assert_eq!(builder.build(), Some("test".to_string()));
}

#[test]
fn cached_prompt_follows_the_last_frozen_tools() {
    let exts = vec!["ext".to_string()];
    let mut p = Prompt::new();
    let first = p.build(&exts);
    p.freeze_tools("[{\"name\":\"a\"}]");
    let with_a = p.build(&exts);
    assert!(with_a.contains("## Available Tools"));
    assert!(with_a.contains("\"a\""));
    p.freeze_tools("[{\"name\":\"b\"}]");
    let _ = p.build(&vec![]);
    let mut fresh = Prompt::new();
    fresh.freeze_tools("[{\"name\":\"b\"}]");
    assert_eq!(p.build(&exts), fresh.build(&exts));
    assert!(!p.build(&exts).contains("\"a\""));
    p.freeze_tools("[]");
    assert_eq!(p.build(&exts), first);
}
