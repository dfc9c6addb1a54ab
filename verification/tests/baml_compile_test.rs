//! The BAML source of the runtime's functions is part of the project.

use std::path::Path;

#[test]
fn test_baml_files_exist() {
    let baml_file = Path::new("src/baml_src/simple_prompt.rs");
    assert!(baml_file.exists(), "BAML source file should exist");
}

#[test]
fn simple_prompt_declares_the_greeting_function() {
    let source = baml_rt::baml_src::simple_prompt::SIMPLE_PROMPT_BAML;
    assert!(source.contains("function SimpleGreeting(name: string) -> string"));
    assert!(source.contains("client OpenRouter"));
}
