use pipeline_engine::prompts::{process_conditionals, render_prompt, substitute_variables};

#[test]
fn test_variable_substitution() {
    let template = "Hello {{NAME}}, your ticket is {{TICKET_ID}}";
    let mut vars: Vec<(String, String)> = Vec::new();
    vars.push(("name".to_string(), "Alice".to_string()));
    vars.push(("ticket_id".to_string(), "T-123".to_string()));

    let rendered = substitute_variables(template, &vars);
    assert_eq!(rendered, "Hello Alice, your ticket is T-123");
}

#[test]
fn substitution_leaves_unknown_placeholders() {
    let template = "{{WHO}} meets {{OTHER}}";
    let vars = vec![("who".to_string(), "Ada".to_string())];
    assert_eq!(substitute_variables(template, &vars), "Ada meets {{OTHER}}");
}

#[test]
fn substitution_replaces_every_occurrence() {
    let template = "{{X}} and {{X}} and {{X}}";
    let vars = vec![("x".to_string(), "y".to_string())];
    assert_eq!(substitute_variables(template, &vars), "y and y and y");
}

#[test]
fn substitution_with_no_variables_is_identity() {
    let vars: Vec<(String, String)> = Vec::new();
    assert_eq!(substitute_variables("plain text", &vars), "plain text");
}

#[test]
fn conditional_block_kept_when_variable_set() {
    let template = "start {{#if EXTRA}}more: {{EXTRA}}{{/if}} end";
    let vars = vec![("EXTRA".to_string(), "detail".to_string())];
    assert_eq!(
        process_conditionals(template, &vars),
        "start more: {{EXTRA}} end"
    );
    assert_eq!(render_prompt(template, &vars), "start more: detail end");
}

#[test]
fn conditional_block_dropped_when_variable_missing_or_empty() {
    let template = "a{{#if GONE}}hidden{{/if}}b";
    let none: Vec<(String, String)> = Vec::new();
    assert_eq!(process_conditionals(template, &none), "ab");
    let empty = vec![("GONE".to_string(), "".to_string())];
    assert_eq!(process_conditionals(template, &empty), "ab");
}

#[test]
fn conditional_lookup_uses_the_name_as_keyed() {
    // The block names the variable exactly as it is keyed, so the
    // lowercase-keyed variables the engine builds enable their blocks.
    let template = "{{#if sender_info}}signed{{/if}}";
    let lower = vec![("sender_info".to_string(), "Ada".to_string())];
    assert_eq!(process_conditionals(template, &lower), "signed");
    let other = vec![("SENDER_INFO".to_string(), "Ada".to_string())];
    assert_eq!(process_conditionals(template, &other), "");
}

#[test]
fn unclosed_conditional_is_left_as_written() {
    let template = "x {{#if A}}never closed";
    let vars = vec![("A".to_string(), "1".to_string())];
    assert_eq!(process_conditionals(template, &vars), template);
}

#[test]
fn consecutive_conditional_blocks_resolve_independently() {
    let template = "{{#if A}}one{{/if}}-{{#if B}}two{{/if}}";
    let vars = vec![("A".to_string(), "1".to_string())];
    assert_eq!(process_conditionals(template, &vars), "one-");
}

#[test]
fn substitution_applies_variables_in_order() {
    // The first variable's value may itself contain the second variable's
    // placeholder, which is then replaced in turn.
    let template = "{{A}}";
    let vars = vec![
        ("a".to_string(), "<{{B}}>".to_string()),
        ("b".to_string(), "inner".to_string()),
    ];
    assert_eq!(substitute_variables(template, &vars), "<inner>");
}
