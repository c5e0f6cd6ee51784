use tool_versions::render_help::{render_command, PAGE_HEAD};
use tool_versions::{CommandHelp, RenderHelp};

fn command(name: &str, hidden: bool, help: &str, subcommands: Vec<CommandHelp>) -> CommandHelp {
    CommandHelp {
        name: name.to_string(),
        hidden,
        long_help: help.to_string(),
        subcommands,
    }
}

#[test]
fn test_render_help() {
    let commands = vec![command("render-help", true, "internal", Vec::new())];
    let page = RenderHelp {}.render("Polyglot runtime manager", "1.2.3", &commands);
    assert!(page.contains("Quickstart"));
    assert!(!page.contains("### `rtx render-help`"));
}

#[test]
fn page_fills_in_description_and_version() {
    let page = RenderHelp {}.render("Polyglot runtime manager", "1.2.3", &Vec::new());
    assert!(page.starts_with(PAGE_HEAD));
    assert!(page.contains("_Polyglot runtime manager_"));
    assert!(page.contains("rtx 1.2.3\n"));
    assert!(page.contains("`RTX_${PLUGIN}_VERSION`"));
    assert!(page.ends_with("```\n\n"));
}

#[test]
fn hidden_command_has_no_section() {
    assert_eq!(render_command(None, &command("doctor", true, "x", Vec::new())), None);
}

#[test]
fn command_section_layout() {
    let c = command("install", false, "Install a runtime", Vec::new());
    assert_eq!(
        render_command(None, &c),
        Some("### `rtx install`\n\n```\nInstall a runtime\n```\n".to_string())
    );
    assert_eq!(
        render_command(Some("plugins"), &c),
        Some("### `rtx plugins install`\n\n```\nInstall a runtime\n```\n".to_string())
    );
}

#[test]
fn subcommands_replace_their_parent() {
    let plugins = command(
        "plugins",
        false,
        "Manage plugins",
        vec![
            command("install", false, "Install a plugin", Vec::new()),
            command("secret", true, "hidden", Vec::new()),
        ],
    );
    let global = command("global", false, "Set global versions", Vec::new());
    let page = RenderHelp {}.render("about", "0.1.0", &vec![plugins, global]);
    let expected = "## Commands\n\n### `rtx plugins install`\n\n```\nInstall a plugin\n```\n### `rtx global`\n\n```\nSet global versions\n```\n\n## Comparison to asdf";
    assert!(page.contains(expected));
    assert!(!page.contains("Manage plugins"));
    assert!(!page.contains("rtx plugins secret"));
}
