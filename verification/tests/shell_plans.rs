use completest::shells::{
    build_path, contains_double_tab, home_env_var, register_action, setup_config_content,
    setup_config_rel_path, setup_remove_rel_path, shell_args, shell_program, timeout_millis,
    trial_echo, RegisterAction, Shell,
};

#[test]
fn zsh_setup_loads_the_completion_system() {
    let config = setup_config_content(Shell::Zsh);
    assert!(config.contains("compinit"));
    assert!(config.contains("fpath=($fpath $ZDOTDIR/zsh)"));
    assert_eq!(setup_config_rel_path(Shell::Zsh), ".zshenv");
    assert_eq!(setup_remove_rel_path(Shell::Zsh).as_deref(), Some(".zcompdump"));
}

#[test]
fn bash_setup_sources_system_completion() {
    assert_eq!(
        setup_config_content(Shell::Bash),
        "PS1='% '\n. /etc/bash_completion\n"
    );
    assert_eq!(setup_config_rel_path(Shell::Bash), ".bashrc");
    assert_eq!(setup_remove_rel_path(Shell::Bash), None);
}

#[test]
fn fish_setup_suppresses_greeting_title_and_autosuggestions() {
    let config = setup_config_content(Shell::Fish);
    assert!(config.contains("set -U fish_greeting \"\""));
    assert!(config.contains("set -U fish_autosuggestion_enabled 0"));
    assert!(config.contains("function fish_title"));
    assert!(config.contains("function fish_prompt"));
    assert_eq!(setup_config_rel_path(Shell::Fish), "fish/config.fish");
}

#[test]
fn elvish_setup_fixes_the_prompt() {
    assert_eq!(
        setup_config_content(Shell::Elvish),
        "set edit:rprompt = (constantly \"\")\nset edit:prompt = (constantly \"% \")\n"
    );
    assert_eq!(setup_config_rel_path(Shell::Elvish), "elvish/rc.elv");
}

#[test]
fn nu_setup_is_an_empty_config() {
    assert_eq!(setup_config_content(Shell::Nu), "");
    assert_eq!(setup_config_rel_path(Shell::Nu), ".config/nushell/config.nu");
}

#[test]
fn registration_follows_each_discovery_convention() {
    match register_action(Shell::Zsh, "greet", "#compdef greet") {
        RegisterAction::WriteFile { rel_path, contents } => {
            assert_eq!(rel_path, "zsh/_greet");
            assert_eq!(contents, "#compdef greet");
        }
        other => panic!("zsh registration was {other:?}"),
    }
    match register_action(Shell::Fish, "greet", "complete greet") {
        RegisterAction::WriteFile { rel_path, contents } => {
            assert_eq!(rel_path, "fish/completions/greet.fish");
            assert_eq!(contents, "complete greet");
        }
        other => panic!("fish registration was {other:?}"),
    }
    match register_action(Shell::Nu, "greet", "def greet [] {}") {
        RegisterAction::WriteFile { rel_path, contents } => {
            assert_eq!(rel_path, ".config/nushell/completions/greet.nu");
            assert_eq!(contents, "def greet [] {}");
        }
        other => panic!("nu registration was {other:?}"),
    }
}

#[test]
fn append_shells_add_a_line_to_their_startup_file() {
    match register_action(Shell::Bash, "greet", "complete -W 'alice bob' greet") {
        RegisterAction::AppendLine { rel_path, line } => {
            assert_eq!(rel_path, ".bashrc");
            assert_eq!(line, "complete -W 'alice bob' greet\n");
        }
        other => panic!("bash registration was {other:?}"),
    }
    match register_action(Shell::Elvish, "greet", "set edit:completion:arg-completer[greet] = x") {
        RegisterAction::AppendLine { rel_path, line } => {
            assert_eq!(rel_path, "elvish/rc.elv");
            assert_eq!(line, "set edit:completion:arg-completer[greet] = x\n");
        }
        other => panic!("elvish registration was {other:?}"),
    }
}

#[test]
fn reregistering_identical_content_plans_the_identical_action() {
    let once = register_action(Shell::Zsh, "foo", "#compdef foo");
    let twice = register_action(Shell::Zsh, "foo", "#compdef foo");
    assert_eq!(once, twice);
}

#[test]
fn double_tab_detection() {
    assert!(contains_double_tab("greet \t\t"));
    assert!(contains_double_tab("\t\t"));
    assert!(!contains_double_tab("greet \t"));
    assert!(!contains_double_tab("greet "));
    assert!(!contains_double_tab(""));
    assert!(!contains_double_tab("\t x \t"));
}

#[test]
fn only_bash_keeps_echo_and_only_without_a_listing_request() {
    assert!(trial_echo(Shell::Bash, "greet "));
    assert!(trial_echo(Shell::Bash, "greet \t"));
    assert!(!trial_echo(Shell::Bash, "greet \t\t"));
    assert!(!trial_echo(Shell::Zsh, "greet "));
    assert!(!trial_echo(Shell::Fish, "greet "));
    assert!(!trial_echo(Shell::Elvish, "greet "));
}

#[test]
fn idle_timeouts_per_variant() {
    assert_eq!(timeout_millis(Shell::Zsh), 100);
    assert_eq!(timeout_millis(Shell::Bash), 50);
    assert_eq!(timeout_millis(Shell::Fish), 50);
    assert_eq!(timeout_millis(Shell::Elvish), 50);
    assert_eq!(timeout_millis(Shell::Nu), 0);
}

#[test]
fn spawn_plans_per_variant() {
    assert_eq!(shell_program(Shell::Zsh).as_deref(), Some("zsh"));
    assert_eq!(shell_program(Shell::Bash).as_deref(), Some("bash"));
    assert_eq!(shell_program(Shell::Fish).as_deref(), Some("fish"));
    assert_eq!(shell_program(Shell::Elvish).as_deref(), Some("elvish"));
    assert_eq!(shell_program(Shell::Nu), None);

    assert_eq!(shell_args(Shell::Zsh, "/home/x/.bashrc"), vec!["--noglobalrcs"]);
    assert_eq!(
        shell_args(Shell::Bash, "/home/x/.bashrc"),
        vec!["--rcfile", "/home/x/.bashrc"]
    );
    assert!(shell_args(Shell::Fish, "").is_empty());
    assert!(shell_args(Shell::Elvish, "").is_empty());

    assert_eq!(home_env_var(Shell::Zsh).as_deref(), Some("ZDOTDIR"));
    assert_eq!(home_env_var(Shell::Fish).as_deref(), Some("XDG_CONFIG_HOME"));
    assert_eq!(home_env_var(Shell::Elvish).as_deref(), Some("XDG_CONFIG_HOME"));
    assert_eq!(home_env_var(Shell::Bash), None);
    assert_eq!(home_env_var(Shell::Nu), None);
}

#[test]
fn search_path_puts_the_binary_under_test_first() {
    assert_eq!(build_path("/target/debug", Some("/usr/bin:/bin")), "/target/debug:/usr/bin:/bin");
    assert_eq!(build_path("/target/debug", None), "/target/debug");
}
