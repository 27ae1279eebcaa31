use vstd::prelude::*;

verus! {

/// The closed set of shell runtimes the harness can drive: four live shells
/// under a pseudo-terminal, and one embedded scripting engine.
#[derive(Debug, Clone, Copy, PartialEq, Eq, Structural)]
pub enum Shell {
    Zsh,
    Bash,
    Fish,
    Elvish,
    Nu,
}

/// The startup-configuration text a fresh home gets for each shell: fixed
/// prompt, completion system loaded, greeting and autosuggestions off.
pub open spec fn spec_setup_config_content(shell: Shell) -> Seq<char> {
    match shell {
        Shell::Zsh => (
        "fpath=($fpath $ZDOTDIR/zsh)\nautoload -U +X compinit && compinit\nprecmd_functions=\"\"  # avoid the prompt being overwritten\nPS1='%% '\nPROMPT='%% '\n"@
        ),
        Shell::Bash => "PS1='% '\n. /etc/bash_completion\n"@,
        Shell::Fish => (
        "set -U fish_greeting \"\"\nset -U fish_autosuggestion_enabled 0\nfunction fish_title\nend\nfunction fish_prompt\n    printf '%% '\nend;\n"@
        ),
        Shell::Elvish => (
        "set edit:rprompt = (constantly \"\")\nset edit:prompt = (constantly \"% \")\n"@
        ),
        Shell::Nu => ""@,
    }
}

/// The startup-configuration text written into a fresh home.
pub fn setup_config_content(shell: Shell) -> (r: String)
    ensures
        r@ == spec_setup_config_content(shell),
{
    match shell {
        Shell::Zsh => String::from_str(
            "fpath=($fpath $ZDOTDIR/zsh)\nautoload -U +X compinit && compinit\nprecmd_functions=\"\"  # avoid the prompt being overwritten\nPS1='%% '\nPROMPT='%% '\n",
        ),
        Shell::Bash => String::from_str("PS1='% '\n. /etc/bash_completion\n"),
        Shell::Fish => String::from_str(
            "set -U fish_greeting \"\"\nset -U fish_autosuggestion_enabled 0\nfunction fish_title\nend\nfunction fish_prompt\n    printf '%% '\nend;\n",
        ),
        Shell::Elvish => String::from_str(
            "set edit:rprompt = (constantly \"\")\nset edit:prompt = (constantly \"% \")\n",
        ),
        Shell::Nu => String::from_str(""),
    }
}

/// Where the startup configuration lives, relative to the sandbox home.
pub fn setup_config_rel_path(shell: Shell) -> (r: String)
    ensures
        shell == Shell::Zsh ==> r@ == ".zshenv"@,
        shell == Shell::Bash ==> r@ == ".bashrc"@,
        shell == Shell::Fish ==> r@ == "fish/config.fish"@,
        shell == Shell::Elvish ==> r@ == "elvish/rc.elv"@,
        shell == Shell::Nu ==> r@ == ".config/nushell/config.nu"@,
{
    match shell {
        Shell::Zsh => String::from_str(".zshenv"),
        Shell::Bash => String::from_str(".bashrc"),
        Shell::Fish => String::from_str("fish/config.fish"),
        Shell::Elvish => String::from_str("elvish/rc.elv"),
        Shell::Nu => String::from_str(".config/nushell/config.nu"),
    }
}

/// A stale file a fresh home must not keep: zsh caches its completion dump.
pub fn setup_remove_rel_path(shell: Shell) -> (r: Option<String>)
    ensures
        shell == Shell::Zsh ==> (r matches Some(p) && p@ == ".zcompdump"@),
        shell != Shell::Zsh ==> r is None,
{
    match shell {
        Shell::Zsh => Some(String::from_str(".zcompdump")),
        _ => None,
    }
}

/// The on-disk effect of registering one completion script under the home.
#[derive(Debug, PartialEq, Eq)]
pub enum RegisterAction {
    /// Write (or overwrite) a standalone script file.
    WriteFile { rel_path: String, contents: String },
    /// Append a line to the shared startup file.
    AppendLine { rel_path: String, line: String },
}

/// Where a registered script for `name` lands, relative to the home, for
/// the shells that keep standalone script files; the other shells append
/// to their startup file instead.
pub open spec fn spec_script_rel_path(shell: Shell, name: Seq<char>) -> Option<Seq<char>> {
    match shell {
        Shell::Zsh => Some("zsh/_"@ + name),
        Shell::Bash => None,
        Shell::Fish => Some("fish/completions/"@ + name + ".fish"@),
        Shell::Elvish => None,
        Shell::Nu => Some(".config/nushell/completions/"@ + name + ".nu"@),
    }
}

proof fn lemma_concat_cancel(pre: Seq<char>, suf: Seq<char>, n1: Seq<char>, n2: Seq<char>)
    requires
        pre + n1 + suf == pre + n2 + suf,
    ensures
        n1 == n2,
{
    assert((pre + n1 + suf).len() == pre.len() + n1.len() + suf.len());
    assert((pre + n2 + suf).len() == pre.len() + n2.len() + suf.len());
    assert(n1.len() == n2.len());
    assert forall|i: int| 0 <= i < n1.len() implies n1[i] == n2[i] by {
        assert((pre + n1 + suf)[pre.len() + i] == n1[i]);
        assert((pre + n2 + suf)[pre.len() + i] == n2[i]);
    }
    assert(n1 =~= n2);
}

/// A registered script's on-disk identity is unique per (shell, name):
/// for the standalone-file shells, two names never collide on one file.
pub proof fn lemma_script_identity_unique(shell: Shell, name1: Seq<char>, name2: Seq<char>)
    requires
        spec_script_rel_path(shell, name1) is Some,
        spec_script_rel_path(shell, name1) == spec_script_rel_path(shell, name2),
    ensures
        name1 == name2,
{
    let e = Seq::<char>::empty();
    match shell {
        Shell::Zsh => {
            assert("zsh/_"@ + name1 + e =~= "zsh/_"@ + name1);
            assert("zsh/_"@ + name2 + e =~= "zsh/_"@ + name2);
            lemma_concat_cancel("zsh/_"@, e, name1, name2);
        },
        Shell::Fish => {
            lemma_concat_cancel("fish/completions/"@, ".fish"@, name1, name2);
        },
        Shell::Nu => {
            lemma_concat_cancel(".config/nushell/completions/"@, ".nu"@, name1, name2);
        },
        _ => {},
    }
}

/// The effect registering a script named `name` with body `content` must
/// have on the files under the home, following each shell's native
/// completion-file discovery convention.
pub fn register_action(shell: Shell, name: &str, content: &str) -> (a: RegisterAction)
    ensures
        shell == Shell::Zsh ==> (a matches RegisterAction::WriteFile { rel_path, contents }
            && Some(rel_path@) == spec_script_rel_path(shell, name@) && contents@ == content@),
        shell == Shell::Bash ==> (a matches RegisterAction::AppendLine { rel_path, line }
            && rel_path@ == ".bashrc"@ && line@ == content@ + "\n"@),
        shell == Shell::Fish ==> (a matches RegisterAction::WriteFile { rel_path, contents }
            && Some(rel_path@) == spec_script_rel_path(shell, name@) && contents@ == content@),
        shell == Shell::Elvish ==> (a matches RegisterAction::AppendLine { rel_path, line }
            && rel_path@ == "elvish/rc.elv"@ && line@ == content@ + "\n"@),
        shell == Shell::Nu ==> (a matches RegisterAction::WriteFile { rel_path, contents }
            && Some(rel_path@) == spec_script_rel_path(shell, name@) && contents@ == content@),
{
    match shell {
        Shell::Zsh => {
            let mut p = String::from_str("zsh/_");
            p.append(name);
            RegisterAction::WriteFile { rel_path: p, contents: content.to_owned() }
        },
        Shell::Bash => {
            let mut l = content.to_owned();
            l.append("\n");
            RegisterAction::AppendLine { rel_path: String::from_str(".bashrc"), line: l }
        },
        Shell::Fish => {
            let mut p = String::from_str("fish/completions/");
            p.append(name);
            p.append(".fish");
            RegisterAction::WriteFile { rel_path: p, contents: content.to_owned() }
        },
        Shell::Elvish => {
            let mut l = content.to_owned();
            l.append("\n");
            RegisterAction::AppendLine { rel_path: String::from_str("elvish/rc.elv"), line: l }
        },
        Shell::Nu => {
            let mut p = String::from_str(".config/nushell/completions/");
            p.append(name);
            p.append(".nu");
            RegisterAction::WriteFile { rel_path: p, contents: content.to_owned() }
        },
    }
}

/// A model of the files under the sandbox home (relative path to text) and
/// of what one registration does to them.
pub open spec fn apply_register(
    files: Map<Seq<char>, Seq<char>>,
    a: RegisterAction,
) -> Map<Seq<char>, Seq<char>> {
    match a {
        RegisterAction::WriteFile { rel_path, contents } => files.insert(rel_path@, contents@),
        RegisterAction::AppendLine { rel_path, line } => files.insert(
            rel_path@,
            (if files.dom().contains(rel_path@) {
                files[rel_path@]
            } else {
                Seq::<char>::empty()
            }) + line@,
        ),
    }
}

/// Re-registering a standalone script file a second time leaves the files
/// under the home exactly as the first registration left them, so later
/// trials see the same state. (Shells whose registration appends to a
/// shared startup file accumulate a duplicate line instead.)
pub proof fn lemma_register_idempotent(files: Map<Seq<char>, Seq<char>>, a: RegisterAction)
    requires
        a is WriteFile,
    ensures
        apply_register(apply_register(files, a), a) =~= apply_register(files, a),
{
}

/// Two consecutive tab characters: the keystroke run that asks a shell for
/// a full candidate listing rather than sole expansion.
pub open spec fn has_double_tab(s: Seq<char>) -> bool {
    exists|i: int| 0 <= i && i + 1 < s.len() && #[trigger] s[i] == '\t' && s[i + 1] == '\t'
}

/// Whether the input requests a full candidate listing.
pub fn contains_double_tab(input: &str) -> (b: bool)
    ensures
        b == has_double_tab(input@),
{
    let n = input.unicode_len();
    if n < 2 {
        return false;
    }
    let mut i: usize = 0;
    while i + 1 < n
        invariant
            n == input@.len(),
            2 <= n,
            i + 1 <= n,
            forall|j: int| 0 <= j < i ==> !(#[trigger] input@[j] == '\t' && input@[j + 1]
                == '\t'),
        decreases n - i,
    {
        if input.get_char(i) == '\t' && input.get_char(i + 1) == '\t' {
            return true;
        }
        i += 1;
    }
    proof {
        if has_double_tab(input@) {
            let k = choose|k: int| 0 <= k && k + 1 < input@.len() && #[trigger] input@[k] == '\t'
                && input@[k + 1] == '\t';
            assert(!(input@[k] == '\t' && input@[k + 1] == '\t'));
        }
    }
    false
}

/// Whether host echo stays on during a trial. Only the bash runtime leaves
/// echo on, and only when the input does not request a full listing: that
/// shell's terminal driver surfaces no bytes with echo disabled unless a
/// listing was explicitly asked for — an observed per-shell quirk, not to
/// be generalized.
pub fn trial_echo(shell: Shell, input: &str) -> (e: bool)
    ensures
        e == (shell == Shell::Bash && !has_double_tab(input@)),
{
    match shell {
        Shell::Bash => !contains_double_tab(input),
        _ => false,
    }
}

/// How long a window of silence must last, after output has begun, before
/// a trial's output counts as quiesced. The embedded engine is synchronous
/// and never waits.
pub fn timeout_millis(shell: Shell) -> (ms: u64)
    ensures
        shell == Shell::Zsh ==> ms == 100,
        shell == Shell::Bash ==> ms == 50,
        shell == Shell::Fish ==> ms == 50,
        shell == Shell::Elvish ==> ms == 50,
        shell == Shell::Nu ==> ms == 0,
{
    match shell {
        Shell::Zsh => 100,
        Shell::Bash => 50,
        Shell::Fish => 50,
        Shell::Elvish => 50,
        Shell::Nu => 0,
    }
}

/// The child binary each pseudo-terminal variant spawns; the embedded
/// engine runs in-process and spawns none.
pub fn shell_program(shell: Shell) -> (p: Option<String>)
    ensures
        shell == Shell::Zsh ==> (p matches Some(s) && s@ == "zsh"@),
        shell == Shell::Bash ==> (p matches Some(s) && s@ == "bash"@),
        shell == Shell::Fish ==> (p matches Some(s) && s@ == "fish"@),
        shell == Shell::Elvish ==> (p matches Some(s) && s@ == "elvish"@),
        shell == Shell::Nu ==> p is None,
{
    match shell {
        Shell::Zsh => Some(String::from_str("zsh")),
        Shell::Bash => Some(String::from_str("bash")),
        Shell::Fish => Some(String::from_str("fish")),
        Shell::Elvish => Some(String::from_str("elvish")),
        Shell::Nu => None,
    }
}

/// The command-line arguments for the spawned shell: zsh skips global
/// startup files, bash is pointed at the sandbox startup file.
pub fn shell_args(shell: Shell, config_path: &str) -> (args: Vec<String>)
    ensures
        shell == Shell::Zsh ==> args@.len() == 1 && args@[0]@ == "--noglobalrcs"@,
        shell == Shell::Bash ==> args@.len() == 2 && args@[0]@ == "--rcfile"@ && args@[1]@
            == config_path@,
        shell == Shell::Fish ==> args@.len() == 0,
        shell == Shell::Elvish ==> args@.len() == 0,
        shell == Shell::Nu ==> args@.len() == 0,
{
    match shell {
        Shell::Zsh => {
            let mut v: Vec<String> = Vec::new();
            v.push(String::from_str("--noglobalrcs"));
            v
        },
        Shell::Bash => {
            let mut v: Vec<String> = Vec::new();
            v.push(String::from_str("--rcfile"));
            v.push(config_path.to_owned());
            v
        },
        _ => Vec::new(),
    }
}

/// The environment variable that points the spawned shell at the sandbox
/// home as its configuration directory, where the shell has one.
pub fn home_env_var(shell: Shell) -> (v: Option<String>)
    ensures
        shell == Shell::Zsh ==> (v matches Some(s) && s@ == "ZDOTDIR"@),
        shell == Shell::Fish ==> (v matches Some(s) && s@ == "XDG_CONFIG_HOME"@),
        shell == Shell::Elvish ==> (v matches Some(s) && s@ == "XDG_CONFIG_HOME"@),
        shell == Shell::Bash ==> v is None,
        shell == Shell::Nu ==> v is None,
{
    match shell {
        Shell::Zsh => Some(String::from_str("ZDOTDIR")),
        Shell::Fish => Some(String::from_str("XDG_CONFIG_HOME")),
        Shell::Elvish => Some(String::from_str("XDG_CONFIG_HOME")),
        _ => None,
    }
}

/// The search path for a trial: the directory holding the binary under
/// test, prepended to the existing search path when there is one, so the
/// binary under test is found first.
pub fn build_path(bin_root: &str, existing: Option<&str>) -> (r: String)
    ensures
        existing is None ==> r@ == bin_root@,
        existing matches Some(p) ==> r@ == bin_root@ + ":"@ + p@,
{
    let mut r = bin_root.to_owned();
    match existing {
        Some(p) => {
            r.append(":");
            r.append(p);
        },
        None => {},
    }
    r
}

} // verus!
