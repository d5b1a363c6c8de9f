//! The terminal configuration types: which files belong to which tool,
//! how timestamped backups of them are named, and the stock default
//! configuration texts.

use vstd::prelude::*;

verus! {

use crate::strutil::{to_lower, string_eq_str, spec_lower, spec_dec, fmt_u64};
use crate::schedule::{spec_split, spec_parse_u64, split_char, parse_u64};
use vstd::multiset::Multiset;

/// The terminal tools whose configuration files the library knows.
#[derive(Debug, Clone, Copy, PartialEq, Eq, Structural)]
pub enum TerminalConfigType {
    Kitty,
    Starship,
    Zsh,
    Bash,
    Tmux,
}

/// The configuration type a name refers to, compared without regard to
/// letter case.
pub open spec fn spec_config_type(name: Seq<char>) -> Option<TerminalConfigType> {
    let l = spec_lower(name);
    if l == "kitty"@ {
        Some(TerminalConfigType::Kitty)
    } else if l == "starship"@ {
        Some(TerminalConfigType::Starship)
    } else if l == "zsh"@ {
        Some(TerminalConfigType::Zsh)
    } else if l == "bash"@ {
        Some(TerminalConfigType::Bash)
    } else if l == "tmux"@ {
        Some(TerminalConfigType::Tmux)
    } else {
        None
    }
}

impl TerminalConfigType {
    /// Parse a configuration type name, case-insensitively.
    pub fn from_str(s: &str) -> (r: Option<TerminalConfigType>)
        ensures
            r == spec_config_type(s@),
    {
        let l = to_lower(s);
        if string_eq_str(&l, "kitty") {
            Some(TerminalConfigType::Kitty)
        } else if string_eq_str(&l, "starship") {
            Some(TerminalConfigType::Starship)
        } else if string_eq_str(&l, "zsh") {
            Some(TerminalConfigType::Zsh)
        } else if string_eq_str(&l, "bash") {
            Some(TerminalConfigType::Bash)
        } else if string_eq_str(&l, "tmux") {
            Some(TerminalConfigType::Tmux)
        } else {
            None
        }
    }
}

/// The home-relative path of the configuration file for each type.
pub open spec fn spec_config_rel_path(t: TerminalConfigType) -> Seq<char> {
    match t {
        TerminalConfigType::Kitty => ".config/kitty/kitty.conf"@,
        TerminalConfigType::Starship => ".config/starship/starship.toml"@,
        TerminalConfigType::Zsh => ".zshrc"@,
        TerminalConfigType::Bash => ".bashrc"@,
        TerminalConfigType::Tmux => ".tmux.conf"@,
    }
}

/// The configuration file path for a terminal config type, relative to the
/// home directory.
pub fn get_config_path(config_type: TerminalConfigType) -> (r: String)
    ensures
        r@ == spec_config_rel_path(config_type),
{
    let p: &str = match config_type {
        TerminalConfigType::Kitty => ".config/kitty/kitty.conf",
        TerminalConfigType::Starship => ".config/starship/starship.toml",
        TerminalConfigType::Zsh => ".zshrc",
        TerminalConfigType::Bash => ".bashrc",
        TerminalConfigType::Tmux => ".tmux.conf",
    };
    p.to_owned()
}

/// The short name of each configuration type, used in backup paths.
pub open spec fn spec_type_name(t: TerminalConfigType) -> Seq<char> {
    match t {
        TerminalConfigType::Kitty => "kitty"@,
        TerminalConfigType::Starship => "starship"@,
        TerminalConfigType::Zsh => "zsh"@,
        TerminalConfigType::Bash => "bash"@,
        TerminalConfigType::Tmux => "tmux"@,
    }
}

/// The home-relative backup directory for a configuration type.
pub fn get_backup_dir(config_type: TerminalConfigType) -> (r: String)
    ensures
        r@ == ".config/argus/terminal/"@ + spec_type_name(config_type) + "/backups"@,
{
    let mut out = String::new();
    out.append(".config/argus/terminal/");
    let name: &str = match config_type {
        TerminalConfigType::Kitty => "kitty",
        TerminalConfigType::Starship => "starship",
        TerminalConfigType::Zsh => "zsh",
        TerminalConfigType::Bash => "bash",
        TerminalConfigType::Tmux => "tmux",
    };
    out.append(name);
    out.append("/backups");
    out
}

/// The file extension a backup of each configuration type carries.
pub open spec fn spec_backup_extension(t: TerminalConfigType) -> Seq<char> {
    match t {
        TerminalConfigType::Kitty => "conf"@,
        TerminalConfigType::Starship => "toml"@,
        TerminalConfigType::Zsh => "zshrc"@,
        TerminalConfigType::Bash => "bashrc"@,
        TerminalConfigType::Tmux => "conf"@,
    }
}

/// The extension for a backup file of the given type.
pub fn backup_extension(config_type: TerminalConfigType) -> (r: &'static str)
    ensures
        r@ == spec_backup_extension(config_type),
{
    match config_type {
        TerminalConfigType::Kitty => "conf",
        TerminalConfigType::Starship => "toml",
        TerminalConfigType::Zsh => "zshrc",
        TerminalConfigType::Bash => "bashrc",
        TerminalConfigType::Tmux => "conf",
    }
}

/// The name of a timestamped backup file: the timestamp, a dot, and the
/// type's extension.
pub fn backup_filename(timestamp: u64, config_type: TerminalConfigType) -> (r: String)
    ensures
        r@ == spec_dec(timestamp as int) + "."@ + spec_backup_extension(config_type),
{
    let mut out = fmt_u64(timestamp);
    out.append(".");
    out.append(backup_extension(config_type));
    out
}

/// A stored backup of a terminal configuration file.
#[derive(Debug, Clone)]
pub struct TerminalBackup {
    pub filename: String,
    pub path: String,
    pub timestamp: u64,
    pub config_type: String,
}

/// The timestamp encoded in a backup file name: its first dot-separated
/// segment, when that parses as a number.
pub open spec fn spec_backup_timestamp(filename: Seq<char>) -> Option<int> {
    spec_parse_u64(spec_split(filename, '.')[0])
}

/// Read a backup record out of a directory entry: the file name's leading
/// segment must be a numeric timestamp.
pub fn parse_backup_filename(filename: &str, path: &str, config_type: &str) -> (r: Option<
    TerminalBackup,
>)
    ensures
        match r {
            Some(b) => {
                &&& spec_backup_timestamp(filename@) matches Some(ts) && b.timestamp == ts
                &&& b.filename@ == filename@
                &&& b.path@ == path@
                &&& b.config_type@ == config_type@
            },
            None => spec_backup_timestamp(filename@) is None,
        },
{
    let segments = split_char(filename, '.');
    proof {
        assert(segments@.map_values(|x: String| x@)[0] == segments@[0]@);
    }
    match parse_u64(segments[0].as_str()) {
        Some(ts) => Some(
            TerminalBackup {
                filename: filename.to_owned(),
                path: path.to_owned(),
                timestamp: ts,
                config_type: config_type.to_owned(),
            },
        ),
        None => None,
    }
}

/// Sort backups newest first: a permutation of the input ordered by
/// descending timestamp.
pub fn sort_backups_newest_first(v: Vec<TerminalBackup>) -> (r: Vec<TerminalBackup>)
    ensures
        r@.to_multiset() == v@.to_multiset(),
        forall|i: int, j: int|
            0 <= i < j < r@.len() ==> #[trigger] r@[i].timestamp >= #[trigger] r@[j].timestamp,
{
    broadcast use vstd::seq_lib::group_to_multiset_ensures;
    broadcast use vstd::multiset::group_multiset_axioms;

    let mut rest = v;
    let mut out: Vec<TerminalBackup> = Vec::new();
    let ghost orig = rest@;
    proof {
        assert(out@.to_multiset().len() == 0);
        assert(out@.to_multiset() =~= Multiset::<TerminalBackup>::empty());
        assert(out@.to_multiset().add(rest@.to_multiset()) =~= orig.to_multiset());
    }
    while rest.len() > 0
        invariant
            out@.to_multiset().add(rest@.to_multiset()) == orig.to_multiset(),
            forall|i: int, j: int|
                0 <= i < j < out@.len() ==> #[trigger] out@[i].timestamp
                    >= #[trigger] out@[j].timestamp,
            forall|i: int, j: int|
                0 <= i < out@.len() && 0 <= j < rest@.len() ==> #[trigger] out@[i].timestamp
                    >= #[trigger] rest@[j].timestamp,
        decreases rest@.len(),
    {
        let k = max_timestamp_index(&rest);
        let ghost rest0 = rest@;
        let ghost out0 = out@;
        let item = rest.remove(k);
        out.push(item);
        proof {
            rest0.to_multiset_ensures();
            rest@.to_multiset_ensures();
            out0.to_multiset_ensures();
            assert(rest@ == rest0.remove(k as int));
            assert(rest@.to_multiset() == rest0.to_multiset().remove(rest0[k as int])) by {
                vstd::seq_lib::to_multiset_remove::<TerminalBackup>(rest0, k as int);
            }
            assert(rest0.to_multiset().contains(rest0[k as int])) by {
                assert(rest0.contains(rest0[k as int]));
            }
            assert(rest0.to_multiset() =~= rest@.to_multiset().insert(rest0[k as int]));
            assert(out@.to_multiset() =~= out0.to_multiset().insert(rest0[k as int]));
            assert(out@.to_multiset().add(rest@.to_multiset()) =~= out0.to_multiset().add(
                rest0.to_multiset(),
            ));
            assert(out@ == out0.push(rest0[k as int]));
            assert forall|i: int, j: int|
                0 <= i < out@.len() && 0 <= j < rest@.len() implies #[trigger] out@[i].timestamp
                >= #[trigger] rest@[j].timestamp by {
                let pre = if j < k { j } else { j + 1 };
                assert(rest@[j] == rest0[pre]);
                if i < out@.len() - 1 {
                    assert(out@[i] == out0[i]);
                } else {
                    assert(out@[i] == rest0[k as int]);
                }
            }
            assert forall|i: int, j: int|
                0 <= i < j < out@.len() implies #[trigger] out@[i].timestamp
                >= #[trigger] out@[j].timestamp by {
                if j < out@.len() - 1 {
                    assert(out@[i] == out0[i] && out@[j] == out0[j]);
                } else {
                    assert(out@[i] == out0[i] && out@[j] == rest0[k as int]);
                }
            }
        }
    }
    proof {
        assert(rest@.to_multiset().len() == 0);
        assert(rest@.to_multiset() =~= Multiset::<TerminalBackup>::empty());
        assert(out@.to_multiset() =~= out@.to_multiset().add(rest@.to_multiset()));
    }
    out
}

/// The index of the largest timestamp.
fn max_timestamp_index(v: &Vec<TerminalBackup>) -> (r: usize)
    requires
        v@.len() > 0,
    ensures
        0 <= r < v@.len(),
        forall|j: int| 0 <= j < v@.len() ==> v@[r as int].timestamp >= #[trigger] v@[j].timestamp,
{
    let mut best: usize = 0;
    let mut i: usize = 1;
    while i < v.len()
        invariant
            0 <= best < v@.len(),
            1 <= i <= v@.len(),
            forall|j: int| 0 <= j < i ==> v@[best as int].timestamp >= #[trigger] v@[j].timestamp,
        decreases v@.len() - i,
    {
        if v[i].timestamp > v[best].timestamp {
            best = i;
        }
        i += 1;
    }
    best
}

/// The stock default configuration for the terminal emulator.
pub fn get_default_kitty_config() -> (r: String)
    ensures
        r@ == "# Kitty Terminal Configuration\n# Generated by Argus\n\n# Font\nfont_family      JetBrains Mono Nerd Font\nbold_font        auto\nitalic_font      auto\nbold_italic_font auto\nfont_size        12.0\n\n# Cursor\ncursor_shape beam\ncursor_blink_interval 0.5\n\n# Scrollback\nscrollback_lines 10000\n\n# Mouse\ncopy_on_select clipboard\n\n# Window\nremember_window_size  yes\ninitial_window_width  120c\ninitial_window_height 40c\nwindow_padding_width  8\n\n# Tab bar\ntab_bar_edge bottom\ntab_bar_style powerline\n\n# Bell\nenable_audio_bell no\n\n# Shell\nshell .\n\n# Theme (include your theme file)\n# include catppuccin.conf\n"@,
{
    "# Kitty Terminal Configuration\n# Generated by Argus\n\n# Font\nfont_family      JetBrains Mono Nerd Font\nbold_font        auto\nitalic_font      auto\nbold_italic_font auto\nfont_size        12.0\n\n# Cursor\ncursor_shape beam\ncursor_blink_interval 0.5\n\n# Scrollback\nscrollback_lines 10000\n\n# Mouse\ncopy_on_select clipboard\n\n# Window\nremember_window_size  yes\ninitial_window_width  120c\ninitial_window_height 40c\nwindow_padding_width  8\n\n# Tab bar\ntab_bar_edge bottom\ntab_bar_style powerline\n\n# Bell\nenable_audio_bell no\n\n# Shell\nshell .\n\n# Theme (include your theme file)\n# include catppuccin.conf\n".to_owned()
}

/// The stock default configuration for the prompt tool.
pub fn get_default_starship_config() -> (r: String)
    ensures
        r@ == "# Starship Prompt Configuration\n# Generated by Argus\n\nformat = \"\"\"\n$os\\\n$username\\\n$directory\\\n$git_branch\\\n$git_status\\\n$nodejs\\\n$rust\\\n$golang\\\n$python\\\n$line_break\\\n$character\"\"\"\n\n[character]\nsuccess_symbol = \"[❯](green)\"\nerror_symbol = \"[❯](red)\"\n\n[os]\ndisabled = false\n\n[directory]\ntruncation_length = 3\ntruncate_to_repo = true\n\n[git_branch]\nsymbol = \" \"\n\n[git_status]\nahead = \"⇡${count}\"\nbehind = \"⇣${count}\"\ndiverged = \"⇕⇡${ahead_count}⇣${behind_count}\"\n\n[nodejs]\nsymbol = \" \"\n\n[rust]\nsymbol = \" \"\n\n[golang]\nsymbol = \" \"\n\n[python]\nsymbol = \" \"\n"@,
{
    "# Starship Prompt Configuration\n# Generated by Argus\n\nformat = \"\"\"\n$os\\\n$username\\\n$directory\\\n$git_branch\\\n$git_status\\\n$nodejs\\\n$rust\\\n$golang\\\n$python\\\n$line_break\\\n$character\"\"\"\n\n[character]\nsuccess_symbol = \"[❯](green)\"\nerror_symbol = \"[❯](red)\"\n\n[os]\ndisabled = false\n\n[directory]\ntruncation_length = 3\ntruncate_to_repo = true\n\n[git_branch]\nsymbol = \" \"\n\n[git_status]\nahead = \"⇡${count}\"\nbehind = \"⇣${count}\"\ndiverged = \"⇕⇡${ahead_count}⇣${behind_count}\"\n\n[nodejs]\nsymbol = \" \"\n\n[rust]\nsymbol = \" \"\n\n[golang]\nsymbol = \" \"\n\n[python]\nsymbol = \" \"\n".to_owned()
}

/// The stock default configuration for the zsh shell.
pub fn get_default_zsh_config() -> (r: String)
    ensures
        r@ == "# Zsh Configuration\n# Generated by Argus\n\n# History\nHISTFILE=~/.zsh_history\nHISTSIZE=10000\nSAVEHIST=10000\nsetopt SHARE_HISTORY\nsetopt HIST_IGNORE_DUPS\nsetopt HIST_IGNORE_SPACE\n\n# Basic Options\nsetopt AUTO_CD\nsetopt INTERACTIVE_COMMENTS\nsetopt CORRECT\n\n# Key bindings (emacs mode)\nbindkey -e\nbindkey '^[[A' history-search-backward\nbindkey '^[[B' history-search-forward\n\n# Aliases\nalias ls='ls --color=auto'\nalias ll='ls -la'\nalias la='ls -A'\nalias l='ls -CF'\nalias grep='grep --color=auto'\n\n# Starship prompt (if installed)\nif command -v starship &> /dev/null; then\n    eval \"$(starship init zsh)\"\nfi\n\n# Zoxide (if installed)\nif command -v zoxide &> /dev/null; then\n    eval \"$(zoxide init zsh)\"\nfi\n"@,
{
    "# Zsh Configuration\n# Generated by Argus\n\n# History\nHISTFILE=~/.zsh_history\nHISTSIZE=10000\nSAVEHIST=10000\nsetopt SHARE_HISTORY\nsetopt HIST_IGNORE_DUPS\nsetopt HIST_IGNORE_SPACE\n\n# Basic Options\nsetopt AUTO_CD\nsetopt INTERACTIVE_COMMENTS\nsetopt CORRECT\n\n# Key bindings (emacs mode)\nbindkey -e\nbindkey '^[[A' history-search-backward\nbindkey '^[[B' history-search-forward\n\n# Aliases\nalias ls='ls --color=auto'\nalias ll='ls -la'\nalias la='ls -A'\nalias l='ls -CF'\nalias grep='grep --color=auto'\n\n# Starship prompt (if installed)\nif command -v starship &> /dev/null; then\n    eval \"$(starship init zsh)\"\nfi\n\n# Zoxide (if installed)\nif command -v zoxide &> /dev/null; then\n    eval \"$(zoxide init zsh)\"\nfi\n".to_owned()
}

/// The stock default configuration for the bash shell.
pub fn get_default_bash_config() -> (r: String)
    ensures
        r@ == "# Bash Configuration\n# Generated by Argus\n\n# If not running interactively, don't do anything\ncase $- in\n    *i*) ;;\n      *) return;;\nesac\n\n# History\nHISTCONTROL=ignoreboth\nHISTSIZE=1000\nHISTFILESIZE=2000\nshopt -s histappend\n\n# Check window size after each command\nshopt -s checkwinsize\n\n# Make less more friendly for non-text input files\n[ -x /usr/bin/lesspipe ] && eval \"$(SHELL=/bin/sh lesspipe)\"\n\n# Aliases\nalias ls='ls --color=auto'\nalias ll='ls -la'\nalias la='ls -A'\nalias l='ls -CF'\nalias grep='grep --color=auto'\nalias fgrep='fgrep --color=auto'\nalias egrep='egrep --color=auto'\n\n# Starship prompt (if installed)\nif command -v starship &> /dev/null; then\n    eval \"$(starship init bash)\"\nfi\n\n# Source additional configs from ~/.bashrc.d/\nif [ -d ~/.bashrc.d ]; then\n    for rc in ~/.bashrc.d/*; do\n        if [ -f \"$rc\" ]; then\n            . \"$rc\"\n        fi\n    done\nfi\n"@,
{
    "# Bash Configuration\n# Generated by Argus\n\n# If not running interactively, don't do anything\ncase $- in\n    *i*) ;;\n      *) return;;\nesac\n\n# History\nHISTCONTROL=ignoreboth\nHISTSIZE=1000\nHISTFILESIZE=2000\nshopt -s histappend\n\n# Check window size after each command\nshopt -s checkwinsize\n\n# Make less more friendly for non-text input files\n[ -x /usr/bin/lesspipe ] && eval \"$(SHELL=/bin/sh lesspipe)\"\n\n# Aliases\nalias ls='ls --color=auto'\nalias ll='ls -la'\nalias la='ls -A'\nalias l='ls -CF'\nalias grep='grep --color=auto'\nalias fgrep='fgrep --color=auto'\nalias egrep='egrep --color=auto'\n\n# Starship prompt (if installed)\nif command -v starship &> /dev/null; then\n    eval \"$(starship init bash)\"\nfi\n\n# Source additional configs from ~/.bashrc.d/\nif [ -d ~/.bashrc.d ]; then\n    for rc in ~/.bashrc.d/*; do\n        if [ -f \"$rc\" ]; then\n            . \"$rc\"\n        fi\n    done\nfi\n".to_owned()
}

/// The stock default configuration for the terminal multiplexer.
pub fn get_default_tmux_config() -> (r: String)
    ensures
        r@ == "# Tmux Configuration\n# Generated by Argus\n\n# Prefix: Ctrl+a\nset -g prefix C-a\nunbind C-b\nbind C-a send-prefix\n\n# Mouse support\nset -g mouse on\n\n# History\nset -g history-limit 10000\n\n# Start windows and panes at 1\nset -g base-index 1\nsetw -g pane-base-index 1\n\n# Renumber windows when one is closed\nset -g renumber-windows on\n\n# Status bar\nset -g status-position bottom\nset -g status-style 'bg=#1e1e2e fg=#cdd6f4'\nset -g status-left '#[fg=#89b4fa,bold] #S '\nset -g status-right '#[fg=#a6adc8] %H:%M '\nset -g status-left-length 20\n\n# Window status\nsetw -g window-status-format '#[fg=#6c7086] #I:#W '\nsetw -g window-status-current-format '#[fg=#89b4fa,bold] #I:#W '\n\n# Splits with current path\nbind | split-window -h -c \"#{pane_current_path}\"\nbind - split-window -v -c \"#{pane_current_path}\"\nunbind '\"'\nunbind %\n\n# Vim-style pane navigation\nbind h select-pane -L\nbind j select-pane -D\nbind k select-pane -U\nbind l select-pane -R\n\n# Resize panes with Vim keys\nbind -r H resize-pane -L 5\nbind -r J resize-pane -D 5\nbind -r K resize-pane -U 5\nbind -r L resize-pane -R 5\n\n# Quick window switching\nbind -n M-1 select-window -t 1\nbind -n M-2 select-window -t 2\nbind -n M-3 select-window -t 3\nbind -n M-4 select-window -t 4\nbind -n M-5 select-window -t 5\n\n# Reload config\nbind r source-file ~/.tmux.conf \\; display \"Config reloaded!\"\n\n# Escape time (for vim)\nset -sg escape-time 0\n\n# True color support\nset -g default-terminal \"tmux-256color\"\nset -ag terminal-overrides \",xterm-256color:RGB\"\n"@,
{
    "# Tmux Configuration\n# Generated by Argus\n\n# Prefix: Ctrl+a\nset -g prefix C-a\nunbind C-b\nbind C-a send-prefix\n\n# Mouse support\nset -g mouse on\n\n# History\nset -g history-limit 10000\n\n# Start windows and panes at 1\nset -g base-index 1\nsetw -g pane-base-index 1\n\n# Renumber windows when one is closed\nset -g renumber-windows on\n\n# Status bar\nset -g status-position bottom\nset -g status-style 'bg=#1e1e2e fg=#cdd6f4'\nset -g status-left '#[fg=#89b4fa,bold] #S '\nset -g status-right '#[fg=#a6adc8] %H:%M '\nset -g status-left-length 20\n\n# Window status\nsetw -g window-status-format '#[fg=#6c7086] #I:#W '\nsetw -g window-status-current-format '#[fg=#89b4fa,bold] #I:#W '\n\n# Splits with current path\nbind | split-window -h -c \"#{pane_current_path}\"\nbind - split-window -v -c \"#{pane_current_path}\"\nunbind '\"'\nunbind %\n\n# Vim-style pane navigation\nbind h select-pane -L\nbind j select-pane -D\nbind k select-pane -U\nbind l select-pane -R\n\n# Resize panes with Vim keys\nbind -r H resize-pane -L 5\nbind -r J resize-pane -D 5\nbind -r K resize-pane -U 5\nbind -r L resize-pane -R 5\n\n# Quick window switching\nbind -n M-1 select-window -t 1\nbind -n M-2 select-window -t 2\nbind -n M-3 select-window -t 3\nbind -n M-4 select-window -t 4\nbind -n M-5 select-window -t 5\n\n# Reload config\nbind r source-file ~/.tmux.conf \\; display \"Config reloaded!\"\n\n# Escape time (for vim)\nset -sg escape-time 0\n\n# True color support\nset -g default-terminal \"tmux-256color\"\nset -ag terminal-overrides \",xterm-256color:RGB\"\n".to_owned()
}

} // verus!
