//! Rendering a theme's palette into the concrete configuration text of the
//! five target applications: the window manager, the status bar, the
//! terminal emulator, the prompt tool and the launcher.
//!
//! Every renderer is a pure function of the theme and the palette: a fixed
//! skeleton of keys per format, theme overrides resolved through the
//! palette first, and palette-derived defaults for the rest. Override
//! collections render in insertion order, so the output is deterministic
//! down to the byte.

use vstd::prelude::*;

verus! {

use crate::model::{
    Theme,
    ThemeVariant,
    ThemeVariants,
    ConfigValue,
    ThemeApplicationResult,
    AppError,
    ActiveThemeInfo,
};
use crate::palette::{ThemePalette, spec_resolve_color_refs, resolve_color_refs};

/// The text a carried-through configuration value renders as: a string
/// value goes through palette resolution, anything else is emitted as its
/// serialized text.
pub open spec fn spec_cfg_value(v: ConfigValue, p: ThemePalette) -> Seq<char> {
    match v {
        ConfigValue::Str(s) => spec_resolve_color_refs(s@, p),
        ConfigValue::Raw(r) => r@,
    }
}

/// Indented `key = value` lines for an override section, in insertion
/// order.
pub open spec fn spec_kv_lines(items: Seq<(String, ConfigValue)>, p: ThemePalette) -> Seq<char>
    decreases items.len(),
{
    if items.len() == 0 {
        Seq::empty()
    } else {
        spec_kv_lines(items.drop_last(), p) + "    "@ + items.last().0@ + " = "@ + spec_cfg_value(
            items.last().1,
            p,
        ) + "\n"@
    }
}

fn render_cfg_value(v: &ConfigValue, p: &ThemePalette) -> (r: String)
    ensures
        r@ == spec_cfg_value(*v, *p),
{
    match v {
        ConfigValue::Str(s) => resolve_color_refs(s.as_str(), p),
        ConfigValue::Raw(raw) => raw.clone(),
    }
}

fn kv_lines(items: &Vec<(String, ConfigValue)>, p: &ThemePalette) -> (r: String)
    ensures
        r@ == spec_kv_lines(items@, *p),
{
    let mut out = String::new();
    let mut i: usize = 0;
    proof {
        assert(items@.take(0) =~= Seq::<(String, ConfigValue)>::empty());
        assert(out@ =~= spec_kv_lines(items@.take(0), *p));
    }
    while i < items.len()
        invariant
            i <= items@.len(),
            out@ == spec_kv_lines(items@.take(i as int), *p),
        decreases items@.len() - i,
    {
        proof {
            assert(items@.take(i + 1).drop_last() =~= items@.take(i as int));
            assert(items@.take(i + 1).last() == items@[i as int]);
        }
        out.append("    ");
        out.append(items[i].0.as_str());
        out.append(" = ");
        let val = render_cfg_value(&items[i].1, p);
        out.append(val.as_str());
        out.append("\n");
        i += 1;
    }
    proof {
        assert(items@.take(items@.len() as int) =~= items@);
    }
    out
}

/// `key = "value"` lines for extra named colors, in insertion order.
pub open spec fn spec_quoted_lines(items: Seq<(String, String)>) -> Seq<char>
    decreases items.len(),
{
    if items.len() == 0 {
        Seq::empty()
    } else {
        spec_quoted_lines(items.drop_last()) + items.last().0@ + " = \""@ + items.last().1@
            + "\"\n"@
    }
}

fn quoted_lines(items: &Vec<(String, String)>) -> (r: String)
    ensures
        r@ == spec_quoted_lines(items@),
{
    let mut out = String::new();
    let mut i: usize = 0;
    proof {
        assert(items@.take(0) =~= Seq::<(String, String)>::empty());
        assert(out@ =~= spec_quoted_lines(items@.take(0)));
    }
    while i < items.len()
        invariant
            i <= items@.len(),
            out@ == spec_quoted_lines(items@.take(i as int)),
        decreases items@.len() - i,
    {
        proof {
            assert(items@.take(i + 1).drop_last() =~= items@.take(i as int));
            assert(items@.take(i + 1).last() == items@[i as int]);
        }
        out.append(items[i].0.as_str());
        out.append(" = \"");
        out.append(items[i].1.as_str());
        out.append("\"\n");
        i += 1;
    }
    proof {
        assert(items@.take(items@.len() as int) =~= items@);
    }
    out
}

/// The window-manager color block: a `general` section from the theme's
/// override map, palette-derived border colors when no override map is
/// present, and a fixed `decoration` section with the shadow color.
pub open spec fn spec_hyprland_config(theme: Theme, p: ThemePalette) -> Seq<char> {
    let overrides = match theme.apps {
        Some(a) => match a.hyprland {
            Some(h) => match h.general {
                Some(g) => spec_kv_lines(g@, p),
                None => Seq::<char>::empty(),
            },
            None => Seq::<char>::empty(),
        },
        None => Seq::<char>::empty(),
    };
    let no_general = theme.apps is None || theme.apps.unwrap().hyprland is None
        || theme.apps.unwrap().hyprland.unwrap().general is None;
    let defaults = if no_general {
        "    col.active_border = "@ + p.accent@ + " "@ + p.secondary@
            + " 45deg\n    col.inactive_border = "@ + p.surface1@ + "\n"@
    } else {
        Seq::<char>::empty()
    };
    "# HyprPaper Theme Colors\n# Theme: "@ + theme.name@ + "\n\ngeneral {\n"@ + overrides
        + defaults + "}\n\ndecoration {\n    col.shadow = "@ + p.crust@ + "aa\n}\n"@
}

/// Render the window-manager color block.
pub fn generate_hyprland_config(theme: &Theme, palette: &ThemePalette) -> (r: String)
    ensures
        r@ == spec_hyprland_config(*theme, *palette),
{
    let mut out = String::new();
    out.append("# HyprPaper Theme Colors\n# Theme: ");
    out.append(theme.name.as_str());
    out.append("\n\ngeneral {\n");
    let mut has_general = false;
    match &theme.apps {
        Some(a) => match &a.hyprland {
            Some(h) => match &h.general {
                Some(g) => {
                    has_general = true;
                    let lines = kv_lines(g, palette);
                    out.append(lines.as_str());
                },
                None => {},
            },
            None => {},
        },
        None => {},
    }
    if !has_general {
        out.append("    col.active_border = ");
        out.append(palette.accent.as_str());
        out.append(" ");
        out.append(palette.secondary.as_str());
        out.append(" 45deg\n    col.inactive_border = ");
        out.append(palette.surface1.as_str());
        out.append("\n");
    }
    out.append("}\n\ndecoration {\n    col.shadow = ");
    out.append(palette.crust.as_str());
    out.append("aa\n}\n");
    proof {
        assert(out@ =~= spec_hyprland_config(*theme, *palette));
    }
    out
}

/// The status-bar stylesheet: the palette exported as CSS variables, fixed
/// base styling, and any custom fragment appended after the generated base.
pub open spec fn spec_waybar_css(theme: Theme, p: ThemePalette) -> Seq<char> {
    let custom = match theme.apps {
        Some(a) => match a.waybar {
            Some(w) => match w.custom_css {
                Some(css) => "\n/* Custom theme CSS */\n"@ + css@,
                None => Seq::<char>::empty(),
            },
            None => Seq::<char>::empty(),
        },
        None => Seq::<char>::empty(),
    };
    "/* HyprPaper Theme: "@ + theme.name@ + " */\n\n:root {\n    --base: "@ + p.base@
        + ";\n    --mantle: "@ + p.mantle@ + ";\n    --crust: "@ + p.crust@
        + ";\n    --surface0: "@ + p.surface0@ + ";\n    --surface1: "@ + p.surface1@
        + ";\n    --surface2: "@ + p.surface2@ + ";\n    --text: "@ + p.text@
        + ";\n    --subtext0: "@ + p.subtext0@ + ";\n    --subtext1: "@ + p.subtext1@
        + ";\n    --accent: "@ + p.accent@ + ";\n    --secondary: "@ + p.secondary@
        + ";\n    --red: "@ + p.red@ + ";\n    --green: "@ + p.green@ + ";\n    --yellow: "@
        + p.yellow@ + ";\n    --blue: "@ + p.blue@ + ";\n    --pink: "@ + p.pink@
        + ";\n    --teal: "@ + p.teal@
        + ";\n}\n\n* {\n    font-family: \"JetBrainsMono Nerd Font\", monospace;\n}\n\nwindow#waybar {\n    background: var(--base);\n    color: var(--text);\n}\n\n#workspaces button {\n    color: var(--subtext0);\n    background: var(--surface0);\n}\n\n#workspaces button.active {\n    color: var(--base);\n    background: var(--accent);\n}\n\n#workspaces button.urgent {\n    background: var(--red);\n}\n\n"@
        + custom
}

/// Render the status-bar stylesheet.
pub fn generate_waybar_css_content(theme: &Theme, palette: &ThemePalette) -> (r: String)
    ensures
        r@ == spec_waybar_css(*theme, *palette),
{
    let mut out = String::new();
    out.append("/* HyprPaper Theme: ");
    out.append(theme.name.as_str());
    out.append(" */\n\n:root {\n    --base: ");
    out.append(palette.base.as_str());
    out.append(";\n    --mantle: ");
    out.append(palette.mantle.as_str());
    out.append(";\n    --crust: ");
    out.append(palette.crust.as_str());
    out.append(";\n    --surface0: ");
    out.append(palette.surface0.as_str());
    out.append(";\n    --surface1: ");
    out.append(palette.surface1.as_str());
    out.append(";\n    --surface2: ");
    out.append(palette.surface2.as_str());
    out.append(";\n    --text: ");
    out.append(palette.text.as_str());
    out.append(";\n    --subtext0: ");
    out.append(palette.subtext0.as_str());
    out.append(";\n    --subtext1: ");
    out.append(palette.subtext1.as_str());
    out.append(";\n    --accent: ");
    out.append(palette.accent.as_str());
    out.append(";\n    --secondary: ");
    out.append(palette.secondary.as_str());
    out.append(";\n    --red: ");
    out.append(palette.red.as_str());
    out.append(";\n    --green: ");
    out.append(palette.green.as_str());
    out.append(";\n    --yellow: ");
    out.append(palette.yellow.as_str());
    out.append(";\n    --blue: ");
    out.append(palette.blue.as_str());
    out.append(";\n    --pink: ");
    out.append(palette.pink.as_str());
    out.append(";\n    --teal: ");
    out.append(palette.teal.as_str());
    out.append(
        ";\n}\n\n* {\n    font-family: \"JetBrainsMono Nerd Font\", monospace;\n}\n\nwindow#waybar {\n    background: var(--base);\n    color: var(--text);\n}\n\n#workspaces button {\n    color: var(--subtext0);\n    background: var(--surface0);\n}\n\n#workspaces button.active {\n    color: var(--base);\n    background: var(--accent);\n}\n\n#workspaces button.urgent {\n    background: var(--red);\n}\n\n",
    );
    match &theme.apps {
        Some(a) => match &a.waybar {
            Some(w) => match &w.custom_css {
                Some(css) => {
                    out.append("\n/* Custom theme CSS */\n");
                    out.append(css.as_str());
                },
                None => {},
            },
            None => {},
        },
        None => {},
    }
    proof {
        assert(out@ =~= spec_waybar_css(*theme, *palette));
    }
    out
}

/// The terminal-emulator color configuration: basic colors, the cursor
/// (overridable through the palette), tab-bar colors, the sixteen terminal
/// colors, and an optional background opacity.
pub open spec fn spec_kitty_content(theme: Theme, p: ThemePalette) -> Seq<char> {
    let cursor = match theme.apps {
        Some(a) => match a.kitty {
            Some(k) => match k.cursor {
                Some(c) => spec_resolve_color_refs(c@, p),
                None => p.accent@,
            },
            None => p.accent@,
        },
        None => p.accent@,
    };
    let opacity = match theme.apps {
        Some(a) => match a.kitty {
            Some(k) => match k.background_opacity {
                Some(o) => "\nbackground_opacity "@ + o@ + "\n"@,
                None => Seq::<char>::empty(),
            },
            None => Seq::<char>::empty(),
        },
        None => Seq::<char>::empty(),
    };
    "# HyprPaper Theme: "@ + theme.name@ + "\n\nforeground "@ + p.text@ + "\nbackground "@
        + p.base@ + "\nselection_foreground "@ + p.base@ + "\nselection_background "@
        + p.surface2@ + "\ncursor "@ + cursor + "\ncursor_text_color "@ + p.base@
        + "\nurl_color "@ + p.blue@ + "\nactive_tab_foreground "@ + p.base@
        + "\nactive_tab_background "@ + p.accent@ + "\ninactive_tab_foreground "@ + p.subtext0@
        + "\ninactive_tab_background "@ + p.surface0@ + "\n\n# Terminal colors\ncolor0 "@
        + p.surface0@ + "\ncolor1 "@ + p.red@ + "\ncolor2 "@ + p.green@ + "\ncolor3 "@
        + p.yellow@ + "\ncolor4 "@ + p.blue@ + "\ncolor5 "@ + p.pink@ + "\ncolor6 "@ + p.teal@
        + "\ncolor7 "@ + p.text@ + "\ncolor8 "@ + p.surface1@ + "\ncolor9 "@ + p.red@
        + "\ncolor10 "@ + p.green@ + "\ncolor11 "@ + p.yellow@ + "\ncolor12 "@ + p.blue@
        + "\ncolor13 "@ + p.pink@ + "\ncolor14 "@ + p.teal@ + "\ncolor15 "@ + p.text@ + "\n"@
        + opacity
}

/// Render the terminal-emulator color configuration.
pub fn generate_kitty_content(theme: &Theme, palette: &ThemePalette) -> (r: String)
    ensures
        r@ == spec_kitty_content(*theme, *palette),
{
    let mut out = String::new();
    out.append("# HyprPaper Theme: ");
    out.append(theme.name.as_str());
    out.append("\n\nforeground ");
    out.append(palette.text.as_str());
    out.append("\nbackground ");
    out.append(palette.base.as_str());
    out.append("\nselection_foreground ");
    out.append(palette.base.as_str());
    out.append("\nselection_background ");
    out.append(palette.surface2.as_str());
    out.append("\ncursor ");
    let mut cursor_done = false;
    match &theme.apps {
        Some(a) => match &a.kitty {
            Some(k) => match &k.cursor {
                Some(c) => {
                    cursor_done = true;
                    let resolved = resolve_color_refs(c.as_str(), palette);
                    out.append(resolved.as_str());
                },
                None => {},
            },
            None => {},
        },
        None => {},
    }
    if !cursor_done {
        out.append(palette.accent.as_str());
    }
    out.append("\ncursor_text_color ");
    out.append(palette.base.as_str());
    out.append("\nurl_color ");
    out.append(palette.blue.as_str());
    out.append("\nactive_tab_foreground ");
    out.append(palette.base.as_str());
    out.append("\nactive_tab_background ");
    out.append(palette.accent.as_str());
    out.append("\ninactive_tab_foreground ");
    out.append(palette.subtext0.as_str());
    out.append("\ninactive_tab_background ");
    out.append(palette.surface0.as_str());
    out.append("\n\n# Terminal colors\ncolor0 ");
    out.append(palette.surface0.as_str());
    out.append("\ncolor1 ");
    out.append(palette.red.as_str());
    out.append("\ncolor2 ");
    out.append(palette.green.as_str());
    out.append("\ncolor3 ");
    out.append(palette.yellow.as_str());
    out.append("\ncolor4 ");
    out.append(palette.blue.as_str());
    out.append("\ncolor5 ");
    out.append(palette.pink.as_str());
    out.append("\ncolor6 ");
    out.append(palette.teal.as_str());
    out.append("\ncolor7 ");
    out.append(palette.text.as_str());
    out.append("\ncolor8 ");
    out.append(palette.surface1.as_str());
    out.append("\ncolor9 ");
    out.append(palette.red.as_str());
    out.append("\ncolor10 ");
    out.append(palette.green.as_str());
    out.append("\ncolor11 ");
    out.append(palette.yellow.as_str());
    out.append("\ncolor12 ");
    out.append(palette.blue.as_str());
    out.append("\ncolor13 ");
    out.append(palette.pink.as_str());
    out.append("\ncolor14 ");
    out.append(palette.teal.as_str());
    out.append("\ncolor15 ");
    out.append(palette.text.as_str());
    out.append("\n");
    match &theme.apps {
        Some(a) => match &a.kitty {
            Some(k) => match &k.background_opacity {
                Some(o) => {
                    out.append("\nbackground_opacity ");
                    out.append(o.as_str());
                    out.append("\n");
                },
                None => {},
            },
            None => {},
        },
        None => {},
    }
    proof {
        assert(out@ =~= spec_kitty_content(*theme, *palette));
    }
    out
}

/// The name the prompt-tool palette is published under: the theme's
/// override, or `theme`.
pub open spec fn spec_starship_palette_name(theme: Theme) -> Seq<char> {
    match theme.apps {
        Some(a) => match a.starship {
            Some(st) => match st.palette_name {
                Some(n) => n@,
                None => "theme"@,
            },
            None => "theme"@,
        },
        None => "theme"@,
    }
}

/// The prompt-tool color palette: a `key = "value"` table holding all
/// seventeen slots, followed by any extra named colors.
pub open spec fn spec_starship_content(theme: Theme, p: ThemePalette) -> Seq<char> {
    let pn = spec_starship_palette_name(theme);
    let extra = match theme.apps {
        Some(a) => match a.starship {
            Some(st) => match st.extra_colors {
                Some(e) => spec_quoted_lines(e@),
                None => Seq::<char>::empty(),
            },
            None => Seq::<char>::empty(),
        },
        None => Seq::<char>::empty(),
    };
    "# HyprPaper Theme: "@ + theme.name@ + "\n\npalette = \""@ + pn + "\"\n\n[palettes."@ + pn
        + "]\nbase = \""@ + p.base@ + "\"\nmantle = \""@ + p.mantle@ + "\"\ncrust = \""@
        + p.crust@ + "\"\nsurface0 = \""@ + p.surface0@ + "\"\nsurface1 = \""@ + p.surface1@
        + "\"\nsurface2 = \""@ + p.surface2@ + "\"\ntext = \""@ + p.text@
        + "\"\nsubtext0 = \""@ + p.subtext0@ + "\"\nsubtext1 = \""@ + p.subtext1@
        + "\"\naccent = \""@ + p.accent@ + "\"\nsecondary = \""@ + p.secondary@
        + "\"\nred = \""@ + p.red@ + "\"\ngreen = \""@ + p.green@ + "\"\nyellow = \""@
        + p.yellow@ + "\"\nblue = \""@ + p.blue@ + "\"\npink = \""@ + p.pink@
        + "\"\nteal = \""@ + p.teal@ + "\"\n"@ + extra
}

/// Render the prompt-tool color palette.
pub fn generate_starship_content(theme: &Theme, palette: &ThemePalette) -> (r: String)
    ensures
        r@ == spec_starship_content(*theme, *palette),
{
    let mut out = String::new();
    out.append("# HyprPaper Theme: ");
    out.append(theme.name.as_str());
    out.append("\n\npalette = \"");
    let mut named = false;
    match &theme.apps {
        Some(a) => match &a.starship {
            Some(st) => match &st.palette_name {
                Some(n) => {
                    named = true;
                    out.append(n.as_str());
                },
                None => {},
            },
            None => {},
        },
        None => {},
    }
    if !named {
        out.append("theme");
    }
    out.append("\"\n\n[palettes.");
    let mut named2 = false;
    match &theme.apps {
        Some(a) => match &a.starship {
            Some(st) => match &st.palette_name {
                Some(n) => {
                    named2 = true;
                    out.append(n.as_str());
                },
                None => {},
            },
            None => {},
        },
        None => {},
    }
    if !named2 {
        out.append("theme");
    }
    out.append("]\nbase = \"");
    out.append(palette.base.as_str());
    out.append("\"\nmantle = \"");
    out.append(palette.mantle.as_str());
    out.append("\"\ncrust = \"");
    out.append(palette.crust.as_str());
    out.append("\"\nsurface0 = \"");
    out.append(palette.surface0.as_str());
    out.append("\"\nsurface1 = \"");
    out.append(palette.surface1.as_str());
    out.append("\"\nsurface2 = \"");
    out.append(palette.surface2.as_str());
    out.append("\"\ntext = \"");
    out.append(palette.text.as_str());
    out.append("\"\nsubtext0 = \"");
    out.append(palette.subtext0.as_str());
    out.append("\"\nsubtext1 = \"");
    out.append(palette.subtext1.as_str());
    out.append("\"\naccent = \"");
    out.append(palette.accent.as_str());
    out.append("\"\nsecondary = \"");
    out.append(palette.secondary.as_str());
    out.append("\"\nred = \"");
    out.append(palette.red.as_str());
    out.append("\"\ngreen = \"");
    out.append(palette.green.as_str());
    out.append("\"\nyellow = \"");
    out.append(palette.yellow.as_str());
    out.append("\"\nblue = \"");
    out.append(palette.blue.as_str());
    out.append("\"\npink = \"");
    out.append(palette.pink.as_str());
    out.append("\"\nteal = \"");
    out.append(palette.teal.as_str());
    out.append("\"\n");
    match &theme.apps {
        Some(a) => match &a.starship {
            Some(st) => match &st.extra_colors {
                Some(e) => {
                    let lines = quoted_lines(e);
                    out.append(lines.as_str());
                },
                None => {},
            },
            None => {},
        },
        None => {},
    }
    proof {
        assert(out@ =~= spec_starship_content(*theme, *palette));
    }
    out
}

/// The launcher stylesheet: the palette published as named colors, then a
/// fixed set of selectors styled from them.
pub open spec fn spec_rofi_content(theme: Theme, p: ThemePalette) -> Seq<char> {
    "/* HyprPaper Theme: "@ + theme.name@ + " */\n\n* {\n    base: "@ + p.base@
        + ";\n    mantle: "@ + p.mantle@ + ";\n    crust: "@ + p.crust@ + ";\n    surface0: "@
        + p.surface0@ + ";\n    surface1: "@ + p.surface1@ + ";\n    surface2: "@ + p.surface2@
        + ";\n    text: "@ + p.text@ + ";\n    subtext0: "@ + p.subtext0@ + ";\n    subtext1: "@
        + p.subtext1@ + ";\n    accent: "@ + p.accent@ + ";\n    secondary: "@ + p.secondary@
        + ";\n    red: "@ + p.red@ + ";\n    green: "@ + p.green@ + ";\n    yellow: "@
        + p.yellow@ + ";\n    blue: "@ + p.blue@ + ";\n    pink: "@ + p.pink@ + ";\n    teal: "@
        + p.teal@
        + ";\n\n    background-color: @base;\n    text-color: @text;\n}\n\nwindow {\n    background-color: @base;\n    border: 2px;\n    border-color: @accent;\n    border-radius: 8px;\n}\n\nmainbox {\n    background-color: @base;\n}\n\ninputbar {\n    background-color: @surface0;\n    text-color: @text;\n    border-radius: 4px;\n    padding: 8px;\n}\n\nlistview {\n    background-color: @base;\n}\n\nelement {\n    background-color: @base;\n    text-color: @text;\n    padding: 8px;\n    border-radius: 4px;\n}\n\nelement selected {\n    background-color: @accent;\n    text-color: @base;\n}\n\nelement-icon {\n    size: 24px;\n}\n"@
}

/// Render the launcher stylesheet.
pub fn generate_rofi_content(theme: &Theme, palette: &ThemePalette) -> (r: String)
    ensures
        r@ == spec_rofi_content(*theme, *palette),
{
    let mut out = String::new();
    out.append("/* HyprPaper Theme: ");
    out.append(theme.name.as_str());
    out.append(" */\n\n* {\n    base: ");
    out.append(palette.base.as_str());
    out.append(";\n    mantle: ");
    out.append(palette.mantle.as_str());
    out.append(";\n    crust: ");
    out.append(palette.crust.as_str());
    out.append(";\n    surface0: ");
    out.append(palette.surface0.as_str());
    out.append(";\n    surface1: ");
    out.append(palette.surface1.as_str());
    out.append(";\n    surface2: ");
    out.append(palette.surface2.as_str());
    out.append(";\n    text: ");
    out.append(palette.text.as_str());
    out.append(";\n    subtext0: ");
    out.append(palette.subtext0.as_str());
    out.append(";\n    subtext1: ");
    out.append(palette.subtext1.as_str());
    out.append(";\n    accent: ");
    out.append(palette.accent.as_str());
    out.append(";\n    secondary: ");
    out.append(palette.secondary.as_str());
    out.append(";\n    red: ");
    out.append(palette.red.as_str());
    out.append(";\n    green: ");
    out.append(palette.green.as_str());
    out.append(";\n    yellow: ");
    out.append(palette.yellow.as_str());
    out.append(";\n    blue: ");
    out.append(palette.blue.as_str());
    out.append(";\n    pink: ");
    out.append(palette.pink.as_str());
    out.append(";\n    teal: ");
    out.append(palette.teal.as_str());
    out.append(
        ";\n\n    background-color: @base;\n    text-color: @text;\n}\n\nwindow {\n    background-color: @base;\n    border: 2px;\n    border-color: @accent;\n    border-radius: 8px;\n}\n\nmainbox {\n    background-color: @base;\n}\n\ninputbar {\n    background-color: @surface0;\n    text-color: @text;\n    border-radius: 4px;\n    padding: 8px;\n}\n\nlistview {\n    background-color: @base;\n}\n\nelement {\n    background-color: @base;\n    text-color: @text;\n    padding: 8px;\n    border-radius: 4px;\n}\n\nelement selected {\n    background-color: @accent;\n    text-color: @base;\n}\n\nelement-icon {\n    size: 24px;\n}\n",
    );
    proof {
        assert(out@ =~= spec_rofi_content(*theme, *palette));
    }
    out
}

/// The variant the given name selects: `day` selects the day variant, and
/// any other name selects the night variant when the theme has one and
/// falls back to day otherwise.
pub open spec fn spec_select_variant(variants: ThemeVariants, name: Seq<char>) -> ThemeVariant {
    if name == "day"@ {
        variants.day
    } else {
        match variants.night {
            Some(n) => n,
            None => variants.day,
        }
    }
}

/// Pick the active variant for a variant name.
pub fn select_variant<'a>(variants: &'a ThemeVariants, variant: &str) -> (r: &'a ThemeVariant)
    ensures
        *r == spec_select_variant(*variants, variant@),
{
    if crate::strutil::str_eq(variant, "day") {
        &variants.day
    } else {
        match &variants.night {
            Some(n) => n,
            None => &variants.day,
        }
    }
}

/// Render all five formats for one variant of a theme, for previewing:
/// pairs of format name and rendered text, always in the same order.
pub fn render_all_previews(theme: &Theme, variant: &str) -> (r: Vec<(String, String)>)
    ensures
        ({
            let p = spec_select_variant(theme.variants, variant@).palette;
            &&& r@.len() == 5
            &&& r@[0].0@ == "hyprland"@ && r@[0].1@ == spec_hyprland_config(*theme, p)
            &&& r@[1].0@ == "waybar_css"@ && r@[1].1@ == spec_waybar_css(*theme, p)
            &&& r@[2].0@ == "kitty"@ && r@[2].1@ == spec_kitty_content(*theme, p)
            &&& r@[3].0@ == "starship"@ && r@[3].1@ == spec_starship_content(*theme, p)
            &&& r@[4].0@ == "rofi"@ && r@[4].1@ == spec_rofi_content(*theme, p)
        }),
{
    let active = select_variant(&theme.variants, variant);
    let mut out: Vec<(String, String)> = Vec::new();
    out.push((String::from_str("hyprland"), generate_hyprland_config(theme, &active.palette)));
    out.push((String::from_str("waybar_css"), generate_waybar_css_content(theme, &active.palette)));
    out.push((String::from_str("kitty"), generate_kitty_content(theme, &active.palette)));
    out.push((String::from_str("starship"), generate_starship_content(theme, &active.palette)));
    out.push((String::from_str("rofi"), generate_rofi_content(theme, &active.palette)));
    out
}

/// The outcome of attempting one application target during an aggregate
/// apply: the target's name, the error if it failed, and whether a success
/// means the application must be restarted to pick the change up.
#[derive(Debug, Clone)]
pub struct ApplyOutcome {
    pub app: String,
    pub error: Option<String>,
    pub needs_restart: bool,
}

/// The names of the outcomes that succeeded, in order.
pub open spec fn spec_applied(outs: Seq<ApplyOutcome>) -> Seq<Seq<char>>
    decreases outs.len(),
{
    if outs.len() == 0 {
        Seq::empty()
    } else {
        let r = spec_applied(outs.drop_last());
        if outs.last().error is None {
            r.push(outs.last().app@)
        } else {
            r
        }
    }
}

/// The name/error pairs of the outcomes that failed, in order.
pub open spec fn spec_failures(outs: Seq<ApplyOutcome>) -> Seq<(Seq<char>, Seq<char>)>
    decreases outs.len(),
{
    if outs.len() == 0 {
        Seq::empty()
    } else {
        let r = spec_failures(outs.drop_last());
        match outs.last().error {
            Some(e) => r.push((outs.last().app@, e@)),
            None => r,
        }
    }
}

/// The names of the successful outcomes that need a restart, in order.
pub open spec fn spec_restarts(outs: Seq<ApplyOutcome>) -> Seq<Seq<char>>
    decreases outs.len(),
{
    if outs.len() == 0 {
        Seq::empty()
    } else {
        let r = spec_restarts(outs.drop_last());
        if outs.last().error is None && outs.last().needs_restart {
            r.push(outs.last().app@)
        } else {
            r
        }
    }
}

/// Fold the per-target outcomes of an aggregate apply into one report. No
/// failure hides another target's result: the report carries every success
/// and every failure, the overall flag is true exactly when nothing
/// failed, and the wallpaper flag records whether a target named
/// `wallpaper` succeeded.
pub fn summarize_apply(outcomes: &Vec<ApplyOutcome>) -> (r: ThemeApplicationResult)
    ensures
        r.applied_to@.map_values(|s: String| s@) == spec_applied(outcomes@),
        r.errors@.map_values(|e: AppError| (e.app@, e.error@)) == spec_failures(outcomes@),
        r.requires_restart@.map_values(|s: String| s@) == spec_restarts(outcomes@),
        r.success == (spec_failures(outcomes@).len() == 0),
        r.wallpaper_changed == spec_applied(outcomes@).contains("wallpaper"@),
{
    let mut applied_to: Vec<String> = Vec::new();
    let mut errors: Vec<AppError> = Vec::new();
    let mut requires_restart: Vec<String> = Vec::new();
    let mut wallpaper_changed = false;
    let mut i: usize = 0;
    proof {
        assert(outcomes@.take(0) =~= Seq::<ApplyOutcome>::empty());
        assert(applied_to@.map_values(|s: String| s@) =~= spec_applied(outcomes@.take(0)));
        assert(errors@.map_values(|e: AppError| (e.app@, e.error@)) =~= spec_failures(
            outcomes@.take(0),
        ));
        assert(requires_restart@.map_values(|s: String| s@) =~= spec_restarts(outcomes@.take(0)));
    }
    while i < outcomes.len()
        invariant
            i <= outcomes@.len(),
            applied_to@.map_values(|s: String| s@) == spec_applied(outcomes@.take(i as int)),
            errors@.map_values(|e: AppError| (e.app@, e.error@)) == spec_failures(
                outcomes@.take(i as int),
            ),
            requires_restart@.map_values(|s: String| s@) == spec_restarts(outcomes@.take(i as int)),
            wallpaper_changed == spec_applied(outcomes@.take(i as int)).contains("wallpaper"@),
        decreases outcomes@.len() - i,
    {
        let ghost pre_a = applied_to@.map_values(|s: String| s@);
        let ghost pre_e = errors@.map_values(|e: AppError| (e.app@, e.error@));
        let ghost pre_r = requires_restart@.map_values(|s: String| s@);
        proof {
            assert(outcomes@.take(i + 1).drop_last() =~= outcomes@.take(i as int));
            assert(outcomes@.take(i + 1).last() == outcomes@[i as int]);
        }
        let o = &outcomes[i];
        match &o.error {
            Some(e) => {
                errors.push(AppError { app: o.app.clone(), error: e.clone() });
                proof {
                    assert(errors@.map_values(|e: AppError| (e.app@, e.error@)) =~= pre_e.push(
                        (o.app@, o.error.unwrap()@),
                    ));
                }
            },
            None => {
                applied_to.push(o.app.clone());
                if o.needs_restart {
                    requires_restart.push(o.app.clone());
                    proof {
                        assert(requires_restart@.map_values(|s: String| s@) =~= pre_r.push(o.app@));
                    }
                }
                if crate::strutil::str_eq(o.app.as_str(), "wallpaper") {
                    wallpaper_changed = true;
                }
                proof {
                    assert(applied_to@.map_values(|s: String| s@) =~= pre_a.push(o.app@));
                    assert(spec_applied(outcomes@.take(i + 1)) == pre_a.push(o.app@));
                    if o.app@ == "wallpaper"@ {
                        assert(spec_applied(outcomes@.take(i + 1)).last() == "wallpaper"@);
                        assert(spec_applied(outcomes@.take(i + 1)).contains("wallpaper"@));
                    } else {
                        assert(spec_applied(outcomes@.take(i + 1)).drop_last() =~= pre_a);
                        assert forall|k: int| 0 <= k < spec_applied(outcomes@.take(i + 1)).len()
                            implies (spec_applied(outcomes@.take(i + 1))[k] == "wallpaper"@
                            <==> (k < pre_a.len() && pre_a[k] == "wallpaper"@)) by {
                            if k < pre_a.len() {
                                assert(spec_applied(outcomes@.take(i + 1))[k] == pre_a[k]);
                            }
                        }
                    }
                }
            },
        }
        i += 1;
    }
    proof {
        assert(outcomes@.take(outcomes@.len() as int) =~= outcomes@);
    }
    let success = errors.len() == 0;
    proof {
        assert(errors@.map_values(|e: AppError| (e.app@, e.error@)).len() == errors@.len());
    }
    ThemeApplicationResult { success, applied_to, errors, wallpaper_changed, requires_restart }
}

/// When exactly one target fails and every other target succeeds, the
/// report has exactly that one failure, names it, and still carries every
/// other target as applied.
pub proof fn lemma_single_failure_isolated(outs: Seq<ApplyOutcome>, i: int)
    requires
        0 <= i < outs.len(),
        outs[i].error is Some,
        forall|j: int| 0 <= j < outs.len() && j != i ==> #[trigger] outs[j].error is None,
    ensures
        spec_failures(outs).len() == 1,
        spec_failures(outs)[0].0 == outs[i].app@,
        spec_applied(outs).len() == outs.len() - 1,
        forall|j: int|
            0 <= j < outs.len() && j != i ==> spec_applied(outs).contains(#[trigger] outs[j].app@),
    decreases outs.len(),
{
    let pre = outs.drop_last();
    assert(forall|j: int| 0 <= j < pre.len() ==> #[trigger] pre[j] == outs[j]);
    if i == outs.len() - 1 {
        lemma_all_ok_applied(pre);
        assert forall|j: int| 0 <= j < outs.len() && j != i implies spec_applied(outs).contains(
            #[trigger] outs[j].app@,
        ) by {
            assert(pre[j].app@ == outs[j].app@);
            assert(spec_applied(pre)[j] == pre[j].app@);
            assert(spec_applied(outs) == spec_applied(pre));
        }
    } else {
        lemma_single_failure_isolated(pre, i);
        assert(pre[i] == outs[i]);
        assert(outs.last().error is None);
        assert(spec_applied(outs) == spec_applied(pre).push(outs.last().app@));
        assert forall|j: int| 0 <= j < outs.len() && j != i implies spec_applied(outs).contains(
            #[trigger] outs[j].app@,
        ) by {
            if j < outs.len() - 1 {
                assert(pre[j] == outs[j]);
                assert(spec_applied(pre).contains(pre[j].app@));
                assert(spec_applied(pre).contains(outs[j].app@));
                let k = choose|k: int|
                    0 <= k < spec_applied(pre).len() && spec_applied(pre)[k] == outs[j].app@;
                assert(spec_applied(outs)[k] == outs[j].app@);
            } else {
                assert(spec_applied(outs).last() == outs[j].app@);
            }
        }
    }
}

/// When every target succeeds, the report lists them all, in order.
pub proof fn lemma_all_ok_applied(outs: Seq<ApplyOutcome>)
    requires
        forall|j: int| 0 <= j < outs.len() ==> #[trigger] outs[j].error is None,
    ensures
        spec_failures(outs).len() == 0,
        spec_applied(outs).len() == outs.len(),
        forall|j: int| 0 <= j < outs.len() ==> spec_applied(outs)[j] == #[trigger] outs[j].app@,
    decreases outs.len(),
{
    if outs.len() > 0 {
        let pre = outs.drop_last();
        assert(forall|j: int| 0 <= j < pre.len() ==> #[trigger] pre[j] == outs[j]);
        lemma_all_ok_applied(pre);
        assert(outs.last().error is None);
        assert(spec_applied(outs) == spec_applied(pre).push(outs.last().app@));
        assert(spec_applied(pre).len() == pre.len());
        assert(spec_applied(outs).len() == outs.len());
        assert forall|j: int| 0 <= j < outs.len() implies spec_applied(outs)[j]
            == #[trigger] outs[j].app@ by {
            if j < outs.len() - 1 {
                assert(pre[j] == outs[j]);
                assert(spec_applied(pre)[j] == pre[j].app@);
                assert(spec_applied(outs)[j] == spec_applied(pre)[j]);
            } else {
                assert(spec_applied(outs)[j] == outs.last().app@);
            }
        }
    }
}

/// The record of a successful apply, stamped with the given instant.
pub fn build_active_info(theme: &Theme, variant: &str, active: &ThemeVariant, now_iso: &str) -> (r:
    ActiveThemeInfo)
    ensures
        r.theme_id@ == theme.id@,
        r.theme_name@ == theme.name@,
        r.variant@ == variant@,
        r.wallpaper@ == active.wallpaper@,
        r.accent_color@ == active.palette.accent@,
        r.applied_at@ == now_iso@,
{
    ActiveThemeInfo {
        theme_id: theme.id.clone(),
        theme_name: theme.name.clone(),
        variant: variant.to_owned(),
        wallpaper: active.wallpaper.clone(),
        accent_color: active.palette.accent.clone(),
        applied_at: now_iso.to_owned(),
    }
}

} // verus!
