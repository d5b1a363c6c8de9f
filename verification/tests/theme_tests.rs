use argus::model::{
    prepare_theme_for_save, sort_metadata_by_name, theme_metadata, ConfigValue, HyprlandAppConfig,
    KittyAppConfig, StarshipAppConfig, Theme, ThemeAppConfigs, ThemeMetadata, ThemeVariant,
    ThemeVariants, WaybarAppConfig,
};
use argus::palette::{resolve_color_refs, resolve_palette_ref, replace_all, ThemePalette};
use argus::render::{
    build_active_info, generate_hyprland_config, generate_kitty_content, generate_rofi_content,
    generate_starship_content, generate_waybar_css_content, render_all_previews, select_variant,
    summarize_apply, ApplyOutcome,
};

fn palette() -> ThemePalette {
    ThemePalette {
        base: String::from("#1e1e2e"),
        mantle: String::from("#181825"),
        crust: String::from("#11111b"),
        surface0: String::from("#313244"),
        surface1: String::from("#45475a"),
        surface2: String::from("#585b70"),
        text: String::from("#cdd6f4"),
        subtext0: String::from("#a6adc8"),
        subtext1: String::from("#bac2de"),
        accent: String::from("#89b4fa"),
        secondary: String::from("#f5c2e7"),
        red: String::from("#f38ba8"),
        green: String::from("#a6e3a1"),
        yellow: String::from("#f9e2af"),
        blue: String::from("#89b4fa"),
        pink: String::from("#f5c2e7"),
        teal: String::from("#94e2d5"),
    }
}

fn theme() -> Theme {
    Theme {
        id: String::from("catppuccin"),
        name: String::from("Catppuccin"),
        description: Some(String::from("Soothing pastels")),
        author: Some(String::from("someone")),
        version: Some(String::from("1.0")),
        variants: ThemeVariants {
            day: ThemeVariant {
                wallpaper: String::from("/walls/day.png"),
                palette: palette(),
                semantic_tokens: None,
            },
            night: None,
        },
        apps: None,
        tags: Some(vec![String::from("dark")]),
        month: Some(12),
        is_holiday: Some(false),
        created_at: None,
        updated_at: None,
    }
}

#[test]
fn palette_placeholders_resolve_verbatim() {
    let p = palette();
    let out = resolve_color_refs("border = {accent} {secondary}", &p);
    assert_eq!(out, "border = #89b4fa #f5c2e7");
}

#[test]
fn unknown_placeholders_pass_through() {
    let p = palette();
    assert_eq!(resolve_color_refs("x {nope} {accent}", &p), "x {nope} #89b4fa");
    assert_eq!(resolve_color_refs("", &p), "");
}

#[test]
fn palette_lookup_knows_all_slots_and_nothing_else() {
    let p = palette();
    assert_eq!(resolve_palette_ref("teal", &p).as_deref(), Some("#94e2d5"));
    assert_eq!(resolve_palette_ref("accent", &p).as_deref(), Some("#89b4fa"));
    assert!(resolve_palette_ref("outline", &p).is_none());
    assert!(resolve_palette_ref("", &p).is_none());
}

#[test]
fn replacement_is_single_pass() {
    assert_eq!(replace_all("aaa", "aa", "b"), "ba");
    assert_eq!(replace_all("abc", "", "x"), "abc");
    assert_eq!(replace_all("{x}{x}", "{x}", "y"), "yy");
}

#[test]
fn saving_stamps_timestamps_and_keeps_the_rest() {
    let t = theme();
    let now = String::from("2024-06-21T12:00:00+00:00");
    let first = prepare_theme_for_save(t, &now, None);
    assert_eq!(first.created_at.as_deref(), Some("2024-06-21T12:00:00+00:00"));
    assert_eq!(first.updated_at.as_deref(), Some("2024-06-21T12:00:00+00:00"));
    assert_eq!(first.id, "catppuccin");
    assert_eq!(first.name, "Catppuccin");
    assert_eq!(first.description.as_deref(), Some("Soothing pastels"));
    assert_eq!(first.month, Some(12));

    let later = String::from("2024-06-22T12:00:00+00:00");
    let stored = first.created_at.clone();
    let second = prepare_theme_for_save(first, &later, stored);
    assert_eq!(second.created_at.as_deref(), Some("2024-06-21T12:00:00+00:00"));
    assert_eq!(second.updated_at.as_deref(), Some("2024-06-22T12:00:00+00:00"));
}

#[test]
fn the_store_owns_the_creation_timestamp() {
    // Whatever the caller puts into the timestamp fields is discarded: on
    // an update the stored timestamp wins, and on a first save the save
    // instant does.
    let mut t = theme();
    t.created_at = Some(String::from("1999-01-01T00:00:00+00:00"));
    t.updated_at = Some(String::from("1999-01-01T00:00:00+00:00"));
    let now = String::from("2024-06-22T12:00:00+00:00");
    let stored = Some(String::from("2024-06-21T12:00:00+00:00"));
    let updated = prepare_theme_for_save(t, &now, stored);
    assert_eq!(updated.created_at.as_deref(), Some("2024-06-21T12:00:00+00:00"));
    assert_eq!(updated.updated_at.as_deref(), Some("2024-06-22T12:00:00+00:00"));

    let mut t2 = theme();
    t2.created_at = Some(String::from("1999-01-01T00:00:00+00:00"));
    let fresh = prepare_theme_for_save(t2, &now, None);
    assert_eq!(fresh.created_at.as_deref(), Some("2024-06-22T12:00:00+00:00"));
}

#[test]
fn metadata_copies_the_tags() {
    let m = theme_metadata(&theme());
    assert_eq!(m.tags, Some(vec![String::from("dark")]));
    let mut untagged = theme();
    untagged.tags = None;
    assert!(theme_metadata(&untagged).tags.is_none());
}

#[test]
fn aggregate_apply_reports_the_single_failure() {
    let outcomes = vec![
        ApplyOutcome { app: String::from("wallpaper"), error: None, needs_restart: false },
        ApplyOutcome { app: String::from("hyprland"), error: None, needs_restart: false },
        ApplyOutcome { app: String::from("waybar"), error: None, needs_restart: false },
        ApplyOutcome {
            app: String::from("kitty"),
            error: Some(String::from("write failed")),
            needs_restart: true,
        },
        ApplyOutcome { app: String::from("starship"), error: None, needs_restart: false },
        ApplyOutcome { app: String::from("rofi"), error: None, needs_restart: false },
    ];
    let r = summarize_apply(&outcomes);
    assert!(!r.success);
    let applied: Vec<&str> = r.applied_to.iter().map(|s| s.as_str()).collect();
    assert_eq!(applied, vec!["wallpaper", "hyprland", "waybar", "starship", "rofi"]);
    assert_eq!(r.errors.len(), 1);
    assert_eq!(r.errors[0].app, "kitty");
    assert_eq!(r.errors[0].error, "write failed");
    assert!(r.wallpaper_changed);
    assert!(r.requires_restart.is_empty());
}

#[test]
fn aggregate_apply_with_no_failures_succeeds() {
    let outcomes = vec![
        ApplyOutcome { app: String::from("hyprland"), error: None, needs_restart: false },
        ApplyOutcome { app: String::from("kitty"), error: None, needs_restart: true },
    ];
    let r = summarize_apply(&outcomes);
    assert!(r.success);
    assert!(r.errors.is_empty());
    assert!(!r.wallpaper_changed);
    let restarts: Vec<&str> = r.requires_restart.iter().map(|s| s.as_str()).collect();
    assert_eq!(restarts, vec!["kitty"]);
}

#[test]
fn hyprland_render_uses_palette_defaults() {
    let t = theme();
    let out = generate_hyprland_config(&t, &palette());
    let expected = "# HyprPaper Theme Colors\n# Theme: Catppuccin\n\ngeneral {\n    col.active_border = #89b4fa #f5c2e7 45deg\n    col.inactive_border = #45475a\n}\n\ndecoration {\n    col.shadow = #11111baa\n}\n";
    assert_eq!(out, expected);
}

#[test]
fn hyprland_render_prefers_overrides() {
    let mut t = theme();
    t.apps = Some(ThemeAppConfigs {
        hyprland: Some(HyprlandAppConfig {
            general: Some(vec![
                (String::from("col.active_border"), ConfigValue::Str(String::from("{teal}"))),
                (String::from("gaps_in"), ConfigValue::Raw(String::from("5"))),
            ]),
            decoration: None,
            animations: None,
        }),
        waybar: None,
        kitty: None,
        starship: None,
        rofi: None,
    });
    let out = generate_hyprland_config(&t, &palette());
    let expected = "# HyprPaper Theme Colors\n# Theme: Catppuccin\n\ngeneral {\n    col.active_border = #94e2d5\n    gaps_in = 5\n}\n\ndecoration {\n    col.shadow = #11111baa\n}\n";
    assert_eq!(out, expected);
}

#[test]
fn waybar_render_exports_the_palette() {
    let t = theme();
    let out = generate_waybar_css_content(&t, &palette());
    assert!(out.starts_with("/* HyprPaper Theme: Catppuccin */\n\n:root {\n    --base: #1e1e2e;\n"));
    assert!(out.contains("    --teal: #94e2d5;\n}\n"));
    assert!(out.contains("#workspaces button.urgent {\n    background: var(--red);\n}\n"));
    assert!(!out.contains("Custom theme CSS"));
}

#[test]
fn waybar_render_appends_custom_css() {
    let mut t = theme();
    t.apps = Some(ThemeAppConfigs {
        hyprland: None,
        waybar: Some(WaybarAppConfig {
            custom_css: Some(String::from("#clock { color: red; }")),
            modules: None,
            css_variables: None,
        }),
        kitty: None,
        starship: None,
        rofi: None,
    });
    let out = generate_waybar_css_content(&t, &palette());
    assert!(out.ends_with("\n/* Custom theme CSS */\n#clock { color: red; }"));
}

#[test]
fn kitty_render_maps_terminal_colors() {
    let t = theme();
    let out = generate_kitty_content(&t, &palette());
    assert!(out.starts_with("# HyprPaper Theme: Catppuccin\n\nforeground #cdd6f4\nbackground #1e1e2e\n"));
    assert!(out.contains("\ncursor #89b4fa\n"));
    assert!(out.contains("\ncolor1 #f38ba8\n"));
    assert!(out.contains("\ncolor6 #94e2d5\n"));
    assert!(out.ends_with("\ncolor15 #cdd6f4\n"));
}

#[test]
fn kitty_render_honors_cursor_and_opacity_overrides() {
    let mut t = theme();
    t.apps = Some(ThemeAppConfigs {
        hyprland: None,
        waybar: None,
        kitty: Some(KittyAppConfig {
            background_opacity: Some(String::from("0.95")),
            cursor: Some(String::from("{pink}")),
            cursor_text_color: None,
            url_color: None,
            font_size: None,
            font_family: None,
        }),
        starship: None,
        rofi: None,
    });
    let out = generate_kitty_content(&t, &palette());
    assert!(out.contains("\ncursor #f5c2e7\n"));
    assert!(out.ends_with("\nbackground_opacity 0.95\n"));
}

#[test]
fn starship_render_names_and_fills_the_palette() {
    let t = theme();
    let out = generate_starship_content(&t, &palette());
    assert!(out.starts_with("# HyprPaper Theme: Catppuccin\n\npalette = \"theme\"\n\n[palettes.theme]\nbase = \"#1e1e2e\"\n"));
    assert!(out.ends_with("teal = \"#94e2d5\"\n"));
}

#[test]
fn starship_render_takes_the_override_name_and_extras() {
    let mut t = theme();
    t.apps = Some(ThemeAppConfigs {
        hyprland: None,
        waybar: None,
        kitty: None,
        starship: Some(StarshipAppConfig {
            palette_name: Some(String::from("cat")),
            extra_colors: Some(vec![(String::from("lavender"), String::from("#b4befe"))]),
        }),
        rofi: None,
    });
    let out = generate_starship_content(&t, &palette());
    assert!(out.contains("palette = \"cat\"\n\n[palettes.cat]\n"));
    assert!(out.ends_with("lavender = \"#b4befe\"\n"));
}

#[test]
fn rofi_render_is_fixed_up_to_the_palette() {
    let t = theme();
    let out = generate_rofi_content(&t, &palette());
    assert!(out.starts_with("/* HyprPaper Theme: Catppuccin */\n\n* {\n    base: #1e1e2e;\n"));
    assert!(out.contains("element selected {\n    background-color: @accent;\n    text-color: @base;\n}\n"));
    assert!(out.ends_with("element-icon {\n    size: 24px;\n}\n"));
}

#[test]
fn preview_renders_all_five_formats_in_order() {
    let t = theme();
    let previews = render_all_previews(&t, "day");
    let names: Vec<&str> = previews.iter().map(|p| p.0.as_str()).collect();
    assert_eq!(names, vec!["hyprland", "waybar_css", "kitty", "starship", "rofi"]);
    assert_eq!(previews[0].1, generate_hyprland_config(&t, &palette()));
}

#[test]
fn variant_selection_falls_back_to_day() {
    let t = theme();
    let day = select_variant(&t.variants, "day");
    assert_eq!(day.wallpaper, "/walls/day.png");
    let night = select_variant(&t.variants, "night");
    assert_eq!(night.wallpaper, "/walls/day.png");

    let mut both = theme();
    both.variants.night = Some(ThemeVariant {
        wallpaper: String::from("/walls/night.png"),
        palette: palette(),
        semantic_tokens: None,
    });
    assert_eq!(select_variant(&both.variants, "night").wallpaper, "/walls/night.png");
    assert_eq!(select_variant(&both.variants, "day").wallpaper, "/walls/day.png");
}

#[test]
fn metadata_summarizes_a_theme() {
    let m = theme_metadata(&theme());
    assert_eq!(m.id, "catppuccin");
    assert_eq!(m.name, "Catppuccin");
    assert_eq!(m.day_wallpaper, "/walls/day.png");
    assert!(m.night_wallpaper.is_none());
    assert_eq!(m.accent_color, "#89b4fa");
    assert_eq!(m.month, Some(12));
}

#[test]
fn listings_sort_by_name() {
    let mk = |name: &str| -> ThemeMetadata {
        let mut t = theme();
        t.name = String::from(name);
        theme_metadata(&t)
    };
    let sorted = sort_metadata_by_name(vec![mk("zeta"), mk("Alpha"), mk("beta"), mk("Alpha")]);
    let names: Vec<&str> = sorted.iter().map(|m| m.name.as_str()).collect();
    assert_eq!(names, vec!["Alpha", "Alpha", "beta", "zeta"]);
}

#[test]
fn active_info_records_the_applied_variant() {
    let t = theme();
    let v = select_variant(&t.variants, "day");
    let info = build_active_info(&t, "day", v, "2024-06-21T12:00:00+00:00");
    assert_eq!(info.theme_id, "catppuccin");
    assert_eq!(info.theme_name, "Catppuccin");
    assert_eq!(info.variant, "day");
    assert_eq!(info.wallpaper, "/walls/day.png");
    assert_eq!(info.accent_color, "#89b4fa");
    assert_eq!(info.applied_at, "2024-06-21T12:00:00+00:00");
}
