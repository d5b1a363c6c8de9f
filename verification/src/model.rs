//! The theme data model: variants, per-application override blocks, theme
//! metadata for listings, and the record of the last applied theme.
//!
//! Override maps are kept as vectors of pairs in insertion order, so that
//! everything rendered from them is deterministic; a hash map's iteration
//! order would leak into persisted artifacts.

use vstd::prelude::*;

verus! {

use crate::palette::ThemePalette;
use vstd::multiset::Multiset;

/// A configuration value carried through from a persisted override block:
/// either a plain string, which may reference palette slots, or the
/// serialized text of any other value, emitted verbatim.
#[derive(Debug, Clone)]
pub enum ConfigValue {
    Str(String),
    Raw(String),
}

/// Optional semantic token overrides: named roles mapping to a palette
/// reference or a concrete value.
#[derive(Debug, Clone)]
pub struct SemanticTokens {
    pub active_border: Option<String>,
    pub inactive_border: Option<String>,
    pub shadow: Option<String>,
    pub bar_background: Option<String>,
    pub bar_foreground: Option<String>,
    pub workspace_active: Option<String>,
    pub workspace_empty: Option<String>,
    pub primary: Option<String>,
    pub success: Option<String>,
    pub warning: Option<String>,
    pub error: Option<String>,
}

/// One variant of a theme: a wallpaper, a full palette, and optional
/// semantic tokens.
#[derive(Debug, Clone)]
pub struct ThemeVariant {
    pub wallpaper: String,
    pub palette: ThemePalette,
    pub semantic_tokens: Option<SemanticTokens>,
}

/// The day variant is required; the night variant falls back to day.
#[derive(Debug, Clone)]
pub struct ThemeVariants {
    pub day: ThemeVariant,
    pub night: Option<ThemeVariant>,
}

/// Window-manager override block: per-section key/value pairs in insertion
/// order.
#[derive(Debug, Clone)]
pub struct HyprlandAppConfig {
    pub general: Option<Vec<(String, ConfigValue)>>,
    pub decoration: Option<Vec<(String, ConfigValue)>>,
    pub animations: Option<Vec<(String, ConfigValue)>>,
}

/// Status-bar override block.
#[derive(Debug, Clone)]
pub struct WaybarAppConfig {
    pub custom_css: Option<String>,
    pub modules: Option<Vec<(String, ConfigValue)>>,
    pub css_variables: Option<Vec<(String, String)>>,
}

/// Terminal-emulator override block. The font size is carried as text,
/// exactly as it will be written out.
#[derive(Debug, Clone)]
pub struct KittyAppConfig {
    pub background_opacity: Option<String>,
    pub cursor: Option<String>,
    pub cursor_text_color: Option<String>,
    pub url_color: Option<String>,
    pub font_size: Option<String>,
    pub font_family: Option<String>,
}

/// Prompt-tool override block: the palette name and extra named colors in
/// insertion order.
#[derive(Debug, Clone)]
pub struct StarshipAppConfig {
    pub palette_name: Option<String>,
    pub extra_colors: Option<Vec<(String, String)>>,
}

/// Launcher override block.
#[derive(Debug, Clone)]
pub struct RofiAppConfig {
    pub border_width: Option<String>,
    pub border_radius: Option<String>,
    pub font: Option<String>,
    pub extra: Option<Vec<(String, String)>>,
}

/// The optional per-application override blocks of a theme.
#[derive(Debug, Clone)]
pub struct ThemeAppConfigs {
    pub hyprland: Option<HyprlandAppConfig>,
    pub waybar: Option<WaybarAppConfig>,
    pub kitty: Option<KittyAppConfig>,
    pub starship: Option<StarshipAppConfig>,
    pub rofi: Option<RofiAppConfig>,
}

/// A complete theme: identity, metadata, the variant pair, override blocks
/// and store-assigned timestamps.
#[derive(Debug, Clone)]
pub struct Theme {
    pub id: String,
    pub name: String,
    pub description: Option<String>,
    pub author: Option<String>,
    pub version: Option<String>,
    pub variants: ThemeVariants,
    pub apps: Option<ThemeAppConfigs>,
    pub tags: Option<Vec<String>>,
    pub month: Option<u32>,
    pub is_holiday: Option<bool>,
    pub created_at: Option<String>,
    pub updated_at: Option<String>,
}

/// The summary of a theme shown in listings.
#[derive(Debug, Clone)]
pub struct ThemeMetadata {
    pub id: String,
    pub name: String,
    pub description: Option<String>,
    pub author: Option<String>,
    pub day_wallpaper: String,
    pub night_wallpaper: Option<String>,
    pub accent_color: String,
    pub tags: Option<Vec<String>>,
    pub month: Option<u32>,
    pub is_holiday: Option<bool>,
}

/// What happened when a theme was applied: which targets succeeded, which
/// failed and how, and which need a restart to pick the change up.
#[derive(Debug, Clone)]
pub struct ThemeApplicationResult {
    pub success: bool,
    pub applied_to: Vec<String>,
    pub errors: Vec<AppError>,
    pub wallpaper_changed: bool,
    pub requires_restart: Vec<String>,
}

/// One per-application failure inside an aggregate apply.
#[derive(Debug, Clone)]
pub struct AppError {
    pub app: String,
    pub error: String,
}

/// The record of the last successfully applied theme.
#[derive(Debug, Clone)]
pub struct ActiveThemeInfo {
    pub theme_id: String,
    pub theme_name: String,
    pub variant: String,
    pub wallpaper: String,
    pub accent_color: String,
    pub applied_at: String,
}

/// Copy an optional string.
pub fn clone_opt_string(o: &Option<String>) -> (r: Option<String>)
    ensures
        match r {
            Some(s) => o matches Some(v) && s@ == v@,
            None => o is None,
        },
{
    match o {
        Some(s) => Some(s.clone()),
        None => None,
    }
}

/// Copy a vector of strings.
pub fn clone_vec_string(v: &Vec<String>) -> (r: Vec<String>)
    ensures
        r@.len() == v@.len(),
        forall|i: int| 0 <= i < v@.len() ==> #[trigger] r@[i]@ == v@[i]@,
{
    let mut out: Vec<String> = Vec::new();
    let mut i: usize = 0;
    while i < v.len()
        invariant
            i <= v@.len(),
            out@.len() == i,
            forall|j: int| 0 <= j < i ==> #[trigger] out@[j]@ == v@[j]@,
        decreases v@.len() - i,
    {
        out.push(v[i].clone());
        i += 1;
    }
    out
}

/// Copy an optional vector of strings.
pub fn clone_opt_vec_string(o: &Option<Vec<String>>) -> (r: Option<Vec<String>>)
    ensures
        match r {
            Some(s) => o matches Some(v) && s@.len() == v@.len() && (forall|i: int|
                0 <= i < v@.len() ==> #[trigger] s@[i]@ == v@[i]@),
            None => o is None,
        },
{
    match o {
        Some(v) => Some(clone_vec_string(v)),
        None => None,
    }
}

/// The listing summary of a theme: identity and descriptive fields, the
/// wallpapers of both variants, and the day accent color.
pub fn theme_metadata(t: &Theme) -> (r: ThemeMetadata)
    ensures
        r.id@ == t.id@,
        r.name@ == t.name@,
        (match r.description {
            Some(s) => t.description matches Some(v) && s@ == v@,
            None => t.description is None,
        }),
        (match r.author {
            Some(s) => t.author matches Some(v) && s@ == v@,
            None => t.author is None,
        }),
        r.day_wallpaper@ == t.variants.day.wallpaper@,
        (match r.night_wallpaper {
            Some(s) => t.variants.night matches Some(n) && s@ == n.wallpaper@,
            None => t.variants.night is None,
        }),
        r.accent_color@ == t.variants.day.palette.accent@,
        (match r.tags {
            Some(s) => t.tags matches Some(v) && s@.len() == v@.len() && (forall|i: int|
                0 <= i < v@.len() ==> #[trigger] s@[i]@ == v@[i]@),
            None => t.tags is None,
        }),
        r.month == t.month,
        r.is_holiday == t.is_holiday,
{
    ThemeMetadata {
        id: t.id.clone(),
        name: t.name.clone(),
        description: clone_opt_string(&t.description),
        author: clone_opt_string(&t.author),
        day_wallpaper: t.variants.day.wallpaper.clone(),
        night_wallpaper: match &t.variants.night {
            Some(n) => Some(n.wallpaper.clone()),
            None => None,
        },
        accent_color: t.variants.day.palette.accent.clone(),
        tags: clone_opt_vec_string(&t.tags),
        month: t.month,
        is_holiday: t.is_holiday,
    }
}

/// Stamp a theme for saving. Both timestamps are owned by the store, never
/// by the caller: `updated_at` always becomes the save instant, and
/// `created_at` becomes the timestamp already held in the store
/// (`stored_created_at`), or the save instant when the store holds none —
/// the first save of this id. Whatever the caller put in the two timestamp
/// fields is discarded; every other field is returned unchanged.
pub fn prepare_theme_for_save(theme: Theme, now_iso: &String, stored_created_at: Option<String>)
    -> (r: Theme)
    ensures
        r.id == theme.id,
        r.name == theme.name,
        r.description == theme.description,
        r.author == theme.author,
        r.version == theme.version,
        r.variants == theme.variants,
        r.apps == theme.apps,
        r.tags == theme.tags,
        r.month == theme.month,
        r.is_holiday == theme.is_holiday,
        r.created_at == (match stored_created_at {
            Some(existing) => Some(existing),
            None => Some(*now_iso),
        }),
        r.updated_at == Some(*now_iso),
{
    let created_at: Option<String> = match stored_created_at {
        Some(existing) => Some(existing),
        None => Some(now_iso.clone()),
    };
    Theme { created_at, updated_at: Some(now_iso.clone()), ..theme }
}

/// Lexicographic order on character sequences by code point, the order the
/// theme listing is sorted in.
pub open spec fn lex_le(a: Seq<char>, b: Seq<char>) -> bool
    decreases a.len(),
{
    if a.len() == 0 {
        true
    } else if b.len() == 0 {
        false
    } else if (a[0] as int) < (b[0] as int) {
        true
    } else if (a[0] as int) > (b[0] as int) {
        false
    } else {
        lex_le(a.skip(1), b.skip(1))
    }
}

/// The lexicographic order is total: of any two sequences, one is at most
/// the other.
pub proof fn lemma_lex_total(a: Seq<char>, b: Seq<char>)
    ensures
        lex_le(a, b) || lex_le(b, a),
    decreases a.len(),
{
    if a.len() > 0 && b.len() > 0 && (a[0] as int) == (b[0] as int) {
        lemma_lex_total(a.skip(1), b.skip(1));
    }
}

/// Compare two strings in the listing order.
pub fn str_lex_le(a: &str, b: &str) -> (r: bool)
    ensures
        r == lex_le(a@, b@),
{
    let la = a.unicode_len();
    let lb = b.unicode_len();
    let mut i: usize = 0;
    proof {
        assert(a@.skip(0) =~= a@);
        assert(b@.skip(0) =~= b@);
    }
    while i < la && i < lb
        invariant
            i <= la,
            i <= lb,
            la == a@.len(),
            lb == b@.len(),
            lex_le(a@, b@) == lex_le(a@.skip(i as int), b@.skip(i as int)),
        decreases la - i,
    {
        let ca = a.get_char(i);
        let cb = b.get_char(i);
        let ghost ar = a@.skip(i as int);
        let ghost br = b@.skip(i as int);
        proof {
            assert(ar[0] == a@[i as int]);
            assert(br[0] == b@[i as int]);
            assert(ar.skip(1) =~= a@.skip(i as int + 1));
            assert(br.skip(1) =~= b@.skip(i as int + 1));
        }
        if (ca as u32) < (cb as u32) {
            return true;
        }
        if (ca as u32) > (cb as u32) {
            return false;
        }
        i += 1;
    }
    proof {
        if i >= la {
            assert(a@.skip(i as int).len() == 0);
        } else {
            assert(b@.skip(i as int).len() == 0);
            assert(a@.skip(i as int).len() > 0);
        }
    }
    la <= lb
}

/// The lexicographic order is reflexive.
pub proof fn lemma_lex_refl(a: Seq<char>)
    ensures
        lex_le(a, a),
    decreases a.len(),
{
    if a.len() > 0 {
        lemma_lex_refl(a.skip(1));
    }
}

/// The index of the smallest name in the listing order.
fn min_name_index(v: &Vec<ThemeMetadata>) -> (r: usize)
    requires
        v@.len() > 0,
    ensures
        0 <= r < v@.len(),
        forall|j: int| 0 <= j < v@.len() ==> lex_le(v@[r as int].name@, #[trigger] v@[j].name@),
{
    let mut best: usize = 0;
    let mut i: usize = 1;
    proof {
        lemma_lex_refl(v@[0].name@);
    }
    while i < v.len()
        invariant
            0 <= best < v@.len(),
            1 <= i <= v@.len(),
            forall|j: int| 0 <= j < i ==> lex_le(v@[best as int].name@, #[trigger] v@[j].name@),
        decreases v@.len() - i,
    {
        if !str_lex_le(v[best].name.as_str(), v[i].name.as_str()) {
            proof {
                lemma_lex_total(v@[best as int].name@, v@[i as int].name@);
            }
            let newbest: usize = i;
            proof {
                assert forall|j: int| 0 <= j < i + 1 implies lex_le(
                    v@[newbest as int].name@,
                    #[trigger] v@[j].name@,
                ) by {
                    if j < i {
                        lemma_lex_trans(v@[newbest as int].name@, v@[best as int].name@, v@[j].name@);
                    } else {
                        lemma_lex_refl(v@[newbest as int].name@);
                    }
                }
            }
            best = newbest;
        }
        i += 1;
    }
    best
}

/// The lexicographic order is transitive.
pub proof fn lemma_lex_trans(a: Seq<char>, b: Seq<char>, c: Seq<char>)
    requires
        lex_le(a, b),
        lex_le(b, c),
    ensures
        lex_le(a, c),
    decreases a.len(),
{
    if a.len() > 0 && b.len() > 0 && c.len() > 0 {
        if (a[0] as int) == (b[0] as int) && (b[0] as int) == (c[0] as int) {
            lemma_lex_trans(a.skip(1), b.skip(1), c.skip(1));
        }
    }
}

/// Sort theme summaries by name: the result is a permutation of the input,
/// ordered by the listing order.
pub fn sort_metadata_by_name(v: Vec<ThemeMetadata>) -> (r: Vec<ThemeMetadata>)
    ensures
        r@.to_multiset() == v@.to_multiset(),
        forall|i: int, j: int|
            0 <= i < j < r@.len() ==> lex_le(#[trigger] r@[i].name@, #[trigger] r@[j].name@),
{
    broadcast use vstd::seq_lib::group_to_multiset_ensures;
    broadcast use vstd::multiset::group_multiset_axioms;

    let mut rest = v;
    let mut out: Vec<ThemeMetadata> = Vec::new();
    let ghost orig = rest@;
    proof {
        assert(out@.to_multiset().len() == 0);
        assert(out@.to_multiset() =~= Multiset::<ThemeMetadata>::empty());
        assert(out@.to_multiset().add(rest@.to_multiset()) =~= orig.to_multiset());
    }
    while rest.len() > 0
        invariant
            out@.to_multiset().add(rest@.to_multiset()) == orig.to_multiset(),
            forall|i: int, j: int|
                0 <= i < j < out@.len() ==> lex_le(#[trigger] out@[i].name@, #[trigger] out@[j].name@),
            forall|i: int, j: int|
                0 <= i < out@.len() && 0 <= j < rest@.len() ==> lex_le(
                    #[trigger] out@[i].name@,
                    #[trigger] rest@[j].name@,
                ),
        decreases rest@.len(),
    {
        let k = min_name_index(&rest);
        let ghost rest0 = rest@;
        let ghost out0 = out@;
        let item = rest.remove(k);
        out.push(item);
        proof {
            rest0.to_multiset_ensures();
            rest@.to_multiset_ensures();
            out0.to_multiset_ensures();
            assert(rest@ == rest0.remove(k as int));
            assert(rest@.to_multiset() == rest0.to_multiset().remove(rest0[k as int])) by {
                vstd::seq_lib::to_multiset_remove::<ThemeMetadata>(rest0, k as int);
            }
            assert(rest0.to_multiset().contains(rest0[k as int])) by {
                assert(rest0.contains(rest0[k as int]));
            }
            assert(rest0.to_multiset() =~= rest@.to_multiset().insert(rest0[k as int]));
            assert(out@.to_multiset() =~= out0.to_multiset().insert(rest0[k as int]));
            assert(out@.to_multiset().add(rest@.to_multiset()) =~= out0.to_multiset().add(
                rest0.to_multiset(),
            ));
            assert(out@ == out0.push(rest0[k as int]));
            assert forall|i: int, j: int|
                0 <= i < out@.len() && 0 <= j < rest@.len() implies lex_le(
                #[trigger] out@[i].name@,
                #[trigger] rest@[j].name@,
            ) by {
                let pre = if j < k { j } else { j + 1 };
                assert(rest@[j] == rest0[pre]);
                if i < out@.len() - 1 {
                    assert(out@[i] == out0[i]);
                } else {
                    assert(out@[i] == rest0[k as int]);
                }
            }
            assert forall|i: int, j: int|
                0 <= i < j < out@.len() implies lex_le(
                #[trigger] out@[i].name@,
                #[trigger] out@[j].name@,
            ) by {
                if j < out@.len() - 1 {
                    assert(out@[i] == out0[i] && out@[j] == out0[j]);
                } else {
                    assert(out@[i] == out0[i] && out@[j] == rest0[k as int]);
                }
            }
        }
    }
    proof {
        assert(rest@.to_multiset().len() == 0);
        assert(rest@.to_multiset() =~= Multiset::<ThemeMetadata>::empty());
        assert(out@.to_multiset() =~= out@.to_multiset().add(rest@.to_multiset()));
    }
    out
}

} // verus!
