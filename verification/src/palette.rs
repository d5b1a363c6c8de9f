//! The color palette and the resolution of `{slot}` placeholders.
//!
//! A palette has a fixed, closed set of seventeen named color slots. A
//! template may mention any slot as `{name}`; resolution replaces every
//! occurrence of each known placeholder, left to right and once per slot
//! name, and leaves anything else untouched.

use vstd::prelude::*;

verus! {

use crate::strutil::str_eq;

/// The closed set of seventeen named color slots every theme must fill.
/// Each value is free-form text, typically a hex color.
#[derive(Debug, Clone)]
pub struct ThemePalette {
    pub base: String,
    pub mantle: String,
    pub crust: String,
    pub surface0: String,
    pub surface1: String,
    pub surface2: String,
    pub text: String,
    pub subtext0: String,
    pub subtext1: String,
    pub accent: String,
    pub secondary: String,
    pub red: String,
    pub green: String,
    pub yellow: String,
    pub blue: String,
    pub pink: String,
    pub teal: String,
}

/// Replace every occurrence of `pat` in `s` by `val`, scanning left to
/// right without rescanning replaced text. An empty pattern replaces
/// nothing.
pub open spec fn spec_replace(s: Seq<char>, pat: Seq<char>, val: Seq<char>) -> Seq<char>
    decreases s.len(),
{
    if pat.len() == 0 {
        s
    } else if s.len() < pat.len() {
        s
    } else if s.subrange(0, pat.len() as int) == pat {
        val + spec_replace(s.skip(pat.len() as int), pat, val)
    } else {
        seq![s[0]] + spec_replace(s.skip(1), pat, val)
    }
}

/// Whether `pat` occurs in `s` starting at character `i`.
fn match_at(s: &str, pat: &str, i: usize, sl: usize, pl: usize) -> (r: bool)
    requires
        sl == s@.len(),
        pl == pat@.len(),
        i + pl <= sl,
    ensures
        r == (s@.subrange(i as int, i + pl) == pat@),
{
    let mut j: usize = 0;
    while j < pl
        invariant
            j <= pl,
            sl == s@.len(),
            pl == pat@.len(),
            i + pl <= sl,
            forall|k: int| 0 <= k < j ==> s@[i + k] == pat@[k],
        decreases pl - j,
    {
        if s.get_char(i + j) != pat.get_char(j) {
            proof {
                assert(s@.subrange(i as int, i + pl)[j as int] != pat@[j as int]);
            }
            return false;
        }
        j += 1;
    }
    proof {
        assert(s@.subrange(i as int, i + pl) =~= pat@);
    }
    true
}

/// Replace every occurrence of `pat` in `s` by `val`.
pub fn replace_all(s: &str, pat: &str, val: &str) -> (r: String)
    ensures
        r@ == spec_replace(s@, pat@, val@),
{
    let sl: usize = s.unicode_len();
    let pl: usize = pat.unicode_len();
    if pl == 0 {
        return s.to_owned();
    }
    let mut out = String::new();
    let mut i: usize = 0;
    proof {
        assert(s@.skip(0) =~= s@);
        assert(out@ + spec_replace(s@, pat@, val@) =~= spec_replace(s@, pat@, val@));
    }
    while i < sl
        invariant
            i <= sl,
            sl == s@.len(),
            pl == pat@.len(),
            pl > 0,
            out@ + spec_replace(s@.skip(i as int), pat@, val@) == spec_replace(s@, pat@, val@),
        decreases sl - i,
    {
        let ghost pre = out@;
        let ghost rest = s@.skip(i as int);
        if pl <= sl - i && match_at(s, pat, i, sl, pl) {
            out.append(val);
            proof {
                assert(rest.subrange(0, pl as int) =~= s@.subrange(i as int, i + pl));
                assert(rest.skip(pl as int) =~= s@.skip(i + pl));
                assert(spec_replace(rest, pat@, val@) == val@ + spec_replace(
                    s@.skip(i + pl),
                    pat@,
                    val@,
                ));
                assert(pre + (val@ + spec_replace(s@.skip(i + pl), pat@, val@)) =~= (pre + val@)
                    + spec_replace(s@.skip(i + pl), pat@, val@));
            }
            i += pl;
        } else {
            let piece = s.substring_char(i, i + 1);
            out.append(piece);
            proof {
                assert(piece@ =~= seq![s@[i as int]]);
                assert(rest[0] == s@[i as int]);
                assert(rest.skip(1) =~= s@.skip(i as int + 1));
                if rest.len() >= pl {
                    assert(rest.subrange(0, pl as int) =~= s@.subrange(i as int, i + pl));
                    assert(rest.subrange(0, pl as int) != pat@);
                    assert(spec_replace(rest, pat@, val@) == seq![rest[0]] + spec_replace(
                        rest.skip(1),
                        pat@,
                        val@,
                    ));
                } else {
                    assert(spec_replace(rest, pat@, val@) == rest);
                    assert(spec_replace(rest.skip(1), pat@, val@) == rest.skip(1));
                    assert(rest =~= seq![rest[0]] + rest.skip(1));
                }
                assert(pre + (seq![s@[i as int]] + spec_replace(s@.skip(i as int + 1), pat@, val@))
                    =~= (pre + piece@) + spec_replace(s@.skip(i as int + 1), pat@, val@));
            }
            i += 1;
        }
    }
    proof {
        assert(s@.skip(sl as int) =~= Seq::<char>::empty());
        assert(spec_replace(s@.skip(sl as int), pat@, val@) == s@.skip(sl as int));
        assert(out@ =~= out@ + s@.skip(sl as int));
    }
    out
}

/// The palette value a slot name refers to, if the name is one of the
/// seventeen slots.
pub open spec fn spec_palette_ref(name: Seq<char>, p: ThemePalette) -> Option<Seq<char>> {
    if name == "base"@ {
        Some(p.base@)
    } else if name == "mantle"@ {
        Some(p.mantle@)
    } else if name == "crust"@ {
        Some(p.crust@)
    } else if name == "surface0"@ {
        Some(p.surface0@)
    } else if name == "surface1"@ {
        Some(p.surface1@)
    } else if name == "surface2"@ {
        Some(p.surface2@)
    } else if name == "text"@ {
        Some(p.text@)
    } else if name == "subtext0"@ {
        Some(p.subtext0@)
    } else if name == "subtext1"@ {
        Some(p.subtext1@)
    } else if name == "accent"@ {
        Some(p.accent@)
    } else if name == "secondary"@ {
        Some(p.secondary@)
    } else if name == "red"@ {
        Some(p.red@)
    } else if name == "green"@ {
        Some(p.green@)
    } else if name == "yellow"@ {
        Some(p.yellow@)
    } else if name == "blue"@ {
        Some(p.blue@)
    } else if name == "pink"@ {
        Some(p.pink@)
    } else if name == "teal"@ {
        Some(p.teal@)
    } else {
        None
    }
}

/// Look a slot name up in the palette.
pub fn resolve_palette_ref(reference: &str, palette: &ThemePalette) -> (r: Option<String>)
    ensures
        ({
            let sr = spec_palette_ref(reference@, *palette);
            match r {
                Some(v) => sr matches Some(sv) && v@ == sv,
                None => sr is None,
            }
        }),
{
    if str_eq(reference, "base") {
        Some(palette.base.clone())
    } else if str_eq(reference, "mantle") {
        Some(palette.mantle.clone())
    } else if str_eq(reference, "crust") {
        Some(palette.crust.clone())
    } else if str_eq(reference, "surface0") {
        Some(palette.surface0.clone())
    } else if str_eq(reference, "surface1") {
        Some(palette.surface1.clone())
    } else if str_eq(reference, "surface2") {
        Some(palette.surface2.clone())
    } else if str_eq(reference, "text") {
        Some(palette.text.clone())
    } else if str_eq(reference, "subtext0") {
        Some(palette.subtext0.clone())
    } else if str_eq(reference, "subtext1") {
        Some(palette.subtext1.clone())
    } else if str_eq(reference, "accent") {
        Some(palette.accent.clone())
    } else if str_eq(reference, "secondary") {
        Some(palette.secondary.clone())
    } else if str_eq(reference, "red") {
        Some(palette.red.clone())
    } else if str_eq(reference, "green") {
        Some(palette.green.clone())
    } else if str_eq(reference, "yellow") {
        Some(palette.yellow.clone())
    } else if str_eq(reference, "blue") {
        Some(palette.blue.clone())
    } else if str_eq(reference, "pink") {
        Some(palette.pink.clone())
    } else if str_eq(reference, "teal") {
        Some(palette.teal.clone())
    } else {
        None
    }
}

/// The template after all seventeen placeholders have been substituted, in
/// the fixed slot order, each applied once.
pub open spec fn spec_resolve_color_refs(t: Seq<char>, p: ThemePalette) -> Seq<char> {
    let t1 = spec_replace(t, "{base}"@, p.base@);
    let t2 = spec_replace(t1, "{mantle}"@, p.mantle@);
    let t3 = spec_replace(t2, "{crust}"@, p.crust@);
    let t4 = spec_replace(t3, "{surface0}"@, p.surface0@);
    let t5 = spec_replace(t4, "{surface1}"@, p.surface1@);
    let t6 = spec_replace(t5, "{surface2}"@, p.surface2@);
    let t7 = spec_replace(t6, "{text}"@, p.text@);
    let t8 = spec_replace(t7, "{subtext0}"@, p.subtext0@);
    let t9 = spec_replace(t8, "{subtext1}"@, p.subtext1@);
    let t10 = spec_replace(t9, "{accent}"@, p.accent@);
    let t11 = spec_replace(t10, "{secondary}"@, p.secondary@);
    let t12 = spec_replace(t11, "{red}"@, p.red@);
    let t13 = spec_replace(t12, "{green}"@, p.green@);
    let t14 = spec_replace(t13, "{yellow}"@, p.yellow@);
    let t15 = spec_replace(t14, "{blue}"@, p.blue@);
    let t16 = spec_replace(t15, "{pink}"@, p.pink@);
    spec_replace(t16, "{teal}"@, p.teal@)
}

/// Substitute every known `{slot}` placeholder in the template by its
/// palette value; unknown placeholders pass through untouched.
pub fn resolve_color_refs(template: &str, palette: &ThemePalette) -> (r: String)
    ensures
        r@ == spec_resolve_color_refs(template@, *palette),
{
    let t1 = replace_all(template, "{base}", palette.base.as_str());
    let t2 = replace_all(t1.as_str(), "{mantle}", palette.mantle.as_str());
    let t3 = replace_all(t2.as_str(), "{crust}", palette.crust.as_str());
    let t4 = replace_all(t3.as_str(), "{surface0}", palette.surface0.as_str());
    let t5 = replace_all(t4.as_str(), "{surface1}", palette.surface1.as_str());
    let t6 = replace_all(t5.as_str(), "{surface2}", palette.surface2.as_str());
    let t7 = replace_all(t6.as_str(), "{text}", palette.text.as_str());
    let t8 = replace_all(t7.as_str(), "{subtext0}", palette.subtext0.as_str());
    let t9 = replace_all(t8.as_str(), "{subtext1}", palette.subtext1.as_str());
    let t10 = replace_all(t9.as_str(), "{accent}", palette.accent.as_str());
    let t11 = replace_all(t10.as_str(), "{secondary}", palette.secondary.as_str());
    let t12 = replace_all(t11.as_str(), "{red}", palette.red.as_str());
    let t13 = replace_all(t12.as_str(), "{green}", palette.green.as_str());
    let t14 = replace_all(t13.as_str(), "{yellow}", palette.yellow.as_str());
    let t15 = replace_all(t14.as_str(), "{blue}", palette.blue.as_str());
    let t16 = replace_all(t15.as_str(), "{pink}", palette.pink.as_str());
    replace_all(t16.as_str(), "{teal}", palette.teal.as_str())
}

} // verus!
