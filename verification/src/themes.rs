use vstd::prelude::*;
use crate::keyed::StrMap;
use crate::text::{concat2, join_spec};

verus! {

/// Whether a theme is dark or light.
#[derive(Debug, Clone, Copy, PartialEq, Eq, Structural)]
pub enum ThemeKind {
    Dark,
    Light,
}

/// A colour theme: an id, a display name, and values for the purposes that
/// the stylesheet knows (`bg`, `text`, `accent`, ...).
#[derive(Debug)]
pub struct Theme {
    pub id: String,
    pub name: String,
    pub kind: ThemeKind,
    pub vars: StrMap<String>,
}

/// A theme as the themes file lists it, before it gets its id and kind.
#[derive(Debug)]
pub struct RawTheme {
    pub name: String,
    pub vars: StrMap<String>,
}

/// The purposes a theme can set and the CSS custom properties they fill, in
/// the order the stylesheet lists them.
pub open spec fn var_table() -> Seq<(&'static str, &'static str)> {
    seq![
        ("bg", "--color-black"),
        ("text", "--color-white"),
        ("text-muted", "--color-slate-400"),
        ("surface", "--color-slate-500"),
        ("progress", "--color-green-500"),
        ("accent-soft", "--color-indigo-400"),
        ("accent", "--color-indigo-500"),
        ("accent-alt", "--color-indigo-600"),
        ("accent-deep", "--color-indigo-900"),
        ("highlight", "--color-purple-600"),
        ("highlight-dark", "--color-purple-700"),
        ("danger", "--color-red-400"),
        ("raised", "--color-neutral-900"),
    ]
}

/// One declaration per table row whose purpose the theme sets.
pub open spec fn css_lines(table: Seq<(&'static str, &'static str)>, vars: Map<Seq<char>, String>) -> Seq<char>
    decreases table.len(),
{
    if table.len() == 0 {
        Seq::<char>::empty()
    } else {
        let (purpose, css_var) = table.last();
        css_lines(table.drop_last(), vars) + if vars.dom().contains(purpose@) {
            "    "@ + css_var@ + ": "@ + vars[purpose@]@ + ";\n"@
        } else {
            Seq::<char>::empty()
        }
    }
}

/// The CSS block of a theme: a `.theme-<id>` rule setting the custom properties.
pub open spec fn theme_css_spec(id: Seq<char>, vars: Map<Seq<char>, String>) -> Seq<char> {
    ".theme-"@ + id + " {\n"@ + css_lines(var_table(), vars) + "}"@
}

/// The themes keyed by id; a later theme replaces an earlier one with the same id.
pub open spec fn themes_by_id(themes: Seq<Theme>) -> Map<Seq<char>, Theme>
    decreases themes.len(),
{
    if themes.len() == 0 {
        Map::empty()
    } else {
        themes_by_id(themes.drop_last()).insert(themes.last().id@, themes.last())
    }
}

/// The theme an entry of the themes file describes.
pub open spec fn theme_of(entry: (String, RawTheme), kind: ThemeKind) -> Theme {
    Theme { id: entry.0, name: entry.1.name, kind, vars: entry.1.vars }
}

/// The table behind `var_table`.
pub fn var_map() -> (r: Vec<(&'static str, &'static str)>)
    ensures
        r@ == var_table(),
{
    let r = vec![
        ("bg", "--color-black"),
        ("text", "--color-white"),
        ("text-muted", "--color-slate-400"),
        ("surface", "--color-slate-500"),
        ("progress", "--color-green-500"),
        ("accent-soft", "--color-indigo-400"),
        ("accent", "--color-indigo-500"),
        ("accent-alt", "--color-indigo-600"),
        ("accent-deep", "--color-indigo-900"),
        ("highlight", "--color-purple-600"),
        ("highlight-dark", "--color-purple-700"),
        ("danger", "--color-red-400"),
        ("raised", "--color-neutral-900"),
    ];
    assert(r@ =~= var_table());
    r
}

/// The CSS block for a theme with the given id and values.
fn css_block(id: &str, vars: &StrMap<String>) -> (r: String)
    ensures
        r@ == theme_css_spec(id@, vars@),
{
    let table = var_map();
    let mut out = concat2(".theme-", id);
    out.append(" {\n");
    let n = table.len();
    let mut i: usize = 0;
    while i < n
        invariant
            n == table@.len(),
            table@ == var_table(),
            i <= n,
            out@ == ".theme-"@ + id@ + " {\n"@ + css_lines(table@.subrange(0, i as int), vars@),
        decreases n - i,
    {
        let (purpose, css_var) = table[i];
        assert(table@.subrange(0, i + 1).drop_last() =~= table@.subrange(0, i as int));
        match vars.get(purpose) {
            Some(val) => {
                out.append("    ");
                out.append(css_var);
                out.append(": ");
                out.append(val.as_str());
                out.append(";\n");
            },
            None => {},
        }
        assert(out@ =~= ".theme-"@ + id@ + " {\n"@ + css_lines(table@.subrange(0, i + 1), vars@));
        i = i + 1;
    }
    assert(table@.subrange(0, n as int) =~= table@);
    out.append("}");
    out
}

impl Theme {
    /// The value the theme gives `key`, if it sets it.
    pub fn var(&self, key: &str) -> (r: Option<&str>)
        ensures
            match r {
                Some(v) => self.vars@.dom().contains(key@) && v@ == self.vars@[key@]@,
                None => !self.vars@.dom().contains(key@),
            },
    {
        match self.vars.get(key) {
            Some(v) => Some(v.as_str()),
            None => None,
        }
    }

    /// The theme as a CSS rule on `.theme-<id>` that sets the stylesheet's
    /// custom properties for every purpose the theme has a value for.
    pub fn to_css(&self) -> (r: String)
        ensures
            r@ == theme_css_spec(self.id@, self.vars@),
    {
        css_block(self.id.as_str(), &self.vars)
    }
}

/// The themes of a themes file: its dark themes, then its light ones, in the
/// order given.
pub fn themes_from_file(dark: Vec<(String, RawTheme)>, light: Vec<(String, RawTheme)>) -> (r: Vec<Theme>)
    ensures
        r@ == dark@.map_values(|e: (String, RawTheme)| theme_of(e, ThemeKind::Dark))
            + light@.map_values(|e: (String, RawTheme)| theme_of(e, ThemeKind::Light)),
{
    let mut themes: Vec<Theme> = Vec::new();
    let ghost d = dark@;
    let ghost l = light@;
    let mut dark = dark;
    let nd = dark.len();
    let mut i: usize = 0;
    while i < nd
        invariant
            nd == d.len(),
            i <= nd,
            dark@ == d.subrange(i as int, nd as int),
            themes@ == d.subrange(0, i as int).map_values(|e: (String, RawTheme)| theme_of(e, ThemeKind::Dark)),
        decreases nd - i,
    {
        assert(dark@.len() > 0);
        let (id, raw) = dark.remove(0);
        themes.push(Theme { id, name: raw.name, kind: ThemeKind::Dark, vars: raw.vars });
        assert(dark@ =~= d.subrange(i + 1, nd as int));
        assert(themes@ =~= d.subrange(0, i + 1).map_values(|e: (String, RawTheme)| theme_of(e, ThemeKind::Dark)));
        i = i + 1;
    }
    assert(d.subrange(0, nd as int) =~= d);
    let ghost dark_part = themes@;
    let mut light = light;
    let nl = light.len();
    let mut j: usize = 0;
    while j < nl
        invariant
            nl == l.len(),
            j <= nl,
            light@ == l.subrange(j as int, nl as int),
            themes@ == dark_part + l.subrange(0, j as int).map_values(|e: (String, RawTheme)| theme_of(e, ThemeKind::Light)),
        decreases nl - j,
    {
        assert(light@.len() > 0);
        let (id, raw) = light.remove(0);
        themes.push(Theme { id, name: raw.name, kind: ThemeKind::Light, vars: raw.vars });
        assert(light@ =~= l.subrange(j + 1, nl as int));
        assert(themes@ =~= dark_part + l.subrange(0, j + 1).map_values(|e: (String, RawTheme)| theme_of(e, ThemeKind::Light)));
        j = j + 1;
    }
    assert(l.subrange(0, nl as int) =~= l);
    themes
}

/// The themes keyed by id.
pub fn theme_map(themes: Vec<Theme>) -> (r: StrMap<Theme>)
    ensures
        r@ == themes_by_id(themes@),
{
    let ghost all = themes@;
    let mut themes = themes;
    let mut m: StrMap<Theme> = StrMap::new();
    let n = themes.len();
    let mut i: usize = 0;
    while i < n
        invariant
            n == all.len(),
            i <= n,
            themes@ == all.subrange(i as int, n as int),
            m@ == themes_by_id(all.subrange(0, i as int)),
        decreases n - i,
    {
        assert(themes@.len() > 0);
        let t = themes.remove(0);
        assert(all.subrange(0, i + 1).drop_last() =~= all.subrange(0, i as int));
        let id = t.id.clone();
        m.insert(id, t);
        assert(themes@ =~= all.subrange(i + 1, n as int));
        i = i + 1;
    }
    assert(all.subrange(0, n as int) =~= all);
    m
}

/// The CSS of all themes, blocks separated by a blank line.
pub fn all_themes_css(themes: &Vec<Theme>) -> (r: String)
    ensures
        r@ == join_spec(themes@.map_values(|t: Theme| theme_css_spec(t.id@, t.vars@)), "\n\n"@),
{
    let ghost blocks = themes@.map_values(|t: Theme| theme_css_spec(t.id@, t.vars@));
    let mut r = String::new();
    let n = themes.len();
    let mut i: usize = 0;
    while i < n
        invariant
            n == themes@.len(),
            blocks == themes@.map_values(|t: Theme| theme_css_spec(t.id@, t.vars@)),
            i <= n,
            r@ == join_spec(blocks.subrange(0, i as int), "\n\n"@),
        decreases n - i,
    {
        assert(blocks.subrange(0, i + 1).drop_last() =~= blocks.subrange(0, i as int));
        if i > 0 {
            r.append("\n\n");
        } else {
            assert(r@ =~= Seq::<char>::empty());
        }
        let css = themes[i].to_css();
        r.append(css.as_str());
        i = i + 1;
    }
    assert(blocks.subrange(0, n as int) =~= blocks);
    r
}

/// The CSS block for a custom theme given its id and values.
pub fn custom_theme_to_css(id: &str, vars: &StrMap<String>) -> (r: String)
    ensures
        r@ == theme_css_spec(id@, vars@),
{
    css_block(id, vars)
}

/// The values the theme editor starts a new theme with.
pub open spec fn default_vars_table() -> Seq<(&'static str, &'static str)> {
    seq![
        ("bg", "#0f0f17"),
        ("raised", "#1a1a2a"),
        ("surface", "#282838"),
        ("text", "#e2e2f0"),
        ("text-muted", "#7878a0"),
        ("accent", "#5f8aff"),
        ("accent-soft", "#8faeff"),
        ("accent-alt", "#3a5fd9"),
        ("accent-deep", "#0a0a1a"),
        ("highlight", "#c77dff"),
        ("highlight-dark", "#9d4edd"),
        ("progress", "#5f8aff"),
        ("danger", "#ff6b6b"),
    ]
}

/// The strings of a table as owned entries.
pub open spec fn owned_entries(t: Seq<(&'static str, &'static str)>) -> Map<Seq<char>, Seq<char>>
    decreases t.len(),
{
    if t.len() == 0 {
        Map::empty()
    } else {
        owned_entries(t.drop_last()).insert(t.last().0@, t.last().1@)
    }
}

/// The editor's starting values as a map.
pub fn default_vars_map() -> (m: StrMap<String>)
    ensures
        m@.dom() == owned_entries(default_vars_table()).dom(),
        forall|k: Seq<char>| #[trigger] m@.dom().contains(k) ==> m@[k]@ == owned_entries(default_vars_table())[k],
{
    let table = vec![
        ("bg", "#0f0f17"),
        ("raised", "#1a1a2a"),
        ("surface", "#282838"),
        ("text", "#e2e2f0"),
        ("text-muted", "#7878a0"),
        ("accent", "#5f8aff"),
        ("accent-soft", "#8faeff"),
        ("accent-alt", "#3a5fd9"),
        ("accent-deep", "#0a0a1a"),
        ("highlight", "#c77dff"),
        ("highlight-dark", "#9d4edd"),
        ("progress", "#5f8aff"),
        ("danger", "#ff6b6b"),
    ];
    assert(table@ =~= default_vars_table());
    let mut m: StrMap<String> = StrMap::new();
    let n = table.len();
    let mut i: usize = 0;
    while i < n
        invariant
            n == table@.len(),
            i <= n,
            m@.dom() == owned_entries(table@.subrange(0, i as int)).dom(),
            forall|k: Seq<char>| #[trigger] m@.dom().contains(k) ==> m@[k]@ == owned_entries(table@.subrange(0, i as int))[k],
        decreases n - i,
    {
        let (k, v) = table[i];
        assert(table@.subrange(0, i + 1).drop_last() =~= table@.subrange(0, i as int));
        let ks = k.to_owned();
        let vs = v.to_owned();
        m.insert(ks, vs);
        assert(m@.dom() =~= owned_entries(table@.subrange(0, i + 1)).dom());
        i = i + 1;
    }
    assert(table@.subrange(0, n as int) =~= table@);
    m
}

} // verus!
