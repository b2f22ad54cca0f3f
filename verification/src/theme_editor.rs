use vstd::prelude::*;
use vstd::utf8::is_ascii_chars;
use vstd::set_lib::{lemma_int_range, lemma_len_subset, lemma_map_size, set_int_range};
use crate::keyed::StrMap;
use crate::ordering::{lemma_string_order, sort_by_text, sort_keyed};
use crate::text::{concat2, contains_text, decimal, decimal_spec, digit_char, push_char, str_eq, to_string_of, views};

verus! {

/// `char::is_whitespace`: the characters with the Unicode White_Space property.
pub open spec fn is_white(c: char) -> bool {
    ('\u{9}' <= c <= '\u{d}') || c == ' ' || c == '\u{85}' || c == '\u{a0}' || c == '\u{1680}'
        || ('\u{2000}' <= c <= '\u{200a}') || c == '\u{2028}' || c == '\u{2029}' || c == '\u{202f}'
        || c == '\u{205f}' || c == '\u{3000}'
}

/// `s` without leading and trailing white space (`str::trim`).
pub open spec fn trim_spec(s: Seq<char>) -> Seq<char>
    decreases s.len(),
{
    if s.len() > 0 && is_white(s[0]) {
        trim_spec(s.drop_first())
    } else if s.len() > 0 && is_white(s.last()) {
        trim_spec(s.drop_last())
    } else {
        s
    }
}

/// What `str::to_lowercase` gives for a text.
pub uninterp spec fn lowercase_of(s: Seq<char>) -> Seq<char>;

/// ASCII lower case of one character.
pub open spec fn ascii_lower(c: char) -> char {
    if 'A' <= c <= 'Z' { ((c as u32) + 32) as char } else { c }
}

/// `s` with every space replaced by a hyphen.
pub open spec fn hyphenate(s: Seq<char>) -> Seq<char> {
    s.map_values(|c: char| if c == ' ' { '-' } else { c })
}

/// The id a new custom theme named `name` (trimmed) asks for.
pub open spec fn theme_slug(name: Seq<char>) -> Seq<char> {
    "custom-"@ + hyphenate(lowercase_of(name))
}

/// The `k`-th alternative to a taken slug: `<slug>-<k>`.
pub open spec fn id_candidate(slug: Seq<char>, k: nat) -> Seq<char> {
    slug + "-"@ + decimal_spec(k)
}

/// The lower case of `s`.
///
/// Trusted wrapper around `str::to_lowercase`: what it gives is named as a
/// function of the text; on ASCII text it lowers `A`-`Z` and keeps the rest,
/// as its documentation says.
#[verifier::external_body]
pub(crate) fn to_lowercase(s: &str) -> (r: String)
    ensures
        r@ == lowercase_of(s@),
        is_ascii_chars(s@) ==> r@ == s@.map_values(|c: char| ascii_lower(c)),
{
    s.to_lowercase()
}

fn white(c: char) -> (r: bool)
    ensures
        r == is_white(c),
{
    ('\u{9}' <= c && c <= '\u{d}') || c == ' ' || c == '\u{85}' || c == '\u{a0}' || c == '\u{1680}'
        || ('\u{2000}' <= c && c <= '\u{200a}') || c == '\u{2028}' || c == '\u{2029}' || c == '\u{202f}'
        || c == '\u{205f}' || c == '\u{3000}'
}

proof fn lemma_trim_inner(s: Seq<char>, i: int, j: int)
    requires
        0 <= i <= j <= s.len(),
        forall|k: int| 0 <= k < i ==> is_white(#[trigger] s[k]),
    ensures
        trim_spec(s) == trim_spec(s.subrange(i, s.len() as int)),
    decreases i,
{
    if i > 0 {
        assert(is_white(s[0]));
        let t = s.drop_first();
        assert forall|k: int| 0 <= k < i - 1 implies is_white(#[trigger] t[k]) by {
            assert(t[k] == s[k + 1]);
        }
        lemma_trim_inner(t, i - 1, j - 1);
        assert(t.subrange(i - 1, t.len() as int) =~= s.subrange(i, s.len() as int));
    } else {
        assert(s.subrange(0, s.len() as int) =~= s);
    }
}

proof fn lemma_trim_tail(s: Seq<char>, j: int)
    requires
        0 <= j <= s.len(),
        s.len() == 0 || !is_white(s[0]) || j == 0,
        forall|k: int| j <= k < s.len() ==> is_white(#[trigger] s[k]),
    ensures
        trim_spec(s) == trim_spec(s.subrange(0, j)),
    decreases s.len() - j,
{
    if j < s.len() {
        if s.len() > 0 && is_white(s[0]) {
            // then j == 0 and every character is white
            assert(j == 0);
            let t = s.drop_first();
            assert forall|k: int| 0 <= k < t.len() implies is_white(#[trigger] t[k]) by {
                assert(t[k] == s[k + 1]);
            }
            lemma_trim_tail(t, 0);
            assert(t.subrange(0, 0) =~= s.subrange(0, 0));
        } else {
            assert(is_white(s.last()));
            let t = s.drop_last();
            assert forall|k: int| j <= k < t.len() implies is_white(#[trigger] t[k]) by {
                assert(t[k] == s[k]);
            }
            if t.len() > 0 && j > 0 {
                assert(t[0] == s[0]);
            }
            lemma_trim_tail(t, j);
            assert(t.subrange(0, j) =~= s.subrange(0, j));
        }
    } else {
        assert(s.subrange(0, j) =~= s);
    }
}

/// `s` without leading and trailing white space.
pub fn trim(s: &str) -> (r: String)
    ensures
        r@ == trim_spec(s@),
{
    let n = s.unicode_len();
    let mut i: usize = 0;
    while i < n && white(s.get_char(i))
        invariant
            n == s@.len(),
            i <= n,
            forall|k: int| 0 <= k < i ==> is_white(#[trigger] s@[k]),
        decreases n - i,
    {
        i = i + 1;
    }
    proof { lemma_trim_inner(s@, i as int, n as int); }
    let mut j: usize = n;
    while j > i && white(s.get_char(j - 1))
        invariant
            n == s@.len(),
            i <= j <= n,
            forall|k: int| j <= k < n ==> is_white(#[trigger] s@[k]),
        decreases j,
    {
        j = j - 1;
    }
    let ghost rest = s@.subrange(i as int, n as int);
    proof {
        assert forall|k: int| j - i <= k < rest.len() implies is_white(#[trigger] rest[k]) by {
            assert(rest[k] == s@[k + i]);
        }
        if rest.len() > 0 && j > i {
            assert(rest[0] == s@[i as int]);
        }
        lemma_trim_tail(rest, (j - i) as int);
        assert(rest.subrange(0, (j - i) as int) =~= s@.subrange(i as int, j as int));
    }
    s.substring_char(i, j).to_owned()
}

fn hyphenated(s: &str) -> (r: String)
    ensures
        r@ == hyphenate(s@),
{
    let n = s.unicode_len();
    let mut r = String::new();
    let mut i: usize = 0;
    while i < n
        invariant
            n == s@.len(),
            i <= n,
            r@ == hyphenate(s@.subrange(0, i as int)),
        decreases n - i,
    {
        let c = s.get_char(i);
        push_char(&mut r, if c == ' ' { '-' } else { c });
        assert(r@ =~= hyphenate(s@.subrange(0, i + 1)));
        i = i + 1;
    }
    assert(s@.subrange(0, n as int) =~= s@);
    r
}


proof fn lemma_decimal_len(n: nat)
    ensures
        decimal_spec(n).len() >= 1,
        n >= 10 ==> decimal_spec(n).len() >= 2,
    decreases n,
{
    if n >= 10 {
        lemma_decimal_len(n / 10);
    }
}

proof fn lemma_digit_injective(a: nat, b: nat)
    requires
        a < 10,
        b < 10,
        digit_char(a) == digit_char(b),
    ensures
        a == b,
{
}

/// Different numbers have different decimal representations.
pub proof fn lemma_decimal_injective(a: nat, b: nat)
    requires
        decimal_spec(a) == decimal_spec(b),
    ensures
        a == b,
    decreases a,
{
    lemma_decimal_len(a);
    lemma_decimal_len(b);
    if a < 10 {
        if b >= 10 {
            assert(decimal_spec(b).len() >= 2);
            assert(false);
        }
        assert(decimal_spec(a)[0] == digit_char(a) && decimal_spec(b)[0] == digit_char(b));
        lemma_digit_injective(a, b);
    } else {
        if b < 10 {
            assert(false);
        }
        let da = decimal_spec(a);
        assert(da.last() == digit_char(a % 10));
        assert(decimal_spec(b).last() == digit_char(b % 10));
        lemma_digit_injective(a % 10, b % 10);
        assert(decimal_spec(a / 10) =~= da.drop_last());
        assert(decimal_spec(b / 10) =~= decimal_spec(b).drop_last());
        lemma_decimal_injective(a / 10, b / 10);
    }
}

proof fn lemma_candidate_injective(slug: Seq<char>, a: nat, b: nat)
    requires
        id_candidate(slug, a) == id_candidate(slug, b),
    ensures
        a == b,
{
    let p = slug + "-"@;
    let ca = id_candidate(slug, a);
    assert(ca.subrange(p.len() as int, ca.len() as int) =~= decimal_spec(a));
    assert(id_candidate(slug, b).subrange(p.len() as int, ca.len() as int) =~= decimal_spec(b));
    lemma_decimal_injective(a, b);
}

/// `n` different alternatives cannot all be taken in a list of fewer than `n` ids.
proof fn lemma_candidates_bound(slug: Seq<char>, n: nat, taken: Seq<Seq<char>>)
    requires
        forall|k: nat| 1 <= k <= n ==> taken.contains(#[trigger] id_candidate(slug, k)),
    ensures
        n <= taken.len(),
{
    let f = |k: int| id_candidate(slug, k as nat);
    let x = set_int_range(1, (n + 1) as int);
    lemma_int_range(1, (n + 1) as int);
    let y = x.map(f);
    assert(vstd::relations::injective_on(f, x)) by {
        assert forall|a: int, b: int| x.contains(a) && x.contains(b) && #[trigger] f(a) == #[trigger] f(b) implies a == b by {
            lemma_candidate_injective(slug, a as nat, b as nat);
        }
    }
    lemma_map_size(x, y, f);
    assert(y.subset_of(taken.to_set())) by {
        assert forall|v: Seq<char>| #[trigger] y.contains(v) implies taken.to_set().contains(v) by {
            let k = choose|k: int| x.contains(k) && f(k) == v;
            assert(taken.contains(id_candidate(slug, k as nat)));
        }
    }
    taken.lemma_cardinality_of_set();
    lemma_len_subset(y, taken.to_set());
}

/// The id for a new custom theme named `name`: its slug when no theme has it,
/// else the slug with the smallest suffix `-1`, `-2`, ... that none has.
pub fn unique_theme_id(name: &str, existing: &Vec<String>) -> (r: String)
    requires
        existing@.len() < u32::MAX,
    ensures
        !views(existing@).contains(r@),
        !views(existing@).contains(theme_slug(name@)) ==> r@ == theme_slug(name@),
        views(existing@).contains(theme_slug(name@)) ==> exists|n: nat| #![trigger id_candidate(theme_slug(name@), n)]
            n >= 1 && r@ == id_candidate(theme_slug(name@), n)
            && forall|k: nat| 1 <= k < n ==> views(existing@).contains(#[trigger] id_candidate(theme_slug(name@), k)),
{
    let lower = to_lowercase(name);
    let slug = concat2("custom-", hyphenated(lower.as_str()).as_str());
    if !contains_text(existing, slug.as_str()) {
        return slug;
    }
    let ghost taken = views(existing@);
    let mut n: u32 = 1;
    loop
        invariant
            taken == views(existing@),
            existing@.len() < u32::MAX,
            slug@ == theme_slug(name@),
            taken.contains(slug@),
            1 <= n <= taken.len() + 1,
            forall|k: nat| 1 <= k < n ==> taken.contains(#[trigger] id_candidate(slug@, k)),
        decreases taken.len() + 1 - n,
    {
        let mut candidate = concat2(slug.as_str(), "-");
        candidate.append(decimal(n as u64).as_str());
        if !contains_text(existing, candidate.as_str()) {
            assert(candidate@ == id_candidate(slug@, n as nat));
            return candidate;
        }
        proof {
            assert(candidate@ == id_candidate(slug@, n as nat));
            assert forall|k: nat| 1 <= k <= n implies taken.contains(#[trigger] id_candidate(slug@, k)) by {}
            lemma_candidates_bound(slug@, n as nat, taken);
        }
        n = n + 1;
    }
}

/// Name and id under which the editor saves a theme: `None` for a blank name;
/// an edited theme keeps its id, a new one gets a free id.
pub fn save_target(name: &str, selected_id: Option<&str>, existing: &Vec<String>) -> (r: Option<(String, String)>)
    requires
        existing@.len() < u32::MAX,
    ensures
        trim_spec(name@).len() == 0 ==> r is None,
        trim_spec(name@).len() > 0 ==> (r matches Some(p) && p.1@ == trim_spec(name@) && match selected_id {
            Some(id) => p.0@ == id@,
            None => !views(existing@).contains(p.0@)
                && (!views(existing@).contains(theme_slug(p.1@)) ==> p.0@ == theme_slug(p.1@))
                && (views(existing@).contains(theme_slug(p.1@)) ==> exists|n: nat|
                    #![trigger id_candidate(theme_slug(p.1@), n)]
                    n >= 1 && p.0@ == id_candidate(theme_slug(p.1@), n)
                    && forall|k: nat| 1 <= k < n ==> views(existing@).contains(#[trigger] id_candidate(theme_slug(p.1@), k))),
        }),
{
    let trimmed = trim(name);
    if trimmed.as_str().unicode_len() == 0 {
        return None;
    }
    let id = match selected_id {
        Some(id) => to_string_of(id),
        None => unique_theme_id(trimmed.as_str(), existing),
    };
    Some((id, trimmed))
}

/// The theme in use after deleting theme `deleted`: the default one when the
/// deleted theme was in use.
pub fn theme_after_delete(current: &str, deleted: &str) -> (r: String)
    ensures
        current@ == deleted@ ==> r@ == "default"@,
        current@ != deleted@ ==> r@ == current@,
{
    if str_eq(current, deleted) {
        to_string_of("default")
    } else {
        to_string_of(current)
    }
}

/// The value of `key`, or nothing when it is not set.
pub open spec fn var_or_empty(vars: Map<Seq<char>, String>, key: Seq<char>) -> Seq<char> {
    if vars.dom().contains(key) { vars[key]@ } else { Seq::<char>::empty() }
}

/// The style of the editor's live preview: the edited values under the
/// preview's own custom properties.
pub open spec fn preview_style_spec(vars: Map<Seq<char>, String>) -> Seq<char> {
    "--preview-bg:"@ + var_or_empty(vars, "bg"@)
        + ";--preview-raised:"@ + var_or_empty(vars, "raised"@)
        + ";--preview-surface:"@ + var_or_empty(vars, "surface"@)
        + ";--preview-text:"@ + var_or_empty(vars, "text"@)
        + ";--preview-muted:"@ + var_or_empty(vars, "text-muted"@)
        + ";--preview-accent:"@ + var_or_empty(vars, "accent"@)
        + ";--preview-highlight:"@ + var_or_empty(vars, "highlight"@)
        + ";--preview-progress:"@ + var_or_empty(vars, "progress"@)
        + ";--preview-danger:"@ + var_or_empty(vars, "danger"@)
        + ";"@
}

fn append_var(out: &mut String, label: &str, vars: &StrMap<String>, key: &str)
    ensures
        final(out)@ == old(out)@ + label@ + var_or_empty(vars@, key@),
{
    out.append(label);
    match vars.get(key) {
        Some(v) => out.append(v.as_str()),
        None => {},
    }
}

/// The style string of the live preview of the edited theme.
pub fn preview_style(vars: &StrMap<String>) -> (r: String)
    ensures
        r@ == preview_style_spec(vars@),
{
    let mut out = String::new();
    append_var(&mut out, "--preview-bg:", vars, "bg");
    append_var(&mut out, ";--preview-raised:", vars, "raised");
    append_var(&mut out, ";--preview-surface:", vars, "surface");
    append_var(&mut out, ";--preview-text:", vars, "text");
    append_var(&mut out, ";--preview-muted:", vars, "text-muted");
    append_var(&mut out, ";--preview-accent:", vars, "accent");
    append_var(&mut out, ";--preview-highlight:", vars, "highlight");
    append_var(&mut out, ";--preview-progress:", vars, "progress");
    append_var(&mut out, ";--preview-danger:", vars, "danger");
    out.append(";");
    out
}

/// The key the editor lists custom themes by: their names as written.
pub open spec fn theme_name_key() -> spec_fn((String, String)) -> Seq<char> {
    |e: (String, String)| e.1@
}

/// The custom themes as the editor lists them: `(id, name)` entries sorted by
/// name (a stable sort, so equal names keep the order given).
pub fn themes_by_name(entries: Vec<(String, String)>) -> (r: Vec<(String, String)>)
    ensures
        r@ == sort_by_text(entries@, theme_name_key()),
{
    let ghost key = theme_name_key();
    let n = entries.len();
    let mut keys: Vec<String> = Vec::new();
    let mut i: usize = 0;
    while i < n
        invariant
            n == entries@.len(),
            key == theme_name_key(),
            i <= n,
            keys@.len() == i,
            forall|k: int| 0 <= k < i ==> (#[trigger] keys@[k])@ == key(entries@[k]),
        decreases n - i,
    {
        keys.push(entries[i].1.clone());
        i = i + 1;
    }
    proof {
        lemma_string_order();
    }
    sort_keyed(entries, keys, Ghost(key))
}

} // verus!
