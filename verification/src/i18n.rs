//! Choice of the interface language: Simplified Chinese (`zh-CN`) or English (`en`).

use vstd::prelude::*;

use crate::text::{
    ascii_lower_seq, chars_of, has_prefix, lower_chars, replace_all, replace_chars, starts_with,
    string_from_chars, trim, trim_chars,
};

verus! {

/// The text before the first `.` or `@` (a POSIX locale's codeset or modifier).
pub open spec fn primary_part(s: Seq<char>) -> Seq<char>
    decreases s.len(),
{
    if s.len() == 0 {
        s
    } else if s[0] == '.' || s[0] == '@' {
        Seq::empty()
    } else {
        seq![s[0]] + primary_part(s.drop_first())
    }
}

/// The locale a raw locale string selects: `zh-CN` when its language part, lower-cased,
/// starts with `zh`; `en` otherwise.
pub open spec fn normalized_locale(raw: Seq<char>) -> Seq<char> {
    let lower = replace_all(ascii_lower_seq(raw), "_"@, "-"@);
    if starts_with(trim(primary_part(lower)), "zh"@) {
        "zh-CN"@
    } else {
        "en"@
    }
}

fn primary_chars(s: &[char]) -> (r: Vec<char>)
    ensures
        r@ == primary_part(s@),
{
    let mut i: usize = 0;
    while i < s.len() && s[i] != '.' && s[i] != '@'
        invariant
            i <= s@.len(),
            forall|k: int| 0 <= k < i ==> s@[k] != '.' && s@[k] != '@',
        decreases s@.len() - i,
    {
        i += 1;
    }
    proof {
        lemma_primary_prefix(s@, i as int);
    }
    crate::text::sub_chars(s, 0, i)
}

proof fn lemma_primary_prefix(s: Seq<char>, i: int)
    requires
        0 <= i <= s.len(),
        forall|k: int| 0 <= k < i ==> s[k] != '.' && s[k] != '@',
        i == s.len() || s[i] == '.' || s[i] == '@',
    ensures
        primary_part(s) == s.take(i),
    decreases i,
{
    if i == 0 {
        if s.len() == 0 {
            assert(s.take(0) =~= s);
        } else {
            assert(s.take(0) =~= Seq::<char>::empty());
        }
    } else {
        lemma_primary_prefix(s.drop_first(), i - 1);
        assert(s.take(i) =~= seq![s[0]] + s.drop_first().take(i - 1));
    }
}

pub fn normalize(raw: &str) -> (r: String)
    ensures
        r@ == normalized_locale(raw@),
{
    let rv = chars_of(raw);
    let lower = lower_chars(rv.as_slice());
    let us = chars_of("_");
    let dash = chars_of("-");
    proof {
        reveal_strlit("_");
    }
    let replaced = replace_chars(lower.as_slice(), us.as_slice(), dash.as_slice());
    let primary = primary_chars(replaced.as_slice());
    let t = trim_chars(primary.as_slice());
    let zh = chars_of("zh");
    if has_prefix(t.as_slice(), zh.as_slice()) {
        let v = chars_of("zh-CN");
        string_from_chars(v.as_slice())
    } else {
        let v = chars_of("en");
        string_from_chars(v.as_slice())
    }
}

/// The raw locale: the first of the variables `MIHOMO_TRAY_LANG`, `LANG`, `LC_ALL`,
/// `LC_MESSAGES` that is set, unless it is empty; then the system locale; then `en`.
pub open spec fn raw_locale(vars: Seq<Option<Seq<char>>>, system: Option<Seq<char>>) -> Seq<char> {
    let set = first_set(vars);
    match set {
        Some(v) => if v.len() > 0 {
            v
        } else {
            match system {
                Some(s) => s,
                None => "en"@,
            }
        },
        None => match system {
            Some(s) => s,
            None => "en"@,
        },
    }
}

pub open spec fn first_set(vars: Seq<Option<Seq<char>>>) -> Option<Seq<char>>
    decreases vars.len(),
{
    if vars.len() == 0 {
        None
    } else {
        match vars[0] {
            Some(v) => Some(v),
            None => first_set(vars.drop_first()),
        }
    }
}

pub open spec fn opt_views(v: Seq<Option<String>>) -> Seq<Option<Seq<char>>> {
    v.map_values(
        |o: Option<String>|
            match o {
                Some(s) => Some(s@),
                None => None,
            },
    )
}

/// The interface locale from the environment: `vars` holds the four variables in the
/// order above (`None` when unset), `system` the operating system's locale.
pub fn detect_locale(vars: &Vec<Option<String>>, system: Option<String>) -> (r: String)
    ensures
        r@ == normalized_locale(
            raw_locale(
                opt_views(vars@),
                match system {
                    Some(s) => Some(s@),
                    None => None,
                },
            ),
        ),
{
    let found = first_set_exec(vars);
    let raw: String = match found {
        Some(v) if !v.as_str().is_empty() => v,
        _ => match system {
            Some(s) => s,
            None => {
                let e = chars_of("en");
                string_from_chars(e.as_slice())
            },
        },
    };
    normalize(raw.as_str())
}

fn first_set_exec(vars: &Vec<Option<String>>) -> (r: Option<String>)
    ensures
        match r {
            Some(s) => first_set(opt_views(vars@)) == Some(s@),
            None => first_set(opt_views(vars@)) is None,
        },
{
    let ghost vv = opt_views(vars@);
    let mut i: usize = 0;
    assert(vv.skip(0) =~= vv);
    while i < vars.len()
        invariant
            i <= vars@.len(),
            vv == opt_views(vars@),
            first_set(vv) == first_set(vv.skip(i as int)),
        decreases vars@.len() - i,
    {
        assert(vv.skip(i as int).drop_first() =~= vv.skip(i + 1));
        match &vars[i] {
            Some(v) => {
                return Some(v.clone());
            },
            None => {},
        }
        i += 1;
    }
    None
}

/// Whether a locale is Chinese.
pub fn is_zh(locale: &str) -> (r: bool)
    ensures
        r == starts_with(locale@, "zh"@),
{
    let v = chars_of(locale);
    let zh = chars_of("zh");
    has_prefix(v.as_slice(), zh.as_slice())
}

/// Normalising a normalised locale changes nothing.
pub proof fn lemma_normalize_idempotent(raw: Seq<char>)
    ensures
        normalized_locale(normalized_locale(raw)) == normalized_locale(raw),
        normalized_locale(raw) == "zh-CN"@ || normalized_locale(raw) == "en"@,
{
    reveal_strlit("zh-CN");
    reveal_strlit("en");
    reveal_strlit("zh");
    reveal_strlit("_");
    reveal_strlit("-");
    let z = "zh-CN"@;
    let lz = ascii_lower_seq(z);
    assert(lz =~= seq!['z', 'h', '-', 'c', 'n']);
    assert(crate::text::find(lz, "_"@) is None) by {
        crate::text::lemma_find_occurs(lz, "_"@);
        if let Some(i) = crate::text::find(lz, "_"@) {
            assert(lz.subrange(i, i + 1)[0] == lz[i]);
        }
    }
    assert(replace_all(lz, "_"@, "-"@) == lz);
    assert(primary_part(lz) =~= lz) by {
        reveal_with_fuel(primary_part, 6);
        assert(lz.drop_first().drop_first().drop_first().drop_first().drop_first() =~= Seq::<
            char,
        >::empty());
    }
    assert(trim(lz) =~= lz) by {
        assert(crate::text::trim_start(lz) == lz);
        assert(crate::text::trim_end(lz) == lz);
    }
    assert(lz.take(2) =~= "zh"@);
    assert(starts_with(lz, "zh"@));
    assert(normalized_locale(z) == z);
    let e = "en"@;
    let le = ascii_lower_seq(e);
    assert(le =~= seq!['e', 'n']);
    assert(crate::text::find(le, "_"@) is None) by {
        crate::text::lemma_find_occurs(le, "_"@);
        if let Some(i) = crate::text::find(le, "_"@) {
            assert(le.subrange(i, i + 1)[0] == le[i]);
        }
    }
    assert(replace_all(le, "_"@, "-"@) == le);
    assert(primary_part(le) =~= le) by {
        reveal_with_fuel(primary_part, 3);
        assert(le.drop_first().drop_first() =~= Seq::<char>::empty());
    }
    assert(trim(le) =~= le) by {
        assert(crate::text::trim_start(le) == le);
        assert(crate::text::trim_end(le) == le);
    }
    assert(le[0] != 'z');
    assert(le.take(2)[0] != "zh"@[0]);
    assert(!starts_with(le, "zh"@));
    assert(normalized_locale(e) == e);
}

} // verus!
