//! The template interpolator: a sigil-delimited placeholder `${KEY}` or
//! `${KEY:DEFAULT}` is replaced by the value that the resolution chain
//! (reserved keys, user variables, environment, inline default) gives it;
//! all other text passes through unchanged, in a single pass.

use vstd::prelude::*;

use crate::config::ServerConfig;
use crate::text::{
    dec_spec, find_char, find_from, lemma_find_from, lookup_map, lookup_pairs, str_eq, trim,
    trimmed, u64_to_string,
};

verus! {

/// The resolution chain for a trimmed key, in order: reserved keys computed
/// from the configuration, then user variables, then the environment.
/// `None` means the chain has no binding and the placeholder's inline
/// default (or the empty string) applies.
pub open spec fn resolve_key(
    cfg: ServerConfig,
    env: Seq<(String, String)>,
    key: Seq<char>,
) -> Option<Seq<char>> {
    if key == "SERVER_NAME"@ {
        Some(cfg.name@)
    } else if key == "SERVER_VERSION"@ || key == "mcver"@ || key == "mcversion"@ {
        Some(cfg.mc_version@)
    } else if key == "PLUGIN_COUNT"@ {
        Some(dec_spec(cfg.plugins@.len()))
    } else if key == "MOD_COUNT"@ {
        Some(dec_spec(cfg.mods@.len()))
    } else if key == "WORLD_COUNT"@ {
        Some(dec_spec(cfg.worlds@.len()))
    } else if key == "CLIENTSIDE_MOD_COUNT"@ {
        Some(dec_spec(cfg.clientsidemods@.len()))
    } else if lookup_pairs(cfg.variables@, key) is Some {
        lookup_pairs(cfg.variables@, key)
    } else {
        lookup_pairs(env, key)
    }
}

/// What a placeholder with inner text `inner` (everything between `${` and
/// `}`) produces: the first `:` separates key from a literal default, both
/// are trimmed, and an unresolved key without a default degrades to the
/// empty string.
pub open spec fn resolve_placeholder(
    cfg: ServerConfig,
    env: Seq<(String, String)>,
    inner: Seq<char>,
) -> Seq<char> {
    match find_from(inner, 0, ':') {
        Some(i) => match resolve_key(cfg, env, trimmed(inner.take(i))) {
            Some(v) => v,
            None => trimmed(inner.skip(i + 1)),
        },
        None => match resolve_key(cfg, env, trimmed(inner)) {
            Some(v) => v,
            None => Seq::empty(),
        },
    }
}

/// The interpolated form of `text`: each `${...}` placeholder is replaced
/// by what it resolves to, everything else is kept; a `${` without a
/// closing `}` is no placeholder and stays literal to the end.
pub open spec fn interp(
    cfg: ServerConfig,
    env: Seq<(String, String)>,
    text: Seq<char>,
) -> Seq<char>
    decreases text.len() via interp_dec
{
    if text.len() == 0 {
        Seq::empty()
    } else if text.len() >= 2 && text[0] == '$' && text[1] == '{' {
        match find_from(text, 2, '}') {
            Some(j) => resolve_placeholder(cfg, env, text.subrange(2, j)) + interp(
                cfg,
                env,
                text.skip(j + 1),
            ),
            None => text,
        }
    } else {
        seq![text[0]] + interp(cfg, env, text.skip(1))
    }
}

#[via_fn]
proof fn interp_dec(cfg: ServerConfig, env: Seq<(String, String)>, text: Seq<char>) {
    if text.len() >= 2 && text[0] == '$' && text[1] == '{' {
        lemma_find_from(text, 2, '}');
    }
}

/// Relates a search in a suffix of `s` to a search in `s` itself.
proof fn lemma_find_from_shift(s: Seq<char>, off: int, from: int, c: char)
    requires
        0 <= off,
        0 <= from,
        off + from <= s.len(),
    ensures
        find_from(s.skip(off), from, c) == match find_from(s, off + from, c) {
            Some(j) => Some(j - off),
            None => None::<int>,
        },
    decreases s.len() - off - from,
{
    if off + from < s.len() {
        assert(s.skip(off)[from] == s[off + from]);
        if s[off + from] != c {
            lemma_find_from_shift(s, off, from + 1, c);
        }
    }
}

/// Looks one trimmed key up through the resolution chain.
fn resolve_key_exec(cfg: &ServerConfig, env: &Vec<(String, String)>, key: &str) -> (r: Option<
    String,
>)
    ensures
        match r {
            Some(v) => resolve_key(*cfg, env@, key@) == Some(v@),
            None => resolve_key(*cfg, env@, key@) is None,
        },
{
    if str_eq(key, "SERVER_NAME") {
        Some(cfg.name.clone())
    } else if str_eq(key, "SERVER_VERSION") || str_eq(key, "mcver") || str_eq(key, "mcversion") {
        Some(cfg.mc_version.clone())
    } else if str_eq(key, "PLUGIN_COUNT") {
        Some(u64_to_string(cfg.plugins.len() as u64))
    } else if str_eq(key, "MOD_COUNT") {
        Some(u64_to_string(cfg.mods.len() as u64))
    } else if str_eq(key, "WORLD_COUNT") {
        Some(u64_to_string(cfg.worlds.len() as u64))
    } else if str_eq(key, "CLIENTSIDE_MOD_COUNT") {
        Some(u64_to_string(cfg.clientsidemods.len() as u64))
    } else if let Some(v) = lookup_map(&cfg.variables, key) {
        Some(v)
    } else {
        lookup_map(env, key)
    }
}

/// Resolves the inner text of one placeholder.
fn resolve_placeholder_exec(cfg: &ServerConfig, env: &Vec<(String, String)>, inner: &str) -> (r:
    String)
    ensures
        r@ == resolve_placeholder(*cfg, env@, inner@),
{
    let n = inner.unicode_len();
    match find_char(inner, 0, ':') {
        Some(ci) => {
            let key = trim(inner.substring_char(0, ci));
            proof {
                assert(inner@.subrange(0, ci as int) =~= inner@.take(ci as int));
            }
            match resolve_key_exec(cfg, env, key) {
                Some(v) => v,
                None => {
                    let def = trim(inner.substring_char(ci + 1, n));
                    proof {
                        assert(inner@.subrange(ci + 1, n as int) =~= inner@.skip(ci + 1));
                    }
                    String::from_str(def)
                },
            }
        },
        None => {
            let key = trim(inner);
            match resolve_key_exec(cfg, env, key) {
                Some(v) => v,
                None => String::new(),
            }
        },
    }
}

/// Substitutes every placeholder of `text` in one pass; non-placeholder
/// text is passed through unchanged.
pub fn interpolate(cfg: &ServerConfig, env: &Vec<(String, String)>, text: &str) -> (out: String)
    ensures
        out@ == interp(*cfg, env@, text@),
{
    let n = text.unicode_len();
    let mut out = String::new();
    let mut i: usize = 0;
    proof {
        assert(text@.skip(0) =~= text@);
    }
    while i < n
        invariant
            0 <= i <= n,
            n == text@.len(),
            interp(*cfg, env@, text@) == out@ + interp(*cfg, env@, text@.skip(i as int)),
        decreases n - i,
    {
        let ghost rest = text@.skip(i as int);
        let c = text.get_char(i);
        if c == '$' && i + 1 < n && text.get_char(i + 1) == '{' {
            assert(rest.len() >= 2 && rest[0] == '$' && rest[1] == '{');
            proof {
                lemma_find_from_shift(text@, i as int, 2, '}');
            }
            match find_char(text, i + 2, '}') {
                Some(j) => {
                    proof {
                        lemma_find_from(text@, i + 2, '}');
                    }
                    let inner = text.substring_char(i + 2, j);
                    proof {
                        assert(inner@ =~= rest.subrange(2, j - i));
                    }
                    let resolved = resolve_placeholder_exec(cfg, env, inner);
                    out.append(resolved.as_str());
                    proof {
                        assert(rest.skip(j - i + 1) =~= text@.skip(j + 1));
                    }
                    i = j + 1;
                },
                None => {
                    out.append(text.substring_char(i, n));
                    proof {
                        assert(text@.subrange(i as int, n as int) =~= rest);
                        assert(text@.skip(n as int) =~= Seq::<char>::empty());
                    }
                    i = n;
                },
            }
        } else {
            assert(!(rest.len() >= 2 && rest[0] == '$' && rest[1] == '{'));
            out.append(text.substring_char(i, i + 1));
            proof {
                assert(text@.subrange(i as int, i + 1) =~= seq![rest[0]]);
                assert(rest.skip(1) =~= text@.skip(i + 1));
            }
            i = i + 1;
        }
    }
    proof {
        assert(text@.skip(n as int) =~= Seq::<char>::empty());
    }
    out
}

} // verus!
