//! Hot-reload dispatch: an ordered list of pattern/action rules is scanned
//! for a changed path; the first matching rule's action is dispatched,
//! exactly once, and a path no rule matches is a silent no-op.  Delete and
//! rename events are ignored by design.  Watching the filesystem and
//! executing actions against the server process stay outside the crate.

use vstd::prelude::*;

use crate::bootstrap::BuildContext;

verus! {

/// What a matching rule asks the process controller to do.
#[derive(Debug, PartialEq, Eq)]
pub enum HotReloadAction {
    /// Reload the whole server.
    Reload,
    /// Restart the server process.
    Restart,
    /// Reload one named plugin.
    ReloadPlugin(String),
    /// Send one command to the server console.
    RunCommand(String),
}

impl HotReloadAction {
    /// A copy of the action, equal to the original.
    pub fn duplicate(&self) -> (r: HotReloadAction)
        ensures
            r == *self,
    {
        match self {
            HotReloadAction::Reload => HotReloadAction::Reload,
            HotReloadAction::Restart => HotReloadAction::Restart,
            HotReloadAction::ReloadPlugin(p) => HotReloadAction::ReloadPlugin(p.clone()),
            HotReloadAction::RunCommand(c) => HotReloadAction::RunCommand(c.clone()),
        }
    }
}

/// One watch rule: a path pattern and the action it triggers.
pub struct HotReloadRule {
    pub pattern: String,
    pub action: HotReloadAction,
}

/// The ordered rule list, loaded once at watcher start.
pub struct HotReloadConfig {
    pub files: Vec<HotReloadRule>,
}

/// The kinds of filesystem events the watcher distinguishes: only create
/// and modify events are acted on.
#[derive(Clone, Copy, Debug, PartialEq, Eq, Structural)]
pub enum WatchEventKind {
    Create,
    Modify,
    Other,
}

/// Glob matching over whole paths: `*` matches any (possibly empty)
/// character sequence, separators included, `?` any single character, and
/// every other character only itself.
pub open spec fn glob_match(p: Seq<char>, t: Seq<char>) -> bool
    decreases p.len(), t.len(),
{
    if p.len() == 0 {
        t.len() == 0
    } else if p[0] == '*' {
        glob_match(p.skip(1), t) || (t.len() > 0 && glob_match(p, t.skip(1)))
    } else {
        t.len() > 0 && (p[0] == '?' || p[0] == t[0]) && glob_match(p.skip(1), t.skip(1))
    }
}

fn glob_match_at(p: &str, t: &str, pi: usize, ti: usize) -> (r: bool)
    requires
        pi <= p@.len(),
        ti <= t@.len(),
    ensures
        r == glob_match(p@.skip(pi as int), t@.skip(ti as int)),
    decreases p@.len() - pi, t@.len() - ti,
{
    let np = p.unicode_len();
    let nt = t.unicode_len();
    let ghost ps = p@.skip(pi as int);
    let ghost ts = t@.skip(ti as int);
    if pi == np {
        ti == nt
    } else {
        proof {
            assert(ps[0] == p@[pi as int]);
            assert(ps.skip(1) =~= p@.skip(pi + 1));
        }
        let c = p.get_char(pi);
        if c == '*' {
            if glob_match_at(p, t, pi + 1, ti) {
                true
            } else if ti < nt {
                proof {
                    assert(ts.skip(1) =~= t@.skip(ti + 1));
                }
                glob_match_at(p, t, pi, ti + 1)
            } else {
                false
            }
        } else if ti < nt {
            proof {
                assert(ts[0] == t@[ti as int]);
                assert(ts.skip(1) =~= t@.skip(ti + 1));
            }
            let d = t.get_char(ti);
            if c == '?' || c == d {
                glob_match_at(p, t, pi + 1, ti + 1)
            } else {
                false
            }
        } else {
            false
        }
    }
}

/// Whether `pattern` matches the whole of `path`.
pub fn pattern_matches(pattern: &str, path: &str) -> (r: bool)
    ensures
        r == glob_match(pattern@, path@),
{
    proof {
        assert(pattern@.skip(0) =~= pattern@);
        assert(path@.skip(0) =~= path@);
    }
    glob_match_at(pattern, path, 0, 0)
}

/// The action of the first rule whose pattern matches `path`.
pub open spec fn first_match(rules: Seq<HotReloadRule>, path: Seq<char>) -> Option<
    HotReloadAction,
>
    decreases rules.len(),
{
    if rules.len() == 0 {
        None
    } else if glob_match(rules[0].pattern@, path) {
        Some(rules[0].action)
    } else {
        first_match(rules.skip(1), path)
    }
}

/// What a filesystem event dispatches: the first matching rule's action
/// for a create-or-modify event, nothing otherwise.
pub open spec fn dispatched(
    rules: Seq<HotReloadRule>,
    kind: WatchEventKind,
    path: Seq<char>,
) -> Option<HotReloadAction> {
    match kind {
        WatchEventKind::Create => first_match(rules, path),
        WatchEventKind::Modify => first_match(rules, path),
        WatchEventKind::Other => None,
    }
}

impl HotReloadConfig {
    /// Scans the rules in order and returns the first matching rule's
    /// action, exactly one dispatch per event; a path no rule matches, or
    /// an ignored event kind, dispatches nothing.
    pub fn dispatch(&self, kind: WatchEventKind, path: &str) -> (r: Option<HotReloadAction>)
        ensures
            r == dispatched(self.files@, kind, path@),
    {
        match kind {
            WatchEventKind::Create | WatchEventKind::Modify => {},
            WatchEventKind::Other => {
                return None;
            },
        }
        let n = self.files.len();
        let mut i: usize = 0;
        proof {
            assert(self.files@.skip(0) =~= self.files@);
        }
        while i < n
            invariant
                0 <= i <= n,
                n == self.files@.len(),
                first_match(self.files@, path@) == first_match(self.files@.skip(i as int), path@),
                kind == WatchEventKind::Create || kind == WatchEventKind::Modify,
            decreases n - i,
        {
            proof {
                assert(self.files@.skip(i as int).skip(1) =~= self.files@.skip(i + 1));
                assert(self.files@.skip(i as int)[0] == self.files@[i as int]);
            }
            if pattern_matches(self.files[i].pattern.as_str(), path) {
                proof {
                    assert(first_match(self.files@.skip(i as int), path@) == Some(
                        self.files@[i as int].action,
                    ));
                }
                return Some(self.files[i].action.duplicate());
            }
            i += 1;
        }
        None
    }
}

/// A development session: the build context shared with the watcher loop
/// that feeds `HotReloadConfig::dispatch` with filesystem events.
pub struct DevSession {
    pub ctx: BuildContext,
}

} // verus!
