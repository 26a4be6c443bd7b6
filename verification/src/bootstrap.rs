//! The incremental bootstrap engine: per-file change detection against the
//! old lockfile, destination mapping, the templated/opaque split, the new
//! lockfile accumulated over a run, and the synthesized EULA file.

use vstd::prelude::*;

use crate::config::ServerConfig;
use crate::lockfile::{lookup_record, FileRecord, Lockfile};
use crate::paths::{
    is_templated_path, join_path, mapped_path, path_is_templated, strip_root, strip_root_exec,
};
use crate::template::{interp, interpolate};

verus! {

/// What one visited file needs: a templated write, a verbatim copy, or
/// nothing.
#[derive(Clone, Copy, Debug, PartialEq, Eq, Structural)]
pub enum FileAction {
    WriteTemplated,
    CopyRaw,
    Skip,
}

/// A file is acted on iff the run is forced, no timestamp is cached for
/// it, or its source is strictly newer than the cached timestamp.
pub open spec fn act_decision(force: bool, cached: Option<u64>, source_time: u64) -> bool {
    match cached {
        Some(t) => force || source_time > t,
        None => true,
    }
}

/// The action taken on one file, combining change detection with the
/// templated/opaque split.
pub open spec fn file_decision(
    force: bool,
    cached: Option<u64>,
    source_time: u64,
    templated: bool,
) -> FileAction {
    if act_decision(force, cached, source_time) {
        if templated {
            FileAction::WriteTemplated
        } else {
            FileAction::CopyRaw
        }
    } else {
        FileAction::Skip
    }
}

/// One file the walk found: its source-relative path (leading scan-root
/// segment included) and its current modification timestamp.
pub struct SourceEntry {
    pub path: String,
    pub mtime: u64,
}

/// The planned handling of one visited file.
pub struct PlannedFile {
    /// The root-relative key, used for the lockfile and the destination.
    pub rel_path: String,
    /// The absolute destination under the output directory.
    pub dest: String,
    /// What to do with the file.
    pub action: FileAction,
}

/// The synthesized EULA-acceptance file, written untemplated and never
/// recorded in the lockfile.
pub struct EulaFile {
    pub dest: String,
    pub content: String,
}

/// Everything a bootstrap run decided; the caller performs the writes.
pub struct BootstrapPlan {
    pub files: Vec<PlannedFile>,
    pub eula: Option<EulaFile>,
}

/// The aggregate context of one build run: configuration, flags, the old
/// lockfile read at the start and the new one accumulated over the run.
pub struct BuildContext {
    pub server: ServerConfig,
    pub output_dir: String,
    pub force: bool,
    pub skip_stages: Vec<String>,
    pub lockfile: Lockfile,
    pub new_lockfile: Lockfile,
}

impl BuildContext {
    /// Maps a source path to its destination: the leading scan-root
    /// segment is discarded and the remaining segments are re-parented
    /// under the output directory, nesting preserved.  The path must hold
    /// at least one component; one that is only the scan-root segment
    /// leaves nothing to re-parent and maps to the output directory
    /// itself.
    pub fn map_config_path(&self, path: &str) -> (r: String)
        requires
            path@.len() > 0,
        ensures
            r@ == mapped_path(self.output_dir@, path@),
    {
        let rest = strip_root_exec(path);
        join_path(self.output_dir.as_str(), rest)
    }

    /// Classifies a file by the fixed extension allow-list: templated
    /// files are interpolated, all others copied byte for byte.
    pub fn should_bootstrap_file(&self, path: &str) -> (r: bool)
        ensures
            r == is_templated_path(path@),
    {
        path_is_templated(path)
    }

    /// A named stage is skipped iff its name is on the configured skip
    /// list.
    pub fn should_skip_stage(&self, name: &str) -> (r: bool)
        ensures
            r == crate::text::contains_str(self.skip_stages@, name@),
    {
        crate::text::vec_contains(&self.skip_stages, name)
    }

    /// Interpolates template variables into one file's text using this
    /// run's configuration and the supplied environment snapshot.
    pub fn bootstrap_content(&self, content: &str, env: &Vec<(String, String)>) -> (out: String)
        ensures
            out@ == interp(self.server, env@, content@),
    {
        interpolate(&self.server, env, content)
    }

    /// Decides one file and records its current source timestamp in the
    /// new lockfile, whether or not it was acted on.
    pub fn bootstrap_file(&mut self, path: &str, cache: Option<u64>, source_time: u64) -> (r:
        FileAction)
        ensures
            r == file_decision(old(self).force, cache, source_time, is_templated_path(path@)),
            final(self).new_lockfile.files@.len() == old(self).new_lockfile.files@.len() + 1,
            final(self).new_lockfile.files@.last().path@ == path@,
            final(self).new_lockfile.files@.last().date == source_time,
            final(self).new_lockfile.files@.take(old(self).new_lockfile.files@.len() as int)
                == old(self).new_lockfile.files@,
            final(self).server == old(self).server,
            final(self).output_dir == old(self).output_dir,
            final(self).force == old(self).force,
            final(self).skip_stages == old(self).skip_stages,
            final(self).lockfile == old(self).lockfile,
    {
        let action = if self.force || cache.is_none() || (cache.is_some() && source_time
            > cache.unwrap()) {
            if self.should_bootstrap_file(path) {
                FileAction::WriteTemplated
            } else {
                FileAction::CopyRaw
            }
        } else {
            FileAction::Skip
        };
        let record = FileRecord { path: String::from_str(path), date: source_time };
        self.new_lockfile.files.push(record);
        proof {
            assert(self.new_lockfile.files@.take(old(self).new_lockfile.files@.len() as int)
                =~= old(self).new_lockfile.files@);
        }
        action
    }

    /// Drives one bootstrap run: decides every walked file, accumulates
    /// the new lockfile, and synthesizes the EULA file when acceptance is
    /// requested but the chosen jar does not support it.  The EULA file is
    /// not recorded in the lockfile.
    pub fn bootstrap_files(&mut self, entries: &Vec<SourceEntry>) -> (plan: BootstrapPlan)
        requires
            old(self).new_lockfile.files@.len() == 0,
            forall|k: int| 0 <= k < entries@.len() ==> (#[trigger] entries@[k]).path@.len() > 0,
        ensures
            plan.files@.len() == entries@.len(),
            forall|k: int|
                0 <= k < entries@.len() ==> {
                    &&& (#[trigger] plan.files@[k]).rel_path@ == strip_root(entries@[k].path@)
                    &&& plan.files@[k].dest@ == mapped_path(
                        old(self).output_dir@,
                        entries@[k].path@,
                    )
                    &&& plan.files@[k].action == file_decision(
                        old(self).force,
                        lookup_record(old(self).lockfile.files@, strip_root(entries@[k].path@)),
                        entries@[k].mtime,
                        is_templated_path(strip_root(entries@[k].path@)),
                    )
                },
            final(self).new_lockfile.files@.len() == entries@.len(),
            forall|k: int|
                0 <= k < entries@.len() ==> {
                    &&& (#[trigger] final(self).new_lockfile.files@[k]).path@ == strip_root(
                        entries@[k].path@,
                    )
                    &&& final(self).new_lockfile.files@[k].date == entries@[k].mtime
                },
            match plan.eula {
                Some(e) => old(self).server.launcher_eula_args
                    && !old(self).server.jar_supports_eula_args && e.dest@ == old(
                    self,
                ).output_dir@ + seq!['/'] + "eula.txt"@ && e.content@ == "eula=true\n"@,
                None => !(old(self).server.launcher_eula_args
                    && !old(self).server.jar_supports_eula_args),
            },
            final(self).server == old(self).server,
            final(self).output_dir == old(self).output_dir,
            final(self).force == old(self).force,
            final(self).skip_stages == old(self).skip_stages,
            final(self).lockfile == old(self).lockfile,
    {
        let n = entries.len();
        let mut files: Vec<PlannedFile> = Vec::new();
        let mut i: usize = 0;
        while i < n
            invariant
                0 <= i <= n,
                n == entries@.len(),
                forall|k: int| 0 <= k < n ==> (#[trigger] entries@[k]).path@.len() > 0,
                files@.len() == i,
                self.new_lockfile.files@.len() == i,
                forall|k: int|
                    0 <= k < i ==> {
                        &&& (#[trigger] files@[k]).rel_path@ == strip_root(entries@[k].path@)
                        &&& files@[k].dest@ == mapped_path(
                            old(self).output_dir@,
                            entries@[k].path@,
                        )
                        &&& files@[k].action == file_decision(
                            old(self).force,
                            lookup_record(
                                old(self).lockfile.files@,
                                strip_root(entries@[k].path@),
                            ),
                            entries@[k].mtime,
                            is_templated_path(strip_root(entries@[k].path@)),
                        )
                    },
                forall|k: int|
                    0 <= k < i ==> {
                        &&& (#[trigger] self.new_lockfile.files@[k]).path@ == strip_root(
                            entries@[k].path@,
                        )
                        &&& self.new_lockfile.files@[k].date == entries@[k].mtime
                    },
                self.server == old(self).server,
                self.output_dir == old(self).output_dir,
                self.force == old(self).force,
                self.skip_stages == old(self).skip_stages,
                self.lockfile == old(self).lockfile,
            decreases n - i,
        {
            let ghost prev = self.new_lockfile.files@;
            let key = strip_root_exec(entries[i].path.as_str());
            let dest = self.map_config_path(entries[i].path.as_str());
            let cache = self.lockfile.get_time(key);
            let key_owned = String::from_str(key);
            let action = self.bootstrap_file(key_owned.as_str(), cache, entries[i].mtime);
            files.push(PlannedFile { rel_path: key_owned, dest, action });
            proof {
                let cur = self.new_lockfile.files@;
                assert(cur.take(prev.len() as int) == prev);
                assert forall|k: int| 0 <= k < i implies cur[k] == prev[k] by {
                    assert(cur.take(prev.len() as int)[k] == cur[k]);
                }
                assert(cur[i as int] == cur.last());
            }
            i += 1;
        }
        let eula = if self.server.launcher_eula_args && !self.server.jar_supports_eula_args {
            let mut dest = String::from_str(self.output_dir.as_str());
            dest.append("/");
            dest.append("eula.txt");
            proof {
                reveal_strlit("/");
                assert("/"@ =~= seq!['/']);
            }
            Some(EulaFile { dest, content: String::from_str("eula=true\n") })
        } else {
            None
        };
        BootstrapPlan { files, eula }
    }
}

/// Law: change detection.  Without `force`, a source newer than its cached
/// timestamp is reprocessed, an untouched one is skipped; `force`
/// reprocesses regardless of the cache, and an unrecorded file is always
/// processed.
pub proof fn lemma_change_detection(cached: u64, source_time: u64, templated: bool)
    ensures
        source_time > cached ==> file_decision(false, Some(cached), source_time, templated)
            != FileAction::Skip,
        source_time <= cached ==> file_decision(false, Some(cached), source_time, templated)
            == FileAction::Skip,
        file_decision(true, Some(cached), source_time, templated) != FileAction::Skip,
        file_decision(false, None, source_time, templated) != FileAction::Skip,
{
}

/// Law: idempotence.  When a run's old lockfile records exactly the walked
/// entries — same keys, same timestamps, keys pairwise distinct — and
/// `force` is off, every file's decision is `Skip`, so a second run over
/// unchanged sources writes nothing and leaves the destination tree as it
/// was.
pub proof fn lemma_idempotent_second_run(records: Seq<FileRecord>, entries: Seq<SourceEntry>)
    requires
        records.len() == entries.len(),
        forall|a: int, b: int|
            0 <= a < b < records.len() ==> records[a].path@ != records[b].path@,
        forall|a: int|
            0 <= a < records.len() ==> (#[trigger] records[a]).path@ == strip_root(
                entries[a].path@,
            ) && records[a].date == entries[a].mtime,
    ensures
        forall|k: int|
            0 <= k < entries.len() ==> #[trigger] file_decision(
                false,
                lookup_record(records, strip_root(entries[k].path@)),
                entries[k].mtime,
                is_templated_path(strip_root(entries[k].path@)),
            ) == FileAction::Skip,
{
    assert forall|k: int| 0 <= k < entries.len() implies #[trigger] file_decision(
        false,
        lookup_record(records, strip_root(entries[k].path@)),
        entries[k].mtime,
        is_templated_path(strip_root(entries[k].path@)),
    ) == FileAction::Skip by {
        crate::lockfile::lemma_lookup_distinct(records, k);
    }
}

} // verus!
