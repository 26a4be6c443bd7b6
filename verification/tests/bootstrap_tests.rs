use server_bootstrap::bootstrap::{BuildContext, FileAction, SourceEntry};
use server_bootstrap::config::ServerConfig;
use server_bootstrap::lockfile::{FileRecord, Lockfile};

fn config(eula_args: bool, jar_supports: bool) -> ServerConfig {
    ServerConfig {
        name: "Foo".to_string(),
        mc_version: "1.20.1".to_string(),
        plugins: vec![],
        mods: vec![],
        worlds: vec![],
        clientsidemods: vec![],
        variables: vec![],
        launcher_eula_args: eula_args,
        jar_supports_eula_args: jar_supports,
    }
}

fn context(force: bool, old: Lockfile) -> BuildContext {
    BuildContext {
        server: config(false, true),
        output_dir: "/srv/server".to_string(),
        force,
        skip_stages: vec![],
        lockfile: old,
        new_lockfile: Lockfile::new(),
    }
}

#[test]
fn nested_path_maps_under_output_dir() {
    let ctx = context(false, Lockfile::new());
    assert_eq!(
        ctx.map_config_path("config/plugins/x/y.yml"),
        "/srv/server/plugins/x/y.yml"
    );
    assert_eq!(
        ctx.map_config_path("config/server.properties"),
        "/srv/server/server.properties"
    );
    assert_eq!(
        ctx.map_config_path("config/a/b/c/d/e.txt"),
        "/srv/server/a/b/c/d/e.txt"
    );
}

#[test]
fn templated_extensions_are_recognised() {
    let ctx = context(false, Lockfile::new());
    assert!(ctx.should_bootstrap_file("server.properties"));
    assert!(ctx.should_bootstrap_file("config.yml"));
    assert!(ctx.should_bootstrap_file("settings.json5"));
    assert!(!ctx.should_bootstrap_file("plugin.jar"));
    assert!(!ctx.should_bootstrap_file("world.dat"));
    assert!(!ctx.should_bootstrap_file("README"));
    assert!(!ctx.should_bootstrap_file(".secret"));
    assert!(ctx.should_bootstrap_file("config/creds.secret"));
    assert!(!ctx.should_bootstrap_file("archive.tar.gz"));
    assert!(!ctx.should_bootstrap_file("config/x.YML"));
}

#[test]
fn fresh_file_is_processed_and_recorded() {
    let mut ctx = context(false, Lockfile::new());
    let action = ctx.bootstrap_file("server.properties", None, 100);
    assert_eq!(action, FileAction::WriteTemplated);
    assert_eq!(ctx.new_lockfile.files.len(), 1);
    assert_eq!(ctx.new_lockfile.files[0].path, "server.properties");
    assert_eq!(ctx.new_lockfile.files[0].date, 100);
}

#[test]
fn advanced_timestamp_reprocesses() {
    let mut ctx = context(false, Lockfile::new());
    assert_eq!(
        ctx.bootstrap_file("a.yml", Some(5), 6),
        FileAction::WriteTemplated
    );
    assert_eq!(ctx.bootstrap_file("b.jar", Some(5), 6), FileAction::CopyRaw);
}

#[test]
fn untouched_timestamp_skips_but_still_records() {
    let mut ctx = context(false, Lockfile::new());
    assert_eq!(ctx.bootstrap_file("a.yml", Some(5), 5), FileAction::Skip);
    assert_eq!(ctx.bootstrap_file("b.yml", Some(5), 4), FileAction::Skip);
    assert_eq!(ctx.new_lockfile.files.len(), 2);
    assert_eq!(ctx.new_lockfile.files[0].date, 5);
    assert_eq!(ctx.new_lockfile.files[1].date, 4);
}

#[test]
fn force_reprocesses_everything() {
    let mut ctx = context(true, Lockfile::new());
    assert_eq!(
        ctx.bootstrap_file("a.yml", Some(5), 5),
        FileAction::WriteTemplated
    );
    assert_eq!(ctx.bootstrap_file("b.jar", Some(9), 3), FileAction::CopyRaw);
}

fn entries() -> Vec<SourceEntry> {
    vec![
        SourceEntry {
            path: "config/server.properties".to_string(),
            mtime: 10,
        },
        SourceEntry {
            path: "config/plugins/x/y.yml".to_string(),
            mtime: 20,
        },
        SourceEntry {
            path: "config/world.dat".to_string(),
            mtime: 30,
        },
    ]
}

#[test]
fn first_run_processes_every_file() {
    let mut ctx = context(false, Lockfile::new());
    let plan = ctx.bootstrap_files(&entries());
    assert_eq!(plan.files.len(), 3);
    assert_eq!(plan.files[0].rel_path, "server.properties");
    assert_eq!(plan.files[0].dest, "/srv/server/server.properties");
    assert_eq!(plan.files[0].action, FileAction::WriteTemplated);
    assert_eq!(plan.files[1].rel_path, "plugins/x/y.yml");
    assert_eq!(plan.files[1].dest, "/srv/server/plugins/x/y.yml");
    assert_eq!(plan.files[1].action, FileAction::WriteTemplated);
    assert_eq!(plan.files[2].action, FileAction::CopyRaw);
    assert!(plan.eula.is_none());
    assert_eq!(ctx.new_lockfile.files.len(), 3);
    assert_eq!(ctx.new_lockfile.files[1].path, "plugins/x/y.yml");
    assert_eq!(ctx.new_lockfile.files[1].date, 20);
}

#[test]
fn second_run_with_no_changes_skips_every_file() {
    let mut first = context(false, Lockfile::new());
    first.bootstrap_files(&entries());
    let mut second = context(false, first.new_lockfile);
    let plan = second.bootstrap_files(&entries());
    for planned in plan.files.iter() {
        assert_eq!(planned.action, FileAction::Skip);
    }
    assert_eq!(second.new_lockfile.files.len(), 3);
}

#[test]
fn one_touched_file_is_reprocessed_alone() {
    let mut first = context(false, Lockfile::new());
    first.bootstrap_files(&entries());
    let mut touched = entries();
    touched[1].mtime = 21;
    let mut second = context(false, first.new_lockfile);
    let plan = second.bootstrap_files(&touched);
    assert_eq!(plan.files[0].action, FileAction::Skip);
    assert_eq!(plan.files[1].action, FileAction::WriteTemplated);
    assert_eq!(plan.files[2].action, FileAction::Skip);
}

#[test]
fn eula_is_synthesized_when_jar_lacks_support() {
    let mut ctx = context(false, Lockfile::new());
    ctx.server = config(true, false);
    let plan = ctx.bootstrap_files(&entries());
    let eula = plan.eula.expect("eula file should be planned");
    assert_eq!(eula.dest, "/srv/server/eula.txt");
    assert_eq!(eula.content, "eula=true\n");
    // the synthesized file is not recorded in the lockfile
    assert_eq!(ctx.new_lockfile.files.len(), 3);
    assert!(ctx.new_lockfile.get_time("eula.txt").is_none());
}

#[test]
fn eula_is_not_synthesized_when_jar_supports_it() {
    let mut ctx = context(false, Lockfile::new());
    ctx.server = config(true, true);
    assert!(ctx.bootstrap_files(&entries()).eula.is_none());
    let mut ctx2 = context(false, Lockfile::new());
    ctx2.server = config(false, false);
    assert!(ctx2.bootstrap_files(&entries()).eula.is_none());
}

#[test]
fn lockfile_lookup_finds_first_record() {
    let lock = Lockfile {
        files: vec![
            FileRecord {
                path: "a.yml".to_string(),
                date: 1,
            },
            FileRecord {
                path: "b.yml".to_string(),
                date: 2,
            },
        ],
    };
    assert_eq!(lock.get_time("a.yml"), Some(1));
    assert_eq!(lock.get_time("b.yml"), Some(2));
    assert_eq!(lock.get_time("c.yml"), None);
}

#[test]
fn skip_stages_are_matched_by_name() {
    let mut ctx = context(false, Lockfile::new());
    ctx.skip_stages = vec!["bootstrap".to_string(), "worlds".to_string()];
    assert!(ctx.should_skip_stage("bootstrap"));
    assert!(ctx.should_skip_stage("worlds"));
    assert!(!ctx.should_skip_stage("plugins"));
}
