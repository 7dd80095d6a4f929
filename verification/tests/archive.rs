use meme_watcher::config::{
    first_found, binary_candidates, AppConfig, Config, ConfigError, DatabaseConfig, DependenciesConfig, RunConfig,
    ServerConfig,
};
use meme_watcher::watcher::{removed_files, unindexed_files, FileWatcher};

fn app(dir: &str, meta: &str) -> AppConfig {
    AppConfig { directory: dir.to_string(), metadata_directory: meta.to_string() }
}

fn config(dir: &str, meta: &str, key: &str, url: Option<&str>) -> Config {
    Config {
        run: RunConfig { generate_types: false },
        app: app(dir, meta),
        server: ServerConfig { host: "127.0.0.1".to_string(), port: 3001, secret_key: key.to_string() },
        database: DatabaseConfig { url: url.map(|u| u.to_string()) },
        dependencies: DependenciesConfig {
            ffmpeg_path: Some("/usr/bin/ffmpeg".to_string()),
            ffprobe_path: Some("/usr/bin/ffprobe".to_string()),
        },
    }
}

fn strings(v: &[&str]) -> Vec<String> {
    v.iter().map(|s| s.to_string()).collect()
}

fn sorted(mut v: Vec<String>) -> Vec<String> {
    v.sort();
    v
}

#[test]
fn db_path_lies_in_the_metadata_directory() {
    let c = config("/srv/memes", "/srv/memes/.mw_metadata", "", None);
    assert_eq!(c.db_path(), "/srv/memes/.mw_metadata/db.sqlite3");
    let d = config("/srv", "/var/meta/", "", None);
    assert_eq!(d.db_path(), "/var/meta/db.sqlite3");
}

#[test]
fn database_url_defaults_to_memory() {
    let c = config("/srv", "/m", "", None);
    assert_eq!(c.database_url(), "sqlite::memory:");
    let d = config("/srv", "/m", "", Some("sqlite::memory:"));
    assert_eq!(d.database_url(), "sqlite::memory:");
}

#[test]
fn secret_key_needs_sixty_four_bytes() {
    let short = config("/srv", "/m", &"k".repeat(63), None);
    assert_eq!(short.check_secret_key(), Err(ConfigError::ShortSecretKey));
    let long = config("/srv", "/m", &"k".repeat(64), None);
    assert_eq!(long.check_secret_key(), Ok(()));
    // 32 two-byte characters make 64 bytes
    let wide = config("/srv", "/m", &"é".repeat(32), None);
    assert_eq!(wide.check_secret_key(), Ok(()));
}

#[test]
fn merge_defaults_keeps_absolute_paths_and_fills_the_metadata_directory() {
    let mut c = config("/srv/memes", "", &"k".repeat(64), None);
    assert_eq!(c.merge_defaults(), Ok(()));
    assert_eq!(c.app.directory, "/srv/memes");
    assert_eq!(c.app.metadata_directory, "/srv/memes/.mw_metadata");
    assert_eq!(c.dependencies.ffprobe_path, Some("/usr/bin/ffprobe".to_string()));
    let mut d = config("/srv/memes", "/var/meta", &"k".repeat(64), None);
    assert_eq!(d.merge_defaults(), Ok(()));
    assert_eq!(d.app.metadata_directory, "/var/meta");
}

#[test]
fn merge_defaults_makes_relative_directories_absolute() {
    let mut c = config("memes", "", &"k".repeat(64), None);
    assert_eq!(c.merge_defaults(), Ok(()));
    assert!(c.app.directory.starts_with('/'));
    assert!(c.app.directory.ends_with("/memes"));
    assert_eq!(c.app.metadata_directory, format!("{}/.mw_metadata", c.app.directory));
    let a = AppConfig { directory: "/d".to_string(), metadata_directory: String::new() };
    assert_eq!(a.metadata_directory_or_default(), "/d/.mw_metadata");
}

#[test]
fn binary_candidates_in_order() {
    assert_eq!(binary_candidates("ffprobe"), strings(&["ffprobe", "./ffprobe", "./ffprobe.exe"]));
}

#[test]
fn relative_and_absolute_paths_round_trip() {
    let a = app("/srv/memes", "/srv/memes/.mw_metadata");
    let abs = a.directory_absolute("cats/1.png");
    assert_eq!(abs, "/srv/memes/cats/1.png");
    assert_eq!(a.directory_relative(&abs), Ok("cats/1.png".to_string()));
    assert_eq!(a.directory_relative("/srv/other/1.png"), Err(ConfigError::OutsideDirectory));
    assert_eq!(a.directory_relative("/srv/memes"), Ok(String::new()));
    assert_eq!(a.metadata_directory_absolute("thumbs/x.jpeg"), "/srv/memes/.mw_metadata/thumbs/x.jpeg");
    assert_eq!(
        a.metadata_directory_relative("/srv/memes/.mw_metadata/thumbs/x.jpeg"),
        Ok("thumbs/x.jpeg".to_string())
    );
    let slash = app("/srv/memes/", "/m");
    assert_eq!(slash.directory_relative("/srv/memes/a.gif"), Ok("a.gif".to_string()));
}

#[test]
fn watcher_scans_recursively_unless_told_otherwise() {
    let w = FileWatcher::new(());
    assert_eq!(w.scan_depth(), 10);
    let w = w.with_recursive(false);
    assert_eq!(w.scan_depth(), 1);
    let mut w = w;
    assert_eq!(w.set_recursive(true).scan_depth(), 10);
    assert_eq!(*w.db(), ());
}

#[test]
fn unindexed_files_are_those_missing_from_the_index() {
    let a = app("/srv", "/srv/.m");
    let indexed = strings(&["a.png", "b/c.png"]);
    let files = strings(&["/srv/a.png", "/srv/b/c.png", "/srv/d.png", "/srv/d.png", "/srv/e/f.gif"]);
    let out = unindexed_files(&a, &indexed, &files).unwrap();
    assert_eq!(sorted(out), strings(&["/srv/d.png", "/srv/e/f.gif"]));
    let outside = strings(&["/srv/a.png", "/elsewhere/x.png"]);
    assert_eq!(unindexed_files(&a, &indexed, &outside), Err(ConfigError::OutsideDirectory));
}

#[test]
fn removed_files_are_index_entries_without_a_file() {
    let a = app("/srv", "/srv/.m");
    let indexed = strings(&["a.png", "gone.png", "b/old.gif", "gone.png"]);
    let files = strings(&["/srv/a.png", "/srv/new.png"]);
    let out = removed_files(&a, &indexed, &files).unwrap();
    assert_eq!(sorted(out), strings(&["b/old.gif", "gone.png"]));
    let none = removed_files(&a, &strings(&["a.png"]), &strings(&["/srv/a.png"])).unwrap();
    assert!(none.is_empty());
}

#[test]
fn prune_then_index_matches_the_directory() {
    let a = app("/srv", "/srv/.m");
    let indexed = strings(&["a.png", "gone.png"]);
    let files = strings(&["/srv/a.png", "/srv/new.png"]);
    let removed = removed_files(&a, &indexed, &files).unwrap();
    let added = unindexed_files(&a, &indexed, &files).unwrap();
    let mut index: Vec<String> = indexed.into_iter().filter(|x| !removed.contains(x)).collect();
    for f in added {
        index.push(a.directory_relative(&f).unwrap());
    }
    assert_eq!(sorted(index), strings(&["a.png", "new.png"]));
}

#[test]
fn the_first_tool_found_is_taken() {
    let s = |x: &str| Some(x.to_string());
    assert_eq!(first_found(vec![None, s("./ffprobe"), s("./ffprobe.exe")]), s("./ffprobe"));
    assert_eq!(first_found(vec![s("/usr/bin/ffprobe"), s("./ffprobe")]), s("/usr/bin/ffprobe"));
    assert_eq!(first_found(vec![None, None, None]), None);
    assert_eq!(first_found(Vec::new()), None);
}

#[test]
fn a_missing_ffprobe_is_named() {
    let mut c = config("/srv", "/m", "", None);
    assert_eq!(c.dependencies.required_ffprobe_path(), Ok("/usr/bin/ffprobe".to_string()));
    c.dependencies.ffprobe_path = None;
    assert_eq!(c.dependencies.required_ffprobe_path(), Err("ffprobe".to_string()));
}
