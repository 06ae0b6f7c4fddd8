use gwt::logger::{format_line, level_from_env, Level, LevelFilter, Logger, Stream};
use gwt::path::{join_path, parent_dir};

#[test]
fn join_paths() {
    assert_eq!(join_path(&b"/ws".to_vec(), &b"feat".to_vec()), b"/ws/feat".to_vec());
    assert_eq!(join_path(&b"/ws/".to_vec(), &b"feat".to_vec()), b"/ws/feat".to_vec());
    assert_eq!(join_path(&b"/ws".to_vec(), &b"/abs".to_vec()), b"/abs".to_vec());
    assert_eq!(join_path(&b"".to_vec(), &b"x".to_vec()), b"x".to_vec());
    assert_eq!(join_path(&b"a".to_vec(), &b"".to_vec()), b"a/".to_vec());
}

#[test]
fn parent_dirs() {
    assert_eq!(parent_dir(&b"/a/b".to_vec()), Some(b"/a".to_vec()));
    assert_eq!(parent_dir(&b"/a//b/".to_vec()), Some(b"/a".to_vec()));
    assert_eq!(parent_dir(&b"/a".to_vec()), Some(b"/".to_vec()));
    assert_eq!(parent_dir(&b"a".to_vec()), Some(vec![]));
    assert_eq!(parent_dir(&b"/".to_vec()), None);
    assert_eq!(parent_dir(&b"".to_vec()), None);
}

#[test]
fn logger_levels() {
    let info = Logger::new(LevelFilter::Info);
    assert!(info.enabled(Level::Error));
    assert!(info.enabled(Level::Info));
    assert!(!info.enabled(Level::Debug));
    assert!(!Logger::new(LevelFilter::Off).enabled(Level::Error));
    assert!(Logger::new(LevelFilter::Trace).enabled(Level::Trace));
    assert_eq!(info.level(), LevelFilter::Info);
}

#[test]
fn logger_destinations() {
    let l = Logger::new(LevelFilter::Warn);
    assert_eq!(l.destination(Level::Error), Some(Stream::Stderr));
    assert_eq!(l.destination(Level::Warn), Some(Stream::Stdout));
    assert_eq!(l.destination(Level::Info), None);
}

#[test]
fn log_line_format() {
    assert_eq!(format_line(Level::Error, "Failed: Git operation failed"), "ERROR - Failed: Git operation failed");
    assert_eq!(format_line(Level::Info, "Created 'x'"), "INFO - Created 'x'");
    assert_eq!(format_line(Level::Warn, ""), "WARN - ");
    assert_eq!(format_line(Level::Debug, "d"), "DEBUG - d");
    assert_eq!(format_line(Level::Trace, "t"), "TRACE - t");
}

#[test]
fn level_from_environment() {
    assert_eq!(level_from_env(None), LevelFilter::Info);
    assert_eq!(level_from_env(Some("debug".to_string())), LevelFilter::Debug);
    assert_eq!(level_from_env(Some("TRACE".to_string())), LevelFilter::Trace);
    assert_eq!(level_from_env(Some("oFf".to_string())), LevelFilter::Off);
    assert_eq!(level_from_env(Some("Warn".to_string())), LevelFilter::Warn);
    assert_eq!(level_from_env(Some("error".to_string())), LevelFilter::Error);
    assert_eq!(level_from_env(Some("verbose".to_string())), LevelFilter::Info);
    assert_eq!(level_from_env(Some("".to_string())), LevelFilter::Info);
}
