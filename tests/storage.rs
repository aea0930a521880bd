use playout_core::config::{output_mode, source_mode, OutputMode, SourceMode};
use playout_core::playout::FatalError;
use playout_core::models::{
    default_channels, default_track_index, default_tracks, empty_string, LoginUser,
};
use playout_core::storage::{
    norm_abs_path,
    s3_config_from_parts, s3_obj_extension_checker, s3_parse_string, s3_path, select_storage_type,
    S3ParseError, LocalStorage, S3Storage, StorageBackend,
    StorageType,
};
use playout_core::text::{
    before_last_path_slash, remove_parent_refs, strip_dir_prefix, trim_start_slashes, ends_with, last_path_segment, starts_with, strip_prefix_or_keep};

fn s3() -> S3Storage {
    S3Storage {
        root: String::new(),
        configured_root: "s3://media//store/:host:9000/:key/:secret".to_string(),
        extensions: vec!["mp4".to_string()],
        endpoint: "http://host:9000".to_string(),
        bucket: "media".to_string(),
    }
}

#[test]
fn storage_type_from_root() {
    assert_eq!(select_storage_type("s3://bucket/:host/:a/:b"), StorageType::S3);
    assert_eq!(select_storage_type("S3://Bucket/:host/:a/:b"), StorageType::S3);
    assert_eq!(select_storage_type("/var/lib/playout/media"), StorageType::Local);
    assert_eq!(select_storage_type("s3:/bucket"), StorageType::Local);
}

#[test]
fn s3_prefix_of_bucket() {
    assert_eq!(s3().path_prefix_generator(), "[S3:]/media");
}

#[test]
fn s3_interpreted_path_drops_prefix() {
    let b = StorageBackend::S3(s3());
    assert_eq!(b.interpreted_file_path("[S3:]/media/clips/a.mp4"), "/clips/a.mp4");
    assert_eq!(b.interpreted_file_path("/other/a.mp4"), "/other/a.mp4");
}

#[test]
fn s3_sanitized_path_collapses_root_slashes() {
    let b = StorageBackend::S3(s3());
    assert_eq!(
        b.sanitized_file_path("s3:/media/store/:host:9000/:key/:secret/a.mp4"),
        "[S3:]/media/a.mp4"
    );
    assert_eq!(b.sanitized_file_path("/clips/b.mp4"), "[S3:]/media/clips/b.mp4");
}

#[test]
fn local_paths_unchanged() {
    let b = StorageBackend::Local(LocalStorage {
        root: "/media".to_string(),
        extensions: vec![],
    });
    assert_eq!(b.interpreted_file_path("/media/a.mp4"), "/media/a.mp4");
    assert_eq!(b.sanitized_file_path("/media/a.mp4"), "/media/a.mp4");
}

#[test]
fn rename_by_last_segment() {
    let m = S3Storage::s3_rename("folder/sub/old.mp4", "new.mp4");
    assert_eq!(m.source, "old.mp4");
    assert_eq!(m.target, "new.mp4");
    let d = S3Storage::s3_rename("folder/", "a/b/");
    assert_eq!(d.source, "");
    assert_eq!(d.target, "");
}

#[test]
fn extension_checker() {
    let exts = vec!["mp4".to_string(), "mkv".to_string()];
    assert!(s3_obj_extension_checker("clip.mkv", &exts));
    assert!(!s3_obj_extension_checker("clip.mov", &exts));
    assert!(!s3_obj_extension_checker("clip.mp4", &vec![]));
}

#[test]
fn text_helpers() {
    assert!(starts_with("abc", "ab"));
    assert!(!starts_with("ab", "abc"));
    assert!(ends_with("abc", "bc"));
    assert!(!ends_with("abc", "ab"));
    assert_eq!(strip_prefix_or_keep("éabc", "éa"), "bc");
    assert_eq!(strip_prefix_or_keep("abc", "x"), "abc");
    assert_eq!(last_path_segment("a/b/ç.mp4"), "ç.mp4");
    assert_eq!(last_path_segment("plain"), "plain");
}

#[test]
fn model_defaults() {
    assert_eq!(empty_string(), "");
    assert_eq!(default_track_index(), -1);
    assert_eq!(default_tracks(), 1);
    assert_eq!(default_channels(), 2);
    let u = LoginUser::new(7, "admin".to_string());
    assert_eq!(u.id, 7);
    assert_eq!(u.username, "admin");
}

#[test]
fn configured_modes() {
    assert_eq!(source_mode("folder"), Ok(SourceMode::Folder));
    assert_eq!(source_mode("playlist"), Ok(SourceMode::Playlist));
    assert_eq!(source_mode("folders"), Err(FatalError::UnknownSourceMode));
    assert_eq!(source_mode(""), Err(FatalError::UnknownSourceMode));
    assert_eq!(output_mode("desktop"), Ok(OutputMode::Desktop));
    assert_eq!(output_mode("stream"), Ok(OutputMode::Stream));
    assert_eq!(output_mode("hls"), Err(FatalError::UnknownOutputMode));
}

#[test]
fn parse_s3_root() {
    let c = s3_parse_string("s3://media/:127.0.0.1:9000/:minio/:password123").unwrap();
    assert_eq!(c.bucket, "media");
    assert_eq!(c.endpoint, "http://127.0.0.1:9000");
    assert_eq!(c.credentials.access_key, "minio");
    assert_eq!(c.credentials.secret_key, "password123");
}

#[test]
fn parse_s3_root_keeps_scheme() {
    let c = s3_parse_string("s3://clips/:https://s3.example.org/:user/:pass").unwrap();
    assert_eq!(c.bucket, "clips");
    assert_eq!(c.endpoint, "https://s3.example.org");
    assert_eq!(c.credentials.access_key, "user");
    assert_eq!(c.credentials.secret_key, "pass");
}

#[test]
fn parse_s3_root_rejects_other_forms() {
    assert_eq!(s3_parse_string("s3://bucket-only").err(), Some(S3ParseError::InvalidInput));
    assert_eq!(s3_parse_string("/var/media").err(), Some(S3ParseError::InvalidInput));
}

#[test]
fn config_from_parts() {
    let c = s3_config_from_parts("b", "http://h:1", "k", "s");
    assert_eq!(c.endpoint, "http://h:1");
    let d = s3_config_from_parts("b", "h:1", "k", "s");
    assert_eq!(d.endpoint, "http://h:1");
    assert_eq!(d.bucket, "b");
}

#[test]
fn s3_folder_path_and_parent() {
    let (clean, parent) = s3_path("folder/sub");
    assert_eq!(clean, "folder/sub/");
    assert_eq!(parent, "folder/");
    let (clean, parent) = s3_path("/folder//sub/deeper/");
    assert_eq!(clean, "folder/sub/deeper/");
    assert_eq!(parent, "folder/sub/");
}

#[test]
fn s3_file_path_and_parent() {
    let (clean, parent) = s3_path("//a//b.mp4");
    assert_eq!(clean, "a/b.mp4");
    assert_eq!(parent, "");
}

#[test]
fn s3_root_and_empty_paths() {
    assert_eq!(s3_path("/"), (String::new(), String::new()));
    assert_eq!(s3_path("///"), (String::new(), String::new()));
    assert_eq!(s3_path(""), (String::new(), String::new()));
}

#[test]
fn normalized_path_under_root() {
    let (path, suffix, rel) = norm_abs_path("/usr/share/media", "/usr/share/media/clips/a.mp4");
    assert_eq!(rel, "clips/a.mp4");
    assert_eq!(suffix, "media");
    assert_eq!(path, "/usr/share/media/clips/a.mp4");
}

#[test]
fn normalized_path_relative_to_root_folder() {
    let (path, suffix, rel) = norm_abs_path("/usr/share/media", "media/clips/../b.mp4");
    assert_eq!(rel, "b.mp4");
    assert_eq!(suffix, "media");
    assert_eq!(path, "/usr/share/media/b.mp4");
}

#[test]
fn normalized_path_cannot_leave_root() {
    let (path, _, rel) = norm_abs_path("/usr/share/media", "../../etc/passwd");
    assert_eq!(rel, "etc/passwd");
    assert_eq!(path, "/usr/share/media/etc/passwd");
    let (_, _, root_only) = norm_abs_path("/usr/share/media", "/usr/share/media");
    assert_eq!(root_only, "");
}

#[test]
fn more_text_helpers() {
    assert_eq!(remove_parent_refs("../a/../../b/.../c"), "a/b/.c");
    assert_eq!(remove_parent_refs("...//"), "./");
    assert_eq!(strip_dir_prefix("media/a.mp4", "media"), Some("a.mp4".to_string()));
    assert_eq!(strip_dir_prefix("mediaX/a.mp4", "media"), None);
    assert_eq!(strip_dir_prefix("media", "media"), None);
    assert_eq!(trim_start_slashes("///a/b"), "a/b");
    assert_eq!(before_last_path_slash("a/b/c"), "a/b");
    assert_eq!(before_last_path_slash("abc"), "");
}
