use vstd::prelude::*;
use vstd::string::StringExecFns;

use crate::media::texts;
use crate::text::{
    drop_parent_refs, remove_parent_refs, strip_dir, strip_dir_prefix, before_last_path_slash, before_last_slash, same_text, trim_leading_slashes, trim_start_slashes,
    ends_with, last_path_segment, last_segment, starts_with, strip_or_keep, strip_prefix_or_keep,
};

verus! {

/// The scheme that marks a storage root as an S3 bucket.
pub const S3_INDICATOR: &'static str = "s3://";

/// Which kind of backend a storage root names.
#[derive(Clone, Copy, Debug, PartialEq, Eq, Structural)]
pub enum StorageType {
    Local,
    S3,
}

/// A rename request: the object's old and new name.
#[derive(Clone, Debug, Default)]
pub struct MoveObject {
    pub source: String,
    pub target: String,
}

/// Media kept on the local file system under `root`.
#[derive(Clone, Debug)]
pub struct LocalStorage {
    pub root: String,
    pub extensions: Vec<String>,
}

/// Media kept in an S3 bucket. `configured_root` is the root as configured
/// (the `s3://` string), `bucket` and `endpoint` are what it names.
#[derive(Clone, Debug)]
pub struct S3Storage {
    pub root: String,
    pub configured_root: String,
    pub extensions: Vec<String>,
    pub endpoint: String,
    pub bucket: String,
}

/// The storage that media paths are resolved against.
#[derive(Clone, Debug)]
pub enum StorageBackend {
    Local(LocalStorage),
    S3(S3Storage),
}

/// The text of a string with every run of `/` collapsed to a single `/`.
pub open spec fn collapse_slashes(s: Seq<char>) -> Seq<char>
    decreases s.len(),
{
    if s.len() == 0 {
        s
    } else if s.len() >= 2 && s[0] == '/' && s[1] == '/' {
        collapse_slashes(s.drop_first())
    } else {
        seq![s[0]] + collapse_slashes(s.drop_first())
    }
}

/// What `str::to_lowercase` makes of a text.
pub uninterp spec fn lower_of(s: Seq<char>) -> Seq<char>;

/// The prefix that marks a path as an object key of `bucket`.
pub open spec fn s3_prefix(bucket: Seq<char>) -> Seq<char> {
    "[S3:]/"@ + bucket
}

/// Relies on regex's `Regex::replace_all` with the pattern `/+` and the
/// literal replacement `/`: each maximal run of slashes is one match and
/// becomes a single slash.
#[verifier::external_body]
fn collapse_slash_runs(s: &str) -> (r: String)
    ensures
        r@ == collapse_slashes(s@),
{
    regex::Regex::new(r"/+").unwrap().replace_all(s, "/").to_string()
}

/// The capture groups of the leftmost match of the S3 root pattern
/// `s3://<bucket>/:<endpoint>/:<access key>/:<secret key>` in a text.
pub uninterp spec fn s3_root_groups(s: Seq<char>) -> Option<Seq<Seq<char>>>;

/// Relies on regex's `Regex::captures` with the pattern
/// `s3://([^/]+)/:(.*?)/:([^/]+)/:([^/]+)`: the four groups of the leftmost
/// match, or none where nothing matches.
#[verifier::external_body]
fn capture_s3_root(s: &str) -> (r: Option<Vec<String>>)
    ensures
        match r {
            Some(g) => s3_root_groups(s@) == Some(texts(g@)) && g@.len() == 4,
            None => s3_root_groups(s@) is None,
        },
{
    let re = regex::Regex::new(r"s3://([^/]+)/:(.*?)/:([^/]+)/:([^/]+)").unwrap();
    re.captures(s).map(|c| (1..5).map(|i| c[i].to_string()).collect())
}

/// Whether the file name of a path has an extension, as `Path::extension`
/// finds it.
pub uninterp spec fn has_extension(s: Seq<char>) -> bool;

/// Relies on `Path::extension`: whether the path's file name has an
/// extension.
#[verifier::external_body]
fn path_has_extension(s: &str) -> (r: bool)
    ensures
        r == has_extension(s@),
{
    std::path::Path::new(s).extension().is_some()
}

/// An S3 key prefix as `s3_path` cleans it: runs of slashes collapsed and
/// leading slashes removed; a folder (neither ending with a slash nor having
/// an extension) gets a trailing slash; an empty or root-only path is empty.
pub open spec fn s3_clean_spec(input: Seq<char>) -> Seq<char> {
    let collapsed = collapse_slashes(input);
    if collapsed.len() > 0 && collapsed != "/"@ {
        if "/"@.is_suffix_of(input) || has_extension(collapsed) {
            trim_leading_slashes(collapsed)
        } else {
            trim_leading_slashes(collapsed) + "/"@
        }
    } else {
        Seq::empty()
    }
}

/// Cleans an S3 key prefix; see `s3_clean_spec`.
fn s3_clean_path(input_path: &str) -> (r: String)
    ensures
        r@ == s3_clean_spec(input_path@),
{
    let collapsed = collapse_slash_runs(input_path);
    if collapsed.unicode_len() > 0 && !same_text(collapsed.as_str(), "/") {
        let trimmed = trim_start_slashes(collapsed.as_str());
        if ends_with(input_path, "/") || path_has_extension(collapsed.as_str()) {
            trimmed
        } else {
            trimmed.concat("/")
        }
    } else {
        String::new()
    }
}

/// A relative path as relative_path's `RelativePath::normalize` renders it.
pub uninterp spec fn relative_normalized(s: Seq<char>) -> Seq<char>;

/// Relies on relative_path's `RelativePath::normalize`, rendered by
/// `to_string`: the path with `.` and `..` resolved lexically.
#[verifier::external_body]
fn normalize_relative(s: &str) -> (r: String)
    ensures
        r@ == relative_normalized(s@),
{
    relative_path::RelativePath::new(s).normalize().to_string()
}

/// The last component of a path as `Path::file_name` finds it; empty where
/// it finds none.
pub uninterp spec fn file_name_of(s: Seq<char>) -> Seq<char>;

/// Relies on `Path::file_name`, with an empty name where there is none.
#[verifier::external_body]
fn path_file_name(s: &str) -> (r: String)
    ensures
        r@ == file_name_of(s@),
{
    std::path::Path::new(s).file_name().unwrap_or_default().to_string_lossy().to_string()
}

/// A path extended by another, as `Path::join` makes it.
pub uninterp spec fn path_joined(base: Seq<char>, rest: Seq<char>) -> Seq<char>;

/// Relies on `Path::join`.
#[verifier::external_body]
fn join_path(base: &str, rest: &str) -> (r: String)
    ensures
        r@ == path_joined(base@, rest@),
{
    std::path::Path::new(base).join(rest).to_string_lossy().to_string()
}

/// Relies on `str::to_lowercase`, whose result depends on the text alone.
#[verifier::external_body]
fn lowercase(s: &str) -> (r: String)
    ensures
        r@ == lower_of(s@),
{
    s.to_lowercase()
}

/// An S3 root that does not have the form
/// `s3://<bucket>/:<endpoint>/:<access key>/:<secret key>`.
#[derive(Clone, Copy, Debug, PartialEq, Eq, Structural)]
pub enum S3ParseError {
    InvalidInput,
}

/// The keys that sign requests to an S3 endpoint.
#[derive(Clone, Debug)]
pub struct S3Credentials {
    pub access_key: String,
    pub secret_key: String,
}

/// What an S3 root configures: the credentials, the bucket and the
/// endpoint's URL.
#[derive(Clone, Debug)]
pub struct S3Config {
    pub credentials: S3Credentials,
    pub bucket: String,
    pub endpoint: String,
}

/// An endpoint as a URL: `http://` is put in front unless it names its
/// scheme (`http://` or `https://`).
pub open spec fn endpoint_url(e: Seq<char>) -> Seq<char> {
    if "http://"@.is_prefix_of(e) || "https://"@.is_prefix_of(e) {
        e
    } else {
        "http://"@ + e
    }
}

/// What the parts of an S3 root configure.
pub open spec fn s3_config_spec(
    c: S3Config,
    bucket: Seq<char>,
    endpoint: Seq<char>,
    access_key: Seq<char>,
    secret_key: Seq<char>,
) -> bool {
    &&& c.bucket@ == bucket
    &&& c.endpoint@ == endpoint_url(endpoint)
    &&& c.credentials.access_key@ == access_key
    &&& c.credentials.secret_key@ == secret_key
}

/// The configuration named by the parts of an S3 root.
pub fn s3_config_from_parts(bucket: &str, endpoint: &str, access_key: &str, secret_key: &str) -> (r:
    S3Config)
    ensures
        s3_config_spec(r, bucket@, endpoint@, access_key@, secret_key@),
{
    let url = if starts_with(endpoint, "http://") || starts_with(endpoint, "https://") {
        String::from_str(endpoint)
    } else {
        String::from_str("http://").concat(endpoint)
    };
    proof {
        reveal_strlit("http://");
        reveal_strlit("https://");
    }
    S3Config {
        credentials: S3Credentials {
            access_key: String::from_str(access_key),
            secret_key: String::from_str(secret_key),
        },
        bucket: String::from_str(bucket),
        endpoint: url,
    }
}

/// Parses an S3 root `s3://<bucket>/:<endpoint>/:<access key>/:<secret key>`.
pub fn s3_parse_string(s3_str: &str) -> (r: Result<S3Config, S3ParseError>)
    ensures
        match s3_root_groups(s3_str@) {
            Some(g) => r is Ok && s3_config_spec(r->Ok_0, g[0], g[1], g[2], g[3]),
            None => r == Err::<S3Config, S3ParseError>(S3ParseError::InvalidInput),
        },
{
    match capture_s3_root(s3_str) {
        Some(g) => Ok(
            s3_config_from_parts(g[0].as_str(), g[1].as_str(), g[2].as_str(), g[3].as_str()),
        ),
        None => Err(S3ParseError::InvalidInput),
    }
}

/// A path as an S3 key prefix, with the prefix of its parent: the parent is
/// the cleaned path without its last two slash-separated parts.
pub fn s3_path(input_path: &str) -> (r: (String, String))
    ensures
        r.0@ == s3_clean_spec(input_path@),
        r.1@ == s3_clean_spec(before_last_slash(before_last_slash(r.0@)) + "/"@),
{
    let clean_path = s3_clean_path(input_path);
    let upper = before_last_path_slash(clean_path.as_str());
    let parent = before_last_path_slash(upper.as_str());
    let clean_parent_path = s3_clean_path(parent.concat("/").as_str());
    (clean_path, clean_parent_path)
}

/// The path of `input` relative to `root`, as `norm_abs_path` resolves it.
pub open spec fn relative_source(root: Seq<char>, input: Seq<char>) -> Seq<char> {
    let root_relative = drop_parent_refs(relative_normalized(root));
    let suffix = file_name_of(root);
    let source = drop_parent_refs(relative_normalized(input));
    if root.is_prefix_of(input) || root_relative.is_prefix_of(source) {
        match strip_dir(source, root_relative) {
            Some(rest) => rest,
            None => Seq::empty(),
        }
    } else {
        match strip_dir(source, suffix) {
            Some(rest) => rest,
            None => source,
        }
    }
}

/// Resolves `input_path` under `root_path` so that it cannot leave it: both
/// are normalised with every `../` removed; a path under the root (given
/// absolutely or relative to it) is taken relative to it, else a leading
/// folder named like the root is dropped. The result is the joined path,
/// the root's last component and the relative part.
pub fn norm_abs_path(root_path: &str, input_path: &str) -> (r: (String, String, String))
    ensures
        r.2@ == relative_source(root_path@, input_path@),
        r.1@ == file_name_of(root_path@),
        r.0@ == path_joined(root_path@, r.2@),
{
    let path_relative = remove_parent_refs(normalize_relative(root_path).as_str());
    let path_suffix = path_file_name(root_path);
    let source_relative = remove_parent_refs(normalize_relative(input_path).as_str());
    let rel = if starts_with(input_path, root_path) || starts_with(
        source_relative.as_str(),
        path_relative.as_str(),
    ) {
        match strip_dir_prefix(source_relative.as_str(), path_relative.as_str()) {
            Some(rest) => rest,
            None => String::new(),
        }
    } else {
        match strip_dir_prefix(source_relative.as_str(), path_suffix.as_str()) {
            Some(rest) => rest,
            None => source_relative,
        }
    };
    let path = join_path(root_path, rel.as_str());
    (path, path_suffix, rel)
}

/// The backend kind that a configured storage root names: S3 when the root,
/// in lower case, starts with `s3://`.
pub fn select_storage_type(path: &str) -> (r: StorageType)
    ensures
        r == (if S3_INDICATOR@.is_prefix_of(lower_of(path@)) {
            StorageType::S3
        } else {
            StorageType::Local
        }),
{
    let lower = lowercase(path);
    if starts_with(lower.as_str(), S3_INDICATOR) {
        StorageType::S3
    } else {
        StorageType::Local
    }
}

/// Whether an object name ends with one of the given extensions.
pub fn s3_obj_extension_checker(obj_name: &str, extensions: &Vec<String>) -> (r: bool)
    ensures
        r == exists|i: int| 0 <= i < extensions@.len() && (#[trigger] extensions@[i])@.is_suffix_of(obj_name@),
{
    let mut i: usize = 0;
    while i < extensions.len()
        invariant
            0 <= i <= extensions@.len(),
            forall|j: int| 0 <= j < i ==> !(#[trigger] extensions@[j])@.is_suffix_of(obj_name@),
        decreases extensions.len() - i,
    {
        if ends_with(obj_name, extensions[i].as_str()) {
            return true;
        }
        i = i + 1;
    }
    false
}

impl S3Storage {
    /// The prefix of the object keys of this bucket: `[S3:]/<bucket>`.
    pub fn path_prefix_generator(&self) -> (r: String)
        ensures
            r@ == s3_prefix(self.bucket@),
    {
        let prefix = String::from_str("[S3:]/");
        proof {
            reveal_strlit("[S3:]/");
        }
        prefix.concat(self.bucket.as_str())
    }

    /// A media path as stored in playlists: the configured root (with runs
    /// of slashes collapsed) is removed where the path starts with it, and
    /// the bucket's key prefix is put in front.
    pub fn sanitized_file_path(&self, path: &str) -> (r: String)
        ensures
            r@ == s3_prefix(self.bucket@) + strip_or_keep(path@, collapse_slashes(self.configured_root@)),
    {
        let root = collapse_slash_runs(self.configured_root.as_str());
        let staged = strip_prefix_or_keep(path, root.as_str());
        let prefix = self.path_prefix_generator();
        prefix.concat(staged.as_str())
    }

    /// A stored media path as the engine reads it: the bucket's key prefix
    /// is removed where the path starts with it.
    pub fn interpreted_file_path(&self, path: &str) -> (r: String)
        ensures
            r@ == strip_or_keep(path@, s3_prefix(self.bucket@)),
    {
        let prefix = self.path_prefix_generator();
        strip_prefix_or_keep(path, prefix.as_str())
    }

    /// The rename of an object, by the last segment of each path.
    pub fn s3_rename(source_path: &str, target_path: &str) -> (r: MoveObject)
        ensures
            r.source@ == last_segment(source_path@),
            r.target@ == last_segment(target_path@),
    {
        MoveObject { source: last_path_segment(source_path), target: last_path_segment(target_path) }
    }
}

impl LocalStorage {
    /// Local paths are stored as they are.
    pub fn sanitized_file_path(&self, path: &str) -> (r: String)
        ensures
            r@ == path@,
    {
        String::from_str(path)
    }

    /// Local paths are read as they are stored.
    pub fn interpreted_file_path(&self, path: &str) -> (r: String)
        ensures
            r@ == path@,
    {
        String::from_str(path)
    }
}

/// What `StorageBackend::interpreted_file_path` returns.
pub open spec fn interpreted_spec(b: StorageBackend, path: Seq<char>) -> Seq<char> {
    match b {
        StorageBackend::Local(_) => path,
        StorageBackend::S3(s) => strip_or_keep(path, s3_prefix(s.bucket@)),
    }
}

/// What `StorageBackend::sanitized_file_path` returns.
pub open spec fn sanitized_spec(b: StorageBackend, path: Seq<char>) -> Seq<char> {
    match b {
        StorageBackend::Local(_) => path,
        StorageBackend::S3(s) => s3_prefix(s.bucket@) + strip_or_keep(
            path,
            collapse_slashes(s.configured_root@),
        ),
    }
}

impl StorageBackend {
    /// A stored media path as the engine reads it.
    pub fn interpreted_file_path(&self, path: &str) -> (r: String)
        ensures
            r@ == interpreted_spec(*self, path@),
    {
        match self {
            StorageBackend::Local(storage) => storage.interpreted_file_path(path),
            StorageBackend::S3(storage) => storage.interpreted_file_path(path),
        }
    }

    /// A media path in the form in which it is stored.
    pub fn sanitized_file_path(&self, path: &str) -> (r: String)
        ensures
            r@ == sanitized_spec(*self, path@),
    {
        match self {
            StorageBackend::Local(storage) => storage.sanitized_file_path(path),
            StorageBackend::S3(storage) => storage.sanitized_file_path(path),
        }
    }
}

} // verus!
