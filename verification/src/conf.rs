//! Configuration of the bridge, resolved once per process and shared
//! read-only by every unit of work. Reading the environment happens
//! outside this crate; the values land here as plain data, and the
//! decisions over them (defaults, the filter-source conflict) are
//! verified.

use vstd::prelude::*;
use vstd::string::StringExecFns;

verus! {

/// The bridge's immutable configuration: which keys react, how much
/// of the key's directory tree is pulled, which objects are pulled,
/// the optional execution filter, the optional target bucket
/// override, and the environment variable names handed to the
/// handler command.
pub struct Settings {
    /// Pattern selecting the object keys that react; absent means
    /// every key reacts.
    pub match_key: Option<String>,
    /// How many parent directories of the key are pulled: `0` keeps
    /// only the containing folder, a negative value pulls the whole
    /// bucket.
    pub pull_parent_dirs: i32,
    /// Patterns selecting which listed objects are pulled; empty
    /// pulls everything under the prefix.
    pub pull_match_keys: Vec<String>,
    /// An inline filter expression run against the listing; `false`
    /// as its first result skips the unit of work.
    pub execution_filter_expr: Option<String>,
    /// A file holding such a filter expression; exclusive with the
    /// inline form.
    pub execution_filter_file: Option<String>,
    /// The bucket receiving the outputs; absent means the bucket of
    /// the triggering event.
    pub target_bucket: Option<String>,
    /// The environment variable carrying the working directory path.
    pub root_folder_var: String,
    /// The environment variable carrying the source bucket name.
    pub bucket_var: String,
    /// The environment variable carrying the source key prefix.
    pub key_prefix_var: String,
}

/// The default name of the working-directory variable.
pub fn default_root_folder_var() -> (r: String)
    ensures
        r@ == ("ROOT_FOLDER")@,
{
    String::from_str("ROOT_FOLDER")
}

/// The default name of the bucket variable.
pub fn default_bucket_var() -> (r: String)
    ensures
        r@ == ("BUCKET")@,
{
    String::from_str("BUCKET")
}

/// The default name of the key-prefix variable.
pub fn default_key_prefix_var() -> (r: String)
    ensures
        r@ == ("KEY_PREFIX")@,
{
    String::from_str("KEY_PREFIX")
}

/// Where the execution filter's text comes from.
pub enum FilterSource {
    /// The expression stands in the configuration itself.
    Inline(String),
    /// The expression stands in a file at this path.
    FromFile(String),
}

/// A configuration fault: fatal at startup, before any event is
/// processed.
#[derive(Debug)]
pub enum ConfigError {
    /// No handler command was given.
    EmptyHandlerCommand,
    /// Both an inline filter expression and a filter file were given.
    ConflictingFilterSources,
    /// The filter expression did not compile; the text is the
    /// compiler's first complaint.
    FilterCompile(String),
}

/// Whether an optional text is actually given: present and
/// non-empty.
pub open spec fn opt_given(o: Option<String>) -> bool {
    o is Some && (o->0)@.len() > 0
}

/// The resolved filter source of a configuration: a conflict when
/// both forms are given, otherwise the one that is, if any.
pub open spec fn spec_filter_source(s: Settings) -> Result<Option<FilterSource>, ConfigError> {
    if opt_given(s.execution_filter_expr) && opt_given(s.execution_filter_file) {
        Err(ConfigError::ConflictingFilterSources)
    } else if opt_given(s.execution_filter_expr) {
        Ok(Some(FilterSource::Inline(s.execution_filter_expr->0)))
    } else if opt_given(s.execution_filter_file) {
        Ok(Some(FilterSource::FromFile(s.execution_filter_file->0)))
    } else {
        Ok(None)
    }
}

/// Resolves where the execution filter comes from. Giving both the
/// inline expression and the file is a configuration fault; an
/// absent or empty value counts as not given.
pub fn filter_source(settings: &Settings) -> (r: Result<Option<FilterSource>, ConfigError>)
    ensures
        r == spec_filter_source(*settings),
{
    let expr_given = match &settings.execution_filter_expr {
        Some(s) => !s.as_str().is_empty(),
        None => false,
    };
    let file_given = match &settings.execution_filter_file {
        Some(s) => !s.as_str().is_empty(),
        None => false,
    };
    if expr_given && file_given {
        Err(ConfigError::ConflictingFilterSources)
    } else if expr_given {
        match &settings.execution_filter_expr {
            Some(s) => Ok(Some(FilterSource::Inline(s.clone()))),
            None => Err(ConfigError::ConflictingFilterSources),
        }
    } else if file_given {
        match &settings.execution_filter_file {
            Some(s) => Ok(Some(FilterSource::FromFile(s.clone()))),
            None => Err(ConfigError::ConflictingFilterSources),
        }
    } else {
        Ok(None)
    }
}

} // verus!
