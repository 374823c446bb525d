//! The pipeline of one unit of work, as a phase machine: list the
//! objects under the unit's prefix, evaluate the optional execution
//! filter, plan the downloads, snapshot the working directory, run
//! the handler, diff the directory against the snapshot, and plan
//! the uploads of what changed.
//!
//! The phases are strictly ordered: each step demands the phase that
//! precedes it and moves to the next, so no download can be planned
//! before the listing and the filter are done, and no upload before
//! the handler exited and the diff ran. The transfers, the directory
//! walks and the child process itself are I/O and run outside this
//! crate; their results come back in as plain values.

use vstd::prelude::*;
use crate::batch::EventBatch;
use crate::conf::Settings;
use crate::jq::FilterOutcome;
use crate::jq::filter_says_stop;
use crate::jq::should_skip;
use crate::pattern::KeyPattern;
use crate::sign::FileEntry;
use crate::sign::Snapshot;
use crate::sign::compute_signatures;
use crate::sign::empty_signatures;
use crate::sign::find_signature_differences;
use crate::sign::sig_map;
use crate::sign::diff_paths;
use crate::store::ObjectRecord;
use crate::store::PullItem;
use crate::store::UploadItem;
use crate::store::plan_downloads;
use crate::store::plan_uploads;
use crate::store::spec_plan_downloads;
use crate::store::spec_upload_key;
use crate::store::objects_json;
use crate::store::json_of_objects;
use vstd::string::StringExecFns;

verus! {

/// The phase a unit of work is in.
#[derive(Debug, PartialEq, Eq, Structural, Clone, Copy)]
pub enum Phase {
    Listing,
    Filtering,
    Downloading,
    Snapshotting,
    Executing,
    Diffing,
    Uploading,
    Done,
}

/// How a finished unit of work ended; each of the three is a
/// success, not a failure.
#[derive(Debug, PartialEq, Eq, Structural, Clone, Copy)]
pub enum Outcome {
    /// The execution filter's first result was `false`: stopped
    /// before any download.
    FilteredOut,
    /// The handler exited unsuccessfully: stopped before any diff or
    /// upload.
    HandlerDeclined,
    /// The full pipeline ran, uploads included (possibly zero).
    Completed,
}

/// The state of one unit of work.
pub struct Pipeline {
    /// The bucket the notifications came from.
    pub bucket: String,
    /// The key prefix pulled.
    pub prefix: String,
    /// The bucket receiving the outputs.
    pub target_bucket: String,
    /// The listing gathered so far.
    pub objects: Vec<ObjectRecord>,
    /// The snapshot taken before the handler ran.
    pub pre_snapshot: Snapshot,
    /// The current phase.
    pub phase: Phase,
    /// Set once the pipeline reaches its terminal phase.
    pub outcome: Option<Outcome>,
}

/// Where the filter decision leads: a first result of `false` ends
/// the unit as a deliberate skip, anything else moves on to the
/// downloads.
pub open spec fn spec_apply_filter(p: Pipeline, stop: bool) -> Pipeline {
    if stop {
        (Pipeline { phase: Phase::Done, outcome: Some(Outcome::FilteredOut), ..p })
    } else {
        (Pipeline { phase: Phase::Downloading, ..p })
    }
}

/// Where the handler's exit leads: success moves on to the diff, an
/// unsuccessful exit ends the unit with nothing uploaded.
pub open spec fn spec_handler_finished(p: Pipeline, success: bool) -> Pipeline {
    if success {
        (Pipeline { phase: Phase::Diffing, ..p })
    } else {
        (Pipeline { phase: Phase::Done, outcome: Some(Outcome::HandlerDeclined), ..p })
    }
}

impl Pipeline {
    /// Opens a unit of work: the target bucket is the override when
    /// one is configured, else the unit's own bucket.
    pub fn new(batch: &EventBatch, target_override: &Option<String>) -> (p: Pipeline)
        ensures
            p.phase is Listing,
            p.outcome is None,
            p.bucket@ == batch.bucket@,
            p.prefix@ == batch.prefix@,
            p.target_bucket@ == (match *target_override {
                Some(t) => t@,
                None => batch.bucket@,
            }),
            p.objects@.len() == 0,
            p.pre_snapshot.entries@.len() == 0,
    {
        let target_bucket = match target_override {
            Some(t) => t.clone(),
            None => batch.bucket.clone(),
        };
        Pipeline {
            bucket: batch.bucket.clone(),
            prefix: batch.prefix.clone(),
            target_bucket,
            objects: Vec::new(),
            pre_snapshot: empty_signatures(),
            phase: Phase::Listing,
            outcome: None,
        }
    }

    /// Takes in one page of the listing; the listing goes on while
    /// the store reports a continuation (`more`).
    pub fn absorb_page(&mut self, page: Vec<ObjectRecord>, more: bool)
        requires
            old(self).phase is Listing,
        ensures
            final(self).objects@ == old(self).objects@ + page@,
            final(self).phase == (if more {
                Phase::Listing
            } else {
                Phase::Filtering
            }),
            final(self).bucket == old(self).bucket,
            final(self).prefix == old(self).prefix,
            final(self).target_bucket == old(self).target_bucket,
            final(self).pre_snapshot == old(self).pre_snapshot,
            final(self).outcome == old(self).outcome,
    {
        let mut page = page;
        self.objects.append(&mut page);
        self.phase = if more {
            Phase::Listing
        } else {
            Phase::Filtering
        };
    }

    /// The JSON document the execution filter is evaluated against:
    /// the full listing, not only the pull-matched subset.
    pub fn filter_input(&self) -> (r: String)
        requires
            self.phase is Filtering,
        ensures
            r@ == json_of_objects(self.objects@),
    {
        objects_json(&self.objects)
    }

    /// Applies the filter's outcome: only a first result that is the
    /// boolean `false` stops the unit, as a success with nothing
    /// transferred.
    pub fn apply_filter(&mut self, outcome: &FilterOutcome)
        requires
            old(self).phase is Filtering,
        ensures
            *final(self) == spec_apply_filter(*old(self), filter_says_stop(*outcome)),
    {
        if should_skip(outcome) {
            self.phase = Phase::Done;
            self.outcome = Some(Outcome::FilteredOut);
        } else {
            self.phase = Phase::Downloading;
        }
    }

    /// Plans the downloads: every listed object matching a pull
    /// pattern, at its key with the unit's prefix stripped.
    pub fn download_plan(&self, pats: &Vec<KeyPattern>) -> (r: Vec<PullItem>)
        requires
            self.phase is Downloading,
        ensures
            r@.map_values(|it: PullItem| (it.key@, it.relative_path@)) == spec_plan_downloads(
                self.objects@,
                pats@,
                self.prefix@,
            ),
    {
        plan_downloads(&self.objects, pats, self.prefix.as_str())
    }

    /// All downloads have landed on disk.
    pub fn downloads_done(&mut self)
        requires
            old(self).phase is Downloading,
        ensures
            *final(self) == (Pipeline { phase: Phase::Snapshotting, ..*old(self) }),
    {
        self.phase = Phase::Snapshotting;
    }

    /// Whether the pre-execution snapshot is computed at all: only
    /// when the outputs go back to the source bucket. Writing to
    /// another bucket treats every local file as new.
    pub fn needs_pre_snapshot(&self) -> (r: bool)
        ensures
            r == (self.target_bucket@ == self.bucket@),
    {
        self.target_bucket.eq(&self.bucket)
    }

    /// Records the pre-execution snapshot from the walked working
    /// directory: the real snapshot when the target is the source
    /// bucket, the empty snapshot otherwise.
    pub fn record_snapshot(&mut self, walk: &Vec<FileEntry>)
        requires
            old(self).phase is Snapshotting,
        ensures
            final(self).phase is Executing,
            old(self).target_bucket@ == old(self).bucket@ ==> final(self).pre_snapshot.as_map()
                == sig_map(walk@),
            old(self).target_bucket@ != old(self).bucket@ ==> final(self).pre_snapshot.as_map()
                == Map::<Seq<char>, Seq<char>>::empty(),
            final(self).bucket == old(self).bucket,
            final(self).prefix == old(self).prefix,
            final(self).target_bucket == old(self).target_bucket,
            final(self).objects == old(self).objects,
            final(self).outcome == old(self).outcome,
    {
        if self.target_bucket.eq(&self.bucket) {
            self.pre_snapshot = compute_signatures(walk);
        } else {
            self.pre_snapshot = empty_signatures();
        }
        self.phase = Phase::Executing;
    }

    /// The three environment entries injected into the handler
    /// command: the working directory, the source bucket and the key
    /// prefix, under the configured variable names.
    pub fn handler_env(&self, settings: &Settings, workdir: &str) -> (r: Vec<(String, String)>)
        requires
            self.phase is Executing,
        ensures
            r@.len() == 3,
            r@[0].0@ == settings.root_folder_var@ && r@[0].1@ == workdir@,
            r@[1].0@ == settings.bucket_var@ && r@[1].1@ == self.bucket@,
            r@[2].0@ == settings.key_prefix_var@ && r@[2].1@ == self.prefix@,
    {
        let mut r: Vec<(String, String)> = Vec::new();
        r.push((settings.root_folder_var.clone(), String::from_str(workdir)));
        r.push((settings.bucket_var.clone(), self.bucket.clone()));
        r.push((settings.key_prefix_var.clone(), self.prefix.clone()));
        r
    }

    /// Applies the handler's exit: success moves on to the diff; an
    /// unsuccessful exit ends the unit — a decline, not a failure —
    /// with no diff and no upload.
    pub fn handler_finished(&mut self, success: bool)
        requires
            old(self).phase is Executing,
        ensures
            *final(self) == spec_handler_finished(*old(self), success),
    {
        if success {
            self.phase = Phase::Diffing;
        } else {
            self.phase = Phase::Done;
            self.outcome = Some(Outcome::HandlerDeclined);
        }
    }

    /// Diffs the re-walked working directory against the
    /// pre-execution snapshot: added files and files whose hash
    /// changed, in walk order. Files the handler deleted are not
    /// surfaced.
    pub fn diff_changed(&mut self, walk: &Vec<FileEntry>) -> (r: Vec<String>)
        requires
            old(self).phase is Diffing,
        ensures
            r@.map_values(|p: String| p@) == diff_paths(walk@, old(self).pre_snapshot.as_map()),
            *final(self) == (Pipeline { phase: Phase::Uploading, ..*old(self) }),
    {
        let changed = find_signature_differences(walk, &self.pre_snapshot);
        self.phase = Phase::Uploading;
        changed
    }

    /// Plans the uploads: one per changed path, keyed by the unit's
    /// prefix joined with the relative path, all bound for the
    /// target bucket.
    pub fn upload_plan(&self, changed: &Vec<String>) -> (r: Vec<UploadItem>)
        requires
            self.phase is Uploading,
        ensures
            r@.len() == changed@.len(),
            forall|i: int|
                0 <= i < changed@.len() ==> (#[trigger] r@[i]).relative_path@ == changed@[i]@
                    && r@[i].key@ == spec_upload_key(self.prefix@, changed@[i]@),
    {
        plan_uploads(self.prefix.as_str(), changed)
    }

    /// All uploads have landed: the unit of work is complete.
    pub fn uploads_done(&mut self)
        requires
            old(self).phase is Uploading,
        ensures
            *final(self) == (Pipeline {
                phase: Phase::Done,
                outcome: Some(Outcome::Completed),
                ..*old(self)
            }),
    {
        self.phase = Phase::Done;
        self.outcome = Some(Outcome::Completed);
    }
}

/// A filter whose first result is the boolean `false` ends the unit
/// at once as a success: the pipeline lands in the terminal phase
/// with the skip recorded, bypassing the downloading and uploading
/// phases — and since planning downloads and uploads each demands
/// its phase, no transfer can be requested of a unit so ended.
pub proof fn lemma_filter_false_skips(p: Pipeline, outcome: FilterOutcome)
    requires
        p.phase is Filtering,
        filter_says_stop(outcome),
    ensures
        spec_apply_filter(p, filter_says_stop(outcome)).phase is Done,
        spec_apply_filter(p, filter_says_stop(outcome)).outcome == Some(Outcome::FilteredOut),
        !(spec_apply_filter(p, filter_says_stop(outcome)).phase is Downloading),
        !(spec_apply_filter(p, filter_says_stop(outcome)).phase is Uploading),
{
}

/// A handler that exits unsuccessfully ends the unit with no diff
/// and no upload, whatever it changed in the working directory: the
/// pipeline lands in the terminal phase with the decline recorded,
/// bypassing the diffing and uploading phases.
pub proof fn lemma_handler_decline_skips_upload(p: Pipeline)
    requires
        p.phase is Executing,
    ensures
        spec_handler_finished(p, false).phase is Done,
        spec_handler_finished(p, false).outcome == Some(Outcome::HandlerDeclined),
        !(spec_handler_finished(p, false).phase is Diffing),
        !(spec_handler_finished(p, false).phase is Uploading),
{
}

} // verus!
