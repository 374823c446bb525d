//! The initialized application state: settings with their patterns
//! and filter compiled once, plus the handler command line. One
//! `App` serves every unit of work in the process.

use vstd::prelude::*;
use crate::batch::EventBatch;
use crate::batch::Notification;
use crate::batch::batch_result_ok;
use crate::batch::batch_units;
use crate::conf::ConfigError;
use crate::conf::Settings;
use crate::jq::FilterOutcome;
use crate::jq::compile_filter;
use crate::jq::first_outcome;
use crate::jq::parse_json;
use crate::pattern::KeyPattern;
use crate::store::ObjectRecord;
use crate::store::objects_json;

verus! {

/// Application state derived from the settings: compiled key
/// patterns, the compiled execution filter, and the handler command
/// split into program and arguments.
pub struct App {
    /// The settings this state was built from.
    pub settings: Settings,
    /// The compiled key-match pattern; absent means every key
    /// matches.
    pub match_key_pattern: Option<KeyPattern>,
    /// The compiled pull patterns; empty means everything under the
    /// prefix is pulled.
    pub pull_match_key_patterns: Vec<KeyPattern>,
    /// The compiled execution filter, when one is configured.
    pub execution_filter: Option<jaq_interpret::Filter>,
    /// The handler program.
    pub handler_command_program: String,
    /// The handler program's arguments.
    pub handler_command_args: Vec<String>,
}

impl App {
    /// The compiled patterns mirror the settings they came from.
    pub open spec fn wf(self) -> bool {
        &&& match (self.settings.match_key, self.match_key_pattern) {
            (Option::None, Option::None) => true,
            (Option::Some(s), Option::Some(p)) => p.pattern() == s@,
            _ => false,
        }
        &&& self.pull_match_key_patterns@.len() == self.settings.pull_match_keys@.len()
        &&& forall|i: int|
            0 <= i < self.pull_match_key_patterns@.len()
                ==> (#[trigger] self.pull_match_key_patterns@[i]).pattern()
                == self.settings.pull_match_keys@[i]@
    }

    /// Builds the application state. The handler command must be
    /// non-empty; the filter expression, already resolved from its
    /// source, must compile. Every pattern string compiles.
    pub fn new(settings: Settings, handler_command: Vec<String>, filter_expr: Option<String>) -> (r:
        Result<App, ConfigError>)
        ensures
            (handler_command@.len() == 0) <==> (r matches Err(
                ConfigError::EmptyHandlerCommand,
            )),
            (handler_command@.len() > 0 && filter_expr is None) ==> r is Ok,
            (r matches Err(ConfigError::FilterCompile(_))) ==> (filter_expr is Some
                && handler_command@.len() > 0),
            r is Ok ==> {
                &&& (r->Ok_0).wf()
                &&& (r->Ok_0).settings == settings
                &&& (r->Ok_0).handler_command_program == handler_command@[0]
                &&& (r->Ok_0).handler_command_args@ == handler_command@.skip(1)
                &&& ((r->Ok_0).execution_filter is Some <==> filter_expr is Some)
            },
    {
        if handler_command.len() == 0 {
            return Err(ConfigError::EmptyHandlerCommand);
        }
        let match_key_pattern = match &settings.match_key {
            Option::None => Option::None,
            Option::Some(s) => Option::Some(KeyPattern::compile(s.as_str())),
        };
        let mut pull_match_key_patterns: Vec<KeyPattern> = Vec::new();
        let mut i: usize = 0;
        while i < settings.pull_match_keys.len()
            invariant
                i <= settings.pull_match_keys@.len(),
                pull_match_key_patterns@.len() == i,
                forall|j: int|
                    0 <= j < i ==> (#[trigger] pull_match_key_patterns@[j]).pattern()
                        == settings.pull_match_keys@[j]@,
            decreases settings.pull_match_keys@.len() - i,
        {
            pull_match_key_patterns.push(KeyPattern::compile(settings.pull_match_keys[i].as_str()));
            i = i + 1;
        }
        let execution_filter = match &filter_expr {
            Option::None => Option::None,
            Option::Some(expr) => match compile_filter(expr.as_str()) {
                Ok(f) => Option::Some(f),
                Err(e) => {
                    return Err(ConfigError::FilterCompile(e));
                },
            },
        };
        let handler_command_program = handler_command[0].clone();
        let mut handler_command_args: Vec<String> = Vec::new();
        let mut k: usize = 1;
        while k < handler_command.len()
            invariant
                1 <= k <= handler_command@.len(),
                handler_command_args@.len() == k - 1,
                forall|j: int|
                    0 <= j < k - 1 ==> #[trigger] handler_command_args@[j] == handler_command@[j
                        + 1],
            decreases handler_command@.len() - k,
        {
            handler_command_args.push(handler_command[k].clone());
            k = k + 1;
        }
        proof {
            assert(handler_command_args@ =~= handler_command@.skip(1));
        }
        Ok(
            App {
                settings,
                match_key_pattern,
                pull_match_key_patterns,
                execution_filter,
                handler_command_program,
                handler_command_args,
            },
        )
    }

    /// Groups raw notifications into deduplicated units of work in
    /// ascending (bucket, prefix) order, dropping notifications that
    /// lack a key or a bucket or whose key does not match; never
    /// fails.
    pub fn batch_events(&self, records: &Vec<Notification>) -> (r: Vec<EventBatch>)
        ensures
            batch_result_ok(
                r@,
                records@,
                self.match_key_pattern,
                self.settings.pull_parent_dirs as int,
            ),
    {
        batch_units(records, &self.match_key_pattern, self.settings.pull_parent_dirs)
    }

    /// Serializes the listing and takes the execution filter's first
    /// result. With no filter configured the outcome is `NoFilter`;
    /// `Err` arises only when the serialized listing cannot be read
    /// back as a JSON document, and fails the unit of work.
    pub fn evaluate_execution_filter(&self, objects: &Vec<ObjectRecord>) -> (r: Result<
        FilterOutcome,
        String,
    >)
        ensures
            self.execution_filter is None ==> (r matches Ok(o) && o is NoFilter),
            (self.execution_filter is Some && r is Ok) ==> !((r->Ok_0) is NoFilter),
    {
        match &self.execution_filter {
            Option::None => Ok(FilterOutcome::NoFilter),
            Option::Some(f) => {
                let doc = objects_json(objects);
                match parse_json(doc.as_str()) {
                    Ok(v) => Ok(first_outcome(f, v)),
                    Err(e) => Err(e),
                }
            },
        }
    }
}

} // verus!
