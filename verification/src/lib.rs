pub mod json;
pub mod line;
pub mod scope;
pub mod value;

use vstd::prelude::*;

use crate::line::{line_entries, line_text, opt_str_view, render_line};
use crate::scope::{opt_chain_view, scopes_view, walk_scope_chain, ScopeRef};
use crate::value::Field;

verus! {

/// Relies on chrono::Utc::now and chrono::DateTime::to_rfc3339_opts: the
/// moment of the call in UTC, rendered as RFC 3339 with nanosecond precision
/// and a trailing "Z". The value depends on the wall clock, so nothing is
/// claimed of it.
#[verifier::external_body]
fn now_rfc3339() -> String {
    chrono::Utc::now().to_rfc3339_opts(chrono::SecondsFormat::Nanos, true)
}

/// Configuration for rendering one structured log event, together with its
/// chain of active scopes, as a single flat JSON object on one line.
///
/// The two flags are fixed at construction: whether the line carries a
/// `timestamp` entry and whether it carries a `target` entry.
pub struct SolinkJsonFormat {
    add_timestamp: bool,
    add_target: bool,
}

impl SolinkJsonFormat {
    /// Whether lines carry a `timestamp` entry.
    pub closed spec fn timestamp_enabled(&self) -> bool {
        self.add_timestamp
    }

    /// Whether lines carry a `target` entry.
    pub closed spec fn target_enabled(&self) -> bool {
        self.add_target
    }

    /// The target value as this configuration admits it: the event's target
    /// when enabled, absent otherwise.
    pub open spec fn target_view(&self, target: Seq<char>) -> Option<Seq<char>> {
        if self.target_enabled() {
            Option::Some(target)
        } else {
            Option::None
        }
    }

    pub fn new() -> (s: Self)
        ensures
            s.timestamp_enabled(),
            s.target_enabled(),
    {
        Self { add_timestamp: true, add_target: true }
    }

    /// Set whether to add a timestamp to the log.
    pub fn with_timestamp(self, add_timestamp: bool) -> (s: Self)
        ensures
            s.timestamp_enabled() == add_timestamp,
            s.target_enabled() == self.target_enabled(),
    {
        Self { add_timestamp, ..self }
    }

    /// Set whether to add the target to the log.
    pub fn with_target(self, add_target: bool) -> (s: Self)
        ensures
            s.timestamp_enabled() == self.timestamp_enabled(),
            s.target_enabled() == add_target,
    {
        Self { add_target, ..self }
    }

    /// Serialize one event, together with its chain of active scopes, as one
    /// flat JSON object on one line. When the timestamp is enabled it is read
    /// from the wall clock at the moment of the call, so the line is pinned
    /// down up to that one value; with the timestamp disabled the line is
    /// pinned down exactly.
    pub fn format_event(
        &self,
        level: &str,
        target: &str,
        event_fields: &Vec<Field>,
        innermost: Option<&ScopeRef>,
    ) -> (line: String)
        ensures
            self.timestamp_enabled() ==> exists|ts: Seq<char>|
                line@ == line_text(
                    line_entries(
                        Option::Some(ts),
                        level@,
                        self.target_view(target@),
                        event_fields@,
                        opt_chain_view(innermost),
                    ),
                ),
            !self.timestamp_enabled() ==> line@ == line_text(
                line_entries(
                    Option::None,
                    level@,
                    self.target_view(target@),
                    event_fields@,
                    opt_chain_view(innermost),
                ),
            ),
    {
        let scopes = walk_scope_chain(innermost);
        let target_opt: Option<&str> = if self.add_target {
            Option::Some(target)
        } else {
            Option::None
        };
        let ghost tgt = self.target_view(target@);
        if self.add_timestamp {
            let ts: String = now_rfc3339();
            let line = render_line(
                Option::Some(ts.as_str()),
                level,
                target_opt,
                event_fields,
                &scopes,
            );
            proof {
                assert(scopes_view(scopes@) == opt_chain_view(innermost));
                assert(opt_str_view(target_opt) == tgt);
                assert(line@ == line_text(
                    line_entries(
                        Option::Some(ts@),
                        level@,
                        tgt,
                        event_fields@,
                        opt_chain_view(innermost),
                    ),
                ));
                assert(exists|w: Seq<char>|
                    line@ == line_text(
                        line_entries(
                            Option::Some(w),
                            level@,
                            tgt,
                            event_fields@,
                            opt_chain_view(innermost),
                        ),
                    ));
            }
            line
        } else {
            let line = render_line(Option::None, level, target_opt, event_fields, &scopes);
            proof {
                assert(opt_str_view(target_opt) == tgt);
            }
            line
        }
    }
}

impl Default for SolinkJsonFormat {
    fn default() -> (s: Self)
        ensures
            s.timestamp_enabled(),
            s.target_enabled(),
    {
        Self::new()
    }
}

} // verus!
