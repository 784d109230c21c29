//! What a parse attempt records about itself.
use vstd::prelude::*;
use arrayvec::ArrayVec;
use crate::event::{CanonicalEvent, ov, clone_opt};
use crate::text::owned;

verus! {

/// How many applied (or failed) adaptive rules one parse keeps.
pub const MAX_APPLIED_RULES: usize = 8;

#[derive(Debug, Clone, PartialEq, Eq)]
pub struct ParserId(pub &'static str);

#[derive(Debug, Clone, PartialEq, Eq)]
pub struct RuleId(pub String);

#[derive(Debug, Clone, Copy, PartialEq, Eq, Structural)]
pub enum DetectScore {
    NoMatch,
    CompatibilityMatch,
}

/// Whether an adapter recognised a line, and why.
#[derive(Debug, Clone, PartialEq, Eq)]
pub struct DetectOutcome {
    pub score: DetectScore,
    pub reason: &'static str,
}

impl DetectOutcome {
    pub fn matched(reason: &'static str) -> (r: Self)
        ensures
            r.score == DetectScore::CompatibilityMatch,
            r.reason == reason,
    {
        DetectOutcome { score: DetectScore::CompatibilityMatch, reason }
    }

    pub fn no_match(reason: &'static str) -> (r: Self)
        ensures
            r.score == DetectScore::NoMatch,
            r.reason == reason,
    {
        DetectOutcome { score: DetectScore::NoMatch, reason }
    }

    pub fn is_match(&self) -> (r: bool)
        ensures
            r == (self.score == DetectScore::CompatibilityMatch),
    {
        match self.score {
            DetectScore::CompatibilityMatch => true,
            DetectScore::NoMatch => false,
        }
    }
}

/// One parser tried on a line.
#[derive(Debug, Clone, PartialEq, Eq)]
pub struct ParserAttemptDiagnostic {
    pub parser_id: String,
    pub parser_name: String,
    pub detect_reason: String,
    pub status: String,
    pub error: Option<String>,
}

/// `(parser_id, parser_name, detect_reason, status, error)` of an attempt.
pub open spec fn attempt_view(a: ParserAttemptDiagnostic) -> (
    Seq<char>,
    Seq<char>,
    Seq<char>,
    Seq<char>,
    Option<Seq<char>>,
) {
    (a.parser_id@, a.parser_name@, a.detect_reason@, a.status@, ov(a.error))
}

#[verifier::external_type_specification]
#[verifier::external_body]
#[verifier::reject_recursive_types(T)]
pub struct ExArrayVec<T, const CAP: usize>(ArrayVec<T, CAP>);

/// The rule ids an `ArrayVec` of rule ids holds, in order.
pub uninterp spec fn rule_ids(v: ArrayVec<RuleId, 8>) -> Seq<Seq<char>>;

/// `ArrayVec::new`: an empty vector.
#[verifier::external_body]
fn rule_ids_new() -> (r: ArrayVec<RuleId, 8>)
    ensures
        rule_ids(r) == Seq::<Seq<char>>::empty(),
{
    ArrayVec::new()
}

/// `ArrayVec::try_push`: appends when fewer than 8 items are held, else leaves the vector
/// as it was and fails.
#[verifier::external_body]
fn rule_ids_try_push(v: &mut ArrayVec<RuleId, 8>, id: RuleId) -> (r: bool)
    ensures
        rule_ids(*old(v)).len() < 8 ==> r && rule_ids(*final(v)) == rule_ids(*old(v)).push(id.0@),
        rule_ids(*old(v)).len() >= 8 ==> !r && rule_ids(*final(v)) == rule_ids(*old(v)),
{
    v.try_push(id).is_ok()
}

/// Everything one parse records: the attempts, the parser that matched, the failure
/// reason, and the adaptive rules applied or refused.
#[derive(Debug)]
pub struct ParseDiagnosticsBuffer {
    pub matched_parser_id: Option<String>,
    pub attempts: Vec<ParserAttemptDiagnostic>,
    pub failure_reason: Option<String>,
    pub pairs_truncated: bool,
    pub line_truncated: bool,
    pub applied_rules: ArrayVec<RuleId, 8>,
    pub failed_rules: ArrayVec<RuleId, 8>,
    pub applied_rules_truncated: bool,
    pub failed_rules_truncated: bool,
}

impl ParseDiagnosticsBuffer {
    /// The buffer holds nothing.
    pub open spec fn is_clear(self) -> bool {
        &&& self.matched_parser_id is None
        &&& self.attempts@.len() == 0
        &&& self.failure_reason is None
        &&& !self.pairs_truncated
        &&& !self.line_truncated
        &&& rule_ids(self.applied_rules).len() == 0
        &&& rule_ids(self.failed_rules).len() == 0
        &&& !self.applied_rules_truncated
        &&& !self.failed_rules_truncated
    }

    pub open spec fn attempt_views(self) -> Seq<(Seq<char>, Seq<char>, Seq<char>, Seq<char>, Option<Seq<char>>)> {
        self.attempts@.map_values(|a: ParserAttemptDiagnostic| attempt_view(a))
    }

    pub fn clear(&mut self)
        ensures
            final(self).is_clear(),
    {
        *self = Self::default();
    }

    /// Records an attempt of a parser with the status and error of its event.
    pub fn push_attempt(
        &mut self,
        parser_id: &str,
        parser_name: &str,
        detect_reason: &str,
        event: &CanonicalEvent,
    )
        ensures
            final(self).attempt_views() == old(self).attempt_views().push(
                (parser_id@, parser_name@, detect_reason@, event.parse_status.spec_name(), ov(event.parse_error)),
            ),
            final(self).matched_parser_id == old(self).matched_parser_id,
            final(self).failure_reason == old(self).failure_reason,
            final(self).applied_rules == old(self).applied_rules,
            final(self).failed_rules == old(self).failed_rules,
            final(self).applied_rules_truncated == old(self).applied_rules_truncated,
            final(self).failed_rules_truncated == old(self).failed_rules_truncated,
            final(self).pairs_truncated == old(self).pairs_truncated,
            final(self).line_truncated == old(self).line_truncated,
    {
        let attempt = ParserAttemptDiagnostic {
            parser_id: owned(parser_id),
            parser_name: owned(parser_name),
            detect_reason: owned(detect_reason),
            status: owned(event.parse_status.as_str()),
            error: clone_opt(&event.parse_error),
        };
        let ghost before = self.attempt_views();
        self.attempts.push(attempt);
        assert(self.attempt_views() =~= before.push(attempt_view(attempt)));
    }

    /// Records an applied adaptive rule; past the limit only the truncation flag is set.
    pub fn push_applied_rule(&mut self, rule_id: RuleId)
        ensures
            rule_ids(old(self).applied_rules).len() < 8 ==> rule_ids(final(self).applied_rules)
                == rule_ids(old(self).applied_rules).push(rule_id.0@)
                && final(self).applied_rules_truncated == old(self).applied_rules_truncated,
            rule_ids(old(self).applied_rules).len() >= 8 ==> rule_ids(final(self).applied_rules)
                == rule_ids(old(self).applied_rules) && final(self).applied_rules_truncated,
            final(self).failed_rules == old(self).failed_rules,
            final(self).failed_rules_truncated == old(self).failed_rules_truncated,
            final(self).attempts == old(self).attempts,
            final(self).matched_parser_id == old(self).matched_parser_id,
            final(self).failure_reason == old(self).failure_reason,
            final(self).pairs_truncated == old(self).pairs_truncated,
            final(self).line_truncated == old(self).line_truncated,
    {
        if !rule_ids_try_push(&mut self.applied_rules, rule_id) {
            self.applied_rules_truncated = true;
        }
    }

    /// Records an adaptive rule whose value could not be converted; past the limit only
    /// the truncation flag is set.
    pub fn push_failed_rule(&mut self, rule_id: RuleId)
        ensures
            rule_ids(old(self).failed_rules).len() < 8 ==> rule_ids(final(self).failed_rules)
                == rule_ids(old(self).failed_rules).push(rule_id.0@)
                && final(self).failed_rules_truncated == old(self).failed_rules_truncated,
            rule_ids(old(self).failed_rules).len() >= 8 ==> rule_ids(final(self).failed_rules)
                == rule_ids(old(self).failed_rules) && final(self).failed_rules_truncated,
            final(self).applied_rules == old(self).applied_rules,
            final(self).applied_rules_truncated == old(self).applied_rules_truncated,
            final(self).attempts == old(self).attempts,
            final(self).matched_parser_id == old(self).matched_parser_id,
            final(self).failure_reason == old(self).failure_reason,
            final(self).pairs_truncated == old(self).pairs_truncated,
            final(self).line_truncated == old(self).line_truncated,
    {
        if !rule_ids_try_push(&mut self.failed_rules, rule_id) {
            self.failed_rules_truncated = true;
        }
    }
}

impl Default for ParseDiagnosticsBuffer {
    fn default() -> (r: Self)
        ensures
            r.is_clear(),
    {
        ParseDiagnosticsBuffer {
            matched_parser_id: None,
            attempts: Vec::new(),
            failure_reason: None,
            pairs_truncated: false,
            line_truncated: false,
            applied_rules: rule_ids_new(),
            failed_rules: rule_ids_new(),
            applied_rules_truncated: false,
            failed_rules_truncated: false,
        }
    }
}

/// The event a parse produced.
#[derive(Debug)]
pub struct ParseResult {
    pub event: CanonicalEvent,
}

} // verus!
