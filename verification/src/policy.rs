//! Execution limits and human route aliases of the routing policy.

use vstd::prelude::*;
use vstd::string::*;

use crate::route::{is_route_text, RouteRef};
use crate::text::{decimal, decimal_string, is_safe_id, is_safe_identifier};
use crate::order::text_lt;

verus! {

/// Explicit recovery limits used by the run coordinator.
#[derive(Debug, Clone, Copy, PartialEq, Eq, Structural)]
pub struct ExecutionPolicyV2 {
    /// Closed version, 2.
    pub schema_version: u16,
    /// Maximum invocations, the first one included.
    pub max_attempts: u32,
    /// Largest `Retry-After` that can be accepted.
    pub max_retry_after_ms: u64,
    /// Maximum number of route changes.
    pub max_handoffs: u32,
}

/// Alias name outside the vocabulary, or a text that is neither alias nor route.
#[derive(Debug, Clone, PartialEq, Eq)]
pub enum AliasError {
    /// Name outside the alias vocabulary.
    InvalidAlias {
        /// Alias rejected.
        alias: String,
    },
    /// Neither a known alias nor a valid route.
    Unknown {
        /// Text asked for.
        value: String,
        /// Aliases available.
        aliases: Vec<String>,
    },
}

/// Loading or migration failure of a policy that concerns its contents.
#[derive(Debug, Clone, PartialEq, Eq)]
pub enum PolicyError {
    /// The text is not valid TOML; the parser's message.
    Parse(String),
    /// No version declared.
    MissingSchemaVersion,
    /// A v1 document needs explicit migration.
    MigrationRequired,
    /// Any other unknown version.
    SchemaVersion {
        /// Version received.
        received: i64,
    },
    /// Invalid setting.
    InvalidSetting {
        /// Field.
        field: &'static str,
        /// Value.
        value: String,
    },
    /// Invalid alias.
    Alias(AliasError),
}

/// The limits of an execution policy are coherent.
pub open spec fn execution_valid(p: ExecutionPolicyV2) -> bool {
    p.schema_version == 2 && p.max_attempts > 0 && p.max_retry_after_ms > 0
}

/// The setting an execution policy gets wrong, as its field and value.
pub open spec fn execution_problem(p: ExecutionPolicyV2) -> Option<(Seq<char>, Seq<char>)> {
    if p.schema_version != 2 {
        Some(("execution.schema_version"@, decimal(p.schema_version as nat)))
    } else if p.max_attempts == 0 || p.max_retry_after_ms == 0 {
        Some((
            "execution.attempts_or_retry_after"@,
            "attempts="@ + decimal(p.max_attempts as nat) + ", retry_after_ms="@ + decimal(p.max_retry_after_ms as nat),
        ))
    } else {
        None
    }
}

impl ExecutionPolicyV2 {
    /// Revalidates a deserialised document.
    pub fn validate(self) -> (r: Result<Self, PolicyError>)
        ensures
            r is Ok <==> execution_valid(self),
            r matches Ok(p) ==> p == self,
            r matches Err(e) ==> (e matches PolicyError::InvalidSetting { field, value }
                && Some((field@, value@)) == execution_problem(self)),
    {
        proof {
            reveal_strlit("attempts=");
            reveal_strlit(", retry_after_ms=");
        }
        if self.schema_version != 2 {
            return Err(PolicyError::InvalidSetting {
                field: "execution.schema_version",
                value: decimal_string(self.schema_version as u64),
            });
        }
        if self.max_attempts == 0 || self.max_retry_after_ms == 0 {
            let mut value = String::from_str("attempts=");
            value.append(decimal_string(self.max_attempts as u64).as_str());
            value.append(", retry_after_ms=");
            value.append(decimal_string(self.max_retry_after_ms).as_str());
            return Err(PolicyError::InvalidSetting { field: "execution.attempts_or_retry_after", value });
        }
        Ok(self)
    }

    /// Builds a validated policy without filling any implicit value.
    pub fn new(max_attempts: u32, max_retry_after_ms: u64, max_handoffs: u32) -> (r: Result<Self, PolicyError>)
        ensures
            r is Ok <==> max_attempts > 0 && max_retry_after_ms > 0,
            r matches Ok(p) ==> p == (ExecutionPolicyV2 { schema_version: 2, max_attempts, max_retry_after_ms, max_handoffs }),
            r matches Err(e) ==> (e matches PolicyError::InvalidSetting { field, value }
                && field@ == "execution.attempts_or_retry_after"@
                && value@ == "attempts="@ + decimal(max_attempts as nat) + ", retry_after_ms="@ + decimal(max_retry_after_ms as nat)),
    {
        let policy = ExecutionPolicyV2 { schema_version: 2, max_attempts, max_retry_after_ms, max_handoffs };
        policy.validate()
    }
}

/// Human aliases resolved without heuristics.
#[derive(Debug, Clone, PartialEq, Eq)]
pub struct AliasCatalog {
    aliases: Vec<(String, RouteRef)>,
}

/// Every alias name is a safe identifier.
pub open spec fn aliases_valid(aliases: Seq<(String, RouteRef)>) -> bool {
    forall|i: int| 0 <= i < aliases.len() ==> #[trigger] is_safe_id(aliases[i].0@)
}

/// The alias names, in catalog order.
pub open spec fn alias_names(aliases: Seq<(String, RouteRef)>) -> Seq<Seq<char>> {
    aliases.map_values(|p: (String, RouteRef)| p.0@)
}

/// The alias names ascend strictly, as the keys of an ordered map do.
pub open spec fn names_ascending(aliases: Seq<(String, RouteRef)>) -> bool {
    forall|i: int, j: int| 0 <= i < j < aliases.len() ==> text_lt((#[trigger] aliases[i]).0@, (#[trigger] aliases[j]).0@)
}

impl View for AliasCatalog {
    type V = Seq<(String, RouteRef)>;

    closed spec fn view(&self) -> Seq<(String, RouteRef)> {
        self.aliases@
    }
}

impl AliasCatalog {
    /// Validates names, in key order, and builds the catalog from the entries
    /// of an alias map: names come in ascending order, once each. The first
    /// unsafe name in that order is the one reported.
    pub fn new(aliases: Vec<(String, RouteRef)>) -> (r: Result<AliasCatalog, AliasError>)
        requires
            names_ascending(aliases@),
        ensures
            r is Ok <==> aliases_valid(aliases@),
            r matches Ok(c) ==> c@ == aliases@ && names_ascending(c@),
            r matches Err(e) ==> e is InvalidAlias && exists|i: int| 0 <= i < aliases@.len()
                && !is_safe_id(#[trigger] aliases@[i].0@) && e->InvalidAlias_alias@ == aliases@[i].0@
                && forall|j: int| 0 <= j < i ==> is_safe_id(#[trigger] aliases@[j].0@),
    {
        let mut i: usize = 0;
        while i < aliases.len()
            invariant
                i <= aliases@.len(),
                forall|j: int| 0 <= j < i ==> #[trigger] is_safe_id(aliases@[j].0@),
            decreases aliases@.len() - i,
        {
            if !is_safe_identifier(aliases[i].0.as_str()) {
                let alias = aliases[i].0.clone();
                return Err(AliasError::InvalidAlias { alias });
            }
            i = i + 1;
        }
        Ok(AliasCatalog { aliases })
    }

    /// Resolves an exact alias first, then a literal route.
    pub fn resolve(&self, value: &str) -> (r: Result<RouteRef, AliasError>)
        ensures
            alias_names(self@).contains(value@) ==> (r matches Ok(route) && exists|i: int| 0 <= i < self@.len()
                && #[trigger] self@[i].0@ == value@ && route == self@[i].1 && forall|j: int| 0 <= j < i ==> #[trigger] self@[j].0@ != value@),
            !alias_names(self@).contains(value@) ==> (r is Ok <==> is_route_text(value@)),
            !alias_names(self@).contains(value@) ==> (r matches Ok(route) ==> route@ == value@),
            r matches Err(e) ==> e is Unknown && e->Unknown_value@ == value@ && e->Unknown_aliases@.map_values(|a: String| a@) == alias_names(self@),
    {
        let key = String::from_str(value);
        let mut i: usize = 0;
        while i < self.aliases.len()
            invariant
                i <= self@.len(),
                key@ == value@,
                forall|j: int| 0 <= j < i ==> #[trigger] self@[j].0@ != value@,
            decreases self@.len() - i,
        {
            if self.aliases[i].0 == key {
                proof {
                    assert(alias_names(self@)[i as int] == value@);
                }
                return Ok(self.aliases[i].1.clone());
            }
            i = i + 1;
        }
        proof {
            if alias_names(self@).contains(value@) {
                let j = choose|j: int| 0 <= j < alias_names(self@).len() && alias_names(self@)[j] == value@;
                assert(self@[j].0@ == value@);
            }
        }
        match RouteRef::parse(value) {
            Some(route) => Ok(route),
            None => {
                let mut names: Vec<String> = Vec::new();
                let mut k: usize = 0;
                while k < self.aliases.len()
                    invariant
                        k <= self@.len(),
                        names@.map_values(|a: String| a@) == alias_names(self@).subrange(0, k as int),
                    decreases self@.len() - k,
                {
                    let ghost prev = names@;
                    let name = self.aliases[k].0.clone();
                    assert(name@ == self@[k as int].0@);
                    names.push(name);
                    assert(names@ == prev.push(name));
                    assert(names@.map_values(|a: String| a@) =~= prev.map_values(|a: String| a@).push(name@));
                    assert(names@.map_values(|a: String| a@) =~= alias_names(self@).subrange(0, k + 1));
                    k = k + 1;
                }
                assert(alias_names(self@).subrange(0, self@.len() as int) =~= alias_names(self@));
                Err(AliasError::Unknown { value: key, aliases: names })
            },
        }
    }
}

/// The integer `schema_version` at the top of a TOML document, or `None` when
/// it is absent or not an integer; an error is the parser's message.
pub uninterp spec fn toml_schema_version(text: Seq<char>) -> Result<Option<i64>, Seq<char>>;

/// Parses the text with `toml::from_str` into a `toml::Value` and reads its
/// top-level `schema_version` with `Value::get` and `Value::as_integer`; a
/// parse failure becomes the error's `Display` text. The contract names the
/// outcome and states nothing else of it.
#[verifier::external_body]
fn read_schema_version(text: &str) -> (r: Result<Option<i64>, String>)
    ensures
        match (r, toml_schema_version(text@)) {
            (Ok(a), Ok(b)) => a == b,
            (Err(m), Err(n)) => m@ == n,
            _ => false,
        },
{
    match toml::from_str::<toml::Value>(text) {
        Ok(value) => Ok(value.get("schema_version").and_then(toml::Value::as_integer)),
        Err(error) => Err(error.to_string()),
    }
}

/// The policy loads only as version 2; a version 1 needs an explicit migration.
pub fn version_verdict(parsed: Result<Option<i64>, String>) -> (r: Result<(), PolicyError>)
    ensures
        r is Ok <==> parsed == Ok::<Option<i64>, String>(Some(2i64)),
        parsed matches Err(m) ==> r == Err::<(), PolicyError>(PolicyError::Parse(m)),
        parsed == Ok::<Option<i64>, String>(None) ==> r == Err::<(), PolicyError>(PolicyError::MissingSchemaVersion),
        parsed == Ok::<Option<i64>, String>(Some(1i64)) ==> r == Err::<(), PolicyError>(PolicyError::MigrationRequired),
        (parsed matches Ok(Some(v)) && v != 1 && v != 2) ==> (r matches Err(PolicyError::SchemaVersion { received }) && parsed == Ok::<Option<i64>, String>(Some(received))),
{
    match parsed {
        Err(m) => Err(PolicyError::Parse(m)),
        Ok(None) => Err(PolicyError::MissingSchemaVersion),
        Ok(Some(v)) => {
            if v == 1 {
                Err(PolicyError::MigrationRequired)
            } else if v != 2 {
                Err(PolicyError::SchemaVersion { received: v })
            } else {
                Ok(())
            }
        },
    }
}

/// Checks the declared version of a policy text before its contents are read.
pub fn check_policy_version(text: &str) -> (r: Result<(), PolicyError>)
    ensures
        r is Ok <==> toml_schema_version(text@) == Ok::<Option<i64>, Seq<char>>(Some(2i64)),
        toml_schema_version(text@) matches Err(m) ==> r matches Err(PolicyError::Parse(e)) && e@ == m,
        toml_schema_version(text@) == Ok::<Option<i64>, Seq<char>>(None) ==> r == Err::<(), PolicyError>(PolicyError::MissingSchemaVersion),
        toml_schema_version(text@) == Ok::<Option<i64>, Seq<char>>(Some(1i64)) ==> r == Err::<(), PolicyError>(PolicyError::MigrationRequired),
        (toml_schema_version(text@) matches Ok(Some(v)) && v != 1 && v != 2) ==> (r matches Err(PolicyError::SchemaVersion { received }) && toml_schema_version(text@) == Ok::<Option<i64>, Seq<char>>(Some(received))),
{
    version_verdict(read_schema_version(text))
}

/// A legacy document must declare version 1.
pub fn check_legacy_version(version: u16) -> (r: Result<(), PolicyError>)
    ensures
        r is Ok <==> version == 1,
        r matches Err(e) ==> e == (PolicyError::SchemaVersion { received: version as i64 }),
{
    if version != 1 {
        return Err(PolicyError::SchemaVersion { received: version as i64 });
    }
    Ok(())
}

/// The new values a v1 migration cannot invent; each threshold is given with
/// its text and whether it is finite within `0..=100`.
#[derive(Debug, Clone, PartialEq, Eq)]
pub struct MigrationSettingsFacts {
    /// Text of the quality threshold.
    pub minimum_quality_text: String,
    /// The quality threshold is finite within `0..=100`.
    pub minimum_quality_valid: bool,
    /// Text of the margin below `Qmax`.
    pub selection_margin_text: String,
    /// The margin is finite within `0..=100`.
    pub selection_margin_valid: bool,
    /// Minimum coverage.
    pub minimum_coverage: u8,
    /// Maximum evidence age.
    pub max_evidence_age_seconds: u64,
    /// Unlisted fallbacks.
    pub allow_any_eligible: bool,
    /// Unverified quality.
    pub allow_unverified_quality: bool,
    /// Maximum invocations, the first one included.
    pub max_attempts: u32,
    /// Largest explicit wait accepted.
    pub max_retry_after_ms: u64,
    /// Maximum handoffs; zero disables them.
    pub max_handoffs: u32,
}

/// The settings are coherent.
pub open spec fn settings_valid(s: MigrationSettingsFacts) -> bool {
    &&& s.minimum_quality_valid
    &&& s.selection_margin_valid
    &&& s.minimum_coverage <= 100
    &&& s.max_evidence_age_seconds > 0
    &&& s.max_attempts > 0
    &&& s.max_retry_after_ms > 0
}

impl MigrationSettingsFacts {
    /// Checks the thresholds, then coverage and age, then the execution limits;
    /// the error names the first invalid setting.
    pub fn validate(&self) -> (r: Result<(), PolicyError>)
        ensures
            r is Ok <==> settings_valid(*self),
            !self.minimum_quality_valid ==> r == Err::<(), PolicyError>(PolicyError::InvalidSetting {
                field: "minimum_quality",
                value: self.minimum_quality_text,
            }),
            self.minimum_quality_valid && !self.selection_margin_valid ==> r == Err::<(), PolicyError>(PolicyError::InvalidSetting {
                field: "selection_margin",
                value: self.selection_margin_text,
            }),
            self.minimum_quality_valid && self.selection_margin_valid && (self.minimum_coverage > 100
                || self.max_evidence_age_seconds == 0) ==> (r matches Err(PolicyError::InvalidSetting { field, value })
                && field == "coverage_or_age" && value@ == "coverage="@ + decimal(self.minimum_coverage as nat)
                + ", age="@ + decimal(self.max_evidence_age_seconds as nat)),
            r matches Err(e) ==> e is InvalidSetting,
    {
        if !self.minimum_quality_valid {
            return Err(PolicyError::InvalidSetting { field: "minimum_quality", value: self.minimum_quality_text.clone() });
        }
        if !self.selection_margin_valid {
            return Err(PolicyError::InvalidSetting { field: "selection_margin", value: self.selection_margin_text.clone() });
        }
        if self.minimum_coverage > 100 || self.max_evidence_age_seconds == 0 {
            let mut value = String::from_str("coverage=");
            value.append(decimal_string(self.minimum_coverage as u64).as_str());
            value.append(", age=");
            value.append(decimal_string(self.max_evidence_age_seconds).as_str());
            return Err(PolicyError::InvalidSetting { field: "coverage_or_age", value });
        }
        match ExecutionPolicyV2::new(self.max_attempts, self.max_retry_after_ms, self.max_handoffs) {
            Ok(_) => Ok(()),
            Err(e) => Err(e),
        }
    }

    /// The execution policy these settings declare.
    pub fn execution_policy(&self) -> (r: Result<ExecutionPolicyV2, PolicyError>)
        ensures
            r is Ok <==> self.max_attempts > 0 && self.max_retry_after_ms > 0,
            r matches Ok(p) ==> p == (ExecutionPolicyV2 {
                schema_version: 2,
                max_attempts: self.max_attempts,
                max_retry_after_ms: self.max_retry_after_ms,
                max_handoffs: self.max_handoffs,
            }),
    {
        ExecutionPolicyV2::new(self.max_attempts, self.max_retry_after_ms, self.max_handoffs)
    }
}

/// Checks the contents of a version 2 policy: its settings, then its aliases.
pub fn validate_policy(settings: &MigrationSettingsFacts, aliases: Vec<(String, RouteRef)>) -> (r: Result<AliasCatalog, PolicyError>)
    requires
        names_ascending(aliases@),
    ensures
        r is Ok <==> settings_valid(*settings) && aliases_valid(aliases@),
        r matches Ok(c) ==> c@ == aliases@,
        r matches Err(PolicyError::Alias(e)) ==> settings_valid(*settings) && !aliases_valid(aliases@) && e is InvalidAlias
            && exists|i: int| 0 <= i < aliases@.len() && !is_safe_id(#[trigger] aliases@[i].0@)
                && e->InvalidAlias_alias@ == aliases@[i].0@ && forall|j: int| 0 <= j < i ==> is_safe_id(#[trigger] aliases@[j].0@),
        !settings_valid(*settings) ==> (r matches Err(e) && e is InvalidSetting),
{
    settings.validate()?;
    match AliasCatalog::new(aliases) {
        Ok(c) => Ok(c),
        Err(e) => Err(PolicyError::Alias(e)),
    }
}

} // verus!
