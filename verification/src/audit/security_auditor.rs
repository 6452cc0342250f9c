//! The security audit: a fixed set of checks, their findings, and the
//! report that sums them up.

use vstd::prelude::*;

verus! {

/// What a check is about.
#[derive(Debug, Clone, Copy, PartialEq, Eq, Structural)]
pub enum CheckCategory {
    Cryptography,
    Memory,
    Network,
    Authentication,
    Authorization,
    InputValidation,
    Configuration,
    Dependencies,
    Performance,
    Compliance,
}

/// How grave a finding is. The order of the variants is the order of gravity.
#[derive(Debug, Clone, Copy, PartialEq, Eq, PartialOrd, Ord, Hash, Structural)]
pub enum Severity {
    Info,
    Low,
    Medium,
    High,
    Critical,
}

/// The rank of a severity: 0 for `Info` up to 4 for `Critical`.
pub open spec fn severity_rank(severity: Severity) -> int {
    match severity {
        Severity::Info => 0,
        Severity::Low => 1,
        Severity::Medium => 2,
        Severity::High => 3,
        Severity::Critical => 4,
    }
}

impl Severity {
    /// The rank of the severity.
    pub fn rank(&self) -> (out: u8)
        ensures
            out == severity_rank(*self),
    {
        match self {
            Severity::Info => 0,
            Severity::Low => 1,
            Severity::Medium => 2,
            Severity::High => 3,
            Severity::Critical => 4,
        }
    }

    /// Whether the severity is `other` or graver.
    pub fn at_least(&self, other: Severity) -> (out: bool)
        ensures
            out == (severity_rank(*self) >= severity_rank(other)),
    {
        self.rank() >= other.rank()
    }

    /// The severity's name in capitals, as plain text.
    pub open spec fn label_text(&self) -> Seq<char> {
        match self {
            Severity::Info => "INFO"@,
            Severity::Low => "LOW"@,
            Severity::Medium => "MEDIUM"@,
            Severity::High => "HIGH"@,
            Severity::Critical => "CRITICAL"@,
        }
    }

    /// The severity's name in capitals.
    pub fn label(&self) -> (out: String)
        ensures
            out@ == self.label_text(),
    {
        match self {
            Severity::Info => "INFO".to_string(),
            Severity::Low => "LOW".to_string(),
            Severity::Medium => "MEDIUM".to_string(),
            Severity::High => "HIGH".to_string(),
            Severity::Critical => "CRITICAL".to_string(),
        }
    }
}

impl CheckCategory {
    /// The category's name, as plain text.
    pub open spec fn label_text(&self) -> Seq<char> {
        match self {
            CheckCategory::Cryptography => "Cryptography"@,
            CheckCategory::Memory => "Memory"@,
            CheckCategory::Network => "Network"@,
            CheckCategory::Authentication => "Authentication"@,
            CheckCategory::Authorization => "Authorization"@,
            CheckCategory::InputValidation => "Input Validation"@,
            CheckCategory::Configuration => "Configuration"@,
            CheckCategory::Dependencies => "Dependencies"@,
            CheckCategory::Performance => "Performance"@,
            CheckCategory::Compliance => "Compliance"@,
        }
    }

    /// The category's name.
    pub fn label(&self) -> (out: String)
        ensures
            out@ == self.label_text(),
    {
        match self {
            CheckCategory::Cryptography => "Cryptography".to_string(),
            CheckCategory::Memory => "Memory".to_string(),
            CheckCategory::Network => "Network".to_string(),
            CheckCategory::Authentication => "Authentication".to_string(),
            CheckCategory::Authorization => "Authorization".to_string(),
            CheckCategory::InputValidation => "Input Validation".to_string(),
            CheckCategory::Configuration => "Configuration".to_string(),
            CheckCategory::Dependencies => "Dependencies".to_string(),
            CheckCategory::Performance => "Performance".to_string(),
            CheckCategory::Compliance => "Compliance".to_string(),
        }
    }
}

/// What a check found.
pub struct SecurityFinding {
    pub id: String,
    pub check_name: String,
    pub category: CheckCategory,
    pub severity: Severity,
    pub title: String,
    pub description: String,
    pub recommendation: String,
    pub affected_components: Vec<String>,
    pub cve_references: Vec<String>,
    pub timestamp: u64,
    pub metadata: Vec<(String, String)>,
}

/// A finding as plain values.
pub struct FindingView {
    pub id: Seq<char>,
    pub check_name: Seq<char>,
    pub category: CheckCategory,
    pub severity: Severity,
    pub title: Seq<char>,
    pub description: Seq<char>,
    pub recommendation: Seq<char>,
    pub affected_components: Seq<Seq<char>>,
    pub cve_references: Seq<Seq<char>>,
    pub timestamp: u64,
    pub metadata: Seq<(Seq<char>, Seq<char>)>,
}

/// The texts of `names`, one for one.
pub open spec fn texts(names: Seq<String>) -> Seq<Seq<char>> {
    Seq::new(names.len(), |i: int| names[i]@)
}

impl View for SecurityFinding {
    type V = FindingView;

    open spec fn view(&self) -> FindingView {
        FindingView {
            id: self.id@,
            check_name: self.check_name@,
            category: self.category,
            severity: self.severity,
            title: self.title@,
            description: self.description@,
            recommendation: self.recommendation@,
            affected_components: texts(self.affected_components@),
            cve_references: texts(self.cve_references@),
            timestamp: self.timestamp,
            metadata: Seq::new(
                self.metadata@.len(),
                |i: int| (self.metadata@[i].0@, self.metadata@[i].1@),
            ),
        }
    }
}

/// The category and severity of a finding.
pub type Profile = (CheckCategory, Severity);

/// The profile of a finding.
pub open spec fn profile_of(finding: SecurityFinding) -> Profile {
    (finding.category, finding.severity)
}

/// The profiles of a list of findings.
pub open spec fn profiles_of(findings: Seq<SecurityFinding>) -> Seq<Profile> {
    findings.map_values(|f: SecurityFinding| profile_of(f))
}

fn copy_strings(source: &Vec<String>) -> (out: Vec<String>)
    ensures
        out@ == source@,
{
    let mut out: Vec<String> = Vec::new();
    let mut i: usize = 0;
    while i < source.len()
        invariant
            i <= source@.len(),
            out@ == source@.subrange(0, i as int),
        decreases source@.len() - i,
    {
        out.push(source[i].clone());
        i += 1;
        proof {
            assert(out@ =~= source@.subrange(0, i as int));
        }
    }
    proof {
        assert(source@.subrange(0, source@.len() as int) =~= source@);
    }
    out
}

impl SecurityFinding {
    /// A copy of the finding.
    pub fn duplicate(&self) -> (out: SecurityFinding)
        ensures
            out.category == self.category,
            out.severity == self.severity,
            out.timestamp == self.timestamp,
            out.id == self.id,
            out.check_name == self.check_name,
            out.title == self.title,
            out.description == self.description,
            out.recommendation == self.recommendation,
            out.affected_components@ == self.affected_components@,
            out.cve_references@ == self.cve_references@,
            out.metadata@.len() == self.metadata@.len(),
    {
        let mut metadata: Vec<(String, String)> = Vec::new();
        let mut i: usize = 0;
        while i < self.metadata.len()
            invariant
                i <= self.metadata@.len(),
                metadata@.len() == i,
            decreases self.metadata@.len() - i,
        {
            metadata.push((self.metadata[i].0.clone(), self.metadata[i].1.clone()));
            i += 1;
        }
        SecurityFinding {
            id: self.id.clone(),
            check_name: self.check_name.clone(),
            category: self.category,
            severity: self.severity,
            title: self.title.clone(),
            description: self.description.clone(),
            recommendation: self.recommendation.clone(),
            affected_components: copy_strings(&self.affected_components),
            cve_references: copy_strings(&self.cve_references),
            timestamp: self.timestamp,
            metadata,
        }
    }
}

/// How an audit is run.
#[derive(Debug, Clone, Copy)]
pub struct AuditConfig {
    /// Findings below this severity are left out of the report.
    pub severity_threshold: Severity,
    pub include_performance_checks: bool,
    pub include_compliance_checks: bool,
    /// The report holds this many findings at most, the gravest first.
    pub max_findings: usize,
}

impl Default for AuditConfig {
    fn default() -> (out: Self)
        ensures
            out.severity_threshold == Severity::Info,
            out.include_performance_checks,
            out.include_compliance_checks,
            out.max_findings == 1000,
    {
        AuditConfig {
            severity_threshold: Severity::Info,
            include_performance_checks: true,
            include_compliance_checks: true,
            max_findings: 1000,
        }
    }
}

/// Why a check could not be run.
#[derive(Debug, Clone, Copy, PartialEq, Eq, Structural)]
pub enum AuditError {
    /// The check failed before it reached a finding.
    CheckFailed,
}

/// What every check of an audit offers.
pub trait SecurityCheck {
    /// The check's short name.
    fn name(&self) -> String;

    /// What the check looks at.
    fn description(&self) -> String;

    /// Runs the check at time `timestamp`.
    fn execute(&self, timestamp: u64) -> Result<Vec<SecurityFinding>, AuditError>;

    /// What the check is about.
    fn category(&self) -> CheckCategory;
}

/// The checks an audit can run.
#[derive(Debug, Clone, Copy, PartialEq, Eq, Structural)]
pub enum BuiltinCheck {
    CryptographicStrength,
    RandomNumberGenerator,
    KeyManagement,
    MemorySecurity,
    InputValidation,
    NetworkSecurity,
    DependencySecurity,
    ConfigurationSecurity,
}

/// The short name of a check.
pub open spec fn check_name(check: BuiltinCheck) -> Seq<char> {
    match check {
        BuiltinCheck::CryptographicStrength => "cryptographic_strength"@,
        BuiltinCheck::RandomNumberGenerator => "rng_security"@,
        BuiltinCheck::KeyManagement => "key_management"@,
        BuiltinCheck::MemorySecurity => "memory_security"@,
        BuiltinCheck::InputValidation => "input_validation"@,
        BuiltinCheck::NetworkSecurity => "network_security"@,
        BuiltinCheck::DependencySecurity => "dependency_security"@,
        BuiltinCheck::ConfigurationSecurity => "configuration_security"@,
    }
}

/// What a check looks at.
pub open spec fn check_description(check: BuiltinCheck) -> Seq<char> {
    match check {
        BuiltinCheck::CryptographicStrength => "Validates cryptographic algorithm strength and implementation"@,
        BuiltinCheck::RandomNumberGenerator => "Validates random number generator security and entropy"@,
        BuiltinCheck::KeyManagement => "Validates key storage, rotation, and lifecycle management"@,
        BuiltinCheck::MemorySecurity => "Validates secure memory handling and cleanup"@,
        BuiltinCheck::InputValidation => "Validates input sanitization and bounds checking"@,
        BuiltinCheck::NetworkSecurity => "Validates network security configuration and protocols"@,
        BuiltinCheck::DependencySecurity => "Validates security of third-party dependencies"@,
        BuiltinCheck::ConfigurationSecurity => "Validates security configuration and defaults"@,
    }
}

/// The category of a check.
pub open spec fn check_category(check: BuiltinCheck) -> CheckCategory {
    match check {
        BuiltinCheck::CryptographicStrength => CheckCategory::Cryptography,
        BuiltinCheck::RandomNumberGenerator => CheckCategory::Cryptography,
        BuiltinCheck::KeyManagement => CheckCategory::Cryptography,
        BuiltinCheck::MemorySecurity => CheckCategory::Memory,
        BuiltinCheck::InputValidation => CheckCategory::InputValidation,
        BuiltinCheck::NetworkSecurity => CheckCategory::Network,
        BuiltinCheck::DependencySecurity => CheckCategory::Dependencies,
        BuiltinCheck::ConfigurationSecurity => CheckCategory::Configuration,
    }
}

/// The severity of what a check finds.
pub open spec fn check_severity(check: BuiltinCheck) -> Severity {
    match check {
        BuiltinCheck::CryptographicStrength => Severity::Info,
        BuiltinCheck::RandomNumberGenerator => Severity::Medium,
        BuiltinCheck::KeyManagement => Severity::High,
        BuiltinCheck::MemorySecurity => Severity::High,
        BuiltinCheck::InputValidation => Severity::Medium,
        BuiltinCheck::NetworkSecurity => Severity::Medium,
        BuiltinCheck::DependencySecurity => Severity::Low,
        BuiltinCheck::ConfigurationSecurity => Severity::Medium,
    }
}

/// A finding without references or metadata.
pub open spec fn found(
    id: Seq<char>,
    check_name: Seq<char>,
    category: CheckCategory,
    severity: Severity,
    title: Seq<char>,
    description: Seq<char>,
    recommendation: Seq<char>,
    affected_components: Seq<Seq<char>>,
    timestamp: u64,
) -> FindingView {
    FindingView {
        id,
        check_name,
        category,
        severity,
        title,
        description,
        recommendation,
        affected_components,
        cve_references: Seq::empty(),
        timestamp,
        metadata: Seq::empty(),
    }
}

/// What a check finds at time `timestamp`.
pub open spec fn check_finding(check: BuiltinCheck, timestamp: u64) -> FindingView {
    match check {
        BuiltinCheck::CryptographicStrength => found(
            "CRYPTO_001"@,
            "cryptographic_strength"@,
            CheckCategory::Cryptography,
            Severity::Info,
            "Post-quantum cryptography implemented"@,
            "System uses Kyber-768 and Dilithium-2 for post-quantum security"@,
            "Continue monitoring for updated post-quantum standards"@,
            seq!["Hybrid Ratchet"@],
            timestamp,
        ),
        BuiltinCheck::RandomNumberGenerator => found(
            "RNG_001"@,
            "rng_security"@,
            CheckCategory::Cryptography,
            Severity::Medium,
            "Enhanced RNG implementation needed"@,
            "Current RNG implementation should be enhanced with multiple entropy sources"@,
            "Implement the enhanced SecureRng module with multiple entropy sources"@,
            seq!["Random Number Generation"@],
            timestamp,
        ),
        BuiltinCheck::KeyManagement => found(
            "KEY_001"@,
            "key_management"@,
            CheckCategory::Cryptography,
            Severity::High,
            "Secure key storage implementation required"@,
            "Keys must be stored in encrypted form with proper access controls"@,
            "Implement the SecureKeyStore module for encrypted key storage"@,
            seq!["Key Management"@],
            timestamp,
        ),
        BuiltinCheck::MemorySecurity => found(
            "MEM_001"@,
            "memory_security"@,
            CheckCategory::Memory,
            Severity::High,
            "Secure memory management required"@,
            "Sensitive data must be properly zeroized and memory locked"@,
            "Implement secure memory allocation and zeroization practices"@,
            seq!["Memory Management"@],
            timestamp,
        ),
        BuiltinCheck::InputValidation => found(
            "INPUT_001"@,
            "input_validation"@,
            CheckCategory::InputValidation,
            Severity::Medium,
            "Comprehensive input validation needed"@,
            "All external inputs must be validated and sanitized"@,
            "Implement strict input validation for all message parsing and network inputs"@,
            seq!["Message Parsing"@, "Network Layer"@],
            timestamp,
        ),
        BuiltinCheck::NetworkSecurity => found(
            "NET_001"@,
            "network_security"@,
            CheckCategory::Network,
            Severity::Medium,
            "Traffic analysis protection needed"@,
            "Network traffic patterns may reveal metadata"@,
            "Implement cover traffic and traffic shaping mechanisms"@,
            seq!["Network Layer"@],
            timestamp,
        ),
        BuiltinCheck::DependencySecurity => found(
            "DEP_001"@,
            "dependency_security"@,
            CheckCategory::Dependencies,
            Severity::Low,
            "Dependency audit recommended"@,
            "Regular security audits of dependencies are recommended"@,
            "Use cargo audit to check for known vulnerabilities in dependencies"@,
            seq!["Dependencies"@],
            timestamp,
        ),
        BuiltinCheck::ConfigurationSecurity => found(
            "CONFIG_001"@,
            "configuration_security"@,
            CheckCategory::Configuration,
            Severity::Medium,
            "Secure defaults required"@,
            "All configuration should default to secure settings"@,
            "Review and harden default configuration settings"@,
            seq!["Configuration"@],
            timestamp,
        ),
    }
}

impl BuiltinCheck {
    /// The severity of what the check finds.
    pub fn severity(&self) -> (out: Severity)
        ensures
            out == check_severity(*self),
    {
        match self {
            BuiltinCheck::CryptographicStrength => Severity::Info,
            BuiltinCheck::RandomNumberGenerator => Severity::Medium,
            BuiltinCheck::KeyManagement => Severity::High,
            BuiltinCheck::MemorySecurity => Severity::High,
            BuiltinCheck::InputValidation => Severity::Medium,
            BuiltinCheck::NetworkSecurity => Severity::Medium,
            BuiltinCheck::DependencySecurity => Severity::Low,
            BuiltinCheck::ConfigurationSecurity => Severity::Medium,
        }
    }

    /// The one finding of the check.
    pub fn finding(&self, timestamp: u64) -> (out: SecurityFinding)
        ensures
            out@ == check_finding(*self, timestamp),
            out.category == check_category(*self),
            out.severity == check_severity(*self),
            out.timestamp == timestamp,
    {
        match self {
            BuiltinCheck::CryptographicStrength => make_finding(
                "CRYPTO_001",
                "cryptographic_strength",
                CheckCategory::Cryptography,
                Severity::Info,
                "Post-quantum cryptography implemented",
                "System uses Kyber-768 and Dilithium-2 for post-quantum security",
                "Continue monitoring for updated post-quantum standards",
                one_component("Hybrid Ratchet"),
                timestamp,
            ),
            BuiltinCheck::RandomNumberGenerator => make_finding(
                "RNG_001",
                "rng_security",
                CheckCategory::Cryptography,
                Severity::Medium,
                "Enhanced RNG implementation needed",
                "Current RNG implementation should be enhanced with multiple entropy sources",
                "Implement the enhanced SecureRng module with multiple entropy sources",
                one_component("Random Number Generation"),
                timestamp,
            ),
            BuiltinCheck::KeyManagement => make_finding(
                "KEY_001",
                "key_management",
                CheckCategory::Cryptography,
                Severity::High,
                "Secure key storage implementation required",
                "Keys must be stored in encrypted form with proper access controls",
                "Implement the SecureKeyStore module for encrypted key storage",
                one_component("Key Management"),
                timestamp,
            ),
            BuiltinCheck::MemorySecurity => make_finding(
                "MEM_001",
                "memory_security",
                CheckCategory::Memory,
                Severity::High,
                "Secure memory management required",
                "Sensitive data must be properly zeroized and memory locked",
                "Implement secure memory allocation and zeroization practices",
                one_component("Memory Management"),
                timestamp,
            ),
            BuiltinCheck::InputValidation => make_finding(
                "INPUT_001",
                "input_validation",
                CheckCategory::InputValidation,
                Severity::Medium,
                "Comprehensive input validation needed",
                "All external inputs must be validated and sanitized",
                "Implement strict input validation for all message parsing and network inputs",
                two_components("Message Parsing", "Network Layer"),
                timestamp,
            ),
            BuiltinCheck::NetworkSecurity => make_finding(
                "NET_001",
                "network_security",
                CheckCategory::Network,
                Severity::Medium,
                "Traffic analysis protection needed",
                "Network traffic patterns may reveal metadata",
                "Implement cover traffic and traffic shaping mechanisms",
                one_component("Network Layer"),
                timestamp,
            ),
            BuiltinCheck::DependencySecurity => make_finding(
                "DEP_001",
                "dependency_security",
                CheckCategory::Dependencies,
                Severity::Low,
                "Dependency audit recommended",
                "Regular security audits of dependencies are recommended",
                "Use cargo audit to check for known vulnerabilities in dependencies",
                one_component("Dependencies"),
                timestamp,
            ),
            BuiltinCheck::ConfigurationSecurity => make_finding(
                "CONFIG_001",
                "configuration_security",
                CheckCategory::Configuration,
                Severity::Medium,
                "Secure defaults required",
                "All configuration should default to secure settings",
                "Review and harden default configuration settings",
                one_component("Configuration"),
                timestamp,
            ),
        }
    }
}

fn make_finding(
    id: &str,
    check_name: &str,
    category: CheckCategory,
    severity: Severity,
    title: &str,
    description: &str,
    recommendation: &str,
    affected_components: Vec<String>,
    timestamp: u64,
) -> (out: SecurityFinding)
    ensures
        out@ == found(
            id@,
            check_name@,
            category,
            severity,
            title@,
            description@,
            recommendation@,
            texts(affected_components@),
            timestamp,
        ),
        out.category == category,
        out.severity == severity,
        out.timestamp == timestamp,
{
    let out = SecurityFinding {
        id: id.to_string(),
        check_name: check_name.to_string(),
        category,
        severity,
        title: title.to_string(),
        description: description.to_string(),
        recommendation: recommendation.to_string(),
        affected_components,
        cve_references: Vec::new(),
        timestamp,
        metadata: Vec::new(),
    };
    assert(out@.cve_references =~= Seq::<Seq<char>>::empty());
    assert(out@.metadata =~= Seq::<(Seq<char>, Seq<char>)>::empty());
    out
}

fn one_component(name: &str) -> (out: Vec<String>)
    ensures
        texts(out@) == seq![name@],
{
    let mut out: Vec<String> = Vec::new();
    out.push(name.to_string());
    assert(texts(out@) =~= seq![name@]);
    out
}

fn two_components(first: &str, second: &str) -> (out: Vec<String>)
    ensures
        texts(out@) == seq![first@, second@],
{
    let mut out: Vec<String> = Vec::new();
    out.push(first.to_string());
    out.push(second.to_string());
    assert(texts(out@) =~= seq![first@, second@]);
    out
}

impl SecurityCheck for BuiltinCheck {
    fn name(&self) -> (out: String)
        ensures
            out@ == check_name(*self),
    {
        match self {
            BuiltinCheck::CryptographicStrength => "cryptographic_strength".to_string(),
            BuiltinCheck::RandomNumberGenerator => "rng_security".to_string(),
            BuiltinCheck::KeyManagement => "key_management".to_string(),
            BuiltinCheck::MemorySecurity => "memory_security".to_string(),
            BuiltinCheck::InputValidation => "input_validation".to_string(),
            BuiltinCheck::NetworkSecurity => "network_security".to_string(),
            BuiltinCheck::DependencySecurity => "dependency_security".to_string(),
            BuiltinCheck::ConfigurationSecurity => "configuration_security".to_string(),
        }
    }

    fn description(&self) -> (out: String)
        ensures
            out@ == check_description(*self),
    {
        match self {
            BuiltinCheck::CryptographicStrength => "Validates cryptographic algorithm strength and implementation".to_string(),
            BuiltinCheck::RandomNumberGenerator => "Validates random number generator security and entropy".to_string(),
            BuiltinCheck::KeyManagement => "Validates key storage, rotation, and lifecycle management".to_string(),
            BuiltinCheck::MemorySecurity => "Validates secure memory handling and cleanup".to_string(),
            BuiltinCheck::InputValidation => "Validates input sanitization and bounds checking".to_string(),
            BuiltinCheck::NetworkSecurity => "Validates network security configuration and protocols".to_string(),
            BuiltinCheck::DependencySecurity => "Validates security of third-party dependencies".to_string(),
            BuiltinCheck::ConfigurationSecurity => "Validates security configuration and defaults".to_string(),
        }
    }

    fn execute(&self, timestamp: u64) -> (out: Result<Vec<SecurityFinding>, AuditError>)
        ensures
            out matches Ok(findings) && findings@.len() == 1 && findings@[0]@ == check_finding(
                *self,
                timestamp,
            ),
    {
        let mut findings: Vec<SecurityFinding> = Vec::new();
        findings.push(self.finding(timestamp));
        Ok(findings)
    }

    fn category(&self) -> (out: CheckCategory)
        ensures
            out == check_category(*self),
    {
        match self {
            BuiltinCheck::CryptographicStrength => CheckCategory::Cryptography,
            BuiltinCheck::RandomNumberGenerator => CheckCategory::Cryptography,
            BuiltinCheck::KeyManagement => CheckCategory::Cryptography,
            BuiltinCheck::MemorySecurity => CheckCategory::Memory,
            BuiltinCheck::InputValidation => CheckCategory::InputValidation,
            BuiltinCheck::NetworkSecurity => CheckCategory::Network,
            BuiltinCheck::DependencySecurity => CheckCategory::Dependencies,
            BuiltinCheck::ConfigurationSecurity => CheckCategory::Configuration,
        }
    }
}

/// How many of the findings have the severity `severity`.
pub open spec fn severity_count(findings: Seq<Profile>, severity: Severity) -> nat
    decreases findings.len(),
{
    if findings.len() == 0 {
        0
    } else {
        severity_count(findings.drop_last(), severity) + if findings.last().1 == severity {
            1nat
        } else {
            0nat
        }
    }
}

/// How many of the findings are in `category` and at least as grave as `floor`.
pub open spec fn category_count(findings: Seq<Profile>, category: CheckCategory, floor: Severity)
    -> nat
    decreases findings.len(),
{
    if findings.len() == 0 {
        0
    } else {
        category_count(findings.drop_last(), category, floor) + if findings.last().0 == category
            && severity_rank(findings.last().1) >= severity_rank(floor) {
            1nat
        } else {
            0nat
        }
    }
}

/// The findings of severity `severity`, in their order.
pub open spec fn of_severity(findings: Seq<Profile>, severity: Severity) -> Seq<Profile>
    decreases findings.len(),
{
    if findings.len() == 0 {
        Seq::empty()
    } else if findings.last().1 == severity {
        of_severity(findings.drop_last(), severity).push(findings.last())
    } else {
        of_severity(findings.drop_last(), severity)
    }
}

/// The findings at least as grave as `floor`, in their order.
pub open spec fn at_least(findings: Seq<Profile>, floor: Severity) -> Seq<Profile>
    decreases findings.len(),
{
    if findings.len() == 0 {
        Seq::empty()
    } else if severity_rank(findings.last().1) >= severity_rank(floor) {
        at_least(findings.drop_last(), floor).push(findings.last())
    } else {
        at_least(findings.drop_last(), floor)
    }
}

/// The findings with the gravest first; findings of one severity keep their order.
pub open spec fn gravest_first(findings: Seq<Profile>) -> Seq<Profile> {
    of_severity(findings, Severity::Critical) + of_severity(findings, Severity::High)
        + of_severity(findings, Severity::Medium) + of_severity(findings, Severity::Low)
        + of_severity(findings, Severity::Info)
}

/// The findings as a report holds them: all of them where they are within
/// the limit, else the `limit` gravest.
pub open spec fn capped(findings: Seq<Profile>, limit: nat) -> Seq<Profile> {
    if findings.len() > limit {
        gravest_first(findings).take(limit as int)
    } else {
        findings
    }
}

/// The profiles of what the checks find.
pub open spec fn check_profiles(checks: Seq<BuiltinCheck>) -> Seq<Profile> {
    checks.map_values(|c: BuiltinCheck| (check_category(c), check_severity(c)))
}

/// The score of an audit: 100, less 20 for every critical finding, 10 for
/// every high, 5 for every medium and 1 for every low one, and not below 0.
pub open spec fn security_score(critical: nat, high: nat, medium: nat, low: nat) -> nat {
    let penalty = critical * 20 + high * 10 + medium * 5 + low;
    if penalty >= 100 {
        0
    } else {
        (100 - penalty) as nat
    }
}

/// Computes the score of an audit.
pub fn calculate_security_score(critical: usize, high: usize, medium: usize, low: usize) -> (out:
    u64)
    ensures
        out == security_score(critical as nat, high as nat, medium as nat, low as nat),
        out <= 100,
{
    if critical >= 5 || high >= 10 || medium >= 20 || low >= 100 {
        return 0;
    }
    let penalty: u64 = (critical as u64) * 20 + (high as u64) * 10 + (medium as u64) * 5 + (
    low as u64);
    if penalty >= 100 {
        0
    } else {
        100 - penalty
    }
}

/// How many findings there are of each severity.
#[derive(Debug, Clone, Copy, PartialEq, Eq, Structural)]
pub struct SeverityCounts {
    pub info: usize,
    pub low: usize,
    pub medium: usize,
    pub high: usize,
    pub critical: usize,
}

/// Whether the findings leave each standard met.
#[derive(Debug, Clone, Copy, PartialEq, Eq, Structural)]
pub struct ComplianceStatus {
    /// No cryptographic finding is high or critical.
    pub nist_cryptography: bool,
    /// No finding on input validation is medium or graver.
    pub owasp_input_validation: bool,
    /// No finding on memory is high or critical.
    pub memory_safety: bool,
}

/// The sum of an audit.
pub struct AuditSummary {
    /// From 0 to 100.
    pub overall_score: u64,
    pub critical_issues: usize,
    pub high_issues: usize,
    pub recommendations: Vec<String>,
    pub compliance_status: ComplianceStatus,
}

/// The report of an audit.
pub struct AuditReport {
    pub timestamp: u64,
    pub total_checks: usize,
    pub total_findings: usize,
    pub findings_by_severity: SeverityCounts,
    pub findings_by_category: Vec<(CheckCategory, usize)>,
    pub findings: Vec<SecurityFinding>,
    pub summary: AuditSummary,
}

/// Counting goes finding by finding.
proof fn lemma_counts_step(findings: Seq<Profile>, i: int)
    requires
        0 <= i < findings.len(),
    ensures
        findings.subrange(0, i + 1).drop_last() == findings.subrange(0, i),
        findings.subrange(0, i + 1).last() == findings[i],
{
    assert(findings.subrange(0, i + 1).drop_last() =~= findings.subrange(0, i));
}

fn count_severity(findings: &Vec<SecurityFinding>, severity: Severity) -> (out: usize)
    ensures
        out == severity_count(profiles_of(findings@), severity),
{
    let ghost profiles = profiles_of(findings@);
    let mut count: usize = 0;
    let mut i: usize = 0;
    while i < findings.len()
        invariant
            i <= findings@.len(),
            profiles == profiles_of(findings@),
            count <= i,
            count == severity_count(profiles.subrange(0, i as int), severity),
        decreases findings@.len() - i,
    {
        proof {
            lemma_counts_step(profiles, i as int);
        }
        if findings[i].severity.rank() == severity.rank() {
            count += 1;
        }
        i += 1;
    }
    proof {
        assert(profiles.subrange(0, profiles.len() as int) =~= profiles);
    }
    count
}

fn count_category(findings: &Vec<SecurityFinding>, category: CheckCategory, floor: Severity) -> (
    out:
    usize)
    ensures
        out == category_count(profiles_of(findings@), category, floor),
{
    let ghost profiles = profiles_of(findings@);
    let mut count: usize = 0;
    let mut i: usize = 0;
    while i < findings.len()
        invariant
            i <= findings@.len(),
            profiles == profiles_of(findings@),
            count <= i,
            count == category_count(profiles.subrange(0, i as int), category, floor),
        decreases findings@.len() - i,
    {
        proof {
            lemma_counts_step(profiles, i as int);
        }
        if findings[i].category == category && findings[i].severity.at_least(floor) {
            count += 1;
        }
        i += 1;
    }
    proof {
        assert(profiles.subrange(0, profiles.len() as int) =~= profiles);
    }
    count
}

/// The first `limit` of the findings, or all of them where they are fewer.
pub open spec fn first_of(findings: Seq<Profile>, limit: nat) -> Seq<Profile> {
    if findings.len() <= limit {
        findings
    } else {
        findings.take(limit as int)
    }
}

/// Cutting a list short and cutting the list with more behind it short
/// comes to the same as cutting the whole short.
proof fn lemma_first_of_append(a: Seq<Profile>, b: Seq<Profile>, limit: nat)
    ensures
        first_of(first_of(a, limit) + b, limit) == first_of(a + b, limit),
{
    assert(first_of(first_of(a, limit) + b, limit) =~= first_of(a + b, limit));
}

/// Appends to `out` the findings of severity `severity`, as far as `limit` allows.
fn take_severity(
    findings: &Vec<SecurityFinding>,
    severity: Severity,
    limit: usize,
    out: &mut Vec<SecurityFinding>,
)
    requires
        old(out)@.len() <= limit,
    ensures
        profiles_of(final(out)@) == first_of(
            profiles_of(old(out)@) + of_severity(profiles_of(findings@), severity),
            limit as nat,
        ),
        final(out)@.len() <= limit,
{
    let ghost profiles = profiles_of(findings@);
    let ghost start = profiles_of(out@);
    let mut i: usize = 0;
    proof {
        assert(start + of_severity(profiles.subrange(0, 0), severity) =~= start);
    }
    while i < findings.len()
        invariant
            i <= findings@.len(),
            profiles == profiles_of(findings@),
            start.len() <= limit,
            out@.len() <= limit,
            profiles_of(out@) == first_of(
                start + of_severity(profiles.subrange(0, i as int), severity),
                limit as nat,
            ),
        decreases findings@.len() - i,
    {
        proof {
            lemma_counts_step(profiles, i as int);
        }
        let ghost before = profiles_of(out@);
        let ghost seen = of_severity(profiles.subrange(0, i as int), severity);
        if findings[i].severity.rank() == severity.rank() && out.len() < limit {
            out.push(findings[i].duplicate());
            proof {
                assert(profiles_of(out@) =~= before.push(profiles[i as int]));
                assert(before =~= start + seen);
                assert(before.push(profiles[i as int]) =~= start + seen.push(profiles[i as int]));
            }
        } else {
            proof {
                if findings@[i as int].severity == severity {
                    assert(out@.len() == limit);
                    assert(first_of(start + seen.push(profiles[i as int]), limit as nat)
                        =~= first_of(start + seen, limit as nat));
                }
            }
        }
        i += 1;
    }
    proof {
        assert(profiles.subrange(0, profiles.len() as int) =~= profiles);
    }
}

/// The auditor: the checks it runs and what it found last.
pub struct SecurityAuditor {
    checks: Vec<BuiltinCheck>,
    findings: Vec<SecurityFinding>,
    config: AuditConfig,
}

/// The checks of an auditor that was given none.
pub open spec fn default_checks() -> Seq<BuiltinCheck> {
    seq![
        BuiltinCheck::CryptographicStrength,
        BuiltinCheck::RandomNumberGenerator,
        BuiltinCheck::KeyManagement,
        BuiltinCheck::MemorySecurity,
        BuiltinCheck::InputValidation,
        BuiltinCheck::NetworkSecurity,
        BuiltinCheck::DependencySecurity,
        BuiltinCheck::ConfigurationSecurity,
    ]
}

impl SecurityAuditor {
    /// The checks the auditor runs.
    pub closed spec fn checks(&self) -> Seq<BuiltinCheck> {
        self.checks@
    }

    /// How the auditor runs.
    pub closed spec fn config(&self) -> AuditConfig {
        self.config
    }

    /// The profiles of what the auditor found last.
    pub closed spec fn found(&self) -> Seq<Profile> {
        profiles_of(self.findings@)
    }

    /// An auditor with the default configuration and the default checks.
    pub fn new() -> (out: Self)
        ensures
            out.checks() == default_checks(),
            out.config().severity_threshold == Severity::Info,
            out.config().max_findings == 1000,
            out.found() == Seq::<Profile>::empty(),
    {
        SecurityAuditor::with_config(AuditConfig::default())
    }

    /// An auditor with the configuration handed in and the default checks.
    pub fn with_config(config: AuditConfig) -> (out: Self)
        ensures
            out.checks() == default_checks(),
            out.config() == config,
            out.found() == Seq::<Profile>::empty(),
    {
        let mut auditor = SecurityAuditor { checks: Vec::new(), findings: Vec::new(), config };
        auditor.register_default_checks();
        proof {
            assert(auditor.found() =~= Seq::<Profile>::empty());
        }
        auditor
    }

    /// Adds a check to those the auditor runs.
    pub fn register_check(&mut self, check: BuiltinCheck)
        ensures
            final(self).checks() == old(self).checks().push(check),
            final(self).config() == old(self).config(),
            final(self).found() == old(self).found(),
    {
        self.checks.push(check);
    }

    fn register_default_checks(&mut self)
        requires
            old(self).checks() == Seq::<BuiltinCheck>::empty(),
        ensures
            final(self).checks() == default_checks(),
            final(self).config() == old(self).config(),
            final(self).found() == old(self).found(),
    {
        self.register_check(BuiltinCheck::CryptographicStrength);
        self.register_check(BuiltinCheck::RandomNumberGenerator);
        self.register_check(BuiltinCheck::KeyManagement);
        self.register_check(BuiltinCheck::MemorySecurity);
        self.register_check(BuiltinCheck::InputValidation);
        self.register_check(BuiltinCheck::NetworkSecurity);
        self.register_check(BuiltinCheck::DependencySecurity);
        self.register_check(BuiltinCheck::ConfigurationSecurity);
        proof {
            assert(self.checks() =~= default_checks());
        }
    }

    /// How many checks the auditor runs.
    pub fn check_count(&self) -> (out: usize)
        ensures
            out == self.checks().len(),
    {
        self.checks.len()
    }

    /// Runs every check at time `timestamp`. The report holds the findings
    /// at or above the severity threshold; where they are more than the
    /// configured maximum, it holds the gravest of them. Counts, score and
    /// compliance are those of the findings in the report.
    pub fn run_audit(&mut self, timestamp: u64) -> (out: Result<AuditReport, AuditError>)
        ensures
            final(self).checks() == old(self).checks(),
            final(self).config() == old(self).config(),
            out matches Ok(report) && {
                let kept = capped(
                    at_least(
                        check_profiles(old(self).checks()),
                        old(self).config().severity_threshold,
                    ),
                    old(self).config().max_findings as nat,
                );
                &&& profiles_of(report.findings@) == kept
                &&& final(self).found() == kept
                &&& report.timestamp == timestamp
                &&& report.total_checks == old(self).checks().len()
                &&& report.total_findings == kept.len()
                &&& report_sums_up(report)
            },
    {
        let ghost all = check_profiles(self.checks@);
        let threshold = self.config.severity_threshold;
        let mut kept: Vec<SecurityFinding> = Vec::new();
        let mut i: usize = 0;
        while i < self.checks.len()
            invariant
                i <= self.checks@.len(),
                all == check_profiles(self.checks@),
                self.checks() == old(self).checks(),
                self.config() == old(self).config(),
                profiles_of(kept@) == at_least(all.subrange(0, i as int), threshold),
            decreases self.checks@.len() - i,
        {
            proof {
                lemma_counts_step(all, i as int);
            }
            let ghost before = profiles_of(kept@);
            let check = self.checks[i];
            if check.severity().at_least(threshold) {
                kept.push(check.finding(timestamp));
                proof {
                    assert(profiles_of(kept@) =~= before.push(all[i as int]));
                }
            }
            i += 1;
        }
        proof {
            assert(all.subrange(0, all.len() as int) =~= all);
        }
        let limit = self.config.max_findings;
        let findings = if kept.len() > limit {
            let ghost profiles = profiles_of(kept@);
            let mut out: Vec<SecurityFinding> = Vec::new();
            proof {
                assert(profiles_of(out@) =~= Seq::<Profile>::empty());
            }
            let ghost critical = of_severity(profiles, Severity::Critical);
            let ghost high = of_severity(profiles, Severity::High);
            let ghost medium = of_severity(profiles, Severity::Medium);
            let ghost low = of_severity(profiles, Severity::Low);
            let ghost info = of_severity(profiles, Severity::Info);
            take_severity(&kept, Severity::Critical, limit, &mut out);
            proof {
                assert(Seq::<Profile>::empty() + critical =~= critical);
            }
            take_severity(&kept, Severity::High, limit, &mut out);
            proof {
                lemma_first_of_append(critical, high, limit as nat);
            }
            take_severity(&kept, Severity::Medium, limit, &mut out);
            proof {
                lemma_first_of_append(critical + high, medium, limit as nat);
            }
            take_severity(&kept, Severity::Low, limit, &mut out);
            proof {
                lemma_first_of_append(critical + high + medium, low, limit as nat);
            }
            take_severity(&kept, Severity::Info, limit, &mut out);
            proof {
                lemma_first_of_append(critical + high + medium + low, info, limit as nat);
                lemma_of_severity_covers(profiles);
                assert(profiles_of(out@) == first_of(gravest_first(profiles), limit as nat));
            }
            out
        } else {
            kept
        };
        self.findings = copy_findings(&findings);
        Ok(generate_report(findings, self.checks.len(), timestamp))
    }
}

/// Every finding has one of the five severities, so the five lists of
/// `gravest_first` hold as many findings as there are.
proof fn lemma_of_severity_covers(findings: Seq<Profile>)
    ensures
        gravest_first(findings).len() == findings.len(),
    decreases findings.len(),
{
    if findings.len() > 0 {
        lemma_of_severity_covers(findings.drop_last());
    }
}

fn copy_findings(findings: &Vec<SecurityFinding>) -> (out: Vec<SecurityFinding>)
    ensures
        profiles_of(out@) == profiles_of(findings@),
{
    let mut out: Vec<SecurityFinding> = Vec::new();
    let mut i: usize = 0;
    while i < findings.len()
        invariant
            i <= findings@.len(),
            out@.len() == i,
            forall|j: int| 0 <= j < i ==> profile_of(#[trigger] out@[j])
                == profile_of(findings@[j]),
        decreases findings@.len() - i,
    {
        out.push(findings[i].duplicate());
        i += 1;
    }
    proof {
        assert(profiles_of(out@) =~= profiles_of(findings@));
    }
    out
}

/// Whether the counts, the score and the compliance of a report are those
/// of its findings.
pub open spec fn report_sums_up(report: AuditReport) -> bool {
    let found = profiles_of(report.findings@);
    &&& report.findings_by_severity.info == severity_count(found, Severity::Info)
    &&& report.findings_by_severity.low == severity_count(found, Severity::Low)
    &&& report.findings_by_severity.medium == severity_count(found, Severity::Medium)
    &&& report.findings_by_severity.high == severity_count(found, Severity::High)
    &&& report.findings_by_severity.critical == severity_count(found, Severity::Critical)
    &&& report.summary.critical_issues == severity_count(found, Severity::Critical)
    &&& report.summary.high_issues == severity_count(found, Severity::High)
    &&& report.summary.overall_score == security_score(
        severity_count(found, Severity::Critical),
        severity_count(found, Severity::High),
        severity_count(found, Severity::Medium),
        severity_count(found, Severity::Low),
    )
    &&& report.summary.compliance_status.nist_cryptography == (category_count(
        found,
        CheckCategory::Cryptography,
        Severity::High,
    ) == 0)
    &&& report.summary.compliance_status.owasp_input_validation == (category_count(
        found,
        CheckCategory::InputValidation,
        Severity::Medium,
    ) == 0)
    &&& report.summary.compliance_status.memory_safety == (category_count(
        found,
        CheckCategory::Memory,
        Severity::High,
    ) == 0)
}

/// Whether the findings leave each standard met.
pub fn check_compliance(findings: &Vec<SecurityFinding>) -> (out: ComplianceStatus)
    ensures
        out.nist_cryptography == (category_count(
            profiles_of(findings@),
            CheckCategory::Cryptography,
            Severity::High,
        ) == 0),
        out.owasp_input_validation == (category_count(
            profiles_of(findings@),
            CheckCategory::InputValidation,
            Severity::Medium,
        ) == 0),
        out.memory_safety == (category_count(
            profiles_of(findings@),
            CheckCategory::Memory,
            Severity::High,
        ) == 0),
{
    ComplianceStatus {
        nist_cryptography: count_category(findings, CheckCategory::Cryptography, Severity::High)
            == 0,
        owasp_input_validation: count_category(
            findings,
            CheckCategory::InputValidation,
            Severity::Medium,
        ) == 0,
        memory_safety: count_category(findings, CheckCategory::Memory, Severity::High) == 0,
    }
}

/// What to do about the findings, the most urgent advice first.
pub fn generate_recommendations(findings: &Vec<SecurityFinding>) -> (out: Vec<String>)
    ensures
        out@.len() == (if severity_count(profiles_of(findings@), Severity::Critical) > 0 {
            1int
        } else {
            0int
        }) + (if severity_count(profiles_of(findings@), Severity::High) > 0 {
            1int
        } else {
            0int
        }) + (if category_count(profiles_of(findings@), CheckCategory::Cryptography, Severity::Info)
            > 0 {
            1int
        } else {
            0int
        }) + (if category_count(profiles_of(findings@), CheckCategory::Memory, Severity::Info) > 0 {
            1int
        } else {
            0int
        }),
{
    let mut out: Vec<String> = Vec::new();
    if count_severity(findings, Severity::Critical) > 0 {
        out.push(
            "URGENT: Address all critical security issues immediately before production use".to_string(),
        );
    }
    if count_severity(findings, Severity::High) > 0 {
        out.push("Address high-severity security issues as soon as possible".to_string());
    }
    if count_category(findings, CheckCategory::Cryptography, Severity::Info) > 0 {
        out.push("Review and strengthen cryptographic implementations".to_string());
    }
    if count_category(findings, CheckCategory::Memory, Severity::Info) > 0 {
        out.push("Implement secure memory management practices".to_string());
    }
    out
}

/// Sums the findings up in a report.
pub fn generate_report(findings: Vec<SecurityFinding>, total_checks: usize, timestamp: u64) -> (out:
    AuditReport)
    ensures
        out.findings@ == findings@,
        out.timestamp == timestamp,
        out.total_checks == total_checks,
        out.total_findings == findings@.len(),
        report_sums_up(out),
{
    let counts = SeverityCounts {
        info: count_severity(&findings, Severity::Info),
        low: count_severity(&findings, Severity::Low),
        medium: count_severity(&findings, Severity::Medium),
        high: count_severity(&findings, Severity::High),
        critical: count_severity(&findings, Severity::Critical),
    };
    let mut by_category: Vec<(CheckCategory, usize)> = Vec::new();
    by_category.push((CheckCategory::Cryptography, count_category(&findings,
        CheckCategory::Cryptography, Severity::Info)));
    by_category.push((CheckCategory::Memory, count_category(&findings, CheckCategory::Memory,
        Severity::Info)));
    by_category.push((CheckCategory::Network, count_category(&findings, CheckCategory::Network,
        Severity::Info)));
    by_category.push((CheckCategory::Authentication, count_category(&findings,
        CheckCategory::Authentication, Severity::Info)));
    by_category.push((CheckCategory::Authorization, count_category(&findings,
        CheckCategory::Authorization, Severity::Info)));
    by_category.push((CheckCategory::InputValidation, count_category(&findings,
        CheckCategory::InputValidation, Severity::Info)));
    by_category.push((CheckCategory::Configuration, count_category(&findings,
        CheckCategory::Configuration, Severity::Info)));
    by_category.push((CheckCategory::Dependencies, count_category(&findings,
        CheckCategory::Dependencies, Severity::Info)));
    by_category.push((CheckCategory::Performance, count_category(&findings,
        CheckCategory::Performance, Severity::Info)));
    by_category.push((CheckCategory::Compliance, count_category(&findings,
        CheckCategory::Compliance, Severity::Info)));
    let summary = AuditSummary {
        overall_score: calculate_security_score(
            counts.critical,
            counts.high,
            counts.medium,
            counts.low,
        ),
        critical_issues: counts.critical,
        high_issues: counts.high,
        recommendations: generate_recommendations(&findings),
        compliance_status: check_compliance(&findings),
    };
    AuditReport {
        timestamp,
        total_checks,
        total_findings: findings.len(),
        findings_by_severity: counts,
        findings_by_category: by_category,
        findings,
        summary,
    }
}

} // verus!
