use qubee::audit::security_auditor::{
    calculate_security_score, AuditConfig, BuiltinCheck, CheckCategory, SecurityAuditor,
    SecurityCheck, Severity,
};

#[test]
fn test_security_auditor_creation() {
    let auditor = SecurityAuditor::new();
    assert!(auditor.check_count() != 0);
}

#[test]
fn test_audit_execution() {
    let mut auditor = SecurityAuditor::new();
    let report = auditor.run_audit(1_700_000_000).expect("Audit should succeed");

    assert!(report.total_checks > 0);
    assert!(report.timestamp > 0);
}

#[test]
fn test_security_score_calculation() {
    let score = calculate_security_score(0, 0, 0, 0);
    assert_eq!(score as f64, 100.0);

    let score = calculate_security_score(1, 0, 0, 0);
    assert_eq!(score as f64, 80.0);
}

#[test]
fn test_severity_ordering() {
    assert!(Severity::Critical > Severity::High);
    assert!(Severity::High > Severity::Medium);
    assert!(Severity::Medium > Severity::Low);
    assert!(Severity::Low > Severity::Info);
}

#[test]
fn score_weighs_findings_and_stops_at_zero() {
    assert_eq!(calculate_security_score(0, 1, 0, 0), 90);
    assert_eq!(calculate_security_score(0, 0, 1, 0), 95);
    assert_eq!(calculate_security_score(0, 0, 0, 1), 99);
    assert_eq!(calculate_security_score(1, 2, 3, 4), 100 - 20 - 20 - 15 - 4);
    assert_eq!(calculate_security_score(5, 0, 0, 0), 0);
    assert_eq!(calculate_security_score(4, 2, 0, 0), 0);
    assert_eq!(calculate_security_score(4, 1, 1, 4), 1);
    assert_eq!(calculate_security_score(usize::MAX, usize::MAX, usize::MAX, usize::MAX), 0);
}

#[test]
fn default_audit_reports_every_finding() {
    let mut auditor = SecurityAuditor::new();
    let report = auditor.run_audit(42).expect("Audit should succeed");
    assert_eq!(report.total_checks, 8);
    assert_eq!(report.total_findings, 8);
    assert_eq!(report.findings.len(), 8);
    assert_eq!(report.findings[0].id, "CRYPTO_001");
    assert_eq!(report.findings[0].timestamp, 42);
    assert_eq!(report.findings_by_severity.info, 1);
    assert_eq!(report.findings_by_severity.low, 1);
    assert_eq!(report.findings_by_severity.medium, 4);
    assert_eq!(report.findings_by_severity.high, 2);
    assert_eq!(report.findings_by_severity.critical, 0);
    assert_eq!(report.summary.high_issues, 2);
    assert_eq!(report.summary.critical_issues, 0);
    assert_eq!(report.summary.overall_score, 100 - 20 - 20 - 1);
    assert!(!report.summary.compliance_status.nist_cryptography);
    assert!(!report.summary.compliance_status.owasp_input_validation);
    assert!(!report.summary.compliance_status.memory_safety);
    assert_eq!(
        report.summary.recommendations,
        vec![
            "Address high-severity security issues as soon as possible".to_string(),
            "Review and strengthen cryptographic implementations".to_string(),
            "Implement secure memory management practices".to_string(),
        ]
    );
    let crypto = report
        .findings_by_category
        .iter()
        .find(|(category, _)| *category == CheckCategory::Cryptography)
        .map(|(_, count)| *count);
    assert_eq!(crypto, Some(3));
}

#[test]
fn threshold_leaves_lesser_findings_out() {
    let config = AuditConfig { severity_threshold: Severity::High, ..AuditConfig::default() };
    let mut auditor = SecurityAuditor::with_config(config);
    let report = auditor.run_audit(1).expect("Audit should succeed");
    let ids: Vec<&str> = report.findings.iter().map(|f| f.id.as_str()).collect();
    assert_eq!(ids, vec!["KEY_001", "MEM_001"]);
    assert_eq!(report.summary.overall_score, 80);
}

#[test]
fn limit_keeps_the_gravest_findings_in_their_order() {
    let config = AuditConfig { max_findings: 5, ..AuditConfig::default() };
    let mut auditor = SecurityAuditor::with_config(config);
    let report = auditor.run_audit(1).expect("Audit should succeed");
    let ids: Vec<&str> = report.findings.iter().map(|f| f.id.as_str()).collect();
    assert_eq!(ids, vec!["KEY_001", "MEM_001", "RNG_001", "INPUT_001", "NET_001"]);
    assert_eq!(report.total_findings, 5);
    assert_eq!(report.total_checks, 8);
}

#[test]
fn a_registered_check_is_run_with_the_others() {
    let mut auditor = SecurityAuditor::new();
    auditor.register_check(BuiltinCheck::MemorySecurity);
    assert_eq!(auditor.check_count(), 9);
    let report = auditor.run_audit(1).expect("Audit should succeed");
    assert_eq!(report.findings_by_severity.high, 3);
    assert_eq!(BuiltinCheck::MemorySecurity.name(), "memory_security");
    let found = BuiltinCheck::MemorySecurity.execute(7).expect("a finding");
    assert_eq!(found.len(), 1);
    assert_eq!((found[0].id.as_str(), found[0].severity, found[0].timestamp), ("MEM_001", Severity::High, 7));
    assert_eq!(found[0].affected_components, vec!["Memory Management".to_string()]);
    assert!(BuiltinCheck::MemorySecurity.description().starts_with("Validates secure memory"));
    assert_eq!(BuiltinCheck::MemorySecurity.category(), CheckCategory::Memory);
    assert_eq!(Severity::Critical.label(), "CRITICAL");
    assert_eq!(CheckCategory::InputValidation.label(), "Input Validation");
}

#[test]
fn a_builtin_check_says_what_it_is_and_what_it_finds() {
    let check = BuiltinCheck::InputValidation;
    assert_eq!(check.name(), "input_validation");
    assert_eq!(check.description(), "Validates input sanitization and bounds checking");
    assert_eq!(check.category(), CheckCategory::InputValidation);
    let findings = check.execute(77).unwrap();
    assert_eq!(findings.len(), 1);
    let finding = &findings[0];
    assert_eq!(finding.id, "INPUT_001");
    assert_eq!(finding.check_name, "input_validation");
    assert_eq!(finding.severity, Severity::Medium);
    assert_eq!(finding.title, "Comprehensive input validation needed");
    assert_eq!(
        finding.affected_components,
        vec!["Message Parsing".to_string(), "Network Layer".to_string()]
    );
    assert!(finding.cve_references.is_empty());
    assert!(finding.metadata.is_empty());
    assert_eq!(finding.timestamp, 77);
    assert_eq!(
        BuiltinCheck::KeyManagement.execute(1).unwrap()[0].affected_components,
        vec!["Key Management".to_string()]
    );
}
