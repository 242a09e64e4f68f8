use package_file_verify::result::{CheckResult, VerificationResult};
use package_file_verify::verifiers::dpkg;
use package_file_verify::verifiers::resolver::{get_verifier_method, Backend, OsType};
use package_file_verify::verifiers::rpm;
use package_file_verify::verifiers::utils::{get_verification_result_from_string, PackageLookup};

#[test]
fn empty_report_means_all_passed() {
    let r = get_verification_result_from_string("", "/bin/bash").unwrap();
    assert_eq!(r.to_string(), "........");
    assert!(!r.is_configuration());
    assert_ne!(r, VerificationResult::unknown());
}

#[test]
fn last_matching_line_wins() {
    let r = get_verification_result_from_string("A /x/y\nB /x/y", "/x/y").unwrap();
    assert_eq!(r, VerificationResult::from_string("B"));
    assert_eq!(r.size(), CheckResult::Failed);
    assert_eq!(r.mode(), CheckResult::Unsupported);
}

#[test]
fn last_matching_line_wins_with_real_tokens() {
    let report = "S.5....T c /etc/foo/x/y\n..5..... /usr/bin/other\n.M...... /x/y\n";
    let r = get_verification_result_from_string(report, "/x/y").unwrap();
    assert_eq!(r.to_string(), ".M......");
}

#[test]
fn no_matching_line_is_unknown() {
    let report = "..5....T c /etc/other\nS....... /usr/bin/tool\n";
    let r = get_verification_result_from_string(report, "/bin/bash").unwrap();
    assert_eq!(r, VerificationResult::unknown());
    assert_eq!(r.to_string(), "????????");
}

#[test]
fn configuration_line_is_parsed() {
    let report = "..5....T c /etc/bash.bashrc\n";
    let r = get_verification_result_from_string(report, "/etc/bash.bashrc").unwrap();
    assert!(r.is_configuration());
    assert_eq!(r.checksum(), CheckResult::Failed);
    assert_eq!(r.to_string(), "..5....T c");
}

#[test]
fn crlf_line_endings() {
    let report = "S....... /a\r\n.....U.. /b\r\n";
    let r = get_verification_result_from_string(report, "/a").unwrap();
    assert_eq!(r.to_string(), "S.......");
}

#[test]
fn matching_line_without_space_is_rejected() {
    assert_eq!(get_verification_result_from_string("/x/y", "/x/y"), None);
    assert_eq!(get_verification_result_from_string("/x/y\nS /x/y", "/x/y"), None);
}

#[test]
fn dpkg_search_gives_package_before_colon() {
    assert_eq!(
        dpkg::package_name("bash: /bin/bash\n"),
        PackageLookup::Package("bash".to_string())
    );
    assert_eq!(
        dpkg::package_name("libc6:amd64: /lib/x86_64-linux-gnu/libc.so.6\n"),
        PackageLookup::Package("libc6".to_string())
    );
    assert_eq!(dpkg::package_name(""), PackageLookup::NotFound);
    assert_eq!(dpkg::package_name("no colon here"), PackageLookup::Malformed);
}

#[test]
fn rpm_search_gives_whole_output() {
    assert_eq!(
        rpm::package_name("bash-5.1.8-6.el9.x86_64"),
        PackageLookup::Package("bash-5.1.8-6.el9.x86_64".to_string())
    );
    assert_eq!(rpm::package_name(""), PackageLookup::NotFound);
}

#[test]
fn backend_by_os_family() {
    for os in [OsType::Debian, OsType::Ubuntu, OsType::Raspbian] {
        assert_eq!(get_verifier_method(os), Some(Backend::Dpkg));
    }
    for os in [
        OsType::Redhat,
        OsType::RedHatEnterprise,
        OsType::Amazon,
        OsType::CentOS,
        OsType::Fedora,
        OsType::OracleLinux,
    ] {
        assert_eq!(get_verifier_method(os), Some(Backend::Rpm));
    }
    assert_eq!(get_verifier_method(OsType::Other), None);
}
