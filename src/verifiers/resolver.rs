use vstd::prelude::*;

verus! {

/// The operating systems whose package manager can verify files, and `Other` for the rest.
#[derive(Clone, Copy, Debug, PartialEq, Eq, Structural)]
pub enum OsType {
    Debian,
    Ubuntu,
    Raspbian,
    Redhat,
    RedHatEnterprise,
    Amazon,
    CentOS,
    Fedora,
    OracleLinux,
    Other,
}

/// A package manager that can verify installed files.
#[derive(Clone, Copy, Debug, PartialEq, Eq, Structural)]
pub enum Backend {
    /// Debian's `dpkg`.
    Dpkg,
    /// Red Hat's `rpm`.
    Rpm,
}

/// Systems of the Debian family.
pub open spec fn is_debian_family(os: OsType) -> bool {
    os == OsType::Debian || os == OsType::Ubuntu || os == OsType::Raspbian
}

/// Systems of the Red Hat family.
pub open spec fn is_red_hat_family(os: OsType) -> bool {
    os == OsType::Redhat || os == OsType::RedHatEnterprise || os == OsType::Amazon || os
        == OsType::CentOS || os == OsType::Fedora || os == OsType::OracleLinux
}

/// The package manager to verify files with on `os_type`: dpkg for the Debian family,
/// rpm for the Red Hat family, none otherwise.
pub fn get_verifier_method(os_type: OsType) -> (r: Option<Backend>)
    ensures
        is_debian_family(os_type) ==> r == Some(Backend::Dpkg),
        is_red_hat_family(os_type) ==> r == Some(Backend::Rpm),
        !is_debian_family(os_type) && !is_red_hat_family(os_type) ==> r is None,
{
    match os_type {
        OsType::Debian | OsType::Ubuntu | OsType::Raspbian => Some(Backend::Dpkg),
        OsType::Redhat
        | OsType::RedHatEnterprise
        | OsType::Amazon
        | OsType::CentOS
        | OsType::Fedora
        | OsType::OracleLinux => Some(Backend::Rpm),
        OsType::Other => None,
    }
}

} // verus!
