use vstd::prelude::*;

use crate::procedure::opt_view;
use vstd::string::StrSliceExecFns;

verus! {

/// What the interface remembers between runs.
#[derive(Clone, Copy, Debug, PartialEq, Eq, Structural)]
pub struct InternalState {
    /// The installed data is the data bundled with the addon.
    pub is_bundled: bool,
}

impl Default for InternalState {
    fn default() -> (res: Self)
        ensures
            !res.is_bundled,
    {
        InternalState { is_bundled: false }
    }
}

/// Where the installed navigation data came from.
#[derive(Clone, Copy, Debug, PartialEq, Eq, Structural)]
pub enum InstallStatus {
    Bundled,
    Manual,
    NotInstalled,
}

/// The answer to an install status request.
pub struct NavigationDataStatus {
    pub status: InstallStatus,
    pub installed_format: Option<String>,
    pub installed_revision: Option<String>,
    pub installed_cycle: Option<String>,
    pub install_path: Option<String>,
    pub validity_period: Option<String>,
    pub latest_cycle: String,
}

/// The answer of the endpoint that tells the latest cycle.
pub struct CurrentCycleResponse {
    pub name: String,
    pub version: String,
    pub configuration: String,
    pub cycle: String,
}

/// The cycle file that comes with installed navigation data.
pub struct InstalledNavigationDataCycleInfo {
    pub cycle: String,
    pub revision: String,
    pub name: String,
    pub format: String,
    pub validity_period: String,
}

pub open spec fn install_status_of(found_bundled: bool, found_downloaded: bool) -> InstallStatus {
    if found_bundled {
        InstallStatus::Bundled
    } else if found_downloaded {
        InstallStatus::Manual
    } else {
        InstallStatus::NotInstalled
    }
}

/// The install status from what was found on disk. Bundled data is checked
/// first, as downloaded and bundled data can both be there.
pub fn install_status(found_bundled: bool, found_downloaded: bool) -> (res: InstallStatus)
    ensures
        res == install_status_of(found_bundled, found_downloaded),
{
    if found_bundled {
        InstallStatus::Bundled
    } else if found_downloaded {
        InstallStatus::Manual
    } else {
        InstallStatus::NotInstalled
    }
}

/// Whether the report needs the installed cycle file: whenever some data is
/// installed.
pub fn needs_cycle_info(status: InstallStatus) -> (res: bool)
    ensures
        res == (status != InstallStatus::NotInstalled),
{
    !matches!(status, InstallStatus::NotInstalled)
}

/// The abstract value of an install status report.
pub struct NavigationDataStatusView {
    pub status: InstallStatus,
    pub installed_format: Option<Seq<char>>,
    pub installed_revision: Option<Seq<char>>,
    pub installed_cycle: Option<Seq<char>>,
    pub install_path: Option<Seq<char>>,
    pub validity_period: Option<Seq<char>>,
    pub latest_cycle: Seq<char>,
}

pub open spec fn status_view(s: NavigationDataStatus) -> NavigationDataStatusView {
    NavigationDataStatusView {
        status: s.status,
        installed_format: opt_view(s.installed_format),
        installed_revision: opt_view(s.installed_revision),
        installed_cycle: opt_view(s.installed_cycle),
        install_path: opt_view(s.install_path),
        validity_period: opt_view(s.validity_period),
        latest_cycle: s.latest_cycle@,
    }
}

/// The report: the status, the installed format, revision, cycle and
/// validity period when the cycle file was read, the install path only for
/// manually installed data, and the latest cycle the endpoint announced.
pub open spec fn navigation_data_status_of(
    status: InstallStatus,
    installed: Option<InstalledNavigationDataCycleInfo>,
    work_location: Seq<char>,
    latest: CurrentCycleResponse,
) -> NavigationDataStatusView {
    NavigationDataStatusView {
        status,
        installed_format: match installed {
            Some(i) => Some(i.format@),
            None => None,
        },
        installed_revision: match installed {
            Some(i) => Some(i.revision@),
            None => None,
        },
        installed_cycle: match installed {
            Some(i) => Some(i.cycle@),
            None => None,
        },
        install_path: if status == InstallStatus::Manual {
            Some(work_location)
        } else {
            None
        },
        validity_period: match installed {
            Some(i) => Some(i.validity_period@),
            None => None,
        },
        latest_cycle: latest.cycle@,
    }
}

/// Builds the install status report from the status, the installed cycle
/// file (read when `needs_cycle_info` says so), the place downloaded data
/// is installed to, and the answer of the latest cycle endpoint.
pub fn navigation_data_status(
    status: InstallStatus,
    installed: Option<InstalledNavigationDataCycleInfo>,
    work_location: &str,
    latest: CurrentCycleResponse,
) -> (res: NavigationDataStatus)
    ensures
        status_view(res) == navigation_data_status_of(status, installed, work_location@, latest),
{
    let install_path = if matches!(status, InstallStatus::Manual) {
        Some(work_location.to_string())
    } else {
        None
    };
    match installed {
        Some(i) => NavigationDataStatus {
            status,
            installed_format: Some(i.format),
            installed_revision: Some(i.revision),
            installed_cycle: Some(i.cycle),
            install_path,
            validity_period: Some(i.validity_period),
            latest_cycle: latest.cycle,
        },
        None => NavigationDataStatus {
            status,
            installed_format: None,
            installed_revision: None,
            installed_cycle: None,
            install_path,
            validity_period: None,
            latest_cycle: latest.cycle,
        },
    }
}

/// `a` comes after `b` in lexicographic order (the order of `>` on strings).
pub open spec fn text_greater(a: Seq<char>, b: Seq<char>) -> bool
    decreases a.len(),
{
    if b.len() == 0 {
        a.len() > 0
    } else if a.len() == 0 {
        false
    } else if a[0] != b[0] {
        (a[0] as u32) > (b[0] as u32)
    } else {
        text_greater(a.drop_first(), b.drop_first())
    }
}

proof fn lemma_text_greater_skip(a: Seq<char>, b: Seq<char>, i: int)
    requires
        0 <= i < a.len(),
        i < b.len(),
        a[i] == b[i],
    ensures
        text_greater(a.skip(i), b.skip(i)) == text_greater(a.skip(i + 1), b.skip(i + 1)),
{
    assert(a.skip(i).drop_first() =~= a.skip(i + 1));
    assert(b.skip(i).drop_first() =~= b.skip(i + 1));
}

/// Compares two strings as `a > b` does.
pub fn str_greater(a: &str, b: &str) -> (res: bool)
    ensures
        res == text_greater(a@, b@),
{
    let la = a.unicode_len();
    let lb = b.unicode_len();
    let mut i: usize = 0;
    proof {
        assert(a@.skip(0) =~= a@);
        assert(b@.skip(0) =~= b@);
    }
    while i < la && i < lb
        invariant
            i <= la,
            i <= lb,
            la == a@.len(),
            lb == b@.len(),
            text_greater(a@.skip(i as int), b@.skip(i as int)) == text_greater(a@, b@),
        decreases la - i,
    {
        let ca = a.get_char(i);
        let cb = b.get_char(i);
        if ca != cb {
            proof {
                assert(a@.skip(i as int)[0] == ca);
                assert(b@.skip(i as int)[0] == cb);
            }
            return (ca as u32) > (cb as u32);
        }
        proof {
            lemma_text_greater_skip(a@, b@, i as int);
        }
        i = i + 1;
    }
    proof {
        assert(a@.skip(i as int).len() == la - i);
        assert(b@.skip(i as int).len() == lb - i);
    }
    i < la
}

pub open spec fn should_copy_bundled_of(
    is_bundled: Option<bool>,
    installed_cycle: Option<Seq<char>>,
    bundled_cycle: Option<Seq<char>>,
) -> bool {
    ||| is_bundled is None
    ||| (is_bundled == Some(true) && match (installed_cycle, bundled_cycle) {
        (Some(i), Some(b)) => text_greater(b, i),
        _ => false,
    })
}

/// Whether the bundled database must be copied to the work location before
/// it is loaded: when nothing was installed yet (no internal state), or when
/// the installed data is the bundled data and the bundled cycle is newer than
/// the installed one.
pub fn should_copy_bundled(
    is_bundled: Option<bool>,
    installed_cycle: &Option<String>,
    bundled_cycle: &Option<String>,
) -> (res: bool)
    ensures
        res == should_copy_bundled_of(is_bundled, opt_view(*installed_cycle), opt_view(*bundled_cycle)),
{
    let bundled_updated = match is_bundled {
        Some(true) => match (installed_cycle, bundled_cycle) {
            (Some(i), Some(b)) => str_greater(b.as_str(), i.as_str()),
            _ => false,
        },
        _ => false,
    };
    let need_to_copy = is_bundled.is_none();
    bundled_updated || need_to_copy
}


/// No text comes after itself.
pub proof fn lemma_text_greater_irreflexive(a: Seq<char>)
    ensures
        !text_greater(a, a),
    decreases a.len(),
{
    if a.len() > 0 {
        lemma_text_greater_irreflexive(a.drop_first());
    }
}

/// Of two texts, at most one comes after the other.
pub proof fn lemma_text_greater_asymmetric(a: Seq<char>, b: Seq<char>)
    ensures
        text_greater(a, b) ==> !text_greater(b, a),
    decreases a.len(),
{
    if a.len() > 0 && b.len() > 0 && a[0] == b[0] {
        lemma_text_greater_asymmetric(a.drop_first(), b.drop_first());
    }
}

/// Bundled data whose cycle is the installed cycle is not copied again;
/// nothing installed yet always means a copy.
pub proof fn lemma_copy_only_for_newer_bundle(is_bundled: Option<bool>, installed: Seq<char>, bundled: Seq<char>)
    ensures
        is_bundled is None ==> should_copy_bundled_of(is_bundled, Some(installed), Some(bundled)),
        is_bundled is Some && !text_greater(bundled, installed) ==> !should_copy_bundled_of(
            is_bundled,
            Some(installed),
            Some(bundled),
        ),
        installed == bundled ==> !text_greater(bundled, installed),
{
    lemma_text_greater_irreflexive(installed);
}

} // verus!
