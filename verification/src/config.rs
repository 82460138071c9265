use vstd::prelude::*;

use crate::strutil::is_prefix;

verus! {

/// A local file and the destination it is uploaded to inside the guest.
pub struct UploadFile {
    pub local: String,
    pub remote: String,
}

/// The kernel module under test and how to exercise it.
pub struct Module {
    pub name: String,
    pub test_script: UploadFile,
    pub insmod_args: String,
    pub build_defines: Option<Vec<String>>,
    pub test_files: Vec<UploadFile>,
}

/// The disk image a guest boots from, with its shared assets.
pub struct DiskImage {
    pub url_base: String,
    pub path: String,
    pub initrd: Option<String>,
    pub sshkey: String,
    pub boot: String,
}

/// One target kernel: where its artifacts come from and how to run it.
///
/// The artifact fields (`headers`, `kernel`, `disk.path`, `disk.initrd`,
/// `disk.sshkey`) start out as paths relative to their base URL and are
/// rewritten to local filesystem paths once the cache has resolved them.
pub struct KConfig {
    pub version: String,
    pub url_base: String,
    pub headers: String,
    pub kernel: String,
    pub disk: DiskImage,
    pub runner: String,
    pub runner_extra_args: Option<Vec<String>>,
    pub kvm: bool,
    pub timeout: Option<u64>,
}

/// The boot deadline used when the configuration names none, in seconds.
pub const DEFAULT_TIMEOUT_SECS: u64 = 60;

impl KConfig {
    /// The boot deadline in force for this kernel.
    pub open spec fn spec_effective_timeout(self) -> u64 {
        match self.timeout {
            Some(t) => t,
            None => DEFAULT_TIMEOUT_SECS,
        }
    }

    /// The configured boot timeout, or the default when none was given.
    pub fn effective_timeout(&self) -> (t: u64)
        ensures
            t == self.spec_effective_timeout(),
    {
        match self.timeout {
            Some(t) => t,
            None => DEFAULT_TIMEOUT_SECS,
        }
    }

    /// Does this kernel pass the user's version filter? No filter selects
    /// every kernel; a filter selects the kernels whose version label starts
    /// with it.
    pub open spec fn spec_selected(self, filter: Option<Seq<char>>) -> bool {
        match filter {
            None => true,
            Some(p) => is_prefix(p, self.version@),
        }
    }

    /// Executable form of [`KConfig::spec_selected`].
    pub fn selected(&self, filter: &Option<String>) -> (r: bool)
        ensures
            r == self.spec_selected(match *filter {
                Some(ref p) => Some(p@),
                None => None,
            }),
    {
        match filter {
            None => true,
            Some(p) => crate::strutil::str_starts_with(self.version.as_str(), p.as_str()),
        }
    }
}

/// View of a filter argument as an optional character sequence.
pub open spec fn filter_view(filter: Option<String>) -> Option<Seq<char>> {
    match filter {
        Some(p) => Some(p@),
        None => None,
    }
}

/// Indices of the kernels that pass the filter, in their original order.
///
/// The result lists exactly the positions whose kernel is selected, strictly
/// increasing.
pub fn selected_kernels(kernels: &Vec<KConfig>, filter: &Option<String>) -> (r: Vec<usize>)
    ensures
        forall|t: int|
            0 <= t < r@.len() ==> (r@[t] as int) < kernels@.len() && kernels@[r@[t] as int].spec_selected(
                filter_view(*filter),
            ),
        forall|t1: int, t2: int| 0 <= t1 < t2 < r@.len() ==> r@[t1] < r@[t2],
        forall|idx: int|
            0 <= idx < kernels@.len() && #[trigger] kernels@[idx].spec_selected(filter_view(*filter))
                ==> r@.contains(idx as usize),
{
    let n = kernels.len();
    let mut r: Vec<usize> = Vec::new();
    let mut i: usize = 0;
    while i < n
        invariant
            i <= n,
            n == kernels@.len(),
            forall|t: int|
                0 <= t < r@.len() ==> (r@[t] as int) < i && kernels@[r@[t] as int].spec_selected(
                    filter_view(*filter),
                ),
            forall|t1: int, t2: int| 0 <= t1 < t2 < r@.len() ==> r@[t1] < r@[t2],
            forall|idx: int|
                0 <= idx < i && #[trigger] kernels@[idx].spec_selected(filter_view(*filter))
                    ==> r@.contains(idx as usize),
        decreases n - i,
    {
        let ghost old_r = r@;
        if kernels[i].selected(filter) {
            r.push(i);
            proof {
                assert forall|idx: int|
                    0 <= idx < i + 1 && #[trigger] kernels@[idx].spec_selected(
                        filter_view(*filter),
                    ) implies r@.contains(idx as usize) by {
                    if idx < i {
                        let t = choose|t: int| 0 <= t < old_r.len() && old_r[t] == idx as usize;
                        assert(r@[t] == idx as usize);
                    } else {
                        assert(r@[r@.len() - 1] == i);
                    }
                }
            }
        } else {
            proof {
                assert forall|idx: int|
                    0 <= idx < i + 1 && #[trigger] kernels@[idx].spec_selected(
                        filter_view(*filter),
                    ) implies r@.contains(idx as usize) by {
                    let t = choose|t: int| 0 <= t < old_r.len() && old_r[t] == idx as usize;
                    assert(r@[t] == idx as usize);
                }
            }
        }
        i = i + 1;
    }
    r
}

} // verus!
