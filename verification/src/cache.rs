use vstd::prelude::*;

use crate::config::KConfig;
use crate::errors::NixModuleError;
use crate::strutil::{after_last, contains_char, lemma_after_last_append, lemma_after_last_id,
    lemma_after_last_no_sep, str_eq, suffix_after_last};

verus! {

// ---------------------------------------------------------------------------
// Archive recognition
// ---------------------------------------------------------------------------

/// Archive formats the cache recognizes by file extension. Only
/// gzip-compressed tar is actually unpacked; the others are recognized so
/// that they fail explicitly instead of being mishandled as plain files.
#[derive(Clone, Copy, Debug, PartialEq, Eq, Structural)]
pub enum ArchiveType {
    TarGz,
    TarXz,
    TarBz2,
}

/// The extension of a file name: what follows the last `.`, provided some `.`
/// occurs at position 1 or later (so a leading dot alone makes no extension).
pub open spec fn ext_spec(name: Seq<char>) -> Option<Seq<char>> {
    if exists|i: int| 1 <= i < name.len() && name[i] == '.' {
        Some(after_last(name, '.'))
    } else {
        None
    }
}

/// Which archive format an extension names.
pub open spec fn spec_archive_type(ext: Option<Seq<char>>) -> Option<ArchiveType> {
    match ext {
        None => None,
        Some(e) => if e == "gz"@ {
            Some(ArchiveType::TarGz)
        } else if e == "xz"@ {
            Some(ArchiveType::TarXz)
        } else if e == "bz2"@ {
            Some(ArchiveType::TarBz2)
        } else {
            None
        },
    }
}

/// The extension of `name`, as [`ext_spec`] defines it.
pub fn extension_of(name: &str) -> (r: Option<String>)
    ensures
        r is Some <==> ext_spec(name@) is Some,
        r matches Some(e) ==> Some(e@) == ext_spec(name@),
{
    let n = name.unicode_len();
    let mut i: usize = 1;
    let mut found: bool = false;
    while i < n && !found
        invariant
            1 <= i,
            i <= n || n == 0,
            n == name@.len(),
            !found ==> forall|j: int| 1 <= j < i ==> name@[j] != '.',
            found ==> exists|j: int| 1 <= j < name@.len() && name@[j] == '.',
        decreases n - i, (if found {
            0int
        } else {
            1int
        }),
    {
        if name.get_char(i) == '.' {
            found = true;
        } else {
            i = i + 1;
        }
    }
    if found {
        Some(suffix_after_last(name, '.'))
    } else {
        None
    }
}

/// Recognizes an archive by the extension of its file name.
pub fn archive_type_of(name: &str) -> (r: Option<ArchiveType>)
    ensures
        r == spec_archive_type(ext_spec(name@)),
{
    match extension_of(name) {
        None => None,
        Some(e) => {
            if str_eq(e.as_str(), "gz") {
                Some(ArchiveType::TarGz)
            } else if str_eq(e.as_str(), "xz") {
                Some(ArchiveType::TarXz)
            } else if str_eq(e.as_str(), "bz2") {
                Some(ArchiveType::TarBz2)
            } else {
                None
            }
        },
    }
}

// ---------------------------------------------------------------------------
// Remote file names
// ---------------------------------------------------------------------------

/// What the URL parser finds at the end of a URL string: `None` when the
/// string is not a valid URL; `Some(None)` when the URL carries no path
/// segments; `Some(Some(seg))` for the last path segment (possibly empty).
pub uninterp spec fn url_last_segment(s: Seq<char>) -> Option<Option<Seq<char>>>;

/// View of the wrapper's nested result, for stating its contract.
pub open spec fn nested_str_view(r: Option<Option<String>>) -> Option<Option<Seq<char>>> {
    match r {
        None => None,
        Some(None) => Some(None),
        Some(Some(s)) => Some(Some(s@)),
    }
}

/// Relies on `url::Url::parse` and `url::Url::path_segments`: parsing either
/// fails or yields the URL's path segments, and both depend on the URL string
/// alone. `None` reports a malformed URL; `Some(None)` a URL that cannot
/// carry path segments.
#[verifier::external_body]
fn parse_last_segment(uri: &str) -> (r: Option<Option<String>>)
    ensures
        nested_str_view(r) == url_last_segment(uri@),
{
    match url::Url::parse(uri) {
        Err(_) => None,
        Ok(u) => match u.path_segments() {
            None => Some(None),
            Some(segs) => match segs.last() {
                None => Some(None),
                Some(s) => Some(Some(s.to_string())),
            },
        },
    }
}

/// The stable local file name derived from a URL's last path segment, with a
/// fixed placeholder when the URL has no usable segment.
pub open spec fn spec_download_name(seg: Option<Seq<char>>) -> Seq<char> {
    match seg {
        None => "tmp.bin"@,
        Some(s) => if s.len() == 0 {
            "tmp.bin"@
        } else {
            s
        },
    }
}

/// Derives the local file name for a remote artifact from its URL.
///
/// Fails with `BadFilePath` exactly when the URL is malformed.
pub fn derived_file_name(uri: &str) -> (r: Result<String, NixModuleError>)
    ensures
        r is Ok <==> url_last_segment(uri@) is Some,
        r matches Ok(name) ==> name@ == spec_download_name(url_last_segment(uri@)->0),
        r matches Err(e) ==> e == NixModuleError::BadFilePath,
{
    match parse_last_segment(uri) {
        None => Err(NixModuleError::BadFilePath),
        Some(None) => Ok(String::from_str("tmp.bin")),
        Some(Some(s)) => {
            if s.as_str().is_empty() {
                Ok(String::from_str("tmp.bin"))
            } else {
                Ok(s)
            }
        },
    }
}

// ---------------------------------------------------------------------------
// Per-artifact decisions
// ---------------------------------------------------------------------------

/// A fetch is performed only when neither the resolved artifact nor the raw
/// download is already on disk; this is what makes resolution idempotent and
/// cheap to re-run.
pub open spec fn spec_fetch_needed(resolved_exists: bool, download_exists: bool) -> bool {
    !resolved_exists && !download_exists
}

/// Decides whether the network must be touched for one artifact.
pub fn fetch_needed(resolved_exists: bool, download_exists: bool) -> (r: bool)
    ensures
        r == spec_fetch_needed(resolved_exists, download_exists),
{
    !resolved_exists && !download_exists
}

/// An artifact whose resolved path exists is never downloaded, whatever the
/// state of the download path.
pub proof fn lemma_resolved_skips_fetch(download_exists: bool)
    ensures
        !spec_fetch_needed(true, download_exists),
{
}

/// How a downloaded file becomes the resolved artifact.
#[derive(Clone, Copy, Debug, PartialEq, Eq, Structural)]
pub enum ResolveStep {
    /// The resolved path already exists: nothing to do.
    AlreadyResolved,
    /// Unpack the gzip-compressed tar archive into the resolved path.
    UnpackGzTar,
    /// A recognized archive format the cache cannot unpack: fail explicitly.
    UnsupportedArchive(ArchiveType),
    /// A plain file: move it to the resolved path and restrict its
    /// permissions to owner-only read/write.
    MoveAndRestrict,
}

/// The resolution decision for one artifact, from whether its resolved path
/// exists and the name of its downloaded file.
pub open spec fn spec_resolve_step(resolved_exists: bool, name: Seq<char>) -> ResolveStep {
    if resolved_exists {
        ResolveStep::AlreadyResolved
    } else {
        match spec_archive_type(ext_spec(name)) {
            Some(ArchiveType::TarGz) => ResolveStep::UnpackGzTar,
            Some(t) => ResolveStep::UnsupportedArchive(t),
            None => ResolveStep::MoveAndRestrict,
        }
    }
}

/// Decides how to resolve one downloaded artifact.
pub fn resolve_step(resolved_exists: bool, download_name: &str) -> (r: ResolveStep)
    ensures
        r == spec_resolve_step(resolved_exists, download_name@),
{
    if resolved_exists {
        ResolveStep::AlreadyResolved
    } else {
        match archive_type_of(download_name) {
            Some(ArchiveType::TarGz) => ResolveStep::UnpackGzTar,
            Some(t) => ResolveStep::UnsupportedArchive(t),
            None => ResolveStep::MoveAndRestrict,
        }
    }
}

/// A recognized archive is either unpacked (gzip-tar) or refused outright:
/// it is never passed off as a plain file, and only gzip-tar is ever
/// unpacked.
pub proof fn lemma_no_silent_mishandling(name: Seq<char>)
    ensures
        spec_archive_type(ext_spec(name)) matches Some(t) ==> spec_resolve_step(false, name) == (
        if t == ArchiveType::TarGz {
            ResolveStep::UnpackGzTar
        } else {
            ResolveStep::UnsupportedArchive(t)
        }),
        spec_resolve_step(false, name) == ResolveStep::MoveAndRestrict ==> spec_archive_type(
            ext_spec(name),
        ) is None,
{
}

// ---------------------------------------------------------------------------
// The cache itself
// ---------------------------------------------------------------------------

/// Local content store of kernel boot artifacts, rooted at one directory.
///
/// Layout: raw fetches under `<dir>/downloads`, per-version resolved
/// artifacts under `<dir>/cache/<version>`, version-shared assets under
/// `<dir>/cache/images`.
pub struct Cache {
    pub dir: String,
}

/// Which artifact of a kernel configuration a plan entry stands for.
#[derive(Clone, Copy, Debug, PartialEq, Eq, Structural)]
pub enum ArtifactKind {
    Headers,
    Kernel,
    Disk,
    Initrd,
    SshKey,
}

/// One artifact to bring into the cache: where it comes from, where its raw
/// download lands, and where it must stand once resolved.
pub struct Artifact {
    pub kind: ArtifactKind,
    pub url: String,
    pub download: String,
    pub resolved: String,
}

pub open spec fn headers_url(k: KConfig) -> Seq<char> {
    k.url_base@ + "/"@ + k.headers@
}

pub open spec fn kernel_url(k: KConfig) -> Seq<char> {
    k.url_base@ + "/"@ + k.kernel@
}

pub open spec fn disk_url(k: KConfig) -> Seq<char> {
    k.disk.url_base@ + "/"@ + k.disk.path@
}

pub open spec fn initrd_url(k: KConfig) -> Seq<char> {
    k.disk.url_base@ + "/"@ + (k.disk.initrd->0)@
}

pub open spec fn key_url(k: KConfig) -> Seq<char> {
    k.disk.url_base@ + "/"@ + k.disk.sshkey@
}

impl Cache {
    /// A cache rooted at `dir`. Creating the directory layout on disk is the
    /// caller's concern.
    pub fn new(dir: String) -> (c: Cache)
        ensures
            c.dir == dir,
    {
        Cache { dir }
    }

    /// `<dir>/downloads`, where raw fetches land.
    pub open spec fn spec_downloads_dir(self) -> Seq<char> {
        self.dir@ + "/downloads"@
    }

    /// `<dir>/cache/images`, for assets shared across kernel versions.
    pub open spec fn spec_images_dir(self) -> Seq<char> {
        self.dir@ + "/cache/images"@
    }

    /// The download path for a derived file name.
    pub open spec fn spec_download_path(self, name: Seq<char>) -> Seq<char> {
        self.dir@ + "/downloads/"@ + name
    }

    /// Resolved location of the headers of `k`: a fixed name under the
    /// version's cache directory.
    pub open spec fn headers_cpath(self, k: KConfig) -> Seq<char> {
        self.dir@ + "/cache/"@ + k.version@ + "/headers"@
    }

    /// Resolved location of the kernel image of `k`, keyed by the file name
    /// of its configured path.
    pub open spec fn kernel_cpath(self, k: KConfig) -> Seq<char> {
        self.dir@ + "/cache/"@ + k.version@ + "/"@ + after_last(k.kernel@, '/')
    }

    /// Resolved location of the disk image of `k` (shared across versions).
    pub open spec fn disk_cpath(self, k: KConfig) -> Seq<char> {
        self.dir@ + "/cache/images/"@ + after_last(k.disk.path@, '/')
    }

    /// Resolved location of the initrd of `k` (shared across versions).
    pub open spec fn initrd_cpath(self, k: KConfig) -> Seq<char> {
        self.dir@ + "/cache/images/"@ + after_last((k.disk.initrd->0)@, '/')
    }

    /// Resolved location of the SSH key of `k` (shared across versions).
    pub open spec fn key_cpath(self, k: KConfig) -> Seq<char> {
        self.dir@ + "/cache/images/"@ + after_last(k.disk.sshkey@, '/')
    }

    /// `<dir>/downloads` as a value, for the caller that creates the layout.
    pub fn downloads_dir(&self) -> (r: String)
        ensures
            r@ == self.spec_downloads_dir(),
    {
        self.dir.clone().concat("/downloads")
    }

    /// `<dir>/cache/images` as a value, for the caller that creates the
    /// layout.
    pub fn images_dir(&self) -> (r: String)
        ensures
            r@ == self.spec_images_dir(),
    {
        self.dir.clone().concat("/cache/images")
    }

    fn download_path(&self, name: &str) -> (r: String)
        ensures
            r@ == self.spec_download_path(name@),
    {
        self.dir.clone().concat("/downloads/").concat(name)
    }

    fn artifact(&self, kind: ArtifactKind, url: String, resolved: String) -> (r: Result<
        Artifact,
        NixModuleError,
    >)
        ensures
            r is Ok <==> url_last_segment(url@) is Some,
            r matches Ok(a) ==> {
                &&& a.kind == kind
                &&& a.url == url
                &&& a.resolved == resolved
                &&& a.download@ == self.spec_download_path(
                    spec_download_name(url_last_segment(url@)->0),
                )
            },
            r matches Err(e) ==> e == NixModuleError::BadFilePath,
    {
        let name = match derived_file_name(url.as_str()) {
            Ok(name) => name,
            Err(e) => {
                return Err(e);
            },
        };
        let download = self.download_path(name.as_str());
        Ok(Artifact { kind, url, download, resolved })
    }

    /// The full resolution plan for one kernel: every artifact with its URL,
    /// download path and resolved path, in the order they are processed
    /// (headers, kernel image, disk image, optional initrd, SSH key).
    ///
    /// Fails with `BadFilePath` exactly when some artifact URL is malformed.
    pub fn plan(&self, k: &KConfig) -> (r: Result<Vec<Artifact>, NixModuleError>)
        ensures
            r is Ok <==> {
                &&& url_last_segment(headers_url(*k)) is Some
                &&& url_last_segment(kernel_url(*k)) is Some
                &&& url_last_segment(disk_url(*k)) is Some
                &&& (k.disk.initrd is Some ==> url_last_segment(initrd_url(*k)) is Some)
                &&& url_last_segment(key_url(*k)) is Some
            },
            r matches Ok(v) ==> {
                &&& v@.len() == (if k.disk.initrd is Some {
                    5int
                } else {
                    4int
                })
                &&& v@[0].kind == ArtifactKind::Headers
                &&& v@[0].url@ == headers_url(*k)
                &&& v@[0].resolved@ == self.headers_cpath(*k)
                &&& v@[0].download@ == self.spec_download_path(
                    spec_download_name(url_last_segment(headers_url(*k))->0),
                )
                &&& v@[1].kind == ArtifactKind::Kernel
                &&& v@[1].url@ == kernel_url(*k)
                &&& v@[1].resolved@ == self.kernel_cpath(*k)
                &&& v@[1].download@ == self.spec_download_path(
                    spec_download_name(url_last_segment(kernel_url(*k))->0),
                )
                &&& v@[2].kind == ArtifactKind::Disk
                &&& v@[2].url@ == disk_url(*k)
                &&& v@[2].resolved@ == self.disk_cpath(*k)
                &&& v@[2].download@ == self.spec_download_path(
                    spec_download_name(url_last_segment(disk_url(*k))->0),
                )
                &&& (k.disk.initrd is Some ==> {
                    &&& v@[3].kind == ArtifactKind::Initrd
                    &&& v@[3].url@ == initrd_url(*k)
                    &&& v@[3].resolved@ == self.initrd_cpath(*k)
                    &&& v@[3].download@ == self.spec_download_path(
                        spec_download_name(url_last_segment(initrd_url(*k))->0),
                    )
                })
                &&& v@[v@.len() - 1].kind == ArtifactKind::SshKey
                &&& v@[v@.len() - 1].url@ == key_url(*k)
                &&& v@[v@.len() - 1].resolved@ == self.key_cpath(*k)
                &&& v@[v@.len() - 1].download@ == self.spec_download_path(
                    spec_download_name(url_last_segment(key_url(*k))->0),
                )
            },
            r matches Err(e) ==> e == NixModuleError::BadFilePath,
    {
        let version_dir = self.dir.clone().concat("/cache/").concat(k.version.as_str());
        let images_dir = self.dir.clone().concat("/cache/images/");

        let mut v: Vec<Artifact> = Vec::new();

        let headers_u = k.url_base.clone().concat("/").concat(k.headers.as_str());
        let headers_c = version_dir.clone().concat("/headers");
        match self.artifact(ArtifactKind::Headers, headers_u, headers_c) {
            Ok(a) => {
                v.push(a);
            },
            Err(e) => {
                return Err(e);
            },
        }

        let kernel_u = k.url_base.clone().concat("/").concat(k.kernel.as_str());
        let kernel_name = suffix_after_last(k.kernel.as_str(), '/');
        let kernel_c = version_dir.clone().concat("/").concat(kernel_name.as_str());
        match self.artifact(ArtifactKind::Kernel, kernel_u, kernel_c) {
            Ok(a) => {
                v.push(a);
            },
            Err(e) => {
                return Err(e);
            },
        }

        let disk_u = k.disk.url_base.clone().concat("/").concat(k.disk.path.as_str());
        let disk_name = suffix_after_last(k.disk.path.as_str(), '/');
        let disk_c = images_dir.clone().concat(disk_name.as_str());
        match self.artifact(ArtifactKind::Disk, disk_u, disk_c) {
            Ok(a) => {
                v.push(a);
            },
            Err(e) => {
                return Err(e);
            },
        }

        match &k.disk.initrd {
            Some(initrd) => {
                let initrd_u = k.disk.url_base.clone().concat("/").concat(initrd.as_str());
                let initrd_name = suffix_after_last(initrd.as_str(), '/');
                let initrd_c = images_dir.clone().concat(initrd_name.as_str());
                match self.artifact(ArtifactKind::Initrd, initrd_u, initrd_c) {
                    Ok(a) => {
                        v.push(a);
                    },
                    Err(e) => {
                        return Err(e);
                    },
                }
            },
            None => {},
        }

        let key_u = k.disk.url_base.clone().concat("/").concat(k.disk.sshkey.as_str());
        let key_name = suffix_after_last(k.disk.sshkey.as_str(), '/');
        let key_c = images_dir.clone().concat(key_name.as_str());
        match self.artifact(ArtifactKind::SshKey, key_u, key_c) {
            Ok(a) => {
                v.push(a);
            },
            Err(e) => {
                return Err(e);
            },
        }

        Ok(v)
    }
}

/// Rewrites the artifact references of `kernel` to their resolved local
/// paths, leaving every other field as it was.
pub fn apply_resolved(
    kernel: &mut KConfig,
    headers: String,
    kernel_image: String,
    disk: String,
    initrd: Option<String>,
    sshkey: String,
)
    ensures
        final(kernel).headers == headers,
        final(kernel).kernel == kernel_image,
        final(kernel).disk.path == disk,
        final(kernel).disk.initrd == initrd,
        final(kernel).disk.sshkey == sshkey,
        final(kernel).version == old(kernel).version,
        final(kernel).url_base == old(kernel).url_base,
        final(kernel).disk.url_base == old(kernel).disk.url_base,
        final(kernel).disk.boot == old(kernel).disk.boot,
        final(kernel).runner == old(kernel).runner,
        final(kernel).runner_extra_args == old(kernel).runner_extra_args,
        final(kernel).kvm == old(kernel).kvm,
        final(kernel).timeout == old(kernel).timeout,
{
    kernel.headers = headers;
    kernel.kernel = kernel_image;
    kernel.disk.path = disk;
    kernel.disk.initrd = initrd;
    kernel.disk.sshkey = sshkey;
}

/// Does `k2` hold the same configuration as `k`, with every artifact
/// reference rewritten to its resolved path — the state of a configuration
/// after one successful resolution?
pub open spec fn is_resolved_form(c: Cache, k: KConfig, k2: KConfig) -> bool {
    &&& k2.version@ == k.version@
    &&& k2.headers@ == c.headers_cpath(k)
    &&& k2.kernel@ == c.kernel_cpath(k)
    &&& k2.disk.path@ == c.disk_cpath(k)
    &&& (match (k.disk.initrd, k2.disk.initrd) {
        (Some(_), Some(i2)) => i2@ == c.initrd_cpath(k),
        (None, None) => true,
        _ => false,
    })
    &&& k2.disk.sshkey@ == c.key_cpath(k)
}

proof fn lemma_after_last_of_path(prefix: Seq<char>, name: Seq<char>)
    requires
        !contains_char(name, '/'),
    ensures
        after_last(prefix + "/"@ + name, '/') == name,
{
    reveal_strlit("/");
    assert("/"@ =~= seq!['/']);
    assert(prefix + "/"@ + name =~= prefix + seq!['/'] + name);
    lemma_after_last_append(prefix, name, '/');
    lemma_after_last_id(name, '/');
}

/// Resolution is idempotent: on a configuration already in resolved form,
/// every artifact's resolved path comes out unchanged, and — because each of
/// those paths then exists on disk — no artifact is fetched again.
pub proof fn lemma_resolve_idempotent(c: Cache, k: KConfig, k2: KConfig)
    requires
        is_resolved_form(c, k, k2),
    ensures
        c.headers_cpath(k2) == c.headers_cpath(k),
        c.kernel_cpath(k2) == c.kernel_cpath(k),
        c.disk_cpath(k2) == c.disk_cpath(k),
        k.disk.initrd is Some ==> c.initrd_cpath(k2) == c.initrd_cpath(k),
        c.key_cpath(k2) == c.key_cpath(k),
        forall|download_exists: bool| !spec_fetch_needed(true, download_exists),
{
    reveal_strlit("/cache/images/");
    reveal_strlit("/cache/images");
    reveal_strlit("/");
    assert("/cache/images/"@ =~= "/cache/images"@ + "/"@);
    let images = c.dir@ + "/cache/images"@;

    let kname = after_last(k.kernel@, '/');
    lemma_after_last_no_sep(k.kernel@, '/');
    assert(k2.kernel@ =~= (c.dir@ + "/cache/"@ + k.version@) + "/"@ + kname);
    lemma_after_last_of_path(c.dir@ + "/cache/"@ + k.version@, kname);

    let dname = after_last(k.disk.path@, '/');
    lemma_after_last_no_sep(k.disk.path@, '/');
    assert(k2.disk.path@ =~= images + "/"@ + dname);
    lemma_after_last_of_path(images, dname);
    assert(c.disk_cpath(k2) =~= c.disk_cpath(k));

    if k.disk.initrd is Some {
        let iname = after_last((k.disk.initrd->0)@, '/');
        lemma_after_last_no_sep((k.disk.initrd->0)@, '/');
        assert((k2.disk.initrd->0)@ =~= images + "/"@ + iname);
        lemma_after_last_of_path(images, iname);
        assert(c.initrd_cpath(k2) =~= c.initrd_cpath(k));
    }

    let sname = after_last(k.disk.sshkey@, '/');
    lemma_after_last_no_sep(k.disk.sshkey@, '/');
    assert(k2.disk.sshkey@ =~= images + "/"@ + sname);
    lemma_after_last_of_path(images, sname);
    assert(c.key_cpath(k2) =~= c.key_cpath(k));
}

} // verus!
