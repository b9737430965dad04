//! Attachment path sandboxing.
//!
//! Restricts the server-local file paths the attachment tools may touch.
//! Operators configure allowed root directories for uploads (files read
//! from disk) and downloads (files written to disk); paths outside those
//! roots are rejected after full canonicalization, so `..` traversal and
//! symlink escapes cannot leave a root. With no roots configured the
//! sandbox is permissive and paths are used as given.
//!
//! Known limitations (inherent to path-check sandboxes): a hard link
//! inside a root can alias a file outside it, and a symlink swapped in
//! between the check and the subsequent IO (a TOCTOU race) is not caught.

use vstd::prelude::*;

use crate::error::{Error, is_invalid_argument};
use crate::text::{chars_of, owned, push_str, starts_with_at};

verus! {

// ----- Paths on disk ---------------------------------------------------------

/// `Path::canonicalize`, the path taken as text, or the error's text. A
/// canonical path that is not valid UTF-8 has no text form and is reported
/// as an error rather than altered. What it returns depends on the file
/// system at the moment of the call, so nothing is stated of it.
#[verifier::external_body]
fn canonicalize(path: &str) -> (r: Result<String, String>) {
    match std::path::Path::new(path).canonicalize() {
        Ok(p) => match p.into_os_string().into_string() {
            Ok(text) => Ok(text),
            Err(_) => Err(String::from("the canonical path is not valid UTF-8")),
        },
        Err(e) => Err(e.to_string()),
    }
}

/// `Path::is_dir`: whether the path names an existing directory. Depends
/// on the file system; nothing is stated of it.
#[verifier::external_body]
fn is_directory(path: &str) -> (r: bool) {
    std::path::Path::new(path).is_dir()
}

/// `Path::is_symlink`: whether the path exists and is a symbolic link.
/// Depends on the file system; nothing is stated of it.
#[verifier::external_body]
fn is_symlink(path: &str) -> (r: bool) {
    std::path::Path::new(path).is_symlink()
}

/// The final component of a path, as `Path::file_name` gives it (`None`
/// when the path ends in `..` or is a root).
pub uninterp spec fn file_name_of(path: Seq<char>) -> Option<Seq<char>>;

/// The parent of a path, as `Path::parent` gives it.
pub uninterp spec fn parent_of(path: Seq<char>) -> Option<Seq<char>>;

/// `base` joined with `name`, as `Path::join` gives it.
pub uninterp spec fn joined(base: Seq<char>, name: Seq<char>) -> Seq<char>;

/// `Path::file_name`, taken as text. The result is named, not stated.
#[verifier::external_body]
fn path_file_name(path: &str) -> (r: Option<String>)
    ensures
        match r {
            Some(n) => file_name_of(path@) == Some(n@),
            None => file_name_of(path@) is None,
        },
{
    match std::path::Path::new(path).file_name() {
        Some(n) => Some(n.to_string_lossy().into_owned()),
        None => None,
    }
}

/// `Path::parent`, taken as text. The result is named, not stated.
#[verifier::external_body]
fn path_parent(path: &str) -> (r: Option<String>)
    ensures
        match r {
            Some(p) => parent_of(path@) == Some(p@),
            None => parent_of(path@) is None,
        },
{
    match std::path::Path::new(path).parent() {
        Some(p) => Some(p.to_string_lossy().into_owned()),
        None => None,
    }
}

/// `Path::join`, taken as text. The result is named, not stated.
#[verifier::external_body]
fn path_join(base: &str, name: &str) -> (r: String)
    ensures
        r@ == joined(base@, name@),
{
    std::path::Path::new(base).join(name).to_string_lossy().into_owned()
}

// ----- Containment -----------------------------------------------------------

/// Whether the canonical path `path` lies at or below the canonical
/// directory `root`, comparing whole components: `/data/allowed` contains
/// `/data/allowed/x` but not `/data/allowed-evil/x`. (For canonical paths,
/// which have no `.` or `..` components, no repeated separators and no
/// trailing separator but on the root itself, this is `Path::starts_with`.)
pub open spec fn contains_path(root: Seq<char>, path: Seq<char>) -> bool {
    ||| path == root
    ||| (root.len() > 0 && root.last() == '/' && has_prefix(path, root))
    ||| has_prefix(path, root.push('/'))
}

pub open spec fn has_prefix(s: Seq<char>, p: Seq<char>) -> bool {
    p.len() <= s.len() && s.subrange(0, p.len() as int) == p
}

/// Whether `path` lies within one of the roots.
pub open spec fn within_roots(path: Seq<char>, roots: Seq<String>) -> bool {
    exists|i: int| 0 <= i < roots.len() && contains_path(#[trigger] roots[i]@, path)
}

fn contains_path_exec(root: &str, path: &str) -> (r: bool)
    ensures
        r == contains_path(root@, path@),
{
    let rv = chars_of(root);
    let pv = chars_of(path);
    if crate::text::chars_eq(&rv, &pv) {
        return true;
    }
    if rv.len() > 0 && rv[rv.len() - 1] == '/' {
        if starts_with_at(&pv, &rv, 0) {
            assert(pv@.subrange(0, rv@.len() as int) == rv@);
            return true;
        }
    }
    let mut rs = rv.clone();
    rs.push('/');
    let r = starts_with_at(&pv, &rs, 0);
    proof {
        if r {
            assert(pv@.subrange(0, rs@.len() as int) == rs@);
        }
        if !r {
            assert(!has_prefix(path@, root@.push('/'))) by {
                if has_prefix(path@, root@.push('/')) {
                    assert(rs@ == root@.push('/'));
                }
            }
        }
    }
    r
}

/// Whether a canonical path lies within one of the canonical roots.
pub fn is_within(path: &str, roots: &[String]) -> (r: bool)
    ensures
        r == within_roots(path@, roots@),
{
    let mut i: usize = 0;
    while i < roots.len()
        invariant
            i <= roots.len(),
            forall|j: int| 0 <= j < i ==> !contains_path(#[trigger] roots@[j]@, path@),
        decreases roots.len() - i,
    {
        if contains_path_exec(roots[i].as_str(), path) {
            return true;
        }
        i = i + 1;
    }
    false
}

/// A directory never contains a sibling whose name merely extends its own:
/// `<root>-evil/...` is not within `<root>`.
pub proof fn lemma_sibling_prefix_is_outside(root: Seq<char>, rest: Seq<char>)
    requires
        root.len() > 0,
        root.last() != '/',
        rest.len() > 0,
        rest[0] != '/',
    ensures
        !contains_path(root, root + rest),
{
    let path = root + rest;
    assert(path != root) by {
        assert(path.len() > root.len());
    }
    if has_prefix(path, root.push('/')) {
        assert(path[root.len() as int] == root.push('/')[root.len() as int]);
        assert(path[root.len() as int] == rest[0]);
    }
}

// ----- The sandbox -----------------------------------------------------------

/// A configured sandbox root that could not be validated.
#[derive(Debug, Clone, PartialEq)]
pub struct InvalidRoot {
    pub path: String,
    pub reason: String,
}

impl InvalidRoot {
    /// `attachment root `{path}` is not usable: {reason}`.
    pub fn message(&self) -> (s: String)
        ensures
            s@ == "attachment root `"@ + self.path@ + "` is not usable: "@ + self.reason@,
    {
        let mut s = owned("attachment root `");
        push_str(&mut s, self.path.as_str());
        push_str(&mut s, "` is not usable: ");
        push_str(&mut s, self.reason.as_str());
        s
    }
}

/// Validates one configured root from what the file system reported: its
/// canonical form (or why it has none) and whether that is a directory.
pub fn check_root(root: &str, canonical: Result<String, String>, is_dir: bool) -> (r: Result<
    String,
    InvalidRoot,
>)
    ensures
        match canonical {
            Err(e) => r matches Err(x) && x.path@ == root@ && x.reason == e,
            Ok(c) => if is_dir {
                r == Ok::<String, InvalidRoot>(c)
            } else {
                r matches Err(x) && x.path@ == root@ && x.reason@ == "not a directory"@
            },
        },
{
    match canonical {
        Err(e) => Err(InvalidRoot { path: owned(root), reason: e }),
        Ok(c) => if is_dir {
            Ok(c)
        } else {
            Err(InvalidRoot { path: owned(root), reason: owned("not a directory") })
        },
    }
}

/// What the file system reported for one configured root: its canonical
/// form (or why it has none), and whether that canonical path is a
/// directory.
pub type RootReport = (Result<String, String>, bool);

/// Whether a report describes a usable root: it canonicalized to a
/// directory.
pub open spec fn usable(report: RootReport) -> bool {
    report.0 is Ok && report.1
}

/// `x` is the error `check_root` gives for `root` and its report.
pub open spec fn root_error(x: InvalidRoot, root: Seq<char>, report: RootReport) -> bool {
    &&& x.path@ == root
    &&& match report.0 {
        Err(e) => x.reason == e,
        Ok(_) => x.reason@ == "not a directory"@,
    }
}

/// Every report is usable and `v` holds their canonical paths in order.
pub open spec fn canonical_roots(reports: Seq<RootReport>, v: Seq<String>) -> bool {
    &&& forall|i: int| 0 <= i < reports.len() ==> usable(#[trigger] reports[i])
    &&& v.len() == reports.len()
    &&& forall|i: int| 0 <= i < v.len() ==> #[trigger] v[i] == reports[i].0->Ok_0
}

/// The outcome of checking roots against their reports: the canonical
/// paths in order when every root is usable, else the error of the first
/// root that is not.
pub open spec fn roots_checked(
    roots: Seq<String>,
    reports: Seq<RootReport>,
    r: Result<Vec<String>, InvalidRoot>,
) -> bool {
    match r {
        Ok(v) => canonical_roots(reports, v@),
        Err(x) => exists|i: int|
            #![trigger reports[i]]
            0 <= i < reports.len() && !usable(reports[i]) && (forall|j: int|
                0 <= j < i ==> usable(#[trigger] reports[j])) && root_error(x, roots[i]@, reports[i]),
    }
}

/// Checks configured roots against what the file system reported for
/// each (`reports[i]` for `roots[i]`): fails closed on the first root that
/// did not canonicalize or is not a directory, and otherwise yields the
/// canonical paths in order.
pub fn check_roots(roots: &[String], reports: Vec<RootReport>) -> (r: Result<Vec<String>, InvalidRoot>)
    requires
        reports@.len() == roots@.len(),
    ensures
        roots_checked(roots@, reports@, r),
{
    let mut out: Vec<String> = Vec::new();
    let mut pending = reports;
    let ghost all = pending@;
    let n = pending.len();
    let mut i: usize = 0;
    while i < n
        invariant
            i <= n,
            n == all.len(),
            n == roots@.len(),
            pending@ == all.subrange(i as int, n as int),
            all == reports@,
            out@.len() == i,
            forall|j: int| 0 <= j < i ==> usable(#[trigger] all[j]),
            forall|j: int| 0 <= j < i ==> #[trigger] out@[j] == all[j].0->Ok_0,
        decreases n - i,
    {
        let report = pending.remove(0);
        assert(report == all[i as int]);
        assert(pending@ =~= all.subrange(i + 1, n as int));
        let (canonical, is_dir) = report;
        match check_root(roots[i].as_str(), canonical, is_dir) {
            Ok(c) => out.push(c),
            Err(x) => {
                assert(!usable(all[i as int]));
                assert(root_error(x, roots@[i as int]@, all[i as int]));
                assert(0 <= i < all.len() && !usable(all[i as int]) && (forall|j: int|
                    0 <= j < i ==> usable(#[trigger] all[j])) && root_error(
                    x,
                    roots@[i as int]@,
                    all[i as int],
                ));
                assert(all == reports@);
                return Err(x);
            },
        }
        i = i + 1;
    }
    Ok(out)
}

/// Asks the file system about each configured root: its canonical form
/// and whether that is a directory.
fn report_roots(roots: &[String]) -> (reports: Vec<RootReport>)
    ensures
        reports@.len() == roots@.len(),
{
    let mut reports: Vec<RootReport> = Vec::new();
    let mut i: usize = 0;
    while i < roots.len()
        invariant
            i <= roots.len(),
            reports@.len() == i,
        decreases roots.len() - i,
    {
        let canonical = canonicalize(roots[i].as_str());
        let dir = match &canonical {
            Ok(c) => is_directory(c.as_str()),
            Err(_) => false,
        };
        reports.push((canonical, dir));
        i = i + 1;
    }
    reports
}

/// Canonicalizes each configured root; fails (closed) on the first root
/// that does not exist or is not a directory.
pub fn canonicalize_roots(roots: &[String]) -> (r: Result<Vec<String>, InvalidRoot>)
    ensures
        exists|reports: Seq<RootReport>| reports.len() == roots@.len() && roots_checked(
            roots@,
            reports,
            r,
        ),
{
    let reports = report_roots(roots);
    let r = check_roots(roots, reports);
    r
}

/// Validated attachment path sandbox. Roots are canonical absolute paths;
/// an empty root list disables checking for that direction.
#[derive(Debug, Clone, Default)]
pub struct AttachmentSandbox {
    upload_roots: Vec<String>,
    download_roots: Vec<String>,
}

pub open spec fn upload_outside_message(raw: Seq<char>) -> Seq<char> {
    "file_path `"@ + raw + "` is outside the allowed attachment upload directories"@
}

pub open spec fn download_outside_message(raw: Seq<char>) -> Seq<char> {
    "save_path `"@ + raw + "` is outside the allowed attachment download directories"@
}

pub open spec fn no_file_name_message(raw: Seq<char>) -> Seq<char> {
    "save_path `"@ + raw + "` does not name a file"@
}

pub open spec fn symlink_message(raw: Seq<char>) -> Seq<char> {
    "save_path `"@ + raw + "` is an existing symlink; refusing to write through it"@
}

/// Whether `e` is the I/O error with the given detail.
pub open spec fn is_io_error(e: Error, detail: Seq<char>) -> bool {
    e matches Error::Io { detail: d } && d@ == detail
}

/// Whether `p` is the file `name` inside a directory within the roots.
pub open spec fn in_some_root(p: Seq<char>, roots: Seq<String>, name: Seq<char>) -> bool {
    exists|c: Seq<char>| within_roots(c, roots) && p == #[trigger] joined(c, name)
}

/// A sandbox built from checked roots: both directions usable and the
/// sandbox holding their canonical paths, or the error of the first
/// unusable root, upload roots first.
pub open spec fn sandbox_built(
    upload_roots: Seq<String>,
    upload_reports: Seq<RootReport>,
    download_roots: Seq<String>,
    download_reports: Seq<RootReport>,
    r: Result<AttachmentSandbox, InvalidRoot>,
) -> bool {
    match r {
        Ok(s) => canonical_roots(upload_reports, s.uploads()) && canonical_roots(
            download_reports,
            s.downloads(),
        ),
        Err(x) => roots_checked(upload_roots, upload_reports, Err(x)) || (
        (forall|i: int| 0 <= i < upload_reports.len() ==> usable(#[trigger] upload_reports[i]))
            && roots_checked(download_roots, download_reports, Err(x))),
    }
}

impl AttachmentSandbox {
    pub closed spec fn uploads(&self) -> Seq<String> {
        self.upload_roots@
    }

    pub closed spec fn downloads(&self) -> Seq<String> {
        self.download_roots@
    }

    /// Builds a sandbox from the checked roots: the upload roots are checked
    /// first, and the first unusable root (uploads before downloads) is the
    /// error; otherwise the sandbox holds the canonical paths in order.
    pub fn from_reports(
        upload_roots: &[String],
        upload_reports: Vec<RootReport>,
        download_roots: &[String],
        download_reports: Vec<RootReport>,
    ) -> (r: Result<Self, InvalidRoot>)
        requires
            upload_reports@.len() == upload_roots@.len(),
            download_reports@.len() == download_roots@.len(),
        ensures
            sandbox_built(upload_roots@, upload_reports@, download_roots@, download_reports@, r),
    {
        let up = check_roots(upload_roots, upload_reports);
        let up = match up {
            Ok(v) => v,
            Err(x) => {
                return Err(x);
            },
        };
        let down = check_roots(download_roots, download_reports);
        let down = match down {
            Ok(v) => v,
            Err(x) => {
                return Err(x);
            },
        };
        Ok(AttachmentSandbox { upload_roots: up, download_roots: down })
    }

    /// Builds a sandbox from configured root directories, canonicalizing
    /// each one. Fails (closed) when a configured root does not exist or is
    /// not a directory, so a typo cannot silently disable the sandbox.
    pub fn new(upload_roots: &[String], download_roots: &[String]) -> (r: Result<Self, InvalidRoot>)
        ensures
            exists|ur: Seq<RootReport>, dr: Seq<RootReport>|
                ur.len() == upload_roots@.len() && dr.len() == download_roots@.len()
                    && sandbox_built(upload_roots@, ur, download_roots@, dr, r),
    {
        let up = report_roots(upload_roots);
        let down = report_roots(download_roots);
        let ghost (ur, dr) = (up@, down@);
        let r = AttachmentSandbox::from_reports(upload_roots, up, download_roots, down);
        assert(sandbox_built(upload_roots@, ur, download_roots@, dr, r));
        r
    }

    /// True when no roots are configured in either direction.
    pub fn is_permissive(&self) -> (r: bool)
        ensures
            r == (self.uploads().len() == 0 && self.downloads().len() == 0),
    {
        self.upload_roots.len() == 0 && self.download_roots.len() == 0
    }

    /// Decides an upload path from the canonical form the file system
    /// reported for it (or the reason it has none).
    pub fn upload_decision(&self, raw: &str, canonical: Result<String, String>) -> (r: Result<
        String,
        Error,
    >)
        ensures
            self.uploads().len() == 0 ==> (r matches Ok(p) && p@ == raw@),
            self.uploads().len() > 0 ==> match canonical {
                Err(e) => r matches Err(x) && is_io_error(x, "could not read "@ + raw@ + ": "@ + e@),
                Ok(c) => if within_roots(c@, self.uploads()) {
                    r == Ok::<String, Error>(c)
                } else {
                    r matches Err(x) && is_invalid_argument(x, upload_outside_message(raw@))
                },
            },
    {
        if self.upload_roots.len() == 0 {
            return Ok(owned(raw));
        }
        match canonical {
            Err(e) => {
                let mut d = owned("could not read ");
                push_str(&mut d, raw);
                push_str(&mut d, ": ");
                push_str(&mut d, e.as_str());
                Err(Error::Io { detail: d })
            },
            Ok(c) => {
                if !is_within(c.as_str(), self.upload_roots.as_slice()) {
                    let mut m = owned("file_path `");
                    push_str(&mut m, raw);
                    push_str(&mut m, "` is outside the allowed attachment upload directories");
                    return Err(Error::InvalidArgument(m));
                }
                Ok(c)
            },
        }
    }

    /// Validates a path an upload wants to read and returns the canonical
    /// path to use for the read. The file must exist; symlinks are resolved
    /// before the root check, so a symlink inside a root pointing outside
    /// is rejected. Whatever the file system reports, a path that comes back
    /// lies within an upload root when any is configured.
    pub fn resolve_upload_path(&self, raw: &str) -> (r: Result<String, Error>)
        ensures
            self.uploads().len() == 0 ==> (r matches Ok(p) && p@ == raw@),
            self.uploads().len() > 0 ==> match r {
                Ok(p) => within_roots(p@, self.uploads()),
                Err(x) => (exists|e: Seq<char>| is_io_error(x, "could not read "@ + raw@ + ": "@ + e))
                    || is_invalid_argument(x, upload_outside_message(raw@)),
            },
    {
        if self.upload_roots.len() == 0 {
            return Ok(owned(raw));
        }
        let canonical = canonicalize(raw);
        self.upload_decision(raw, canonical)
    }

    /// Decides the target of a download from the canonical form the file
    /// system reported for its parent directory: the canonical parent,
    /// which must lie within a download root, joined with the file name.
    pub fn download_target(&self, raw: &str, name: &str, canonical_parent: Result<String, String>) -> (r:
        Result<String, Error>)
        ensures
            match canonical_parent {
                Err(e) => r matches Err(x) && is_io_error(
                    x,
                    "could not resolve the directory of "@ + raw@ + ": "@ + e@,
                ),
                Ok(c) => if within_roots(c@, self.downloads()) {
                    r matches Ok(p) && p@ == joined(c@, name@)
                } else {
                    r matches Err(x) && is_invalid_argument(x, download_outside_message(raw@))
                },
            },
    {
        match canonical_parent {
            Err(e) => {
                let mut d = owned("could not resolve the directory of ");
                push_str(&mut d, raw);
                push_str(&mut d, ": ");
                push_str(&mut d, e.as_str());
                Err(Error::Io { detail: d })
            },
            Ok(c) => {
                if !is_within(c.as_str(), self.download_roots.as_slice()) {
                    let mut m = owned("save_path `");
                    push_str(&mut m, raw);
                    push_str(&mut m, "` is outside the allowed attachment download directories");
                    return Err(Error::InvalidArgument(m));
                }
                Ok(path_join(c.as_str(), name))
            },
        }
    }

    /// Refuses to write through a pre-existing symlink: its target could be
    /// outside the root even though the link itself is inside.
    pub fn refuse_symlink(raw: &str, candidate: String, is_link: bool) -> (r: Result<String, Error>)
        ensures
            is_link ==> (r matches Err(x) && is_invalid_argument(x, symlink_message(raw@))),
            !is_link ==> r == Ok::<String, Error>(candidate),
    {
        if is_link {
            let mut m = owned("save_path `");
            push_str(&mut m, raw);
            push_str(&mut m, "` is an existing symlink; refusing to write through it");
            return Err(Error::InvalidArgument(m));
        }
        Ok(candidate)
    }

    /// Decides a download target from what the file system reported: the
    /// canonical form of the parent directory (or why it has none), and
    /// whether the target inside it is an existing symlink. The parent must
    /// lie within a download root, and a symlink is refused.
    pub fn download_decision(
        &self,
        raw: &str,
        name: &str,
        canonical_parent: Result<String, String>,
        is_link: bool,
    ) -> (r: Result<String, Error>)
        ensures
            match canonical_parent {
                Err(e) => r matches Err(x) && is_io_error(
                    x,
                    "could not resolve the directory of "@ + raw@ + ": "@ + e@,
                ),
                Ok(c) => if !within_roots(c@, self.downloads()) {
                    r matches Err(x) && is_invalid_argument(x, download_outside_message(raw@))
                } else if is_link {
                    r matches Err(x) && is_invalid_argument(x, symlink_message(raw@))
                } else {
                    r matches Ok(p) && p@ == joined(c@, name@)
                },
            },
    {
        let candidate = self.download_target(raw, name, canonical_parent)?;
        AttachmentSandbox::refuse_symlink(raw, candidate, is_link)
    }

    /// Validates a path a download wants to write and returns the path to
    /// use for the write: the canonicalized parent directory joined with
    /// the file name. The parent must exist and resolve into a download
    /// root; an existing symlink at the target is rejected. The file system
    /// is asked about `download_parent(raw)` and about the target inside
    /// its canonical form; `download_decision` decides from the answers.
    pub fn resolve_download_path(&self, raw: &str) -> (r: Result<String, Error>)
        ensures
            self.downloads().len() == 0 ==> (r matches Ok(p) && p@ == raw@),
            self.downloads().len() > 0 ==> match file_name_of(raw@) {
                None => r matches Err(x) && is_invalid_argument(x, no_file_name_message(raw@)),
                Some(n) => match r {
                    Ok(p) => in_some_root(p@, self.downloads(), n),
                    Err(x) => (exists|e: Seq<char>|
                        is_io_error(x, "could not resolve the directory of "@ + raw@ + ": "@ + e))
                        || is_invalid_argument(x, download_outside_message(raw@))
                        || is_invalid_argument(x, symlink_message(raw@)),
                },
            },
    {
        if self.download_roots.len() == 0 {
            return Ok(owned(raw));
        }
        let name = match path_file_name(raw) {
            Some(n) => n,
            None => {
                let mut m = owned("save_path `");
                push_str(&mut m, raw);
                push_str(&mut m, "` does not name a file");
                return Err(Error::InvalidArgument(m));
            },
        };
        let parent = download_parent(raw);
        let canonical_parent = canonicalize(parent.as_str());
        let is_link = match &canonical_parent {
            Ok(c) => if is_within(c.as_str(), self.download_roots.as_slice()) {
                is_symlink(path_join(c.as_str(), name.as_str()).as_str())
            } else {
                false
            },
            Err(_) => false,
        };
        let ghost parent_view = canonical_parent;
        let r = self.download_decision(raw, name.as_str(), canonical_parent, is_link);
        let ghost rv = r;
        proof {
            if let Ok(p) = rv {
                let c = parent_view->Ok_0;
                assert(within_roots(c@, self.downloads()));
                assert(in_some_root(p@, self.downloads(), name@));
            }
            if let Err(x) = rv {
                if let Err(e) = parent_view {
                    assert(is_io_error(x, "could not resolve the directory of "@ + raw@ + ": "@ + e@));
                }
            }
        }
        r
    }
}

/// The directory a download is written into: the path's parent, or `.`
/// for a bare file name.
pub open spec fn parent_dir(raw: Seq<char>) -> Seq<char> {
    match parent_of(raw) {
        Some(p) => if p.len() > 0 {
            p
        } else {
            "."@
        },
        None => "."@,
    }
}

/// The directory whose canonical form decides a download: the parent of
/// `raw`, or `.` when it has none.
pub fn download_parent(raw: &str) -> (p: String)
    ensures
        p@ == parent_dir(raw@),
{
    match path_parent(raw) {
        Some(p) => if chars_of(p.as_str()).len() > 0 {
            p
        } else {
            owned(".")
        },
        None => owned("."),
    }
}

} // verus!
