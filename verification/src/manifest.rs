//! Versioned declarative desired-state documents: their model, ownership
//! markers and validation.
use vstd::prelude::*;
use vstd::string::*;

use crate::error::{Error, ErrorKind};
use crate::model::{SecurityDescriptor, TaskDefinition};
use crate::path::{FolderPath, TaskPath};
use crate::text::{
    chars_of, decimal, hex_char, hex_lower_digits, push_char, string_of, u64_to_string,
};
use vstd::utf8::encode_utf8;
use crate::validation::{
    diag_view, diags_view, definition_findings, indexed_path, Diagnostic, DiagnosticCode,
    DiagnosticLevel, DiagnosticView, ValidationReport,
};

verus! {

broadcast use vstd::string::group_string_axioms;

/// Current declarative format version.
pub const FORMAT_VERSION: u32 = 1;

/// Maximum manifest size accepted by the convenience parser.
pub const MAX_MANIFEST_BYTES: usize = 8388608;

/// Supported declarative serialization formats.
#[derive(Clone, Copy, Debug, Eq, Hash, PartialEq, Structural)]
pub enum DocumentFormat {
    /// TOML.
    Toml,
    /// JSON.
    Json,
    /// YAML.
    Yaml,
}

/// ASCII lower case of a string.
pub open spec fn lower_text(s: Seq<char>) -> Seq<char> {
    s.map_values(|c: char| crate::schedule::ascii_lower(c))
}

impl DocumentFormat {
    /// Detects a format from a conventional file extension, compared
    /// ignoring ASCII case: `toml`, `json`, `yaml` or `yml`.
    pub fn from_extension(extension: Option<&str>) -> (r: Result<Self, Error>)
        ensures
            match r {
                Ok(f) => extension matches Some(e) && (f == DocumentFormat::Toml && lower_text(e@)
                    == "toml"@ || f == DocumentFormat::Json && lower_text(e@) == "json"@ || f
                    == DocumentFormat::Yaml && (lower_text(e@) == "yaml"@ || lower_text(e@)
                    == "yml"@)),
                Err(e) => e@.kind == ErrorKind::Serialization && !(extension matches Some(x) && (
                lower_text(x@) == "toml"@ || lower_text(x@) == "json"@ || lower_text(x@)
                    == "yaml"@ || lower_text(x@) == "yml"@)),
            },
    {
        proof {
            reveal_strlit("toml");
            reveal_strlit("json");
            reveal_strlit("yaml");
            reveal_strlit("yml");
        }
        if let Some(e) = extension {
            let chars = chars_of(e);
            let mut lower: Vec<char> = Vec::new();
            let mut i: usize = 0;
            while i < chars.len()
                invariant
                    i <= chars.len(),
                    chars@ == e@,
                    lower@ == lower_text(chars@.take(i as int)),
                decreases chars.len() - i,
            {
                let c = chars[i];
                let l = if c >= 'A' && c <= 'Z' {
                    let code: u8 = (c as u8) + 32;
                    code as char
                } else {
                    c
                };
                lower.push(l);
                i += 1;
                proof {
                    assert(lower@ =~= lower_text(chars@.take(i as int)));
                }
            }
            proof {
                assert(chars@.take(i as int) =~= chars@);
            }
            let text = string_of(lower.as_slice());
            if crate::text::str_eq(text.as_str(), "toml") {
                return Ok(DocumentFormat::Toml);
            }
            if crate::text::str_eq(text.as_str(), "json") {
                return Ok(DocumentFormat::Json);
            }
            if crate::text::str_eq(text.as_str(), "yaml") || crate::text::str_eq(text.as_str(), "yml") {
                return Ok(DocumentFormat::Yaml);
            }
        }
        Err(
            Error::new(
                ErrorKind::Serialization,
                "cannot detect manifest format; use .toml, .json, .yaml, or .yml",
            ),
        )
    }
}

/// Non-secret references to Windows Credential Manager entries.
#[derive(Clone, Debug, Eq, PartialEq)]
pub struct CredentialReferences {
    /// Credential Manager target for remote connection credentials.
    pub connection: Option<String>,
    /// Credential Manager target for a password-backed task registration.
    pub registration: Option<String>,
}

impl Default for CredentialReferences {
    fn default() -> (c: Self)
        ensures
            c.connection is None,
            c.registration is None,
    {
        CredentialReferences { connection: None, registration: None }
    }
}

/// Desired folder metadata.
#[derive(Clone, Debug, Eq, PartialEq)]
pub struct ManagedFolder {
    /// Absolute folder path inside the managed namespace.
    pub path: FolderPath,
    /// Optional SDDL to apply.
    pub security_descriptor: Option<SecurityDescriptor>,
}

/// Desired task definition and non-secret credential references.
#[derive(Clone, Debug, Eq, PartialEq)]
pub struct ManagedTask {
    /// Absolute task path inside the managed namespace.
    pub path: TaskPath,
    /// Complete typed task definition.
    pub definition: TaskDefinition,
    /// Credential Manager references, never plaintext credentials.
    pub credentials: CredentialReferences,
}

/// Complete desired state for one ownership namespace and optional target.
#[derive(Clone, Debug, Eq, PartialEq)]
pub struct TaskManifest {
    /// Must equal [`FORMAT_VERSION`].
    pub format_version: u32,
    /// Stable owner UUID, as its 128-bit big-endian value, encoded into
    /// managed task registration Source markers.
    pub owner: u128,
    /// Human-readable owner or application name.
    pub owner_name: String,
    /// Root below which reconciliation is allowed.
    pub namespace: FolderPath,
    /// Optional remote computer; `None` means local.
    pub target: Option<String>,
    /// Desired folders.
    pub folders: Vec<ManagedFolder>,
    /// Desired tasks.
    pub tasks: Vec<ManagedTask>,
}

/// The canonical hyphenated lower-case text of a UUID with this 128-bit
/// value: `8-4-4-4-12` hexadecimal digits.
pub open spec fn uuid_text(value: nat) -> Seq<char> {
    let h = hex_lower_digits(value, 32);
    h.subrange(0, 8) + seq!['-'] + h.subrange(8, 12) + seq!['-'] + h.subrange(12, 16) + seq!['-']
        + h.subrange(16, 20) + seq!['-'] + h.subrange(20, 32)
}

/// `uuid::Uuid::from_u128` formatted by its `Display` impl, which the uuid
/// crate writes as the lower-case hyphenated form.
#[verifier::external_body]
pub(crate) fn uuid_hyphenated(value: u128) -> (s: String)
    ensures
        s@ == uuid_text(value as nat),
{
    uuid::Uuid::from_u128(value).to_string()
}

/// Whether a byte is left as is by percent encoding: ASCII letters and
/// digits and `-`, `_`, `.`, `~`.
pub open spec fn unreserved(b: u8) -> bool {
    (0x30 <= b <= 0x39) || (0x41 <= b <= 0x5A) || (0x61 <= b <= 0x7A) || b == 0x2D || b == 0x5F
        || b == 0x2E || b == 0x7E
}

/// Percent encoding of bytes, with upper-case hexadecimal escapes.
pub open spec fn percent_encoded(bytes: Seq<u8>) -> Seq<char>
    decreases bytes.len(),
{
    if bytes.len() == 0 {
        Seq::empty()
    } else {
        let b = bytes.last();
        percent_encoded(bytes.drop_last()) + if unreserved(b) {
            seq![b as char]
        } else {
            seq!['%', hex_char((b / 16) as nat), hex_char((b % 16) as nat)]
        }
    }
}

/// The ownership marker of a task: the owner's UUID and the task path,
/// percent-encoded byte by byte.
pub open spec fn ownership_uri_text(owner: u128, path: Seq<char>) -> Seq<char> {
    "urn:windows-task:owner:"@ + uuid_text(owner as nat) + ":task:"@ + percent_encoded(
        encode_utf8(path),
    )
}

fn hex_upper(d: u8) -> (c: char)
    requires
        d < 16,
    ensures
        c == hex_char(d as nat),
{
    if d < 10 {
        crate::text::digit_to_char(d as u64)
    } else {
        let code: u8 = d - 10 + 65;
        code as char
    }
}

fn percent_encode(value: &str) -> (s: String)
    ensures
        s@ == percent_encoded(encode_utf8(value@)),
{
    let bytes = value.as_bytes();
    let mut s = String::new();
    let mut i: usize = 0;
    while i < bytes.len()
        invariant
            i <= bytes.len(),
            s@ == percent_encoded(bytes@.take(i as int)),
        decreases bytes.len() - i,
    {
        let b = bytes[i];
        proof {
            assert(bytes@.take(i + 1).drop_last() =~= bytes@.take(i as int));
        }
        let ghost before = s@;
        if (b >= 0x30 && b <= 0x39) || (b >= 0x41 && b <= 0x5A) || (b >= 0x61 && b <= 0x7A) || b
            == 0x2D || b == 0x5F || b == 0x2E || b == 0x7E {
            push_char(&mut s, b as char);
        } else {
            push_char(&mut s, '%');
            push_char(&mut s, hex_upper(b / 16));
            push_char(&mut s, hex_upper(b % 16));
        }
        proof {
            assert(s@ =~= percent_encoded(bytes@.take(i + 1)));
        }
        i += 1;
    }
    proof {
        assert(bytes@.take(i as int) =~= bytes@);
    }
    s
}

/// Whether `path` is `namespace` or lies below it.
pub open spec fn within_namespace(path: Seq<char>, namespace: Seq<char>) -> bool {
    path == namespace || (namespace.len() < path.len() && path.take(namespace.len() as int)
        == namespace && path[namespace.len() as int] == '\\')
}

fn within_namespace_exec(path: &str, namespace: &str) -> (r: bool)
    ensures
        r == within_namespace(path@, namespace@),
{
    let p = chars_of(path);
    let n = chars_of(namespace);
    if crate::text::str_eq(path, namespace) {
        return true;
    }
    if n.len() >= p.len() {
        return false;
    }
    let mut i: usize = 0;
    while i < n.len()
        invariant
            i <= n.len(),
            n.len() < p.len(),
            p@ == path@,
            n@ == namespace@,
            path@ != namespace@,
            forall|k: int| 0 <= k < i ==> p@[k] == n@[k],
        decreases n.len() - i,
    {
        if p[i] != n[i] {
            proof {
                assert(p@.take(n@.len() as int)[i as int] != n@[i as int]);
            }
            return false;
        }
        i += 1;
    }
    proof {
        assert(p@.take(n@.len() as int) =~= n@);
    }
    p[n.len()] == '\\'
}

/// The finding for a path outside the managed namespace.
pub open spec fn outside_finding(path: Seq<char>) -> DiagnosticView {
    DiagnosticView {
        level: DiagnosticLevel::Error,
        code: DiagnosticCode::OwnershipConflict,
        path,
        message: "path is outside the managed namespace"@,
        remediation: Some("Move the path under this manifest's namespace."@),
    }
}

/// The finding for a path listed twice.
pub open spec fn duplicate_finding(path: Seq<char>) -> DiagnosticView {
    DiagnosticView {
        level: DiagnosticLevel::Error,
        code: DiagnosticCode::DuplicateId,
        path,
        message: "path appears more than once"@,
        remediation: Some("Remove the duplicate entry or use a distinct path."@),
    }
}

/// Findings for the entry at `index` of the list `kind`, whose path is the
/// last of `paths`: outside the namespace, and listed earlier.
pub open spec fn entry_findings(kind: Seq<char>, paths: Seq<Seq<char>>, namespace: Seq<char>) -> Seq<DiagnosticView> {
    let index = (paths.len() - 1) as nat;
    let p = paths.last();
    let at = indexed_path(kind, index, ".path"@);
    (if !within_namespace(p, namespace) {
        seq![outside_finding(at)]
    } else {
        Seq::empty()
    }) + (if paths.drop_last().contains(p) {
        seq![duplicate_finding(at)]
    } else {
        Seq::empty()
    })
}

/// Findings of a definition with their paths placed below `prefix`.
pub open spec fn prefixed(prefix: Seq<char>, ds: Seq<DiagnosticView>) -> Seq<DiagnosticView> {
    ds.map_values(|d: DiagnosticView| DiagnosticView { path: prefix + d.path, ..d })
}

/// Findings for the managed folders whose paths are `paths`.
pub open spec fn folder_findings(paths: Seq<Seq<char>>, namespace: Seq<char>) -> Seq<DiagnosticView>
    decreases paths.len(),
{
    if paths.len() == 0 {
        Seq::empty()
    } else {
        folder_findings(paths.drop_last(), namespace) + entry_findings("folders"@, paths, namespace)
    }
}

/// Findings for the managed tasks `tasks`.
pub open spec fn task_findings(tasks: Seq<ManagedTask>, namespace: Seq<char>) -> Seq<DiagnosticView>
    decreases tasks.len(),
{
    if tasks.len() == 0 {
        Seq::empty()
    } else {
        let paths = tasks.map_values(|t: ManagedTask| t.path@);
        let index = (tasks.len() - 1) as nat;
        task_findings(tasks.drop_last(), namespace) + entry_findings("tasks"@, paths, namespace)
            + prefixed(
            indexed_path("tasks"@, index, ".definition."@),
            definition_findings(tasks.last().definition),
        )
    }
}

/// Everything wrong with a manifest, in order: an unsupported format
/// version, the scheduler root as namespace, then each folder and each task.
pub open spec fn manifest_findings(m: TaskManifest) -> Seq<DiagnosticView> {
    let version = if m.format_version != FORMAT_VERSION {
        seq![
            DiagnosticView {
                level: DiagnosticLevel::Error,
                code: DiagnosticCode::UnsupportedCapability,
                path: "format_version"@,
                message: "manifest version "@ + decimal(m.format_version as nat)
                    + " is unsupported; expected 1"@,
                remediation: Some("Use format_version = 1 and migrate unsupported fields."@),
            },
        ]
    } else {
        Seq::empty()
    };
    let root = if m.namespace@ == seq!['\\'] {
        seq![
            DiagnosticView {
                level: DiagnosticLevel::Error,
                code: DiagnosticCode::OwnershipConflict,
                path: "namespace"@,
                message: "the scheduler root cannot be a managed namespace"@,
                remediation: Some("choose a dedicated child folder"@),
            },
        ]
    } else {
        Seq::empty()
    };
    version + root + folder_findings(
        m.folders@.map_values(|f: ManagedFolder| f.path@),
        m.namespace@,
    ) + task_findings(m.tasks@, m.namespace@)
}

fn diagnostic(
    code: DiagnosticCode,
    path: String,
    message: &str,
    remediation: &str,
) -> (d: Diagnostic)
    ensures
        diag_view(d) == (DiagnosticView {
            level: DiagnosticLevel::Error,
            code,
            path: path@,
            message: message@,
            remediation: Some(remediation@),
        }),
{
    Diagnostic {
        level: DiagnosticLevel::Error,
        code,
        path,
        message: message.to_owned(),
        remediation: Some(remediation.to_owned()),
    }
}


fn folder_listed_before(folders: &Vec<ManagedFolder>, i: usize) -> (r: bool)
    requires
        i < folders.len(),
    ensures
        r == folders@.map_values(|f: ManagedFolder| f.path@).take(i as int).contains(folders@[i as int].path@),
{
    let ghost ps = folders@.map_values(|f: ManagedFolder| f.path@);
    let mut j: usize = 0;
    while j < i
        invariant
            j <= i,
            i < folders.len(),
            ps == folders@.map_values(|f: ManagedFolder| f.path@),
            forall|k: int| 0 <= k < j ==> ps[k] != folders@[i as int].path@,
        decreases i - j,
    {
        proof {
            assert(ps[j as int] == folders@[j as int].path@);
        }
        if folders[j].path.same(&folders[i].path) {
            proof {
                assert(ps.take(i as int)[j as int] == folders@[i as int].path@);
            }
            return true;
        }
        j += 1;
    }
    proof {
        assert forall|k: int| 0 <= k < ps.take(i as int).len() implies ps.take(i as int)[k] != folders@[i as int].path@ by {
            assert(ps.take(i as int)[k] == ps[k]);
        }
    }
    false
}

fn task_listed_before(tasks: &Vec<ManagedTask>, i: usize) -> (r: bool)
    requires
        i < tasks.len(),
    ensures
        r == tasks@.map_values(|t: ManagedTask| t.path@).take(i as int).contains(tasks@[i as int].path@),
{
    let ghost ps = tasks@.map_values(|t: ManagedTask| t.path@);
    let mut j: usize = 0;
    while j < i
        invariant
            j <= i,
            i < tasks.len(),
            ps == tasks@.map_values(|t: ManagedTask| t.path@),
            forall|k: int| 0 <= k < j ==> ps[k] != tasks@[i as int].path@,
        decreases i - j,
    {
        proof {
            assert(ps[j as int] == tasks@[j as int].path@);
        }
        if tasks[j].path.same(&tasks[i].path) {
            proof {
                assert(ps.take(i as int)[j as int] == tasks@[i as int].path@);
            }
            return true;
        }
        j += 1;
    }
    proof {
        assert forall|k: int| 0 <= k < ps.take(i as int).len() implies ps.take(i as int)[k] != tasks@[i as int].path@ by {
            assert(ps.take(i as int)[k] == ps[k]);
        }
    }
    false
}

/// Appends `inner` with `prefix` put before each path.
fn append_prefixed(ds: &mut Vec<Diagnostic>, inner: Vec<Diagnostic>, prefix: &str)
    ensures
        diags_view(final(ds)@) == diags_view(old(ds)@) + prefixed(prefix@, diags_view(inner@)),
{
    let ghost found = diags_view(inner@);
    let ghost start = diags_view(ds@);
    let mut inner = inner;
    let mut k: usize = 0;
    let total: usize = inner.len();
    proof {
        assert(found.skip(0) =~= found);
        assert(diags_view(ds@) =~= start + prefixed(prefix@, found.take(0)));
    }
    while inner.len() > 0
        invariant
            k + inner@.len() == total,
            total == found.len(),
            diags_view(inner@) == found.skip(k as int),
            diags_view(ds@) == start + prefixed(prefix@, found.take(k as int)),
        decreases inner.len(),
    {
        let ghost rest = inner@;
        proof {
            assert(diags_view(rest)[0] == diag_view(rest[0]));
            assert(found.skip(k as int)[0] == found[k as int]);
        }
        let d = inner.remove(0);
        proof {
            assert(diag_view(d) == found[k as int]);
            assert forall|x: int| 0 <= x < inner@.len() implies diags_view(inner@)[x] == found.skip(k + 1)[x] by {
                assert(inner@[x] == rest[x + 1]);
                assert(diags_view(rest)[x + 1] == found.skip(k as int)[x + 1]);
            }
            assert(diags_view(inner@) =~= found.skip(k + 1));
        }
        let mut p = prefix.to_owned();
        p.append(d.path.as_str());
        let ghost before = ds@;
        let nd = Diagnostic {
            level: d.level,
            code: d.code,
            path: p,
            message: d.message,
            remediation: d.remediation,
        };
        proof {
            assert(diag_view(nd) == DiagnosticView { path: prefix@ + found[k as int].path, ..found[k as int] });
            crate::validation::lemma_diags_push(before, nd);
        }
        ds.push(nd);
        k += 1;
        proof {
            assert(found.take(k as int).drop_last() =~= found.take(k - 1));
            assert(prefixed(prefix@, found.take(k as int)) =~= prefixed(prefix@, found.take(k - 1)).push(
                DiagnosticView { path: prefix@ + found[k - 1].path, ..found[k - 1] },
            ));
            assert(diags_view(ds@) =~= start + prefixed(prefix@, found.take(k as int)));
        }
    }
    proof {
        assert(found.take(k as int) =~= found);
    }
}


/// Appends the findings for the task at index `t`.
fn push_task_findings(ds: &mut Vec<Diagnostic>, tasks: &Vec<ManagedTask>, t: usize, namespace: &FolderPath)
    requires
        t < tasks.len(),
    ensures
        diags_view(final(ds)@) == diags_view(old(ds)@) + entry_findings(
            "tasks"@,
            tasks@.take(t + 1).map_values(|x: ManagedTask| x.path@),
            namespace@,
        ) + prefixed(
            indexed_path("tasks"@, t as nat, ".definition."@),
            definition_findings(tasks@[t as int].definition),
        ),
{
    proof {
        reveal_strlit("tasks");
        reveal_strlit(".path");
        reveal_strlit(".definition.");
    }
    let ghost ns = namespace@;
    let ghost before = diags_view(ds@);
    let ghost taken = tasks@.take(t + 1);
    let ghost all = tasks@.map_values(|x: ManagedTask| x.path@);
    let ghost tpaths = taken.map_values(|x: ManagedTask| x.path@);
    proof {
        assert(tpaths.drop_last() =~= all.take(t as int));
        assert(tpaths.last() == tasks@[t as int].path@);
    }
    if !within_namespace_exec(tasks[t].path.as_str(), namespace.as_str()) {
        ds.push(
            diagnostic(
                DiagnosticCode::OwnershipConflict,
                crate::validation::indexed("tasks", t, ".path"),
                "path is outside the managed namespace",
                "Move the path under this manifest's namespace.",
            ),
        );
    }
    if task_listed_before(tasks, t) {
        ds.push(
            diagnostic(
                DiagnosticCode::DuplicateId,
                crate::validation::indexed("tasks", t, ".path"),
                "path appears more than once",
                "Remove the duplicate entry or use a distinct path.",
            ),
        );
    }
    proof {
        assert(diags_view(ds@) =~= before + entry_findings("tasks"@, tpaths, ns));
    }
    let report = tasks[t].definition.validate();
    let prefix = crate::validation::indexed("tasks", t, ".definition.");
    append_prefixed(ds, report.diagnostics, prefix.as_str());
}

impl TaskManifest {
    /// Creates an empty version-one manifest.
    pub fn new(owner: u128, owner_name: &str, namespace: FolderPath) -> (m: Self)
        ensures
            m.format_version == FORMAT_VERSION,
            m.owner == owner,
            m.owner_name@ == owner_name@,
            m.namespace == namespace,
            m.target is None,
            m.folders@.len() == 0,
            m.tasks@.len() == 0,
    {
        TaskManifest {
            format_version: FORMAT_VERSION,
            owner,
            owner_name: owner_name.to_owned(),
            namespace,
            target: None,
            folders: Vec::new(),
            tasks: Vec::new(),
        }
    }

    /// Validates format, namespace, ownership, uniqueness, and every task.
    pub fn validate(&self) -> (r: ValidationReport)
        ensures
            diags_view(r.diagnostics@) == manifest_findings(*self),
    {
        proof {
            reveal_strlit("folders");
            reveal_strlit("tasks");
            reveal_strlit(".path");
            reveal_strlit(".definition.");
        }
        let ghost ns = self.namespace@;
        let mut ds: Vec<Diagnostic> = Vec::new();
        if self.format_version != FORMAT_VERSION {
            let mut message = "manifest version ".to_owned();
            message.append(u64_to_string(self.format_version as u64).as_str());
            message.append(" is unsupported; expected 1");
            ds.push(
                diagnostic(
                    DiagnosticCode::UnsupportedCapability,
                    "format_version".to_owned(),
                    message.as_str(),
                    "Use format_version = 1 and migrate unsupported fields.",
                ),
            );
        }
        if self.namespace.is_root() {
            ds.push(
                diagnostic(
                    DiagnosticCode::OwnershipConflict,
                    "namespace".to_owned(),
                    "the scheduler root cannot be a managed namespace",
                    "choose a dedicated child folder",
                ),
            );
        }
        let ghost head = diags_view(ds@);
        let ghost fpaths = self.folders@.map_values(|f: ManagedFolder| f.path@);
        proof {
            assert(fpaths.take(0) =~= Seq::<Seq<char>>::empty());
            assert(diags_view(ds@) =~= head + folder_findings(fpaths.take(0), ns));
        }
        let mut i: usize = 0;
        while i < self.folders.len()
            invariant
                i <= self.folders.len(),
                ns == self.namespace@,
                fpaths == self.folders@.map_values(|f: ManagedFolder| f.path@),
                diags_view(ds@) == head + folder_findings(fpaths.take(i as int), ns),
            decreases self.folders.len() - i,
        {
            let ghost before = diags_view(ds@);
            let ghost taken = fpaths.take(i + 1);
            proof {
                assert(taken.drop_last() =~= fpaths.take(i as int));
                assert(taken.last() == self.folders@[i as int].path@);
            }
            if !within_namespace_exec(self.folders[i].path.as_str(), self.namespace.as_str()) {
                ds.push(
                    diagnostic(
                        DiagnosticCode::OwnershipConflict,
                        crate::validation::indexed("folders", i, ".path"),
                        "path is outside the managed namespace",
                        "Move the path under this manifest's namespace.",
                    ),
                );
            }
            if folder_listed_before(&self.folders, i) {
                ds.push(
                    diagnostic(
                        DiagnosticCode::DuplicateId,
                        crate::validation::indexed("folders", i, ".path"),
                        "path appears more than once",
                        "Remove the duplicate entry or use a distinct path.",
                    ),
                );
            }
            proof {
                assert(diags_view(ds@) =~= before + entry_findings("folders"@, taken, ns));
            }
            i += 1;
        }
        proof {
            assert(fpaths.take(i as int) =~= fpaths);
        }
        let ghost mid = diags_view(ds@);
        proof {
            assert(self.tasks@.take(0) =~= Seq::<ManagedTask>::empty());
            assert(diags_view(ds@) =~= mid + task_findings(self.tasks@.take(0), ns));
        }
        let mut t: usize = 0;
        while t < self.tasks.len()
            invariant
                t <= self.tasks.len(),
                ns == self.namespace@,
                diags_view(ds@) == mid + task_findings(self.tasks@.take(t as int), ns),
            decreases self.tasks.len() - t,
        {
            proof {
                assert(self.tasks@.take(t + 1).drop_last() =~= self.tasks@.take(t as int));
            }
            push_task_findings(&mut ds, &self.tasks, t, &self.namespace);
            t += 1;
        }
        proof {
            assert(self.tasks@.take(t as int) =~= self.tasks@);
        }
        ValidationReport { diagnostics: ds }
    }

    /// Returns the ownership URI expected for one managed task.
    pub fn ownership_uri(&self, path: &TaskPath) -> (s: String)
        ensures
            s@ == ownership_uri_text(self.owner, path@),
    {
        let mut s = "urn:windows-task:owner:".to_owned();
        s.append(uuid_hyphenated(self.owner).as_str());
        s.append(":task:");
        s.append(percent_encode(path.as_str()).as_str());
        s
    }
}


/// Whether the task at position `i` names connection credentials `r`.
pub open spec fn names_connection(tasks: Seq<ManagedTask>, i: int, r: Seq<char>) -> bool {
    &&& 0 <= i < tasks.len()
    &&& tasks[i].credentials.connection matches Some(c) && c@ == r
}

/// Whether two tasks name different connection credentials.
pub open spec fn conflicting_connections(tasks: Seq<ManagedTask>) -> bool {
    exists|i: int, j: int, a: Seq<char>, b: Seq<char>|
        names_connection(tasks, i, a) && names_connection(tasks, j, b) && a != b
}

/// The one Credential Manager target that the tasks of a manifest use for
/// the remote connection: none when no task names one, an error when two
/// tasks name different ones.
pub fn manifest_connection_reference(manifest: &TaskManifest) -> (r: Result<Option<String>, Error>)
    ensures
        match r {
            Ok(None) => forall|i: int, a: Seq<char>| !names_connection(manifest.tasks@, i, a),
            Ok(Some(c)) => {
                &&& exists|i: int| names_connection(manifest.tasks@, i, c@)
                &&& forall|i: int, a: Seq<char>| names_connection(manifest.tasks@, i, a) ==> a == c@
            },
            Err(e) => conflicting_connections(manifest.tasks@) && e@.kind == ErrorKind::InvalidDefinition,
        },
{
    let tasks = &manifest.tasks;
    let mut found: Option<String> = None;
    let mut i: usize = 0;
    while i < tasks.len()
        invariant
            i <= tasks@.len(),
            tasks@ == manifest.tasks@,
            match found {
                None => forall|k: int, a: Seq<char>| 0 <= k < i ==> !names_connection(tasks@, k, a),
                Some(c) => {
                    &&& exists|k: int| 0 <= k < i && names_connection(tasks@, k, c@)
                    &&& forall|k: int, a: Seq<char>| 0 <= k < i && names_connection(tasks@, k, a) ==> a == c@
                },
            },
        decreases tasks.len() - i,
    {
        match &tasks[i].credentials.connection {
            None => {},
            Some(reference) => match &found {
                None => {
                    found = Some(reference.clone());
                    proof {
                        assert(names_connection(tasks@, i as int, reference@));
                    }
                },
                Some(c) => {
                    if !crate::text::str_eq(c.as_str(), reference.as_str()) {
                        proof {
                            let k = choose|k: int| 0 <= k < i && names_connection(tasks@, k, c@);
                            assert(names_connection(tasks@, i as int, reference@));
                            assert(names_connection(tasks@, k, c@));
                        }
                        return Err(
                            Error::new(
                                ErrorKind::InvalidDefinition,
                                "manifest tasks use conflicting connection credential references",
                            ),
                        );
                    }
                },
            },
        }
        i += 1;
    }
    Ok(found)
}

} // verus!
