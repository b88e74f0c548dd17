//! Canonical absolute Task Scheduler folder and task paths.
use vstd::prelude::*;
use vstd::string::*;

use crate::text::{chars_of, is_unicode_whitespace, is_whitespace_exec, slice_subrange, str_eq, string_of};

verus! {

broadcast use vstd::string::group_string_axioms;

/// Error returned while parsing a scheduler path.
#[derive(Clone, Debug, Eq, PartialEq)]
pub struct ParsePathError {
    message: String,
}

impl View for ParsePathError {
    type V = Seq<char>;

    closed spec fn view(&self) -> Seq<char> {
        self.message@
    }
}

impl ParsePathError {
    fn new(message: &str) -> (e: Self)
        ensures
            e@ == message@,
    {
        ParsePathError { message: message.to_owned() }
    }

    /// Returns the explanation of the failure.
    pub fn message(&self) -> (m: &str)
        ensures
            m@ == self@,
    {
        self.message.as_str()
    }
}

/// Index of the first occurrence of `c` in `s`, or `s.len()` when absent.
pub open spec fn first_index(s: Seq<char>, c: char) -> int
    decreases s.len(),
{
    if s.len() == 0 {
        0
    } else if s[0] == c {
        0
    } else {
        1 + first_index(s.drop_first(), c)
    }
}

/// Index of the last occurrence of `c` in `s`, or -1 when absent.
pub open spec fn last_index(s: Seq<char>, c: char) -> int
    decreases s.len(),
{
    if s.len() == 0 {
        -1
    } else if s.last() == c {
        s.len() - 1
    } else {
        last_index(s.drop_last(), c)
    }
}

/// Characterization of [`first_index`].
pub proof fn lemma_first_index(s: Seq<char>, c: char)
    ensures
        0 <= first_index(s, c) <= s.len(),
        forall|j: int| 0 <= j < first_index(s, c) ==> s[j] != c,
        first_index(s, c) < s.len() ==> s[first_index(s, c)] == c,
        first_index(s, c) == s.len() <==> !s.contains(c),
    decreases s.len(),
{
    if s.len() > 0 && s[0] != c {
        lemma_first_index(s.drop_first(), c);
        assert forall|j: int| 0 <= j < first_index(s, c) implies s[j] != c by {
            if j > 0 {
                assert(s[j] == s.drop_first()[j - 1]);
            }
        }
        if s.contains(c) {
            let k = choose|k: int| 0 <= k < s.len() && s[k] == c;
            assert(s.drop_first()[k - 1] == c);
        }
        if s.drop_first().contains(c) {
            let k = choose|k: int| 0 <= k < s.drop_first().len() && s.drop_first()[k] == c;
            assert(s[k + 1] == c);
        }
    } else if s.len() > 0 {
        assert(s.contains(c)) by {
            assert(s[0] == c);
        }
    }
}

/// Characterization of [`last_index`].
pub proof fn lemma_last_index(s: Seq<char>, c: char)
    ensures
        -1 <= last_index(s, c) < s.len(),
        forall|j: int| last_index(s, c) < j < s.len() ==> s[j] != c,
        last_index(s, c) >= 0 ==> s[last_index(s, c)] == c,
        last_index(s, c) == -1 <==> !s.contains(c),
    decreases s.len(),
{
    if s.len() > 0 && s.last() != c {
        lemma_last_index(s.drop_last(), c);
        assert forall|j: int| last_index(s, c) < j < s.len() implies s[j] != c by {
            if j < s.len() - 1 {
                assert(s[j] == s.drop_last()[j]);
            }
        }
        if s.contains(c) {
            let k = choose|k: int| 0 <= k < s.len() && s[k] == c;
            assert(s.drop_last()[k] == c);
        }
        if s.drop_last().contains(c) {
            let k = choose|k: int| 0 <= k < s.drop_last().len() && s.drop_last()[k] == c;
            assert(s[k] == c);
        }
    } else if s.len() > 0 {
        assert(s.contains(c)) by {
            assert(s[s.len() - 1] == c);
        }
    }
}

pub(crate) proof fn lemma_first_index_is(s: Seq<char>, c: char, i: int)
    requires
        0 <= i <= s.len(),
        i < s.len() ==> s[i] == c,
        forall|j: int| 0 <= j < i ==> s[j] != c,
    ensures
        first_index(s, c) == i,
{
    lemma_first_index(s, c);
    let f = first_index(s, c);
    if f < i {
        assert(s[f] == c);
    }
    if i < f {
        assert(s[i] != c);
    }
}

pub(crate) proof fn lemma_last_index_is(s: Seq<char>, c: char, i: int)
    requires
        -1 <= i < s.len(),
        i >= 0 ==> s[i] == c,
        forall|j: int| i < j < s.len() ==> s[j] != c,
    ensures
        last_index(s, c) == i,
{
    lemma_last_index(s, c);
    let l = last_index(s, c);
    if l > i {
        assert(s[l] == c);
    }
    if i > l {
        assert(s[i] != c);
    }
}

/// Splits `s` at every occurrence of `sep`, front to back.
pub open spec fn split_on(s: Seq<char>, sep: char) -> Seq<Seq<char>>
    decreases s.len(),
{
    let i = first_index(s, sep);
    if 0 <= i < s.len() {
        seq![s.take(i)] + split_on(s.skip(i + 1), sep)
    } else {
        seq![s]
    }
}

/// Why a path component is invalid, or `None` when it is valid.
pub open spec fn component_error(c: Seq<char>) -> Option<Seq<char>> {
    if c.len() == 0 {
        Some("scheduler paths cannot contain empty components"@)
    } else if c == "."@ || c == ".."@ {
        Some("scheduler paths cannot contain . or .."@)
    } else if is_unicode_whitespace(c[0]) || is_unicode_whitespace(c.last()) {
        Some("scheduler path components cannot begin or end with whitespace"@)
    } else if c.contains('\\') || c.contains('/') || c.contains('\0') {
        Some("a scheduler path component contains a separator or NUL"@)
    } else {
        None
    }
}

/// The error of the first invalid component, or `None` when all are valid.
pub open spec fn first_component_error(cs: Seq<Seq<char>>) -> Option<Seq<char>>
    decreases cs.len(),
{
    if cs.len() == 0 {
        None
    } else if component_error(cs[0]) is Some {
        component_error(cs[0])
    } else {
        first_component_error(cs.drop_first())
    }
}

/// `s` with every forward slash replaced by a backslash.
pub open spec fn normalize_separators(s: Seq<char>) -> Seq<char> {
    s.map_values(|c: char| if c == '/' { '\\' } else { c })
}

/// The canonical form of a scheduler path, or the reason it is rejected.
/// `folder` admits the root folder `\`.
pub open spec fn canonical(value: Seq<char>, folder: bool) -> Result<Seq<char>, Seq<char>> {
    let n = normalize_separators(value);
    if value.contains('\0') {
        Err("scheduler paths cannot contain NUL"@)
    } else if n.len() == 0 || n[0] != '\\' {
        Err("scheduler paths must be absolute and start with a backslash"@)
    } else if n == seq!['\\'] {
        if folder {
            Ok(n)
        } else {
            Err("a task path must include a task name"@)
        }
    } else if n.last() == '\\' {
        Err("scheduler paths cannot end with a backslash"@)
    } else {
        match first_component_error(split_on(n.drop_first(), '\\')) {
            Some(message) => Err(message),
            None => Ok(n),
        }
    }
}

/// Whether `s` is a canonical folder path.
pub open spec fn is_folder_path(s: Seq<char>) -> bool {
    canonical(s, true) == Ok::<Seq<char>, Seq<char>>(s)
}

/// Whether `s` is a canonical task path.
pub open spec fn is_task_path(s: Seq<char>) -> bool {
    canonical(s, false) == Ok::<Seq<char>, Seq<char>>(s)
}

/// The scheduler root folder text.
pub open spec fn root_text() -> Seq<char> {
    seq!['\\']
}

/// Canonical absolute Task Scheduler folder path.
#[derive(Debug, Eq, Hash, Ord, PartialEq, PartialOrd)]
pub struct FolderPath(String);

impl Clone for FolderPath {
    fn clone(&self) -> (c: Self)
        ensures
            c@ == self@,
    {
        proof {
            use_type_invariant(self);
        }
        FolderPath(self.0.clone())
    }
}

impl Clone for TaskPath {
    fn clone(&self) -> (c: Self)
        ensures
            c@ == self@,
    {
        proof {
            use_type_invariant(self);
        }
        TaskPath(self.0.clone())
    }
}

impl View for FolderPath {
    type V = Seq<char>;

    closed spec fn view(&self) -> Seq<char> {
        self.0@
    }
}

/// Canonical absolute Task Scheduler task path.
#[derive(Debug, Eq, Hash, Ord, PartialEq, PartialOrd)]
pub struct TaskPath(String);

impl View for TaskPath {
    type V = Seq<char>;

    closed spec fn view(&self) -> Seq<char> {
        self.0@
    }
}

impl FolderPath {
    #[verifier::type_invariant]
    closed spec fn inv(self) -> bool {
        is_folder_path(self.0@)
    }

    /// Returns the scheduler root folder (`\`).
    pub fn root() -> (f: Self)
        ensures
            f@ == root_text(),
    {
        let mut s = String::new();
        crate::text::push_char(&mut s, '\\');
        proof {
            lemma_root_canonical();
        }
        FolderPath(s)
    }

    /// Parses and canonicalizes a folder path.
    pub fn parse(value: &str) -> (r: Result<Self, ParsePathError>)
        ensures
            match r {
                Ok(f) => canonical(value@, true) == Ok::<Seq<char>, Seq<char>>(f@),
                Err(e) => canonical(value@, true) == Err::<Seq<char>, Seq<char>>(e@),
            },
    {
        match canonicalize(value, true) {
            Ok(text) => {
                proof {
                    lemma_canonical_idempotent(value@, true);
                }
                Ok(FolderPath(text))
            },
            Err(e) => Err(e),
        }
    }

    /// Joins one validated child folder.
    pub fn join(&self, child: &str) -> (r: Result<Self, ParsePathError>)
        ensures
            match r {
                Ok(f) => component_error(child@) is None && f@ == joined(self@, child@),
                Err(e) => component_error(child@) == Some(e@),
            },
    {
        let text = self.joined_text(child)?;
        proof {
            use_type_invariant(self);
            lemma_join_canonical(self@, child@);
        }
        Ok(FolderPath(text))
    }

    /// Joins one validated task name.
    pub fn task(&self, name: &str) -> (r: Result<TaskPath, ParsePathError>)
        ensures
            match r {
                Ok(t) => component_error(name@) is None && t@ == joined(self@, name@),
                Err(e) => component_error(name@) == Some(e@),
            },
    {
        let text = self.joined_text(name)?;
        proof {
            use_type_invariant(self);
            lemma_join_canonical(self@, name@);
        }
        Ok(TaskPath(text))
    }

    fn joined_text(&self, child: &str) -> (r: Result<String, ParsePathError>)
        ensures
            match r {
                Ok(s) => component_error(child@) is None && s@ == joined(self@, child@),
                Err(e) => component_error(child@) == Some(e@),
            },
    {
        let chars = chars_of(child);
        validate_component(chars.as_slice())?;
        let mut text = if self.is_root() { String::new() } else { self.0.clone() };
        crate::text::push_char(&mut text, '\\');
        text.append(child);
        Ok(text)
    }

    /// Whether this path is the scheduler root.
    pub fn is_root(&self) -> (r: bool)
        ensures
            r == (self@ == root_text()),
    {
        let root = FolderPath::root();
        str_eq(self.0.as_str(), root.0.as_str())
    }

    /// Returns the canonical path.
    pub fn as_str(&self) -> (s: &str)
        ensures
            s@ == self@,
    {
        self.0.as_str()
    }

    /// Whether two folder paths are the same path.
    pub fn same(&self, other: &FolderPath) -> (r: bool)
        ensures
            r == (self@ == other@),
    {
        str_eq(self.0.as_str(), other.0.as_str())
    }

    /// Returns the parent folder, or `None` for root.
    pub fn parent(&self) -> (r: Option<Self>)
        ensures
            self@.len() > 0,
            match r {
                None => self@ == root_text(),
                Some(p) => self@ != root_text() && p@ == parent_text(self@),
            },
    {
        if self.is_root() {
            return None;
        }
        proof {
            use_type_invariant(self);
            lemma_parent_canonical(self@);
            lemma_last_index(self@, '\\');
        }
        let chars = chars_of(self.0.as_str());
        let index = last_backslash(chars.as_slice());
        if index == 0 {
            Some(FolderPath::root())
        } else {
            let prefix = slice_subrange(chars.as_slice(), 0, index);
            Some(FolderPath(string_of(prefix)))
        }
    }

    /// Returns the final folder name, or `None` for root.
    pub fn name(&self) -> (r: Option<String>)
        ensures
            match r {
                None => self@ == root_text(),
                Some(n) => self@ != root_text() && n@ == name_text(self@),
            },
    {
        if self.is_root() {
            return None;
        }
        proof {
            use_type_invariant(self);
            lemma_parent_canonical(self@);
            lemma_last_index(self@, '\\');
        }
        let chars = chars_of(self.0.as_str());
        let index = last_backslash(chars.as_slice());
        let tail = slice_subrange(chars.as_slice(), index + 1, chars.len());
        Some(string_of(tail))
    }
}

impl TaskPath {
    #[verifier::type_invariant]
    closed spec fn inv(self) -> bool {
        is_task_path(self.0@)
    }

    /// Parses and canonicalizes a task path.
    pub fn parse(value: &str) -> (r: Result<Self, ParsePathError>)
        ensures
            match r {
                Ok(t) => canonical(value@, false) == Ok::<Seq<char>, Seq<char>>(t@),
                Err(e) => canonical(value@, false) == Err::<Seq<char>, Seq<char>>(e@),
            },
    {
        match canonicalize(value, false) {
            Ok(text) => {
                proof {
                    lemma_canonical_idempotent(value@, false);
                }
                Ok(TaskPath(text))
            },
            Err(e) => Err(e),
        }
    }

    /// Returns the canonical task path.
    pub fn as_str(&self) -> (s: &str)
        ensures
            s@ == self@,
    {
        self.0.as_str()
    }

    /// Whether two task paths are the same path.
    pub fn same(&self, other: &TaskPath) -> (r: bool)
        ensures
            r == (self@ == other@),
    {
        str_eq(self.0.as_str(), other.0.as_str())
    }

    /// Returns the containing folder.
    pub fn folder(&self) -> (f: FolderPath)
        ensures
            f@ == parent_text(self@),
    {
        proof {
            use_type_invariant(self);
            lemma_parent_canonical(self@);
            lemma_last_index(self@, '\\');
        }
        let chars = chars_of(self.0.as_str());
        let index = last_backslash(chars.as_slice());
        if index == 0 {
            FolderPath::root()
        } else {
            let prefix = slice_subrange(chars.as_slice(), 0, index);
            FolderPath(string_of(prefix))
        }
    }

    /// Returns the final task name.
    pub fn name(&self) -> (n: String)
        ensures
            n@ == name_text(self@),
    {
        proof {
            use_type_invariant(self);
            lemma_parent_canonical(self@);
            lemma_last_index(self@, '\\');
        }
        let chars = chars_of(self.0.as_str());
        let index = last_backslash(chars.as_slice());
        let tail = slice_subrange(chars.as_slice(), index + 1, chars.len());
        string_of(tail)
    }
}

/// Text of the path made by appending one component to `folder`.
pub open spec fn joined(folder: Seq<char>, child: Seq<char>) -> Seq<char> {
    if folder == root_text() {
        seq!['\\'] + child
    } else {
        folder + seq!['\\'] + child
    }
}

/// Text of the parent folder of a non-root path.
pub open spec fn parent_text(path: Seq<char>) -> Seq<char> {
    let i = last_index(path, '\\');
    if i <= 0 {
        root_text()
    } else {
        path.take(i)
    }
}

/// The final component of a path.
pub open spec fn name_text(path: Seq<char>) -> Seq<char> {
    path.skip(last_index(path, '\\') + 1)
}

/// Index of the last backslash of a canonical non-root path.
fn last_backslash(chars: &[char]) -> (i: usize)
    requires
        chars@.contains('\\'),
    ensures
        i as int == last_index(chars@, '\\'),
        i < chars@.len(),
{
    proof {
        lemma_last_index(chars@, '\\');
    }
    let mut i: usize = chars.len();
    while i > 0
        invariant
            i <= chars.len(),
            forall|j: int| i <= j < chars@.len() ==> chars@[j] != '\\',
            0 <= last_index(chars@, '\\') < i,
            chars@[last_index(chars@, '\\')] == '\\',
        decreases i,
    {
        if chars[i - 1] == '\\' {
            proof {
                lemma_last_index_is(chars@, '\\', (i - 1) as int);
            }
            return i - 1;
        }
        i -= 1;
    }
    0
}

/// Why a component is invalid, checked as the scheduler does.
fn validate_component(c: &[char]) -> (r: Result<(), ParsePathError>)
    ensures
        match r {
            Ok(()) => component_error(c@) is None,
            Err(e) => component_error(c@) == Some(e@),
        },
{
    proof {
        reveal_strlit(".");
        reveal_strlit("..");
    }
    if c.len() == 0 {
        return Err(ParsePathError::new("scheduler paths cannot contain empty components"));
    }
    if (c.len() == 1 && c[0] == '.') || (c.len() == 2 && c[0] == '.' && c[1] == '.') {
        proof {
            if c.len() == 1 {
                assert(c@ =~= "."@);
            } else {
                assert(c@ =~= ".."@);
            }
        }
        return Err(ParsePathError::new("scheduler paths cannot contain . or .."));
    }
    proof {
        assert(c@ != "."@) by {
            if c@ == "."@ {
                assert(c@.len() == 1);
            }
        }
        assert(c@ != ".."@) by {
            if c@ == ".."@ {
                assert(c@.len() == 2);
            }
        }
    }
    if is_whitespace_exec(c[0]) || is_whitespace_exec(c[c.len() - 1]) {
        return Err(
            ParsePathError::new("scheduler path components cannot begin or end with whitespace"),
        );
    }
    let mut i: usize = 0;
    while i < c.len()
        invariant
            i <= c.len(),
            forall|j: int| 0 <= j < i ==> c@[j] != '\\' && c@[j] != '/' && c@[j] != '\0',
            c@.len() > 0,
            c@ != "."@ && c@ != ".."@,
            !is_unicode_whitespace(c@[0]),
            !is_unicode_whitespace(c@.last()),
        decreases c.len() - i,
    {
        if c[i] == '\\' || c[i] == '/' || c[i] == '\0' {
            proof {
                let x = c@[i as int];
                if x == '\\' {
                    assert(c@.contains('\\'));
                } else if x == '/' {
                    assert(c@.contains('/'));
                } else {
                    assert(c@.contains('\0'));
                }
            }
            proof {
                assert(!is_unicode_whitespace(c@[0]));
                assert(!is_unicode_whitespace(c@.last()));
                assert(c@.len() > 0);
                assert(c@ != "."@ && c@ != ".."@);
                assert(c@.contains('\\') || c@.contains('/') || c@.contains('\0'));
            }
            return Err(ParsePathError::new("a scheduler path component contains a separator or NUL"));
        }
        i += 1;
    }
    Ok(())
}

/// Validates every backslash-separated component of `body`, front to back.
fn validate_components(body: &[char]) -> (r: Result<(), ParsePathError>)
    ensures
        match r {
            Ok(()) => first_component_error(split_on(body@, '\\')) is None,
            Err(e) => first_component_error(split_on(body@, '\\')) == Some(e@),
        },
    decreases body.len(),
{
    let mut i: usize = 0;
    while i < body.len() && body[i] != '\\'
        invariant
            i <= body.len(),
            forall|j: int| 0 <= j < i ==> body@[j] != '\\',
        decreases body.len() - i,
    {
        i += 1;
    }
    proof {
        lemma_first_index_is(body@, '\\', i as int);
    }
    let head = slice_subrange(body, 0, i);
    let ghost cs = split_on(body@, '\\');
    if i == body.len() {
        proof {
            assert(head@ =~= body@);
            assert(cs == seq![body@]);
            assert(cs.drop_first() =~= Seq::<Seq<char>>::empty());
            assert(first_component_error(Seq::<Seq<char>>::empty()) is None);
        }
        validate_component(head)?;
        return Ok(());
    }
    proof {
        assert(cs == seq![body@.take(i as int)] + split_on(body@.skip(i + 1), '\\'));
        assert(cs[0] == head@);
        assert(cs.drop_first() =~= split_on(body@.skip(i + 1), '\\'));
    }
    validate_component(head)?;
    let rest = slice_subrange(body, i + 1, body.len());
    proof {
        assert(rest@ =~= body@.skip(i + 1));
    }
    validate_components(rest)
}

/// Canonicalizes a path, as [`canonical`] describes.
fn canonicalize(value: &str, folder: bool) -> (r: Result<String, ParsePathError>)
    ensures
        match r {
            Ok(s) => canonical(value@, folder) == Ok::<Seq<char>, Seq<char>>(s@),
            Err(e) => canonical(value@, folder) == Err::<Seq<char>, Seq<char>>(e@),
        },
{
    let chars = chars_of(value);
    let mut n: Vec<char> = Vec::new();
    let mut i: usize = 0;
    while i < chars.len()
        invariant
            i <= chars.len(),
            chars@ == value@,
            n@ == normalize_separators(chars@.take(i as int)),
            forall|j: int| 0 <= j < i ==> chars@[j] != '\0',
        decreases chars.len() - i,
    {
        if chars[i] == '\0' {
            proof {
                assert(value@.contains('\0')) by {
                    assert(value@[i as int] == '\0');
                }
            }
            return Err(ParsePathError::new("scheduler paths cannot contain NUL"));
        }
        n.push(if chars[i] == '/' { '\\' } else { chars[i] });
        proof {
            assert(chars@.take(i + 1) =~= chars@.take(i as int).push(chars@[i as int]));
            assert(normalize_separators(chars@.take(i + 1)) =~= normalize_separators(chars@.take(i as int)).push(if chars@[i as int] == '/' { '\\' } else { chars@[i as int] }));
        }
        i += 1;
    }
    proof {
        assert(chars@.take(chars.len() as int) =~= chars@);
        assert(!value@.contains('\0'));
        assert(n@ == normalize_separators(value@));
    }
    if n.len() == 0 || n[0] != '\\' {
        return Err(ParsePathError::new("scheduler paths must be absolute and start with a backslash"));
    }
    if n.len() == 1 {
        proof {
            assert(n@ =~= seq!['\\']);
        }
        if folder {
            return Ok(string_of(n.as_slice()));
        }
        return Err(ParsePathError::new("a task path must include a task name"));
    }
    proof {
        assert(n@ != seq!['\\']) by {
            assert(n@.len() != 1);
        }
    }
    if n[n.len() - 1] == '\\' {
        return Err(ParsePathError::new("scheduler paths cannot end with a backslash"));
    }
    let body = slice_subrange(n.as_slice(), 1, n.len());
    proof {
        assert(body@ =~= n@.drop_first());
    }
    validate_components(body)?;
    Ok(string_of(n.as_slice()))
}

proof fn lemma_root_canonical()
    ensures
        is_folder_path(root_text()),
{
    let r = root_text();
    assert(normalize_separators(r) =~= r);
    assert(!r.contains('\0')) by {
        if r.contains('\0') {
            let k = choose|k: int| 0 <= k < r.len() && r[k] == '\0';
            assert(r[k] == '\\');
        }
    }
}

proof fn lemma_normalize_no_slash(s: Seq<char>)
    requires
        !s.contains('/'),
    ensures
        normalize_separators(s) =~= s,
{
    assert forall|i: int| 0 <= i < s.len() implies normalize_separators(s)[i] == s[i] by {
        if s[i] == '/' {
            assert(s.contains('/'));
        }
    }
}

proof fn lemma_normalized_has_no_slash(s: Seq<char>)
    ensures
        !normalize_separators(s).contains('/'),
{
    let n = normalize_separators(s);
    if n.contains('/') {
        let k = choose|k: int| 0 <= k < n.len() && n[k] == '/';
        assert(n[k] == (if s[k] == '/' { '\\' } else { s[k] }));
    }
}

/// Canonicalizing a canonical path gives it back.
pub proof fn lemma_canonical_idempotent(value: Seq<char>, folder: bool)
    requires
        canonical(value, folder) is Ok,
    ensures
        canonical(canonical(value, folder)->Ok_0, folder) == canonical(value, folder),
{
    let n = normalize_separators(value);
    lemma_normalized_has_no_slash(value);
    lemma_normalize_no_slash(n);
    assert(!n.contains('\0')) by {
        if n.contains('\0') {
            let k = choose|k: int| 0 <= k < n.len() && n[k] == '\0';
            assert(value[k] == '\0');
            assert(value.contains('\0'));
        }
    }
}

/// Splitting after one more separated piece appends that piece.
proof fn lemma_split_append(x: Seq<char>, c: Seq<char>)
    requires
        !c.contains('\\'),
    ensures
        split_on(x + seq!['\\'] + c, '\\') == split_on(x, '\\').push(c),
    decreases x.len(),
{
    let s = x + seq!['\\'] + c;
    lemma_first_index(x, '\\');
    let i = first_index(x, '\\');
    assert forall|j: int| 0 <= j < i implies s[j] != '\\' by {
        assert(s[j] == x[j]);
    }
    assert(s[i] == '\\') by {
        if i < x.len() {
            assert(s[i] == x[i]);
        }
    }
    lemma_first_index_is(s, '\\', i);
    assert(s.take(i) =~= x.take(i));
    if i < x.len() {
        assert(s.skip(i + 1) =~= x.skip(i + 1) + seq!['\\'] + c);
        lemma_split_append(x.skip(i + 1), c);
        assert(split_on(s, '\\') =~= split_on(x, '\\').push(c));
    } else {
        assert(s.skip(i + 1) =~= c);
        lemma_first_index(c, '\\');
        assert(split_on(c, '\\') == seq![c]);
        assert(x.take(i) =~= x);
        assert(split_on(s, '\\') =~= split_on(x, '\\').push(c));
    }
}

/// A sequence ending in the separator, or empty, splits with an empty last piece.
proof fn lemma_split_empty_last(x: Seq<char>)
    requires
        x.len() == 0 || x.last() == '\\',
    ensures
        first_component_error(split_on(x, '\\')) is Some,
{
    if x.len() == 0 {
        lemma_first_index(x, '\\');
        assert(split_on(x, '\\') == seq![x]);
    } else {
        let xl = x.drop_last();
        assert(x =~= xl + seq!['\\'] + Seq::<char>::empty());
        lemma_split_append(xl, Seq::<char>::empty());
        lemma_first_error_push(split_on(xl, '\\'), Seq::<char>::empty());
    }
}

proof fn lemma_first_error_push(cs: Seq<Seq<char>>, c: Seq<char>)
    ensures
        first_component_error(cs.push(c)) == (if first_component_error(cs) is Some {
            first_component_error(cs)
        } else {
            component_error(c)
        }),
    decreases cs.len(),
{
    if cs.len() == 0 {
        assert(cs.push(c).drop_first() =~= Seq::<Seq<char>>::empty());
    } else {
        assert(cs.push(c).drop_first() =~= cs.drop_first().push(c));
        lemma_first_error_push(cs.drop_first(), c);
    }
}

/// A valid component never holds a backslash.
proof fn lemma_valid_component_no_sep(c: Seq<char>)
    requires
        component_error(c) is None,
    ensures
        !c.contains('\\'),
        !c.contains('/'),
        !c.contains('\0'),
        c.len() > 0,
{
}

/// Facts about a canonical non-root path: it starts with a backslash, holds
/// no slash or NUL, does not end with a backslash, and all the components of
/// its body are valid.
proof fn lemma_canonical_facts(p: Seq<char>)
    requires
        is_folder_path(p) || is_task_path(p),
    ensures
        p.len() > 0,
        p[0] == '\\',
        !p.contains('/'),
        !p.contains('\0'),
        normalize_separators(p) == p,
        p != root_text() ==> p.len() >= 2 && p.last() != '\\'
            && first_component_error(split_on(p.drop_first(), '\\')) is None,
{
    lemma_normalized_has_no_slash(p);
}

/// Conversely, a path with those facts is canonical in both senses.
proof fn lemma_facts_canonical(p: Seq<char>)
    requires
        p.len() >= 2,
        p[0] == '\\',
        !p.contains('/'),
        !p.contains('\0'),
        p.last() != '\\',
        first_component_error(split_on(p.drop_first(), '\\')) is None,
    ensures
        is_folder_path(p),
        is_task_path(p),
{
    lemma_normalize_no_slash(p);
    assert(p != seq!['\\']) by {
        assert(p.len() != 1);
    }
}

proof fn lemma_no_char_concat(a: Seq<char>, b: Seq<char>, c: char)
    requires
        !a.contains(c),
        !b.contains(c),
    ensures
        !(a + b).contains(c),
{
    if (a + b).contains(c) {
        let k = choose|k: int| 0 <= k < (a + b).len() && (a + b)[k] == c;
        if k < a.len() {
            assert(a[k] == c);
        } else {
            assert(b[k - a.len()] == c);
        }
    }
}

/// Joining a valid component to a canonical folder yields a canonical path
/// in both the folder and the task sense, whose parent is the folder and
/// whose name is the component.
pub proof fn lemma_join_canonical(folder: Seq<char>, child: Seq<char>)
    requires
        is_folder_path(folder),
        component_error(child) is None,
    ensures
        is_folder_path(joined(folder, child)),
        is_task_path(joined(folder, child)),
        parent_text(joined(folder, child)) == folder,
        name_text(joined(folder, child)) == child,
{
    lemma_valid_component_no_sep(child);
    lemma_canonical_facts(folder);
    let j = joined(folder, child);
    let sep = seq!['\\'];
    assert(!sep.contains('/') && !sep.contains('\0')) by {
        if sep.contains('/') {
            let k = choose|k: int| 0 <= k < sep.len() && sep[k] == '/';
            assert(sep[k] == '\\');
        }
        if sep.contains('\0') {
            let k = choose|k: int| 0 <= k < sep.len() && sep[k] == '\0';
            assert(sep[k] == '\\');
        }
    }
    let i = if folder == root_text() { 0 } else { folder.len() as int };
    if folder == root_text() {
        lemma_no_char_concat(sep, child, '/');
        lemma_no_char_concat(sep, child, '\0');
        assert(j.drop_first() =~= child);
        lemma_first_index(child, '\\');
        assert(split_on(child, '\\') == seq![child]);
        assert(seq![child].drop_first() =~= Seq::<Seq<char>>::empty());
        assert(first_component_error(Seq::<Seq<char>>::empty()) is None);
        assert(first_component_error(seq![child]) is None);
        assert(first_component_error(split_on(j.drop_first(), '\\')) is None);
    } else {
        lemma_no_char_concat(folder, sep, '/');
        lemma_no_char_concat(folder + sep, child, '/');
        lemma_no_char_concat(folder, sep, '\0');
        lemma_no_char_concat(folder + sep, child, '\0');
        let fb = folder.drop_first();
        assert(j.drop_first() =~= fb + sep + child);
        lemma_split_append(fb, child);
        lemma_first_error_push(split_on(fb, '\\'), child);
        assert(first_component_error(split_on(fb, '\\')) is None);
        assert(first_component_error(split_on(j.drop_first(), '\\')) is None);
    }
    assert(j[i] == '\\');
    assert forall|k: int| i < k < j.len() implies j[k] != '\\' by {
        assert(j[k] == child[k - i - 1]);
    }
    lemma_last_index_is(j, '\\', i);
    assert(j.skip(i + 1) =~= child);
    if i > 0 {
        assert(j.take(i) =~= folder);
    }
    assert(j.last() == child.last());
    lemma_facts_canonical(j);
}

/// The parent of a canonical non-root path is a canonical folder, and the
/// path is its parent joined with its valid final name.
pub proof fn lemma_parent_canonical(path: Seq<char>)
    requires
        is_folder_path(path) || is_task_path(path),
        path != root_text(),
    ensures
        is_folder_path(parent_text(path)),
        joined(parent_text(path), name_text(path)) == path,
        component_error(name_text(path)) is None,
        last_index(path, '\\') >= 0,
{
    let p = path;
    lemma_canonical_facts(p);
    lemma_last_index(p, '\\');
    let k = last_index(p, '\\');
    assert(p.contains('\\')) by {
        assert(p[0] == '\\');
    }
    let name = p.skip(k + 1);
    assert(!name.contains('\\')) by {
        if name.contains('\\') {
            let m = choose|m: int| 0 <= m < name.len() && name[m] == '\\';
            assert(p[k + 1 + m] == '\\');
        }
    }
    let body = p.drop_first();
    if k == 0 {
        assert(body =~= name);
        lemma_first_index(body, '\\');
        assert(split_on(body, '\\') == seq![body]);
        assert(joined(root_text(), name) =~= p);
        lemma_root_canonical();
    } else {
        let prefix = p.take(k);
        let pb = prefix.drop_first();
        assert(body =~= pb + seq!['\\'] + name);
        lemma_split_append(pb, name);
        lemma_first_error_push(split_on(pb, '\\'), name);
        if pb.len() == 0 || pb.last() == '\\' {
            lemma_split_empty_last(pb);
        }
        assert(!prefix.contains('/')) by {
            if prefix.contains('/') {
                let m = choose|m: int| 0 <= m < prefix.len() && prefix[m] == '/';
                assert(p[m] == '/');
            }
        }
        assert(!prefix.contains('\0')) by {
            if prefix.contains('\0') {
                let m = choose|m: int| 0 <= m < prefix.len() && prefix[m] == '\0';
                assert(p[m] == '\0');
            }
        }
        assert(prefix.last() == pb.last());
        lemma_facts_canonical(prefix);
        assert(prefix != root_text()) by {
            assert(prefix.len() >= 2);
        }
        assert(joined(prefix, name) =~= p);
    }
}


impl std::str::FromStr for FolderPath {
    type Err = ParsePathError;

    fn from_str(value: &str) -> Result<Self, ParsePathError> {
        FolderPath::parse(value)
    }
}

impl std::str::FromStr for TaskPath {
    type Err = ParsePathError;

    fn from_str(value: &str) -> Result<Self, ParsePathError> {
        TaskPath::parse(value)
    }
}

} // verus!
