//! Task actions and Windows command-line quoting.
use vstd::prelude::*;
use vstd::string::*;

use crate::text::{chars_of, decimal, opt_view, push_char, string_of, u64_to_string};
use crate::MAX_RUN_ARGUMENTS;

verus! {

broadcast use vstd::string::group_string_axioms;

/// One executable action.
#[derive(Clone, Debug, Eq, PartialEq)]
pub struct ExecAction {
    /// Optional action identifier, unique within the task.
    pub id: Option<String>,
    /// Executable or document path.
    pub command: String,
    /// Raw Windows command-line tail. This does not include `command`.
    pub arguments: Option<String>,
    /// Optional working directory.
    pub working_directory: Option<String>,
    /// Requests a hidden window on scheduler versions that support it.
    pub hide_window: bool,
}

/// Whether `c` is ASCII whitespace as `char::is_ascii_whitespace` defines it.
pub open spec fn is_ascii_whitespace(c: char) -> bool {
    c == ' ' || c == '\t' || c == '\n' || c == '\u{c}' || c == '\r'
}

/// `n` backslashes.
pub open spec fn backslashes(n: nat) -> Seq<char> {
    Seq::new(n, |i: int| '\\')
}

/// Body of a quoted argument, with `pending` backslashes not yet written:
/// backslashes before a quote are doubled and the quote escaped, a run of
/// backslashes at the end is doubled, any other backslashes are kept.
pub open spec fn quoted_body(s: Seq<char>, pending: nat) -> Seq<char>
    decreases s.len(),
{
    if s.len() == 0 {
        backslashes(pending * 2)
    } else if s[0] == '\\' {
        quoted_body(s.drop_first(), pending + 1)
    } else if s[0] == '"' {
        backslashes(pending * 2 + 1) + seq!['"'] + quoted_body(s.drop_first(), 0)
    } else {
        backslashes(pending) + seq![s[0]] + quoted_body(s.drop_first(), 0)
    }
}

/// Whether an argument must be quoted: it is empty or holds ASCII
/// whitespace or a double quote.
pub open spec fn needs_quotes(a: Seq<char>) -> bool {
    a.len() == 0 || exists|i: int| 0 <= i < a.len() && (is_ascii_whitespace(a[i]) || a[i] == '"')
}

/// One argument quoted as `CommandLineToArgvW` and the MSVC runtime parse it.
pub open spec fn quote_spec(a: Seq<char>) -> Seq<char> {
    if needs_quotes(a) {
        seq!['"'] + quoted_body(a, 0) + seq!['"']
    } else {
        a
    }
}

/// Arguments quoted one by one and joined with single spaces.
pub open spec fn join_quoted(args: Seq<Seq<char>>) -> Seq<char>
    decreases args.len(),
{
    if args.len() == 0 {
        Seq::empty()
    } else if args.len() == 1 {
        quote_spec(args[0])
    } else {
        join_quoted(args.drop_last()) + seq![' '] + quote_spec(args.last())
    }
}

fn push_backslashes(out: &mut String, n: usize)
    ensures
        final(out)@ == old(out)@ + backslashes(n as nat),
{
    let mut i: usize = 0;
    while i < n
        invariant
            i <= n,
            out@ == old(out)@ + backslashes(i as nat),
        decreases n - i,
    {
        push_char(out, '\\');
        proof {
            assert(out@ =~= old(out)@ + backslashes((i + 1) as nat));
        }
        i += 1;
    }
}

/// Quotes one argument according to Windows' conventional argv parser rules.
pub fn quote_windows_argument(argument: &str) -> (q: String)
    ensures
        q@ == quote_spec(argument@),
{
    let chars = chars_of(argument);
    let mut needs = chars.len() == 0;
    let mut i: usize = 0;
    while i < chars.len()
        invariant
            i <= chars.len(),
            chars@ == argument@,
            needs == (chars@.len() == 0 || exists|j: int| 0 <= j < i && (is_ascii_whitespace(chars@[j]) || chars@[j] == '"')),
        decreases chars.len() - i,
    {
        let c = chars[i];
        if c == ' ' || c == '\t' || c == '\n' || c == '\u{c}' || c == '\r' || c == '"' {
            needs = true;
        }
        i += 1;
    }
    if !needs {
        return argument.to_owned();
    }
    let mut quoted = String::new();
    push_char(&mut quoted, '"');
    let mut pending: usize = 0;
    let mut k: usize = 0;
    proof {
        assert(chars@.skip(0) =~= chars@);
    }
    while k < chars.len()
        invariant
            k <= chars.len(),
            pending <= k,
            chars@ == argument@,
            quoted@ + quoted_body(chars@.skip(k as int), pending as nat) == seq!['"'] + quoted_body(chars@, 0),
        decreases chars.len() - k,
    {
        let c = chars[k];
        proof {
            assert(chars@.skip(k as int).drop_first() =~= chars@.skip(k + 1));
            assert(chars@.skip(k as int)[0] == c);
        }
        if c == '\\' {
            pending += 1;
        } else if c == '"' {
            push_backslashes(&mut quoted, pending);
            push_backslashes(&mut quoted, pending);
            push_char(&mut quoted, '\\');
            push_char(&mut quoted, '"');
            proof {
                assert(backslashes(pending as nat) + backslashes(pending as nat) + seq!['\\'] =~= backslashes(pending as nat * 2 + 1));
                assert(quoted@ + quoted_body(chars@.skip(k + 1), 0) =~= seq!['"'] + quoted_body(chars@, 0));
            }
            pending = 0;
        } else {
            push_backslashes(&mut quoted, pending);
            push_char(&mut quoted, c);
            proof {
                assert(quoted@ + quoted_body(chars@.skip(k + 1), 0) =~= seq!['"'] + quoted_body(chars@, 0));
            }
            pending = 0;
        }
        k += 1;
    }
    proof {
        assert(chars@.skip(chars.len() as int) =~= Seq::<char>::empty());
    }
    push_backslashes(&mut quoted, pending);
    push_backslashes(&mut quoted, pending);
    proof {
        assert(backslashes(pending as nat) + backslashes(pending as nat) =~= backslashes(pending as nat * 2));
    }
    push_char(&mut quoted, '"');
    quoted
}

impl ExecAction {
    /// Creates an executable action.
    pub fn new(command: &str) -> (a: Self)
        ensures
            a.id is None,
            a.command@ == command@,
            a.arguments is None,
            a.working_directory is None,
            !a.hide_window,
    {
        ExecAction {
            id: None,
            command: command.to_owned(),
            arguments: None,
            working_directory: None,
            hide_window: false,
        }
    }

    /// Replaces the raw command-line tail.
    pub fn raw_arguments(self, arguments: &str) -> (a: Self)
        ensures
            opt_view(a.arguments) == Some(arguments@),
            a.id == self.id,
            a.command == self.command,
            a.working_directory == self.working_directory,
            a.hide_window == self.hide_window,
    {
        let mut a = self;
        a.arguments = Some(arguments.to_owned());
        a
    }

    /// Quotes a sequence using the `CommandLineToArgvW`/MSVC convention and
    /// joins the quoted arguments with spaces.
    pub fn args(self, arguments: &[&str]) -> (a: Self)
        ensures
            opt_view(a.arguments) == Some(join_quoted(arguments@.map_values(|s: &str| s@))),
            a.id == self.id,
            a.command == self.command,
            a.working_directory == self.working_directory,
            a.hide_window == self.hide_window,
    {
        let ghost views = arguments@.map_values(|s: &str| s@);
        let mut joined = String::new();
        let mut i: usize = 0;
        while i < arguments.len()
            invariant
                i <= arguments.len(),
                views == arguments@.map_values(|s: &str| s@),
                joined@ == join_quoted(views.take(i as int)),
            decreases arguments.len() - i,
        {
            let quoted = quote_windows_argument(arguments[i]);
            if i > 0 {
                push_char(&mut joined, ' ');
            }
            joined.append(quoted.as_str());
            proof {
                assert(views.take(i + 1).drop_last() =~= views.take(i as int));
                if i == 0 {
                    assert(views.take(1) =~= seq![views[0]]);
                }
            }
            i += 1;
        }
        proof {
            assert(views.take(arguments.len() as int) =~= views);
        }
        let mut a = self;
        a.arguments = Some(joined);
        a
    }
}

} // verus!

verus! {

/// A COM handler action.
#[derive(Clone, Debug, Eq, PartialEq)]
pub struct ComHandlerAction {
    /// Optional action identifier, unique within the task.
    pub id: Option<String>,
    /// Registered COM class identifier as its 128-bit value
    /// (most significant byte first, as `uuid::Uuid::as_u128` gives it).
    pub class_id: u128,
    /// Opaque handler data passed to `ITaskHandler::Start`.
    pub data: Option<String>,
}

/// One named email header from the legacy email action.
#[derive(Clone, Debug, Eq, PartialEq)]
pub struct EmailHeader {
    /// Header name.
    pub name: String,
    /// Header value.
    pub value: String,
}

/// Legacy Task Scheduler email action.
#[derive(Clone, Debug, Default, Eq, PartialEq)]
pub struct EmailAction {
    /// Optional action identifier.
    pub id: Option<String>,
    /// SMTP server.
    pub server: String,
    /// Subject line.
    pub subject: Option<String>,
    /// Sender.
    pub from: Option<String>,
    /// Primary recipients.
    pub to: Option<String>,
    /// Carbon-copy recipients.
    pub cc: Option<String>,
    /// Blind-carbon-copy recipients.
    pub bcc: Option<String>,
    /// Reply-to address.
    pub reply_to: Option<String>,
    /// Message body.
    pub body: Option<String>,
    /// Attachment paths.
    pub attachments: Vec<String>,
    /// Additional headers.
    pub headers: Vec<EmailHeader>,
}

/// Legacy Task Scheduler message action.
#[derive(Clone, Debug, Eq, PartialEq)]
pub struct ShowMessageAction {
    /// Optional action identifier.
    pub id: Option<String>,
    /// Window title.
    pub title: Option<String>,
    /// Message body.
    pub body: String,
}

/// An action not understood by this crate, retained for lossless round trips.
#[derive(Clone, Debug, Eq, PartialEq)]
pub struct UnknownAction {
    /// XML local name.
    pub kind: String,
    /// Original XML element including its start and end tags.
    pub xml: String,
}

/// A Task Scheduler action.
#[derive(Clone, Debug, Eq, PartialEq)]
pub enum Action {
    /// Starts an executable, script, or associated document.
    Exec(ExecAction),
    /// Invokes a registered COM handler.
    ComHandler(ComHandlerAction),
    /// Retained legacy email action, unsupported by modern Windows engines.
    Email(EmailAction),
    /// Retained legacy message action, unsupported by modern Windows engines.
    ShowMessage(ShowMessageAction),
    /// A future or custom XML action retained without interpretation.
    Unknown(UnknownAction),
}

/// The identifier of an action; unknown actions have none.
pub open spec fn action_id(a: Action) -> Option<Seq<char>> {
    match a {
        Action::Exec(x) => opt_view(x.id),
        Action::ComHandler(x) => opt_view(x.id),
        Action::Email(x) => opt_view(x.id),
        Action::ShowMessage(x) => opt_view(x.id),
        Action::Unknown(_) => None,
    }
}

impl Action {
    /// Returns the optional identifier shared by all known action kinds.
    pub fn id(&self) -> (r: Option<&str>)
        ensures
            crate::text::opt_str_view(r) == action_id(*self),
    {
        let id = match self {
            Action::Exec(action) => &action.id,
            Action::ComHandler(action) => &action.id,
            Action::Email(action) => &action.id,
            Action::ShowMessage(action) => &action.id,
            Action::Unknown(_) => return None,
        };
        match id {
            Some(value) => Some(value.as_str()),
            None => None,
        }
    }
}

/// `$(ArgN)` for an argument index.
pub open spec fn placeholder(index: nat) -> Seq<char> {
    seq!['$', '(', 'A', 'r', 'g'] + decimal(index) + seq![')']
}

/// Every non-overlapping occurrence of `needle`, scanning left to right,
/// replaced by `rep`.
pub open spec fn replace_all(s: Seq<char>, needle: Seq<char>, rep: Seq<char>) -> Seq<char>
    decreases s.len(),
{
    if s.len() == 0 {
        Seq::empty()
    } else if needle.len() > 0 && needle.len() <= s.len() && s.take(needle.len() as int) == needle {
        rep + replace_all(s.skip(needle.len() as int), needle, rep)
    } else {
        seq![s[0]] + replace_all(s.drop_first(), needle, rep)
    }
}

/// The placeholder indices 0 through 31 in the lexicographic order of their
/// `$(ArgN)` texts, the order in which substitutions are applied.
pub open spec fn substitution_order() -> Seq<nat> {
    seq![0nat, 1, 10, 11, 12, 13, 14, 15, 16, 17, 18, 19, 2, 20, 21, 22, 23, 24, 25, 26, 27, 28, 29,
        3, 30, 31, 4, 5, 6, 7, 8, 9]
}

/// `input` after substituting, in [`substitution_order`], every
/// placeholder among the first `count` of `order` whose index is below
/// `limit`.
pub open spec fn expand_spec(input: Seq<char>, args: Seq<Seq<char>>, count: nat) -> Seq<char>
    decreases count,
{
    if count == 0 {
        input
    } else {
        let prev = expand_spec(input, args, (count - 1) as nat);
        let index = substitution_order()[count - 1];
        if index < args.len() && index < 32 {
            replace_all(prev, placeholder(index), args[index as int])
        } else {
            prev
        }
    }
}

pub(crate) fn replace_all_exec(s: &str, needle: &[char], rep: &str) -> (r: String)
    requires
        needle.len() > 0,
    ensures
        r@ == replace_all(s@, needle@, rep@),
{
    let chars = chars_of(s);
    let mut out = String::new();
    let mut i: usize = 0;
    proof {
        assert(chars@.skip(0) =~= chars@);
    }
    while i < chars.len()
        invariant
            i <= chars.len(),
            needle@.len() > 0,
            out@ + replace_all(chars@.skip(i as int), needle@, rep@) == replace_all(chars@, needle@, rep@),
        decreases chars.len() - i,
    {
        let ghost rest = chars@.skip(i as int);
        let mut matches = needle.len() <= chars.len() - i;
        let mut j: usize = 0;
        while matches && j < needle.len()
            invariant
                j <= needle.len(),
                rest == chars@.skip(i as int),
                matches ==> needle.len() <= rest.len(),
                matches ==> forall|k: int| 0 <= k < j ==> rest[k] == needle@[k],
                !matches ==> !(needle.len() <= rest.len() && rest.take(needle.len() as int) == needle@),
                i < chars.len(),
            decreases needle.len() - j,
        {
            if chars[i + j] != needle[j] {
                proof {
                    if needle.len() <= rest.len() && rest.take(needle.len() as int) == needle@ {
                        assert(rest.take(needle.len() as int)[j as int] == rest[j as int]);
                    }
                }
                matches = false;
            }
            j += 1;
        }
        proof {
            assert(rest.len() > 0);
            if matches {
                assert(rest.take(needle.len() as int) =~= needle@);
            }
        }
        if matches {
            out.append(rep);
            proof {
                assert(rest.skip(needle.len() as int) =~= chars@.skip(i + needle.len()));
            }
            i += needle.len();
        } else {
            push_char(&mut out, chars[i]);
            proof {
                assert(rest.drop_first() =~= chars@.skip(i + 1));
                assert(rest[0] == chars@[i as int]);
            }
            i += 1;
        }
    }
    proof {
        assert(chars@.skip(chars.len() as int) =~= Seq::<char>::empty());
        assert(chars@.skip(0) =~= chars@);
    }
    out
}

fn placeholder_chars(index: u64) -> (v: Vec<char>)
    ensures
        v@ == placeholder(index as nat),
        v@.len() > 0,
{
    let mut text = String::new();
    push_char(&mut text, '$');
    push_char(&mut text, '(');
    push_char(&mut text, 'A');
    push_char(&mut text, 'r');
    push_char(&mut text, 'g');
    text.append(u64_to_string(index).as_str());
    push_char(&mut text, ')');
    proof {
        assert(text@ =~= placeholder(index as nat));
    }
    chars_of(text.as_str())
}

/// Expands up to 32 Task Scheduler substitutions, starting at `$(Arg0)`.
pub fn expand_action_templates(input: &str, arguments: &[String]) -> (r: String)
    ensures
        r@ == expand_spec(input@, arguments@.map_values(|s: String| s@), 32),
{
    let order: [u64; 32] = [0, 1, 10, 11, 12, 13, 14, 15, 16, 17, 18, 19, 2, 20, 21, 22, 23, 24, 25,
        26, 27, 28, 29, 3, 30, 31, 4, 5, 6, 7, 8, 9];
    let ghost args = arguments@.map_values(|s: String| s@);
    proof {
        assert(order@.len() == 32);
        assert forall|k: int| 0 <= k < 32 implies order@[k] as nat == #[trigger] substitution_order()[k] by {
            assert(order@ =~= seq![0u64, 1, 10, 11, 12, 13, 14, 15, 16, 17, 18, 19, 2, 20, 21, 22, 23, 24, 25,
                26, 27, 28, 29, 3, 30, 31, 4, 5, 6, 7, 8, 9]);
        }
    }
    let mut expanded = input.to_owned();
    let mut k: usize = 0;
    while k < 32
        invariant
            k <= 32,
            args == arguments@.map_values(|s: String| s@),
            forall|m: int| 0 <= m < 32 ==> order@[m] as nat == #[trigger] substitution_order()[m],
            expanded@ == expand_spec(input@, args, k as nat),
        decreases 32 - k,
    {
        let index = order[k];
        proof {
            assert(order@[k as int] as nat == substitution_order()[k as int]);
        }
        if (index as usize) < arguments.len() && (index as usize) < MAX_RUN_ARGUMENTS {
            let needle = placeholder_chars(index);
            expanded = replace_all_exec(expanded.as_str(), needle.as_slice(), arguments[index as usize].as_str());
        }
        k += 1;
    }
    expanded
}

} // verus!
