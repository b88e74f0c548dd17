//! Security principals under which tasks run.
use vstd::prelude::*;

use crate::text::chars_of;

verus! {

broadcast use vstd::string::group_string_axioms;

/// Built-in service identities understood by Task Scheduler.
#[derive(Clone, Copy, Debug, Eq, Hash, PartialEq, Structural)]
pub enum ServiceAccount {
    /// Local System (`SYSTEM`).
    LocalSystem,
    /// Local Service.
    LocalService,
    /// Network Service.
    NetworkService,
}

/// Identity associated with a task principal.
#[derive(Clone, Debug, Eq, PartialEq)]
pub enum PrincipalIdentity {
    /// No identity is embedded in the definition.
    Unspecified,
    /// A user account by SAM name, UPN, SID, or well-known alias.
    User(String),
    /// A group by name or SID.
    Group(String),
    /// A built-in service account.
    ServiceAccount(ServiceAccount),
}

/// Task Scheduler logon strategy.
#[derive(Clone, Copy, Debug, Eq, Hash, PartialEq, Structural)]
pub enum LogonType {
    /// The logon method is not specified.
    Unspecified,
    /// Stores a password with Task Scheduler.
    Password,
    /// Uses an existing interactive token.
    InteractiveToken,
    /// Uses a Service-for-User token without network or encrypted-file access.
    S4u,
    /// Activates for any member of the configured group.
    Group,
    /// Runs as Local System, Local Service, or Network Service.
    ServiceAccount,
    /// Uses an interactive token when available, otherwise the supplied password.
    InteractiveTokenOrPassword,
}

/// Requested elevation level.
#[derive(Clone, Copy, Debug, Default, Eq, Hash, PartialEq, Structural)]
pub enum RunLevel {
    /// Runs with the least-privileged token available.
    #[default]
    LeastPrivilege,
    /// Runs with the highest available token.
    HighestAvailable,
}

/// Process token SID behavior.
#[derive(Clone, Copy, Debug, Default, Eq, Hash, PartialEq, Structural)]
pub enum ProcessTokenSidType {
    /// Uses Task Scheduler's default behavior.
    #[default]
    Default,
    /// Does not add a task SID to the token.
    NoSid,
    /// Adds an unrestricted task SID.
    Unrestricted,
}

/// Whether `v` is a privilege name: `Se`, at least one character, `Privilege`.
pub open spec fn is_privilege_name(v: Seq<char>) -> bool {
    &&& v.len() > 11
    &&& v.take(2) == seq!['S', 'e']
    &&& v.skip(v.len() - 9) == seq!['P', 'r', 'i', 'v', 'i', 'l', 'e', 'g', 'e']
}

/// A Windows privilege requested for the task token.
#[derive(Debug, Eq, Hash, Ord, PartialEq, PartialOrd)]
pub struct RequiredPrivilege(String);

impl View for RequiredPrivilege {
    type V = Seq<char>;

    closed spec fn view(&self) -> Seq<char> {
        self.0@
    }
}

impl Clone for RequiredPrivilege {
    fn clone(&self) -> (c: Self)
        ensures
            c@ == self@,
    {
        RequiredPrivilege(self.0.clone())
    }
}

/// An invalid Windows privilege name.
#[derive(Clone, Debug, Eq, PartialEq)]
pub struct InvalidPrivilege(String);

impl View for InvalidPrivilege {
    type V = Seq<char>;

    closed spec fn view(&self) -> Seq<char> {
        self.0@
    }
}

impl InvalidPrivilege {
    /// The rejected name.
    pub fn name(&self) -> (s: &str)
        ensures
            s@ == self@,
    {
        self.0.as_str()
    }
}

impl RequiredPrivilege {
    /// Creates a privilege name such as `SeBackupPrivilege`.
    pub fn new(value: &str) -> (r: Result<Self, InvalidPrivilege>)
        ensures
            match r {
                Ok(p) => is_privilege_name(value@) && p@ == value@,
                Err(e) => !is_privilege_name(value@) && e@ == value@,
            },
    {
        let v = chars_of(value);
        let n = v.len();
        let ghost s9 = seq!['P', 'r', 'i', 'v', 'i', 'l', 'e', 'g', 'e'];
        let suffix = ['P', 'r', 'i', 'v', 'i', 'l', 'e', 'g', 'e'];
        proof {
            assert(suffix@ == s9);
        }
        if n <= 11 || v[0] != 'S' || v[1] != 'e' {
            proof {
                if n > 11 {
                    assert(v@.take(2)[0] == v@[0] && v@.take(2)[1] == v@[1]);
                }
            }
            return Err(InvalidPrivilege(value.to_owned()));
        }
        let mut i: usize = 0;
        while i < 9
            invariant
                i <= 9,
                n > 11,
                v@.len() == n,
                v@ == value@,
                suffix@ == s9,
                s9 == seq!['P', 'r', 'i', 'v', 'i', 'l', 'e', 'g', 'e'],
                forall|j: int| 0 <= j < i ==> v@[n - 9 + j] == s9[j],
            decreases 9 - i,
        {
            if v[n - 9 + i] != suffix[i] {
                proof {
                    assert(v@.skip(n - 9)[i as int] != s9[i as int]);
                    assert(v@.skip(n - 9) != s9);
                    assert(value@.len() == n);
                    assert(value@.skip(value@.len() - 9) == v@.skip(n - 9));
                    assert(value@.skip(value@.len() - 9) != s9);
                    assert(!is_privilege_name(value@));
                }
                return Err(InvalidPrivilege(value.to_owned()));
            }
            i += 1;
        }
        proof {
            assert(v@.take(2) =~= seq!['S', 'e']);
            assert(v@.skip(n - 9) =~= s9);
        }
        Ok(RequiredPrivilege(value.to_owned()))
    }

    /// Returns the native privilege name.
    pub fn as_str(&self) -> (s: &str)
        ensures
            s@ == self@,
    {
        self.0.as_str()
    }
}

/// Security principal under which a task runs.
#[derive(Clone, Debug, Eq, PartialEq)]
pub struct Principal {
    /// XML identifier referenced by the task definition.
    pub id: String,
    /// Human-readable display name.
    pub display_name: Option<String>,
    /// User, group, or service identity.
    pub identity: PrincipalIdentity,
    /// Authentication/token strategy.
    pub logon_type: LogonType,
    /// Requested UAC run level.
    pub run_level: RunLevel,
    /// Task SID behavior.
    pub process_token_sid_type: ProcessTokenSidType,
    /// Extra privileges requested in the token.
    pub required_privileges: Vec<RequiredPrivilege>,
}

impl Default for Principal {
    /// The `Author` principal with no identity and default token behavior.
    fn default() -> (p: Self)
        ensures
            p.id@ == seq!['A', 'u', 't', 'h', 'o', 'r'],
            p.display_name is None,
            p.identity is Unspecified,
            p.logon_type == LogonType::Unspecified,
            p.run_level == RunLevel::LeastPrivilege,
            p.process_token_sid_type == ProcessTokenSidType::Default,
            p.required_privileges@.len() == 0,
    {
        let mut id = String::new();
        crate::text::push_char(&mut id, 'A');
        crate::text::push_char(&mut id, 'u');
        crate::text::push_char(&mut id, 't');
        crate::text::push_char(&mut id, 'h');
        crate::text::push_char(&mut id, 'o');
        crate::text::push_char(&mut id, 'r');
        Principal {
            id,
            display_name: None,
            identity: PrincipalIdentity::Unspecified,
            logon_type: LogonType::Unspecified,
            run_level: RunLevel::LeastPrivilege,
            process_token_sid_type: ProcessTokenSidType::Default,
            required_privileges: Vec::new(),
        }
    }
}

} // verus!

verus! {

/// Whether a principal is the default one with the given identity and
/// logon type: the `Author` id, no display name, least privilege, default
/// token SID type and no extra privileges.
pub open spec fn constructed(p: Principal, identity: PrincipalIdentity, logon_type: LogonType) -> bool {
    &&& p.id@ == seq!['A', 'u', 't', 'h', 'o', 'r']
    &&& p.display_name is None
    &&& p.identity == identity
    &&& p.logon_type == logon_type
    &&& p.run_level == RunLevel::LeastPrivilege
    &&& p.process_token_sid_type == ProcessTokenSidType::Default
    &&& p.required_privileges@.len() == 0
}

impl Principal {
    fn with_identity(identity: PrincipalIdentity, logon_type: LogonType) -> (p: Self)
        ensures
            constructed(p, identity, logon_type),
    {
        let base = Principal::default();
        Principal { identity, logon_type, ..base }
    }

    /// Runs as a built-in service account.
    pub fn service_account(account: ServiceAccount) -> (p: Self)
        ensures
            constructed(p, PrincipalIdentity::ServiceAccount(account), LogonType::ServiceAccount),
            crate::validation::identity_matches(p),
    {
        Principal::with_identity(PrincipalIdentity::ServiceAccount(account), LogonType::ServiceAccount)
    }

    /// Runs as a user only while that user is logged on, with the user's
    /// interactive token.
    pub fn user(name: &str) -> (p: Self)
        ensures
            p.identity matches PrincipalIdentity::User(u) && u@ == name@,
            constructed(p, p.identity, LogonType::InteractiveToken),
            crate::validation::identity_matches(p),
    {
        Principal::with_identity(PrincipalIdentity::User(name.to_owned()), LogonType::InteractiveToken)
    }

    /// Runs as a user whether or not the user is logged on, with a stored
    /// password supplied at registration.
    pub fn user_with_password(name: &str) -> (p: Self)
        ensures
            p.identity matches PrincipalIdentity::User(u) && u@ == name@,
            constructed(p, p.identity, LogonType::Password),
            crate::validation::identity_matches(p),
    {
        Principal::with_identity(PrincipalIdentity::User(name.to_owned()), LogonType::Password)
    }

    /// Runs as a user without a stored password, with no access to network
    /// resources or encrypted files.
    pub fn s4u(name: &str) -> (p: Self)
        ensures
            p.identity matches PrincipalIdentity::User(u) && u@ == name@,
            constructed(p, p.identity, LogonType::S4u),
            crate::validation::identity_matches(p),
    {
        Principal::with_identity(PrincipalIdentity::User(name.to_owned()), LogonType::S4u)
    }

    /// Runs for members of a group who are logged on.
    pub fn group(name: &str) -> (p: Self)
        ensures
            p.identity matches PrincipalIdentity::Group(g) && g@ == name@,
            constructed(p, p.identity, LogonType::Group),
            crate::validation::identity_matches(p),
    {
        Principal::with_identity(PrincipalIdentity::Group(name.to_owned()), LogonType::Group)
    }

    /// The same principal with the given run level.
    pub fn run_level(self, level: RunLevel) -> (p: Self)
        ensures
            p == (Principal { run_level: level, ..self }),
    {
        Principal { run_level: level, ..self }
    }
}

} // verus!
