//! The credentials for a host, looked up in the text of a netrc file.

use crate::error::ReportError;
use crate::text::same_text;
use vstd::prelude::*;

verus! {

/// An entry of a netrc file: a host, and how to log in there.
#[derive(Debug, PartialEq, Eq)]
pub struct Machine {
    pub host: String,
    pub login: String,
    pub password: Option<String>,
}

/// What is needed to log in.
#[derive(Debug, PartialEq, Eq)]
pub enum Credentials {
    /// A user name and a password.
    Basic(String, String),
}

/// What a `Machine` holds: the host, the login and the password.
pub open spec fn machine_view(m: Machine) -> (Seq<char>, Seq<char>, Option<Seq<char>>) {
    (
        m.host@,
        m.login@,
        match m.password {
            Some(p) => Some(p@),
            None => None,
        },
    )
}

/// What a list of machines holds.
pub open spec fn machine_views(list: Seq<Machine>) -> Seq<
    (Seq<char>, Seq<char>, Option<Seq<char>>),
> {
    Seq::new(list.len(), |i: int| machine_view(list[i]))
}

/// `netrc::Error`: that there is one is all that is used of it.
#[verifier::external_type_specification]
#[verifier::external_body]
pub struct ExNetrcError(netrc::Error);

/// The entries `machine` that `netrc::Netrc::parse` reads from `text`, in their
/// order, each with its host, login and password; `None` where it reports an
/// error.
pub uninterp spec fn netrc_machines(text: Seq<u8>) -> Option<
    Seq<(Seq<char>, Seq<char>, Option<Seq<char>>)>,
>;

/// Whether every byte of `text` is an ASCII character.
pub open spec fn is_ascii_text(text: Seq<u8>) -> bool {
    forall|i: int| 0 <= i < text.len() ==> #[trigger] text[i] < 128
}

/// `netrc::Netrc::parse` on the bytes `text`, and the `hosts` of what it returns.
/// What it returns depends on the bytes alone. The parser counts characters where
/// it cuts the text by bytes, so it is given ASCII text only.
#[verifier::external_body]
fn read_netrc(text: &[u8]) -> (r: Result<Vec<Machine>, netrc::Error>)
    requires
        is_ascii_text(text@),
    ensures
        r is Ok <==> netrc_machines(text@) is Some,
        r matches Ok(list) ==> netrc_machines(text@) == Some(machine_views(list@)),
{
    match netrc::Netrc::parse(text) {
        Ok(file) => Ok(
            file.hosts.into_iter().map(
                |(host, m)| Machine { host, login: m.login, password: m.password },
            ).collect(),
        ),
        Err(e) => Err(e),
    }
}

/// The login and the password of the first of `machines` whose host is `host`.
pub open spec fn first_machine(
    machines: Seq<(Seq<char>, Seq<char>, Option<Seq<char>>)>,
    host: Seq<char>,
) -> Option<(Seq<char>, Option<Seq<char>>)>
    decreases machines.len(),
{
    if machines.len() == 0 {
        None
    } else if machines[0].0 == host {
        Some((machines[0].1, machines[0].2))
    } else {
        first_machine(machines.drop_first(), host)
    }
}

/// The credentials that `machines` give for `host`: those of the first entry for
/// that host, if it has a password.
pub open spec fn credentials_in(
    machines: Seq<(Seq<char>, Seq<char>, Option<Seq<char>>)>,
    host: Seq<char>,
) -> Option<(Seq<char>, Seq<char>)> {
    match first_machine(machines, host) {
        Some((login, Some(password))) => Some((login, password)),
        _ => None,
    }
}

/// The credentials that the netrc text `text` gives for `host`. Text that is not
/// ASCII, or that the parser refuses, gives none.
pub open spec fn credentials_for(text: Seq<u8>, host: Seq<char>) -> Option<
    (Seq<char>, Seq<char>),
> {
    if !is_ascii_text(text) {
        None
    } else {
        match netrc_machines(text) {
            Some(machines) => credentials_in(machines, host),
            None => None,
        }
    }
}

impl Credentials {
    /// The user name and the password.
    pub open spec fn view(self) -> (Seq<char>, Seq<char>) {
        match self {
            Credentials::Basic(login, password) => (login@, password@),
        }
    }
}

/// Whether `r` says what `found` says: the credentials, or that there are none.
pub open spec fn is_lookup(
    found: Option<(Seq<char>, Seq<char>)>,
    r: Result<Credentials, ReportError>,
) -> bool {
    match found {
        Some(pair) => r is Ok && r->Ok_0.view() == pair,
        None => r == Err::<Credentials, ReportError>(ReportError::CredentialNotFound),
    }
}

/// Looks up the credentials for `host` among `machines`. The first entry for the
/// host counts; there are no credentials where it has no password.
pub fn find_credentials(machines: &Vec<Machine>, host: &str) -> (r: Result<
    Credentials,
    ReportError,
>)
    ensures
        is_lookup(credentials_in(machine_views(machines@), host@), r),
{
    let ghost all = machine_views(machines@);
    let mut i: usize = 0;
    assert(all.subrange(0, all.len() as int) == all);
    while i < machines.len()
        invariant
            i <= machines@.len(),
            all == machine_views(machines@),
            first_machine(all, host@) == first_machine(
                all.subrange(i as int, all.len() as int),
                host@,
            ),
        decreases machines@.len() - i,
    {
        let ghost rest = all.subrange(i as int, all.len() as int);
        assert(rest[0] == machine_view(machines@[i as int]));
        assert(rest.drop_first() == all.subrange(i + 1, all.len() as int));
        let m = &machines[i];
        if same_text(m.host.as_str(), host) {
            return match &m.password {
                Some(password) => Ok(Credentials::Basic(m.login.clone(), password.clone())),
                None => Err(ReportError::CredentialNotFound),
            };
        }
        i += 1;
    }
    Err(ReportError::CredentialNotFound)
}

/// Whether every byte of `text` is an ASCII character.
pub fn ascii_only(text: &[u8]) -> (r: bool)
    ensures
        r == is_ascii_text(text@),
{
    let mut i: usize = 0;
    while i < text.len()
        invariant
            i <= text@.len(),
            forall|j: int| 0 <= j < i ==> #[trigger] text@[j] < 128,
        decreases text@.len() - i,
    {
        if text[i] >= 128 {
            return false;
        }
        i += 1;
    }
    true
}

/// Looks up the credentials for `host` in the text of a netrc file.
pub fn netrc_lookup(text: &[u8], host: &str) -> (r: Result<Credentials, ReportError>)
    ensures
        is_lookup(credentials_for(text@, host@), r),
{
    if !ascii_only(text) {
        return Err(ReportError::CredentialNotFound);
    }
    match read_netrc(text) {
        Ok(machines) => find_credentials(&machines, host),
        Err(_) => Err(ReportError::CredentialNotFound),
    }
}

} // verus!
