//! How to reach a remote machine.
use crate::text::{clone_strings, opt_view, same_opt, same_strings, strings_view};
use vstd::prelude::*;

verus! {

/// A port of one machine that is forwarded to a port of the other.
#[derive(Debug)]
pub struct SshPortForward {
    pub local_host: Option<String>,
    pub local_port: u16,
    pub remote_host: Option<String>,
    pub remote_port: u16,
}

/// A forwarded port, by its characters.
pub struct SshPortForwardView {
    pub local_host: Option<Seq<char>>,
    pub local_port: u16,
    pub remote_host: Option<Seq<char>>,
    pub remote_port: u16,
}

impl View for SshPortForward {
    type V = SshPortForwardView;

    open spec fn view(&self) -> SshPortForwardView {
        SshPortForwardView {
            local_host: opt_view(self.local_host),
            local_port: self.local_port,
            remote_host: opt_view(self.remote_host),
            remote_port: self.remote_port,
        }
    }
}

impl Clone for SshPortForward {
    fn clone(&self) -> (r: Self)
        ensures
            r == *self,
    {
        SshPortForward {
            local_host: self.local_host.clone(),
            local_port: self.local_port,
            remote_host: self.remote_host.clone(),
            remote_port: self.remote_port,
        }
    }
}

impl PartialEq for SshPortForward {
    fn eq(&self, other: &Self) -> (r: bool) {
        same_opt(&self.local_host, &other.local_host) && self.local_port == other.local_port
            && same_opt(&self.remote_host, &other.remote_host) && self.remote_port
            == other.remote_port
    }
}

impl vstd::std_specs::cmp::PartialEqSpecImpl for SshPortForward {
    open spec fn obeys_eq_spec() -> bool {
        true
    }

    open spec fn eq_spec(&self, other: &Self) -> bool {
        self@ == other@
    }
}

/// The views of a list of forwarded ports.
pub open spec fn forwards_view(forwards: Seq<SshPortForward>) -> Seq<SshPortForwardView> {
    forwards.map_values(|forward: SshPortForward| forward@)
}

fn same_forwards(a: &Vec<SshPortForward>, b: &Vec<SshPortForward>) -> (r: bool)
    ensures
        r == (forwards_view(a@) == forwards_view(b@)),
{
    if a.len() != b.len() {
        assert(forwards_view(a@).len() != forwards_view(b@).len());
        return false;
    }
    let mut i: usize = 0;
    while i < a.len()
        invariant
            i <= a.len(),
            a.len() == b.len(),
            forall|j: int| 0 <= j < i ==> a@[j]@ == b@[j]@,
        decreases a.len() - i,
    {
        if a[i] != b[i] {
            assert(forwards_view(a@)[i as int] != forwards_view(b@)[i as int]);
            return false;
        }
        i = i + 1;
    }
    assert(forwards_view(a@) =~= forwards_view(b@));
    true
}

fn clone_forwards(a: &Vec<SshPortForward>) -> (r: Vec<SshPortForward>)
    ensures
        r@ == a@,
{
    let mut r: Vec<SshPortForward> = Vec::new();
    let mut i: usize = 0;
    while i < a.len()
        invariant
            i <= a.len(),
            r@ == a@.take(i as int),
        decreases a.len() - i,
    {
        r.push(a[i].clone());
        assert(a@.take(i + 1) =~= a@.take(i as int).push(a@[i as int]));
        i = i + 1;
    }
    assert(a@.take(a@.len() as int) =~= a@);
    r
}

/// How to connect over SSH.
#[derive(Debug)]
pub struct SshConnectionOptions {
    pub host: String,
    pub username: Option<String>,
    pub port: Option<u16>,
    pub password: Option<String>,
    pub args: Option<Vec<String>>,
    pub port_forwards: Option<Vec<SshPortForward>>,
    pub nickname: Option<String>,
    pub upload_binary_over_ssh: bool,
    pub connection_timeout: Option<u16>,
}

/// How to connect over SSH, by its characters.
pub struct SshOptionsView {
    pub host: Seq<char>,
    pub username: Option<Seq<char>>,
    pub port: Option<u16>,
    pub password: Option<Seq<char>>,
    pub args: Option<Seq<Seq<char>>>,
    pub port_forwards: Option<Seq<SshPortForwardView>>,
    pub nickname: Option<Seq<char>>,
    pub upload_binary_over_ssh: bool,
    pub connection_timeout: Option<u16>,
}

impl View for SshConnectionOptions {
    type V = SshOptionsView;

    open spec fn view(&self) -> SshOptionsView {
        SshOptionsView {
            host: self.host@,
            username: opt_view(self.username),
            port: self.port,
            password: opt_view(self.password),
            args: match self.args {
                Some(args) => Some(strings_view(args@)),
                None => None,
            },
            port_forwards: match self.port_forwards {
                Some(forwards) => Some(forwards_view(forwards@)),
                None => None,
            },
            nickname: opt_view(self.nickname),
            upload_binary_over_ssh: self.upload_binary_over_ssh,
            connection_timeout: self.connection_timeout,
        }
    }
}

impl Clone for SshConnectionOptions {
    fn clone(&self) -> (r: Self)
        ensures
            r@ == self@,
    {
        SshConnectionOptions {
            host: self.host.clone(),
            username: self.username.clone(),
            port: self.port,
            password: self.password.clone(),
            args: match &self.args {
                Some(args) => Some(clone_strings(args)),
                None => None,
            },
            port_forwards: match &self.port_forwards {
                Some(forwards) => Some(clone_forwards(forwards)),
                None => None,
            },
            nickname: self.nickname.clone(),
            upload_binary_over_ssh: self.upload_binary_over_ssh,
            connection_timeout: self.connection_timeout,
        }
    }
}

impl PartialEq for SshConnectionOptions {
    fn eq(&self, other: &Self) -> (r: bool) {
        let same_args = match (&self.args, &other.args) {
            (Some(a), Some(b)) => same_strings(a, b),
            (None, None) => true,
            _ => false,
        };
        let same_port_forwards = match (&self.port_forwards, &other.port_forwards) {
            (Some(a), Some(b)) => same_forwards(a, b),
            (None, None) => true,
            _ => false,
        };
        self.host == other.host && same_opt(&self.username, &other.username) && self.port
            == other.port && same_opt(&self.password, &other.password) && same_args
            && same_port_forwards && same_opt(&self.nickname, &other.nickname)
            && self.upload_binary_over_ssh == other.upload_binary_over_ssh
            && self.connection_timeout == other.connection_timeout
    }
}

impl vstd::std_specs::cmp::PartialEqSpecImpl for SshConnectionOptions {
    open spec fn obeys_eq_spec() -> bool {
        true
    }

    open spec fn eq_spec(&self, other: &Self) -> bool {
        self@ == other@
    }
}

/// A Linux distribution under Windows, and the user to be there.
#[derive(Debug)]
pub struct WslConnectionOptions {
    pub distro_name: String,
    pub user: Option<String>,
}

/// A Linux distribution under Windows, by its characters.
pub struct WslOptionsView {
    pub distro_name: Seq<char>,
    pub user: Option<Seq<char>>,
}

impl View for WslConnectionOptions {
    type V = WslOptionsView;

    open spec fn view(&self) -> WslOptionsView {
        WslOptionsView { distro_name: self.distro_name@, user: opt_view(self.user) }
    }
}

impl Clone for WslConnectionOptions {
    fn clone(&self) -> (r: Self)
        ensures
            r == *self,
    {
        WslConnectionOptions { distro_name: self.distro_name.clone(), user: self.user.clone() }
    }
}

impl PartialEq for WslConnectionOptions {
    fn eq(&self, other: &Self) -> (r: bool) {
        self.distro_name == other.distro_name && same_opt(&self.user, &other.user)
    }
}

impl vstd::std_specs::cmp::PartialEqSpecImpl for WslConnectionOptions {
    open spec fn obeys_eq_spec() -> bool {
        true
    }

    open spec fn eq_spec(&self, other: &Self) -> bool {
        self@ == other@
    }
}

/// How to reach a remote machine.
#[derive(Debug)]
pub enum RemoteConnectionOptions {
    Ssh(SshConnectionOptions),
    Wsl(WslConnectionOptions),
}

/// How to reach a remote machine, by its characters.
pub enum RemoteView {
    Ssh(SshOptionsView),
    Wsl(WslOptionsView),
}

impl View for RemoteConnectionOptions {
    type V = RemoteView;

    open spec fn view(&self) -> RemoteView {
        match self {
            RemoteConnectionOptions::Ssh(options) => RemoteView::Ssh(options@),
            RemoteConnectionOptions::Wsl(options) => RemoteView::Wsl(options@),
        }
    }
}

impl Clone for RemoteConnectionOptions {
    fn clone(&self) -> (r: Self)
        ensures
            r@ == self@,
    {
        match self {
            RemoteConnectionOptions::Ssh(options) => RemoteConnectionOptions::Ssh(options.clone()),
            RemoteConnectionOptions::Wsl(options) => RemoteConnectionOptions::Wsl(options.clone()),
        }
    }
}

impl PartialEq for RemoteConnectionOptions {
    fn eq(&self, other: &Self) -> (r: bool) {
        match (self, other) {
            (RemoteConnectionOptions::Ssh(a), RemoteConnectionOptions::Ssh(b)) => *a == *b,
            (RemoteConnectionOptions::Wsl(a), RemoteConnectionOptions::Wsl(b)) => *a == *b,
            _ => false,
        }
    }
}

impl vstd::std_specs::cmp::PartialEqSpecImpl for RemoteConnectionOptions {
    open spec fn obeys_eq_spec() -> bool {
        true
    }

    open spec fn eq_spec(&self, other: &Self) -> bool {
        self@ == other@
    }
}

} // verus!
