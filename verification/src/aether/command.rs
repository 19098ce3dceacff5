//! The command that starts Aether: its arguments and its environment.

use crate::aether::lines::texts;
use crate::aether::profiles::ConnectionProfile;
use crate::text::{trim, trimmed};
use portable_pty::CommandBuilder;
use vstd::prelude::*;
use vstd::utf8::is_ascii_chars;

verus! {

/// A command that is to be run in a terminal.
#[verifier::external_type_specification]
#[verifier::external_body]
pub struct ExCommandBuilder(CommandBuilder);

/// The argument vector of a command, the program first.
pub uninterp spec fn command_argv(cmd: CommandBuilder) -> Seq<Seq<char>>;

/// The environment of a command: the value under each name that a lookup of
/// the name finds.
pub uninterp spec fn command_env(cmd: CommandBuilder) -> Map<Seq<char>, Seq<char>>;

/// The working directory of a command, if one is set.
pub uninterp spec fn command_dir(cmd: CommandBuilder) -> Option<Seq<char>>;

/// An ASCII letter in lower case; any other character as it is.
pub open spec fn lower(c: char) -> char {
    if 'A' <= c <= 'Z' {
        (c as u32 + 32) as char
    } else {
        c
    }
}

/// Whether two names are different names on every platform. Some platforms
/// disregard case in the names of environment variables.
pub open spec fn distinct_names(a: Seq<char>, b: Seq<char>) -> bool {
    is_ascii_chars(a) && is_ascii_chars(b) && a.map_values(|c: char| lower(c)) != b.map_values(
        |c: char| lower(c),
    )
}

/// Whether a lookup of `name` finds the same in both environments.
pub open spec fn same_value(
    a: Map<Seq<char>, Seq<char>>,
    b: Map<Seq<char>, Seq<char>>,
    name: Seq<char>,
) -> bool {
    a.contains_key(name) == b.contains_key(name) && (a.contains_key(name) ==> a[name] == b[name])
}

/// `CommandBuilder::new`: a command with the given program and no further
/// argument, no working directory, and the environment of this process, of
/// which nothing is claimed.
#[verifier::external_body]
fn command_new(program: &str) -> (cmd: CommandBuilder)
    ensures
        command_argv(cmd) == seq![program@],
        command_dir(cmd) is None,
{
    CommandBuilder::new(program)
}

/// `CommandBuilder::cwd`: sets the working directory, and nothing else.
#[verifier::external_body]
fn command_cwd(cmd: &mut CommandBuilder, dir: &str)
    ensures
        command_dir(*final(cmd)) == Some(dir@),
        command_argv(*final(cmd)) == command_argv(*old(cmd)),
        command_env(*final(cmd)) == command_env(*old(cmd)),
{
    cmd.cwd(dir)
}

/// `CommandBuilder::arg`: appends an argument, and changes nothing else. It
/// panics on a command without a program.
#[verifier::external_body]
fn command_arg(cmd: &mut CommandBuilder, arg: &str)
    requires
        command_argv(*old(cmd)).len() > 0,
    ensures
        command_argv(*final(cmd)) == command_argv(*old(cmd)).push(arg@),
        command_dir(*final(cmd)) == command_dir(*old(cmd)),
        command_env(*final(cmd)) == command_env(*old(cmd)),
{
    cmd.arg(arg)
}

/// `CommandBuilder::env`: sets an environment variable. Variables whose names
/// are different even without regard to case keep their values; nothing is
/// claimed of names that differ from `name` in case alone, since that depends
/// on the platform.
#[verifier::external_body]
fn command_env_set(cmd: &mut CommandBuilder, name: &str, value: &str)
    ensures
        command_env(*final(cmd)).contains_key(name@),
        command_env(*final(cmd))[name@] == value@,
        forall|n: Seq<char>| #[trigger]
            distinct_names(name@, n) ==> same_value(
                command_env(*final(cmd)),
                command_env(*old(cmd)),
                n,
            ),
        command_argv(*final(cmd)) == command_argv(*old(cmd)),
        command_dir(*final(cmd)) == command_dir(*old(cmd)),
{
    cmd.env(name, value)
}

/// `CommandBuilder::env_remove`: removes an environment variable. Nothing is
/// added, and variables whose names are different even without regard to case
/// keep their values; nothing more is claimed of names that differ from `name`
/// in case alone, since that depends on the platform.
#[verifier::external_body]
fn command_env_remove(cmd: &mut CommandBuilder, name: &str)
    ensures
        !command_env(*final(cmd)).contains_key(name@),
        command_env(*final(cmd)).dom().subset_of(command_env(*old(cmd)).dom()),
        forall|n: Seq<char>| #[trigger]
            distinct_names(name@, n) ==> same_value(
                command_env(*final(cmd)),
                command_env(*old(cmd)),
                n,
            ),
        command_argv(*final(cmd)) == command_argv(*old(cmd)),
        command_dir(*final(cmd)) == command_dir(*old(cmd)),
{
    cmd.env_remove(name)
}

/// The variable that says whether to run MASQUE over HTTP/2.
pub const MASQUE_VAR: &'static str = "AETHER_MASQUE_HTTP2";

/// The variable for the id of a service token.
pub const CLIENT_ID_VAR: &'static str = "AETHER_ACCESS_CLIENT_ID";

/// The variable for the secret of a service token.
pub const CLIENT_SECRET_VAR: &'static str = "AETHER_ACCESS_CLIENT_SECRET";

/// The variables that name a system proxy. Aether must measure the raw
/// network, so none of them is handed on.
pub open spec fn proxy_names() -> Seq<Seq<char>> {
    seq![
        "HTTP_PROXY"@,
        "http_proxy"@,
        "HTTPS_PROXY"@,
        "https_proxy"@,
        "ALL_PROXY"@,
        "all_proxy"@,
    ]
}

/// Whether Zero Trust is entered with a service token that is filled in.
pub open spec fn has_service_token(p: ConnectionProfile) -> bool {
    p.service_auth && trimmed(p.access_client_id@).len() > 0 && trimmed(
        p.access_client_secret@,
    ).len() > 0
}

/// The variables for the credentials of a profile, with their values.
pub open spec fn credentials(p: ConnectionProfile) -> Seq<(Seq<char>, Seq<char>)> {
    if has_service_token(p) {
        seq![
            (CLIENT_ID_VAR@, trimmed(p.access_client_id@)),
            (CLIENT_SECRET_VAR@, trimmed(p.access_client_secret@)),
        ]
    } else {
        match p.zero_trust_env {
            Some(v) => seq![(v.0@, v.1@)],
            None => seq![],
        }
    }
}

/// Whether `n` names none of the credentials.
pub open spec fn no_credential(p: ConnectionProfile, n: Seq<char>) -> bool {
    forall|i: int|
        0 <= i < credentials(p).len() ==> distinct_names(#[trigger] credentials(p)[i].0, n)
}

/// Whether `n` names none of the variables that are set or removed for `p`.
pub open spec fn untouched(p: ConnectionProfile, n: Seq<char>) -> bool {
    &&& no_credential(p, n)
    &&& distinct_names(MASQUE_VAR@, n)
    &&& forall|j: int| 0 <= j < proxy_names().len() ==> distinct_names(#[trigger] proxy_names()[j], n)
}

/// The environment `b` is `a` set up for the profile `p`: the credentials are
/// there, the choice of MASQUE transport is there and no proxy is, unless the
/// credentials themselves use the name; everything else is as in `a`.
pub open spec fn env_set_up(
    a: Map<Seq<char>, Seq<char>>,
    b: Map<Seq<char>, Seq<char>>,
    p: ConnectionProfile,
) -> bool {
    &&& forall|i: int|
        0 <= i < credentials(p).len() ==> b.contains_key((#[trigger] credentials(p)[i]).0)
            && b[credentials(p)[i].0] == credentials(p)[i].1
    &&& no_credential(p, MASQUE_VAR@) ==> b.contains_key(MASQUE_VAR@) && b[MASQUE_VAR@] == (
    if p.masque_http2 {
        "1"@
    } else {
        "0"@
    })
    &&& forall|j: int|
        0 <= j < proxy_names().len() && no_credential(p, #[trigger] proxy_names()[j])
            ==> !b.contains_key(proxy_names()[j])
    &&& forall|n: Seq<char>| #[trigger] untouched(p, n) ==> same_value(b, a, n)
}

proof fn lemma_names()
    ensures
        forall|j: int|
            0 <= j < proxy_names().len() ==> distinct_names(
                #[trigger] proxy_names()[j],
                MASQUE_VAR@,
            ),
        distinct_names(CLIENT_SECRET_VAR@, CLIENT_ID_VAR@),
{
    reveal_strlit("HTTP_PROXY");
    reveal_strlit("http_proxy");
    reveal_strlit("HTTPS_PROXY");
    reveal_strlit("https_proxy");
    reveal_strlit("ALL_PROXY");
    reveal_strlit("all_proxy");
    reveal_strlit("AETHER_MASQUE_HTTP2");
    reveal_strlit("AETHER_ACCESS_CLIENT_ID");
    reveal_strlit("AETHER_ACCESS_CLIENT_SECRET");
    assert forall|j: int| 0 <= j < proxy_names().len() implies distinct_names(
        #[trigger] proxy_names()[j],
        MASQUE_VAR@,
    ) by {
        let a = proxy_names()[j].map_values(|c: char| lower(c));
        let b = MASQUE_VAR@.map_values(|c: char| lower(c));
        assert(a.len() != b.len());
    }
    let a = CLIENT_SECRET_VAR@.map_values(|c: char| lower(c));
    let b = CLIENT_ID_VAR@.map_values(|c: char| lower(c));
    assert(a.len() != b.len());
}

/// Sets a command up for a profile: its arguments come after those that are
/// there, and its environment is prepared. Credentials go into the environment
/// and never into the arguments.
pub fn configure_command(cmd: &mut CommandBuilder, profile: &ConnectionProfile)
    requires
        command_argv(*old(cmd)).len() > 0,
    ensures
        command_argv(*final(cmd)) == command_argv(*old(cmd)) + texts(profile.args@),
        command_dir(*final(cmd)) == command_dir(*old(cmd)),
        env_set_up(command_env(*old(cmd)), command_env(*final(cmd)), *profile),
{
    let mut i: usize = 0;
    assert(command_argv(*cmd) =~= command_argv(*old(cmd)) + texts(profile.args@).take(0));
    while i < profile.args.len()
        invariant
            i <= profile.args@.len(),
            command_argv(*cmd) == command_argv(*old(cmd)) + texts(profile.args@).take(i as int),
            command_argv(*cmd).len() > 0,
            command_dir(*cmd) == command_dir(*old(cmd)),
            command_env(*cmd) == command_env(*old(cmd)),
        decreases profile.args@.len() - i,
    {
        command_arg(cmd, profile.args[i].as_str());
        assert(command_argv(*cmd) =~= command_argv(*old(cmd)) + texts(profile.args@).take(i + 1));
        i = i + 1;
    }
    assert(texts(profile.args@).take(i as int) =~= texts(profile.args@));
    let ghost e0 = command_env(*cmd);
    if profile.masque_http2 {
        command_env_set(cmd, MASQUE_VAR, "1");
    } else {
        command_env_set(cmd, MASQUE_VAR, "0");
    }
    command_env_remove(cmd, "HTTP_PROXY");
    command_env_remove(cmd, "http_proxy");
    command_env_remove(cmd, "HTTPS_PROXY");
    command_env_remove(cmd, "https_proxy");
    command_env_remove(cmd, "ALL_PROXY");
    command_env_remove(cmd, "all_proxy");
    proof {
        lemma_names();
        assert(proxy_names()[0] == "HTTP_PROXY"@);
        assert(proxy_names()[1] == "http_proxy"@);
        assert(proxy_names()[2] == "HTTPS_PROXY"@);
        assert(proxy_names()[3] == "https_proxy"@);
        assert(proxy_names()[4] == "ALL_PROXY"@);
        assert(proxy_names()[5] == "all_proxy"@);
    }
    let ghost e1 = command_env(*cmd);
    assert(forall|j: int|
        0 <= j < proxy_names().len() ==> !e1.contains_key(#[trigger] proxy_names()[j]));
    assert(forall|n: Seq<char>| #[trigger] untouched(*profile, n) ==> same_value(e1, e0, n));
    let id = trim(profile.access_client_id.as_str());
    let secret = trim(profile.access_client_secret.as_str());
    if profile.service_auth && !id.as_str().is_empty() && !secret.as_str().is_empty() {
        command_env_set(cmd, CLIENT_ID_VAR, id.as_str());
        command_env_set(cmd, CLIENT_SECRET_VAR, secret.as_str());
        assert(credentials(*profile)[0].0 == CLIENT_ID_VAR@);
        assert(credentials(*profile)[1].0 == CLIENT_SECRET_VAR@);
    } else if let Some(v) = &profile.zero_trust_env {
        command_env_set(cmd, v.0.as_str(), v.1.as_str());
        assert(credentials(*profile)[0].0 == v.0@);
    }
    let ghost e2 = command_env(*cmd);
    assert(forall|n: Seq<char>| #[trigger] no_credential(*profile, n) ==> same_value(e2, e1, n));
    assert forall|n: Seq<char>| #[trigger] untouched(*profile, n) implies same_value(e2, e0, n) by {
        assert(no_credential(*profile, n));
    }
}

/// The command that runs the program `binary` in the directory `cwd` with a
/// profile. Its environment is that of this process, set up for the profile;
/// what this process has in its environment is not stated.
pub fn prepare_command(binary: &str, cwd: &str, profile: &ConnectionProfile) -> (cmd:
    CommandBuilder)
    ensures
        command_argv(cmd) == seq![binary@] + texts(profile.args@),
        command_dir(cmd) == Some(cwd@),
        exists|base: Map<Seq<char>, Seq<char>>| #[trigger]
            env_set_up(base, command_env(cmd), *profile),
{
    let mut cmd = command_new(binary);
    command_cwd(&mut cmd, cwd);
    let ghost base = command_env(cmd);
    configure_command(&mut cmd, profile);
    assert(env_set_up(base, command_env(cmd), *profile));
    cmd
}

/// The environment for a profile with a full service token: the id and the
/// secret are there, without the white space around them, the choice of MASQUE
/// transport is there, and no proxy is.
pub proof fn law_a_service_token_is_handed_on(
    a: Map<Seq<char>, Seq<char>>,
    b: Map<Seq<char>, Seq<char>>,
    p: ConnectionProfile,
)
    requires
        env_set_up(a, b, p),
        p.service_auth,
        trimmed(p.access_client_id@).len() > 0,
        trimmed(p.access_client_secret@).len() > 0,
    ensures
        b.contains_key("AETHER_ACCESS_CLIENT_ID"@),
        b["AETHER_ACCESS_CLIENT_ID"@] == trimmed(p.access_client_id@),
        b.contains_key("AETHER_ACCESS_CLIENT_SECRET"@),
        b["AETHER_ACCESS_CLIENT_SECRET"@] == trimmed(p.access_client_secret@),
        b.contains_key("AETHER_MASQUE_HTTP2"@),
        b["AETHER_MASQUE_HTTP2"@] == (if p.masque_http2 {
            "1"@
        } else {
            "0"@
        }),
        !b.contains_key("HTTP_PROXY"@),
        !b.contains_key("http_proxy"@),
        !b.contains_key("HTTPS_PROXY"@),
        !b.contains_key("https_proxy"@),
        !b.contains_key("ALL_PROXY"@),
        !b.contains_key("all_proxy"@),
{
    assert(credentials(p)[0].0 == CLIENT_ID_VAR@);
    assert(credentials(p)[1].0 == CLIENT_SECRET_VAR@);
    lemma_token_names();
    lemma_proxies_are_gone(a, b, p);
}

proof fn lemma_token_names()
    ensures
        forall|j: int|
            0 <= j < proxy_names().len() ==> distinct_names(
                CLIENT_ID_VAR@,
                #[trigger] proxy_names()[j],
            ) && distinct_names(CLIENT_SECRET_VAR@, proxy_names()[j]),
        distinct_names(CLIENT_ID_VAR@, MASQUE_VAR@),
        distinct_names(CLIENT_SECRET_VAR@, MASQUE_VAR@),
{
    reveal_strlit("HTTP_PROXY");
    reveal_strlit("http_proxy");
    reveal_strlit("HTTPS_PROXY");
    reveal_strlit("https_proxy");
    reveal_strlit("ALL_PROXY");
    reveal_strlit("all_proxy");
    reveal_strlit("AETHER_MASQUE_HTTP2");
    reveal_strlit("AETHER_ACCESS_CLIENT_ID");
    reveal_strlit("AETHER_ACCESS_CLIENT_SECRET");
    let id = CLIENT_ID_VAR@.map_values(|c: char| lower(c));
    let secret = CLIENT_SECRET_VAR@.map_values(|c: char| lower(c));
    let masque = MASQUE_VAR@.map_values(|c: char| lower(c));
    assert(id.len() != masque.len() && secret.len() != masque.len());
    assert forall|j: int| 0 <= j < proxy_names().len() implies distinct_names(
        CLIENT_ID_VAR@,
        #[trigger] proxy_names()[j],
    ) && distinct_names(CLIENT_SECRET_VAR@, proxy_names()[j]) by {
        let n = proxy_names()[j].map_values(|c: char| lower(c));
        assert(n.len() != id.len() && n.len() != secret.len());
    }
}

proof fn lemma_proxies_are_gone(
    a: Map<Seq<char>, Seq<char>>,
    b: Map<Seq<char>, Seq<char>>,
    p: ConnectionProfile,
)
    requires
        env_set_up(a, b, p),
        forall|j: int|
            0 <= j < proxy_names().len() ==> no_credential(p, #[trigger] proxy_names()[j]),
    ensures
        !b.contains_key("HTTP_PROXY"@),
        !b.contains_key("http_proxy"@),
        !b.contains_key("HTTPS_PROXY"@),
        !b.contains_key("https_proxy"@),
        !b.contains_key("ALL_PROXY"@),
        !b.contains_key("all_proxy"@),
{
    assert(proxy_names()[0] == "HTTP_PROXY"@);
    assert(proxy_names()[1] == "http_proxy"@);
    assert(proxy_names()[2] == "HTTPS_PROXY"@);
    assert(proxy_names()[3] == "https_proxy"@);
    assert(proxy_names()[4] == "ALL_PROXY"@);
    assert(proxy_names()[5] == "all_proxy"@);
}

/// The environment for a profile without a full service token: the variable of
/// the other way into Zero Trust is there with its value, if the profile has
/// one. Unless that variable has one of their names, the choice of MASQUE
/// transport is there and no proxy is.
pub proof fn law_another_way_in_is_handed_on(
    a: Map<Seq<char>, Seq<char>>,
    b: Map<Seq<char>, Seq<char>>,
    p: ConnectionProfile,
)
    requires
        env_set_up(a, b, p),
        !p.service_auth || trimmed(p.access_client_id@).len() == 0 || trimmed(
            p.access_client_secret@,
        ).len() == 0,
    ensures
        p.zero_trust_env matches Some(v) ==> b.contains_key(v.0@) && b[v.0@] == v.1@,
        (p.zero_trust_env matches Some(v) ==> distinct_names(v.0@, "AETHER_MASQUE_HTTP2"@))
            ==> b.contains_key("AETHER_MASQUE_HTTP2"@) && b["AETHER_MASQUE_HTTP2"@] == (
        if p.masque_http2 {
            "1"@
        } else {
            "0"@
        }),
        (p.zero_trust_env matches Some(v) ==> forall|j: int|
            0 <= j < proxy_names().len() ==> distinct_names(v.0@, #[trigger] proxy_names()[j]))
            ==> !b.contains_key("HTTP_PROXY"@) && !b.contains_key("http_proxy"@) && !b.contains_key(
            "HTTPS_PROXY"@,
        ) && !b.contains_key("https_proxy"@) && !b.contains_key("ALL_PROXY"@) && !b.contains_key(
            "all_proxy"@,
        ),
{
    if let Some(v) = p.zero_trust_env {
        assert(credentials(p)[0].0 == v.0@);
    }
    if p.zero_trust_env matches Some(v) ==> forall|j: int|
        0 <= j < proxy_names().len() ==> distinct_names(v.0@, #[trigger] proxy_names()[j]) {
        lemma_proxies_are_gone(a, b, p);
    }
}

/// Every other variable is handed on as it is.
pub proof fn law_other_variables_are_kept(
    a: Map<Seq<char>, Seq<char>>,
    b: Map<Seq<char>, Seq<char>>,
    p: ConnectionProfile,
    n: Seq<char>,
)
    requires
        env_set_up(a, b, p),
        distinct_names("AETHER_MASQUE_HTTP2"@, n),
        distinct_names("HTTP_PROXY"@, n),
        distinct_names("http_proxy"@, n),
        distinct_names("HTTPS_PROXY"@, n),
        distinct_names("https_proxy"@, n),
        distinct_names("ALL_PROXY"@, n),
        distinct_names("all_proxy"@, n),
        distinct_names("AETHER_ACCESS_CLIENT_ID"@, n),
        distinct_names("AETHER_ACCESS_CLIENT_SECRET"@, n),
        p.zero_trust_env matches Some(v) ==> distinct_names(v.0@, n),
    ensures
        a.contains_key(n) <==> b.contains_key(n),
        a.contains_key(n) ==> b[n] == a[n],
{
    assert(untouched(p, n));
}

} // verus!
