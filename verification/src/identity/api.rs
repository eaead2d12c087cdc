//! What is asked of the cluster, and what its answers come to.
use vstd::prelude::*;
use vstd::utf8::{decode_utf8, valid_utf8};
use crate::drill::step::Step;
use crate::identity::bootstrap::{BootstrapArgs, InitializeResult};
use crate::identity::certificates::{bundled, certificates_from_pem, contents};
use crate::identity::distribute::DistributeArgs;
use crate::identity::names::{
    dotted, is_data_key, is_dns_label, is_dns_name, is_lower_alnum, length_limit, undotted_is_one_part, validate_data_key, validate_name,
};
use crate::identity::records::{
    decode_secret_key, entry_in, private_is, private_record, public_is, public_record, secret_text,
    KubeObject, PrivateRecord, PublicRecord,
};
use crate::text::{contains, decimal, occurs, occurs_at, starts_with, text_in, trim, trimmed, u64_text};

verus! {

// ---- what may be asked -------------------------------------------------------------------

/// The refusal of a name that no object can have.
pub open spec fn name_refusal(label: Seq<char>) -> Seq<char> {
    label + " name is not a Kubernetes DNS name"@
}

/// The refusal of a key that no entry can have.
pub open spec fn key_refusal(label: Seq<char>) -> Seq<char> {
    label + " is not a valid Secret data key"@
}

/// What is wrong with the names of a bootstrap, where anything is.
pub open spec fn bootstrap_fault(a: BootstrapArgs) -> Option<Seq<char>> {
    if !is_dns_name("namespace"@, a.namespace@) {
        Some(name_refusal("namespace"@))
    } else if !is_dns_name("Secret"@, a.secret_name@) {
        Some(name_refusal("Secret"@))
    } else if !is_dns_name("ConfigMap"@, a.public_configmap_name@) {
        Some(name_refusal("ConfigMap"@))
    } else if !is_data_key(a.secret_key@) {
        Some(key_refusal("Secret data key"@))
    } else {
        match a.external_secret {
            None => None,
            Some((name, key)) => if !is_dns_name("external Secret"@, name@) {
                Some(name_refusal("external Secret"@))
            } else if !is_data_key(key@) {
                Some(key_refusal("external Secret data key"@))
            } else {
                None
            },
        }
    }
}

/// Requires that every name of a bootstrap is one that an object can have.
pub fn check_bootstrap_names(args: &BootstrapArgs) -> (r: Result<(), String>)
    ensures
        match bootstrap_fault(*args) {
            None => r is Ok,
            Some(why) => r matches Err(e) && e@ == why,
        },
{
    validate_name("namespace", args.namespace.as_str())?;
    validate_name("Secret", args.secret_name.as_str())?;
    validate_name("ConfigMap", args.public_configmap_name.as_str())?;
    validate_data_key("Secret data key", args.secret_key.as_str())?;
    if let Some((name, key)) = &args.external_secret {
        validate_name("external Secret", name.as_str())?;
        validate_data_key("external Secret data key", key.as_str())?;
    }
    Ok(())
}

/// What is wrong with the names of a distribution, where anything is.
pub open spec fn distribution_fault(a: DistributeArgs) -> Option<Seq<char>> {
    if !is_dns_name("source namespace"@, a.source_namespace@) {
        Some(name_refusal("source namespace"@))
    } else if !is_dns_name("target namespace"@, a.target_namespace@) {
        Some(name_refusal("target namespace"@))
    } else if !is_dns_name("Secret"@, a.secret_name@) {
        Some(name_refusal("Secret"@))
    } else if !is_data_key(a.secret_key@) {
        Some(key_refusal("Secret data key"@))
    } else {
        None
    }
}

/// Requires that every name of a distribution is one that an object can have,
/// and gives what the target is reached by.
pub fn distribution_target(args: &DistributeArgs) -> (r: Result<BootstrapArgs, String>)
    ensures
        match distribution_fault(*args) {
            None => r matches Ok(b) && b.namespace@ == args.target_namespace@ && b.secret_name@
                == args.secret_name@ && b.secret_key@ == args.secret_key@
                && b.public_configmap_name@ == "unused-by-distribution"@ && b.external_secret
                is None,
            Some(why) => r matches Err(e) && e@ == why,
        },
{
    validate_name("source namespace", args.source_namespace.as_str())?;
    validate_name("target namespace", args.target_namespace.as_str())?;
    validate_name("Secret", args.secret_name.as_str())?;
    validate_data_key("Secret data key", args.secret_key.as_str())?;
    Ok(
        BootstrapArgs {
            namespace: args.target_namespace.clone(),
            secret_name: args.secret_name.clone(),
            secret_key: args.secret_key.clone(),
            public_configmap_name: "unused-by-distribution".to_owned(),
            external_secret: None,
        },
    )
}

// ---- reaching the cluster ----------------------------------------------------------------

/// Where the cluster puts what a pod reaches it with.
pub const SERVICE_ACCOUNT_DIR: &'static str = "/var/run/secrets/kubernetes.io/serviceaccount";

/// Where the token stands.
pub open spec fn token_path() -> Seq<char> {
    SERVICE_ACCOUNT_DIR@ + "/token"@
}

/// Where the certificates stand.
pub open spec fn ca_path() -> Seq<char> {
    SERVICE_ACCOUNT_DIR@ + "/ca.crt"@
}

/// A host as it stands in an address: an address of its own with colons in it
/// stands between brackets.
pub open spec fn bracketed(host: Seq<char>) -> Seq<char> {
    if occurs(host, ":"@) && !"["@.is_prefix_of(host) {
        "["@ + host + "]"@
    } else {
        host
    }
}

/// The address that every object's address starts with.
pub open spec fn base_of(host: Seq<char>, port: Option<Seq<char>>) -> Seq<char> {
    "https://"@ + bracketed(host) + ":"@ + match port {
        Some(p) => p,
        None => "443"@,
    }
}

/// The address that every object's address starts with.
pub fn base_url(host: &str, port: Option<&str>) -> (r: String)
    ensures
        r@ == base_of(host@, text_in(port)),
{
    let mut s = "https://".to_owned();
    if contains(host, ":") && !starts_with(host, "[") {
        let mut inner = "[".to_owned();
        inner.append(host);
        inner.append("]");
        s.append(inner.as_str());
    } else {
        s.append(host);
    }
    s.append(":");
    s.append(
        match port {
            Some(p) => p,
            None => "443",
        },
    );
    s
}

/// What the cluster is reached with.
#[derive(Debug)]
pub struct Connection {
    pub base_url: String,
    pub token: String,
    /// The certificates to trust.
    pub certificates: Vec<Vec<u8>>,
}

/// What was answered so far.
#[derive(Debug)]
pub struct ConnectReads {
    pub token: Option<Result<String, String>>,
    pub ca: Option<Result<Vec<u8>, String>>,
    /// What trusting the certificates came to.
    pub trusted: Option<Result<(), String>>,
    /// What setting up the transport came to.
    pub configured: Option<Result<(), String>>,
}

/// What is needed next.
#[derive(Debug)]
pub enum ConnectQuestion {
    /// Read the token at that path.
    ReadToken(String),
    /// Read the certificates at that path.
    ReadCa(String),
    /// Trust those certificates, in that order.
    Trust(Vec<Vec<u8>>),
    /// Set up the transport.
    Configure,
}

/// What reaching the cluster came to so far.
pub type ConnectStep = Step<ConnectQuestion, Result<Connection, String>>;

/// The cluster cannot be reached, for that reason.
pub open spec fn out_of_reach(r: ConnectStep, why: Seq<char>) -> bool {
    r matches Step::Done(Err(e)) && e@ == why
}

/// The next step once the certificates were read.
pub open spec fn trusting_is(
    r: ConnectStep,
    base: Seq<char>,
    token: Seq<char>,
    ca: Seq<u8>,
    reads: ConnectReads,
) -> bool {
    let unparsed = "could not parse Kubernetes CA at "@ + ca_path() + ": "@;
    if !valid_utf8(ca) {
        out_of_reach(r, unparsed + "CA bundle is not UTF-8 PEM text"@)
    } else {
        match bundled(decode_utf8(ca), 0) {
            Err(why) => out_of_reach(r, unparsed + why),
            Ok(all) => if all.len() == 0 {
                out_of_reach(r, "Kubernetes CA at "@ + ca_path() + " contains no certificate"@)
            } else {
                match reads.trusted {
                    None => r matches Step::Ask(ConnectQuestion::Trust(v)) && contents(v@) == all,
                    Some(Err(why)) => out_of_reach(
                        r,
                        "could not trust Kubernetes CA at "@ + ca_path() + ": "@ + why@,
                    ),
                    Some(Ok(_)) => match reads.configured {
                        None => r matches Step::Ask(ConnectQuestion::Configure),
                        Some(Err(why)) => out_of_reach(
                            r,
                            "could not configure Kubernetes TLS: "@ + why@,
                        ),
                        Some(Ok(_)) => r matches Step::Done(Ok(c)) && c.base_url@ == base
                            && c.token@ == trimmed(token) && contents(c.certificates@) == all,
                    },
                }
            },
        }
    }
}

/// The next step of reaching the cluster.
pub open spec fn connect_is(
    r: ConnectStep,
    args: BootstrapArgs,
    host: Option<Seq<char>>,
    port: Option<Seq<char>>,
    reads: ConnectReads,
) -> bool {
    match (bootstrap_fault(args), host) {
        (Some(why), _) => out_of_reach(r, why),
        (None, None) => out_of_reach(
            r,
            "KUBERNETES_SERVICE_HOST is not set; run this command in the chart bootstrap Job"@,
        ),
        (None, Some(h)) => match reads.token {
            None => r matches Step::Ask(ConnectQuestion::ReadToken(p)) && p@ == token_path(),
            Some(Err(why)) => out_of_reach(
                r,
                "could not read ServiceAccount token at "@ + token_path() + ": "@ + why@,
            ),
            Some(Ok(token)) => match reads.ca {
                None => r matches Step::Ask(ConnectQuestion::ReadCa(p)) && p@ == ca_path(),
                Some(Err(why)) => out_of_reach(
                    r,
                    "could not read Kubernetes CA at "@ + ca_path() + ": "@ + why@,
                ),
                Some(Ok(ca)) => trusting_is(r, base_of(h, port), token@, ca@, reads),
            },
        },
    }
}

/// Where the token stands.
fn token_file() -> (r: String)
    ensures
        r@ == token_path(),
{
    let mut s = SERVICE_ACCOUNT_DIR.to_owned();
    s.append("/token");
    s
}

/// Where the certificates stand.
fn ca_file() -> (r: String)
    ensures
        r@ == ca_path(),
{
    let mut s = SERVICE_ACCOUNT_DIR.to_owned();
    s.append("/ca.crt");
    s
}

/// A failure with what it is about and why.
fn failure(opening: &str, about: &str, why: &str) -> (r: String)
    ensures
        r@ == opening@ + about@ + ": "@ + why@,
{
    let mut s = opening.to_owned();
    s.append(about);
    s.append(": ");
    s.append(why);
    s
}

/// The next step once the certificates were read.
fn trust(base: String, token: &str, ca: &Vec<u8>, reads: &ConnectReads) -> (r: ConnectStep)
    ensures
        trusting_is(r, base@, token@, ca@, *reads),
{
    let path = ca_file();
    let certificates = match certificates_from_pem(ca) {
        Err(why) => {
            return Step::Done(
                Err(failure("could not parse Kubernetes CA at ", path.as_str(), why.as_str())),
            );
        },
        Ok(v) => v,
    };
    if certificates.len() == 0 {
        let mut why = "Kubernetes CA at ".to_owned();
        why.append(path.as_str());
        why.append(" contains no certificate");
        return Step::Done(Err(why));
    }
    match &reads.trusted {
        None => Step::Ask(ConnectQuestion::Trust(certificates)),
        Some(Err(why)) => Step::Done(
            Err(failure("could not trust Kubernetes CA at ", path.as_str(), why.as_str())),
        ),
        Some(Ok(_)) => match &reads.configured {
            None => Step::Ask(ConnectQuestion::Configure),
            Some(Err(why)) => {
                let mut m = "could not configure Kubernetes TLS: ".to_owned();
                m.append(why.as_str());
                Step::Done(Err(m))
            },
            Some(Ok(_)) => Step::Done(
                Ok(Connection { base_url: base, token: trim(token), certificates }),
            ),
        },
    }
}

/// The next step of reaching the cluster, with the host and the port that the
/// environment gives.
pub fn connect(
    args: &BootstrapArgs,
    host: Option<&str>,
    port: Option<&str>,
    reads: &ConnectReads,
) -> (r: ConnectStep)
    ensures
        connect_is(r, *args, text_in(host), text_in(port), *reads),
{
    if let Err(e) = check_bootstrap_names(args) {
        return Step::Done(Err(e));
    }
    let h = match host {
        None => {
            return Step::Done(
                Err(
                    "KUBERNETES_SERVICE_HOST is not set; run this command in the chart bootstrap Job".to_owned(),
                ),
            );
        },
        Some(h) => h,
    };
    let base = base_url(h, port);
    let token = match &reads.token {
        None => {
            return Step::Ask(ConnectQuestion::ReadToken(token_file()));
        },
        Some(Err(why)) => {
            return Step::Done(
                Err(
                    failure(
                        "could not read ServiceAccount token at ",
                        token_file().as_str(),
                        why.as_str(),
                    ),
                ),
            );
        },
        Some(Ok(token)) => token,
    };
    match &reads.ca {
        None => Step::Ask(ConnectQuestion::ReadCa(ca_file())),
        Some(Err(why)) => Step::Done(
            Err(failure("could not read Kubernetes CA at ", ca_file().as_str(), why.as_str())),
        ),
        Some(Ok(ca)) => trust(base, token.as_str(), ca, reads),
    }
}

/// The address of an object.
pub fn object_url(base_url: &str, namespace: &str, kind: &str, name: &str) -> (r: String)
    ensures
        r@ == base_url@ + "/api/v1/namespaces/"@ + namespace@ + "/"@ + kind@ + "/"@ + name@,
{
    let mut s = base_url.to_owned();
    s.append("/api/v1/namespaces/");
    s.append(namespace);
    s.append("/");
    s.append(kind);
    s.append("/");
    s.append(name);
    s
}

// ---- what the answers come to ------------------------------------------------------------

/// Why a request came to nothing.
#[derive(Debug)]
pub enum ApiFault {
    /// The cluster answered with that status.
    Status(u16),
    /// The request did not get through, and why.
    Transport(String),
}

/// What is said of a request that came to nothing.
pub open spec fn api_error_text(
    operation: Seq<char>,
    kind: Seq<char>,
    name: Seq<char>,
    fault: ApiFault,
) -> Seq<char> {
    let about = "Kubernetes "@ + operation + " "@ + kind + " "@ + name;
    match fault {
        ApiFault::Status(code) => about + " returned HTTP "@ + decimal(code as nat),
        ApiFault::Transport(why) => about + " failed: "@ + why@,
    }
}

/// What is said of a request that came to nothing: never anything of the
/// answer's body.
pub fn api_error(operation: &str, kind: &str, name: &str, fault: &ApiFault) -> (r: String)
    ensures
        r@ == api_error_text(operation@, kind@, name@, *fault),
{
    let mut s = "Kubernetes ".to_owned();
    s.append(operation);
    s.append(" ");
    s.append(kind);
    s.append(" ");
    s.append(name);
    match fault {
        ApiFault::Status(code) => {
            s.append(" returned HTTP ");
            s.append(u64_text(*code as u64).as_str());
        },
        ApiFault::Transport(why) => {
            s.append(" failed: ");
            s.append(why.as_str());
        },
    }
    s
}

/// What a conditional write came to: two of the statuses say that the object
/// had changed.
pub fn patch_result(kind: &str, name: &str, answer: &Result<(), ApiFault>) -> (r: Result<
    InitializeResult,
    String,
>)
    ensures
        match *answer {
            Ok(_) => r == Ok::<InitializeResult, String>(InitializeResult::Written),
            Err(ApiFault::Status(status)) => if status == 409 || status == 422 {
                r == Ok::<InitializeResult, String>(InitializeResult::Contended(status))
            } else {
                r matches Err(e) && e@ == api_error_text(
                    "patch"@,
                    kind@,
                    name@,
                    ApiFault::Status(status),
                )
            },
            Err(fault) => r matches Err(e) && e@ == api_error_text("patch"@, kind@, name@, fault),
        },
        (r matches Ok(InitializeResult::Written)) <==> answer is Ok,
        (r matches Ok(InitializeResult::Contended(_))) <==> (answer matches Err(
            ApiFault::Status(status),
        ) && (status == 409 || status == 422)),
        r matches Ok(InitializeResult::Contended(told)) ==> (answer matches Err(
            ApiFault::Status(status),
        ) && told == status),
{
    match answer {
        Ok(_) => Ok(InitializeResult::Written),
        Err(fault) => {
            if let ApiFault::Status(status) = fault {
                if *status == 409 || *status == 422 {
                    return Ok(InitializeResult::Contended(*status));
                }
            }
            Err(api_error("patch", kind, name, fault))
        },
    }
}

/// What reading an object came to.
#[derive(Debug)]
pub enum Fetched {
    Fault(ApiFault),
    /// The answer is not JSON, and why.
    NotJson(String),
    Object(KubeObject),
}

/// The object that was read, or what is said where there is none.
pub open spec fn object_of(answer: Fetched, kind: Seq<char>, name: Seq<char>) -> Result<
    KubeObject,
    Seq<char>,
> {
    match answer {
        Fetched::Fault(fault) => Err(api_error_text("get"@, kind, name, fault)),
        Fetched::NotJson(why) => Err(
            "Kubernetes returned invalid JSON for "@ + kind + " "@ + name + ": "@ + why@,
        ),
        Fetched::Object(object) => Ok(object),
    }
}

/// The object that was read, or what is said where there is none.
fn object_in<'a>(answer: &'a Fetched, kind: &str, name: &str) -> (r: Result<&'a KubeObject, String>)
    ensures
        match object_of(*answer, kind@, name@) {
            Ok(object) => r matches Ok(o) && *o == object,
            Err(why) => r matches Err(e) && e@ == why,
        },
{
    match answer {
        Fetched::Fault(fault) => Err(api_error("get", kind, name, fault)),
        Fetched::NotJson(why) => {
            let mut s = "Kubernetes returned invalid JSON for ".to_owned();
            s.append(kind);
            s.append(" ");
            s.append(name);
            s.append(": ");
            s.append(why.as_str());
            Err(s)
        },
        Fetched::Object(object) => Ok(object),
    }
}

/// The private record that a read came to.
pub open spec fn managed_private_is(
    r: Result<PrivateRecord, String>,
    answer: Fetched,
    name: Seq<char>,
    key: Seq<char>,
) -> bool {
    match object_of(answer, "secrets"@, name) {
        Err(why) => r matches Err(e) && e@ == why,
        Ok(object) => private_is(r, object, name, key),
    }
}

/// The private record that a read came to.
pub fn managed_private(answer: &Fetched, name: &str, key: &str) -> (r: Result<
    PrivateRecord,
    String,
>)
    ensures
        managed_private_is(r, *answer, name@, key@),
{
    match object_in(answer, "secrets", name) {
        Err(e) => Err(e),
        Ok(object) => private_record(object, name, key),
    }
}

/// The public record that a read came to.
pub fn managed_public(answer: &Fetched, name: &str) -> (r: Result<PublicRecord, String>)
    ensures
        match object_of(*answer, "configmaps"@, name@) {
            Err(why) => r matches Err(e) && e@ == why,
            Ok(object) => public_is(r, object, name@),
        },
{
    match object_in(answer, "configmaps", name) {
        Err(e) => Err(e),
        Ok(object) => public_record(object, name),
    }
}

/// What is said where the key to adopt cannot be had.
pub open spec fn external_unavailable(name: Seq<char>, key: Seq<char>, why: Seq<char>) -> Seq<char> {
    "configured external signing Secret "@ + name + "/"@ + key + " is unavailable: "@ + why
}

/// The key to adopt that a read came to.
pub fn external_private(answer: &Fetched, name: &str, key: &str) -> (r: Result<String, String>)
    ensures
        match object_of(*answer, "secrets"@, name@) {
            Err(why) => r matches Err(e) && e@ == external_unavailable(name@, key@, why),
            Ok(object) => match entry_in(object.data, key@) {
                None => r matches Err(e) && e@ == external_unavailable(
                    name@,
                    key@,
                    "required data key is absent"@,
                ),
                Some(value) => match secret_text(value, "Secret data"@) {
                    Ok(t) => r matches Ok(s) && s@ == t,
                    Err(why) => r matches Err(e) && e@ == external_unavailable(name@, key@, why),
                },
            },
        },
{
    let why = match object_in(answer, "secrets", name) {
        Err(e) => e,
        Ok(object) => match decode_secret_key(object, key) {
            Ok(s) => {
                return Ok(s);
            },
            Err(e) => e,
        },
    };
    let mut s = "configured external signing Secret ".to_owned();
    s.append(name);
    s.append("/");
    s.append(key);
    s.append(" is unavailable: ");
    s.append(why.as_str());
    Err(s)
}

/// The source's private record that a read came to.
pub fn source_private(answer: &Fetched, namespace: &str, name: &str, key: &str) -> (r: Result<
    PrivateRecord,
    String,
>)
    ensures
        match object_of(*answer, "secrets"@, name@) {
            Err(why) => r matches Err(e) && e@ == "source signing Secret "@ + namespace@ + "/"@
                + name@ + " is unavailable: "@ + why,
            Ok(object) => private_is(r, object, name@, key@),
        },
{
    match object_in(answer, "secrets", name) {
        Ok(object) => private_record(object, name, key),
        Err(why) => {
            let mut s = "source signing Secret ".to_owned();
            s.append(namespace);
            s.append("/");
            s.append(name);
            s.append(" is unavailable: ");
            s.append(why.as_str());
            Err(s)
        },
    }
}

/// What is said where the target's private record cannot be had.
pub open spec fn target_unavailable(
    namespace: Seq<char>,
    name: Seq<char>,
    why: Seq<char>,
) -> Seq<char> {
    "target signing Secret "@ + namespace + "/"@ + name + " is unavailable: "@ + why
        + "; ensure the authorized namespace exists and Helm can create its prerequisites"@
}

/// The target's private record that a read came to.
pub fn target_private(answer: &Fetched, namespace: &str, name: &str, key: &str) -> (r: Result<
    PrivateRecord,
    String,
>)
    ensures
        exists|inner: Result<PrivateRecord, String>| #[trigger]
            managed_private_is(inner, *answer, name@, key@) && match inner {
                Ok(_) => r == inner,
                Err(why) => r matches Err(e) && e@ == target_unavailable(
                    namespace@,
                    name@,
                    why@,
                ),
            },
{
    let inner = managed_private(answer, name, key);
    let ghost said = inner;
    assert(managed_private_is(said, *answer, name@, key@));
    match inner {
        Ok(record) => Ok(record),
        Err(why) => {
            let mut s = "target signing Secret ".to_owned();
            s.append(namespace);
            s.append("/");
            s.append(name);
            s.append(" is unavailable: ");
            s.append(why.as_str());
            s.append(
                "; ensure the authorized namespace exists and Helm can create its prerequisites",
            );
            Err(s)
        },
    }
}

// ---- what follows ------------------------------------------------------------------------

/// A distribution whose names are admitted is one whose target can be asked
/// for: nothing is refused once it is under way.
pub proof fn an_admitted_distribution_can_ask(a: DistributeArgs, b: BootstrapArgs)
    requires
        distribution_fault(a) is None,
        b.namespace@ == a.target_namespace@,
        b.secret_name@ == a.secret_name@,
        b.secret_key@ == a.secret_key@,
        b.public_configmap_name@ == "unused-by-distribution"@,
        b.external_secret is None,
    ensures
        bootstrap_fault(b) is None,
{
    a_namespace_is_one_label();
    a_limit_decides("target namespace"@, "namespace"@, a.target_namespace@);
    the_unused_name_is_a_name();
}

/// Either label of a namespace has the same limit.
proof fn a_namespace_is_one_label()
    ensures
        length_limit("target namespace"@) == length_limit("namespace"@),
{
    reveal_strlit("namespace");
    reveal_strlit("target namespace");
    assert("namespace"@.subrange(0, 9) =~= "namespace"@);
    assert(occurs_at("namespace"@, "namespace"@, 0));
    assert("target namespace"@.subrange(7, 16) =~= "namespace"@);
    assert(occurs_at("target namespace"@, "namespace"@, 7));
}

/// A label counts by its limit alone.
proof fn a_limit_decides(one: Seq<char>, other: Seq<char>, s: Seq<char>)
    requires
        length_limit(one) == length_limit(other),
    ensures
        is_dns_name(one, s) == is_dns_name(other, s),
{
}

/// The name that stands where a distribution uses none is one that an object
/// can have.
proof fn the_unused_name_is_a_name()
    ensures
        is_dns_name("ConfigMap"@, "unused-by-distribution"@),
{
    let unused = "unused-by-distribution"@;
    assert(is_dns_label(unused) && unused.len() == 22 && !unused.contains('.')) by {
        reveal_strlit("unused-by-distribution");
        let s = "unused-by-distribution"@;
        assert(s.len() == 22 && s[0] == 'u' && s.last() == 'n');
        assert forall|i: int| 0 <= i < s.len() implies (is_lower_alnum(#[trigger] s[i]) || s[i]
            == '-') && s[i] != '.' by {}
    }
    undotted_is_one_part(unused);
    assert(dotted(unused)[0] == unused);
}

} // verus!
