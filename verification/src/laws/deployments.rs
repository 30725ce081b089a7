//! The configuration files of a deployment.

use vstd::prelude::*;

use crate::laws::basics::{is_space, lemma_blank};
use crate::server::config_files::{
    escape_toml_string, https_status, normalize_public_base_url, provider_status,
    provider_status_of, public_base_url_status, read_service_config, toml_field,
    ActiveServiceConfig, ConfigDeploymentDiagnostics, ConfigFault, ConfigFile, ConfigFileManager,
    FieldView, Loaded, PendingConfigResponse, PendingServiceIdentityRequest,
};
use crate::text::opt_view;

verus! {

// ---------------------------------------------------------------------------
// Texts between quotation marks
// ---------------------------------------------------------------------------

/// A quotation mark and a backslash get a backslash in front; every other character stays.
pub proof fn law_marks_are_escaped(a: &str, c: char, b: &str, r: String, s: String)
    requires
        call_ensures(escape_toml_string, (a,), r),
        call_ensures(escape_toml_string, (b,), s),
        b@ == a@.push(c),
    ensures
        a@.len() == 0 ==> r@.len() == 0,
        c == '"' || c == '\\' ==> s@ == r@.push('\\').push(c),
        c != '"' && c != '\\' ==> s@ == r@.push(c),
{
    assert(b@.drop_last() =~= a@);
}

// ---------------------------------------------------------------------------
// Secrets
// ---------------------------------------------------------------------------

/// The text is there and holds more than white space.
pub open spec fn says_something(text: Option<String>) -> bool {
    text is Some && exists|i: int| 0 <= i < text->0@.len() && !is_space(#[trigger] text->0@[i])
}

/// A provider is configured exactly where one of its keys says something.
pub proof fn law_one_key_configures(found: Vec<Option<String>>, r: String)
    requires
        call_ensures(provider_status_of, (&found,), r),
    ensures
        (exists|i: int| 0 <= i < found@.len() && says_something(#[trigger] found@[i])) ==> r@
            == "configured"@,
        (forall|i: int| 0 <= i < found@.len() ==> !says_something(#[trigger] found@[i])) ==> r@
            == "missing"@,
{
    let texts = found@.map_values(|o: Option<String>| opt_view(o));
    assert forall|i: int| 0 <= i < found@.len() implies (says_something(#[trigger] found@[i]) <==> (
    texts[i] is Some && crate::text::trimmed(texts[i]->0).len() > 0)) by {
        if found@[i] is Some {
            lemma_blank(found@[i]->0@);
        }
    }
    if exists|i: int| 0 <= i < found@.len() && says_something(#[trigger] found@[i]) {
        let i = choose|i: int| 0 <= i < found@.len() && says_something(#[trigger] found@[i]);
        assert(texts[i] is Some);
        assert(crate::server::config_files::any_said(texts));
    }
    if forall|i: int| 0 <= i < found@.len() ==> !says_something(#[trigger] found@[i]) {
        assert forall|i: int| 0 <= i < texts.len() implies !((#[trigger] texts[i]) is Some
            && crate::text::trimmed(texts[i]->0).len() > 0) by {
            assert(!says_something(found@[i]));
        }
        assert(!crate::server::config_files::any_said(texts));
    }
}

/// Without a secrets file no provider is configured.
pub proof fn law_no_secrets_configure_nothing(section: &str, keys: &[&str], r: String)
    requires
        call_ensures(provider_status, (None::<&str>, section, keys), r),
    ensures
        r@ == "missing"@,
{
    let found = crate::server::config_files::found_in(None, section@, keys@);
    assert forall|i: int| 0 <= i < found.len() implies !((#[trigger] found[i]) is Some
        && crate::text::trimmed(found[i]->0).len() > 0) by {
        assert(found[i] is None);
    }
    assert(!crate::server::config_files::any_said(found));
}

/// A text under one of the keys configures the provider, unless it is blank.
pub proof fn law_secrets_configure(
    document: &str,
    section: &str,
    keys: &[&str],
    i: int,
    text: Seq<char>,
    r: String,
)
    requires
        call_ensures(provider_status, (Some(document), section, keys), r),
        0 <= i < keys@.len(),
        toml_field(document@, Some(section@), keys@[i]@, None) == FieldView::Text(text),
        exists|k: int| 0 <= k < text.len() && !is_space(#[trigger] text[k]),
    ensures
        r@ == "configured"@,
{
    lemma_blank(text);
    let found = crate::server::config_files::found_in(Some(document@), section@, keys@);
    assert(found[i] == Some(text));
    assert(crate::server::config_files::any_said(found));
}

// ---------------------------------------------------------------------------
// Diagnostics
// ---------------------------------------------------------------------------

/// Without a configuration nothing is known about the deployment.
pub proof fn law_nothing_known_without_configuration(
    manager: ConfigFileManager,
    secrets: Option<&str>,
    r: ConfigDeploymentDiagnostics,
)
    requires
        call_ensures(
            ConfigFileManager::deployment_diagnostics,
            (&manager, None::<&ActiveServiceConfig>, secrets),
            r,
        ),
    ensures
        r.public_base_url is None,
        r.public_base_url_status@ == "missing"@,
        r.https_status@ == "unknown"@,
        r.public_cors@ == "disabled"@,
        r.restart_policy@ == "external_required"@,
        r.steam@ == "unknown"@ && r.llm@ == "unknown"@ && r.r2@ == "unknown"@,
{
}

/// With a configuration each of its parts is told as it is told on its own.
pub proof fn law_diagnostics_tell_each_part(
    manager: ConfigFileManager,
    active: ActiveServiceConfig,
    secrets: Option<&str>,
    key: &[&str],
    bucket_keys: &[&str],
    steam: String,
    llm: String,
    r2: String,
    r: ConfigDeploymentDiagnostics,
)
    requires
        call_ensures(
            ConfigFileManager::deployment_diagnostics,
            (&manager, Some(&active), secrets),
            r,
        ),
        key@ == seq!["api_key"],
        bucket_keys@ == seq!["access_key_id", "secret_access_key", "bucket"],
        call_ensures(provider_status, (secrets, "steam", key), steam),
        call_ensures(provider_status, (secrets, "llm", key), llm),
        call_ensures(provider_status, (secrets, "r2", bucket_keys), r2),
    ensures
        r.steam@ == steam@,
        r.llm@ == llm@,
        r.r2@ == r2@,
        active.service_connection is None ==> r.public_base_url is None
            && r.public_base_url_status@ == "missing"@ && r.https_status@ == "unknown"@,
        active.public_cors is None ==> r.public_cors@ == "disabled"@,
        active.public_cors is Some ==> r.public_cors@ == (
        if active.public_cors->0.allow_any_origin == Some(true) {
            "allow_any_origin"@
        } else {
            "disabled"@
        }),
        active.deployment is None ==> r.restart_policy@ == "external_required"@,
        active.deployment is Some ==> {
            let policy = active.deployment->0.restart_policy;
            &&& says_something(policy) ==> r.restart_policy@ == policy->0@
            &&& !says_something(policy) ==> r.restart_policy@ == "external_required"@
        },
{
    if active.deployment is Some {
        let policy = active.deployment->0.restart_policy;
        if policy is Some {
            lemma_blank(policy->0@);
        }
    }
}

/// The public address is told in its normal form, with what is told of that form.
pub proof fn law_diagnostics_tell_the_address(
    manager: ConfigFileManager,
    active: ActiveServiceConfig,
    secrets: Option<&str>,
    given: &str,
    url: String,
    normal: &str,
    status: String,
    security: String,
    r: ConfigDeploymentDiagnostics,
)
    requires
        call_ensures(
            ConfigFileManager::deployment_diagnostics,
            (&manager, Some(&active), secrets),
            r,
        ),
        active.service_connection is Some,
        given@ == active.service_connection->0.public_base_url@,
        call_ensures(normalize_public_base_url, (given,), url),
        normal@ == url@,
        call_ensures(public_base_url_status, (Some(normal),), status),
        call_ensures(https_status, (Some(normal),), security),
    ensures
        opt_view(r.public_base_url) == Some(url@),
        r.public_base_url_status@ == status@,
        r.https_status@ == security@,
{
}

// ---------------------------------------------------------------------------
// Service configurations
// ---------------------------------------------------------------------------

/// A service configuration has an instance and a name, and both are read from its identity.
pub proof fn law_configurations_have_an_identity(
    document: &str,
    r: Option<ActiveServiceConfig>,
)
    requires
        call_ensures(read_service_config, (document,), r),
    ensures
        ({
            let identity = Some("service_identity"@);
            let instance = toml_field(document@, identity, "instance_id"@, Some(0usize));
            let name = toml_field(document@, identity, "name"@, Some(1usize));
            let version = toml_field(document@, identity, "version"@, Some(2usize));
            &&& !(instance is Text) || !(name is Text) ==> r is None
            &&& !(version is Text || version is Absent) ==> r is None
            &&& r is Some ==> {
                let read = (r->0).service_identity;
                &&& instance == FieldView::Text(read.instance_id@)
                &&& name == FieldView::Text(read.name@)
                &&& version is Text ==> read.version is Some && version == FieldView::Text(
                    read.version->0@,
                )
                &&& version is Absent ==> read.version is None
            }
        }),
{
    if r is Some {
        let read = (r->0).service_identity;
        assert(opt_view(read.version) is Some <==> read.version is Some);
    }
}

/// The other parts of a service configuration may be left out; each is read from its own
/// section.
pub proof fn law_configurations_read_their_sections(
    document: &str,
    r: Option<ActiveServiceConfig>,
)
    requires
        call_ensures(read_service_config, (document,), r),
        r is Some,
    ensures
        ({
            let read = r->0;
            let bind = toml_field(document@, None, "bind_addr"@, None);
            let url = toml_field(
                document@,
                Some("service_connection"@),
                "public_base_url"@,
                Some(0usize),
            );
            let cors = toml_field(
                document@,
                Some("public_cors"@),
                "allow_any_origin"@,
                Some(0usize),
            );
            let policy = toml_field(
                document@,
                Some("deployment"@),
                "restart_policy"@,
                Some(0usize),
            );
            &&& bind is Text || bind is Absent
            &&& bind is Text ==> read.bind_addr is Some && bind == FieldView::Text(
                read.bind_addr->0@,
            )
            &&& bind is Absent ==> read.bind_addr is None
            &&& url is Text || url is NoSection
            &&& url is Text ==> read.service_connection is Some && url == FieldView::Text(
                read.service_connection->0.public_base_url@,
            )
            &&& url is NoSection ==> read.service_connection is None
            &&& cors is Flag || cors is Absent || cors is NoSection
            &&& cors is Flag ==> read.public_cors is Some
                && read.public_cors->0.allow_any_origin == Some(cors->Flag_0)
            &&& cors is Absent ==> read.public_cors is Some
                && read.public_cors->0.allow_any_origin is None
            &&& cors is NoSection ==> read.public_cors is None
            &&& policy is Text || policy is Absent || policy is NoSection
            &&& policy is Text ==> read.deployment is Some && opt_view(
                read.deployment->0.restart_policy,
            ) == Some(policy->Text_0)
            &&& policy is Absent ==> read.deployment is Some
                && read.deployment->0.restart_policy is None
            &&& policy is NoSection ==> read.deployment is None
        }),
{
    let read = r->0;
    assert(opt_view(read.bind_addr) is Some <==> read.bind_addr is Some);
    if read.deployment is Some {
        let policy = read.deployment->0.restart_policy;
        assert(opt_view(policy) is Some <==> policy is Some);
    }
}

/// A pending configuration can be taken exactly where it reads as one.
pub proof fn law_pending_configurations_are_read(
    manager: ConfigFileManager,
    pending: Loaded,
    document: &str,
    read: Option<ActiveServiceConfig>,
    r: Result<bool, ConfigFault>,
)
    requires
        call_ensures(ConfigFileManager::validate_pending_service_config, (&manager, &pending), r),
        pending is Text ==> document@ == pending->Text_0@,
        call_ensures(read_service_config, (document,), read),
    ensures
        pending is Absent ==> r == Ok::<bool, ConfigFault>(false),
        pending is Unreadable ==> r == Err::<bool, ConfigFault>(
            ConfigFault::Unreadable(ConfigFile::PendingService),
        ),
        pending is Text && read is Some ==> r == Ok::<bool, ConfigFault>(true),
        pending is Text && read is None ==> r == Err::<bool, ConfigFault>(
            ConfigFault::Invalid(ConfigFile::PendingService),
        ),
{
}

/// Once a pending file is written a restart is required.
pub proof fn law_written_files_need_a_restart(
    manager: ConfigFileManager,
    version: String,
    r: PendingConfigResponse,
)
    requires
        call_ensures(ConfigFileManager::pending_written, (&manager, version), r),
    ensures
        r.restart_required,
        r.pending_config_version@ == version@,
{
}

/// A pending file gives the new name and keeps the address, the instance and the version; what
/// follows does not depend on the name.
pub proof fn law_pending_files_rename(
    manager: ConfigFileManager,
    request: PendingServiceIdentityRequest,
    active: ActiveServiceConfig,
    package_version: &str,
    bind: &str,
    instance: &str,
    name: &str,
    version: &str,
    e_bind: String,
    e_instance: String,
    e_name: String,
    e_version: String,
    r: String,
) -> (rest: Seq<char>)
    requires
        call_ensures(
            ConfigFileManager::write_pending_service_identity,
            (&manager, &request, &active, package_version),
            r,
        ),
        active.bind_addr is Some ==> bind@ == active.bind_addr->0@,
        active.bind_addr is None ==> bind@ == "0.0.0.0:4310"@,
        instance@ == active.service_identity.instance_id@,
        name@ == request.service_name@,
        active.service_identity.version is Some ==> version@
            == active.service_identity.version->0@,
        active.service_identity.version is None ==> version@ == package_version@,
        call_ensures(escape_toml_string, (bind,), e_bind),
        call_ensures(escape_toml_string, (instance,), e_instance),
        call_ensures(escape_toml_string, (name,), e_name),
        call_ensures(escape_toml_string, (version,), e_version),
    ensures
        r@ == "bind_addr = \""@ + e_bind@ + "\"\n\n[service_identity]\ninstance_id = \""@
            + e_instance@ + "\"\nname = \""@ + e_name@ + "\"\nversion = \""@ + e_version@
            + "\"\n"@ + rest,
        active.service_connection is None && active.public_cors is None && active.deployment is None
            ==> rest.len() == 0,
{
    let rest = crate::server::config_files::connection_part(active.service_connection)
        + crate::server::config_files::cors_part(active.public_cors)
        + crate::server::config_files::deployment_part(
        crate::server::config_files::restart_policy_of(active.deployment),
    );
    assert(r@ =~= "bind_addr = \""@ + e_bind@ + "\"\n\n[service_identity]\ninstance_id = \""@
        + e_instance@ + "\"\nname = \""@ + e_name@ + "\"\nversion = \""@ + e_version@ + "\"\n"@
        + rest);
    rest
}

/// The sections behind the identity are written one after the other, each where the active
/// configuration has it.
pub proof fn law_pending_files_keep_sections(
    manager: ConfigFileManager,
    request: PendingServiceIdentityRequest,
    full: ActiveServiceConfig,
    bare: ActiveServiceConfig,
    package_version: &str,
    given: &str,
    url: String,
    normal: &str,
    e_url: String,
    policy: &str,
    e_policy: String,
    r: String,
    s: String,
)
    requires
        full.service_connection is Some,
        full.public_cors is Some,
        full.deployment is Some,
        opt_view(full.deployment->0.restart_policy) == Some(policy@),
        bare == (ActiveServiceConfig {
            service_connection: None,
            public_cors: None,
            deployment: None,
            ..full
        }),
        call_ensures(
            ConfigFileManager::write_pending_service_identity,
            (&manager, &request, &full, package_version),
            r,
        ),
        call_ensures(
            ConfigFileManager::write_pending_service_identity,
            (&manager, &request, &bare, package_version),
            s,
        ),
        given@ == full.service_connection->0.public_base_url@,
        call_ensures(normalize_public_base_url, (given,), url),
        normal@ == url@,
        call_ensures(escape_toml_string, (normal,), e_url),
        call_ensures(escape_toml_string, (policy,), e_policy),
    ensures
        r@ == s@ + "\n[service_connection]\npublic_base_url = \""@ + e_url@ + "\"\n"@
            + "\n[public_cors]\nallow_any_origin = "@ + (
        if full.public_cors->0.allow_any_origin == Some(true) {
            "true"@
        } else {
            "false"@
        }) + "\n"@ + "\n[deployment]\nrestart_policy = \""@ + e_policy@ + "\"\n"@,
{
    assert(r@ =~= s@ + "\n[service_connection]\npublic_base_url = \""@ + e_url@ + "\"\n"@
        + "\n[public_cors]\nallow_any_origin = "@ + (
    if full.public_cors->0.allow_any_origin == Some(true) {
        "true"@
    } else {
        "false"@
    }) + "\n"@ + "\n[deployment]\nrestart_policy = \""@ + e_policy@ + "\"\n"@);
}

} // verus!
