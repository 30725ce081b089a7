//! The configuration files of a service: what is in force, what waits for a restart, and
//! what the files say about the deployment.

use toml::Value;
use toml::Value::{Array, Datetime, Table};
use vstd::prelude::*;

use crate::text::{
    ascii_lowercase, bool_str, bool_text, is_blank, join2, join3, opt_view, str_starts_with,
    str_view, to_ascii_lower, to_chars, trim, trim_end_char, trim_end_of, trimmed,
};

verus! {

// ---------------------------------------------------------------------------
// Files
// ---------------------------------------------------------------------------

/// A file below the configuration directory.
#[derive(Debug, Clone, Copy, PartialEq, Eq, Structural)]
pub enum ConfigFile {
    ActiveService,
    ActiveSecrets,
    PendingService,
}

/// The directory below the configuration directory that a file is in, and its name.
pub fn config_file_parts(file: ConfigFile) -> (r: (&'static str, &'static str))
    ensures
        r.0@ == (match file {
            ConfigFile::PendingService => "pending"@,
            _ => "active"@,
        }),
        r.1@ == (match file {
            ConfigFile::ActiveSecrets => "secrets.toml"@,
            _ => "service.toml"@,
        }),
{
    match file {
        ConfigFile::ActiveService => ("active", "service.toml"),
        ConfigFile::ActiveSecrets => ("active", "secrets.toml"),
        ConfigFile::PendingService => ("pending", "service.toml"),
    }
}

/// What came of looking for a file.
#[derive(Debug)]
pub enum Loaded {
    Absent,
    Unreadable,
    Text(String),
}

/// Why the configuration cannot be told.
#[derive(Debug, Clone, Copy, PartialEq, Eq, Structural)]
pub enum ConfigFault {
    /// This file is missing or cannot be read.
    Unreadable(ConfigFile),
    /// This file is no service configuration.
    Invalid(ConfigFile),
    /// `service_connection.public_base_url` is not configured.
    NoConnection,
}

pub const NO_CONNECTION_MESSAGE: &'static str =
    "service_connection.public_base_url is not configured";

// ---------------------------------------------------------------------------
// What the files say
// ---------------------------------------------------------------------------

/// A service configuration, as it was read.
#[derive(Debug)]
pub struct ActiveServiceConfig {
    pub bind_addr: Option<String>,
    pub service_identity: ActiveServiceIdentityConfig,
    pub service_connection: Option<ActiveServiceConnectionConfig>,
    pub public_cors: Option<ActivePublicCorsConfig>,
    pub deployment: Option<ActiveDeploymentConfig>,
}

#[derive(Debug)]
pub struct ActiveServiceIdentityConfig {
    pub instance_id: String,
    pub name: String,
    pub version: Option<String>,
}

#[derive(Debug)]
pub struct ActiveServiceConnectionConfig {
    pub public_base_url: String,
}

#[derive(Debug)]
pub struct ActivePublicCorsConfig {
    pub allow_any_origin: Option<bool>,
}

#[derive(Debug)]
pub struct ActiveDeploymentConfig {
    pub restart_policy: Option<String>,
}

#[derive(Debug)]
pub struct PendingServiceIdentityRequest {
    pub service_name: String,
}

#[derive(Debug)]
pub struct ConfigStateResponse {
    pub active_config_version: String,
    pub pending_config_version: Option<String>,
    pub restart_required: bool,
    pub last_startup_status: String,
}

#[derive(Debug)]
pub struct PendingConfigResponse {
    pub pending_config_version: String,
    pub restart_required: bool,
}

#[derive(Debug, Clone, Copy, PartialEq, Eq, Structural)]
pub enum ServiceCapability {
    PublicCatalogRead,
}

#[derive(Debug)]
pub struct ServiceConnectionFileResponse {
    pub service_name: String,
    pub service_instance_id: String,
    pub api_version: String,
    pub base_url: String,
    pub service_info_url: String,
    pub capabilities: Vec<ServiceCapability>,
}

#[derive(Debug)]
pub struct ConfigDeploymentDiagnostics {
    pub public_base_url: Option<String>,
    pub public_base_url_status: String,
    pub https_status: String,
    pub public_cors: String,
    pub restart_policy: String,
    pub steam: String,
    pub llm: String,
    pub r2: String,
}

impl Default for ConfigDeploymentDiagnostics {
    fn default() -> (r: Self)
        ensures
            r.public_base_url is None,
            r.public_base_url_status@ == "missing"@,
            r.https_status@ == "unknown"@,
            r.public_cors@ == "disabled"@,
            r.restart_policy@ == "external_required"@,
            r.steam@ == "unknown"@,
            r.llm@ == "unknown"@,
            r.r2@ == "unknown"@,
    {
        ConfigDeploymentDiagnostics {
            public_base_url: None,
            public_base_url_status: "missing".to_owned(),
            https_status: "unknown".to_owned(),
            public_cors: "disabled".to_owned(),
            restart_policy: "external_required".to_owned(),
            steam: "unknown".to_owned(),
            llm: "unknown".to_owned(),
            r2: "unknown".to_owned(),
        }
    }
}

// ---------------------------------------------------------------------------
// Text
// ---------------------------------------------------------------------------

/// A character of a quoted text.
pub open spec fn escaped_char(c: char) -> Seq<char> {
    if c == '\\' {
        seq!['\\', '\\']
    } else if c == '"' {
        seq!['\\', '"']
    } else {
        seq![c]
    }
}

/// The text with a backslash before each backslash and each quotation mark.
pub open spec fn escaped(s: Seq<char>) -> Seq<char>
    decreases s.len(),
{
    if s.len() == 0 {
        Seq::empty()
    } else {
        escaped(s.drop_last()) + escaped_char(s.last())
    }
}

/// What a quoted text reads as from `i` on, up to the quotation mark that ends it: a
/// backslash stands for the character after it. `None` where nothing ends the text.
pub open spec fn quoted_from(s: Seq<char>, i: int) -> Option<(Seq<char>, int)>
    decreases s.len() - i,
{
    if i < 0 || i >= s.len() {
        None
    } else if s[i] == '"' {
        Some((Seq::empty(), i))
    } else if s[i] == '\\' {
        if i + 1 >= s.len() {
            None
        } else {
            match quoted_from(s, i + 2) {
                Some((rest, end)) => Some((seq![s[i + 1]] + rest, end)),
                None => None,
            }
        }
    } else {
        match quoted_from(s, i + 1) {
            Some((rest, end)) => Some((seq![s[i]] + rest, end)),
            None => None,
        }
    }
}

/// The escaped form of the rest of a text is what follows the escaped form of its start.
proof fn lemma_escaped_from_start(s: Seq<char>, k: int)
    requires
        0 <= k < s.len(),
    ensures
        escaped(s.skip(k)) == escaped_char(s[k]) + escaped(s.skip(k + 1)),
    decreases s.len(),
{
    reveal_with_fuel(escaped, 2);
    let rest = s.skip(k);
    if rest.len() == 1 {
        assert(rest.drop_last() =~= Seq::empty());
        assert(s.skip(k + 1) =~= Seq::empty());
        assert(escaped(rest) =~= escaped_char(s[k]));
    } else {
        let shorter = s.drop_last();
        lemma_escaped_from_start(shorter, k);
        assert(rest.drop_last() =~= shorter.skip(k));
        assert(s.skip(k + 1).drop_last() =~= shorter.skip(k + 1));
        assert(escaped(rest) =~= escaped_char(s[k]) + escaped(s.skip(k + 1)));
    }
}

/// Whatever a text holds, its escaped form between quotation marks reads as that text, and
/// ends where the closing mark stands: no text can reach past its quotation marks.
pub proof fn lemma_escaped_text_reads_back(s: Seq<char>, before: Seq<char>, after: Seq<char>)
    ensures
        quoted_from(
            before + escaped(s) + seq!['"'] + after,
            before.len() as int,
        ) == Some((s, (before.len() + escaped(s).len()) as int)),
    decreases s.len(),
{
    let whole = before + escaped(s) + seq!['"'] + after;
    let at = before.len() as int;
    if s.len() == 0 {
        assert(whole[at] == '"');
        assert(s =~= Seq::empty());
    } else {
        lemma_escaped_from_start(s, 0);
        assert(s.skip(0) =~= s);
        let rest = s.skip(1);
        let first = escaped_char(s[0]);
        lemma_escaped_text_reads_back(rest, before + first, after);
        assert(before + first + escaped(rest) + seq!['"'] + after =~= whole);
        assert(whole[at] == first[0]);
        if first.len() == 2 {
            assert(whole[at + 1] == first[1]);
        }
        assert(seq![s[0]] + rest =~= s);
    }
}

/// The text as it stands between quotation marks in a configuration file.
pub fn escape_toml_string(value: &str) -> (r: String)
    ensures
        r@ == escaped(value@),
{
    let chars = to_chars(value);
    let mut out = String::new();
    let mut i: usize = 0;
    assert(chars@.take(0) =~= Seq::empty());
    while i < chars.len()
        invariant
            0 <= i <= chars@.len(),
            out@ == escaped(chars@.take(i as int)),
        decreases chars@.len() - i,
    {
        let c = chars[i];
        proof {
            assert(chars@.take(i + 1).drop_last() =~= chars@.take(i as int));
        }
        if c == '\\' || c == '"' {
            out.push('\\');
        }
        out.push(c);
        assert(out@ =~= escaped(chars@.take(i as int)) + escaped_char(c));
        i = i + 1;
    }
    assert(chars@.take(chars@.len() as int) =~= value@);
    out
}

/// The address without surrounding blanks and closing slashes.
pub open spec fn normal_base_url(value: Seq<char>) -> Seq<char> {
    trim_end_char(trimmed(value), '/')
}

pub fn normalize_public_base_url(value: &str) -> (r: String)
    ensures
        r@ == normal_base_url(value@),
{
    trim_end_of(trim(value).as_str(), '/')
}

proof fn lemma_trim_end_char_ends(s: Seq<char>, c: char)
    ensures
        trim_end_char(s, c).len() > 0 ==> trim_end_char(s, c).last() != c,
    decreases s.len(),
{
    if s.len() > 0 && s.last() == c {
        lemma_trim_end_char_ends(s.drop_last(), c);
    }
}

/// An address that was brought into its normal form does not end in a slash, so that a path
/// can follow it.
pub proof fn lemma_normal_url_takes_a_path(value: Seq<char>)
    ensures
        normal_base_url(value).len() > 0 ==> normal_base_url(value).last() != '/',
{
    lemma_trim_end_char_ends(trimmed(value), '/');
}

pub open spec fn base_url_status(base_url: Option<Seq<char>>) -> Seq<char> {
    if base_url is Some && trimmed(base_url->0).len() > 0 {
        "configured"@
    } else {
        "missing"@
    }
}

pub fn public_base_url_status(base_url: Option<&str>) -> (r: String)
    ensures
        r@ == base_url_status(str_view(base_url)),
{
    match base_url {
        Some(value) => {
            if is_blank(value) {
                "missing".to_owned()
            } else {
                "configured".to_owned()
            }
        },
        None => "missing".to_owned(),
    }
}

/// How clients will take an address.
pub open spec fn url_security(base_url: Option<Seq<char>>) -> Seq<char> {
    match base_url {
        None => "unknown"@,
        Some(base_url) => {
            let value = to_ascii_lower(trimmed(base_url));
            if "https://"@.is_prefix_of(value) {
                "ok"@
            } else if "http://localhost"@.is_prefix_of(value) || "http://127.0.0.1"@.is_prefix_of(
                value,
            ) || "http://[::1]"@.is_prefix_of(value) {
                "local_http_allowed"@
            } else if "http://"@.is_prefix_of(value) {
                "public_http_rejected_by_clients"@
            } else {
                "invalid_url"@
            }
        },
    }
}

pub fn https_status(base_url: Option<&str>) -> (r: String)
    ensures
        r@ == url_security(str_view(base_url)),
{
    match base_url {
        None => "unknown".to_owned(),
        Some(base_url) => {
            let value = ascii_lowercase(trim(base_url).as_str());
            let value = value.as_str();
            if str_starts_with(value, "https://") {
                "ok".to_owned()
            } else if str_starts_with(value, "http://localhost") || str_starts_with(
                value,
                "http://127.0.0.1",
            ) || str_starts_with(value, "http://[::1]") {
                "local_http_allowed".to_owned()
            } else if str_starts_with(value, "http://") {
                "public_http_rejected_by_clients".to_owned()
            } else {
                "invalid_url".to_owned()
            }
        },
    }
}

// ---------------------------------------------------------------------------
// TOML
// ---------------------------------------------------------------------------

/// What a TOML document has in one place. A list in place of a section can be too short; a date
/// in its place has no field that is asked for.
#[derive(Debug)]
pub enum TomlField {
    NotToml,
    NoSection,
    NotASection,
    TooShort,
    Absent,
    Text(String),
    Flag(bool),
    Other,
}

/// The same, with texts as sequences of characters.
pub enum FieldView {
    NotToml,
    NoSection,
    NotASection,
    TooShort,
    Absent,
    Text(Seq<char>),
    Flag(bool),
    Other,
}

impl View for TomlField {
    type V = FieldView;

    open spec fn view(&self) -> FieldView {
        match *self {
            TomlField::NotToml => FieldView::NotToml,
            TomlField::NoSection => FieldView::NoSection,
            TomlField::NotASection => FieldView::NotASection,
            TomlField::TooShort => FieldView::TooShort,
            TomlField::Absent => FieldView::Absent,
            TomlField::Text(text) => FieldView::Text(text@),
            TomlField::Flag(flag) => FieldView::Flag(flag),
            TomlField::Other => FieldView::Other,
        }
    }
}

/// What a TOML document has under a key of a section, or outside all sections; in a list that
/// stands in place of a section, what it has in a place.
pub uninterp spec fn toml_field(
    document: Seq<char>,
    section: Option<Seq<char>>,
    key: Seq<char>,
    place: Option<usize>,
) -> FieldView;

/// `toml::from_str`, then `Value::get` for the section, and `Map::get` or the list's `get` for
/// the field: what they find depends on the document, the section, the key and the place alone.
/// A date or a time in place of a section is a section with no such field, as serde has it; and
/// a table that begins with the key under which `toml` hands out dates is taken for a date.
/// A pending file whose texts are plain is TOML, and each of its fields is found as it was
/// written: a quoted text with its backslashes and quotation marks escaped is a basic string of
/// TOML.
#[verifier::external_body]
fn toml_field_at(
    document: &str,
    section: Option<&str>,
    key: &str,
    place: Option<usize>,
) -> (r: TomlField)
    ensures
        r@ == toml_field(document@, str_view(section), key@, place),
        forall|active: ActiveServiceConfig, service_name: Seq<char>, package_version: Seq<char>|
            document@ == #[trigger] pending_text(active, service_name, package_version)
                && writes_plain_texts(active, service_name, package_version) ==> (written_field(
                active,
                service_name,
                package_version,
                str_view(section),
                key@,
            ) matches Some(field) ==> r@ == field),
{
    let Ok(document) = toml::from_str::<Value>(document) else { return TomlField::NotToml };
    let found = match section { Some(name) => document.get(name), None => Some(&document) };
    let (field, missing) = match found {
        None => return TomlField::NoSection,
        Some(Table(table)) => (table.get(key), TomlField::Absent),
        Some(Array(list)) => (place.and_then(|at| list.get(at)), TomlField::TooShort),
        Some(Datetime(_)) => return TomlField::Absent,
        Some(_) => return TomlField::NotASection,
    };
    match field {
        None => missing,
        Some(Value::String(text)) => TomlField::Text(text.clone()),
        Some(Value::Boolean(flag)) => TomlField::Flag(*flag),
        Some(_) => TomlField::Other,
    }
}

// ---------------------------------------------------------------------------
// Secrets
// ---------------------------------------------------------------------------

/// The text under a key of a section of a TOML document; `None` where the document is not
/// TOML, or has no such section, or no text under the key.
pub open spec fn text_under(document: Seq<char>, section: Seq<char>, key: Seq<char>) -> Option<
    Seq<char>,
> {
    match toml_field(document, Some(section), key, None) {
        FieldView::Text(text) => Some(text),
        _ => None,
    }
}

/// Whether one of the texts found under a provider's keys says anything.
pub open spec fn any_said(found: Seq<Option<Seq<char>>>) -> bool {
    exists|i: int|
        0 <= i < found.len() && (#[trigger] found[i]) is Some && trimmed(found[i]->0).len() > 0
}

pub open spec fn said_status(said: bool) -> Seq<char> {
    if said {
        "configured"@
    } else {
        "missing"@
    }
}

/// The status of a provider, from the texts found under its keys.
pub fn provider_status_of(found: &Vec<Option<String>>) -> (r: String)
    ensures
        r@ == said_status(any_said(found@.map_values(|o: Option<String>| opt_view(o)))),
{
    let ghost texts = found@.map_values(|o: Option<String>| opt_view(o));
    let mut i: usize = 0;
    while i < found.len()
        invariant
            0 <= i <= found@.len(),
            texts == found@.map_values(|o: Option<String>| opt_view(o)),
            forall|j: int|
                0 <= j < i ==> !((#[trigger] texts[j]) is Some && trimmed(texts[j]->0).len() > 0),
        decreases found@.len() - i,
    {
        assert(texts[i as int] == opt_view(found@[i as int]));
        match &found[i] {
            Some(text) => {
                if !is_blank(text.as_str()) {
                    return "configured".to_owned();
                }
            },
            None => {},
        }
        i = i + 1;
    }
    assert(!any_said(texts));
    "missing".to_owned()
}

/// What a secrets file has under the keys of a section.
pub open spec fn found_in(secrets: Option<Seq<char>>, section: Seq<char>, keys: Seq<&str>) -> Seq<
    Option<Seq<char>>,
> {
    keys.map_values(
        |key: &str|
            match secrets {
                Some(document) => text_under(document, section, key@),
                None => None,
            },
    )
}

/// The status of a provider: `configured` where one of its keys has a text that says
/// something. A secrets file that cannot be read, or is not TOML, configures nothing.
pub fn provider_status(secrets: Option<&str>, section: &str, keys: &[&str]) -> (r: String)
    ensures
        r@ == said_status(any_said(found_in(str_view(secrets), section@, keys@))),
{
    let mut found: Vec<Option<String>> = Vec::new();
    let mut i: usize = 0;
    while i < keys.len()
        invariant
            0 <= i <= keys@.len(),
            found@.len() == i,
            forall|j: int|
                0 <= j < i ==> opt_view(#[trigger] found@[j]) == found_in(
                    str_view(secrets),
                    section@,
                    keys@,
                )[j],
        decreases keys@.len() - i,
    {
        let text = match secrets {
            Some(document) => match toml_field_at(document, Some(section), keys[i], None) {
                TomlField::Text(text) => Some(text),
                _ => None,
            },
            None => None,
        };
        found.push(text);
        i = i + 1;
    }
    assert(found@.map_values(|o: Option<String>| opt_view(o)) =~= found_in(
        str_view(secrets),
        section@,
        keys@,
    ));
    provider_status_of(&found)
}

// ---------------------------------------------------------------------------
// The pending file
// ---------------------------------------------------------------------------

/// The part of a pending file that every one has.
pub open spec fn identity_part(
    bind_addr: Seq<char>,
    instance_id: Seq<char>,
    name: Seq<char>,
    version: Seq<char>,
) -> Seq<char> {
    "bind_addr = \""@ + escaped(bind_addr) + "\"\n\n[service_identity]\ninstance_id = \""@
        + escaped(instance_id) + "\"\nname = \""@ + escaped(name) + "\"\nversion = \""@ + escaped(
        version,
    ) + "\"\n"@
}

pub open spec fn connection_part(connection: Option<ActiveServiceConnectionConfig>) -> Seq<char> {
    match connection {
        Some(connection) => "\n[service_connection]\npublic_base_url = \""@ + escaped(
            normal_base_url(connection.public_base_url@),
        ) + "\"\n"@,
        None => Seq::empty(),
    }
}

pub open spec fn cors_part(cors: Option<ActivePublicCorsConfig>) -> Seq<char> {
    match cors {
        Some(cors) => "\n[public_cors]\nallow_any_origin = "@ + bool_text(
            cors.allow_any_origin == Some(true),
        ) + "\n"@,
        None => Seq::empty(),
    }
}

/// The restart policy of a configuration.
pub open spec fn restart_policy_of(deployment: Option<ActiveDeploymentConfig>) -> Option<
    Seq<char>,
> {
    match deployment {
        Some(deployment) => opt_view(deployment.restart_policy),
        None => None,
    }
}

pub open spec fn deployment_part(policy: Option<Seq<char>>) -> Seq<char> {
    match policy {
        Some(policy) => "\n[deployment]\nrestart_policy = \""@ + escaped(policy) + "\"\n"@,
        None => Seq::empty(),
    }
}

pub open spec fn or_default(value: Option<Seq<char>>, default_value: Seq<char>) -> Seq<char> {
    match value {
        Some(value) => value,
        None => default_value,
    }
}

/// The pending file that renames a service and keeps everything else.
pub open spec fn pending_text(
    active: ActiveServiceConfig,
    service_name: Seq<char>,
    package_version: Seq<char>,
) -> Seq<char> {
    identity_part(
        or_default(opt_view(active.bind_addr), "0.0.0.0:4310"@),
        active.service_identity.instance_id@,
        service_name,
        or_default(opt_view(active.service_identity.version), package_version),
    ) + connection_part(active.service_connection) + cors_part(active.public_cors)
        + deployment_part(restart_policy_of(active.deployment))
}

/// The text begins with `start`.
#[verifier::opaque]
pub open spec fn starts_with(text: Seq<char>, start: Seq<char>) -> bool {
    start.is_prefix_of(text)
}

/// After `before`, the text goes on with a quoted text that reads as `value`.
#[verifier::opaque]
pub open spec fn reads_after(text: Seq<char>, before: Seq<char>, value: Seq<char>) -> bool {
    &&& before.is_prefix_of(text)
    &&& quoted_from(text, before.len() as int) == Some(
        (value, (before.len() + escaped(value).len()) as int),
    )
}

/// In a pending file every text stands where it is read, whatever it holds: the new name, and
/// everything else as the active configuration has it.
pub proof fn lemma_pending_fields_read_back(
    active: ActiveServiceConfig,
    service_name: Seq<char>,
    package_version: Seq<char>,
)
    ensures
        ({
            let text = pending_text(active, service_name, package_version);
            let bind_addr = or_default(opt_view(active.bind_addr), "0.0.0.0:4310"@);
            let instance_id = active.service_identity.instance_id@;
            let version = or_default(opt_view(active.service_identity.version), package_version);
            let at_id = "bind_addr = \""@ + escaped(bind_addr)
                + "\"\n\n[service_identity]\ninstance_id = \""@;
            let at_name = at_id + escaped(instance_id) + "\"\nname = \""@;
            let at_version = at_name + escaped(service_name) + "\"\nversion = \""@;
            let identity = identity_part(bind_addr, instance_id, service_name, version);
            let connected = identity + connection_part(active.service_connection);
            let with_cors = connected + cors_part(active.public_cors);
            &&& reads_after(text, "bind_addr = \""@, bind_addr)
            &&& reads_after(text, at_id, instance_id)
            &&& reads_after(text, at_name, service_name)
            &&& reads_after(text, at_version, version)
            &&& active.service_connection matches Some(connection) ==> reads_after(
                text,
                identity + "\n[service_connection]\npublic_base_url = \""@,
                normal_base_url(connection.public_base_url@),
            )
            &&& active.public_cors matches Some(cors) ==> starts_with(
                text,
                connected + "\n[public_cors]\nallow_any_origin = "@ + bool_text(
                    cors.allow_any_origin == Some(true),
                ) + "\n"@,
            )
            &&& restart_policy_of(active.deployment) matches Some(policy) ==> reads_after(
                text,
                with_cors + "\n[deployment]\nrestart_policy = \""@,
                policy,
            )
        }),
{
    let text = pending_text(active, service_name, package_version);
    let bind_addr = or_default(opt_view(active.bind_addr), "0.0.0.0:4310"@);
    let instance_id = active.service_identity.instance_id@;
    let version = or_default(opt_view(active.service_identity.version), package_version);
    let at_id = "bind_addr = \""@ + escaped(bind_addr)
        + "\"\n\n[service_identity]\ninstance_id = \""@;
    let at_name = at_id + escaped(instance_id) + "\"\nname = \""@;
    let at_version = at_name + escaped(service_name) + "\"\nversion = \""@;
    let identity = identity_part(bind_addr, instance_id, service_name, version);
    let connected = identity + connection_part(active.service_connection);
    let with_cors = connected + cors_part(active.public_cors);
    let rest = deployment_part(restart_policy_of(active.deployment));
    lemma_start_of_longer(text, with_cors, rest);
    lemma_start_of_longer(with_cors, connected, cors_part(active.public_cors));
    lemma_start_of_longer(connected, identity, connection_part(active.service_connection));
    lemma_start_of_start(connected, with_cors, text);
    lemma_start_of_start(identity, connected, text);
    lemma_identity_reads_back(text, bind_addr, instance_id, service_name, version);
    if active.service_connection is Some {
        lemma_section_reads_back(
            text,
            identity,
            "\n[service_connection]\npublic_base_url = \""@,
            normal_base_url(active.service_connection->0.public_base_url@),
        );
    }
    if active.public_cors is Some {
        let line = "\n[public_cors]\nallow_any_origin = "@;
        let flag = bool_text(active.public_cors->0.allow_any_origin == Some(true));
        assert(connected + (line + flag + "\n"@) =~= connected + line + flag + "\n"@);
    }
    if restart_policy_of(active.deployment) is Some {
        assert(text =~= text + Seq::<char>::empty());
        lemma_start_of_longer(text, text, Seq::empty());
        lemma_section_reads_back(
            text,
            with_cors,
            "\n[deployment]\nrestart_policy = \""@,
            restart_policy_of(active.deployment)->0,
        );
    }
}

/// The four texts that every pending file has.
proof fn lemma_identity_reads_back(
    text: Seq<char>,
    bind_addr: Seq<char>,
    instance_id: Seq<char>,
    name: Seq<char>,
    version: Seq<char>,
)
    requires
        starts_with(text, identity_part(bind_addr, instance_id, name, version)),
    ensures
        ({
            let at_id = "bind_addr = \""@ + escaped(bind_addr)
                + "\"\n\n[service_identity]\ninstance_id = \""@;
            let at_name = at_id + escaped(instance_id) + "\"\nname = \""@;
            let at_version = at_name + escaped(name) + "\"\nversion = \""@;
            &&& reads_after(text, "bind_addr = \""@, bind_addr)
            &&& reads_after(text, at_id, instance_id)
            &&& reads_after(text, at_name, name)
            &&& reads_after(text, at_version, version)
        }),
{
    let after_addr = "\"\n\n[service_identity]\ninstance_id = \""@;
    let after_id = "\"\nname = \""@;
    let after_name = "\"\nversion = \""@;
    let after_version = "\"\n"@;
    assert(opens_with_quote(after_addr)) by {
        reveal_strlit("\"\n\n[service_identity]\ninstance_id = \"");
    }
    assert(opens_with_quote(after_id)) by {
        reveal_strlit("\"\nname = \"");
    }
    assert(opens_with_quote(after_name)) by {
        reveal_strlit("\"\nversion = \"");
    }
    assert(opens_with_quote(after_version)) by {
        reveal_strlit("\"\n");
    }
    let at_id = "bind_addr = \""@ + escaped(bind_addr) + after_addr;
    let at_name = at_id + escaped(instance_id) + after_id;
    let at_version = at_name + escaped(name) + after_name;
    lemma_line_reads_back(text, at_version, version, after_version);
    lemma_line_reads_back(text, at_name, name, after_name);
    lemma_line_reads_back(text, at_id, instance_id, after_id);
    lemma_line_reads_back(text, "bind_addr = \""@, bind_addr, after_addr);
}

/// The text of a section that holds one.
proof fn lemma_section_reads_back(
    text: Seq<char>,
    before: Seq<char>,
    head: Seq<char>,
    value: Seq<char>,
)
    requires
        starts_with(text, before + (head + escaped(value) + "\"\n"@)),
    ensures
        reads_after(text, before + head, value),
{
    let end = "\"\n"@;
    assert(opens_with_quote(end)) by {
        reveal_strlit("\"\n");
    }
    assert(before + (head + escaped(value) + end) =~= before + head + escaped(value) + end);
    lemma_line_reads_back(text, before + head, value, end);
}

spec fn opens_with_quote(text: Seq<char>) -> bool {
    text.len() > 0 && text[0] == '"'
}

proof fn lemma_start_of_longer(longer: Seq<char>, start: Seq<char>, rest: Seq<char>)
    requires
        longer == start + rest,
    ensures
        starts_with(longer, start),
{
    reveal(starts_with);
    assert(longer.subrange(0, start.len() as int) =~= start);
}

proof fn lemma_start_of_start(shorter: Seq<char>, start: Seq<char>, text: Seq<char>)
    requires
        starts_with(start, shorter),
        starts_with(text, start),
    ensures
        starts_with(text, shorter),
{
    reveal(starts_with);
    assert(text.subrange(0, shorter.len() as int) =~= start.subrange(0, shorter.len() as int));
}

/// A text is read where its escaped form comes next, and a quotation mark after it.
proof fn lemma_line_reads_back(text: Seq<char>, before: Seq<char>, value: Seq<char>, end: Seq<char>)
    requires
        starts_with(text, before + escaped(value) + end),
        opens_with_quote(end),
    ensures
        reads_after(text, before, value),
        starts_with(text, before),
{
    reveal(starts_with);
    reveal(reads_after);
    let line = before + escaped(value) + end;
    let at = (before.len() + escaped(value).len()) as int;
    let rest = text.skip(at + 1);
    assert forall|i: int| 0 <= i < line.len() implies text[i] == line[i] by {
        assert(text.subrange(0, line.len() as int)[i] == line[i]);
    }
    assert(line[at] == '"');
    assert(text =~= before + escaped(value) + seq!['"'] + rest);
    assert(text.subrange(0, before.len() as int) =~= before);
    lemma_escaped_text_reads_back(value, before, rest);
}

fn text_or(value: &Option<String>, default_value: &str) -> (r: String)
    ensures
        r@ == or_default(opt_view(*value), default_value@),
{
    match value {
        Some(value) => value.clone(),
        None => default_value.to_owned(),
    }
}

// ---------------------------------------------------------------------------
// Reading a configuration
// ---------------------------------------------------------------------------

/// A text that can stand between quotation marks in TOML once it is escaped: of the control
/// characters it holds at most tabs.
pub open spec fn is_plain(text: Seq<char>) -> bool {
    forall|i: int|
        #![trigger text[i]]
        0 <= i < text.len() ==> text[i] == '\t' || (text[i] as int >= 32 && text[i] as int != 127)
}

/// Every text that goes into the pending file is plain.
pub open spec fn writes_plain_texts(
    active: ActiveServiceConfig,
    service_name: Seq<char>,
    package_version: Seq<char>,
) -> bool {
    &&& is_plain(or_default(opt_view(active.bind_addr), "0.0.0.0:4310"@))
    &&& is_plain(active.service_identity.instance_id@)
    &&& is_plain(service_name)
    &&& is_plain(or_default(opt_view(active.service_identity.version), package_version))
    &&& active.service_connection matches Some(connection) ==> is_plain(
        normal_base_url(connection.public_base_url@),
    )
    &&& restart_policy_of(active.deployment) matches Some(policy) ==> is_plain(policy)
}

/// What the pending file has in the places that a configuration is read from.
pub open spec fn written_field(
    active: ActiveServiceConfig,
    service_name: Seq<char>,
    package_version: Seq<char>,
    section: Option<Seq<char>>,
    key: Seq<char>,
) -> Option<FieldView> {
    if section is None && key == "bind_addr"@ {
        Some(FieldView::Text(or_default(opt_view(active.bind_addr), "0.0.0.0:4310"@)))
    } else if section == Some("service_identity"@) && key == "instance_id"@ {
        Some(FieldView::Text(active.service_identity.instance_id@))
    } else if section == Some("service_identity"@) && key == "name"@ {
        Some(FieldView::Text(service_name))
    } else if section == Some("service_identity"@) && key == "version"@ {
        Some(
            FieldView::Text(
                or_default(opt_view(active.service_identity.version), package_version),
            ),
        )
    } else if section == Some("service_connection"@) && key == "public_base_url"@ {
        Some(
            match active.service_connection {
                Some(connection) => FieldView::Text(normal_base_url(connection.public_base_url@)),
                None => FieldView::NoSection,
            },
        )
    } else if section == Some("public_cors"@) && key == "allow_any_origin"@ {
        Some(
            match active.public_cors {
                Some(cors) => FieldView::Flag(cors.allow_any_origin == Some(true)),
                None => FieldView::NoSection,
            },
        )
    } else if section == Some("deployment"@) && key == "restart_policy"@ {
        Some(
            match restart_policy_of(active.deployment) {
                Some(policy) => FieldView::Text(policy),
                None => FieldView::NoSection,
            },
        )
    } else {
        None
    }
}

/// A text that has to be there.
pub open spec fn needed_text(field: FieldView) -> Option<Seq<char>> {
    match field {
        FieldView::Text(text) => Some(text),
        _ => None,
    }
}

/// A text that may be left out.
pub open spec fn optional_text(field: FieldView) -> Option<Option<Seq<char>>> {
    match field {
        FieldView::Text(text) => Some(Some(text)),
        FieldView::Absent => Some(None),
        _ => None,
    }
}

/// A flag that may be left out.
pub open spec fn optional_flag(field: FieldView) -> Option<Option<bool>> {
    match field {
        FieldView::Flag(flag) => Some(Some(flag)),
        FieldView::Absent => Some(None),
        _ => None,
    }
}

/// What a section that may be left out says, if what it says is in order.
pub open spec fn optional_section<T>(field: FieldView, said: Option<T>) -> Option<Option<T>> {
    match field {
        FieldView::NoSection => Some(None),
        _ => match said {
            Some(value) => Some(Some(value)),
            None => None,
        },
    }
}

/// The parts of a service configuration, each as far as it is in order.
pub struct ConfigParts {
    pub bind_addr: Option<Option<Seq<char>>>,
    pub instance_id: Option<Seq<char>>,
    pub name: Option<Seq<char>>,
    pub version: Option<Option<Seq<char>>>,
    pub public_base_url: Option<Option<Seq<char>>>,
    pub allow_any_origin: Option<Option<Option<bool>>>,
    pub restart_policy: Option<Option<Option<Seq<char>>>>,
}

pub open spec fn parts_of(document: Seq<char>) -> ConfigParts {
    let bind_addr = toml_field(document, None, "bind_addr"@, None);
    let instance_id = toml_field(document, Some("service_identity"@), "instance_id"@, Some(0usize));
    let name = toml_field(document, Some("service_identity"@), "name"@, Some(1usize));
    let version = toml_field(document, Some("service_identity"@), "version"@, Some(2usize));
    let url = toml_field(document, Some("service_connection"@), "public_base_url"@, Some(0usize));
    let any_origin = toml_field(document, Some("public_cors"@), "allow_any_origin"@, Some(0usize));
    let policy = toml_field(document, Some("deployment"@), "restart_policy"@, Some(0usize));
    ConfigParts {
        bind_addr: optional_text(bind_addr),
        instance_id: needed_text(instance_id),
        name: needed_text(name),
        version: optional_text(version),
        public_base_url: optional_section(url, needed_text(url)),
        allow_any_origin: optional_section(any_origin, optional_flag(any_origin)),
        restart_policy: optional_section(policy, optional_text(policy)),
    }
}

/// A document is a service configuration where every part of it is in order.
pub open spec fn is_service_config(document: Seq<char>) -> bool {
    let parts = parts_of(document);
    &&& parts.bind_addr is Some
    &&& parts.instance_id is Some
    &&& parts.name is Some
    &&& parts.version is Some
    &&& parts.public_base_url is Some
    &&& parts.allow_any_origin is Some
    &&& parts.restart_policy is Some
}

/// The configuration that a document holds.
pub open spec fn holds_config(document: Seq<char>, config: ActiveServiceConfig) -> bool {
    let parts = parts_of(document);
    &&& opt_view(config.bind_addr) == parts.bind_addr->0
    &&& config.service_identity.instance_id@ == parts.instance_id->0
    &&& config.service_identity.name@ == parts.name->0
    &&& opt_view(config.service_identity.version) == parts.version->0
    &&& (match config.service_connection {
        Some(connection) => Some(connection.public_base_url@),
        None => None,
    }) == parts.public_base_url->0
    &&& (match config.public_cors {
        Some(cors) => Some(cors.allow_any_origin),
        None => None,
    }) == parts.allow_any_origin->0
    &&& (match config.deployment {
        Some(deployment) => Some(opt_view(deployment.restart_policy)),
        None => None,
    }) == parts.restart_policy->0
}

/// `read` is the configuration that the pending file of `active` was written for: the new
/// name, and everything else as it was. What had no value is written with the one that stands
/// in for it, and a section that says nothing is left out.
pub open spec fn renames(
    read: ActiveServiceConfig,
    active: ActiveServiceConfig,
    service_name: Seq<char>,
    package_version: Seq<char>,
) -> bool {
    &&& opt_view(read.bind_addr) == Some(
        or_default(opt_view(active.bind_addr), "0.0.0.0:4310"@),
    )
    &&& read.service_identity.instance_id@ == active.service_identity.instance_id@
    &&& read.service_identity.name@ == service_name
    &&& opt_view(read.service_identity.version) == Some(
        or_default(opt_view(active.service_identity.version), package_version),
    )
    &&& match active.service_connection {
        Some(connection) => read.service_connection matches Some(c) && c.public_base_url@
            == normal_base_url(connection.public_base_url@),
        None => read.service_connection is None,
    }
    &&& match active.public_cors {
        Some(cors) => read.public_cors matches Some(c) && c.allow_any_origin == Some(
            cors.allow_any_origin == Some(true),
        ),
        None => read.public_cors is None,
    }
    &&& match restart_policy_of(active.deployment) {
        Some(policy) => restart_policy_of(read.deployment) == Some(policy),
        None => read.deployment is None,
    }
}

/// Reads a service configuration. A pending file that was just written, with plain texts in
/// it, is one, and every field of it reads back.
pub fn read_service_config(document: &str) -> (r: Option<ActiveServiceConfig>)
    ensures
        r is Some <==> is_service_config(document@),
        r matches Some(config) ==> holds_config(document@, config),
        forall|active: ActiveServiceConfig, service_name: Seq<char>, package_version: Seq<char>|
            document@ == #[trigger] pending_text(active, service_name, package_version)
                && writes_plain_texts(active, service_name, package_version) ==> (
            r matches Some(config) && renames(config, active, service_name, package_version)),
{
    proof {
        reveal_strlit("service_identity");
        reveal_strlit("service_connection");
        reveal_strlit("public_cors");
        reveal_strlit("deployment");
        reveal_strlit("instance_id");
        reveal_strlit("name");
        reveal_strlit("version");
        assert("service_identity"@.len() == 16 && "service_connection"@.len() == 18);
        assert("public_cors"@.len() == 11 && "deployment"@.len() == 10);
        assert("instance_id"@.len() == 11 && "name"@.len() == 4 && "version"@.len() == 7);
    }
    let bind_addr = match toml_field_at(document, None, "bind_addr", None) {
        TomlField::Text(text) => Some(text),
        TomlField::Absent => None,
        _ => return None,
    };
    let instance_id = match toml_field_at(
        document,
        Some("service_identity"),
        "instance_id",
        Some(0),
    ) {
        TomlField::Text(text) => text,
        _ => return None,
    };
    let name = match toml_field_at(document, Some("service_identity"), "name", Some(1)) {
        TomlField::Text(text) => text,
        _ => return None,
    };
    let version = match toml_field_at(document, Some("service_identity"), "version", Some(2)) {
        TomlField::Text(text) => Some(text),
        TomlField::Absent => None,
        _ => return None,
    };
    let connection = match toml_field_at(
        document,
        Some("service_connection"),
        "public_base_url",
        Some(0),
    ) {
        TomlField::Text(public_base_url) => Some(ActiveServiceConnectionConfig { public_base_url }),
        TomlField::NoSection => None,
        _ => return None,
    };
    let cors = match toml_field_at(document, Some("public_cors"), "allow_any_origin", Some(0)) {
        TomlField::Flag(flag) => Some(ActivePublicCorsConfig { allow_any_origin: Some(flag) }),
        TomlField::Absent => Some(ActivePublicCorsConfig { allow_any_origin: None }),
        TomlField::NoSection => None,
        _ => return None,
    };
    let deployment = match toml_field_at(document, Some("deployment"), "restart_policy", Some(0)) {
        TomlField::Text(policy) => Some(ActiveDeploymentConfig { restart_policy: Some(policy) }),
        TomlField::Absent => Some(ActiveDeploymentConfig { restart_policy: None }),
        TomlField::NoSection => None,
        _ => return None,
    };
    Some(
        ActiveServiceConfig {
            bind_addr,
            service_identity: ActiveServiceIdentityConfig { instance_id, name, version },
            service_connection: connection,
            public_cors: cors,
            deployment,
        },
    )
}

// ---------------------------------------------------------------------------
// The manager
// ---------------------------------------------------------------------------

/// `version` is what `hash` makes of the text.
pub open spec fn hashes_to<H: Fn(&str) -> String>(
    hash: H,
    text: Seq<char>,
    version: String,
) -> bool {
    exists|hashed: &str| #[trigger] hash.ensures((hashed,), version) && hashed@ == text
}

/// Tells about the configuration files below a directory.
#[derive(Debug)]
pub struct ConfigFileManager {
    pub config_dir: String,
}

impl ConfigFileManager {
    pub fn new(config_dir: &str) -> (r: Self)
        ensures
            r.config_dir@ == config_dir@,
    {
        ConfigFileManager { config_dir: config_dir.to_owned() }
    }

    /// The version of the active configuration: what `hash` makes of the two files, the
    /// service first, with a line break between them.
    pub fn active_config_version<H: Fn(&str) -> String>(
        &self,
        service: &Loaded,
        secrets: &Loaded,
        hash: H,
    ) -> (r: Result<String, ConfigFault>)
        requires
            forall|text: &str| #[trigger] hash.requires((text,)),
        ensures
            match (*service, *secrets) {
                (Loaded::Text(service), Loaded::Text(secrets)) => r matches Ok(version)
                    && hashes_to(hash, service@ + "\n"@ + secrets@, version),
                (Loaded::Text(_), _) => r == Err::<String, ConfigFault>(
                    ConfigFault::Unreadable(ConfigFile::ActiveSecrets),
                ),
                _ => r == Err::<String, ConfigFault>(
                    ConfigFault::Unreadable(ConfigFile::ActiveService),
                ),
            },
    {
        match service {
            Loaded::Text(service) => match secrets {
                Loaded::Text(secrets) => {
                    let joined = join3(service.as_str(), "\n", secrets.as_str());
                    let text: &str = joined.as_str();
                    let version = hash(text);
                    assert(hash.ensures((text,), version));
                    Ok(version)
                },
                _ => Err(ConfigFault::Unreadable(ConfigFile::ActiveSecrets)),
            },
            _ => Err(ConfigFault::Unreadable(ConfigFile::ActiveService)),
        }
    }

    /// The version of the pending configuration, if there is one: what `hash` makes of the
    /// file.
    pub fn pending_config_version<H: Fn(&str) -> String>(&self, pending: &Loaded, hash: H) -> (r:
        Result<Option<String>, ConfigFault>)
        requires
            forall|text: &str| #[trigger] hash.requires((text,)),
        ensures
            match *pending {
                Loaded::Absent => r == Ok::<Option<String>, ConfigFault>(None),
                Loaded::Unreadable => r == Err::<Option<String>, ConfigFault>(
                    ConfigFault::Unreadable(ConfigFile::PendingService),
                ),
                Loaded::Text(file) => r matches Ok(Some(version)) && hashes_to(
                    hash,
                    file@,
                    version,
                ),
            },
    {
        match pending {
            Loaded::Absent => Ok(None),
            Loaded::Unreadable => Err(ConfigFault::Unreadable(ConfigFile::PendingService)),
            Loaded::Text(file) => {
                let text: &str = file.as_str();
                let version = hash(text);
                assert(hash.ensures((text,), version));
                Ok(Some(version))
            },
        }
    }

    /// The state of the configuration, from the versions of what is in force and what is
    /// pending. A restart is required exactly where something is pending.
    pub fn state(
        &self,
        active_version: Result<String, ConfigFault>,
        pending_version: Result<Option<String>, ConfigFault>,
    ) -> (r: Result<ConfigStateResponse, ConfigFault>)
        ensures
            match (active_version, pending_version) {
                (Err(fault), _) => r == Err::<ConfigStateResponse, ConfigFault>(fault),
                (Ok(_), Err(fault)) => r == Err::<ConfigStateResponse, ConfigFault>(fault),
                (Ok(active), Ok(pending)) => {
                    &&& r matches Ok(state)
                    &&& state.active_config_version@ == active@
                    &&& opt_view(state.pending_config_version) == opt_view(pending)
                    &&& state.restart_required == (pending is Some)
                    &&& state.last_startup_status@ == "ok"@
                },
            },
    {
        match active_version {
            Err(fault) => Err(fault),
            Ok(active) => match pending_version {
                Err(fault) => Err(fault),
                Ok(pending) => {
                    let restart_required = pending.is_some();
                    Ok(
                        ConfigStateResponse {
                            active_config_version: active,
                            pending_config_version: pending,
                            restart_required,
                            last_startup_status: "ok".to_owned(),
                        },
                    )
                },
            },
        }
    }

    /// The pending file that gives the service another name. Everything else stays as it is
    /// in the active configuration; `package_version` stands in for a version that it does
    /// not give.
    pub fn write_pending_service_identity(
        &self,
        request: &PendingServiceIdentityRequest,
        active: &ActiveServiceConfig,
        package_version: &str,
    ) -> (r: String)
        ensures
            r@ == pending_text(*active, request.service_name@, package_version@),
    {
        let bind_addr = text_or(&active.bind_addr, "0.0.0.0:4310");
        let version = text_or(&active.service_identity.version, package_version);
        let mut out = "bind_addr = \"".to_owned();
        out.append(escape_toml_string(bind_addr.as_str()).as_str());
        out.append("\"\n\n[service_identity]\ninstance_id = \"");
        out.append(escape_toml_string(active.service_identity.instance_id.as_str()).as_str());
        out.append("\"\nname = \"");
        out.append(escape_toml_string(request.service_name.as_str()).as_str());
        out.append("\"\nversion = \"");
        out.append(escape_toml_string(version.as_str()).as_str());
        out.append("\"\n");
        let ghost identity = out@;
        match &active.service_connection {
            Some(connection) => {
                let url = normalize_public_base_url(connection.public_base_url.as_str());
                let line = join3(
                    "\n[service_connection]\npublic_base_url = \"",
                    escape_toml_string(url.as_str()).as_str(),
                    "\"\n",
                );
                out.append(line.as_str());
            },
            None => {},
        }
        assert(out@ =~= identity + connection_part(active.service_connection));
        let ghost connected = out@;
        match &active.public_cors {
            Some(cors) => {
                let any_origin = match cors.allow_any_origin {
                    Some(allowed) => allowed,
                    None => false,
                };
                let line = join3(
                    "\n[public_cors]\nallow_any_origin = ",
                    bool_str(any_origin),
                    "\n",
                );
                out.append(line.as_str());
            },
            None => {},
        }
        assert(out@ =~= connected + cors_part(active.public_cors));
        let ghost with_cors = out@;
        match &active.deployment {
            Some(deployment) => match &deployment.restart_policy {
                Some(policy) => {
                    let line = join3(
                        "\n[deployment]\nrestart_policy = \"",
                        escape_toml_string(policy.as_str()).as_str(),
                        "\"\n",
                    );
                    out.append(line.as_str());
                },
                None => {},
            },
            None => {},
        }
        assert(out@ =~= with_cors + deployment_part(restart_policy_of(active.deployment)));
        out
    }

    /// What is answered once a pending file is written: its version, and that a restart is
    /// required.
    pub fn pending_written(&self, version: String) -> (r: PendingConfigResponse)
        ensures
            r.pending_config_version@ == version@,
            r.restart_required,
    {
        PendingConfigResponse { pending_config_version: version, restart_required: true }
    }

    /// What a client needs in order to connect.
    pub fn service_connection_file(&self, active: &ActiveServiceConfig) -> (r: Result<
        ServiceConnectionFileResponse,
        ConfigFault,
    >)
        ensures
            match active.service_connection {
                None => r == Err::<ServiceConnectionFileResponse, ConfigFault>(
                    ConfigFault::NoConnection,
                ),
                Some(connection) => {
                    let base_url = normal_base_url(connection.public_base_url@);
                    &&& r matches Ok(file)
                    &&& file.service_name@ == active.service_identity.name@
                    &&& file.service_instance_id@ == active.service_identity.instance_id@
                    &&& file.api_version@ == "v1"@
                    &&& file.base_url@ == base_url
                    &&& file.service_info_url@ == base_url + "/api/v1/service-info"@
                    &&& file.capabilities@ == seq![ServiceCapability::PublicCatalogRead]
                },
            },
    {
        match &active.service_connection {
            None => Err(ConfigFault::NoConnection),
            Some(connection) => {
                let base_url = normalize_public_base_url(connection.public_base_url.as_str());
                let service_info_url = join2(base_url.as_str(), "/api/v1/service-info");
                let mut capabilities: Vec<ServiceCapability> = Vec::new();
                capabilities.push(ServiceCapability::PublicCatalogRead);
                Ok(
                    ServiceConnectionFileResponse {
                        service_name: active.service_identity.name.clone(),
                        service_instance_id: active.service_identity.instance_id.clone(),
                        api_version: "v1".to_owned(),
                        base_url,
                        service_info_url,
                        capabilities,
                    },
                )
            },
        }
    }

    /// What the files say about the deployment. Without an active configuration nothing is
    /// known.
    pub fn deployment_diagnostics(
        &self,
        active: Option<&ActiveServiceConfig>,
        secrets: Option<&str>,
    ) -> (r: ConfigDeploymentDiagnostics)
        ensures
            match active {
                None => {
                    &&& r.public_base_url is None
                    &&& r.public_base_url_status@ == "missing"@
                    &&& r.https_status@ == "unknown"@
                    &&& r.public_cors@ == "disabled"@
                    &&& r.restart_policy@ == "external_required"@
                    &&& r.steam@ == "unknown"@
                    &&& r.llm@ == "unknown"@
                    &&& r.r2@ == "unknown"@
                },
                Some(active) => {
                    let url = match active.service_connection {
                        Some(connection) => Some(normal_base_url(connection.public_base_url@)),
                        None => None,
                    };
                    let policy = restart_policy_of(active.deployment);
                    &&& opt_view(r.public_base_url) == url
                    &&& r.public_base_url_status@ == base_url_status(url)
                    &&& r.https_status@ == url_security(url)
                    &&& r.public_cors@ == (if active.public_cors is Some
                        && active.public_cors->0.allow_any_origin == Some(true) {
                        "allow_any_origin"@
                    } else {
                        "disabled"@
                    })
                    &&& r.restart_policy@ == (if policy is Some && trimmed(policy->0).len() > 0 {
                        policy->0
                    } else {
                        "external_required"@
                    })
                    &&& r.steam@ == said_status(
                        any_said(found_in(str_view(secrets), "steam"@, seq!["api_key"])),
                    )
                    &&& r.llm@ == said_status(
                        any_said(found_in(str_view(secrets), "llm"@, seq!["api_key"])),
                    )
                    &&& r.r2@ == said_status(
                        any_said(
                            found_in(
                                str_view(secrets),
                                "r2"@,
                                seq!["access_key_id", "secret_access_key", "bucket"],
                            ),
                        ),
                    )
                },
            },
    {
        let active = match active {
            None => return ConfigDeploymentDiagnostics::default(),
            Some(active) => active,
        };
        let public_base_url: Option<String> = match &active.service_connection {
            Some(connection) => Some(
                normalize_public_base_url(connection.public_base_url.as_str()),
            ),
            None => None,
        };
        let url: Option<&str> = match &public_base_url {
            Some(url) => Some(url.as_str()),
            None => None,
        };
        let public_base_url_status = public_base_url_status(url);
        let https_status = https_status(url);
        let any_origin = match &active.public_cors {
            Some(cors) => match cors.allow_any_origin {
                Some(allowed) => allowed,
                None => false,
            },
            None => false,
        };
        let restart_policy = match &active.deployment {
            Some(deployment) => match &deployment.restart_policy {
                Some(policy) => {
                    if is_blank(policy.as_str()) {
                        "external_required".to_owned()
                    } else {
                        policy.clone()
                    }
                },
                None => "external_required".to_owned(),
            },
            None => "external_required".to_owned(),
        };
        let key = ["api_key"];
        let bucket_keys = ["access_key_id", "secret_access_key", "bucket"];
        assert(key@ =~= seq!["api_key"]);
        assert(bucket_keys@ =~= seq!["access_key_id", "secret_access_key", "bucket"]);
        ConfigDeploymentDiagnostics {
            public_base_url_status,
            https_status,
            public_cors: if any_origin {
                "allow_any_origin".to_owned()
            } else {
                "disabled".to_owned()
            },
            restart_policy,
            steam: provider_status(secrets, "steam", key.as_slice()),
            llm: provider_status(secrets, "llm", key.as_slice()),
            r2: provider_status(secrets, "r2", bucket_keys.as_slice()),
            public_base_url,
        }
    }

    /// Whether there is a pending configuration that can be taken. One that was just written,
    /// with plain texts in it, can.
    pub fn validate_pending_service_config(&self, pending: &Loaded) -> (r: Result<
        bool,
        ConfigFault,
    >)
        ensures
            r == (match *pending {
                Loaded::Absent => Ok::<bool, ConfigFault>(false),
                Loaded::Unreadable => Err(ConfigFault::Unreadable(ConfigFile::PendingService)),
                Loaded::Text(text) => if is_service_config(text@) {
                    Ok(true)
                } else {
                    Err(ConfigFault::Invalid(ConfigFile::PendingService))
                },
            }),
            pending matches Loaded::Text(text) ==> forall|
                active: ActiveServiceConfig,
                service_name: Seq<char>,
                package_version: Seq<char>,
            |
                text@ == #[trigger] pending_text(active, service_name, package_version)
                    && writes_plain_texts(active, service_name, package_version) ==> r == Ok::<
                    bool,
                    ConfigFault,
                >(true),
    {
        match pending {
            Loaded::Absent => Ok(false),
            Loaded::Unreadable => Err(ConfigFault::Unreadable(ConfigFile::PendingService)),
            Loaded::Text(text) => match read_service_config(text.as_str()) {
                Some(_) => Ok(true),
                None => Err(ConfigFault::Invalid(ConfigFile::PendingService)),
            },
        }
    }
}

} // verus!
