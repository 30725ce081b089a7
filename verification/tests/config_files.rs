use mpgs::server::config_files::{
    config_file_parts, escape_toml_string, https_status, normalize_public_base_url,
    provider_status, provider_status_of, public_base_url_status, read_service_config,
    ActiveDeploymentConfig, ActivePublicCorsConfig, ActiveServiceConfig,
    ActiveServiceConnectionConfig, ActiveServiceIdentityConfig, ConfigFault, ConfigFile,
    ConfigFileManager, Loaded, PendingServiceIdentityRequest, ServiceCapability,
};

fn config() -> ActiveServiceConfig {
    ActiveServiceConfig {
        bind_addr: None,
        service_identity: ActiveServiceIdentityConfig {
            instance_id: "id-1".to_owned(),
            name: "Old".to_owned(),
            version: None,
        },
        service_connection: None,
        public_cors: None,
        deployment: None,
    }
}

fn full_config() -> ActiveServiceConfig {
    ActiveServiceConfig {
        bind_addr: Some("127.0.0.1:1".to_owned()),
        service_connection: Some(ActiveServiceConnectionConfig {
            public_base_url: " https://games.test// ".to_owned(),
        }),
        public_cors: Some(ActivePublicCorsConfig { allow_any_origin: Some(true) }),
        deployment: Some(ActiveDeploymentConfig { restart_policy: Some("always".to_owned()) }),
        ..config()
    }
}

fn manager() -> ConfigFileManager {
    ConfigFileManager::new("/etc/games")
}

fn named(name: &str) -> PendingServiceIdentityRequest {
    PendingServiceIdentityRequest { service_name: name.to_owned() }
}

#[test]
fn a_new_name_is_all_that_changes() {
    let text = manager().write_pending_service_identity(&named("New"), &config(), "0.1.0");
    assert_eq!(
        text,
        "bind_addr = \"0.0.0.0:4310\"\n\n[service_identity]\ninstance_id = \"id-1\"\nname = \"New\"\nversion = \"0.1.0\"\n"
    );
    let text = manager().write_pending_service_identity(&named("New"), &full_config(), "0.1.0");
    let value: toml::Value = toml::from_str(&text).unwrap();
    assert_eq!(value["bind_addr"].as_str(), Some("127.0.0.1:1"));
    assert_eq!(value["service_identity"]["name"].as_str(), Some("New"));
    assert_eq!(
        value["service_connection"]["public_base_url"].as_str(),
        Some("https://games.test")
    );
    assert_eq!(value["public_cors"]["allow_any_origin"].as_bool(), Some(true));
    assert_eq!(value["deployment"]["restart_policy"].as_str(), Some("always"));
    let response = manager().pending_written("hash".to_owned());
    assert!(response.restart_required);
    assert_eq!(response.pending_config_version, "hash");
}

#[test]
fn a_name_reads_back_whatever_it_holds() {
    for name in ["plain", "with \"quotes\"", "back\\slash\\", "\\\"", "x\"\nname = \\"] {
        let escaped = escape_toml_string(name);
        if !name.contains('\n') {
            let text =
                manager().write_pending_service_identity(&named(name), &config(), "0.1.0");
            let value: toml::Value = toml::from_str(&text).unwrap();
            assert_eq!(value["service_identity"]["name"].as_str(), Some(name));
        }
        assert!(!escaped.replace("\\\\", "").replace("\\\"", "").contains('"'));
    }
    assert_eq!(escape_toml_string("a\\\"b"), "a\\\\\\\"b");
}

#[test]
fn every_text_reads_back_whatever_it_holds() {
    let odd = || "\\ \"x\" = [y]".to_owned();
    let active = ActiveServiceConfig {
        bind_addr: Some(odd()),
        service_identity: ActiveServiceIdentityConfig {
            instance_id: odd(),
            name: "Old".to_owned(),
            version: Some(odd()),
        },
        service_connection: Some(ActiveServiceConnectionConfig { public_base_url: odd() }),
        deployment: Some(ActiveDeploymentConfig { restart_policy: Some(odd()) }),
        ..full_config()
    };
    let text = manager().write_pending_service_identity(&named(&odd()), &active, "0.1.0");
    let value: toml::Value = toml::from_str(&text).unwrap();
    let odd = odd();
    assert_eq!(value["bind_addr"].as_str(), Some(odd.as_str()));
    for key in ["instance_id", "name", "version"] {
        assert_eq!(value["service_identity"][key].as_str(), Some(odd.as_str()));
    }
    assert_eq!(value["service_connection"]["public_base_url"].as_str(), Some(odd.as_str()));
    assert_eq!(value["deployment"]["restart_policy"].as_str(), Some(odd.as_str()));
    // A line break is written as it is, and then the file is no TOML.
    let text = manager().write_pending_service_identity(&named("a\nb"), &active, "0.1.0");
    assert!(toml::from_str::<toml::Value>(&text).is_err());
}

#[test]
fn a_state_tells_what_is_pending() {
    let text = |text: &str| Loaded::Text(text.to_owned());
    let hash = |text: &str| format!("<{text}>");
    let active = manager().active_config_version(&text("a"), &text("b"), hash);
    assert_eq!(active, Ok("<a\nb>".to_owned()));
    let pending = manager().pending_config_version(&text("p"), hash);
    assert_eq!(pending, Ok(Some("<p>".to_owned())));
    let state = manager().state(active, pending).unwrap();
    assert!(state.restart_required);
    assert_eq!(state.pending_config_version.as_deref(), Some("<p>"));
    assert_eq!(state.last_startup_status, "ok");
    let quiet = manager()
        .state(Ok("v".to_owned()), manager().pending_config_version(&Loaded::Absent, hash))
        .unwrap();
    assert!(!quiet.restart_required);
}

#[test]
fn a_file_that_cannot_be_read_is_named() {
    let text = || Loaded::Text("x".to_owned());
    let hash = |text: &str| text.to_owned();
    assert_eq!(
        manager().active_config_version(&Loaded::Absent, &text(), hash),
        Err(ConfigFault::Unreadable(ConfigFile::ActiveService))
    );
    assert_eq!(
        manager().active_config_version(&text(), &Loaded::Unreadable, hash),
        Err(ConfigFault::Unreadable(ConfigFile::ActiveSecrets))
    );
    assert_eq!(
        manager().pending_config_version(&Loaded::Unreadable, hash),
        Err(ConfigFault::Unreadable(ConfigFile::PendingService))
    );
    assert_eq!(config_file_parts(ConfigFile::PendingService), ("pending", "service.toml"));
    assert_eq!(config_file_parts(ConfigFile::ActiveSecrets), ("active", "secrets.toml"));
}

#[test]
fn a_pending_configuration_is_validated() {
    let check = |pending: Loaded| manager().validate_pending_service_config(&pending);
    let text = |text: &str| Loaded::Text(text.to_owned());
    assert_eq!(check(Loaded::Absent), Ok(false));
    assert_eq!(
        check(Loaded::Unreadable),
        Err(ConfigFault::Unreadable(ConfigFile::PendingService))
    );
    for active in [config(), full_config()] {
        let written = manager().write_pending_service_identity(&named("N\t\"x\""), &active, "1");
        assert_eq!(check(Loaded::Text(written)), Ok(true));
    }
    for wrong in [
        "bind_addr = ",
        "",
        "service_identity = 1",
        "[service_identity]\nname = \"n\"\n",
        "[service_identity]\ninstance_id = \"i\"\nname = 2\n",
        "bind_addr = 5\n[service_identity]\ninstance_id = \"i\"\nname = \"n\"\n",
        "[service_identity]\ninstance_id = \"i\"\nname = \"n\"\n[service_connection]\n",
        "[service_identity]\ninstance_id = \"i\"\nname = \"n\"\n[public_cors]\nallow_any_origin = 1",
    ] {
        assert_eq!(
            check(text(wrong)),
            Err(ConfigFault::Invalid(ConfigFile::PendingService)),
            "{wrong}"
        );
    }
}

#[test]
fn a_written_configuration_reads_back() {
    let text = manager().write_pending_service_identity(&named("New"), &full_config(), "0.1.0");
    let read = read_service_config(&text).unwrap();
    assert_eq!(read.bind_addr.as_deref(), Some("127.0.0.1:1"));
    assert_eq!(read.service_identity.instance_id, "id-1");
    assert_eq!(read.service_identity.name, "New");
    assert_eq!(read.service_identity.version.as_deref(), Some("0.1.0"));
    assert_eq!(read.service_connection.unwrap().public_base_url, "https://games.test");
    assert_eq!(read.public_cors.unwrap().allow_any_origin, Some(true));
    assert_eq!(read.deployment.unwrap().restart_policy.as_deref(), Some("always"));

    let least = "extra = 1\n[service_identity]\ninstance_id = 'i'\nname = 'n'\n[public_cors]\n";
    let read = read_service_config(least).unwrap();
    assert_eq!(read.bind_addr, None);
    assert_eq!(read.service_identity.version, None);
    assert!(read.service_connection.is_none() && read.deployment.is_none());
    assert_eq!(read.public_cors.unwrap().allow_any_origin, None);
    // A section may be a list of all its fields.
    let listed = read_service_config("service_identity = ['i', 'n', 'v']").unwrap();
    assert_eq!(listed.service_identity.name, "n");
    assert!(read_service_config("service_identity = ['i', 'n']").is_none());
    // A date in place of a section is a section that says nothing.
    let identity = "\n[service_identity]\ninstance_id = 'i'\nname = 'n'\n";
    let dated = format!("public_cors = 1979-05-27\ndeployment = 07:32:00{identity}");
    let read = read_service_config(&dated).unwrap();
    assert_eq!(read.public_cors.unwrap().allow_any_origin, None);
    assert_eq!(read.deployment.unwrap().restart_policy, None);
    assert!(read_service_config(&format!("service_connection = 1979-05-27{identity}")).is_none());
    assert!(read_service_config("service_identity = 1979-05-27").is_none());
    assert!(read_service_config(&format!("bind_addr = 1979-05-27{identity}")).is_none());
    assert!(read_service_config(&format!("deployment = 1.5{identity}")).is_none());
}

#[test]
fn clients_are_told_where_to_connect() {
    let file = manager().service_connection_file(&full_config()).unwrap();
    assert_eq!(file.base_url, "https://games.test");
    assert_eq!(file.service_info_url, "https://games.test/api/v1/service-info");
    assert_eq!(file.service_name, "Old");
    assert_eq!(file.capabilities, vec![ServiceCapability::PublicCatalogRead]);
    assert_eq!(
        manager().service_connection_file(&config()).unwrap_err(),
        ConfigFault::NoConnection
    );
}

#[test]
fn the_deployment_is_described() {
    let secrets = "[steam]\napi_key = \"k\"\n[llm]\napi_key = \" \"\n[r2]\nbucket = \"b\"\n";
    let found = manager().deployment_diagnostics(Some(&full_config()), Some(secrets));
    assert_eq!(found.public_base_url.as_deref(), Some("https://games.test"));
    assert_eq!(found.public_base_url_status, "configured");
    assert_eq!(found.https_status, "ok");
    assert_eq!(found.public_cors, "allow_any_origin");
    assert_eq!(found.restart_policy, "always");
    assert_eq!(found.steam, "configured");
    assert_eq!(found.llm, "missing");
    assert_eq!(found.r2, "configured");

    let bare = manager().deployment_diagnostics(Some(&config()), Some("not toml ["));
    assert_eq!(bare.public_base_url, None);
    assert_eq!(bare.https_status, "unknown");
    assert_eq!(bare.restart_policy, "external_required");
    assert_eq!(bare.steam, "missing");

    let nothing = manager().deployment_diagnostics(None, Some(secrets));
    assert_eq!(nothing.public_base_url_status, "missing");
    assert_eq!(nothing.steam, "unknown");
}

#[test]
fn addresses_are_judged_by_how_clients_take_them() {
    assert_eq!(https_status(None), "unknown");
    assert_eq!(https_status(Some(" HTTPS://a.test")), "ok");
    assert_eq!(https_status(Some("http://localhost:1")), "local_http_allowed");
    assert_eq!(https_status(Some("http://127.0.0.1")), "local_http_allowed");
    assert_eq!(https_status(Some("http://[::1]:2")), "local_http_allowed");
    assert_eq!(https_status(Some("http://a.test")), "public_http_rejected_by_clients");
    assert_eq!(https_status(Some("ftp://a.test")), "invalid_url");
    assert_eq!(public_base_url_status(Some("  ")), "missing");
    assert_eq!(normalize_public_base_url(" https://a.test/x// "), "https://a.test/x");
}

#[test]
fn a_provider_is_configured_by_one_text_that_says_something() {
    assert_eq!(provider_status(None, "steam", &["api_key"]), "missing");
    assert_eq!(provider_status(Some("steam = 1"), "steam", &["api_key"]), "missing");
    assert_eq!(provider_status(Some("[steam]\napi_key = 7"), "steam", &["api_key"]), "missing");
    assert_eq!(provider_status(Some("[r2]\nb = \"x\""), "r2", &["a", "b"]), "configured");
    assert_eq!(provider_status_of(&vec![None, Some(" ".to_owned())]), "missing");
    assert_eq!(provider_status_of(&vec![None, Some("x".to_owned())]), "configured");
}
