use missive::cli::config_gen::{generate_config_toml, starter_config_params, ConfigParams, SessionStorageKind};
use missive::cli::error::CliError;
use missive::cli::exit_code::ExitCode;
use missive::cli::sanity::{
    check_config, check_required_mailboxes, connected_result, connection_failed_result,
    jmap_result_lines, report_lines, sanity_outcome, CheckStatus, ServiceConfig,
};
use missive::cli::setup::{
    continue_or_cancel, jmap_checks_failed, parse_page_size, parse_port, session_storage_choice,
    setup_url_error, validate_jmap_url_input, validate_page_size_input, validate_port_input,
};
use missive::error::{JmapErrorKind, MissiveError};
use missive::ids::{IdentityId, MailboxId};
use missive::jmap::{connect_error, IdentityInfo, JmapUrl, MailboxInfo};
use missive::cli::sanity::{apply_config_file, config_file_values, ConfigFileValues};

// --- exit codes ---

#[test]
fn success_code_is_zero() {
    assert_eq!(ExitCode::SUCCESS.code(), 0);
}

#[test]
fn config_error_code_is_one() {
    assert_eq!(ExitCode::CONFIG_ERROR.code(), 1);
}

#[test]
fn setup_cancelled_code_is_two() {
    assert_eq!(ExitCode::SETUP_CANCELLED.code(), 2);
}

#[test]
fn io_error_code_is_three() {
    assert_eq!(ExitCode::IO_ERROR.code(), 3);
}

#[test]
fn serve_failed_code_is_four() {
    assert_eq!(ExitCode::SERVE_FAILED.code(), 4);
}

#[test]
fn display_shows_numeric_value() {
    assert_eq!(ExitCode::SUCCESS.to_string(), "0");
    assert_eq!(ExitCode::CONFIG_ERROR.to_string(), "1");
    assert_eq!(ExitCode::SERVE_FAILED.to_string(), "4");
}

#[test]
fn clone_produces_equal_value() {
    let original = ExitCode::CONFIG_ERROR;
    let cloned = original;
    assert_eq!(original, cloned);
}

#[test]
fn all_constants_are_distinct() {
    let codes = [
        ExitCode::SUCCESS,
        ExitCode::CONFIG_ERROR,
        ExitCode::SETUP_CANCELLED,
        ExitCode::IO_ERROR,
        ExitCode::SERVE_FAILED,
    ];
    for (i, a) in codes.iter().enumerate() {
        for (j, b) in codes.iter().enumerate() {
            if i != j {
                assert_ne!(a, b, "ExitCode constants at index {i} and {j} must differ");
                assert_ne!(a.code(), b.code());
            }
        }
    }
}

// --- CLI errors ---

#[test]
fn display_config_read() {
    let err = CliError::ConfigRead {
        path: "/etc/missive/config.toml".to_string(),
        message: "file not found".to_string(),
    };
    assert_eq!(err.to_string(), "failed to read config at '/etc/missive/config.toml': file not found");
}

#[test]
fn display_config_invalid() {
    let err = CliError::ConfigInvalid { message: "jmap_url is empty".to_string() };
    assert_eq!(err.to_string(), "invalid configuration: jmap_url is empty");
}

#[test]
fn display_io_error() {
    let err = CliError::Io { operation: "write config file".to_string(), message: "permission denied".to_string() };
    assert_eq!(err.to_string(), "I/O error during write config file: permission denied");
}

#[test]
fn display_setup_cancelled() {
    let err = CliError::SetupCancelled;
    assert_eq!(err.to_string(), "setup cancelled by user");
}

#[test]
fn display_serve_failed() {
    let err = CliError::ServeFailed { message: "port 8080 already in use".to_string() };
    assert_eq!(err.to_string(), "server failed to start: port 8080 already in use");
}

#[test]
fn exit_code_config_read() {
    let err = CliError::ConfigRead { path: "config.toml".to_string(), message: "parse error".to_string() };
    assert_eq!(err.exit_code(), ExitCode::CONFIG_ERROR);
}

#[test]
fn exit_code_config_invalid() {
    let err = CliError::ConfigInvalid { message: "bad url".to_string() };
    assert_eq!(err.exit_code(), ExitCode::CONFIG_ERROR);
}

#[test]
fn exit_code_io() {
    let err = CliError::Io { operation: "create dir".to_string(), message: "denied".to_string() };
    assert_eq!(err.exit_code(), ExitCode::IO_ERROR);
}

#[test]
fn exit_code_setup_cancelled() {
    let err = CliError::SetupCancelled;
    assert_eq!(err.exit_code(), ExitCode::SETUP_CANCELLED);
}

#[test]
fn exit_code_serve_failed() {
    let err = CliError::ServeFailed { message: "bind error".to_string() };
    assert_eq!(err.exit_code(), ExitCode::SERVE_FAILED);
}

#[test]
fn debug_output_is_non_empty() {
    let err = CliError::SetupCancelled;
    let debug = format!("{err:?}");
    assert!(!debug.is_empty());
}

#[test]
fn no_error_exits_with_success() {
    let errors = vec![
        CliError::ConfigRead { path: "x".to_string(), message: "y".to_string() },
        CliError::ConfigInvalid { message: "z".to_string() },
        CliError::Io { operation: "a".to_string(), message: "b".to_string() },
        CliError::SetupCancelled,
        CliError::ServeFailed { message: "c".to_string() },
    ];
    for e in &errors {
        assert_ne!(e.exit_code(), ExitCode::SUCCESS);
    }
}

// --- config generation ---

fn memory_params() -> ConfigParams {
    ConfigParams {
        jmap_url: "https://mail.example.com".to_string(),
        service_port: 8080,
        page_size: 50,
        session_storage: SessionStorageKind::Memory,
        redis_url: None,
    }
}

fn redis_params() -> ConfigParams {
    ConfigParams {
        jmap_url: "https://jmap.fastmail.com".to_string(),
        service_port: 9090,
        page_size: 25,
        session_storage: SessionStorageKind::Redis,
        redis_url: Some("redis://localhost:6379".to_string()),
    }
}

#[test]
fn memory_config_contains_jmap_url() {
    let toml = generate_config_toml(&memory_params());
    assert!(toml.contains("jmap_url = \"https://mail.example.com\""));
}

#[test]
fn memory_config_contains_service_section() {
    let toml = generate_config_toml(&memory_params());
    assert!(toml.contains("[service]"));
    assert!(toml.contains("name = \"missive\""));
    assert!(toml.contains("port = 8080"));
}

#[test]
fn memory_config_contains_page_size() {
    let toml = generate_config_toml(&memory_params());
    assert!(toml.contains("page_size = 50"));
}

#[test]
fn memory_config_omits_session_section() {
    let toml = generate_config_toml(&memory_params());
    assert!(!toml.contains("[session]"));
    assert!(!toml.contains("redis_url"));
}

#[test]
fn redis_config_includes_session_section() {
    let toml = generate_config_toml(&redis_params());
    assert!(toml.contains("[session]"));
    assert!(toml.contains("storage = \"redis\""));
    assert!(toml.contains("redis_url = \"redis://localhost:6379\""));
}

#[test]
fn redis_config_contains_custom_port() {
    let toml = generate_config_toml(&redis_params());
    assert!(toml.contains("port = 9090"));
}

#[test]
fn redis_config_contains_custom_page_size() {
    let toml = generate_config_toml(&redis_params());
    assert!(toml.contains("page_size = 25"));
}

#[test]
fn generated_toml_parses_as_valid_toml() {
    let toml_str = generate_config_toml(&memory_params());
    let parsed: Result<toml::Table, _> = toml_str.parse();
    assert!(parsed.is_ok(), "Generated TOML should be valid");
}

#[test]
fn generated_redis_toml_parses_as_valid_toml() {
    let toml_str = generate_config_toml(&redis_params());
    let parsed: Result<toml::Table, _> = toml_str.parse();
    assert!(parsed.is_ok(), "Generated Redis TOML should be valid");
}

#[test]
fn round_trip_memory_config_values() {
    let toml_str = generate_config_toml(&memory_params());
    let table: toml::Table = toml_str.parse().unwrap();
    assert_eq!(table.get("jmap_url").and_then(|v| v.as_str()), Some("https://mail.example.com"));
    assert_eq!(table.get("page_size").and_then(|v| v.as_integer()), Some(50));
    let service = table.get("service").and_then(|v| v.as_table()).unwrap();
    assert_eq!(service.get("name").and_then(|v| v.as_str()), Some("missive"));
    assert_eq!(service.get("port").and_then(|v| v.as_integer()), Some(8080));
}

#[test]
fn round_trip_redis_config_values() {
    let toml_str = generate_config_toml(&redis_params());
    let table: toml::Table = toml_str.parse().unwrap();
    let session = table.get("session").and_then(|v| v.as_table()).unwrap();
    assert_eq!(session.get("storage").and_then(|v| v.as_str()), Some("redis"));
    assert_eq!(session.get("redis_url").and_then(|v| v.as_str()), Some("redis://localhost:6379"));
}

#[test]
fn session_storage_kind_display() {
    assert_eq!(SessionStorageKind::Memory.to_string(), "memory");
    assert_eq!(SessionStorageKind::Redis.to_string(), "redis");
}

#[test]
fn redis_without_url_omits_redis_url_line() {
    let params = ConfigParams {
        jmap_url: "https://mail.example.com".to_string(),
        service_port: 8080,
        page_size: 50,
        session_storage: SessionStorageKind::Redis,
        redis_url: None,
    };
    let toml = generate_config_toml(&params);
    assert!(toml.contains("[session]"));
    assert!(toml.contains("storage = \"redis\""));
    assert!(!toml.contains("redis_url"));
}

#[test]
fn starter_config_is_exact() {
    assert_eq!(
        generate_config_toml(&starter_config_params()),
        "jmap_url = \"https://mail.example.com\"\npage_size = 50\n\n[service]\nname = \"missive\"\nport = 8080\n"
    );
}

// --- sanity checks of the configuration ---

fn test_config(jmap_url: &str, port: u16, page_size: usize) -> ServiceConfig {
    ServiceConfig::new(JmapUrl::from(jmap_url), port, page_size)
}

#[test]
fn valid_config_passes_all_checks() {
    let report = check_config(&test_config("https://mail.example.com", 8080, 50));
    assert!(report.all_passed(), "Expected all checks to pass, but {} failed", report.failure_count());
}

#[test]
fn empty_jmap_url_fails() {
    let report = check_config(&test_config("", 8080, 50));
    let jmap_check = report.checks.iter().find(|c| c.name == "jmap_url").unwrap();
    assert!(!jmap_check.passed);
    assert!(jmap_check.message.contains("empty"));
}

#[test]
fn invalid_jmap_url_fails() {
    let report = check_config(&test_config("not-a-url", 8080, 50));
    let jmap_check = report.checks.iter().find(|c| c.name == "jmap_url").unwrap();
    assert!(!jmap_check.passed);
    assert!(jmap_check.message.contains("invalid"));
}

#[test]
fn port_zero_fails() {
    let report = check_config(&test_config("https://mail.example.com", 0, 50));
    let port_check = report.checks.iter().find(|c| c.name == "service_port").unwrap();
    assert!(!port_check.passed);
}

#[test]
fn valid_port_passes() {
    let report = check_config(&test_config("https://mail.example.com", 443, 50));
    let port_check = report.checks.iter().find(|c| c.name == "service_port").unwrap();
    assert!(port_check.passed);
}

#[test]
fn page_size_zero_fails() {
    let report = check_config(&test_config("https://mail.example.com", 8080, 0));
    let check = report.checks.iter().find(|c| c.name == "page_size").unwrap();
    assert!(!check.passed);
    assert!(check.message.contains("at least 1"));
}

#[test]
fn page_size_above_1000_fails() {
    let report = check_config(&test_config("https://mail.example.com", 8080, 1001));
    let check = report.checks.iter().find(|c| c.name == "page_size").unwrap();
    assert!(!check.passed);
    assert!(check.message.contains("1001"));
}

#[test]
fn page_size_1000_passes() {
    let report = check_config(&test_config("https://mail.example.com", 8080, 1000));
    let check = report.checks.iter().find(|c| c.name == "page_size").unwrap();
    assert!(check.passed);
}

#[test]
fn memory_session_passes() {
    let report = check_config(&test_config("https://mail.example.com", 8080, 50));
    let check = report.checks.iter().find(|c| c.name == "session").unwrap();
    assert!(check.passed);
    assert!(check.message.contains("in-memory"));
}

#[test]
fn redis_session_needs_url() {
    let mut config = test_config("https://mail.example.com", 8080, 50);
    config.session_storage = SessionStorageKind::Redis;
    let report = check_config(&config);
    assert!(!report.checks[3].passed);
    config.redis_url = Some("redis://localhost".to_string());
    let report = check_config(&config);
    assert!(report.checks[3].passed);
    assert_eq!(report.checks[3].message, "using Redis session storage");
}

#[test]
fn report_failure_count() {
    let report = check_config(&test_config("", 0, 0));
    assert!(report.failure_count() >= 3);
    assert!(!report.all_passed());
}

#[test]
fn report_all_passed_with_valid_config() {
    let report = check_config(&test_config("https://mail.example.com", 8080, 50));
    assert!(report.all_passed());
    assert_eq!(report.failure_count(), 0);
}

#[test]
fn sanity_outcome_counts_failures() {
    let report = check_config(&test_config("", 0, 0));
    match sanity_outcome(&report) {
        Err(CliError::ConfigInvalid { message }) => assert_eq!(message, "3 check(s) failed"),
        other => panic!("expected an invalid configuration, got {other:?}"),
    }
    assert!(sanity_outcome(&check_config(&test_config("https://a.example", 1, 1))).is_ok());
}

#[test]
fn report_lines_end_with_verdict() {
    let report = check_config(&test_config("https://mail.example.com", 8080, 50));
    let lines = report_lines(&report);
    assert_eq!(lines.len(), 6);
    assert_eq!(lines[0], "[PASS] jmap_url: JMAP URL is valid: https://mail.example.com");
    assert_eq!(lines[4], "");
    assert_eq!(lines[5], "All 4 checks passed. Configuration is valid.");
    let failing = report_lines(&check_config(&test_config("https://mail.example.com", 0, 50)));
    assert_eq!(failing[1], "[FAIL] service_port: service port is 0; this will cause the OS to assign a random port");
    assert_eq!(failing[5], "1 of 4 checks failed.");
}

// --- required mailboxes ---

fn make_mailbox(role: &str) -> MailboxInfo {
    MailboxInfo { id: MailboxId::from("test-id"), name: role.to_string(), role: role.to_string(), unread_count: 0 }
}

#[test]
fn all_required_mailboxes_present() {
    let mailboxes = vec![
        make_mailbox("inbox"),
        make_mailbox("drafts"),
        make_mailbox("sent"),
        make_mailbox("trash"),
        make_mailbox("archive"),
    ];
    let checks = check_required_mailboxes(&mailboxes);
    assert_eq!(checks.len(), 4);
    assert!(checks.iter().all(|c| c.status.passed()));
}

#[test]
fn missing_mailbox_roles_detected() {
    let mailboxes = vec![make_mailbox("inbox"), make_mailbox("sent")];
    let checks = check_required_mailboxes(&mailboxes);
    let drafts = checks.iter().find(|c| c.role == "drafts").unwrap();
    assert!(!drafts.status.passed());
    let trash = checks.iter().find(|c| c.role == "trash").unwrap();
    assert!(!trash.status.passed());
    let inbox = checks.iter().find(|c| c.role == "inbox").unwrap();
    assert!(inbox.status.passed());
}

#[test]
fn empty_mailbox_list_fails_all() {
    let checks = check_required_mailboxes(&[]);
    assert_eq!(checks.len(), 4);
    assert!(checks.iter().all(|c| !c.status.passed()));
}

#[test]
fn mailbox_role_matching_is_case_insensitive() {
    let mailboxes = vec![make_mailbox("INBOX"), make_mailbox("Drafts"), make_mailbox("Sent"), make_mailbox("TRASH")];
    let checks = check_required_mailboxes(&mailboxes);
    assert!(checks.iter().all(|c| c.status.passed()));
}

#[test]
fn check_status_passed_helper() {
    assert!(CheckStatus::Passed.passed());
    assert!(!CheckStatus::Failed { message: "test".to_string() }.passed());
}

#[test]
fn missing_role_message_names_it() {
    let checks = check_required_mailboxes(&[make_mailbox("inbox")]);
    assert_eq!(
        checks[1].status,
        CheckStatus::Failed { message: "no mailbox with role 'drafts' found on server".to_string() }
    );
}

// --- account checks ---

#[test]
fn failed_connection_skips_the_rest() {
    let err = MissiveError::AuthFailed;
    let result = connection_failed_result(&err);
    assert_eq!(result.connection, CheckStatus::Failed { message: "Authentication failed: invalid credentials".to_string() });
    assert_eq!(result.required_mailboxes.len(), 4);
    assert!(jmap_checks_failed(&result));
    let lines = jmap_result_lines(&result);
    assert_eq!(lines[0], "  [FAIL] Connection: Authentication failed: invalid credentials");
    assert_eq!(lines[2], "  [FAIL] Mailbox role 'inbox': skipped (connection failed)");
    assert_eq!(lines.len(), 7);
}

#[test]
fn connected_account_with_everything_passes() {
    let mailboxes = Ok(vec![make_mailbox("inbox"), make_mailbox("drafts"), make_mailbox("sent"), make_mailbox("trash")]);
    let identities = Ok(vec![IdentityInfo {
        id: IdentityId::from("i1"),
        name: "Me".to_string(),
        email: "me@example.com".to_string(),
    }]);
    let result = connected_result(&mailboxes, &identities);
    assert!(!jmap_checks_failed(&result));
    assert_eq!(result.identity_count, 1);
    let lines = jmap_result_lines(&result);
    assert_eq!(lines.last().unwrap(), "  Found 1 sending identity(ies)");
}

#[test]
fn connected_account_without_identities_fails() {
    let mailboxes = Err(MissiveError::Jmap(JmapErrorKind::Unknown { message: "boom".to_string() }));
    let result = connected_result(&mailboxes, &Ok(Vec::new()));
    assert_eq!(result.mailbox_fetch, CheckStatus::Failed { message: "JMAP error: boom".to_string() });
    assert_eq!(
        result.identity_fetch,
        CheckStatus::Failed { message: "no sending identities found on server".to_string() }
    );
    assert!(jmap_checks_failed(&result));
}

// --- setup prompts ---

#[test]
fn setup_validates_answers() {
    assert!(validate_jmap_url_input("https://mail.example.com").is_ok());
    assert_eq!(
        validate_jmap_url_input("mail.example.com").unwrap_err(),
        "invalid JMAP URL: URL must include a scheme (e.g., https://)"
    );
    assert!(validate_port_input("8080").is_ok());
    assert_eq!(validate_port_input("70000").unwrap_err(), "enter a valid port number (1-65535)");
    assert_eq!(parse_port("443").unwrap(), 443);
    assert!(validate_page_size_input("50").is_ok());
    assert_eq!(validate_page_size_input("0").unwrap_err(), "enter a value between 1 and 1000");
    assert_eq!(validate_page_size_input("abc").unwrap_err(), "enter a valid number");
    assert_eq!(parse_page_size("+25").unwrap(), 25);
    match parse_page_size("x") {
        Err(CliError::ConfigInvalid { message }) => assert_eq!(message, "invalid page size: x"),
        other => panic!("unexpected {other:?}"),
    }
    assert_eq!(session_storage_choice(0), SessionStorageKind::Memory);
    assert_eq!(session_storage_choice(1), SessionStorageKind::Redis);
    assert!(continue_or_cancel(true).is_ok());
    assert!(matches!(continue_or_cancel(false), Err(CliError::SetupCancelled)));
    match setup_url_error("nope") {
        Err(CliError::ConfigInvalid { message }) => {
            assert_eq!(message, "JMAP URL: invalid JMAP URL: URL must include a scheme (e.g., https://)")
        }
        other => panic!("unexpected {other:?}"),
    }
}

// --- configuration file values ---

#[test]
fn config_file_values_override_the_defaults() {
    let base = ServiceConfig::new(JmapUrl::default(), 8080, 50);
    let values = ConfigFileValues {
        jmap_url: Some("https://mail.example.com".to_string()),
        page_size: Some(25),
        service_port: Some(3000),
        session_storage: Some(SessionStorageKind::Redis),
        redis_url: Some("redis://localhost:6379".to_string()),
    };
    let got = apply_config_file(base, &values);
    assert_eq!(got.jmap_url.as_str(), "https://mail.example.com");
    assert_eq!(got.page_size, 25);
    assert_eq!(got.service_port, 3000);
}

#[test]
fn config_file_without_values_keeps_the_defaults() {
    let base = ServiceConfig::new(JmapUrl::from("https://a.example"), 8080, 50);
    let values = ConfigFileValues {
        jmap_url: None,
        page_size: None,
        service_port: None,
        session_storage: None,
        redis_url: None,
    };
    let got = apply_config_file(base, &values);
    assert_eq!(got.jmap_url.as_str(), "https://a.example");
    assert_eq!(got.page_size, 50);
    assert_eq!(got.service_port, 8080);
}

#[test]
fn config_file_port_is_taken_as_u16() {
    let base = ServiceConfig::new(JmapUrl::default(), 8080, 50);
    let values = ConfigFileValues {
        jmap_url: None,
        page_size: None,
        service_port: Some(65536 + 80),
        session_storage: None,
        redis_url: None,
    };
    assert_eq!(apply_config_file(base, &values).service_port, 80);
}

// --- connection errors ---

#[test]
fn connect_error_with_401_is_auth_failure() {
    let url = JmapUrl::from("https://mail.example.com");
    assert_eq!(connect_error(&url, "HTTP status 401 Unauthorized"), MissiveError::AuthFailed);
    assert_eq!(connect_error(&url, "authentication required"), MissiveError::AuthFailed);
}

#[test]
fn connect_error_otherwise_names_the_url() {
    let url = JmapUrl::from("https://mail.example.com");
    assert_eq!(
        connect_error(&url, "connection refused"),
        MissiveError::Jmap(JmapErrorKind::ConnectionFailed {
            url: "https://mail.example.com".to_string(),
            message: "connection refused".to_string(),
        })
    );
}

// --- the application's settings ---

#[test]
fn default_config_has_expected_values() {
    let config = missive::config::MissiveConfig::default();
    assert!(config.jmap_url.is_empty());
    assert_eq!(config.page_size, 50);
}

#[test]
fn jmap_url_from_str() {
    let url = JmapUrl::from("https://mail.example.com");
    assert_eq!(url.as_str(), "https://mail.example.com");
    assert!(!url.is_empty());
}

#[test]
fn session_storage_names_read_back() {
    for kind in [SessionStorageKind::Memory, SessionStorageKind::Redis] {
        assert_eq!(SessionStorageKind::from_name(&kind.to_string()), Some(kind));
    }
    assert_eq!(SessionStorageKind::from_name("disk"), None);
    assert_eq!(SessionStorageKind::from_name("Redis"), None);
}

// --- the server needs a JMAP URL ---

#[test]
fn serve_refuses_an_empty_jmap_url() {
    match missive::config::check_serve_url(&JmapUrl::default()) {
        Err(CliError::ConfigInvalid { message }) => {
            assert_eq!(message, "JMAP URL is empty; set jmap_url in config.toml or ACTON_JMAP_URL env var")
        }
        _ => panic!("an empty URL must be refused"),
    }
}

#[test]
fn serve_checks_the_jmap_url() {
    assert!(missive::config::check_serve_url(&JmapUrl::from("https://mail.example.com")).is_ok());
    match missive::config::check_serve_url(&JmapUrl::from("mail.example.com")) {
        Err(CliError::ConfigInvalid { message }) => assert!(message.starts_with("JMAP URL: invalid JMAP URL: ")),
        _ => panic!("a URL without scheme must be refused"),
    }
}

// --- reading a configuration file ---

#[test]
fn config_file_values_read_the_file() {
    let text = "jmap_url = \"https://mail.example.com\"\npage_size = 25\n\n[service]\nname = \"missive\"\nport = 3000\n\n[session]\nstorage = \"redis\"\nredis_url = \"redis://r:6379\"\n";
    let v = config_file_values("config.toml", text).unwrap();
    assert_eq!(v.jmap_url.as_deref(), Some("https://mail.example.com"));
    assert_eq!(v.page_size, Some(25));
    assert_eq!(v.service_port, Some(3000));
    assert_eq!(v.session_storage, Some(SessionStorageKind::Redis));
    assert_eq!(v.redis_url.as_deref(), Some("redis://r:6379"));
}

#[test]
fn config_file_jmap_url_falls_back_to_service() {
    let v = config_file_values("c.toml", "[service]\njmap_url = \"https://b.example\"\n").unwrap();
    assert_eq!(v.jmap_url.as_deref(), Some("https://b.example"));
    assert_eq!(v.page_size, None);
    assert_eq!(v.session_storage, None);
    let v = config_file_values("c.toml", "jmap_url = \"https://a.example\"\n[service]\njmap_url = \"https://b.example\"\n").unwrap();
    assert_eq!(v.jmap_url.as_deref(), Some("https://a.example"));
}

#[test]
fn config_file_errors() {
    match config_file_values("bad.toml", "this is = = not toml") {
        Err(CliError::ConfigRead { path, .. }) => assert_eq!(path, "bad.toml"),
        _ => panic!("unparsable text must fail"),
    }
    match config_file_values("c.toml", "[session]\nstorage = \"disk\"\n") {
        Err(CliError::ConfigRead { message, .. }) => assert_eq!(message, "unknown session storage 'disk'"),
        _ => panic!("an unknown storage must fail"),
    }
}
