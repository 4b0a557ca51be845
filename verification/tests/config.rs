use std::collections::HashMap;
use tuliprox::api_proxy::{
    ApiProxyConfig, ApiProxyServerInfo, ProxyType, ProxyUserCredentials, ProxyUserStatus,
    TargetUser, UserConnectionPermission,
};
use tuliprox::api_proxy_dto::{ApiProxyConfigDto, ApiProxyServerInfoDto, TargetUserDto};
use tuliprox::error::{TuliproxError, TuliproxErrorKind};
use tuliprox::healthcheck::Healthcheck;
use tuliprox::ip_check::IpCheckConfig;
use tuliprox::json_filter::document_passes;
use tuliprox::trakt::XtreamCluster;
use tuliprox::xtream::info_file_prefix;
use tuliprox::logging::{get_log_level, log_directives, resolve_log_level, LogLevel};
use tuliprox::web_auth::{parse_user_line, UserCredential, WebAuthConfig};
use tuliprox::xtream::should_update_info;

#[test]
fn documents_pass_a_filter_key_by_key() {
    let fields = |items: &[(&str, &str)]| -> Vec<(String, String)> {
        items.iter().map(|(k, v)| (k.to_string(), v.to_string())).collect()
    };
    let rules = |items: &[(&str, &[&str])]| -> Vec<(String, Vec<String>)> {
        items.iter().map(|(k, v)| (k.to_string(), v.iter().map(|x| x.to_string()).collect())).collect()
    };
    let document = fields(&[("id", "7"), ("kind", "film"), ("lang", "en")]);
    assert!(document_passes(&document, &rules(&[])));
    assert!(document_passes(&document, &rules(&[("id", &["1", "7"]), ("kind", &["film"])])));
    assert!(!document_passes(&document, &rules(&[("id", &["1", "7"]), ("kind", &["series"])])));
    assert!(!document_passes(&document, &rules(&[("year", &["1999"])])));
    assert!(!document_passes(&document, &rules(&[("id", &[])])));
    assert!(!document_passes(&fields(&[]), &rules(&[("id", &["7"])])));
}

#[test]
fn details_are_stored_under_the_name_of_their_kind() {
    assert_eq!(info_file_prefix(XtreamCluster::Live), None);
    assert_eq!(info_file_prefix(XtreamCluster::Video), Some("xtream_vod_info"));
    assert_eq!(info_file_prefix(XtreamCluster::Series), Some("xtream_series_info"));
}

fn user(name: &str, password: &str) -> ProxyUserCredentials {
    ProxyUserCredentials {
        username: name.to_string(),
        password: password.to_string(),
        token: None,
        proxy: ProxyType::Reverse,
        server: None,
        epg_timeshift: None,
        created_at: None,
        exp_date: None,
        max_connections: 0,
        status: None,
        ui_enabled: true,
        comment: None,
    }
}

fn user_with(name: &str, token: Option<&str>, server: Option<&str>) -> ProxyUserCredentials {
    let mut u = user(name, "pw");
    u.token = token.map(str::to_string);
    u.server = server.map(str::to_string);
    u
}

fn server(name: &str) -> ApiProxyServerInfo {
    ApiProxyServerInfo {
        name: name.to_string(),
        protocol: "http".to_string(),
        host: "localhost".to_string(),
        port: Some("8901".to_string()),
        timezone: "Europe/Paris".to_string(),
        message: "hello".to_string(),
        path: None,
    }
}

fn message(r: Result<(), TuliproxError>) -> String {
    let e = r.expect_err("an error");
    assert_eq!(e.kind, TuliproxErrorKind::Info);
    e.message
}

#[test]
fn credentials_are_trimmed() {
    let mut u = user_with("  joe ", Some(" t1 "), None);
    u.password = "\tsecret\n".to_string();
    u.prepare();
    assert_eq!(u.username, "joe");
    assert_eq!(u.password, "secret");
    assert_eq!(u.token.as_deref(), Some("t1"));
    let mut v = user("\u{a0}a b\u{2003}", " ");
    v.trim();
    assert_eq!(v.username, "a b");
    assert_eq!(v.password, "");
    assert_eq!(v.token, None);
}

#[test]
fn credentials_match_name_password_and_token() {
    let u = user_with("joe", Some("tok"), None);
    assert!(u.matches("joe", "pw"));
    assert!(!u.matches("joe", "other"));
    assert!(!u.matches("Joe", "pw"));
    assert!(u.matches_token("tok"));
    assert!(!u.matches_token("to"));
    assert!(!user("joe", "pw").matches_token(""));
}

#[test]
fn credentials_need_name_and_password() {
    assert_eq!(message(user("", "pw").validate()), "Username required");
    assert_eq!(message(user("", "").validate()), "Username required");
    assert_eq!(message(user("joe", "").validate()), "Password required");
    assert!(user("joe", "pw").validate().is_ok());
}

#[test]
fn permissions_depend_on_expiry_and_status() {
    let mut u = user("joe", "pw");
    assert!(u.has_permissions_at(true, 100));
    assert!(u.has_permissions(true));
    assert!(!u.permission_denied(true));
    u.exp_date = Some(100);
    assert!(u.has_permissions_at(true, 100));
    assert!(!u.has_permissions_at(true, 101));
    assert!(u.has_permissions_at(false, 101));
    assert!(!u.has_permissions(true));
    assert!(u.permission_denied(true));
    assert!(u.has_permissions(false));
    u.exp_date = Some(i64::MAX);
    assert!(u.has_permissions(true));
    for (status, ok) in [
        (ProxyUserStatus::Active, true),
        (ProxyUserStatus::Trial, true),
        (ProxyUserStatus::Expired, false),
        (ProxyUserStatus::Banned, false),
        (ProxyUserStatus::Disabled, false),
        (ProxyUserStatus::Pending, false),
    ] {
        u.status = Some(status);
        assert_eq!(u.has_permissions_at(true, 0), ok);
        assert_eq!(u.has_permissions(true), ok);
        assert!(u.has_permissions_at(false, 0));
    }
}

#[test]
fn connections_are_counted_only_with_a_limit() {
    let mut u = user("joe", "pw");
    assert!(!u.limits_connections(true));
    assert_eq!(
        u.connection_permission(true, UserConnectionPermission::Exhausted),
        UserConnectionPermission::Allowed
    );
    u.max_connections = 2;
    assert!(u.limits_connections(true));
    assert!(!u.limits_connections(false));
    assert_eq!(
        u.connection_permission(true, UserConnectionPermission::GracePeriod),
        UserConnectionPermission::GracePeriod
    );
    assert_eq!(
        u.connection_permission(false, UserConnectionPermission::Exhausted),
        UserConnectionPermission::Allowed
    );
}

#[test]
fn a_target_finds_its_first_matching_user() {
    let mut second = user_with("joe", Some("t2"), None);
    second.comment = Some("second".to_string());
    let target = TargetUser {
        target: "main".to_string(),
        credentials: vec![user_with("ann", Some("t1"), None), user_with("joe", Some("t2"), None), second],
    };
    let (found, name) = target.get_target_name("joe", "pw").unwrap();
    assert_eq!((found.username.as_str(), found.comment.as_deref(), name), ("joe", None, "main"));
    assert!(target.get_target_name("joe", "x").is_none());
    let (found, name) = target.get_target_name_by_token("t1").unwrap();
    assert_eq!((found.username.as_str(), name), ("ann", "main"));
    assert!(target.get_target_name_by_token("t3").is_none());
    assert_eq!(target.find_user("joe").unwrap().comment, None);
    assert!(target.find_user("bob").is_none());
}

#[test]
fn a_server_is_prepared_field_by_field() {
    let mut s = ApiProxyServerInfo {
        name: " main ".to_string(),
        protocol: " https".to_string(),
        host: "example.org ".to_string(),
        port: Some(" 443 ".to_string()),
        timezone: "  ".to_string(),
        message: String::new(),
        path: Some(" /tv/ ".to_string()),
    };
    assert!(s.prepare().is_ok());
    assert_eq!(s.name, "main");
    assert_eq!(s.protocol, "https");
    assert_eq!(s.host, "example.org");
    assert_eq!(s.port.as_deref(), Some("443"));
    assert_eq!(s.timezone, "UTC");
    assert_eq!(s.message, "Welcome to tuliprox");
    assert_eq!(s.path.as_deref(), Some("/tv/"));
    assert_eq!(s.get_base_url(), "https://example.org:443/tv");

    let mut empty_port = server("a");
    empty_port.port = Some("  ".to_string());
    empty_port.path = Some("  ".to_string());
    assert!(empty_port.validate());
    assert_eq!(empty_port.port, None);
    assert_eq!(empty_port.path, None);
    assert_eq!(empty_port.timezone, "Europe/Paris");
    assert_eq!(empty_port.message, "hello");
    assert_eq!(empty_port.get_base_url(), "http://localhost");
}

#[test]
fn a_server_needs_name_protocol_host_and_a_numeric_port() {
    let mut s = server("  ");
    s.protocol = " p ".to_string();
    assert_eq!(message(s.prepare()), "Server info name is empty ");
    assert_eq!(s.name, "");
    assert_eq!(s.protocol, " p ");
    let mut s = server("a");
    s.protocol = " ".to_string();
    assert_eq!(message(s.prepare()), "protocol cant be empty for api server config");
    let mut s = server("a");
    s.host = String::new();
    assert_eq!(message(s.prepare()), "host cant be empty for api server config");
    for port in ["65536", "-1", "80a", "8 0", "+", "99999999999999999999"] {
        let mut s = server("a");
        s.port = Some(port.to_string());
        s.timezone = " tz ".to_string();
        assert_eq!(message(s.prepare()), "invalid port for api server config", "{port}");
        assert_eq!(s.port.as_deref(), Some(port));
        assert_eq!(s.timezone, " tz ");
        assert!(!s.validate());
    }
    for port in ["0", "65535", "+80", "0080"] {
        let mut s = server("a");
        s.port = Some(port.to_string());
        assert!(s.prepare().is_ok(), "{port}");
    }
}

#[test]
fn base_urls_drop_the_outer_slashes_of_the_path() {
    let mut s = server("a");
    s.port = None;
    s.path = Some("//a/b//".to_string());
    assert_eq!(s.get_base_url(), "http://localhost/a/b");
    s.path = Some("///".to_string());
    assert_eq!(s.get_base_url(), "http://localhost/");
    s.port = Some("1".to_string());
    s.path = Some("x".to_string());
    assert_eq!(s.get_base_url(), "http://localhost:1/x");
}

fn config() -> ApiProxyConfig {
    ApiProxyConfig {
        server: vec![server("one"), server(" two ")],
        user: vec![
            TargetUser {
                target: "t1".to_string(),
                credentials: vec![
                    user_with(" ann ", Some("tok"), Some("one")),
                    user_with("bob", Some("  "), Some("two")),
                ],
            },
            TargetUser { target: "t2".to_string(), credentials: vec![user_with("cid", None, None)] },
        ],
        use_user_db: false,
    }
}

#[test]
fn a_good_configuration_is_prepared() {
    let mut c = config();
    assert!(c.prepare().is_ok());
    assert_eq!(c.server[1].name, "two");
    assert_eq!(c.user[0].credentials[0].username, "ann");
    assert_eq!(c.user[0].credentials[1].token, None);
    assert_eq!(c.get_target_name("ann", "pw").unwrap().1, "t1");
    assert_eq!(c.get_target_name("cid", "pw").unwrap().0.username, "cid");
    assert!(c.get_target_name("cid", "no").is_none());
    assert_eq!(c.get_target_name_by_token("tok").unwrap().0.username, "ann");
    assert!(c.get_target_name_by_token("").is_none());
    assert_eq!(c.get_user_credentials("bob").unwrap().server.as_deref(), Some("two"));
    assert!(c.get_user_credentials("dan").is_none());
}

#[test]
fn complaints_are_gathered_one_per_line() {
    let mut c = config();
    c.server.push(server("one"));
    c.server[0].host = " ".to_string();
    c.user[1].credentials.push(user_with("ann", Some("tok"), Some("three")));
    c.user[1].credentials.push(user_with("eve", Some("tok"), None));
    assert_eq!(
        message(c.prepare()),
        "host cant be empty for api server config\n\
         Non-unique server info name found one\n\
         Non unique username found ann\n\
         Non unique token found ann\n\
         No server info with name three found for user ann\n\
         Non unique token found eve"
    );
    let mut none = ApiProxyConfig { server: vec![], user: vec![], use_user_db: true };
    assert_eq!(message(none.prepare()), "No server info defined");
    let mut dangling = ApiProxyConfig {
        server: vec![],
        user: vec![TargetUser { target: "t".to_string(), credentials: vec![user_with("a", None, Some("s"))] }],
        use_user_db: true,
    };
    assert_eq!(
        message(dangling.prepare()),
        "No server info defined\nNo server info with name s found for user a"
    );
}

#[test]
fn stored_users_are_merged_by_target_and_name() {
    let mut c = config();
    let mut ann = user_with(" ann ", None, None);
    ann.password = "stored".to_string();
    let stored = vec![
        TargetUser {
            target: "t1".to_string(),
            credentials: vec![ann, user_with("new", None, None), user_with("new", Some("x"), None)],
        },
        TargetUser { target: "t3".to_string(), credentials: vec![user_with("cid", None, None)] },
        TargetUser { target: "t3".to_string(), credentials: vec![user_with("dan", None, None)] },
    ];
    c.merge_users(&stored);
    let names: Vec<Vec<&str>> = c
        .user
        .iter()
        .map(|t| t.credentials.iter().map(|u| u.username.as_str()).collect())
        .collect();
    assert_eq!(names, vec![vec![" ann ", "bob", "new"], vec!["cid"], vec!["cid", "dan"]]);
    assert_eq!(c.user[2].target, "t3");
    assert_eq!(c.user[0].credentials[0].password, "pw");
    assert_eq!(c.user[0].credentials[2].token, None);
}

#[test]
fn the_exchanged_form_is_checked_like_the_kept_form() {
    let mut s = ApiProxyServerInfoDto {
        name: " main ".to_string(),
        protocol: "http".to_string(),
        host: "h".to_string(),
        port: Some("x".to_string()),
        timezone: String::new(),
        message: String::new(),
        path: None,
    };
    assert_eq!(message(s.prepare()), "invalid port for api server config");
    assert!(!s.validate());
    s.port = Some(" 80 ".to_string());
    assert!(s.validate());
    assert_eq!((s.name.as_str(), s.port.as_deref(), s.timezone.as_str()), ("main", Some("80"), "UTC"));
    let mut dto = ApiProxyConfigDto {
        server: vec![s.clone(), s],
        user: vec![TargetUserDto {
            target: "t".to_string(),
            credentials: vec![user_with(" a ", Some(""), None), user_with("a", None, Some("other"))],
        }],
        use_user_db: false,
    };
    assert_eq!(
        message(dto.prepare()),
        "Non-unique server info name found main\n\
         Non unique username found a\n\
         No server info with name other found for user a"
    );
    assert_eq!(dto.user[0].credentials[0].token, None);
    let mut empty = ApiProxyConfigDto { server: vec![], user: vec![], use_user_db: false };
    assert_eq!(message(empty.prepare()), "No server info defined");
}

#[test]
fn user_files_are_read_line_by_line() {
    let line = |s: &str| parse_user_line(s).map(|u| (u.username, u.password));
    assert_eq!(line("joe:secret"), Some(("joe".to_string(), "secret".to_string())));
    assert_eq!(line(" joe : secret :rest:more"), Some(("joe".to_string(), "secret".to_string())));
    assert_eq!(line("joe:"), Some(("joe".to_string(), String::new())));
    assert_eq!(line(":"), Some((String::new(), String::new())));
    assert_eq!(line("joe"), None);
    assert_eq!(line(""), None);
    let mut auth = WebAuthConfig {
        enabled: true,
        issuer: "i".to_string(),
        secret: "s".to_string(),
        userfile: None,
        t_users: None,
    };
    assert_eq!(auth.get_user_password("joe"), None);
    auth.set_users_from_lines(&vec![
        "# comment".to_string(),
        "Joe: one".to_string(),
        "ann:two".to_string(),
        "JOE:three".to_string(),
    ]);
    assert_eq!(auth.t_users.as_ref().map(Vec::len), Some(3));
    assert_eq!(auth.get_user_password("joe"), Some("one"));
    assert_eq!(auth.get_user_password("ANN"), Some("two"));
    assert_eq!(auth.get_user_password("bob"), None);
    auth.t_users = Some(vec![UserCredential { username: "x".to_string(), password: "y".to_string() }]);
    assert_eq!(auth.get_user_password("X"), Some("y"));
}

#[test]
fn a_health_check_holds_its_fields() {
    let h = Healthcheck {
        status: "ok".to_string(),
        version: "1".to_string(),
        build_time: None,
        server_time: "now".to_string(),
    };
    assert_eq!(h.clone().status, "ok");
}

#[test]
fn ip_check_needs_an_address_and_good_patterns() {
    let blank = IpCheckConfig {
        url: Some("  ".to_string()),
        url_ipv4: None,
        url_ipv6: Some(String::new()),
        pattern_ipv4: Some("(".to_string()),
        pattern_ipv6: None,
        t_pattern_ipv4: None,
        t_pattern_ipv6: None,
    };
    let mut c = blank.clone();
    assert_eq!(message(c.prepare()), "No url provided!");
    assert_eq!((c.url.clone(), c.url_ipv6.clone()), (None, None));
    let mut c = blank.clone();
    c.url_ipv4 = Some(" http://a ".to_string());
    let fault = regex::Regex::new("(").unwrap_err().to_string();
    assert!(!fault.is_empty());
    assert_eq!(message(c.prepare()), format!("Invalid IPv4 regex: ( {fault}"));
    assert_eq!(c.url_ipv4.as_deref(), Some("http://a"));
    c.pattern_ipv4 = Some(r"(\d+\.\d+)".to_string());
    c.pattern_ipv6 = Some("[".to_string());
    let fault = regex::Regex::new("[").unwrap_err().to_string();
    assert_eq!(message(c.prepare()), format!("Invalid IPv6 regex: [ {fault}"));
    assert_eq!(c.t_pattern_ipv4.as_ref().map(|r| r.as_str()), Some(r"(\d+\.\d+)"));
    c.pattern_ipv6 = Some("x+".to_string());
    assert!(c.prepare().is_ok());
    assert_eq!(c.t_pattern_ipv6.as_ref().map(|r| r.as_str()), Some("x+"));
}

#[test]
fn log_levels_are_read_without_regard_to_case() {
    assert_eq!(get_log_level("trace"), LogLevel::Trace);
    assert_eq!(get_log_level("DEBUG"), LogLevel::Debug);
    assert_eq!(get_log_level("Warn"), LogLevel::Warn);
    assert_eq!(get_log_level("error"), LogLevel::Error);
    assert_eq!(get_log_level("info"), LogLevel::Info);
    assert_eq!(get_log_level("anything"), LogLevel::Info);
    assert_eq!(get_log_level(" debug"), LogLevel::Info);
}

#[test]
fn the_log_level_comes_from_the_first_source_that_has_one() {
    let cli = "debug".to_string();
    assert_eq!(resolve_log_level(Some(&cli), Some("warn".into()), Some("error".into())), "debug");
    assert_eq!(resolve_log_level(None, Some("warn".into()), Some("error".into())), "warn");
    assert_eq!(resolve_log_level(None, None, Some("error".into())), "error");
    assert_eq!(resolve_log_level(None, None, None), "info");
}

#[test]
fn log_directives_are_read_from_a_list() {
    let read = |s: &str| -> Vec<(Option<String>, LogLevel)> {
        log_directives(s).into_iter().map(|d| (d.module, d.level)).collect()
    };
    assert_eq!(read("debug"), vec![(None, LogLevel::Debug)]);
    assert_eq!(read("a,b"), vec![(None, LogLevel::Info)]);
    assert_eq!(
        read("hyper = warn ,trace, my::mod=ERROR=x,=,"),
        vec![
            (Some("hyper".to_string()), LogLevel::Warn),
            (None, LogLevel::Trace),
            (Some("my::mod".to_string()), LogLevel::Error),
            (Some(String::new()), LogLevel::Info),
            (None, LogLevel::Info),
        ]
    );
}

#[test]
fn details_are_fetched_again_when_the_time_stamp_changed() {
    let mut processed = HashMap::new();
    processed.insert(7u32, 100u64);
    assert_eq!(should_update_info(None, Some(1), &processed), (false, 0, 0));
    assert_eq!(should_update_info(Some(7), Some(100), &processed), (false, 7, 100));
    assert_eq!(should_update_info(Some(7), Some(101), &processed), (true, 7, 101));
    assert_eq!(should_update_info(Some(7), None, &processed), (true, 7, 0));
    assert_eq!(should_update_info(Some(8), Some(100), &processed), (true, 8, 100));
    assert_eq!(should_update_info(Some(8), None, &processed), (true, 8, 0));
}
