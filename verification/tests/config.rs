use urlvibe_rs::address::is_listen_host;
use urlvibe_rs::config::{parse_port, parse_same_site, AppConfig, EnvVars, SameSite};
use urlvibe_rs::errors::AppError;

fn vars(db: bool, jwt: bool) -> EnvVars {
    EnvVars {
        database_url: if db { Some("postgres://db".to_owned()) } else { None },
        jwt_secret: if jwt { Some("secret".to_owned()) } else { None },
        frontend_origin: Some("http://localhost:5173".to_owned()),
        ..EnvVars::default()
    }
}

fn config_error(r: Result<AppConfig, AppError>) -> String {
    match r {
        Err(AppError::Config(m)) => m,
        other => panic!("unexpected {:?}", other),
    }
}

#[test]
fn required_variables() {
    assert_eq!(config_error(AppConfig::from_env(&vars(false, true))), "DATABASE_URL is required");
    assert_eq!(config_error(AppConfig::from_env(&vars(false, false))), "DATABASE_URL is required");
    assert_eq!(config_error(AppConfig::from_env(&vars(true, false))), "JWT_SECRET is required");
}

#[test]
fn frontend_origin_is_required() {
    let mut v = vars(true, true);
    v.frontend_origin = None;
    assert_eq!(config_error(AppConfig::from_env(&v)), "FRONTEND_ORIGIN is required");
}

#[test]
fn host_must_make_a_socket_address() {
    for host in ["localhost", "0.0.0.0:1", "::1", "256.0.0.1", "01.2.3.4", "[::1", "example.com"] {
        let mut v = vars(true, true);
        v.host = Some(host.to_owned());
        assert_eq!(
            config_error(AppConfig::from_env(&v)),
            "Invalid HOST/PORT combination: invalid socket address syntax",
            "host {:?}",
            host
        );
    }
    for host in ["127.0.0.1", "[::1]", "[fe80::1%2]", "[::ffff:10.0.0.1]"] {
        let mut v = vars(true, true);
        v.host = Some(host.to_owned());
        assert_eq!(AppConfig::from_env(&v).unwrap().host, host);
    }
}

#[test]
fn defaults() {
    let c = AppConfig::from_env(&vars(true, true)).unwrap();
    assert_eq!(c.database_url, "postgres://db");
    assert_eq!(c.jwt_secret, "secret");
    assert_eq!(c.frontend_origin, "http://localhost:5173");
    assert_eq!(c.host, "0.0.0.0");
    assert_eq!(c.port, 8080);
    assert!(!c.cookie_secure);
    assert_eq!(c.cookie_same_site, SameSite::Lax);
}

#[test]
fn explicit_values() {
    let mut v = vars(true, true);
    v.frontend_origin = Some("https://app.example".to_owned());
    v.host = Some("127.0.0.1".to_owned());
    v.port = Some("+3000".to_owned());
    v.cookie_secure = Some("True".to_owned());
    let c = AppConfig::from_env(&v).unwrap();
    assert_eq!(c.frontend_origin, "https://app.example");
    assert_eq!(c.host, "127.0.0.1");
    assert_eq!(c.port, 3000);
    assert!(c.cookie_secure);
    assert_eq!(c.cookie_same_site, SameSite::CrossSite);
}

#[test]
fn unparsable_port_falls_back() {
    for bad in ["", "+", "-1", "70000", "80a", " 80"] {
        let mut v = vars(true, true);
        v.port = Some(bad.to_owned());
        assert_eq!(AppConfig::from_env(&v).unwrap().port, 8080, "port {:?}", bad);
    }
}

#[test]
fn secure_flag_rules() {
    let mut v = vars(true, true);
    v.cookie_secure = Some("yes".to_owned());
    v.app_env = Some("production".to_owned());
    assert!(!AppConfig::from_env(&v).unwrap().cookie_secure);
    let mut v = vars(true, true);
    v.app_env = Some("PRODUCTION".to_owned());
    assert!(AppConfig::from_env(&v).unwrap().cookie_secure);
    let mut v = vars(true, true);
    v.app_env = Some("staging".to_owned());
    assert!(!AppConfig::from_env(&v).unwrap().cookie_secure);
    for yes in ["1", "true", "TRUE", "True"] {
        let mut v = vars(true, true);
        v.cookie_secure = Some(yes.to_owned());
        assert!(AppConfig::from_env(&v).unwrap().cookie_secure);
    }
}

#[test]
fn same_site_setting() {
    let mut v = vars(true, true);
    v.cookie_same_site = Some(" Strict ".to_owned());
    assert_eq!(AppConfig::from_env(&v).unwrap().cookie_same_site, SameSite::Strict);
    let mut v = vars(true, true);
    v.cookie_same_site = Some("sometimes".to_owned());
    assert_eq!(
        config_error(AppConfig::from_env(&v)),
        "COOKIE_SAME_SITE must be one of: lax, strict, none"
    );
}

#[test]
fn parse_same_site_values() {
    assert_eq!(parse_same_site("lax").unwrap(), SameSite::Lax);
    assert_eq!(parse_same_site("\tNONE\n").unwrap(), SameSite::CrossSite);
    assert_eq!(parse_same_site("sTrIcT").unwrap(), SameSite::Strict);
    assert!(matches!(parse_same_site("no ne"), Err(AppError::Config(_))));
}

#[test]
fn parse_port_matches_std() {
    for text in ["0", "8080", "+8080", "65535", "65536", "", "+", "-0", "0080", "99999999999", "1 "] {
        assert_eq!(parse_port(text), text.parse::<u16>().ok(), "text {:?}", text);
    }
}

#[test]
fn listen_hosts() {
    let valid = [
        "0.0.0.0", "127.0.0.1", "255.255.255.255", "1.2.3.0", "[::]", "[::1]", "[1::]",
        "[1:2:3:4:5:6:7:8]", "[1:2:3:4:5:6:7::]", "[::1:2:3:4:5:6:7]", "[abcd:EF01::]",
        "[::ffff:1.2.3.4]", "[1:2:3:4:5:6:1.2.3.4]", "[1::1.2.3.4]", "[1:2:3:4:5::1.2.3.4]",
        "[::1%0]", "[::1%4294967295]", "[0:0:0:0:0:0:0:0]", "[::0001]", "[fe80::1%25]",
    ];
    let invalid = [
        "1.2.3", "1.2.3.4.5", "1.2.3.256", "1.2.3.04", "00.1.2.3", "1.2.3.4 ", " 1.2.3.4",
        "1..2.3", "", "[", "[]", "[1:2:3:4:5:6:7:8:9]", "[1:2:3:4:5:6:7:8::]",
        "[::1:2:3:4:5:6:7:8]", "[1::2::3]", "[12345::]", "[g::]", "[1:2:3:4:5:1.2.3.4]",
        "[1:2:3:4:5:6:7:1.2.3.4]", "[1.2.3.4::]", "[::1.2.3.4:5]", "[1:2:3:4:5:6::1.2.3.4]",
        "[::1%4294967296]", "[::1%]", "[::1%x]", "[::1%1%2]", "[:::]", "[:1::]", "[1:::2]",
        "[::1]]", "[1.2.3.4]", "::1", "[::00001]", "localhost",
    ];
    for host in valid {
        assert!(is_listen_host(host), "host {:?}", host);
    }
    for host in invalid {
        assert!(!is_listen_host(host), "host {:?}", host);
    }
}
