use onigiri::definition::TunnelParams;
use onigiri::form::NewTunnelForm;
use onigiri::port::decimal_string;

fn filled_form() -> NewTunnelForm {
    let mut f = NewTunnelForm::new();
    f.name = "db".to_string();
    f.ssh_server = "db-host".to_string();
    f.local_ip = "127.0.0.1".to_string();
    f.local_port = "3306".to_string();
    f.remote_ip = "localhost".to_string();
    f.remote_port = "3306".to_string();
    f
}

#[test]
fn validate_port_accepts_plain_number() {
    assert_eq!(NewTunnelForm::validate_port("3306"), Ok(3306));
    assert_eq!(NewTunnelForm::validate_port("65535"), Ok(65535));
    assert_eq!(NewTunnelForm::validate_port("1"), Ok(1));
}

#[test]
fn validate_port_accepts_plus_sign_and_leading_zeros() {
    assert_eq!(NewTunnelForm::validate_port("+80"), Ok(80));
    assert_eq!(NewTunnelForm::validate_port("0080"), Ok(80));
}

#[test]
fn validate_port_rejects_zero_with_range_message() {
    assert_eq!(
        NewTunnelForm::validate_port("0"),
        Err("Port must be between 1 and 65535".to_string())
    );
}

#[test]
fn validate_port_rejects_too_large_and_non_numeric() {
    let invalid = Err("Invalid port number".to_string());
    assert_eq!(NewTunnelForm::validate_port("65536"), invalid);
    assert_eq!(NewTunnelForm::validate_port("70000"), invalid);
    assert_eq!(NewTunnelForm::validate_port("abc"), invalid);
    assert_eq!(NewTunnelForm::validate_port(""), invalid);
    assert_eq!(NewTunnelForm::validate_port("+"), invalid);
    assert_eq!(NewTunnelForm::validate_port("-1"), invalid);
    assert_eq!(NewTunnelForm::validate_port(" 80"), invalid);
}

#[test]
fn new_form_defaults() {
    let f = NewTunnelForm::default();
    assert_eq!(f.name, "");
    assert_eq!(f.ssh_server, "");
    assert_eq!(f.local_ip, "127.0.0.1");
    assert_eq!(f.remote_ip, "127.0.0.1");
    assert_eq!(f.local_port, "");
    assert_eq!(f.remote_port, "");
    assert!(f.name_error.is_none() && f.remote_port_error.is_none());
}

#[test]
fn filled_form_is_valid() {
    let mut f = filled_form();
    assert!(f.validate());
    assert!(f.name_error.is_none());
    assert!(f.local_port_error.is_none());
    assert!(f.remote_port_error.is_none());
}

#[test]
fn empty_form_reports_every_field() {
    let mut f = NewTunnelForm::new();
    f.local_ip = String::new();
    f.remote_ip = "   ".to_string();
    assert!(!f.validate());
    assert_eq!(f.name_error.as_deref(), Some("Name is required"));
    assert_eq!(f.ssh_server_error.as_deref(), Some("SSH Server is required"));
    assert_eq!(f.local_ip_error.as_deref(), Some("Local IP is required"));
    assert_eq!(f.remote_ip_error.as_deref(), Some("Remote IP is required"));
    assert_eq!(f.local_port_error.as_deref(), Some("Invalid port number"));
    assert_eq!(f.remote_port_error.as_deref(), Some("Invalid port number"));
}

#[test]
fn blank_name_is_required() {
    let mut f = filled_form();
    f.name = " \t ".to_string();
    assert!(!f.validate());
    assert_eq!(f.name_error.as_deref(), Some("Name is required"));
    assert!(f.ssh_server_error.is_none());
}

#[test]
fn local_port_zero_is_rejected_before_start() {
    let mut f = filled_form();
    f.local_port = "0".to_string();
    assert!(!f.validate());
    assert_eq!(
        f.local_port_error.as_deref(),
        Some("Port must be between 1 and 65535")
    );
}

#[test]
fn local_port_above_range_is_rejected_before_start() {
    let mut f = filled_form();
    f.local_port = "65536".to_string();
    assert!(!f.validate());
    assert_eq!(f.local_port_error.as_deref(), Some("Invalid port number"));
}

#[test]
fn revalidation_clears_old_errors() {
    let mut f = filled_form();
    f.remote_port = "x".to_string();
    assert!(!f.validate());
    assert!(f.remote_port_error.is_some());
    f.remote_port = "22".to_string();
    assert!(f.validate());
    assert!(f.remote_port_error.is_none());
}

#[test]
fn clear_errors_keeps_text() {
    let mut f = NewTunnelForm::new();
    assert!(!f.validate());
    f.clear_errors();
    assert!(f.name_error.is_none() && f.ssh_server_error.is_none() && f.local_port_error.is_none());
    assert_eq!(f.local_ip, "127.0.0.1");
}

#[test]
fn validate_trimmed_uses_given_values() {
    let mut f = filled_form();
    assert!(!f.validate_trimmed("", "db-host", "127.0.0.1", "localhost"));
    assert_eq!(f.name_error.as_deref(), Some("Name is required"));
    assert!(f.validate_trimmed("db", "db-host", "127.0.0.1", "localhost"));
    assert!(f.name_error.is_none());
}

#[test]
fn to_params_trims_and_reads_ports() {
    let mut f = filled_form();
    f.name = "  db  ".to_string();
    f.ssh_server = " db-host".to_string();
    f.remote_port = "oops".to_string();
    let p = f.to_params();
    assert_eq!(p.name, "db");
    assert_eq!(p.ssh_server, "db-host");
    assert_eq!(p.local_ip, "127.0.0.1");
    assert_eq!(p.local_port, 3306);
    assert_eq!(p.remote_ip, "localhost");
    assert_eq!(p.remote_port, 0);
}

#[test]
fn form_from_params_writes_ports_in_decimal() {
    let p = TunnelParams {
        name: "Staging API".to_string(),
        ssh_server: "staging".to_string(),
        local_ip: "127.0.0.1".to_string(),
        local_port: 8080,
        remote_ip: "api-internal".to_string(),
        remote_port: 80,
    };
    let mut f = NewTunnelForm::from_params(&p);
    assert_eq!(f.local_port, "8080");
    assert_eq!(f.remote_port, "80");
    assert_eq!(f.name, "Staging API");
    assert!(f.validate());
    let q = f.to_params();
    assert_eq!(q.local_port, 8080);
    assert_eq!(q.remote_port, 80);
    assert_eq!(q.remote_ip, "api-internal");
}

#[test]
fn decimal_string_examples() {
    assert_eq!(decimal_string(0), "0");
    assert_eq!(decimal_string(7), "7");
    assert_eq!(decimal_string(10), "10");
    assert_eq!(decimal_string(3306), "3306");
    assert_eq!(decimal_string(65535), "65535");
}

#[test]
fn trimming_cuts_unicode_white_space_from_both_ends() {
    let mut f = filled_form();
    f.name = "\u{3000}\u{a0}\t db \u{2029}\u{85}".to_string();
    f.ssh_server = "\u{200b}host".to_string();
    let p = f.to_params();
    assert_eq!(p.name, "db");
    assert_eq!(p.ssh_server, "\u{200b}host");
}

#[test]
fn name_of_only_unicode_white_space_is_required() {
    let mut f = filled_form();
    f.name = "\u{2003}\u{1680}\u{202f}".to_string();
    assert!(!f.validate());
    assert_eq!(f.name_error.as_deref(), Some("Name is required"));
}
