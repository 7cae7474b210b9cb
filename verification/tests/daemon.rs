use meow::api::logs::LogLevel;
use meow::daemon::service::generate_systemd_unit;

#[test]
fn log_level_ordering() {
    assert!(LogLevel::Debug < LogLevel::Info);
    assert!(LogLevel::Info < LogLevel::Warning);
    assert!(LogLevel::Warning < LogLevel::Error);
}

#[test]
fn unit_contains_read_write_paths_for_config_dir() {
    let unit = generate_systemd_unit("/usr/bin/meow", "/etc/meow/config.yaml");
    assert!(unit.contains("ReadWritePaths=/etc/meow"));
}

#[test]
fn unit_working_directory_matches_config_parent() {
    let unit = generate_systemd_unit("/usr/bin/meow", "/opt/meow/config.yaml");
    assert!(unit.contains("WorkingDirectory=/opt/meow"));
    assert!(unit.contains("ReadWritePaths=/opt/meow"));
}

#[test]
fn unit_exec_start_uses_absolute_config_path() {
    let unit = generate_systemd_unit("/usr/bin/meow", "/etc/meow/config.yaml");
    assert!(unit.contains("ExecStart=/usr/bin/meow -f /etc/meow/config.yaml"));
}

#[test]
fn unit_has_protect_system_strict() {
    let unit = generate_systemd_unit("/usr/bin/meow", "/etc/meow/config.yaml");
    assert!(unit.contains("ProtectSystem=strict"));
}

#[test]
fn unit_paths_consistent_for_nested_config() {
    let unit = generate_systemd_unit("/usr/bin/meow", "/var/lib/meow/configs/config.yaml");
    assert!(unit.contains("WorkingDirectory=/var/lib/meow/configs"));
    assert!(unit.contains("ReadWritePaths=/var/lib/meow/configs"));
}

#[test]
fn unit_root_config_path_defaults_to_slash() {
    let unit = generate_systemd_unit("/usr/bin/meow", "/config.yaml");
    assert!(unit.contains("WorkingDirectory=/"));
    assert!(unit.contains("ReadWritePaths=/"));
}
