use lightfetch::data::FetchData;

#[test]
fn hello_world() {
    println!("Hello World!");
}

#[test]
fn nothing_is_known_at_first() {
    let data = FetchData::new();
    assert_eq!(data.user.username, "UNKNOWN");
    assert_eq!(data.user.hostname, "UNKNOWN");
    assert_eq!(data.distro.kernel, "UNKNOWN");
    assert_eq!(data.shell.shell_version, "UNKNOWN");
    assert_eq!(data.terminal.terminal, "UNKNOWN");
    assert_eq!(data.packages.cargo_version, "UNKNOWN");
    assert_eq!(data.uptime.z_seconds, "UNKNOWN");
    assert_eq!(data.memory.swap_total, "UNKNOWN");
    assert_eq!(data.cpu.cpu_load, "UNKNOWN");
    assert_eq!(data.gpu, "UNKNOWN");
}
