use lightfetch::data::FetchData;
use lightfetch::fetch::cpu::{cpu, CpuInfo};
use lightfetch::fetch::distro::{distro, DistroInfo};
use lightfetch::fetch::memory::memory;
use lightfetch::fetch::packages::{packages, PackageInfo};
use lightfetch::fetch::shell::{shell, ShellInfo};
use lightfetch::fetch::terminal::{get_parent, names_shell, terminal, TerminalInfo};
use lightfetch::fetch::user::{user, UserInfo};
use lightfetch::fetch::FetchError;
use lightfetch::platform::version::Version;
use lightfetch::util::terminal::unicode::{lower_names_utf8, supports_unicode};

#[test]
fn mod_test_unicode_support() {
    let supported = supports_unicode(None, None, Some("en_US.UTF-8"));
    println!("Unicode support: {}", supported);
    assert!(supported);
}

#[test]
fn unicode_test_unicode_support() {
    println!("Unicode support: {}", supports_unicode(None, None, None));
}

#[test]
fn the_first_locale_that_is_set_counts() {
    assert!(supports_unicode(Some("C.utf8"), Some("C"), Some("C")));
    assert!(!supports_unicode(Some("C"), Some("C.UTF-8"), Some("C.UTF-8")));
    assert!(supports_unicode(None, Some("de_DE.Utf-8"), Some("C")));
    assert!(!supports_unicode(None, None, Some("POSIX")));
    assert!(!supports_unicode(None, None, None));
    assert!(!supports_unicode(Some(""), Some("C.UTF-8"), None));
    assert!(lower_names_utf8("c.utf-8"));
    assert!(!lower_names_utf8("C.UTF-8"));
}

#[test]
fn user_and_shell() {
    let mut data = UserInfo::filled("UNKNOWN");
    user(&mut data, Some("me".to_string()), "host\n");
    assert_eq!(data.username, "me");
    assert_eq!(data.hostname, "host");
    user(&mut data, None, "a\nb\n");
    assert_eq!(data.username, "UNKNOWN");
    assert_eq!(data.hostname, "ab");
    let mut data = ShellInfo::filled("x");
    shell(&mut data, Some("/bin/zsh".to_string()));
    assert_eq!(data.shell, "/bin/zsh");
    assert_eq!(data.shell_version, "x");
    shell(&mut data, None);
    assert_eq!(data.shell, "UNKNOWN");
}

#[test]
fn package_counts() {
    let mut data = PackageInfo::filled("x");
    packages(&mut data, 12, 1034);
    assert_eq!(data.cargo, "12");
    assert_eq!(data.pacman, "1034");
    assert_eq!(data.cargo_version, "x");
    packages(&mut data, 0, -5);
    assert_eq!(data.cargo, "0");
    assert_eq!(data.pacman, "-5");
    packages(&mut data, i32::MIN, i32::MAX);
    assert_eq!(data.cargo, i32::MIN.to_string());
    assert_eq!(data.pacman, i32::MAX.to_string());
}

#[test]
fn distribution() {
    let text = "NAME=\"Arch Linux\"\nPRETTY_NAME=\"Arch Linux\"\nID= arch \nBUILD_ID=rolling\nANSI_COLOR=\"38;2;23;147;209\"\nHOME_URL=\"https://archlinux.org/\"\n";
    let mut data = DistroInfo::filled("UNKNOWN");
    assert_eq!(distro(&mut data, text, " 6.1.0-arch \n"), Ok(()));
    assert_eq!(data.name, "Arch Linux");
    assert_eq!(data.pretty_name, "Arch Linux");
    assert_eq!(data.id, "arch");
    assert_eq!(data.build, "rolling");
    assert_eq!(data.kernel, "6.1.0-arch");
    assert_eq!(data.architecture, "UNKNOWN");
}

#[test]
fn distribution_details() {
    let mut data = DistroInfo::filled("UNKNOWN");
    // A value ends at the second `=`; keys are matched as they stand.
    assert_eq!(distro(&mut data, "NAME=a=b\n NAME=c\nID =d", ""), Ok(()));
    assert_eq!(data.name, "a");
    assert_eq!(data.id, "UNKNOWN");
    assert_eq!(data.kernel, "");
    let mut data = DistroInfo::filled("UNKNOWN");
    assert_eq!(
        distro(&mut data, "ID=x\nNAME\nID=y\n", "k"),
        Err(FetchError::MissingValue)
    );
    assert_eq!(data.id, "x");
    assert_eq!(data.kernel, "UNKNOWN");
}

#[test]
fn processor() {
    let text = "processor\t: 0\nvendor_id\t: GenuineIntel\ncpu family\t: 6\nmodel\t\t: 142\nmodel name\t: Intel(R) Core(TM) i5\ncpu MHz\t\t: 1800.000\ncpu cores\t: 4\nbogomips\t: 3999.93\n\nvendor_id\t: AuthenticAMD\ncpu MHz\t\t: 2400.123\n";
    let mut data = CpuInfo::filled("UNKNOWN");
    assert_eq!(cpu(&mut data, text), Ok(()));
    assert_eq!(data.vendor, "AMD");
    assert_eq!(data.family, "6");
    assert_eq!(data.model_name, "Intel(R) Core(TM) i5");
    assert_eq!(data.mhz, "2400.123");
    assert_eq!(data.cores, "4");
    assert_eq!(data.bogomips, "3999.93");
    assert_eq!(data.model, "UNKNOWN");
    assert_eq!(data.ghz, "UNKNOWN");
    assert_eq!(data.threads, "UNKNOWN");
    assert_eq!(data.cpu_load, "UNKNOWN");
}

#[test]
fn processor_details() {
    let mut data = CpuInfo::filled("UNKNOWN");
    assert_eq!(
        cpu(&mut data, "vendor_id: GenuineIntel\nvendor_id: Other: more\ncpu threads:8\r\n"),
        Ok(())
    );
    assert_eq!(data.vendor, "Other");
    assert_eq!(data.threads, "8");
    let mut data = CpuInfo::filled("UNKNOWN");
    assert_eq!(
        cpu(&mut data, "cpu cores: 2\nbogomips\ncpu cores: 4\n"),
        Err(FetchError::MissingValue)
    );
    assert_eq!(data.cores, "2");
    let mut data = CpuInfo::filled("UNKNOWN");
    assert_eq!(cpu(&mut data, " cpu cores: 2\n"), Ok(()));
    assert_eq!(data.cores, "UNKNOWN");
}

#[test]
fn memory_amounts() {
    let text = "MemTotal:       16384000 kB\nMemFree:         1024000 kB\nMemAvailable:    8192000 kB\nBuffers:          204800 kB\nCached:          4096000 kB\nSwapCached:            0 kB\nSwapTotal:       2048000 kB\nSwapFree:        1024000 kB\nHugePages_Total:       0\n";
    let m = memory(text).unwrap();
    assert_eq!(m.total, Some(16000));
    assert_eq!(m.free, Some(1000));
    assert_eq!(m.avail, Some(8000));
    assert_eq!(m.buffers, Some(200));
    assert_eq!(m.cached, Some(4000));
    assert_eq!(m.swap_total, Some(2000));
    assert_eq!(m.swap_free, Some(1000));
    assert_eq!(m.swap_used, Some(1000));
    assert_eq!(m.used, None);
}

#[test]
fn memory_details() {
    let m = memory("MemTotal: 2047 kB\nSwapFree: 9999 kB\nSwapTotal: 1 kB\n").unwrap();
    assert_eq!(m.total, Some(1));
    assert_eq!(m.swap_used, None);
    assert_eq!(m.free, None);
    let m = memory("").unwrap();
    assert_eq!(m.total, None);
    assert_eq!(m.swap_used, None);
    assert_eq!(memory("MemTotal 5 kB\n").err(), Some(FetchError::MissingValue));
    assert_eq!(memory("MemTotal: five kB\n").err(), Some(FetchError::NotANumber));
    assert_eq!(memory("Other: x\n").err(), Some(FetchError::NotANumber));
    assert_eq!(memory("MemTotal:\n").err(), Some(FetchError::NotANumber));
    assert_eq!(
        memory("MemTotal: 18446744073709551616\n").err(),
        Some(FetchError::NotANumber)
    );
    assert_eq!(
        memory("MemTotal: 1 0 2 4 kBkB\n").unwrap().total,
        Some(1)
    );
}

#[test]
fn terminal_search() {
    assert!(names_shell("/bin/bash", "bash\n"));
    assert!(names_shell("/bin/bash", ""));
    assert!(!names_shell("/bin/bash", "alacritty\n"));
    let mut data = TerminalInfo::filled("UNKNOWN");
    terminal(&mut data, "alacritty\n");
    assert_eq!(data.terminal, "alacritty");
    assert_eq!(data.terminal_version, "UNKNOWN");
    assert_eq!(get_parent("4242 (bash) S 4100 4242 4242 34816\n"), Some(4100));
    assert_eq!(get_parent("1 (x) S -7"), Some(-7));
    assert_eq!(get_parent("1 (x) S\n55"), None);
    assert_eq!(get_parent("1 (x) S x"), None);
    assert_eq!(get_parent("1 (x) S 2147483648"), None);
    assert_eq!(get_parent("1 (x) S -2147483648"), Some(i32::MIN));
    assert_eq!(get_parent(""), None);
}

#[test]
fn kernel_version() {
    let mut v = Version {
        version: String::new(),
    };
    let found = v
        .gen("Linux version 6.1.0-arch1 (builder@host) (gcc) #1 SMP\n")
        .unwrap();
    assert_eq!(found.version, "6.1.0-arch1");
    assert_eq!(v.gen("first line here\nLinux version 5\n").unwrap().version, "5");
    assert!(v.gen("Linux version").is_none());
    assert!(v.gen("").is_none());
    assert_eq!(v.version, "");
}

#[test]
fn the_record_takes_what_was_read() {
    let mut data = FetchData::new();
    data.get_user(Some("me".to_string()), "host\n");
    data.get_shell(Some("/bin/sh".to_string()));
    data.get_packages(3, 4);
    data.get_terminal("kitty\n");
    assert_eq!(data.get_distro("NAME=x\n", "k\n"), Ok(()));
    assert_eq!(data.get_cpu("cpu cores: 2\n"), Ok(()));
    assert_eq!(data.user.username, "me");
    assert_eq!(data.user.hostname, "host");
    assert_eq!(data.shell.shell, "/bin/sh");
    assert_eq!(data.packages.cargo, "3");
    assert_eq!(data.packages.pacman, "4");
    assert_eq!(data.terminal.terminal, "kitty");
    assert_eq!(data.distro.name, "x");
    assert_eq!(data.distro.kernel, "k");
    assert_eq!(data.cpu.cores, "2");
    assert_eq!(data.get_cpu("bogomips"), Err(FetchError::MissingValue));
    assert_eq!(data.get_distro("ID", ""), Err(FetchError::MissingValue));
}
