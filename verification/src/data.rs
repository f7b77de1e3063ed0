//! Everything that is known of the system, in one record.

use vstd::prelude::*;
use crate::fetch::cpu::{cpu, read_lines, CpuInfo};
use crate::fetch::distro::{described_by, distro, DistroInfo};
use crate::fetch::memory::MemInfo;
use crate::fetch::packages::{packages, PackageInfo};
use crate::fetch::shell::{shell, ShellInfo};
use crate::fetch::terminal::{terminal, TerminalInfo};
use crate::fetch::uptime::UptimeInfo;
use crate::fetch::user::{user, UserInfo};
use crate::fetch::FetchError;
use crate::util::numeral::signed_decimal;
use crate::util::text::{lines, split, trim, without_char};

verus! {

/// What is known of the system, record by record.
pub struct FetchData {
    pub user: UserInfo<String>,
    pub distro: DistroInfo<String>,
    pub shell: ShellInfo<String>,
    pub terminal: TerminalInfo<String>,
    pub packages: PackageInfo<String>,
    pub uptime: UptimeInfo<String>,
    pub memory: MemInfo<String>,
    pub cpu: CpuInfo<String>,
    pub gpu: String,
}

/// What a field holds until it is collected.
pub const UNKNOWN: &'static str = "UNKNOWN";

impl FetchData {
    /// Whether nothing was collected yet: every field of every record holds
    /// `UNKNOWN`.
    pub open spec fn nothing_known(&self) -> bool {
        &&& self.user.all_are(UNKNOWN@)
        &&& self.distro.all_are(UNKNOWN@)
        &&& self.shell.all_are(UNKNOWN@)
        &&& self.terminal.all_are(UNKNOWN@)
        &&& self.packages.all_are(UNKNOWN@)
        &&& self.uptime.all_are(UNKNOWN@)
        &&& self.memory.all_are(UNKNOWN@)
        &&& self.cpu.all_are(UNKNOWN@)
        &&& self.gpu@ == UNKNOWN@
    }

    /// A record in which nothing is known.
    pub fn new() -> (data: Self)
        ensures
            data.nothing_known(),
    {
        FetchData {
            user: UserInfo::filled(UNKNOWN),
            distro: DistroInfo::filled(UNKNOWN),
            shell: ShellInfo::filled(UNKNOWN),
            terminal: TerminalInfo::filled(UNKNOWN),
            packages: PackageInfo::filled(UNKNOWN),
            uptime: UptimeInfo::filled(UNKNOWN),
            memory: MemInfo::filled(UNKNOWN),
            cpu: CpuInfo::filled(UNKNOWN),
            gpu: UNKNOWN.to_owned(),
        }
    }

    /// Records the terminal by the name of its process.
    pub fn get_terminal(&mut self, process: &str)
        ensures
            final(self).terminal@ == (TerminalInfo {
                terminal: without_char(process@, '\n'),
                ..old(self).terminal@
            }),
            final(self).user == old(self).user,
            final(self).distro == old(self).distro,
            final(self).shell == old(self).shell,
            final(self).packages == old(self).packages,
            final(self).uptime == old(self).uptime,
            final(self).memory == old(self).memory,
            final(self).cpu == old(self).cpu,
            final(self).gpu == old(self).gpu,
    {
        terminal(&mut self.terminal, process)
    }

    /// Records the numbers of packages that were counted.
    pub fn get_packages(&mut self, cargo: i32, pacman: i32)
        ensures
            final(self).packages@ == (PackageInfo {
                cargo: signed_decimal(cargo as int),
                pacman: signed_decimal(pacman as int),
                ..old(self).packages@
            }),
            final(self).user == old(self).user,
            final(self).distro == old(self).distro,
            final(self).shell == old(self).shell,
            final(self).terminal == old(self).terminal,
            final(self).uptime == old(self).uptime,
            final(self).memory == old(self).memory,
            final(self).cpu == old(self).cpu,
            final(self).gpu == old(self).gpu,
    {
        packages(&mut self.packages, cargo, pacman)
    }

    /// Records the user.
    pub fn get_user(&mut self, username: Option<String>, hostname: &str)
        ensures
            final(self).user@ == (UserInfo {
                username: match username {
                    Some(name) => name@,
                    None => UNKNOWN@,
                },
                hostname: without_char(hostname@, '\n'),
            }),
            final(self).distro == old(self).distro,
            final(self).shell == old(self).shell,
            final(self).terminal == old(self).terminal,
            final(self).packages == old(self).packages,
            final(self).uptime == old(self).uptime,
            final(self).memory == old(self).memory,
            final(self).cpu == old(self).cpu,
            final(self).gpu == old(self).gpu,
    {
        user(&mut self.user, username, hostname)
    }

    /// Records the shell.
    pub fn get_shell(&mut self, name: Option<String>)
        ensures
            final(self).shell@ == (ShellInfo {
                shell: match name {
                    Some(name) => name@,
                    None => UNKNOWN@,
                },
                ..old(self).shell@
            }),
            final(self).user == old(self).user,
            final(self).distro == old(self).distro,
            final(self).terminal == old(self).terminal,
            final(self).packages == old(self).packages,
            final(self).uptime == old(self).uptime,
            final(self).memory == old(self).memory,
            final(self).cpu == old(self).cpu,
            final(self).gpu == old(self).gpu,
    {
        shell(&mut self.shell, name)
    }

    /// Records the distribution and the kernel.
    pub fn get_distro(&mut self, os_release: &str, kernel_release: &str) -> (r: Result<
        (),
        FetchError,
    >)
        ensures
            match described_by(old(self).distro@, split(os_release@, '\n'), 0) {
                Some(d) => r is Ok && final(self).distro@ == (DistroInfo {
                    kernel: trim(kernel_release@),
                    ..d
                }),
                None => r == Err::<(), FetchError>(FetchError::MissingValue),
            },
            final(self).user == old(self).user,
            final(self).shell == old(self).shell,
            final(self).terminal == old(self).terminal,
            final(self).packages == old(self).packages,
            final(self).uptime == old(self).uptime,
            final(self).memory == old(self).memory,
            final(self).cpu == old(self).cpu,
            final(self).gpu == old(self).gpu,
    {
        distro(&mut self.distro, os_release, kernel_release)
    }

    /// Records the processor.
    pub fn get_cpu(&mut self, cpuinfo: &str) -> (r: Result<(), FetchError>)
        ensures
            match read_lines(old(self).cpu@, lines(cpuinfo@), 0) {
                Some(c) => r is Ok && final(self).cpu@ == c,
                None => r == Err::<(), FetchError>(FetchError::MissingValue),
            },
            final(self).user == old(self).user,
            final(self).distro == old(self).distro,
            final(self).shell == old(self).shell,
            final(self).terminal == old(self).terminal,
            final(self).packages == old(self).packages,
            final(self).uptime == old(self).uptime,
            final(self).memory == old(self).memory,
            final(self).gpu == old(self).gpu,
    {
        cpu(&mut self.cpu, cpuinfo)
    }
}

} // verus!
