//! Command line options and their default values.
use vstd::prelude::*;
use vstd::string::*;

use crate::text::{decimal, decimal_string};

verus! {

/// Default number of virtual processors.
pub const DEFAULT_VCPUS: u32 = 1;

/// Default width of physical addresses.
pub const DEFAULT_MAX_PHYS_BITS: u8 = 46;

/// Default size of guest memory in MiB.
pub const DEFAULT_MEMORY_MB: u64 = 512;

/// The default for the processors: how many boot, and the width of physical
/// addresses.
pub fn default_vcpus() -> (s: String)
    ensures
        s@ == "boot="@ + decimal(DEFAULT_VCPUS as nat) + ",max_phys_bits="@ + decimal(
            DEFAULT_MAX_PHYS_BITS as nat,
        ),
{
    let mut s: String = "boot=".to_owned();
    let vcpus: String = decimal_string(DEFAULT_VCPUS as u64);
    s.append(vcpus.as_str());
    s.append(",max_phys_bits=");
    let bits: String = decimal_string(DEFAULT_MAX_PHYS_BITS as u64);
    s.append(bits.as_str());
    s
}

/// The default for the memory: its size.
pub fn default_memory() -> (s: String)
    ensures
        s@ == "size="@ + decimal(DEFAULT_MEMORY_MB as nat) + "M"@,
{
    let mut s: String = "size=".to_owned();
    let size: String = decimal_string(DEFAULT_MEMORY_MB);
    s.append(size.as_str());
    s.append("M");
    s
}

/// The default for the random number generator: its source.
pub fn default_rng() -> (s: String)
    ensures
        s@ == "src="@ + "/dev/urandom"@,
{
    let mut s: String = "src=".to_owned();
    s.append("/dev/urandom");
    s
}

/// The default values for the processors, the memory and the random number
/// generator.
pub fn prepare_default_values() -> (d: (String, String, String))
    ensures
        d.0@ == "boot="@ + decimal(DEFAULT_VCPUS as nat) + ",max_phys_bits="@ + decimal(
            DEFAULT_MAX_PHYS_BITS as nat,
        ),
        d.1@ == "size="@ + decimal(DEFAULT_MEMORY_MB as nat) + "M"@,
        d.2@ == "src="@ + "/dev/urandom"@,
{
    (default_vcpus(), default_memory(), default_rng())
}

// ─── Options ─────────────────────────────────────────────────────────────────

/// How many values an option takes.
#[derive(Debug, Clone, Copy, PartialEq, Eq, Structural)]
pub enum NumArgs {
    /// As many as its action says
    Unset,
    Zero,
    One,
    OneOrMore,
}

/// What an option does with its values.
#[derive(Debug, Clone, Copy, PartialEq, Eq, Structural)]
pub enum OptionAction {
    Store,
    SetTrue,
    Append,
    Count,
}

/// Which values an option takes.
#[derive(Debug, Clone, Copy, PartialEq, Eq, Structural)]
pub enum OptionValues {
    /// Any
    Any,
    /// One of true, false and log
    TrueFalseLog,
}

/// Groups of options.
#[derive(Debug, Clone, Copy, PartialEq, Eq, Structural)]
pub enum OptionGroup {
    Ungrouped,
    VmConfig,
    VmmConfig,
    VmPayload,
    Logging,
}

/// Configurations that document their own syntax.
#[derive(Debug, Clone, Copy, PartialEq, Eq, Structural)]
pub enum ConfigSyntax {
    Balloon,
    Device,
    Disk,
    Fs,
    GenericVhostUser,
    Landlock,
    Net,
    Numa,
    PciSegment,
    Platform,
    Pmem,
    RateLimiterGroup,
    Restore,
    Tpm,
    UserDevice,
    Vdpa,
    Vsock,
}

/// The help of an option.
#[derive(Debug, Clone, Copy)]
pub enum OptionHelp {
    /// There is none.
    Missing,
    /// A text
    Text(&'static str),
    /// The syntax of a configuration
    Syntax(ConfigSyntax),
}

/// What the help of an option says.
pub enum HelpView {
    Missing,
    Text(Seq<char>),
    Syntax(ConfigSyntax),
}

impl View for OptionHelp {
    type V = HelpView;

    open spec fn view(&self) -> HelpView {
        match self {
            OptionHelp::Missing => HelpView::Missing,
            OptionHelp::Text(s) => HelpView::Text(s@),
            OptionHelp::Syntax(c) => HelpView::Syntax(*c),
        }
    }
}

/// A command line option.
#[derive(Debug, Clone)]
pub struct CliOption {
    /// Name
    pub name: &'static str,
    /// Short form
    pub short: Option<char>,
    /// Whether its name is its long form
    pub long: bool,
    /// How many values it takes
    pub num_args: NumArgs,
    /// Which values it takes
    pub values: OptionValues,
    /// What it does with them
    pub action: OptionAction,
    /// Its default value
    pub default: Option<String>,
    /// The group that it is in
    pub group: OptionGroup,
    /// Its help
    pub help: OptionHelp,
}

/// What a command line option is.
pub struct OptionView {
    pub name: Seq<char>,
    pub short: Option<char>,
    pub long: bool,
    pub num_args: NumArgs,
    pub values: OptionValues,
    pub action: OptionAction,
    pub default: Option<Seq<char>>,
    pub group: OptionGroup,
    pub help: HelpView,
}

impl View for CliOption {
    type V = OptionView;

    open spec fn view(&self) -> OptionView {
        OptionView {
            name: self.name@,
            short: self.short,
            long: self.long,
            num_args: self.num_args,
            values: self.values,
            action: self.action,
            default: match self.default {
                Some(s) => Some(s@),
                None => None,
            },
            group: self.group,
            help: self.help@,
        }
    }
}

/// What each of the options is.
pub open spec fn option_views(options: Seq<CliOption>) -> Seq<OptionView> {
    options.map_values(|o: CliOption| o@)
}

/// An option that takes one value.
pub open spec fn single(name: Seq<char>, group: OptionGroup, help: HelpView) -> OptionView {
    OptionView {
        name,
        short: None,
        long: true,
        num_args: NumArgs::One,
        values: OptionValues::Any,
        action: OptionAction::Store,
        default: None,
        group,
        help,
    }
}

/// An option of the virtual machine that takes values and can be repeated.
pub open spec fn repeated(name: Seq<char>, help: HelpView) -> OptionView {
    OptionView {
        num_args: NumArgs::OneOrMore,
        action: OptionAction::Append,
        ..single(name, OptionGroup::VmConfig, help)
    }
}

/// An option of the virtual machine with a default value.
pub open spec fn defaulted(name: Seq<char>, default: Seq<char>, help: HelpView) -> OptionView {
    OptionView {
        num_args: NumArgs::Unset,
        default: Some(default),
        ..single(name, OptionGroup::VmConfig, help)
    }
}

/// An option of the virtual machine that is given or not.
pub open spec fn switch(name: Seq<char>, help: HelpView) -> OptionView {
    OptionView {
        num_args: NumArgs::Zero,
        action: OptionAction::SetTrue,
        ..single(name, OptionGroup::VmConfig, help)
    }
}

/// The options in alphabetical order.
pub open spec fn cli_table(vcpus: Seq<char>, memory: Seq<char>, rng: Seq<char>) -> Seq<OptionView> {
    seq![
        single("api-socket"@, OptionGroup::VmmConfig, HelpView::Text("HTTP API socket (UNIX domain socket): path=</path/to/a/file> or fd=<fd>."@)),
        single("balloon"@, OptionGroup::VmConfig, HelpView::Syntax(ConfigSyntax::Balloon)),
        single("cmdline"@, OptionGroup::VmConfig, HelpView::Text("Kernel command line"@)),
        defaulted("console"@, "tty"@, HelpView::Text("Control (virtio) console: \"off|null|pty|tty|file=</path/to/a/file>,iommu=on|off\""@)),
        defaulted("cpus"@, vcpus, HelpView::Text("boot=<boot_vcpus>,max=<max_vcpus>,topology=<threads_per_core>:<cores_per_die>:<dies_per_package>:<packages>,kvm_hyperv=on|off,max_phys_bits=<maximum_number_of_physical_bits>,affinity=<list_of_vcpus_with_their_associated_cpuset>,features=<list_of_features_to_enable>,nested=on|off,core_scheduling=vm|vcpu|off"@)),
        defaulted("debug-console"@, "off,iobase=0xe9"@, HelpView::Text("Debug console: off|pty|tty|file=</path/to/a/file>,iobase=<port in hex>"@)),
        repeated("device"@, HelpView::Syntax(ConfigSyntax::Device)),
        repeated("disk"@, HelpView::Syntax(ConfigSyntax::Disk)),
        single("event-monitor"@, OptionGroup::VmmConfig, HelpView::Text("File to report events on: path=</path/to/a/file> or fd=<fd>"@)),
        single("firmware"@, OptionGroup::VmPayload, HelpView::Text("Path to firmware that is loaded in an architectural specific way"@)),
        repeated("fs"@, HelpView::Syntax(ConfigSyntax::Fs)),
        repeated("generic-vhost-user"@, HelpView::Syntax(ConfigSyntax::GenericVhostUser)),
        single("initramfs"@, OptionGroup::VmConfig, HelpView::Text("Path to initramfs image"@)),
        single("kernel"@, OptionGroup::VmPayload, HelpView::Text("Path to kernel to load. This may be a kernel or firmware that supports a PVH entry point (e.g. vmlinux) or architecture equivalent"@)),
        OptionView { default: Some("false"@), ..switch("landlock"@, HelpView::Text("enable/disable Landlock."@)) },
        repeated("landlock-rules"@, HelpView::Syntax(ConfigSyntax::Landlock)),
        single("log-file"@, OptionGroup::Logging, HelpView::Text("Log file. Standard error is used if not specified"@)),
        defaulted("memory"@, memory, HelpView::Text("Memory parameters \"size=<guest_memory_size>,mergeable=on|off,shared=on|off,hugepages=on|off,hugepage_size=<hugepage_size>,hotplug_method=acpi|virtio-mem,hotplug_size=<hotpluggable_memory_size>,hotplugged_size=<hotplugged_memory_size>,prefault=on|off,thp=on|off\""@)),
        repeated("memory-zone"@, HelpView::Text("User defined memory zone parameters \"size=<guest_memory_region_size>,file=<backing_file>,shared=on|off,hugepages=on|off,hugepage_size=<hugepage_size>,host_numa_node=<node_id>,id=<zone_identifier>,hotplug_size=<hotpluggable_memory_size>,hotplugged_size=<hotplugged_memory_size>,prefault=on|off\""@)),
        repeated("net"@, HelpView::Syntax(ConfigSyntax::Net)),
        repeated("numa"@, HelpView::Syntax(ConfigSyntax::Numa)),
        repeated("pci-segment"@, HelpView::Syntax(ConfigSyntax::PciSegment)),
        single("platform"@, OptionGroup::VmConfig, HelpView::Syntax(ConfigSyntax::Platform)),
        repeated("pmem"@, HelpView::Syntax(ConfigSyntax::Pmem)),
        switch("pvpanic"@, HelpView::Text("Enable pvpanic device"@)),
        repeated("rate-limit-group"@, HelpView::Syntax(ConfigSyntax::RateLimiterGroup)),
        single("restore"@, OptionGroup::VmmConfig, HelpView::Syntax(ConfigSyntax::Restore)),
        defaulted("rng"@, rng, HelpView::Text("Random number generator parameters \"src=<entropy_source_path>,iommu=on|off\""@)),
        repeated("scsi"@, HelpView::Text("SCSI controller parameters \"path=<disk_path>,id=<device_id>,pci_segment=<segment>,iommu=on|off,num_queues=<n>,queue_size=<size>,target=<target_id>,lun=<lun_id>,readonly=on|off\""@)),
        OptionView { values: OptionValues::TrueFalseLog, default: Some("true"@), ..single("seccomp"@, OptionGroup::Ungrouped, HelpView::Missing) },
        defaulted("serial"@, "null"@, HelpView::Text("Control serial port: off|null|pty|tty|file=</path/to/a/file>|socket=</path/to/a/file>"@)),
        single("tpm"@, OptionGroup::VmConfig, HelpView::Syntax(ConfigSyntax::Tpm)),
        repeated("user-device"@, HelpView::Syntax(ConfigSyntax::UserDevice)),
        OptionView { short: Some('v'), long: false, num_args: NumArgs::Unset, action: OptionAction::Count, ..single("v"@, OptionGroup::Logging, HelpView::Text("Sets the level of debugging output"@)) },
        repeated("vdpa"@, HelpView::Syntax(ConfigSyntax::Vdpa)),
        OptionView { short: Some('V'), group: OptionGroup::Ungrouped, ..switch("version"@, HelpView::Text("Print version"@)) },
        single("vsock"@, OptionGroup::VmConfig, HelpView::Syntax(ConfigSyntax::Vsock)),
        switch("watchdog"@, HelpView::Text("Enable virtio-watchdog"@)),
    ]
}

/// An option that takes one value.
fn single_option(name: &'static str, group: OptionGroup, help: OptionHelp) -> (o: CliOption)
    ensures
        o@ == single(name@, group, help@),
{
    CliOption {
        name,
        short: None,
        long: true,
        num_args: NumArgs::One,
        values: OptionValues::Any,
        action: OptionAction::Store,
        default: None,
        group,
        help,
    }
}

/// An option that takes values and can be repeated.
fn repeated_option(name: &'static str, help: OptionHelp) -> (o: CliOption)
    ensures
        o@ == repeated(name@, help@),
{
    CliOption {
        name,
        short: None,
        long: true,
        num_args: NumArgs::OneOrMore,
        values: OptionValues::Any,
        action: OptionAction::Append,
        default: None,
        group: OptionGroup::VmConfig,
        help,
    }
}

/// An option with a default value.
fn defaulted_option(name: &'static str, default: String, help: OptionHelp) -> (o: CliOption)
    ensures
        o@ == defaulted(name@, default@, help@),
{
    CliOption {
        name,
        short: None,
        long: true,
        num_args: NumArgs::Unset,
        values: OptionValues::Any,
        action: OptionAction::Store,
        default: Some(default),
        group: OptionGroup::VmConfig,
        help,
    }
}

/// An option that is given or not.
fn switch_option(name: &'static str, help: OptionHelp) -> (o: CliOption)
    ensures
        o@ == switch(name@, help@),
{
    CliOption {
        name,
        short: None,
        long: true,
        num_args: NumArgs::Zero,
        values: OptionValues::Any,
        action: OptionAction::SetTrue,
        default: None,
        group: OptionGroup::VmConfig,
        help,
    }
}

/// Adds an option.
fn push_option(options: &mut Vec<CliOption>, option: CliOption)
    ensures
        option_views(final(options)@) == option_views(old(options)@).push(option@),
{
    let ghost before = option_views(options@);
    options.push(option);
    assert(option_views(options@) =~= before.push(option@));
}

/// Adds the options 1 to 13 of the table.
fn push_first_options(options: &mut Vec<CliOption>, vcpus: String, memory: String, rng: String)
    requires
        option_views(old(options)@) == cli_table(vcpus@, memory@, rng@).take(0),
    ensures
        option_views(final(options)@) == cli_table(vcpus@, memory@, rng@).take(13),
{
    let ghost table = cli_table(vcpus@, memory@, rng@);
    push_option(options, single_option("api-socket", OptionGroup::VmmConfig, OptionHelp::Text("HTTP API socket (UNIX domain socket): path=</path/to/a/file> or fd=<fd>.")));
    push_option(options, single_option("balloon", OptionGroup::VmConfig, OptionHelp::Syntax(ConfigSyntax::Balloon)));
    push_option(options, single_option("cmdline", OptionGroup::VmConfig, OptionHelp::Text("Kernel command line")));
    push_option(options, defaulted_option("console", "tty".to_owned(), OptionHelp::Text("Control (virtio) console: \"off|null|pty|tty|file=</path/to/a/file>,iommu=on|off\"")));
    push_option(options, defaulted_option("cpus", vcpus, OptionHelp::Text("boot=<boot_vcpus>,max=<max_vcpus>,topology=<threads_per_core>:<cores_per_die>:<dies_per_package>:<packages>,kvm_hyperv=on|off,max_phys_bits=<maximum_number_of_physical_bits>,affinity=<list_of_vcpus_with_their_associated_cpuset>,features=<list_of_features_to_enable>,nested=on|off,core_scheduling=vm|vcpu|off")));
    push_option(options, defaulted_option("debug-console", "off,iobase=0xe9".to_owned(), OptionHelp::Text("Debug console: off|pty|tty|file=</path/to/a/file>,iobase=<port in hex>")));
    push_option(options, repeated_option("device", OptionHelp::Syntax(ConfigSyntax::Device)));
    push_option(options, repeated_option("disk", OptionHelp::Syntax(ConfigSyntax::Disk)));
    push_option(options, single_option("event-monitor", OptionGroup::VmmConfig, OptionHelp::Text("File to report events on: path=</path/to/a/file> or fd=<fd>")));
    push_option(options, single_option("firmware", OptionGroup::VmPayload, OptionHelp::Text("Path to firmware that is loaded in an architectural specific way")));
    push_option(options, repeated_option("fs", OptionHelp::Syntax(ConfigSyntax::Fs)));
    push_option(options, repeated_option("generic-vhost-user", OptionHelp::Syntax(ConfigSyntax::GenericVhostUser)));
    push_option(options, single_option("initramfs", OptionGroup::VmConfig, OptionHelp::Text("Path to initramfs image")));
    assert(option_views(options@) =~= table.take(13));
}

/// Adds the options 14 to 25 of the table.
fn push_middle_options(options: &mut Vec<CliOption>, vcpus: String, memory: String, rng: String)
    requires
        option_views(old(options)@) == cli_table(vcpus@, memory@, rng@).take(13),
    ensures
        option_views(final(options)@) == cli_table(vcpus@, memory@, rng@).take(25),
{
    let ghost table = cli_table(vcpus@, memory@, rng@);
    push_option(options, single_option("kernel", OptionGroup::VmPayload, OptionHelp::Text("Path to kernel to load. This may be a kernel or firmware that supports a PVH entry point (e.g. vmlinux) or architecture equivalent")));
    let mut landlock: CliOption = switch_option("landlock", OptionHelp::Text("enable/disable Landlock."));
    landlock.default = Some("false".to_owned());
    push_option(options, landlock);
    push_option(options, repeated_option("landlock-rules", OptionHelp::Syntax(ConfigSyntax::Landlock)));
    push_option(options, single_option("log-file", OptionGroup::Logging, OptionHelp::Text("Log file. Standard error is used if not specified")));
    push_option(options, defaulted_option("memory", memory, OptionHelp::Text("Memory parameters \"size=<guest_memory_size>,mergeable=on|off,shared=on|off,hugepages=on|off,hugepage_size=<hugepage_size>,hotplug_method=acpi|virtio-mem,hotplug_size=<hotpluggable_memory_size>,hotplugged_size=<hotplugged_memory_size>,prefault=on|off,thp=on|off\"")));
    push_option(options, repeated_option("memory-zone", OptionHelp::Text("User defined memory zone parameters \"size=<guest_memory_region_size>,file=<backing_file>,shared=on|off,hugepages=on|off,hugepage_size=<hugepage_size>,host_numa_node=<node_id>,id=<zone_identifier>,hotplug_size=<hotpluggable_memory_size>,hotplugged_size=<hotplugged_memory_size>,prefault=on|off\"")));
    push_option(options, repeated_option("net", OptionHelp::Syntax(ConfigSyntax::Net)));
    push_option(options, repeated_option("numa", OptionHelp::Syntax(ConfigSyntax::Numa)));
    push_option(options, repeated_option("pci-segment", OptionHelp::Syntax(ConfigSyntax::PciSegment)));
    push_option(options, single_option("platform", OptionGroup::VmConfig, OptionHelp::Syntax(ConfigSyntax::Platform)));
    push_option(options, repeated_option("pmem", OptionHelp::Syntax(ConfigSyntax::Pmem)));
    push_option(options, switch_option("pvpanic", OptionHelp::Text("Enable pvpanic device")));
    assert(option_views(options@) =~= table.take(25));
}

/// Adds the options 26 to 38 of the table.
fn push_last_options(options: &mut Vec<CliOption>, vcpus: String, memory: String, rng: String)
    requires
        option_views(old(options)@) == cli_table(vcpus@, memory@, rng@).take(25),
    ensures
        option_views(final(options)@) == cli_table(vcpus@, memory@, rng@).take(38),
{
    let ghost table = cli_table(vcpus@, memory@, rng@);
    push_option(options, repeated_option("rate-limit-group", OptionHelp::Syntax(ConfigSyntax::RateLimiterGroup)));
    push_option(options, single_option("restore", OptionGroup::VmmConfig, OptionHelp::Syntax(ConfigSyntax::Restore)));
    push_option(options, defaulted_option("rng", rng, OptionHelp::Text("Random number generator parameters \"src=<entropy_source_path>,iommu=on|off\"")));
    push_option(options, repeated_option("scsi", OptionHelp::Text("SCSI controller parameters \"path=<disk_path>,id=<device_id>,pci_segment=<segment>,iommu=on|off,num_queues=<n>,queue_size=<size>,target=<target_id>,lun=<lun_id>,readonly=on|off\"")));
    let mut seccomp: CliOption = single_option("seccomp", OptionGroup::Ungrouped, OptionHelp::Missing);
    seccomp.values = OptionValues::TrueFalseLog;
    seccomp.default = Some("true".to_owned());
    push_option(options, seccomp);
    push_option(options, defaulted_option("serial", "null".to_owned(), OptionHelp::Text("Control serial port: off|null|pty|tty|file=</path/to/a/file>|socket=</path/to/a/file>")));
    push_option(options, single_option("tpm", OptionGroup::VmConfig, OptionHelp::Syntax(ConfigSyntax::Tpm)));
    push_option(options, repeated_option("user-device", OptionHelp::Syntax(ConfigSyntax::UserDevice)));
    let mut verbose: CliOption = single_option("v", OptionGroup::Logging, OptionHelp::Text("Sets the level of debugging output"));
    verbose.short = Some('v');
    verbose.long = false;
    verbose.num_args = NumArgs::Unset;
    verbose.action = OptionAction::Count;
    push_option(options, verbose);
    push_option(options, repeated_option("vdpa", OptionHelp::Syntax(ConfigSyntax::Vdpa)));
    let mut version: CliOption = switch_option("version", OptionHelp::Text("Print version"));
    version.short = Some('V');
    version.group = OptionGroup::Ungrouped;
    push_option(options, version);
    push_option(options, single_option("vsock", OptionGroup::VmConfig, OptionHelp::Syntax(ConfigSyntax::Vsock)));
    push_option(options, switch_option("watchdog", OptionHelp::Text("Enable virtio-watchdog")));
    assert(option_views(options@) =~= table.take(38));
}

/// The command line options, in alphabetical order, with the given default
/// values.
pub fn get_cli_options_sorted(
    default_vcpus: String,
    default_memory: String,
    default_rng: String,
) -> (options: Vec<CliOption>)
    ensures
        option_views(options@) == cli_table(default_vcpus@, default_memory@, default_rng@),
        options@.len() == 38,
{
    let ghost table = cli_table(default_vcpus@, default_memory@, default_rng@);
    let mut options: Vec<CliOption> = Vec::new();
    assert(option_views(options@) =~= table.take(0));
    push_first_options(
        &mut options,
        default_vcpus.clone(),
        default_memory.clone(),
        default_rng.clone(),
    );
    push_middle_options(
        &mut options,
        default_vcpus.clone(),
        default_memory.clone(),
        default_rng.clone(),
    );
    push_last_options(&mut options, default_vcpus, default_memory, default_rng);
    assert(table.take(38) =~= table);
    options
}

// ─── Order ───────────────────────────────────────────────────────────────────

/// One text comes before another in alphabetical order: it is a proper prefix
/// of it, or has the smaller character where they first differ.
pub open spec fn comes_before(a: Seq<char>, b: Seq<char>) -> bool {
    exists|k: int| #[trigger] differs_at(a, b, k)
}

/// The texts agree before `k`, and at `k` the first has ended or has the
/// smaller character.
pub open spec fn differs_at(a: Seq<char>, b: Seq<char>, k: int) -> bool {
    &&& 0 <= k <= a.len()
    &&& k < b.len()
    &&& forall|i: int| 0 <= i < k ==> a[i] == b[i]
    &&& k == a.len() || a[k] < b[k]
}

/// The names of the options.
pub open spec fn option_names() -> Seq<Seq<char>> {
    seq![
        "api-socket"@,
        "balloon"@,
        "cmdline"@,
        "console"@,
        "cpus"@,
        "debug-console"@,
        "device"@,
        "disk"@,
        "event-monitor"@,
        "firmware"@,
        "fs"@,
        "generic-vhost-user"@,
        "initramfs"@,
        "kernel"@,
        "landlock"@,
        "landlock-rules"@,
        "log-file"@,
        "memory"@,
        "memory-zone"@,
        "net"@,
        "numa"@,
        "pci-segment"@,
        "platform"@,
        "pmem"@,
        "pvpanic"@,
        "rate-limit-group"@,
        "restore"@,
        "rng"@,
        "scsi"@,
        "seccomp"@,
        "serial"@,
        "tpm"@,
        "user-device"@,
        "v"@,
        "vdpa"@,
        "version"@,
        "vsock"@,
        "watchdog"@,
    ]
}

/// The options are those of the names, each before all later ones in alphabetical
/// order, whatever the default values.
pub proof fn options_are_sorted(vcpus: Seq<char>, memory: Seq<char>, rng: Seq<char>)
    ensures
        cli_table(vcpus, memory, rng).len() == 38,
        forall|i: int|
            0 <= i < 38 ==> (#[trigger] cli_table(vcpus, memory, rng)[i]).name == option_names()[i],
        forall|i: int, j: int|
            0 <= i < j < 38 ==> comes_before(
                #[trigger] option_names()[i],
                #[trigger] option_names()[j],
            ),
{
    assert forall|i: int, j: int| 0 <= i < j < 38 implies comes_before(
        #[trigger] option_names()[i],
        #[trigger] option_names()[j],
    ) by {
        names_are_sorted(i, j);
    }
}

/// Alphabetical order is transitive.
proof fn order_is_transitive(a: Seq<char>, b: Seq<char>, c: Seq<char>)
    requires
        comes_before(a, b),
        comes_before(b, c),
    ensures
        comes_before(a, c),
{
    let k = choose|k: int| #[trigger] differs_at(a, b, k);
    let l = choose|l: int| #[trigger] differs_at(b, c, l);
    if k <= l {
        assert(differs_at(a, c, k));
    } else {
        assert(differs_at(a, c, l));
    }
}

/// The name of an option comes before that of each later one.
proof fn names_are_sorted(i: int, j: int)
    requires
        0 <= i < j < 38,
    ensures
        comes_before(option_names()[i], option_names()[j]),
    decreases j - i,
{
    if j == i + 1 {
        names_next(i);
    } else {
        names_are_sorted(i, j - 1);
        names_next(j - 1);
        order_is_transitive(option_names()[i], option_names()[j - 1], option_names()[j]);
    }
}

proof fn names_next(i: int)
    requires
        0 <= i < 37,
    ensures
        comes_before(option_names()[i], option_names()[i + 1]),
{
    if 0 <= i && i < 6 {
        names_from_0(i);
    }
    if 6 <= i && i < 12 {
        names_from_6(i);
    }
    if 12 <= i && i < 18 {
        names_from_12(i);
    }
    if 18 <= i && i < 24 {
        names_from_18(i);
    }
    if 24 <= i && i < 30 {
        names_from_24(i);
    }
    if 30 <= i && i < 36 {
        names_from_30(i);
    }
    if 36 <= i && i < 37 {
        names_from_36(i);
    }
}

proof fn names_from_0(i: int)
    requires
        0 <= i < 6,
    ensures
        comes_before(option_names()[i], option_names()[i + 1]),
{
    let n = option_names();
    reveal_strlit("api-socket");
    reveal_strlit("balloon");
    reveal_strlit("cmdline");
    reveal_strlit("console");
    reveal_strlit("cpus");
    reveal_strlit("debug-console");
    reveal_strlit("device");
    assert(differs_at("api-socket"@, "balloon"@, 0));
    assert(differs_at("balloon"@, "cmdline"@, 0));
    assert(differs_at("cmdline"@, "console"@, 1));
    assert(differs_at("console"@, "cpus"@, 1));
    assert(differs_at("cpus"@, "debug-console"@, 0));
    assert(differs_at("debug-console"@, "device"@, 2));
}

proof fn names_from_6(i: int)
    requires
        6 <= i < 12,
    ensures
        comes_before(option_names()[i], option_names()[i + 1]),
{
    let n = option_names();
    reveal_strlit("device");
    reveal_strlit("disk");
    reveal_strlit("event-monitor");
    reveal_strlit("firmware");
    reveal_strlit("fs");
    reveal_strlit("generic-vhost-user");
    reveal_strlit("initramfs");
    assert(differs_at("device"@, "disk"@, 1));
    assert(differs_at("disk"@, "event-monitor"@, 0));
    assert(differs_at("event-monitor"@, "firmware"@, 0));
    assert(differs_at("firmware"@, "fs"@, 1));
    assert(differs_at("fs"@, "generic-vhost-user"@, 0));
    assert(differs_at("generic-vhost-user"@, "initramfs"@, 0));
}

proof fn names_from_12(i: int)
    requires
        12 <= i < 18,
    ensures
        comes_before(option_names()[i], option_names()[i + 1]),
{
    let n = option_names();
    reveal_strlit("initramfs");
    reveal_strlit("kernel");
    reveal_strlit("landlock");
    reveal_strlit("landlock-rules");
    reveal_strlit("log-file");
    reveal_strlit("memory");
    reveal_strlit("memory-zone");
    assert(differs_at("initramfs"@, "kernel"@, 0));
    assert(differs_at("kernel"@, "landlock"@, 0));
    assert(differs_at("landlock"@, "landlock-rules"@, 8));
    assert(differs_at("landlock-rules"@, "log-file"@, 1));
    assert(differs_at("log-file"@, "memory"@, 0));
    assert(differs_at("memory"@, "memory-zone"@, 6));
}

proof fn names_from_18(i: int)
    requires
        18 <= i < 24,
    ensures
        comes_before(option_names()[i], option_names()[i + 1]),
{
    let n = option_names();
    reveal_strlit("memory-zone");
    reveal_strlit("net");
    reveal_strlit("numa");
    reveal_strlit("pci-segment");
    reveal_strlit("platform");
    reveal_strlit("pmem");
    reveal_strlit("pvpanic");
    assert(differs_at("memory-zone"@, "net"@, 0));
    assert(differs_at("net"@, "numa"@, 1));
    assert(differs_at("numa"@, "pci-segment"@, 0));
    assert(differs_at("pci-segment"@, "platform"@, 1));
    assert(differs_at("platform"@, "pmem"@, 1));
    assert(differs_at("pmem"@, "pvpanic"@, 1));
}

proof fn names_from_24(i: int)
    requires
        24 <= i < 30,
    ensures
        comes_before(option_names()[i], option_names()[i + 1]),
{
    let n = option_names();
    reveal_strlit("pvpanic");
    reveal_strlit("rate-limit-group");
    reveal_strlit("restore");
    reveal_strlit("rng");
    reveal_strlit("scsi");
    reveal_strlit("seccomp");
    reveal_strlit("serial");
    assert(differs_at("pvpanic"@, "rate-limit-group"@, 0));
    assert(differs_at("rate-limit-group"@, "restore"@, 1));
    assert(differs_at("restore"@, "rng"@, 1));
    assert(differs_at("rng"@, "scsi"@, 0));
    assert(differs_at("scsi"@, "seccomp"@, 1));
    assert(differs_at("seccomp"@, "serial"@, 2));
}

proof fn names_from_30(i: int)
    requires
        30 <= i < 36,
    ensures
        comes_before(option_names()[i], option_names()[i + 1]),
{
    let n = option_names();
    reveal_strlit("serial");
    reveal_strlit("tpm");
    reveal_strlit("user-device");
    reveal_strlit("v");
    reveal_strlit("vdpa");
    reveal_strlit("version");
    reveal_strlit("vsock");
    assert(differs_at("serial"@, "tpm"@, 0));
    assert(differs_at("tpm"@, "user-device"@, 0));
    assert(differs_at("user-device"@, "v"@, 0));
    assert(differs_at("v"@, "vdpa"@, 1));
    assert(differs_at("vdpa"@, "version"@, 1));
    assert(differs_at("version"@, "vsock"@, 1));
}

proof fn names_from_36(i: int)
    requires
        36 <= i < 37,
    ensures
        comes_before(option_names()[i], option_names()[i + 1]),
{
    let n = option_names();
    reveal_strlit("vsock");
    reveal_strlit("watchdog");
    assert(differs_at("vsock"@, "watchdog"@, 0));
}

// ─── Groups ──────────────────────────────────────────────────────────────────

/// A group of options.
#[derive(Debug, Clone, Copy)]
pub struct CliGroup {
    /// The group
    pub group: OptionGroup,
    /// Its name
    pub name: &'static str,
    /// The group of which an option must be given with one of its own
    pub needs: Option<OptionGroup>,
}

/// The groups of options, of each of which several may be given. A
/// configuration of the virtual machine needs a payload.
pub fn cli_groups() -> (groups: Vec<CliGroup>)
    ensures
        groups@.len() == 4,
        groups@[0].group == OptionGroup::VmConfig && groups@[0].name@ == "vm-config"@
            && groups@[0].needs == Some(OptionGroup::VmPayload),
        groups@[1].group == OptionGroup::VmmConfig && groups@[1].name@ == "vmm-config"@
            && groups@[1].needs is None,
        groups@[2].group == OptionGroup::Logging && groups@[2].name@ == "logging"@
            && groups@[2].needs is None,
        groups@[3].group == OptionGroup::VmPayload && groups@[3].name@ == "vm-payload"@
            && groups@[3].needs is None,
{
    vec![
        CliGroup {
            group: OptionGroup::VmConfig,
            name: "vm-config",
            needs: Some(OptionGroup::VmPayload),
        },
        CliGroup { group: OptionGroup::VmmConfig, name: "vmm-config", needs: None },
        CliGroup { group: OptionGroup::Logging, name: "logging", needs: None },
        CliGroup { group: OptionGroup::VmPayload, name: "vm-payload", needs: None },
    ]
}

/// The defaults of the options for processors, memory and random numbers are those that
/// are given, and no other option depends on them.
pub proof fn given_defaults_are_used(
    vcpus: Seq<char>,
    memory: Seq<char>,
    rng: Seq<char>,
    vcpus2: Seq<char>,
    memory2: Seq<char>,
    rng2: Seq<char>,
    i: int,
)
    requires
        0 <= i < 38,
    ensures
        ({
            let t = cli_table(vcpus, memory, rng);
            let u = cli_table(vcpus2, memory2, rng2);
            &&& t.len() == 38
            &&& t[4].name == "cpus"@ && t[4].default == Some(vcpus)
            &&& t[17].name == "memory"@ && t[17].default == Some(memory)
            &&& t[27].name == "rng"@ && t[27].default == Some(rng)
            &&& i != 4 && i != 17 && i != 27 ==> t[i] == u[i]
        }),
{
}

/// An option that can be repeated takes one or more values each time, and is one of the
/// virtual machine: those for devices of which there can be several, for zones of
/// memory, for nodes and segments, and for rules.
pub proof fn repeated_options_take_values(
    vcpus: Seq<char>,
    memory: Seq<char>,
    rng: Seq<char>,
    i: int,
)
    requires
        0 <= i < 38,
    ensures
        ({
            let o = cli_table(vcpus, memory, rng)[i];
            &&& o.action == OptionAction::Append <==> i == 6 || i == 7 || i == 10 || i == 11 || i
                == 15 || i == 18 || i == 19 || i == 20 || i == 21 || i == 23 || i == 25 || i == 28
                || i == 32 || i == 34
            &&& o.action == OptionAction::Append ==> o.num_args == NumArgs::OneOrMore && o.group
                == OptionGroup::VmConfig && o.default is None && o.long
            &&& o.action == OptionAction::SetTrue ==> o.num_args == NumArgs::Zero
            &&& o.short is Some <==> i == 33 || i == 35
        }),
{
    let t = cli_table(vcpus, memory, rng);
    assert(t.len() == 38);
    let k = i;
    assert(k == 0 || k == 1 || k == 2 || k == 3 || k == 4 || k == 5 || k == 6 || k == 7 || k == 8
        || k == 9 || k == 10 || k == 11 || k == 12 || k == 13 || k == 14 || k == 15 || k == 16 || k
        == 17 || k == 18 || k == 19 || k == 20 || k == 21 || k == 22 || k == 23 || k == 24 || k
        == 25 || k == 26 || k == 27 || k == 28 || k == 29 || k == 30 || k == 31 || k == 32 || k
        == 33 || k == 34 || k == 35 || k == 36 || k == 37);
}

} // verus!
