use vstd::prelude::*;
use crate::text::{opt_text, texts, lemma_texts_push, decimal, decimal_text, concat_text};

verus! {

/// The scheduler configuration that setup writes: listen on every interface, announce the
/// printers over DNS-SD, and let the local networks use and manage the server.
pub const CUPSD_CONF: &'static str = "# Listen on all interfaces\nListen 0.0.0.0:631\n\n# mDNS/DNS-SD \u{2014} allow Apple devices to auto-discover printers\nServerName %H\nBrowseLocalProtocols dnssd\nBrowseDNSSDSubTypes _cups,_print\n\n<Location />\n  Order allow,deny\n  Allow localhost\n  Allow 10.0.0.0/8\n  Allow 172.16.0.0/12\n  Allow 192.168.0.0/16\n</Location>\n\n<Location /admin>\n  Order allow,deny\n  Allow localhost\n  Allow 10.0.0.0/8\n  Allow 172.16.0.0/12\n  Allow 192.168.0.0/16\n</Location>\n\n<Location /jobs>\n  Order allow,deny\n  Allow localhost\n  Allow 10.0.0.0/8\n  Allow 172.16.0.0/12\n  Allow 192.168.0.0/16\n</Location>\n\n<Limit Send-Document Send-URI Hold-Job Release-Job Restart-Job Purge-Jobs Set-Job-Attributes Create-Job-Subscription Renew-Subscription Cancel-Subscription Get-Notifications Reprocess-Job Cancel-Current-Job Suspend-Current-Job Resume-Job Cancel-My-Jobs Close-Job CUPS-Move-Job CUPS-Get-Document>\n  Order allow,deny\n  Allow localhost\n  Allow 10.0.0.0/8\n  Allow 172.16.0.0/12\n  Allow 192.168.0.0/16\n</Limit>\n\nWebInterface Yes\nLogLevel info\nDefaultAuthType None\nJobSheets none,none\nPreserveJobHistory No\n";

/// Where the scheduler configuration lives.
pub const CONFIG_DIR: &'static str = "/share/cups/config";

/// Where an older version of the add-on kept the configuration.
pub const LEGACY_CONFIG_DIR: &'static str = "/data/cups/config";

/// Marks a configuration that was already moved from `LEGACY_CONFIG_DIR`.
pub const MIGRATED_MARKER: &'static str = "/share/cups/config/.migrated";

/// The add-on's options file.
pub const OPTIONS_PATH: &'static str = "/data/options.json";

// ───────────────────────── model ─────────────────────────

/// A condition on the file system, tested when its step is reached.
pub ghost enum ConditionView {
    Exists(Seq<char>),
    Missing(Seq<char>),
    IsDir(Seq<char>),
}

/// A setup action.
pub ghost enum ActionView {
    CreateDirAll(Seq<char>),
    Capture(Seq<char>, Seq<Seq<char>>),
    Run(Seq<char>, Seq<Seq<char>>),
    Spawn(Seq<char>, Seq<Seq<char>>),
    WriteFile(Seq<char>, Seq<char>),
    CopyFile(Seq<char>, Seq<char>),
    RemoveDirAll(Seq<char>),
    RemoveFile(Seq<char>),
    Symlink(Seq<char>, Seq<char>),
    Log(Seq<char>),
}

/// A setup step: an action taken where all its conditions hold.
pub ghost struct StepView {
    pub conditions: Seq<ConditionView>,
    pub action: ActionView,
}

/// A step taken under `conditions`.
pub open spec fn when(conditions: Seq<ConditionView>, action: ActionView) -> StepView {
    StepView { conditions, action }
}

/// A step taken in any case.
pub open spec fn always(action: ActionView) -> StepView {
    StepView { conditions: seq![], action }
}

/// The condition under which the legacy configuration is moved: it exists and was not moved.
pub open spec fn migration_guard() -> Seq<ConditionView> {
    seq![ConditionView::Exists(LEGACY_CONFIG_DIR@), ConditionView::Missing(MIGRATED_MARKER@)]
}

/// Creating the persistent directories, owning them by `root:lp`, starting D-Bus and Avahi,
/// and writing the scheduler configuration.
pub open spec fn base_steps() -> Seq<StepView> {
    seq![
        always(ActionView::CreateDirAll("/share/cups/cache"@)),
        always(ActionView::CreateDirAll("/share/cups/logs"@)),
        always(ActionView::CreateDirAll("/share/cups/state"@)),
        always(ActionView::CreateDirAll("/share/cups/config"@)),
        always(ActionView::CreateDirAll("/share/cups/config/ppd"@)),
        always(ActionView::CreateDirAll("/share/cups/config/ssl"@)),
        always(ActionView::Capture("chown"@, seq!["-R"@, "root:lp"@, "/share/cups"@])),
        always(ActionView::Capture("chmod"@, seq!["-R"@, "775"@, "/share/cups"@])),
        always(ActionView::Run("mkdir"@, seq!["-p"@, "/var/run/dbus"@])),
        always(ActionView::Spawn("dbus-daemon"@, seq!["--system"@])),
        always(ActionView::Spawn("avahi-daemon"@, seq!["-D"@])),
        always(ActionView::WriteFile("/share/cups/config/cupsd.conf"@, CUPSD_CONF@)),
    ]
}

/// Moving the legacy configuration once: the printer lists that exist, the driver and
/// certificate directories that exist, then the marker.
pub open spec fn migration_steps() -> Seq<StepView> {
    seq![
        when(migration_guard(), ActionView::Log("migrating /data/cups \u{2192} /share/cups..."@)),
        when(
            migration_guard() + seq![ConditionView::Exists("/data/cups/config/printers.conf"@)],
            ActionView::CopyFile("/data/cups/config/printers.conf"@, "/share/cups/config/printers.conf"@),
        ),
        when(
            migration_guard() + seq![ConditionView::Exists("/data/cups/config/printers.conf.O"@)],
            ActionView::CopyFile("/data/cups/config/printers.conf.O"@, "/share/cups/config/printers.conf.O"@),
        ),
        when(
            migration_guard() + seq![ConditionView::IsDir("/data/cups/config/ppd"@)],
            ActionView::Capture("cp"@, seq!["-r"@, "/data/cups/config/ppd/."@, "/share/cups/config/ppd"@]),
        ),
        when(
            migration_guard() + seq![ConditionView::IsDir("/data/cups/config/ssl"@)],
            ActionView::Capture("cp"@, seq!["-r"@, "/data/cups/config/ssl/."@, "/share/cups/config/ssl"@]),
        ),
        when(migration_guard(), ActionView::WriteFile(MIGRATED_MARKER@, ""@)),
    ]
}

/// Pointing `/etc/cups` at the persistent configuration, creating an empty printer list where
/// there is none, and copying the packaged defaults that are missing.
pub open spec fn link_steps() -> Seq<StepView> {
    seq![
        always(ActionView::RemoveDirAll("/etc/cups"@)),
        always(ActionView::RemoveFile("/etc/cups"@)),
        always(ActionView::Symlink(CONFIG_DIR@, "/etc/cups"@)),
        when(
            seq![ConditionView::Missing("/share/cups/config/printers.conf"@)],
            ActionView::WriteFile("/share/cups/config/printers.conf"@, ""@),
        ),
        when(
            seq![
                ConditionView::Exists("/usr/share/cups/default-config/cups-files.conf"@),
                ConditionView::Missing("/share/cups/config/cups-files.conf"@),
            ],
            ActionView::CopyFile("/usr/share/cups/default-config/cups-files.conf"@, "/share/cups/config/cups-files.conf"@),
        ),
        when(
            seq![
                ConditionView::Exists("/usr/share/cups/default-config/snmp.conf"@),
                ConditionView::Missing("/share/cups/config/snmp.conf"@),
            ],
            ActionView::CopyFile("/usr/share/cups/default-config/snmp.conf"@, "/share/cups/config/snmp.conf"@),
        ),
        when(
            seq![
                ConditionView::Exists("/usr/share/cups/default-config/subscriptions.conf"@),
                ConditionView::Missing("/share/cups/config/subscriptions.conf"@),
            ],
            ActionView::CopyFile("/usr/share/cups/default-config/subscriptions.conf"@, "/share/cups/config/subscriptions.conf"@),
        ),
    ]
}

/// Installing the driver package `deb` (a path under `/share`) as process `pid`: unpack it in
/// `/tmp/driver-<pid>`, copy its filters into place and make them executable, copy its
/// libraries and models into place, then remove the unpacked files; all only where the
/// package exists.
pub open spec fn driver_steps(deb: Seq<char>, pid: nat) -> Seq<StepView> {
    let path = "/share/"@ + deb;
    let dir = "/tmp/driver-"@ + decimal(pid);
    let filters = dir + "/usr/lib/cups/filter"@;
    let libs = dir + "/usr/lib"@;
    let models = dir + "/usr/share/cups/model"@;
    let g = seq![ConditionView::Exists(path)];
    seq![
        when(g, ActionView::Log("installing driver from "@ + path + "..."@)),
        when(g, ActionView::CreateDirAll(dir)),
        when(g, ActionView::Capture("dpkg"@, seq!["-x"@, path, dir])),
        when(
            g + seq![ConditionView::IsDir(filters)],
            ActionView::Capture("cp"@, seq!["-r"@, filters + "/."@, "/usr/lib/cups/filter"@]),
        ),
        when(
            g + seq![ConditionView::IsDir(filters)],
            ActionView::Capture("chmod"@, seq!["-R"@, "755"@, "/usr/lib/cups/filter"@]),
        ),
        when(
            g + seq![ConditionView::IsDir(libs)],
            ActionView::Capture(
                "find"@,
                seq![libs, "-name"@, "*.so*"@, "-exec"@, "cp"@, "{}"@, "/usr/lib/"@, ";"@],
            ),
        ),
        when(
            g + seq![ConditionView::IsDir(models)],
            ActionView::Capture("cp"@, seq!["-r"@, models + "/."@, "/usr/share/cups/model"@]),
        ),
        when(g, ActionView::RemoveDirAll(dir)),
    ]
}

/// The driver package that the options name, where they name a non-empty one.
pub open spec fn driver_package(deb: Option<Seq<char>>) -> Option<Seq<char>> {
    match deb {
        Some(d) => if d.len() > 0 {
            Some(d)
        } else {
            None
        },
        None => None,
    }
}

/// The whole setup for add-on options naming `deb`, as process `pid`.
pub open spec fn setup_steps(deb: Option<Seq<char>>, pid: nat) -> Seq<StepView> {
    base_steps() + migration_steps() + link_steps() + match driver_package(deb) {
        Some(d) => driver_steps(d, pid),
        None => seq![],
    } + seq![always(ActionView::Log("setup complete"@))]
}


// ───────────────────────── data ─────────────────────────

/// A condition on the file system, tested when its step is reached.
#[derive(Debug, Clone, PartialEq, Eq)]
pub enum Condition {
    /// The path exists.
    Exists(String),
    /// The path does not exist.
    Missing(String),
    /// The path is a directory.
    IsDir(String),
}

impl View for Condition {
    type V = ConditionView;

    open spec fn view(&self) -> ConditionView {
        match self {
            Condition::Exists(p) => ConditionView::Exists(p@),
            Condition::Missing(p) => ConditionView::Missing(p@),
            Condition::IsDir(p) => ConditionView::IsDir(p@),
        }
    }
}

/// A setup action; a failure of one is ignored.
#[derive(Debug, Clone, PartialEq, Eq)]
pub enum SetupAction {
    /// Create a directory and its parents.
    CreateDirAll(String),
    /// Run a program and wait for it, its output captured and dropped.
    Capture { program: String, args: Vec<String> },
    /// Run a program and wait for it, its output shown.
    Run { program: String, args: Vec<String> },
    /// Start a program in the background.
    Spawn { program: String, args: Vec<String> },
    /// Write a file.
    WriteFile { path: String, contents: String },
    /// Copy a file.
    CopyFile { from: String, to: String },
    /// Remove a directory and its contents.
    RemoveDirAll(String),
    /// Remove a file.
    RemoveFile(String),
    /// Create the symbolic link `link` pointing at `target`.
    Symlink { target: String, link: String },
    /// Report progress.
    Log(String),
}

impl View for SetupAction {
    type V = ActionView;

    open spec fn view(&self) -> ActionView {
        match self {
            SetupAction::CreateDirAll(p) => ActionView::CreateDirAll(p@),
            SetupAction::Capture { program, args } => ActionView::Capture(program@, texts(args@)),
            SetupAction::Run { program, args } => ActionView::Run(program@, texts(args@)),
            SetupAction::Spawn { program, args } => ActionView::Spawn(program@, texts(args@)),
            SetupAction::WriteFile { path, contents } => ActionView::WriteFile(path@, contents@),
            SetupAction::CopyFile { from, to } => ActionView::CopyFile(from@, to@),
            SetupAction::RemoveDirAll(p) => ActionView::RemoveDirAll(p@),
            SetupAction::RemoveFile(p) => ActionView::RemoveFile(p@),
            SetupAction::Symlink { target, link } => ActionView::Symlink(target@, link@),
            SetupAction::Log(m) => ActionView::Log(m@),
        }
    }
}

/// A setup step: an action taken where all its conditions hold when the step is reached.
#[derive(Debug, Clone, PartialEq, Eq)]
pub struct SetupStep {
    pub conditions: Vec<Condition>,
    pub action: SetupAction,
}

impl View for SetupStep {
    type V = StepView;

    open spec fn view(&self) -> StepView {
        StepView { conditions: self.conditions@.map_values(|c: Condition| c@), action: self.action@ }
    }
}

/// The views of a sequence of steps.
pub open spec fn steps_view(v: Seq<SetupStep>) -> Seq<StepView> {
    v.map_values(|s: SetupStep| s@)
}

/// The add-on options that setup reads.
#[derive(Debug, Clone, PartialEq, Eq)]
pub struct AddonOptions {
    /// A driver package to install, relative to `/share`.
    pub printer_driver_deb: Option<String>,
}

/// An owned copy of `t`.
fn text(t: &str) -> (s: String)
    ensures
        s@ == t@,
{
    t.to_owned()
}

/// No strings.
fn none() -> (v: Vec<String>)
    ensures
        texts(v@) == Seq::<Seq<char>>::empty(),
{
    let v: Vec<String> = Vec::new();
    assert(texts(v@) =~= Seq::<Seq<char>>::empty());
    v
}

/// `v` with `t` appended.
fn with(v: Vec<String>, t: &str) -> (r: Vec<String>)
    ensures
        texts(r@) == texts(v@).push(t@),
{
    let mut r = v;
    let s = text(t);
    proof {
        lemma_texts_push(r@, s);
    }
    r.push(s);
    r
}

/// The strings given.
fn args1(a0: &str) -> (v: Vec<String>)
    ensures
        texts(v@) == seq![a0@],
{
    let v = with(none(), a0);
    assert(texts(v@) =~= seq![a0@]);
    v
}

/// The strings given.
fn args2(a0: &str, a1: &str) -> (v: Vec<String>)
    ensures
        texts(v@) == seq![a0@, a1@],
{
    let v = with(with(none(), a0), a1);
    assert(texts(v@) =~= seq![a0@, a1@]);
    v
}

/// The strings given.
fn args3(a0: &str, a1: &str, a2: &str) -> (v: Vec<String>)
    ensures
        texts(v@) == seq![a0@, a1@, a2@],
{
    let v = with(with(with(none(), a0), a1), a2);
    assert(texts(v@) =~= seq![a0@, a1@, a2@]);
    v
}

/// The conditions given.
fn conds1(c0: Condition) -> (v: Vec<Condition>)
    ensures
        v@.map_values(|c: Condition| c@) == seq![c0@],
{
    let mut v: Vec<Condition> = Vec::new();
    v.push(c0);
    assert(v@.map_values(|c: Condition| c@) =~= seq![c0@]);
    v
}

/// The conditions given.
fn conds2(c0: Condition, c1: Condition) -> (v: Vec<Condition>)
    ensures
        v@.map_values(|c: Condition| c@) == seq![c0@, c1@],
{
    let mut v: Vec<Condition> = Vec::new();
    v.push(c0);
    v.push(c1);
    assert(v@.map_values(|c: Condition| c@) =~= seq![c0@, c1@]);
    v
}

/// The conditions given.
fn conds3(c0: Condition, c1: Condition, c2: Condition) -> (v: Vec<Condition>)
    ensures
        v@.map_values(|c: Condition| c@) == seq![c0@, c1@, c2@],
{
    let mut v: Vec<Condition> = Vec::new();
    v.push(c0);
    v.push(c1);
    v.push(c2);
    assert(v@.map_values(|c: Condition| c@) =~= seq![c0@, c1@, c2@]);
    v
}

/// A step taken under `conditions`.
fn guarded(conditions: Vec<Condition>, action: SetupAction) -> (s: SetupStep)
    ensures
        s@ == when(conditions@.map_values(|c: Condition| c@), action@),
{
    SetupStep { conditions, action }
}

/// The condition that the legacy configuration exists and was not moved yet, with `extra`.
fn migration_conds(extra: Option<Condition>) -> (v: Vec<Condition>)
    ensures
        v@.map_values(|c: Condition| c@) == match extra {
            Some(c) => migration_guard() + seq![c@],
            None => migration_guard(),
        },
{
    let legacy = Condition::Exists(text(LEGACY_CONFIG_DIR));
    let unmarked = Condition::Missing(text(MIGRATED_MARKER));
    match extra {
        Some(c) => {
            let v = conds3(legacy, unmarked, c);
            assert(migration_guard() + seq![c@] =~= seq![
                ConditionView::Exists(LEGACY_CONFIG_DIR@),
                ConditionView::Missing(MIGRATED_MARKER@),
                c@,
            ]);
            v
        },
        None => conds2(legacy, unmarked),
    }
}

/// A step taken in any case.
fn plain(action: SetupAction) -> (s: SetupStep)
    ensures
        s@ == always(action@),
{
    let s = SetupStep { conditions: Vec::new(), action };
    assert(s@.conditions =~= Seq::<ConditionView>::empty());
    s
}

/// The steps of `base_steps`.
fn base_plan() -> (v: Vec<SetupStep>)
    ensures
        steps_view(v@) == base_steps(),
{
    let mut v: Vec<SetupStep> = Vec::new();
    v.push(plain(SetupAction::CreateDirAll(text("/share/cups/cache"))));
    v.push(plain(SetupAction::CreateDirAll(text("/share/cups/logs"))));
    v.push(plain(SetupAction::CreateDirAll(text("/share/cups/state"))));
    v.push(plain(SetupAction::CreateDirAll(text("/share/cups/config"))));
    v.push(plain(SetupAction::CreateDirAll(text("/share/cups/config/ppd"))));
    v.push(plain(SetupAction::CreateDirAll(text("/share/cups/config/ssl"))));
    v.push(plain(SetupAction::Capture { program: text("chown"), args: args3("-R", "root:lp", "/share/cups") }));
    v.push(plain(SetupAction::Capture { program: text("chmod"), args: args3("-R", "775", "/share/cups") }));
    v.push(plain(SetupAction::Run { program: text("mkdir"), args: args2("-p", "/var/run/dbus") }));
    v.push(plain(SetupAction::Spawn { program: text("dbus-daemon"), args: args1("--system") }));
    v.push(plain(SetupAction::Spawn { program: text("avahi-daemon"), args: args1("-D") }));
    v.push(plain(SetupAction::WriteFile { path: text("/share/cups/config/cupsd.conf"), contents: text(CUPSD_CONF) }));
    assert(steps_view(v@) =~~= base_steps());
    v
}


/// The steps of `migration_steps`.
fn migration_plan() -> (v: Vec<SetupStep>)
    ensures
        steps_view(v@) == migration_steps(),
{
    let mut v: Vec<SetupStep> = Vec::new();
    v.push(guarded(migration_conds(None), SetupAction::Log(text("migrating /data/cups \u{2192} /share/cups..."))));
    v.push(guarded(
        migration_conds(Some(Condition::Exists(text("/data/cups/config/printers.conf")))),
        SetupAction::CopyFile { from: text("/data/cups/config/printers.conf"), to: text("/share/cups/config/printers.conf") },
    ));
    v.push(guarded(
        migration_conds(Some(Condition::Exists(text("/data/cups/config/printers.conf.O")))),
        SetupAction::CopyFile { from: text("/data/cups/config/printers.conf.O"), to: text("/share/cups/config/printers.conf.O") },
    ));
    v.push(guarded(
        migration_conds(Some(Condition::IsDir(text("/data/cups/config/ppd")))),
        SetupAction::Capture { program: text("cp"), args: args3("-r", "/data/cups/config/ppd/.", "/share/cups/config/ppd") },
    ));
    v.push(guarded(
        migration_conds(Some(Condition::IsDir(text("/data/cups/config/ssl")))),
        SetupAction::Capture { program: text("cp"), args: args3("-r", "/data/cups/config/ssl/.", "/share/cups/config/ssl") },
    ));
    v.push(guarded(migration_conds(None), SetupAction::WriteFile { path: text(MIGRATED_MARKER), contents: text("") }));
    assert(steps_view(v@) =~~= migration_steps());
    v
}

/// Copies a packaged default configuration file where it exists and is missing from the
/// configuration.
fn default_copy(from: &str, to: &str) -> (s: SetupStep)
    ensures
        s@ == when(
            seq![ConditionView::Exists(from@), ConditionView::Missing(to@)],
            ActionView::CopyFile(from@, to@),
        ),
{
    guarded(
        conds2(Condition::Exists(text(from)), Condition::Missing(text(to))),
        SetupAction::CopyFile { from: text(from), to: text(to) },
    )
}

/// The steps of `link_steps`.
fn link_plan() -> (v: Vec<SetupStep>)
    ensures
        steps_view(v@) == link_steps(),
{
    let mut v: Vec<SetupStep> = Vec::new();
    v.push(plain(SetupAction::RemoveDirAll(text("/etc/cups"))));
    v.push(plain(SetupAction::RemoveFile(text("/etc/cups"))));
    v.push(plain(SetupAction::Symlink { target: text(CONFIG_DIR), link: text("/etc/cups") }));
    v.push(guarded(
        conds1(Condition::Missing(text("/share/cups/config/printers.conf"))),
        SetupAction::WriteFile { path: text("/share/cups/config/printers.conf"), contents: text("") },
    ));
    v.push(default_copy("/usr/share/cups/default-config/cups-files.conf", "/share/cups/config/cups-files.conf"));
    v.push(default_copy("/usr/share/cups/default-config/snmp.conf", "/share/cups/config/snmp.conf"));
    v.push(default_copy("/usr/share/cups/default-config/subscriptions.conf", "/share/cups/config/subscriptions.conf"));
    assert(steps_view(v@) =~~= link_steps());
    v
}

/// The condition that `path` exists, with `extra`.
fn package_conds(path: &str, extra: Option<Condition>) -> (v: Vec<Condition>)
    ensures
        v@.map_values(|c: Condition| c@) == match extra {
            Some(c) => seq![ConditionView::Exists(path@)] + seq![c@],
            None => seq![ConditionView::Exists(path@)],
        },
{
    match extra {
        Some(c) => {
            let v = conds2(Condition::Exists(text(path)), c);
            assert(seq![ConditionView::Exists(path@)] + seq![c@] =~= seq![ConditionView::Exists(path@), c@]);
            v
        },
        None => conds1(Condition::Exists(text(path))),
    }
}

/// The steps of `driver_steps`.
fn driver_plan(deb: &str, pid: u32) -> (v: Vec<SetupStep>)
    ensures
        steps_view(v@) == driver_steps(deb@, pid as nat),
{
    let path = concat_text("/share/", deb);
    let dir = concat_text("/tmp/driver-", decimal_text(pid as u64).as_str());
    let filters = concat_text(dir.as_str(), "/usr/lib/cups/filter");
    let libs = concat_text(dir.as_str(), "/usr/lib");
    let models = concat_text(dir.as_str(), "/usr/share/cups/model");
    let p = path.as_str();
    let mut v: Vec<SetupStep> = Vec::new();
    let msg = concat_text(concat_text("installing driver from ", p).as_str(), "...");
    v.push(guarded(package_conds(p, None), SetupAction::Log(msg)));
    v.push(guarded(package_conds(p, None), SetupAction::CreateDirAll(dir.clone())));
    v.push(guarded(package_conds(p, None), SetupAction::Capture { program: text("dpkg"), args: args3("-x", p, dir.as_str()) }));
    let filters_src = concat_text(filters.as_str(), "/.");
    v.push(guarded(
        package_conds(p, Some(Condition::IsDir(filters.clone()))),
        SetupAction::Capture { program: text("cp"), args: args3("-r", filters_src.as_str(), "/usr/lib/cups/filter") },
    ));
    v.push(guarded(
        package_conds(p, Some(Condition::IsDir(filters.clone()))),
        SetupAction::Capture { program: text("chmod"), args: args3("-R", "755", "/usr/lib/cups/filter") },
    ));
    let mut find_args = args3(libs.as_str(), "-name", "*.so*");
    let mut rest = args3("-exec", "cp", "{}");
    let mut tail = args2("/usr/lib/", ";");
    let ghost a = find_args@;
    let ghost b = rest@;
    let ghost c = tail@;
    find_args.append(&mut rest);
    find_args.append(&mut tail);
    proof {
        assert(texts(find_args@) =~= seq![libs@, "-name"@, "*.so*"@, "-exec"@, "cp"@, "{}"@, "/usr/lib/"@, ";"@]) by {
            assert(find_args@ =~= a + b + c);
            assert(texts(find_args@) =~= texts(a) + texts(b) + texts(c));
        }
    }
    v.push(guarded(
        package_conds(p, Some(Condition::IsDir(libs.clone()))),
        SetupAction::Capture { program: text("find"), args: find_args },
    ));
    let models_src = concat_text(models.as_str(), "/.");
    v.push(guarded(
        package_conds(p, Some(Condition::IsDir(models.clone()))),
        SetupAction::Capture { program: text("cp"), args: args3("-r", models_src.as_str(), "/usr/share/cups/model") },
    ));
    v.push(guarded(package_conds(p, None), SetupAction::RemoveDirAll(dir.clone())));
    assert(steps_view(v@) =~~= driver_steps(deb@, pid as nat));
    v
}

/// The steps that prepare the add-on for options `options`, as process `pid`: the persistent
/// directories and services, the scheduler configuration, the one-time move of a legacy
/// configuration, the `/etc/cups` link and default files, and, where the options name a
/// driver package, its installation.
pub fn setup_plan(options: &AddonOptions, pid: u32) -> (v: Vec<SetupStep>)
    ensures
        steps_view(v@) == setup_steps(opt_text(options.printer_driver_deb), pid as nat),
{
    let ghost deb = opt_text(options.printer_driver_deb);
    let mut v = base_plan();
    let mut m = migration_plan();
    let mut l = link_plan();
    let ghost (v0, m0, l0) = (v@, m@, l@);
    v.append(&mut m);
    v.append(&mut l);
    let mut d: Vec<SetupStep> = match &options.printer_driver_deb {
        Some(deb) => if deb.as_str().is_empty() {
            Vec::new()
        } else {
            driver_plan(deb.as_str(), pid)
        },
        None => Vec::new(),
    };
    let ghost d0 = d@;
    assert(steps_view(d0) =~~= match driver_package(deb) {
        Some(x) => driver_steps(x, pid as nat),
        None => seq![],
    });
    v.append(&mut d);
    v.push(plain(SetupAction::Log(text("setup complete"))));
    assert(steps_view(v@) =~~= setup_steps(deb, pid as nat)) by {
        assert(v@ =~= v0 + m0 + l0 + d0 + seq![v@.last()]);
    }
    v
}


// ───────────────────────── laws ─────────────────────────

/// The legacy configuration is moved at most once: every step of the move waits for a
/// legacy configuration that has no marker, and the last step writes the marker.
pub proof fn law_migration_runs_once(i: int)
    requires
        0 <= i < migration_steps().len(),
    ensures
        migration_steps()[i].conditions.contains(ConditionView::Exists(LEGACY_CONFIG_DIR@)),
        migration_steps()[i].conditions.contains(ConditionView::Missing(MIGRATED_MARKER@)),
        migration_steps().last().action == ActionView::WriteFile(MIGRATED_MARKER@, ""@),
{
    let c = migration_steps()[i].conditions;
    assert(c[0] == ConditionView::Exists(LEGACY_CONFIG_DIR@));
    assert(c[1] == ConditionView::Missing(MIGRATED_MARKER@));
}

/// Packaged defaults never replace the configuration: each default file is copied only to a
/// place where no file is.
pub proof fn law_defaults_do_not_overwrite(i: int)
    requires
        0 <= i < link_steps().len(),
    ensures
        match link_steps()[i].action {
            ActionView::CopyFile(from, to) => link_steps()[i].conditions.contains(
                ConditionView::Missing(to),
            ),
            ActionView::WriteFile(path, _) => link_steps()[i].conditions.contains(
                ConditionView::Missing(path),
            ),
            _ => true,
        },
{
    let st = link_steps()[i];
    if i == 3 {
        assert(st.conditions[0] == ConditionView::Missing("/share/cups/config/printers.conf"@));
    } else if i >= 4 {
        assert(st.conditions[1] == match st.action {
            ActionView::CopyFile(_, to) => ConditionView::Missing(to),
            _ => st.conditions[1],
        });
    }
}

/// Nothing of a driver package is touched unless the package exists.
pub proof fn law_driver_needs_package(deb: Seq<char>, pid: nat, i: int)
    requires
        0 <= i < driver_steps(deb, pid).len(),
    ensures
        driver_steps(deb, pid)[i].conditions.contains(ConditionView::Exists("/share/"@ + deb)),
{
    assert(driver_steps(deb, pid)[i].conditions[0] == ConditionView::Exists("/share/"@ + deb));
}

/// An empty driver option is no driver option.
pub proof fn law_empty_driver_option(pid: nat)
    ensures
        setup_steps(Some(Seq::empty()), pid) == setup_steps(None, pid),
{
}


// ───────────────────────── the options file ─────────────────────────

/// What `serde_json` finds for `key` in `document`: where `document` parses as a JSON value
/// (`serde_json::from_str::<serde_json::Value>`) that is an object with a member `key` whose
/// value is a string, that string; otherwise `None`.
pub uninterp spec fn json_string_member(document: Seq<char>, key: Seq<char>) -> Option<Seq<char>>;

/// Calls `serde_json::from_str::<serde_json::Value>` on `document`, then reads member `key`
/// with `Value::get` and `Value::as_str`.
#[verifier::external_body]
fn string_member(document: &str, key: &str) -> (r: Option<String>)
    ensures
        opt_text(r) == json_string_member(document@, key@),
{
    serde_json::from_str::<serde_json::Value>(document).ok().and_then(
        |v| v.get(key).and_then(|m| m.as_str()).map(|t| t.to_string()),
    )
}

/// The add-on options in the text of the options file, where there is one: the driver
/// package is the string member `printer_driver_deb`, and there is none where the file is
/// missing or holds no such string.
pub fn options_from_json(document: Option<&str>) -> (o: AddonOptions)
    ensures
        opt_text(o.printer_driver_deb) == match document {
            Some(d) => json_string_member(d@, "printer_driver_deb"@),
            None => None,
        },
{
    match document {
        Some(d) => AddonOptions { printer_driver_deb: string_member(d, "printer_driver_deb") },
        None => AddonOptions { printer_driver_deb: None },
    }
}

} // verus!
