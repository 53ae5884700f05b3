use vstd::prelude::*;
use crate::text::begins_with;
use crate::setup::{
    ConditionView, ActionView, StepView, setup_steps, base_steps, migration_steps, link_steps,
    driver_steps, driver_package, always, migration_guard, CONFIG_DIR, LEGACY_CONFIG_DIR,
    MIGRATED_MARKER, CUPSD_CONF,
};

verus! {

// A model of what the setup steps do to the file system, and the law that running setup
// twice leaves the configuration as one run leaves it.

/// What stands at a path.
pub ghost enum Entry {
    File(Seq<char>),
    Dir,
    Link(Seq<char>),
}

/// A file system: what stands at each path.
pub type FileSystem = Map<Seq<char>, Entry>;

/// What programs do to the file system: the state after running a program with arguments.
pub type Programs = spec_fn(Seq<char>, Seq<Seq<char>>, FileSystem) -> FileSystem;

/// Whether `k` lies strictly inside the directory `d`.
pub open spec fn below(k: Seq<char>, d: Seq<char>) -> bool {
    begins_with(k, d + seq!['/'])
}

/// Whether a condition holds in `fs`.
pub open spec fn holds(fs: FileSystem, c: ConditionView) -> bool {
    match c {
        ConditionView::Exists(p) => fs.contains_key(p),
        ConditionView::Missing(p) => !fs.contains_key(p),
        ConditionView::IsDir(p) => fs.contains_key(p) && fs[p] is Dir,
    }
}

/// Whether all conditions hold in `fs`.
pub open spec fn all_hold(fs: FileSystem, cs: Seq<ConditionView>) -> bool {
    forall|i: int| 0 <= i < cs.len() ==> #[trigger] holds(fs, cs[i])
}

/// The file system after an action: creating a directory where nothing stands, running a
/// program, writing a file, copying a file that exists, removing a directory with what is in
/// it or a link, removing a file or link, creating a link where nothing stands.
pub open spec fn act(fs: FileSystem, a: ActionView, run: Programs) -> FileSystem {
    match a {
        ActionView::CreateDirAll(p) => if fs.contains_key(p) {
            fs
        } else {
            fs.insert(p, Entry::Dir)
        },
        ActionView::Capture(program, args) => run(program, args, fs),
        ActionView::Run(program, args) => run(program, args, fs),
        ActionView::Spawn(program, args) => run(program, args, fs),
        ActionView::WriteFile(p, contents) => fs.insert(p, Entry::File(contents)),
        ActionView::CopyFile(from, to) => if fs.contains_key(from) && fs[from] is File {
            fs.insert(to, fs[from])
        } else {
            fs
        },
        ActionView::RemoveDirAll(p) => if fs.contains_key(p) && fs[p] is Dir {
            fs.remove_keys(Set::new(|k: Seq<char>| k == p || below(k, p)))
        } else if fs.contains_key(p) && fs[p] is Link {
            fs.remove(p)
        } else {
            fs
        },
        ActionView::RemoveFile(p) => if fs.contains_key(p) && !(fs[p] is Dir) {
            fs.remove(p)
        } else {
            fs
        },
        ActionView::Symlink(target, link) => if fs.contains_key(link) {
            fs
        } else {
            fs.insert(link, Entry::Link(target))
        },
        ActionView::Log(_) => fs,
    }
}

/// The file system after a step: its action where its conditions hold.
pub open spec fn apply(fs: FileSystem, st: StepView, run: Programs) -> FileSystem {
    if all_hold(fs, st.conditions) {
        act(fs, st.action, run)
    } else {
        fs
    }
}

/// The file system after the first `n` steps.
pub open spec fn run_upto(fs: FileSystem, steps: Seq<StepView>, n: int, run: Programs) -> FileSystem
    decreases n,
{
    if n <= 0 {
        fs
    } else {
        apply(run_upto(fs, steps, n - 1, run), steps[n - 1], run)
    }
}

/// The file system after setup for options naming `deb`, as process `pid`.
pub open spec fn after_setup(fs: FileSystem, deb: Option<Seq<char>>, pid: nat, run: Programs) -> FileSystem {
    run_upto(fs, setup_steps(deb, pid), setup_steps(deb, pid).len() as int, run)
}

/// The configuration: the configuration directory, what is in it, and the `/etc/cups` link.
pub open spec fn config_key(k: Seq<char>) -> bool {
    k == CONFIG_DIR@ || below(k, CONFIG_DIR@) || k == "/etc/cups"@
}

/// The paths that setup reads to decide what to do, besides the configuration.
pub open spec fn source_key(k: Seq<char>) -> bool {
    ||| k == LEGACY_CONFIG_DIR@
    ||| k == "/usr/share/cups/default-config/cups-files.conf"@
    ||| k == "/usr/share/cups/default-config/snmp.conf"@
    ||| k == "/usr/share/cups/default-config/subscriptions.conf"@
}

/// Whether `a` and `b` agree at `k`.
pub open spec fn same_at(a: FileSystem, b: FileSystem, k: Seq<char>) -> bool {
    &&& a.contains_key(k) == b.contains_key(k)
    &&& b.contains_key(k) ==> a[k] == b[k]
}

/// Programs change the configuration and the sources only where they copy recursively
/// (`cp -r <from> <to>`) into a directory, and then only what is inside that directory.
pub open spec fn confined(run: Programs) -> bool {
    forall|program: Seq<char>, args: Seq<Seq<char>>, fs: FileSystem, k: Seq<char>|
        (config_key(k) || source_key(k)) && !copies_into(program, args, k) ==> #[trigger] same_at(
            run(program, args, fs),
            fs,
            k,
        )
}

/// Whether running `program` with `args` is a recursive copy into a directory that holds `k`.
pub open spec fn copies_into(program: Seq<char>, args: Seq<Seq<char>>, k: Seq<char>) -> bool {
    program == "cp"@ && args.len() == 3 && args[0] == "-r"@ && below(k, args[2])
}

/// Whether an action may change `k`.
pub open spec fn touches(a: ActionView, k: Seq<char>) -> bool {
    match a {
        ActionView::CreateDirAll(p) => k == p,
        ActionView::Capture(program, args) => copies_into(program, args, k),
        ActionView::Run(program, args) => copies_into(program, args, k),
        ActionView::Spawn(program, args) => copies_into(program, args, k),
        ActionView::WriteFile(p, _) => k == p,
        ActionView::CopyFile(_, to) => k == to,
        ActionView::RemoveDirAll(p) => k == p || below(k, p),
        ActionView::RemoveFile(p) => k == p,
        ActionView::Symlink(_, link) => k == link,
        ActionView::Log(_) => false,
    }
}

proof fn lemma_untouched(fs: FileSystem, st: StepView, k: Seq<char>, run: Programs)
    requires
        confined(run),
        config_key(k) || source_key(k),
        !touches(st.action, k),
    ensures
        same_at(apply(fs, st, run), fs, k),
{
    if all_hold(fs, st.conditions) {
        match st.action {
            ActionView::Capture(program, args) => {
                assert(same_at(run(program, args, fs), fs, k));
            },
            ActionView::Run(program, args) => {
                assert(same_at(run(program, args, fs), fs, k));
            },
            ActionView::Spawn(program, args) => {
                assert(same_at(run(program, args, fs), fs, k));
            },
            _ => {},
        }
    }
}

proof fn lemma_range(fs: FileSystem, s: Seq<StepView>, j: int, n: int, k: Seq<char>, run: Programs)
    requires
        confined(run),
        config_key(k) || source_key(k),
        0 <= j <= n <= s.len(),
        forall|i: int| j <= i < n ==> !touches(#[trigger] s[i].action, k),
    ensures
        same_at(run_upto(fs, s, n, run), run_upto(fs, s, j, run), k),
    decreases n - j,
{
    if n > j {
        lemma_range(fs, s, j, n - 1, k, run);
        lemma_untouched(run_upto(fs, s, n - 1, run), s[n - 1], k, run);
    }
}


proof fn lemma_char_of_below(k: Seq<char>, d: Seq<char>, i: int)
    requires
        below(k, d),
        0 <= i < d.len(),
    ensures
        k[i] == d[i],
{
    assert(k.subrange(0, d.len() + 1int)[i] == (d + seq!['/'])[i]);
}

/// A key of the configuration begins with `/s` or `/e`.
proof fn lemma_config_second_char(k: Seq<char>)
    requires
        config_key(k),
    ensures
        k.len() > 1,
        k[1] == 's' || k[1] == 'e',
{
    reveal_strlit("/share/cups/config");
    reveal_strlit("/etc/cups");
    if below(k, CONFIG_DIR@) {
        lemma_char_of_below(k, CONFIG_DIR@, 1);
    }
}

/// A path that begins like the paths setup only reads: `/d` or `/usr/share/cups/d`.
spec fn read_only_path(k: Seq<char>) -> bool {
    k.len() > 16 && (k[1] == 'd' || (k[1] == 'u' && k[5] == 's' && k[16] == 'd'))
}

/// A path that begins with `/s` or `/e`.
spec fn share_or_etc_path(k: Seq<char>) -> bool {
    k.len() > 1 && (k[1] == 's' || k[1] == 'e')
}

/// A source key begins with `/d` or `/usr/share/cups/d`.
proof fn lemma_source_chars(k: Seq<char>)
    requires
        source_key(k),
    ensures
        read_only_path(k),
{
    reveal_strlit("/data/cups/config");
    reveal_strlit("/usr/share/cups/default-config/cups-files.conf");
    reveal_strlit("/usr/share/cups/default-config/snmp.conf");
    reveal_strlit("/usr/share/cups/default-config/subscriptions.conf");
}

/// No driver step changes a path under `/share`, `/etc` or `/data`, nor a packaged default.
proof fn lemma_driver_untouched(deb: Seq<char>, pid: nat, i: int, k: Seq<char>)
    requires
        share_or_etc_path(k) || read_only_path(k),
        0 <= i < driver_steps(deb, pid).len(),
    ensures
        !touches(driver_steps(deb, pid)[i].action, k),
{
    let dir = "/tmp/driver-"@ + crate::text::decimal(pid);
    reveal_strlit("/tmp/driver-");
    reveal_strlit("/usr/lib/cups/filter");
    reveal_strlit("/usr/share/cups/model");
    reveal_strlit("cp");
    reveal_strlit("dpkg");
    reveal_strlit("chmod");
    reveal_strlit("find");
    assert(dir[1] == 't');
    let a = driver_steps(deb, pid)[i].action;
    if k == dir {
        assert(k[1] == 't');
    }
    if below(k, dir) {
        lemma_char_of_below(k, dir, 1);
    }
    if below(k, "/usr/lib/cups/filter"@) {
        lemma_char_of_below(k, "/usr/lib/cups/filter"@, 1);
        lemma_char_of_below(k, "/usr/lib/cups/filter"@, 5);
    }
    if below(k, "/usr/share/cups/model"@) {
        lemma_char_of_below(k, "/usr/share/cups/model"@, 1);
        lemma_char_of_below(k, "/usr/share/cups/model"@, 16);
    }
}


/// The step at `i` of the plan, by the part it comes from.
proof fn lemma_plan_step(deb: Option<Seq<char>>, pid: nat, i: int)
    requires
        0 <= i < setup_steps(deb, pid).len(),
    ensures
        i < 12 ==> setup_steps(deb, pid)[i] == base_steps()[i],
        12 <= i < 18 ==> setup_steps(deb, pid)[i] == migration_steps()[i - 12],
        18 <= i < 25 ==> setup_steps(deb, pid)[i] == link_steps()[i - 18],
        25 <= i < setup_steps(deb, pid).len() - 1 ==> match driver_package(deb) {
            Some(d) => setup_steps(deb, pid)[i] == driver_steps(d, pid)[i - 25] && i - 25
                < driver_steps(d, pid).len(),
            None => false,
        },
        i == setup_steps(deb, pid).len() - 1 ==> setup_steps(deb, pid)[i].action is Log,
{
    let d = match driver_package(deb) {
        Some(x) => driver_steps(x, pid),
        None => seq![],
    };
    let bm = base_steps() + migration_steps();
    let bml = bm + link_steps();
    let all = bml + d;
    assert(setup_steps(deb, pid) == all + seq![StepView { conditions: seq![], action: ActionView::Log("setup complete"@) }]);
    assert(base_steps().len() == 12);
    assert(migration_steps().len() == 6);
    assert(link_steps().len() == 7);
    if i < 12 {
        assert(bm[i] == base_steps()[i]);
        assert(bml[i] == bm[i]);
        assert(all[i] == bml[i]);
    } else if i < 18 {
        assert(bm[i] == migration_steps()[i - 12]);
        assert(bml[i] == bm[i]);
        assert(all[i] == bml[i]);
    } else if i < 25 {
        assert(bml[i] == link_steps()[i - 18]);
        assert(all[i] == bml[i]);
    } else if i < setup_steps(deb, pid).len() - 1 {
        assert(all[i] == d[i - 25]);
    }
}

/// Whether step `i` of setup may change the key `k` of the configuration: creating the
/// configuration directories, writing the scheduler configuration, the legacy move (printer
/// lists, driver and certificate directories, marker), the `/etc/cups` link, the empty printer
/// list, and the default files.
pub open spec fn writes_at(i: int, k: Seq<char>) -> bool {
    ||| i == 3 && k == CONFIG_DIR@
    ||| i == 4 && k == "/share/cups/config/ppd"@
    ||| i == 5 && k == "/share/cups/config/ssl"@
    ||| i == 11 && k == "/share/cups/config/cupsd.conf"@
    ||| i == 13 && k == "/share/cups/config/printers.conf"@
    ||| i == 14 && k == "/share/cups/config/printers.conf.O"@
    ||| i == 15 && below(k, "/share/cups/config/ppd"@)
    ||| i == 16 && below(k, "/share/cups/config/ssl"@)
    ||| i == 17 && k == MIGRATED_MARKER@
    ||| 18 <= i <= 20 && k == "/etc/cups"@
    ||| i == 21 && k == "/share/cups/config/printers.conf"@
    ||| i == 22 && k == "/share/cups/config/cups-files.conf"@
    ||| i == 23 && k == "/share/cups/config/snmp.conf"@
    ||| i == 24 && k == "/share/cups/config/subscriptions.conf"@
}

/// Only the steps that `writes_at` names change a key of the configuration.
proof fn lemma_config_touches(deb: Option<Seq<char>>, pid: nat, i: int, k: Seq<char>)
    requires
        config_key(k),
        0 <= i < setup_steps(deb, pid).len(),
        touches(setup_steps(deb, pid)[i].action, k),
    ensures
        writes_at(i, k),
{
    lemma_plan_step(deb, pid, i);
    lemma_config_second_char(k);
    reveal_strlit("/share/cups/cache");
    reveal_strlit("/share/cups/logs");
    reveal_strlit("/share/cups/state");
    reveal_strlit("/share/cups/config");
    reveal_strlit("/etc/cups");
    reveal_strlit("cp");
    reveal_strlit("chown");
    reveal_strlit("chmod");
    reveal_strlit("mkdir");
    reveal_strlit("dbus-daemon");
    reveal_strlit("avahi-daemon");
    if below(k, "/etc/cups"@) {
        lemma_char_of_below(k, "/etc/cups"@, 1);
        if below(k, CONFIG_DIR@) {
            lemma_char_of_below(k, CONFIG_DIR@, 1);
        }
    }
    if i < 12 {
        assert("chown"@.len() != "cp"@.len());
        assert("chmod"@.len() != "cp"@.len());
        assert(!touches(base_steps()[0].action, k));
        assert(!touches(base_steps()[1].action, k));
        assert(!touches(base_steps()[2].action, k));
        assert(!touches(base_steps()[6].action, k));
        assert(!touches(base_steps()[7].action, k));
        assert(!touches(base_steps()[8].action, k));
        assert(!touches(base_steps()[9].action, k));
        assert(!touches(base_steps()[10].action, k));
        assert(touches(base_steps()[3].action, k) ==> k == "/share/cups/config"@);
        assert(touches(base_steps()[4].action, k) ==> k == "/share/cups/config/ppd"@);
        assert(touches(base_steps()[5].action, k) ==> k == "/share/cups/config/ssl"@);
        assert(touches(base_steps()[11].action, k) ==> k == "/share/cups/config/cupsd.conf"@);
    } else if i < 18 {
        assert(!touches(migration_steps()[0].action, k));
        assert(touches(migration_steps()[1].action, k) ==> k == "/share/cups/config/printers.conf"@);
        assert(touches(migration_steps()[2].action, k) ==> k == "/share/cups/config/printers.conf.O"@);
        assert(touches(migration_steps()[3].action, k) ==> below(k, "/share/cups/config/ppd"@));
        assert(touches(migration_steps()[4].action, k) ==> below(k, "/share/cups/config/ssl"@));
        assert(touches(migration_steps()[5].action, k) ==> k == MIGRATED_MARKER@);
    } else if i < 25 {
        assert(touches(link_steps()[0].action, k) ==> k == "/etc/cups"@);
        assert(touches(link_steps()[1].action, k) ==> k == "/etc/cups"@);
        assert(touches(link_steps()[2].action, k) ==> k == "/etc/cups"@);
        assert(touches(link_steps()[3].action, k) ==> k == "/share/cups/config/printers.conf"@);
        assert(touches(link_steps()[4].action, k) ==> k == "/share/cups/config/cups-files.conf"@);
        assert(touches(link_steps()[5].action, k) ==> k == "/share/cups/config/snmp.conf"@);
        assert(touches(link_steps()[6].action, k) ==> k == "/share/cups/config/subscriptions.conf"@);
    } else if i < setup_steps(deb, pid).len() - 1 {
        match driver_package(deb) {
            Some(d) => lemma_driver_untouched(d, pid, i - 25, k),
            None => {},
        }
    }
}

/// No step changes a path that begins like the sources.
proof fn lemma_sources_untouched(deb: Option<Seq<char>>, pid: nat, i: int, k: Seq<char>)
    requires
        read_only_path(k),
        0 <= i < setup_steps(deb, pid).len(),
    ensures
        !touches(setup_steps(deb, pid)[i].action, k),
{
    lemma_plan_step(deb, pid, i);
    reveal_strlit("/share/cups/cache");
    reveal_strlit("/share/cups/logs");
    reveal_strlit("/share/cups/state");
    reveal_strlit("/share/cups/config");
    reveal_strlit("/share/cups/config/ppd");
    reveal_strlit("/share/cups/config/ssl");
    reveal_strlit("/share/cups/config/cupsd.conf");
    reveal_strlit("/share/cups/config/printers.conf");
    reveal_strlit("/share/cups/config/printers.conf.O");
    reveal_strlit("/share/cups/config/.migrated");
    reveal_strlit("/share/cups/config/cups-files.conf");
    reveal_strlit("/share/cups/config/snmp.conf");
    reveal_strlit("/share/cups/config/subscriptions.conf");
    reveal_strlit("/etc/cups");
    reveal_strlit("cp");
    reveal_strlit("chown");
    reveal_strlit("chmod");
    reveal_strlit("mkdir");
    reveal_strlit("dbus-daemon");
    reveal_strlit("avahi-daemon");
    if below(k, "/etc/cups"@) {
        lemma_char_of_below(k, "/etc/cups"@, 1);
    }
    if below(k, "/share/cups/config/ppd"@) {
        lemma_char_of_below(k, "/share/cups/config/ppd"@, 1);
    }
    if below(k, "/share/cups/config/ssl"@) {
        lemma_char_of_below(k, "/share/cups/config/ssl"@, 1);
    }
    if i < 12 {
        assert(!touches(base_steps()[0].action, k));
        assert(!touches(base_steps()[1].action, k));
        assert(!touches(base_steps()[2].action, k));
        assert(!touches(base_steps()[3].action, k));
        assert(!touches(base_steps()[4].action, k));
        assert(!touches(base_steps()[5].action, k));
        assert("chown"@.len() != "cp"@.len());
        assert("chmod"@.len() != "cp"@.len());
        assert(!touches(base_steps()[6].action, k));
        assert(!touches(base_steps()[7].action, k));
        assert(!touches(base_steps()[8].action, k));
        assert(!touches(base_steps()[9].action, k));
        assert(!touches(base_steps()[10].action, k));
        assert(!touches(base_steps()[11].action, k));
        assert(!touches(base_steps()[i].action, k));
    } else if i < 18 {
        assert(!touches(migration_steps()[0].action, k));
        assert(!touches(migration_steps()[1].action, k));
        assert(!touches(migration_steps()[2].action, k));
        assert(!touches(migration_steps()[3].action, k));
        assert(!touches(migration_steps()[4].action, k));
        assert(!touches(migration_steps()[5].action, k));
        assert(!touches(migration_steps()[i - 12].action, k));
    } else if i < 25 {
        assert(!touches(link_steps()[0].action, k));
        assert(!touches(link_steps()[1].action, k));
        assert(!touches(link_steps()[2].action, k));
        assert(!touches(link_steps()[3].action, k));
        assert(!touches(link_steps()[4].action, k));
        assert(!touches(link_steps()[5].action, k));
        assert(!touches(link_steps()[6].action, k));
        assert(!touches(link_steps()[i - 18].action, k));
    } else if i < setup_steps(deb, pid).len() - 1 {
        match driver_package(deb) {
            Some(d) => lemma_driver_untouched(d, pid, i - 25, k),
            None => {},
        }
    }
}

/// No step from `j` up to `e` changes `k`, where `writes_at` names none of them.
proof fn lemma_free_from(deb: Option<Seq<char>>, pid: nat, k: Seq<char>, j: int, e: int)
    requires
        config_key(k),
        0 <= j <= e <= setup_steps(deb, pid).len(),
        forall|i: int| j <= i < e ==> !writes_at(i, k),
    ensures
        forall|i: int| j <= i < e ==> !touches(#[trigger] setup_steps(deb, pid)[i].action, k),
{
    assert forall|i: int| j <= i < e implies !touches(setup_steps(deb, pid)[i].action, k) by {
        if touches(setup_steps(deb, pid)[i].action, k) {
            lemma_config_touches(deb, pid, i, k);
        }
    }
}

/// No step changes a source key.
proof fn lemma_sources_free(deb: Option<Seq<char>>, pid: nat, k: Seq<char>)
    requires
        source_key(k),
    ensures
        forall|i: int|
            0 <= i < setup_steps(deb, pid).len() ==> !touches(
                #[trigger] setup_steps(deb, pid)[i].action,
                k,
            ),
{
    assert forall|i: int| 0 <= i < setup_steps(deb, pid).len() implies !touches(
        setup_steps(deb, pid)[i].action,
        k,
    ) by {
        lemma_source_chars(k);
        lemma_sources_untouched(deb, pid, i, k);
    }
}

/// A directory that step `j` creates, and that no later step changes, is there at the end.
proof fn lemma_dir_stays(fs: FileSystem, deb: Option<Seq<char>>, pid: nat, run: Programs, j: int, p: Seq<char>)
    requires
        confined(run),
        config_key(p),
        0 <= j < setup_steps(deb, pid).len(),
        setup_steps(deb, pid)[j] == always(ActionView::CreateDirAll(p)),
        forall|i: int| j + 1 <= i < setup_steps(deb, pid).len() ==> !writes_at(i, p),
    ensures
        after_setup(fs, deb, pid, run).contains_key(p),
{
    let s = setup_steps(deb, pid);
    let t = run_upto(fs, s, j, run);
    assert(all_hold(t, s[j].conditions));
    assert(run_upto(fs, s, j + 1, run).contains_key(p));
    lemma_free_from(deb, pid, p, j + 1, s.len() as int);
    lemma_range(fs, s, j + 1, s.len() as int, p, run);
}

/// The paths of the configuration that setup creates or reads.
proof fn lemma_reveal_paths()
    ensures
        CONFIG_DIR@ == "/share/cups/config"@,
        MIGRATED_MARKER@ == "/share/cups/config/.migrated"@,
        LEGACY_CONFIG_DIR@ == "/data/cups/config"@,
{
}

/// The files and directories that setup keeps in the configuration directory lie inside it.
proof fn lemma_config_paths()
    ensures
        below("/share/cups/config/ppd"@, CONFIG_DIR@),
        below("/share/cups/config/ssl"@, CONFIG_DIR@),
        below("/share/cups/config/cupsd.conf"@, CONFIG_DIR@),
        below("/share/cups/config/printers.conf"@, CONFIG_DIR@),
        below("/share/cups/config/printers.conf.O"@, CONFIG_DIR@),
        below("/share/cups/config/.migrated"@, CONFIG_DIR@),
        below("/share/cups/config/cups-files.conf"@, CONFIG_DIR@),
        below("/share/cups/config/snmp.conf"@, CONFIG_DIR@),
        below("/share/cups/config/subscriptions.conf"@, CONFIG_DIR@),
{
    reveal_strlit("/share/cups/config");
    reveal_strlit("/share/cups/config/ppd");
    assert("/share/cups/config/ppd"@.subrange(0, 19) =~= CONFIG_DIR@ + seq!['/']);
    reveal_strlit("/share/cups/config/ssl");
    assert("/share/cups/config/ssl"@.subrange(0, 19) =~= CONFIG_DIR@ + seq!['/']);
    reveal_strlit("/share/cups/config/cupsd.conf");
    assert("/share/cups/config/cupsd.conf"@.subrange(0, 19) =~= CONFIG_DIR@ + seq!['/']);
    reveal_strlit("/share/cups/config/printers.conf");
    assert("/share/cups/config/printers.conf"@.subrange(0, 19) =~= CONFIG_DIR@ + seq!['/']);
    reveal_strlit("/share/cups/config/printers.conf.O");
    assert("/share/cups/config/printers.conf.O"@.subrange(0, 19) =~= CONFIG_DIR@ + seq!['/']);
    reveal_strlit("/share/cups/config/.migrated");
    assert("/share/cups/config/.migrated"@.subrange(0, 19) =~= CONFIG_DIR@ + seq!['/']);
    reveal_strlit("/share/cups/config/cups-files.conf");
    assert("/share/cups/config/cups-files.conf"@.subrange(0, 19) =~= CONFIG_DIR@ + seq!['/']);
    reveal_strlit("/share/cups/config/snmp.conf");
    assert("/share/cups/config/snmp.conf"@.subrange(0, 19) =~= CONFIG_DIR@ + seq!['/']);
    reveal_strlit("/share/cups/config/subscriptions.conf");
    assert("/share/cups/config/subscriptions.conf"@.subrange(0, 19) =~= CONFIG_DIR@ + seq!['/']);
}

/// Where the packaged default `src` is a file, the configuration has `dst`.
pub open spec fn default_in_place(fs: FileSystem, src: Seq<char>, dst: Seq<char>) -> bool {
    fs.contains_key(src) && fs[src] is File ==> fs.contains_key(dst)
}

/// What a run of setup leaves behind, whatever stood before: the configuration directories
/// and a printer list; the marker wherever a legacy configuration is; each default file that
/// is packaged as a file.
pub open spec fn settled(fs: FileSystem) -> bool {
    &&& fs.contains_key(CONFIG_DIR@)
    &&& fs.contains_key("/share/cups/config/ppd"@)
    &&& fs.contains_key("/share/cups/config/ssl"@)
    &&& fs.contains_key("/share/cups/config/printers.conf"@)
    &&& fs.contains_key(LEGACY_CONFIG_DIR@) ==> fs.contains_key(MIGRATED_MARKER@)
    &&& default_in_place(
        fs,
        "/usr/share/cups/default-config/cups-files.conf"@,
        "/share/cups/config/cups-files.conf"@,
    )
    &&& default_in_place(
        fs,
        "/usr/share/cups/default-config/snmp.conf"@,
        "/share/cups/config/snmp.conf"@,
    )
    &&& default_in_place(
        fs,
        "/usr/share/cups/default-config/subscriptions.conf"@,
        "/share/cups/config/subscriptions.conf"@,
    )
}

proof fn lemma_first_run_dirs(fs: FileSystem, deb: Option<Seq<char>>, pid: nat, run: Programs)
    requires
        confined(run),
    ensures
        after_setup(fs, deb, pid, run).contains_key(CONFIG_DIR@),
        after_setup(fs, deb, pid, run).contains_key("/share/cups/config/ppd"@),
        after_setup(fs, deb, pid, run).contains_key("/share/cups/config/ssl"@),
{
    lemma_reveal_paths();
    reveal_strlit("/share/cups/config");
    reveal_strlit("/share/cups/config/ppd");
    reveal_strlit("/share/cups/config/ssl");
    reveal_strlit("/share/cups/config/cupsd.conf");
    reveal_strlit("/share/cups/config/printers.conf");
    reveal_strlit("/share/cups/config/printers.conf.O");
    reveal_strlit("/share/cups/config/.migrated");
    reveal_strlit("/etc/cups");
    reveal_strlit("/share/cups/config/cups-files.conf");
    reveal_strlit("/share/cups/config/snmp.conf");
    reveal_strlit("/share/cups/config/subscriptions.conf");
    lemma_config_paths();
    lemma_plan_step(deb, pid, 3);
    lemma_plan_step(deb, pid, 4);
    lemma_plan_step(deb, pid, 5);
    lemma_dir_stays(fs, deb, pid, run, 3, CONFIG_DIR@);
    assert("/share/cups/config/ppd"@[19] != "/share/cups/config/ssl"@[19]);
    lemma_dir_stays(fs, deb, pid, run, 4, "/share/cups/config/ppd"@);
    lemma_dir_stays(fs, deb, pid, run, 5, "/share/cups/config/ssl"@);
}

/// A run of setup leaves a printer list.
proof fn lemma_first_run_printers(fs: FileSystem, deb: Option<Seq<char>>, pid: nat, run: Programs)
    requires
        confined(run),
    ensures
        after_setup(fs, deb, pid, run).contains_key("/share/cups/config/printers.conf"@),
{
    let pc = "/share/cups/config/printers.conf"@;
    let s = setup_steps(deb, pid);
    reveal_strlit("/share/cups/config");
    reveal_strlit("/share/cups/config/ppd");
    reveal_strlit("/share/cups/config/ssl");
    reveal_strlit("/share/cups/config/cupsd.conf");
    reveal_strlit("/share/cups/config/printers.conf");
    reveal_strlit("/share/cups/config/printers.conf.O");
    reveal_strlit("/share/cups/config/.migrated");
    reveal_strlit("/etc/cups");
    reveal_strlit("/share/cups/config/cups-files.conf");
    reveal_strlit("/share/cups/config/snmp.conf");
    reveal_strlit("/share/cups/config/subscriptions.conf");
    lemma_config_paths();
    lemma_plan_step(deb, pid, 21);
    let t = run_upto(fs, s, 21, run);
    if !all_hold(t, s[21].conditions) {
        assert(t.contains_key(pc)) by {
            let w = choose|i: int|
                0 <= i < s[21].conditions.len() && !holds(t, #[trigger] s[21].conditions[i]);
            assert(w == 0);
        }
    }
    assert(run_upto(fs, s, 22, run).contains_key(pc));
    lemma_free_from(deb, pid, pc, 22, s.len() as int);
    lemma_range(fs, s, 22, s.len() as int, pc, run);
}

/// A run of setup leaves the marker wherever a legacy configuration is.
proof fn lemma_first_run_marker(fs: FileSystem, deb: Option<Seq<char>>, pid: nat, run: Programs)
    requires
        confined(run),
    ensures
        after_setup(fs, deb, pid, run).contains_key(LEGACY_CONFIG_DIR@) ==> after_setup(
            fs,
            deb,
            pid,
            run,
        ).contains_key(MIGRATED_MARKER@),
{
    let mk = MIGRATED_MARKER@;
    let legacy = LEGACY_CONFIG_DIR@;
    let s = setup_steps(deb, pid);
    reveal_strlit("/share/cups/config");
    reveal_strlit("/share/cups/config/ppd");
    reveal_strlit("/share/cups/config/ssl");
    reveal_strlit("/share/cups/config/cupsd.conf");
    reveal_strlit("/share/cups/config/printers.conf");
    reveal_strlit("/share/cups/config/printers.conf.O");
    reveal_strlit("/share/cups/config/.migrated");
    reveal_strlit("/etc/cups");
    reveal_strlit("/share/cups/config/cups-files.conf");
    reveal_strlit("/share/cups/config/snmp.conf");
    reveal_strlit("/share/cups/config/subscriptions.conf");
    lemma_reveal_paths();
    lemma_config_paths();
    lemma_plan_step(deb, pid, 17);
    let t = run_upto(fs, s, 17, run);
    assert(t.contains_key(legacy) ==> run_upto(fs, s, 18, run).contains_key(mk)) by {
        if t.contains_key(legacy) && !t.contains_key(mk) {
            assert(holds(t, migration_guard()[0]));
            assert(holds(t, migration_guard()[1]));
            assert(all_hold(t, s[17].conditions));
        }
    }
    assert(mk[19] != "/share/cups/config/snmp.conf"@[19]);
    lemma_free_from(deb, pid, mk, 18, s.len() as int);
    lemma_range(fs, s, 18, s.len() as int, mk, run);
    lemma_sources_free(deb, pid, legacy);
    lemma_range(fs, s, 17, s.len() as int, legacy, run);
}

/// A run of setup leaves each default file that is packaged as a file.
proof fn lemma_first_run_default(
    fs: FileSystem,
    deb: Option<Seq<char>>,
    pid: nat,
    run: Programs,
    j: int,
    src: Seq<char>,
    dst: Seq<char>,
)
    requires
        confined(run),
        source_key(src),
        config_key(dst),
        0 <= j < setup_steps(deb, pid).len(),
        setup_steps(deb, pid)[j] == crate::setup::when(
            seq![ConditionView::Exists(src), ConditionView::Missing(dst)],
            ActionView::CopyFile(src, dst),
        ),
        forall|i: int| j + 1 <= i < setup_steps(deb, pid).len() ==> !writes_at(i, dst),
    ensures
        default_in_place(after_setup(fs, deb, pid, run), src, dst),
{
    let s = setup_steps(deb, pid);
    let t = run_upto(fs, s, j, run);
    lemma_source_chars(src);
    lemma_config_second_char(dst);
    assert(src != dst) by {
        if src == dst {
            assert(src[1] == dst[1]);
        }
    }
    if !all_hold(t, s[j].conditions) {
        let w = choose|i: int| 0 <= i < s[j].conditions.len() && !holds(t, #[trigger] s[j].conditions[i]);
        assert(w == 0 || w == 1);
    }
    assert(default_in_place(run_upto(fs, s, j + 1, run), src, dst));
    lemma_free_from(deb, pid, dst, j + 1, s.len() as int);
    lemma_range(fs, s, j + 1, s.len() as int, dst, run);
    lemma_sources_free(deb, pid, src);
    lemma_range(fs, s, j + 1, s.len() as int, src, run);
}

/// What a run of setup leaves behind, whatever stood before.
proof fn lemma_first_run(fs: FileSystem, deb: Option<Seq<char>>, pid: nat, run: Programs)
    requires
        confined(run),
    ensures
        settled(after_setup(fs, deb, pid, run)),
{
    reveal_strlit("/share/cups/config");
    reveal_strlit("/share/cups/config/ppd");
    reveal_strlit("/share/cups/config/ssl");
    reveal_strlit("/share/cups/config/cupsd.conf");
    reveal_strlit("/share/cups/config/printers.conf");
    reveal_strlit("/share/cups/config/printers.conf.O");
    reveal_strlit("/share/cups/config/.migrated");
    reveal_strlit("/etc/cups");
    reveal_strlit("/share/cups/config/cups-files.conf");
    reveal_strlit("/share/cups/config/snmp.conf");
    reveal_strlit("/share/cups/config/subscriptions.conf");
    reveal_strlit("/usr/share/cups/default-config/cups-files.conf");
    reveal_strlit("/usr/share/cups/default-config/snmp.conf");
    reveal_strlit("/usr/share/cups/default-config/subscriptions.conf");
    lemma_config_paths();
    lemma_first_run_dirs(fs, deb, pid, run);
    lemma_first_run_printers(fs, deb, pid, run);
    lemma_first_run_marker(fs, deb, pid, run);
    lemma_plan_step(deb, pid, 22);
    lemma_plan_step(deb, pid, 23);
    lemma_plan_step(deb, pid, 24);
    lemma_first_run_default(
        fs,
        deb,
        pid,
        run,
        22,
        "/usr/share/cups/default-config/cups-files.conf"@,
        "/share/cups/config/cups-files.conf"@,
    );
    lemma_first_run_default(
        fs,
        deb,
        pid,
        run,
        23,
        "/usr/share/cups/default-config/snmp.conf"@,
        "/share/cups/config/snmp.conf"@,
    );
    lemma_first_run_default(
        fs,
        deb,
        pid,
        run,
        24,
        "/usr/share/cups/default-config/subscriptions.conf"@,
        "/share/cups/config/subscriptions.conf"@,
    );
}

/// Whatever stood before, a run of setup ends with the scheduler configuration that it writes
/// and with `/etc/cups` a link to the configuration directory.
proof fn lemma_fixed_entries(fs: FileSystem, deb: Option<Seq<char>>, pid: nat, run: Programs)
    requires
        confined(run),
    ensures
        after_setup(fs, deb, pid, run).contains_key("/share/cups/config/cupsd.conf"@),
        after_setup(fs, deb, pid, run)["/share/cups/config/cupsd.conf"@] == Entry::File(CUPSD_CONF@),
        after_setup(fs, deb, pid, run).contains_key("/etc/cups"@),
        after_setup(fs, deb, pid, run)["/etc/cups"@] == Entry::Link(CONFIG_DIR@),
{
    let s = setup_steps(deb, pid);
    let conf = "/share/cups/config/cupsd.conf"@;
    let etc = "/etc/cups"@;
    reveal_strlit("/share/cups/config");
    reveal_strlit("/share/cups/config/ppd");
    reveal_strlit("/share/cups/config/ssl");
    reveal_strlit("/share/cups/config/cupsd.conf");
    reveal_strlit("/share/cups/config/printers.conf");
    reveal_strlit("/share/cups/config/printers.conf.O");
    reveal_strlit("/share/cups/config/.migrated");
    reveal_strlit("/etc/cups");
    reveal_strlit("/share/cups/config/cups-files.conf");
    reveal_strlit("/share/cups/config/snmp.conf");
    reveal_strlit("/share/cups/config/subscriptions.conf");
    lemma_config_paths();
    lemma_plan_step(deb, pid, 11);
    lemma_plan_step(deb, pid, 18);
    lemma_plan_step(deb, pid, 19);
    lemma_plan_step(deb, pid, 20);
    assert(run_upto(fs, s, 12, run).contains_key(conf));
    assert(run_upto(fs, s, 12, run)[conf] == Entry::File(CUPSD_CONF@));
    if below(conf, "/share/cups/config/ppd"@) {
        lemma_char_of_below(conf, "/share/cups/config/ppd"@, 19);
    }
    if below(conf, "/share/cups/config/ssl"@) {
        lemma_char_of_below(conf, "/share/cups/config/ssl"@, 19);
    }
    lemma_free_from(deb, pid, conf, 12, s.len() as int);
    lemma_range(fs, s, 12, s.len() as int, conf, run);
    let t18 = run_upto(fs, s, 18, run);
    let t19 = run_upto(fs, s, 19, run);
    let t20 = run_upto(fs, s, 20, run);
    assert(!t20.contains_key(etc)) by {
        if t18.contains_key(etc) && t18[etc] is Dir {
            assert(Set::new(|k: Seq<char>| k == etc || below(k, etc)).contains(etc));
            assert(!t19.contains_key(etc));
        }
    }
    assert(run_upto(fs, s, 21, run).contains_key(etc));
    assert(run_upto(fs, s, 21, run)[etc] == Entry::Link(CONFIG_DIR@));
    lemma_free_from(deb, pid, etc, 21, s.len() as int);
    lemma_range(fs, s, 21, s.len() as int, etc, run);
}

/// In a run that starts from what an earlier run left, no step before the marker is written
/// finds the legacy configuration still to move.
proof fn lemma_migration_inert(fs: FileSystem, deb: Option<Seq<char>>, pid: nat, run: Programs, i: int)
    requires
        confined(run),
        settled(fs),
        12 <= i <= 17,
        i < setup_steps(deb, pid).len(),
    ensures
        apply(run_upto(fs, setup_steps(deb, pid), i, run), setup_steps(deb, pid)[i], run)
            == run_upto(fs, setup_steps(deb, pid), i, run),
{
    let s = setup_steps(deb, pid);
    let t = run_upto(fs, s, i, run);
    let mk = MIGRATED_MARKER@;
    let legacy = LEGACY_CONFIG_DIR@;
    reveal_strlit("/share/cups/config");
    reveal_strlit("/share/cups/config/ppd");
    reveal_strlit("/share/cups/config/ssl");
    reveal_strlit("/share/cups/config/cupsd.conf");
    reveal_strlit("/share/cups/config/printers.conf");
    reveal_strlit("/share/cups/config/printers.conf.O");
    reveal_strlit("/share/cups/config/.migrated");
    reveal_strlit("/etc/cups");
    reveal_strlit("/share/cups/config/cups-files.conf");
    reveal_strlit("/share/cups/config/snmp.conf");
    reveal_strlit("/share/cups/config/subscriptions.conf");
    lemma_reveal_paths();
    lemma_config_paths();
    lemma_plan_step(deb, pid, i);
    lemma_sources_free(deb, pid, legacy);
    lemma_range(fs, s, 0, i, legacy, run);
    if below(mk, "/share/cups/config/ppd"@) {
        lemma_char_of_below(mk, "/share/cups/config/ppd"@, 19);
    }
    if below(mk, "/share/cups/config/ssl"@) {
        lemma_char_of_below(mk, "/share/cups/config/ssl"@, 19);
    }
    lemma_free_from(deb, pid, mk, 0, i);
    lemma_range(fs, s, 0, i, mk, run);
    assert(s[i].conditions[0] == ConditionView::Exists(legacy));
    assert(s[i].conditions[1] == ConditionView::Missing(mk));
    assert(!all_hold(t, s[i].conditions)) by {
        if t.contains_key(legacy) {
            assert(!holds(t, s[i].conditions[1]));
        } else {
            assert(!holds(t, s[i].conditions[0]));
        }
    }
}

/// In a run that starts from what an earlier run left, step `i` keeps each key of the
/// configuration but the scheduler configuration and the `/etc/cups` link, where it stands as
/// the earlier run left it.
proof fn lemma_second_run_step(
    fs: FileSystem,
    deb: Option<Seq<char>>,
    pid: nat,
    run: Programs,
    k: Seq<char>,
    i: int,
)
    requires
        confined(run),
        settled(fs),
        config_key(k),
        k != "/share/cups/config/cupsd.conf"@,
        k != "/etc/cups"@,
        0 <= i < setup_steps(deb, pid).len(),
        same_at(run_upto(fs, setup_steps(deb, pid), i, run), fs, k),
    ensures
        same_at(run_upto(fs, setup_steps(deb, pid), i + 1, run), fs, k),
{
    let s = setup_steps(deb, pid);
    let t = run_upto(fs, s, i, run);
    if !touches(s[i].action, k) {
        lemma_untouched(t, s[i], k, run);
    } else {
        lemma_config_touches(deb, pid, i, k);
        lemma_plan_step(deb, pid, i);
        lemma_reveal_paths();
        if 12 <= i <= 17 {
            lemma_migration_inert(fs, deb, pid, run, i);
        } else if 22 <= i <= 24 {
            let src = if i == 22 {
                "/usr/share/cups/default-config/cups-files.conf"@
            } else if i == 23 {
                "/usr/share/cups/default-config/snmp.conf"@
            } else {
                "/usr/share/cups/default-config/subscriptions.conf"@
            };
            assert(s[i].conditions[0] == ConditionView::Exists(src));
            assert(s[i].conditions[1] == ConditionView::Missing(k));
            assert(s[i].action == ActionView::CopyFile(src, k));
            assert(default_in_place(fs, src, k));
            lemma_sources_free(deb, pid, src);
            lemma_range(fs, s, 0, i, src, run);
            assert(same_at(t, fs, src));
            if all_hold(t, s[i].conditions) {
                assert(holds(t, s[i].conditions[0]));
                assert(holds(t, s[i].conditions[1]));
                assert(!fs.contains_key(k));
                assert(!(t[src] is File));
                assert(apply(t, s[i], run) == t);
            }
            assert(same_at(apply(t, s[i], run), fs, k));
        } else if i == 21 {
            assert(k == "/share/cups/config/printers.conf"@);
            assert(s[i].conditions[0] == ConditionView::Missing(k));
            assert(!holds(t, s[i].conditions[0]));
            assert(same_at(apply(t, s[i], run), fs, k));
        } else {
            assert(i == 3 || i == 4 || i == 5);
            assert(s[i].action == ActionView::CreateDirAll(k));
            assert(t.contains_key(k));
            assert(same_at(apply(t, s[i], run), fs, k));
        }
    }
    assert(run_upto(fs, s, i + 1, run) == apply(t, s[i], run));
}

/// A run that starts from what an earlier run left keeps each key of the configuration but
/// the scheduler configuration and the `/etc/cups` link.
proof fn lemma_second_run(fs: FileSystem, deb: Option<Seq<char>>, pid: nat, run: Programs, k: Seq<char>, i: int)
    requires
        confined(run),
        settled(fs),
        config_key(k),
        k != "/share/cups/config/cupsd.conf"@,
        k != "/etc/cups"@,
        0 <= i <= setup_steps(deb, pid).len(),
    ensures
        same_at(run_upto(fs, setup_steps(deb, pid), i, run), fs, k),
    decreases i,
{
    if i > 0 {
        lemma_second_run(fs, deb, pid, run, k, i - 1);
        lemma_second_run_step(fs, deb, pid, run, k, i - 1);
    }
}

/// Running setup a second time leaves the configuration as the first run left it: the
/// configuration directory and everything in it, and the `/etc/cups` link. This holds
/// whatever the file system held before the first run, whatever options and process each run
/// has, and for any programs that change the configuration only where they copy into a
/// directory of it; in particular the legacy configuration is moved at most once.
pub proof fn law_setup_twice(
    fs: FileSystem,
    first: Option<Seq<char>>,
    first_pid: nat,
    second: Option<Seq<char>>,
    second_pid: nat,
    run: Programs,
    k: Seq<char>,
)
    requires
        confined(run),
        config_key(k),
    ensures
        same_at(
            after_setup(after_setup(fs, first, first_pid, run), second, second_pid, run),
            after_setup(fs, first, first_pid, run),
            k,
        ),
{
    let once = after_setup(fs, first, first_pid, run);
    let twice = after_setup(once, second, second_pid, run);
    lemma_fixed_entries(fs, first, first_pid, run);
    lemma_fixed_entries(once, second, second_pid, run);
    if k != "/share/cups/config/cupsd.conf"@ && k != "/etc/cups"@ {
        lemma_first_run(fs, first, first_pid, run);
        lemma_second_run(
            once,
            second,
            second_pid,
            run,
            k,
            setup_steps(second, second_pid).len() as int,
        );
    }
}

/// Programs leave `k` as it is, unless they copy recursively into a directory that holds it.
pub open spec fn spares(run: Programs, k: Seq<char>) -> bool {
    forall|program: Seq<char>, args: Seq<Seq<char>>, fs: FileSystem|
        !copies_into(program, args, k) ==> #[trigger] same_at(run(program, args, fs), fs, k)
}

proof fn lemma_untouched_spared(fs: FileSystem, st: StepView, k: Seq<char>, run: Programs)
    requires
        spares(run, k),
        !touches(st.action, k),
    ensures
        same_at(apply(fs, st, run), fs, k),
{
    if all_hold(fs, st.conditions) {
        match st.action {
            ActionView::Capture(program, args) => {
                assert(same_at(run(program, args, fs), fs, k));
            },
            ActionView::Run(program, args) => {
                assert(same_at(run(program, args, fs), fs, k));
            },
            ActionView::Spawn(program, args) => {
                assert(same_at(run(program, args, fs), fs, k));
            },
            _ => {},
        }
    }
}

proof fn lemma_range_spared(fs: FileSystem, s: Seq<StepView>, j: int, n: int, k: Seq<char>, run: Programs)
    requires
        spares(run, k),
        0 <= j <= n <= s.len(),
        forall|i: int| j <= i < n ==> !touches(#[trigger] s[i].action, k),
    ensures
        same_at(run_upto(fs, s, n, run), run_upto(fs, s, j, run), k),
    decreases n - j,
{
    if n > j {
        lemma_range_spared(fs, s, j, n - 1, k, run);
        lemma_untouched_spared(run_upto(fs, s, n - 1, run), s[n - 1], k, run);
    }
}

/// The cache, log and state directories are changed only by the steps that create them.
proof fn lemma_work_dir_touches(deb: Option<Seq<char>>, pid: nat, i: int, k: Seq<char>)
    requires
        k == "/share/cups/cache"@ || k == "/share/cups/logs"@ || k == "/share/cups/state"@,
        0 <= i < setup_steps(deb, pid).len(),
        touches(setup_steps(deb, pid)[i].action, k),
    ensures
        (i == 0 && k == "/share/cups/cache"@) || (i == 1 && k == "/share/cups/logs"@) || (i == 2
            && k == "/share/cups/state"@),
{
    lemma_plan_step(deb, pid, i);
    reveal_strlit("/share/cups/config");
    reveal_strlit("/share/cups/config/ppd");
    reveal_strlit("/share/cups/config/ssl");
    reveal_strlit("/share/cups/config/cupsd.conf");
    reveal_strlit("/share/cups/config/printers.conf");
    reveal_strlit("/share/cups/config/printers.conf.O");
    reveal_strlit("/share/cups/config/.migrated");
    reveal_strlit("/etc/cups");
    reveal_strlit("/share/cups/config/cups-files.conf");
    reveal_strlit("/share/cups/config/snmp.conf");
    reveal_strlit("/share/cups/config/subscriptions.conf");
    reveal_strlit("/share/cups/cache");
    reveal_strlit("/share/cups/logs");
    reveal_strlit("/share/cups/state");
    reveal_strlit("/data/cups/config/ppd/.");
    reveal_strlit("/data/cups/config/ssl/.");
    reveal_strlit("cp");
    reveal_strlit("chown");
    reveal_strlit("chmod");
    reveal_strlit("mkdir");
    reveal_strlit("dbus-daemon");
    reveal_strlit("avahi-daemon");
    lemma_reveal_paths();
    assert(k[1] == 's');
    if below(k, "/etc/cups"@) {
        lemma_char_of_below(k, "/etc/cups"@, 1);
    }
    if below(k, "/share/cups/config/ppd"@) {
        lemma_char_of_below(k, "/share/cups/config/ppd"@, 12);
    }
    if below(k, "/share/cups/config/ssl"@) {
        lemma_char_of_below(k, "/share/cups/config/ssl"@, 12);
    }
    if i < 12 {
        assert("chown"@.len() != "cp"@.len());
        assert("chmod"@.len() != "cp"@.len());
        assert(!touches(base_steps()[3].action, k));
        assert(!touches(base_steps()[4].action, k));
        assert(!touches(base_steps()[5].action, k));
        assert(!touches(base_steps()[6].action, k));
        assert(!touches(base_steps()[7].action, k));
        assert(!touches(base_steps()[8].action, k));
        assert(!touches(base_steps()[9].action, k));
        assert(!touches(base_steps()[10].action, k));
        assert(!touches(base_steps()[11].action, k));
    } else if i < 18 {
        assert(!touches(migration_steps()[0].action, k));
        assert(!touches(migration_steps()[1].action, k));
        assert(!touches(migration_steps()[2].action, k));
        assert(!touches(migration_steps()[3].action, k));
        assert(!touches(migration_steps()[4].action, k));
        assert(!touches(migration_steps()[5].action, k));
        assert(false);
    } else if i < 25 {
        assert(!touches(link_steps()[0].action, k));
        assert(!touches(link_steps()[1].action, k));
        assert(!touches(link_steps()[2].action, k));
        assert(!touches(link_steps()[3].action, k));
        assert(!touches(link_steps()[4].action, k));
        assert(!touches(link_steps()[5].action, k));
        assert(!touches(link_steps()[6].action, k));
        assert(false);
    } else if i < setup_steps(deb, pid).len() - 1 {
        match driver_package(deb) {
            Some(d) => lemma_driver_untouched(d, pid, i - 25, k),
            None => {},
        }
    }
}

/// A directory that step `j` creates, and that neither a later step nor the programs change,
/// is there at the end.
proof fn lemma_dir_made(fs: FileSystem, deb: Option<Seq<char>>, pid: nat, run: Programs, j: int, p: Seq<char>)
    requires
        spares(run, p),
        0 <= j < setup_steps(deb, pid).len(),
        setup_steps(deb, pid)[j] == always(ActionView::CreateDirAll(p)),
        forall|i: int|
            j + 1 <= i < setup_steps(deb, pid).len() ==> !touches(
                #[trigger] setup_steps(deb, pid)[i].action,
                p,
            ),
    ensures
        after_setup(fs, deb, pid, run).contains_key(p),
{
    let s = setup_steps(deb, pid);
    let t = run_upto(fs, s, j, run);
    assert(all_hold(t, s[j].conditions));
    assert(run_upto(fs, s, j + 1, run).contains_key(p));
    lemma_range_spared(fs, s, j + 1, s.len() as int, p, run);
}

/// The cache, log and state directories that the first steps create are there at the end.
proof fn lemma_work_dir_made(fs: FileSystem, deb: Option<Seq<char>>, pid: nat, run: Programs, j: int, p: Seq<char>)
    requires
        spares(run, p),
        (j == 0 && p == "/share/cups/cache"@) || (j == 1 && p == "/share/cups/logs"@) || (j == 2
            && p == "/share/cups/state"@),
    ensures
        after_setup(fs, deb, pid, run).contains_key(p),
{
    let s = setup_steps(deb, pid);
    reveal_strlit("/share/cups/cache");
    reveal_strlit("/share/cups/logs");
    reveal_strlit("/share/cups/state");
    assert("/share/cups/cache"@[12] != "/share/cups/state"@[12]);
    assert("/share/cups/logs"@.len() != "/share/cups/state"@.len());
    lemma_plan_step(deb, pid, j);
    assert forall|i: int| j + 1 <= i < s.len() implies !touches(#[trigger] s[i].action, p) by {
        if touches(s[i].action, p) {
            lemma_work_dir_touches(deb, pid, i, p);
        }
    }
    lemma_dir_made(fs, deb, pid, run, j, p);
}

/// Every run of setup ends with the six persistent directories in place (the cache, the
/// logs, the state, the configuration and its driver and certificate directories), whatever
/// stood before and whatever options it has, for programs that leave these directories
/// standing.
pub proof fn law_setup_makes_directories(fs: FileSystem, deb: Option<Seq<char>>, pid: nat, run: Programs)
    requires
        spares(run, "/share/cups/cache"@),
        spares(run, "/share/cups/logs"@),
        spares(run, "/share/cups/state"@),
        spares(run, "/share/cups/config"@),
        spares(run, "/share/cups/config/ppd"@),
        spares(run, "/share/cups/config/ssl"@),
    ensures
        after_setup(fs, deb, pid, run).contains_key("/share/cups/cache"@),
        after_setup(fs, deb, pid, run).contains_key("/share/cups/logs"@),
        after_setup(fs, deb, pid, run).contains_key("/share/cups/state"@),
        after_setup(fs, deb, pid, run).contains_key("/share/cups/config"@),
        after_setup(fs, deb, pid, run).contains_key("/share/cups/config/ppd"@),
        after_setup(fs, deb, pid, run).contains_key("/share/cups/config/ssl"@),
{
    let s = setup_steps(deb, pid);
    reveal_strlit("/share/cups/config");
    reveal_strlit("/share/cups/config/ppd");
    reveal_strlit("/share/cups/config/ssl");
    reveal_strlit("/share/cups/config/cupsd.conf");
    reveal_strlit("/share/cups/config/printers.conf");
    reveal_strlit("/share/cups/config/printers.conf.O");
    reveal_strlit("/share/cups/config/.migrated");
    reveal_strlit("/etc/cups");
    reveal_strlit("/share/cups/config/cups-files.conf");
    reveal_strlit("/share/cups/config/snmp.conf");
    reveal_strlit("/share/cups/config/subscriptions.conf");
    reveal_strlit("/share/cups/cache");
    reveal_strlit("/share/cups/logs");
    reveal_strlit("/share/cups/state");
    lemma_reveal_paths();
    lemma_config_paths();
    lemma_work_dir_made(fs, deb, pid, run, 0, "/share/cups/cache"@);
    lemma_work_dir_made(fs, deb, pid, run, 1, "/share/cups/logs"@);
    lemma_work_dir_made(fs, deb, pid, run, 2, "/share/cups/state"@);
    lemma_plan_step(deb, pid, 3);
    lemma_plan_step(deb, pid, 4);
    lemma_plan_step(deb, pid, 5);
    assert("/share/cups/config/ppd"@[19] != "/share/cups/config/ssl"@[19]);
    lemma_free_from(deb, pid, CONFIG_DIR@, 4, s.len() as int);
    lemma_dir_made(fs, deb, pid, run, 3, CONFIG_DIR@);
    lemma_free_from(deb, pid, "/share/cups/config/ppd"@, 5, s.len() as int);
    lemma_dir_made(fs, deb, pid, run, 4, "/share/cups/config/ppd"@);
    lemma_free_from(deb, pid, "/share/cups/config/ssl"@, 6, s.len() as int);
    lemma_dir_made(fs, deb, pid, run, 5, "/share/cups/config/ssl"@);
}

/// On a file system still to be moved (the legacy directory is there, the marker is not),
/// the step `j` of the move copies the legacy file `from`, where it is a file, to `to`.
proof fn lemma_migration_copies(
    fs: FileSystem,
    deb: Option<Seq<char>>,
    pid: nat,
    run: Programs,
    j: int,
    from: Seq<char>,
    to: Seq<char>,
)
    requires
        confined(run),
        spares(run, from),
        read_only_path(from),
        fs.contains_key(LEGACY_CONFIG_DIR@),
        !fs.contains_key(MIGRATED_MARKER@),
        fs.contains_key(from),
        fs[from] is File,
        j == 13 || j == 14,
        setup_steps(deb, pid)[j] == crate::setup::when(
            migration_guard() + seq![ConditionView::Exists(from)],
            ActionView::CopyFile(from, to),
        ),
    ensures
        run_upto(fs, setup_steps(deb, pid), j + 1, run).contains_key(to),
        run_upto(fs, setup_steps(deb, pid), j + 1, run)[to] == fs[from],
{
    let s = setup_steps(deb, pid);
    let t = run_upto(fs, s, j, run);
    let mk = MIGRATED_MARKER@;
    let legacy = LEGACY_CONFIG_DIR@;
    reveal_strlit("/share/cups/config");
    reveal_strlit("/share/cups/config/ppd");
    reveal_strlit("/share/cups/config/ssl");
    reveal_strlit("/share/cups/config/cupsd.conf");
    reveal_strlit("/share/cups/config/printers.conf");
    reveal_strlit("/share/cups/config/printers.conf.O");
    reveal_strlit("/share/cups/config/.migrated");
    reveal_strlit("/etc/cups");
    reveal_strlit("/share/cups/config/cups-files.conf");
    reveal_strlit("/share/cups/config/snmp.conf");
    reveal_strlit("/share/cups/config/subscriptions.conf");
    lemma_reveal_paths();
    lemma_config_paths();
    lemma_sources_free(deb, pid, legacy);
    lemma_range(fs, s, 0, j, legacy, run);
    if below(mk, "/share/cups/config/ppd"@) {
        lemma_char_of_below(mk, "/share/cups/config/ppd"@, 19);
    }
    if below(mk, "/share/cups/config/ssl"@) {
        lemma_char_of_below(mk, "/share/cups/config/ssl"@, 19);
    }
    lemma_free_from(deb, pid, mk, 0, j);
    lemma_range(fs, s, 0, j, mk, run);
    assert forall|i: int| 0 <= i < j implies !touches(#[trigger] s[i].action, from) by {
        lemma_sources_untouched(deb, pid, i, from);
    }
    lemma_range_spared(fs, s, 0, j, from, run);
    let cs = s[j].conditions;
    assert(cs.len() == 3);
    assert(holds(t, cs[0]));
    assert(holds(t, cs[1]));
    assert(holds(t, cs[2]));
    assert(all_hold(t, cs));
}

/// Moving a legacy configuration keeps the user's printers: from a file system where the
/// legacy configuration is and was not moved yet, a run of setup ends with each printer list
/// of the legacy configuration that is a file (`printers.conf`, `printers.conf.O`) in the
/// configuration directory, unchanged; for programs that change neither the configuration
/// (but by copying into its directories) nor those legacy files.
pub proof fn law_migration_keeps_printers(fs: FileSystem, deb: Option<Seq<char>>, pid: nat, run: Programs)
    requires
        confined(run),
        spares(run, "/data/cups/config/printers.conf"@),
        spares(run, "/data/cups/config/printers.conf.O"@),
        fs.contains_key(LEGACY_CONFIG_DIR@),
        !fs.contains_key(MIGRATED_MARKER@),
    ensures
        fs.contains_key("/data/cups/config/printers.conf"@) && fs["/data/cups/config/printers.conf"@] is File
            ==> after_setup(fs, deb, pid, run).contains_key("/share/cups/config/printers.conf"@)
            && after_setup(fs, deb, pid, run)["/share/cups/config/printers.conf"@]
            == fs["/data/cups/config/printers.conf"@],
        fs.contains_key("/data/cups/config/printers.conf.O"@)
            && fs["/data/cups/config/printers.conf.O"@] is File ==> after_setup(
            fs,
            deb,
            pid,
            run,
        ).contains_key("/share/cups/config/printers.conf.O"@) && after_setup(fs, deb, pid, run)[
            "/share/cups/config/printers.conf.O"@] == fs["/data/cups/config/printers.conf.O"@],
{
    let s = setup_steps(deb, pid);
    let lpc = "/data/cups/config/printers.conf"@;
    let lpco = "/data/cups/config/printers.conf.O"@;
    let pc = "/share/cups/config/printers.conf"@;
    let pco = "/share/cups/config/printers.conf.O"@;
    reveal_strlit("/share/cups/config");
    reveal_strlit("/share/cups/config/ppd");
    reveal_strlit("/share/cups/config/ssl");
    reveal_strlit("/share/cups/config/cupsd.conf");
    reveal_strlit("/share/cups/config/printers.conf");
    reveal_strlit("/share/cups/config/printers.conf.O");
    reveal_strlit("/share/cups/config/.migrated");
    reveal_strlit("/etc/cups");
    reveal_strlit("/share/cups/config/cups-files.conf");
    reveal_strlit("/share/cups/config/snmp.conf");
    reveal_strlit("/share/cups/config/subscriptions.conf");
    reveal_strlit("/data/cups/config/printers.conf");
    reveal_strlit("/data/cups/config/printers.conf.O");
    lemma_reveal_paths();
    lemma_config_paths();
    lemma_plan_step(deb, pid, 13);
    lemma_plan_step(deb, pid, 14);
    lemma_plan_step(deb, pid, 21);
    if below(pc, "/share/cups/config/ppd"@) {
        lemma_char_of_below(pc, "/share/cups/config/ppd"@, 20);
    }
    if below(pc, "/share/cups/config/ssl"@) {
        lemma_char_of_below(pc, "/share/cups/config/ssl"@, 19);
    }
    if below(pco, "/share/cups/config/ppd"@) {
        lemma_char_of_below(pco, "/share/cups/config/ppd"@, 20);
    }
    if below(pco, "/share/cups/config/ssl"@) {
        lemma_char_of_below(pco, "/share/cups/config/ssl"@, 19);
    }
    assert(pco[19] != "/share/cups/config/cups-files.conf"@[19]);
    if fs.contains_key(lpc) && fs[lpc] is File {
        lemma_migration_copies(fs, deb, pid, run, 13, lpc, pc);
        lemma_free_from(deb, pid, pc, 14, 21);
        lemma_range(fs, s, 14, 21, pc, run);
        let t = run_upto(fs, s, 21, run);
        assert(!holds(t, s[21].conditions[0]));
        assert(same_at(run_upto(fs, s, 22, run), t, pc));
        lemma_free_from(deb, pid, pc, 22, s.len() as int);
        lemma_range(fs, s, 22, s.len() as int, pc, run);
    }
    if fs.contains_key(lpco) && fs[lpco] is File {
        lemma_migration_copies(fs, deb, pid, run, 14, lpco, pco);
        lemma_free_from(deb, pid, pco, 15, s.len() as int);
        lemma_range(fs, s, 15, s.len() as int, pco, run);
    }
}

/// Whether `s` ends with `suffix`.
pub open spec fn ends_with(s: Seq<char>, suffix: Seq<char>) -> bool {
    suffix.len() <= s.len() && s.skip(s.len() - suffix.len()) == suffix
}

/// Whether a recursive copy (`cp -r <source> <target>`) copies the contents of the directory
/// `d` into a directory of the same name: its source is `d/.`, and `d` and the target end
/// with the same last component.
pub open spec fn copies_contents_of(args: Seq<Seq<char>>, d: Seq<char>) -> bool {
    &&& args[1] == d + "/."@
    &&& exists|name: Seq<char>|
        name.len() > 0 && #[trigger] ends_with(d, "/"@ + name) && ends_with(args[2], "/"@ + name)
}

proof fn lemma_ends_with_concat(a: Seq<char>, b: Seq<char>, suffix: Seq<char>)
    requires
        ends_with(b, suffix),
    ensures
        ends_with(a + b, suffix),
{
    assert((a + b).skip((a + b).len() - suffix.len()) =~= b.skip(b.len() - suffix.len()));
}

/// The copies of the move and of the driver installation copy the directories that their
/// conditions test.
proof fn lemma_copy_steps(deb: Option<Seq<char>>, pid: nat, i: int)
    requires
        0 <= i < setup_steps(deb, pid).len(),
    ensures
        forall|j: int|
            0 <= j < setup_steps(deb, pid)[i].conditions.len() ==> match #[trigger] setup_steps(deb, pid)[i].conditions[j] {
                ConditionView::IsDir(d) => match setup_steps(deb, pid)[i].action {
                    ActionView::Capture(program, args) => program == "cp"@ && args.len() == 3
                        && args[0] == "-r"@ ==> copies_contents_of(args, d),
                    _ => true,
                },
                _ => true,
            },
{
    let s = setup_steps(deb, pid);
    lemma_plan_step(deb, pid, i);
    reveal_strlit("cp");
    reveal_strlit("chmod");
    reveal_strlit("find");
    reveal_strlit("dpkg");
    reveal_strlit("/");
    reveal_strlit("/.");
    if i < 12 {
        assert(base_steps()[0].conditions.len() == 0);
        assert(base_steps()[1].conditions.len() == 0);
        assert(base_steps()[2].conditions.len() == 0);
        assert(base_steps()[3].conditions.len() == 0);
        assert(base_steps()[4].conditions.len() == 0);
        assert(base_steps()[5].conditions.len() == 0);
        assert(base_steps()[6].conditions.len() == 0);
        assert(base_steps()[7].conditions.len() == 0);
        assert(base_steps()[8].conditions.len() == 0);
        assert(base_steps()[9].conditions.len() == 0);
        assert(base_steps()[10].conditions.len() == 0);
        assert(base_steps()[11].conditions.len() == 0);
        assert(s[i].conditions.len() == 0);
    } else if i < 18 {
        lemma_migration_copies_tested(i - 12);
    } else if i < 25 {
        assert forall|j: int| 0 <= j < s[i].conditions.len() implies !(#[trigger] s[i].conditions[j] is IsDir) by {
            assert(link_steps()[0].conditions.len() == 0);
            assert(link_steps()[1].conditions.len() == 0);
            assert(link_steps()[2].conditions.len() == 0);
            assert(link_steps()[3].conditions.len() == 1);
            assert(!(link_steps()[3].conditions[0] is IsDir));
            assert(!(link_steps()[4].conditions[0] is IsDir));
            assert(!(link_steps()[4].conditions[1] is IsDir));
            assert(!(link_steps()[5].conditions[0] is IsDir));
            assert(!(link_steps()[5].conditions[1] is IsDir));
            assert(!(link_steps()[6].conditions[0] is IsDir));
            assert(!(link_steps()[6].conditions[1] is IsDir));
            assert(link_steps()[4].conditions.len() == 2);
            assert(link_steps()[5].conditions.len() == 2);
            assert(link_steps()[6].conditions.len() == 2);
        }
    } else if i < s.len() - 1 {
        match driver_package(deb) {
            Some(p) => lemma_driver_copies_tested(p, pid, i - 25),
            None => {},
        }
    } else {
        assert(s[i].conditions.len() == 0);
    }
}

/// The recursive copies of the move copy the legacy driver and certificate directories that
/// they test into the directories of the same names.
proof fn lemma_migration_copies_tested(m: int)
    requires
        0 <= m < 6,
    ensures
        forall|j: int|
            0 <= j < migration_steps()[m].conditions.len() ==> match #[trigger] migration_steps()[m].conditions[j] {
                ConditionView::IsDir(d) => match migration_steps()[m].action {
                    ActionView::Capture(program, args) => program == "cp"@ && args.len() == 3
                        && args[0] == "-r"@ ==> copies_contents_of(args, d),
                    _ => true,
                },
                _ => true,
            },
{
    reveal_strlit("cp");
    reveal_strlit("-r");
    reveal_strlit("/.");
    reveal_strlit("/");
    reveal_strlit("/data/cups/config/ppd");
    reveal_strlit("/data/cups/config/ppd/.");
    reveal_strlit("/share/cups/config/ppd");
    reveal_strlit("/data/cups/config/ssl");
    reveal_strlit("/data/cups/config/ssl/.");
    reveal_strlit("/share/cups/config/ssl");
    reveal_strlit("ppd");
    reveal_strlit("ssl");
    lemma_reveal_paths();
    let g = migration_guard();
    assert(g.len() == 2);
    assert(!(g[0] is IsDir) && !(g[1] is IsDir));
    let ppd_src = "/data/cups/config/ppd"@;
    let ssl_src = "/data/cups/config/ssl"@;
    assert("/data/cups/config/ppd/."@ =~= ppd_src + "/."@);
    assert("/data/cups/config/ssl/."@ =~= ssl_src + "/."@);
    assert(ends_with(ppd_src, "/"@ + "ppd"@)) by {
        assert(ppd_src.skip(17) =~= "/"@ + "ppd"@);
    }
    assert(ends_with("/share/cups/config/ppd"@, "/"@ + "ppd"@)) by {
        assert("/share/cups/config/ppd"@.skip(18) =~= "/"@ + "ppd"@);
    }
    assert(ends_with(ssl_src, "/"@ + "ssl"@)) by {
        assert(ssl_src.skip(17) =~= "/"@ + "ssl"@);
    }
    assert(ends_with("/share/cups/config/ssl"@, "/"@ + "ssl"@)) by {
        assert("/share/cups/config/ssl"@.skip(18) =~= "/"@ + "ssl"@);
    }
    let ms = migration_steps();
    assert forall|j: int| 0 <= j < ms[m].conditions.len() implies match #[trigger] ms[m].conditions[j] {
        ConditionView::IsDir(d) => match ms[m].action {
            ActionView::Capture(program, args) => program == "cp"@ && args.len() == 3 && args[0]
                == "-r"@ ==> copies_contents_of(args, d),
            _ => true,
        },
        _ => true,
    } by {
        if m == 3 && ms[m].conditions[j] is IsDir {
            assert(j == 2);
            let d = ppd_src;
            let args = seq!["-r"@, "/data/cups/config/ppd/."@, "/share/cups/config/ppd"@];
            assert(ends_with(d, "/"@ + "ppd"@) && ends_with(args[2], "/"@ + "ppd"@));
            assert(copies_contents_of(args, d));
        } else if m == 4 && ms[m].conditions[j] is IsDir {
            assert(j == 2);
            let d = ssl_src;
            let args = seq!["-r"@, "/data/cups/config/ssl/."@, "/share/cups/config/ssl"@];
            assert(ends_with(d, "/"@ + "ssl"@) && ends_with(args[2], "/"@ + "ssl"@));
            assert(copies_contents_of(args, d));
        } else if m == 1 || m == 2 {
            assert(j < 2 || ms[m].conditions[j] is Exists);
        } else if m == 0 || m == 5 {
            assert(ms[m].conditions.len() == 2);
        }
    }
}

/// The recursive copies of the driver installation copy the unpacked filter and model
/// directories that they test into the installed directories of the same names.
proof fn lemma_driver_copies_tested(deb: Seq<char>, pid: nat, m: int)
    requires
        0 <= m < driver_steps(deb, pid).len(),
    ensures
        forall|j: int|
            0 <= j < driver_steps(deb, pid)[m].conditions.len() ==> match #[trigger] driver_steps(deb, pid)[m].conditions[j] {
                ConditionView::IsDir(d) => match driver_steps(deb, pid)[m].action {
                    ActionView::Capture(program, args) => program == "cp"@ && args.len() == 3
                        && args[0] == "-r"@ ==> copies_contents_of(args, d),
                    _ => true,
                },
                _ => true,
            },
{
    reveal_strlit("cp");
    reveal_strlit("chmod");
    reveal_strlit("find");
    reveal_strlit("dpkg");
    reveal_strlit("/usr/lib/cups/filter");
    reveal_strlit("/usr/share/cups/model");
    reveal_strlit("/");
    reveal_strlit("filter");
    reveal_strlit("model");
    let dir = "/tmp/driver-"@ + crate::text::decimal(pid);
    let filters = dir + "/usr/lib/cups/filter"@;
    let models = dir + "/usr/share/cups/model"@;
    assert(ends_with("/usr/lib/cups/filter"@, "/"@ + "filter"@)) by {
        assert("/usr/lib/cups/filter"@.skip(13) =~= "/"@ + "filter"@);
    }
    assert(ends_with("/usr/share/cups/model"@, "/"@ + "model"@)) by {
        assert("/usr/share/cups/model"@.skip(15) =~= "/"@ + "model"@);
    }
    lemma_ends_with_concat(dir, "/usr/lib/cups/filter"@, "/"@ + "filter"@);
    lemma_ends_with_concat(dir, "/usr/share/cups/model"@, "/"@ + "model"@);
    let ds = driver_steps(deb, pid);
    assert forall|j: int| 0 <= j < ds[m].conditions.len() implies match #[trigger] ds[m].conditions[j] {
        ConditionView::IsDir(d) => match ds[m].action {
            ActionView::Capture(program, args) => program == "cp"@ && args.len() == 3 && args[0]
                == "-r"@ ==> copies_contents_of(args, d),
            _ => true,
        },
        _ => true,
    } by {
        if m == 3 && ds[m].conditions[j] is IsDir {
            assert(j == 1);
            let d = filters;
            let args = seq!["-r"@, filters + "/."@, "/usr/lib/cups/filter"@];
            assert(ds[m].conditions[j] == ConditionView::IsDir(d));
            assert(ds[m].action == ActionView::Capture("cp"@, args));
            assert(ends_with(d, "/"@ + "filter"@) && ends_with(args[2], "/"@ + "filter"@));
            assert(copies_contents_of(args, d));
        } else if m == 6 && ds[m].conditions[j] is IsDir {
            assert(j == 1);
            let d = models;
            let args = seq!["-r"@, models + "/."@, "/usr/share/cups/model"@];
            assert(ds[m].conditions[j] == ConditionView::IsDir(d));
            assert(ds[m].action == ActionView::Capture("cp"@, args));
            assert(ends_with(d, "/"@ + "model"@) && ends_with(args[2], "/"@ + "model"@));
            assert(copies_contents_of(args, d));
        } else if m == 4 || m == 5 {
            assert("chmod"@.len() != "cp"@.len());
            assert("find"@.len() != "cp"@.len());
        } else if m == 0 || m == 1 || m == 2 || m == 7 {
            assert(ds[m].conditions.len() == 1);
        }
    }
}

/// Each recursive copy of setup copies the directory that its condition tests, into a
/// directory of the same name: a step guarded by `IsDir(d)` whose action is `cp -r <s> <t>`
/// has `s` equal to `d/.`, and `d` and `t` end with the same last component (the legacy
/// driver and certificate directories into the configuration's, the unpacked package's
/// filters and models into the installed ones).
pub proof fn law_copies_come_from_tested_dirs(
    deb: Option<Seq<char>>,
    pid: nat,
    i: int,
    j: int,
    d: Seq<char>,
    program: Seq<char>,
    args: Seq<Seq<char>>,
)
    requires
        0 <= i < setup_steps(deb, pid).len(),
        0 <= j < setup_steps(deb, pid)[i].conditions.len(),
        setup_steps(deb, pid)[i].conditions[j] == ConditionView::IsDir(d),
        setup_steps(deb, pid)[i].action == ActionView::Capture(program, args),
        program == "cp"@,
        args.len() == 3,
        args[0] == "-r"@,
    ensures
        args[1] == d + "/."@,
        exists|name: Seq<char>|
            name.len() > 0 && #[trigger] ends_with(d, "/"@ + name) && ends_with(args[2], "/"@ + name),
{
    lemma_copy_steps(deb, pid, i);
    assert(setup_steps(deb, pid)[i].conditions[j] == ConditionView::IsDir(d));
}

} // verus!
