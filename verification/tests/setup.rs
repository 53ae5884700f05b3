use cups_api::setup::{options_from_json, setup_plan, AddonOptions, Condition, SetupAction, SetupStep, CUPSD_CONF};

fn s(t: &str) -> String {
    t.to_string()
}

fn v(items: &[&str]) -> Vec<String> {
    items.iter().map(|t| t.to_string()).collect()
}

#[test]
fn plan_without_driver() {
    let plan = setup_plan(&AddonOptions { printer_driver_deb: None }, 1);
    assert_eq!(plan.len(), 26);
    assert_eq!(plan[0], SetupStep { conditions: vec![], action: SetupAction::CreateDirAll(s("/share/cups/cache")) });
    assert_eq!(
        plan[6].action,
        SetupAction::Capture { program: s("chown"), args: v(&["-R", "root:lp", "/share/cups"]) }
    );
    assert_eq!(plan[9].action, SetupAction::Spawn { program: s("dbus-daemon"), args: v(&["--system"]) });
    assert_eq!(
        plan[11].action,
        SetupAction::WriteFile { path: s("/share/cups/config/cupsd.conf"), contents: s(CUPSD_CONF) }
    );
    assert_eq!(plan[25].action, SetupAction::Log(s("setup complete")));
}

#[test]
fn migration_is_guarded_and_marked() {
    let plan = setup_plan(&AddonOptions { printer_driver_deb: None }, 1);
    for step in &plan[12..18] {
        assert!(step.conditions.contains(&Condition::Exists(s("/data/cups/config"))));
        assert!(step.conditions.contains(&Condition::Missing(s("/share/cups/config/.migrated"))));
    }
    assert_eq!(
        plan[17].action,
        SetupAction::WriteFile { path: s("/share/cups/config/.migrated"), contents: s("") }
    );
    assert_eq!(
        plan[15].action,
        SetupAction::Capture { program: s("cp"), args: v(&["-r", "/data/cups/config/ppd/.", "/share/cups/config/ppd"]) }
    );
}

#[test]
fn defaults_only_where_missing() {
    let plan = setup_plan(&AddonOptions { printer_driver_deb: None }, 1);
    assert_eq!(plan[20].action, SetupAction::Symlink { target: s("/share/cups/config"), link: s("/etc/cups") });
    assert_eq!(
        plan[22],
        SetupStep {
            conditions: vec![
                Condition::Exists(s("/usr/share/cups/default-config/cups-files.conf")),
                Condition::Missing(s("/share/cups/config/cups-files.conf")),
            ],
            action: SetupAction::CopyFile {
                from: s("/usr/share/cups/default-config/cups-files.conf"),
                to: s("/share/cups/config/cups-files.conf"),
            },
        }
    );
}

#[test]
fn driver_installation() {
    let plan = setup_plan(&AddonOptions { printer_driver_deb: Some(s("drivers/splix.deb")) }, 42);
    assert_eq!(plan.len(), 34);
    let guard = Condition::Exists(s("/share/drivers/splix.deb"));
    for step in &plan[25..33] {
        assert_eq!(step.conditions[0], guard);
    }
    assert_eq!(plan[25].action, SetupAction::Log(s("installing driver from /share/drivers/splix.deb...")));
    assert_eq!(plan[26].action, SetupAction::CreateDirAll(s("/tmp/driver-42")));
    assert_eq!(
        plan[27].action,
        SetupAction::Capture { program: s("dpkg"), args: v(&["-x", "/share/drivers/splix.deb", "/tmp/driver-42"]) }
    );
    assert_eq!(plan[28].conditions[1], Condition::IsDir(s("/tmp/driver-42/usr/lib/cups/filter")));
    assert_eq!(
        plan[30].action,
        SetupAction::Capture {
            program: s("find"),
            args: v(&["/tmp/driver-42/usr/lib", "-name", "*.so*", "-exec", "cp", "{}", "/usr/lib/", ";"]),
        }
    );
    assert_eq!(plan[32].action, SetupAction::RemoveDirAll(s("/tmp/driver-42")));
    assert_eq!(plan[33].action, SetupAction::Log(s("setup complete")));
}

#[test]
fn empty_driver_option_is_none() {
    let a = setup_plan(&AddonOptions { printer_driver_deb: Some(String::new()) }, 5);
    let b = setup_plan(&AddonOptions { printer_driver_deb: None }, 5);
    assert_eq!(a, b);
}

#[test]
fn scheduler_configuration_text() {
    assert!(CUPSD_CONF.starts_with("# Listen on all interfaces\nListen 0.0.0.0:631\n"));
    assert!(CUPSD_CONF.contains("<Location /admin>\n  Order allow,deny\n  Allow localhost\n"));
    assert!(CUPSD_CONF.contains("# mDNS/DNS-SD \u{2014} allow Apple devices"));
    assert!(CUPSD_CONF.ends_with("JobSheets none,none\nPreserveJobHistory No\n"));
    assert_eq!(CUPSD_CONF.len(), 1077);
}

#[test]
fn driver_filters_made_executable() {
    let plan = setup_plan(&AddonOptions { printer_driver_deb: Some(s("d.deb")) }, 3);
    assert_eq!(
        plan[29].action,
        SetupAction::Capture { program: s("chmod"), args: v(&["-R", "755", "/usr/lib/cups/filter"]) }
    );
    assert_eq!(plan[29].conditions[1], Condition::IsDir(s("/tmp/driver-3/usr/lib/cups/filter")));
}

#[test]
fn options_file() {
    let o = options_from_json(Some(r#"{"printer_driver_deb": "drivers/x.deb", "api_port": 8000}"#));
    assert_eq!(o.printer_driver_deb.as_deref(), Some("drivers/x.deb"));
    assert_eq!(options_from_json(None).printer_driver_deb, None);
    assert_eq!(options_from_json(Some("not json")).printer_driver_deb, None);
    assert_eq!(options_from_json(Some(r#"{"printer_driver_deb": 5}"#)).printer_driver_deb, None);
    assert_eq!(options_from_json(Some(r#"{"other": "x"}"#)).printer_driver_deb, None);
    assert_eq!(options_from_json(Some(r#"["printer_driver_deb"]"#)).printer_driver_deb, None);
    let empty = options_from_json(Some(r#"{"printer_driver_deb": ""}"#));
    assert_eq!(setup_plan(&empty, 1), setup_plan(&AddonOptions { printer_driver_deb: None }, 1));
}
