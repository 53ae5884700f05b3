use cups_api::status::{
    completed_jobs_count, count_lines_beginning, queued_job_count, version_text, PrinterListing, PrinterScan,
    StatusParser, StatusScan,
};

const LONG_LISTING: &str = "printer Samsung_M2020_Series is idle.  enabled since Tue 01 Jul 2025 10:00:00 AM UTC\n\
\tForm mounted:\n\
\tContent types: any\n\
\tPrinter types: unknown\n\
\tDescription: Samsung M2020 Series\n\
\tAlerts: none\n\
\tLocation: Office\n\
\tConnection: direct\n\
\tInterface: /etc/cups/ppd/Samsung_M2020_Series.ppd\n\
\tOn fault: no alert\n\
\tAfter fault: continue\n";

fn parser() -> StatusParser {
    StatusParser::new().expect("the status patterns compile")
}

#[test]
fn listing_reads_name_and_state() {
    let p = parser();
    let l = p.printer_listings(
        "printer Samsung_M2020_Series is idle.  enabled since Tue 01 Jul 2025\nprinter HP is stopped.",
    );
    assert_eq!(l.len(), 2);
    assert_eq!(l[0].name, "Samsung_M2020_Series");
    assert_eq!(l[0].state, "idle");
    assert_eq!(l[1].name, "HP");
    assert_eq!(l[1].state, "stopped");
}

#[test]
fn listing_of_no_printers_is_empty() {
    let p = parser();
    assert!(p.printer_listings("").is_empty());
    assert!(p.printer_listings("lpstat: No destinations added.").is_empty());
}

#[test]
fn details_fall_back_to_description() {
    let d = parser().printer_details(LONG_LISTING);
    assert_eq!(d.make_and_model, "Samsung M2020 Series");
    assert_eq!(d.description, "Samsung M2020 Series");
    assert_eq!(d.device_uri, "");
    assert!(d.is_accepting_jobs);
    assert!(d.state_reasons.is_empty());
}

#[test]
fn details_read_every_label() {
    let report = "\tMake and Model:   Samsung M2020 Series  \n\
                  \tDevice URI: usb://Samsung/M2020%20Series?serial=1\n\
                  \tPrinter is not accepting jobs\n\
                  \tReason(s): paused, media-empty-error , \n\
                  \tDescription: Office printer\n";
    let d = parser().printer_details(report);
    assert_eq!(d.make_and_model, "Samsung M2020 Series");
    assert_eq!(d.device_uri, "usb://Samsung/M2020%20Series?serial=1");
    assert!(!d.is_accepting_jobs);
    assert_eq!(d.state_reasons, vec!["paused", "media-empty-error", ""]);
    assert_eq!(d.description, "Office printer");
}

#[test]
fn details_later_lines_win() {
    let report = "Printer is accepting jobs\nDevice URI: a\nDevice URI: b\nPrinter is rejecting\n";
    let d = parser().printer_details(report);
    assert_eq!(d.device_uri, "b");
    assert!(!d.is_accepting_jobs);
}

#[test]
fn queue_counts_lines_of_the_printer() {
    let q = "Samsung-12 root 1024 Tue\nHP-3 root 10 Tue\nSamsung-13 root 2048 Tue\nSamsung2-4 root 1 Tue\n";
    assert_eq!(count_lines_beginning(q, "Samsung"), 3);
    assert_eq!(queued_job_count(q, "Samsung"), 2);
    assert_eq!(queued_job_count(q, "HP"), 1);
    assert_eq!(queued_job_count(q, "Canon"), 0);
    assert_eq!(queued_job_count("P-3  alice  1024  Tue\nP2-7  bob  2048  Tue", "P"), 1);
    assert_eq!(count_lines_beginning(q, "Canon"), 0);
    assert_eq!(count_lines_beginning("", "Samsung"), 0);
}

#[test]
fn version_label() {
    assert_eq!(version_text("2.4.19"), "CUPS 2.4.19");
    assert_eq!(version_text("  2.4.19\n"), "CUPS 2.4.19");
    assert_eq!(version_text(""), "CUPS");
    assert_eq!(version_text(" \n"), "CUPS");
}

#[test]
fn completed_jobs() {
    assert_eq!(completed_jobs_count("42"), 42);
    assert_eq!(completed_jobs_count(" 42\n"), 42);
    assert_eq!(completed_jobs_count("grep: /share/cups/logs/error_log: No such file"), 0);
    assert_eq!(completed_jobs_count(""), 0);
}

#[test]
fn status_assembles_reports() {
    let p = parser();
    let scan = StatusScan {
        scheduler_report: "scheduler is running".to_string(),
        version_report: "2.4.19".to_string(),
        printers: vec![PrinterScan {
            listing: PrinterListing { name: "Samsung".to_string(), state: "idle".to_string() },
            details_report: LONG_LISTING.to_string(),
            queue_report: "Samsung-1 root 100\nSamsung-2 root 200\n".to_string(),
        }],
        completed_report: "42".to_string(),
        avahi_running: true,
    };
    let s = p.status(scan);
    assert!(s.cups.is_running);
    assert_eq!(s.cups.version, "CUPS 2.4.19");
    assert_eq!(s.printers.len(), 1);
    let pr = &s.printers[0];
    assert_eq!(pr.name, "Samsung");
    assert_eq!(pr.state, "idle");
    assert!(pr.is_enabled);
    assert!(pr.is_accepting_jobs);
    assert_eq!(pr.make_and_model, "Samsung M2020 Series");
    assert_eq!(pr.jobs_in_queue, 2);
    assert_eq!(s.jobs_completed_total, 42);
    assert!(s.avahi_running);
}

#[test]
fn stopped_scheduler_disables_printers() {
    let p = parser();
    let scan = StatusScan {
        scheduler_report: "scheduler is not running".to_string(),
        version_report: "".to_string(),
        printers: vec![PrinterScan {
            listing: PrinterListing { name: "P".to_string(), state: "idle.".to_string() },
            details_report: String::new(),
            queue_report: String::new(),
        }],
        completed_report: "no".to_string(),
        avahi_running: false,
    };
    let s = p.status(scan);
    assert!(!s.cups.is_running);
    assert!(!s.printers[0].is_enabled);
    assert_eq!(s.cups.version, "CUPS");
    assert_eq!(s.jobs_completed_total, 0);
    assert_eq!(s.printers[0].make_and_model, "");
}

use cups_api::status::{listings_from_matches, status_from, LineValues, PrinterDetails, PrinterReading};

fn strings(items: &[&str]) -> Vec<Option<String>> {
    items.iter().map(|s| Some(s.to_string())).collect()
}

#[test]
fn listings_from_given_matches() {
    let matches = vec![
        strings(&["printer A is idle", "A", "idle"]),
        strings(&["printer", "B"]),
        vec![Some("printer D is".to_string()), Some("D".to_string()), None],
        strings(&["printer C is stopped.", "C", "stopped."]),
    ];
    let l = listings_from_matches(&matches);
    assert_eq!(l.len(), 2);
    assert_eq!((l[0].name.as_str(), l[0].state.as_str()), ("A", "idle"));
    assert_eq!((l[1].name.as_str(), l[1].state.as_str()), ("C", "stopped"));
    assert!(listings_from_matches(&vec![]).is_empty());
}

fn none() -> LineValues {
    LineValues { make_and_model: None, device_uri: None, accepting: None, reasons: None, description: None }
}

#[test]
fn applying_line_values() {
    let mut d = PrinterDetails::new();
    assert!(d.is_accepting_jobs);
    d.apply(&LineValues { make_and_model: Some(" HP LaserJet ".to_string()), ..none() });
    d.apply(&LineValues { accepting: Some("rejecting jobs".to_string()), ..none() });
    d.apply(&LineValues { reasons: Some("a, b".to_string()), description: Some(" Desk ".to_string()), ..none() });
    d.apply(&none());
    assert_eq!(d.make_and_model, "HP LaserJet");
    assert!(!d.is_accepting_jobs);
    assert_eq!(d.state_reasons, vec!["a", "b"]);
    assert_eq!(d.description, "Desk");
    let d = d.finish();
    assert_eq!(d.make_and_model, "HP LaserJet");
}

#[test]
fn finish_falls_back_to_description() {
    let mut d = PrinterDetails::new();
    d.apply(&LineValues { description: Some("Kitchen printer".to_string()), ..none() });
    assert_eq!(d.finish().make_and_model, "Kitchen printer");
    assert_eq!(PrinterDetails::new().finish().make_and_model, "");
}

#[test]
fn values_of_a_line() {
    let p = parser();
    let v = p.line_values("\tDevice URI: ipp://printer.local/ipp/print");
    assert_eq!(v.device_uri.as_deref(), Some("ipp://printer.local/ipp/print"));
    assert!(v.make_and_model.is_none() && v.accepting.is_none() && v.reasons.is_none() && v.description.is_none());
    let v = p.line_values("Printer is accepting jobs");
    assert_eq!(v.accepting.as_deref(), Some("accepting jobs"));
    let v = p.line_values("Make and Model:");
    assert!(v.make_and_model.is_none());
}

#[test]
fn status_from_readings() {
    let mut details = PrinterDetails::new();
    details.apply(&LineValues { make_and_model: Some("M".to_string()), ..none() });
    let readings = vec![PrinterReading {
        listing: PrinterListing { name: "Q".to_string(), state: "printing".to_string() },
        details,
        queue_report: "Q-1 u 1\nQX-2 u 2\nR-3 u 3".to_string(),
    }];
    let s = status_from("scheduler is running", "2.4", readings, "7", false);
    assert!(s.cups.is_running);
    assert_eq!(s.cups.version, "CUPS 2.4");
    assert_eq!(s.printers[0].jobs_in_queue, 1);
    assert_eq!(s.printers[0].make_and_model, "M");
    assert!(s.printers[0].is_enabled);
    assert_eq!(s.jobs_completed_total, 7);
    assert!(!s.avahi_running);
}

#[test]
fn listing_strips_only_a_final_period() {
    let p = parser();
    let l = p.printer_listings("printer A is idle.  enabled\nprinter B is processing  since\n  printer C is idle.");
    assert_eq!(l.len(), 2);
    assert_eq!(l[0].state, "idle");
    assert_eq!(l[1].state, "processing");
}

#[test]
fn readme_example_status() {
    let p = parser();
    let listings = p.printer_listings("printer Samsung_M2020_Series is idle.  enabled since Tue 01 Jul 2026 10:00:00");
    assert_eq!(listings.len(), 1);
    assert_eq!(listings[0].name, "Samsung_M2020_Series");
    assert_eq!(listings[0].state, "idle");
}

#[test]
fn not_accepting_from_line_values() {
    let p = parser();
    let mut d = PrinterDetails::new();
    d.apply(&p.line_values("\tPrinter is not accepting jobs"));
    assert!(!d.is_accepting_jobs);
    d.apply(&p.line_values("\tPrinter is accepting jobs"));
    assert!(d.is_accepting_jobs);
}
