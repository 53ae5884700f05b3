use vstd::prelude::*;
use crate::patterns::{Pattern, regex_accepts, regex_first_captures, regex_all_captures, first_captures, all_captures};
use crate::text::{
    opt_text, opt_texts, strip_period, without_final_period,
    trim, split, lines, occurs_in, begins_with, texts, parse_unsigned, trimmed, split_text,
    lines_of, contains_text, lemma_texts_push, law_trim_idempotent, starts_with_text, parse_unsigned_text, concat_text,
};

verus! {

/// A line of `lpstat -p` that starts a printer: its name and state (multi-line mode, so
/// that every printer line of the report matches).
pub const PRINTER_PATTERN: &'static str = "(?m)^printer\\s+(\\S+)\\s+is\\s+(\\S+)";

/// A line of `lpstat -l -p` that gives the make and model.
pub const MAKE_AND_MODEL_PATTERN: &'static str = "Make and Model:\\s+(.*)";

/// A line of `lpstat -l -p` that gives the device URI.
pub const DEVICE_URI_PATTERN: &'static str = "Device URI:\\s+(.*)";

/// A line of `lpstat -l -p` that says whether jobs are accepted.
pub const ACCEPTING_PATTERN: &'static str = "Printer is\\s+(.*)";

/// A line of `lpstat -l -p` that lists the state reasons.
pub const REASONS_PATTERN: &'static str = "Reason\\(s\\):\\s+(.*)";

/// A line of `lpstat -l -p` that gives the description.
pub const DESCRIPTION_PATTERN: &'static str = "Description:\\s+(.*)";

// ───────────────────────── model ─────────────────────────

/// Group `i` of the first match of `pattern` in `text`, where there is such a match and group.
pub open spec fn group(pattern: Seq<char>, text: Seq<char>, i: int) -> Option<Seq<char>> {
    match regex_first_captures(pattern, text) {
        Some(g) => if 0 <= i < g.len() {
            g[i]
        } else {
            None
        },
        None => None,
    }
}

/// Each piece, trimmed.
pub open spec fn trim_all(ps: Seq<Seq<char>>) -> Seq<Seq<char>> {
    ps.map_values(|p: Seq<char>| trim(p))
}

/// What the long listing of one printer says.
pub ghost struct DetailsView {
    pub make_and_model: Seq<char>,
    pub device_uri: Seq<char>,
    pub is_accepting_jobs: bool,
    pub state_reasons: Seq<Seq<char>>,
    pub description: Seq<char>,
}

/// Nothing read yet: no texts, no reasons, and jobs accepted.
pub open spec fn no_details() -> DetailsView {
    DetailsView {
        make_and_model: Seq::empty(),
        device_uri: Seq::empty(),
        is_accepting_jobs: true,
        state_reasons: Seq::empty(),
        description: Seq::empty(),
    }
}

/// The labelled values found on one line of a long listing, each where its pattern matches.
pub ghost struct LineValuesView {
    pub make_and_model: Option<Seq<char>>,
    pub device_uri: Option<Seq<char>>,
    pub accepting: Option<Seq<char>>,
    pub reasons: Option<Seq<char>>,
    pub description: Option<Seq<char>>,
}

/// The labelled values on `line`: group 1 of the match of each label's pattern.
pub open spec fn line_values(line: Seq<char>) -> LineValuesView {
    LineValuesView {
        make_and_model: group(MAKE_AND_MODEL_PATTERN@, line, 1),
        device_uri: group(DEVICE_URI_PATTERN@, line, 1),
        accepting: group(ACCEPTING_PATTERN@, line, 1),
        reasons: group(REASONS_PATTERN@, line, 1),
        description: group(DESCRIPTION_PATTERN@, line, 1),
    }
}

/// What the values of one line add: each value found replaces the one read before; the make
/// and model, device URI and description trimmed, jobs accepted where the value says
/// `accepting` first (not for `not accepting`), and the reasons split at commas and trimmed.
pub open spec fn apply_values(d: DetailsView, v: LineValuesView) -> DetailsView {
    DetailsView {
        make_and_model: match v.make_and_model {
            Some(m) => trim(m),
            None => d.make_and_model,
        },
        device_uri: match v.device_uri {
            Some(m) => trim(m),
            None => d.device_uri,
        },
        is_accepting_jobs: match v.accepting {
            Some(m) => begins_with(m, "accepting"@),
            None => d.is_accepting_jobs,
        },
        state_reasons: match v.reasons {
            Some(m) => trim_all(split(m, ',')),
            None => d.state_reasons,
        },
        description: match v.description {
            Some(m) => trim(m),
            None => d.description,
        },
    }
}

/// What one line of the long listing adds.
pub open spec fn scan_line(d: DetailsView, line: Seq<char>) -> DetailsView {
    apply_values(d, line_values(line))
}

/// The lines `ls`, read in order.
pub open spec fn scan_lines(ls: Seq<Seq<char>>) -> DetailsView
    decreases ls.len(),
{
    if ls.len() == 0 {
        no_details()
    } else {
        scan_line(scan_lines(ls.drop_last()), ls.last())
    }
}

/// The details read, the description standing in for a missing make and model.
pub open spec fn with_fallback(d: DetailsView) -> DetailsView {
    if d.make_and_model.len() == 0 {
        DetailsView { make_and_model: d.description, ..d }
    } else {
        d
    }
}

/// The details of a printer's long listing.
pub open spec fn details_of(report: Seq<char>) -> DetailsView {
    with_fallback(scan_lines(lines(report)))
}

/// The printers that `lpstat -p` lists: name and state of each match that has both groups,
/// the state without the period that ends it in the report.
pub open spec fn listings_of(caps: Seq<Seq<Option<Seq<char>>>>) -> Seq<(Seq<char>, Seq<char>)>
    decreases caps.len(),
{
    if caps.len() == 0 {
        seq![]
    } else {
        let c = caps.last();
        let rest = listings_of(caps.drop_last());
        if c.len() >= 3 && c[1] is Some && c[2] is Some {
            rest.push((c[1]->0, strip_period(c[2]->0)))
        } else {
            rest
        }
    }
}

/// The number of lines of `ls` that begin with `name`.
pub open spec fn count_beginning(ls: Seq<Seq<char>>, name: Seq<char>) -> nat
    decreases ls.len(),
{
    if ls.len() == 0 {
        0
    } else {
        count_beginning(ls.drop_last(), name) + if begins_with(ls.last(), name) {
            1nat
        } else {
            0nat
        }
    }
}

/// The jobs of printer `name` in the queue listing `report` (`lpstat -o`): the lines whose
/// job id is `<name>-<number>`, that is the lines that begin with the name and a `-`.
pub open spec fn queued_jobs(report: Seq<char>, name: Seq<char>) -> nat {
    count_beginning(lines(report), name + "-"@)
}

/// The version label: `CUPS`, followed by the reported version where there is one.
pub open spec fn version_label(report: Seq<char>) -> Seq<char> {
    if trim(report).len() == 0 {
        "CUPS"@
    } else {
        "CUPS "@ + trim(report)
    }
}

/// The number of completed jobs that a count report gives, or 0 where it is no number.
pub open spec fn completed_jobs(report: Seq<char>) -> nat {
    match parse_unsigned(trim(report), u64::MAX as nat) {
        Some(n) => n,
        None => 0,
    }
}

// ───────────────────────── data ─────────────────────────

/// A printer named by `lpstat -p`, with its state.
#[derive(Debug, Clone)]
pub struct PrinterListing {
    pub name: String,
    pub state: String,
}

/// The name and state of each listing.
pub open spec fn listing_pairs(ls: Seq<PrinterListing>) -> Seq<(Seq<char>, Seq<char>)> {
    ls.map_values(|l: PrinterListing| (l.name@, l.state@))
}

/// The group texts of each match.
pub open spec fn match_texts(ms: Seq<Vec<Option<String>>>) -> Seq<Seq<Option<Seq<char>>>> {
    ms.map_values(|m: Vec<Option<String>>| opt_texts(m@))
}

/// The printers that the matches of `PRINTER_PATTERN` name: group 1 is the name and group 2
/// the state, without a final period; a match without both is skipped.
pub fn listings_from_matches(matches: &Vec<Vec<Option<String>>>) -> (r: Vec<PrinterListing>)
    ensures
        listing_pairs(r@) == listings_of(match_texts(matches@)),
{
    let ghost all = match_texts(matches@);
    let mut r: Vec<PrinterListing> = Vec::new();
    let mut i: usize = 0;
    while i < matches.len()
        invariant
            i <= matches@.len() == all.len(),
            all == match_texts(matches@),
            listing_pairs(r@) == listings_of(all.take(i as int)),
        decreases matches.len() - i,
    {
        let c = &matches[i];
        let ghost ci = all[i as int];
        assert(opt_texts(c@) == ci);
        assert(all.take(i + 1).drop_last() =~= all.take(i as int));
        let mut found = false;
        if c.len() >= 3 {
            assert(ci[1] == opt_text(c@[1]) && ci[2] == opt_text(c@[2]));
            match (&c[1], &c[2]) {
                (Some(name), Some(state)) => {
                    let l = PrinterListing { name: name.clone(), state: without_final_period(state.as_str()) };
                    r.push(l);
                    found = true;
                    assert(listing_pairs(r@) =~= listings_of(all.take(i + 1)));
                },
                _ => {},
            }
        }
        if !found {
            assert(listing_pairs(r@) =~= listings_of(all.take(i + 1)));
        }
        i += 1;
    }
    assert(all.take(i as int) =~= all);
    r
}

/// The labelled values found on one line of a long listing.
#[derive(Debug, Clone)]
pub struct LineValues {
    pub make_and_model: Option<String>,
    pub device_uri: Option<String>,
    pub accepting: Option<String>,
    pub reasons: Option<String>,
    pub description: Option<String>,
}

impl View for LineValues {
    type V = LineValuesView;

    open spec fn view(&self) -> LineValuesView {
        LineValuesView {
            make_and_model: opt_text(self.make_and_model),
            device_uri: opt_text(self.device_uri),
            accepting: opt_text(self.accepting),
            reasons: opt_text(self.reasons),
            description: opt_text(self.description),
        }
    }
}

/// What the long listing of one printer says.
#[derive(Debug, Clone)]
pub struct PrinterDetails {
    pub make_and_model: String,
    pub device_uri: String,
    pub is_accepting_jobs: bool,
    pub state_reasons: Vec<String>,
    pub description: String,
}

impl View for PrinterDetails {
    type V = DetailsView;

    open spec fn view(&self) -> DetailsView {
        DetailsView {
            make_and_model: self.make_and_model@,
            device_uri: self.device_uri@,
            is_accepting_jobs: self.is_accepting_jobs,
            state_reasons: texts(self.state_reasons@),
            description: self.description@,
        }
    }
}

impl PrinterDetails {
    /// Nothing read yet.
    pub fn new() -> (d: PrinterDetails)
        ensures
            d@ == no_details(),
    {
        let d = PrinterDetails {
            make_and_model: String::new(),
            device_uri: String::new(),
            is_accepting_jobs: true,
            state_reasons: Vec::new(),
            description: String::new(),
        };
        assert(texts(d.state_reasons@) =~= Seq::<Seq<char>>::empty());
        d
    }

    /// Takes in the values of one line.
    pub fn apply(&mut self, values: &LineValues)
        ensures
            final(self)@ == apply_values(old(self)@, values@),
    {
        if let Some(m) = &values.make_and_model {
            self.make_and_model = trimmed(m.as_str());
        }
        if let Some(m) = &values.device_uri {
            self.device_uri = trimmed(m.as_str());
        }
        if let Some(m) = &values.accepting {
            self.is_accepting_jobs = starts_with_text(m.as_str(), "accepting");
        }
        if let Some(m) = &values.reasons {
            self.state_reasons = trim_each(&split_text(m.as_str(), ','));
        }
        if let Some(m) = &values.description {
            self.description = trimmed(m.as_str());
        }
    }

    /// The details read, the description standing in for a missing make and model.
    pub fn finish(self) -> (d: PrinterDetails)
        ensures
            d@ == with_fallback(self@),
    {
        let mut d = self;
        if d.make_and_model.as_str().is_empty() {
            d.make_and_model = d.description.clone();
        }
        d
    }
}

/// A printer, as the tools report it.
pub struct PrinterScan {
    /// The printer, as `lpstat -p` listed it.
    pub listing: PrinterListing,
    /// Its long listing (`lpstat -l -p <name>`).
    pub details_report: String,
    /// The queue listing read for it (`lpstat -o`).
    pub queue_report: String,
}

/// The raw reports that the server status is read from.
pub struct StatusScan {
    /// Output of `lpstat -r`.
    pub scheduler_report: String,
    /// Output of `cups-config --version`.
    pub version_report: String,
    /// One scan per listed printer.
    pub printers: Vec<PrinterScan>,
    /// Output of the count of completed jobs in the error log.
    pub completed_report: String,
    /// Whether the mDNS responder runs.
    pub avahi_running: bool,
}

/// A printer, with the details of its long listing already read.
pub struct PrinterReading {
    pub listing: PrinterListing,
    pub details: PrinterDetails,
    /// The queue listing read for it (`lpstat -o`).
    pub queue_report: String,
}

/// The scheduler's state.
#[derive(Debug, Clone)]
pub struct CupsInfo {
    pub is_running: bool,
    pub version: String,
}

/// The state of one printer.
#[derive(Debug, Clone)]
pub struct PrinterInfo {
    pub name: String,
    pub state: String,
    pub is_accepting_jobs: bool,
    pub is_enabled: bool,
    pub make_and_model: String,
    pub device_uri: String,
    pub state_reasons: Vec<String>,
    pub jobs_in_queue: usize,
}

/// The server's status, as the REST API and MQTT report it.
#[derive(Debug, Clone)]
pub struct StatusResponse {
    pub cups: CupsInfo,
    pub printers: Vec<PrinterInfo>,
    pub jobs_completed_total: u64,
    pub avahi_running: bool,
}

/// The state of one printer, as a value.
pub ghost struct PrinterView {
    pub name: Seq<char>,
    pub state: Seq<char>,
    pub is_accepting_jobs: bool,
    pub is_enabled: bool,
    pub make_and_model: Seq<char>,
    pub device_uri: Seq<char>,
    pub state_reasons: Seq<Seq<char>>,
    pub jobs_in_queue: nat,
}

impl View for PrinterInfo {
    type V = PrinterView;

    open spec fn view(&self) -> PrinterView {
        PrinterView {
            name: self.name@,
            state: self.state@,
            is_accepting_jobs: self.is_accepting_jobs,
            is_enabled: self.is_enabled,
            make_and_model: self.make_and_model@,
            device_uri: self.device_uri@,
            state_reasons: texts(self.state_reasons@),
            jobs_in_queue: self.jobs_in_queue as nat,
        }
    }
}

/// The state of printer `listing` with details `d` and queue listing `queue`, while the
/// scheduler runs or not: enabled exactly while the scheduler runs, with the jobs of its
/// name in the queue.
pub open spec fn printer_from(listing: PrinterListing, d: DetailsView, queue: Seq<char>, running: bool) -> PrinterView {
    PrinterView {
        name: listing.name@,
        state: listing.state@,
        is_accepting_jobs: d.is_accepting_jobs,
        is_enabled: running,
        make_and_model: d.make_and_model,
        device_uri: d.device_uri,
        state_reasons: d.state_reasons,
        jobs_in_queue: queued_jobs(queue, listing.name@),
    }
}

/// Whether the scheduler report says that the scheduler runs.
pub open spec fn scheduler_running(report: Seq<char>) -> bool {
    occurs_in(report, "is running"@)
}

/// The status of the print server from its reports, with each printer's details read.
pub fn status_from(
    scheduler_report: &str,
    version_report: &str,
    printers: Vec<PrinterReading>,
    completed_report: &str,
    avahi_running: bool,
) -> (r: StatusResponse)
    ensures
        r.cups.is_running == scheduler_running(scheduler_report@),
        r.cups.version@ == version_label(version_report@),
        r.printers@.len() == printers@.len(),
        forall|i: int|
            0 <= i < r.printers@.len() ==> (#[trigger] r.printers@[i])@ == printer_from(
                printers@[i].listing,
                printers@[i].details@,
                printers@[i].queue_report@,
                r.cups.is_running,
            ),
        forall|i: int|
            0 <= i < r.printers@.len() ==> (#[trigger] r.printers@[i]).is_accepting_jobs
                == printers@[i].details@.is_accepting_jobs,
        r.jobs_completed_total == completed_jobs(completed_report@),
        r.avahi_running == avahi_running,
{
    let running = contains_text(scheduler_report, "is running");
    let version = version_text(version_report);
    let ghost readings = printers@;
    let mut out: Vec<PrinterInfo> = Vec::new();
    for p in it: printers.into_iter()
        invariant
            it.seq() == readings,
            out@.len() == it.index(),
            running == scheduler_running(scheduler_report@),
            forall|k: int|
                0 <= k < out@.len() ==> (#[trigger] out@[k])@ == printer_from(
                    readings[k].listing,
                    readings[k].details@,
                    readings[k].queue_report@,
                    running,
                ),
    {
        let jobs = queued_job_count(p.queue_report.as_str(), p.listing.name.as_str());
        let PrinterReading { listing, details, queue_report } = p;
        out.push(
            PrinterInfo {
                name: listing.name,
                state: listing.state,
                is_accepting_jobs: details.is_accepting_jobs,
                is_enabled: running,
                make_and_model: details.make_and_model,
                device_uri: details.device_uri,
                state_reasons: details.state_reasons,
                jobs_in_queue: jobs,
            },
        );
    }
    StatusResponse {
        cups: CupsInfo { is_running: running, version },
        printers: out,
        jobs_completed_total: completed_jobs_count(completed_report),
        avahi_running,
    }
}

/// Reads the status of the print server from the reports of its tools.
pub struct StatusParser {
    printer: Pattern,
    make_and_model: Pattern,
    device_uri: Pattern,
    accepting: Pattern,
    reasons: Pattern,
    description: Pattern,
}

impl StatusParser {
    #[verifier::type_invariant]
    spec fn compiled_from_the_patterns(self) -> bool {
        &&& self.printer.source() == PRINTER_PATTERN@
        &&& self.make_and_model.source() == MAKE_AND_MODEL_PATTERN@
        &&& self.device_uri.source() == DEVICE_URI_PATTERN@
        &&& self.accepting.source() == ACCEPTING_PATTERN@
        &&& self.reasons.source() == REASONS_PATTERN@
        &&& self.description.source() == DESCRIPTION_PATTERN@
    }

    /// Compiles the patterns; `None` exactly where `regex` refuses one of them.
    pub fn new() -> (r: Option<StatusParser>)
        ensures
            r is Some <==> {
                &&& regex_accepts(PRINTER_PATTERN@)
                &&& regex_accepts(MAKE_AND_MODEL_PATTERN@)
                &&& regex_accepts(DEVICE_URI_PATTERN@)
                &&& regex_accepts(ACCEPTING_PATTERN@)
                &&& regex_accepts(REASONS_PATTERN@)
                &&& regex_accepts(DESCRIPTION_PATTERN@)
            },
    {
        let printer = Pattern::new(PRINTER_PATTERN);
        let make_and_model = Pattern::new(MAKE_AND_MODEL_PATTERN);
        let device_uri = Pattern::new(DEVICE_URI_PATTERN);
        let accepting = Pattern::new(ACCEPTING_PATTERN);
        let reasons = Pattern::new(REASONS_PATTERN);
        let description = Pattern::new(DESCRIPTION_PATTERN);
        match (printer, make_and_model, device_uri, accepting, reasons, description) {
            (Some(printer), Some(make_and_model), Some(device_uri), Some(accepting), Some(reasons), Some(description)) => {
                Some(StatusParser { printer, make_and_model, device_uri, accepting, reasons, description })
            },
            _ => None,
        }
    }

    /// The printers that a report of `lpstat -p` lists, in order.
    pub fn printer_listings(&self, report: &str) -> (r: Vec<PrinterListing>)
        ensures
            listing_pairs(r@) == listings_of(regex_all_captures(PRINTER_PATTERN@, report@)),
    {
        proof {
            use_type_invariant(self);
        }
        let matches = all_captures(&self.printer, report);
        assert(match_texts(matches@) =~= regex_all_captures(PRINTER_PATTERN@, report@));
        listings_from_matches(&matches)
    }

    /// Group 1 of the first match of `p` in `line`, where there is one.
    fn value_of(p: &Pattern, line: &str) -> (r: Option<String>)
        ensures
            opt_text(r) == group(p.source(), line@, 1),
    {
        match first_captures(p, line) {
            Some(g) => {
                if g.len() > 1 {
                    match &g[1] {
                        Some(t) => Some(t.clone()),
                        None => None,
                    }
                } else {
                    None
                }
            },
            None => None,
        }
    }

    /// The labelled values on one line of a long listing.
    pub fn line_values(&self, line: &str) -> (v: LineValues)
        ensures
            v@ == line_values(line@),
    {
        proof {
            use_type_invariant(self);
        }
        LineValues {
            make_and_model: Self::value_of(&self.make_and_model, line),
            device_uri: Self::value_of(&self.device_uri, line),
            accepting: Self::value_of(&self.accepting, line),
            reasons: Self::value_of(&self.reasons, line),
            description: Self::value_of(&self.description, line),
        }
    }

    /// The details that the long listing of one printer (`lpstat -l -p <name>`) gives.
    pub fn printer_details(&self, report: &str) -> (d: PrinterDetails)
        ensures
            d@ == details_of(report@),
    {
        let ls = lines_of(report);
        let ghost all = lines(report@);
        let mut d = PrinterDetails::new();
        assert(all.take(0) =~= Seq::<Seq<char>>::empty());
        let mut i: usize = 0;
        while i < ls.len()
            invariant
                i <= ls@.len() == all.len(),
                texts(ls@) == all,
                d@ == scan_lines(all.take(i as int)),
            decreases ls.len() - i,
        {
            let line = ls[i].as_str();
            assert(line@ == all[i as int]);
            assert(all.take(i + 1).drop_last() =~= all.take(i as int));
            let values = self.line_values(line);
            d.apply(&values);
            i += 1;
        }
        assert(all.take(i as int) =~= all);
        d.finish()
    }

    /// The status of the print server, read from the reports in `scan`.
    pub fn status(&self, scan: StatusScan) -> (r: StatusResponse)
        ensures
            r.cups.is_running == scheduler_running(scan.scheduler_report@),
            r.cups.version@ == version_label(scan.version_report@),
            r.printers@.len() == scan.printers@.len(),
            forall|i: int|
                0 <= i < r.printers@.len() ==> (#[trigger] r.printers@[i])@ == printer_from(
                    scan.printers@[i].listing,
                    details_of(scan.printers@[i].details_report@),
                    scan.printers@[i].queue_report@,
                    r.cups.is_running,
                ),
            forall|i: int|
                0 <= i < r.printers@.len() ==> (#[trigger] r.printers@[i]).is_accepting_jobs
                    == details_of(scan.printers@[i].details_report@).is_accepting_jobs,
            r.jobs_completed_total == completed_jobs(scan.completed_report@),
            r.avahi_running == scan.avahi_running,
    {
        let ghost scans = scan.printers@;
        let StatusScan { scheduler_report, version_report, printers, completed_report, avahi_running } = scan;
        let mut readings: Vec<PrinterReading> = Vec::new();
        let mut i: usize = 0;
        while i < printers.len()
            invariant
                i <= printers@.len(),
                printers@ == scans,
                readings@.len() == i,
                forall|k: int|
                    0 <= k < i ==> {
                        &&& (#[trigger] readings@[k]).listing == scans[k].listing
                        &&& readings@[k].details@ == details_of(scans[k].details_report@)
                        &&& readings@[k].queue_report@ == scans[k].queue_report@
                    },
            decreases printers.len() - i,
        {
            let p = &printers[i];
            let details = self.printer_details(p.details_report.as_str());
            readings.push(
                PrinterReading {
                    listing: PrinterListing {
                        name: p.listing.name.clone(),
                        state: p.listing.state.clone(),
                    },
                    details,
                    queue_report: p.queue_report.clone(),
                },
            );
            i += 1;
        }
        status_from(
            scheduler_report.as_str(),
            version_report.as_str(),
            readings,
            completed_report.as_str(),
            avahi_running,
        )
    }
}

/// Each piece, trimmed.
fn trim_each(ps: &Vec<String>) -> (r: Vec<String>)
    ensures
        texts(r@) == trim_all(texts(ps@)),
{
    let mut r: Vec<String> = Vec::new();
    let mut i: usize = 0;
    while i < ps.len()
        invariant
            i <= ps@.len(),
            texts(r@) == trim_all(texts(ps@)).take(i as int),
        decreases ps.len() - i,
    {
        let t = trimmed(ps[i].as_str());
        proof {
            lemma_texts_push(r@, t);
            assert(texts(ps@)[i as int] == ps@[i as int]@);
        }
        r.push(t);
        assert(texts(r@) =~= trim_all(texts(ps@)).take(i + 1));
        i += 1;
    }
    assert(trim_all(texts(ps@)).take(i as int) =~= trim_all(texts(ps@)));
    r
}

/// The number of jobs of printer `name` in the queue listing `report`.
pub fn queued_job_count(report: &str, name: &str) -> (n: usize)
    ensures
        n == queued_jobs(report@, name@),
{
    let prefix = concat_text(name, "-");
    count_lines_beginning(report, prefix.as_str())
}

/// The number of lines of `report` that begin with `prefix`.
pub fn count_lines_beginning(report: &str, prefix: &str) -> (n: usize)
    ensures
        n == count_beginning(lines(report@), prefix@),
{
    let ls = lines_of(report);
    let ghost all = lines(report@);
    let mut n: usize = 0;
    let mut i: usize = 0;
    while i < ls.len()
        invariant
            i <= ls@.len() == all.len(),
            texts(ls@) == all,
            n == count_beginning(all.take(i as int), prefix@),
            n <= i,
        decreases ls.len() - i,
    {
        assert(all.take(i + 1).drop_last() =~= all.take(i as int));
        assert(ls@[i as int]@ == all[i as int]);
        if starts_with_text(ls[i].as_str(), prefix) {
            n += 1;
        }
        i += 1;
    }
    assert(all.take(i as int) =~= all);
    n
}

/// The version label for the output of `cups-config --version`.
pub fn version_text(report: &str) -> (v: String)
    ensures
        v@ == version_label(report@),
{
    let t = trimmed(report);
    if t.as_str().is_empty() {
        "CUPS".to_owned()
    } else {
        concat_text("CUPS ", t.as_str())
    }
}

/// The number of completed jobs that a count report gives, or 0 where it is no number.
pub fn completed_jobs_count(report: &str) -> (n: u64)
    ensures
        n == completed_jobs(report@),
{
    match parse_unsigned_text(trimmed(report).as_str(), u64::MAX) {
        Some(n) => n,
        None => 0,
    }
}


// ───────────────────────── laws ─────────────────────────

/// The reports are trimmed when they are read and again when they are interpreted; the
/// second trimming changes nothing.
pub proof fn law_reports_read_trimmed(report: Seq<char>)
    ensures
        version_label(trim(report)) == version_label(report),
        completed_jobs(trim(report)) == completed_jobs(report),
{
    law_trim_idempotent(report);
}

/// A printer never has more queued jobs than the queue listing has lines.
pub proof fn law_queue_bounded(report: Seq<char>, name: Seq<char>)
    ensures
        queued_jobs(report, name) <= lines(report).len(),
{
    lemma_count_bounded(lines(report), name + "-"@);
}

proof fn lemma_count_bounded(ls: Seq<Seq<char>>, name: Seq<char>)
    ensures
        count_beginning(ls, name) <= ls.len(),
    decreases ls.len(),
{
    if ls.len() > 0 {
        lemma_count_bounded(ls.drop_last(), name);
    }
}

/// A printer accepts jobs as its own long listing says, not as the scheduler report says:
/// whether the scheduler runs or not, the entry for a printer takes the flag of its details.
pub proof fn law_accepting_is_the_printers_own(
    listing: PrinterListing,
    d: DetailsView,
    queue: Seq<char>,
    running: bool,
)
    ensures
        printer_from(listing, d, queue, running).is_accepting_jobs == d.is_accepting_jobs,
        printer_from(listing, d, queue, true).is_accepting_jobs == printer_from(
            listing,
            d,
            queue,
            false,
        ).is_accepting_jobs,
{
}

/// In a long listing the last `Printer is` line decides whether jobs are accepted: its value
/// must begin with `accepting` (so `not accepting jobs` and `rejecting jobs` give false); a
/// line without that label leaves the answer as it was; and a listing without such a line
/// counts as accepting.
pub proof fn law_last_accepting_line_decides(ls: Seq<Seq<char>>, l: Seq<char>)
    ensures
        scan_lines(seq![]).is_accepting_jobs,
        with_fallback(scan_lines(ls)).is_accepting_jobs == scan_lines(ls).is_accepting_jobs,
        line_values(l).accepting matches Some(v) ==> scan_lines(ls.push(l)).is_accepting_jobs == (
            "accepting"@.len() <= v.len() && v.take("accepting"@.len() as int) == "accepting"@),
        line_values(l).accepting is None ==> scan_lines(ls.push(l)).is_accepting_jobs
            == scan_lines(ls).is_accepting_jobs,
{
    assert(ls.push(l).drop_last() =~= ls);
    assert(ls.push(l).last() == l);
    match line_values(l).accepting {
        Some(v) => {
            assert(v.take("accepting"@.len() as int) =~= v.subrange(0, "accepting"@.len() as int));
        },
        None => {},
    }
}

/// A line counts for a prefix exactly when it starts with the prefix: a listing of one line
/// counts 1 where the line's first characters are the prefix and 0 otherwise, whatever the
/// rest of the line holds; and two listings put together count the sum of their counts.
pub proof fn law_count_is_per_starting_line(
    a: Seq<Seq<char>>,
    b: Seq<Seq<char>>,
    l: Seq<char>,
    p: Seq<char>,
)
    ensures
        count_beginning(seq![l], p) == (if p.len() <= l.len() && l.take(p.len() as int) == p {
            1nat
        } else {
            0nat
        }),
        count_beginning(a + b, p) == count_beginning(a, p) + count_beginning(b, p),
    decreases b.len(),
{
    assert(seq![l].drop_last() =~= Seq::<Seq<char>>::empty());
    assert(seq![l].last() == l);
    assert(count_beginning(Seq::<Seq<char>>::empty(), p) == 0);
    if p.len() <= l.len() {
        assert(l.take(p.len() as int) =~= l.subrange(0, p.len() as int));
    }
    if b.len() > 0 {
        law_count_is_per_starting_line(a, b.drop_last(), l, p);
        assert((a + b).drop_last() =~= a + b.drop_last());
        assert((a + b).last() == b.last());
    } else {
        assert(a + b =~= a);
    }
}

} // verus!
