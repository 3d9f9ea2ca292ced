//! The decisions of the dashboard: when a scan may start, what follows a
//! scan, what the Clean button leads to, what is asked before a cleanup and
//! reported after it, and the texts of the home-disk card.
//!
//! The shell runs the scan and the cleanup and shows the dialogs; these
//! functions decide, from plain values, what comes next and what is shown.
use vstd::prelude::*;
use crate::cleanup_log::{catalog_view, tr_with, tra, trs};
use crate::i18n::{rep_views, tr, Catalog};
use crate::outside::{byte_size_text, format_bytes, format_utc_minute, utc_minute_text};
use crate::paths::{components, component_count, path_has_prefix, path_starts_with};
use crate::scan_result::{CleanResult, ScanResult};
use crate::settings::AppSettings;
use crate::text::{decimal, decimal_string, owned};

verus! {

/// A message for the user: a title and its text, both already translated.
pub struct Notice {
    pub title: String,
    pub message: String,
}

// ---------------------------------------------------------------------------
// Starting a scan
// ---------------------------------------------------------------------------
pub open spec fn busy_elsewhere_text() -> Seq<char> {
    "Cancel the active scan or wait for the administrator operation to finish before cleaning."@
}

pub open spec fn already_running_text() -> Seq<char> {
    "A scan or cleanup is already running. Please wait for it to complete."@
}

/// Whether a scan (or a scan before cleaning) starts: not while the storage
/// analyzer or an administrator operation runs, and not while a scan or
/// cleanup of the dashboard runs. A refused interactive request explains
/// why; a refused scheduled one stays silent. `Ok(())` means: start.
pub fn scan_start(
    catalog: Option<&Catalog>,
    other_operation_running: bool,
    operation_running: bool,
    automatic: bool,
) -> (r: Result<(), Option<Notice>>)
    ensures
        r is Ok <==> (!other_operation_running && !operation_running),
        r matches Err(n) ==> (n is None <==> automatic),
        r matches Err(Some(n)) ==> n.title@ == trs(catalog_view(catalog), "Operation in Progress"@)
            && n.message@ == trs(
            catalog_view(catalog),
            if other_operation_running {
                busy_elsewhere_text()
            } else {
                already_running_text()
            },
        ),
{
    if other_operation_running || operation_running {
        if automatic {
            return Err(None);
        }
        let message = if other_operation_running {
            tr(
                catalog,
                "Cancel the active scan or wait for the administrator operation to finish before cleaning.",
            )
        } else {
            tr(catalog, "A scan or cleanup is already running. Please wait for it to complete.")
        };
        return Err(Some(Notice { title: tr(catalog, "Operation in Progress"), message }));
    }
    Ok(())
}

/// What the dashboard does with a finished scan.
pub struct ScanOutcome {
    /// The text of the reclaimable-space label.
    pub label: String,
    /// Whether the result is kept for a later cleanup.
    pub keep_result: bool,
    /// Whether the Clean button becomes available because something was found.
    pub enable_clean: bool,
    /// Whether the cleanup the scan was started for goes on.
    pub continue_to_clean: bool,
}

/// A cancelled scan is dropped and says so; a completed one shows the
/// reclaimable size, is kept, enables Clean when it found something, and
/// continues to the cleanup it was started for.
pub fn scan_outcome(result: &ScanResult, clean_after_scan: bool) -> (r: ScanOutcome)
    ensures
        r.label@ == (if result.cancelled {
            "Scan cancelled"@
        } else {
            byte_size_text(result.total_size)
        }),
        r.keep_result == !result.cancelled,
        r.enable_clean == (!result.cancelled && (result.files@.len() > 0 || result.directories@.len() > 0)),
        r.continue_to_clean == (!result.cancelled && clean_after_scan),
{
    if result.cancelled {
        ScanOutcome {
            label: owned("Scan cancelled"),
            keep_result: false,
            enable_clean: false,
            continue_to_clean: false,
        }
    } else {
        ScanOutcome {
            label: result.formatted_size(),
            keep_result: true,
            enable_clean: !result.is_empty(),
            continue_to_clean: clean_after_scan,
        }
    }
}

// ---------------------------------------------------------------------------
// The Clean button and scheduled cleanups
// ---------------------------------------------------------------------------
/// What pressing Clean leads to.
pub enum CleanRequest {
    /// No scan yet: scan first, then come back here.
    ScanFirst,
    /// The scan found nothing and there is no journal to vacuum.
    NothingToClean(Notice),
    /// Ask for confirmation (see `confirmation_message`).
    Confirm,
    /// Clean at once.
    Execute,
}

pub open spec fn scan_is_empty(s: &ScanResult) -> bool {
    s.files@.len() == 0 && s.directories@.len() == 0
}

pub fn clean_request(catalog: Option<&Catalog>, scan: Option<&ScanResult>, settings: &AppSettings) -> (r: CleanRequest)
    ensures
        scan is None <==> r is ScanFirst,
        r is NothingToClean <==> (scan matches Some(s) && scan_is_empty(s) && !settings.system_journal_cleanup_enabled),
        r matches CleanRequest::NothingToClean(n) ==> n.title@ == trs(catalog_view(catalog), "Nothing to Clean"@)
            && n.message@ == trs(catalog_view(catalog), "No files were found to clean with the current settings."@),
        r is Confirm <==> (scan matches Some(s) && !(scan_is_empty(s) && !settings.system_journal_cleanup_enabled)
            && settings.confirm_before_clean),
        r is Execute <==> (scan matches Some(s) && !(scan_is_empty(s) && !settings.system_journal_cleanup_enabled)
            && !settings.confirm_before_clean),
{
    match scan {
        None => CleanRequest::ScanFirst,
        Some(s) => {
            if s.is_empty() && !settings.system_journal_cleanup_enabled {
                CleanRequest::NothingToClean(
                    Notice {
                        title: tr(catalog, "Nothing to Clean"),
                        message: tr(catalog, "No files were found to clean with the current settings."),
                    },
                )
            } else if settings.confirm_before_clean {
                CleanRequest::Confirm
            } else {
                CleanRequest::Execute
            }
        },
    }
}

/// What a scheduled cleanup does once its scan is in.
pub enum AutomaticStep {
    /// No scan result: nothing to do.
    Idle,
    /// The scan found nothing: drop the result and refresh.
    NothingFound,
    /// Clean without asking.
    Execute,
}

pub fn automatic_step(scan: Option<&ScanResult>) -> (r: AutomaticStep)
    ensures
        r is Idle <==> scan is None,
        r is NothingFound <==> (scan matches Some(s) && scan_is_empty(s)),
        r is Execute <==> (scan matches Some(s) && !scan_is_empty(s)),
{
    match scan {
        None => AutomaticStep::Idle,
        Some(s) => if s.is_empty() {
            AutomaticStep::NothingFound
        } else {
            AutomaticStep::Execute
        },
    }
}

// ---------------------------------------------------------------------------
// Before and after a cleanup
// ---------------------------------------------------------------------------
pub open spec fn journal_notice_text(c: Option<Map<Seq<char>, Seq<char>>>, enabled: bool, days: u32) -> Seq<char> {
    if enabled {
        tra(
            c,
            "\nThe archived system journal older than {days} days will also be vacuumed with administrator approval."@,
            seq![("{days}"@, decimal(days as nat))],
        )
    } else {
        Seq::<char>::empty()
    }
}

pub open spec fn confirmation_text(c: Option<Map<Seq<char>, Seq<char>>>, scan: &ScanResult, settings: &AppSettings) -> Seq<char> {
    tra(
        c,
        "This will delete {count} files ({size}).{journal}\n\nThis action cannot be undone."@,
        seq![
            ("{count}"@, decimal(scan.file_count as nat)),
            ("{size}"@, byte_size_text(scan.total_size)),
            ("{journal}"@, journal_notice_text(c, settings.system_journal_cleanup_enabled, settings.log_retention_days)),
        ],
    )
}

/// The question asked before an interactive cleanup: the files and size to
/// delete, and whether the journal is vacuumed too.
pub fn confirmation_message(catalog: Option<&Catalog>, scan: &ScanResult, settings: &AppSettings) -> (r: Notice)
    ensures
        r.title@ == trs(catalog_view(catalog), "Confirm Cleanup"@),
        r.message@ == confirmation_text(catalog_view(catalog), scan, settings),
{
    let journal = if settings.system_journal_cleanup_enabled {
        let days = decimal_string(settings.log_retention_days as u64);
        let reps = [("{days}", days.as_str())];
        assert(rep_views(reps@) =~= seq![("{days}"@, days@)]);
        tr_with(
            catalog,
            "\nThe archived system journal older than {days} days will also be vacuumed with administrator approval.",
            &reps,
        )
    } else {
        String::new()
    };
    let count = decimal_string(scan.file_count as u64);
    let size = scan.formatted_size();
    let reps = [("{count}", count.as_str()), ("{size}", size.as_str()), ("{journal}", journal.as_str())];
    assert(rep_views(reps@) =~= seq![("{count}"@, count@), ("{size}"@, size@), ("{journal}"@, journal@)]);
    let message = tr_with(catalog, "This will delete {count} files ({size}).{journal}\n\nThis action cannot be undone.", &reps);
    Notice { title: tr(catalog, "Confirm Cleanup"), message }
}

/// The journal is vacuumed after an interactive cleanup that was not
/// cancelled, when enabled: it needs an administrator prompt, which a
/// scheduled run cannot show.
pub fn journal_after_clean(interactive: bool, settings: &AppSettings, cancelled: bool) -> (r: bool)
    ensures
        r == (interactive && settings.system_journal_cleanup_enabled && !cancelled),
{
    interactive && settings.system_journal_cleanup_enabled && !cancelled
}

/// A blocked cleanup is reported to an interactive user with the reason; a
/// scheduled one only leaves it in the cleanup log.
pub fn blocked_report(catalog: Option<&Catalog>, reason: &str, interactive: bool) -> (r: Option<Notice>)
    ensures
        r is Some <==> interactive,
        r matches Some(n) ==> n.title@ == trs(catalog_view(catalog), "Cleanup Blocked"@) && n.message@ == reason@,
{
    if interactive {
        Some(Notice { title: tr(catalog, "Cleanup Blocked"), message: owned(reason) })
    } else {
        None
    }
}

pub open spec fn journal_failed_count(journal: Option<&Result<String, String>>) -> nat {
    match journal {
        Some(Err(_)) => 1,
        _ => 0,
    }
}

pub open spec fn journal_note_text(c: Option<Map<Seq<char>, Seq<char>>>, journal: Option<&Result<String, String>>) -> Seq<char> {
    match journal {
        Some(Ok(m)) => tra(c, "\nSystem journal: {message}."@, seq![("{message}"@, m@)]),
        Some(Err(e)) => tra(c, "\nSystem journal failed: {error}"@, seq![("{error}"@, e@)]),
        None => Seq::<char>::empty(),
    }
}

pub open spec fn report_text(
    c: Option<Map<Seq<char>, Seq<char>>>,
    result: &CleanResult,
    journal: Option<&Result<String, String>>,
) -> Seq<char> {
    tra(
        c,
        "Deleted {count} files and freed {size}.\n{failed} items failed.{journal}"@,
        seq![
            ("{count}"@, decimal(result.deleted_files@.len())),
            ("{size}"@, byte_size_text(result.bytes_freed)),
            ("{failed}"@, decimal(result.failed@.len() + journal_failed_count(journal))),
            ("{journal}"@, journal_note_text(c, journal)),
        ],
    )
}

/// The report after a cleanup that was not blocked: shown to an interactive
/// user who asked for summaries, and whenever something failed or the
/// cleanup was cancelled; scheduled runs show nothing.
pub fn clean_report(
    catalog: Option<&Catalog>,
    result: &CleanResult,
    journal: Option<&Result<String, String>>,
    interactive: bool,
    settings: &AppSettings,
) -> (r: Option<Notice>)
    requires
        result.failed@.len() < usize::MAX,
    ensures
        r is Some <==> (interactive && (settings.show_cleanup_summary || result.failed@.len()
            + journal_failed_count(journal) > 0 || result.cancelled)),
        r matches Some(n) ==> n.title@ == trs(
            catalog_view(catalog),
            if result.cancelled {
                "Cleanup Cancelled"@
            } else {
                "Cleanup Complete"@
            },
        ) && n.message@ == report_text(catalog_view(catalog), result, journal),
{
    let journal_failed: usize = match journal {
        Some(Err(_)) => 1,
        _ => 0,
    };
    let total_failures = result.failed_count() + journal_failed;
    if !(interactive && (settings.show_cleanup_summary || total_failures > 0 || result.cancelled)) {
        return None;
    }
    let note = match journal {
        Some(Ok(m)) => {
            let reps = [("{message}", m.as_str())];
            assert(rep_views(reps@) =~= seq![("{message}"@, m@)]);
            tr_with(catalog, "\nSystem journal: {message}.", &reps)
        },
        Some(Err(e)) => {
            let reps = [("{error}", e.as_str())];
            assert(rep_views(reps@) =~= seq![("{error}"@, e@)]);
            tr_with(catalog, "\nSystem journal failed: {error}", &reps)
        },
        None => String::new(),
    };
    let count = decimal_string(result.files_deleted_count() as u64);
    let size = result.formatted_bytes_freed();
    let failed = decimal_string(total_failures as u64);
    let reps = [
        ("{count}", count.as_str()),
        ("{size}", size.as_str()),
        ("{failed}", failed.as_str()),
        ("{journal}", note.as_str()),
    ];
    assert(rep_views(reps@) =~= seq![
        ("{count}"@, count@),
        ("{size}"@, size@),
        ("{failed}"@, failed@),
        ("{journal}"@, note@),
    ]);
    let message = tr_with(catalog, "Deleted {count} files and freed {size}.\n{failed} items failed.{journal}", &reps);
    let title = if result.cancelled {
        tr(catalog, "Cleanup Cancelled")
    } else {
        tr(catalog, "Cleanup Complete")
    };
    Some(Notice { title, message })
}

// ---------------------------------------------------------------------------
// Status labels
// ---------------------------------------------------------------------------
/// The last-cleanup label: the UTC minute of the last run, or `Never`.
pub fn last_cleanup_text(settings: &AppSettings) -> (r: String)
    ensures
        settings.last_cleanup is None ==> r@ == "Never"@,
        settings.last_cleanup matches Some(t) ==> match utc_minute_text(t) {
            Some(s) => r@ == s,
            None => r@ == "Never"@,
        },
{
    match settings.last_cleanup {
        None => owned("Never"),
        Some(t) => match format_utc_minute(t) {
            Some(s) => s,
            None => owned("Never"),
        },
    }
}

/// Clean is available when some rule is enabled or a scan found something.
pub fn clean_available(enabled_rules: usize, scan: Option<&ScanResult>) -> (r: bool)
    ensures
        r == (enabled_rules > 0 || (scan matches Some(s) && !scan_is_empty(s))),
{
    let has_items = match scan {
        Some(s) => !s.is_empty(),
        None => false,
    };
    enabled_rules > 0 || has_items
}

// ---------------------------------------------------------------------------
// The home disk
// ---------------------------------------------------------------------------
/// A mounted filesystem as the system reports it.
pub struct DiskInfo {
    pub name: String,
    pub mount_point: String,
    pub total: u64,
    pub available: u64,
}

/// The filesystem that holds the home directory.
pub struct DiskUsage {
    pub total: u64,
    pub available: u64,
    pub device_name: String,
    pub mount_point: String,
}

/// Among the first `n` disks, the index of the one mounted deepest above
/// `home` (the last of equally deep ones), if any is mounted above it.
pub open spec fn deepest_mount(home: Seq<char>, disks: Seq<DiskInfo>, n: int) -> Option<int>
    decreases n,
{
    if n <= 0 {
        None
    } else {
        let best = deepest_mount(home, disks, n - 1);
        let d = disks[n - 1];
        if path_starts_with(home, d.mount_point@) && (best matches Some(b) ==> components(
            d.mount_point@,
        ).len() >= components(disks[b].mount_point@).len()) {
            Some(n - 1)
        } else {
            best
        }
    }
}

/// The disk shown for `home` (the root when unknown): the one mounted
/// deepest above it, or else the first disk listed.
pub open spec fn home_disk_index(home: Option<Seq<char>>, disks: Seq<DiskInfo>) -> Option<int> {
    let h = match home {
        Some(h) => h,
        None => "/"@,
    };
    match deepest_mount(h, disks, disks.len() as int) {
        Some(i) => Some(i),
        None => if disks.len() > 0 {
            Some(0)
        } else {
            None
        },
    }
}

proof fn lemma_deepest_mount_range(home: Seq<char>, disks: Seq<DiskInfo>, n: int)
    requires
        n <= disks.len(),
    ensures
        deepest_mount(home, disks, n) matches Some(i) ==> 0 <= i < n,
    decreases n,
{
    if n > 0 {
        lemma_deepest_mount_range(home, disks, n - 1);
    }
}

/// The usage reported for `home` among `disks`: that disk's size, its free
/// space capped at its size, its name and mount point; none without disks.
pub open spec fn usage_for(home: Option<Seq<char>>, disks: Seq<DiskInfo>, r: Option<DiskUsage>) -> bool {
    &&& (r is None <==> home_disk_index(home, disks) is None)
    &&& (r matches Some(u) ==> ({
        let d = disks[home_disk_index(home, disks)->0];
        &&& u.total == d.total
        &&& u.available == (if d.available <= d.total {
            d.available
        } else {
            d.total
        })
        &&& u.device_name@ == d.name@
        &&& u.mount_point@ == d.mount_point@
    }))
}

/// The usage of the filesystem holding `home`: that disk's size, its free
/// space capped at its size, its name and mount point.
pub fn home_disk_usage(home: Option<&str>, disks: &Vec<DiskInfo>) -> (r: Option<DiskUsage>)
    ensures
        usage_for(crate::security::opt_view(home), disks@, r),
{
    let h: &str = match home {
        Some(h) => h,
        None => "/",
    };
    proof {
        reveal_strlit("/");
    }
    let mut best: Option<usize> = None;
    let mut best_depth: usize = 0;
    let mut i: usize = 0;
    while i < disks.len()
        invariant
            0 <= i <= disks@.len(),
            h@ == (match crate::security::opt_view(home) {
                Some(x) => x,
                None => "/"@,
            }),
            best matches Some(b) ==> b < i && best_depth == components(disks@[b as int].mount_point@).len(),
            (match best {
                Some(b) => Some(b as int),
                None => None::<int>,
            }) == deepest_mount(h@, disks@, i as int),
        decreases disks@.len() - i,
    {
        let d = &disks[i];
        if path_has_prefix(h, d.mount_point.as_str()) {
            let depth = component_count(d.mount_point.as_str());
            let better = match best {
                Some(_) => depth >= best_depth,
                None => true,
            };
            if better {
                best = Some(i);
                best_depth = depth;
            }
        }
        i += 1;
    }
    let index = match best {
        Some(b) => b,
        None => {
            if disks.len() == 0 {
                return None;
            }
            0
        },
    };
    let d = &disks[index];
    let available = if d.available <= d.total {
        d.available
    } else {
        d.total
    };
    Some(
        DiskUsage {
            total: d.total,
            available,
            device_name: owned(d.name.as_str()),
            mount_point: owned(d.mount_point.as_str()),
        },
    )
}

/// `home_disk_usage` for the current user's home directory, whichever the
/// environment gives.
pub fn user_home_disk_usage(disks: &Vec<DiskInfo>) -> (r: Option<DiskUsage>)
    ensures
        exists|h: Option<Seq<char>>| #[trigger] usage_for(h, disks@, r),
{
    let home = crate::outside::home_dir();
    let h = crate::security::borrowed(&home);
    let r = home_disk_usage(h, disks);
    assert(usage_for(crate::security::opt_view(h), disks@, r));
    r
}

/// The texts of the home-disk card (the used percentage is drawn by the
/// shell).
pub struct DiskTexts {
    pub summary: String,
    pub context: String,
    pub available: String,
    /// The tooltip of the usage chart; none while nothing is known.
    pub tooltip: Option<String>,
}

pub open spec fn used_bytes(total: u64, available: u64) -> u64 {
    if available <= total {
        (total - available) as u64
    } else {
        0
    }
}

/// The card's texts: used space, the filesystem's size, device and mount
/// point, and the free space; placeholders when no disk is known.
pub fn disk_texts(catalog: Option<&Catalog>, usage: Option<&DiskUsage>) -> (r: DiskTexts)
    ensures
        ({
            let c = catalog_view(catalog);
            let (total, available) = match usage {
                Some(u) => (u.total, u.available),
                None => (0u64, 0u64),
            };
            &&& r.summary@ == (if total > 0 {
                tra(c, "{used} used"@, seq![("{used}"@, byte_size_text(used_bytes(total, available)))])
            } else {
                trs(c, "Disk information unavailable"@)
            })
            &&& r.context@ == (match usage {
                Some(u) => tra(
                    c,
                    "of {total} total on {device} (mounted at {mount})"@,
                    seq![
                        ("{total}"@, byte_size_text(u.total)),
                        ("{device}"@, u.device_name@),
                        ("{mount}"@, u.mount_point@),
                    ],
                ),
                None => trs(c, "Home filesystem could not be detected"@),
            })
            &&& r.available@ == (if total > 0 {
                byte_size_text(available)
            } else {
                "--"@
            })
            &&& (total > 0 <==> r.tooltip is Some)
            &&& (r.tooltip matches Some(t) ==> t@ == tra(
                c,
                "{used} used, {available} available"@,
                seq![
                    ("{used}"@, byte_size_text(used_bytes(total, available))),
                    ("{available}"@, byte_size_text(available)),
                ],
            ))
        }),
{
    let (total, available) = match usage {
        Some(u) => (u.total, u.available),
        None => (0u64, 0u64),
    };
    let used: u64 = if available <= total {
        total - available
    } else {
        0
    };
    let used_text = format_bytes(used);
    let available_text = format_bytes(available);
    let summary = if total > 0 {
        let reps = [("{used}", used_text.as_str())];
        assert(rep_views(reps@) =~= seq![("{used}"@, used_text@)]);
        tr_with(catalog, "{used} used", &reps)
    } else {
        tr(catalog, "Disk information unavailable")
    };
    let context = match usage {
        Some(u) => {
            let total_text = format_bytes(u.total);
            let reps = [
                ("{total}", total_text.as_str()),
                ("{device}", u.device_name.as_str()),
                ("{mount}", u.mount_point.as_str()),
            ];
            assert(rep_views(reps@) =~= seq![
                ("{total}"@, total_text@),
                ("{device}"@, u.device_name@),
                ("{mount}"@, u.mount_point@),
            ]);
            tr_with(catalog, "of {total} total on {device} (mounted at {mount})", &reps)
        },
        None => tr(catalog, "Home filesystem could not be detected"),
    };
    let available_label = if total > 0 {
        format_bytes(available)
    } else {
        owned("--")
    };
    let tooltip = if total > 0 {
        let reps = [("{used}", used_text.as_str()), ("{available}", available_text.as_str())];
        assert(rep_views(reps@) =~= seq![("{used}"@, used_text@), ("{available}"@, available_text@)]);
        Some(tr_with(catalog, "{used} used, {available} available", &reps))
    } else {
        None
    };
    DiskTexts { summary, context, available: available_label, tooltip }
}

} // verus!
