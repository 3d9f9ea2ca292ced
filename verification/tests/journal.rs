use data_cleaner::journal::{
    first_existing, journal_tools, system_journal_available, vacuum_argument, vacuum_outcome,
};

#[test]
fn first_existing_ignores_missing_candidates() {
    let candidates = ["/definitely/missing/data-cleaner-command"];
    let is_file: Vec<bool> = candidates.iter().map(|p| std::path::Path::new(p).is_file()).collect();
    assert_eq!(first_existing(&candidates, &is_file), None);
}

#[test]
fn paths_must_point_to_regular_files() {
    let candidates = [std::path::Path::new("/").to_str().unwrap()];
    let is_file: Vec<bool> = candidates.iter().map(|p| std::path::Path::new(p).is_file()).collect();
    assert_eq!(first_existing(&candidates, &is_file), None);
}

#[test]
fn the_first_regular_file_wins() {
    assert_eq!(first_existing(&["/a", "/b", "/c"], &[false, true, true]).as_deref(), Some("/b"));
    assert_eq!(
        journal_tools(&[false, true], &[true, false]),
        Some(("/bin/pkexec".to_string(), "/usr/bin/journalctl".to_string()))
    );
    assert!(!system_journal_available(&[false, false], &[true, true]));
}

#[test]
fn vacuum_age_is_clamped_and_output_interpreted() {
    assert_eq!(vacuum_argument(0), "--vacuum-time=1d");
    assert_eq!(vacuum_argument(30), "--vacuum-time=30d");
    assert_eq!(vacuum_argument(99999), "--vacuum-time=3650d");
    assert_eq!(vacuum_outcome(true, "exit status: 0", "  Vacuumed 10M \n", ""), Ok("Vacuumed 10M".to_string()));
    assert_eq!(vacuum_outcome(true, "exit status: 0", "", " note "), Ok("note".to_string()));
    assert_eq!(vacuum_outcome(true, "exit status: 0", "", ""), Ok("System journal cleanup completed".to_string()));
    assert_eq!(
        vacuum_outcome(false, "exit status: 126", "", ""),
        Err("System journal cleanup failed with status exit status: 126".to_string())
    );
    assert_eq!(vacuum_outcome(false, "exit status: 1", "", "denied\n"), Err("denied".to_string()));
}
