//! Vacuuming the system journal through PolicyKit: which tools to use, what
//! to ask `journalctl`, and how to read its answer. The journal's own files
//! are never removed directly.
use vstd::prelude::*;
use crate::strings::str_views;
use crate::text::{chars_of, concat, decimal, decimal_string, owned, trim, trim_chars};
use crate::outside::string_from_chars;

verus! {

/// The first candidate that is a regular file (`is_file[i]` tells whether
/// `candidates[i]` is one).
pub open spec fn spec_first_existing(candidates: Seq<Seq<char>>, is_file: Seq<bool>) -> Option<
    Seq<char>,
>
    decreases candidates.len(),
{
    if candidates.len() == 0 || is_file.len() == 0 {
        None
    } else if is_file[0] {
        Some(candidates[0])
    } else {
        spec_first_existing(candidates.drop_first(), is_file.drop_first())
    }
}

/// The first of `candidates` that is a regular file.
pub fn first_existing(candidates: &[&str], is_file: &[bool]) -> (r: Option<String>)
    requires
        candidates@.len() == is_file@.len(),
    ensures
        match r {
            Some(p) => spec_first_existing(str_views(candidates@), is_file@) == Some(p@),
            None => spec_first_existing(str_views(candidates@), is_file@) is None,
        },
{
    let ghost c = str_views(candidates@);
    assert(c.skip(0) =~= c);
    assert(is_file@.skip(0) =~= is_file@);
    let mut i: usize = 0;
    while i < candidates.len()
        invariant
            0 <= i <= candidates@.len(),
            candidates@.len() == is_file@.len(),
            c == str_views(candidates@),
            spec_first_existing(c, is_file@) == spec_first_existing(
                c.skip(i as int),
                is_file@.skip(i as int),
            ),
        decreases candidates@.len() - i,
    {
        assert(c.skip(i as int)[0] == candidates@[i as int]@);
        assert(is_file@.skip(i as int)[0] == is_file@[i as int]);
        assert(c.skip(i as int).drop_first() =~= c.skip(i + 1));
        assert(is_file@.skip(i as int).drop_first() =~= is_file@.skip(i + 1));
        if is_file[i] {
            return Some(owned(candidates[i]));
        }
        i += 1;
    }
    assert(c.skip(i as int).len() == 0);
    None
}

pub open spec fn spec_pkexec_candidates() -> Seq<Seq<char>> {
    seq!["/usr/bin/pkexec"@, "/bin/pkexec"@]
}

pub open spec fn spec_journalctl_candidates() -> Seq<Seq<char>> {
    seq!["/usr/bin/journalctl"@, "/bin/journalctl"@]
}

/// Where `pkexec` is looked for.
pub fn pkexec_candidates() -> (r: &'static [&'static str])
    ensures
        str_views(r@) == spec_pkexec_candidates(),
{
    let r: &'static [&'static str] = &["/usr/bin/pkexec", "/bin/pkexec"];
    assert(str_views(r@) =~= spec_pkexec_candidates());
    r
}

/// Where `journalctl` is looked for.
pub fn journalctl_candidates() -> (r: &'static [&'static str])
    ensures
        str_views(r@) == spec_journalctl_candidates(),
{
    let r: &'static [&'static str] = &["/usr/bin/journalctl", "/bin/journalctl"];
    assert(str_views(r@) =~= spec_journalctl_candidates());
    r
}

/// `pkexec` and `journalctl`, when both are found (`pkexec_is_file` and
/// `journalctl_is_file` tell which candidates are regular files).
pub fn journal_tools(pkexec_is_file: &[bool], journalctl_is_file: &[bool]) -> (r: Option<
    (String, String),
>)
    requires
        pkexec_is_file@.len() == 2,
        journalctl_is_file@.len() == 2,
    ensures
        match r {
            Some((p, j)) => spec_first_existing(spec_pkexec_candidates(), pkexec_is_file@) == Some(
                p@,
            ) && spec_first_existing(spec_journalctl_candidates(), journalctl_is_file@) == Some(
                j@,
            ),
            None => spec_first_existing(spec_pkexec_candidates(), pkexec_is_file@) is None
                || spec_first_existing(spec_journalctl_candidates(), journalctl_is_file@) is None,
        },
{
    let p = match first_existing(pkexec_candidates(), pkexec_is_file) {
        Some(p) => p,
        None => {
            return None;
        },
    };
    let j = match first_existing(journalctl_candidates(), journalctl_is_file) {
        Some(j) => j,
        None => {
            return None;
        },
    };
    Some((p, j))
}

/// Whether the journal can be vacuumed: both tools are found.
pub fn system_journal_available(pkexec_is_file: &[bool], journalctl_is_file: &[bool]) -> (r: bool)
    requires
        pkexec_is_file@.len() == 2,
        journalctl_is_file@.len() == 2,
    ensures
        r == (spec_first_existing(spec_pkexec_candidates(), pkexec_is_file@) is Some
            && spec_first_existing(spec_journalctl_candidates(), journalctl_is_file@) is Some),
{
    journal_tools(pkexec_is_file, journalctl_is_file).is_some()
}

/// The age limit handed to `journalctl`, in days between 1 and 3650.
pub open spec fn spec_vacuum_argument(retention_days: u32) -> Seq<char> {
    let d = if retention_days < 1 {
        1
    } else if retention_days > 3650 {
        3650
    } else {
        retention_days as int
    };
    "--vacuum-time="@ + decimal(d as nat) + "d"@
}

pub fn vacuum_argument(retention_days: u32) -> (r: String)
    ensures
        r@ == spec_vacuum_argument(retention_days),
{
    let d: u32 = if retention_days < 1 {
        1
    } else if retention_days > 3650 {
        3650
    } else {
        retention_days
    };
    let n = decimal_string(d as u64);
    let a = concat("--vacuum-time=", n.as_str());
    concat(a.as_str(), "d")
}

/// What a vacuum run reports: on success its output, else its error output,
/// else a completion note; on failure its error output, else the exit
/// status (`status` as the system describes it).
pub open spec fn spec_vacuum_outcome(success: bool, status: Seq<char>, stdout: Seq<char>, stderr: Seq<char>) -> Result<
    Seq<char>,
    Seq<char>,
> {
    let out = trim(stdout);
    let err = trim(stderr);
    if success {
        if out.len() > 0 {
            Ok(out)
        } else if err.len() > 0 {
            Ok(err)
        } else {
            Ok("System journal cleanup completed"@)
        }
    } else if err.len() == 0 {
        Err("System journal cleanup failed with status "@ + status)
    } else {
        Err(err)
    }
}

fn trimmed(s: &str) -> (r: String)
    ensures
        r@ == trim(s@),
{
    let c = chars_of(s);
    let t = trim_chars(c.as_slice());
    string_from_chars(t.as_slice())
}

pub fn vacuum_outcome(success: bool, status: &str, stdout: &str, stderr: &str) -> (r: Result<String, String>)
    ensures
        match r {
            Ok(m) => spec_vacuum_outcome(success, status@, stdout@, stderr@) == Ok::<Seq<char>, Seq<char>>(m@),
            Err(m) => spec_vacuum_outcome(success, status@, stdout@, stderr@) == Err::<Seq<char>, Seq<char>>(m@),
        },
{
    let out = trimmed(stdout);
    let err = trimmed(stderr);
    let out_nonempty = crate::text::text_nonempty(out.as_str());
    let err_nonempty = crate::text::text_nonempty(err.as_str());
    if success {
        if out_nonempty {
            Ok(out)
        } else if err_nonempty {
            Ok(err)
        } else {
            Ok(owned("System journal cleanup completed"))
        }
    } else if !err_nonempty {
        Err(concat("System journal cleanup failed with status ", status))
    } else {
        Err(err)
    }
}

} // verus!
