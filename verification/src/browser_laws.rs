//! Laws of the browser catalogue: the glob patterns a rule scans stay
//! below the browser's directory, and each browser is recognised by its own
//! process names.
use vstd::prelude::*;
use crate::browser::{BrowserDataType, BrowserType};

verus! {

/// A pattern that stays below the directory it is joined to: it is not
/// empty, does not start at the root, and every `.` in it follows a
/// character of a name (neither `/` nor another `.`), so none of its
/// segments is `.` or `..`.
pub open spec fn stays_below(p: Seq<char>) -> bool {
    &&& p.len() > 0
    &&& p[0] != '/'
    &&& forall|j: int| 0 <= j < p.len() && #[trigger] p[j] == '.' ==> j > 0 && p[j - 1] != '/' && p[j - 1] != '.'
}

/// No upper-case ASCII letter.
pub open spec fn lower_case(p: Seq<char>) -> bool {
    forall|j: int| 0 <= j < p.len() ==> !('A' <= #[trigger] p[j] && p[j] <= 'Z')
}

spec fn plain_from(p: Seq<char>, i: nat) -> bool
    decreases p.len() - i,
    when i <= p.len()
{
    if i >= p.len() {
        true
    } else {
        (p[i as int] == '.' ==> (i > 0 && p[i - 1] != '/' && p[i - 1] != '.')) && plain_from(p, i + 1)
    }
}

spec fn lower_from(p: Seq<char>, i: nat) -> bool
    decreases p.len() - i,
    when i <= p.len()
{
    if i >= p.len() {
        true
    } else {
        !('A' <= p[i as int] && p[i as int] <= 'Z') && lower_from(p, i + 1)
    }
}

proof fn lemma_plain_from(p: Seq<char>, i: nat, j: int)
    requires
        i <= p.len(),
        plain_from(p, i),
        i <= j < p.len(),
        p[j] == '.',
    ensures
        j > 0 && p[j - 1] != '/' && p[j - 1] != '.',
    decreases p.len() - i,
{
    if j > i {
        lemma_plain_from(p, i + 1, j);
    }
}

proof fn lemma_lower_from(p: Seq<char>, i: nat, j: int)
    requires
        i <= p.len(),
        lower_from(p, i),
        i <= j < p.len(),
    ensures
        !('A' <= p[j] && p[j] <= 'Z'),
    decreases p.len() - i,
{
    if j > i {
        lemma_lower_from(p, i + 1, j);
    }
}

proof fn lemma_stays_below(p: Seq<char>)
    requires
        p.len() > 0,
        p[0] != '/',
        plain_from(p, 0),
    ensures
        stays_below(p),
{
    assert forall|j: int| 0 <= j < p.len() && #[trigger] p[j] == '.' implies j > 0 && p[j - 1] != '/' && p[j - 1]
        != '.' by {
        lemma_plain_from(p, 0, j);
    }
}

proof fn lemma_lower_case(p: Seq<char>)
    requires
        lower_from(p, 0),
    ensures
        lower_case(p),
{
    assert forall|j: int| 0 <= j < p.len() implies !('A' <= #[trigger] p[j] && p[j] <= 'Z') by {
        lemma_lower_from(p, 0, j);
    }
}

/// Every pattern of every browser rule stays below the browser's directory.
pub proof fn lemma_relative_paths_stay_below(t: BrowserDataType, b: BrowserType, k: int)
    requires
        0 <= k < t.spec_relative_paths(b).len(),
    ensures
        stays_below(t.spec_relative_paths(b)[k]),
{
    reveal_with_fuel(plain_from, 24);
    reveal_strlit("*/cache2");
    assert(plain_from("*/cache2"@, 0));
    reveal_strlit("*/startupCache");
    assert(plain_from("*/startupCache"@, 0));
    reveal_strlit("*/storage/default");
    assert(plain_from("*/storage/default"@, 0));
    reveal_strlit("*/storage/temporary");
    assert(plain_from("*/storage/temporary"@, 0));
    reveal_strlit("Crash Reports/pending");
    assert(plain_from("Crash Reports/pending"@, 0));
    reveal_strlit("*/minidumps");
    assert(plain_from("*/minidumps"@, 0));
    reveal_strlit("*/places.sqlite");
    assert(plain_from("*/places.sqlite"@, 0));
    reveal_strlit("*/cookies.sqlite");
    assert(plain_from("*/cookies.sqlite"@, 0));
    reveal_strlit("*/downloads.sqlite");
    assert(plain_from("*/downloads.sqlite"@, 0));
    reveal_strlit("Cache");
    assert(plain_from("Cache"@, 0));
    reveal_strlit("*/Cache");
    assert(plain_from("*/Cache"@, 0));
    reveal_strlit("Code Cache");
    assert(plain_from("Code Cache"@, 0));
    reveal_strlit("*/Code Cache");
    assert(plain_from("*/Code Cache"@, 0));
    reveal_strlit("GPUCache");
    assert(plain_from("GPUCache"@, 0));
    reveal_strlit("*/GPUCache");
    assert(plain_from("*/GPUCache"@, 0));
    reveal_strlit("GrShaderCache");
    assert(plain_from("GrShaderCache"@, 0));
    reveal_strlit("*/GrShaderCache");
    assert(plain_from("*/GrShaderCache"@, 0));
    reveal_strlit("GraphiteDawnCache");
    assert(plain_from("GraphiteDawnCache"@, 0));
    reveal_strlit("*/GraphiteDawnCache");
    assert(plain_from("*/GraphiteDawnCache"@, 0));
    reveal_strlit("Local Storage");
    assert(plain_from("Local Storage"@, 0));
    reveal_strlit("Session Storage");
    assert(plain_from("Session Storage"@, 0));
    reveal_strlit("IndexedDB");
    assert(plain_from("IndexedDB"@, 0));
    reveal_strlit("Service Worker");
    assert(plain_from("Service Worker"@, 0));
    reveal_strlit("WebStorage");
    assert(plain_from("WebStorage"@, 0));
    reveal_strlit("*/Local Storage");
    assert(plain_from("*/Local Storage"@, 0));
    reveal_strlit("*/Session Storage");
    assert(plain_from("*/Session Storage"@, 0));
    reveal_strlit("*/IndexedDB");
    assert(plain_from("*/IndexedDB"@, 0));
    reveal_strlit("*/Service Worker");
    assert(plain_from("*/Service Worker"@, 0));
    reveal_strlit("*/WebStorage");
    assert(plain_from("*/WebStorage"@, 0));
    reveal_strlit("Crash Reports");
    assert(plain_from("Crash Reports"@, 0));
    reveal_strlit("Crashpad");
    assert(plain_from("Crashpad"@, 0));
    reveal_strlit("*/Crash Reports");
    assert(plain_from("*/Crash Reports"@, 0));
    reveal_strlit("*/Crashpad");
    assert(plain_from("*/Crashpad"@, 0));
    reveal_strlit("History");
    assert(plain_from("History"@, 0));
    reveal_strlit("*/History");
    assert(plain_from("*/History"@, 0));
    reveal_strlit("Cookies");
    assert(plain_from("Cookies"@, 0));
    reveal_strlit("Network/Cookies");
    assert(plain_from("Network/Cookies"@, 0));
    reveal_strlit("*/Cookies");
    assert(plain_from("*/Cookies"@, 0));
    reveal_strlit("*/Network/Cookies");
    assert(plain_from("*/Network/Cookies"@, 0));
    let p = t.spec_relative_paths(b)[k];
    assert(plain_from(p, 0) && p.len() > 0 && p[0] != '/');
    lemma_stays_below(p);
}

/// Process names are not empty and in lower case, and two browsers never
/// share one.
pub proof fn lemma_process_names_distinct(a: BrowserType, b: BrowserType, i: int, j: int)
    requires
        0 <= i < a.spec_process_names().len(),
        0 <= j < b.spec_process_names().len(),
    ensures
        a.spec_process_names()[i].len() > 0,
        lower_case(a.spec_process_names()[i]),
        a != b ==> a.spec_process_names()[i] != b.spec_process_names()[j],
{
    reveal_with_fuel(lower_from, 16);
    reveal_strlit("firefox");
    assert(lower_from("firefox"@, 0));
    assert("firefox"@.len() == 7 && "firefox"@[0] == 'f');
    reveal_strlit("chrome");
    assert(lower_from("chrome"@, 0));
    assert("chrome"@.len() == 6 && "chrome"@[0] == 'c');
    reveal_strlit("chromium");
    assert(lower_from("chromium"@, 0));
    assert("chromium"@.len() == 8 && "chromium"@[0] == 'c');
    reveal_strlit("brave");
    assert(lower_from("brave"@, 0));
    assert("brave"@.len() == 5 && "brave"@[0] == 'b');
    reveal_strlit("msedge");
    assert(lower_from("msedge"@, 0));
    assert("msedge"@.len() == 6 && "msedge"@[0] == 'm');
    reveal_strlit("opera");
    assert(lower_from("opera"@, 0));
    assert("opera"@.len() == 5 && "opera"@[0] == 'o');
    reveal_strlit("vivaldi");
    assert(lower_from("vivaldi"@, 0));
    assert("vivaldi"@.len() == 7 && "vivaldi"@[0] == 'v');
    reveal_strlit("yandex_browser");
    assert(lower_from("yandex_browser"@, 0));
    assert("yandex_browser"@.len() == 14 && "yandex_browser"@[0] == 'y');
    reveal_strlit("duckduckgo");
    assert(lower_from("duckduckgo"@, 0));
    assert("duckduckgo"@.len() == 10 && "duckduckgo"@[0] == 'd');
    lemma_lower_case(a.spec_process_names()[i]);
}

} // verus!
