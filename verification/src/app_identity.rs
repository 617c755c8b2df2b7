//! Which application a window belongs to: the executable path of its
//! process, refined for browsers by the profile and web-app identity found in
//! the window's application user model ID (AUMID).
use vstd::prelude::*;
use crate::text::{
    chars_eq, chars_eq_ignore_ascii_case, chars_find, chars_has_prefix, chars_has_suffix, chars_of,
    eq_ignore_ascii_case, has_prefix, has_suffix, is_ascii_digit, join2, opt_view, spec_find,
    substring,
};

verus! {

broadcast use vstd::string::group_string_axioms;

/// The shell host of packaged applications, whose windows belong to the
/// process of the window they own.
pub const APPLICATION_FRAME_HOST: &'static str = "C:\\Windows\\System32\\ApplicationFrameHost.exe";

pub open spec fn is_separator(c: char) -> bool {
    c == '\\' || c == '/'
}

/// A separator between the components of a path: only `\` in verbatim
/// paths, `\` or `/` in others.
pub open spec fn is_path_separator(c: char, verbatim: bool) -> bool {
    c == '\\' || (!verbatim && c == '/')
}

pub open spec fn is_ascii_alpha(c: char) -> bool {
    ('a' <= c <= 'z') || ('A' <= c <= 'Z')
}

/// The position of the first separator at or after `i`, or the length of
/// `p` when there is none.
pub open spec fn next_separator(p: Seq<char>, i: int, verbatim: bool) -> int
    decreases p.len() - i,
{
    if i >= p.len() {
        p.len() as int
    } else if is_path_separator(p[i], verbatim) {
        i
    } else {
        next_separator(p, i + 1, verbatim)
    }
}

/// Whether the path starts with the verbatim marker `\\?\`.
pub open spec fn is_verbatim(p: Seq<char>) -> bool {
    p.len() >= 4 && p[0] == '\\' && p[1] == '\\' && p[2] == '?' && p[3] == '\\'
}

/// The length of the Windows prefix of a path: `\\?\UNC\server\share`,
/// `\\?\C:`, `\\?\name`, `\\.\device`, `\\server\share` (both parts
/// non-empty) or `C:`; zero when the path has none. Outside the verbatim
/// marker, `/` may stand for `\`.
pub open spec fn prefix_len(p: Seq<char>) -> int {
    if p.len() >= 2 && is_separator(p[0]) && is_separator(p[1]) {
        if is_verbatim(p) {
            if p.len() >= 8 && p[4] == 'U' && p[5] == 'N' && p[6] == 'C' && is_separator(p[7]) {
                let server_end = next_separator(p, 8, true);
                if server_end >= p.len() {
                    server_end
                } else {
                    let share_end = next_separator(p, server_end + 1, true);
                    if share_end == server_end + 1 {
                        server_end
                    } else {
                        share_end
                    }
                }
            } else if p.len() >= 6 && is_ascii_alpha(p[4]) && p[5] == ':' && (p.len() == 6 || p[6]
                == '\\') {
                6
            } else {
                next_separator(p, 4, true)
            }
        } else if p.len() >= 4 && p[2] == '.' && is_separator(p[3]) {
            next_separator(p, 4, false)
        } else {
            let server_end = next_separator(p, 2, false);
            if server_end == 2 || server_end >= p.len() {
                0
            } else {
                let share_end = next_separator(p, server_end + 1, false);
                if share_end == server_end + 1 {
                    0
                } else {
                    share_end
                }
            }
        }
    } else if p.len() >= 2 && p[1] == ':' && is_ascii_alpha(p[0]) {
        2
    } else {
        0
    }
}

/// Whether `p[n - 1]` is a `.` component that the components of a
/// non-verbatim path skip: a dot right after a separator or the prefix.
pub open spec fn ends_with_cur_dir(p: Seq<char>, n: int, lo: int, verbatim: bool) -> bool {
    !verbatim && p[n - 1] == '.' && (n - 1 == lo || is_separator(p[n - 2]))
}

/// The length of `p[..n]` once trailing separators and skipped `.`
/// components are dropped, never below the prefix length `lo`.
pub open spec fn trimmed_len(p: Seq<char>, n: int, lo: int, verbatim: bool) -> int
    decreases n - lo,
{
    if n <= lo {
        lo
    } else if is_path_separator(p[n - 1], verbatim) || ends_with_cur_dir(p, n, lo, verbatim) {
        trimmed_len(p, n - 1, lo, verbatim)
    } else {
        n
    }
}

/// Where the component that ends at `k` starts: right after the last
/// separator before `k`, and not before the prefix.
pub open spec fn component_start(p: Seq<char>, k: int, lo: int, verbatim: bool) -> int
    decreases k - lo,
{
    if k <= lo {
        lo
    } else if is_path_separator(p[k - 1], verbatim) {
        k
    } else {
        component_start(p, k - 1, lo, verbatim)
    }
}

/// The file name of a Windows path: its last component after the prefix,
/// trailing separators and skipped `.` components ignored; none when the
/// path is only a prefix (and root), or ends in `.` or `..`.
pub open spec fn spec_file_name(p: Seq<char>) -> Option<Seq<char>> {
    let lo = prefix_len(p);
    let v = is_verbatim(p);
    let end = trimmed_len(p, p.len() as int, lo, v);
    let name = p.subrange(component_start(p, end, lo, v), end);
    if end <= lo || name == seq!['.'] || name == seq!['.', '.'] {
        None
    } else {
        Some(name)
    }
}

/// Whether the file name of `p` is `name`, ASCII letters compared without case.
pub open spec fn has_file_name(p: Seq<char>, name: Seq<char>) -> bool {
    spec_file_name(p) matches Some(n) && eq_ignore_ascii_case(n, name)
}

/// A module path that identifies an application.
pub open spec fn spec_is_valid_module_path(p: Seq<char>) -> bool {
    p.len() > 0 && p != APPLICATION_FRAME_HOST@
}

/// The text after the last backslash of `p` (all of `p` when it has none).
pub open spec fn spec_exe_name(p: Seq<char>) -> Seq<char> {
    p.subrange(last_backslash(p, p.len() as int) + 1, p.len() as int)
}

/// The position of the last backslash in `p[..k]`, or `-1`.
pub open spec fn last_backslash(p: Seq<char>, k: int) -> int
    decreases k,
{
    if k <= 0 {
        -1
    } else if p[k - 1] == '\\' {
        k - 1
    } else {
        last_backslash(p, k - 1)
    }
}

/// Profile and web-app identity of a Chrome window, read from its AUMID:
/// `...._crx_<app>[.UserData.<profile>]` for installed web apps and
/// `Chrome.UserData.<profile>` for browser windows of a named profile. The
/// `Default` profile is reported as no profile.
pub open spec fn spec_chrome_aumid_info(aumid: Option<Seq<char>>) -> (Option<Seq<char>>, Option<Seq<char>>) {
    match aumid {
        None => (None, None),
        Some(s) => match spec_find(s, "_crx_"@) {
            Some(idx) => {
                let after = s.subrange(idx + "_crx_"@.len(), s.len() as int);
                let (app_id, profile) = match spec_find(after, ".UserData."@) {
                    Some(d) => (
                        after.subrange(0, d),
                        after.subrange(d + ".UserData."@.len(), after.len() as int),
                    ),
                    None => (after, "Default"@),
                };
                if app_id.len() > 0 && profile.len() > 0 {
                    (if profile == "Default"@ {
                        None
                    } else {
                        Some(profile)
                    }, Some(app_id))
                } else {
                    (None, None)
                }
            },
            None => {
                if s == "Chrome"@ || s.len() == 0 {
                    (None, None)
                } else if has_prefix(s, "Chrome.UserData."@) && s.len()
                    > "Chrome.UserData."@.len() {
                    (Some(s.subrange("Chrome.UserData."@.len() as int, s.len() as int)), None)
                } else {
                    (None, None)
                }
            },
        },
    }
}

/// Profile and package of an Edge window, read from its AUMID:
/// `<package>!App` for packaged web apps and `MSEdge.UserData.<profile>` for
/// browser windows of a named profile.
pub open spec fn spec_edge_aumid_info(aumid: Option<Seq<char>>) -> (Option<Seq<char>>, Option<Seq<char>>) {
    match aumid {
        None => (None, None),
        Some(s) => {
            if has_suffix(s, "!App"@) {
                let pkg = s.subrange(0, s.len() - "!App"@.len());
                if pkg.len() > 0 {
                    (None, Some(pkg))
                } else {
                    (None, None)
                }
            } else if s == "MSEdge"@ || s.len() == 0 {
                (None, None)
            } else if has_prefix(s, "MSEdge.UserData."@) && s.len() > "MSEdge.UserData."@.len() {
                (Some(s.subrange("MSEdge.UserData."@.len() as int, s.len() as int)), None)
            } else {
                (None, None)
            }
        },
    }
}

/// Whether the module is a browser whose windows are told apart by AUMID.
pub open spec fn spec_needs_aumid(m: Seq<char>) -> bool {
    has_file_name(m, "chrome.exe"@) || has_file_name(m, "msedge.exe"@)
}

/// The key that groups windows into one application: the module path,
/// followed for Chrome and Edge by the profile and web app of the window.
pub open spec fn spec_module_key(m: Seq<char>, aumid: Option<Seq<char>>) -> Seq<char> {
    if has_file_name(m, "chrome.exe"@) {
        match spec_chrome_aumid_info(aumid) {
            (Some(profile), Some(app_id)) => m + "::"@ + profile + "::"@ + app_id,
            (Some(profile), None) => m + "::"@ + profile,
            (None, Some(app_id)) => m + "::Default::"@ + app_id,
            (None, None) => m,
        }
    } else if has_file_name(m, "msedge.exe"@) {
        match spec_edge_aumid_info(aumid) {
            (None, Some(pkg)) => m + "::appx::"@ + pkg,
            (Some(profile), None) => m + "::"@ + profile,
            _ => m,
        }
    } else {
        m
    }
}

/// The key of a window always starts with the path of its executable, so
/// windows of different executables that share no path prefix never share
/// a key.
pub proof fn lemma_module_key_extends_path(m: Seq<char>, aumid: Option<Seq<char>>)
    ensures
        has_prefix(spec_module_key(m, aumid), m),
{
    let k = spec_module_key(m, aumid);
    assert(k.len() >= m.len());
    assert(k.subrange(0, m.len() as int) =~= m);
}

/// The profile directory of a browser profile name: `ProfileN` becomes
/// `Profile N` when `N` is made of digits only.
pub open spec fn spec_profile_dir(p: Seq<char>) -> Seq<char> {
    if has_prefix(p, "Profile"@) && (forall|i: int|
        "Profile"@.len() <= i < p.len() ==> is_ascii_digit(#[trigger] p[i])) {
        "Profile "@ + p.subrange("Profile"@.len() as int, p.len() as int)
    } else {
        p
    }
}

/// Greedy matching of `t` as a subsequence of `f`: each character of `t` is
/// matched with the first equal character of `f` after the previous match.
pub open spec fn greedy_subsequence(t: Seq<char>, f: Seq<char>) -> bool
    decreases f.len(),
{
    if t.len() == 0 {
        true
    } else if f.len() == 0 {
        false
    } else if f[0] == t[0] {
        greedy_subsequence(t.drop_first(), f.drop_first())
    } else {
        greedy_subsequence(t, f.drop_first())
    }
}

/// `idx` places the characters of `t` in `f` at strictly increasing
/// positions.
pub open spec fn is_embedding(t: Seq<char>, f: Seq<char>, idx: Seq<int>) -> bool {
    &&& idx.len() == t.len()
    &&& forall|i: int| 0 <= i < idx.len() ==> 0 <= #[trigger] idx[i] < f.len() && f[idx[i]] == t[i]
    &&& forall|i: int, j: int| 0 <= i < j < idx.len() ==> idx[i] < idx[j]
}

/// `t` can be found in `f` character by character in order.
pub open spec fn is_subsequence(t: Seq<char>, f: Seq<char>) -> bool {
    exists|idx: Seq<int>| is_embedding(t, f, idx)
}

/// Greedy matching finds `t` in `f` exactly when `t` is a subsequence of
/// `f`: taking the first matching character never loses a match.
pub proof fn lemma_greedy_matching_is_complete(t: Seq<char>, f: Seq<char>)
    ensures
        greedy_subsequence(t, f) <==> is_subsequence(t, f),
    decreases f.len(),
{
    if t.len() == 0 {
        assert(is_embedding(t, f, Seq::<int>::empty()));
    } else if f.len() == 0 {
        if is_subsequence(t, f) {
            let idx = choose|idx: Seq<int>| is_embedding(t, f, idx);
            assert(0 <= idx[0] < f.len());
        }
    } else {
        let f1 = f.drop_first();
        let t1 = t.drop_first();
        if f[0] == t[0] {
            lemma_greedy_matching_is_complete(t1, f1);
            if is_subsequence(t1, f1) {
                let idx1 = choose|idx: Seq<int>| is_embedding(t1, f1, idx);
                let idx = seq![0int] + idx1.map_values(|v: int| v + 1);
                assert forall|i: int| 0 <= i < idx.len() implies 0 <= #[trigger] idx[i] < f.len()
                    && f[idx[i]] == t[i] by {
                    if i > 0 {
                        assert(idx[i] == idx1[i - 1] + 1);
                    }
                }
                assert forall|i: int, j: int| 0 <= i < j < idx.len() implies idx[i] < idx[j] by {
                    if i > 0 {
                        assert(idx1[i - 1] < idx1[j - 1]);
                    } else {
                        assert(0 <= idx1[j - 1]);
                    }
                }
                assert(is_embedding(t, f, idx));
            }
            if is_subsequence(t, f) {
                let idx = choose|idx: Seq<int>| is_embedding(t, f, idx);
                let idx1 = idx.drop_first().map_values(|v: int| v - 1);
                assert forall|i: int| 0 <= i < idx1.len() implies 0 <= #[trigger] idx1[i] < f1.len()
                    && f1[idx1[i]] == t1[i] by {
                    assert(idx[0] < idx[i + 1]);
                    assert(0 <= idx[0]);
                }
                assert forall|i: int, j: int| 0 <= i < j < idx1.len() implies idx1[i] < idx1[j] by {
                    assert(idx[i + 1] < idx[j + 1]);
                }
                assert(is_embedding(t1, f1, idx1));
            }
        } else {
            lemma_greedy_matching_is_complete(t, f1);
            if is_subsequence(t, f1) {
                let idx1 = choose|idx: Seq<int>| is_embedding(t, f1, idx);
                let idx = idx1.map_values(|v: int| v + 1);
                assert forall|i: int| 0 <= i < idx.len() implies 0 <= #[trigger] idx[i] < f.len()
                    && f[idx[i]] == t[i] by {
                    assert(idx[i] == idx1[i] + 1);
                }
                assert forall|i: int, j: int| 0 <= i < j < idx.len() implies idx[i] < idx[j] by {
                    assert(idx1[i] < idx1[j]);
                }
                assert(is_embedding(t, f, idx));
            }
            if is_subsequence(t, f) {
                let idx = choose|idx: Seq<int>| is_embedding(t, f, idx);
                assert(idx[0] != 0);
                let idx1 = idx.map_values(|v: int| v - 1);
                assert forall|i: int| 0 <= i < idx1.len() implies 0 <= #[trigger] idx1[i] < f1.len()
                    && f1[idx1[i]] == t[i] by {
                    if i > 0 {
                        assert(idx[0] < idx[i]);
                    }
                    assert(0 <= idx[0]);
                }
                assert forall|i: int, j: int| 0 <= i < j < idx1.len() implies idx1[i] < idx1[j] by {
                    assert(idx[i] < idx[j]);
                }
                assert(is_embedding(t, f1, idx1));
            }
        }
    }
}

/// Whether a web-app identifier `full` matches the possibly shortened
/// identifier `truncated` found in an AUMID.
pub open spec fn spec_app_id_match(full: Seq<char>, truncated: Seq<char>) -> bool {
    eq_ignore_ascii_case(full, truncated) || greedy_subsequence(truncated, full)
}

/// The directory name of an installed web app without its `_crx_` prefix.
pub open spec fn spec_web_app_dir_id(dir: Seq<char>) -> Seq<char> {
    if has_prefix(dir, "_crx_"@) {
        dir.subrange("_crx_"@.len() as int, dir.len() as int)
    } else {
        dir
    }
}

fn next_separator_exec(p: &Vec<char>, i: usize, verbatim: bool) -> (r: usize)
    requires
        i <= p@.len(),
    ensures
        r == next_separator(p@, i as int, verbatim),
        i <= r <= p@.len(),
{
    let mut k = i;
    while k < p.len() && !(p[k] == '\\' || (!verbatim && p[k] == '/'))
        invariant
            i <= k <= p@.len(),
            next_separator(p@, i as int, verbatim) == next_separator(p@, k as int, verbatim),
        decreases p@.len() - k,
    {
        k = k + 1;
    }
    k
}

fn is_sep_char(c: char) -> (r: bool)
    ensures
        r == is_separator(c),
{
    c == '\\' || c == '/'
}

fn is_alpha_char(c: char) -> (r: bool)
    ensures
        r == is_ascii_alpha(c),
{
    ('a' <= c && c <= 'z') || ('A' <= c && c <= 'Z')
}

fn prefix_len_exec(p: &Vec<char>) -> (r: usize)
    ensures
        r == prefix_len(p@),
        r <= p@.len(),
{
    let n = p.len();
    if n >= 2 && is_sep_char(p[0]) && is_sep_char(p[1]) {
        if n >= 4 && p[0] == '\\' && p[1] == '\\' && p[2] == '?' && p[3] == '\\' {
            if n >= 8 && p[4] == 'U' && p[5] == 'N' && p[6] == 'C' && is_sep_char(p[7]) {
                let server_end = next_separator_exec(p, 8, true);
                if server_end >= n {
                    server_end
                } else {
                    let share_end = next_separator_exec(p, server_end + 1, true);
                    if share_end == server_end + 1 {
                        server_end
                    } else {
                        share_end
                    }
                }
            } else if n >= 6 && is_alpha_char(p[4]) && p[5] == ':' && (n == 6 || p[6] == '\\') {
                6
            } else {
                next_separator_exec(p, 4, true)
            }
        } else if n >= 4 && p[2] == '.' && is_sep_char(p[3]) {
            next_separator_exec(p, 4, false)
        } else {
            let server_end = next_separator_exec(p, 2, false);
            if server_end == 2 || server_end >= n {
                0
            } else {
                let share_end = next_separator_exec(p, server_end + 1, false);
                if share_end == server_end + 1 {
                    0
                } else {
                    share_end
                }
            }
        }
    } else if n >= 2 && p[1] == ':' && is_alpha_char(p[0]) {
        2
    } else {
        0
    }
}

fn file_name_range(p: &Vec<char>) -> (r: Option<(usize, usize)>)
    ensures
        match r {
            Some((a, b)) => a <= b <= p@.len() && spec_file_name(p@) == Some(p@.subrange(a as int, b as int)),
            None => spec_file_name(p@) is None,
        },
{
    let lo = prefix_len_exec(p);
    let v = p.len() >= 4 && p[0] == '\\' && p[1] == '\\' && p[2] == '?' && p[3] == '\\';
    assert(v == is_verbatim(p@));
    let mut end = p.len();
    while end > lo && (p[end - 1] == '\\' || (!v && p[end - 1] == '/') || (!v && p[end - 1] == '.'
        && (end - 1 == lo || p[end - 2] == '\\' || p[end - 2] == '/')))
        invariant
            lo <= end <= p@.len(),
            lo == prefix_len(p@),
            v == is_verbatim(p@),
            trimmed_len(p@, p@.len() as int, lo as int, v) == trimmed_len(p@, end as int, lo as int, v),
        decreases end,
    {
        end = end - 1;
    }
    assert(trimmed_len(p@, end as int, lo as int, v) == end);
    if end <= lo {
        return None;
    }
    let mut k = end;
    while k > lo && !(p[k - 1] == '\\' || (!v && p[k - 1] == '/'))
        invariant
            lo <= k <= end <= p@.len(),
            component_start(p@, end as int, lo as int, v) == component_start(p@, k as int, lo as int, v),
        decreases k,
    {
        k = k - 1;
    }
    let start = k;
    assert(start == component_start(p@, end as int, lo as int, v));
    let len = end - start;
    let ghost name = p@.subrange(start as int, end as int);
    if len == 1 && p[start] == '.' {
        assert(name =~= seq!['.']);
        return None;
    }
    if len == 2 && p[start] == '.' && p[start + 1] == '.' {
        assert(name =~= seq!['.', '.']);
        return None;
    }
    proof {
        if name == seq!['.'] {
            assert(name.len() == 1 && name[0] == '.');
            assert(p@[start as int] == '.');
        }
        if name == seq!['.', '.'] {
            assert(name.len() == 2 && name[0] == '.' && name[1] == '.');
            assert(p@[start as int] == '.');
            assert(p@[start + 1] == '.');
        }
        assert(spec_file_name(p@) == Some(name));
    }
    Some((start, end))
}

fn has_file_name_exec(p: &str, name: &str) -> (r: bool)
    ensures
        r == has_file_name(p@, name@),
{
    let pc = chars_of(p);
    match file_name_range(&pc) {
        None => false,
        Some((a, b)) => {
            let n = chars_of(&substring(p, a, b));
            let want = chars_of(name);
            chars_eq_ignore_ascii_case(&n, &want)
        },
    }
}

/// Whether the module is Chrome: its file name is `chrome.exe` in any case.
pub fn is_chrome_browser(path: &str) -> (r: bool)
    ensures
        r == has_file_name(path@, "chrome.exe"@),
{
    has_file_name_exec(path, "chrome.exe")
}

/// Whether the module is Edge: its file name is `msedge.exe` in any case.
pub fn is_edge_browser(path: &str) -> (r: bool)
    ensures
        r == has_file_name(path@, "msedge.exe"@),
{
    has_file_name_exec(path, "msedge.exe")
}

/// Whether a module path identifies an application: it is not empty and is
/// not the shell host that frames packaged applications.
pub fn is_valid_module_path(path: &str) -> (r: bool)
    ensures
        r == spec_is_valid_module_path(path@),
{
    if path.is_empty() {
        return false;
    }
    let a = chars_of(path);
    let b = chars_of(APPLICATION_FRAME_HOST);
    !chars_eq(&a, &b)
}

/// The executable name of a module path: the text after its last backslash.
pub fn exe_name(path: &str) -> (r: String)
    ensures
        r@ == spec_exe_name(path@),
{
    let p = chars_of(path);
    let mut k = p.len();
    while k > 0 && p[k - 1] != '\\'
        invariant
            k <= p@.len(),
            last_backslash(p@, p@.len() as int) == last_backslash(p@, k as int),
        decreases k,
    {
        k = k - 1;
    }
    substring(path, k, p.len())
}

/// Whether the windows of this module are told apart by their AUMID.
pub fn needs_aumid(path: &str) -> (r: bool)
    ensures
        r == spec_needs_aumid(path@),
{
    is_chrome_browser(path) || is_edge_browser(path)
}

fn literal_chars(lit: &str) -> (v: Vec<char>)
    ensures
        v@ == lit@,
{
    chars_of(lit)
}

/// Profile and web app of a Chrome window from its AUMID.
pub fn chrome_aumid_info(aumid: &Option<String>) -> (r: (Option<String>, Option<String>))
    ensures
        (opt_view(r.0), opt_view(r.1)) == spec_chrome_aumid_info(opt_view(*aumid)),
{
    let s = match aumid {
        None => {
            return (None, None);
        },
        Some(s) => s.as_str(),
    };
    let sc = chars_of(s);
    let crx = literal_chars("_crx_");
    match chars_find(&sc, &crx) {
        Some(idx) => {
            let ghost ss = s@;
            proof {
                lemma_find_occurs(sc@, crx@, 0);
                assert(idx + crx@.len() <= sc@.len());
                assert(sc@.len() == sc.len());
            }
            let after = substring(s, idx + crx.len(), sc.len());
            let ac = chars_of(after.as_str());
            let user_data = literal_chars(".UserData.");
            let (app_id, profile) = match chars_find(&ac, &user_data) {
                Some(d) => {
                    proof {
                        lemma_find_occurs(after@, user_data@, 0);
                    }
                    (
                        substring(after.as_str(), 0, d),
                        substring(after.as_str(), d + user_data.len(), ac.len()),
                    )
                },
                None => (after.clone(), String::from_str("Default")),
            };
            if app_id.as_str().is_empty() || profile.as_str().is_empty() {
                return (None, None);
            }
            let pc = chars_of(profile.as_str());
            let default = literal_chars("Default");
            let profile = if chars_eq(&pc, &default) {
                None
            } else {
                Some(profile)
            };
            (profile, Some(app_id))
        },
        None => {
            let chrome = literal_chars("Chrome");
            if chars_eq(&sc, &chrome) || sc.len() == 0 {
                return (None, None);
            }
            let prefix = literal_chars("Chrome.UserData.");
            if chars_has_prefix(&sc, &prefix) && sc.len() > prefix.len() {
                return (Some(substring(s, prefix.len(), sc.len())), None);
            }
            (None, None)
        },
    }
}

/// Package and profile of an Edge window from its AUMID.
pub fn edge_aumid_info(aumid: &Option<String>) -> (r: (Option<String>, Option<String>))
    ensures
        (opt_view(r.0), opt_view(r.1)) == spec_edge_aumid_info(opt_view(*aumid)),
{
    let s = match aumid {
        None => {
            return (None, None);
        },
        Some(s) => s.as_str(),
    };
    let sc = chars_of(s);
    let app = literal_chars("!App");
    if chars_has_suffix(&sc, &app) {
        let n = sc.len() - app.len();
        if n > 0 {
            return (None, Some(substring(s, 0, n)));
        }
        return (None, None);
    }
    let edge = literal_chars("MSEdge");
    if chars_eq(&sc, &edge) || sc.len() == 0 {
        return (None, None);
    }
    let prefix = literal_chars("MSEdge.UserData.");
    if chars_has_prefix(&sc, &prefix) && sc.len() > prefix.len() {
        return (Some(substring(s, prefix.len(), sc.len())), None);
    }
    (None, None)
}

/// The first occurrence found by [`spec_find`] is an occurrence.
pub proof fn lemma_find_occurs(s: Seq<char>, needle: Seq<char>, i: int)
    requires
        crate::text::find_from(s, needle, i) is Some,
    ensures
        crate::text::occurs_at(s, needle, crate::text::find_from(s, needle, i)->0),
        i <= crate::text::find_from(s, needle, i)->0,
    decreases s.len() + 1 - i,
{
    if i < 0 || i + needle.len() > s.len() {
    } else if crate::text::occurs_at(s, needle, i) {
    } else {
        lemma_find_occurs(s, needle, i + 1);
    }
}

/// The key that groups the window into an application. `aumid` is the
/// window's AUMID; it is only read when the module is Chrome or Edge.
pub fn build_module_key(path: String, aumid: &Option<String>) -> (key: String)
    ensures
        key@ == spec_module_key(path@, opt_view(*aumid)),
{
    if is_chrome_browser(path.as_str()) {
        match chrome_aumid_info(aumid) {
            (Some(profile), Some(app_id)) => {
                let a = join2(path.as_str(), "::");
                let b = join2(a.as_str(), profile.as_str());
                let c = join2(b.as_str(), "::");
                join2(c.as_str(), app_id.as_str())
            },
            (Some(profile), None) => {
                let a = join2(path.as_str(), "::");
                join2(a.as_str(), profile.as_str())
            },
            (None, Some(app_id)) => {
                let a = join2(path.as_str(), "::Default::");
                join2(a.as_str(), app_id.as_str())
            },
            (None, None) => path,
        }
    } else if is_edge_browser(path.as_str()) {
        match edge_aumid_info(aumid) {
            (None, Some(pkg)) => {
                let a = join2(path.as_str(), "::appx::");
                join2(a.as_str(), pkg.as_str())
            },
            (Some(profile), None) => {
                let a = join2(path.as_str(), "::");
                join2(a.as_str(), profile.as_str())
            },
            _ => path,
        }
    } else {
        path
    }
}

/// The profile directory of a browser profile name (`Profile3` becomes
/// `Profile 3`; other names are kept).
pub fn pwa_map_profile_dir(aumid_profile: &str) -> (dir: String)
    ensures
        dir@ == spec_profile_dir(aumid_profile@),
{
    let p = chars_of(aumid_profile);
    let prefix = literal_chars("Profile");
    if chars_has_prefix(&p, &prefix) {
        let mut i = prefix.len();
        while i < p.len()
            invariant
                prefix@.len() <= i <= p@.len(),
                prefix@ == "Profile"@,
                p@ == aumid_profile@,
                forall|j: int| prefix@.len() <= j < i ==> is_ascii_digit(#[trigger] p@[j]),
            decreases p.len() - i,
        {
            if !('0' <= p[i] && p[i] <= '9') {
                assert(!is_ascii_digit(p@[i as int]));
                assert(!(forall|m: int|
                    "Profile"@.len() <= m < aumid_profile@.len() ==> is_ascii_digit(
                        #[trigger] aumid_profile@[m],
                    )));
                return String::from_str(aumid_profile);
            }
            i = i + 1;
        }
        let num = substring(aumid_profile, prefix.len(), p.len());
        return join2("Profile ", num.as_str());
    }
    String::from_str(aumid_profile)
}

/// Whether the web-app identifier `full` matches the identifier `truncated`
/// taken from an AUMID: equal without case, or `truncated` is found in
/// `full` character by character in order.
pub fn is_app_id_match(full: &str, truncated: &str) -> (r: bool)
    ensures
        r == spec_app_id_match(full@, truncated@),
{
    let f = chars_of(full);
    let t = chars_of(truncated);
    if chars_eq_ignore_ascii_case(&f, &t) {
        return true;
    }
    let mut j: usize = 0;
    let mut k: usize = 0;
    assert(t@.skip(0) =~= t@);
    assert(f@.skip(0) =~= f@);
    while k < t.len()
        invariant
            k <= t@.len(),
            j <= f@.len(),
            f@ == full@,
            t@ == truncated@,
            !eq_ignore_ascii_case(f@, t@),
            greedy_subsequence(t@, f@) == greedy_subsequence(t@.skip(k as int), f@.skip(j as int)),
        decreases t.len() - k,
    {
        let tc = t[k];
        while j < f.len() && f[j] != tc
            invariant
                j <= f@.len(),
                k < t@.len(),
                f@ == full@,
                t@ == truncated@,
                !eq_ignore_ascii_case(f@, t@),
                tc == t@[k as int],
                greedy_subsequence(t@, f@) == greedy_subsequence(
                    t@.skip(k as int),
                    f@.skip(j as int),
                ),
            decreases f.len() - j,
        {
            assert(f@.skip(j as int).drop_first() =~= f@.skip(j + 1));
            j = j + 1;
        }
        if j == f.len() {
            assert(f@.skip(j as int).len() == 0);
            assert(t@.skip(k as int).len() > 0);
            assert(!greedy_subsequence(t@.skip(k as int), f@.skip(j as int)));
            assert(!greedy_subsequence(t@, f@));
            assert(!eq_ignore_ascii_case(f@, t@));
            return false;
        }
        assert(f@.skip(j as int).drop_first() =~= f@.skip(j + 1));
        assert(t@.skip(k as int).drop_first() =~= t@.skip(k + 1));
        j = j + 1;
        k = k + 1;
    }
    assert(t@.skip(k as int).len() == 0);
    true
}

/// Whether the installed web app in directory `dir_name` is the app
/// `app_id` named by an AUMID.
pub fn web_app_dir_matches(dir_name: &str, app_id: &str) -> (r: bool)
    ensures
        r == spec_app_id_match(spec_web_app_dir_id(dir_name@), app_id@),
{
    let d = chars_of(dir_name);
    let crx = literal_chars("_crx_");
    if chars_has_prefix(&d, &crx) {
        let id = substring(dir_name, crx.len(), d.len());
        is_app_id_match(id.as_str(), app_id)
    } else {
        is_app_id_match(dir_name, app_id)
    }
}

/// Where Chrome keeps its profiles, below the local application data folder.
pub const CHROME_USER_DATA: &'static str = "Google\\Chrome\\User Data";

/// Where Edge keeps its profiles, below the local application data folder.
pub const EDGE_USER_DATA: &'static str = "Microsoft\\Edge\\User Data";

/// The text that `str::to_lowercase` returns for a text.
pub uninterp spec fn unicode_lowercase(s: Seq<char>) -> Seq<char>;

/// `str::to_lowercase`: the text with every character replaced by its
/// Unicode lowercase mapping. Only the name of its result is claimed.
#[verifier::external_body]
fn to_lowercase(s: &str) -> (r: String)
    ensures
        r@ == unicode_lowercase(s@),
{
    s.to_lowercase()
}

/// The profile folder of the browser named in an already lowercased path,
/// relative to the local application data folder: Chrome's when the text
/// contains `chrome.exe`, else Edge's when it contains `msedge.exe`.
pub open spec fn spec_user_data_subdir_of_lowered(lower: Seq<char>) -> Option<Seq<char>> {
    if spec_find(lower, "chrome.exe"@) is Some {
        Some(CHROME_USER_DATA@)
    } else if spec_find(lower, "msedge.exe"@) is Some {
        Some(EDGE_USER_DATA@)
    } else {
        None
    }
}

/// The profile folder of the browser whose executable path is `path`,
/// relative to the local application data folder: chosen by the lowercase
/// path containing `chrome.exe` or `msedge.exe`.
pub open spec fn spec_user_data_subdir(path: Seq<char>) -> Option<Seq<char>> {
    spec_user_data_subdir_of_lowered(unicode_lowercase(path))
}

/// Decides [`spec_user_data_subdir_of_lowered`].
pub fn user_data_subdir_of_lowered(lower: &str) -> (r: Option<String>)
    ensures
        opt_view(r) == spec_user_data_subdir_of_lowered(lower@),
{
    let l = chars_of(lower);
    let chrome = literal_chars("chrome.exe");
    if chars_find(&l, &chrome).is_some() {
        return Some(String::from_str(CHROME_USER_DATA));
    }
    let edge = literal_chars("msedge.exe");
    if chars_find(&l, &edge).is_some() {
        return Some(String::from_str(EDGE_USER_DATA));
    }
    None
}

/// Decides [`spec_user_data_subdir`].
pub fn browser_user_data_subdir(path: &str) -> (r: Option<String>)
    ensures
        opt_view(r) == spec_user_data_subdir(path@),
{
    let lower = to_lowercase(path);
    user_data_subdir_of_lowered(lower.as_str())
}

} // verus!
