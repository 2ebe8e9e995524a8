//! The release channel, read from the line of `channel-prefs.js` that names
//! it. The value is the text between the third and the fourth quote of that
//! line, as in `pref("app.update.channel", "nightly");`.

use vstd::prelude::*;
use crate::config::ConfigError;
use crate::paths::FilePath;

verus! {

/// `pat` occurs in `s`.
pub open spec fn contains(s: Seq<char>, pat: Seq<char>) -> bool {
    exists|i: int| 0 <= i && i + pat.len() <= s.len() && #[trigger] s.subrange(i, i + pat.len()) == pat
}

/// How many quote characters `s` holds.
pub open spec fn count_quotes(s: Seq<char>) -> nat
    decreases s.len(),
{
    if s.len() == 0 {
        0
    } else {
        count_quotes(s.drop_last()) + if s.last() == '"' { 1nat } else { 0nat }
    }
}

/// `v` is the text between the third and the fourth quote of `line`.
pub open spec fn is_channel_value(line: Seq<char>, v: Seq<char>) -> bool {
    exists|a: int, b: int|
        0 <= a < b < line.len() && line[a] == '"' && line[b] == '"' && #[trigger] count_quotes(
            line.take(a),
        ) == 2 && #[trigger] count_quotes(line.take(b)) == 3 && v == line.subrange(a + 1, b)
}

/// The name of the preference that holds the release channel.
pub open spec fn channel_pref_name() -> Seq<char> {
    "app.update.channel"@
}

/// Line `k` is the first of `lines` that names the release channel.
pub open spec fn is_first_channel_line(lines: Seq<Seq<char>>, k: int) -> bool {
    &&& 0 <= k < lines.len()
    &&& contains(lines[k], channel_pref_name())
    &&& forall|j: int| 0 <= j < k ==> !contains(#[trigger] lines[j], channel_pref_name())
}

/// The views of a list of strings.
pub open spec fn lines_view(lines: Seq<String>) -> Seq<Seq<char>> {
    lines.map_values(|s: String| s@)
}

proof fn lemma_count_quotes_step(s: Seq<char>, i: int)
    requires
        0 <= i < s.len(),
    ensures
        count_quotes(s.take(i + 1)) == count_quotes(s.take(i)) + if s[i] == '"' { 1nat } else { 0nat },
{
    assert(s.take(i + 1).drop_last() =~= s.take(i));
}

pub(crate) fn chars_of(s: &str) -> (r: Vec<char>)
    ensures
        r@ == s@,
{
    let n = s.unicode_len();
    let mut r: Vec<char> = Vec::new();
    let mut i: usize = 0;
    while i < n
        invariant
            n == s@.len(),
            i <= n,
            r@ == s@.take(i as int),
        decreases n - i,
    {
        r.push(s.get_char(i));
        i = i + 1;
        assert(r@ =~= s@.take(i as int));
    }
    assert(r@ =~= s@);
    r
}

fn matches_at(s: &Vec<char>, pat: &Vec<char>, i: usize) -> (r: bool)
    requires
        i + pat@.len() <= s@.len(),
    ensures
        r == (s@.subrange(i as int, i + pat@.len()) == pat@),
{
    let m = pat.len();
    let l = s.len();
    let mut j: usize = 0;
    while j < m
        invariant
            m == pat@.len(),
            l == s@.len(),
            i + m <= s@.len(),
            j <= m,
            forall|k: int| 0 <= k < j ==> s@[i + k] == pat@[k],
        decreases m - j,
    {
        if s[i + j] != pat[j] {
            assert(s@.subrange(i as int, i + m)[j as int] != pat@[j as int]);
            return false;
        }
        j = j + 1;
    }
    assert(s@.subrange(i as int, i + m) =~= pat@);
    true
}

fn seq_contains(s: &Vec<char>, pat: &Vec<char>) -> (r: bool)
    ensures
        r == contains(s@, pat@),
{
    if pat.len() > s.len() {
        return false;
    }
    let last = s.len() - pat.len();
    let mut i: usize = 0;
    while i <= last
        invariant
            last + pat@.len() == s@.len(),
            i <= last,
            forall|k: int| 0 <= k < i ==> #[trigger] s@.subrange(k, k + pat@.len()) != pat@,
        decreases last + 1 - i,
    {
        if matches_at(s, pat, i) {
            return true;
        }
        if i == last {
            return false;
        }
        i = i + 1;
    }
    false
}

/// The text between the third and the fourth quote of `line`, if it has four.
pub fn channel_value(line: &str) -> (r: Option<String>)
    ensures
        r is None <==> count_quotes(line@) < 4,
        r matches Some(v) ==> is_channel_value(line@, v@),
{
    let s = chars_of(line);
    let n = s.len();
    let mut q: usize = 0;
    let mut a: usize = 0;
    let mut i: usize = 0;
    while i < n
        invariant
            n == s@.len(),
            s@ == line@,
            i <= n,
            q == count_quotes(s@.take(i as int)),
            q <= 3,
            q >= 3 ==> a < i && s@[a as int] == '"' && count_quotes(s@.take(a as int)) == 2,
        decreases n - i,
    {
        proof {
            lemma_count_quotes_step(s@, i as int);
        }
        if s[i] == '"' {
            if q == 3 {
                let v = line.substring_char(a + 1, i).to_string();
                assert(is_channel_value(line@, v@)) by {
                    assert(count_quotes(line@.take(a as int)) == 2);
                    assert(count_quotes(line@.take(i as int)) == 3);
                }
                proof {
                    lemma_count_quotes_monotone(s@, i as int + 1);
                }
                return Some(v);
            }
            if q == 2 {
                a = i;
            }
            q = q + 1;
        }
        i = i + 1;
    }
    assert(s@.take(n as int) =~= s@);
    None
}

proof fn lemma_count_quotes_monotone(s: Seq<char>, i: int)
    requires
        0 <= i <= s.len(),
    ensures
        count_quotes(s.take(i)) <= count_quotes(s),
    decreases s.len() - i,
{
    if i < s.len() {
        lemma_count_quotes_step(s, i);
        lemma_count_quotes_monotone(s, i + 1);
    } else {
        assert(s.take(i) =~= s);
    }
}

/// The release channel named by the first line of `lines` that mentions
/// `app.update.channel`.
pub fn release_channel_from_lines(lines: &Vec<String>) -> (r: Result<String, ConfigError>)
    ensures
        (forall|k: int| 0 <= k < lines@.len() ==> !contains(#[trigger] lines_view(lines@)[k], channel_pref_name()))
            ==> r == Err::<String, ConfigError>(ConfigError::NoChannelLine),
        forall|k: int| #[trigger] is_first_channel_line(lines_view(lines@), k) ==> {
            if count_quotes(lines_view(lines@)[k]) < 4 {
                r == Err::<String, ConfigError>(ConfigError::MalformedChannelLine)
            } else {
                r matches Ok(v) && is_channel_value(lines_view(lines@)[k], v@)
            }
        },
{
    let pat = chars_of("app.update.channel");
    let n = lines.len();
    let mut k: usize = 0;
    while k < n
        invariant
            n == lines@.len(),
            k <= n,
            pat@ == channel_pref_name(),
            forall|j: int| 0 <= j < k ==> !contains(#[trigger] lines_view(lines@)[j], channel_pref_name()),
        decreases n - k,
    {
        let line = chars_of(lines[k].as_str());
        if seq_contains(&line, &pat) {
            assert(is_first_channel_line(lines_view(lines@), k as int));
            assert forall|j: int| #[trigger] is_first_channel_line(lines_view(lines@), j) implies j == k by {
                if j < k {
                    assert(!contains(lines_view(lines@)[j], channel_pref_name()));
                } else if j > k {
                    assert(!contains(lines_view(lines@)[k as int], channel_pref_name()));
                }
            }
            return match channel_value(lines[k].as_str()) {
                Some(v) => Ok(v),
                None => Err(ConfigError::MalformedChannelLine),
            };
        }
        k = k + 1;
    }
    Err(ConfigError::NoChannelLine)
}

/// Location of the channel preferences in the installation directory.
pub fn channel_prefs_path(install_path: &FilePath) -> (r: FilePath)
    ensures
        r@ == install_path@.push("defaults/pref/channel-prefs.js"@),
{
    install_path.join("defaults/pref/channel-prefs.js")
}

} // verus!
