//! Regular expressions for frame file patterns.
use vstd::prelude::*;
use vstd::string::{StrSliceExecFns, StringExecFns};

verus! {

#[verifier::external_type_specification]
#[verifier::external_body]
pub struct ExRegex(regex::Regex);

#[verifier::external_type_specification]
#[verifier::external_body]
pub struct ExRegexError(regex::Error);

/// Characters that stand for themselves in a pattern but are special in a
/// regular expression.
pub open spec fn is_escaped(c: char) -> bool {
    c == '$' || c == '^' || c == '+' || c == '.' || c == '(' || c == ')' || c == '=' || c == '!'
        || c == '|'
}

/// One past the run of `*` that starts at `i`.
pub open spec fn star_run_end(g: Seq<char>, i: nat) -> nat
    decreases g.len() - i,
{
    if i < g.len() && g[i as int] == '*' {
        star_run_end(g, i + 1)
    } else {
        i
    }
}

/// Whether the run of stars from `i` to `j` stands for any number of whole
/// path segments: two or more stars between separators or pattern ends.
pub open spec fn is_segment_wildcard(g: Seq<char>, i: nat, j: nat, prev: Option<char>) -> bool {
    &&& j > i + 1
    &&& (j == g.len() || g[j as int] == '/')
    &&& (prev.is_none() || prev == Some('/'))
}

/// The regular expression for the pattern from index `i` on, after the
/// character `prev`: `#` matches a frame number, braces make groups, `?`
/// matches one character, `*` one path segment and `**` any number of whole
/// segments, and other characters match themselves.
pub open spec fn glob_regex_from(g: Seq<char>, i: nat, prev: Option<char>) -> Seq<char>
    decreases g.len() - i,
{
    if i >= g.len() {
        "$"@
    } else {
        let c = g[i as int];
        if c == '#' {
            "(?P<frame>[0-9]+)"@ + glob_regex_from(g, i + 1, Some(c))
        } else if is_escaped(c) {
            seq!['\\', c] + glob_regex_from(g, i + 1, Some(c))
        } else if c == '{' {
            "("@ + glob_regex_from(g, i + 1, Some(c))
        } else if c == '}' {
            ")"@ + glob_regex_from(g, i + 1, Some(c))
        } else if c == '?' {
            "."@ + glob_regex_from(g, i + 1, Some(c))
        } else if c == '*' {
            let j = star_run_end(g, i);
            if j <= i || j > g.len() {
                Seq::empty()
            } else if is_segment_wildcard(g, i, j, prev) {
                "?:[^/]*?:/|$*"@ + glob_regex_from(g, if j < g.len() { j + 1 } else { j }, Some(c))
            } else {
                "[^/]*"@ + glob_regex_from(g, j, Some(c))
            }
        } else {
            seq![c] + glob_regex_from(g, i + 1, Some(c))
        }
    }
}

/// The regular expression matching the whole of a frame file pattern.
pub open spec fn glob_regex(g: Seq<char>) -> Seq<char> {
    "^"@ + glob_regex_from(g, 0, None)
}

proof fn lemma_star_run_end(g: Seq<char>, i: nat)
    requires
        i <= g.len(),
    ensures
        i <= star_run_end(g, i) <= g.len(),
        star_run_end(g, i) == g.len() || g[star_run_end(g, i) as int] != '*',
        i < g.len() && g[i as int] == '*' ==> star_run_end(g, i) > i,
    decreases g.len() - i,
{
    if i < g.len() && g[i as int] == '*' {
        lemma_star_run_end(g, i + 1);
    }
}

/// The regular expression of a frame file pattern: `#` captures a
/// frame number in the group `frame`, braces make groups, `?` matches one
/// character, `*` one path segment and `**` any number of whole segments;
/// characters special to regular expressions are escaped.
pub fn glob_to_regex_pattern(glob: &str) -> (r: String)
    ensures
        r@ == glob_regex(glob@),
{
    let n = glob.unicode_len();
    let mut out = String::new();
    out.append("^");
    let mut i: usize = 0;
    let mut prev: Option<char> = None;
    while i < n
        invariant
            i <= n,
            n == glob@.len(),
            glob_regex(glob@) == out@ + glob_regex_from(glob@, i as nat, prev),
        decreases n - i,
    {
        let c = glob.get_char(i);
        let ghost rest = glob_regex_from(glob@, i as nat, prev);
        if c == '#' {
            out.append("(?P<frame>[0-9]+)");
            i = i + 1;
        } else if c == '$' || c == '^' || c == '+' || c == '.' || c == '(' || c == ')' || c == '='
            || c == '!' || c == '|' {
            out.append("\\");
            out.append(glob.substring_char(i, i + 1));
            proof {
                reveal_strlit("\\");
                assert(glob@.subrange(i as int, i + 1) =~= seq![c]);
                assert("\\"@ + seq![c] =~= seq!['\\', c]);
            }
            i = i + 1;
        } else if c == '{' {
            out.append("(");
            i = i + 1;
        } else if c == '}' {
            out.append(")");
            i = i + 1;
        } else if c == '?' {
            out.append(".");
            i = i + 1;
        } else if c == '*' {
            let mut j: usize = i + 1;
            while j < n && glob.get_char(j) == '*'
                invariant
                    i < j <= n,
                    n == glob@.len(),
                    star_run_end(glob@, i as nat) == star_run_end(glob@, j as nat),
                decreases n - j,
            {
                j = j + 1;
            }
            proof {
                lemma_star_run_end(glob@, i as nat);
            }
            let wildcard = j > i + 1 && (j == n || glob.get_char(j) == '/') && (match prev {
                None => true,
                Some(p) => p == '/',
            });
            if wildcard {
                out.append("?:[^/]*?:/|$*");
                i = if j < n {
                    j + 1
                } else {
                    j
                };
            } else {
                out.append("[^/]*");
                i = j;
            }
        } else {
            out.append(glob.substring_char(i, i + 1));
            proof {
                assert(glob@.subrange(i as int, i + 1) =~= seq![c]);
            }
            i = i + 1;
        }
        prev = Some(c);
        assert(glob_regex(glob@) =~= out@ + glob_regex_from(glob@, i as nat, prev));
    }
    out.append("$");
    out
}

/// Relies on `regex::Regex::new`: compiles a regular expression.
#[verifier::external_body]
fn compile_regex(pattern: &str) -> (r: Result<regex::Regex, regex::Error>) {
    regex::Regex::new(pattern)
}

/// The regular expression of a frame file pattern, compiled.
pub fn glob_to_regex(glob: &str) -> Result<regex::Regex, regex::Error> {
    let pattern = glob_to_regex_pattern(glob);
    compile_regex(pattern.as_str())
}

} // verus!
