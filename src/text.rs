//! Text helpers: defanging, file-name cleaning, token scanning and trimming,
//! each stated over the characters of the text.
use vstd::prelude::*;
use vstd::string::StrSliceExecFns;

verus! {

/// Relies on `String::push`: the character is appended at the end.
pub assume_specification[ String::push ](string: &mut String, ch: char)
    ensures
        final(string)@ == old(string)@.push(ch),
;

/// Relies on `String::push_str`: the text is appended at the end.
pub assume_specification[ String::push_str ](string: &mut String, s: &str)
    ensures
        final(string)@ == old(string)@ + s@,
;

/// Relies on `char::is_whitespace`: true exactly for the characters with
/// Unicode's `White_Space` property.
pub assume_specification[ char::is_whitespace ](c: char) -> (r: bool)
    ensures
        r == is_white_space(c),
;

/// The characters with Unicode's `White_Space` property.
pub open spec fn is_white_space(c: char) -> bool {
    ('\u{9}' <= c <= '\u{d}') || c == ' ' || c == '\u{85}' || c == '\u{a0}' || c == '\u{1680}'
        || ('\u{2000}' <= c <= '\u{200a}') || c == '\u{2028}' || c == '\u{2029}'
        || c == '\u{202f}' || c == '\u{205f}' || c == '\u{3000}'
}

/// The characters that may stand in a file name handed to a subprocess.
pub open spec fn is_file_name_char(c: char) -> bool {
    ('a' <= c <= 'z') || ('A' <= c <= 'Z') || ('0' <= c <= '9') || c == '_' || c == '.' || c == '-'
}

/// The number of marker characters (`/`) that `s` starts with.
pub open spec fn marker_run(s: Seq<char>) -> nat
    decreases s.len(),
{
    if s.len() > 0 && s[0] == '/' {
        1 + marker_run(s.drop_first())
    } else {
        0
    }
}

/// `s` with a leading run of marker characters collapsed to a single one.
pub open spec fn collapse_markers(s: Seq<char>) -> Seq<char> {
    if marker_run(s) == 0 {
        s
    } else {
        s.subrange(marker_run(s) - 1, s.len() as int)
    }
}

/// The number of whitespace characters that `s` starts with.
pub open spec fn white_run(s: Seq<char>) -> nat
    decreases s.len(),
{
    if s.len() > 0 && is_white_space(s[0]) {
        1 + white_run(s.drop_first())
    } else {
        0
    }
}

/// `s` without its leading whitespace.
pub open spec fn trim_start(s: Seq<char>) -> Seq<char> {
    s.subrange(white_run(s) as int, s.len() as int)
}

/// Scans one token of `t` from position `i`, having gathered `token` so far.
/// A backslash takes the next character literally, a double quote opens or
/// closes a quoted span, and a space outside quotes ends the token. The result
/// is the token and the position at which the rest of `t` starts; there is no
/// token when `t` ends with nothing gathered.
pub open spec fn scan_token(t: Seq<char>, i: int, token: Seq<char>, escaping: bool, quoting: bool)
    -> Option<(Seq<char>, int)>
    decreases t.len() - i,
{
    if i >= t.len() || i < 0 {
        if token.len() > 0 {
            Some((token, t.len() as int))
        } else {
            None
        }
    } else if escaping {
        scan_token(t, i + 1, token.push(t[i]), false, quoting)
    } else if t[i] == '\\' {
        scan_token(t, i + 1, token, true, quoting)
    } else if t[i] == '"' {
        scan_token(t, i + 1, token, false, !quoting)
    } else if t[i] == ' ' && !quoting {
        Some((token, i))
    } else {
        scan_token(t, i + 1, token.push(t[i]), false, quoting)
    }
}

/// The first token of `s` after its leading whitespace, and the rest of `s`.
pub open spec fn split_token(s: Seq<char>) -> Option<(Seq<char>, Seq<char>)> {
    let t = trim_start(s);
    match scan_token(t, 0, Seq::empty(), false, false) {
        Some((token, end)) => Some((token, t.subrange(end, t.len() as int))),
        None => None,
    }
}

/// The number of whitespace characters that `s` ends with.
pub open spec fn trailing_white(s: Seq<char>) -> nat
    decreases s.len(),
{
    if s.len() > 0 && is_white_space(s.last()) {
        1 + trailing_white(s.drop_last())
    } else {
        0
    }
}

/// `s` without its leading and trailing whitespace.
pub open spec fn trim(s: Seq<char>) -> Seq<char> {
    let t = trim_start(s);
    t.subrange(0, t.len() - trailing_white(t))
}

/// Whether `s` starts with `p`.
pub open spec fn starts_with(s: Seq<char>, p: Seq<char>) -> bool {
    p.len() <= s.len() && s.subrange(0, p.len() as int) == p
}

/// The characters of `s`, one by one.
pub fn chars_of(s: &str) -> (r: Vec<char>)
    ensures
        r@ == s@,
{
    let mut r: Vec<char> = Vec::new();
    for c in it: s.chars()
        invariant
            r@ == it.seq().take(it.index() as int),
    {
        r.push(c);
    }
    r
}

/// Keeps only the characters `[A-Za-z0-9_.-]` of a file name; what remains may
/// be empty.
pub fn clean_file_name(input: &str) -> (r: String)
    ensures
        r@ == input@.filter(|c: char| is_file_name_char(c)),
{
    let cs = chars_of(input);
    let mut r = String::new();
    let mut i: usize = 0;
    while i < cs.len()
        invariant
            cs@ == input@,
            i <= cs@.len(),
            r@ == cs@.take(i as int).filter(|c: char| is_file_name_char(c)),
        decreases cs@.len() - i,
    {
        let c = cs[i];
        proof {
            reveal(Seq::filter);
            assert(cs@.take(i + 1).drop_last() == cs@.take(i as int));
        }
        if ('a' <= c && c <= 'z') || ('A' <= c && c <= 'Z') || ('0' <= c && c <= '9') || c == '_'
            || c == '.' || c == '-' {
            r.push(c);
        }
        i = i + 1;
    }
    assert(cs@.take(i as int) == input@);
    r
}

/// Collapses a leading run of `/` into a single `/`, so that text from a chat
/// participant can never reach a subprocess as a `//` directive.
pub fn safe_text(input: &str) -> (r: &str)
    ensures
        r@ == collapse_markers(input@),
{
    let cs = chars_of(input);
    let n = cs.len();
    let mut k: usize = 0;
    while k < n && cs[k] == '/'
        invariant
            cs@ == input@,
            n == cs@.len(),
            k <= n,
            forall|j: int| 0 <= j < k ==> cs@[j] == '/',
        decreases n - k,
    {
        k = k + 1;
    }
    proof {
        lemma_marker_run(input@, k as int);
    }
    if k == 0 {
        input
    } else {
        input.substring_char(k - 1, n)
    }
}

/// Takes the first space-separated token of `string` after its leading
/// whitespace, and returns it with the rest of the string, which starts at the
/// space that ended the token. A token may hold spaces inside double quotes,
/// and a backslash escapes the character after it; quotes and backslashes are
/// not part of the token.
pub fn split_quoted(string: &str) -> (r: Option<(String, &str)>)
    ensures
        match r {
            Some((token, rest)) => split_token(string@) == Some((token@, rest@)),
            None => split_token(string@) is None,
        },
{
    let cs = chars_of(string);
    let n = cs.len();
    let mut k: usize = 0;
    while k < n && cs[k].is_whitespace()
        invariant
            cs@ == string@,
            n == cs@.len(),
            k <= n,
            forall|j: int| 0 <= j < k ==> is_white_space(cs@[j]),
        decreases n - k,
    {
        k = k + 1;
    }
    proof {
        lemma_white_run(string@, k as int);
    }
    let ghost t = trim_start(string@);
    assert(t == cs@.subrange(k as int, n as int));
    let mut token = String::new();
    let mut escaping = false;
    let mut quoting = false;
    let mut i: usize = k;
    while i < n
        invariant
            cs@ == string@,
            n == cs@.len(),
            k <= i <= n,
            t == cs@.subrange(k as int, n as int),
            t == trim_start(string@),
            scan_token(t, i - k, token@, escaping, quoting) == scan_token(t, 0, Seq::empty(), false, false),
        decreases n - i,
    {
        let c = cs[i];
        assert(t[i - k] == c);
        if escaping {
            escaping = false;
            token.push(c);
        } else if c == '\\' {
            escaping = true;
        } else if c == '"' {
            quoting = !quoting;
        } else if c == ' ' && !quoting {
            assert(scan_token(t, i - k, token@, escaping, quoting) == Some((token@, i - k)));
            let rest = string.substring_char(i, n);
            assert(rest@ == t.subrange(i - k, t.len() as int));
            return Some((token, rest));
        } else {
            token.push(c);
        }
        i = i + 1;
    }
    if token.as_str().is_empty() {
        None
    } else {
        let rest = string.substring_char(n, n);
        assert(rest@ == t.subrange(t.len() as int, t.len() as int));
        Some((token, rest))
    }
}

/// Whether the characters `cs` start with `p`.
pub fn has_prefix(cs: &Vec<char>, p: &str) -> (r: bool)
    ensures
        r == starts_with(cs@, p@),
{
    let ps = chars_of(p);
    if ps.len() > cs.len() {
        return false;
    }
    let mut i: usize = 0;
    while i < ps.len()
        invariant
            ps@ == p@,
            ps@.len() <= cs@.len(),
            i <= ps@.len(),
            forall|j: int| 0 <= j < i ==> cs@[j] == ps@[j],
        decreases ps@.len() - i,
    {
        if cs[i] != ps[i] {
            assert(cs@.subrange(0, ps@.len() as int)[i as int] != ps@[i as int]);
            return false;
        }
        i = i + 1;
    }
    assert(cs@.subrange(0, ps@.len() as int) =~= ps@);
    true
}

/// Whether two texts are the same.
pub fn same_text(a: &str, b: &str) -> (r: bool)
    ensures
        r == (a@ == b@),
{
    let xs = chars_of(a);
    let ys = chars_of(b);
    if xs.len() != ys.len() {
        return false;
    }
    let mut i: usize = 0;
    while i < xs.len()
        invariant
            xs@ == a@,
            ys@ == b@,
            xs@.len() == ys@.len(),
            i <= xs@.len(),
            forall|j: int| 0 <= j < i ==> xs@[j] == ys@[j],
        decreases xs@.len() - i,
    {
        if xs[i] != ys[i] {
            return false;
        }
        i = i + 1;
    }
    assert(xs@ =~= ys@);
    true
}

/// The text of `line` (whose characters are `cs`) from position `from` on,
/// without its leading and trailing whitespace.
pub fn trimmed_from<'a>(line: &'a str, cs: &Vec<char>, from: usize) -> (r: &'a str)
    requires
        cs@ == line@,
        from <= cs@.len(),
    ensures
        r@ == trim(line@.subrange(from as int, line@.len() as int)),
{
    let n = cs.len();
    let mut a: usize = from;
    while a < n && cs[a].is_whitespace()
        invariant
            cs@ == line@,
            n == cs@.len(),
            from <= a <= n,
            forall|j: int| from <= j < a ==> is_white_space(cs@[j]),
        decreases n - a,
    {
        a = a + 1;
    }
    let mut b: usize = n;
    while b > a && cs[b - 1].is_whitespace()
        invariant
            cs@ == line@,
            n == cs@.len(),
            a <= b <= n,
            forall|j: int| b <= j < n ==> is_white_space(cs@[j]),
        decreases b - a,
    {
        b = b - 1;
    }
    proof {
        let s = line@.subrange(from as int, n as int);
        assert forall|j: int| 0 <= j < a - from implies is_white_space(s[j]) by {
            assert(s[j] == cs@[from + j]);
        }
        if a < n {
            assert(s[a - from] == cs@[a as int]);
        }
        lemma_white_run(s, a - from);
        let t = trim_start(s);
        assert(t =~= cs@.subrange(a as int, n as int));
        assert forall|j: int| t.len() - (n - b) <= j < t.len() implies is_white_space(t[j]) by {
            assert(t[j] == cs@[a + j]);
        }
        if b > a {
            assert(t[t.len() - 1 - (n - b)] == cs@[b - 1]);
        }
        lemma_trailing_white(t, n - b);
        assert(trim(s) =~= cs@.subrange(a as int, b as int));
    }
    line.substring_char(a, b)
}

proof fn lemma_trailing_white(s: Seq<char>, m: int)
    requires
        0 <= m <= s.len(),
        forall|j: int| s.len() - m <= j < s.len() ==> is_white_space(s[j]),
        m == s.len() || !is_white_space(s[s.len() - 1 - m]),
    ensures
        trailing_white(s) == m,
    decreases m,
{
    if m > 0 {
        let t = s.drop_last();
        assert forall|j: int| t.len() - (m - 1) <= j < t.len() implies is_white_space(t[j]) by {
            assert(t[j] == s[j]);
        }
        if m - 1 < t.len() {
            assert(t[t.len() - 1 - (m - 1)] == s[s.len() - 1 - m]);
        }
        lemma_trailing_white(t, m - 1);
    }
}

/// Defanging collapses a leading run of `/` to exactly one `/` and keeps
/// what follows the run; text that does not start with `/` is unchanged.
pub proof fn collapse_markers_law(s: Seq<char>)
    ensures
        s.len() > 0 && s[0] == '/' ==> {
            let r = collapse_markers(s);
            &&& r.len() >= 1
            &&& r[0] == '/'
            &&& r.len() == 1 || r[1] != '/'
            &&& r.skip(1) == s.skip(marker_run(s) as int)
        },
        !(s.len() > 0 && s[0] == '/') ==> collapse_markers(s) == s,
{
    lemma_marker_run_facts(s);
    if s.len() > 0 && s[0] == '/' {
        let k = marker_run(s) as int;
        let r = collapse_markers(s);
        assert(r[0] == s[k - 1]);
        if r.len() > 1 {
            assert(r[1] == s[k]);
        }
        assert(r.skip(1) =~= s.skip(k));
    }
}

proof fn lemma_marker_run_facts(s: Seq<char>)
    ensures
        marker_run(s) <= s.len(),
        forall|j: int| 0 <= j < marker_run(s) ==> s[j] == '/',
        marker_run(s) < s.len() ==> s[marker_run(s) as int] != '/',
    decreases s.len(),
{
    if s.len() > 0 && s[0] == '/' {
        let t = s.drop_first();
        lemma_marker_run_facts(t);
        assert forall|j: int| 0 <= j < marker_run(s) implies s[j] == '/' by {
            if j > 0 {
                assert(s[j] == t[j - 1]);
            }
        }
        if marker_run(s) < s.len() {
            assert(s[marker_run(s) as int] == t[marker_run(t) as int]);
        }
    }
}

/// Text that is empty or all whitespace holds no token.
pub proof fn blank_has_no_token(s: Seq<char>)
    requires
        forall|i: int| 0 <= i < s.len() ==> is_white_space(s[i]),
    ensures
        split_token(s) is None,
{
    lemma_white_run(s, s.len() as int);
    assert(trim_start(s).len() == 0);
}

proof fn lemma_white_run(s: Seq<char>, k: int)
    requires
        0 <= k <= s.len(),
        forall|j: int| 0 <= j < k ==> is_white_space(s[j]),
        k == s.len() || !is_white_space(s[k]),
    ensures
        white_run(s) == k,
    decreases k,
{
    if k > 0 {
        let t = s.drop_first();
        assert forall|j: int| 0 <= j < k - 1 implies is_white_space(t[j]) by {
            assert(t[j] == s[j + 1]);
        }
        if k - 1 < t.len() {
            assert(t[k - 1] == s[k]);
        }
        lemma_white_run(t, k - 1);
    }
}

proof fn lemma_marker_run(s: Seq<char>, k: int)
    requires
        0 <= k <= s.len(),
        forall|j: int| 0 <= j < k ==> s[j] == '/',
        k == s.len() || s[k] != '/',
    ensures
        marker_run(s) == k,
    decreases k,
{
    if k > 0 {
        let t = s.drop_first();
        assert forall|j: int| 0 <= j < k - 1 implies t[j] == '/' by {
            assert(t[j] == s[j + 1]);
        }
        if k - 1 < t.len() {
            assert(t[k - 1] == s[k]);
        }
        lemma_marker_run(t, k - 1);
    }
}

} // verus!
