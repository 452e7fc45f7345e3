//! The file that lists the commands of the bot: one per line, the command,
//! a space, then its description.
use vstd::prelude::*;
use vstd::string::StrSliceExecFns;

use crate::text::{chars_of, trim, trimmed_from};

verus! {

/// Why a commands file was refused.
#[derive(Debug, PartialEq, Eq)]
pub enum CommandFileError {
    /// The file lists no command.
    FileEmpty,
    /// The line with this number (counted from one) is not a command, a space
    /// and a description, both non-empty once trimmed.
    InvalidCommandLine(usize),
}

/// The number of characters of `s` before its first newline.
pub open spec fn line_len(s: Seq<char>) -> nat
    decreases s.len(),
{
    if s.len() > 0 && s[0] != '\n' {
        1 + line_len(s.drop_first())
    } else {
        0
    }
}

/// `l` without one carriage return at its end.
pub open spec fn strip_return(l: Seq<char>) -> Seq<char> {
    if l.len() > 0 && l.last() == '\r' {
        l.drop_last()
    } else {
        l
    }
}

/// The lines of `s`: cut at each newline, without a carriage return before
/// it; a newline at the very end starts no further line.
pub open spec fn text_lines(s: Seq<char>) -> Seq<Seq<char>>
    decreases s.len(),
{
    if s.len() == 0 {
        Seq::empty()
    } else {
        let k = line_len(s) as int;
        if k < s.len() {
            seq![strip_return(s.take(k))] + text_lines(s.skip(k + 1))
        } else {
            seq![s]
        }
    }
}

/// The number of characters of `l` before its first space.
pub open spec fn space_at(l: Seq<char>) -> nat
    decreases l.len(),
{
    if l.len() > 0 && l[0] != ' ' {
        1 + space_at(l.drop_first())
    } else {
        0
    }
}

/// The command and description of a line, each trimmed: what comes before
/// and after its first space, where it has one and neither is empty.
pub open spec fn command_entry(l: Seq<char>) -> Option<(Seq<char>, Seq<char>)> {
    let k = space_at(l) as int;
    if k < l.len() {
        let command = trim(l.take(k));
        let description = trim(l.skip(k + 1));
        if command.len() > 0 && description.len() > 0 {
            Some((command, description))
        } else {
            None
        }
    } else {
        None
    }
}

/// The entries of `lines` from position `i` on, or the number (counted from
/// one) of the first line that is not an entry.
pub open spec fn entries_from(lines: Seq<Seq<char>>, i: int) -> Result<
    Seq<(Seq<char>, Seq<char>)>,
    nat,
>
    decreases lines.len() - i,
{
    if i >= lines.len() || i < 0 {
        Ok(Seq::empty())
    } else {
        match command_entry(lines[i]) {
            None => Err((i + 1) as nat),
            Some(e) => match entries_from(lines, i + 1) {
                Ok(rest) => Ok(seq![e] + rest),
                Err(n) => Err(n),
            },
        }
    }
}

/// What a commands file holds: its entries in order, the number of its first
/// bad line, or nothing at all.
pub open spec fn commands_of(s: Seq<char>) -> Result<Seq<(Seq<char>, Seq<char>)>, Option<nat>> {
    match entries_from(text_lines(s), 0) {
        Err(n) => Err(Some(n)),
        Ok(entries) => if entries.len() == 0 {
            Err(None)
        } else {
            Ok(entries)
        },
    }
}

/// The views of a list of commands.
pub open spec fn entries_view(v: Seq<(String, String)>) -> Seq<(Seq<char>, Seq<char>)> {
    v.map_values(|e: (String, String)| (e.0@, e.1@))
}

proof fn lemma_run_until(s: Seq<char>, k: int, stop: char)
    requires
        0 <= k <= s.len(),
        forall|j: int| 0 <= j < k ==> s[j] != stop,
        k == s.len() || s[k] == stop,
    ensures
        stop == '\n' ==> line_len(s) == k,
        stop == ' ' ==> space_at(s) == k,
    decreases k,
{
    if k > 0 {
        let t = s.drop_first();
        assert forall|j: int| 0 <= j < k - 1 implies t[j] != stop by {
            assert(t[j] == s[j + 1]);
        }
        if k - 1 < t.len() {
            assert(t[k - 1] == s[k]);
        }
        lemma_run_until(t, k - 1, stop);
    }
}

/// Cuts a text into its lines.
pub fn split_lines(s: &str) -> (r: Vec<String>)
    ensures
        r@.map_values(|l: String| l@) == text_lines(s@),
{
    let cs = chars_of(s);
    let n = cs.len();
    let mut r: Vec<String> = Vec::new();
    let mut start: usize = 0;
    assert(cs@.skip(0) =~= cs@);
    assert(r@.map_values(|l: String| l@) + text_lines(s@) =~= text_lines(s@));
    while start < n
        invariant
            cs@ == s@,
            n == cs@.len(),
            start <= n,
            r@.map_values(|l: String| l@) + text_lines(cs@.skip(start as int)) == text_lines(s@),
        decreases n - start,
    {
        let mut k: usize = start;
        while k < n && cs[k] != '\n'
            invariant
                n == cs@.len(),
                start <= k <= n,
                forall|j: int| start <= j < k ==> cs@[j] != '\n',
            decreases n - k,
        {
            k = k + 1;
        }
        let ghost rest = cs@.skip(start as int);
        proof {
            assert forall|j: int| 0 <= j < k - start implies rest[j] != '\n' by {
                assert(rest[j] == cs@[start + j]);
            }
            if k < n {
                assert(rest[k - start] == cs@[k as int]);
            }
            lemma_run_until(rest, k - start, '\n');
        }
        let mut end: usize = k;
        if k < n && k > start && cs[k - 1] == '\r' {
            end = k - 1;
        }
        let mut line = String::new();
        let mut i: usize = start;
        while i < end
            invariant
                n == cs@.len(),
                start <= i <= end <= k <= n,
                line@ == cs@.subrange(start as int, i as int),
            decreases end - i,
        {
            line.push(cs[i]);
            assert(cs@.subrange(start as int, i + 1) =~= cs@.subrange(start as int, i as int).push(
                cs@[i as int],
            ));
            i = i + 1;
        }
        let ghost before = r@;
        proof {
            if k < n {
                assert(line@ =~= strip_return(rest.take(k - start)));
                assert(rest.skip(k - start + 1) =~= cs@.skip(k + 1));
            } else {
                assert(line@ =~= rest);
                assert(cs@.skip(n as int) =~= Seq::<char>::empty());
            }
        }
        r.push(line);
        proof {
            assert(r@.map_values(|l: String| l@) =~= before.map_values(|l: String| l@) + seq![line@]);
        }
        if k < n {
            start = k + 1;
        } else {
            start = n;
        }
        proof {
            assert(r@.map_values(|l: String| l@) + text_lines(cs@.skip(start as int)) =~= before.map_values(
                |l: String| l@,
            ) + text_lines(rest));
        }
    }
    proof {
        assert(cs@.skip(start as int) =~= Seq::<char>::empty());
        assert(r@.map_values(|l: String| l@) =~= r@.map_values(|l: String| l@) + text_lines(
            cs@.skip(start as int),
        ));
    }
    r
}

/// Reads a commands file: each line is a command, a space and a
/// description. The first line that is not refuses the file with its number;
/// a file without lines is refused as empty.
pub fn parse_commands(text: &str) -> (r: Result<Vec<(String, String)>, CommandFileError>)
    ensures
        match r {
            Ok(entries) => commands_of(text@) == Ok::<_, Option<nat>>(entries_view(entries@)),
            Err(CommandFileError::InvalidCommandLine(n)) => commands_of(text@) == Err::<
                Seq<(Seq<char>, Seq<char>)>,
                _,
            >(Some(n as nat)),
            Err(CommandFileError::FileEmpty) => commands_of(text@) == Err::<
                Seq<(Seq<char>, Seq<char>)>,
                Option<nat>,
            >(None),
        },
{
    let lines = split_lines(text);
    let ghost ls = text_lines(text@);
    let mut entries: Vec<(String, String)> = Vec::new();
    let mut i: usize = 0;
    while i < lines.len()
        invariant
            lines@.map_values(|l: String| l@) == ls,
            ls == text_lines(text@),
            i <= lines@.len(),
            entries@.len() == i,
            entries_from(ls, 0) == match entries_from(ls, i as int) {
                Ok(rest) => Ok(entries_view(entries@) + rest),
                Err(n) => Err(n),
            },
        decreases lines@.len() - i,
    {
        let line = lines[i].as_str();
        assert(line@ == ls[i as int]);
        let cs = chars_of(line);
        let mut k: usize = 0;
        while k < cs.len() && cs[k] != ' '
            invariant
                k <= cs@.len(),
                forall|j: int| 0 <= j < k ==> cs@[j] != ' ',
            decreases cs@.len() - k,
        {
            k = k + 1;
        }
        proof {
            lemma_run_until(cs@, k as int, ' ');
        }
        if k == cs.len() {
            assert(command_entry(ls[i as int]) is None);
            assert(entries_from(ls, i as int) == Err::<Seq<(Seq<char>, Seq<char>)>, nat>((i + 1) as nat));
            return Err(CommandFileError::InvalidCommandLine(i + 1));
        }
        let head = line.substring_char(0, k);
        let head_cs = chars_of(head);
        let command = trimmed_from(head, &head_cs, 0);
        let description = trimmed_from(line, &cs, k + 1);
        proof {
            assert(head@.subrange(0, head@.len() as int) =~= line@.take(k as int));
            assert(line@.subrange(k + 1, line@.len() as int) =~= line@.skip(k + 1));
        }
        if command.unicode_len() == 0 || description.unicode_len() == 0 {
            assert(command_entry(ls[i as int]) is None);
            assert(entries_from(ls, i as int) == Err::<Seq<(Seq<char>, Seq<char>)>, nat>((i + 1) as nat));
            return Err(CommandFileError::InvalidCommandLine(i + 1));
        }
        let ghost before = entries@;
        entries.push((command.to_owned(), description.to_owned()));
        proof {
            assert(entries_view(entries@) =~= entries_view(before) + seq![(command@, description@)]);
            match entries_from(ls, i + 1) {
                Ok(rest) => {
                    assert(entries_view(entries@) + rest =~= entries_view(before) + (seq![
                        (command@, description@),
                    ] + rest));
                },
                Err(_) => {},
            }
        }
        i = i + 1;
    }
    if entries.len() == 0 {
        return Err(CommandFileError::FileEmpty);
    }
    assert(entries_view(entries@) + Seq::empty() =~= entries_view(entries@));
    Ok(entries)
}

} // verus!
