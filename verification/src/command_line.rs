//! Windows command lines: arguments quoted so that the program reads them back.

use crate::process::CommandSpec;
use crate::text::{chars_of, ends_with, starts_with, strings};
use vstd::prelude::*;
use vstd::string::StringExecFns;

verus! {

/// So many backslashes.
pub open spec fn backslashes(n: int) -> Seq<char> {
    Seq::new(
        if n < 0 {
            0
        } else {
            n as nat
        },
        |i: int| '\\',
    )
}

/// Whether an argument has to be quoted: it is empty, or holds a blank or a quote.
pub open spec fn needs_quotes(argument: Seq<char>) -> bool {
    argument.len() == 0 || exists|i: int|
        0 <= i < argument.len() && (#[trigger] argument[i] == ' ' || argument[i] == '\t'
            || argument[i] == '"')
}

/// A run of backslashes in front of the closing quote is made even, so that it does not escape
/// the quote.
pub open spec fn closing_run(n: int) -> int {
    n + n % 2
}

/// What stands between the quotes, given how many backslashes were read and not yet written.
pub open spec fn quoted_rest(rest: Seq<char>, pending: int) -> Seq<char>
    decreases rest.len(),
{
    if rest.len() == 0 {
        backslashes(closing_run(pending))
    } else if rest[0] == '\\' {
        quoted_rest(rest.skip(1), pending + 1)
    } else if rest[0] == '"' {
        backslashes(2 * pending + 1) + seq!['"'] + quoted_rest(rest.skip(1), 0)
    } else {
        backslashes(pending) + seq![rest[0]] + quoted_rest(rest.skip(1), 0)
    }
}

/// An argument as it stands on a command line.
pub open spec fn quoted(argument: Seq<char>) -> Seq<char> {
    if needs_quotes(argument) {
        seq!['"'] + quoted_rest(argument, 0) + seq!['"']
    } else {
        argument
    }
}

fn push_backslashes(out: &mut String, n: usize)
    ensures
        final(out)@ == old(out)@ + backslashes(n as int),
{
    let ghost before = out@;
    let mut i: usize = 0;
    assert(out@ =~= before + backslashes(0));
    while i < n
        invariant
            i <= n,
            out@ == before + backslashes(i as int),
        decreases n - i,
    {
        out.push('\\');
        i += 1;
        assert(out@ =~= before + backslashes(i as int));
    }
}

/// Quotes an argument where it needs it. Backslashes stay as they are, but in front of a quote
/// they are doubled, and the quote is escaped.
pub fn quote_windows_command_line_argument(argument: &str) -> (r: String)
    ensures
        r@ == quoted(argument@),
{
    let chars = chars_of(argument);
    let total: usize = chars.len();
    let mut plain = total > 0;
    let mut i: usize = 0;
    while i < total
        invariant
            i <= total,
            total == chars@.len(),
            plain <==> total > 0 && forall|j: int|
                0 <= j < i ==> #[trigger] chars@[j] != ' ' && chars@[j] != '\t' && chars@[j] != '"',
        decreases total - i,
    {
        if chars[i] == ' ' || chars[i] == '\t' || chars[i] == '"' {
            plain = false;
            proof {
                let c = chars@[i as int];
                assert(!(c != ' ' && c != '\t' && c != '"'));
            }
        }
        i += 1;
    }
    if plain {
        return argument.to_owned();
    }
    let ghost all = chars@;
    let mut out = String::new();
    out.push('"');
    let mut pending: usize = 0;
    let mut k: usize = 0;
    assert(all.skip(0) =~= all);
    assert(out@ =~= seq!['"']);
    assert(needs_quotes(all));
    while k < total
        invariant
            k <= total,
            total == chars@.len(),
            all == chars@,
            all == argument@,
            pending <= k,
            total <= usize::MAX,
            out@ + quoted_rest(all.skip(k as int), pending as int) == seq!['"'] + quoted_rest(
                all,
                0,
            ),
        decreases total - k,
    {
        let c = chars[k];
        let ghost before = out@;
        let ghost rest = all.skip(k as int);
        let ghost held = pending as int;
        assert(rest.skip(1) =~= all.skip(k + 1));
        if c == '\\' {
            pending += 1;
        } else {
            if c == '"' {
                push_backslashes(&mut out, pending);
                push_backslashes(&mut out, pending);
                out.push('\\');
                assert(out@ =~= before + backslashes(2 * pending + 1));
            } else {
                push_backslashes(&mut out, pending);
            }
            out.push(c);
            pending = 0;
            assert(out@ + quoted_rest(all.skip(k + 1), 0) =~= before + quoted_rest(
                rest,
                held,
            ));
        }
        k += 1;
    }
    push_backslashes(&mut out, pending);
    if pending % 2 == 1 {
        out.push('\\');
    }
    out.push('"');
    assert(out@ =~= seq!['"'] + quoted_rest(all, 0) + seq!['"']);
    out
}

/// What a program reads of the characters behind an opening quote, given how many backslashes it
/// has just read: before a quote two backslashes stand for one, and one that is left over escapes
/// the quote.
pub open spec fn read_rest(rest: Seq<char>, pending: int) -> Seq<char>
    decreases rest.len(),
{
    if rest.len() == 0 {
        backslashes(pending)
    } else if rest[0] == '\\' {
        read_rest(rest.skip(1), pending + 1)
    } else if rest[0] == '"' {
        if pending % 2 == 1 {
            backslashes(pending / 2) + seq!['"'] + read_rest(rest.skip(1), 0)
        } else {
            backslashes(pending / 2)
        }
    } else {
        backslashes(pending) + seq![rest[0]] + read_rest(rest.skip(1), 0)
    }
}

proof fn lemma_read_backslashes(n: int, rest: Seq<char>, pending: int)
    requires
        0 <= n,
    ensures
        read_rest(backslashes(n) + rest, pending) == read_rest(rest, pending + n),
    decreases n,
{
    if n == 0 {
        assert(backslashes(0) + rest =~= rest);
    } else {
        let all = backslashes(n) + rest;
        assert(all[0] == '\\');
        assert(all.skip(1) =~= backslashes(n - 1) + rest);
        lemma_read_backslashes(n - 1, rest, pending + 1);
    }
}

/// Whether a text ends in two backslashes or more.
pub open spec fn ends_in_backslashes(s: Seq<char>) -> bool {
    s.len() >= 2 && s.last() == '\\' && s[s.len() - 2] == '\\'
}

proof fn lemma_quoted_reads_back(rest: Seq<char>, pending: int)
    requires
        0 <= pending,
        !ends_in_backslashes(backslashes(pending) + rest),
    ensures
        read_rest(quoted_rest(rest, pending) + seq!['"'], 0) == backslashes(pending) + rest,
    decreases rest.len(),
{
    let line = quoted_rest(rest, pending) + seq!['"'];
    let whole = backslashes(pending) + rest;
    if rest.len() == 0 {
        if pending >= 2 {
            assert(whole.last() == '\\' && whole[whole.len() - 2] == '\\');
        }
        lemma_read_backslashes(2 * pending, seq!['"'], 0);
        assert(line =~= backslashes(2 * pending) + seq!['"']);
        assert(read_rest(line, 0) =~= whole);
    } else {
        let tail = rest.skip(1);
        assert(tail =~= whole.skip(whole.len() - tail.len()));
        if rest[0] == '\\' {
            assert(backslashes(pending + 1) + tail =~= whole);
            lemma_quoted_reads_back(tail, pending + 1);
        } else if rest[0] == '"' {
            lemma_tail_ends_alike(whole, tail);
            lemma_quoted_reads_back(tail, 0);
            let after = seq!['"'] + (quoted_rest(tail, 0) + seq!['"']);
            assert(line =~= backslashes(2 * pending + 1) + after);
            lemma_read_backslashes(2 * pending + 1, after, 0);
            assert(after.skip(1) =~= quoted_rest(tail, 0) + seq!['"']);
            assert((2 * pending + 1) / 2 == pending);
            assert(read_rest(line, 0) =~= backslashes(pending) + rest);
        } else {
            lemma_tail_ends_alike(whole, tail);
            lemma_quoted_reads_back(tail, 0);
            let after = seq![rest[0]] + (quoted_rest(tail, 0) + seq!['"']);
            assert(line =~= backslashes(pending) + after);
            lemma_read_backslashes(pending, after, 0);
            assert(after.skip(1) =~= quoted_rest(tail, 0) + seq!['"']);
            assert(read_rest(line, 0) =~= backslashes(pending) + rest);
        }
    }
}

proof fn lemma_tail_ends_alike(whole: Seq<char>, tail: Seq<char>)
    requires
        !ends_in_backslashes(whole),
        tail.len() < whole.len(),
        tail == whole.skip(whole.len() - tail.len()),
    ensures
        !ends_in_backslashes(backslashes(0) + tail),
{
    assert(backslashes(0) + tail =~= tail);
    if tail.len() >= 2 {
        assert(tail.last() == whole.last());
        assert(tail[tail.len() - 2] == whole[whole.len() - 2]);
    }
}

/// A quoted argument that does not end in two backslashes or more is read back as it was.
pub proof fn quoted_argument_reads_back(argument: Seq<char>)
    requires
        needs_quotes(argument),
        !ends_in_backslashes(argument),
    ensures
        quoted(argument)[0] == '"',
        read_rest(quoted(argument).skip(1), 0) == argument,
{
    assert(backslashes(0) + argument =~= argument);
    lemma_quoted_reads_back(argument, 0);
    assert(quoted(argument).skip(1) =~= quoted_rest(argument, 0) + seq!['"']);
}

/// The first `n` arguments, quoted and put behind the program with a blank before each.
pub open spec fn command_line(program: Seq<char>, args: Seq<Seq<char>>, n: int) -> Seq<char>
    decreases n,
{
    if n <= 0 {
        quoted(program)
    } else {
        command_line(program, args, n - 1) + " "@ + quoted(args[n - 1])
    }
}

/// The command line of a program and its arguments.
pub fn windows_command_line(spec: &CommandSpec) -> (r: String)
    ensures
        r@ == command_line(spec.program@, strings(spec.args@), spec.args@.len() as int),
{
    let mut out = quote_windows_command_line_argument(spec.program.as_str());
    let mut i: usize = 0;
    while i < spec.args.len()
        invariant
            i <= spec.args@.len(),
            out@ == command_line(spec.program@, strings(spec.args@), i as int),
        decreases spec.args@.len() - i,
    {
        assert(strings(spec.args@)[i as int] == spec.args@[i as int]@);
        out.append(" ");
        let argument = quote_windows_command_line_argument(spec.args[i].as_str());
        out.append(argument.as_str());
        i += 1;
    }
    out
}

/// The command line is the quoted program and the quoted arguments, in their order and with one blank
/// between each two.
pub proof fn command_lines_keep_their_arguments(program: Seq<char>, args: Seq<Seq<char>>, n: int)
    requires
        0 <= n <= args.len(),
    ensures
        n == 0 ==> command_line(program, args, n) == quoted(program),
        n > 0 ==> command_line(program, args, n) == command_line(program, args, n - 1) + seq![' ']
            + quoted(args[n - 1]),
        n > 0 ==> starts_with(command_line(program, args, n), quoted(program)),
        n > 0 ==> ends_with(command_line(program, args, n), seq![' '] + quoted(args[n - 1])),
    decreases n,
{
    if n > 0 {
        reveal_strlit(" ");
        assert(" "@ =~= seq![' ']);
        command_lines_keep_their_arguments(program, args, n - 1);
        let before = command_line(program, args, n - 1);
        let all = command_line(program, args, n);
        let tail = seq![' '] + quoted(args[n - 1]);
        assert(all =~= before + tail);
        assert(all.skip(all.len() - tail.len()) =~= tail);
        let p = quoted(program);
        if n == 1 {
            assert(before == p);
        }
        assert(before.take(p.len() as int) =~= p);
        assert(all.take(p.len() as int) =~= before.take(p.len() as int));
    }
}

} // verus!
