//! Signals that a line is a shell command: a heredoc operator, and the
//! words that mark a PowerShell invocation.
use vstd::prelude::*;

use crate::shell::quotes::{
    delim_end, delim_end_exec, find_from, find_from_exec, is_delim_char, is_heredoc_delimiter_char,
    quote_step, quote_step_exec, QuoteState,
};
use crate::text::{
    ascii_lower_seq, ascii_lowercase, contains_at, contains_seq, ends_with, ends_with_at,
    is_whitespace, is_ws, total_len, views,
};

verus! {

/// The scan for a heredoc operator from index `i` in quote state `st`.
pub open spec fn heredoc_op_scan(c: Seq<char>, i: int, st: QuoteState) -> bool
    decreases c.len() - i,
{
    if i < 0 || i + 1 >= c.len() {
        false
    } else if !st.0 && !st.1 && c[i] == '<' && c[i + 1] == '<' {
        if i > 0 && !is_ws(c[i - 1]) {
            heredoc_op_scan(c, i + 2, st)
        } else {
            let j = if i + 2 < c.len() && c[i + 2] == '-' {
                i + 3
            } else {
                i + 2
            };
            if j >= c.len() {
                false
            } else if is_ws(c[j]) {
                heredoc_op_scan(c, i + 2, st)
            } else if c[j] == '\'' || c[j] == '"' {
                if find_from(c, j + 1, c[j]) > j + 2 {
                    true
                } else {
                    heredoc_op_scan(c, i + 1, st)
                }
            } else if is_delim_char(c[j]) {
                if delim_end(c, j) - j >= 2 {
                    true
                } else {
                    heredoc_op_scan(c, i + 1, st)
                }
            } else {
                heredoc_op_scan(c, i + 1, st)
            }
        }
    } else {
        heredoc_op_scan(c, i + 1, quote_step(st, c[i]))
    }
}

/// Whether `line` holds a heredoc operator outside quotes: `<<` (or `<<-`) at
/// the start of a word, directly followed by a quoted word or a bare word of at
/// least two delimiter characters.
pub open spec fn has_heredoc_op(line: Seq<char>) -> bool {
    heredoc_op_scan(line, 0, (false, false, false))
}

pub fn has_heredoc_operator(chars: &[char]) -> (r: bool)
    ensures
        r == has_heredoc_op(chars@),
{
    let mut st: QuoteState = (false, false, false);
    let mut i: usize = 0;
    while chars.len() > 0 && i < chars.len() - 1
        invariant
            i <= chars@.len() + 1,
            heredoc_op_scan(chars@, i as int, st) == has_heredoc_op(chars@),
        decreases chars.len() + 1 - i,
    {
        let (ins, ind, _esc) = st;
        if !ins && !ind && chars[i] == '<' && chars[i + 1] == '<' {
            if i > 0 && !is_whitespace(chars[i - 1]) {
                i = i + 2;
                continue;
            }
            let mut j = i + 2;
            if j < chars.len() && chars[j] == '-' {
                j = j + 1;
            }
            if j >= chars.len() {
                return false;
            }
            let next = chars[j];
            if is_whitespace(next) {
                i = i + 2;
                continue;
            }
            if next == '\'' || next == '"' {
                let e = find_from_exec(chars, j + 1, next);
                if e - j > 2 {
                    return true;
                }
            } else if is_heredoc_delimiter_char(next) {
                let e = delim_end_exec(chars, j);
                if e - j >= 2 {
                    return true;
                }
            }
            i = i + 1;
        } else {
            st = quote_step_exec(st, chars[i]);
            i = i + 1;
        }
    }
    false
}

// ---------------------------------------------------------------------------
// Tokens of a command line
// ---------------------------------------------------------------------------

/// The tokens still to come from index `i`, with `cur` the token being built
/// and `ins`/`ind` whether the scan is inside single/double quotes.
pub open spec fn tok_scan(c: Seq<char>, i: int, cur: Seq<char>, ins: bool, ind: bool) -> Seq<
    Seq<char>,
>
    decreases c.len() - i,
{
    if i < 0 || i >= c.len() {
        if cur.len() > 0 {
            seq![cur]
        } else {
            Seq::<Seq<char>>::empty()
        }
    } else {
        let ch = c[i];
        if ins {
            if ch == '\'' {
                tok_scan(c, i + 1, cur, false, ind)
            } else {
                tok_scan(c, i + 1, cur.push(ch), true, ind)
            }
        } else if ind {
            if ch == '"' {
                tok_scan(c, i + 1, cur, ins, false)
            } else if ch == '\\' && i + 1 < c.len() && c[i + 1] == '"' {
                tok_scan(c, i + 2, cur.push('"'), ins, true)
            } else {
                tok_scan(c, i + 1, cur.push(ch), ins, true)
            }
        } else if is_ws(ch) {
            if cur.len() > 0 {
                seq![cur] + tok_scan(c, i + 1, Seq::<char>::empty(), ins, ind)
            } else {
                tok_scan(c, i + 1, cur, ins, ind)
            }
        } else if ch == '\'' {
            tok_scan(c, i + 1, cur, true, ind)
        } else if ch == '"' {
            tok_scan(c, i + 1, cur, ins, true)
        } else {
            tok_scan(c, i + 1, cur.push(ch), ins, ind)
        }
    }
}

/// The words of a command line: runs of non-white-space characters, where
/// quotes group characters (white space included) and are themselves dropped,
/// and `\"` inside double quotes stands for `"`.
pub open spec fn command_tokens(line: Seq<char>) -> Seq<Seq<char>> {
    tok_scan(line, 0, Seq::<char>::empty(), false, false)
}

pub fn tokenize_command_like(line: &[char]) -> (r: Vec<Vec<char>>)
    ensures
        views(r@) == command_tokens(line@),
{
    let mut tokens: Vec<Vec<char>> = Vec::new();
    let mut current: Vec<char> = Vec::new();
    let mut in_single = false;
    let mut in_double = false;
    let mut i: usize = 0;
    while i < line.len()
        invariant
            i <= line@.len() + 1,
            views(tokens@) + tok_scan(line@, i as int, current@, in_single, in_double)
                == command_tokens(line@),
        decreases line.len() + 1 - i,
    {
        let ch = line[i];
        let ghost before = views(tokens@);
        if in_single {
            if ch == '\'' {
                in_single = false;
            } else {
                current.push(ch);
            }
            i = i + 1;
            continue;
        }
        if in_double {
            if ch == '"' {
                in_double = false;
                i = i + 1;
            } else if ch == '\\' && i + 1 < line.len() && line[i + 1] == '"' {
                current.push('"');
                i = i + 2;
            } else {
                current.push(ch);
                i = i + 1;
            }
            continue;
        }
        if is_whitespace(ch) {
            if current.len() > 0 {
                let ghost tok = current@;
                tokens.push(current);
                current = Vec::new();
                assert(views(tokens@) =~= before.push(tok));
                assert(views(tokens@) + tok_scan(line@, i + 1, current@, in_single, in_double)
                    =~= before + (seq![tok] + tok_scan(
                    line@,
                    i + 1,
                    Seq::<char>::empty(),
                    in_single,
                    in_double,
                )));
            }
            i = i + 1;
            continue;
        }
        if ch == '\'' {
            in_single = true;
        } else if ch == '"' {
            in_double = true;
        } else {
            current.push(ch);
        }
        i = i + 1;
    }
    if current.len() > 0 {
        let ghost before = views(tokens@);
        let ghost tok = current@;
        tokens.push(current);
        assert(views(tokens@) =~= before + seq![tok]);
    } else {
        assert(views(tokens@) =~= views(tokens@) + Seq::<Seq<char>>::empty());
    }
    tokens
}

// ---------------------------------------------------------------------------
// PowerShell signals
// ---------------------------------------------------------------------------

pub open spec fn lit_powershell_exe() -> Seq<char> {
    seq!['p', 'o', 'w', 'e', 'r', 's', 'h', 'e', 'l', 'l', '.', 'e', 'x', 'e']
}

pub open spec fn lit_pwsh() -> Seq<char> {
    seq!['p', 'w', 's', 'h']
}

pub open spec fn lit_pwsh_exe() -> Seq<char> {
    seq!['p', 'w', 's', 'h', '.', 'e', 'x', 'e']
}

pub open spec fn lit_backslash_pwsh() -> Seq<char> {
    seq!['\\', 'p', 'w', 's', 'h']
}

pub open spec fn lit_noprofile() -> Seq<char> {
    seq!['-', 'n', 'o', 'p', 'r', 'o', 'f', 'i', 'l', 'e']
}

pub open spec fn lit_command() -> Seq<char> {
    seq!['-', 'c', 'o', 'm', 'm', 'a', 'n', 'd']
}

/// Score, "names powershell.exe" and "names pwsh" over the tokens `toks`,
/// each token compared in ASCII lower case.
pub open spec fn ps_fold(toks: Seq<Seq<char>>) -> (nat, bool, bool)
    decreases toks.len(),
{
    if toks.len() == 0 {
        (0, false, false)
    } else {
        let prev = ps_fold(toks.drop_last());
        let n = ascii_lower_seq(toks.last());
        (
            prev.0 + (if n == lit_noprofile() {
                2nat
            } else {
                0
            }) + (if n == lit_command() {
                2nat
            } else {
                0
            }),
            prev.1 || contains_seq(n, lit_powershell_exe()),
            prev.2 || n == lit_pwsh() || contains_seq(n, lit_pwsh_exe()) || ends_with(
                n,
                lit_backslash_pwsh(),
            ),
        )
    }
}

/// How strongly `line` looks like a PowerShell invocation: 2 for each
/// `-NoProfile` and each `-Command` token, and 3 if a token names
/// `powershell.exe` or `pwsh`.
pub open spec fn ps_signal(line: Seq<char>) -> nat {
    let f = ps_fold(command_tokens(line));
    f.0 + if f.1 || f.2 {
        3nat
    } else {
        0
    }
}

/// The tokens of a scan hold no more characters than the rest of the line and
/// the token being built.
pub proof fn lemma_tok_scan_total(c: Seq<char>, i: int, cur: Seq<char>, ins: bool, ind: bool)
    requires
        0 <= i,
    ensures
        total_len(tok_scan(c, i, cur, ins, ind)) <= (if i < c.len() {
            c.len() - i
        } else {
            0
        }) + cur.len(),
    decreases c.len() - i,
{
    if i >= c.len() {
        if cur.len() > 0 {
            let t = seq![cur];
            assert(t.drop_last().len() == 0);
            assert(total_len(t.drop_last()) == 0);
        }
    } else {
        let ch = c[i];
        if ins {
            if ch == '\'' {
                lemma_tok_scan_total(c, i + 1, cur, false, ind);
            } else {
                lemma_tok_scan_total(c, i + 1, cur.push(ch), true, ind);
            }
        } else if ind {
            if ch == '"' {
                lemma_tok_scan_total(c, i + 1, cur, ins, false);
            } else if ch == '\\' && i + 1 < c.len() && c[i + 1] == '"' {
                lemma_tok_scan_total(c, i + 2, cur.push('"'), ins, true);
            } else {
                lemma_tok_scan_total(c, i + 1, cur.push(ch), ins, true);
            }
        } else if is_ws(ch) {
            if cur.len() > 0 {
                let rest = tok_scan(c, i + 1, Seq::<char>::empty(), ins, ind);
                lemma_tok_scan_total(c, i + 1, Seq::<char>::empty(), ins, ind);
                let all = seq![cur] + rest;
                assert(all.drop_first() =~= rest);
                assert(all[0] == cur);
                crate::text::lemma_total_len_drop_first(all);
            } else {
                lemma_tok_scan_total(c, i + 1, cur, ins, ind);
            }
        } else if ch == '\'' {
            lemma_tok_scan_total(c, i + 1, cur, true, ind);
        } else if ch == '"' {
            lemma_tok_scan_total(c, i + 1, cur, ins, true);
        } else {
            lemma_tok_scan_total(c, i + 1, cur.push(ch), ins, ind);
        }
    }
}

/// Each point of the score comes from a token of at least eight characters,
/// two points a token.
pub proof fn lemma_ps_fold_quarter(toks: Seq<Seq<char>>)
    ensures
        4 * ps_fold(toks).0 <= total_len(toks),
    decreases toks.len(),
{
    if toks.len() > 0 {
        lemma_ps_fold_quarter(toks.drop_last());
        let n = ascii_lower_seq(toks.last());
        assert(n.len() == toks.last().len());
        if n == lit_noprofile() {
            assert(n.len() == 10);
        }
        if n == lit_command() {
            assert(n.len() == 8);
        }
    }
}

/// The PowerShell signal of a line is at most a quarter of its length, plus
/// three.
pub proof fn lemma_ps_signal_le(l: Seq<char>)
    ensures
        4 * ps_signal(l) <= l.len() + 12,
{
    lemma_tok_scan_total(l, 0, Seq::<char>::empty(), false, false);
    lemma_ps_fold_quarter(command_tokens(l));
}

fn seq_eq_lit(a: &[char], b: &[char]) -> (r: bool)
    ensures
        r == (a@ == b@),
{
    if a.len() != b.len() {
        return false;
    }
    let mut i: usize = 0;
    while i < a.len()
        invariant
            a@.len() == b@.len(),
            i <= a@.len(),
            forall|k: int| 0 <= k < i ==> a@[k] == b@[k],
        decreases a.len() - i,
    {
        if a[i] != b[i] {
            return false;
        }
        i = i + 1;
    }
    assert(a@ =~= b@);
    true
}

pub fn powershell_signal_score(line: &[char]) -> (r: usize)
    ensures
        r == ps_signal(line@),
{
    let tokens = tokenize_command_like(line);
    proof {
        lemma_tok_scan_total(line@, 0, Seq::<char>::empty(), false, false);
    }
    let powershell_exe: [char; 14] = [
        'p', 'o', 'w', 'e', 'r', 's', 'h', 'e', 'l', 'l', '.', 'e', 'x', 'e',
    ];
    let pwsh: [char; 4] = ['p', 'w', 's', 'h'];
    let pwsh_exe: [char; 8] = ['p', 'w', 's', 'h', '.', 'e', 'x', 'e'];
    let backslash_pwsh: [char; 5] = ['\\', 'p', 'w', 's', 'h'];
    let noprofile: [char; 10] = ['-', 'n', 'o', 'p', 'r', 'o', 'f', 'i', 'l', 'e'];
    let command: [char; 8] = ['-', 'c', 'o', 'm', 'm', 'a', 'n', 'd'];
    assert(powershell_exe@ =~= lit_powershell_exe());
    assert(pwsh@ =~= lit_pwsh());
    assert(pwsh_exe@ =~= lit_pwsh_exe());
    assert(backslash_pwsh@ =~= lit_backslash_pwsh());
    assert(noprofile@ =~= lit_noprofile());
    assert(command@ =~= lit_command());
    let ghost toks = views(tokens@);
    assert(line@.len() == line.len());
    let mut score: usize = 0;
    let mut saw_exe = false;
    let mut saw_pwsh = false;
    let mut i: usize = 0;
    while i < tokens.len()
        invariant
            toks == views(tokens@),
            toks == command_tokens(line@),
            total_len(toks) <= line@.len(),
            line@.len() <= usize::MAX,
            i <= toks.len(),
            powershell_exe@ == lit_powershell_exe(),
            pwsh@ == lit_pwsh(),
            pwsh_exe@ == lit_pwsh_exe(),
            backslash_pwsh@ == lit_backslash_pwsh(),
            noprofile@ == lit_noprofile(),
            command@ == lit_command(),
            (score as nat, saw_exe, saw_pwsh) == ps_fold(toks.subrange(0, i as int)),
        decreases tokens.len() - i,
    {
        let normalized = ascii_lowercase(tokens[i].as_slice());
        let n = normalized.as_slice();
        assert(toks.subrange(0, i + 1).drop_last() =~= toks.subrange(0, i as int));
        assert(toks.subrange(0, i + 1).last() == tokens@[i as int]@);
        proof {
            lemma_ps_fold_quarter(toks.subrange(0, i + 1));
            crate::text::lemma_total_len_prefix(toks, i + 1);
        }
        assert(4 * ps_fold(toks.subrange(0, i + 1)).0 <= usize::MAX);
        if contains_at(n, &powershell_exe) {
            saw_exe = true;
        }
        if seq_eq_lit(n, &pwsh) || contains_at(n, &pwsh_exe) || ends_with_at(n, &backslash_pwsh) {
            saw_pwsh = true;
        }
        if seq_eq_lit(n, &noprofile) {
            score = score + 2;
        }
        if seq_eq_lit(n, &command) {
            score = score + 2;
        }
        i = i + 1;
    }
    assert(toks.subrange(0, toks.len() as int) =~= toks);
    proof {
        lemma_ps_fold_quarter(toks);
    }
    assert(4 * score <= usize::MAX);
    if saw_exe || saw_pwsh {
        score = score + 3;
    }
    score
}

} // verus!
