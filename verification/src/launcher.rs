//! Relaunching the installer on macOS with administrator rights: the
//! arguments it passes on to the elevated copy, how the elevated copy finds
//! the launcher's process, and the quoting of the command that macOS runs
//! elevated.
use vstd::prelude::*;
use crate::command::{push_text, texts, CommandSpec, Stdio};
use crate::text::{
    chars_of, decimal, decimal_chars, join, lemma_join_push, lemma_replace_char_absent,
    lemma_replace_char_concat, lemma_replace_char_single, parse_i32, parse_i32_range, push_range,
    push_str, replace_char, replace_char_chars, str_eq, string_of_all,
};

verus! {

broadcast use vstd::string::group_string_axioms;

// ---------------------------------------------------------------------
// Arguments passed on to the elevated copy
// ---------------------------------------------------------------------

/// `args` without each `--parent-pid` flag and the value after it.
pub open spec fn drop_parent_pid(args: Seq<Seq<char>>) -> Seq<Seq<char>>
    decreases args.len(),
{
    if args.len() == 0 {
        seq![]
    } else if args[0] == "--parent-pid"@ {
        if args.len() >= 2 {
            drop_parent_pid(args.skip(2))
        } else {
            seq![]
        }
    } else {
        seq![args[0]] + drop_parent_pid(args.drop_first())
    }
}

/// The arguments the installer was started with (after the program's
/// name), without the `--parent-pid` marks.
pub open spec fn launcher_args_of(raw: Seq<Seq<char>>) -> Seq<Seq<char>> {
    if raw.len() == 0 {
        seq![]
    } else {
        drop_parent_pid(raw.drop_first())
    }
}

/// The arguments to pass on to an elevated copy, from the process's
/// arguments `raw` (program name first).
pub fn get_launcher_args(raw: &Vec<String>) -> (r: Vec<String>)
    ensures
        texts(r) == launcher_args_of(texts(*raw)),
{
    let ghost all = texts(*raw);
    let mut out: Vec<String> = Vec::new();
    if raw.len() == 0 {
        assert(texts(out) =~= Seq::<Seq<char>>::empty());
        return out;
    }
    let mut i: usize = 1;
    assert(all.skip(1) =~= all.drop_first());
    while i < raw.len()
        invariant
            1 <= i <= raw.len(),
            all == texts(*raw),
            texts(out) + drop_parent_pid(all.skip(i as int)) == launcher_args_of(all),
        decreases raw.len() - i,
    {
        let ghost rest = all.skip(i as int);
        assert(rest[0] == raw@[i as int]@);
        if str_eq(raw[i].as_str(), "--parent-pid") {
            if i + 1 < raw.len() {
                assert(rest.skip(2) =~= all.skip(i + 2));
                i = i + 2;
            } else {
                assert(all.skip(i + 1) =~= Seq::<Seq<char>>::empty());
                assert(drop_parent_pid(Seq::<Seq<char>>::empty()) =~= Seq::<Seq<char>>::empty());
                assert(texts(out) + Seq::<Seq<char>>::empty() =~= texts(out));
                i = i + 1;
            }
        } else {
            let ghost before = texts(out);
            push_text(&mut out, raw[i].as_str());
            assert(rest.drop_first() =~= all.skip(i + 1));
            assert(before + drop_parent_pid(rest) =~= texts(out) + drop_parent_pid(
                all.skip(i + 1),
            ));
            i = i + 1;
        }
    }
    assert(all.skip(raw.len() as int) =~= Seq::<Seq<char>>::empty());
    assert(texts(out) + Seq::<Seq<char>>::empty() =~= texts(out));
    out
}

/// The first position of `t` in `ps`.
pub open spec fn position_of(ps: Seq<Seq<char>>, t: Seq<char>) -> Option<int>
    decreases ps.len(),
{
    if ps.len() == 0 {
        None
    } else if ps[0] == t {
        Some(0)
    } else {
        match position_of(ps.drop_first(), t) {
            Some(i) => Some(i + 1),
            None => None,
        }
    }
}

/// The launcher's process id: the argument after the first
/// `--parent-pid`, read as an `i32`.
pub open spec fn parent_pid_of(raw: Seq<Seq<char>>) -> Option<i32> {
    match position_of(raw, "--parent-pid"@) {
        Some(p) => if p + 1 < raw.len() {
            parse_i32(raw[p + 1])
        } else {
            None
        },
        None => None,
    }
}

pub fn get_parent_pid_from_args(raw: &Vec<String>) -> (r: Option<i32>)
    ensures
        r == parent_pid_of(texts(*raw)),
{
    let ghost all = texts(*raw);
    let mut i: usize = 0;
    assert(all.skip(0) =~= all);
    while i < raw.len()
        invariant
            i <= raw.len(),
            all == texts(*raw),
            position_of(all, "--parent-pid"@) == match position_of(
                all.skip(i as int),
                "--parent-pid"@,
            ) {
                Some(k) => Some(k + i),
                None => None,
            },
        decreases raw.len() - i,
    {
        let ghost rest = all.skip(i as int);
        assert(rest[0] == raw@[i as int]@);
        assert(rest.drop_first() =~= all.skip(i + 1));
        if str_eq(raw[i].as_str(), "--parent-pid") {
            if i + 1 < raw.len() {
                let v = chars_of(raw[i + 1].as_str());
                assert(v@.subrange(0, v.len() as int) =~= v@);
                return parse_i32_range(&v, 0, v.len());
            }
            return None;
        }
        i += 1;
    }
    assert(all.skip(i as int).len() == 0);
    None
}

// ---------------------------------------------------------------------
// Shell quoting
// ---------------------------------------------------------------------

/// The characters that stand for a `'` inside a single-quoted shell word:
/// close the quote, an escaped quote, reopen the quote.
pub open spec fn quote_escape() -> Seq<char> {
    seq!['\'', '\\', '\'', '\'']
}

/// `s` as one single-quoted shell word.
pub open spec fn shell_quote(s: Seq<char>) -> Seq<char> {
    seq!['\''] + replace_char(s, '\'', quote_escape()) + seq!['\'']
}

pub fn shell_quote_chars(s: &Vec<char>) -> (r: Vec<char>)
    ensures
        r@ == shell_quote(s@),
{
    let esc = vec!['\'', '\\', '\'', '\''];
    assert(esc@ =~= quote_escape());
    let body = replace_char_chars(s, '\'', &esc);
    let mut r: Vec<char> = vec!['\''];
    push_range(&mut r, &body, 0, body.len());
    r.push('\'');
    assert(body@.subrange(0, body.len() as int) =~= body@);
    assert(r@ =~= shell_quote(s@));
    r
}

/// The characters a POSIX shell gives a meaning to when they stand
/// unquoted in a word.
pub open spec fn shell_special(c: char) -> bool {
    ||| c == ' ' || c == '\t' || c == '\n'
    ||| c == '|' || c == '&' || c == ';' || c == '<' || c == '>' || c == '(' || c == ')'
    ||| c == '$' || c == '`' || c == '"' || c == '\'' || c == '\\'
    ||| c == '*' || c == '?' || c == '[' || c == '#' || c == '~'
}

/// The index of the first `'` of `s`, or `s.len()`.
pub open spec fn quote_index(s: Seq<char>) -> nat
    decreases s.len(),
{
    if s.len() == 0 || s[0] == '\'' {
        0
    } else {
        1 + quote_index(s.drop_first())
    }
}

/// How a POSIX shell reads one word from the front of `t`: the word's
/// value and the rest of `t`, which is empty or starts with a space. The
/// word is made of single-quoted parts, backslash-escaped characters and
/// ordinary characters; `None` where `t` holds anything else there (an
/// unclosed quote, or an unquoted character the shell would expand or
/// act on).
pub open spec fn read_word(t: Seq<char>) -> Option<(Seq<char>, Seq<char>)>
    decreases t.len(),
{
    if t.len() == 0 || t[0] == ' ' {
        Some((seq![], t))
    } else if t[0] == '\'' {
        let body = t.drop_first();
        let j = quote_index(body);
        if j >= body.len() {
            None
        } else {
            match read_word(body.skip(j + 1 as int)) {
                Some((w, r)) => Some((body.take(j as int) + w, r)),
                None => None,
            }
        }
    } else if t[0] == '\\' {
        if t.len() >= 2 && t[1] != '\n' {
            match read_word(t.skip(2)) {
                Some((w, r)) => Some((seq![t[1]] + w, r)),
                None => None,
            }
        } else {
            None
        }
    } else if shell_special(t[0]) {
        None
    } else {
        match read_word(t.drop_first()) {
            Some((w, r)) => Some((seq![t[0]] + w, r)),
            None => None,
        }
    }
}

/// The words a POSIX shell reads from a command line whose words are
/// separated by spaces.
pub open spec fn shell_words(t: Seq<char>) -> Option<Seq<Seq<char>>>
    decreases t.len(),
{
    if t.len() == 0 {
        Some(seq![])
    } else if t[0] == ' ' {
        shell_words(t.drop_first())
    } else {
        match read_word(t) {
            Some((w, r)) => if r.len() < t.len() {
                match shell_words(r) {
                    Some(ws) => Some(seq![w] + ws),
                    None => None,
                }
            } else {
                None
            },
            None => None,
        }
    }
}

/// The command line made of the words `ps`, each single-quoted.
pub open spec fn shell_join(ps: Seq<Seq<char>>) -> Seq<char> {
    join(ps.map_values(|p: Seq<char>| shell_quote(p)), seq![' '])
}

proof fn lemma_quote_index(s: Seq<char>)
    ensures
        quote_index(s) <= s.len(),
        quote_index(s) < s.len() ==> s[quote_index(s) as int] == '\'',
        forall|i: int| 0 <= i < quote_index(s) ==> s[i] != '\'',
    decreases s.len(),
{
    if s.len() > 0 && s[0] != '\'' {
        lemma_quote_index(s.drop_first());
        assert forall|i: int| 0 <= i < quote_index(s) implies s[i] != '\'' by {
            if i > 0 {
                assert(s[i] == s.drop_first()[i - 1]);
            }
        }
    }
}

proof fn lemma_quote_index_prefix(a: Seq<char>, c: Seq<char>)
    requires
        !a.contains('\''),
    ensures
        quote_index(a + seq!['\''] + c) == a.len(),
    decreases a.len(),
{
    let t = a + seq!['\''] + c;
    if a.len() == 0 {
        assert(t[0] == '\'');
    } else {
        assert(t[0] == a[0]);
        assert(a[0] != '\'') by {
            if a[0] == '\'' {
                assert(a.contains('\''));
            }
        }
        assert(!a.drop_first().contains('\'')) by {
            if a.drop_first().contains('\'') {
                let k = choose|k: int| 0 <= k < a.drop_first().len() && a.drop_first()[k] == '\'';
                assert(a[k + 1] == '\'');
            }
        }
        lemma_quote_index_prefix(a.drop_first(), c);
        assert(t.drop_first() =~= a.drop_first() + seq!['\''] + c);
    }
}

proof fn lemma_read_quoted(a: Seq<char>, tail: Seq<char>)
    requires
        !a.contains('\''),
    ensures
        read_word(seq!['\''] + a + seq!['\''] + tail) == match read_word(tail) {
            Some((w, r)) => Some((a + w, r)),
            None => None,
        },
{
    let t = seq!['\''] + a + seq!['\''] + tail;
    let body = t.drop_first();
    assert(t[0] == '\'');
    assert(body =~= a + seq!['\''] + tail);
    lemma_quote_index_prefix(a, tail);
    assert(body.skip(a.len() + 1 as int) =~= tail);
    assert(body.take(a.len() as int) =~= a);
}

proof fn lemma_read_escaped_quote(x: Seq<char>)
    ensures
        read_word(seq!['\\', '\''] + x) == match read_word(x) {
            Some((w, r)) => Some((seq!['\''] + w, r)),
            None => None,
        },
{
    let t = seq!['\\', '\''] + x;
    assert(t[0] == '\\');
    assert(t[1] == '\'');
    assert(t.skip(2) =~= x);
}

/// A shell reads back exactly the word that `shell_quote` made, whatever
/// follows it after a space.
pub proof fn law_shell_quote_reads_back(s: Seq<char>, rest: Seq<char>)
    requires
        rest.len() == 0 || rest[0] == ' ',
    ensures
        read_word(shell_quote(s) + rest) == Some((s, rest)),
    decreases s.len(),
{
    let q = '\'';
    let j = quote_index(s);
    lemma_quote_index(s);
    assert(read_word(rest) == Some((Seq::<char>::empty(), rest)));
    if j >= s.len() {
        assert(!s.contains(q)) by {
            if s.contains(q) {
                let k = choose|k: int| 0 <= k < s.len() && s[k] == q;
                assert(s[k] != q);
            }
        }
        lemma_replace_char_absent(s, q, quote_escape());
        assert(shell_quote(s) + rest =~= seq![q] + s + seq![q] + rest);
        lemma_read_quoted(s, rest);
        assert(s + Seq::<char>::empty() =~= s);
    } else {
        let a = s.take(j as int);
        let b = s.skip(j + 1 as int);
        assert(s =~= a + seq![q] + b);
        assert(!a.contains(q)) by {
            if a.contains(q) {
                let k = choose|k: int| 0 <= k < a.len() && a[k] == q;
                assert(s[k] == q);
            }
        }
        lemma_replace_char_concat(a + seq![q], b, q, quote_escape());
        lemma_replace_char_concat(a, seq![q], q, quote_escape());
        lemma_replace_char_absent(a, q, quote_escape());
        lemma_replace_char_single(q, q, quote_escape());
        let eb = replace_char(b, q, quote_escape());
        assert(replace_char(s, q, quote_escape()) == a + quote_escape() + eb);
        let tail = seq!['\\', q] + (shell_quote(b) + rest);
        assert(shell_quote(s) + rest =~= seq![q] + a + seq![q] + tail);
        law_shell_quote_reads_back(b, rest);
        lemma_read_escaped_quote(shell_quote(b) + rest);
        lemma_read_quoted(a, tail);
        assert(a + (seq![q] + b) =~= s);
    }
}

/// A shell reads back the list of words that `shell_join` put on one
/// command line.
pub proof fn law_shell_join_reads_back(ps: Seq<Seq<char>>)
    ensures
        shell_words(shell_join(ps)) == Some(ps),
    decreases ps.len(),
{
    let qs = ps.map_values(|p: Seq<char>| shell_quote(p));
    if ps.len() == 0 {
        assert(qs.len() == 0);
        assert(ps =~= Seq::<Seq<char>>::empty());
    } else {
        let p0 = ps[0];
        let t = shell_join(ps);
        assert(qs[0] == shell_quote(p0));
        let r: Seq<char> = if ps.len() == 1 {
            seq![]
        } else {
            seq![' '] + shell_join(ps.drop_first())
        };
        if ps.len() == 1 {
            assert(t == shell_quote(p0));
            assert(t =~= shell_quote(p0) + r);
        } else {
            assert(qs.drop_first() =~= ps.drop_first().map_values(|p: Seq<char>| shell_quote(p)));
            assert(t =~= shell_quote(p0) + r);
        }
        law_shell_quote_reads_back(p0, r);
        assert(t[0] == '\'');
        assert(r.len() < t.len());
        if ps.len() == 1 {
            assert(shell_words(r) == Some(Seq::<Seq<char>>::empty()));
            assert(seq![p0] + Seq::<Seq<char>>::empty() =~= ps);
        } else {
            law_shell_join_reads_back(ps.drop_first());
            assert(r.drop_first() =~= shell_join(ps.drop_first()));
            assert(seq![p0] + ps.drop_first() =~= ps);
        }
    }
}

/// The texts held by a list of character vectors.
pub open spec fn char_vecs(v: Vec<Vec<char>>) -> Seq<Seq<char>> {
    v@.map_values(|x: Vec<char>| x@)
}

/// `shell_join` of the texts in `parts`.
pub fn shell_join_chars(parts: &Vec<Vec<char>>) -> (r: Vec<char>)
    ensures
        r@ == shell_join(char_vecs(*parts)),
{
    let ghost ps = char_vecs(*parts);
    let mut r: Vec<char> = Vec::new();
    let mut i: usize = 0;
    while i < parts.len()
        invariant
            i <= parts.len(),
            ps == char_vecs(*parts),
            r@ == shell_join(ps.take(i as int)),
        decreases parts.len() - i,
    {
        let ghost before = ps.take(i as int);
        let quoted = shell_quote_chars(&parts[i]);
        assert(parts[i as int]@ == ps[i as int]);
        if i > 0 {
            r.push(' ');
        }
        push_range(&mut r, &quoted, 0, quoted.len());
        assert(quoted@.subrange(0, quoted.len() as int) =~= quoted@);
        proof {
            let f = |p: Seq<char>| shell_quote(p);
            assert(ps.take(i + 1) =~= before.push(ps[i as int]));
            assert(ps.take(i + 1).map_values(f) =~= before.map_values(f).push(shell_quote(ps[i as int])));
            lemma_join_push(before.map_values(f), seq![' '], shell_quote(ps[i as int]));
            if i > 0 {
                assert(r@ =~= shell_join(before) + seq![' '] + shell_quote(ps[i as int]));
            } else {
                assert(r@ =~= shell_quote(ps[i as int]));
            }
        }
        i += 1;
    }
    assert(ps.take(parts.len() as int) =~= ps);
    r
}

// ---------------------------------------------------------------------
// AppleScript string literals
// ---------------------------------------------------------------------

/// `t` as the inside of an AppleScript string literal: `\` and `"` are
/// escaped with a backslash.
pub open spec fn applescript_escape(t: Seq<char>) -> Seq<char> {
    replace_char(replace_char(t, '\\', seq!['\\', '\\']), '"', seq!['\\', '"'])
}

/// The text an AppleScript string literal with inside `u` stands for,
/// where `u` uses only the escapes `\\` and `\"`; `None` where it holds an
/// unescaped `"` (which would end the literal) or another escape.
pub open spec fn applescript_unescape(u: Seq<char>) -> Option<Seq<char>>
    decreases u.len(),
{
    if u.len() == 0 {
        Some(seq![])
    } else if u[0] == '\\' {
        if u.len() >= 2 && (u[1] == '\\' || u[1] == '"') {
            match applescript_unescape(u.skip(2)) {
                Some(w) => Some(seq![u[1]] + w),
                None => None,
            }
        } else {
            None
        }
    } else if u[0] == '"' {
        None
    } else {
        match applescript_unescape(u.drop_first()) {
            Some(w) => Some(seq![u[0]] + w),
            None => None,
        }
    }
}

/// An escaped text stands, in an AppleScript string literal, for the text
/// itself.
pub proof fn law_applescript_escape_reads_back(t: Seq<char>)
    ensures
        applescript_unescape(applescript_escape(t)) == Some(t),
    decreases t.len(),
{
    if t.len() == 0 {
        assert(applescript_escape(t) =~= Seq::<char>::empty());
    } else {
        let c = t[0];
        let rest = t.drop_first();
        assert(t =~= seq![c] + rest);
        let bs = seq!['\\', '\\'];
        let dq = seq!['\\', '"'];
        lemma_replace_char_concat(seq![c], rest, '\\', bs);
        lemma_replace_char_single(c, '\\', bs);
        let inner_c = if c == '\\' {
            bs
        } else {
            seq![c]
        };
        lemma_replace_char_concat(inner_c, replace_char(rest, '\\', bs), '"', dq);
        let outer_c = replace_char(inner_c, '"', dq);
        if c == '\\' {
            assert(!bs.contains('"')) by {
                if bs.contains('"') {
                    let k = choose|k: int| 0 <= k < bs.len() && bs[k] == '"';
                    assert(bs[k] == '\\');
                }
            }
            lemma_replace_char_absent(bs, '"', dq);
        } else {
            lemma_replace_char_single(c, '"', dq);
        }
        let e = applescript_escape(t);
        let er = applescript_escape(rest);
        assert(e == outer_c + er);
        law_applescript_escape_reads_back(rest);
        if c == '\\' {
            assert(outer_c =~= seq!['\\', '\\']);
            assert(e.skip(2) =~= er);
        } else if c == '"' {
            assert(outer_c =~= seq!['\\', '"']);
            assert(e.skip(2) =~= er);
        } else {
            assert(outer_c =~= seq![c]);
            assert(e.drop_first() =~= er);
        }
        assert(seq![c] + rest =~= t);
    }
}

/// `applescript_escape(t)`.
pub fn applescript_escape_chars(t: &Vec<char>) -> (r: Vec<char>)
    ensures
        r@ == applescript_escape(t@),
{
    let bs = vec!['\\', '\\'];
    let dq = vec!['\\', '"'];
    assert(bs@ =~= seq!['\\', '\\']);
    assert(dq@ =~= seq!['\\', '"']);
    let once = replace_char_chars(t, '\\', &bs);
    replace_char_chars(&once, '"', &dq)
}

// ---------------------------------------------------------------------
// Relaunching on macOS
// ---------------------------------------------------------------------

/// The words of the elevated command: the executable, the launcher mark
/// (as one word, `--parent-pid <pid>`), and the arguments passed on.
pub open spec fn macos_relaunch_words(exe: Seq<char>, launcher_pid: u32, args: Seq<Seq<char>>) -> Seq<
    Seq<char>,
> {
    seq![exe, "--parent-pid "@ + decimal(launcher_pid as nat)] + args
}

/// The shell command macOS runs elevated: keep `HOME`, then run the
/// relaunch words through `sh -c`.
pub open spec fn macos_shell_command(
    exe: Seq<char>,
    launcher_pid: u32,
    args: Seq<Seq<char>>,
    home: Seq<char>,
) -> Seq<char> {
    "export HOME="@ + shell_quote(home) + ";"@ + " sh -c "@ + shell_quote(
        shell_join(macos_relaunch_words(exe, launcher_pid, args)),
    )
}

/// The AppleScript that runs `macos_shell_command` with administrator
/// privileges.
pub open spec fn macos_script(
    exe: Seq<char>,
    launcher_pid: u32,
    args: Seq<Seq<char>>,
    home: Seq<char>,
) -> Seq<char> {
    "do shell script \""@ + applescript_escape(macos_shell_command(exe, launcher_pid, args, home))
        + "\" with administrator privileges"@
}

/// The `osascript` command that relaunches the installer elevated on
/// macOS.
pub fn osascript_command(exe: &str, launcher_pid: u32, args: &Vec<String>, home: &str) -> (r:
    CommandSpec)
    ensures
        r.program@ == "osascript"@,
        texts(r.args) == seq!["-e"@, macos_script(exe@, launcher_pid, texts(*args), home@)],
        crate::command::text_pairs(r.envs).len() == 0,
        r.stdin == Stdio::Inherit,
        r.stdout == Stdio::Inherit,
        r.stderr == Stdio::Inherit,
{
    // the relaunch words
    let mut words: Vec<Vec<char>> = Vec::new();
    words.push(chars_of(exe));
    let mut mark = chars_of("--parent-pid ");
    let pid = decimal_chars(launcher_pid);
    push_range(&mut mark, &pid, 0, pid.len());
    assert(pid@.subrange(0, pid.len() as int) =~= pid@);
    words.push(mark);
    let mut i: usize = 0;
    assert(char_vecs(words) =~= seq![exe@, "--parent-pid "@ + decimal(launcher_pid as nat)]
        + texts(*args).take(0));
    while i < args.len()
        invariant
            i <= args.len(),
            char_vecs(words) == seq![exe@, "--parent-pid "@ + decimal(launcher_pid as nat)]
                + texts(*args).take(i as int),
        decreases args.len() - i,
    {
        let ghost before = char_vecs(words);
        words.push(chars_of(args[i].as_str()));
        assert(char_vecs(words) =~= before.push(args@[i as int]@));
        assert(texts(*args).take(i + 1) =~= texts(*args).take(i as int).push(args@[i as int]@));
        i += 1;
    }
    assert(texts(*args).take(args.len() as int) =~= texts(*args));
    let joined = shell_join_chars(&words);
    let inner = shell_quote_chars(&joined);
    // export HOME='...'; sh -c '...'
    let mut cmd = chars_of("export HOME=");
    let h = chars_of(home);
    let qh = shell_quote_chars(&h);
    push_range(&mut cmd, &qh, 0, qh.len());
    push_str(&mut cmd, ";");
    push_str(&mut cmd, " sh -c ");
    push_range(&mut cmd, &inner, 0, inner.len());
    assert(qh@.subrange(0, qh.len() as int) =~= qh@);
    assert(inner@.subrange(0, inner.len() as int) =~= inner@);
    assert(cmd@ =~= macos_shell_command(exe@, launcher_pid, texts(*args), home@));
    let escaped = applescript_escape_chars(&cmd);
    let mut script = chars_of("do shell script \"");
    push_range(&mut script, &escaped, 0, escaped.len());
    push_str(&mut script, "\" with administrator privileges");
    assert(escaped@.subrange(0, escaped.len() as int) =~= escaped@);
    assert(script@ =~= macos_script(exe@, launcher_pid, texts(*args), home@));
    let script_s = string_of_all(&script);
    let mut cargs: Vec<String> = Vec::new();
    push_text(&mut cargs, "-e");
    push_text(&mut cargs, script_s.as_str());
    assert(texts(cargs) =~= seq!["-e"@, macos_script(exe@, launcher_pid, texts(*args), home@)]);
    let envs: Vec<(String, String)> = Vec::new();
    assert(crate::command::text_pairs(envs).len() == 0);
    CommandSpec {
        program: "osascript".to_owned(),
        args: cargs,
        envs,
        stdin: Stdio::Inherit,
        stdout: Stdio::Inherit,
        stderr: Stdio::Inherit,
    }
}

// ---------------------------------------------------------------------
// Laws of the relaunch protocol
// ---------------------------------------------------------------------

proof fn lemma_position_after_unmarked(a: Seq<Seq<char>>, b: Seq<Seq<char>>, t: Seq<char>)
    requires
        !a.contains(t),
    ensures
        position_of(a + seq![t] + b, t) == Some(a.len() as int),
        !b.contains(t) ==> position_of(a + b, t) is None,
    decreases a.len(),
{
    if a.len() == 0 {
        assert(a + seq![t] + b =~= seq![t] + b);
        assert(a + b =~= b);
        lemma_position_absent(b, t);
    } else {
        assert(a[0] != t);
        assert(!a.drop_first().contains(t)) by {
            if a.drop_first().contains(t) {
                let k = choose|k: int| 0 <= k < a.drop_first().len() && a.drop_first()[k] == t;
                assert(a[k + 1] == t);
            }
        }
        lemma_position_after_unmarked(a.drop_first(), b, t);
        assert((a + seq![t] + b).drop_first() =~= a.drop_first() + seq![t] + b);
        assert((a + b).drop_first() =~= a.drop_first() + b);
        assert((a + seq![t] + b)[0] == a[0]);
        assert((a + b)[0] == a[0]);
    }
}

proof fn lemma_position_absent(b: Seq<Seq<char>>, t: Seq<char>)
    ensures
        !b.contains(t) ==> position_of(b, t) is None,
    decreases b.len(),
{
    if b.len() > 0 && !b.contains(t) {
        assert(b[0] != t);
        assert(!b.drop_first().contains(t)) by {
            if b.drop_first().contains(t) {
                let k = choose|k: int| 0 <= k < b.drop_first().len() && b.drop_first()[k] == t;
                assert(b[k + 1] == t);
            }
        }
        lemma_position_absent(b.drop_first(), t);
    }
}

/// The launcher's process id is read from the argument that follows the
/// first `--parent-pid`, wherever it stands; with no `--parent-pid` there
/// is none.
pub proof fn law_parent_pid_after_mark(
    a: Seq<Seq<char>>,
    pid: Seq<char>,
    b: Seq<Seq<char>>,
)
    ensures
        !a.contains("--parent-pid"@) ==> parent_pid_of(a + seq!["--parent-pid"@, pid] + b)
            == parse_i32(pid),
        !a.contains("--parent-pid"@) ==> parent_pid_of(a + seq!["--parent-pid"@]) is None,
        !a.contains("--parent-pid"@) ==> parent_pid_of(a) is None,
{
    let m = "--parent-pid"@;
    if !a.contains(m) {
        lemma_position_after_unmarked(a, seq![pid] + b, m);
        assert(a + seq![m] + (seq![pid] + b) =~= a + seq![m, pid] + b);
        let raw = a + seq![m, pid] + b;
        assert(raw[a.len() + 1 as int] == pid);
        lemma_position_after_unmarked(a, Seq::<Seq<char>>::empty(), m);
        assert(a + seq![m] + Seq::<Seq<char>>::empty() =~= a + seq![m]);
        lemma_position_absent(a, m);
    }
}

proof fn lemma_drop_mark_after_unmarked(a: Seq<Seq<char>>, pid: Seq<char>, b: Seq<Seq<char>>)
    requires
        !a.contains("--parent-pid"@),
    ensures
        drop_parent_pid(a + seq!["--parent-pid"@, pid] + b) == a + drop_parent_pid(b),
    decreases a.len(),
{
    let m = "--parent-pid"@;
    if a.len() == 0 {
        let s = a + seq![m, pid] + b;
        assert(s =~= seq![m, pid] + b);
        assert(s.skip(2) =~= b);
        assert(a + drop_parent_pid(b) =~= drop_parent_pid(b));
    } else {
        assert(a[0] != m);
        assert(!a.drop_first().contains(m)) by {
            if a.drop_first().contains(m) {
                let k = choose|k: int| 0 <= k < a.drop_first().len() && a.drop_first()[k] == m;
                assert(a[k + 1] == m);
            }
        }
        lemma_drop_mark_after_unmarked(a.drop_first(), pid, b);
        let s = a + seq![m, pid] + b;
        assert(s[0] == a[0]);
        assert(s.drop_first() =~= a.drop_first() + seq![m, pid] + b);
        assert(seq![a[0]] + (a.drop_first() + drop_parent_pid(b)) =~= a + drop_parent_pid(b));
    }
}

/// The arguments passed on are those the installer got after its name,
/// unchanged when they hold no `--parent-pid`, and otherwise without the
/// `--parent-pid` mark and the value after it.
pub proof fn law_launcher_args_drop_mark(
    exe: Seq<char>,
    a: Seq<Seq<char>>,
    pid: Seq<char>,
    b: Seq<Seq<char>>,
)
    ensures
        !a.contains("--parent-pid"@) ==> launcher_args_of(seq![exe] + a) == a,
        (!a.contains("--parent-pid"@) && !b.contains("--parent-pid"@)) ==> launcher_args_of(
            seq![exe] + a + seq!["--parent-pid"@, pid] + b,
        ) == a + b,
{
    let m = "--parent-pid"@;
    if !a.contains(m) {
        assert((seq![exe] + a).drop_first() =~= a);
        lemma_drop_unmarked(a);
        if !b.contains(m) {
            let raw = seq![exe] + a + seq![m, pid] + b;
            assert(raw.drop_first() =~= a + seq![m, pid] + b);
            lemma_drop_mark_after_unmarked(a, pid, b);
            lemma_drop_unmarked(b);
        }
    }
}

/// The arguments passed on never hold a `--parent-pid` mark.
pub proof fn law_passed_args_unmarked(args: Seq<Seq<char>>)
    ensures
        !drop_parent_pid(args).contains("--parent-pid"@),
    decreases args.len(),
{
    if args.len() == 0 {
    } else if args[0] == "--parent-pid"@ {
        if args.len() >= 2 {
            law_passed_args_unmarked(args.skip(2));
        }
    } else {
        law_passed_args_unmarked(args.drop_first());
        let r = drop_parent_pid(args);
        assert(r == seq![args[0]] + drop_parent_pid(args.drop_first()));
        if r.contains("--parent-pid"@) {
            let k = choose|k: int| 0 <= k < r.len() && r[k] == "--parent-pid"@;
            if k > 0 {
                assert(drop_parent_pid(args.drop_first())[k - 1] == "--parent-pid"@);
            }
        }
    }
}


proof fn lemma_drop_unmarked(args: Seq<Seq<char>>)
    requires
        !args.contains("--parent-pid"@),
    ensures
        drop_parent_pid(args) == args,
    decreases args.len(),
{
    if args.len() > 0 {
        assert(args[0] != "--parent-pid"@);
        assert(!args.drop_first().contains("--parent-pid"@)) by {
            if args.drop_first().contains("--parent-pid"@) {
                let k = choose|k: int|
                    0 <= k < args.drop_first().len() && args.drop_first()[k] == "--parent-pid"@;
                assert(args[k + 1] == "--parent-pid"@);
            }
        }
        lemma_drop_unmarked(args.drop_first());
        assert(seq![args[0]] + args.drop_first() =~= args);
    }
}

/// Removing the `--parent-pid` marks twice removes no more than once.
pub proof fn law_drop_parent_pid_idempotent(args: Seq<Seq<char>>)
    ensures
        drop_parent_pid(drop_parent_pid(args)) == drop_parent_pid(args),
{
    law_passed_args_unmarked(args);
    lemma_drop_unmarked(drop_parent_pid(args));
}

/// The AppleScript literal in `macos_script` stands for
/// `macos_shell_command`, whose `sh -c` argument a shell reads back as
/// exactly the relaunch words.
pub proof fn law_macos_relaunch_reads_back(
    exe: Seq<char>,
    launcher_pid: u32,
    args: Seq<Seq<char>>,
    home: Seq<char>,
)
    ensures
        applescript_unescape(
            applescript_escape(macos_shell_command(exe, launcher_pid, args, home)),
        ) == Some(macos_shell_command(exe, launcher_pid, args, home)),
        read_word(shell_quote(shell_join(macos_relaunch_words(exe, launcher_pid, args)))) == Some(
            (shell_join(macos_relaunch_words(exe, launcher_pid, args)), Seq::<char>::empty()),
        ),
        shell_words(shell_join(macos_relaunch_words(exe, launcher_pid, args))) == Some(
            macos_relaunch_words(exe, launcher_pid, args),
        ),
{
    law_applescript_escape_reads_back(macos_shell_command(exe, launcher_pid, args, home));
    let j = shell_join(macos_relaunch_words(exe, launcher_pid, args));
    law_shell_quote_reads_back(j, Seq::<char>::empty());
    assert(shell_quote(j) + Seq::<char>::empty() =~= shell_quote(j));
    law_shell_join_reads_back(macos_relaunch_words(exe, launcher_pid, args));
}

} // verus!
