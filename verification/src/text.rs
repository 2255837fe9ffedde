//! Text primitives over character sequences: the meaning of `trim`,
//! `lines`, `split_whitespace`, `find`, `replace` and friends, stated as
//! spec functions over `Seq<char>`, with verified executable versions that
//! work on ranges of a `Vec<char>`.
use vstd::prelude::*;

verus! {

broadcast use vstd::string::group_string_axioms;

// ---------------------------------------------------------------------
// Character classes
// ---------------------------------------------------------------------

/// Unicode `White_Space` (the property behind `char::is_whitespace`).
pub open spec fn is_whitespace(c: char) -> bool {
    ||| ('\u{9}' <= c && c <= '\u{d}')
    ||| c == ' '
    ||| c == '\u{85}'
    ||| c == '\u{a0}'
    ||| c == '\u{1680}'
    ||| ('\u{2000}' <= c && c <= '\u{200a}')
    ||| c == '\u{2028}'
    ||| c == '\u{2029}'
    ||| c == '\u{202f}'
    ||| c == '\u{205f}'
    ||| c == '\u{3000}'
}

pub fn char_is_whitespace(c: char) -> (r: bool)
    ensures
        r == is_whitespace(c),
{
    ('\u{9}' <= c && c <= '\u{d}') || c == ' ' || c == '\u{85}' || c == '\u{a0}' || c
        == '\u{1680}' || ('\u{2000}' <= c && c <= '\u{200a}') || c == '\u{2028}' || c
        == '\u{2029}' || c == '\u{202f}' || c == '\u{205f}' || c == '\u{3000}'
}

pub open spec fn is_ascii_digit(c: char) -> bool {
    '0' <= c && c <= '9'
}

pub fn char_is_ascii_digit(c: char) -> (r: bool)
    ensures
        r == is_ascii_digit(c),
{
    '0' <= c && c <= '9'
}

pub open spec fn is_ascii_alphanumeric(c: char) -> bool {
    is_ascii_digit(c) || ('a' <= c && c <= 'z') || ('A' <= c && c <= 'Z')
}

pub fn char_is_ascii_alphanumeric(c: char) -> (r: bool)
    ensures
        r == is_ascii_alphanumeric(c),
{
    ('0' <= c && c <= '9') || ('a' <= c && c <= 'z') || ('A' <= c && c <= 'Z')
}

/// Whether some character of `s` is an ASCII digit.
pub open spec fn has_ascii_digit(s: Seq<char>) -> bool {
    exists|i: int| 0 <= i < s.len() && #[trigger] is_ascii_digit(s[i])
}

// ---------------------------------------------------------------------
// Conversions between `str`/`String` and `Vec<char>`
// ---------------------------------------------------------------------

/// The characters of `s`, in order.
pub fn chars_of(s: &str) -> (v: Vec<char>)
    ensures
        v@ == s@,
{
    let mut v: Vec<char> = Vec::new();
    for c in it: s.chars()
        invariant
            v@ == it.seq().take(it.index() as int),
            it.seq() == s@,
    {
        v.push(c);
    }
    v
}

/// `String::push`: appends one character.
#[verifier::external_body]
fn push_char(s: &mut String, c: char)
    ensures
        final(s)@ == old(s)@.push(c),
{
    s.push(c);
}

/// The string made of `v[lo..hi]`.
pub fn string_of(v: &Vec<char>, lo: usize, hi: usize) -> (r: String)
    requires
        lo <= hi <= v.len(),
    ensures
        r@ == v@.subrange(lo as int, hi as int),
{
    let mut r = String::new();
    let mut i = lo;
    while i < hi
        invariant
            lo <= i <= hi <= v.len(),
            r@ == v@.subrange(lo as int, i as int),
        decreases hi - i,
    {
        push_char(&mut r, v[i]);
        assert(v@.subrange(lo as int, i + 1) =~= v@.subrange(lo as int, i as int).push(v@[i as int]));
        i += 1;
    }
    r
}

/// The string made of all of `v`.
pub fn string_of_all(v: &Vec<char>) -> (r: String)
    ensures
        r@ == v@,
{
    let r = string_of(v, 0, v.len());
    assert(v@.subrange(0, v.len() as int) =~= v@);
    r
}

/// Appends the characters of `s` to `out`.
pub fn push_str(out: &mut Vec<char>, s: &str)
    ensures
        final(out)@ == old(out)@ + s@,
{
    let cs = chars_of(s);
    let ghost start = out@;
    let mut i: usize = 0;
    while i < cs.len()
        invariant
            i <= cs.len(),
            cs@ == s@,
            out@ == start + cs@.take(i as int),
        decreases cs.len() - i,
    {
        out.push(cs[i]);
        assert(cs@.take(i + 1) =~= cs@.take(i as int).push(cs@[i as int]));
        i += 1;
    }
    assert(cs@.take(cs.len() as int) =~= cs@);
}

/// Appends `v[lo..hi]` to `out`.
pub fn push_range(out: &mut Vec<char>, v: &Vec<char>, lo: usize, hi: usize)
    requires
        lo <= hi <= v.len(),
    ensures
        final(out)@ == old(out)@ + v@.subrange(lo as int, hi as int),
{
    let ghost start = out@;
    let mut i = lo;
    while i < hi
        invariant
            lo <= i <= hi <= v.len(),
            out@ == start + v@.subrange(lo as int, i as int),
        decreases hi - i,
    {
        out.push(v[i]);
        assert(v@.subrange(lo as int, i + 1) =~= v@.subrange(lo as int, i as int).push(
            v@[i as int],
        ));
        i += 1;
    }
}

// ---------------------------------------------------------------------
// Trimming
// ---------------------------------------------------------------------

/// `s` without its leading whitespace.
pub open spec fn trim_start(s: Seq<char>) -> Seq<char>
    decreases s.len(),
{
    if s.len() > 0 && is_whitespace(s[0]) {
        trim_start(s.drop_first())
    } else {
        s
    }
}

/// `s` without its trailing whitespace.
pub open spec fn trim_end(s: Seq<char>) -> Seq<char>
    decreases s.len(),
{
    if s.len() > 0 && is_whitespace(s.last()) {
        trim_end(s.drop_last())
    } else {
        s
    }
}

/// `str::trim`: `s` without leading and trailing whitespace.
pub open spec fn trim(s: Seq<char>) -> Seq<char> {
    trim_end(trim_start(s))
}

/// After `trim_start`, a text is empty or starts with a non-whitespace
/// character.
pub proof fn lemma_trim_start_shape(s: Seq<char>)
    ensures
        trim_start(s).len() == 0 || !is_whitespace(trim_start(s)[0]),
    decreases s.len(),
{
    if s.len() > 0 && is_whitespace(s[0]) {
        lemma_trim_start_shape(s.drop_first());
    }
}

/// `trim_end` keeps a prefix of the text, which is empty or ends with a
/// non-whitespace character.
pub proof fn lemma_trim_end_shape(s: Seq<char>)
    ensures
        trim_end(s).len() <= s.len(),
        trim_end(s) == s.take(trim_end(s).len() as int),
        trim_end(s).len() == 0 || !is_whitespace(trim_end(s).last()),
    decreases s.len(),
{
    if s.len() > 0 && is_whitespace(s.last()) {
        lemma_trim_end_shape(s.drop_last());
        assert(s.drop_last().take(trim_end(s).len() as int) =~= s.take(trim_end(s).len() as int));
    } else {
        assert(s.take(s.len() as int) =~= s);
    }
}

proof fn lemma_trim_start_is_suffix(s: Seq<char>)
    ensures
        exists|a: int|
            0 <= a <= s.len() && trim_start(s) == s.skip(a) && forall|j: int|
                0 <= j < a ==> is_whitespace(#[trigger] s[j]),
    decreases s.len(),
{
    if s.len() > 0 && is_whitespace(s[0]) {
        lemma_trim_start_is_suffix(s.drop_first());
        let a = choose|a: int|
            0 <= a <= s.drop_first().len() && trim_start(s.drop_first()) == s.drop_first().skip(a)
                && forall|j: int| 0 <= j < a ==> is_whitespace(#[trigger] s.drop_first()[j]);
        assert(s.drop_first().skip(a) =~= s.skip(a + 1));
        assert forall|j: int| 0 <= j < a + 1 implies is_whitespace(#[trigger] s[j]) by {
            if j > 0 {
                assert(s[j] == s.drop_first()[j - 1]);
            }
        }
    } else {
        assert(s.skip(0) =~= s);
    }
}

proof fn lemma_trim_end_drops_whitespace(s: Seq<char>)
    ensures
        forall|j: int| trim_end(s).len() <= j < s.len() ==> is_whitespace(#[trigger] s[j]),
    decreases s.len(),
{
    if s.len() > 0 && is_whitespace(s.last()) {
        lemma_trim_end_drops_whitespace(s.drop_last());
        lemma_trim_end_shape(s.drop_last());
        assert forall|j: int| trim_end(s).len() <= j < s.len() implies is_whitespace(
            #[trigger] s[j],
        ) by {
            if j < s.len() - 1 {
                assert(s[j] == s.drop_last()[j]);
            }
        }
    }
}

/// `trim(s)` starts at position `a` of `s`, and only whitespace lies
/// before and after it in `s`.
pub open spec fn trimmed_at(s: Seq<char>, a: int) -> bool {
    &&& 0 <= a <= a + trim(s).len() <= s.len()
    &&& trim(s) == s.subrange(a, a + trim(s).len())
    &&& forall|j: int| 0 <= j < a ==> is_whitespace(#[trigger] s[j])
    &&& forall|j: int| a + trim(s).len() <= j < s.len() ==> is_whitespace(#[trigger] s[j])
}

/// `trim(s)` is the part of `s` between its leading and its trailing
/// whitespace: a contiguous part of `s`, only whitespace is cut off on
/// either side, and it neither starts nor ends with whitespace.
pub proof fn law_trim_cuts_only_whitespace(s: Seq<char>)
    ensures
        exists|a: int| #[trigger] trimmed_at(s, a),
        trim(s).len() > 0 ==> !is_whitespace(trim(s)[0]) && !is_whitespace(trim(s).last()),
{
    lemma_trim_start_is_suffix(s);
    let a = choose|a: int|
        0 <= a <= s.len() && trim_start(s) == s.skip(a) && forall|j: int|
            0 <= j < a ==> is_whitespace(#[trigger] s[j]);
    let t = trim_start(s);
    lemma_trim_end_shape(t);
    lemma_trim_end_drops_whitespace(t);
    lemma_trim_start_shape(s);
    let n = trim(s).len();
    assert(trim(s) =~= s.subrange(a, a + n));
    assert forall|j: int| a + n <= j < s.len() implies is_whitespace(#[trigger] s[j]) by {
        assert(s[j] == t[j - a]);
    }
    if n > 0 {
        assert(trim(s)[0] == t[0]);
    }
    assert(trimmed_at(s, a));
}

/// Trimming a trimmed text changes nothing.
pub proof fn lemma_trim_idempotent(s: Seq<char>)
    ensures
        trim(trim(s)) == trim(s),
{
    let t = trim_start(s);
    let u = trim_end(t);
    lemma_trim_start_shape(s);
    lemma_trim_end_shape(t);
    if u.len() > 0 {
        assert(u[0] == t[0]);
    }
    assert(trim_start(u) == u);
    lemma_trim_end_shape(u);
    assert(trim_end(u) == u) by {
        if u.len() > 0 {
            assert(!is_whitespace(u.last()));
        }
    }
}

/// A text whose first and last characters are not whitespace is its own
/// trimmed form.
pub proof fn lemma_trim_of_solid(s: Seq<char>)
    requires
        s.len() == 0 || (!is_whitespace(s[0]) && !is_whitespace(s.last())),
    ensures
        trim(s) == s,
{
}

/// The bounds of `trim(v[lo..hi])` inside `v`.
pub fn trim_range(v: &Vec<char>, lo: usize, hi: usize) -> (r: (usize, usize))
    requires
        lo <= hi <= v.len(),
    ensures
        lo <= r.0 <= r.1 <= hi,
        v@.subrange(r.0 as int, r.1 as int) == trim(v@.subrange(lo as int, hi as int)),
{
    let mut a = lo;
    while a < hi && char_is_whitespace(v[a])
        invariant
            lo <= a <= hi <= v.len(),
            trim_start(v@.subrange(lo as int, hi as int)) == trim_start(
                v@.subrange(a as int, hi as int),
            ),
        decreases hi - a,
    {
        assert(v@.subrange(a as int, hi as int).drop_first() =~= v@.subrange(a + 1, hi as int));
        a += 1;
    }
    assert(trim_start(v@.subrange(a as int, hi as int)) == v@.subrange(a as int, hi as int));
    let mut b = hi;
    while b > a && char_is_whitespace(v[b - 1])
        invariant
            lo <= a <= b <= hi <= v.len(),
            trim_end(v@.subrange(a as int, hi as int)) == trim_end(
                v@.subrange(a as int, b as int),
            ),
        decreases b - a,
    {
        assert(v@.subrange(a as int, b as int).drop_last() =~= v@.subrange(a as int, b - 1));
        b -= 1;
    }
    assert(trim_end(v@.subrange(a as int, b as int)) == v@.subrange(a as int, b as int));
    (a, b)
}

/// `s` without leading and trailing characters that are neither ASCII
/// alphanumerics nor `.`.
pub open spec fn is_version_char(c: char) -> bool {
    is_ascii_alphanumeric(c) || c == '.'
}

pub open spec fn trim_start_version(s: Seq<char>) -> Seq<char>
    decreases s.len(),
{
    if s.len() > 0 && !is_version_char(s[0]) {
        trim_start_version(s.drop_first())
    } else {
        s
    }
}

pub open spec fn trim_end_version(s: Seq<char>) -> Seq<char>
    decreases s.len(),
{
    if s.len() > 0 && !is_version_char(s.last()) {
        trim_end_version(s.drop_last())
    } else {
        s
    }
}

/// `s.trim_matches(|c| !c.is_ascii_alphanumeric() && c != '.')`.
pub open spec fn trim_to_version_chars(s: Seq<char>) -> Seq<char> {
    trim_end_version(trim_start_version(s))
}

/// The bounds of `trim_to_version_chars(v[lo..hi])` inside `v`.
pub fn trim_version_range(v: &Vec<char>, lo: usize, hi: usize) -> (r: (usize, usize))
    requires
        lo <= hi <= v.len(),
    ensures
        lo <= r.0 <= r.1 <= hi,
        v@.subrange(r.0 as int, r.1 as int) == trim_to_version_chars(
            v@.subrange(lo as int, hi as int),
        ),
{
    let mut a = lo;
    while a < hi && !(char_is_ascii_alphanumeric(v[a]) || v[a] == '.')
        invariant
            lo <= a <= hi <= v.len(),
            trim_start_version(v@.subrange(lo as int, hi as int)) == trim_start_version(
                v@.subrange(a as int, hi as int),
            ),
        decreases hi - a,
    {
        assert(v@.subrange(a as int, hi as int).drop_first() =~= v@.subrange(a + 1, hi as int));
        a += 1;
    }
    assert(trim_start_version(v@.subrange(a as int, hi as int)) == v@.subrange(
        a as int,
        hi as int,
    ));
    let mut b = hi;
    while b > a && !(char_is_ascii_alphanumeric(v[b - 1]) || v[b - 1] == '.')
        invariant
            lo <= a <= b <= hi <= v.len(),
            trim_end_version(v@.subrange(a as int, hi as int)) == trim_end_version(
                v@.subrange(a as int, b as int),
            ),
        decreases b - a,
    {
        assert(v@.subrange(a as int, b as int).drop_last() =~= v@.subrange(a as int, b - 1));
        b -= 1;
    }
    assert(trim_end_version(v@.subrange(a as int, b as int)) == v@.subrange(a as int, b as int));
    (a, b)
}

// ---------------------------------------------------------------------
// Lines
// ---------------------------------------------------------------------

/// The index of the first `'\n'` in `s`, or `s.len()` when there is none.
pub open spec fn newline_index(s: Seq<char>) -> nat
    decreases s.len(),
{
    if s.len() == 0 || s[0] == '\n' {
        0
    } else {
        1 + newline_index(s.drop_first())
    }
}

/// A line without the `'\r'` of a `"\r\n"` terminator.
pub open spec fn strip_cr(l: Seq<char>) -> Seq<char> {
    if l.len() > 0 && l.last() == '\r' {
        l.drop_last()
    } else {
        l
    }
}

/// `str::lines`: the lines of `s`, split at `"\n"` or `"\r\n"`; the last
/// line ending is optional, and a `'\r'` that ends the text without a
/// following `'\n'` stays in the last line.
pub open spec fn lines(s: Seq<char>) -> Seq<Seq<char>>
    decreases s.len(),
{
    if s.len() == 0 {
        seq![]
    } else {
        let i = newline_index(s);
        if i >= s.len() {
            seq![s]
        } else {
            seq![strip_cr(s.take(i as int))] + lines(s.skip(i + 1 as int))
        }
    }
}

/// The first line of `v[pos..hi]`, as `(start, end, next)`: the line is
/// `v[start..end]` and the following lines are those of `v[next..hi]`.
pub fn next_line(v: &Vec<char>, pos: usize, hi: usize) -> (r: Option<(usize, usize, usize)>)
    requires
        pos <= hi <= v.len(),
    ensures
        r is None <==> pos == hi,
        r is None ==> lines(v@.subrange(pos as int, hi as int)) == Seq::<Seq<char>>::empty(),
        r matches Some((a, b, n)) ==> {
            &&& pos <= a <= b <= n <= hi
            &&& pos < n
            &&& lines(v@.subrange(pos as int, hi as int)) == seq![
                v@.subrange(a as int, b as int),
            ] + lines(v@.subrange(n as int, hi as int))
        },
{
    let len = hi;
    if pos == len {
        assert(v@.subrange(pos as int, hi as int).len() == 0);
        return None;
    }
    let ghost s = v@.subrange(pos as int, len as int);
    let mut i = pos;
    while i < len && v[i] != '\n'
        invariant
            pos <= i <= len <= v.len(),
            s == v@.subrange(pos as int, len as int),
            newline_index(s) == (i - pos) + newline_index(v@.subrange(i as int, len as int)),
        decreases len - i,
    {
        assert(v@.subrange(i as int, len as int).drop_first() =~= v@.subrange(i + 1, len as int));
        i += 1;
    }
    assert(newline_index(s) == i - pos);
    if i == len {
        assert(s.len() > 0);
        assert(lines(s) == seq![s]);
        assert(v@.subrange(len as int, len as int) =~= Seq::<char>::empty());
        assert(lines(v@.subrange(len as int, len as int)) == Seq::<Seq<char>>::empty());
        assert(seq![s] + Seq::<Seq<char>>::empty() =~= seq![s]);
        Some((pos, len, len))
    } else {
        let mut b = i;
        if b > pos && v[b - 1] == '\r' {
            b = b - 1;
        }
        assert(s.take(i - pos) =~= v@.subrange(pos as int, i as int));
        assert(s.skip(i - pos + 1) =~= v@.subrange(i + 1, len as int));
        assert(strip_cr(v@.subrange(pos as int, i as int)) =~= v@.subrange(pos as int, b as int));
        Some((pos, b, i + 1))
    }
}

/// `newline_index` falls inside the text or at its end, and inside it
/// marks a `'\n'`.
pub proof fn lemma_newline_index(s: Seq<char>)
    ensures
        newline_index(s) <= s.len(),
        newline_index(s) < s.len() ==> s[newline_index(s) as int] == '\n',
    decreases s.len(),
{
    if s.len() > 0 && s[0] != '\n' {
        lemma_newline_index(s.drop_first());
    }
}

/// A concatenation holds a digit when one of its parts does.
pub proof fn lemma_has_digit_concat(a: Seq<char>, b: Seq<char>)
    ensures
        has_ascii_digit(a + b) <==> has_ascii_digit(a) || has_ascii_digit(b),
{
    let ab = a + b;
    if has_ascii_digit(ab) {
        let i = choose|i: int| 0 <= i < ab.len() && #[trigger] is_ascii_digit(ab[i]);
        if i < a.len() {
            assert(is_ascii_digit(a[i]));
        } else {
            assert(is_ascii_digit(b[i - a.len()]));
        }
    }
    if has_ascii_digit(a) {
        let i = choose|i: int| 0 <= i < a.len() && #[trigger] is_ascii_digit(a[i]);
        assert(is_ascii_digit(ab[i]));
    }
    if has_ascii_digit(b) {
        let i = choose|i: int| 0 <= i < b.len() && #[trigger] is_ascii_digit(b[i]);
        assert(is_ascii_digit(ab[a.len() + i]));
    }
}

/// Trimming keeps every digit: digits are not whitespace.
pub proof fn lemma_trim_keeps_digits(s: Seq<char>)
    ensures
        has_ascii_digit(trim(s)) <==> has_ascii_digit(s),
{
    lemma_trim_start_keeps_digits(s);
    lemma_trim_end_keeps_digits(trim_start(s));
}

proof fn lemma_trim_start_keeps_digits(s: Seq<char>)
    ensures
        has_ascii_digit(trim_start(s)) <==> has_ascii_digit(s),
    decreases s.len(),
{
    if s.len() > 0 && is_whitespace(s[0]) {
        lemma_trim_start_keeps_digits(s.drop_first());
        assert(s =~= seq![s[0]] + s.drop_first());
        lemma_has_digit_concat(seq![s[0]], s.drop_first());
        assert(!has_ascii_digit(seq![s[0]])) by {
            if has_ascii_digit(seq![s[0]]) {
                let i = choose|i: int| 0 <= i < 1 && #[trigger] is_ascii_digit(seq![s[0]][i]);
                assert(seq![s[0]][i] == s[0]);
            }
        }
    }
}

proof fn lemma_trim_end_keeps_digits(s: Seq<char>)
    ensures
        has_ascii_digit(trim_end(s)) <==> has_ascii_digit(s),
    decreases s.len(),
{
    if s.len() > 0 && is_whitespace(s.last()) {
        lemma_trim_end_keeps_digits(s.drop_last());
        assert(s =~= s.drop_last() + seq![s.last()]);
        lemma_has_digit_concat(s.drop_last(), seq![s.last()]);
        assert(!has_ascii_digit(seq![s.last()])) by {
            if has_ascii_digit(seq![s.last()]) {
                let i = choose|i: int| 0 <= i < 1 && #[trigger] is_ascii_digit(seq![s.last()][i]);
                assert(seq![s.last()][i] == s.last());
            }
        }
    }
}

/// A text holds a digit exactly when one of its lines does: splitting
/// into lines drops only `'\n'` and `'\r'`.
pub proof fn lemma_lines_keep_digits(s: Seq<char>)
    ensures
        has_ascii_digit(s) <==> exists|i: int|
            0 <= i < lines(s).len() && #[trigger] has_ascii_digit(lines(s)[i]),
    decreases s.len(),
{
    let ls = lines(s);
    if s.len() == 0 {
        assert(!has_ascii_digit(s));
    } else {
        let i = newline_index(s);
        lemma_newline_index(s);
        if i >= s.len() {
            assert(ls == seq![s]);
            if has_ascii_digit(s) {
                assert(has_ascii_digit(ls[0]));
            }
        } else {
            let head = s.take(i as int);
            let tail = s.skip(i + 1 as int);
            lemma_lines_keep_digits(tail);
            assert(ls == seq![strip_cr(head)] + lines(tail));
            assert(s =~= head + (seq!['\n'] + tail));
            lemma_has_digit_concat(head, seq!['\n'] + tail);
            lemma_has_digit_concat(seq!['\n'], tail);
            assert(!has_ascii_digit(seq!['\n'])) by {
                if has_ascii_digit(seq!['\n']) {
                    let k = choose|k: int| 0 <= k < 1 && #[trigger] is_ascii_digit(seq!['\n'][k]);
                    assert(seq!['\n'][k] == '\n');
                }
            }
            assert(has_ascii_digit(strip_cr(head)) <==> has_ascii_digit(head)) by {
                if head.len() > 0 && head.last() == '\r' {
                    assert(head =~= head.drop_last() + seq!['\r']);
                    lemma_has_digit_concat(head.drop_last(), seq!['\r']);
                    assert(!has_ascii_digit(seq!['\r'])) by {
                        if has_ascii_digit(seq!['\r']) {
                            let k = choose|k: int|
                                0 <= k < 1 && #[trigger] is_ascii_digit(seq!['\r'][k]);
                            assert(seq!['\r'][k] == '\r');
                        }
                    }
                }
            }
            if has_ascii_digit(s) {
                if has_ascii_digit(head) {
                    assert(has_ascii_digit(ls[0]));
                } else {
                    let k = choose|k: int|
                        0 <= k < lines(tail).len() && #[trigger] has_ascii_digit(lines(tail)[k]);
                    assert(ls[k + 1] == lines(tail)[k]);
                    assert(has_ascii_digit(ls[k + 1]));
                }
            }
            if exists|k: int| 0 <= k < ls.len() && #[trigger] has_ascii_digit(ls[k]) {
                let k = choose|k: int| 0 <= k < ls.len() && #[trigger] has_ascii_digit(ls[k]);
                if k > 0 {
                    assert(ls[k] == lines(tail)[k - 1]);
                    assert(has_ascii_digit(lines(tail)[k - 1]));
                }
            }
        }
    }
}

/// In a text that starts with a line `t` (no `'\n'` in it), the first
/// `'\n'` is the one after `t`.
proof fn lemma_newline_index_after(t: Seq<char>, rest: Seq<char>)
    requires
        !t.contains('\n'),
    ensures
        newline_index(t + seq!['\n'] + rest) == t.len(),
        newline_index(t) == t.len(),
    decreases t.len(),
{
    if t.len() > 0 {
        assert(t[0] != '\n');
        assert(!t.drop_first().contains('\n')) by {
            if t.drop_first().contains('\n') {
                let k = choose|k: int| 0 <= k < t.drop_first().len() && t.drop_first()[k] == '\n';
                assert(t[k + 1] == '\n');
            }
        }
        lemma_newline_index_after(t.drop_first(), rest);
        assert((t + seq!['\n'] + rest).drop_first() =~= t.drop_first() + seq!['\n'] + rest);
    } else {
        assert(t + seq!['\n'] + rest =~= seq!['\n'] + rest);
    }
}

/// The lines of a text that starts with the line `t`, ended by `'\n'`.
pub proof fn lemma_lines_of_first_line(t: Seq<char>, rest: Seq<char>)
    requires
        !t.contains('\n'),
    ensures
        lines(t + seq!['\n'] + rest) == seq![strip_cr(t)] + lines(rest),
        t.len() > 0 ==> lines(t) == seq![t],
{
    lemma_newline_index_after(t, rest);
    let s = t + seq!['\n'] + rest;
    assert(s.take(t.len() as int) =~= t);
    assert(s.skip(t.len() + 1 as int) =~= rest);
}

/// Dropping trailing whitespace changes nothing for `trim`.
pub proof fn lemma_trim_drop_last_whitespace(s: Seq<char>)
    requires
        s.len() > 0,
        is_whitespace(s.last()),
    ensures
        trim(s.drop_last()) == trim(s),
    decreases s.len(),
{
    if is_whitespace(s[0]) {
        if s.len() == 1 {
            assert(s.drop_last() =~= Seq::<char>::empty());
            assert(s.drop_first() =~= Seq::<char>::empty());
        } else {
            lemma_trim_drop_last_whitespace(s.drop_first());
            assert(s.drop_last().drop_first() =~= s.drop_first().drop_last());
            assert(s.drop_last()[0] == s[0]);
        }
    } else {
        assert(s.len() > 1);
        assert(s.drop_last()[0] == s[0]);
    }
}

/// `trim` ignores the `'\r'` of a `"\r\n"` line ending.
pub proof fn lemma_trim_strip_cr(l: Seq<char>)
    ensures
        trim(strip_cr(l)) == trim(l),
{
    if l.len() > 0 && l.last() == '\r' {
        lemma_trim_drop_last_whitespace(l);
    }
}

// ---------------------------------------------------------------------
// Whitespace-separated words
// ---------------------------------------------------------------------

/// The index of the first whitespace character of `s`, or `s.len()`.
pub open spec fn whitespace_index(s: Seq<char>) -> nat
    decreases s.len(),
{
    if s.len() == 0 || is_whitespace(s[0]) {
        0
    } else {
        1 + whitespace_index(s.drop_first())
    }
}

pub proof fn lemma_whitespace_index_bound(s: Seq<char>)
    ensures
        whitespace_index(s) <= s.len(),
        s.len() > 0 && !is_whitespace(s[0]) ==> whitespace_index(s) >= 1,
    decreases s.len(),
{
    if s.len() > 0 && !is_whitespace(s[0]) {
        lemma_whitespace_index_bound(s.drop_first());
    }
}

/// `str::split_whitespace`: the maximal runs of non-whitespace characters.
pub open spec fn words(s: Seq<char>) -> Seq<Seq<char>>
    decreases s.len(),
{
    if s.len() == 0 {
        seq![]
    } else if is_whitespace(s[0]) {
        words(s.drop_first())
    } else {
        let e = whitespace_index(s);
        proof {
            lemma_whitespace_index_bound(s);
        }
        seq![s.take(e as int)] + words(s.skip(e as int))
    }
}

proof fn lemma_whitespace_index_prefix(s: Seq<char>)
    ensures
        forall|j: int| 0 <= j < whitespace_index(s) ==> !is_whitespace(#[trigger] s[j]),
    decreases s.len(),
{
    lemma_whitespace_index_bound(s);
    if s.len() > 0 && !is_whitespace(s[0]) {
        lemma_whitespace_index_prefix(s.drop_first());
        assert forall|j: int| 0 <= j < whitespace_index(s) implies !is_whitespace(#[trigger] s[j]) by {
            if j > 0 {
                assert(s[j] == s.drop_first()[j - 1]);
            }
        }
    }
}

/// A word holds at least one character and no whitespace.
pub open spec fn is_solid_word(w: Seq<char>) -> bool {
    w.len() > 0 && forall|j: int| 0 <= j < w.len() ==> !is_whitespace(#[trigger] w[j])
}

/// Every word of `s` is non-empty and holds no whitespace.
pub proof fn lemma_words_solid(s: Seq<char>)
    ensures
        forall|i: int| 0 <= i < words(s).len() ==> is_solid_word(#[trigger] words(s)[i]),
    decreases s.len(),
{
    if s.len() == 0 {
    } else if is_whitespace(s[0]) {
        lemma_words_solid(s.drop_first());
        assert(words(s) == words(s.drop_first()));
    } else {
        let e = whitespace_index(s);
        lemma_whitespace_index_bound(s);
        lemma_whitespace_index_prefix(s);
        lemma_words_solid(s.skip(e as int));
        let ws = words(s);
        assert(ws == seq![s.take(e as int)] + words(s.skip(e as int)));
        assert forall|i: int| 0 <= i < ws.len() implies is_solid_word(#[trigger] ws[i]) by {
            if i == 0 {
                assert(ws[0] == s.take(e as int));
                assert forall|j: int| 0 <= j < ws[0].len() implies !is_whitespace(#[trigger] ws[0][j]) by {
                    assert(ws[0][j] == s[j]);
                }
            } else {
                assert(ws[i] == words(s.skip(e as int))[i - 1]);
                assert(is_solid_word(words(s.skip(e as int))[i - 1]));
            }
        }
        assert(words(s) == ws);
    }
}

proof fn lemma_whitespace_index_solid(w: Seq<char>, b: Seq<char>)
    requires
        forall|j: int| 0 <= j < w.len() ==> !is_whitespace(#[trigger] w[j]),
    ensures
        whitespace_index(w + seq![' '] + b) == w.len(),
    decreases w.len(),
{
    if w.len() > 0 {
        assert(!is_whitespace(w[0]));
        assert forall|j: int| 0 <= j < w.drop_first().len() implies !is_whitespace(
            #[trigger] w.drop_first()[j],
        ) by {
            assert(w.drop_first()[j] == w[j + 1]);
        }
        lemma_whitespace_index_solid(w.drop_first(), b);
        assert((w + seq![' '] + b).drop_first() =~= w.drop_first() + seq![' '] + b);
    } else {
        assert(w + seq![' '] + b =~= seq![' '] + b);
    }
}

/// A text made of the word `w`, a space and `b` has `w` as its first word,
/// followed by the words of `b`.
pub proof fn lemma_words_of_first_word(w: Seq<char>, b: Seq<char>)
    requires
        is_solid_word(w),
    ensures
        words(w + seq![' '] + b) == seq![w] + words(b),
{
    let s = w + seq![' '] + b;
    lemma_whitespace_index_solid(w, b);
    assert(s[0] == w[0]);
    assert(s.take(w.len() as int) =~= w);
    let t = s.skip(w.len() as int);
    assert(t =~= seq![' '] + b);
    assert(t.drop_first() =~= b);
    assert(t.len() > 0 && is_whitespace(t[0]));
    assert(words(t) == words(b));
    assert(!is_whitespace(s[0]));
    assert(words(s) == seq![s.take(w.len() as int)] + words(t));
}

/// A solid word is its own trimmed form.
pub proof fn lemma_trim_solid_word(w: Seq<char>)
    requires
        is_solid_word(w),
    ensures
        trim(w) == w,
{
    assert(!is_whitespace(w[0]));
    assert(!is_whitespace(w[w.len() - 1]));
    lemma_trim_of_solid(w);
}

/// The first word of `v[pos..hi]`, as `(start, end)`; the following words
/// are those of `v[end..hi]`.
pub fn next_word(v: &Vec<char>, pos: usize, hi: usize) -> (r: Option<(usize, usize)>)
    requires
        pos <= hi <= v.len(),
    ensures
        r is None ==> words(v@.subrange(pos as int, hi as int)) == Seq::<Seq<char>>::empty(),
        r matches Some((a, b)) ==> {
            &&& pos <= a < b <= hi
            &&& words(v@.subrange(pos as int, hi as int)) == seq![
                v@.subrange(a as int, b as int),
            ] + words(v@.subrange(b as int, hi as int))
        },
{
    let mut a = pos;
    while a < hi && char_is_whitespace(v[a])
        invariant
            pos <= a <= hi <= v.len(),
            words(v@.subrange(pos as int, hi as int)) == words(v@.subrange(a as int, hi as int)),
        decreases hi - a,
    {
        assert(v@.subrange(a as int, hi as int).drop_first() =~= v@.subrange(a + 1, hi as int));
        a += 1;
    }
    if a == hi {
        assert(v@.subrange(a as int, hi as int).len() == 0);
        return None;
    }
    let ghost s = v@.subrange(a as int, hi as int);
    let mut b = a;
    while b < hi && !char_is_whitespace(v[b])
        invariant
            a <= b <= hi <= v.len(),
            s == v@.subrange(a as int, hi as int),
            whitespace_index(s) == (b - a) + whitespace_index(v@.subrange(b as int, hi as int)),
        decreases hi - b,
    {
        assert(v@.subrange(b as int, hi as int).drop_first() =~= v@.subrange(b + 1, hi as int));
        b += 1;
    }
    assert(whitespace_index(s) == b - a);
    assert(s.take(b - a) =~= v@.subrange(a as int, b as int));
    assert(s.skip(b - a) =~= v@.subrange(b as int, hi as int));
    Some((a, b))
}

// ---------------------------------------------------------------------
// Searching
// ---------------------------------------------------------------------

/// Whether `n` occurs in `h` at position `i`.
pub open spec fn occurs_at<T>(h: Seq<T>, n: Seq<T>, i: int) -> bool {
    0 <= i && i + n.len() <= h.len() && h.subrange(i, i + n.len()) == n
}

/// The first position at or after `i` where `n` occurs in `h`.
pub open spec fn find_from<T>(h: Seq<T>, n: Seq<T>, i: int) -> Option<int>
    decreases h.len() + 1 - i,
{
    if i < 0 || i + n.len() > h.len() {
        None
    } else if occurs_at(h, n, i) {
        Some(i)
    } else {
        find_from(h, n, i + 1)
    }
}

/// `str::find` with a string pattern: the first position where `n` occurs
/// in `h`.
pub open spec fn find<T>(h: Seq<T>, n: Seq<T>) -> Option<int> {
    find_from(h, n, 0)
}

/// `str::contains` with a string pattern.
pub open spec fn contains<T>(h: Seq<T>, n: Seq<T>) -> bool {
    find(h, n) is Some
}

pub proof fn lemma_find_from_spec<T>(h: Seq<T>, n: Seq<T>, i: int)
    requires
        0 <= i,
    ensures
        find_from(h, n, i) matches Some(k) ==> i <= k && occurs_at(h, n, k) && forall|j: int|
            i <= j < k ==> !#[trigger] occurs_at(h, n, j),
        find_from(h, n, i) is None ==> forall|j: int| i <= j ==> !#[trigger] occurs_at(h, n, j),
    decreases h.len() + 1 - i,
{
    if i + n.len() > h.len() {
    } else if occurs_at(h, n, i) {
    } else {
        lemma_find_from_spec(h, n, i + 1);
    }
}

/// `find(h, n)` is the first occurrence of `n` in `h`.
pub proof fn lemma_find_spec<T>(h: Seq<T>, n: Seq<T>)
    ensures
        find(h, n) matches Some(k) ==> occurs_at(h, n, k) && forall|j: int|
            0 <= j < k ==> !#[trigger] occurs_at(h, n, j),
        find(h, n) is None ==> forall|j: int| 0 <= j ==> !#[trigger] occurs_at(h, n, j),
{
    lemma_find_from_spec(h, n, 0);
}

/// Whether `v[i..i + n.len()]` equals `n`.
fn chars_occur_at(v: &Vec<char>, i: usize, n: &Vec<char>) -> (r: bool)
    requires
        i + n.len() <= v.len(),
    ensures
        r == (v@.subrange(i as int, i + n.len()) == n@),
{
    let mut k: usize = 0;
    while k < n.len()
        invariant
            k <= n.len(),
            i + n.len() <= v.len(),
            forall|j: int| 0 <= j < k ==> v@[i + j] == n@[j],
        decreases n.len() - k,
    {
        if v[i + k] != n[k] {
            assert(v@.subrange(i as int, i + n.len())[k as int] != n@[k as int]);
            return false;
        }
        k += 1;
    }
    assert(v@.subrange(i as int, i + n.len()) =~= n@);
    true
}

/// The first occurrence of `n` in `v[lo..hi]`, as a position in `v`.
pub fn find_chars(v: &Vec<char>, lo: usize, hi: usize, n: &Vec<char>) -> (r: Option<usize>)
    requires
        lo <= hi <= v.len(),
    ensures
        r matches Some(k) ==> lo <= k && k + n.len() <= hi && find(
            v@.subrange(lo as int, hi as int),
            n@,
        ) == Some(k - lo),
        r is None ==> find(v@.subrange(lo as int, hi as int), n@) is None,
{
    let ghost h = v@.subrange(lo as int, hi as int);
    let mut i = lo;
    while n.len() <= hi - i
        invariant
            lo <= i <= hi <= v.len(),
            h == v@.subrange(lo as int, hi as int),
            find(h, n@) == find_from(h, n@, i - lo),
        decreases hi - i,
    {
        proof {
            if n@.len() == 0 {
                assert(v@.subrange(i as int, i as int) =~= n@);
            }
        }
        let m = chars_occur_at(v, i, n);
        assert(h.subrange(i - lo, i - lo + n.len()) =~= v@.subrange(i as int, i + n.len()));
        if m {
            return Some(i);
        }
        i += 1;
    }
    None
}

/// Whether `v[i..i + n.len()]` equals `n`.
fn bytes_occur_at(v: &[u8], i: usize, n: &[u8]) -> (r: bool)
    requires
        i + n.len() <= v.len(),
    ensures
        r == (v@.subrange(i as int, i + n@.len()) == n@),
{
    let mut k: usize = 0;
    while k < n.len()
        invariant
            k <= n.len(),
            i + n.len() <= v.len(),
            forall|j: int| 0 <= j < k ==> v@[i + j] == n@[j],
        decreases n@.len() - k,
    {
        if v[i + k] != n[k] {
            assert(v@.subrange(i as int, i + n@.len())[k as int] != n@[k as int]);
            return false;
        }
        k += 1;
    }
    assert(v@.subrange(i as int, i + n@.len()) =~= n@);
    true
}

/// The first occurrence of the byte string `n` in `v`.
pub fn find_bytes(v: &[u8], n: &[u8]) -> (r: Option<usize>)
    ensures
        r matches Some(k) ==> k + n.len() <= v.len() && find(v@, n@) == Some(k as int),
        r is None ==> find(v@, n@) is None,
{
    let mut i: usize = 0;
    while n.len() <= v.len() - i
        invariant
            i <= v.len(),
            find(v@, n@) == find_from(v@, n@, i as int),
        decreases v.len() - i,
    {
        proof {
            if n@.len() == 0 {
                assert(v@.subrange(i as int, i as int) =~= n@);
            }
        }
        if bytes_occur_at(v, i, n) {
            return Some(i);
        }
        i += 1;
    }
    None
}

/// `str::starts_with`.
pub open spec fn starts_with<T>(s: Seq<T>, p: Seq<T>) -> bool {
    p.len() <= s.len() && s.take(p.len() as int) == p
}

/// `str::ends_with`.
pub open spec fn ends_with<T>(s: Seq<T>, p: Seq<T>) -> bool {
    p.len() <= s.len() && s.skip(s.len() - p.len()) == p
}

/// Whether `v[lo..hi]` starts with `p`.
pub fn range_starts_with(v: &Vec<char>, lo: usize, hi: usize, p: &Vec<char>) -> (r: bool)
    requires
        lo <= hi <= v.len(),
    ensures
        r == starts_with(v@.subrange(lo as int, hi as int), p@),
{
    if p.len() > hi - lo {
        return false;
    }
    let m = chars_occur_at(v, lo, p);
    assert(v@.subrange(lo as int, hi as int).take(p.len() as int) =~= v@.subrange(
        lo as int,
        lo + p.len(),
    ));
    m
}

/// Whether `v[lo..hi]` ends with `p`.
pub fn range_ends_with(v: &Vec<char>, lo: usize, hi: usize, p: &Vec<char>) -> (r: bool)
    requires
        lo <= hi <= v.len(),
    ensures
        r == ends_with(v@.subrange(lo as int, hi as int), p@),
{
    if p.len() > hi - lo {
        return false;
    }
    let m = chars_occur_at(v, hi - p.len(), p);
    assert(v@.subrange(lo as int, hi as int).skip(hi - lo - p.len()) =~= v@.subrange(
        hi - p.len(),
        hi as int,
    ));
    m
}

/// Whether `v[lo..hi]` equals `p`.
pub fn range_equals(v: &Vec<char>, lo: usize, hi: usize, p: &Vec<char>) -> (r: bool)
    requires
        lo <= hi <= v.len(),
    ensures
        r == (v@.subrange(lo as int, hi as int) == p@),
{
    if p.len() != hi - lo {
        assert(v@.subrange(lo as int, hi as int).len() != p@.len());
        return false;
    }
    chars_occur_at(v, lo, p)
}

/// Whether `needle` occurs in `v[lo..hi]`.
pub fn range_contains_str(v: &Vec<char>, lo: usize, hi: usize, needle: &str) -> (r: bool)
    requires
        lo <= hi <= v.len(),
    ensures
        r == contains(v@.subrange(lo as int, hi as int), needle@),
{
    let n = chars_of(needle);
    find_chars(v, lo, hi, &n).is_some()
}

/// Whether `needle` occurs in `v`.
pub fn vec_contains_str(v: &Vec<char>, needle: &str) -> (r: bool)
    ensures
        r == contains(v@, needle@),
{
    assert(v@.subrange(0, v.len() as int) =~= v@);
    range_contains_str(v, 0, v.len(), needle)
}

/// `a` followed by `b`.
pub fn concat(a: &str, b: &str) -> (r: String)
    ensures
        r@ == a@ + b@,
{
    let mut v = chars_of(a);
    push_str(&mut v, b);
    string_of_all(&v)
}

/// Whether `a` and `b` are the same text.
pub fn str_eq(a: &str, b: &str) -> (r: bool)
    ensures
        r == (a@ == b@),
{
    let va = chars_of(a);
    let vb = chars_of(b);
    let r = range_equals(&va, 0, va.len(), &vb);
    assert(va@.subrange(0, va.len() as int) =~= va@);
    r
}

/// Whether `c` occurs in `v[lo..hi]`.
pub fn range_contains_char(v: &Vec<char>, lo: usize, hi: usize, c: char) -> (r: bool)
    requires
        lo <= hi <= v.len(),
    ensures
        r == v@.subrange(lo as int, hi as int).contains(c),
{
    let mut i = lo;
    while i < hi
        invariant
            lo <= i <= hi <= v.len(),
            forall|j: int| lo <= j < i ==> v@[j] != c,
        decreases hi - i,
    {
        if v[i] == c {
            assert(v@.subrange(lo as int, hi as int)[i - lo] == c);
            return true;
        }
        i += 1;
    }
    assert forall|j: int| 0 <= j < hi - lo implies v@.subrange(lo as int, hi as int)[j] != c by {
        assert(v@.subrange(lo as int, hi as int)[j] == v@[lo + j]);
    }
    false
}

/// Whether some character of `v[lo..hi]` is an ASCII digit.
pub fn range_has_ascii_digit(v: &Vec<char>, lo: usize, hi: usize) -> (r: bool)
    requires
        lo <= hi <= v.len(),
    ensures
        r == has_ascii_digit(v@.subrange(lo as int, hi as int)),
{
    let ghost s = v@.subrange(lo as int, hi as int);
    let mut i = lo;
    while i < hi
        invariant
            lo <= i <= hi <= v.len(),
            s == v@.subrange(lo as int, hi as int),
            forall|j: int| lo <= j < i ==> !is_ascii_digit(v@[j]),
        decreases hi - i,
    {
        if char_is_ascii_digit(v[i]) {
            assert(is_ascii_digit(s[i - lo]));
            return true;
        }
        i += 1;
    }
    assert forall|j: int| 0 <= j < s.len() implies !#[trigger] is_ascii_digit(s[j]) by {
        assert(s[j] == v@[lo + j]);
    }
    false
}

// ---------------------------------------------------------------------
// Replacing
// ---------------------------------------------------------------------

/// `str::replace` with a non-empty string pattern: every occurrence of
/// `from`, taken left to right without overlap, becomes `to`.
pub open spec fn replace(s: Seq<char>, from: Seq<char>, to: Seq<char>) -> Seq<char>
    recommends
        from.len() > 0,
    decreases s.len(),
{
    if from.len() == 0 {
        s
    } else {
        match find(s, from) {
            None => s,
            Some(i) => {
                proof {
                    lemma_find_spec(s, from);
                }
                s.take(i) + to + replace(s.skip(i + from.len()), from, to)
            },
        }
    }
}

/// `replace(v, from, to)` for a non-empty `from`.
pub fn replace_chars(v: &Vec<char>, from: &Vec<char>, to: &Vec<char>) -> (r: Vec<char>)
    requires
        from.len() > 0,
    ensures
        r@ == replace(v@, from@, to@),
{
    let len = v.len();
    let mut out: Vec<char> = Vec::new();
    let mut i: usize = 0;
    assert(v@.subrange(0, len as int) =~= v@);
    loop
        invariant
            i <= len == v.len(),
            from.len() > 0,
            out@ + replace(v@.subrange(i as int, len as int), from@, to@) == replace(
                v@,
                from@,
                to@,
            ),
        decreases len - i,
    {
        let ghost s = v@.subrange(i as int, len as int);
        match find_chars(v, i, len, from) {
            None => {
                push_range(&mut out, v, i, len);
                return out;
            },
            Some(k) => {
                proof {
                    lemma_find_spec(s, from@);
                    assert(s.take(k - i) =~= v@.subrange(i as int, k as int));
                    assert(s.skip(k - i + from.len()) =~= v@.subrange(k + from.len(), len as int));
                }
                let ghost before = out@;
                push_range(&mut out, v, i, k);
                let mut j: usize = 0;
                let ghost mid = out@;
                while j < to.len()
                    invariant
                        j <= to.len(),
                        out@ == mid + to@.take(j as int),
                    decreases to.len() - j,
                {
                    out.push(to[j]);
                    assert(to@.take(j + 1) =~= to@.take(j as int).push(to@[j as int]));
                    j += 1;
                }
                assert(to@.take(to.len() as int) =~= to@);
                assert(out@ =~= before + (s.take(k - i) + to@));
                i = k + from.len();
            },
        }
    }
}

/// `str::replace` with a `char` pattern: every `c` becomes `to`.
pub open spec fn replace_char(s: Seq<char>, c: char, to: Seq<char>) -> Seq<char>
    decreases s.len(),
{
    if s.len() == 0 {
        seq![]
    } else {
        replace_char(s.drop_last(), c, to) + (if s.last() == c {
            to
        } else {
            seq![s.last()]
        })
    }
}

/// Replacing a character distributes over concatenation.
pub proof fn lemma_replace_char_concat(a: Seq<char>, b: Seq<char>, c: char, to: Seq<char>)
    ensures
        replace_char(a + b, c, to) == replace_char(a, c, to) + replace_char(b, c, to),
    decreases b.len(),
{
    if b.len() == 0 {
        assert(a + b =~= a);
        assert(replace_char(a, c, to) + replace_char(b, c, to) =~= replace_char(a, c, to));
    } else {
        lemma_replace_char_concat(a, b.drop_last(), c, to);
        assert((a + b).drop_last() =~= a + b.drop_last());
        assert((a + b).last() == b.last());
    }
}

/// A text without `c` is left as it is.
pub proof fn lemma_replace_char_absent(s: Seq<char>, c: char, to: Seq<char>)
    requires
        !s.contains(c),
    ensures
        replace_char(s, c, to) == s,
    decreases s.len(),
{
    if s.len() > 0 {
        assert(!s.drop_last().contains(c)) by {
            if s.drop_last().contains(c) {
                let k = choose|k: int| 0 <= k < s.drop_last().len() && s.drop_last()[k] == c;
                assert(s[k] == c);
            }
        }
        lemma_replace_char_absent(s.drop_last(), c, to);
        assert(s.last() != c) by {
            assert(s[s.len() - 1] == s.last());
        }
        assert(s.drop_last().push(s.last()) =~= s);
        assert(s.drop_last() + seq![s.last()] =~= s);
    }
}

/// A single character, replaced.
pub proof fn lemma_replace_char_single(x: char, c: char, to: Seq<char>)
    ensures
        replace_char(seq![x], c, to) == (if x == c {
            to
        } else {
            seq![x]
        }),
{
    assert(seq![x].drop_last() =~= Seq::<char>::empty());
    assert(seq![x].last() == x);
    assert(replace_char(Seq::<char>::empty(), c, to) == Seq::<char>::empty());
    assert(Seq::<char>::empty() + to =~= to);
    assert(Seq::<char>::empty() + seq![x] =~= seq![x]);
}

/// `replace_char(v, c, to)`.
pub fn replace_char_chars(v: &Vec<char>, c: char, to: &Vec<char>) -> (r: Vec<char>)
    ensures
        r@ == replace_char(v@, c, to@),
{
    let mut out: Vec<char> = Vec::new();
    let mut i: usize = 0;
    while i < v.len()
        invariant
            i <= v.len(),
            out@ == replace_char(v@.take(i as int), c, to@),
        decreases v.len() - i,
    {
        let ghost before = out@;
        assert(v@.take(i + 1).drop_last() =~= v@.take(i as int));
        assert(v@.take(i + 1).last() == v@[i as int]);
        if v[i] == c {
            let mut j: usize = 0;
            while j < to.len()
                invariant
                    j <= to.len(),
                    out@ == before + to@.take(j as int),
                decreases to.len() - j,
            {
                out.push(to[j]);
                assert(to@.take(j + 1) =~= to@.take(j as int).push(to@[j as int]));
                j += 1;
            }
            assert(to@.take(to.len() as int) =~= to@);
        } else {
            out.push(v[i]);
            assert(out@ =~= before + seq![v@[i as int]]);
        }
        i += 1;
    }
    assert(v@.take(v.len() as int) =~= v@);
    out
}

// ---------------------------------------------------------------------
// Joining
// ---------------------------------------------------------------------

/// `[String]::join(sep)`.
pub open spec fn join(ps: Seq<Seq<char>>, sep: Seq<char>) -> Seq<char>
    decreases ps.len(),
{
    if ps.len() == 0 {
        seq![]
    } else if ps.len() == 1 {
        ps[0]
    } else {
        ps[0] + sep + join(ps.drop_first(), sep)
    }
}

/// Joining one more piece at the end.
pub proof fn lemma_join_push(ps: Seq<Seq<char>>, sep: Seq<char>, p: Seq<char>)
    ensures
        join(ps.push(p), sep) == if ps.len() == 0 {
            p
        } else {
            join(ps, sep) + sep + p
        },
    decreases ps.len(),
{
    if ps.len() == 0 {
        assert(ps.push(p).len() == 1);
        assert(ps.push(p)[0] == p);
    } else if ps.len() == 1 {
        assert(ps.push(p).drop_first() =~= seq![p]);
        assert(join(seq![p], sep) == p);
        assert(ps.push(p)[0] == ps[0]);
    } else {
        lemma_join_push(ps.drop_first(), sep, p);
        assert(ps.push(p).drop_first() =~= ps.drop_first().push(p));
        assert(ps[0] + sep + (join(ps.drop_first(), sep) + sep + p) =~= ps[0] + sep + join(
            ps.drop_first(),
            sep,
        ) + sep + p);
    }
}

// ---------------------------------------------------------------------
// Decimal numbers
// ---------------------------------------------------------------------

/// The ASCII digit for `d` in `0..10`.
pub open spec fn digit_char(d: int) -> char {
    ((48 + d) as u8) as char
}

/// The decimal representation of `n`, without leading zeros.
pub open spec fn decimal(n: nat) -> Seq<char>
    decreases n,
{
    if n < 10 {
        seq![digit_char(n as int)]
    } else {
        decimal(n / 10).push(digit_char((n % 10) as int))
    }
}

/// The decimal representation of `n` (`n.to_string()`).
pub fn decimal_chars(n: u32) -> (r: Vec<char>)
    ensures
        r@ == decimal(n as nat),
    decreases n,
{
    if n < 10 {
        let d = ((48 + n) as u8) as char;
        vec![d]
    } else {
        let mut v = decimal_chars(n / 10);
        let d = ((48 + n % 10) as u8) as char;
        v.push(d);
        v
    }
}

/// The value of a sequence of ASCII digits.
pub open spec fn digits_value(d: Seq<char>) -> int
    decreases d.len(),
{
    if d.len() == 0 {
        0
    } else {
        digits_value(d.drop_last()) * 10 + (d.last() as int - 48)
    }
}

pub open spec fn all_ascii_digits(d: Seq<char>) -> bool {
    forall|i: int| 0 <= i < d.len() ==> #[trigger] is_ascii_digit(d[i])
}

/// `i32::from_str`: an optional `+` or `-` followed by one or more ASCII
/// digits, whose value fits in an `i32`.
pub open spec fn parse_i32(s: Seq<char>) -> Option<i32> {
    let neg = s.len() > 0 && s[0] == '-';
    let d = if s.len() > 0 && (s[0] == '-' || s[0] == '+') {
        s.drop_first()
    } else {
        s
    };
    if d.len() == 0 || !all_ascii_digits(d) {
        None
    } else {
        let v = if neg {
            -digits_value(d)
        } else {
            digits_value(d)
        };
        if i32::MIN <= v <= i32::MAX {
            Some(v as i32)
        } else {
            None
        }
    }
}

proof fn lemma_digit_char(d: int)
    requires
        0 <= d < 10,
    ensures
        is_ascii_digit(digit_char(d)),
        digit_char(d) as int - 48 == d,
        digit_char(d) != '-' && digit_char(d) != '+',
{
}

proof fn lemma_decimal_digits(n: nat)
    ensures
        decimal(n).len() > 0,
        all_ascii_digits(decimal(n)),
        digits_value(decimal(n)) == n,
        decimal(n)[0] != '-' && decimal(n)[0] != '+',
    decreases n,
{
    if n < 10 {
        lemma_digit_char(n as int);
        let d = decimal(n);
        assert(d.drop_last() =~= Seq::<char>::empty());
        assert(d.last() == digit_char(n as int));
        assert(digits_value(Seq::<char>::empty()) == 0);
    } else {
        lemma_decimal_digits(n / 10);
        lemma_digit_char((n % 10) as int);
        let d = decimal(n);
        assert(d.drop_last() =~= decimal(n / 10));
        assert(d.last() == digit_char((n % 10) as int));
        assert((n / 10) * 10 + n % 10 == n) by (nonlinear_arith);
        assert(d[0] == decimal(n / 10)[0]);
        assert forall|i: int| 0 <= i < d.len() implies #[trigger] is_ascii_digit(d[i]) by {
            if i < d.len() - 1 {
                assert(d[i] == decimal(n / 10)[i]);
            }
        }
    }
}

/// A number written in decimal, with or without a sign, reads back as the
/// same number when it fits in an `i32`, and as none when it does not.
pub proof fn law_parse_i32_reads_decimal(n: nat)
    ensures
        n <= i32::MAX ==> parse_i32(decimal(n)) == Some(n as i32),
        n <= i32::MAX ==> parse_i32(seq!['+'] + decimal(n)) == Some(n as i32),
        n <= 2147483648 ==> parse_i32(seq!['-'] + decimal(n)) == Some((0 - n) as i32),
        n > i32::MAX ==> parse_i32(decimal(n)) is None,
        n > 2147483648 ==> parse_i32(seq!['-'] + decimal(n)) is None,
{
    lemma_decimal_digits(n);
    assert((seq!['+'] + decimal(n)).drop_first() =~= decimal(n));
    assert((seq!['-'] + decimal(n)).drop_first() =~= decimal(n));
}

/// Only an optional sign followed by one or more ASCII digits reads as a
/// number.
pub proof fn law_parse_i32_needs_digits(s: Seq<char>)
    ensures
        parse_i32(s) is Some ==> s.len() > 0,
        parse_i32(s) is Some ==> (is_ascii_digit(s[0]) || s[0] == '-' || s[0] == '+'),
        parse_i32(s) is Some ==> forall|i: int| 1 <= i < s.len() ==> is_ascii_digit(#[trigger] s[i]),
        parse_i32(s) is Some ==> s.len() > 1 || is_ascii_digit(s[0]),
{
    if parse_i32(s) is Some {
        if s[0] == '-' || s[0] == '+' {
            assert forall|i: int| 1 <= i < s.len() implies is_ascii_digit(#[trigger] s[i]) by {
                assert(s[i] == s.drop_first()[i - 1]);
            }
        }
    }
}

proof fn lemma_digits_value_prefix(d: Seq<char>, k: int)
    requires
        all_ascii_digits(d),
        0 <= k <= d.len(),
    ensures
        0 <= digits_value(d.take(k)) <= digits_value(d),
    decreases d.len(),
{
    if k == d.len() {
        assert(d.take(k) =~= d);
        if d.len() > 0 {
            lemma_digits_value_prefix(d.drop_last(), k - 1);
            assert(d.drop_last().take(k - 1) =~= d.drop_last());
            assert(is_ascii_digit(d[d.len() - 1]));
        }
    } else {
        lemma_digits_value_prefix(d.drop_last(), k);
        assert(d.drop_last().take(k) =~= d.take(k));
        assert(is_ascii_digit(d[d.len() - 1]));
    }
}

/// `v[lo..hi].parse::<i32>().ok()`.
pub fn parse_i32_range(v: &Vec<char>, lo: usize, hi: usize) -> (r: Option<i32>)
    requires
        lo <= hi <= v.len(),
    ensures
        r == parse_i32(v@.subrange(lo as int, hi as int)),
{
    let ghost s = v@.subrange(lo as int, hi as int);
    let mut start = lo;
    let mut neg = false;
    if lo < hi && (v[lo] == '-' || v[lo] == '+') {
        neg = v[lo] == '-';
        start = lo + 1;
    }
    let ghost d = v@.subrange(start as int, hi as int);
    assert(d =~= (if s.len() > 0 && (s[0] == '-' || s[0] == '+') {
        s.drop_first()
    } else {
        s
    }));
    if start == hi {
        return None;
    }
    let mut acc: i64 = 0;
    let mut i = start;
    while i < hi
        invariant
            lo <= start <= i <= hi <= v.len(),
            d == v@.subrange(start as int, hi as int),
            s == v@.subrange(lo as int, hi as int),
            neg == (s.len() > 0 && s[0] == '-'),
            d == (if s.len() > 0 && (s[0] == '-' || s[0] == '+') {
                s.drop_first()
            } else {
                s
            }),
            forall|j: int| 0 <= j < i - start ==> #[trigger] is_ascii_digit(d[j]),
            acc == digits_value(d.take(i - start)),
            0 <= acc <= 2147483648,
        decreases hi - i,
    {
        let c = v[i];
        if !char_is_ascii_digit(c) {
            assert(d[i - start] == c);
            assert(!is_ascii_digit(d[i - start]));
            assert(!all_ascii_digits(d));
            return None;
        }
        assert(d.take(i - start + 1).drop_last() =~= d.take(i - start));
        assert(d.take(i - start + 1).last() == c);
        let digit = (c as u32 - 48) as i64;
        acc = acc * 10 + digit;
        if acc > 2147483648 {
            proof {
                if all_ascii_digits(d) {
                    lemma_digits_value_prefix(d, i - start + 1);
                }
            }
            return None;
        }
        i += 1;
    }
    assert(d.take(hi - start) =~= d);
    assert(all_ascii_digits(d));
    if neg {
        Some((-acc) as i32)
    } else if acc <= 2147483647 {
        Some(acc as i32)
    } else {
        None
    }
}

// ---------------------------------------------------------------------
// Lowercasing
// ---------------------------------------------------------------------

/// What `str::to_lowercase` returns for a text: its Unicode lowercase
/// mapping, which takes the Unicode tables to state.
pub uninterp spec fn lowercase(s: Seq<char>) -> Seq<char>;

/// `str::to_lowercase`. Trusted: its result is `lowercase` of the
/// argument's characters; nothing more is claimed of it.
#[verifier::external_body]
fn to_lowercase(s: &str) -> (r: String)
    ensures
        r@ == lowercase(s@),
{
    s.to_lowercase()
}

/// The lowercase text of `s` as a `String`.
pub fn lowercase_string(s: &str) -> (r: String)
    ensures
        r@ == lowercase(s@),
{
    to_lowercase(s)
}

} // verus!
