//! Reading a component's version out of what its `--version`-style command
//! printed.
use vstd::prelude::*;
use vstd::utf8::{encode_utf8, decode_utf8, is_char_boundary};
use vstd::string::StringSliceAdditionalSpecFns;
use crate::platform::Os;
use crate::text::{
    chars_of, find, find_bytes, find_chars, has_ascii_digit, lines, lowercase, lowercase_string,
    next_line, next_word, push_range, range_contains_char, range_equals, range_has_ascii_digit,
    str_eq, string_of, string_of_all, trim, trim_range, trim_to_version_chars,
    trim_version_range, words, is_whitespace, is_version_char, trim_start_version,
    trim_end_version, lemma_trim_idempotent, lemma_trim_of_solid, lemma_words_solid,
    lemma_trim_solid_word, is_solid_word, lemma_trim_keeps_digits, lemma_lines_keep_digits,
    lemma_lines_of_first_line, lemma_trim_strip_cr, lemma_words_of_first_word, lemma_find_spec,
    occurs_at, contains,
};

verus! {

broadcast use vstd::string::group_string_axioms, vstd::utf8::encode_utf8_decode_utf8;

// ---------------------------------------------------------------------
// YARA
// ---------------------------------------------------------------------

/// The first line of `s`, or all of `s` when it has no line.
pub open spec fn first_line_or_all(s: Seq<char>) -> Seq<char> {
    if lines(s).len() > 0 {
        lines(s)[0]
    } else {
        s
    }
}

/// YARA prints its version alone: the first line, trimmed.
pub open spec fn yara_version(s: Seq<char>) -> Option<Seq<char>> {
    Some(trim(first_line_or_all(s)))
}

pub fn parse_yara_version(out_str: &str) -> (r: Option<String>)
    ensures
        r.deep_view() == yara_version(out_str@),
{
    let v = chars_of(out_str);
    let len = v.len();
    assert(v@.subrange(0, len as int) =~= v@);
    match next_line(&v, 0, len) {
        Some((a, b, _n)) => {
            let (x, y) = trim_range(&v, a, b);
            Some(string_of(&v, x, y))
        },
        None => {
            let (x, y) = trim_range(&v, 0, len);
            Some(string_of(&v, x, y))
        },
    }
}

// ---------------------------------------------------------------------
// NetBird
// ---------------------------------------------------------------------

/// NetBird prints its version on the first line of its trimmed output.
pub open spec fn netbird_version(s: Seq<char>) -> Option<Seq<char>> {
    let ls = lines(trim(s));
    if ls.len() > 0 && trim(ls[0]).len() > 0 {
        Some(trim(ls[0]))
    } else {
        None
    }
}

pub fn parse_netbird_version(out_str: &str) -> (r: Option<String>)
    ensures
        r.deep_view() == netbird_version(out_str@),
{
    let v = chars_of(out_str);
    let len = v.len();
    assert(v@.subrange(0, len as int) =~= v@);
    let (a, b) = trim_range(&v, 0, len);
    match next_line(&v, a, b) {
        Some((la, lb, _n)) => {
            let (x, y) = trim_range(&v, la, lb);
            if x < y {
                Some(string_of(&v, x, y))
            } else {
                None
            }
        },
        None => None,
    }
}

// ---------------------------------------------------------------------
// Wazuh agent
// ---------------------------------------------------------------------

/// The Wazuh agent reports `WAZUH_VERSION="..."` (from `wazuh-control
/// info`) or `Wazuh v...`; on Windows the product version alone.
pub open spec fn wazuh_agent_version(s: Seq<char>, os: Os) -> Option<Seq<char>> {
    match find(s, "WAZUH_VERSION=\""@) {
        Some(i) => {
            let rest = s.skip(i + "WAZUH_VERSION=\""@.len());
            match find(rest, seq!['"']) {
                Some(e) => Some(rest.take(e)),
                None => None,
            }
        },
        None => match find(s, "Wazuh v"@) {
            Some(i) => {
                let ws = words(s.skip(i + "Wazuh v"@.len()));
                Some(
                    if ws.len() > 0 {
                        ws[0]
                    } else {
                        seq![]
                    },
                )
            },
            None => if os == Os::Windows && trim(s).len() > 0 {
                Some(trim(s))
            } else {
                None
            },
        },
    }
}

pub fn parse_wazuh_agent_version(out_str: &str, os: Os) -> (r: Option<String>)
    ensures
        r.deep_view() == wazuh_agent_version(out_str@, os),
{
    let v = chars_of(out_str);
    let len = v.len();
    assert(v@.subrange(0, len as int) =~= v@);
    let marker = chars_of("WAZUH_VERSION=\"");
    match find_chars(&v, 0, len, &marker) {
        Some(i) => {
            let start = i + marker.len();
            let quote = vec!['"'];
            assert(quote@ =~= seq!['"']);
            assert(v@.skip(start as int) =~= v@.subrange(start as int, len as int));
            match find_chars(&v, start, len, &quote) {
                Some(e) => {
                    assert(v@.skip(start as int).take(e - start) =~= v@.subrange(
                        start as int,
                        e as int,
                    ));
                    Some(string_of(&v, start, e))
                },
                None => None,
            }
        },
        None => {
            let marker2 = chars_of("Wazuh v");
            match find_chars(&v, 0, len, &marker2) {
                Some(i) => {
                    let start = i + marker2.len();
                    assert(v@.skip(start as int) =~= v@.subrange(start as int, len as int));
                    match next_word(&v, start, len) {
                        Some((a, b)) => Some(string_of(&v, a, b)),
                        None => Some(String::new()),
                    }
                },
                None => {
                    if os == Os::Windows {
                        let (a, b) = trim_range(&v, 0, len);
                        if a < b {
                            return Some(string_of(&v, a, b));
                        }
                    }
                    None
                },
            }
        },
    }
}

// ---------------------------------------------------------------------
// Other components
// ---------------------------------------------------------------------

/// How many times `c` occurs in `p`.
pub open spec fn count_char(p: Seq<char>, c: char) -> nat
    decreases p.len(),
{
    if p.len() == 0 {
        0
    } else {
        count_char(p.drop_last(), c) + if p.last() == c {
            1nat
        } else {
            0nat
        }
    }
}

/// A token that looks like a date: it has exactly two `-`, so that
/// splitting it at `-` gives three parts.
pub open spec fn is_date_token(p: Seq<char>) -> bool {
    p.contains('-') && count_char(p, '-') == 2
}

/// A token that looks like a path.
pub open spec fn is_path_token(p: Seq<char>) -> bool {
    p.contains('/') || p.contains('\\')
}

/// A token that looks like a version number: it has a digit and a dot,
/// and is neither a date nor a path.
pub open spec fn is_version_token(p: Seq<char>) -> bool {
    has_ascii_digit(p) && p.contains('.') && !is_date_token(p) && !is_path_token(p)
}

/// The first version-like token of `ps`.
pub open spec fn first_version_token(ps: Seq<Seq<char>>) -> Option<Seq<char>>
    decreases ps.len(),
{
    if ps.len() == 0 {
        None
    } else if is_version_token(ps[0]) {
        Some(ps[0])
    } else {
        first_version_token(ps.drop_first())
    }
}

/// Among `ls`, the first line with a digit gives the version: its first
/// version-like word, or else the whole trimmed line.
pub open spec fn default_version_in(ls: Seq<Seq<char>>) -> Option<Seq<char>>
    decreases ls.len(),
{
    if ls.len() == 0 {
        None
    } else {
        let t = trim(ls[0]);
        if has_ascii_digit(t) {
            Some(
                match first_version_token(words(t)) {
                    Some(p) => p,
                    None => t,
                },
            )
        } else {
            default_version_in(ls.drop_first())
        }
    }
}

/// The version of a component with no reader of its own.
pub open spec fn default_version(s: Seq<char>) -> Option<Seq<char>> {
    default_version_in(lines(s))
}

/// The number of `c` in `v[lo..hi]`.
fn count_char_range(v: &Vec<char>, lo: usize, hi: usize, c: char) -> (r: usize)
    requires
        lo <= hi <= v.len(),
    ensures
        r == count_char(v@.subrange(lo as int, hi as int), c),
{
    let mut n: usize = 0;
    let mut i = lo;
    while i < hi
        invariant
            lo <= i <= hi <= v.len(),
            n == count_char(v@.subrange(lo as int, i as int), c),
            n <= i - lo,
        decreases hi - i,
    {
        assert(v@.subrange(lo as int, i + 1).drop_last() =~= v@.subrange(lo as int, i as int));
        if v[i] == c {
            n += 1;
        }
        i += 1;
    }
    n
}

/// Whether `v[lo..hi]` is a version-like token.
fn range_is_version_token(v: &Vec<char>, lo: usize, hi: usize) -> (r: bool)
    requires
        lo <= hi <= v.len(),
    ensures
        r == is_version_token(v@.subrange(lo as int, hi as int)),
{
    let is_date = range_contains_char(v, lo, hi, '-') && count_char_range(v, lo, hi, '-') == 2;
    let is_path = range_contains_char(v, lo, hi, '/') || range_contains_char(v, lo, hi, '\\');
    range_has_ascii_digit(v, lo, hi) && range_contains_char(v, lo, hi, '.') && !is_date
        && !is_path
}

/// The version read from the trimmed line `v[lo..hi]`, which has a digit.
fn version_from_line(v: &Vec<char>, lo: usize, hi: usize) -> (r: String)
    requires
        lo <= hi <= v.len(),
    ensures
        r@ == match first_version_token(words(v@.subrange(lo as int, hi as int))) {
            Some(p) => p,
            None => v@.subrange(lo as int, hi as int),
        },
{
    let ghost all = words(v@.subrange(lo as int, hi as int));
    let mut pos = lo;
    loop
        invariant
            lo <= pos <= hi <= v.len(),
            first_version_token(all) == first_version_token(
                words(v@.subrange(pos as int, hi as int)),
            ),
            all == words(v@.subrange(lo as int, hi as int)),
        decreases hi - pos,
    {
        match next_word(v, pos, hi) {
            None => {
                return string_of(v, lo, hi);
            },
            Some((a, b)) => {
                let ghost rest = words(v@.subrange(b as int, hi as int));
                let ghost ws = seq![v@.subrange(a as int, b as int)] + rest;
                assert(ws[0] == v@.subrange(a as int, b as int));
                assert(ws.drop_first() =~= rest);
                if range_is_version_token(v, a, b) {
                    return string_of(v, a, b);
                }
                pos = b;
            },
        }
    }
}

pub fn parse_default_version(out_str: &str) -> (r: Option<String>)
    ensures
        r.deep_view() == default_version(out_str@),
{
    let v = chars_of(out_str);
    let len = v.len();
    assert(v@.subrange(0, len as int) =~= v@);
    let mut pos: usize = 0;
    loop
        invariant
            pos <= len == v.len(),
            v@ == out_str@,
            default_version(out_str@) == default_version_in(
                lines(v@.subrange(pos as int, len as int)),
            ),
        decreases len - pos,
    {
        match next_line(&v, pos, len) {
            None => {
                return None;
            },
            Some((a, b, n)) => {
                let ghost rest = lines(v@.subrange(n as int, len as int));
                let ghost ls = seq![v@.subrange(a as int, b as int)] + rest;
                assert(ls[0] == v@.subrange(a as int, b as int));
                assert(ls.drop_first() =~= rest);
                let (x, y) = trim_range(&v, a, b);
                if range_has_ascii_digit(&v, x, y) {
                    return Some(version_from_line(&v, x, y));
                }
                pos = n;
            },
        }
    }
}

// ---------------------------------------------------------------------
// Suricata
// ---------------------------------------------------------------------

/// The byte offset just after the first occurrence of `marker` in the
/// UTF-8 bytes of `lower`, the lowercased text. The offset is then used
/// on the bytes of the given text.
pub open spec fn marker_end(lower: Seq<char>, marker: Seq<char>) -> Option<int> {
    match find(encode_utf8(lower), encode_utf8(marker)) {
        Some(i) => Some(i + encode_utf8(marker).len()),
        None => None,
    }
}

/// The text of `s` from byte offset `b` on.
pub open spec fn bytes_tail(s: Seq<char>, b: int) -> Seq<char> {
    decode_utf8(encode_utf8(s).subrange(b, encode_utf8(s).len() as int))
}

/// The first word of `s` after `marker`, found in `lower`, with
/// characters other than ASCII alphanumerics and `.` trimmed from both
/// its ends.
pub open spec fn word_after_marker(s: Seq<char>, lower: Seq<char>, marker: Seq<char>) -> Option<
    Seq<char>,
> {
    match marker_end(lower, marker) {
        Some(b) => {
            let ws = words(bytes_tail(s, b));
            if ws.len() > 0 {
                Some(trim_to_version_chars(ws[0]))
            } else {
                None
            }
        },
        None => None,
    }
}

/// Whether the word after `version ` gives the version.
pub open spec fn found_after_version(s: Seq<char>, lower: Seq<char>) -> bool {
    word_after_marker(s, lower, "version "@) matches Some(w) && w.len() > 0
}

/// Whether the word after `suricata ` gives the version.
pub open spec fn found_after_name(s: Seq<char>, lower: Seq<char>) -> bool {
    word_after_marker(s, lower, "suricata "@) matches Some(w) && w.len() > 0 && w != "version"@
}

/// Suricata's version read from its output `s`, whose lowercase form is
/// `lower`: the word after `version `, else the word after `suricata `
/// unless it is `version`, else the whole trimmed output.
pub open spec fn suricata_version_given(s: Seq<char>, lower: Seq<char>) -> Option<Seq<char>> {
    if found_after_version(s, lower) {
        word_after_marker(s, lower, "version "@)
    } else if found_after_name(s, lower) {
        word_after_marker(s, lower, "suricata "@)
    } else {
        Some(trim(s))
    }
}

/// The offsets found in `lower` that the reading uses fall on character
/// boundaries of `s`, so that `s` can be cut there.
pub open spec fn suricata_slicing_ok_given(s: Seq<char>, lower: Seq<char>) -> bool {
    &&& (marker_end(lower, "version "@) matches Some(b) ==> is_char_boundary(encode_utf8(s), b))
    &&& (!found_after_version(s, lower) ==> (marker_end(lower, "suricata "@) matches Some(b)
        ==> is_char_boundary(encode_utf8(s), b)))
}

/// Suricata's version: the markers are searched without regard to case.
pub open spec fn suricata_version(s: Seq<char>) -> Option<Seq<char>> {
    suricata_version_given(s, lowercase(s))
}

/// The offsets found in the lowercased text fall on character boundaries
/// of the given text, so the given text can be cut there. Lowercasing can
/// change the length of a character's encoding (for example `'\u{23a}'`
/// becomes `'\u{2c65}'`), and then it may not.
pub open spec fn suricata_slicing_ok(s: Seq<char>) -> bool {
    suricata_slicing_ok_given(s, lowercase(s))
}

/// The characters held by an optional vector.
pub open spec fn opt_chars(o: Option<Vec<char>>) -> Option<Seq<char>> {
    match o {
        Some(v) => Some(v@),
        None => None,
    }
}

/// The word after `marker`: `None` when the offset does not fall on a
/// character boundary of `out_str`, else `word_after_marker`.
fn word_after_marker_exec(out_str: &str, lower: &str, marker: &str) -> (r: Option<
    Option<Vec<char>>,
>)
    ensures
        r is None <==> (marker_end(lower@, marker@) matches Some(b) && !is_char_boundary(
            encode_utf8(out_str@),
            b,
        )),
        r matches Some(w) ==> opt_chars(w) == word_after_marker(out_str@, lower@, marker@),
{
    let needle = marker.as_bytes();
    match find_bytes(lower.as_bytes(), needle) {
        None => Some(None),
        Some(i) => {
            let cut = i + needle.len();
            if !out_str.is_char_boundary(cut) {
                return None;
            }
            let (_head, rest) = out_str.split_at(cut);
            assert(rest@ == bytes_tail(out_str@, cut as int)) by {
                assert(rest.spec_bytes() =~= encode_utf8(out_str@).subrange(
                    cut as int,
                    encode_utf8(out_str@).len() as int,
                ));
            }
            let v = chars_of(rest);
            let len = v.len();
            assert(v@.subrange(0, len as int) =~= v@);
            match next_word(&v, 0, len) {
                None => Some(None),
                Some((a, b)) => {
                    let (x, y) = trim_version_range(&v, a, b);
                    let mut w: Vec<char> = Vec::new();
                    push_range(&mut w, &v, x, y);
                    assert(w@ =~= v@.subrange(x as int, y as int));
                    Some(Some(w))
                },
            }
        },
    }
}

/// Suricata's version read from its output `out_str`, the markers searched
/// in `lower`, its lowercase form; `None` where an offset found in `lower`
/// does not fall on a character boundary of `out_str`.
pub fn suricata_version_given_lowercase(out_str: &str, lower: &str) -> (r: Option<Option<String>>)
    ensures
        r is Some <==> suricata_slicing_ok_given(out_str@, lower@),
        r matches Some(x) ==> x.deep_view() == suricata_version_given(out_str@, lower@),
{
    let first = word_after_marker_exec(out_str, lower, "version ");
    match first {
        None => {
            return None;
        },
        Some(Some(w)) => {
            if w.len() > 0 {
                return Some(Some(string_of_all(&w)));
            }
        },
        Some(None) => {},
    }
    assert(!found_after_version(out_str@, lower@));
    let second = word_after_marker_exec(out_str, lower, "suricata ");
    match second {
        None => None,
        Some(found) => {
            if let Some(w) = found {
                let version_word = chars_of("version");
                if w.len() > 0 && !range_equals(&w, 0, w.len(), &version_word) {
                    assert(w@.subrange(0, w.len() as int) =~= w@);
                    return Some(Some(string_of_all(&w)));
                }
                assert(w@.subrange(0, w.len() as int) =~= w@);
            }
            let v = chars_of(out_str);
            let (a, b) = trim_range(&v, 0, v.len());
            assert(v@.subrange(0, v.len() as int) =~= v@);
            Some(Some(string_of(&v, a, b)))
        },
    }
}

/// Suricata's version, or `None` where `suricata_slicing_ok` fails.
fn suricata_attempt(out_str: &str) -> (r: Option<Option<String>>)
    ensures
        r is Some <==> suricata_slicing_ok(out_str@),
        r matches Some(x) ==> x.deep_view() == suricata_version(out_str@),
{
    let lower = lowercase_string(out_str);
    suricata_version_given_lowercase(out_str, lower.as_str())
}

pub fn parse_suricata_version(out_str: &str) -> (r: Option<String>)
    requires
        suricata_slicing_ok(out_str@),
    ensures
        r.deep_view() == suricata_version(out_str@),
{
    match suricata_attempt(out_str) {
        Some(x) => x,
        None => None,
    }
}

/// `parse_suricata_version` where the given text can be cut at the
/// offsets found in its lowercase form, and `None` where it cannot.
pub fn try_parse_suricata_version(out_str: &str) -> (r: Option<Option<String>>)
    ensures
        r is Some <==> suricata_slicing_ok(out_str@),
        r matches Some(x) ==> x.deep_view() == suricata_version(out_str@),
{
    if suricata_attempt(out_str).is_some() {
        Some(parse_suricata_version(out_str))
    } else {
        None
    }
}

// ---------------------------------------------------------------------
// Dispatch by component
// ---------------------------------------------------------------------

/// The version of component `name` read from its output `s`.
pub open spec fn component_version(name: Seq<char>, s: Seq<char>, os: Os) -> Option<Seq<char>> {
    if name == "YARA"@ {
        yara_version(s)
    } else if name == "Suricata"@ {
        suricata_version(s)
    } else if name == "Wazuh Agent"@ {
        wazuh_agent_version(s, os)
    } else if name == "NetBird"@ {
        netbird_version(s)
    } else {
        default_version(s)
    }
}

/// What reading the version of `name` needs of its output.
pub open spec fn component_version_readable(name: Seq<char>, s: Seq<char>) -> bool {
    name == "Suricata"@ ==> suricata_slicing_ok(s)
}

pub fn parse_component_version(name: &str, out_str: &str, os: Os) -> (r: Option<String>)
    requires
        component_version_readable(name@, out_str@),
    ensures
        r.deep_view() == component_version(name@, out_str@, os),
{
    if str_eq(name, "YARA") {
        parse_yara_version(out_str)
    } else if str_eq(name, "Suricata") {
        parse_suricata_version(out_str)
    } else if str_eq(name, "Wazuh Agent") {
        parse_wazuh_agent_version(out_str, os)
    } else if str_eq(name, "NetBird") {
        parse_netbird_version(out_str)
    } else {
        parse_default_version(out_str)
    }
}

/// `parse_component_version` where its requirement holds, and `None`
/// where it does not.
pub fn try_parse_component_version(name: &str, out_str: &str, os: Os) -> (r: Option<
    Option<String>,
>)
    ensures
        r is Some <==> component_version_readable(name@, out_str@),
        r matches Some(x) ==> x.deep_view() == component_version(name@, out_str@, os),
{
    if str_eq(name, "Suricata") && try_parse_suricata_version(out_str).is_none() {
        None
    } else {
        Some(parse_component_version(name, out_str, os))
    }
}

// ---------------------------------------------------------------------
// Laws
// ---------------------------------------------------------------------

proof fn lemma_trim_start_version_shape(s: Seq<char>)
    ensures
        trim_start_version(s).len() == 0 || is_version_char(trim_start_version(s)[0]),
    decreases s.len(),
{
    if s.len() > 0 && !is_version_char(s[0]) {
        lemma_trim_start_version_shape(s.drop_first());
    }
}

proof fn lemma_trim_end_version_shape(s: Seq<char>)
    ensures
        trim_end_version(s).len() <= s.len(),
        trim_end_version(s) == s.take(trim_end_version(s).len() as int),
        trim_end_version(s).len() == 0 || is_version_char(trim_end_version(s).last()),
    decreases s.len(),
{
    if s.len() > 0 && !is_version_char(s.last()) {
        lemma_trim_end_version_shape(s.drop_last());
        assert(s.drop_last().take(trim_end_version(s).len() as int) =~= s.take(
            trim_end_version(s).len() as int,
        ));
    } else {
        assert(s.take(s.len() as int) =~= s);
    }
}

/// A word cut down to version characters has no surrounding whitespace.
proof fn lemma_version_word_trimmed(w: Seq<char>)
    ensures
        trim(trim_to_version_chars(w)) == trim_to_version_chars(w),
{
    let t = trim_start_version(w);
    let u = trim_end_version(t);
    lemma_trim_start_version_shape(w);
    lemma_trim_end_version_shape(t);
    if u.len() > 0 {
        assert(u[0] == t[0]);
        assert(is_version_char(u[0]));
        assert(!is_whitespace(u[0]));
        assert(!is_whitespace(u.last()));
    }
    lemma_trim_of_solid(u);
}

proof fn lemma_first_version_token_member(ps: Seq<Seq<char>>)
    ensures
        first_version_token(ps) matches Some(p) ==> exists|i: int| 0 <= i < ps.len() && ps[i] == p,
    decreases ps.len(),
{
    if ps.len() > 0 && !is_version_token(ps[0]) {
        lemma_first_version_token_member(ps.drop_first());
        if let Some(p) = first_version_token(ps) {
            let i = choose|i: int| 0 <= i < ps.drop_first().len() && ps.drop_first()[i] == p;
            assert(ps[i + 1] == p);
        }
    }
}

proof fn lemma_default_version_trimmed(ls: Seq<Seq<char>>)
    ensures
        default_version_in(ls) matches Some(v) ==> trim(v) == v,
    decreases ls.len(),
{
    if ls.len() > 0 {
        let t = trim(ls[0]);
        if has_ascii_digit(t) {
            lemma_trim_idempotent(ls[0]);
            lemma_first_version_token_member(words(t));
            lemma_words_solid(t);
            if let Some(p) = first_version_token(words(t)) {
                let i = choose|i: int| 0 <= i < words(t).len() && words(t)[i] == p;
                assert(is_solid_word(words(t)[i]));
                lemma_trim_solid_word(p);
            }
        } else {
            lemma_default_version_trimmed(ls.drop_first());
        }
    }
}

/// A version read for any component but the Wazuh agent has no leading
/// or trailing whitespace.
pub proof fn law_versions_trimmed(name: Seq<char>, s: Seq<char>, os: Os)
    requires
        name != "Wazuh Agent"@,
    ensures
        component_version(name, s, os) matches Some(v) ==> trim(v) == v,
{
    if name == "YARA"@ {
        lemma_trim_idempotent(first_line_or_all(s));
    } else if name == "Suricata"@ {
        let lower = lowercase(s);
        if found_after_version(s, lower) {
            let ws = words(bytes_tail(s, marker_end(lower, "version "@)->0));
            lemma_version_word_trimmed(ws[0]);
        } else if found_after_name(s, lower) {
            let ws = words(bytes_tail(s, marker_end(lower, "suricata "@)->0));
            lemma_version_word_trimmed(ws[0]);
        } else {
            lemma_trim_idempotent(s);
        }
    } else if name == "NetBird"@ {
        let ls = lines(trim(s));
        if ls.len() > 0 {
            lemma_trim_idempotent(ls[0]);
        }
    } else {
        lemma_default_version_trimmed(lines(s));
    }
}

/// `i` is the first of `ls` that holds an ASCII digit.
pub open spec fn first_with_digit(ls: Seq<Seq<char>>, i: int) -> bool {
    &&& 0 <= i < ls.len()
    &&& has_ascii_digit(ls[i])
    &&& forall|j: int| 0 <= j < i ==> !has_ascii_digit(#[trigger] ls[j])
}

proof fn lemma_default_version_in(ls: Seq<Seq<char>>)
    ensures
        default_version_in(ls) is None <==> !exists|i: int|
            0 <= i < ls.len() && #[trigger] has_ascii_digit(ls[i]),
        default_version_in(ls) matches Some(v) ==> has_ascii_digit(v) && exists|i: int|
            #[trigger] first_with_digit(ls, i) && (v == trim(ls[i]) || words(trim(ls[i])).contains(
                v,
            )),
    decreases ls.len(),
{
    if ls.len() == 0 {
    } else {
        let t = trim(ls[0]);
        lemma_trim_keeps_digits(ls[0]);
        if has_ascii_digit(t) {
            assert(first_with_digit(ls, 0));
            lemma_first_version_token_member(words(t));
            if let Some(p) = first_version_token(words(t)) {
                let k = choose|k: int| 0 <= k < words(t).len() && words(t)[k] == p;
                assert(words(t).contains(p));
                lemma_first_version_token_is_version(words(t));
            }
        } else {
            let rest = ls.drop_first();
            lemma_default_version_in(rest);
            if exists|i: int| 0 <= i < ls.len() && #[trigger] has_ascii_digit(ls[i]) {
                let i = choose|i: int| 0 <= i < ls.len() && #[trigger] has_ascii_digit(ls[i]);
                assert(i > 0);
                assert(rest[i - 1] == ls[i]);
                assert(has_ascii_digit(rest[i - 1]));
            }
            if exists|i: int| 0 <= i < rest.len() && #[trigger] has_ascii_digit(rest[i]) {
                let i = choose|i: int| 0 <= i < rest.len() && #[trigger] has_ascii_digit(rest[i]);
                assert(ls[i + 1] == rest[i]);
                assert(has_ascii_digit(ls[i + 1]));
            }
            if let Some(v) = default_version_in(rest) {
                let i = choose|i: int|
                    #[trigger] first_with_digit(rest, i) && (v == trim(rest[i]) || words(
                        trim(rest[i]),
                    ).contains(v));
                assert(ls[i + 1] == rest[i]);
                assert forall|j: int| 0 <= j < i + 1 implies !has_ascii_digit(#[trigger] ls[j]) by {
                    if j > 0 {
                        assert(ls[j] == rest[j - 1]);
                    }
                }
                assert(first_with_digit(ls, i + 1));
            }
        }
    }
}

proof fn lemma_first_version_token_is_version(ps: Seq<Seq<char>>)
    ensures
        first_version_token(ps) matches Some(p) ==> is_version_token(p),
    decreases ps.len(),
{
    if ps.len() > 0 && !is_version_token(ps[0]) {
        lemma_first_version_token_is_version(ps.drop_first());
    }
}

/// A component with no reader of its own reports no version exactly when
/// its output holds no ASCII digit. Otherwise the version holds a digit,
/// and it is a word of the first line that holds a digit, or that whole
/// line trimmed.
pub proof fn law_default_version_digits(s: Seq<char>)
    ensures
        default_version(s) is None <==> !has_ascii_digit(s),
        default_version(s) matches Some(v) ==> has_ascii_digit(v) && exists|i: int|
            #[trigger] first_with_digit(lines(s), i) && (v == trim(lines(s)[i]) || words(
                trim(lines(s)[i]),
            ).contains(v)),
{
    lemma_default_version_in(lines(s));
    lemma_lines_keep_digits(s);
}

/// `k` is the first of the words `ws` that looks like a version number.
pub open spec fn first_version_word_at(ws: Seq<Seq<char>>, k: int) -> bool {
    &&& 0 <= k < ws.len()
    &&& is_version_token(ws[k])
    &&& forall|j: int| 0 <= j < k ==> !is_version_token(#[trigger] ws[j])
}

/// None of the words `ws` looks like a version number.
pub open spec fn no_version_word(ws: Seq<Seq<char>>) -> bool {
    forall|j: int| 0 <= j < ws.len() ==> !is_version_token(#[trigger] ws[j])
}

proof fn lemma_first_version_token_first(ps: Seq<Seq<char>>)
    ensures
        first_version_token(ps) matches Some(p) ==> exists|k: int|
            #[trigger] first_version_word_at(ps, k) && ps[k] == p,
        first_version_token(ps) is None ==> no_version_word(ps),
    decreases ps.len(),
{
    if ps.len() == 0 {
    } else if is_version_token(ps[0]) {
        assert(first_version_word_at(ps, 0));
    } else {
        let rest = ps.drop_first();
        lemma_first_version_token_first(rest);
        if let Some(p) = first_version_token(rest) {
            let k = choose|k: int| #[trigger] first_version_word_at(rest, k) && rest[k] == p;
            assert forall|j: int| 0 <= j < k + 1 implies !is_version_token(#[trigger] ps[j]) by {
                if j > 0 {
                    assert(ps[j] == rest[j - 1]);
                }
            }
            assert(first_version_word_at(ps, k + 1));
        } else {
            assert forall|j: int| 0 <= j < ps.len() implies !is_version_token(#[trigger] ps[j]) by {
                if j > 0 {
                    assert(ps[j] == rest[j - 1]);
                }
            }
        }
    }
}

/// The version read from the line `t` (trimmed): its first version-like
/// word, or the whole line when it has none.
pub open spec fn version_of_line(t: Seq<char>, v: Seq<char>) -> bool {
    ||| exists|k: int| #[trigger] first_version_word_at(words(t), k) && v == words(t)[k]
    ||| (no_version_word(words(t)) && v == t)
}

proof fn lemma_default_version_in_first_word(ls: Seq<Seq<char>>)
    ensures
        default_version_in(ls) matches Some(v) ==> exists|i: int|
            #[trigger] first_with_digit(ls, i) && version_of_line(trim(ls[i]), v),
    decreases ls.len(),
{
    if ls.len() > 0 {
        let t = trim(ls[0]);
        lemma_trim_keeps_digits(ls[0]);
        if has_ascii_digit(t) {
            assert(first_with_digit(ls, 0));
            lemma_first_version_token_first(words(t));
        } else {
            let rest = ls.drop_first();
            lemma_default_version_in_first_word(rest);
            if let Some(v) = default_version_in(rest) {
                let i = choose|i: int|
                    #[trigger] first_with_digit(rest, i) && version_of_line(trim(rest[i]), v);
                assert(ls[i + 1] == rest[i]);
                assert forall|j: int| 0 <= j < i + 1 implies !has_ascii_digit(#[trigger] ls[j]) by {
                    if j > 0 {
                        assert(ls[j] == rest[j - 1]);
                    }
                }
                assert(first_with_digit(ls, i + 1));
            }
        }
    }
}

/// The default reader takes, from the first line that holds a digit, the
/// first word that looks like a version number (a digit and a dot, not a
/// date, not a path); only when that line has no such word is the whole
/// trimmed line the version.
pub proof fn law_default_version_first_version_word(s: Seq<char>)
    ensures
        default_version(s) matches Some(v) ==> exists|i: int|
            #[trigger] first_with_digit(lines(s), i) && version_of_line(trim(lines(s)[i]), v),
{
    lemma_default_version_in_first_word(lines(s));
}

/// Each component's output is read by its own reader: YARA, Suricata, the
/// Wazuh agent and NetBird by theirs (the name compared exactly, case
/// included), any other by the default reader.
pub proof fn law_component_version_dispatch(name: Seq<char>, s: Seq<char>, os: Os)
    ensures
        name == "YARA"@ ==> component_version(name, s, os) == yara_version(s),
        name == "Suricata"@ ==> component_version(name, s, os) == suricata_version(s),
        name == "Wazuh Agent"@ ==> component_version(name, s, os) == wazuh_agent_version(s, os),
        name == "NetBird"@ ==> component_version(name, s, os) == netbird_version(s),
        (name != "YARA"@ && name != "Suricata"@ && name != "Wazuh Agent"@ && name != "NetBird"@)
            ==> component_version(name, s, os) == default_version(s),
{
    reveal_strlit("YARA");
    reveal_strlit("Suricata");
    reveal_strlit("Wazuh Agent");
    reveal_strlit("NetBird");
    assert("YARA"@.len() == 4);
    assert("Suricata"@.len() == 8);
    assert("Wazuh Agent"@.len() == 11);
    assert("NetBird"@.len() == 7);
}

/// YARA's version is its output's first line, trimmed (a `"\r\n"` ending
/// included); output of a single line gives that line, trimmed.
pub proof fn law_yara_first_line(t: Seq<char>, rest: Seq<char>)
    requires
        !t.contains('\n'),
    ensures
        yara_version(t + seq!['\n'] + rest) == Some(trim(t)),
        yara_version(t) == Some(trim(t)),
{
    lemma_lines_of_first_line(t, rest);
    lemma_trim_strip_cr(t);
}

proof fn lemma_trim_of_nonblank_start(t: Seq<char>)
    requires
        t.len() > 0,
        !is_whitespace(t[0]),
    ensures
        trim(t).len() > 0,
    decreases t.len(),
{
    if is_whitespace(t.last()) {
        assert(t.len() > 1);
        assert(t.drop_last()[0] == t[0]);
        lemma_trim_of_nonblank_start(t.drop_last());
    }
}

/// NetBird's version is the first line of its output, trimmed, when the
/// output neither starts nor ends with whitespace; blank output gives none.
pub proof fn law_netbird_first_line(t: Seq<char>, rest: Seq<char>)
    requires
        !t.contains('\n'),
        t.len() > 0,
        !is_whitespace(t[0]),
        rest.len() > 0,
        !is_whitespace(rest.last()),
    ensures
        netbird_version(t + seq!['\n'] + rest) == Some(trim(t)),
{
    let s = t + seq!['\n'] + rest;
    assert(s[0] == t[0]);
    assert(s.last() == rest.last());
    crate::text::lemma_trim_of_solid(s);
    lemma_lines_of_first_line(t, rest);
    lemma_trim_strip_cr(t);
    lemma_trim_of_nonblank_start(t);
}

/// Blank output gives no NetBird version.
pub proof fn law_netbird_blank_output(s: Seq<char>)
    requires
        trim(s).len() == 0,
    ensures
        netbird_version(s) is None,
{
    assert(trim(s) =~= Seq::<char>::empty());
}

/// The Wazuh agent's version: after `WAZUH_VERSION="`, the text up to the
/// closing `"`; else, after `Wazuh v`, the first word; else, on Windows,
/// the whole trimmed output when it is not blank, and none elsewhere.
pub proof fn law_wazuh_agent_version(v: Seq<char>, w: Seq<char>, b: Seq<char>, s: Seq<char>, os: Os)
    ensures
        !v.contains('"') ==> wazuh_agent_version(
            "WAZUH_VERSION=\""@ + v + "\""@ + b,
            os,
        ) == Some(v),
        (is_solid_word(w) && !contains("Wazuh v"@ + w + seq![' '] + b, "WAZUH_VERSION=\""@))
            ==> wazuh_agent_version("Wazuh v"@ + w + seq![' '] + b, os) == Some(w),
        (!contains(s, "WAZUH_VERSION=\""@) && !contains(s, "Wazuh v"@)) ==> wazuh_agent_version(s, os)
            == if os == Os::Windows && trim(s).len() > 0 {
            Some(trim(s))
        } else {
            None::<Seq<char>>
        },
{
    reveal_strlit("WAZUH_VERSION=\"");
    reveal_strlit("\"");
    reveal_strlit("Wazuh v");
    let m = "WAZUH_VERSION=\""@;
    if !v.contains('"') {
        let h = m + v + "\""@ + b;
        assert(h.subrange(0, m.len() as int) =~= m);
        assert(occurs_at(h, m, 0));
        let rest = h.skip(m.len() as int);
        assert(rest =~= v + seq!['"'] + b);
        let q = seq!['"'];
        assert(rest.subrange(v.len() as int, v.len() + 1 as int) =~= q);
        assert(occurs_at(rest, q, v.len() as int));
        lemma_find_spec(rest, q);
        match find(rest, q) {
            Some(k) => {
                if k < v.len() {
                    assert(rest.subrange(k, k + 1)[0] == rest[k]);
                    assert(rest[k] == v[k]);
                    assert(v[k] == '"');
                }
                if k > v.len() {
                    assert(!occurs_at(rest, q, v.len() as int));
                }
            },
            None => {
                assert(!occurs_at(rest, q, v.len() as int));
            },
        }
        assert(rest.take(v.len() as int) =~= v);
    }
    if is_solid_word(w) && !contains("Wazuh v"@ + w + seq![' '] + b, m) {
        let n = "Wazuh v"@;
        let h = n + w + seq![' '] + b;
        assert(h.subrange(0, n.len() as int) =~= n);
        assert(occurs_at(h, n, 0));
        assert(h.skip(n.len() as int) =~= w + seq![' '] + b);
        lemma_words_of_first_word(w, b);
    }
}

/// How Suricata's output is read, given its lowercase form: a non-empty
/// word after `version ` wins; else a non-empty word after `suricata `
/// other than `version`; else the whole trimmed output. A word read is
/// cut down so that it starts and ends with an ASCII letter, digit or `.`.
pub proof fn law_suricata_reading(s: Seq<char>, lower: Seq<char>)
    ensures
        (word_after_marker(s, lower, "version "@) matches Some(w) && w.len() > 0)
            ==> suricata_version_given(s, lower) == word_after_marker(s, lower, "version "@),
        (marker_end(lower, "version "@) is None && marker_end(lower, "suricata "@) is None)
            ==> suricata_version_given(s, lower) == Some(trim(s)),
        (!(word_after_marker(s, lower, "version "@) matches Some(w) && w.len() > 0)
            && word_after_marker(s, lower, "suricata "@) == Some("version"@))
            ==> suricata_version_given(s, lower) == Some(trim(s)),
        suricata_version_given(s, lower) matches Some(v) ==> v == trim(s) || (v.len() > 0
            && is_version_char(v[0]) && is_version_char(v.last())),
{
    if let Some(b) = marker_end(lower, "version "@) {
        let ws = words(bytes_tail(s, b));
        if ws.len() > 0 {
            lemma_trim_start_version_shape(ws[0]);
            lemma_trim_end_version_shape(trim_start_version(ws[0]));
        }
    }
    if let Some(b) = marker_end(lower, "suricata "@) {
        let ws = words(bytes_tail(s, b));
        if ws.len() > 0 {
            lemma_trim_start_version_shape(ws[0]);
            lemma_trim_end_version_shape(trim_start_version(ws[0]));
            let t = trim_start_version(ws[0]);
            let u = trim_end_version(t);
            if u.len() > 0 {
                assert(u[0] == t[0]);
            }
        }
    }
    if let Some(b) = marker_end(lower, "version "@) {
        let ws = words(bytes_tail(s, b));
        if ws.len() > 0 {
            let t = trim_start_version(ws[0]);
            let u = trim_end_version(t);
            if u.len() > 0 {
                assert(u[0] == t[0]);
            }
        }
    }
}

/// YARA's version is always reported, possibly empty.
pub proof fn law_yara_version_always_reported(s: Seq<char>)
    ensures
        yara_version(s) is Some,
{
}

} // verus!
