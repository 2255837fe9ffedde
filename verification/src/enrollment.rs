//! Whether this machine is enrolled, read from the agent's key file and
//! its configuration.
use vstd::prelude::*;
use crate::platform::Os;
use crate::text::{
    chars_of, ends_with, lines, next_line, next_word, range_ends_with, range_starts_with,
    starts_with, string_of, trim, trim_range, words, is_solid_word, lemma_words_solid,
};

verus! {

broadcast use vstd::string::group_string_axioms;

/// The first line of `ls` that is not blank.
pub open spec fn first_nonblank_line(ls: Seq<Seq<char>>) -> Option<Seq<char>>
    decreases ls.len(),
{
    if ls.len() == 0 {
        None
    } else if trim(ls[0]).len() > 0 {
        Some(ls[0])
    } else {
        first_nonblank_line(ls.drop_first())
    }
}

/// The agent's name: the second word of the first non-blank line of its
/// key file.
pub open spec fn enrolled_agent_name(content: Seq<char>) -> Option<Seq<char>> {
    match first_nonblank_line(lines(content)) {
        Some(l) => if words(l).len() > 1 {
            Some(words(l)[1])
        } else {
            None
        },
        None => None,
    }
}

pub fn parse_enrollment_agent_name(content: &str) -> (r: Option<String>)
    ensures
        r.deep_view() == enrolled_agent_name(content@),
{
    let v = chars_of(content);
    let len = v.len();
    assert(v@.subrange(0, len as int) =~= v@);
    let mut pos: usize = 0;
    loop
        invariant
            pos <= len == v.len(),
            v@ == content@,
            first_nonblank_line(lines(content@)) == first_nonblank_line(
                lines(v@.subrange(pos as int, len as int)),
            ),
        decreases len - pos,
    {
        match next_line(&v, pos, len) {
            None => {
                return None;
            },
            Some((a, b, n)) => {
                let ghost rest = lines(v@.subrange(n as int, len as int));
                let ghost ls = seq![v@.subrange(a as int, b as int)] + rest;
                assert(ls[0] == v@.subrange(a as int, b as int));
                assert(ls.drop_first() =~= rest);
                let (x, y) = trim_range(&v, a, b);
                if x < y {
                    match next_word(&v, a, b) {
                        None => {
                            return None;
                        },
                        Some((_wa, wb)) => {
                            match next_word(&v, wb, b) {
                                None => {
                                    return None;
                                },
                                Some((sa, sb)) => {
                                    return Some(string_of(&v, sa, sb));
                                },
                            }
                        },
                    }
                }
                pos = n;
            },
        }
    }
}

/// The first line of `ls` that, trimmed, starts with `<address>`.
pub open spec fn first_address_line(ls: Seq<Seq<char>>) -> Option<Seq<char>>
    decreases ls.len(),
{
    if ls.len() == 0 {
        None
    } else if starts_with(trim(ls[0]), "<address>"@) {
        Some(ls[0])
    } else {
        first_address_line(ls.drop_first())
    }
}

/// The manager's address: on the first line that starts with `<address>`,
/// the trimmed text between `<address>` and a closing `</address>` that
/// ends the line.
pub open spec fn enrolled_manager(content: Seq<char>) -> Option<Seq<char>> {
    match first_address_line(lines(content)) {
        Some(l) => {
            let rest = trim(l).skip("<address>"@.len() as int);
            if ends_with(rest, "</address>"@) {
                Some(trim(rest.take(rest.len() - "</address>"@.len())))
            } else {
                None
            }
        },
        None => None,
    }
}

pub fn parse_enrollment_manager(content: &str) -> (r: Option<String>)
    ensures
        r.deep_view() == enrolled_manager(content@),
{
    let v = chars_of(content);
    let len = v.len();
    assert(v@.subrange(0, len as int) =~= v@);
    let open_tag = chars_of("<address>");
    let close_tag = chars_of("</address>");
    let mut pos: usize = 0;
    loop
        invariant
            pos <= len == v.len(),
            v@ == content@,
            open_tag@ == "<address>"@,
            close_tag@ == "</address>"@,
            first_address_line(lines(content@)) == first_address_line(
                lines(v@.subrange(pos as int, len as int)),
            ),
        decreases len - pos,
    {
        match next_line(&v, pos, len) {
            None => {
                return None;
            },
            Some((a, b, n)) => {
                let ghost rest = lines(v@.subrange(n as int, len as int));
                let ghost ls = seq![v@.subrange(a as int, b as int)] + rest;
                assert(ls[0] == v@.subrange(a as int, b as int));
                assert(ls.drop_first() =~= rest);
                let (x, y) = trim_range(&v, a, b);
                if range_starts_with(&v, x, y, &open_tag) {
                    let start = x + open_tag.len();
                    assert(v@.subrange(x as int, y as int).skip(open_tag@.len() as int)
                        =~= v@.subrange(start as int, y as int));
                    if range_ends_with(&v, start, y, &close_tag) {
                        let end = y - close_tag.len();
                        assert(v@.subrange(start as int, y as int).take(
                            (y - start) - close_tag@.len(),
                        ) =~= v@.subrange(start as int, end as int));
                        let (ma, mb) = trim_range(&v, start, end);
                        return Some(string_of(&v, ma, mb));
                    }
                    return None;
                }
                pos = n;
            },
        }
    }
}

/// Where the agent keeps its key file.
pub open spec fn client_keys_file(os: Os) -> Seq<char> {
    match os {
        Os::Windows => "C:\\Program Files (x86)\\ossec-agent\\client.keys"@,
        Os::MacOs => "/Library/Ossec/etc/client.keys"@,
        Os::Linux => "/var/ossec/etc/client.keys"@,
    }
}

/// Where the agent keeps its configuration.
pub open spec fn ossec_conf_file(os: Os) -> Seq<char> {
    match os {
        Os::Windows => "C:\\Program Files (x86)\\ossec-agent\\ossec.conf"@,
        Os::MacOs => "/Library/Ossec/etc/ossec.conf"@,
        Os::Linux => "/var/ossec/etc/ossec.conf"@,
    }
}

pub fn client_keys_path(os: Os) -> (r: &'static str)
    ensures
        r@ == client_keys_file(os),
{
    match os {
        Os::Windows => "C:\\Program Files (x86)\\ossec-agent\\client.keys",
        Os::MacOs => "/Library/Ossec/etc/client.keys",
        Os::Linux => "/var/ossec/etc/client.keys",
    }
}

pub fn ossec_conf_path(os: Os) -> (r: &'static str)
    ensures
        r@ == ossec_conf_file(os),
{
    match os {
        Os::Windows => "C:\\Program Files (x86)\\ossec-agent\\ossec.conf",
        Os::MacOs => "/Library/Ossec/etc/ossec.conf",
        Os::Linux => "/var/ossec/etc/ossec.conf",
    }
}

/// Whether this machine is enrolled, as which agent, and with which
/// manager.
pub struct EnrollmentState {
    pub enrolled: bool,
    pub agent_name: Option<String>,
    pub manager: Option<String>,
}

/// The enrollment state from the key file's content (empty when it could
/// not be read) and the configuration's content (`None` when it could not
/// be read; it is only looked at when an agent name was found).
pub fn enrollment_state(keys_content: &str, conf_content: &Option<String>) -> (r: EnrollmentState)
    ensures
        r.agent_name.deep_view() == enrolled_agent_name(keys_content@),
        r.enrolled == (enrolled_agent_name(keys_content@) is Some),
        r.manager.deep_view() == if r.enrolled {
            match conf_content {
                Some(c) => enrolled_manager(c@),
                None => None,
            }
        } else {
            None
        },
{
    let agent_name = parse_enrollment_agent_name(keys_content);
    if agent_name.is_none() {
        return EnrollmentState { enrolled: false, agent_name: None, manager: None };
    }
    let manager = match conf_content {
        Some(c) => parse_enrollment_manager(c.as_str()),
        None => None,
    };
    EnrollmentState { enrolled: true, agent_name, manager }
}


/// `i` is the first of `ls` that is not blank.
pub open spec fn first_nonblank_at(ls: Seq<Seq<char>>, i: int) -> bool {
    &&& 0 <= i < ls.len()
    &&& trim(ls[i]).len() > 0
    &&& forall|j: int| 0 <= j < i ==> trim(#[trigger] ls[j]).len() == 0
}

proof fn lemma_first_nonblank_line(ls: Seq<Seq<char>>, i: int)
    ensures
        first_nonblank_at(ls, i) ==> first_nonblank_line(ls) == Some(ls[i]),
        (forall|j: int| 0 <= j < ls.len() ==> trim(#[trigger] ls[j]).len() == 0)
            ==> first_nonblank_line(ls) is None,
    decreases ls.len(),
{
    if ls.len() > 0 && trim(ls[0]).len() == 0 {
        let rest = ls.drop_first();
        lemma_first_nonblank_line(rest, i - 1);
        if first_nonblank_at(ls, i) {
            assert(i > 0);
            assert(rest[i - 1] == ls[i]);
            assert forall|j: int| 0 <= j < i - 1 implies trim(#[trigger] rest[j]).len() == 0 by {
                assert(rest[j] == ls[j + 1]);
            }
            assert(first_nonblank_at(rest, i - 1));
        }
        if forall|j: int| 0 <= j < ls.len() ==> trim(#[trigger] ls[j]).len() == 0 {
            assert forall|j: int| 0 <= j < rest.len() implies trim(#[trigger] rest[j]).len() == 0 by {
                assert(rest[j] == ls[j + 1]);
            }
        }
    } else if ls.len() > 0 {
        if first_nonblank_at(ls, i) && i > 0 {
            assert(trim(ls[0]).len() == 0);
        }
    }
}

/// The agent's name is the second word of the key file's first non-blank
/// line; there is none when every line is blank or that line has fewer
/// than two words.
pub proof fn law_agent_name_from_first_line(content: Seq<char>, i: int)
    ensures
        first_nonblank_at(lines(content), i) ==> enrolled_agent_name(content) == if words(
            lines(content)[i],
        ).len() > 1 {
            Some(words(lines(content)[i])[1])
        } else {
            None::<Seq<char>>
        },
        (forall|j: int| 0 <= j < lines(content).len() ==> trim(#[trigger] lines(content)[j]).len()
            == 0) ==> enrolled_agent_name(content) is None,
{
    lemma_first_nonblank_line(lines(content), i);
}

/// `i` is the first of `ls` that, trimmed, starts with `<address>`.
pub open spec fn first_address_at(ls: Seq<Seq<char>>, i: int) -> bool {
    &&& 0 <= i < ls.len()
    &&& starts_with(trim(ls[i]), "<address>"@)
    &&& forall|j: int| 0 <= j < i ==> !starts_with(trim(#[trigger] ls[j]), "<address>"@)
}

proof fn lemma_first_address_line(ls: Seq<Seq<char>>, i: int)
    ensures
        first_address_at(ls, i) ==> first_address_line(ls) == Some(ls[i]),
        (forall|j: int| 0 <= j < ls.len() ==> !starts_with(trim(#[trigger] ls[j]), "<address>"@))
            ==> first_address_line(ls) is None,
    decreases ls.len(),
{
    if ls.len() > 0 && !starts_with(trim(ls[0]), "<address>"@) {
        let rest = ls.drop_first();
        lemma_first_address_line(rest, i - 1);
        if first_address_at(ls, i) {
            assert(i > 0);
            assert(rest[i - 1] == ls[i]);
            assert forall|j: int| 0 <= j < i - 1 implies !starts_with(
                trim(#[trigger] rest[j]),
                "<address>"@,
            ) by {
                assert(rest[j] == ls[j + 1]);
            }
            assert(first_address_at(rest, i - 1));
        }
        if forall|j: int| 0 <= j < ls.len() ==> !starts_with(trim(#[trigger] ls[j]), "<address>"@) {
            assert forall|j: int| 0 <= j < rest.len() implies !starts_with(
                trim(#[trigger] rest[j]),
                "<address>"@,
            ) by {
                assert(rest[j] == ls[j + 1]);
            }
        }
    } else if ls.len() > 0 {
        if first_address_at(ls, i) && i > 0 {
            assert(starts_with(trim(ls[0]), "<address>"@));
        }
    }
}

/// The manager is read from the configuration's first line that, trimmed,
/// starts with `<address>`: when that line is `<address>x</address>`, the
/// manager is `x` trimmed; when it does not end with `</address>` there is
/// none, and there is none without such a line.
pub proof fn law_manager_from_address_line(content: Seq<char>, i: int, x: Seq<char>)
    ensures
        (first_address_at(lines(content), i) && trim(lines(content)[i]) == "<address>"@ + x
            + "</address>"@) ==> enrolled_manager(content) == Some(trim(x)),
        (first_address_at(lines(content), i) && !ends_with(trim(lines(content)[i]), "</address>"@))
            ==> enrolled_manager(content) is None,
        (forall|j: int| 0 <= j < lines(content).len() ==> !starts_with(
            trim(#[trigger] lines(content)[j]),
            "<address>"@,
        )) ==> enrolled_manager(content) is None,
{
    let ls = lines(content);
    lemma_first_address_line(ls, i);
    reveal_strlit("<address>");
    reveal_strlit("</address>");
    if first_address_at(ls, i) {
        let t = trim(ls[i]);
        let rest = t.skip(9);
        if t == "<address>"@ + x + "</address>"@ {
            assert(rest =~= x + "</address>"@);
            assert(ends_with(rest, "</address>"@)) by {
                assert(rest.skip(rest.len() - 10) =~= "</address>"@);
            }
            assert(rest.take(rest.len() - 10) =~= x);
        }
        if !ends_with(t, "</address>"@) {
            if ends_with(rest, "</address>"@) {
                assert(t.skip(t.len() - 10) =~= rest.skip(rest.len() - 10));
            }
        }
    }
}

/// The agent's name, when there is one, is a single word: non-empty and
/// without whitespace.
pub proof fn law_agent_name_is_a_word(content: Seq<char>)
    ensures
        enrolled_agent_name(content) matches Some(n) ==> is_solid_word(n),
{
    if let Some(l) = first_nonblank_line(lines(content)) {
        lemma_words_solid(l);
        if words(l).len() > 1 {
            assert(is_solid_word(words(l)[1]));
        }
    }
}

} // verus!
