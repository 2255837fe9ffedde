//! What the installer does with each line that a child process prints:
//! whether it is shown, how it is highlighted, and what it triggers.
use vstd::prelude::*;
use crate::text::{
    chars_of, contains, find, find_chars, lowercase, lowercase_string, range_contains_str,
    range_starts_with, starts_with, string_of, trim, trim_range, vec_contains_str,
    lemma_trim_idempotent,
};

verus! {

broadcast use vstd::string::group_string_axioms;

/// The highlight level of a lowercased log line: `"error"`, `"success"`
/// or `"info"`, an error mark taking precedence over a success mark.
pub open spec fn line_level(l: Seq<char>) -> Seq<char> {
    if contains(l, "[error]"@) || contains(l, "failed"@) || contains(l, "error:"@) || contains(
        l,
        "command not found"@,
    ) {
        "error"@
    } else if contains(l, "[success]"@) || contains(l, "successfully"@) || contains(
        l,
        "completed"@,
    ) {
        "success"@
    } else {
        "info"@
    }
}

/// The highlight level of a line given in lowercase.
pub fn level_of_lowercase(l: &str) -> (r: &'static str)
    ensures
        r@ == line_level(l@),
{
    let v = chars_of(l);
    if vec_contains_str(&v, "[error]") || vec_contains_str(&v, "failed") || vec_contains_str(
        &v,
        "error:",
    ) || vec_contains_str(&v, "command not found") {
        "error"
    } else if vec_contains_str(&v, "[success]") || vec_contains_str(&v, "successfully")
        || vec_contains_str(&v, "completed") {
        "success"
    } else {
        "info"
    }
}

/// Classify a log line as "error", "success", or "info" for UI highlighting,
/// without regard to case.
pub fn classify_line(line: &str) -> (r: &'static str)
    ensures
        r@ == line_level(lowercase(line@)),
{
    let l = lowercase_string(line);
    level_of_lowercase(l.as_str())
}

/// A line of a child's output, as shown to the user.
pub struct LogLine {
    pub line: String,
    pub level: String,
}

/// The line to show for `line`: none for a blank line, else the line with
/// its level.
pub fn make_log_line(line: &str) -> (r: Option<LogLine>)
    ensures
        r is None <==> trim(line@).len() == 0,
        r matches Some(l) ==> l.line@ == line@ && l.level@ == line_level(lowercase(line@)),
{
    let v = chars_of(line);
    let (a, b) = trim_range(&v, 0, v.len());
    assert(v@.subrange(0, v.len() as int) =~= v@);
    if a == b {
        return None;
    }
    let level = classify_line(line);
    Some(LogLine { line: line.to_owned(), level: level.to_owned() })
}

/// The line by which the setup script reports that it has finished.
pub open spec fn install_finished(line: Seq<char>) -> bool {
    contains(line, "Wazuh setup has been completed successfully"@)
}

pub fn install_line_done(line: &str) -> (r: bool)
    ensures
        r == install_finished(line@),
{
    let v = chars_of(line);
    vec_contains_str(&v, "Wazuh setup has been completed successfully")
}

/// What a line of output asks of the installer: a page to open in the
/// browser, and whether the process has reached its goal.
pub struct LineAction {
    pub open_url: Option<String>,
    pub finished: bool,
}

/// The browser page that a line of the enrollment client points at: the
/// text after `Opened your default browser to: `, or else a whole line
/// that is an `https://` address of a realm.
pub open spec fn enroll_url(l: Seq<char>) -> Option<Seq<char>> {
    match find(l, "Opened your default browser to: "@) {
        Some(i) => {
            let u = trim(l.skip(i + "Opened your default browser to: "@.len()));
            if u.len() > 0 {
                Some(u)
            } else {
                None
            }
        },
        None => if starts_with(trim(l), "https://"@) && contains(l, "/realms/"@) {
            Some(trim(l))
        } else {
            None
        },
    }
}

/// The enrollment client reports that it is done.
pub open spec fn enroll_finished(l: Seq<char>) -> bool {
    contains(l, "] Done!"@) || trim(l) == "Done!"@
}

/// What a line of the enrollment client asks of the installer.
pub fn enroll_line_action(line: &str) -> (r: LineAction)
    ensures
        r.open_url.deep_view() == enroll_url(line@),
        r.finished == enroll_finished(line@),
{
    let v = chars_of(line);
    let len = v.len();
    assert(v@.subrange(0, len as int) =~= v@);
    let marker = chars_of("Opened your default browser to: ");
    let (ta, tb) = trim_range(&v, 0, len);
    let open_url = match find_chars(&v, 0, len, &marker) {
        Some(i) => {
            let start = i + marker.len();
            assert(v@.skip(start as int) =~= v@.subrange(start as int, len as int));
            let (a, b) = trim_range(&v, start, len);
            if a < b {
                Some(string_of(&v, a, b))
            } else {
                None
            }
        },
        None => {
            let https = chars_of("https://");
            if range_starts_with(&v, ta, tb, &https) && range_contains_str(&v, 0, len, "/realms/") {
                Some(string_of(&v, ta, tb))
            } else {
                None
            }
        },
    };
    let done_word = chars_of("Done!");
    let finished = range_contains_str(&v, 0, len, "] Done!") || (tb - ta == done_word.len()
        && crate::text::range_equals(&v, ta, tb, &done_word));
    LineAction { open_url, finished }
}

/// The browser page that a line of `netbird up` points at: a trimmed line
/// that is an `https://` address of a realm.
pub open spec fn netbird_url(l: Seq<char>) -> Option<Seq<char>> {
    if starts_with(trim(l), "https://"@) && contains(trim(l), "/realms/"@) {
        Some(trim(l))
    } else {
        None
    }
}

/// A lowercased text that reports a connection (and not a
/// disconnection).
pub open spec fn connected_text(lower: Seq<char>) -> bool {
    contains(lower, "connected"@) && !contains(lower, "disconnected"@)
}

/// Whether a line given in lowercase reports a connection.
pub fn connected_in_lowercase(lower: &str) -> (r: bool)
    ensures
        r == connected_text(lower@),
{
    let v = chars_of(lower);
    vec_contains_str(&v, "connected") && !vec_contains_str(&v, "disconnected")
}

/// `netbird up` reports that it is connected (and not disconnected),
/// without regard to case.
pub open spec fn netbird_connected(l: Seq<char>) -> bool {
    connected_text(lowercase(trim(l)))
}

/// What a line of `netbird up` asks of the installer.
pub fn netbird_line_action(line: &str) -> (r: LineAction)
    ensures
        r.open_url.deep_view() == netbird_url(line@),
        r.finished == netbird_connected(line@),
{
    let v = chars_of(line);
    let len = v.len();
    assert(v@.subrange(0, len as int) =~= v@);
    let (ta, tb) = trim_range(&v, 0, len);
    let https = chars_of("https://");
    let open_url = if range_starts_with(&v, ta, tb, &https) && range_contains_str(
        &v,
        ta,
        tb,
        "/realms/",
    ) {
        Some(string_of(&v, ta, tb))
    } else {
        None
    };
    let trimmed = string_of(&v, ta, tb);
    let lower = lowercase_string(trimmed.as_str());
    let finished = connected_in_lowercase(lower.as_str());
    LineAction { open_url, finished }
}

/// Every line gets one of the three levels the interface knows.
pub proof fn law_line_level_is_known(l: Seq<char>)
    ensures
        line_level(l) == "error"@ || line_level(l) == "success"@ || line_level(l) == "info"@,
{
}

/// A line with no error mark and a success mark (`[success]`,
/// `successfully` or `completed`) is a success.
pub proof fn law_success_mark_is_success(l: Seq<char>)
    requires
        !contains(l, "[error]"@),
        !contains(l, "failed"@),
        !contains(l, "error:"@),
        !contains(l, "command not found"@),
        contains(l, "[success]"@) || contains(l, "successfully"@) || contains(l, "completed"@),
    ensures
        line_level(l) == "success"@,
{
}

/// A line with neither an error mark nor a success mark is information.
pub proof fn law_unmarked_is_info(l: Seq<char>)
    requires
        !contains(l, "[error]"@),
        !contains(l, "failed"@),
        !contains(l, "error:"@),
        !contains(l, "command not found"@),
        !contains(l, "[success]"@),
        !contains(l, "successfully"@),
        !contains(l, "completed"@),
    ensures
        line_level(l) == "info"@,
{
}

/// The enrollment client's browser line gives the trimmed address after
/// `Opened your default browser to: `, and no page when nothing follows;
/// a page opened is never blank and carries no surrounding whitespace.
pub proof fn law_enroll_browser_line(u: Seq<char>, l: Seq<char>)
    ensures
        enroll_url("Opened your default browser to: "@ + u) == if trim(u).len() > 0 {
            Some(trim(u))
        } else {
            None::<Seq<char>>
        },
        enroll_url(l) matches Some(x) ==> x.len() > 0 && trim(x) == x,
        (!contains(l, "Opened your default browser to: "@) && starts_with(trim(l), "https://"@)
            && contains(l, "/realms/"@)) ==> enroll_url(l) == Some(trim(l)),
        (!contains(l, "Opened your default browser to: "@) && !starts_with(trim(l), "https://"@))
            ==> enroll_url(l) is None,
{
    let m = "Opened your default browser to: "@;
    let h = m + u;
    assert(h.subrange(0, m.len() as int) =~= m);
    assert(crate::text::occurs_at(h, m, 0));
    assert(h.skip(m.len() as int) =~= u);
    lemma_trim_idempotent(l);
    reveal_strlit("https://");
    assert("https://"@.len() == 8);
    if let Some(i) = find(l, m) {
        lemma_trim_idempotent(l.skip(i + m.len()));
    }
}

/// The enrollment client is done when a line holds `] Done!` or is
/// `Done!` alone (surrounding whitespace aside), and only then.
pub proof fn law_enroll_done(l: Seq<char>)
    ensures
        contains(l, "] Done!"@) ==> enroll_finished(l),
        trim(l) == "Done!"@ ==> enroll_finished(l),
        (!contains(l, "] Done!"@) && trim(l) != "Done!"@) ==> !enroll_finished(l),
{
}

/// A line of `netbird up` opens a page exactly when, trimmed, it is an
/// `https://` address holding `/realms/`; the page is that trimmed line.
pub proof fn law_netbird_login_line(l: Seq<char>)
    ensures
        netbird_url(l) is Some <==> (starts_with(trim(l), "https://"@) && contains(
            trim(l),
            "/realms/"@,
        )),
        netbird_url(l) matches Some(u) ==> u == trim(l),
{
}

/// A lowercased line reports a connection when it holds `connected`, but
/// never when it holds `disconnected`.
pub proof fn law_connected_text(lower: Seq<char>)
    ensures
        contains(lower, "disconnected"@) ==> !connected_text(lower),
        (contains(lower, "connected"@) && !contains(lower, "disconnected"@)) ==> connected_text(lower),
        !contains(lower, "connected"@) ==> !connected_text(lower),
{
}

/// The setup script has finished when a line holds its completion message.
pub proof fn law_install_finished(line: Seq<char>)
    ensures
        install_finished(line) <==> contains(line, "Wazuh setup has been completed successfully"@),
{
}

/// A line with an error mark is an error, whatever success it also
/// reports.
pub proof fn law_error_mark_wins(l: Seq<char>)
    requires
        contains(l, "[error]"@) || contains(l, "failed"@) || contains(l, "error:"@) || contains(
            l,
            "command not found"@,
        ),
    ensures
        line_level(l) == "error"@,
{
}

} // verus!
