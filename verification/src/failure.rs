//! What the user is told when the backend fails.

use vstd::prelude::*;

use crate::boot;
use crate::locale::NativeLocale;
use crate::stream::is_redacted;
use crate::text::{contains_text, join, joined, occurs_at, shorten, shortened, starts_with, views};

verus! {

/// Lines of backend output in a failure message; the log has more.
pub const ERROR_DIALOG_OUTPUT_LINES: usize = 6;

/// Characters of each such line.
pub const ERROR_DIALOG_LINE_LIMIT: usize = 240;

/// A line of backend output as a failure message shows it.
pub open spec fn dialog_line(line: Seq<char>) -> Seq<char> {
    shorten(line, ERROR_DIALOG_LINE_LIMIT as nat, ERROR_DIALOG_LINE_LIMIT as nat, "…"@)
}

/// A line of backend output as a failure message shows it.
pub fn truncate_for_dialog(line: &str) -> (truncated: String)
    ensures
        truncated@ == dialog_line(line@),
{
    shortened(line, ERROR_DIALOG_LINE_LIMIT, ERROR_DIALOG_LINE_LIMIT, "…")
}

/// The last lines of the backend's output, as a failure message shows them.
pub open spec fn output_tail(recent: Seq<Seq<char>>) -> Seq<Seq<char>> {
    let tail = if recent.len() > ERROR_DIALOG_OUTPUT_LINES {
        recent.skip(recent.len() - ERROR_DIALOG_OUTPUT_LINES)
    } else {
        recent
    };
    tail.map_values(|line: Seq<char>| dialog_line(line))
}

/// What happened, what the backend said, and where the full log is.
pub open spec fn failure_message(
    detail: Seq<char>,
    recent: Seq<Seq<char>>,
    log_path: Option<Seq<char>>,
) -> Seq<char> {
    let tail = output_tail(recent);
    let output = if tail.len() > 0 {
        "\n\n"@ + join(tail, "\n"@)
    } else {
        Seq::empty()
    };
    let location = match log_path {
        Some(path) => "\n\nLog: "@ + path,
        None => Seq::empty(),
    };
    detail + output + location
}

/// Composes a failure message that a user can act on: what happened, what the
/// backend said, and where the full log is.
pub fn backend_failure_message(detail: &str, recent: &Vec<String>, log_path: Option<&str>) -> (message:
    String)
    ensures
        message@ == failure_message(
            detail@,
            views(recent@),
            crate::text::opt_str(log_path),
        ),
{
    let count = recent.len();
    let start: usize = if count > ERROR_DIALOG_OUTPUT_LINES {
        count - ERROR_DIALOG_OUTPUT_LINES
    } else {
        0
    };
    let mut tail: Vec<String> = Vec::new();
    let mut i: usize = start;
    let ghost shown = output_tail(views(recent@));
    while i < count
        invariant
            count == recent@.len(),
            start <= i <= count,
            start == (if count > ERROR_DIALOG_OUTPUT_LINES {
                count - ERROR_DIALOG_OUTPUT_LINES
            } else {
                0
            }),
            shown == output_tail(views(recent@)),
            shown.len() == count - start,
            views(tail@) == shown.take(i - start),
        decreases count - i,
    {
        let ghost before = tail@;
        let line = truncate_for_dialog(recent[i].as_str());
        tail.push(line);
        proof {
            assert(views(tail@) == views(before).push(line@));
            assert(views(recent@)[i as int] == recent@[i as int]@);
            assert(shown[i - start] == line@);
            assert(shown.take(i + 1 - start) == shown.take(i - start).push(shown[i - start]));
        }
        i = i + 1;
    }
    assert(shown.take(i - start) == shown);
    assert(views(tail@).len() == tail@.len());
    let mut message = detail.to_owned();
    if !tail.is_empty() {
        message.append("\n\n");
        message.append(joined(&tail, "\n").as_str());
    }
    let ghost so_far = message@;
    proof {
        let output = if shown.len() > 0 {
            "\n\n"@ + join(shown, "\n"@)
        } else {
            Seq::empty()
        };
        assert(so_far =~= detail@ + output);
    }
    match log_path {
        Some(path) => {
            message.append("\n\nLog: ");
            message.append(path);
            assert(message@ =~= so_far + ("\n\nLog: "@ + path@));
        },
        None => {
            assert(message@ =~= so_far + Seq::<char>::empty());
        },
    }
    message
}

proof fn lemma_join_contains(parts: Seq<Seq<char>>, sep: Seq<char>, k: int) -> (at: int)
    requires
        0 <= k < parts.len(),
    ensures
        occurs_at(join(parts, sep), parts[k], at),
    decreases parts.len(),
{
    let whole = join(parts, sep);
    if parts.len() == 1 {
        assert(whole.subrange(0, whole.len() as int) == parts[0]);
        0
    } else if k == parts.len() - 1 {
        let head = join(parts.drop_last(), sep) + sep;
        assert(whole == head + parts.last());
        assert(whole.subrange(head.len() as int, whole.len() as int) == parts[k]);
        head.len() as int
    } else {
        let init = parts.drop_last();
        let at = lemma_join_contains(init, sep, k);
        let n = parts[k].len() as int;
        assert(whole.subrange(at, at + n) == join(init, sep).subrange(at, at + n));
        at
    }
}

/// A failure message starts with what happened, shows each of the last lines of
/// output, and ends with the place of the log where that is known.
pub proof fn law_failure_message_is_actionable(
    detail: Seq<char>,
    recent: Seq<Seq<char>>,
    log_path: Option<Seq<char>>,
)
    ensures
        starts_with(failure_message(detail, recent, log_path), detail),
        forall|k: int|
            0 <= k < output_tail(recent).len() ==> contains_text(
                failure_message(detail, recent, log_path),
                #[trigger] output_tail(recent)[k],
            ),
        log_path matches Some(path) ==> failure_message(detail, recent, log_path).skip(
            failure_message(detail, recent, log_path).len() - path.len(),
        ) == path,
{
    let message = failure_message(detail, recent, log_path);
    let tail = output_tail(recent);
    assert(message.take(detail.len() as int) == detail);
    assert forall|k: int| 0 <= k < tail.len() implies contains_text(
        message,
        #[trigger] tail[k],
    ) by {
        let body = join(tail, "\n"@);
        let at = lemma_join_contains(tail, "\n"@, k);
        let start = detail.len() + "\n\n"@.len();
        let n = tail[k].len() as int;
        assert(message.subrange(start + at, start + at + n) == body.subrange(at, at + n));
        assert(occurs_at(message, tail[k], start + at));
    }
    if let Some(path) = log_path {
        assert(message.skip(message.len() - path.len()) == path);
    }
}

/// Each line of output that a failure message shows is short.
pub proof fn law_dialog_lines_are_short(line: Seq<char>)
    ensures
        dialog_line(line).len() <= ERROR_DIALOG_LINE_LIMIT + 1,
        line.len() <= ERROR_DIALOG_LINE_LIMIT ==> dialog_line(line) == line,
{
    reveal_strlit("…");
}

/// Whatever looks like a boot line in a text is its redaction.
pub open spec fn hides_boot_lines(s: Seq<char>) -> bool {
    forall|i: int| #[trigger]
        occurs_at(s, boot::boot_marker(), i) ==> occurs_at(s, boot::redaction(), i)
}

/// Texts with a newline between them hide boot lines where each of them does.
proof fn lemma_newline_separates(a: Seq<char>, b: Seq<char>)
    requires
        hides_boot_lines(a),
        hides_boot_lines(b),
    ensures
        hides_boot_lines(a + seq!['\n'] + b),
{
    let marker = boot::boot_marker();
    let redaction = boot::redaction();
    let whole = a + seq!['\n'] + b;
    let start = a.len() + 1;
    reveal_strlit("dsh web: ");
    assert forall|i: int| #[trigger] occurs_at(whole, marker, i) implies occurs_at(
        whole,
        redaction,
        i,
    ) by {
        if i + marker.len() <= a.len() {
            assert(a.subrange(i, i + marker.len()) == whole.subrange(i, i + marker.len()));
            assert(occurs_at(a, marker, i));
            assert(whole.subrange(i, i + redaction.len()) == a.subrange(i, i + redaction.len()));
        } else if i >= start {
            let j = i - start;
            assert(b.subrange(j, j + marker.len()) == whole.subrange(i, i + marker.len()));
            assert(occurs_at(b, marker, j));
            assert(whole.subrange(i, i + redaction.len()) == b.subrange(j, j + redaction.len()));
        } else {
            let k = a.len() - i;
            assert(whole.subrange(i, i + marker.len())[k] == '\n');
            assert(marker[k] != '\n');
        }
    }
}

proof fn lemma_dialog_line_hides_boot_lines(line: Seq<char>)
    requires
        is_redacted(line),
    ensures
        hides_boot_lines(dialog_line(line)),
{
    let marker = boot::boot_marker();
    let redaction = boot::redaction();
    let shown = dialog_line(line);
    reveal_strlit("dsh web: ");
    reveal_strlit("dsh web: [startup URL omitted]");
    reveal_strlit("…");
    assert forall|i: int| #[trigger] occurs_at(shown, marker, i) implies occurs_at(
        shown,
        redaction,
        i,
    ) by {
        if contains_text(line, marker) {
            assert(shown == redaction);
            assert(shown[i] == shown.subrange(i, i + 9)[0]);
            assert(shown[i + 1] == shown.subrange(i, i + 9)[1]);
            assert(shown[i] == 'd' && shown[i + 1] == 's');
            assert(i == 0);
            assert(shown.subrange(0, 30) == redaction);
        } else {
            if i + 9 <= ERROR_DIALOG_LINE_LIMIT || line.len() <= ERROR_DIALOG_LINE_LIMIT {
                assert(line.subrange(i, i + 9) == shown.subrange(i, i + 9));
                assert(occurs_at(line, marker, i));
            } else {
                assert(shown.subrange(i, i + 9)[8] == '…');
            }
            assert(false);
        }
    }
}

proof fn lemma_joined_lines_hide_boot_lines(lines: Seq<Seq<char>>)
    requires
        forall|i: int| 0 <= i < lines.len() ==> hides_boot_lines(#[trigger] lines[i]),
    ensures
        hides_boot_lines(join(lines, "\n"@)),
    decreases lines.len(),
{
    reveal_strlit("\n");
    reveal_strlit("dsh web: ");
    if lines.len() > 1 {
        let init = lines.drop_last();
        assert forall|i: int| 0 <= i < init.len() implies hides_boot_lines(#[trigger] init[i]) by {
            assert(init[i] == lines[i]);
        }
        lemma_joined_lines_hide_boot_lines(init);
        assert(hides_boot_lines(lines[lines.len() - 1]));
        lemma_newline_separates(join(init, "\n"@), lines.last());
        assert("\n"@ == seq!['\n']);
    } else if lines.len() == 1 {
        assert(hides_boot_lines(lines[0]));
    }
}

/// A failure message shows nothing of a boot line: where what happened and the
/// place of the log do not, and the recent lines are redacted, whatever looks like
/// a boot line in the message is a redaction.
pub proof fn law_failure_message_hides_boot_lines(
    detail: Seq<char>,
    recent: Seq<Seq<char>>,
    log_path: Option<Seq<char>>,
)
    requires
        hides_boot_lines(detail),
        forall|i: int| 0 <= i < recent.len() ==> is_redacted(#[trigger] recent[i]),
        log_path matches Some(path) ==> hides_boot_lines(path),
    ensures
        hides_boot_lines(failure_message(detail, recent, log_path)),
{
    let tail = output_tail(recent);
    let nothing = Seq::<char>::empty();
    reveal_strlit("dsh web: ");
    reveal_strlit("\n\n");
    reveal_strlit("\n\nLog: ");
    assert(hides_boot_lines(nothing));
    assert forall|i: int| 0 <= i < tail.len() implies hides_boot_lines(#[trigger] tail[i]) by {
        let from: int = if recent.len() > ERROR_DIALOG_OUTPUT_LINES {
            recent.len() - ERROR_DIALOG_OUTPUT_LINES
        } else {
            0
        };
        assert(is_redacted(recent[from + i]));
        lemma_dialog_line_hides_boot_lines(recent[from + i]);
    }
    lemma_joined_lines_hide_boot_lines(tail);
    lemma_newline_separates(detail, nothing);
    let head = detail + seq!['\n'] + nothing;
    let body = if tail.len() > 0 {
        lemma_newline_separates(head, join(tail, "\n"@));
        let body = head + seq!['\n'] + join(tail, "\n"@);
        assert(body == detail + ("\n\n"@ + join(tail, "\n"@)));
        body
    } else {
        assert(detail == detail + nothing);
        detail
    };
    match log_path {
        Some(path) => {
            let location = seq!['L', 'o', 'g', ':', ' '] + path;
            assert forall|i: int| #[trigger]
                occurs_at(location, boot::boot_marker(), i) implies occurs_at(
                location,
                boot::redaction(),
                i,
            ) by {
                let j = i - 5;
                assert(location[i] == location.subrange(i, i + 9)[0]);
                assert(i >= 5);
                assert(path.subrange(j, j + 9) == location.subrange(i, i + 9));
                assert(occurs_at(path, boot::boot_marker(), j));
                let n = boot::redaction().len();
                assert(path.subrange(j, j + n) == location.subrange(i, i + n));
            }
            lemma_newline_separates(body, nothing);
            lemma_newline_separates(body + seq!['\n'] + nothing, location);
            assert(body + seq!['\n'] + nothing + seq!['\n'] + location == body + ("\n\nLog: "@
                + path));
        },
        None => {
            assert(body == body + nothing);
        },
    }
}

/// The text of the dialog on repeated backend failures.
pub fn backend_error_text(locale: NativeLocale, detail: &str) -> (text: String)
    ensures
        text@ == locale.pick(
            "OpenHarness 后端运行失败："@,
            "The OpenHarness backend failed: "@,
        ) + detail@,
{
    let mut text = locale.text(
        "OpenHarness 后端运行失败：",
        "The OpenHarness backend failed: ",
    ).to_string();
    text.append(detail);
    text
}

/// A line of at most two hundred and forty characters is shown whole; of a longer
/// one, that many are, and an ellipsis.
pub proof fn law_long_lines_are_cut(line: Seq<char>)
    ensures
        line.len() <= 240 ==> dialog_line(line) == line,
        line.len() > 240 ==> dialog_line(line) == line.take(240).push('…'),
{
    reveal_strlit("…");
    if line.len() > 240 {
        assert(dialog_line(line) =~= line.take(240).push('…'));
    }
}

/// The last six lines of output are shown, or all where there are fewer, in the
/// order in which they came.
pub proof fn law_last_lines_are_shown(recent: Seq<Seq<char>>, k: int)
    ensures
        recent.len() <= 6 ==> output_tail(recent).len() == recent.len(),
        recent.len() > 6 ==> output_tail(recent).len() == 6,
        0 <= k < recent.len() <= 6 ==> output_tail(recent)[k] == dialog_line(recent[k]),
        recent.len() > 6 && 0 <= k < 6 ==> output_tail(recent)[k] == dialog_line(
            recent[recent.len() - 6 + k],
        ),
{
}

/// A failure message is what happened, then an empty line and the last lines of
/// output, each on a line of its own, then an empty line and the place of the log;
/// what there is nothing to say of is left out.
pub proof fn law_parts_of_a_failure_message(
    detail: Seq<char>,
    recent: Seq<Seq<char>>,
    path: Seq<char>,
)
    ensures
        ({
            let shown = detail + seq!['\n', '\n'] + join(output_tail(recent), seq!['\n']);
            let place = seq!['\n', '\n', 'L', 'o', 'g', ':', ' '] + path;
            &&& recent.len() == 0 ==> failure_message(detail, recent, None) == detail
            &&& recent.len() == 0 ==> failure_message(detail, recent, Some(path)) == detail + place
            &&& recent.len() > 0 ==> failure_message(detail, recent, None) == shown
            &&& recent.len() > 0 ==> failure_message(detail, recent, Some(path)) == shown + place
        }),
{
    reveal_strlit("\n\n");
    reveal_strlit("\n");
    reveal_strlit("\n\nLog: ");
    assert("\n"@ =~= seq!['\n']);
    let tail = output_tail(recent);
    let shown = detail + seq!['\n', '\n'] + join(tail, seq!['\n']);
    let place = seq!['\n', '\n', 'L', 'o', 'g', ':', ' '] + path;
    if recent.len() == 0 {
        assert(failure_message(detail, recent, None) =~= detail);
        assert(failure_message(detail, recent, Some(path)) =~= detail + place);
    } else {
        assert(failure_message(detail, recent, None) =~= shown);
        assert(failure_message(detail, recent, Some(path)) =~= shown + place);
    }
}

/// The message that is composed is made of what happened, of the last six lines of
/// output and of the place of the log, each on lines of its own.
pub proof fn law_composed_messages(
    detail: &str,
    recent: &Vec<String>,
    log_path: Option<&str>,
    message: String,
)
    requires
        call_ensures(backend_failure_message, (detail, recent, log_path), message),
    ensures
        ({
            let shown = if recent@.len() > 0 {
                detail@ + seq!['\n', '\n'] + join(output_tail(views(recent@)), seq!['\n'])
            } else {
                detail@
            };
            &&& log_path is None ==> message@ == shown
            &&& log_path matches Some(path) ==> message@ == shown + seq![
                '\n',
                '\n',
                'L',
                'o',
                'g',
                ':',
                ' ',
            ] + path@
        }),
{
    assert(views(recent@).len() == recent@.len());
    match log_path {
        Some(path) => {
            law_parts_of_a_failure_message(detail@, views(recent@), path@);
            let place = seq!['\n', '\n', 'L', 'o', 'g', ':', ' '];
            let shown = if recent@.len() > 0 {
                detail@ + seq!['\n', '\n'] + join(output_tail(views(recent@)), seq!['\n'])
            } else {
                detail@
            };
            assert(shown + (place + path@) =~= shown + place + path@);
        },
        None => {
            law_parts_of_a_failure_message(detail@, views(recent@), Seq::empty());
        },
    }
}

/// The text of the dialog is an announcement in the language of the menus, and what
/// happened.
pub proof fn law_dialog_texts(locale: NativeLocale, detail: &str, text: String)
    requires
        call_ensures(backend_error_text, (locale, detail), text),
    ensures
        locale == NativeLocale::Zh ==> text@ == "OpenHarness 后端运行失败："@ + detail@,
        locale == NativeLocale::En ==> text@ == "The OpenHarness backend failed: "@ + detail@,
{
}

} // verus!
