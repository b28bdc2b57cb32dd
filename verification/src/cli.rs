//! What the command line prints.

use vstd::prelude::*;

use crate::replace::AddOutcome;
use crate::text;

verus! {

/// The hint after a change of the configuration.
pub const RESTART_HINT: &'static str =
    "Restart the daemon to apply: systemctl --user restart lindiction";

/// The log level for the given number of `-v` flags.
pub open spec fn level(verbose: u8) -> Seq<char> {
    if verbose == 0 {
        "info"@
    } else if verbose == 1 {
        "debug"@
    } else {
        "trace"@
    }
}

/// The log filter for the given number of `-v` flags: the daemon's own messages
/// from that level on, and warnings of everything else.
pub fn log_filter(verbose: u8) -> (r: String)
    ensures
        r@ == "lindiction="@ + level(verbose) + ",warn"@,
{
    let level: &str = match verbose {
        0 => "info",
        1 => "debug",
        _ => "trace",
    };
    text::concat3("lindiction=", level, ",warn")
}

/// What to say after a replacement was added.
pub open spec fn add_text(from: Seq<char>, to: Seq<char>, outcome: AddOutcome) -> Seq<char> {
    match outcome {
        AddOutcome::Added => "Added: "@ + from + " → "@ + to,
        AddOutcome::Updated { previous } => "Updated: "@ + from + " → "@ + to + "  (was: "@
            + previous@ + ")"@,
    }
}

/// What to say after a replacement was added.
pub fn add_message(from: &str, to: &str, outcome: &AddOutcome) -> (r: String)
    ensures
        r@ == add_text(from@, to@, *outcome),
{
    match outcome {
        AddOutcome::Added => {
            let mut out: String = "Added: ".to_owned();
            out.append(from);
            out.append(" → ");
            out.append(to);
            out
        },
        AddOutcome::Updated { previous } => {
            let mut out: String = "Updated: ".to_owned();
            out.append(from);
            out.append(" → ");
            out.append(to);
            out.append("  (was: ");
            out.append(previous.as_str());
            out.append(")");
            out
        },
    }
}

/// The lines to print after a replacement was added: what was done, and the hint.
pub fn add_lines(from: &str, to: &str, outcome: &AddOutcome) -> (r: Vec<String>)
    ensures
        text::texts(r@) == seq![add_text(from@, to@, *outcome), RESTART_HINT@],
{
    let said = add_message(from, to, outcome);
    let lines: Vec<String> = vec![said, RESTART_HINT.to_owned()];
    assert(text::texts(lines@) =~= seq![add_text(from@, to@, *outcome), RESTART_HINT@]);
    lines
}

/// What to say after a replacement was removed, or was not there.
pub open spec fn remove_text(from: Seq<char>, previous: Option<Seq<char>>) -> Seq<char> {
    match previous {
        Some(prev) => "Removed: "@ + from + " → "@ + prev,
        None => "No replacement for `"@ + from + "` (case-insensitive match)."@,
    }
}

/// What to say after a replacement was removed, or was not there.
pub fn remove_message(from: &str, previous: Option<&str>) -> (r: String)
    ensures
        r@ == remove_text(from@, text::seen(previous)),
{
    match previous {
        Some(prev) => {
            let mut out: String = "Removed: ".to_owned();
            out.append(from);
            out.append(" → ");
            out.append(prev);
            out
        },
        None => text::concat3("No replacement for `", from, "` (case-insensitive match)."),
    }
}

/// The lines to print after a replacement was removed, or was not there. The hint
/// follows only where something changed.
pub fn remove_lines(from: &str, previous: Option<&str>) -> (r: Vec<String>)
    ensures
        text::texts(r@) == if previous is Some {
            seq![remove_text(from@, text::seen(previous)), RESTART_HINT@]
        } else {
            seq![remove_text(from@, text::seen(previous))]
        },
{
    let said = remove_message(from, previous);
    let mut lines: Vec<String> = vec![said];
    assert(text::texts(lines@) =~= seq![remove_text(from@, text::seen(previous))]);
    if previous.is_some() {
        lines.push(RESTART_HINT.to_owned());
        assert(text::texts(lines@) =~= seq![
            remove_text(from@, text::seen(previous)),
            RESTART_HINT@,
        ]);
    }
    lines
}

/// The length of the longest first text.
pub open spec fn width(items: Seq<(String, String)>) -> nat
    decreases items.len(),
{
    if items.len() == 0 {
        0
    } else if items.last().0@.len() > width(items.drop_last()) {
        items.last().0@.len()
    } else {
        width(items.drop_last())
    }
}

/// `s` with spaces behind it, up to `width` characters.
pub open spec fn padded(s: Seq<char>, width: nat) -> Seq<char> {
    if s.len() < width {
        s + Seq::new((width - s.len()) as nat, |i: int| ' ')
    } else {
        s
    }
}

/// One line of the list.
pub open spec fn list_line(item: (String, String), width: nat) -> Seq<char> {
    padded(item.0@, width) + "  →  "@ + item.1@
}

/// No first text is longer than the longest.
pub proof fn width_is_enough(items: Seq<(String, String)>, i: int)
    requires
        0 <= i < items.len(),
    ensures
        items[i].0@.len() <= width(items),
    decreases items.len(),
{
    if i < items.len() - 1 {
        width_is_enough(items.drop_last(), i);
    }
}

/// The arrows of the list line up: what precedes them is equally long on every
/// line.
pub proof fn arrows_line_up(items: Seq<(String, String)>, i: int)
    requires
        0 <= i < items.len(),
    ensures
        padded(items[i].0@, width(items)).len() == width(items),
        items[i].0@.is_prefix_of(padded(items[i].0@, width(items))),
{
    width_is_enough(items, i);
}

/// The number of characters in `s`.
fn count_chars(s: &str) -> (r: usize)
    ensures
        r == s@.len(),
{
    let chars = text::chars_of(s);
    chars.len()
}

/// The lines that list the replacements, with the arrows below each other.
pub fn list_lines(items: &Vec<(String, String)>) -> (r: Vec<String>)
    ensures
        if items@.len() == 0 {
            text::texts(r@) == seq!["(no replacements configured)"@]
        } else {
            text::texts(r@) == items@.map_values(
                |item: (String, String)| list_line(item, width(items@)),
            )
        },
{
    let n: usize = items.len();
    if n == 0 {
        let only: Vec<String> = vec!["(no replacements configured)".to_owned()];
        assert(text::texts(only@) =~= seq!["(no replacements configured)"@]);
        return only;
    }
    let mut widest: usize = 0;
    for i in 0..n
        invariant
            n == items@.len(),
            widest == width(items@.take(i as int)),
    {
        assert(items@.take(i + 1).drop_last() == items@.take(i as int));
        assert(items@.take(i + 1).last() == items@[i as int]);
        let len = count_chars(items[i].0.as_str());
        if len > widest {
            widest = len;
        }
    }
    assert(items@.take(n as int) == items@);
    let ghost line = |item: (String, String)| list_line(item, width(items@));
    let mut out: Vec<String> = Vec::new();
    assert(text::texts(out@) =~= items@.take(0).map_values(line));
    for i in 0..n
        invariant
            n == items@.len(),
            widest == width(items@),
            line == (|item: (String, String)| list_line(item, width(items@))),
            text::texts(out@) == items@.take(i as int).map_values(line),
    {
        let from: &str = items[i].0.as_str();
        let len = count_chars(from);
        let mut row: String = from.to_owned();
        let missing: usize = if len < widest {
            widest - len
        } else {
            0
        };
        for k in 0..missing
            invariant
                row@ == from@ + Seq::new(k as nat, |j: int| ' '),
        {
            row.push(' ');
            assert(row@ =~= from@ + Seq::new((k + 1) as nat, |j: int| ' '));
        }
        assert(row@ =~= padded(from@, width(items@)));
        row.append("  →  ");
        row.append(items[i].1.as_str());
        let ghost before = out@;
        out.push(row);
        assert(text::texts(out@) =~= text::texts(before).push(line(items@[i as int])));
        assert(items@.take(i + 1).map_values(line) =~= items@.take(i as int).map_values(line).push(
            line(items@[i as int]),
        ));
    }
    assert(items@.take(n as int) == items@);
    out
}

// ---------------------------------------------------------------------------
// Laws
// ---------------------------------------------------------------------------

/// More `-v` flags show more: none the news, one the details, more of them
/// everything; and of everything else the warnings.
pub proof fn verbosity_counts(verbose: u8, r: String)
    requires
        call_ensures(log_filter, (verbose,), r),
    ensures
        verbose == 0 ==> r@ == "lindiction=info,warn"@,
        verbose == 1 ==> r@ == "lindiction=debug,warn"@,
        verbose >= 2 ==> r@ == "lindiction=trace,warn"@,
{
    reveal_strlit("lindiction=");
    reveal_strlit("info");
    reveal_strlit("debug");
    reveal_strlit("trace");
    reveal_strlit(",warn");
    reveal_strlit("lindiction=info,warn");
    reveal_strlit("lindiction=debug,warn");
    reveal_strlit("lindiction=trace,warn");
    assert("lindiction="@ + "info"@ + ",warn"@ =~= "lindiction=info,warn"@);
    assert("lindiction="@ + "debug"@ + ",warn"@ =~= "lindiction=debug,warn"@);
    assert("lindiction="@ + "trace"@ + ",warn"@ =~= "lindiction=trace,warn"@);
}

/// After an addition the user reads the two texts in their order, the text that was
/// replaced where there was one, and how to apply the change.
pub proof fn additions_are_reported(from: &str, to: &str, outcome: AddOutcome, r: Vec<String>)
    requires
        call_ensures(add_lines, (from, to, &outcome), r),
    ensures
        r@.len() == 2,
        outcome is Added ==> r@[0]@ == "Added: "@ + from@ + " → "@ + to@,
        outcome matches AddOutcome::Updated { previous } ==> r@[0]@ == "Updated: "@ + from@ + " → "@
            + to@ + "  (was: "@ + previous@ + ")"@,
        r@[1]@ == "Restart the daemon to apply: systemctl --user restart lindiction"@,
{
    let told = text::texts(r@);
    assert(told.len() == 2);
    assert(told[0] == r@[0]@ && told[1] == r@[1]@);
}

/// After a removal the user reads what is gone and how to apply the change, or that
/// nothing was there, and then nothing more.
pub proof fn removals_are_reported(
    from: &str,
    previous: &str,
    gone: Vec<String>,
    kept: Vec<String>,
)
    requires
        call_ensures(remove_lines, (from, Some(previous)), gone),
        call_ensures(remove_lines, (from, None::<&str>), kept),
    ensures
        gone@.len() == 2,
        gone@[0]@ == "Removed: "@ + from@ + " → "@ + previous@,
        gone@[1]@ == "Restart the daemon to apply: systemctl --user restart lindiction"@,
        kept@.len() == 1,
        kept@[0]@ == "No replacement for `"@ + from@ + "` (case-insensitive match)."@,
{
    let told = text::texts(gone@);
    assert(told.len() == 2);
    assert(told[0] == gone@[0]@ && told[1] == gone@[1]@);
    let said = text::texts(kept@);
    assert(said.len() == 1);
    assert(said[0] == kept@[0]@);
}

/// The width is that of a first text, and not of none.
pub proof fn width_is_needed(items: Seq<(String, String)>) -> (i: int)
    requires
        items.len() > 0,
    ensures
        0 <= i < items.len(),
        items[i].0@.len() == width(items),
    decreases items.len(),
{
    if items.len() == 1 {
        assert(width(items.drop_last()) == 0);
        0
    } else if items.last().0@.len() > width(items.drop_last()) {
        items.len() - 1
    } else {
        width_is_needed(items.drop_last())
    }
}

/// The list holds one line for each replacement, in order: its first text, spaces,
/// an arrow, its second text. The arrows stand in one column, no further right than
/// some first text needs.
pub proof fn lists_are_complete(items: Vec<(String, String)>, r: Vec<String>, i: int) -> (k: int)
    requires
        call_ensures(list_lines, (&items,), r),
        0 <= i < items@.len(),
    ensures
        r@.len() == items@.len(),
        items@[i].0@.is_prefix_of(r@[i]@),
        ("  →  "@ + items@[i].1@).is_suffix_of(r@[i]@),
        r@[i]@.len() - items@[i].1@.len() == items@[k].0@.len() + 5,
        forall|j: int|
            items@[i].0@.len() <= j < items@[k].0@.len() ==> #[trigger] r@[i]@[j] == ' ',
        0 <= k < items@.len(),
        forall|j: int|
            0 <= j < items@.len() ==> (#[trigger] items@[j]).0@.len() <= items@[k].0@.len(),
{
    reveal_strlit("  →  ");
    let k = width_is_needed(items@);
    assert forall|j: int| 0 <= j < items@.len() implies (#[trigger] items@[j]).0@.len()
        <= items@[k].0@.len() by {
        width_is_enough(items@, j);
    }
    let told = text::texts(r@);
    let wanted = items@.map_values(|item: (String, String)| list_line(item, width(items@)));
    assert(told == wanted);
    assert(told.len() == r@.len() && wanted.len() == items@.len());
    assert(told[i] == r@[i]@ && wanted[i] == list_line(items@[i], width(items@)));
    let line = r@[i]@;
    let from = items@[i].0@;
    let rest = "  →  "@ + items@[i].1@;
    assert(line.subrange(0, from.len() as int) =~= from);
    assert(line.subrange(line.len() - rest.len(), line.len() as int) =~= rest);
    k
}

/// Without replacements the list says so.
pub proof fn empty_lists_say_so(items: Vec<(String, String)>, r: Vec<String>)
    requires
        call_ensures(list_lines, (&items,), r),
        items@.len() == 0,
    ensures
        r@.len() == 1,
        r@[0]@ == "(no replacements configured)"@,
{
    let told = text::texts(r@);
    assert(told.len() == 1);
    assert(told[0] == r@[0]@);
}

} // verus!
