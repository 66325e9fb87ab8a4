//! The verdict of the pseudoconsole probe: whether a shell under a pseudoconsole received the
//! command typed into it, judged by what it put out.

use vstd::prelude::*;

use crate::text;

verus! {

/// What the probe has the shell echo.
pub const MARKER: &'static str = "CONSOLE_INPUT_OK";

/// Output of a shell that received nothing: a banner and a prompt come to no more bytes.
pub const BANNER_MAX: usize = 120;

/// The characters of Unicode's control category.
pub open spec fn control(c: char) -> bool {
    (c as u32) < 0x20 || 0x7f <= c as u32 && c as u32 <= 0x9f
}

/// `s` without control characters, except for line feeds.
pub open spec fn printable_of(s: Seq<char>) -> Seq<char> {
    s.filter(|c: char| !control(c) || c == '\n')
}

/// How often `pat` stands in `s` from position `i` on, without overlap, counted from the left.
pub open spec fn count_from(s: Seq<char>, pat: Seq<char>, i: int) -> nat
    decreases s.len() - i,
{
    if pat.len() == 0 || i + pat.len() > s.len() {
        0
    } else if text::occurs_at(s, pat, i) {
        1 + count_from(s, pat, i + pat.len())
    } else {
        count_from(s, pat, i + 1)
    }
}

/// `n` in decimal.
pub open spec fn digits(n: nat) -> Seq<char> {
    text::decimal(n).map_values(|b: u8| b as char)
}

/// The report on a probe.
pub open spec fn report(
    captured: nat,
    hits: nat,
    wait: Seq<char>,
    works: bool,
    printable: Seq<char>,
) -> Seq<char> {
    "ConPTY spike verdict\n---------------------\noutput bytes captured : "@ + digits(captured)
        + "\nmarker `CONSOLE_INPUT_OK` hits : "@ + digits(hits) + "\nWaitForSingleObject    : "@
        + wait + "  (WAIT_OBJECT_0 => child exited)\nINTERACTIVE INPUT      : "@ + (if works {
        "WORKS"@
    } else {
        "NOT delivered"@
    }) + "\n\n---- captured (printable) ----\n"@ + printable + "\n"@
}

fn is_control(c: char) -> (r: bool)
    ensures
        r == control(c),
{
    (c as u32) < 0x20 || 0x7f <= c as u32 && c as u32 <= 0x9f
}

/// `s` without control characters, except for line feeds.
pub fn printable_text(s: &str) -> (t: String)
    ensures
        t@ == printable_of(s@),
{
    let v: Vec<char> = text::chars_of(s);
    let ghost kept = |c: char| !control(c) || c == '\n';
    let mut t: String = String::new();
    let mut i: usize = 0;
    proof {
        assert(v@.take(0).filter(kept) =~= Seq::<char>::empty()) by {
            reveal(Seq::filter);
        }
    }
    while i < v.len()
        invariant
            i <= v@.len(),
            kept == |c: char| !control(c) || c == '\n',
            t@ == v@.take(i as int).filter(kept),
        decreases v@.len() - i,
    {
        let c: char = v[i];
        proof {
            assert(v@.take(i + 1).drop_last() =~= v@.take(i as int));
            reveal(Seq::filter);
        }
        if !is_control(c) || c == '\n' {
            t.push(c);
        }
        i = i + 1;
    }
    proof {
        assert(v@.take(i as int) =~= v@);
    }
    t
}

/// What is printable of captured output.
pub fn printable(bytes: &[u8]) -> (t: String)
    ensures
        t@ == printable_of(text::utf8_lossy(bytes@)),
        vstd::utf8::valid_utf8(bytes@) ==> t@ == printable_of(vstd::utf8::decode_utf8(bytes@)),
{
    let s: String = text::from_utf8_lossy(bytes);
    printable_text(s.as_str())
}

/// How often `pat` stands in `s`, without overlap.
pub fn count(s: &str, pat: &str) -> (n: usize)
    requires
        pat@.len() > 0,
    ensures
        n as nat == count_from(s@, pat@, 0),
{
    let text: Vec<char> = text::chars_of(s);
    let word: Vec<char> = text::chars_of(pat);
    let len: usize = text.len();
    let step: usize = word.len();
    let mut n: usize = 0;
    let mut i: usize = 0;
    while i <= len && step <= len - i
        invariant
            text@ == s@,
            word@ == pat@,
            len == text@.len(),
            step == word@.len(),
            step > 0,
            i <= len,
            n <= i,
            n + count_from(s@, pat@, i as int) == count_from(s@, pat@, 0),
        decreases len - i,
    {
        if text::matches_at(&text, &word, i) {
            n = n + 1;
            i = i + step;
        } else {
            i = i + 1;
        }
    }
    n
}

/// Whether the shell received its input: the marker came back, in more output than a banner and a
/// prompt.
pub fn input_ok(hits: usize, captured: usize) -> (r: bool)
    ensures
        r == (hits >= 1 && captured > BANNER_MAX),
{
    hits >= 1 && captured > BANNER_MAX
}

fn push_digits(s: &mut String, n: usize)
    ensures
        final(s)@ == old(s)@ + digits(n as nat),
{
    let mut d: Vec<u8> = Vec::new();
    text::push_decimal(&mut d, n);
    let ghost s0 = s@;
    let ghost all = digits(n as nat);
    let mut i: usize = 0;
    proof {
        assert(d@ =~= text::decimal(n as nat));
        assert(s@ =~= s0 + all.take(0));
    }
    while i < d.len()
        invariant
            i <= d@.len(),
            d@ == text::decimal(n as nat),
            all == digits(n as nat),
            s@ == s0 + all.take(i as int),
        decreases d@.len() - i,
    {
        s.push(d[i] as char);
        proof {
            assert(s@ =~= s0 + all.take(i + 1));
        }
        i = i + 1;
    }
    proof {
        assert(all.take(i as int) =~= all);
    }
}

/// The report on a probe that captured `bytes`; `wait` tells how waiting for the shell ended.
pub fn verdict(bytes: &[u8], wait: &str) -> (v: String)
    ensures
        ({
            let printable = printable_of(text::utf8_lossy(bytes@));
            let hits = count_from(printable, MARKER@, 0);
            v@ == report(
                bytes@.len(),
                hits,
                wait@,
                hits >= 1 && bytes@.len() > BANNER_MAX,
                printable,
            )
        }),
{
    let shown: String = printable(bytes);
    verdict_on(bytes.len(), wait, shown.as_str())
}

/// The report on a probe that captured so many bytes, of which `shown` is printable.
pub fn verdict_on(captured: usize, wait: &str, shown: &str) -> (v: String)
    ensures
        ({
            let hits = count_from(shown@, MARKER@, 0);
            v@ == report(
                captured as nat,
                hits,
                wait@,
                hits >= 1 && captured > BANNER_MAX,
                shown@,
            )
        }),
{
    proof {
        reveal_strlit("CONSOLE_INPUT_OK");
    }
    let hits: usize = count(shown, MARKER);
    let works: bool = input_ok(hits, captured);
    let mut v: String =
        "ConPTY spike verdict\n---------------------\noutput bytes captured : ".to_string();
    push_digits(&mut v, captured);
    v.append("\nmarker `CONSOLE_INPUT_OK` hits : ");
    push_digits(&mut v, hits);
    v.append("\nWaitForSingleObject    : ");
    v.append(wait);
    v.append("  (WAIT_OBJECT_0 => child exited)\nINTERACTIVE INPUT      : ");
    v.append(
        if works {
            "WORKS"
        } else {
            "NOT delivered"
        },
    );
    v.append("\n\n---- captured (printable) ----\n");
    v.append(shown);
    v.append("\n");
    v
}

/// The command typed into the shell: the marker is echoed, and a bare CR ends the line.
pub fn probe_command() -> (s: String)
    ensures
        s@ == "echo "@ + MARKER@ + "\r"@,
{
    let mut s: String = "echo ".to_string();
    s.append(MARKER);
    s.append("\r");
    s
}

/// Nothing that the report shows of the output can act on the console that shows it.
pub proof fn law_report_shows_no_controls(s: Seq<char>, i: int)
    requires
        0 <= i < printable_of(s).len(),
    ensures
        control(printable_of(s)[i]) ==> printable_of(s)[i] == '\n',
{
    broadcast use vstd::seq_lib::group_filter_ensures;

    let kept = |c: char| !control(c) || c == '\n';
    assert(s.filter(kept).contains(s.filter(kept)[i]));
}

/// The marker is counted where it stands, and only there: once at least exactly where the text has
/// it.
pub proof fn law_marker_found(s: Seq<char>, pat: Seq<char>)
    requires
        pat.len() > 0,
    ensures
        count_from(s, pat, 0) >= 1 <==> exists|i: int|
            0 <= i && i + pat.len() <= s.len() && #[trigger] s.subrange(i, i + pat.len()) == pat,
{
    lemma_count(s, pat, 0);
    if exists|i: int| text::occurs_at(s, pat, i) {
        let i = choose|i: int| text::occurs_at(s, pat, i);
        assert(s.subrange(i, i + pat.len()) == pat);
    }
    if exists|i: int|
        0 <= i && i + pat.len() <= s.len() && #[trigger] s.subrange(i, i + pat.len()) == pat {
        let i = choose|i: int|
            0 <= i && i + pat.len() <= s.len() && #[trigger] s.subrange(i, i + pat.len()) == pat;
        assert(text::occurs_at(s, pat, i));
    }
}

proof fn lemma_count(s: Seq<char>, pat: Seq<char>, from: int)
    requires
        pat.len() > 0,
        0 <= from,
    ensures
        count_from(s, pat, from) >= 1 <==> exists|i: int| from <= i && text::occurs_at(s, pat, i),
    decreases s.len() - from,
{
    if from + pat.len() <= s.len() && !text::occurs_at(s, pat, from) {
        lemma_count(s, pat, from + 1);
        assert forall|i: int| from <= i && text::occurs_at(s, pat, i) implies from + 1 <= i by {}
    }
}

/// What is printable of a text is the text with its control characters left out: two texts are
/// shown one after the other, and each character as it is or not at all.
pub proof fn law_printable_piecewise(a: Seq<char>, b: Seq<char>, c: char)
    ensures
        printable_of(a + b) == printable_of(a) + printable_of(b),
        c == '\n' || (' ' <= c <= '~') ==> printable_of(seq![c]) == seq![c],
        (c as u32) < 0x20 && c != '\n' || c as u32 == 0x7f ==> printable_of(seq![c])
            == Seq::<char>::empty(),
{
    let kept = |c: char| !control(c) || c == '\n';
    Seq::filter_distributes_over_add(a, b, kept);
    reveal(Seq::filter);
    assert(seq![c].drop_last() =~= Seq::<char>::empty());
    assert(Seq::<char>::empty().filter(kept) =~= Seq::<char>::empty());
    if kept(c) {
        assert(seq![c].filter(kept) =~= seq![c]);
    }
}

/// The report tells whether input works, and ends in the printable output.
#[verifier::rlimit(40)]
pub proof fn law_report_tells_the_verdict(
    captured: nat,
    hits: nat,
    wait: Seq<char>,
    works: bool,
    printable: Seq<char>,
)
    ensures
        ({
            let r = report(captured, hits, wait, works, printable);
            &&& works ==> text::occurs(r, "INTERACTIVE INPUT      : "@ + "WORKS"@)
            &&& !works ==> text::occurs(r, "INTERACTIVE INPUT      : "@ + "NOT delivered"@)
            &&& text::has_suffix(r, printable + "\n"@)
            &&& text::occurs(r, "output bytes captured : "@ + digits(captured))
            &&& text::occurs(r, " hits : "@ + digits(hits))
        }),
{
    let r = report(captured, hits, wait, works, printable);
    let (head, input) = (
        "ConPTY spike verdict\n---------------------\noutput bytes captured : "@,
        "  (WAIT_OBJECT_0 => child exited)\nINTERACTIVE INPUT      : "@,
    );
    let (count, waited) = (
        "\nmarker `CONSOLE_INPUT_OK` hits : "@,
        "\nWaitForSingleObject    : "@,
    );
    let tail = "\n\n---- captured (printable) ----\n"@ + printable + "\n"@;
    let verdict = if works {
        "WORKS"@
    } else {
        "NOT delivered"@
    };
    reveal_strlit("ConPTY spike verdict\n---------------------\noutput bytes captured : ");
    reveal_strlit("output bytes captured : ");
    reveal_strlit("  (WAIT_OBJECT_0 => child exited)\nINTERACTIVE INPUT      : ");
    reveal_strlit("INTERACTIVE INPUT      : ");
    reveal_strlit("\nmarker `CONSOLE_INPUT_OK` hits : ");
    reveal_strlit(" hits : ");
    let (said, asked, hit) = (
        "output bytes captured : "@,
        "INTERACTIVE INPUT      : "@,
        " hits : "@,
    );
    assert(head =~= head.take(head.len() - said.len()) + said);
    assert(input =~= input.take(input.len() - asked.len()) + asked);
    assert(count =~= count.take(count.len() - hit.len()) + hit);
    let (d, h) = (digits(captured), digits(hits));
    let after_hits = waited + wait + input + verdict + tail;
    assert(r =~= head.take(head.len() - said.len()) + (said + d) + (count + h + after_hits));
    text::law_occurs_where_it_stands(
        r,
        said + d,
        head.take(head.len() - said.len()),
        count + h + after_hits,
    );
    let before = head + d + count.take(count.len() - hit.len());
    assert(r =~= before + (hit + h) + after_hits);
    text::law_occurs_where_it_stands(r, hit + h, before, after_hits);
    let before = head + d + count + h + waited + wait + input.take(input.len() - asked.len());
    assert(r =~= before + (asked + verdict) + tail);
    text::law_occurs_where_it_stands(r, asked + verdict, before, tail);
    let before = head + d + count + h + waited + wait + input + verdict
        + "\n\n---- captured (printable) ----\n"@;
    assert(r =~= before + (printable + "\n"@));
    text::law_occurs_where_it_stands(r, printable + "\n"@, before, seq![]);
}

/// A number is written in decimal, digit by digit.
pub proof fn law_digits(n: nat, i: int)
    requires
        0 <= i < text::decimal(n).len(),
    ensures
        digits(n).len() == text::decimal(n).len(),
        digits(n)[i] as u32 == text::decimal(n)[i],
{
}

} // verus!
