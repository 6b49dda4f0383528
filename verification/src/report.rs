//! Reading the vulnerabilities out of a scan's report, written either as
//! Markdown or as JSON.

use vstd::prelude::*;
use crate::json::{JsonValue, as_str, get, json_array, json_document, json_get, json_str, parse_json_document};
use crate::scan::{Vulnerability, VulnerabilityView, opt_view, vuln_views};
use crate::text::{
    chars_of, contains_chars, decimal, has_infix, has_prefix, lines, lines_of, lowercase,
    push_decimal, split_char, split_chars, starts_with_chars, string_of, to_lowercase, trim,
    trim_chars, trim_start_char, trim_start_char_chars, views_of,
};

verus! {

// ---------------------------------------------------------------------------
// Markdown reports
// ---------------------------------------------------------------------------

/// Where a Markdown report stands after some of its lines: the findings
/// already closed and the one being read.
pub struct MarkdownState {
    pub done: Seq<VulnerabilityView>,
    pub current: Option<VulnerabilityView>,
}

/// A level-two or level-three heading opens a finding.
pub open spec fn is_heading(line: Seq<char>) -> bool {
    has_prefix(line, "## "@) || has_prefix(line, "### "@)
}

/// The text after the first colon and before the second, if any
/// (`split(':').nth(1)`, empty when there is no colon).
pub open spec fn after_colon(line: Seq<char>) -> Seq<char> {
    let parts = split_char(line, ':');
    if parts.len() > 1 {
        parts[1]
    } else {
        Seq::<char>::empty()
    }
}

/// The finding that a heading opens when `n` findings are already closed.
pub open spec fn heading_finding(line: Seq<char>, n: nat) -> VulnerabilityView {
    VulnerabilityView {
        id: "vuln_"@ + decimal(n + 1),
        title: trim(trim_start_char(line, '#')),
        severity: "medium"@,
        description: Seq::<char>::empty(),
        poc: None,
        remediation: None,
    }
}

/// How a line that is not a heading changes the finding being read: a
/// severity line sets the severity, a description line sets a non-empty
/// description, and otherwise the first non-blank line is the description.
pub open spec fn detail_line(v: VulnerabilityView, line: Seq<char>) -> VulnerabilityView {
    let low = lowercase(line);
    if has_infix(low, "severity:"@) || has_infix(low, "严重程度:"@) {
        VulnerabilityView { severity: lowercase(trim(after_colon(line))), ..v }
    } else if has_infix(low, "description:"@) || has_infix(low, "描述:"@) {
        let d = trim(after_colon(line));
        if d.len() > 0 {
            VulnerabilityView { description: d, ..v }
        } else {
            v
        }
    } else if trim(line).len() > 0 && v.description.len() == 0 {
        VulnerabilityView { description: trim(line), ..v }
    } else {
        v
    }
}

/// The findings closed so far, with the open one closed too.
pub open spec fn closed(st: MarkdownState) -> Seq<VulnerabilityView> {
    match st.current {
        Some(v) => st.done.push(v),
        None => st.done,
    }
}

/// One line of a Markdown report read.
pub open spec fn markdown_step(st: MarkdownState, line: Seq<char>) -> MarkdownState {
    if is_heading(line) {
        let done = closed(st);
        MarkdownState { done, current: Some(heading_finding(line, done.len())) }
    } else {
        match st.current {
            Some(v) => MarkdownState { done: st.done, current: Some(detail_line(v, line)) },
            None => st,
        }
    }
}

/// The state after reading the given lines from the start.
pub open spec fn markdown_run(ls: Seq<Seq<char>>) -> MarkdownState
    decreases ls.len(),
{
    if ls.len() == 0 {
        MarkdownState { done: Seq::empty(), current: None }
    } else {
        markdown_step(markdown_run(ls.drop_last()), ls.last())
    }
}

/// The findings of a Markdown report.
pub open spec fn markdown_findings(md: Seq<char>) -> Seq<VulnerabilityView> {
    closed(markdown_run(lines(md)))
}

/// The number of heading lines among `ls`.
pub open spec fn heading_count(ls: Seq<Seq<char>>) -> nat
    decreases ls.len(),
{
    if ls.len() == 0 {
        0
    } else {
        heading_count(ls.drop_last()) + if is_heading(ls.last()) {
            1nat
        } else {
            0nat
        }
    }
}

proof fn lemma_markdown_run_numbering(ls: Seq<Seq<char>>)
    ensures
        ({
            let st = markdown_run(ls);
            &&& st.current is None ==> heading_count(ls) == 0 && st.done.len() == 0
            &&& st.current is Some ==> st.done.len() + 1 == heading_count(ls)
            &&& forall|k: int|
                0 <= k < st.done.len() ==> (#[trigger] st.done[k]).id == "vuln_"@ + decimal(
                    (k + 1) as nat,
                )
            &&& st.current matches Some(v) ==> v.id == "vuln_"@ + decimal(st.done.len() + 1)
        }),
    decreases ls.len(),
{
    if ls.len() > 0 {
        lemma_markdown_run_numbering(ls.drop_last());
        let prev = markdown_run(ls.drop_last());
        let st = markdown_run(ls);
        if is_heading(ls.last()) {
            let done = closed(prev);
            assert forall|k: int| 0 <= k < st.done.len() implies (#[trigger] st.done[k]).id
                == "vuln_"@ + decimal((k + 1) as nat) by {
                if k < prev.done.len() {
                    assert(st.done[k] == prev.done[k]);
                }
            }
        }
    }
}

/// A Markdown report yields one finding per heading line, and the `k`-th
/// finding (counting from zero) is numbered `vuln_{k+1}`.
pub proof fn lemma_markdown_numbering(md: Seq<char>)
    ensures
        markdown_findings(md).len() == heading_count(lines(md)),
        forall|k: int|
            0 <= k < markdown_findings(md).len() ==> (#[trigger] markdown_findings(md)[k]).id
                == "vuln_"@ + decimal((k + 1) as nat),
{
    let st = markdown_run(lines(md));
    lemma_markdown_run_numbering(lines(md));
    assert forall|k: int| 0 <= k < markdown_findings(md).len() implies (#[trigger] markdown_findings(
        md,
    )[k]).id == "vuln_"@ + decimal((k + 1) as nat) by {
        if k < st.done.len() {
            assert(markdown_findings(md)[k] == st.done[k]);
        }
    }
}

fn second_piece(line: &Vec<char>) -> (res: Vec<char>)
    ensures
        res@ == after_colon(line@),
{
    let mut parts = split_chars(line.as_slice(), ':');
    if parts.len() > 1 {
        parts.swap_remove(1)
    } else {
        Vec::new()
    }
}

fn apply_detail(v: &mut Vulnerability, line: &Vec<char>)
    ensures
        final(v)@ == detail_line(old(v)@, line@),
{
    let text = string_of(line.as_slice());
    let low = chars_of(to_lowercase(text.as_str()).as_str());
    let severity = chars_of("severity:");
    let severity_zh = chars_of("严重程度:");
    let description = chars_of("description:");
    let description_zh = chars_of("描述:");
    if contains_chars(low.as_slice(), severity.as_slice()) || contains_chars(
        low.as_slice(),
        severity_zh.as_slice(),
    ) {
        let piece = trim_chars(second_piece(line).as_slice());
        let piece = string_of(piece.as_slice());
        v.severity = to_lowercase(piece.as_str());
    } else if contains_chars(low.as_slice(), description.as_slice()) || contains_chars(
        low.as_slice(),
        description_zh.as_slice(),
    ) {
        let d = trim_chars(second_piece(line).as_slice());
        if d.len() > 0 {
            v.description = string_of(d.as_slice());
        }
    } else {
        let t = trim_chars(line.as_slice());
        if t.len() > 0 && v.description.unicode_len() == 0 {
            v.description = string_of(t.as_slice());
        }
    }
}

fn opened_finding(line: &Vec<char>, n: usize) -> (res: Vulnerability)
    requires
        n < usize::MAX,
    ensures
        res@ == heading_finding(line@, n as nat),
{
    let mut id = String::from_str("vuln_");
    push_decimal(&mut id, (n + 1) as u64);
    let title = trim_chars(trim_start_char_chars(line.as_slice(), '#').as_slice());
    Vulnerability {
        id,
        title: string_of(title.as_slice()),
        severity: String::from_str("medium"),
        description: String::new(),
        poc: None,
        remediation: None,
    }
}

/// Reads the findings out of a Markdown report: each `## ` or `### ` heading
/// opens one, numbered `vuln_1`, `vuln_2`, ... in order, and the lines under
/// it give its severity and description.
pub fn parse_markdown_report(md: &str) -> (res: Result<Vec<Vulnerability>, String>)
    ensures
        res matches Ok(v) && vuln_views(v@) == markdown_findings(md@),
{
    let ls = lines_of(md);
    let two = chars_of("## ");
    let three = chars_of("### ");
    let mut done: Vec<Vulnerability> = Vec::new();
    let mut current: Option<Vulnerability> = None;
    let mut i: usize = 0;
    while i < ls.len()
        invariant
            views_of(ls@) == lines(md@),
            i <= ls@.len(),
            two@ == "## "@,
            three@ == "### "@,
            done@.len() + (if current is Some { 1int } else { 0int }) <= i,
            ({
                let st = markdown_run(views_of(ls@).take(i as int));
                &&& st.done == vuln_views(done@)
                &&& st.current == match current {
                    Some(v) => Some(v@),
                    None => None::<VulnerabilityView>,
                }
            }),
        decreases ls@.len() - i,
    {
        let line = &ls[i];
        proof {
            assert(views_of(ls@).take(i + 1).drop_last() == views_of(ls@).take(i as int));
            assert(views_of(ls@).take(i + 1).last() == line@);
        }
        if starts_with_chars(line.as_slice(), two.as_slice()) || starts_with_chars(
            line.as_slice(),
            three.as_slice(),
        ) {
            let ghost old_done = done@;
            match current.take() {
                Some(v) => {
                    done.push(v);
                },
                None => {},
            }
            proof {
                assert(vuln_views(done@) =~= closed(markdown_run(views_of(ls@).take(i as int))));
            }
            current = Some(opened_finding(line, done.len()));
        } else {
            match current {
                Some(ref mut v) => {
                    apply_detail(v, line);
                },
                None => {},
            }
        }
        i = i + 1;
    }
    proof {
        assert(views_of(ls@).take(ls@.len() as int) == views_of(ls@));
    }
    match current {
        Some(v) => {
            done.push(v);
        },
        None => {},
    }
    proof {
        assert(vuln_views(done@) =~= markdown_findings(md@));
    }
    Ok(done)
}


/// A line that sets a finding's severity: lower-cased, it holds
/// `severity:` or `严重程度:`.
pub open spec fn is_severity_line(line: Seq<char>) -> bool {
    has_infix(lowercase(line), "severity:"@) || has_infix(lowercase(line), "严重程度:"@)
}

/// The sections of a report: each heading line with the lines under it, up
/// to the next heading; lines before the first heading belong to none.
pub open spec fn sections(ls: Seq<Seq<char>>) -> Seq<(Seq<char>, Seq<Seq<char>>)>
    decreases ls.len(),
{
    if ls.len() == 0 {
        Seq::empty()
    } else {
        let prev = sections(ls.drop_last());
        if is_heading(ls.last()) {
            prev.push((ls.last(), Seq::empty()))
        } else if prev.len() > 0 {
            prev.update(prev.len() - 1, (prev.last().0, prev.last().1.push(ls.last())))
        } else {
            prev
        }
    }
}

/// A section's severity: that of its last severity line (the text after the
/// first colon, trimmed and lower-cased), or `medium` when it has none.
pub open spec fn section_severity(body: Seq<Seq<char>>) -> Seq<char>
    decreases body.len(),
{
    if body.len() == 0 {
        "medium"@
    } else if is_severity_line(body.last()) {
        lowercase(trim(after_colon(body.last())))
    } else {
        section_severity(body.drop_last())
    }
}

/// The finding of a section: titled by its heading without the leading `#`s
/// and trimmed, with the section's severity, and no proof of concept or
/// remediation.
pub open spec fn finding_of_section(v: VulnerabilityView, sec: (Seq<char>, Seq<Seq<char>>)) -> bool {
    &&& v.title == trim(trim_start_char(sec.0, '#'))
    &&& v.severity == section_severity(sec.1)
    &&& v.poc is None
    &&& v.remediation is None
}

/// A line that gives a finding its description: it is no severity line,
/// lower-cased it holds `description:` or `描述:`, and the text after its
/// first colon, trimmed, is not empty.
pub open spec fn sets_description(line: Seq<char>) -> bool {
    &&& !is_severity_line(line)
    &&& has_infix(lowercase(line), "description:"@) || has_infix(lowercase(line), "描述:"@)
    &&& trim(after_colon(line)).len() > 0
}

/// A line of free text under a heading: neither a severity line nor a
/// description line, and not blank.
pub open spec fn plain_detail(line: Seq<char>) -> bool {
    &&& !is_severity_line(line)
    &&& !has_infix(lowercase(line), "description:"@)
    &&& !has_infix(lowercase(line), "描述:"@)
    &&& trim(line).len() > 0
}

spec fn description_step(d: Seq<char>, line: Seq<char>) -> Seq<char> {
    if sets_description(line) {
        trim(after_colon(line))
    } else if plain_detail(line) && d.len() == 0 {
        trim(line)
    } else {
        d
    }
}

spec fn description_of(body: Seq<Seq<char>>) -> Seq<char>
    decreases body.len(),
{
    if body.len() == 0 {
        Seq::empty()
    } else {
        description_step(description_of(body.drop_last()), body.last())
    }
}

proof fn lemma_last_description_line(body: Seq<Seq<char>>, i: int)
    requires
        0 <= i < body.len(),
        sets_description(body[i]),
        forall|j: int| i < j < body.len() ==> !sets_description(#[trigger] body[j]),
    ensures
        description_of(body) == trim(after_colon(body[i])),
    decreases body.len(),
{
    if i < body.len() - 1 {
        let prev = body.drop_last();
        assert(prev[i] == body[i]);
        assert forall|j: int| i < j < prev.len() implies !sets_description(#[trigger] prev[j]) by {
            assert(prev[j] == body[j]);
        }
        lemma_last_description_line(prev, i);
        assert(!sets_description(body[body.len() - 1]));
    }
}

proof fn lemma_free_text_description(body: Seq<Seq<char>>)
    requires
        forall|j: int| 0 <= j < body.len() ==> !sets_description(#[trigger] body[j]),
    ensures
        (forall|j: int| 0 <= j < body.len() ==> !plain_detail(#[trigger] body[j]))
            ==> description_of(body).len() == 0,
        forall|i: int|
            0 <= i < body.len() && #[trigger] plain_detail(body[i]) && (forall|j: int|
                0 <= j < i ==> !plain_detail(#[trigger] body[j])) ==> description_of(body)
                == trim(body[i]),
    decreases body.len(),
{
    if body.len() > 0 {
        let prev = body.drop_last();
        let n = body.len() - 1;
        assert forall|j: int| 0 <= j < prev.len() implies !sets_description(#[trigger] prev[j]) by {
            assert(prev[j] == body[j]);
        }
        lemma_free_text_description(prev);
        assert(!sets_description(body[n]));
        if forall|j: int| 0 <= j < body.len() ==> !plain_detail(#[trigger] body[j]) {
            assert forall|j: int| 0 <= j < prev.len() implies !plain_detail(#[trigger] prev[j]) by {
                assert(prev[j] == body[j]);
            }
            assert(!plain_detail(body[n]));
        }
        assert forall|i: int|
            0 <= i < body.len() && #[trigger] plain_detail(body[i]) && (forall|j: int|
                0 <= j < i ==> !plain_detail(#[trigger] body[j])) implies description_of(body)
            == trim(body[i]) by {
            if i < n {
                assert(prev[i] == body[i]);
                assert forall|j: int| 0 <= j < i implies !plain_detail(#[trigger] prev[j]) by {
                    assert(prev[j] == body[j]);
                    assert(!plain_detail(body[j]));
                }
                assert(description_of(prev) == trim(body[i]));
            } else {
                assert forall|j: int| 0 <= j < prev.len() implies !plain_detail(#[trigger] prev[j]) by {
                    assert(prev[j] == body[j]);
                    assert(!plain_detail(body[j]));
                }
                assert(description_of(prev).len() == 0);
            }
        }
    }
}

proof fn lemma_markdown_run_sections(ls: Seq<Seq<char>>)
    ensures
        ({
            let st = markdown_run(ls);
            let secs = sections(ls);
            &&& (st.current is None <==> secs.len() == 0)
            &&& st.current is None ==> st.done.len() == 0
            &&& st.current is Some ==> st.done.len() + 1 == secs.len()
            &&& forall|k: int|
                0 <= k < st.done.len() ==> finding_of_section(#[trigger] st.done[k], secs[k])
            &&& st.current matches Some(v) ==> finding_of_section(v, secs.last())
            &&& forall|k: int|
                0 <= k < st.done.len() ==> (#[trigger] st.done[k]).description == description_of(
                    secs[k].1,
                )
            &&& st.current matches Some(v) ==> v.description == description_of(secs.last().1)
        }),
    decreases ls.len(),
{
    if ls.len() > 0 {
        let prev_ls = ls.drop_last();
        let line = ls.last();
        lemma_markdown_run_sections(prev_ls);
        let prev = markdown_run(prev_ls);
        let psecs = sections(prev_ls);
        let st = markdown_run(ls);
        let secs = sections(ls);
        reveal_strlit("medium");
        if is_heading(line) {
            assert(secs == psecs.push((line, Seq::<Seq<char>>::empty())));
            assert(st.done == closed(prev));
            assert(st.current == Some(heading_finding(line, st.done.len())));
            assert(section_severity(Seq::<Seq<char>>::empty()) == "medium"@);
            assert forall|k: int| 0 <= k < st.done.len() implies finding_of_section(
                #[trigger] st.done[k],
                secs[k],
            ) by {
                assert(secs[k] == psecs[k]);
                if k < prev.done.len() {
                    assert(st.done[k] == prev.done[k]);
                } else {
                    assert(prev.current is Some);
                    assert(st.done[k] == prev.current->0);
                    assert(psecs[k] == psecs.last());
                }
            }
        } else if prev.current is Some {
            let v = prev.current->0;
            let last = psecs.last();
            assert(secs == psecs.update(psecs.len() - 1, (last.0, last.1.push(line))));
            assert(last.1.push(line).drop_last() =~= last.1);
            assert forall|k: int| 0 <= k < st.done.len() implies finding_of_section(
                #[trigger] st.done[k],
                secs[k],
            ) by {
                assert(st.done[k] == prev.done[k]);
                assert(secs[k] == psecs[k]);
            }
            assert forall|k: int| 0 <= k < st.done.len() implies (#[trigger] st.done[k]).description
                == description_of(secs[k].1) by {
                assert(st.done[k] == prev.done[k]);
                assert(secs[k] == psecs[k]);
            }
            assert(description_of(last.1.push(line)) == description_step(
                description_of(last.1),
                line,
            ));
            assert(detail_line(v, line).description == description_step(v.description, line));
        } else {
            assert forall|k: int| 0 <= k < st.done.len() implies (#[trigger] st.done[k]).description
                == description_of(secs[k].1) by {
                assert(st.done[k] == prev.done[k]);
            }
        }
        if is_heading(line) {
            assert(description_of(Seq::<Seq<char>>::empty()).len() == 0);
            assert forall|k: int| 0 <= k < st.done.len() implies (#[trigger] st.done[k]).description
                == description_of(secs[k].1) by {
                assert(secs[k] == psecs[k]);
                if k < prev.done.len() {
                    assert(st.done[k] == prev.done[k]);
                } else {
                    assert(st.done[k] == prev.current->0);
                    assert(psecs[k] == psecs.last());
                }
            }
        }
    }
}

/// A Markdown report gives one finding per section, in order: its title is
/// the heading line without its leading `#`s, trimmed; its severity is that
/// of the last severity line under the heading (`medium` without one); it
/// has no proof of concept and no remediation.
pub proof fn lemma_markdown_sections(md: Seq<char>)
    ensures
        markdown_findings(md).len() == sections(lines(md)).len(),
        forall|k: int|
            0 <= k < markdown_findings(md).len() ==> finding_of_section(
                #[trigger] markdown_findings(md)[k],
                sections(lines(md))[k],
            ),
{
    let st = markdown_run(lines(md));
    let secs = sections(lines(md));
    lemma_markdown_run_sections(lines(md));
    assert(markdown_findings(md) == closed(st));
    assert forall|k: int| 0 <= k < markdown_findings(md).len() implies finding_of_section(
        #[trigger] markdown_findings(md)[k],
        secs[k],
    ) by {
        if k < st.done.len() {
            assert(markdown_findings(md)[k] == st.done[k]);
        } else {
            assert(markdown_findings(md)[k] == st.current->0);
        }
    }
}

/// The description of a Markdown finding comes from the lines under its
/// heading: the text after the first colon of the last description line
/// whose text is not blank; without one, the first line of free text,
/// trimmed; without that either, nothing.
pub proof fn lemma_markdown_description(md: Seq<char>, k: int)
    requires
        0 <= k < sections(lines(md)).len(),
    ensures
        ({
            let body = sections(lines(md))[k].1;
            let v = markdown_findings(md)[k];
            &&& forall|i: int|
                0 <= i < body.len() && #[trigger] sets_description(body[i]) && (forall|j: int|
                    i < j < body.len() ==> !sets_description(#[trigger] body[j]))
                    ==> v.description == trim(after_colon(body[i]))
            &&& (forall|j: int| 0 <= j < body.len() ==> !sets_description(#[trigger] body[j]))
                ==> forall|i: int|
                0 <= i < body.len() && #[trigger] plain_detail(body[i]) && (forall|j: int|
                    0 <= j < i ==> !plain_detail(#[trigger] body[j])) ==> v.description == trim(
                    body[i],
                )
            &&& (forall|j: int|
                0 <= j < body.len() ==> !sets_description(#[trigger] body[j]) && !plain_detail(
                    body[j],
                )) ==> v.description.len() == 0
        }),
{
    let ls = lines(md);
    let st = markdown_run(ls);
    let secs = sections(ls);
    let body = secs[k].1;
    lemma_markdown_run_sections(ls);
    let v = markdown_findings(md)[k];
    assert(markdown_findings(md) == closed(st));
    if k < st.done.len() {
        assert(v == st.done[k]);
    } else {
        assert(v == st.current->0);
    }
    assert(v.description == description_of(body));
    assert forall|i: int|
        0 <= i < body.len() && #[trigger] sets_description(body[i]) && (forall|j: int|
            i < j < body.len() ==> !sets_description(#[trigger] body[j])) implies v.description
        == trim(after_colon(body[i])) by {
        lemma_last_description_line(body, i);
    }
    if forall|j: int| 0 <= j < body.len() ==> !sets_description(#[trigger] body[j]) {
        lemma_free_text_description(body);
    }
    if forall|j: int|
        0 <= j < body.len() ==> !sets_description(#[trigger] body[j]) && !plain_detail(body[j]) {
        lemma_free_text_description(body);
    }
}

// ---------------------------------------------------------------------------
// JSON reports
// ---------------------------------------------------------------------------

/// The string under `primary`, or, when there is no member `primary`, the
/// string under `fallback`. A `primary` member that is not a string gives
/// nothing: the fallback is looked at only when `primary` is absent.
pub open spec fn pick_str(v: JsonValue, primary: Seq<char>, fallback: Seq<char>) -> Option<
    Seq<char>,
> {
    match json_get(v, primary) {
        Some(x) => json_str(Some(x)),
        None => json_str(json_get(v, fallback)),
    }
}

/// `o`, or `d` when there is nothing.
pub open spec fn or_default(o: Option<Seq<char>>, d: Seq<char>) -> Seq<char> {
    match o {
        Some(s) => s,
        None => d,
    }
}

/// The finding that one JSON entry describes; missing fields take defaults.
pub open spec fn finding_from_json(v: JsonValue) -> VulnerabilityView {
    VulnerabilityView {
        id: or_default(pick_str(v, "id"@, "vuln_id"@), "unknown"@),
        title: or_default(pick_str(v, "title"@, "name"@), "未命名漏洞"@),
        severity: lowercase(or_default(pick_str(v, "severity"@, "level"@), "medium"@)),
        description: or_default(pick_str(v, "description"@, "detail"@), Seq::<char>::empty()),
        poc: pick_str(v, "poc"@, "proof_of_concept"@),
        remediation: pick_str(v, "remediation"@, "fix"@),
    }
}

/// The entries of a JSON report: the array under `vulnerabilities`, else the
/// array under `findings`, else the document itself when it is an array.
pub open spec fn report_entries(json: JsonValue) -> Seq<JsonValue> {
    match json_array(json_get(json, "vulnerabilities"@)) {
        Some(a) => a,
        None => match json_array(json_get(json, "findings"@)) {
            Some(a) => a,
            None => match json {
                JsonValue::Array(items) => items@,
                _ => Seq::empty(),
            },
        },
    }
}

/// The findings of a JSON report, one per entry.
pub open spec fn json_findings(json: JsonValue) -> Seq<VulnerabilityView> {
    report_entries(json).map_values(|x: JsonValue| finding_from_json(x))
}

fn pick(v: &JsonValue, primary: &str, fallback: &str) -> (res: Option<String>)
    ensures
        opt_view(res) == pick_str(*v, primary@, fallback@),
{
    let found = match get(v, primary) {
        Some(x) => as_str(Some(x)),
        None => as_str(get(v, fallback)),
    };
    match found {
        Some(s) => Some(s.clone()),
        None => None,
    }
}

fn or_default_string(o: Option<String>, d: &str) -> (res: String)
    ensures
        res@ == or_default(opt_view(o), d@),
{
    match o {
        Some(s) => s,
        None => String::from_str(d),
    }
}

/// The finding that one JSON entry describes (`id`/`vuln_id`,
/// `title`/`name`, `severity`/`level` lowercased, `description`/`detail`,
/// `poc`/`proof_of_concept`, `remediation`/`fix`).
pub fn parse_vulnerability_json(v: &JsonValue) -> (res: Result<Vulnerability, String>)
    ensures
        res matches Ok(x) && x@ == finding_from_json(*v),
{
    let id = or_default_string(pick(v, "id", "vuln_id"), "unknown");
    let title = or_default_string(pick(v, "title", "name"), "未命名漏洞");
    let severity = or_default_string(pick(v, "severity", "level"), "medium");
    let severity = to_lowercase(severity.as_str());
    let description = or_default_string(pick(v, "description", "detail"), "");
    let poc = pick(v, "poc", "proof_of_concept");
    let remediation = pick(v, "remediation", "fix");
    proof {
        reveal_strlit("");
        assert(""@ =~= Seq::<char>::empty());
    }
    Ok(Vulnerability { id, title, severity, description, poc, remediation })
}

fn findings_of(items: &Vec<JsonValue>) -> (res: Vec<Vulnerability>)
    ensures
        vuln_views(res@) == items@.map_values(|x: JsonValue| finding_from_json(x)),
{
    let mut res: Vec<Vulnerability> = Vec::new();
    let mut i: usize = 0;
    while i < items.len()
        invariant
            i <= items@.len(),
            vuln_views(res@) == items@.take(i as int).map_values(
                |x: JsonValue| finding_from_json(x),
            ),
        decreases items@.len() - i,
    {
        let ghost old_res = res@;
        match parse_vulnerability_json(&items[i]) {
            Ok(v) => {
                res.push(v);
            },
            Err(_) => {},
        }
        proof {
            assert(items@.take(i + 1) =~= items@.take(i as int).push(items@[i as int]));
            assert(vuln_views(res@) =~= vuln_views(old_res).push(finding_from_json(items@[i as int])));
            assert(vuln_views(res@) =~= items@.take(i + 1).map_values(
                |x: JsonValue| finding_from_json(x),
            ));
        }
        i = i + 1;
    }
    proof {
        assert(items@.take(items@.len() as int) == items@);
    }
    res
}

/// Reads the findings out of a JSON report.
pub fn parse_json_report(json: &JsonValue) -> (res: Result<Vec<Vulnerability>, String>)
    ensures
        res matches Ok(v) && vuln_views(v@) == json_findings(*json),
{
    match get(json, "vulnerabilities") {
        Some(JsonValue::Array(items)) => {
            return Ok(findings_of(items));
        },
        _ => {},
    }
    match get(json, "findings") {
        Some(JsonValue::Array(items)) => {
            return Ok(findings_of(items));
        },
        _ => {},
    }
    match json {
        JsonValue::Array(items) => Ok(findings_of(items)),
        _ => Ok(Vec::new()),
    }
}


// ---------------------------------------------------------------------------
// The findings of a finished scan
// ---------------------------------------------------------------------------

/// The first document that could be read.
pub open spec fn first_json(docs: Seq<Option<JsonValue>>) -> Option<JsonValue>
    decreases docs.len(),
{
    if docs.len() == 0 {
        None
    } else {
        match docs[0] {
            Some(d) => Some(d),
            None => first_json(docs.drop_first()),
        }
    }
}

/// The first Markdown report that could be read.
pub open spec fn first_text(docs: Seq<Option<String>>) -> Option<Seq<char>>
    decreases docs.len(),
{
    if docs.len() == 0 {
        None
    } else {
        match docs[0] {
            Some(d) => Some(d@),
            None => first_text(docs.drop_first()),
        }
    }
}

/// The findings of a finished scan: those of the first JSON report that
/// could be read and parsed; when that gives none, those of the first
/// Markdown report that could be read.
pub open spec fn scan_findings(
    json_reports: Seq<Option<JsonValue>>,
    markdown_reports: Seq<Option<String>>,
) -> Seq<VulnerabilityView> {
    let from_json = match first_json(json_reports) {
        Some(j) => json_findings(j),
        None => Seq::empty(),
    };
    if from_json.len() > 0 {
        from_json
    } else {
        match first_text(markdown_reports) {
            Some(md) => markdown_findings(md),
            None => Seq::empty(),
        }
    }
}

/// Gathers the findings of a finished scan. `json_reports` holds, for each
/// JSON report file in the order they are looked for, its parsed content if
/// it exists, could be read and is JSON; `markdown_reports` the content of
/// each Markdown report file that exists and could be read.
pub fn report_vulnerabilities(
    json_reports: &Vec<Option<JsonValue>>,
    markdown_reports: &Vec<Option<String>>,
) -> (res: Result<Vec<Vulnerability>, String>)
    ensures
        res matches Ok(v) && vuln_views(v@) == scan_findings(json_reports@, markdown_reports@),
{
    let mut found: Vec<Vulnerability> = Vec::new();
    let mut i: usize = 0;
    proof {
        assert(json_reports@.skip(0) == json_reports@);
    }
    while i < json_reports.len()
        invariant_except_break
            i <= json_reports@.len(),
            found@.len() == 0,
            first_json(json_reports@) == first_json(json_reports@.skip(i as int)),
        ensures
            vuln_views(found@) == match first_json(json_reports@) {
                Some(j) => json_findings(j),
                None => Seq::<VulnerabilityView>::empty(),
            },
        decreases json_reports@.len() - i,
    {
        proof {
            assert(json_reports@.skip(i as int)[0] == json_reports@[i as int]);
            assert(json_reports@.skip(i as int).drop_first() == json_reports@.skip(i + 1));
        }
        match &json_reports[i] {
            Some(doc) => {
                match parse_json_report(doc) {
                    Ok(v) => {
                        found = v;
                    },
                    Err(_) => {},
                }
                break;
            },
            None => {},
        }
        i = i + 1;
        proof {
            if i == json_reports@.len() {
                assert(json_reports@.skip(i as int) =~= Seq::<Option<JsonValue>>::empty());
                assert(vuln_views(found@) =~= Seq::<VulnerabilityView>::empty());
            }
        }
    }
    if found.len() > 0 {
        return Ok(found);
    }
    let mut j: usize = 0;
    proof {
        assert(markdown_reports@.skip(0) == markdown_reports@);
    }
    while j < markdown_reports.len()
        invariant
            j <= markdown_reports@.len(),
            found@.len() == 0,
            vuln_views(found@) == match first_json(json_reports@) {
                Some(jd) => json_findings(jd),
                None => Seq::<VulnerabilityView>::empty(),
            },
            first_text(markdown_reports@) == first_text(markdown_reports@.skip(j as int)),
        decreases markdown_reports@.len() - j,
    {
        proof {
            assert(markdown_reports@.skip(j as int)[0] == markdown_reports@[j as int]);
            assert(markdown_reports@.skip(j as int).drop_first() == markdown_reports@.skip(j + 1));
        }
        match &markdown_reports[j] {
            Some(md) => {
                return parse_markdown_report(md.as_str());
            },
            None => {},
        }
        j = j + 1;
    }
    proof {
        assert(markdown_reports@.skip(j as int) =~= Seq::<Option<String>>::empty());
        assert(vuln_views(found@) =~= Seq::<VulnerabilityView>::empty());
    }
    Ok(found)
}

/// The documents that report texts hold: a text that is there and parses
/// gives its document; one that is missing or does not parse gives none.
pub open spec fn documents_of(texts: Seq<Option<String>>) -> Seq<Option<JsonValue>> {
    texts.map_values(
        |t: Option<String>|
            match t {
                Some(s) => json_document(s@),
                None => None,
            },
    )
}

/// Gathers the findings of a finished scan from the texts of its report
/// files: `json_texts` holds, for each JSON report file in the order they
/// are looked for, its content when it exists and could be read;
/// `markdown_texts` the same for the Markdown reports. The JSON texts are
/// parsed with `serde_json`, and the first that parses gives the findings.
pub fn report_vulnerabilities_from_texts(
    json_texts: &Vec<Option<String>>,
    markdown_texts: &Vec<Option<String>>,
) -> (res: Result<Vec<Vulnerability>, String>)
    ensures
        res matches Ok(v) && vuln_views(v@) == scan_findings(
            documents_of(json_texts@),
            markdown_texts@,
        ),
{
    let mut docs: Vec<Option<JsonValue>> = Vec::new();
    let mut i: usize = 0;
    while i < json_texts.len()
        invariant
            i <= json_texts@.len(),
            docs@ == documents_of(json_texts@.take(i as int)),
        decreases json_texts@.len() - i,
    {
        let doc = match &json_texts[i] {
            Some(t) => parse_json_document(t.as_str()),
            None => None,
        };
        let ghost old = docs@;
        docs.push(doc);
        proof {
            assert(json_texts@.take(i + 1) =~= json_texts@.take(i as int).push(json_texts@[i as int]));
            assert(docs@ =~= documents_of(json_texts@.take(i + 1)));
        }
        i = i + 1;
    }
    proof {
        assert(json_texts@.take(json_texts@.len() as int) =~= json_texts@);
    }
    report_vulnerabilities(&docs, markdown_texts)
}

} // verus!
