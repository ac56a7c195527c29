use vstd::prelude::*;
use vstd::string::{StrSliceExecFns, StringExecFns};

use crate::color::{bold, colorize};
use crate::detections::{Finding, FindingView};
use crate::text::{decimal_string, pad_right, str_eq};

verus! {

/// A group of findings of one rule: the rule and the positions of its
/// findings in the finding list, in order.
pub struct RuleGroup {
    pub rule: &'static str,
    pub members: Vec<usize>,
}

impl View for RuleGroup {
    type V = (Seq<char>, Seq<usize>);

    open spec fn view(&self) -> (Seq<char>, Seq<usize>) {
        (self.rule@, self.members@)
    }
}

/// `a` comes before `b` in lexicographic order of their characters, the
/// order in which a `BTreeMap` keyed by text walks its keys.
pub open spec fn lex_lt(a: Seq<char>, b: Seq<char>) -> bool
    decreases a.len(),
{
    if a.len() == 0 {
        b.len() > 0
    } else if b.len() == 0 {
        false
    } else if a[0] != b[0] {
        (a[0] as int) < (b[0] as int)
    } else {
        lex_lt(a.drop_first(), b.drop_first())
    }
}

/// The groups after finding `i` of rule `rule` is added: to the group of
/// its rule if there is one, else in a new group placed before the first
/// group whose rule comes after it.
pub open spec fn add_to_groups(groups: Seq<(Seq<char>, Seq<usize>)>, rule: Seq<char>, i: usize) -> Seq<
    (Seq<char>, Seq<usize>),
>
    decreases groups.len(),
{
    if groups.len() == 0 {
        seq![(rule, seq![i])]
    } else if groups[0].0 == rule {
        seq![(rule, groups[0].1.push(i))] + groups.drop_first()
    } else if lex_lt(rule, groups[0].0) {
        seq![(rule, seq![i])] + groups
    } else {
        seq![groups[0]] + add_to_groups(groups.drop_first(), rule, i)
    }
}

/// The findings of the given rules grouped by rule, the groups in the order
/// of their rules, each group's findings in their order.
pub open spec fn rule_groups(rules: Seq<Seq<char>>) -> Seq<(Seq<char>, Seq<usize>)>
    decreases rules.len(),
{
    if rules.len() == 0 {
        Seq::empty()
    } else {
        add_to_groups(rule_groups(rules.drop_last()), rules.last(), (rules.len() - 1) as usize)
    }
}

/// The rules of a sequence of findings.
pub open spec fn rules_of(findings: Seq<FindingView>) -> Seq<Seq<char>> {
    findings.map_values(|f: FindingView| f.rule)
}

/// The line of one finding in the chronological listing: the rule padded
/// to 32 columns (then colored), the time padded to 10, the flow's text
/// (which the flow's own formatting leaves unpadded) and the description.
pub open spec fn finding_line(f: FindingView, flow: Seq<char>, color: bool) -> Seq<char> {
    "  [!] "@ + crate::color::colorize_spec(crate::text::pad_right_spec(f.rule, 32), f.rule, color)
        + " t="@ + crate::text::pad_right_spec(crate::text::decimal(f.ts_sec as nat), 10) + " "@
        + flow + " "@ + f.message
}

/// The line of one finding under its rule's heading.
pub open spec fn member_line(f: FindingView, flow: Seq<char>) -> Seq<char> {
    "    t="@ + crate::text::pad_right_spec(crate::text::decimal(f.ts_sec as nat), 10) + " "@
        + flow + " "@ + f.message
}

/// The heading of a rule's group: the rule and how many findings it has,
/// in bold and the rule's color.
pub open spec fn heading_line(rule: Seq<char>, count: nat, color: bool) -> Seq<char> {
    "  "@ + crate::color::colorize_spec(
        crate::color::bold_spec(rule + " ("@ + crate::text::decimal(count) + ")"@, color),
        rule,
        color,
    )
}

/// The lines of the member findings of a group.
pub open spec fn member_lines(
    members: Seq<usize>,
    findings: Seq<FindingView>,
    flows: Seq<Seq<char>>,
) -> Seq<Seq<char>> {
    members.map_values(|i: usize| member_line(findings[i as int], flows[i as int]))
}

/// The lines of a listing grouped by rule: each group's heading followed
/// by the lines of its findings.
pub open spec fn grouped_lines(
    groups: Seq<(Seq<char>, Seq<usize>)>,
    findings: Seq<FindingView>,
    flows: Seq<Seq<char>>,
    color: bool,
) -> Seq<Seq<char>>
    decreases groups.len(),
{
    if groups.len() == 0 {
        Seq::empty()
    } else {
        let g = groups.last();
        grouped_lines(groups.drop_last(), findings, flows, color) + seq![
            heading_line(g.0, g.1.len(), color),
        ] + member_lines(g.1, findings, flows)
    }
}

/// The lines that report a capture's findings, where `flows[i]` is the text
/// of the flow of `findings[i]`: one line saying there are none, or every
/// finding in order, or (grouped) the groups of `rule_groups`.
pub open spec fn report_lines_spec(
    findings: Seq<FindingView>,
    flows: Seq<Seq<char>>,
    group_by_rule: bool,
    color: bool,
) -> Seq<Seq<char>> {
    if findings.len() == 0 {
        seq!["  no findings"@]
    } else if !group_by_rule {
        Seq::new(findings.len(), |i: int| finding_line(findings[i], flows[i], color))
    } else {
        grouped_lines(rule_groups(rules_of(findings)), findings, flows, color)
    }
}

/// Whether `a` comes before `b` in lexicographic order.
pub fn str_lt(a: &str, b: &str) -> (before: bool)
    ensures
        before == lex_lt(a@, b@),
{
    let n = a.unicode_len();
    let m = b.unicode_len();
    let mut i: usize = 0;
    assert(a@.skip(0) =~= a@ && b@.skip(0) =~= b@);
    while i < n && i < m
        invariant
            n == a@.len(),
            m == b@.len(),
            i <= n,
            i <= m,
            lex_lt(a@, b@) == lex_lt(a@.skip(i as int), b@.skip(i as int)),
        decreases n - i,
    {
        let ca = a.get_char(i);
        let cb = b.get_char(i);
        assert(a@.skip(i as int)[0] == ca && b@.skip(i as int)[0] == cb);
        if ca != cb {
            return (ca as u32) < (cb as u32);
        }
        assert(a@.skip(i as int).drop_first() =~= a@.skip(i + 1));
        assert(b@.skip(i as int).drop_first() =~= b@.skip(i + 1));
        i = i + 1;
    }
    i < m
}

/// The views of a sequence of groups.
pub open spec fn group_views(groups: Seq<RuleGroup>) -> Seq<(Seq<char>, Seq<usize>)> {
    groups.map_values(|g: RuleGroup| g@)
}

/// Past groups that neither hold `rule` nor come after it, adding a finding
/// leaves them as they are.
proof fn lemma_add_past(groups: Seq<(Seq<char>, Seq<usize>)>, rule: Seq<char>, i: usize, j: int)
    requires
        0 <= j <= groups.len(),
        forall|k: int| 0 <= k < j ==> groups[k].0 != rule && !lex_lt(rule, groups[k].0),
    ensures
        add_to_groups(groups, rule, i) == groups.take(j) + add_to_groups(groups.skip(j), rule, i),
    decreases j,
{
    if j == 0 {
        assert(groups.skip(0) =~= groups);
        assert(groups.take(0) + add_to_groups(groups, rule, i) =~= add_to_groups(groups, rule, i));
    } else {
        let rest = groups.drop_first();
        assert forall|k: int| 0 <= k < j - 1 implies rest[k].0 != rule && !lex_lt(
            rule,
            rest[k].0,
        ) by {
            assert(rest[k] == groups[k + 1]);
        }
        lemma_add_past(rest, rule, i, j - 1);
        assert(rest.skip(j - 1) =~= groups.skip(j));
        assert(seq![groups[0]] + rest.take(j - 1) =~= groups.take(j));
        assert(seq![groups[0]] + (rest.take(j - 1) + add_to_groups(groups.skip(j), rule, i))
            =~= groups.take(j) + add_to_groups(groups.skip(j), rule, i));
    }
}

/// Adds finding `i` of rule `rule` to the groups.
fn add_to_group(groups: &mut Vec<RuleGroup>, rule: &'static str, i: usize)
    ensures
        group_views(final(groups)@) == add_to_groups(group_views(old(groups)@), rule@, i),
{
    let ghost start = group_views(groups@);
    let mut j: usize = 0;
    while j < groups.len()
        invariant
            j <= groups.len(),
            groups@ == old(groups)@,
            start == group_views(groups@),
            forall|k: int| 0 <= k < j ==> start[k].0 != rule@ && !lex_lt(rule@, start[k].0),
        decreases groups.len() - j,
    {
        if str_eq(groups[j].rule, rule) {
            proof {
                lemma_add_past(start, rule@, i, j as int);
                assert(start.skip(j as int)[0] == start[j as int]);
            }
            let mut group = groups.remove(j);
            group.members.push(i);
            groups.insert(j, group);
            assert(group_views(groups@) =~= start.take(j as int) + (seq![
                (rule@, start[j as int].1.push(i)),
            ] + start.skip(j as int).drop_first()));
            return;
        }
        if str_lt(rule, groups[j].rule) {
            proof {
                lemma_add_past(start, rule@, i, j as int);
                assert(start.skip(j as int)[0] == start[j as int]);
            }
            let mut members = Vec::new();
            members.push(i);
            assert(members@ =~= seq![i]);
            groups.insert(j, RuleGroup { rule, members });
            assert(group_views(groups@) =~= start.take(j as int) + (seq![(rule@, seq![i])]
                + start.skip(j as int)));
            return;
        }
        j = j + 1;
    }
    proof {
        lemma_add_past(start, rule@, i, j as int);
        assert(start.skip(j as int) =~= Seq::<(Seq<char>, Seq<usize>)>::empty());
        assert(start.take(j as int) =~= start);
    }
    let mut members = Vec::new();
    members.push(i);
    assert(members@ =~= seq![i]);
    groups.push(RuleGroup { rule, members });
    assert(group_views(groups@) =~= start + seq![(rule@, seq![i])]);
}

/// Groups findings by rule, the groups in lexicographic order of their
/// rules and each group's findings in their order in `findings`.
pub fn group_by_rule(findings: &Vec<Finding>) -> (groups: Vec<RuleGroup>)
    ensures
        group_views(groups@) == rule_groups(rules_of(crate::finding_views(findings@))),
{
    let ghost rules = rules_of(crate::finding_views(findings@));
    let mut groups: Vec<RuleGroup> = Vec::new();
    let mut i: usize = 0;
    assert(group_views(groups@) =~= rule_groups(rules.take(0)));
    while i < findings.len()
        invariant
            i <= findings.len(),
            rules == rules_of(crate::finding_views(findings@)),
            group_views(groups@) == rule_groups(rules.take(i as int)),
        decreases findings.len() - i,
    {
        assert(rules.take(i + 1).drop_last() =~= rules.take(i as int));
        assert(rules[i as int] == findings@[i as int].rule@);
        add_to_group(&mut groups, findings[i].rule, i);
        i = i + 1;
    }
    assert(rules.take(i as int) =~= rules);
    groups
}

/// Every finding position in the groups is below `bound`.
pub open spec fn members_below(groups: Seq<(Seq<char>, Seq<usize>)>, bound: int) -> bool {
    forall|g: int, k: int|
        0 <= g < groups.len() && 0 <= k < groups[g].1.len() ==> groups[g].1[k] < bound
}

proof fn lemma_add_members_below(
    groups: Seq<(Seq<char>, Seq<usize>)>,
    rule: Seq<char>,
    i: usize,
    bound: int,
)
    requires
        members_below(groups, bound),
        i < bound,
    ensures
        members_below(add_to_groups(groups, rule, i), bound),
    decreases groups.len(),
{
    let result = add_to_groups(groups, rule, i);
    if groups.len() == 0 {
    } else if groups[0].0 == rule {
        assert forall|g: int, k: int|
            0 <= g < result.len() && 0 <= k < result[g].1.len() implies result[g].1[k] < bound by {
            if g > 0 {
                assert(result[g] == groups[g]);
            }
        }
    } else if lex_lt(rule, groups[0].0) {
        assert forall|g: int, k: int|
            0 <= g < result.len() && 0 <= k < result[g].1.len() implies result[g].1[k] < bound by {
            if g > 0 {
                assert(result[g] == groups[g - 1]);
            }
        }
    } else {
        let rest = groups.drop_first();
        assert(members_below(rest, bound)) by {
            assert forall|g: int, k: int|
                0 <= g < rest.len() && 0 <= k < rest[g].1.len() implies rest[g].1[k] < bound by {
                assert(rest[g] == groups[g + 1]);
            }
        }
        lemma_add_members_below(rest, rule, i, bound);
        let tail = add_to_groups(rest, rule, i);
        assert forall|g: int, k: int|
            0 <= g < result.len() && 0 <= k < result[g].1.len() implies result[g].1[k] < bound by {
            if g > 0 {
                assert(result[g] == tail[g - 1]);
            }
        }
    }
}

/// The findings named by the groups of `rules` are positions in `rules`.
pub proof fn lemma_rule_groups_members_below(rules: Seq<Seq<char>>)
    ensures
        members_below(rule_groups(rules), rules.len() as int),
    decreases rules.len(),
{
    if rules.len() > 0 {
        lemma_rule_groups_members_below(rules.drop_last());
        let before = rule_groups(rules.drop_last());
        assert(members_below(before, rules.len() as int));
        lemma_add_members_below(before, rules.last(), (rules.len() - 1) as usize, rules.len() as int);
    }
}

/// The views of a sequence of texts.
pub open spec fn text_views(texts: Seq<String>) -> Seq<Seq<char>> {
    texts.map_values(|t: String| t@)
}

/// The chronological listing line of a finding whose flow reads `flow`.
pub fn finding_line_text(finding: &Finding, flow: &str, color_enabled: bool) -> (line: String)
    ensures
        line@ == finding_line(finding@, flow@, color_enabled),
{
    let rule = colorize(pad_right(finding.rule, 32).as_str(), finding.rule, color_enabled);
    let time = pad_right(decimal_string(finding.ts_sec as u64).as_str(), 10);
    let line = String::from_str("  [!] ").concat(rule.as_str()).concat(" t=").concat(
        time.as_str(),
    ).concat(" ").concat(flow).concat(" ").concat(finding.message.as_str());
    assert(line@ =~= finding_line(finding@, flow@, color_enabled));
    line
}

/// The line of a finding under its rule's heading, its flow reading `flow`.
pub fn member_line_text(finding: &Finding, flow: &str) -> (line: String)
    ensures
        line@ == member_line(finding@, flow@),
{
    let time = pad_right(decimal_string(finding.ts_sec as u64).as_str(), 10);
    let line = String::from_str("    t=").concat(time.as_str()).concat(" ").concat(flow).concat(
        " ",
    ).concat(finding.message.as_str());
    assert(line@ =~= member_line(finding@, flow@));
    line
}

/// The heading of the group of `rule`, which has `count` findings.
pub fn heading_text(rule: &str, count: usize, color_enabled: bool) -> (line: String)
    ensures
        line@ == heading_line(rule@, count as nat, color_enabled),
{
    let label = String::from_str(rule).concat(" (").concat(
        decimal_string(count as u64).as_str(),
    ).concat(")");
    let emphasized = bold(label.as_str(), color_enabled);
    let line = String::from_str("  ").concat(
        colorize(emphasized.as_str(), rule, color_enabled).as_str(),
    );
    assert(line@ =~= heading_line(rule@, count as nat, color_enabled));
    line
}

/// The lines that report a capture's findings, `flows[i]` being the text
/// of the flow of `findings[i]`: `  no findings` when there are none;
/// otherwise every finding in order, or, grouped by rule, each rule's
/// heading followed by its findings, the rules in lexicographic order.
pub fn report_lines(
    findings: &Vec<Finding>,
    flows: &Vec<String>,
    group_by_rule: bool,
    color_enabled: bool,
) -> (lines: Vec<String>)
    requires
        flows.len() == findings.len(),
    ensures
        text_views(lines@) == report_lines_spec(
            crate::finding_views(findings@),
            text_views(flows@),
            group_by_rule,
            color_enabled,
        ),
{
    let ghost views = crate::finding_views(findings@);
    let ghost flow_views = text_views(flows@);
    let mut lines: Vec<String> = Vec::new();
    if findings.len() == 0 {
        lines.push(String::from_str("  no findings"));
        assert(text_views(lines@) =~= seq!["  no findings"@]);
        return lines;
    }
    if !group_by_rule {
        let mut i: usize = 0;
        while i < findings.len()
            invariant
                i <= findings.len(),
                flows.len() == findings.len(),
                views == crate::finding_views(findings@),
                flow_views == text_views(flows@),
                text_views(lines@) =~= Seq::new(
                    i as nat,
                    |k: int| finding_line(views[k], flow_views[k], color_enabled),
                ),
            decreases findings.len() - i,
        {
            let ghost prev = text_views(lines@);
            lines.push(finding_line_text(&findings[i], flows[i].as_str(), color_enabled));
            assert(text_views(lines@) =~= prev.push(
                finding_line(views[i as int], flow_views[i as int], color_enabled),
            ));
            i = i + 1;
        }
        return lines;
    }
    let groups = self::group_by_rule(findings);
    let ghost gviews = group_views(groups@);
    proof {
        lemma_rule_groups_members_below(rules_of(views));
    }
    let mut j: usize = 0;
    assert(gviews.take(0) =~= Seq::<(Seq<char>, Seq<usize>)>::empty());
    while j < groups.len()
        invariant
            j <= groups.len(),
            flows.len() == findings.len(),
            views == crate::finding_views(findings@),
            flow_views == text_views(flows@),
            gviews == group_views(groups@),
            gviews == rule_groups(rules_of(views)),
            members_below(gviews, findings.len() as int),
            text_views(lines@) == grouped_lines(gviews.take(j as int), views, flow_views, color_enabled),
        decreases groups.len() - j,
    {
        let group = &groups[j];
        let ghost g = gviews[j as int];
        assert(g == group@);
        let ghost base = text_views(lines@) + seq![heading_line(g.0, g.1.len(), color_enabled)];
        lines.push(heading_text(group.rule, group.members.len(), color_enabled));
        assert(text_views(lines@) =~= base);
        let mut k: usize = 0;
        while k < group.members.len()
            invariant
                k <= group.members.len(),
                g == group@,
                flows.len() == findings.len(),
                views == crate::finding_views(findings@),
                flow_views == text_views(flows@),
                forall|m: int| 0 <= m < g.1.len() ==> g.1[m] < findings.len(),
                text_views(lines@) == base + member_lines(g.1.take(k as int), views, flow_views),
            decreases group.members.len() - k,
        {
            let index = group.members[k];
            let ghost prev = text_views(lines@);
            lines.push(member_line_text(&findings[index], flows[index].as_str()));
            assert(member_lines(g.1.take(k + 1), views, flow_views) =~= member_lines(
                g.1.take(k as int),
                views,
                flow_views,
            ).push(member_line(views[index as int], flow_views[index as int])));
            assert(text_views(lines@) =~= prev.push(member_line(views[index as int], flow_views[index as int])));
            k = k + 1;
        }
        assert(g.1.take(k as int) =~= g.1);
        assert(gviews.take(j + 1).drop_last() =~= gviews.take(j as int));
        assert(gviews.take(j + 1).last() == g);
        j = j + 1;
    }
    assert(gviews.take(j as int) =~= gviews);
    lines
}

proof fn lemma_lex_lt_irreflexive(a: Seq<char>)
    ensures
        !lex_lt(a, a),
    decreases a.len(),
{
    if a.len() > 0 {
        lemma_lex_lt_irreflexive(a.drop_first());
    }
}

proof fn lemma_lex_lt_transitive(a: Seq<char>, b: Seq<char>, c: Seq<char>)
    requires
        lex_lt(a, b),
        lex_lt(b, c),
    ensures
        lex_lt(a, c),
    decreases a.len(),
{
    if a.len() > 0 && b.len() > 0 && c.len() > 0 && a[0] == b[0] && b[0] == c[0] {
        lemma_lex_lt_transitive(a.drop_first(), b.drop_first(), c.drop_first());
    }
}

proof fn lemma_lex_lt_total(a: Seq<char>, b: Seq<char>)
    requires
        a != b,
    ensures
        lex_lt(a, b) || lex_lt(b, a),
    decreases a.len(),
{
    if a.len() > 0 && b.len() > 0 && a[0] == b[0] {
        if a.drop_first() == b.drop_first() {
            assert(a =~= seq![a[0]] + a.drop_first());
            assert(b =~= seq![b[0]] + b.drop_first());
        }
        lemma_lex_lt_total(a.drop_first(), b.drop_first());
    } else if a.len() == 0 && b.len() == 0 {
        assert(a =~= b);
    } else if a.len() > 0 && b.len() > 0 {
        assert((a[0] as int) != (b[0] as int));
    }
}

/// The groups' rules come in strictly increasing lexicographic order.
pub open spec fn sorted_groups(groups: Seq<(Seq<char>, Seq<usize>)>) -> bool {
    forall|a: int, b: int| 0 <= a < b < groups.len() ==> lex_lt(groups[a].0, groups[b].0)
}

/// Each group's findings come in increasing order of position.
pub open spec fn increasing_members(groups: Seq<(Seq<char>, Seq<usize>)>) -> bool {
    forall|k: int, m1: int, m2: int|
        0 <= k < groups.len() && 0 <= m1 < m2 < groups[k].1.len() ==> groups[k].1[m1]
            < groups[k].1[m2]
}

/// Finding `x` is in the group of `rule`.
pub open spec fn in_group(groups: Seq<(Seq<char>, Seq<usize>)>, rule: Seq<char>, x: usize) -> bool {
    exists|k: int, m: int|
        0 <= k < groups.len() && 0 <= m < groups[k].1.len() && groups[k].0 == rule
            && #[trigger] groups[k].1[m] == x
}

proof fn lemma_add_to_groups_props(
    groups: Seq<(Seq<char>, Seq<usize>)>,
    rule: Seq<char>,
    i: usize,
)
    requires
        sorted_groups(groups),
        increasing_members(groups),
        members_below(groups, i as int),
    ensures
        ({
            let result = add_to_groups(groups, rule, i);
            &&& sorted_groups(result)
            &&& increasing_members(result)
            &&& forall|k: int, m: int|
                0 <= k < result.len() && 0 <= m < result[k].1.len() ==> (result[k].0 == rule
                    && #[trigger] result[k].1[m] == i) || in_group(groups, result[k].0, result[k].1[m])
            &&& forall|r: Seq<char>, x: usize| in_group(groups, r, x) ==> in_group(result, r, x)
            &&& in_group(result, rule, i)
            &&& forall|k: int|
                0 <= k < result.len() ==> #[trigger] result[k].0 == rule || exists|j: int|
                    0 <= j < groups.len() && groups[j].0 == result[k].0
        }),
    decreases groups.len(),
{
    let result = add_to_groups(groups, rule, i);
    if groups.len() == 0 {
        assert(result[0].1[0] == i);
    } else if groups[0].0 == rule {
        let g0 = (rule, groups[0].1.push(i));
        assert(result[0] == g0);
        assert forall|k: int| 0 < k < result.len() implies result[k] == groups[k] by {}
        assert(result.len() == groups.len());
        assert(g0.1[groups[0].1.len() as int] == i);
        assert forall|r: Seq<char>, x: usize| in_group(groups, r, x) implies in_group(
            result,
            r,
            x,
        ) by {
            let (k, m) = choose|k: int, m: int|
                0 <= k < groups.len() && 0 <= m < groups[k].1.len() && groups[k].0 == r
                    && #[trigger] groups[k].1[m] == x;
            assert(result[k].1[m] == x);
        }
        assert forall|k: int, m: int|
            0 <= k < result.len() && 0 <= m < result[k].1.len() implies (result[k].0 == rule
                && #[trigger] result[k].1[m] == i) || in_group(groups, result[k].0, result[k].1[m]) by {
            if k > 0 || m < groups[0].1.len() {
                assert(groups[k].1[m] == result[k].1[m]);
            }
        }
        assert forall|k: int|
            0 <= k < result.len() implies #[trigger] result[k].0 == rule || exists|j: int|
                0 <= j < groups.len() && groups[j].0 == result[k].0 by {
            assert(groups[k].0 == result[k].0);
        }
    } else if lex_lt(rule, groups[0].0) {
        assert(result[0] == (rule, seq![i]));
        assert forall|k: int| 0 < k < result.len() implies result[k] == groups[k - 1] by {}
        assert forall|a: int, b: int| 0 <= a < b < result.len() implies lex_lt(
            result[a].0,
            result[b].0,
        ) by {
            if a == 0 && b > 1 {
                lemma_lex_lt_transitive(rule, groups[0].0, groups[b - 1].0);
            }
        }
        assert(result[0].1[0] == i);
        assert forall|r: Seq<char>, x: usize| in_group(groups, r, x) implies in_group(
            result,
            r,
            x,
        ) by {
            let (k, m) = choose|k: int, m: int|
                0 <= k < groups.len() && 0 <= m < groups[k].1.len() && groups[k].0 == r
                    && #[trigger] groups[k].1[m] == x;
            assert(result[k + 1].1[m] == x);
        }
        assert forall|k: int, m: int|
            0 <= k < result.len() && 0 <= m < result[k].1.len() implies (result[k].0 == rule
                && #[trigger] result[k].1[m] == i) || in_group(groups, result[k].0, result[k].1[m]) by {
            if k > 0 {
                assert(groups[k - 1].1[m] == result[k].1[m]);
            }
        }
        assert forall|k: int|
            0 <= k < result.len() implies #[trigger] result[k].0 == rule || exists|j: int|
                0 <= j < groups.len() && groups[j].0 == result[k].0 by {
            if k > 0 {
                assert(groups[k - 1].0 == result[k].0);
            }
        }
    } else {
        let rest = groups.drop_first();
        assert(sorted_groups(rest)) by {
            assert forall|a: int, b: int| 0 <= a < b < rest.len() implies lex_lt(
                rest[a].0,
                rest[b].0,
            ) by {
                assert(rest[a] == groups[a + 1] && rest[b] == groups[b + 1]);
            }
        }
        assert(increasing_members(rest)) by {
            assert forall|k: int, m1: int, m2: int|
                0 <= k < rest.len() && 0 <= m1 < m2 < rest[k].1.len() implies rest[k].1[m1]
                < rest[k].1[m2] by {
                assert(rest[k] == groups[k + 1]);
            }
        }
        assert(members_below(rest, i as int)) by {
            assert forall|g: int, k: int|
                0 <= g < rest.len() && 0 <= k < rest[g].1.len() implies rest[g].1[k] < i by {
                assert(rest[g] == groups[g + 1]);
            }
        }
        lemma_add_to_groups_props(rest, rule, i);
        let tail = add_to_groups(rest, rule, i);
        assert(result == seq![groups[0]] + tail);
        assert forall|k: int| 0 < k < result.len() implies result[k] == tail[k - 1] by {}
        lemma_lex_lt_total(rule, groups[0].0);
        assert forall|a: int, b: int| 0 <= a < b < result.len() implies lex_lt(
            result[a].0,
            result[b].0,
        ) by {
            if a == 0 {
                let t = tail[b - 1];
                if t.0 != rule {
                    let j = choose|j: int| 0 <= j < rest.len() && rest[j].0 == t.0;
                    assert(rest[j] == groups[j + 1]);
                }
            }
        }
        assert forall|r: Seq<char>, x: usize| in_group(groups, r, x) implies in_group(
            result,
            r,
            x,
        ) by {
            let (k, m) = choose|k: int, m: int|
                0 <= k < groups.len() && 0 <= m < groups[k].1.len() && groups[k].0 == r
                    && #[trigger] groups[k].1[m] == x;
            if k == 0 {
                assert(result[0].1[m] == x);
            } else {
                assert(rest[k - 1].1[m] == x);
                assert(in_group(rest, r, x));
                let (k2, m2) = choose|k2: int, m2: int|
                    0 <= k2 < tail.len() && 0 <= m2 < tail[k2].1.len() && tail[k2].0 == r
                        && #[trigger] tail[k2].1[m2] == x;
                assert(result[k2 + 1].1[m2] == x);
            }
        }
        let (k2, m2) = choose|k2: int, m2: int|
            0 <= k2 < tail.len() && 0 <= m2 < tail[k2].1.len() && tail[k2].0 == rule
                && #[trigger] tail[k2].1[m2] == i;
        assert(result[k2 + 1].1[m2] == i);
        assert forall|k: int, m: int|
            0 <= k < result.len() && 0 <= m < result[k].1.len() implies (result[k].0 == rule
                && #[trigger] result[k].1[m] == i) || in_group(groups, result[k].0, result[k].1[m]) by {
            if k == 0 {
                assert(groups[0].1[m] == result[k].1[m]);
            } else {
                assert(tail[k - 1].1[m] == result[k].1[m]);
                if !(tail[k - 1].0 == rule && tail[k - 1].1[m] == i) {
                    let (k3, m3) = choose|k3: int, m3: int|
                        0 <= k3 < rest.len() && 0 <= m3 < rest[k3].1.len() && rest[k3].0
                            == tail[k - 1].0 && #[trigger] rest[k3].1[m3] == tail[k - 1].1[m];
                    assert(groups[k3 + 1].1[m3] == rest[k3].1[m3]);
                }
            }
        }
        assert forall|k: int|
            0 <= k < result.len() implies #[trigger] result[k].0 == rule || exists|j: int|
                0 <= j < groups.len() && groups[j].0 == result[k].0 by {
            if k == 0 {
                assert(groups[0].0 == result[0].0);
            } else if tail[k - 1].0 != rule {
                let j = choose|j: int| 0 <= j < rest.len() && rest[j].0 == tail[k - 1].0;
                assert(groups[j + 1].0 == result[k].0);
            }
        }
    }
}

/// Grouping findings by rule is what a map from rule to findings, walked in
/// key order, gives: the groups' rules are in strictly increasing
/// lexicographic order (so each rule has one group), each group lists
/// positions of findings of its rule in increasing order, and every finding
/// is in the group of its rule.
pub proof fn lemma_rule_groups_law(rules: Seq<Seq<char>>)
    requires
        rules.len() <= usize::MAX,
    ensures
        sorted_groups(rule_groups(rules)),
        increasing_members(rule_groups(rules)),
        forall|k: int, m: int|
            0 <= k < rule_groups(rules).len() && 0 <= m < rule_groups(rules)[k].1.len() ==> {
                let x = #[trigger] rule_groups(rules)[k].1[m];
                &&& x < rules.len()
                &&& rules[x as int] == rule_groups(rules)[k].0
            },
        forall|i: int| 0 <= i < rules.len() ==> in_group(rule_groups(rules), rules[i], i as usize),
    decreases rules.len(),
{
    lemma_rule_groups_members_below(rules);
    if rules.len() > 0 {
        let before = rules.drop_last();
        let n = rules.len();
        lemma_rule_groups_law(before);
        lemma_rule_groups_members_below(before);
        let g = rule_groups(before);
        lemma_add_to_groups_props(g, rules.last(), (n - 1) as usize);
        let result = rule_groups(rules);
        assert forall|k: int, m: int|
            0 <= k < result.len() && 0 <= m < result[k].1.len() implies {
            let x = #[trigger] result[k].1[m];
            &&& x < rules.len()
            &&& rules[x as int] == result[k].0
        } by {
            let x = result[k].1[m];
            if !(result[k].0 == rules.last() && x == n - 1) {
                let (k2, m2) = choose|k2: int, m2: int|
                    0 <= k2 < g.len() && 0 <= m2 < g[k2].1.len() && g[k2].0 == result[k].0
                        && #[trigger] g[k2].1[m2] == x;
                assert(before[x as int] == g[k2].0);
            }
        }
        assert forall|i: int| 0 <= i < rules.len() implies in_group(result, rules[i], i as usize) by {
            if i < n - 1 {
                assert(before[i] == rules[i]);
            }
        }
    }
}

/// With no findings the report is the single line `  no findings`; without
/// grouping it is one line per finding, in order, each that finding's line
/// with its own flow.
pub proof fn lemma_report_lines_ungrouped(
    findings: Seq<FindingView>,
    flows: Seq<Seq<char>>,
    group_by_rule: bool,
    color: bool,
)
    ensures
        findings.len() == 0 ==> report_lines_spec(findings, flows, group_by_rule, color) == seq![
            "  no findings"@,
        ],
        findings.len() > 0 && !group_by_rule ==> {
            let lines = report_lines_spec(findings, flows, group_by_rule, color);
            &&& lines.len() == findings.len()
            &&& forall|i: int|
                0 <= i < findings.len() ==> #[trigger] lines[i] == finding_line(
                    findings[i],
                    flows[i],
                    color,
                )
        },
{
}

/// A finding's line: `  [!] `, the rule padded to 32 columns (wrapped in
/// its color when coloring is on and the rule has one), ` t=`, the time in
/// decimal padded to 10 columns, a space, the flow's text, a space and the
/// finding's description.
pub proof fn lemma_finding_line_layout(f: FindingView, flow: Seq<char>, color: bool)
    ensures
        finding_line(f, flow, color) == "  [!] "@ + (if color && crate::color::rule_color_spec(
            f.rule,
        ).len() > 0 {
            crate::color::rule_color_spec(f.rule) + crate::text::pad_right_spec(f.rule, 32)
                + crate::color::RESET@
        } else {
            crate::text::pad_right_spec(f.rule, 32)
        }) + " t="@ + crate::text::pad_right_spec(crate::text::decimal(f.ts_sec as nat), 10)
            + " "@ + flow + " "@ + f.message,
{
}

/// How many findings the groups hold in all.
pub open spec fn total_members(groups: Seq<(Seq<char>, Seq<usize>)>) -> int
    decreases groups.len(),
{
    if groups.len() == 0 {
        0
    } else {
        total_members(groups.drop_last()) + groups.last().1.len()
    }
}

proof fn lemma_total_members_prepend(
    first: (Seq<char>, Seq<usize>),
    groups: Seq<(Seq<char>, Seq<usize>)>,
)
    ensures
        total_members(seq![first] + groups) == first.1.len() + total_members(groups),
    decreases groups.len(),
{
    if groups.len() == 0 {
        let one = seq![first];
        assert(one + groups =~= one);
        let none = Seq::<(Seq<char>, Seq<usize>)>::empty();
        assert(one.drop_last() =~= none);
        assert(total_members(none) == 0);
        assert(one.last() == first);
        assert(total_members(one) == total_members(none) + first.1.len());
    } else {
        lemma_total_members_prepend(first, groups.drop_last());
        assert((seq![first] + groups).drop_last() =~= seq![first] + groups.drop_last());
        assert((seq![first] + groups).last() == groups.last());
    }
}

proof fn lemma_add_total(groups: Seq<(Seq<char>, Seq<usize>)>, rule: Seq<char>, i: usize)
    ensures
        total_members(add_to_groups(groups, rule, i)) == total_members(groups) + 1,
    decreases groups.len(),
{
    if groups.len() == 0 {
        lemma_total_members_prepend((rule, seq![i]), groups);
        assert(seq![(rule, seq![i])] + groups =~= seq![(rule, seq![i])]);
    } else {
        let rest = groups.drop_first();
        assert(groups =~= seq![groups[0]] + rest);
        lemma_total_members_prepend(groups[0], rest);
        if groups[0].0 == rule {
            lemma_total_members_prepend((rule, groups[0].1.push(i)), rest);
        } else if lex_lt(rule, groups[0].0) {
            lemma_total_members_prepend((rule, seq![i]), groups);
        } else {
            lemma_add_total(rest, rule, i);
            lemma_total_members_prepend(groups[0], add_to_groups(rest, rule, i));
        }
    }
}

proof fn lemma_rule_groups_total(rules: Seq<Seq<char>>)
    ensures
        total_members(rule_groups(rules)) == rules.len(),
    decreases rules.len(),
{
    if rules.len() > 0 {
        lemma_rule_groups_total(rules.drop_last());
        lemma_add_total(rule_groups(rules.drop_last()), rules.last(), (rules.len() - 1) as usize);
    }
}

proof fn lemma_grouped_lines_len(
    groups: Seq<(Seq<char>, Seq<usize>)>,
    findings: Seq<FindingView>,
    flows: Seq<Seq<char>>,
    color: bool,
)
    ensures
        grouped_lines(groups, findings, flows, color).len() == groups.len() + total_members(groups),
    decreases groups.len(),
{
    if groups.len() > 0 {
        lemma_grouped_lines_len(groups.drop_last(), findings, flows, color);
    }
}

/// Grouped by rule, the report has one heading line per rule present and
/// one line per finding; each group's heading counts its findings.
pub proof fn lemma_report_lines_grouped(
    findings: Seq<FindingView>,
    flows: Seq<Seq<char>>,
    color: bool,
)
    requires
        findings.len() > 0,
        findings.len() <= usize::MAX,
    ensures
        report_lines_spec(findings, flows, true, color).len() == rule_groups(rules_of(findings)).len()
            + findings.len(),
{
    lemma_rule_groups_total(rules_of(findings));
    lemma_grouped_lines_len(rule_groups(rules_of(findings)), findings, flows, color);
}

} // verus!
