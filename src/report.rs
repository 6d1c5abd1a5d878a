//! Line diffs between two renderings, and the context-collapsed report of
//! them.

use vstd::prelude::*;

verus! {

/// How a line of a diff relates the old text to the new one.
#[derive(Clone, Copy, Debug, PartialEq, Eq, Structural)]
pub enum LineKind {
    /// Only in the old text.
    Removed,
    /// Only in the new text.
    Added,
    /// In both texts.
    Common,
}

/// One line of a diff, or of a report.
#[derive(Debug)]
pub struct DiffLine {
    pub kind: LineKind,
    pub text: String,
}

impl DiffLine {
    pub open spec fn view(&self) -> (LineKind, Seq<char>) {
        (self.kind, self.text@)
    }
}

/// The views of a sequence of lines.
pub open spec fn lines_view(v: Seq<DiffLine>) -> Seq<(LineKind, Seq<char>)> {
    v.map_values(|d: DiffLine| d@)
}

/// The pieces of a text between its `\n` characters: one more than there
/// are `\n`.
pub open spec fn newline_pieces(s: Seq<char>) -> Seq<Seq<char>>
    decreases s.len(),
{
    if s.len() == 0 {
        seq![Seq::empty()]
    } else {
        let p = newline_pieces(s.drop_last());
        if s.last() == '\n' {
            p.push(Seq::empty())
        } else {
            p.update(p.len() - 1, p.last().push(s.last()))
        }
    }
}

/// A line without the `\r` of a `\r\n` line ending.
pub open spec fn strip_cr(l: Seq<char>) -> Seq<char> {
    if l.len() > 0 && l.last() == '\r' { l.drop_last() } else { l }
}

/// The lines of a text, as a line diff compares them: the pieces between
/// `\n` characters, each one that ends before a `\n` without a final `\r`;
/// an empty text has no line.
pub open spec fn text_lines(s: Seq<char>) -> Seq<Seq<char>> {
    if s.len() == 0 {
        Seq::empty()
    } else {
        let p = newline_pieces(s);
        p.take(p.len() - 1).map_values(|l: Seq<char>| strip_cr(l)) + seq![p.last()]
    }
}

/// The lines of a diff that come from the old text, in order.
pub open spec fn old_side(d: Seq<(LineKind, Seq<char>)>) -> Seq<Seq<char>>
    decreases d.len(),
{
    if d.len() == 0 {
        Seq::empty()
    } else {
        let rest = old_side(d.drop_last());
        if d.last().0 == LineKind::Added { rest } else { rest.push(d.last().1) }
    }
}

/// The lines of a diff that come from the new text, in order.
pub open spec fn new_side(d: Seq<(LineKind, Seq<char>)>) -> Seq<Seq<char>>
    decreases d.len(),
{
    if d.len() == 0 {
        Seq::empty()
    } else {
        let rest = new_side(d.drop_last());
        if d.last().0 == LineKind::Removed { rest } else { rest.push(d.last().1) }
    }
}

/// The longest-common-subsequence line diff that the diff crate computes.
pub uninterp spec fn line_diff(old: Seq<char>, new: Seq<char>) -> Seq<(LineKind, Seq<char>)>;

/// Relies on `diff::lines`: a line diff whose two sides are the lines of
/// the two texts, which keeps every line common when the texts are equal.
#[verifier::external_body]
fn diff_lines(old: &str, new: &str) -> (r: Vec<DiffLine>)
    ensures
        lines_view(r@) == line_diff(old@, new@),
        old_side(lines_view(r@)) == text_lines(old@),
        new_side(lines_view(r@)) == text_lines(new@),
        old@ == new@ ==> forall|i: int| 0 <= i < r@.len() ==> r@[i].kind == LineKind::Common,
{
    diff::lines(old, new).into_iter().map(|d| match d {
        diff::Result::Left(l) => DiffLine { kind: LineKind::Removed, text: l.to_string() },
        diff::Result::Right(l) => DiffLine { kind: LineKind::Added, text: l.to_string() },
        diff::Result::Both(l, _) => DiffLine { kind: LineKind::Common, text: l.to_string() },
    }).collect()
}

/// How many unchanged lines are shown on each side of a change.
pub const CONTEXT_LEN: usize = 2;

/// The lines of `ctx` as context lines of a report.
pub open spec fn as_context(ctx: Seq<Seq<char>>) -> Seq<(LineKind, Seq<char>)> {
    ctx.map_values(|l: Seq<char>| (LineKind::Common, l))
}

/// Keeps the last `CONTEXT_LEN` lines of `ctx`.
pub open spec fn trim_context(ctx: Seq<Seq<char>>) -> Seq<Seq<char>> {
    if ctx.len() > CONTEXT_LEN { ctx.drop_first() } else { ctx }
}

/// The report of the diff lines `d` from index `i` on. `ctx` holds the
/// unchanged lines held back since the last change was shown; `since` is
/// `Some(n)` while the `n`th (from 0) unchanged line after a change is still
/// to be shown, and `None` once `CONTEXT_LEN` of them have been.
pub open spec fn report_from(
    d: Seq<(LineKind, Seq<char>)>,
    i: int,
    ctx: Seq<Seq<char>>,
    since: Option<nat>,
) -> Seq<(LineKind, Seq<char>)>
    decreases d.len() - i,
{
    if i < 0 || i >= d.len() {
        Seq::empty()
    } else if d[i].0 != LineKind::Common {
        as_context(ctx) + seq![d[i]] + report_from(d, i + 1, Seq::empty(), Some(0))
    } else {
        match since {
            Some(n) => seq![d[i]] + report_from(
                d,
                i + 1,
                ctx,
                if n + 1 >= CONTEXT_LEN { None } else { Some((n + 1) as nat) },
            ),
            None => report_from(d, i + 1, trim_context(ctx.push(d[i].1)), None),
        }
    }
}

/// The report of a diff: every changed line, with up to `CONTEXT_LEN`
/// unchanged lines before and after each run of changes.
pub open spec fn report(d: Seq<(LineKind, Seq<char>)>) -> Seq<(LineKind, Seq<char>)> {
    report_from(d, 0, Seq::empty(), None)
}

/// Collapses a diff into a report: changed lines are kept, and of each run of
/// unchanged lines only the `CONTEXT_LEN` after a change and the
/// `CONTEXT_LEN` before the next one.
pub fn pretty_diff(diff: &Vec<DiffLine>) -> (r: Vec<DiffLine>)
    ensures
        lines_view(r@) == report(lines_view(diff@)),
{
    let ghost d = lines_view(diff@);
    let mut out: Vec<DiffLine> = Vec::new();
    let mut context: Vec<String> = Vec::new();
    let mut since: Option<usize> = None;
    let mut i: usize = 0;
    assert(context@.map_values(|s: String| s@) =~= Seq::<Seq<char>>::empty());
    while i < diff.len()
        invariant
            d == lines_view(diff@),
            i <= diff.len(),
            context@.len() <= CONTEXT_LEN,
            since matches Some(n) ==> n < CONTEXT_LEN,
            lines_view(out@) + report_from(
                d,
                i as int,
                context@.map_values(|s: String| s@),
                match since { Some(n) => Some(n as nat), None => None },
            ) == report(d),
        decreases diff.len() - i,
    {
        let ghost out0 = lines_view(out@);
        let ghost ctx0 = context@.map_values(|s: String| s@);
        let line = &diff[i];
        assert(d[i as int] == line@);
        match line.kind {
            LineKind::Common => {
                match since {
                    Some(n) => {
                        out.push(DiffLine { kind: LineKind::Common, text: line.text.clone() });
                        if n + 1 >= CONTEXT_LEN {
                            since = None;
                        } else {
                            since = Some(n + 1);
                        }
                        assert(lines_view(out@) =~= out0 + seq![d[i as int]]);
                    },
                    None => {
                        context.push(line.text.clone());
                        if context.len() > CONTEXT_LEN {
                            context.remove(0);
                        }
                        assert(context@.map_values(|s: String| s@) =~= trim_context(ctx0.push(d[i as int].1)));
                    },
                }
            },
            _ => {
                let mut j: usize = 0;
                while j < context.len()
                    invariant
                        j <= context@.len(),
                        ctx0 == context@.map_values(|s: String| s@),
                        lines_view(out@) == out0 + as_context(ctx0.take(j as int)),
                    decreases context.len() - j,
                {
                    let text = context[j].clone();
                    assert(ctx0[j as int] == context@[j as int]@);
                    assert(text@ == ctx0[j as int]);
                    let ghost before = out@;
                    out.push(DiffLine { kind: LineKind::Common, text });
                    assert(lines_view(out@) =~= lines_view(before).push((LineKind::Common, ctx0[j as int])));
                    assert(as_context(ctx0.take(j + 1)) =~= as_context(ctx0.take(j as int)).push((LineKind::Common, ctx0[j as int])));
                    assert(ctx0.take(j + 1) =~= ctx0.take(j as int).push(ctx0[j as int]));
                    assert(lines_view(out@) =~= out0 + as_context(ctx0.take(j + 1)));
                    j = j + 1;
                }
                assert(ctx0.take(context@.len() as int) =~= ctx0);
                context.clear();
                out.push(DiffLine { kind: line.kind, text: line.text.clone() });
                since = Some(0);
                assert(lines_view(out@) =~= out0 + as_context(ctx0) + seq![d[i as int]]);
                assert(context@.map_values(|s: String| s@) =~= Seq::<Seq<char>>::empty());
            },
        }
        i = i + 1;
    }
    assert(lines_view(out@) + report_from(d, i as int, context@.map_values(|s: String| s@),
        match since { Some(n) => Some(n as nat), None => None }) =~= lines_view(out@));
    out
}

/// Every line of `d` is unchanged.
pub open spec fn all_common(d: Seq<(LineKind, Seq<char>)>) -> bool {
    forall|k: int| 0 <= k < d.len() ==> d[k].0 == LineKind::Common
}

/// Every line of `d` is an added one.
pub open spec fn all_added(d: Seq<(LineKind, Seq<char>)>) -> bool {
    forall|k: int| 0 <= k < d.len() ==> d[k].0 == LineKind::Added
}

proof fn lemma_common_tail_silent(d: Seq<(LineKind, Seq<char>)>, i: int, ctx: Seq<Seq<char>>)
    requires
        0 <= i,
        forall|k: int| i <= k < d.len() ==> d[k].0 == LineKind::Common,
    ensures
        report_from(d, i, ctx, None) == Seq::<(LineKind, Seq<char>)>::empty(),
    decreases d.len() - i,
{
    if i < d.len() {
        lemma_common_tail_silent(d, i + 1, trim_context(ctx.push(d[i].1)));
    }
}

/// A diff without changes reports nothing.
pub proof fn lemma_unchanged_report_empty(d: Seq<(LineKind, Seq<char>)>)
    requires
        all_common(d),
    ensures
        report(d) == Seq::<(LineKind, Seq<char>)>::empty(),
{
    lemma_common_tail_silent(d, 0, Seq::empty());
}

/// The last `CONTEXT_LEN` lines of `s`, or all of them where there are fewer.
pub open spec fn last_context(s: Seq<Seq<char>>) -> Seq<Seq<char>> {
    if s.len() > CONTEXT_LEN { s.subrange(s.len() - CONTEXT_LEN, s.len() as int) } else { s }
}

proof fn lemma_common_prefix_held(d: Seq<(LineKind, Seq<char>)>, before: Seq<Seq<char>>, i: int)
    requires
        0 <= i <= before.len() <= d.len(),
        forall|k: int| 0 <= k < before.len() ==> d[k] == (LineKind::Common, before[k]),
    ensures
        report(d) == report_from(d, i, last_context(before.take(i)), None),
    decreases i,
{
    if i == 0 {
        assert(before.take(0) =~= Seq::<Seq<char>>::empty());
    } else {
        lemma_common_prefix_held(d, before, i - 1);
        let prev = last_context(before.take(i - 1));
        assert(trim_context(prev.push(before[i - 1])) =~= last_context(before.take(i)));
    }
}

/// A single changed line between at least `CONTEXT_LEN` unchanged lines on
/// each side is reported with exactly the `CONTEXT_LEN` unchanged lines
/// right before it and the `CONTEXT_LEN` right after it; the other unchanged
/// lines are left out.
pub proof fn lemma_context_bound(
    before: Seq<Seq<char>>,
    change: (LineKind, Seq<char>),
    after: Seq<Seq<char>>,
)
    requires
        before.len() >= CONTEXT_LEN,
        after.len() >= CONTEXT_LEN,
        change.0 != LineKind::Common,
    ensures
        report(as_context(before) + seq![change] + as_context(after)) == as_context(
            before.subrange(before.len() - CONTEXT_LEN, before.len() as int),
        ) + seq![change] + as_context(after.take(CONTEXT_LEN as int)),
{
    let d = as_context(before) + seq![change] + as_context(after);
    let n = before.len() as int;
    assert forall|k: int| 0 <= k < before.len() implies d[k] == (LineKind::Common, before[k]) by {}
    lemma_common_prefix_held(d, before, n);
    assert(before.take(n) =~= before);
    let ctx = last_context(before);
    assert(d[n] == change);
    assert(d[n + 1] == (LineKind::Common, after[0]));
    assert(d[n + 2] == (LineKind::Common, after[1]));
    assert forall|k: int| n + 3 <= k < d.len() implies d[k].0 == LineKind::Common by {
        assert(d[k] == (LineKind::Common, after[k - n - 1]));
    }
    lemma_common_tail_silent(d, n + 3, Seq::empty());
    assert(report_from(d, n + 2, Seq::empty(), Some(1)) == seq![d[n + 2]] + report_from(
        d,
        n + 3,
        Seq::empty(),
        None,
    ));
    assert(report_from(d, n + 1, Seq::empty(), Some(0)) =~= seq![d[n + 1], d[n + 2]]);
    assert(as_context(after.take(CONTEXT_LEN as int)) =~= seq![d[n + 1], d[n + 2]]);
}

proof fn lemma_added_tail_whole(d: Seq<(LineKind, Seq<char>)>, i: int, since: Option<nat>)
    requires
        0 <= i <= d.len(),
        forall|k: int| i <= k < d.len() ==> d[k].0 == LineKind::Added,
    ensures
        report_from(d, i, Seq::empty(), since) == d.skip(i),
    decreases d.len() - i,
{
    if i < d.len() {
        lemma_added_tail_whole(d, i + 1, Some(0));
        assert(as_context(Seq::empty()) =~= Seq::<(LineKind, Seq<char>)>::empty());
        assert(d.skip(i) =~= seq![d[i]] + d.skip(i + 1));
        assert(as_context(Seq::empty()) + seq![d[i]] + d.skip(i + 1) =~= d.skip(i));
    } else {
        assert(d.skip(i) =~= Seq::<(LineKind, Seq<char>)>::empty());
    }
}

/// A diff of added lines only is reported whole.
pub proof fn lemma_additions_reported_whole(d: Seq<(LineKind, Seq<char>)>)
    requires
        all_added(d),
    ensures
        report(d) == d,
{
    lemma_added_tail_whole(d, 0, None);
    assert(d.skip(0) =~= d);
}

proof fn lemma_no_old_side_all_added(d: Seq<(LineKind, Seq<char>)>)
    requires
        old_side(d).len() == 0,
    ensures
        all_added(d),
        d == new_side(d).map_values(|l: Seq<char>| (LineKind::Added, l)),
    decreases d.len(),
{
    if d.len() > 0 {
        let rest = d.drop_last();
        if d.last().0 != LineKind::Added {
            assert(old_side(d) == old_side(rest).push(d.last().1));
        }
        lemma_no_old_side_all_added(rest);
        assert(d =~= rest.push(d.last()));
        assert(new_side(d).map_values(|l: Seq<char>| (LineKind::Added, l)) =~= new_side(rest).map_values(
            |l: Seq<char>| (LineKind::Added, l),
        ).push((LineKind::Added, d.last().1)));
    } else {
        assert(d =~= new_side(d).map_values(|l: Seq<char>| (LineKind::Added, l)));
    }
}

/// The report of the line diff between two texts. Equal texts report
/// nothing; against an empty old text every line of the new one is reported
/// as added.
pub fn diff_report(old: &str, new: &str) -> (r: Vec<DiffLine>)
    ensures
        lines_view(r@) == report(line_diff(old@, new@)),
        old@ == new@ ==> r@.len() == 0,
        old@.len() == 0 ==> lines_view(r@) == text_lines(new@).map_values(
            |l: Seq<char>| (LineKind::Added, l),
        ),
{
    let d = diff_lines(old, new);
    let r = pretty_diff(&d);
    proof {
        let dv = lines_view(d@);
        if old@ == new@ {
            assert forall|k: int| 0 <= k < dv.len() implies dv[k].0 == LineKind::Common by {
                assert(d@[k].kind == LineKind::Common);
            }
            lemma_unchanged_report_empty(dv);
            assert(lines_view(r@).len() == 0);
        }
        if old@.len() == 0 {
            lemma_no_old_side_all_added(dv);
            lemma_additions_reported_whole(dv);
        }
    }
    r
}

} // verus!
