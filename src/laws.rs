use vstd::prelude::*;
use crate::emit::{InputModel, diagnostic, run_diagnostics, run_output};
use crate::render::{Numbering, number_prefix, numbered_count, rendered};

verus! {

/// The text whose lines are `lines`, each ended by a newline.
pub open spec fn terminated(lines: Seq<Seq<char>>) -> Seq<char>
    decreases lines.len(),
{
    if lines.len() == 0 {
        seq![]
    } else {
        terminated(lines.drop_last()) + lines.last().push('\n')
    }
}

/// The texts of the opened sources among `inputs`, one after another.
pub open spec fn concatenated(inputs: Seq<InputModel>) -> Seq<char>
    decreases inputs.len(),
{
    if inputs.len() == 0 {
        seq![]
    } else {
        concatenated(inputs.drop_last()) + match inputs.last() {
            Ok(lines) => terminated(lines),
            Err(_) => seq![],
        }
    }
}

/// How many of `lines` are non-blank.
pub open spec fn nonblank_count(lines: Seq<Seq<char>>) -> nat {
    lines.filter(|l: Seq<char>| l.len() > 0).len()
}

proof fn lemma_unnumbered_source(lines: Seq<Seq<char>>)
    ensures
        rendered(Numbering::NoNumbering, lines) == terminated(lines),
    decreases lines.len(),
{
    if lines.len() > 0 {
        lemma_unnumbered_source(lines.drop_last());
    }
}

/// Without numbering, the output of a run is the text of every opened source,
/// unchanged, in the order of the file list.
pub proof fn lemma_unnumbered_run_is_verbatim(inputs: Seq<InputModel>)
    ensures
        run_output(Numbering::NoNumbering, inputs) == concatenated(inputs),
    decreases inputs.len(),
{
    if inputs.len() > 0 {
        lemma_unnumbered_run_is_verbatim(inputs.drop_last());
        if let Ok(lines) = inputs.last() {
            lemma_unnumbered_source(lines);
        }
    }
}

proof fn lemma_count_all(lines: Seq<Seq<char>>)
    ensures
        numbered_count(Numbering::NumberAll, lines) == lines.len(),
    decreases lines.len(),
{
    if lines.len() > 0 {
        lemma_count_all(lines.drop_last());
    }
}

/// When every line is numbered, line `i` of a source (from 0) carries the
/// number `i + 1`; each source that follows in a run starts again at 1.
pub proof fn lemma_number_all_counts_every_line(
    inputs: Seq<InputModel>,
    lines: Seq<Seq<char>>,
    i: int,
)
    requires
        0 <= i < lines.len(),
    ensures
        rendered(Numbering::NumberAll, lines.take(i + 1)) == rendered(
            Numbering::NumberAll,
            lines.take(i),
        ) + number_prefix((i + 1) as nat) + lines[i].push('\n'),
        run_output(Numbering::NumberAll, inputs.push(Ok(lines))) == run_output(
            Numbering::NumberAll,
            inputs,
        ) + rendered(Numbering::NumberAll, lines),
{
    let t = lines.take(i + 1);
    assert(t.drop_last() =~= lines.take(i));
    lemma_count_all(lines.take(i));
    assert(number_prefix((i + 1) as nat) + lines[i].push('\n') =~= number_prefix((i + 1) as nat)
        + lines[i].push('\n'));
    assert(rendered(Numbering::NumberAll, t) =~= rendered(Numbering::NumberAll, lines.take(i))
        + number_prefix((i + 1) as nat) + lines[i].push('\n'));
    assert(inputs.push(Ok(lines)).drop_last() =~= inputs);
}

proof fn lemma_count_nonblank(lines: Seq<Seq<char>>)
    ensures
        numbered_count(Numbering::NumberNonBlank, lines) == nonblank_count(lines),
    decreases lines.len(),
{
    reveal(Seq::filter);
    if lines.len() > 0 {
        lemma_count_nonblank(lines.drop_last());
    }
}

/// When only non-blank lines are numbered, a blank line is written as a bare
/// newline and leaves the counter alone; a non-blank line carries one more than
/// the number of non-blank lines before it in its source.
pub proof fn lemma_number_nonblank_skips_blank_lines(lines: Seq<Seq<char>>, i: int)
    requires
        0 <= i < lines.len(),
    ensures
        lines[i].len() == 0 ==> rendered(Numbering::NumberNonBlank, lines.take(i + 1)) == rendered(
            Numbering::NumberNonBlank,
            lines.take(i),
        ) + seq!['\n'],
        lines[i].len() > 0 ==> rendered(Numbering::NumberNonBlank, lines.take(i + 1)) == rendered(
            Numbering::NumberNonBlank,
            lines.take(i),
        ) + number_prefix(nonblank_count(lines.take(i)) + 1) + lines[i].push('\n'),
{
    let t = lines.take(i + 1);
    assert(t.drop_last() =~= lines.take(i));
    lemma_count_nonblank(lines.take(i));
    if lines[i].len() == 0 {
        assert(lines[i].push('\n') =~= seq!['\n']);
    }
    assert(number_prefix(nonblank_count(lines.take(i)) + 1) + lines[i].push('\n')
        =~= number_prefix(nonblank_count(lines.take(i)) + 1) + lines[i].push('\n'));
    assert(rendered(Numbering::NumberNonBlank, t) =~= rendered(
        Numbering::NumberNonBlank,
        lines.take(i),
    ) + if lines[i].len() > 0 {
        number_prefix(nonblank_count(lines.take(i)) + 1) + lines[i].push('\n')
    } else {
        seq!['\n']
    });
}

proof fn lemma_run_output_split(mode: Numbering, a: Seq<InputModel>, b: Seq<InputModel>)
    ensures
        run_output(mode, a + b) == run_output(mode, a) + run_output(mode, b),
    decreases b.len(),
{
    if b.len() == 0 {
        assert(a + b =~= a);
    } else {
        lemma_run_output_split(mode, a, b.drop_last());
        assert((a + b).drop_last() =~= a + b.drop_last());
        assert((a + b).last() == b.last());
    }
}

proof fn lemma_run_diagnostics_split(
    na: Seq<Seq<char>>,
    a: Seq<InputModel>,
    nb: Seq<Seq<char>>,
    b: Seq<InputModel>,
)
    requires
        na.len() == a.len(),
        nb.len() == b.len(),
    ensures
        run_diagnostics(na + nb, a + b) == run_diagnostics(na, a) + run_diagnostics(nb, b),
    decreases b.len(),
{
    if b.len() == 0 {
        assert(a + b =~= a);
        assert(na + nb =~= na);
        assert(run_diagnostics(na, a) + run_diagnostics(nb, b) =~= run_diagnostics(na, a));
    } else {
        lemma_run_diagnostics_split(na, a, nb.drop_last(), b.drop_last());
        assert((a + b).drop_last() =~= a + b.drop_last());
        assert((na + nb).drop_last() =~= na + nb.drop_last());
        assert((a + b).last() == b.last());
        assert((na + nb).last() == nb.last());
        let d1 = run_diagnostics(na, a);
        let d2 = run_diagnostics(nb.drop_last(), b.drop_last());
        if let Err(m) = b.last() {
            assert((d1 + d2).push(diagnostic(nb.last(), m)) =~= d1 + d2.push(
                diagnostic(nb.last(), m),
            ));
        }
    }
}

/// A name that cannot be opened costs the run only that source: the output is
/// that of the names before it followed by that of the names after it, and the
/// diagnostics name it, between those of the names before and after it.
pub proof fn lemma_open_failure_is_isolated(
    mode: Numbering,
    names: Seq<Seq<char>>,
    inputs: Seq<InputModel>,
    k: int,
)
    requires
        names.len() == inputs.len(),
        0 <= k < inputs.len(),
        inputs[k] is Err,
    ensures
        run_output(mode, inputs) == run_output(mode, inputs.take(k)) + run_output(
            mode,
            inputs.skip(k + 1),
        ),
        run_diagnostics(names, inputs) == run_diagnostics(names.take(k), inputs.take(k)).push(
            diagnostic(names[k], inputs[k]->Err_0),
        ) + run_diagnostics(names.skip(k + 1), inputs.skip(k + 1)),
{
    let a = inputs.take(k + 1);
    let na = names.take(k + 1);
    assert(inputs =~= a + inputs.skip(k + 1));
    assert(names =~= na + names.skip(k + 1));
    assert(a.drop_last() =~= inputs.take(k));
    assert(na.drop_last() =~= names.take(k));
    lemma_run_output_split(mode, a, inputs.skip(k + 1));
    lemma_run_diagnostics_split(na, a, names.skip(k + 1), inputs.skip(k + 1));
    assert(run_output(mode, a) =~= run_output(mode, inputs.take(k)));
}

} // verus!
