//! The newline-delimited line protocol spoken with the selector tool:
//! candidates go in one per line, selections come back one per line with a
//! trailing newline after the last one.

use vstd::prelude::*;
use vstd::string::StrSliceExecFns;
use vstd::string::StringExecFns;

verus! {

/// The input block for a list of candidates: each candidate in order,
/// each followed by one newline.
pub open spec fn line_block(lines: Seq<Seq<char>>) -> Seq<char>
    decreases lines.len(),
{
    if lines.len() == 0 {
        Seq::empty()
    } else {
        line_block(lines.drop_last()) + lines.last() + seq!['\n']
    }
}

/// The segments of `s` between newlines, in order, including the (possibly
/// empty) trailing segment after the last newline. Splitting never loses a
/// segment: an empty `s` still has one empty segment.
pub open spec fn split_lines(s: Seq<char>) -> Seq<Seq<char>>
    decreases s.len(),
{
    if s.len() == 0 {
        seq![Seq::<char>::empty()]
    } else if s.last() == '\n' {
        split_lines(s.drop_last()).push(Seq::<char>::empty())
    } else {
        let prev = split_lines(s.drop_last());
        prev.update(prev.len() - 1, prev.last().push(s.last()))
    }
}

/// The selections encoded in the tool's output `s`: one segment per newline
/// actually present. The final segment of the split, which stems from the
/// protocol's trailing newline (or is a fragment not terminated by one), is
/// discarded; empty segments anywhere else are kept.
pub open spec fn selections_of(s: Seq<char>) -> Seq<Seq<char>> {
    split_lines(s).drop_last()
}

/// A split always has at least one segment: its trailing one.
pub proof fn lemma_split_lines_len(s: Seq<char>)
    ensures
        split_lines(s).len() >= 1,
    decreases s.len(),
{
    if s.len() > 0 {
        lemma_split_lines_len(s.drop_last());
    }
}

/// Appending newline-free characters to a string extends the final segment
/// of its split and touches no other segment.
pub proof fn lemma_split_lines_extend(a: Seq<char>, b: Seq<char>)
    requires
        !b.contains('\n'),
    ensures
        split_lines(a + b) == split_lines(a).update(
            split_lines(a).len() - 1,
            split_lines(a).last() + b,
        ),
    decreases b.len(),
{
    lemma_split_lines_len(a);
    if b.len() == 0 {
        assert(a + b =~= a);
        assert(split_lines(a).update(split_lines(a).len() - 1, split_lines(a).last() + b)
            =~~= split_lines(a));
    } else {
        assert(b.drop_last().contains('\n') ==> b.contains('\n'));
        lemma_split_lines_extend(a, b.drop_last());
        let ab = a + b.drop_last();
        let k = split_lines(a).len() - 1;
        assert(a + b =~= ab.push(b.last()));
        assert(b.last() != '\n');
        assert((a + b).last() == b.last());
        assert((a + b).drop_last() =~= ab);
        let prev = split_lines(ab);
        assert(split_lines(a + b) == prev.update(prev.len() - 1, prev.last().push(b.last())));
        assert(prev.len() - 1 == k);
        assert(prev.last() == split_lines(a).last() + b.drop_last());
        assert(prev.last().push(b.last()) =~= split_lines(a).last() + b);
        assert(prev.update(k, split_lines(a).last() + b) =~~= split_lines(a).update(
            k,
            split_lines(a).last() + b,
        ));
    }
}

/// Splitting the joined block of newline-free lines recovers those lines,
/// followed by the one empty trailing segment the trailing newline makes.
pub proof fn lemma_split_of_line_block(lines: Seq<Seq<char>>)
    requires
        forall|i: int| 0 <= i < lines.len() ==> !(#[trigger] lines[i]).contains('\n'),
    ensures
        split_lines(line_block(lines)) == lines.push(Seq::<char>::empty()),
    decreases lines.len(),
{
    if lines.len() == 0 {
        assert(line_block(lines) =~= Seq::<char>::empty());
        assert(split_lines(line_block(lines)) =~~= lines.push(Seq::<char>::empty()));
    } else {
        let front = lines.drop_last();
        lemma_split_of_line_block(front);
        let base = line_block(front);
        lemma_split_lines_extend(base, lines.last());
        // the final (empty) segment of split_lines(base) grows into lines.last()
        assert(split_lines(base).last() == Seq::<char>::empty());
        assert(Seq::<char>::empty() + lines.last() =~= lines.last());
        assert(split_lines(base + lines.last()) =~~= front.push(lines.last()));
        // the closing newline seals that segment and opens the empty trailing one
        let whole = base + lines.last() + seq!['\n'];
        assert(whole.len() > 0 && whole.last() == '\n');
        assert(whole.drop_last() =~= base + lines.last());
        assert(split_lines(whole) == split_lines(base + lines.last()).push(
            Seq::<char>::empty(),
        ));
        assert(front.push(lines.last()).push(Seq::<char>::empty()) =~~= lines.push(
            Seq::<char>::empty(),
        ));
    }
}

/// The protocol round-trips: for any list of candidates free of embedded
/// newlines, parsing the joined input block yields exactly those candidates,
/// in order, character for character — whitespace included — with no entry
/// added, dropped or altered.
pub proof fn lemma_round_trip(lines: Seq<Seq<char>>)
    requires
        forall|i: int| 0 <= i < lines.len() ==> !(#[trigger] lines[i]).contains('\n'),
    ensures
        selections_of(line_block(lines)) == lines,
{
    lemma_split_of_line_block(lines);
    assert(lines.push(Seq::<char>::empty()).drop_last() =~~= lines);
}

/// A run on which exactly one newline-free item was selected — say a tool
/// that immediately picks the first candidate — emits that item followed by
/// the protocol newline, and parses back to the one-element list holding the
/// item unaltered, trailing and embedded whitespace included.
pub proof fn lemma_single_selection(line: Seq<char>)
    requires
        !line.contains('\n'),
    ensures
        selections_of(line + seq!['\n']) == seq![line],
{
    let one = seq![line];
    assert(forall|i: int| 0 <= i < one.len() ==> !(#[trigger] one[i]).contains('\n'));
    lemma_round_trip(one);
    assert(one.drop_last() =~= Seq::<Seq<char>>::empty());
    assert(one.last() == line);
    assert(line_block(one) == line_block(Seq::<Seq<char>>::empty()) + line + seq!['\n']);
    assert(line_block(Seq::<Seq<char>>::empty()) == Seq::<char>::empty());
    assert(line_block(one) =~= line + seq!['\n']);
}

/// Empty tool output — the user cancelled or chose nothing — parses to an
/// empty selection list.
pub proof fn lemma_empty_output_no_selections()
    ensures
        selections_of(Seq::<char>::empty()) == Seq::<Seq<char>>::empty(),
{
    assert(split_lines(Seq::<char>::empty()).drop_last() =~~= Seq::<Seq<char>>::empty());
}

/// Joins the candidates into the tool's input block, one per line, each line
/// newline-terminated, in input order.
pub fn join_candidates(candidates: &Vec<String>) -> (r: String)
    ensures
        r@ == line_block(candidates.deep_view()),
{
    let mut out = String::new();
    let n: usize = candidates.len();
    assert(candidates.deep_view().take(0) =~= Seq::<Seq<char>>::empty());
    for i in 0..n
        invariant
            n == candidates@.len(),
            out@ == line_block(candidates.deep_view().take(i as int)),
    {
        out.append(candidates[i].as_str());
        out.append("\n");
        proof {
            reveal_strlit("\n");
            let dv = candidates.deep_view();
            assert("\n"@ =~= seq!['\n']);
            assert(dv.take(i + 1).drop_last() =~= dv.take(i as int));
            assert(dv.take(i + 1).last() == dv[i as int]);
            assert(out@ =~= line_block(dv.take(i as int)) + dv[i as int] + seq!['\n']);
        }
    }
    proof {
        assert(candidates.deep_view().take(n as int) =~= candidates.deep_view());
    }
    out
}

/// Splits the tool's output on newlines and returns every segment but the
/// final one, exactly as `selections_of` describes: one entry per newline
/// present, intentional empty entries preserved, the trailing entry dropped.
pub fn parse_selections(output: &str) -> (r: Vec<String>)
    ensures
        r.deep_view() == selections_of(output@),
{
    let n: usize = output.unicode_len();
    let mut r: Vec<String> = Vec::new();
    let mut start: usize = 0;
    assert(split_lines(output@.take(0)) =~~= r.deep_view().push(output@.subrange(0, 0)));
    for i in 0..n
        invariant
            start <= i <= n,
            n == output@.len(),
            split_lines(output@.take(i as int)) == r.deep_view().push(
                output@.subrange(start as int, i as int),
            ),
    {
        let c = output.get_char(i);
        proof {
            let s = output@;
            assert(s.take(i + 1).drop_last() =~= s.take(i as int));
            assert(s.take(i + 1).last() == s[i as int]);
        }
        if c == '\n' {
            let seg = output.substring_char(start, i);
            r.push(seg.to_owned());
            proof {
                let s = output@;
                assert(split_lines(s.take(i + 1)) =~~= r.deep_view().push(
                    s.subrange(i + 1, i + 1),
                ));
            }
            start = i + 1;
        } else {
            proof {
                let s = output@;
                let prev = split_lines(s.take(i as int));
                lemma_split_lines_len(s.take(i as int));
                assert(prev.last() == s.subrange(start as int, i as int));
                assert(split_lines(s.take(i + 1)) == prev.update(
                    prev.len() - 1,
                    prev.last().push(s[i as int]),
                ));
                assert(prev.last().push(s[i as int]) =~= s.subrange(start as int, i + 1));
                assert(split_lines(s.take(i + 1)) =~~= r.deep_view().push(
                    s.subrange(start as int, i + 1),
                ));
            }
        }
    }
    proof {
        let s = output@;
        assert(s.take(n as int) =~= s);
        assert(split_lines(s).drop_last() =~~= r.deep_view());
    }
    r
}

} // verus!

