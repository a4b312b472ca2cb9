//! The lines of a text: what stands between its line feeds.

use vstd::prelude::*;

verus! {

/// The text has no line feed in it.
pub open spec fn single_line(text: Seq<char>) -> bool {
    forall|i: int| 0 <= i < text.len() ==> #[trigger] text[i] != '\n'
}

/// The lines of a text, in order. A text has one line more than it has
/// line feeds: the empty text is one empty line, and a text that ends in a
/// line feed ends in an empty line.
pub open spec fn lines(text: Seq<char>) -> Seq<Seq<char>>
    decreases text.len(),
{
    if text.len() == 0 {
        seq![Seq::<char>::empty()]
    } else {
        let before = lines(text.drop_last());
        if text.last() == '\n' {
            before.push(Seq::<char>::empty())
        } else {
            before.update(before.len() - 1, before.last().push(text.last()))
        }
    }
}

/// The text whose lines are `lines`: the lines with a line feed between
/// each two of them.
pub open spec fn unlines(lines: Seq<Seq<char>>) -> Seq<char>
    decreases lines.len(),
{
    if lines.len() == 0 {
        Seq::<char>::empty()
    } else if lines.len() == 1 {
        lines[0]
    } else {
        unlines(lines.drop_last()) + seq!['\n'] + lines.last()
    }
}

/// Every text has a line, and no line has a line feed in it.
pub proof fn lemma_lines_shape(text: Seq<char>)
    ensures
        lines(text).len() >= 1,
        forall|i: int| 0 <= i < lines(text).len() ==> single_line(#[trigger] lines(text)[i]),
    decreases text.len(),
{
    if text.len() > 0 {
        lemma_lines_shape(text.drop_last());
    }
}

/// A text without a line feed is its own single line.
pub proof fn lemma_lines_of_single_line(text: Seq<char>)
    requires
        single_line(text),
    ensures
        lines(text) == seq![text],
    decreases text.len(),
{
    if text.len() == 0 {
        assert(text =~= Seq::<char>::empty());
    } else {
        let before = text.drop_last();
        assert forall|i: int| 0 <= i < before.len() implies #[trigger] before[i] != '\n' by {
            assert(before[i] == text[i]);
        }
        lemma_lines_of_single_line(before);
        assert(text.last() == text[text.len() - 1]);
        assert(before.push(text.last()) =~= text);
        assert(lines(text) =~= seq![text]);
    }
}

/// Where a line feed stands between two texts, the lines of the whole are
/// the lines of the first and then the lines of the second.
pub proof fn lemma_lines_around_line_feed(first: Seq<char>, second: Seq<char>)
    ensures
        lines(first + seq!['\n'] + second) == lines(first) + lines(second),
    decreases second.len(),
{
    let whole = first + seq!['\n'] + second;
    lemma_lines_shape(first);
    if second.len() == 0 {
        assert(whole.drop_last() =~= first);
        assert(whole.last() == '\n');
        assert(lines(whole) =~= lines(first) + lines(second));
    } else {
        let shorter = second.drop_last();
        lemma_lines_around_line_feed(first, shorter);
        lemma_lines_shape(shorter);
        assert(whole.drop_last() =~= first + seq!['\n'] + shorter);
        assert(whole.last() == second.last());
        assert(lines(whole) =~= lines(first) + lines(second));
    }
}

/// The lines of a text, put together again, are the text.
pub proof fn lemma_unlines_of_lines(text: Seq<char>)
    ensures
        unlines(lines(text)) == text,
    decreases text.len(),
{
    if text.len() == 0 {
        assert(unlines(lines(text)) =~= text);
    } else {
        let shorter = text.drop_last();
        let before = lines(shorter);
        lemma_unlines_of_lines(shorter);
        lemma_lines_shape(shorter);
        if text.last() == '\n' {
            let all = before.push(Seq::<char>::empty());
            assert(all.drop_last() =~= before);
            assert(unlines(all) =~= unlines(before) + seq!['\n']);
            assert(shorter + seq!['\n'] =~= text);
        } else {
            let grown = before.last().push(text.last());
            let all = before.update(before.len() - 1, grown);
            if before.len() == 1 {
                assert(unlines(before) == before[0]);
                assert(unlines(all) == grown);
                assert(grown =~= text);
            } else {
                assert(all.drop_last() =~= before.drop_last());
                assert(unlines(all) == unlines(before.drop_last()) + seq!['\n'] + grown);
                assert(unlines(before) == unlines(before.drop_last()) + seq!['\n']
                    + before.last());
                assert(unlines(all) =~= unlines(before).push(text.last()));
                assert(shorter.push(text.last()) =~= text);
            }
        }
    }
}

/// Lines without line feeds, put together, are a text with exactly these
/// lines.
pub proof fn lemma_lines_of_unlines(all: Seq<Seq<char>>)
    requires
        all.len() >= 1,
        forall|i: int| 0 <= i < all.len() ==> single_line(#[trigger] all[i]),
    ensures
        lines(unlines(all)) == all,
    decreases all.len(),
{
    if all.len() == 1 {
        lemma_lines_of_single_line(all[0]);
        assert(seq![all[0]] =~= all);
    } else {
        let before = all.drop_last();
        assert forall|i: int| 0 <= i < before.len() implies single_line(#[trigger] before[i]) by {
            assert(before[i] == all[i]);
        }
        lemma_lines_of_unlines(before);
        lemma_lines_around_line_feed(unlines(before), all.last());
        lemma_lines_of_single_line(all.last());
        assert(before + seq![all.last()] =~= all);
    }
}

/// A text made of lines without line feeds, an empty line and a rest has
/// these lines, the empty line, and the lines of the rest.
pub proof fn lemma_lines_before_blank_line(header: Seq<Seq<char>>, rest: Seq<char>)
    requires
        header.len() >= 1,
        forall|i: int| 0 <= i < header.len() ==> single_line(#[trigger] header[i]),
    ensures
        lines(unlines(header) + seq!['\n', '\n'] + rest) == header.push(Seq::<char>::empty())
            + lines(rest),
{
    let feed = seq!['\n'];
    let blank_and_rest = Seq::<char>::empty() + feed + rest;
    lemma_lines_of_unlines(header);
    lemma_lines_around_line_feed(Seq::<char>::empty(), rest);
    lemma_lines_of_single_line(Seq::<char>::empty());
    lemma_lines_around_line_feed(unlines(header), blank_and_rest);
    assert(unlines(header) + seq!['\n', '\n'] + rest =~= unlines(header) + feed + blank_and_rest);
    assert(header + (seq![Seq::<char>::empty()] + lines(rest)) =~= header.push(
        Seq::<char>::empty(),
    ) + lines(rest));
}

} // verus!
