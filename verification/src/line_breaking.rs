//! Line breaking algorithms.

use vstd::prelude::*;

verus! {

/// The lines of `text`: the pieces between `\n` characters, in order.
///
/// A text without `\n` is one line; every `\n` starts a new one.
pub open spec fn split_lines(text: Seq<char>) -> Seq<Seq<char>>
    decreases text.len(),
{
    if text.len() == 0 {
        seq![Seq::<char>::empty()]
    } else {
        let previous = split_lines(text.drop_last());
        if text.last() == '\n' {
            previous.push(Seq::<char>::empty())
        } else {
            previous.update(previous.len() - 1, previous.last().push(text.last()))
        }
    }
}

/// Concatenates `lines`, putting a `\n` between two neighbouring lines.
pub open spec fn join_lines(lines: Seq<Seq<char>>) -> Seq<char>
    decreases lines.len(),
{
    if lines.len() == 0 {
        Seq::<char>::empty()
    } else if lines.len() == 1 {
        lines[0]
    } else {
        join_lines(lines.drop_last()) + seq!['\n'] + lines.last()
    }
}

proof fn lemma_split_lines_nonempty(text: Seq<char>)
    ensures
        split_lines(text).len() >= 1,
    decreases text.len(),
{
    if text.len() > 0 {
        lemma_split_lines_nonempty(text.drop_last());
    }
}

proof fn lemma_join_extend_last(lines: Seq<Seq<char>>, c: char)
    requires
        lines.len() >= 1,
    ensures
        join_lines(lines.update(lines.len() - 1, lines.last().push(c))) == join_lines(lines).push(c),
{
    let extended = lines.update(lines.len() - 1, lines.last().push(c));
    if lines.len() == 1 {
        assert(extended[0] == lines[0].push(c));
    } else {
        assert(extended.drop_last() =~= lines.drop_last());
        assert(join_lines(lines).push(c) =~= join_lines(lines.drop_last()) + seq!['\n'] + lines.last().push(c));
    }
}

/// Breaking a text into lines is symmetric: joining the lines with `\n`
/// gives the text back, and no line holds a `\n`.
pub proof fn lemma_lines_rejoin(text: Seq<char>)
    ensures
        join_lines(split_lines(text)) == text,
        forall|i: int, j: int|
            0 <= i < split_lines(text).len() && 0 <= j < split_lines(text)[i].len()
                ==> split_lines(text)[i][j] != '\n',
    decreases text.len(),
{
    if text.len() > 0 {
        let previous = split_lines(text.drop_last());
        lemma_lines_rejoin(text.drop_last());
        lemma_split_lines_nonempty(text.drop_last());
        if text.last() == '\n' {
            let lines = previous.push(Seq::<char>::empty());
            assert(lines.drop_last() =~= previous);
            assert(join_lines(lines) =~= text.drop_last() + seq!['\n'] + Seq::<char>::empty());
            assert(text =~= text.drop_last() + seq!['\n'] + Seq::<char>::empty());
        } else {
            lemma_join_extend_last(previous, text.last());
            assert(text =~= text.drop_last().push(text.last()));
        }
    } else {
        assert(join_lines(split_lines(text)) =~= text);
    }
}

/// Breaks a string into lines by splitting at `\n` characters.
///
/// The implementation is symmetric in the sense that the returned lines
/// concatenated with `\n` will result the same string.
///
/// This also means, that the `\r` character will _always_ be treated as
/// whitespace and that no unicode line breaks are supported.
pub fn text_as_lines(text: &str) -> (lines: Vec<&str>)
    ensures
        lines@.map_values(|l: &str| l@) == split_lines(text@),
{
    let len = text.unicode_len();
    let mut lines: Vec<&str> = Vec::new();
    let mut start: usize = 0;
    let mut i: usize = 0;
    proof {
        assert(text@.take(0) =~= Seq::<char>::empty());
        assert(text@.subrange(0, 0) =~= Seq::<char>::empty());
        assert(lines@.map_values(|l: &str| l@).push(Seq::<char>::empty()) =~= seq![Seq::<char>::empty()]);
    }
    for c in it: text.chars()
        invariant
            len == text@.len(),
            it.seq() == text@,
            i == it.index(),
            start <= i <= len,
            lines@.map_values(|l: &str| l@).push(text@.subrange(start as int, i as int))
                == split_lines(text@.take(i as int)),
    {
        let ghost before = lines@.map_values(|l: &str| l@);
        proof {
            assert(text@.take(i + 1).drop_last() =~= text@.take(i as int));
            assert(text@.take(i + 1).last() == c);
        }
        if c == '\n' {
            let line = text.substring_char(start, i);
            lines.push(line);
            proof {
                assert(lines@.map_values(|l: &str| l@) =~= before.push(text@.subrange(start as int, i as int)));
                assert(text@.subrange(i + 1, i + 1) =~= Seq::<char>::empty());
            }
            start = i + 1;
        } else {
            proof {
                assert(text@.subrange(start as int, i + 1) =~= text@.subrange(start as int, i as int).push(c));
            }
        }
        i = i + 1;
    }
    proof {
        assert(text@.take(len as int) =~= text@);
    }
    let ghost before = lines@.map_values(|l: &str| l@);
    let last = text.substring_char(start, len);
    lines.push(last);
    proof {
        assert(lines@.map_values(|l: &str| l@) =~= before.push(last@));
    }
    lines
}

/// The lines of `bytes` as a line reader returns them: each line keeps its
/// terminating `\n`, the last line may lack one, and there is no empty line.
pub open spec fn reader_lines(bytes: Seq<u8>) -> Seq<Seq<u8>>
    decreases bytes.len(),
{
    if bytes.len() == 0 {
        Seq::<Seq<u8>>::empty()
    } else {
        let previous = reader_lines(bytes.drop_last());
        if previous.len() == 0 || previous.last().last() == 10u8 {
            previous.push(seq![bytes.last()])
        } else {
            previous.update(previous.len() - 1, previous.last().push(bytes.last()))
        }
    }
}

/// Concatenates `lines`.
pub open spec fn concat_lines(lines: Seq<Seq<u8>>) -> Seq<u8>
    decreases lines.len(),
{
    if lines.len() == 0 {
        Seq::<u8>::empty()
    } else {
        concat_lines(lines.drop_last()) + lines.last()
    }
}

/// Breaks `bytes` into lines as a line reader returns them, each with its `\n`.
pub fn bytes_as_reader_lines(bytes: &[u8]) -> (lines: Vec<&[u8]>)
    ensures
        lines@.map_values(|l: &[u8]| l@) == reader_lines(bytes@),
{
    let len = bytes.len();
    let mut lines: Vec<&[u8]> = Vec::new();
    let mut start: usize = 0;
    let mut i: usize = 0;
    proof {
        assert(bytes@.take(0) =~= Seq::<u8>::empty());
        assert(lines@.map_values(|l: &[u8]| l@) =~= Seq::<Seq<u8>>::empty());
    }
    while i < len
        invariant
            len == bytes@.len(),
            start <= i <= len,
            start == i ==> lines@.map_values(|l: &[u8]| l@) == reader_lines(bytes@.take(i as int)),
            start == i ==> (i == 0 || bytes@[i - 1] == 10u8),
            start < i ==> lines@.map_values(|l: &[u8]| l@).push(bytes@.subrange(start as int, i as int))
                == reader_lines(bytes@.take(i as int)),
            start < i ==> bytes@[i - 1] != 10u8,
        decreases len - i,
    {
        let c = bytes[i];
        let ghost before = lines@.map_values(|l: &[u8]| l@);
        proof {
            assert(bytes@.take(i + 1).drop_last() =~= bytes@.take(i as int));
            assert(bytes@.take(i + 1).last() == c);
            lemma_reader_lines_ends(bytes@.take(i as int));
            if i > 0 {
                assert(bytes@.take(i as int).last() == bytes@[i - 1]);
            }
            assert(bytes@.subrange(start as int, i + 1) =~= bytes@.subrange(start as int, i as int).push(c));
        }
        if c == 10u8 {
            let line = vstd::slice::slice_subrange(bytes, start, i + 1);
            lines.push(line);
            proof {
                assert(lines@.map_values(|l: &[u8]| l@) =~= before.push(bytes@.subrange(start as int, i + 1)));
                if start == i {
                    assert(bytes@.subrange(start as int, i + 1) =~= seq![c]);
                }
            }
            start = i + 1;
        } else {
            proof {
                if start == i {
                    assert(bytes@.subrange(start as int, i + 1) =~= seq![c]);
                    assert(before.push(seq![c]) =~= reader_lines(bytes@.take(i + 1)));
                }
            }
        }
        i = i + 1;
    }
    proof {
        assert(bytes@.take(len as int) =~= bytes@);
    }
    if start < len {
        let ghost before = lines@.map_values(|l: &[u8]| l@);
        let last = vstd::slice::slice_subrange(bytes, start, len);
        lines.push(last);
        proof {
            assert(lines@.map_values(|l: &[u8]| l@) =~= before.push(last@));
        }
    }
    lines
}

proof fn lemma_reader_lines_ends(bytes: Seq<u8>)
    ensures
        bytes.len() == 0 <==> reader_lines(bytes).len() == 0,
        bytes.len() > 0 ==> reader_lines(bytes).last().len() > 0
            && reader_lines(bytes).last().last() == bytes.last(),
    decreases bytes.len(),
{
    if bytes.len() > 0 {
        lemma_reader_lines_ends(bytes.drop_last());
    }
}

/// Reading bytes line by line loses nothing: the lines concatenated give the
/// bytes back, no line is empty, and only the last line may lack a `\n` at its end.
pub proof fn lemma_reader_lines_concat(bytes: Seq<u8>)
    ensures
        concat_lines(reader_lines(bytes)) == bytes,
        forall|i: int| 0 <= i < reader_lines(bytes).len() ==> reader_lines(bytes)[i].len() > 0,
        forall|i: int|
            0 <= i < reader_lines(bytes).len() - 1 ==> reader_lines(bytes)[i].last() == 10u8,
    decreases bytes.len(),
{
    if bytes.len() > 0 {
        let previous = reader_lines(bytes.drop_last());
        lemma_reader_lines_concat(bytes.drop_last());
        let lines = reader_lines(bytes);
        if previous.len() == 0 || previous.last().last() == 10u8 {
            assert(lines.drop_last() =~= previous);
            assert(bytes =~= bytes.drop_last() + seq![bytes.last()]);
        } else {
            let extended = previous.last().push(bytes.last());
            assert(lines.drop_last() =~= previous.drop_last());
            let front = concat_lines(previous.drop_last());
            assert(concat_lines(previous) == front + previous.last());
            assert(bytes.drop_last() == front + previous.last());
            assert(bytes =~= bytes.drop_last().push(bytes.last()));
            assert(front + extended =~= (front + previous.last()).push(bytes.last()));
            assert(concat_lines(lines) == concat_lines(lines.drop_last()) + lines.last());
            assert forall|i: int| 0 <= i < lines.len() - 1 implies lines[i].last() == 10u8 by {
                assert(lines[i] == previous[i]);
            }
        }
    } else {
        assert(concat_lines(reader_lines(bytes)) =~= bytes);
    }
}

} // verus!
