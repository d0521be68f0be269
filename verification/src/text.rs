use vstd::prelude::*;

verus! {

/// The place of the first `c` in a text, or the text's length where it has
/// none.
pub open spec fn first_index(text: Seq<char>, c: char) -> int
    decreases text.len(),
{
    if text.len() == 0 || text[0] == c {
        0
    } else {
        1 + first_index(text.skip(1), c)
    }
}

pub proof fn lemma_first_index(text: Seq<char>, c: char)
    ensures
        0 <= first_index(text, c) <= text.len(),
        forall|i: int| 0 <= i < first_index(text, c) ==> text[i] != c,
        first_index(text, c) < text.len() ==> text[first_index(text, c)] == c,
    decreases text.len(),
{
    if text.len() == 0 || text[0] == c {
    } else {
        lemma_first_index(text.skip(1), c);
        assert forall|i: int| 0 <= i < first_index(text, c) implies text[i] != c by {
            if i > 0 {
                assert(text[i] == text.skip(1)[i - 1]);
            }
        }
    }
}

/// The first `c` is where a `c` stands with none before it.
pub proof fn lemma_first_index_is(text: Seq<char>, c: char, at: int)
    requires
        0 <= at <= text.len(),
        forall|i: int| 0 <= i < at ==> text[i] != c,
        at < text.len() ==> text[at] == c,
    ensures
        first_index(text, c) == at,
{
    lemma_first_index(text, c);
}

/// The fields of a delimited text: what stands between one delimiter and the
/// next. A text without a delimiter is one field, and so is the empty text; a
/// delimiter at the end leaves an empty last field.
pub open spec fn split(text: Seq<char>, delimiter: char) -> Seq<Seq<char>>
    decreases text.len(),
{
    let at = first_index(text, delimiter);
    if 0 <= at < text.len() {
        seq![text.take(at)] + split(text.skip(at + 1), delimiter)
    } else {
        seq![text]
    }
}

/// The characters of a text, one by one.
pub fn chars_of(text: &str) -> (chars: Vec<char>)
    ensures
        chars@ == text@,
{
    let mut chars: Vec<char> = Vec::new();
    for c in it: text.chars()
        invariant
            it.seq() == text@,
            chars@ == it.seq().take(it.index()),
    {
        chars.push(c);
    }
    chars
}

/// Whether `ranges` marks the fields of `text`, in order: each pair is where
/// one field starts and where it ends.
pub open spec fn marks_fields(
    ranges: Seq<(usize, usize)>,
    text: Seq<char>,
    delimiter: char,
) -> bool {
    &&& ranges.len() == split(text, delimiter).len()
    &&& forall|k: int|
        0 <= k < ranges.len() ==> {
            &&& (#[trigger] ranges[k]).0 <= ranges[k].1 <= text.len()
            &&& text.subrange(ranges[k].0 as int, ranges[k].1 as int) == split(text, delimiter)[k]
        }
}

/// Finds the fields of a delimited text.
pub fn split_ranges(chars: &[char], delimiter: char) -> (ranges: Vec<(usize, usize)>)
    ensures
        marks_fields(ranges@, chars@, delimiter),
{
    let mut ranges: Vec<(usize, usize)> = Vec::new();
    let ghost mut done: Seq<Seq<char>> = Seq::empty();
    let mut from: usize = 0;
    let mut i: usize = 0;
    let len = chars.len();
    assert(chars@.skip(0) == chars@);
    while i < len
        invariant
            from <= i <= len == chars@.len(),
            split(chars@, delimiter) == done + split(chars@.skip(from as int), delimiter),
            forall|j: int| from <= j < i ==> chars@[j] != delimiter,
            ranges@.len() == done.len(),
            forall|k: int|
                0 <= k < ranges@.len() ==> {
                    &&& (#[trigger] ranges@[k]).0 <= ranges@[k].1 <= chars@.len()
                    &&& chars@.subrange(ranges@[k].0 as int, ranges@[k].1 as int) == done[k]
                },
        decreases len - i,
    {
        if chars[i] == delimiter {
            proof {
                let rest = chars@.skip(from as int);
                assert(forall|j: int| 0 <= j < i - from ==> rest[j] != delimiter);
                lemma_first_index_is(rest, delimiter, i - from);
                assert(rest.take(i - from) == chars@.subrange(from as int, i as int));
                assert(rest.skip(i - from + 1) == chars@.skip(i + 1));
                let field = chars@.subrange(from as int, i as int);
                done = done.push(field);
            }
            ranges.push((from, i));
            from = i + 1;
        }
        i = i + 1;
    }
    proof {
        let rest = chars@.skip(from as int);
        assert(forall|j: int| 0 <= j < rest.len() ==> rest[j] != delimiter);
        lemma_first_index_is(rest, delimiter, rest.len() as int);
        done = done.push(rest);
    }
    ranges.push((from, len));
    ranges
}

} // verus!
