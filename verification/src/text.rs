//! Operations on text that the rest of the library is written in.

use vstd::prelude::*;

verus! {

/// Text or none, as a sequence or none.
pub open spec fn text_of(text: Option<String>) -> Option<Seq<char>> {
    match text {
        Some(text) => Some(text@),
        None => None,
    }
}

/// `text` with `gap` put behind each of its characters.
pub open spec fn spread(text: Seq<char>, gap: Seq<char>) -> Seq<char>
    decreases text.len(),
{
    if text.len() == 0 {
        text
    } else {
        seq![text[0]] + gap + spread(text.skip(1), gap)
    }
}

/// `text` with every occurrence of `from` replaced by `to`, found from
/// left to right, the search going on behind each occurrence. An empty
/// `from` occurs before each character and at the end.
pub open spec fn replaced(text: Seq<char>, from: Seq<char>, to: Seq<char>) -> Seq<char>
    decreases text.len(),
{
    if from.len() == 0 {
        to + spread(text, to)
    } else if text.len() == 0 {
        text
    } else if from.is_prefix_of(text) {
        to + replaced(text.skip(from.len() as int), from, to)
    } else {
        seq![text[0]] + replaced(text.skip(1), from, to)
    }
}

/// Whether `text` begins with `prefix`.
pub fn starts_with(text: &str, prefix: &str) -> (r: bool)
    ensures
        r == prefix@.is_prefix_of(text@),
{
    let wanted = prefix.unicode_len();
    if wanted > text.unicode_len() {
        return false;
    }
    let head = text.substring_char(0, wanted);
    let same = head.to_owned() == prefix.to_owned();
    proof {
        assert(same == (prefix@ =~= text@.subrange(0, prefix@.len() as int)));
    }
    same
}

/// Puts `gap` before each character of `text` and at its end.
fn spread_with(text: &str, gap: &str) -> (out: String)
    ensures
        out@ == gap@ + spread(text@, gap@),
{
    let len = text.unicode_len();
    let mut out = gap.to_owned();
    let mut i: usize = 0;
    proof {
        assert(text@.skip(0) =~= text@);
    }
    while i < len
        invariant
            i <= len,
            len == text@.len(),
            out@ + spread(text@.skip(i as int), gap@) == gap@ + spread(text@, gap@),
        decreases len - i,
    {
        let ghost rest = text@.skip(i as int);
        let ghost so_far = out@;
        out.append(text.substring_char(i, i + 1));
        out.append(gap);
        proof {
            assert(text@.subrange(i as int, i + 1) =~= seq![rest[0]]);
            assert(rest.skip(1) =~= text@.skip(i + 1));
            assert(out@ + spread(text@.skip(i + 1), gap@) =~= so_far + spread(rest, gap@));
        }
        i = i + 1;
    }
    proof {
        assert(out@ + Seq::<char>::empty() =~= out@);
    }
    out
}

/// Replaces every occurrence of `from` in `text` by `to`.
pub fn replace(text: &str, from: &str, to: &str) -> (out: String)
    ensures
        out@ == replaced(text@, from@, to@),
{
    let len = text.unicode_len();
    let width = from.unicode_len();
    if width == 0 {
        return spread_with(text, to);
    }
    let pattern = from.to_owned();
    let mut out = String::new();
    let mut i: usize = 0;
    proof {
        assert(text@.skip(0) =~= text@);
        assert(out@ + replaced(text@, from@, to@) =~= replaced(text@, from@, to@));
    }
    while i < len
        invariant
            i <= len,
            len == text@.len(),
            width == from@.len(),
            width > 0,
            pattern@ == from@,
            out@ + replaced(text@.skip(i as int), from@, to@) == replaced(text@, from@, to@),
        decreases len - i,
    {
        let ghost rest = text@.skip(i as int);
        let ghost so_far = out@;
        let found = width <= len - i && text.substring_char(i, i + width).to_owned() == pattern;
        proof {
            if width <= len - i {
                assert(text@.subrange(i as int, i + width) =~= rest.subrange(0, width as int));
            }
            assert(found == from@.is_prefix_of(rest));
        }
        if found {
            out.append(to);
            proof {
                assert(rest.skip(width as int) =~= text@.skip(i + width));
                assert(out@ + replaced(text@.skip(i + width), from@, to@) =~= so_far + replaced(
                    rest,
                    from@,
                    to@,
                ));
            }
            i = i + width;
        } else {
            out.append(text.substring_char(i, i + 1));
            proof {
                assert(text@.subrange(i as int, i + 1) =~= seq![rest[0]]);
                assert(rest.skip(1) =~= text@.skip(i + 1));
                assert(out@ + replaced(text@.skip(i + 1), from@, to@) =~= so_far + replaced(
                    rest,
                    from@,
                    to@,
                ));
            }
            i = i + 1;
        }
    }
    proof {
        assert(out@ + Seq::<char>::empty() =~= out@);
    }
    out
}

/// Copies a list of strings.
pub fn copy_strings(items: &Vec<String>) -> (copy: Vec<String>)
    ensures
        copy@ == items@,
{
    let mut copy: Vec<String> = Vec::new();
    let mut i: usize = 0;
    while i < items.len()
        invariant
            i <= items.len(),
            copy@ == items@.take(i as int),
        decreases items.len() - i,
    {
        copy.push(items[i].clone());
        assert(copy@ =~= items@.take(i + 1));
        i = i + 1;
    }
    assert(items@.take(i as int) =~= items@);
    copy
}

} // verus!
