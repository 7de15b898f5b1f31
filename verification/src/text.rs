//! Small tools for strings and lists of strings.

use vstd::prelude::*;
use vstd::string::StringExecFns;
use crate::policy::names;

verus! {

/// Whether `needle` occurs in `haystack` as a run of neighbouring
/// characters.
pub open spec fn has_infix(haystack: Seq<char>, needle: Seq<char>) -> bool {
    exists|start: int|
        0 <= start && start + needle.len() <= haystack.len() && #[trigger] haystack.subrange(
            start,
            start + needle.len(),
        ) == needle
}

/// `text` with every occurrence of `from`, found from the left and not
/// overlapping, replaced by `to`.
pub open spec fn replaced(text: Seq<char>, from: Seq<char>, to: Seq<char>) -> Seq<char>
    recommends
        from.len() > 0,
    decreases text.len(),
{
    if from.len() == 0 || text.len() < from.len() {
        text
    } else if text.subrange(0, from.len() as int) == from {
        to + replaced(text.skip(from.len() as int), from, to)
    } else {
        seq![text[0]] + replaced(text.drop_first(), from, to)
    }
}

/// The lowercase form of `text`, as `str::to_lowercase` gives it.
pub uninterp spec fn lowercase_of(text: Seq<char>) -> Seq<char>;

/// `str::contains` with a string pattern: whether the pattern occurs in
/// the text.
#[verifier::external_body]
pub(crate) fn str_contains(haystack: &str, needle: &str) -> (found: bool)
    ensures
        found == has_infix(haystack@, needle@),
{
    haystack.contains(needle)
}

/// `str::eq`: whether the two texts are the same.
#[verifier::external_body]
pub(crate) fn str_equal(a: &str, b: &str) -> (same: bool)
    ensures
        same == (a@ == b@),
{
    a == b
}

/// `str::to_lowercase`: the lowercase form of the text.
#[verifier::external_body]
pub(crate) fn str_to_lowercase(text: &str) -> (lowered: String)
    ensures
        lowered@ == lowercase_of(text@),
{
    text.to_lowercase()
}

/// `str::replace` with string patterns: every occurrence of `from`, found
/// from the left and not overlapping, is replaced by `to`.
#[verifier::external_body]
pub(crate) fn str_replace(text: &str, from: &str, to: &str) -> (out: String)
    requires
        from@.len() > 0,
    ensures
        out@ == replaced(text@, from@, to@),
{
    text.replace(from, to)
}

/// The items of `items` whose flag in `flags` is set, in their old order.
pub open spec fn picked(items: Seq<Seq<char>>, flags: Seq<bool>) -> Seq<Seq<char>>
    recommends
        items.len() == flags.len(),
    decreases items.len(),
{
    if items.len() == 0 || flags.len() == 0 {
        Seq::empty()
    } else if flags.last() {
        picked(items.drop_last(), flags.drop_last()).push(items.last())
    } else {
        picked(items.drop_last(), flags.drop_last())
    }
}

/// Copies of the items whose flag is set, in their old order.
pub fn select_where(items: &Vec<String>, flags: &Vec<bool>) -> (chosen: Vec<String>)
    requires
        items@.len() == flags@.len(),
    ensures
        names(chosen@) == picked(names(items@), flags@),
{
    let mut chosen: Vec<String> = Vec::new();
    let mut i: usize = 0;
    assert(names(chosen@) =~= picked(names(items@).take(0), flags@.take(0)));
    while i < items.len()
        invariant
            i <= items@.len(),
            items@.len() == flags@.len(),
            names(chosen@) == picked(names(items@).take(i as int), flags@.take(i as int)),
        decreases items.len() - i,
    {
        let ghost before = names(chosen@);
        proof {
            let seen = names(items@).take(i + 1);
            let marks = flags@.take(i + 1);
            assert(seen.drop_last() == names(items@).take(i as int));
            assert(marks.drop_last() == flags@.take(i as int));
            assert(seen.last() == items@[i as int]@);
            assert(marks.last() == flags@[i as int]);
        }
        if flags[i] {
            chosen.push(items[i].clone());
            assert(names(chosen@) =~= before.push(items@[i as int]@));
        }
        i += 1;
    }
    assert(names(items@).take(items@.len() as int) == names(items@));
    assert(flags@.take(flags@.len() as int) == flags@);
    chosen
}

/// The parts put together with `separator` between each two neighbours.
pub open spec fn joined(parts: Seq<Seq<char>>, separator: Seq<char>) -> Seq<char>
    decreases parts.len(),
{
    if parts.len() == 0 {
        Seq::empty()
    } else if parts.len() == 1 {
        parts[0]
    } else {
        joined(parts.drop_last(), separator) + separator + parts.last()
    }
}

/// Puts the parts together with `separator` between each two neighbours.
pub fn join(parts: &Vec<String>, separator: &str) -> (text: String)
    ensures
        text@ == joined(names(parts@), separator@),
{
    let mut text = String::new();
    let mut i: usize = 0;
    assert(names(parts@).take(0) =~= Seq::<Seq<char>>::empty());
    while i < parts.len()
        invariant
            i <= parts@.len(),
            text@ == joined(names(parts@).take(i as int), separator@),
        decreases parts.len() - i,
    {
        proof {
            let seen = names(parts@).take(i + 1);
            assert(seen.drop_last() == names(parts@).take(i as int));
            assert(seen.last() == parts@[i as int]@);
            if i == 0 {
                assert(seen[0] == parts@[0]@);
                assert(joined(names(parts@).take(0), separator@) =~= Seq::<char>::empty());
            }
        }
        let ghost before = text@;
        if i > 0 {
            text.append(separator);
        }
        text.append(parts[i].as_str());
        assert(i == 0 ==> text@ =~= parts@[i as int]@);
        i += 1;
    }
    assert(names(parts@).take(parts@.len() as int) == names(parts@));
    text
}

} // verus!
