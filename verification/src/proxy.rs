//! Whom a request comes from when it comes through a proxy.

use vstd::prelude::*;
use vstd::string::*;

verus! {

/// Whether the character is white space.
pub open spec fn is_space(c: char) -> bool {
    ||| '\u{9}' <= c <= '\u{d}'
    ||| c == ' '
    ||| c == '\u{85}'
    ||| c == '\u{a0}'
    ||| c == '\u{1680}'
    ||| '\u{2000}' <= c <= '\u{200a}'
    ||| c == '\u{2028}'
    ||| c == '\u{2029}'
    ||| c == '\u{202f}'
    ||| c == '\u{205f}'
    ||| c == '\u{3000}'
}

fn blank(c: char) -> (r: bool)
    ensures
        r == is_space(c),
{
    ('\u{9}' <= c && c <= '\u{d}') || c == ' ' || c == '\u{85}' || c == '\u{a0}' || c == '\u{1680}'
        || ('\u{2000}' <= c && c <= '\u{200a}') || c == '\u{2028}' || c == '\u{2029}' || c
        == '\u{202f}' || c == '\u{205f}' || c == '\u{3000}'
}

/// White space is what Unicode counts as such: six control characters and nineteen others.
pub proof fn law_white_space(c: char)
    ensures
        is_space(c) <==> {
            let code = c as u32;
            9 <= code <= 13 || code == 32 || code == 133 || code == 160 || code == 5760 || 8192
                <= code <= 8202 || code == 8232 || code == 8233 || code == 8239 || code == 8287
                || code == 12288
        },
{
}

/// `part` is `s` up to its first comma.
pub open spec fn up_to_comma(s: Seq<char>, part: Seq<char>) -> bool {
    &&& part.len() <= s.len()
    &&& part == s.take(part.len() as int)
    &&& !part.contains(',')
    &&& part.len() < s.len() ==> s[part.len() as int] == ','
}

/// `core` is `s` without the white space around it.
pub open spec fn trimmed(s: Seq<char>, core: Seq<char>) -> bool {
    &&& exists|i: int|
        0 <= i && i + core.len() <= s.len() && core == #[trigger] s.subrange(i, i + core.len()) && (
        forall|k: int| 0 <= k < i ==> is_space(#[trigger] s[k])) && (forall|k: int|
            i + core.len() <= k < s.len() ==> is_space(#[trigger] s[k]))
    &&& core.len() > 0 ==> !is_space(core.first()) && !is_space(core.last())
}

/// A list has one first entry: what comes before its first comma.
pub proof fn law_one_first_entry(s: Seq<char>, part: Seq<char>, other: Seq<char>)
    requires
        up_to_comma(s, part),
        up_to_comma(s, other),
    ensures
        part == other,
{
    if part.len() < other.len() {
        assert(other[part.len() as int] == s[part.len() as int]);
        assert(other.contains(','));
    } else if other.len() < part.len() {
        assert(part[other.len() as int] == s[other.len() as int]);
        assert(part.contains(','));
    }
}

/// There is one way to take the white space off a text.
pub proof fn law_one_way_to_trim(s: Seq<char>, core: Seq<char>, other: Seq<char>)
    requires
        trimmed(s, core),
        trimmed(s, other),
    ensures
        core == other,
{
    let i = choose|i: int|
        0 <= i && i + core.len() <= s.len() && core == #[trigger] s.subrange(i, i + core.len()) && (
        forall|k: int| 0 <= k < i ==> is_space(#[trigger] s[k])) && (forall|k: int|
            i + core.len() <= k < s.len() ==> is_space(#[trigger] s[k]));
    let j = choose|j: int|
        0 <= j && j + other.len() <= s.len() && other == #[trigger] s.subrange(j, j + other.len())
            && (forall|k: int| 0 <= k < j ==> is_space(#[trigger] s[k])) && (forall|k: int|
            j + other.len() <= k < s.len() ==> is_space(#[trigger] s[k]));
    if core.len() > 0 {
        assert(core.first() == s[i] && core.last() == s[i + core.len() - 1]);
        assert(j <= i);
        assert(i + core.len() <= j + other.len());
    }
    if other.len() > 0 {
        assert(other.first() == s[j] && other.last() == s[j + other.len() - 1]);
        assert(i <= j);
        assert(j + other.len() <= i + core.len());
    }
    if core.len() == 0 && other.len() == 0 {
        assert(core =~= other);
    }
}

/// The first of several entries is found, whatever white space is around it and whatever follows.
pub proof fn law_first_of_many(
    before: Seq<char>,
    entry: Seq<char>,
    after: Seq<char>,
    rest: Seq<char>,
    part: Seq<char>,
    core: Seq<char>,
)
    requires
        forall|k: int| 0 <= k < before.len() ==> is_space(#[trigger] before[k]),
        forall|k: int| 0 <= k < after.len() ==> is_space(#[trigger] after[k]),
        entry.len() > 0,
        !entry.contains(','),
        !is_space(entry.first()),
        !is_space(entry.last()),
        up_to_comma(before + entry + after + seq![','] + rest, part),
        trimmed(part, core),
    ensures
        core == entry,
{
    let whole = before + entry + after;
    let s = whole + seq![','] + rest;
    assert(!whole.contains(',')) by {
        if whole.contains(',') {
            let k = choose|k: int| 0 <= k < whole.len() && whole[k] == ',';
            if k < before.len() {
                assert(is_space(before[k]));
            } else if k < before.len() + entry.len() {
                assert(entry[k - before.len()] == ',');
            } else {
                assert(is_space(after[k - before.len() - entry.len()]));
            }
        }
    }
    assert(s.take(whole.len() as int) =~= whole);
    assert(s[whole.len() as int] == ',');
    law_one_first_entry(s, part, whole);
    let i = before.len() as int;
    assert(whole.subrange(i, i + entry.len()) =~= entry);
    assert forall|k: int| 0 <= k < i implies is_space(#[trigger] whole[k]) by {
        assert(whole[k] == before[k]);
    }
    assert forall|k: int| i + entry.len() <= k < whole.len() implies is_space(
        #[trigger] whole[k],
    ) by {
        assert(whole[k] == after[k - i - entry.len()]);
    }
    assert(trimmed(whole, entry));
    law_one_way_to_trim(whole, core, entry);
}

/// A text without a comma, and without white space around it, is its own first entry.
pub proof fn law_single_entry(s: Seq<char>, part: Seq<char>, core: Seq<char>)
    requires
        up_to_comma(s, part),
        trimmed(part, core),
        !s.contains(','),
        s.len() > 0 ==> !is_space(s.first()) && !is_space(s.last()),
    ensures
        core == s,
{
    assert(s.take(s.len() as int) =~= s);
    law_one_first_entry(s, part, s);
    assert(s.subrange(0, 0 + s.len() as int) =~= s);
    law_one_way_to_trim(s, core, s);
}

/// The first entry of a list such as a proxy keeps of those that a request has come through, which
/// is whom it came from at first.
pub fn original_client(forwarded_for: &str) -> (client: &str)
    ensures
        exists|part: Seq<char>| #[trigger]
            up_to_comma(forwarded_for@, part) && trimmed(part, client@),
{
    let ghost s = forwarded_for@;
    let n: usize = forwarded_for.unicode_len();
    let mut end: usize = 0;
    while end < n && forwarded_for.get_char(end) != ','
        invariant
            end <= n,
            n == s.len(),
            s == forwarded_for@,
            forall|k: int| 0 <= k < end ==> #[trigger] s[k] != ',',
        decreases n - end,
    {
        end = end + 1;
    }
    let ghost part = s.take(end as int);
    assert(up_to_comma(s, part));
    let mut start: usize = 0;
    while start < end && blank(forwarded_for.get_char(start))
        invariant
            start <= end <= n,
            n == s.len(),
            s == forwarded_for@,
            forall|k: int| 0 <= k < start ==> is_space(#[trigger] s[k]),
        decreases end - start,
    {
        start = start + 1;
    }
    let mut stop: usize = end;
    while stop > start && blank(forwarded_for.get_char(stop - 1))
        invariant
            start <= stop <= end <= n,
            n == s.len(),
            s == forwarded_for@,
            forall|k: int| stop <= k < end ==> is_space(#[trigger] s[k]),
        decreases stop,
    {
        stop = stop - 1;
    }
    let client = forwarded_for.substring_char(start, stop);
    proof {
        let i = start as int;
        assert(client@ =~= part.subrange(i, i + client@.len()));
        assert(forall|k: int| 0 <= k < i ==> is_space(#[trigger] part[k]));
        assert(forall|k: int| i + client@.len() <= k < part.len() ==> is_space(#[trigger] part[k]));
        assert(trimmed(part, client@));
    }
    client
}

} // verus!
