use vstd::prelude::*;

verus! {

/// Whether `c` is white space: one of the twenty-five characters that have
/// the Unicode property White_Space.
pub open spec fn white_space(c: char) -> bool {
    let code = c as u32;
    ||| 0x09 <= code <= 0x0D
    ||| code == 0x20
    ||| code == 0x85
    ||| code == 0xA0
    ||| code == 0x1680
    ||| 0x2000 <= code <= 0x200A
    ||| code == 0x2028
    ||| code == 0x2029
    ||| code == 0x202F
    ||| code == 0x205F
    ||| code == 0x3000
}

/// `s` without its leading white space.
pub open spec fn trim_start(s: Seq<char>) -> Seq<char>
    decreases s.len(),
{
    if s.len() > 0 && white_space(s[0]) {
        trim_start(s.drop_first())
    } else {
        s
    }
}

/// `s` without its trailing white space.
pub open spec fn trim_end(s: Seq<char>) -> Seq<char>
    decreases s.len(),
{
    if s.len() > 0 && white_space(s.last()) {
        trim_end(s.drop_last())
    } else {
        s
    }
}

/// `s` without its leading and trailing white space.
pub open spec fn trimmed(s: Seq<char>) -> Seq<char> {
    trim_end(trim_start(s))
}

/// Whether `s` begins with `p`.
pub open spec fn has_prefix(s: Seq<char>, p: Seq<char>) -> bool {
    p.len() <= s.len() && s.subrange(0, p.len() as int) == p
}

/// Whether `s` ends with `p`.
pub open spec fn has_suffix(s: Seq<char>, p: Seq<char>) -> bool {
    p.len() <= s.len() && s.subrange(s.len() - p.len(), s.len() as int) == p
}

/// `char::is_whitespace`: whether the character has the Unicode property
/// White_Space, which the tab, the line feed, the vertical tab, the form
/// feed, the carriage return, the space, the next line, the no-break space
/// and seventeen wider spaces and separators have, and no other character.
#[verifier::external_body]
fn is_white_space(c: char) -> (r: bool)
    ensures
        r == white_space(c),
{
    c.is_whitespace()
}

/// Leading white space can be dropped one character at a time.
proof fn lemma_trim_start_skip(s: Seq<char>, n: int)
    requires
        0 <= n <= s.len(),
        forall|i: int| 0 <= i < n ==> white_space(#[trigger] s[i]),
    ensures
        trim_start(s) == trim_start(s.skip(n)),
    decreases n,
{
    if n > 0 {
        let rest = s.drop_first();
        assert forall|i: int| 0 <= i < n - 1 implies white_space(#[trigger] rest[i]) by {
            assert(rest[i] == s[i + 1]);
        }
        lemma_trim_start_skip(rest, n - 1);
        assert(rest.skip(n - 1) =~= s.skip(n));
    } else {
        assert(s.skip(0) =~= s);
    }
}

/// Trailing white space can be dropped one character at a time.
proof fn lemma_trim_end_take(s: Seq<char>, n: int)
    requires
        0 <= n <= s.len(),
        forall|i: int| n <= i < s.len() ==> white_space(#[trigger] s[i]),
    ensures
        trim_end(s) == trim_end(s.take(n)),
    decreases s.len() - n,
{
    if n < s.len() {
        let rest = s.drop_last();
        assert forall|i: int| n <= i < rest.len() implies white_space(#[trigger] rest[i]) by {
            assert(rest[i] == s[i]);
        }
        lemma_trim_end_take(rest, n);
        assert(rest.take(n) =~= s.take(n));
    } else {
        assert(s.take(n) =~= s);
    }
}

/// What `trim_start` leaves does not begin with white space.
proof fn lemma_trim_start_done(s: Seq<char>)
    ensures
        trim_start(s).len() == 0 || !white_space(trim_start(s)[0]),
    decreases s.len(),
{
    if s.len() > 0 && white_space(s[0]) {
        lemma_trim_start_done(s.drop_first());
    }
}

/// What `trim_end` leaves is the beginning of its argument, and does not
/// end with white space.
proof fn lemma_trim_end_done(s: Seq<char>)
    ensures
        trim_end(s).len() <= s.len(),
        trim_end(s) == s.take(trim_end(s).len() as int),
        trim_end(s).len() == 0 || !white_space(trim_end(s).last()),
    decreases s.len(),
{
    if s.len() > 0 && white_space(s.last()) {
        let rest = s.drop_last();
        lemma_trim_end_done(rest);
        assert(rest.take(trim_end(rest).len() as int) =~= s.take(trim_end(rest).len() as int));
    } else {
        assert(s.take(s.len() as int) =~= s);
    }
}

/// Trimming is done after one pass: a trimmed string has no white space
/// left at its ends.
pub proof fn lemma_trimmed_twice(s: Seq<char>)
    ensures
        trimmed(trimmed(s)) == trimmed(s),
{
    let lead = trim_start(s);
    let kept = trim_end(lead);
    lemma_trim_start_done(s);
    lemma_trim_end_done(lead);
    if kept.len() > 0 {
        assert(kept[0] == lead[0]);
    }
    assert(trim_start(kept) == kept);
    assert(trim_end(kept) == kept);
}

/// Whether `s` begins with `p`.
pub fn starts_with(s: &str, p: &str) -> (r: bool)
    ensures
        r == has_prefix(s@, p@),
{
    let width = p.unicode_len();
    if width > s.unicode_len() {
        return false;
    }
    let head = s.substring_char(0, width);
    head.to_owned() == p.to_owned()
}

/// Whether `s` ends with `p`.
pub fn ends_with(s: &str, p: &str) -> (r: bool)
    ensures
        r == has_suffix(s@, p@),
{
    let width = p.unicode_len();
    let length = s.unicode_len();
    if width > length {
        return false;
    }
    let tail = s.substring_char(length - width, length);
    tail.to_owned() == p.to_owned()
}

/// `s` without the white space at its two ends.
pub fn trim(s: &str) -> (r: &str)
    ensures
        r@ == trimmed(s@),
{
    let length = s.unicode_len();
    // The characters from `start` up to `end` are kept.
    let mut start: usize = 0;
    let mut end: usize = 0;
    let mut at: usize = 0;
    for c in it: s.chars()
        invariant
            it.seq() == s@,
            length == s@.len(),
            at == it.index(),
            start <= end <= at,
            forall|i: int| 0 <= i < start ==> white_space(#[trigger] s@[i]),
            forall|i: int| end <= i < at ==> white_space(#[trigger] s@[i]),
            start < end ==> !white_space(s@[start as int]) && !white_space(s@[end - 1]),
            start == end ==> start == at,
    {
        if is_white_space(c) {
            if start == end {
                start = at + 1;
                end = at + 1;
            }
        } else {
            if start == end {
                start = at;
            }
            end = at + 1;
        }
        at += 1;
    }
    proof {
        let lead = s@.skip(start as int);
        lemma_trim_start_skip(s@, start as int);
        assert(trim_start(s@) == lead) by {
            if start < end {
                assert(lead[0] == s@[start as int]);
            }
        }
        let keep = end - start;
        assert forall|i: int| keep <= i < lead.len() implies white_space(#[trigger] lead[i]) by {
            assert(lead[i] == s@[start + i]);
        }
        lemma_trim_end_take(lead, keep);
        assert(lead.take(keep) =~= s@.subrange(start as int, end as int));
        assert(trim_end(lead.take(keep)) == lead.take(keep)) by {
            if keep > 0 {
                assert(lead.take(keep).last() == s@[end - 1]);
            }
        }
    }
    s.substring_char(start, end)
}

} // verus!
