use vstd::prelude::*;

verus! {

/// `String::push`: the character is appended to the string.
#[verifier::external_body]
pub(crate) fn push_char(text: &mut String, c: char)
    ensures
        final(text)@ == old(text)@.push(c),
{
    text.push(c)
}

/// The characters of `s`, in order.
pub fn chars_of(s: &str) -> (chars: Vec<char>)
    ensures
        chars@ == s@,
{
    let mut chars: Vec<char> = Vec::new();
    for c in it: s.chars()
        invariant
            it.seq() == s@,
            chars@ == s@.take(it.index()),
    {
        chars.push(c);
        proof {
            assert(chars@ =~= s@.take(it.index() + 1));
        }
    }
    proof {
        assert(s@.take(s@.len() as int) =~= s@);
    }
    chars
}

/// Appends the characters of `chars` from position `from` up to, and
/// without, position `to`.
pub fn push_range(out: &mut String, chars: &Vec<char>, from: usize, to: usize)
    requires
        from <= to <= chars@.len(),
    ensures
        final(out)@ == old(out)@ + chars@.subrange(from as int, to as int),
{
    let mut i: usize = from;
    proof {
        assert(out@ =~= old(out)@ + chars@.subrange(from as int, from as int));
    }
    while i < to
        invariant
            from <= i <= to <= chars@.len(),
            out@ == old(out)@ + chars@.subrange(from as int, i as int),
        decreases to - i,
    {
        push_char(out, chars[i]);
        proof {
            assert(chars@.subrange(from as int, i + 1) =~= chars@.subrange(
                from as int,
                i as int,
            ).push(chars@[i as int]));
        }
        i += 1;
    }
}

/// Appends all of `chars`.
pub fn push_all(out: &mut String, chars: &Vec<char>)
    ensures
        final(out)@ == old(out)@ + chars@,
{
    proof {
        assert(chars@.subrange(0, chars@.len() as int) =~= chars@);
    }
    push_range(out, chars, 0, chars.len());
}

/// Whether `part` stands in `text` at position `at`.
pub open spec fn occurs_at(text: Seq<char>, part: Seq<char>, at: int) -> bool {
    &&& 0 <= at
    &&& at + part.len() <= text.len()
    &&& text.subrange(at, at + part.len()) == part
}

/// Whether `part` stands somewhere in `text`.
pub open spec fn occurs(text: Seq<char>, part: Seq<char>) -> bool {
    exists|at: int| occurs_at(text, part, at)
}

/// Whether `text` begins with `prefix`.
pub open spec fn begins_with(text: Seq<char>, prefix: Seq<char>) -> bool {
    occurs_at(text, prefix, 0)
}

/// Whether `part` stands in `text` at position `at`.
pub fn matches_at(text: &Vec<char>, part: &Vec<char>, at: usize) -> (found: bool)
    ensures
        found == occurs_at(text@, part@, at as int),
{
    if part.len() > text.len() || at > text.len() - part.len() {
        return false;
    }
    let mut k: usize = 0;
    while k < part.len()
        invariant
            k <= part@.len(),
            at + part@.len() <= text@.len() <= usize::MAX,
            forall|j: int| 0 <= j < k ==> text@[at + j] == part@[j],
        decreases part@.len() - k,
    {
        if text[at + k] != part[k] {
            proof {
                assert(text@.subrange(at as int, at + part@.len())[k as int] == text@[at + k]);
            }
            return false;
        }
        k += 1;
    }
    proof {
        assert(text@.subrange(at as int, at + part@.len()) =~= part@);
    }
    true
}

/// Whether `text` begins with `prefix`.
pub fn starts_with(text: &Vec<char>, prefix: &Vec<char>) -> (found: bool)
    ensures
        found == begins_with(text@, prefix@),
{
    matches_at(text, prefix, 0)
}

/// Whether `part` stands somewhere in `text`. The empty part stands in
/// every text.
pub fn contains(text: &Vec<char>, part: &Vec<char>) -> (found: bool)
    ensures
        found == occurs(text@, part@),
{
    if part.len() > text.len() {
        return false;
    }
    let last: usize = text.len() - part.len();
    let mut at: usize = 0;
    loop
        invariant
            at <= last,
            last == text@.len() - part@.len(),
            forall|j: int| 0 <= j < at ==> !occurs_at(text@, part@, j),
        decreases last - at,
    {
        if matches_at(text, part, at) {
            return true;
        }
        if at == last {
            return false;
        }
        at += 1;
    }
}

/// The pieces of `text` between the occurrences of `separator`: one more
/// piece than there are separators, a piece being empty where two
/// separators meet or the text begins or ends with one.
pub open spec fn split(text: Seq<char>, separator: char) -> Seq<Seq<char>>
    decreases text.len(),
{
    if text.len() == 0 {
        seq![Seq::<char>::empty()]
    } else {
        let before = split(text.drop_last(), separator);
        if text.last() == separator {
            before.push(Seq::<char>::empty())
        } else {
            before.update(before.len() - 1, before.last().push(text.last()))
        }
    }
}

/// The views of `pieces`, in order.
pub open spec fn views(pieces: Seq<Vec<char>>) -> Seq<Seq<char>> {
    Seq::new(pieces.len(), |i: int| pieces[i]@)
}

/// There is always a piece.
pub proof fn lemma_split_nonempty(text: Seq<char>, separator: char)
    ensures
        split(text, separator).len() >= 1,
    decreases text.len(),
{
    if text.len() > 0 {
        lemma_split_nonempty(text.drop_last(), separator);
    }
}

/// Splits `text` at every occurrence of `separator`.
pub fn split_at(text: &Vec<char>, separator: char) -> (pieces: Vec<Vec<char>>)
    ensures
        views(pieces@) == split(text@, separator),
{
    let mut pieces: Vec<Vec<char>> = Vec::new();
    let mut current: Vec<char> = Vec::new();
    let mut i: usize = 0;
    proof {
        assert(text@.take(0) =~= Seq::<char>::empty());
        assert(views(pieces@).push(current@) =~= split(text@.take(0), separator));
    }
    while i < text.len()
        invariant
            i <= text@.len(),
            views(pieces@).push(current@) == split(text@.take(i as int), separator),
        decreases text@.len() - i,
    {
        let ghost before = split(text@.take(i as int), separator);
        proof {
            assert(text@.take(i + 1).drop_last() =~= text@.take(i as int));
            assert(before.len() == pieces@.len() + 1);
            assert(before.last() == current@);
        }
        let c = text[i];
        if c == separator {
            let ghost old_pieces = pieces@;
            pieces.push(current);
            current = Vec::new();
            proof {
                assert(views(pieces@) =~= before);
                assert(views(pieces@).push(current@) =~= before.push(Seq::<char>::empty()));
            }
        } else {
            current.push(c);
            proof {
                assert(views(pieces@).push(current@) =~= before.update(
                    before.len() - 1,
                    before.last().push(c),
                ));
            }
        }
        i += 1;
    }
    proof {
        assert(text@.take(i as int) =~= text@);
    }
    pieces.push(current);
    proof {
        assert(views(pieces@) =~= split(text@, separator));
    }
    pieces
}

/// `text` without the occurrences of `c` that it begins with.
pub open spec fn without_leading(text: Seq<char>, c: char) -> Seq<char>
    decreases text.len(),
{
    if text.len() > 0 && text[0] == c {
        without_leading(text.drop_first(), c)
    } else {
        text
    }
}

/// `text` without the occurrences of `c` that it ends with.
pub open spec fn without_trailing(text: Seq<char>, c: char) -> Seq<char>
    decreases text.len(),
{
    if text.len() > 0 && text.last() == c {
        without_trailing(text.drop_last(), c)
    } else {
        text
    }
}

/// `text` without the occurrences of `c` at its two ends.
pub open spec fn trimmed(text: Seq<char>, c: char) -> Seq<char> {
    without_trailing(without_leading(text, c), c)
}

proof fn lemma_without_leading(text: Seq<char>, c: char, n: int)
    requires
        0 <= n <= text.len(),
        forall|j: int| 0 <= j < n ==> text[j] == c,
        n < text.len() ==> text[n] != c,
    ensures
        without_leading(text, c) == text.skip(n),
    decreases text.len(),
{
    if n > 0 {
        let rest = text.drop_first();
        assert forall|j: int| 0 <= j < n - 1 implies rest[j] == c by {
            assert(rest[j] == text[j + 1]);
        }
        if n - 1 < rest.len() {
            assert(rest[n - 1] == text[n]);
        }
        lemma_without_leading(rest, c, n - 1);
        assert(rest.skip(n - 1) =~= text.skip(n));
    } else {
        assert(text.skip(0) =~= text);
    }
}

proof fn lemma_without_trailing(text: Seq<char>, c: char, n: int)
    requires
        0 <= n <= text.len(),
        forall|j: int| n <= j < text.len() ==> text[j] == c,
        n > 0 ==> text[n - 1] != c,
    ensures
        without_trailing(text, c) == text.take(n),
    decreases text.len(),
{
    if n < text.len() {
        let rest = text.drop_last();
        lemma_without_trailing(rest, c, n);
        assert(rest.take(n) =~= text.take(n));
    } else {
        assert(text.take(n) =~= text);
    }
}

/// Strips the occurrences of `c` from the two ends of `text`.
pub fn trim(text: &Vec<char>, c: char) -> (result: Vec<char>)
    ensures
        result@ == trimmed(text@, c),
{
    let mut from: usize = 0;
    while from < text.len() && text[from] == c
        invariant
            from <= text@.len(),
            forall|j: int| 0 <= j < from ==> text@[j] == c,
        decreases text@.len() - from,
    {
        from += 1;
    }
    let mut to: usize = text.len();
    while to > from && text[to - 1] == c
        invariant
            from <= to <= text@.len(),
            forall|j: int| to <= j < text@.len() ==> text@[j] == c,
        decreases to,
    {
        to -= 1;
    }
    let mut result: Vec<char> = Vec::new();
    let mut i: usize = from;
    while i < to
        invariant
            from <= i <= to <= text@.len(),
            result@ == text@.subrange(from as int, i as int),
        decreases to - i,
    {
        result.push(text[i]);
        proof {
            assert(result@ =~= text@.subrange(from as int, i + 1));
        }
        i += 1;
    }
    proof {
        lemma_without_leading(text@, c, from as int);
        let rest = text@.skip(from as int);
        assert forall|j: int| to - from <= j < rest.len() implies rest[j] == c by {
            assert(rest[j] == text@[from + j]);
        }
        if to > from {
            assert(rest[to - from - 1] == text@[to - 1]);
        }
        lemma_without_trailing(rest, c, to - from);
        assert(rest.take(to - from) =~= text@.subrange(from as int, to as int));
    }
    result
}

} // verus!
