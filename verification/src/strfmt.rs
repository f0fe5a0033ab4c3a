use vstd::prelude::*;
use crate::text::push_char;

verus! {

/// Whether `c` has the Unicode `Uppercase` property.
pub uninterp spec fn is_uppercase(c: char) -> bool;

/// `char::is_uppercase`: the result is the Unicode `Uppercase` property of
/// the character.
#[verifier::external_body]
fn char_is_uppercase(c: char) -> (upper: bool)
    ensures
        upper == is_uppercase(c),
{
    c.is_uppercase()
}

/// `c` with an ASCII capital letter replaced by its small letter.
pub open spec fn ascii_lower(c: char) -> char {
    if 'A' <= c <= 'Z' {
        ((c as u8) + 32) as char
    } else {
        c
    }
}

/// `c` with an ASCII small letter replaced by its capital letter.
pub open spec fn ascii_upper(c: char) -> char {
    if 'a' <= c <= 'z' {
        ((c as u8) - 32) as char
    } else {
        c
    }
}

/// Lowers an ASCII capital letter; any other character stays.
pub fn to_ascii_lowercase(c: char) -> (lower: char)
    ensures
        lower == ascii_lower(c),
{
    if 'A' <= c && c <= 'Z' {
        ((c as u8) + 32) as char
    } else {
        c
    }
}

/// Raises an ASCII small letter; any other character stays.
pub fn to_ascii_uppercase(c: char) -> (upper: char)
    ensures
        upper == ascii_upper(c),
{
    if 'a' <= c && c <= 'z' {
        ((c as u8) - 32) as char
    } else {
        c
    }
}

/// What one character of a camel-case or Pascal-case name contributes to
/// its snake-case form, given whether it leads the name and whether it is
/// upper case: an upper-case character is lowered and, unless it leads,
/// preceded by an underscore.
pub open spec fn snake_piece(leading: bool, c: char, upper: bool) -> Seq<char> {
    if upper {
        if leading {
            seq![ascii_lower(c)]
        } else {
            seq!['_', ascii_lower(c)]
        }
    } else {
        seq![c]
    }
}

/// The snake-case form of a camel-case or Pascal-case name.
pub open spec fn snake_of(name: Seq<char>) -> Seq<char>
    decreases name.len(),
{
    if name.len() == 0 {
        seq![]
    } else {
        snake_of(name.drop_last()) + snake_piece(
            name.len() == 1,
            name.last(),
            is_uppercase(name.last()),
        )
    }
}

/// Appends to `out` what the character `c` contributes to a snake-case name.
pub fn push_snake(out: &mut String, leading: bool, c: char, upper: bool)
    ensures
        final(out)@ == old(out)@ + snake_piece(leading, c, upper),
{
    if upper {
        if !leading {
            push_char(out, '_');
        }
        push_char(out, to_ascii_lowercase(c));
    } else {
        push_char(out, c);
    }
}

/// What one character of a snake-case name contributes to its joined form,
/// given whether a capital is due: an underscore is dropped, and the
/// character after it is raised.
pub open spec fn joined_piece(c: char, capital_due: bool) -> Seq<char> {
    if c == '_' {
        seq![]
    } else if capital_due {
        seq![ascii_upper(c)]
    } else {
        seq![c]
    }
}

/// Whether a capital is due after `name` has been read: at the start as
/// `initial` says, afterwards exactly behind an underscore.
pub open spec fn capital_due(name: Seq<char>, initial: bool) -> bool {
    if name.len() == 0 {
        initial
    } else {
        name.last() == '_'
    }
}

/// A snake-case name with its underscores dropped and every character
/// behind one raised; `initial` says whether the first character is raised
/// as well.
pub open spec fn joined_of(name: Seq<char>, initial: bool) -> Seq<char>
    decreases name.len(),
{
    if name.len() == 0 {
        seq![]
    } else {
        joined_of(name.drop_last(), initial) + joined_piece(
            name.last(),
            capital_due(name.drop_last(), initial),
        )
    }
}

fn join(s: &str, initial: bool) -> (result: String)
    ensures
        result@ == joined_of(s@, initial),
{
    let mut result = String::new();
    let mut upper = initial;
    let ghost mut i: int = 0;
    for c in it: s.chars()
        invariant
            it.seq() == s@,
            i == it.index(),
            upper == capital_due(s@.take(i), initial),
            result@ == joined_of(s@.take(i), initial),
    {
        proof {
            assert(s@.take(i + 1).drop_last() =~= s@.take(i));
        }
        if c == '_' {
            upper = true;
        } else {
            if upper {
                push_char(&mut result, to_ascii_uppercase(c));
                upper = false;
            } else {
                push_char(&mut result, c);
            }
        }
        proof {
            i = i + 1;
        }
    }
    proof {
        assert(s@.take(i) =~= s@);
    }
    result
}

fn snake(s: &str) -> (result: String)
    ensures
        result@ == snake_of(s@),
{
    let mut result = String::new();
    let mut leading = true;
    let ghost mut i: int = 0;
    for c in it: s.chars()
        invariant
            it.seq() == s@,
            i == it.index(),
            leading == (i == 0),
            result@ == snake_of(s@.take(i)),
    {
        proof {
            assert(s@.take(i + 1).drop_last() =~= s@.take(i));
        }
        let upper = char_is_uppercase(c);
        push_snake(&mut result, leading, c, upper);
        leading = false;
        proof {
            i = i + 1;
        }
    }
    proof {
        assert(s@.take(i) =~= s@);
    }
    result
}

/// The snake-case form of a Pascal-case name: every upper-case character is
/// lowered and, unless it leads the name, preceded by an underscore.
pub fn pascal_to_snake(s: &str) -> (result: String)
    ensures
        result@ == snake_of(s@),
{
    snake(s)
}

/// The Pascal-case form of a snake-case name: underscores are dropped, and
/// the first character and every character behind an underscore are raised.
pub fn snake_to_pascal(s: &str) -> (result: String)
    ensures
        result@ == joined_of(s@, true),
{
    join(s, true)
}

/// The camel-case form of a snake-case name: underscores are dropped, and
/// every character behind an underscore is raised.
pub fn snake_to_camel(s: &str) -> (result: String)
    ensures
        result@ == joined_of(s@, false),
{
    join(s, false)
}

/// The snake-case form of a camel-case name: every upper-case character is
/// lowered and, unless it leads the name, preceded by an underscore.
pub fn camel_to_snake(s: &str) -> (result: String)
    ensures
        result@ == snake_of(s@),
{
    snake(s)
}

} // verus!
