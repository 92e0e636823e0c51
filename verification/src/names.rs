//! Stored names and their short form.
//!
//! A name is stored as `simpleName;signatureSuffix`. Its short form is what
//! stands before the first separator, or the whole name if it has none.
use vstd::prelude::*;
use vstd::string::StrSliceExecFns;

verus! {

/// What parts the simple name from the signature suffix.
pub const SEPARATOR: char = ';';

/// The position of the first separator in `name`, or its length if it has
/// none.
pub open spec fn separator_position(name: Seq<char>) -> nat
    decreases name.len(),
{
    if name.len() == 0 || name[0] == SEPARATOR {
        0
    } else {
        1 + separator_position(name.drop_first())
    }
}

/// The short form of a stored name.
pub open spec fn pretty_name(name: Seq<char>) -> Seq<char> {
    name.take(separator_position(name) as int)
}

/// `separator_position` is the one position that has no separator before
/// it and that is the end of the name or holds a separator.
pub proof fn lemma_separator_position(name: Seq<char>, at: int)
    requires
        0 <= at <= name.len(),
        forall|i: int| 0 <= i < at ==> name[i] != SEPARATOR,
        at == name.len() || name[at] == SEPARATOR,
    ensures
        separator_position(name) == at,
    decreases name.len(),
{
    if at > 0 {
        let rest = name.drop_first();
        assert forall|i: int| 0 <= i < at - 1 implies rest[i] != SEPARATOR by {
            assert(rest[i] == name[i + 1]);
        }
        lemma_separator_position(rest, at - 1);
    }
}

/// The first separator's position lies within the name, with no separator
/// before it.
pub proof fn lemma_separator_position_bounds(name: Seq<char>)
    ensures
        separator_position(name) <= name.len(),
        forall|i: int| 0 <= i < separator_position(name) ==> name[i] != SEPARATOR,
        separator_position(name) == name.len() || name[separator_position(name) as int]
            == SEPARATOR,
    decreases name.len(),
{
    if !(name.len() == 0 || name[0] == SEPARATOR) {
        let rest = name.drop_first();
        lemma_separator_position_bounds(rest);
        assert forall|i: int| 0 <= i < separator_position(name) implies name[i]
            != SEPARATOR by {
            if i > 0 {
                assert(name[i] == rest[i - 1]);
            }
        }
    }
}

/// The short form is the longest leading part of the name that holds no
/// separator.
pub proof fn lemma_pretty_name(name: Seq<char>)
    ensures
        pretty_name(name).len() <= name.len(),
        pretty_name(name) == name.take(pretty_name(name).len() as int),
        !pretty_name(name).contains(SEPARATOR),
        pretty_name(name).len() == name.len() || name[pretty_name(name).len() as int]
            == SEPARATOR,
        !name.contains(SEPARATOR) ==> pretty_name(name) == name,
{
    lemma_separator_position_bounds(name);
    let at = separator_position(name) as int;
    if !name.contains(SEPARATOR) {
        if at < name.len() {
            assert(name.contains(name[at]));
        }
        assert(pretty_name(name) =~= name);
    }
}

/// The short form of `name`: what stands before its first separator.
pub fn pretty(name: &str) -> (short: String)
    ensures
        short@ == pretty_name(name@),
{
    let len = name.unicode_len();
    let mut at: usize = 0;
    let mut found = false;
    for c in it: name.chars()
        invariant
            len == name@.len(),
            at <= it.index(),
            it.seq() == name@,
            !found ==> at == it.index(),
            found ==> at < name@.len() && name@[at as int] == SEPARATOR,
            forall|i: int| 0 <= i < at ==> name@[i] != SEPARATOR,
    {
        if !found {
            if c == SEPARATOR {
                found = true;
            } else {
                at += 1;
            }
        }
    }
    proof {
        lemma_separator_position(name@, at as int);
    }
    name.substring_char(0, at).to_owned()
}

} // verus!
