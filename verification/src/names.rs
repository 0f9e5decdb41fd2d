//! The name mapper: from a structure's identifier to the base name of its
//! binding, the alias of its opaque type, and the names of its functions.

use vstd::prelude::*;
use crate::text::{char_is_uppercase, char_lowercase, is_uppercase, push_char, to_lowercase};

verus! {

/// What one character of an identifier contributes to the base name: its
/// lowercase mapping, preceded by an underscore when it is an uppercase
/// character that is not the identifier's first.
pub open spec fn mapped_char(first: bool, upper: bool, lower: Seq<char>) -> Seq<char> {
    if !first && upper {
        seq!['_'] + lower
    } else {
        lower
    }
}

/// The base name of an identifier: the contributions of its characters, in
/// order.
pub open spec fn base_name_of(ident: Seq<char>) -> Seq<char>
    decreases ident.len(),
{
    if ident.len() == 0 {
        Seq::empty()
    } else {
        base_name_of(ident.drop_last()) + mapped_char(
            ident.len() == 1,
            char_is_uppercase(ident.last()),
            char_lowercase(ident.last()),
        )
    }
}

/// The suffix that turns a base name into the alias of the opaque type.
pub open spec fn alias_suffix() -> Seq<char> {
    seq!['_', 't']
}

/// The alias of the opaque type: the base name and the alias suffix.
pub open spec fn alias_name_of(base: Seq<char>) -> Seq<char> {
    base + alias_suffix()
}

/// The constructor's name.
pub open spec fn constructor_name_of(base: Seq<char>) -> Seq<char> {
    base + seq!['_', 'n', 'e', 'w']
}

/// The destructor's name.
pub open spec fn destructor_name_of(base: Seq<char>) -> Seq<char> {
    base + seq!['_', 'f', 'r', 'e', 'e']
}

/// The name of a field's getter.
pub open spec fn getter_name_of(base: Seq<char>, field: Seq<char>) -> Seq<char> {
    base + seq!['_'] + field
}

/// The name of a field's setter.
pub open spec fn setter_name_of(base: Seq<char>, field: Seq<char>) -> Seq<char> {
    base + seq!['_', 's', 'e', 't', '_'] + field
}

/// The constructor and the destructor never share a name.
pub proof fn lemma_lifecycle_names_differ(base: Seq<char>)
    ensures
        constructor_name_of(base) != destructor_name_of(base),
{
    let n = base.len() as int;
    assert(constructor_name_of(base)[n + 1] == 'n');
    assert(destructor_name_of(base)[n + 1] == 'f');
}

/// Appends to `name` what one character of an identifier contributes, given
/// whether it is the first, whether it is uppercase, and its lowercase
/// mapping.
pub fn push_mapped(name: &mut String, first: bool, upper: bool, lower: &Vec<char>)
    ensures
        final(name)@ == old(name)@ + mapped_char(first, upper, lower@),
{
    if !first && upper {
        push_char(name, '_');
    }
    let ghost start = name@;
    let mut i: usize = 0;
    while i < lower.len()
        invariant
            i <= lower.len(),
            name@ == start + lower@.subrange(0, i as int),
        decreases lower.len() - i,
    {
        push_char(name, lower[i]);
        assert(lower@.subrange(0, i + 1) =~= lower@.subrange(0, i as int).push(lower@[i as int]));
        i += 1;
    }
    assert(lower@.subrange(0, i as int) =~= lower@);
}

/// Converts a structure's identifier to the base name of its binding:
/// lowercase, with an underscore before each uppercase character but the
/// first. Every identifier has a base name, equal identifiers have equal
/// base names, and only the empty identifier has an empty one.
pub fn base_name(ident: &str) -> (name: String)
    ensures
        name@ == base_name_of(ident@),
        ident@.len() > 0 ==> name@.len() > 0,
{
    let mut name = String::new();
    let n = ident.unicode_len();
    let mut i: usize = 0;
    while i < n
        invariant
            i <= n,
            n == ident@.len(),
            name@ == base_name_of(ident@.subrange(0, i as int)),
            i > 0 ==> name@.len() > 0,
        decreases n - i,
    {
        let c = ident.get_char(i);
        let upper = is_uppercase(c);
        let lower = to_lowercase(c);
        proof {
            let next = ident@.subrange(0, i + 1);
            assert(next.drop_last() =~= ident@.subrange(0, i as int));
            assert(next.last() == c);
        }
        push_mapped(&mut name, i == 0, upper, &lower);
        i += 1;
    }
    assert(ident@.subrange(0, i as int) =~= ident@);
    name
}

/// The alias under which the opaque type is exposed.
pub fn alias_name(base: &str) -> (alias: String)
    ensures
        alias@ == alias_name_of(base@),
{
    proof {
        reveal_strlit("_t");
    }
    let alias = base.to_owned().concat("_t");
    assert(alias@ =~= alias_name_of(base@));
    alias
}

/// The name of the function that allocates an instance.
pub fn constructor_name(base: &str) -> (name: String)
    ensures
        name@ == constructor_name_of(base@),
{
    proof {
        reveal_strlit("_new");
    }
    let name = base.to_owned().concat("_new");
    assert(name@ =~= constructor_name_of(base@));
    name
}

/// The name of the function that destroys an instance.
pub fn destructor_name(base: &str) -> (name: String)
    ensures
        name@ == destructor_name_of(base@),
{
    proof {
        reveal_strlit("_free");
    }
    let name = base.to_owned().concat("_free");
    assert(name@ =~= destructor_name_of(base@));
    name
}

/// The name of the function that reads a field.
pub fn getter_name(base: &str, field: &str) -> (name: String)
    ensures
        name@ == getter_name_of(base@, field@),
{
    proof {
        reveal_strlit("_");
    }
    let name = base.to_owned().concat("_").concat(field);
    assert(name@ =~= getter_name_of(base@, field@));
    name
}

/// The name of the function that writes a field.
pub fn setter_name(base: &str, field: &str) -> (name: String)
    ensures
        name@ == setter_name_of(base@, field@),
{
    proof {
        reveal_strlit("_set_");
    }
    let name = base.to_owned().concat("_set_").concat(field);
    assert(name@ =~= setter_name_of(base@, field@));
    name
}

} // verus!
