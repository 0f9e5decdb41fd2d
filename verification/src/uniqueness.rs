//! What holds of the bindings that generation yields: each field is
//! accounted for, and field names that keep clear of the names of other
//! functions never make generation stop.

use vstd::prelude::*;
use crate::binding::{
    accessors_of, field_error_at, name_collides_at, names_before, pair_names_of, passes_all,
    pair_of, skipped_of, FieldShape,
};
use crate::names::{
    constructor_name_of, destructor_name_of, getter_name_of, setter_name_of,
};
use crate::schema::{classification_of, is_named_path, Classification, FieldModel};

verus! {

/// Whether a field name can make an accessor's name collide with that of
/// another function: `new` and `free` give the getter the name of a
/// lifecycle function, and the getter of `set_x` has the name of the setter
/// of `x`.
pub open spec fn reserved_field_name(field: Seq<char>) -> bool {
    ||| field == seq!['n', 'e', 'w']
    ||| field == seq!['f', 'r', 'e', 'e']
    ||| seq!['s', 'e', 't', '_'].is_prefix_of(field)
}

/// Whether a name is that of an accessor of one of the fields.
pub open spec fn is_accessor_name(name: Seq<char>, base: Seq<char>, fields: Seq<FieldModel>)
    -> bool {
    exists|k: int|
        0 <= k < fields.len() && (name == getter_name_of(base, (#[trigger] fields[k]).name->0)
            || name == setter_name_of(base, fields[k].name->0))
}

/// Every field either gets one pair of accessors or is recorded as skipped.
pub proof fn lemma_every_field_accounted(
    name: Seq<char>,
    ident: Seq<char>,
    fields: Seq<FieldModel>,
)
    ensures
        accessors_of(name, ident, fields).len() + skipped_of(fields).len() == fields.len(),
    decreases fields.len(),
{
    if fields.len() > 0 {
        lemma_every_field_accounted(name, ident, fields.drop_last());
    }
}

/// A structure whose fields are all of a supported type gets accessors for
/// every field, in declaration order, and none is skipped.
pub proof fn lemma_supported_fields_all_bound(
    name: Seq<char>,
    ident: Seq<char>,
    fields: Seq<FieldModel>,
)
    requires
        forall|k: int|
            0 <= k < fields.len() ==> classification_of(#[trigger] fields[k].ty)
                != Classification::Unsupported,
    ensures
        skipped_of(fields).len() == 0,
        accessors_of(name, ident, fields).len() == fields.len(),
        forall|k: int|
            0 <= k < fields.len() ==> (#[trigger] accessors_of(name, ident, fields)[k]).field
                == fields[k].name->0,
    decreases fields.len(),
{
    if fields.len() > 0 {
        let init = fields.drop_last();
        assert forall|k: int| 0 <= k < init.len() implies classification_of(
            #[trigger] init[k].ty,
        ) != Classification::Unsupported by {
            assert(init[k] == fields[k]);
        }
        lemma_supported_fields_all_bound(name, ident, init);
        assert(classification_of(fields[fields.len() - 1].ty) != Classification::Unsupported);
    }
}

/// The names of the functions of one field differ from one another and from
/// the names of the lifecycle functions, and they differ from those of a
/// field of another name.
proof fn lemma_names_of_fields_differ(base: Seq<char>, f: Seq<char>, g: Seq<char>)
    requires
        !reserved_field_name(f),
        !reserved_field_name(g),
    ensures
        getter_name_of(base, f) != constructor_name_of(base),
        getter_name_of(base, f) != destructor_name_of(base),
        setter_name_of(base, f) != constructor_name_of(base),
        setter_name_of(base, f) != destructor_name_of(base),
        getter_name_of(base, f) != setter_name_of(base, g),
        getter_name_of(base, f) == getter_name_of(base, g) ==> f == g,
        setter_name_of(base, f) == setter_name_of(base, g) ==> f == g,
{
    let n = base.len() as int;
    let ctor = constructor_name_of(base);
    let dtor = destructor_name_of(base);
    let get_f = getter_name_of(base, f);
    let get_g = getter_name_of(base, g);
    let set_f = setter_name_of(base, f);
    let set_g = setter_name_of(base, g);
    assert(ctor[n + 1] == 'n' && dtor[n + 1] == 'f');
    assert(ctor.subrange(n + 1, ctor.len() as int) =~= seq!['n', 'e', 'w']);
    assert(dtor.subrange(n + 1, dtor.len() as int) =~= seq!['f', 'r', 'e', 'e']);
    assert(get_f.subrange(n + 1, get_f.len() as int) =~= f);
    assert(get_g.subrange(n + 1, get_g.len() as int) =~= g);
    assert(set_f.subrange(n + 5, set_f.len() as int) =~= f);
    assert(set_g.subrange(n + 5, set_g.len() as int) =~= g);
    assert(set_f[n + 1] == 's');
    assert(set_g[n + 1] == 's');
    if get_f == set_g {
        let tail = set_g.subrange(n + 1, set_g.len() as int);
        assert(tail == f);
        assert(tail.subrange(0, 4) =~= seq!['s', 'e', 't', '_']);
        assert(seq!['s', 'e', 't', '_'].is_prefix_of(f));
    }
}

/// Every accessor name that is emitted for a sequence of fields is the name
/// of the getter or of the setter of one of them.
proof fn lemma_pair_names_are_accessor_names(
    base: Seq<char>,
    ident: Seq<char>,
    fields: Seq<FieldModel>,
)
    ensures
        forall|a: int|
            0 <= a < pair_names_of(accessors_of(base, ident, fields)).len() ==> is_accessor_name(
                #[trigger] pair_names_of(accessors_of(base, ident, fields))[a],
                base,
                fields,
            ),
    decreases fields.len(),
{
    if fields.len() > 0 {
        let init = fields.drop_last();
        let last = fields.last();
        let before = accessors_of(base, ident, init);
        let names_init = pair_names_of(before);
        lemma_pair_names_are_accessor_names(base, ident, init);
        assert forall|a: int| 0 <= a < names_init.len() implies is_accessor_name(
            #[trigger] names_init[a],
            base,
            fields,
        ) by {
            assert(is_accessor_name(names_init[a], base, init));
            let k = choose|k: int|
                0 <= k < init.len() && (names_init[a] == getter_name_of(
                    base,
                    (#[trigger] init[k]).name->0,
                ) || names_init[a] == setter_name_of(base, init[k].name->0));
            assert(init[k] == fields[k]);
        }
        if classification_of(last.ty) != Classification::Unsupported {
            let shape = match classification_of(last.ty) {
                Classification::Primitive(kind) => FieldShape::Primitive(kind),
                _ => FieldShape::Text,
            };
            let pair = pair_of(base, ident, last.name->0, shape);
            let after = accessors_of(base, ident, fields);
            assert(after == before.push(pair));
            assert(after.drop_last() =~= before);
            assert(pair_names_of(after) == names_init.push(pair.getter.name).push(
                pair.setter.name,
            ));
            assert(fields[fields.len() - 1] == last);
            assert(is_accessor_name(pair.getter.name, base, fields));
            assert(is_accessor_name(pair.setter.name, base, fields));
        }
    }
}

/// Fields that all have a name, no two the same and none reserved, never
/// make a name collide. So a structure of such fields whose types are all
/// simple named paths always gets its binding.
pub proof fn lemma_unreserved_fields_never_collide(
    base: Seq<char>,
    ident: Seq<char>,
    fields: Seq<FieldModel>,
)
    requires
        forall|i: int| 0 <= i < fields.len() ==> (#[trigger] fields[i]).name is Some,
        forall|i: int, j: int|
            0 <= i < j < fields.len() ==> (#[trigger] fields[i]).name != (#[trigger] fields[j]).name,
        forall|i: int|
            0 <= i < fields.len() ==> !reserved_field_name((#[trigger] fields[i]).name->0),
    ensures
        forall|i: int|
            0 <= i < fields.len() ==> !#[trigger] name_collides_at(base, ident, fields, i),
        (forall|i: int| 0 <= i < fields.len() ==> is_named_path((#[trigger] fields[i]).ty))
            ==> passes_all(base, ident, fields),
{
    assert forall|i: int| 0 <= i < fields.len() implies !#[trigger] name_collides_at(
        base,
        ident,
        fields,
        i,
    ) by {
        let prefix = fields.subrange(0, i);
        let mine = fields[i].name->0;
        let getter = getter_name_of(base, mine);
        let setter = setter_name_of(base, mine);
        let pair_names = pair_names_of(accessors_of(base, ident, prefix));
        let taken = names_before(base, ident, fields, i);
        lemma_pair_names_are_accessor_names(base, ident, prefix);
        lemma_names_of_fields_differ(base, mine, mine);
        assert forall|a: int| 0 <= a < taken.len() implies taken[a] != getter && taken[a]
            != setter by {
            if a >= 2 {
                assert(taken[a] == pair_names[a - 2]);
                assert(is_accessor_name(pair_names[a - 2], base, prefix));
                let k = choose|k: int|
                    0 <= k < prefix.len() && (pair_names[a - 2] == getter_name_of(
                        base,
                        (#[trigger] prefix[k]).name->0,
                    ) || pair_names[a - 2] == setter_name_of(base, prefix[k].name->0));
                assert(prefix[k] == fields[k]);
                assert(fields[k].name != fields[i].name);
                lemma_names_of_fields_differ(base, fields[k].name->0, mine);
                lemma_names_of_fields_differ(base, mine, fields[k].name->0);
            }
        }
    }
    if forall|i: int| 0 <= i < fields.len() ==> is_named_path((#[trigger] fields[i]).ty) {
        assert forall|j: int| 0 <= j < fields.len() implies #[trigger] field_error_at(
            base,
            ident,
            fields,
            j,
        ) is None by {
            assert(is_named_path(fields[j].ty));
            assert(fields[j].name is Some);
            assert(!name_collides_at(base, ident, fields, j));
        }
    }
}

/// The names of both accessors of a supported field are among the accessor
/// names emitted for the fields.
proof fn lemma_supported_field_names_emitted(
    base: Seq<char>,
    ident: Seq<char>,
    fields: Seq<FieldModel>,
    k: int,
)
    requires
        0 <= k < fields.len(),
        classification_of(fields[k].ty) != Classification::Unsupported,
    ensures
        pair_names_of(accessors_of(base, ident, fields)).contains(
            getter_name_of(base, fields[k].name->0),
        ),
        pair_names_of(accessors_of(base, ident, fields)).contains(
            setter_name_of(base, fields[k].name->0),
        ),
    decreases fields.len(),
{
    let init = fields.drop_last();
    let last = fields.last();
    let before = accessors_of(base, ident, init);
    let names_init = pair_names_of(before);
    let after = accessors_of(base, ident, fields);
    let names = pair_names_of(after);
    if classification_of(last.ty) != Classification::Unsupported {
        let shape = match classification_of(last.ty) {
            Classification::Primitive(kind) => FieldShape::Primitive(kind),
            _ => FieldShape::Text,
        };
        let pair = pair_of(base, ident, last.name->0, shape);
        assert(after == before.push(pair));
        assert(after.drop_last() =~= before);
        assert(names == names_init.push(pair.getter.name).push(pair.setter.name));
    }
    if k == fields.len() - 1 {
        assert(names[names.len() - 2] == getter_name_of(base, fields[k].name->0));
        assert(names[names.len() - 1] == setter_name_of(base, fields[k].name->0));
    } else {
        assert(init[k] == fields[k]);
        lemma_supported_field_names_emitted(base, ident, init, k);
        let g = choose|g: int|
            0 <= g < names_init.len() && names_init[g] == getter_name_of(base, fields[k].name->0);
        let t = choose|t: int|
            0 <= t < names_init.len() && names_init[t] == setter_name_of(base, fields[k].name->0);
        assert(names[g] == names_init[g]);
        assert(names[t] == names_init[t]);
    }
}

/// Two supported fields collide at the later one when they have the same
/// name, or when the name of one is `set_` followed by the name of the
/// other: then the getter of the one has the name of the setter of the
/// other.
pub proof fn lemma_accessor_name_collides(
    base: Seq<char>,
    ident: Seq<char>,
    fields: Seq<FieldModel>,
    earlier: int,
    later: int,
)
    requires
        0 <= earlier < later < fields.len(),
        classification_of(fields[earlier].ty) != Classification::Unsupported,
        classification_of(fields[later].ty) != Classification::Unsupported,
        ({
            let a = fields[earlier].name->0;
            let b = fields[later].name->0;
            a == b || b == seq!['s', 'e', 't', '_'] + a || a == seq!['s', 'e', 't', '_'] + b
        }),
    ensures
        name_collides_at(base, ident, fields, later),
{
    let a = fields[earlier].name->0;
    let b = fields[later].name->0;
    let prefix = fields.subrange(0, later);
    let emitted = pair_names_of(accessors_of(base, ident, prefix));
    let taken = names_before(base, ident, fields, later);
    assert(prefix[earlier] == fields[earlier]);
    lemma_supported_field_names_emitted(base, ident, prefix, earlier);
    let g = choose|g: int| 0 <= g < emitted.len() && emitted[g] == getter_name_of(base, a);
    let t = choose|t: int| 0 <= t < emitted.len() && emitted[t] == setter_name_of(base, a);
    assert(taken[g + 2] == getter_name_of(base, a));
    assert(taken[t + 2] == setter_name_of(base, a));
    if b == seq!['s', 'e', 't', '_'] + a {
        assert(getter_name_of(base, b) =~= setter_name_of(base, a));
    } else if a == seq!['s', 'e', 't', '_'] + b {
        assert(setter_name_of(base, b) =~= getter_name_of(base, a));
    }
}

/// A supported field named `new` or `free` always collides: its getter has
/// the name of the constructor or of the destructor.
pub proof fn lemma_lifecycle_name_collides(
    base: Seq<char>,
    ident: Seq<char>,
    fields: Seq<FieldModel>,
    at: int,
)
    requires
        0 <= at < fields.len(),
        classification_of(fields[at].ty) != Classification::Unsupported,
        fields[at].name == Some(seq!['n', 'e', 'w']) || fields[at].name == Some(
            seq!['f', 'r', 'e', 'e'],
        ),
    ensures
        name_collides_at(base, ident, fields, at),
{
    let taken = names_before(base, ident, fields, at);
    let getter = getter_name_of(base, fields[at].name->0);
    if fields[at].name == Some(seq!['n', 'e', 'w']) {
        assert(getter =~= constructor_name_of(base));
        assert(taken[0] == getter);
    } else {
        assert(getter =~= destructor_name_of(base));
        assert(taken[1] == getter);
    }
}

} // verus!
