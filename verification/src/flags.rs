//! The model of a command line: fields, each with the flag that it
//! contributes, and the flags of a sequence of fields.

use vstd::prelude::*;

verus! {

/// One field of a record of options, as the command line sees it.
pub enum Field {
    /// A boolean field, which contributes its bare name where it is true.
    Switch { name: Seq<char>, on: bool },
    /// A field with a value, which contributes `name=value` where the value
    /// is present.
    Valued { name: Seq<char>, value: Option<Seq<char>> },
}

impl Field {
    /// The name of the flag, dashes included.
    pub open spec fn name(self) -> Seq<char> {
        match self {
            Field::Switch { name, .. } => name,
            Field::Valued { name, .. } => name,
        }
    }

    /// Whether the field contributes a flag.
    pub open spec fn present(self) -> bool {
        match self {
            Field::Switch { on, .. } => on,
            Field::Valued { value, .. } => value is Some,
        }
    }

    /// The flag that the field contributes, if any.
    pub open spec fn flag(self) -> Option<Seq<char>> {
        match self {
            Field::Switch { name, on } => if on {
                Some(name)
            } else {
                None
            },
            Field::Valued { name, value } => match value {
                Some(v) => Some(name + seq!['='] + v),
                None => None,
            },
        }
    }

    /// The flag of the field as a sequence of at most one flag.
    pub open spec fn rendered(self) -> Seq<Seq<char>> {
        match self.flag() {
            Some(flag) => seq![flag],
            None => Seq::empty(),
        }
    }
}

/// The flags of the fields that are present, in the order of the fields.
pub open spec fn render(fields: Seq<Field>) -> Seq<Seq<char>> {
    fields.filter_map(|f: Field| f.flag())
}

/// How many of the fields are present.
pub open spec fn count_present(fields: Seq<Field>) -> nat {
    fields.filter(|f: Field| f.present()).len()
}

/// Rendering one field more appends what that field contributes.
pub proof fn lemma_render_next(fields: Seq<Field>, k: int)
    requires
        0 <= k < fields.len(),
    ensures
        render(fields.take(k + 1)) == render(fields.take(k)) + fields[k].rendered(),
{
    fields.lemma_filter_map_take_succ(|f: Field| f.flag(), k);
}

/// There are as many flags as there are fields that are present.
pub proof fn lemma_render_len(fields: Seq<Field>)
    ensures
        render(fields).len() == count_present(fields),
    decreases fields.len(),
{
    reveal(Seq::filter);
    if fields.len() > 0 {
        lemma_render_len(fields.drop_last());
    }
}

/// The flag of a field that is present stands behind the flags of the
/// present fields before it: its place is their number.
pub proof fn lemma_render_place(fields: Seq<Field>, k: int)
    requires
        0 <= k < fields.len(),
        fields[k].present(),
    ensures
        count_present(fields.take(k)) < render(fields).len(),
        render(fields)[count_present(fields.take(k)) as int] == fields[k].flag()->0,
    decreases fields.len(),
{
    let front = fields.drop_last();
    if k == fields.len() - 1 {
        assert(fields.take(k) =~= front);
        lemma_render_len(front);
    } else {
        assert(front.take(k) =~= fields.take(k));
        lemma_render_place(front, k);
    }
}

/// Every flag comes from a field that is present: the field whose place
/// the flag stands at, which is returned.
pub proof fn lemma_render_origin(fields: Seq<Field>, i: int) -> (k: int)
    requires
        0 <= i < render(fields).len(),
    ensures
        0 <= k < fields.len(),
        fields[k].present(),
        count_present(fields.take(k)) == i,
        render(fields)[i] == fields[k].flag()->0,
    decreases fields.len(),
{
    let front = fields.drop_last();
    if i < render(front).len() {
        let k = lemma_render_origin(front, i);
        assert(front.take(k) =~= fields.take(k));
        k
    } else {
        let k = fields.len() - 1;
        assert(fields.take(k) =~= front);
        lemma_render_len(front);
        k
    }
}

/// Flags keep the order of their fields: of two fields that are present,
/// the earlier one has the earlier place.
pub proof fn lemma_render_order(fields: Seq<Field>, j: int, k: int)
    requires
        0 <= j < k <= fields.len(),
        fields[j].present(),
    ensures
        count_present(fields.take(j)) < count_present(fields.take(k)),
    decreases k,
{
    reveal(Seq::filter);
    assert(fields.take(k).drop_last() =~= fields.take(k - 1));
    if j < k - 1 {
        lemma_render_order(fields, j, k - 1);
    }
}

/// A name that holds neither `=` nor a blank.
pub open spec fn plain(name: Seq<char>) -> bool {
    forall|i: int| 0 <= i < name.len() ==> name[i] != '=' && name[i] != ' '
}

/// `flag` reads `name=value` with nothing between the three parts: the name
/// comes first, the character behind it is the first `=` of the flag, and
/// the value is all that follows.
pub open spec fn assigns(flag: Seq<char>, name: Seq<char>, value: Seq<char>) -> bool {
    &&& plain(name)
    &&& flag.len() == name.len() + 1 + value.len()
    &&& flag.take(name.len() as int) == name
    &&& flag[name.len() as int] == '='
    &&& flag.skip(name.len() as int + 1) == value
}

/// The shape that the flag of a field has: a switch contributes its bare
/// name, in which neither `=` nor a blank occurs, and a field with a value
/// contributes `name=value`.
pub open spec fn well_shaped(f: Field) -> bool {
    match f {
        Field::Switch { name, .. } => f.flag() == Some(name) && plain(name),
        Field::Valued { name, value } => value is Some && assigns(f.flag()->0, name, value->0),
    }
}

/// A field that is present and has a plain name contributes a flag of the
/// right shape.
pub proof fn lemma_flag_shape(f: Field)
    requires
        plain(f.name()),
        f.present(),
    ensures
        well_shaped(f),
{
    match f {
        Field::Switch { name, .. } => {},
        Field::Valued { name, value } => {
            let flag = f.flag()->0;
            assert(flag.take(name.len() as int) =~= name);
            assert(flag.skip(name.len() as int + 1) =~= value->0);
        },
    }
}

} // verus!
