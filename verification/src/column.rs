//! The column differ: the atomic change set computed for one matched column
//! pair, and the flavour-classified type change that goes with it.

use vstd::prelude::*;
use crate::flavour::{classify_cast, classify_cast_spec, names_equiv, ColumnTypeChange, Flavour};
use crate::schema::{
    column_defaults_equal, families_equal, family_eq, opt_default_eq, opt_string_eq,
    opt_string_eq_spec, string_eq, Column,
};
use crate::steps::ColumnChanges;

verus! {

/// Whether two columns of a matched table pair stand for the same column,
/// under the flavour's column-name equivalence.
pub open spec fn columns_match(f: Flavour, previous: Column, next: Column) -> bool {
    names_equiv(f.column_names_case_insensitive, previous.name@, next.name@)
}

/// The change set of a matched column pair: which of the column's underlying
/// fields differ between the two snapshots.
pub open spec fn column_changes_spec(previous: Column, next: Column) -> ColumnChanges {
    ColumnChanges {
        renamed: previous.name@ != next.name@,
        arity_changed: previous.tpe.arity != next.tpe.arity,
        default_changed: !opt_default_eq(previous.default, next.default),
        type_changed: !family_eq(previous.tpe.family, next.tpe.family) || !opt_string_eq_spec(
            previous.tpe.native,
            next.tpe.native,
        ),
    }
}

/// The flavour's classification of the column pair's type change, present
/// exactly when the type differs.
pub open spec fn column_type_change_spec(f: Flavour, previous: Column, next: Column) -> Option<
    ColumnTypeChange,
> {
    if column_changes_spec(previous, next).type_changed {
        Option::Some(classify_cast_spec(f.cast_policy, previous.tpe.family, next.tpe.family))
    } else {
        Option::None
    }
}

/// Compute the change set and the classified type change of a column pair.
pub fn all_changes(f: &Flavour, previous: &Column, next: &Column) -> (r: (
    ColumnChanges,
    Option<ColumnTypeChange>,
))
    ensures
        r.0 == column_changes_spec(*previous, *next),
        r.1 == column_type_change_spec(*f, *previous, *next),
{
    let renamed = !string_eq(&previous.name, &next.name);
    let arity_changed = previous.tpe.arity != next.tpe.arity;
    let default_changed = !column_defaults_equal(&previous.default, &next.default);
    let type_changed = !families_equal(&previous.tpe.family, &next.tpe.family) || !opt_string_eq(
        &previous.tpe.native,
        &next.tpe.native,
    );
    let changes = ColumnChanges { renamed, arity_changed, default_changed, type_changed };
    let type_change = if type_changed {
        Option::Some(classify_cast(f, &previous.tpe.family, &next.tpe.family))
    } else {
        Option::None
    };
    (changes, type_change)
}

} // verus!
