use crate::codec::{int_text, int_to_text};
use crate::schema::OperationType;
use vstd::prelude::*;

verus! {

/// Every way in which an operation on a setting can fail.
#[derive(Debug)]
pub enum SettingsError {
    /// The setting has no hook for this operation.
    OperationNotSupported { operation: OperationType },
    /// A value of one kind stood where the column wants another.
    SchemaTypeValidationError { column: String, expected_type: String, got_type: String },
    /// A value of the right kind failed a check of the column.
    SchemaCheckValidationError { column: String, check: String, accepted_range: String, error: String },
    /// A column that may not be null was left null by the validate pass.
    SchemaNullValueValidationError { column: String },
    /// A column that may not be null is null in the state about to be handed
    /// to a hook.
    MissingOrInvalidField { field: String, src: String },
    /// Anything else, such as a hook's own failure or a broken invariant.
    Generic { message: String, src: String, typ: String },
}

} // verus!

verus! {

/// `r` is a type error for column `col` that names the expected and the
/// given kind.
pub open spec fn type_error<T>(r: Result<T, SettingsError>, col: Seq<char>, expected: Seq<char>, got: Seq<char>) -> bool {
    r matches Err(SettingsError::SchemaTypeValidationError { column, expected_type, got_type })
        && column@ == col && expected_type@ == expected && got_type@ == got
}

/// `r` is a failed check `check` of column `col`, with `range` as what the
/// check accepts.
pub open spec fn check_error<T>(r: Result<T, SettingsError>, col: Seq<char>, check: Seq<char>, range: Seq<char>) -> bool {
    r matches Err(SettingsError::SchemaCheckValidationError { column, check: c, accepted_range, .. })
        && column@ == col && c@ == check && accepted_range@ == range
}

/// `r` is a failed check with its error text.
pub open spec fn check_error_text<T>(r: Result<T, SettingsError>, col: Seq<char>, check: Seq<char>, range: Seq<char>, text: Seq<char>) -> bool {
    check_error(r, col, check, range) && r->Err_0->SchemaCheckValidationError_error@ == text
}

/// The name under which errors report the element at `i` of column `col`:
/// `col[i]`.
pub open spec fn element_column(col: Seq<char>, i: int) -> Seq<char> {
    col + seq!['['] + int_text(i) + seq![']']
}

/// The name of the element at `i` of column `col`, for its errors.
pub fn element_name(col: &String, i: usize) -> (r: String)
    ensures
        r@ == element_column(col@, i as int),
{
    let mut s = col.clone();
    s.append("[");
    let n = int_to_text(i as i128);
    s.append(n.as_str());
    s.append("]");
    proof {
        reveal_strlit("[");
        reveal_strlit("]");
    }
    s
}

pub fn type_err<T>(col: &String, expected: &str, got: String) -> (r: Result<T, SettingsError>)
    ensures
        type_error(r, col@, expected@, got@),
{
    Err(SettingsError::SchemaTypeValidationError {
        column: col.clone(),
        expected_type: String::from_str(expected),
        got_type: got,
    })
}

pub fn check_err<T>(col: &String, check: &str, range: String, error: String) -> (r: Result<T, SettingsError>)
    ensures
        check_error(r, col@, check@, range@),
        r matches Err(SettingsError::SchemaCheckValidationError { error: e, .. }) && e@ == error@,
{
    Err(SettingsError::SchemaCheckValidationError {
        column: col.clone(),
        check: String::from_str(check),
        accepted_range: range,
        error,
    })
}

} // verus!
