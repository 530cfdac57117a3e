//! Reason bitmasks of journal records and the operation kind derived from them.

use vstd::prelude::*;

verus! {

/// The data of the file was overwritten.
pub const REASON_DATA_OVERWRITE: u32 = 0x0000_0001;

/// The file grew.
pub const REASON_DATA_EXTEND: u32 = 0x0000_0002;

/// The file or directory was created.
pub const REASON_FILE_CREATE: u32 = 0x0000_0100;

/// The file or directory was deleted.
pub const REASON_FILE_DELETE: u32 = 0x0000_0200;

/// The file or directory was renamed; the record carries the new name.
pub const REASON_RENAME_NEW_NAME: u32 = 0x0000_2000;

/// The mask that selects every reason in a read request.
pub const REASON_ALL: u32 = 0xFFFF_FFFF;

/// What happened to a file, as reported for one journal record.
#[derive(Clone, Copy, Debug, PartialEq, Eq, Structural)]
pub enum OperationKind {
    Create,
    Delete,
    Rename,
    Modify,
    Change,
}

/// The operation kind of a reason bitmask. Several bits may be set at once;
/// the first test that succeeds decides, in the order create, delete, rename,
/// modify (overwrite or extend), and `Change` is what is left.
pub open spec fn operation_of(reason: u32) -> OperationKind {
    if reason & REASON_FILE_CREATE != 0 {
        OperationKind::Create
    } else if reason & REASON_FILE_DELETE != 0 {
        OperationKind::Delete
    } else if reason & REASON_RENAME_NEW_NAME != 0 {
        OperationKind::Rename
    } else if reason & (REASON_DATA_OVERWRITE | REASON_DATA_EXTEND) != 0 {
        OperationKind::Modify
    } else {
        OperationKind::Change
    }
}

/// Classifies a reason bitmask.
pub fn classify_operation(reason: u32) -> (kind: OperationKind)
    ensures
        kind == operation_of(reason),
{
    if reason & REASON_FILE_CREATE != 0 {
        OperationKind::Create
    } else if reason & REASON_FILE_DELETE != 0 {
        OperationKind::Delete
    } else if reason & REASON_RENAME_NEW_NAME != 0 {
        OperationKind::Rename
    } else if reason & (REASON_DATA_OVERWRITE | REASON_DATA_EXTEND) != 0 {
        OperationKind::Modify
    } else {
        OperationKind::Change
    }
}

impl OperationKind {
    /// The word under which the kind is reported.
    pub open spec fn label_spec(self) -> Seq<char> {
        match self {
            OperationKind::Create => "CREATE"@,
            OperationKind::Delete => "DELETE"@,
            OperationKind::Rename => "RENAME"@,
            OperationKind::Modify => "MODIFY"@,
            OperationKind::Change => "CHANGE"@,
        }
    }

    /// The word under which the kind is reported.
    pub fn label(self) -> (word: &'static str)
        ensures
            word@ == self.label_spec(),
    {
        match self {
            OperationKind::Create => "CREATE",
            OperationKind::Delete => "DELETE",
            OperationKind::Rename => "RENAME",
            OperationKind::Modify => "MODIFY",
            OperationKind::Change => "CHANGE",
        }
    }
}

/// Whether `reason` has at least one of the bits of `flag`.
pub open spec fn has_reason(reason: u32, flag: u32) -> bool {
    reason & flag != 0
}

/// The operation kind is decided by five bits of the mask alone, tested in a
/// fixed order of precedence: create before delete before rename before
/// modify, and `Change` only where none of them is set.
pub proof fn lemma_operation_precedence(reason: u32)
    ensures
        has_reason(reason, REASON_FILE_CREATE) ==> operation_of(reason) == OperationKind::Create,
        !has_reason(reason, REASON_FILE_CREATE) && has_reason(reason, REASON_FILE_DELETE)
            ==> operation_of(reason) == OperationKind::Delete,
        !has_reason(reason, REASON_FILE_CREATE) && !has_reason(reason, REASON_FILE_DELETE)
            && has_reason(reason, REASON_RENAME_NEW_NAME) ==> operation_of(reason)
            == OperationKind::Rename,
        !has_reason(reason, REASON_FILE_CREATE) && !has_reason(reason, REASON_FILE_DELETE)
            && !has_reason(reason, REASON_RENAME_NEW_NAME) && (has_reason(
            reason,
            REASON_DATA_OVERWRITE,
        ) || has_reason(reason, REASON_DATA_EXTEND)) ==> operation_of(reason)
            == OperationKind::Modify,
        !has_reason(reason, REASON_FILE_CREATE) && !has_reason(reason, REASON_FILE_DELETE)
            && !has_reason(reason, REASON_RENAME_NEW_NAME) && !has_reason(
            reason,
            REASON_DATA_OVERWRITE,
        ) && !has_reason(reason, REASON_DATA_EXTEND) ==> operation_of(reason)
            == OperationKind::Change,
{
    assert((reason & (REASON_DATA_OVERWRITE | REASON_DATA_EXTEND) != 0) <==> (reason
        & REASON_DATA_OVERWRITE != 0 || reason & REASON_DATA_EXTEND != 0)) by (bit_vector);
}

/// Setting further bits never takes a record out of a kind that ranks above
/// them: a mask with the create bit is a creation whatever else it holds, and
/// a mask with the delete bit and without the create bit is a deletion.
pub proof fn lemma_higher_flag_wins(reason: u32, others: u32)
    ensures
        operation_of(reason | REASON_FILE_CREATE) == OperationKind::Create,
        operation_of(REASON_FILE_CREATE | REASON_FILE_DELETE | others) == OperationKind::Create,
        !has_reason(reason, REASON_FILE_CREATE) ==> operation_of(reason | REASON_FILE_DELETE)
            == OperationKind::Delete,
{
    assert((reason | REASON_FILE_CREATE) & REASON_FILE_CREATE != 0) by (bit_vector);
    assert((REASON_FILE_CREATE | REASON_FILE_DELETE | others) & REASON_FILE_CREATE != 0)
        by (bit_vector);
    assert(reason & REASON_FILE_CREATE == 0 ==> (reason | REASON_FILE_DELETE) & REASON_FILE_CREATE
        == 0 && (reason | REASON_FILE_DELETE) & REASON_FILE_DELETE != 0) by (bit_vector);
}

} // verus!
