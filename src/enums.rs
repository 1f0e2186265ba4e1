use vstd::prelude::*;

verus! {

/// Capability that a grant gives a user on one task.
///
/// The levels are unordered: holding one does not imply holding another.
#[derive(Clone, Copy, Debug, PartialEq, Eq, Structural)]
pub enum AccessLevelEnum {
    View,
    AddSolution,
    Edit,
    AddUser,
    FullAccess,
}

/// Who may see a task.
#[derive(Clone, Copy, Debug, PartialEq, Eq, Structural)]
pub enum TaskVisibilityEnum {
    Private,
    Public,
    Paid,
}

/// Kind of an attachment; only `File` carries uploaded bytes.
#[derive(Clone, Copy, Debug, PartialEq, Eq, Structural)]
pub enum AttachmentTypeEnum {
    Description,
    DueDate,
    File,
    Url,
    Text,
    Tip,
    Hint,
    Warning,
    Progress,
    Importance,
}

/// Visible to callers that are not granted anything on the task.
pub open spec fn is_listed(v: TaskVisibilityEnum) -> bool {
    v == TaskVisibilityEnum::Public || v == TaskVisibilityEnum::Paid
}

/// Whether `level` is one of `levels` (plain membership, no ranking).
pub fn level_in(levels: &[AccessLevelEnum], level: AccessLevelEnum) -> (r: bool)
    ensures
        r == levels@.contains(level),
{
    let mut i: usize = 0;
    while i < levels.len()
        invariant
            0 <= i <= levels@.len(),
            forall|j: int| 0 <= j < i ==> levels@[j] != level,
        decreases levels@.len() - i,
    {
        if levels[i] == level {
            return true;
        }
        i += 1;
    }
    false
}

/// Whether anyone may list the task without holding a grant on it.
pub fn is_public_or_paid(v: TaskVisibilityEnum) -> (r: bool)
    ensures
        r == is_listed(v),
{
    match v {
        TaskVisibilityEnum::Public => true,
        TaskVisibilityEnum::Paid => true,
        TaskVisibilityEnum::Private => false,
    }
}

/// Whether an attachment of this kind must carry uploaded bytes.
pub fn carries_file(t: AttachmentTypeEnum) -> (r: bool)
    ensures
        r == (t == AttachmentTypeEnum::File),
{
    match t {
        AttachmentTypeEnum::File => true,
        _ => false,
    }
}

} // verus!
