use crate::state::FlagTable;
use vstd::prelude::*;

verus! {

/// The four operations on a setting.
#[derive(Clone, Copy, Debug, PartialEq, Eq, Structural)]
pub enum OperationType {
    View,
    Create,
    Update,
    Delete,
}

/// What a string column holds, with the checks that come with it.
#[derive(Debug)]
pub enum InnerColumnTypeStringKind {
    /// Any text.
    Normal,
    /// A secret token; an empty or absent one is replaced by a fresh random
    /// token of `default_length` characters.
    Token { default_length: usize },
    /// Any text, edited as several lines.
    Textarea,
    /// The name of a template stored for the tenant.
    TemplateRef,
    /// A custom permission string.
    KittycatPermission,
    /// The id of a user of the platform.
    User,
    /// The id of a role of the platform.
    Role,
    /// The id of a channel of the tenant, of one of the allowed kinds (any
    /// kind when the list is empty), in which the bot holds every permission
    /// bit of `needed_bot_permissions`.
    Channel { allowed_channel_types: Vec<u8>, needed_bot_permissions: u64 },
}

/// The kind of a single value in a column, with its constraints.
#[derive(Debug)]
pub enum InnerColumnType {
    Uuid,
    String {
        min_length: Option<usize>,
        max_length: Option<usize>,
        allowed_values: Vec<String>,
        kind: InnerColumnTypeStringKind,
    },
    Timestamp,
    TimestampTz,
    Interval,
    Integer,
    Float,
    /// An integer made of the bits named in `values`; the first entry is the
    /// default.
    BitFlag { values: FlagTable },
    Boolean,
    /// A JSON document of at most `max_bytes` bytes when that is set.
    Json { max_bytes: Option<usize> },
}

/// The shape of a column: one value or a list of values.
#[derive(Debug)]
pub enum ColumnType {
    Scalar { inner: InnerColumnType },
    Array { inner: InnerColumnType },
}

/// One typed field of a setting.
#[derive(Debug)]
pub struct Column {
    pub id: String,
    pub column_type: ColumnType,
    pub nullable: bool,
    /// A secret column is never shown by a view.
    pub secret: bool,
    /// The operations that leave this column out entirely.
    pub ignored_for: Vec<OperationType>,
}

/// Which of the four operations a setting has a hook for.
#[derive(Clone, Copy, Debug, PartialEq, Eq, Structural)]
pub struct SettingOperations {
    pub view: bool,
    pub create: bool,
    pub update: bool,
    pub delete: bool,
}

/// A named schema: its columns, its primary key and its operations.
#[derive(Debug)]
pub struct Setting {
    pub id: String,
    pub columns: Vec<Column>,
    pub primary_key: String,
    pub operations: SettingOperations,
}

impl SettingOperations {
    pub open spec fn supports(self, op: OperationType) -> bool {
        match op {
            OperationType::View => self.view,
            OperationType::Create => self.create,
            OperationType::Update => self.update,
            OperationType::Delete => self.delete,
        }
    }

    /// Whether the setting has a hook for `op`.
    pub fn has(&self, op: OperationType) -> (r: bool)
        ensures
            r == self.supports(op),
    {
        match op {
            OperationType::View => self.view,
            OperationType::Create => self.create,
            OperationType::Update => self.update,
            OperationType::Delete => self.delete,
        }
    }
}

impl Column {
    pub open spec fn is_ignored_for(&self, op: OperationType) -> bool {
        self.ignored_for@.contains(op)
    }

    /// Whether `op` leaves this column out.
    pub fn ignored(&self, op: OperationType) -> (r: bool)
        ensures
            r == self.is_ignored_for(op),
    {
        let mut i: usize = 0;
        while i < self.ignored_for.len()
            invariant
                i <= self.ignored_for.len(),
                forall|j: int| 0 <= j < i ==> self.ignored_for@[j] != op,
            decreases self.ignored_for.len() - i,
        {
            if self.ignored_for[i] == op {
                return true;
            }
            i = i + 1;
        }
        false
    }
}

} // verus!

verus! {

impl Setting {
    /// Each column id names one column.
    pub open spec fn wf(&self) -> bool {
        forall|i: int, j: int|
            0 <= i < j < self.columns@.len() ==> (#[trigger] self.columns@[i]).id@ != (#[trigger] self.columns@[j]).id@
    }

    /// Whether `k` is the id of a column.
    pub open spec fn is_column_id(&self, k: Seq<char>) -> bool {
        exists|i: int| 0 <= i < self.columns@.len() && (#[trigger] self.columns@[i]).id@ == k
    }
}

} // verus!

verus! {

impl Setting {
    /// Whether each column id names one column, which the operations need.
    pub fn has_distinct_column_ids(&self) -> (r: bool)
        ensures
            r == self.wf(),
    {
        let cols = &self.columns;
        let mut j: usize = 0;
        while j < cols.len()
            invariant
                cols == &self.columns,
                j <= cols@.len(),
                forall|a: int, b: int| 0 <= a < b < j ==> (#[trigger] cols@[a]).id@ != (#[trigger] cols@[b]).id@,
            decreases cols@.len() - j,
        {
            let mut i: usize = 0;
            while i < j
                invariant
                    cols == &self.columns,
                    i <= j < cols@.len(),
                    forall|a: int| 0 <= a < i ==> (#[trigger] cols@[a]).id@ != cols@[j as int].id@,
                decreases j - i,
            {
                if cols[i].id == cols[j].id {
                    return false;
                }
                i = i + 1;
            }
            j = j + 1;
        }
        true
    }
}

} // verus!
