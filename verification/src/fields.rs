//! Field schema model: field types, their type-specific options, field
//! definition records, and the decision logic of field-definition
//! create/update/delete/reorder operations.

use vstd::prelude::*;
use crate::errors::AppError;
use crate::text::i64_dec_spec;
use crate::text::i32_to_string;
use crate::text::trim_spec;
use crate::text::trim_str;
use crate::text::str_eq_str;

verus! {

/// Supported field types.
#[derive(Clone, Copy, Debug, PartialEq, Eq, Structural)]
pub enum FieldType {
    Text,
    Number,
    Date,
    Url,
    Boolean,
    Select,
    Relation,
}

/// The canonical lower-case name of a field type.
pub open spec fn field_type_name(t: FieldType) -> Seq<char> {
    match t {
        FieldType::Text => "text"@,
        FieldType::Number => "number"@,
        FieldType::Date => "date"@,
        FieldType::Url => "url"@,
        FieldType::Boolean => "boolean"@,
        FieldType::Select => "select"@,
        FieldType::Relation => "relation"@,
    }
}

/// The field type named by a string, if any.
pub open spec fn field_type_from_spec(s: Seq<char>) -> Option<FieldType> {
    if s == "text"@ {
        Some(FieldType::Text)
    } else if s == "number"@ {
        Some(FieldType::Number)
    } else if s == "date"@ {
        Some(FieldType::Date)
    } else if s == "url"@ {
        Some(FieldType::Url)
    } else if s == "boolean"@ {
        Some(FieldType::Boolean)
    } else if s == "select"@ {
        Some(FieldType::Select)
    } else if s == "relation"@ {
        Some(FieldType::Relation)
    } else {
        None
    }
}

impl FieldType {
    /// The canonical lower-case name of this field type.
    pub fn as_str(&self) -> (r: &'static str)
        ensures
            r@ == field_type_name(*self),
    {
        match self {
            FieldType::Text => "text",
            FieldType::Number => "number",
            FieldType::Date => "date",
            FieldType::Url => "url",
            FieldType::Boolean => "boolean",
            FieldType::Select => "select",
            FieldType::Relation => "relation",
        }
    }

    /// Parses the canonical name of a field type.
    pub fn from_str(s: &str) -> (r: Option<FieldType>)
        ensures
            r == field_type_from_spec(s@),
    {
        if str_eq_str(s, "text") {
            Some(FieldType::Text)
        } else if str_eq_str(s, "number") {
            Some(FieldType::Number)
        } else if str_eq_str(s, "date") {
            Some(FieldType::Date)
        } else if str_eq_str(s, "url") {
            Some(FieldType::Url)
        } else if str_eq_str(s, "boolean") {
            Some(FieldType::Boolean)
        } else if str_eq_str(s, "select") {
            Some(FieldType::Select)
        } else if str_eq_str(s, "relation") {
            Some(FieldType::Relation)
        } else {
            None
        }
    }
}

/// Options for field types (type-specific configuration). Numeric bounds are
/// whole numbers; range checks on metadata values are enforced against
/// integer-valued numbers.
pub struct FieldOptions {
    /// Maximum length in characters for text fields.
    pub max_length: Option<i32>,
    /// Minimum value for number fields (inclusive).
    pub min: Option<i64>,
    /// Maximum value for number fields (inclusive).
    pub max: Option<i64>,
    /// Available choices for select fields.
    pub choices: Option<Vec<String>>,
    /// Target vault id for relation fields.
    pub target_vault_id: Option<i32>,
    /// Display fields from the target entry for relation fields.
    pub display_fields: Option<Vec<String>>,
}

impl Default for FieldOptions {
    /// Options with nothing configured.
    fn default() -> (r: FieldOptions)
        ensures
            r.max_length is None,
            r.min is None,
            r.max is None,
            r.choices is None,
            r.target_vault_id is None,
            r.display_fields is None,
    {
        FieldOptions {
            max_length: None,
            min: None,
            max: None,
            choices: None,
            target_vault_id: None,
            display_fields: None,
        }
    }
}

/// A new field definition to create.
pub struct CreateFieldDto {
    pub vault_id: i32,
    pub name: String,
    pub field_type: FieldType,
    pub options: Option<FieldOptions>,
    pub required: bool,
}

/// A partial update of an existing field definition: only present members
/// are changed.
pub struct UpdateFieldDto {
    pub name: Option<String>,
    pub options: Option<FieldOptions>,
    pub required: Option<bool>,
}

/// A field definition record.
pub struct FieldDefinitionDto {
    pub id: i32,
    pub vault_id: i32,
    pub name: String,
    pub field_type: FieldType,
    pub options: Option<FieldOptions>,
    pub position: i32,
    pub required: bool,
    pub created_at: String,
    pub updated_at: String,
}

/// The column values of a field definition about to be inserted; the store
/// assigns the identity.
pub struct NewFieldRow {
    pub vault_id: i32,
    pub name: String,
    pub field_type: FieldType,
    pub options: Option<FieldOptions>,
    pub position: i32,
    pub required: bool,
    pub created_at: String,
    pub updated_at: String,
}

/// True when some field definition in the sequence bears the given name.
pub open spec fn has_field_named(fields: Seq<FieldDefinitionDto>, name: Seq<char>) -> bool {
    exists|i: int| 0 <= i < fields.len() && #[trigger] fields[i].name@ == name
}

/// The greatest position among the given field definitions.
pub open spec fn max_position(fields: Seq<FieldDefinitionDto>) -> int
    recommends
        fields.len() > 0,
    decreases fields.len(),
{
    if fields.len() <= 1 {
        if fields.len() == 0 {
            0
        } else {
            fields[0].position as int
        }
    } else {
        let rest = max_position(fields.drop_last());
        if fields.last().position as int > rest {
            fields.last().position as int
        } else {
            rest
        }
    }
}

/// The display position a newly created field receives: one past the
/// greatest existing position, or zero in an empty vault.
pub open spec fn next_position(fields: Seq<FieldDefinitionDto>) -> int {
    if fields.len() == 0 {
        0
    } else {
        max_position(fields) + 1
    }
}

/// The message reported when a field name is already taken in its vault.
pub open spec fn duplicate_field_message(name: Seq<char>) -> Seq<char> {
    "Field '"@ + name + "' already exists in this vault"@
}

/// The message reported when a field is reordered into a foreign vault.
pub open spec fn foreign_field_message(id: int, vault_id: int) -> Seq<char> {
    "Field "@ + i64_dec_spec(id) + " does not belong to vault "@ + i64_dec_spec(vault_id)
}

fn duplicate_field_string(name: &str) -> (r: String)
    ensures
        r@ == duplicate_field_message(name@),
{
    let mut m = String::from_str("Field '");
    m.append(name);
    m.append("' already exists in this vault");
    m
}

/// Service holding the decision logic of field-definition operations; the
/// caller performs the store reads and writes around it.
pub struct FieldService;

impl FieldService {
    /// Decides a field-definition creation: validates the name, the owning
    /// vault, and name uniqueness against the vault's existing field
    /// definitions, and assigns the next display position.
    #[verifier::loop_isolation(false)]
    pub fn create(
        vault_exists: bool,
        existing: &Vec<FieldDefinitionDto>,
        dto: CreateFieldDto,
        now: String,
    ) -> (r: Result<NewFieldRow, AppError>)
        requires
            forall|i: int| 0 <= i < existing@.len() ==> #[trigger] existing@[i].position < i32::MAX,
        ensures
            ({
                let trimmed = trim_spec(dto.name@);
                if trimmed.len() == 0 {
                    r matches Err(AppError::Validation(m)) && m@ == "Field name is required"@
                } else if !vault_exists {
                    r matches Err(AppError::VaultNotFound(v)) && v == dto.vault_id
                } else if has_field_named(existing@, trimmed) {
                    r matches Err(AppError::Validation(m)) && m@ == duplicate_field_message(
                        trimmed,
                    )
                } else {
                    r matches Ok(row) && row.vault_id == dto.vault_id && row.name@ == trimmed
                        && row.field_type == dto.field_type && row.options == dto.options
                        && row.position == next_position(existing@) && row.required == dto.required
                        && row.created_at@ == now@ && row.updated_at@ == now@
                }
            }),
    {
        let trimmed = trim_str(dto.name.as_str());
        if trimmed.unicode_len() == 0 {
            return Err(AppError::Validation(String::from_str("Field name is required")));
        }
        if !vault_exists {
            return Err(AppError::VaultNotFound(dto.vault_id));
        }
        let n = existing.len();
        let mut i: usize = 0;
        while i < n
            invariant
                0 <= i <= n,
                n == existing@.len(),
                forall|j: int| 0 <= j < i ==> #[trigger] existing@[j].name@ != trimmed@,
            decreases n - i,
        {
            if str_eq_str(existing[i].name.as_str(), trimmed.as_str()) {
                return Err(AppError::Validation(duplicate_field_string(trimmed.as_str())));
            }
            i = i + 1;
        }
        let mut position: i32 = 0;
        if n > 0 {
            let mut best: i32 = existing[0].position;
            let mut k: usize = 1;
            while k < n
                invariant
                    1 <= k <= n,
                    n == existing@.len(),
                    n > 0,
                    best < i32::MAX,
                    best == max_position(existing@.subrange(0, k as int)),
                    forall|j: int| 0 <= j < n ==> #[trigger] existing@[j].position < i32::MAX,
                decreases n - k,
            {
                proof {
                    assert(existing@.subrange(0, k + 1).drop_last() =~= existing@.subrange(
                        0,
                        k as int,
                    ));
                }
                if existing[k].position > best {
                    best = existing[k].position;
                }
                k = k + 1;
            }
            proof {
                assert(existing@.subrange(0, n as int) =~= existing@);
            }
            position = best + 1;
        }
        Ok(
            NewFieldRow {
                vault_id: dto.vault_id,
                name: trimmed,
                field_type: dto.field_type,
                options: dto.options,
                position,
                required: dto.required,
                created_at: now.clone(),
                updated_at: now,
            },
        )
    }

    /// Decides whether a field definition can be fetched: a missing record
    /// is a `FieldNotFound` error.
    pub fn get(id: i32, field: Option<FieldDefinitionDto>) -> (r: Result<
        FieldDefinitionDto,
        AppError,
    >)
        ensures
            match field {
                Some(f) => r matches Ok(g) && g == f,
                None => r matches Err(AppError::FieldNotFound(v)) && v == id,
            },
    {
        match field {
            Some(f) => Ok(f),
            None => Err(AppError::FieldNotFound(id)),
        }
    }

    /// Decides a field-definition update: validates a replacement name
    /// against the vault's other field definitions, and applies only the
    /// members present in the partial update.
    #[verifier::loop_isolation(false)]
    pub fn update(
        id: i32,
        field: Option<FieldDefinitionDto>,
        others: &Vec<FieldDefinitionDto>,
        dto: UpdateFieldDto,
        now: String,
    ) -> (r: Result<FieldDefinitionDto, AppError>)
        ensures
            ({
                match field {
                    None => r matches Err(AppError::FieldNotFound(v)) && v == id,
                    Some(f) => {
                        let renamed = dto.name is Some;
                        let trimmed = trim_spec(dto.name->Some_0@);
                        if renamed && trimmed.len() == 0 {
                            r matches Err(AppError::Validation(m)) && m@
                                == "Field name cannot be empty"@
                        } else if renamed && has_field_named(others@, trimmed) {
                            r matches Err(AppError::Validation(m)) && m@
                                == duplicate_field_message(trimmed)
                        } else {
                            r matches Ok(g) && g.id == f.id && g.vault_id == f.vault_id && g.name@
                                == (if renamed {
                                trimmed
                            } else {
                                f.name@
                            }) && g.field_type == f.field_type && g.options == (match dto.options {
                                Some(o) => Some(o),
                                None => f.options,
                            }) && g.position == f.position && g.required == (match dto.required {
                                Some(q) => q,
                                None => f.required,
                            }) && g.created_at@ == f.created_at@ && g.updated_at@ == now@
                        }
                    },
                }
            }),
    {
        let mut f = match field {
            Some(f) => f,
            None => {
                return Err(AppError::FieldNotFound(id));
            },
        };
        if let Some(name) = dto.name {
            let trimmed = trim_str(name.as_str());
            if trimmed.unicode_len() == 0 {
                return Err(AppError::Validation(String::from_str("Field name cannot be empty")));
            }
            let n = others.len();
            let mut i: usize = 0;
            while i < n
                invariant
                    0 <= i <= n,
                    n == others@.len(),
                    forall|j: int| 0 <= j < i ==> #[trigger] others@[j].name@ != trimmed@,
                decreases n - i,
            {
                if str_eq_str(others[i].name.as_str(), trimmed.as_str()) {
                    return Err(AppError::Validation(duplicate_field_string(trimmed.as_str())));
                }
                i = i + 1;
            }
            f.name = trimmed;
        }
        if let Some(options) = dto.options {
            f.options = Some(options);
        }
        if let Some(required) = dto.required {
            f.required = required;
        }
        f.updated_at = now;
        Ok(f)
    }

    /// Decides a field-definition deletion: a missing record is a
    /// `FieldNotFound` error.
    pub fn delete(id: i32, field: Option<&FieldDefinitionDto>) -> (r: Result<(), AppError>)
        ensures
            match field {
                Some(_) => r is Ok,
                None => r matches Err(AppError::FieldNotFound(v)) && v == id,
            },
    {
        match field {
            Some(_) => Ok(()),
            None => Err(AppError::FieldNotFound(id)),
        }
    }

    /// Decides a reorder of a vault's field definitions. `fetched` holds the
    /// looked-up record for each id of `ids`, in the same order. On success
    /// the result assigns each id its new zero-based position.
    #[verifier::loop_isolation(false)]
    pub fn reorder(
        vault_exists: bool,
        vault_id: i32,
        ids: &Vec<i32>,
        fetched: &Vec<Option<FieldDefinitionDto>>,
    ) -> (r: Result<Vec<(i32, i32)>, AppError>)
        requires
            ids@.len() == fetched@.len(),
            ids@.len() <= i32::MAX,
        ensures
            !vault_exists ==> (r matches Err(AppError::VaultNotFound(v)) && v == vault_id),
            vault_exists ==> match r {
                Ok(assigns) => {
                    &&& forall|k: int|
                        0 <= k < ids@.len() ==> reorder_ok_at(vault_id, fetched@, k)
                    &&& assigns@.len() == ids@.len()
                    &&& forall|k: int|
                        0 <= k < ids@.len() ==> #[trigger] assigns@[k] == (ids@[k], k as i32)
                },
                Err(e) => exists|k: int|
                    {
                        &&& 0 <= k < ids@.len()
                        &&& !#[trigger] reorder_ok_at(vault_id, fetched@, k)
                        &&& forall|j: int| 0 <= j < k ==> reorder_ok_at(vault_id, fetched@, j)
                        &&& if fetched@[k] is None {
                            e matches AppError::FieldNotFound(v) && v == ids@[k]
                        } else {
                            e matches AppError::Validation(m) && m@ == foreign_field_message(
                                ids@[k] as int,
                                vault_id as int,
                            )
                        }
                    },
            },
    {
        if !vault_exists {
            return Err(AppError::VaultNotFound(vault_id));
        }
        let n = ids.len();
        let mut assigns: Vec<(i32, i32)> = Vec::new();
        let mut k: usize = 0;
        while k < n
            invariant
                0 <= k <= n,
                n == ids@.len(),
                n == fetched@.len(),
                n <= i32::MAX,
                assigns@.len() == k,
                forall|j: int| 0 <= j < k ==> reorder_ok_at(vault_id, fetched@, j),
                forall|j: int| 0 <= j < k ==> #[trigger] assigns@[j] == (ids@[j], j as i32),
            decreases n - k,
        {
            match &fetched[k] {
                None => {
                    proof {
                        assert(!reorder_ok_at(vault_id, fetched@, k as int));
                    }
                    return Err(AppError::FieldNotFound(ids[k]));
                },
                Some(f) => {
                    if f.vault_id != vault_id {
                        proof {
                            assert(!reorder_ok_at(vault_id, fetched@, k as int));
                        }
                        let mut m = String::from_str("Field ");
                        let t = i32_to_string(ids[k]);
                        m.append(t.as_str());
                        m.append(" does not belong to vault ");
                        let v = i32_to_string(vault_id);
                        m.append(v.as_str());
                        return Err(AppError::Validation(m));
                    }
                },
            }
            assigns.push((ids[k], k as i32));
            k = k + 1;
        }
        Ok(assigns)
    }
}

/// True when the `k`-th looked-up record exists and belongs to the vault.
pub open spec fn reorder_ok_at(
    vault_id: i32,
    fetched: Seq<Option<FieldDefinitionDto>>,
    k: int,
) -> bool {
    fetched[k] is Some && fetched[k]->Some_0.vault_id == vault_id
}

} // verus!
