//! Vault records and the decision logic of vault create/read/update/delete;
//! the caller performs the store reads and writes around it.

use vstd::prelude::*;
use crate::errors::AppError;
use crate::text::trim_spec;
use crate::text::trim_str;

verus! {

/// A new vault to create.
pub struct CreateVaultDto {
    pub name: String,
    pub description: Option<String>,
    pub icon: Option<String>,
    pub color: Option<String>,
}

/// A partial update of an existing vault: only present members are changed.
pub struct UpdateVaultDto {
    pub name: Option<String>,
    pub description: Option<String>,
    pub icon: Option<String>,
    pub color: Option<String>,
}

/// A vault record.
pub struct VaultDto {
    pub id: i32,
    pub name: String,
    pub description: Option<String>,
    pub icon: Option<String>,
    pub color: Option<String>,
    pub created_at: String,
    pub updated_at: String,
}

/// The column values of a vault about to be inserted; the store assigns the
/// identity.
pub struct NewVaultRow {
    pub name: String,
    pub description: Option<String>,
    pub icon: Option<String>,
    pub color: Option<String>,
    pub created_at: String,
    pub updated_at: String,
}

/// Service holding the decision logic of vault operations; the caller
/// performs the store reads and writes around it.
pub struct VaultService;

impl VaultService {
    /// Decides a vault creation: the name must be non-empty after trimming;
    /// the stored name is the trimmed one.
    pub fn create(dto: CreateVaultDto, now: String) -> (r: Result<NewVaultRow, AppError>)
        ensures
            ({
                let trimmed = trim_spec(dto.name@);
                if trimmed.len() == 0 {
                    r matches Err(AppError::Validation(m)) && m@ == "Name is required"@
                } else {
                    r matches Ok(row) && row.name@ == trimmed && row.description
                        == dto.description && row.icon == dto.icon && row.color == dto.color
                        && row.created_at@ == now@ && row.updated_at@ == now@
                }
            }),
    {
        let trimmed = trim_str(dto.name.as_str());
        if trimmed.unicode_len() == 0 {
            return Err(AppError::Validation(String::from_str("Name is required")));
        }
        Ok(
            NewVaultRow {
                name: trimmed,
                description: dto.description,
                icon: dto.icon,
                color: dto.color,
                created_at: now.clone(),
                updated_at: now,
            },
        )
    }

    /// Decides whether a vault can be fetched: a missing record is a
    /// `VaultNotFound` error.
    pub fn get(id: i32, vault: Option<VaultDto>) -> (r: Result<VaultDto, AppError>)
        ensures
            match vault {
                Some(v) => r matches Ok(g) && g == v,
                None => r matches Err(AppError::VaultNotFound(w)) && w == id,
            },
    {
        match vault {
            Some(v) => Ok(v),
            None => Err(AppError::VaultNotFound(id)),
        }
    }

    /// Decides a vault update: a replacement name must be non-empty after
    /// trimming; only the members present in the partial update change, and
    /// the update timestamp is refreshed.
    pub fn update(id: i32, vault: Option<VaultDto>, dto: UpdateVaultDto, now: String) -> (r:
        Result<VaultDto, AppError>)
        ensures
            ({
                match vault {
                    None => r matches Err(AppError::VaultNotFound(w)) && w == id,
                    Some(v) => {
                        let renamed = dto.name is Some;
                        let trimmed = trim_spec(dto.name->Some_0@);
                        if renamed && trimmed.len() == 0 {
                            r matches Err(AppError::Validation(m)) && m@ == "Name cannot be empty"@
                        } else {
                            r matches Ok(g) && g.id == v.id && g.name@ == (if renamed {
                                trimmed
                            } else {
                                v.name@
                            }) && g.description == (match dto.description {
                                Some(d) => Some(d),
                                None => v.description,
                            }) && g.icon == (match dto.icon {
                                Some(d) => Some(d),
                                None => v.icon,
                            }) && g.color == (match dto.color {
                                Some(d) => Some(d),
                                None => v.color,
                            }) && g.created_at@ == v.created_at@ && g.updated_at@ == now@
                        }
                    },
                }
            }),
    {
        let mut v = match vault {
            Some(v) => v,
            None => {
                return Err(AppError::VaultNotFound(id));
            },
        };
        if let Some(name) = dto.name {
            let trimmed = trim_str(name.as_str());
            if trimmed.unicode_len() == 0 {
                return Err(AppError::Validation(String::from_str("Name cannot be empty")));
            }
            v.name = trimmed;
        }
        if let Some(description) = dto.description {
            v.description = Some(description);
        }
        if let Some(icon) = dto.icon {
            v.icon = Some(icon);
        }
        if let Some(color) = dto.color {
            v.color = Some(color);
        }
        v.updated_at = now;
        Ok(v)
    }

    /// Decides a vault deletion: a missing record is a `VaultNotFound`
    /// error. Deleting a vault cascades at the store to its entries and
    /// field definitions.
    pub fn delete(id: i32, vault: Option<&VaultDto>) -> (r: Result<(), AppError>)
        ensures
            match vault {
                Some(_) => r is Ok,
                None => r matches Err(AppError::VaultNotFound(w)) && w == id,
            },
    {
        match vault {
            Some(_) => Ok(()),
            None => Err(AppError::VaultNotFound(id)),
        }
    }
}

} // verus!
