//! Entry records and the decision logic of entry create/read/update/delete
//! and listing; the caller performs the store reads and writes around it.

use vstd::prelude::*;
use crate::errors::AppError;
use crate::text::trim_spec;
use crate::text::trim_str;

verus! {

/// A new entry to create.
pub struct CreateEntryDto {
    pub vault_id: i32,
    pub title: String,
    pub description: Option<String>,
    pub metadata: Option<String>,
}

/// A partial update of an existing entry: only present members are changed.
pub struct UpdateEntryDto {
    pub title: Option<String>,
    pub description: Option<String>,
    pub metadata: Option<String>,
}

/// An entry record.
pub struct EntryDto {
    pub id: i32,
    pub vault_id: i32,
    pub title: String,
    pub description: Option<String>,
    pub metadata: Option<String>,
    pub cover_image_path: Option<String>,
    pub created_at: String,
    pub updated_at: String,
}

impl EntryDto {
    /// An equal copy of this record.
    pub fn duplicate(&self) -> (r: EntryDto)
        ensures
            r == *self,
    {
        EntryDto {
            id: self.id,
            vault_id: self.vault_id,
            title: self.title.clone(),
            description: self.description.clone(),
            metadata: self.metadata.clone(),
            cover_image_path: self.cover_image_path.clone(),
            created_at: self.created_at.clone(),
            updated_at: self.updated_at.clone(),
        }
    }
}

/// The column values of an entry about to be inserted; the store assigns the
/// identity.
pub struct NewEntryRow {
    pub vault_id: i32,
    pub title: String,
    pub description: Option<String>,
    pub metadata: Option<String>,
    pub created_at: String,
    pub updated_at: String,
}

/// One page of a vault's entries.
pub struct PaginatedEntries {
    pub entries: Vec<EntryDto>,
    pub total: i64,
    pub page: u64,
    pub limit: u64,
    pub has_more: bool,
}

/// The outcome of a full-text search.
pub struct SearchResult {
    pub entries: Vec<EntryDto>,
    pub total: i64,
    pub query: String,
    pub page: u64,
    pub limit: u64,
    pub has_more: bool,
}

/// True when one page more would still find entries: pages before
/// `(page + 1) * limit` do not exhaust the total.
pub open spec fn has_more_spec(page: int, limit: int, total: int) -> bool {
    (page + 1) * limit < total
}

/// Service holding the decision logic of entry operations; the caller
/// performs the store reads and writes around it.
pub struct EntryService;

impl EntryService {
    /// Decides an entry creation: the title must be non-empty after
    /// trimming and the owning vault must exist; the stored title is the
    /// trimmed one.
    pub fn create(vault_exists: bool, dto: CreateEntryDto, now: String) -> (r: Result<
        NewEntryRow,
        AppError,
    >)
        ensures
            ({
                let trimmed = trim_spec(dto.title@);
                if trimmed.len() == 0 {
                    r matches Err(AppError::Validation(m)) && m@ == "Title is required"@
                } else if !vault_exists {
                    r matches Err(AppError::VaultNotFound(v)) && v == dto.vault_id
                } else {
                    r matches Ok(row) && row.vault_id == dto.vault_id && row.title@ == trimmed
                        && row.description == dto.description && row.metadata == dto.metadata
                        && row.created_at@ == now@ && row.updated_at@ == now@
                }
            }),
    {
        let trimmed = trim_str(dto.title.as_str());
        if trimmed.unicode_len() == 0 {
            return Err(AppError::Validation(String::from_str("Title is required")));
        }
        if !vault_exists {
            return Err(AppError::VaultNotFound(dto.vault_id));
        }
        Ok(
            NewEntryRow {
                vault_id: dto.vault_id,
                title: trimmed,
                description: dto.description,
                metadata: dto.metadata,
                created_at: now.clone(),
                updated_at: now,
            },
        )
    }

    /// Decides whether an entry can be fetched: a missing record is an
    /// `EntryNotFound` error.
    pub fn get(id: i32, entry: Option<EntryDto>) -> (r: Result<EntryDto, AppError>)
        ensures
            match entry {
                Some(e) => r matches Ok(g) && g == e,
                None => r matches Err(AppError::EntryNotFound(v)) && v == id,
            },
    {
        match entry {
            Some(e) => Ok(e),
            None => Err(AppError::EntryNotFound(id)),
        }
    }

    /// Lists one page of a vault's entries. `entries` holds the vault's
    /// entries in listing order (newest first, as the store provides them);
    /// the page is the window `page * limit ..` of at most `limit` records.
    #[verifier::loop_isolation(false)]
    pub fn list(
        vault_exists: bool,
        vault_id: i32,
        entries: &Vec<EntryDto>,
        page: u64,
        limit: u64,
    ) -> (r: Result<PaginatedEntries, AppError>)
        requires
            (page + 1) * limit <= u64::MAX,
            entries@.len() <= i64::MAX,
        ensures
            !vault_exists ==> (r matches Err(AppError::VaultNotFound(v)) && v == vault_id),
            vault_exists ==> (r matches Ok(p) && {
                let total = entries@.len() as int;
                let off = if page * limit < total {
                    (page * limit) as int
                } else {
                    total
                };
                let end = if (page + 1) * limit < total {
                    ((page + 1) * limit) as int
                } else {
                    total
                };
                &&& p.entries@ == entries@.subrange(off, end)
                &&& p.total == total
                &&& p.page == page
                &&& p.limit == limit
                &&& p.has_more == has_more_spec(page as int, limit as int, total)
            }),
    {
        if !vault_exists {
            return Err(AppError::VaultNotFound(vault_id));
        }
        let n = entries.len();
        proof {
            assert(page * limit <= (page + 1) * limit) by (nonlinear_arith);
        }
        let offset: u64 = page * limit;
        proof {
            assert((page + 1) * limit == page * limit + limit) by (nonlinear_arith);
        }
        let upper: u64 = offset + limit;
        let off: usize = if offset < n as u64 {
            offset as usize
        } else {
            n
        };
        let end: usize = if upper < n as u64 {
            upper as usize
        } else {
            n
        };
        let mut out: Vec<EntryDto> = Vec::new();
        let mut i: usize = off;
        while i < end
            invariant
                off <= i <= end,
                out@ =~= entries@.subrange(off as int, i as int),
            decreases end - i,
        {
            out.push(entries[i].duplicate());
            proof {
                assert(out@ =~= entries@.subrange(off as int, i + 1));
            }
            i = i + 1;
        }
        let total: i64 = n as i64;
        let has_more = upper < total as u64;
        Ok(PaginatedEntries { entries: out, total, page, limit, has_more })
    }

    /// Counts the entries of a vault among the given records.
    #[verifier::loop_isolation(false)]
    pub fn count(entries: &Vec<EntryDto>, vault_id: i32) -> (r: i64)
        requires
            entries@.len() <= i64::MAX,
        ensures
            r == entries@.filter(|e: EntryDto| e.vault_id == vault_id).len(),
    {
        let n = entries.len();
        let mut c: i64 = 0;
        proof {
            assert(entries@.subrange(0, 0).filter(|e: EntryDto| e.vault_id == vault_id) =~= Seq::<
                EntryDto,
            >::empty());
        }
        let mut i: usize = 0;
        while i < n
            invariant
                0 <= i <= n,
                0 <= c <= i,
                c == entries@.subrange(0, i as int).filter(
                    |e: EntryDto| e.vault_id == vault_id,
                ).len(),
            decreases n - i,
        {
            let ghost pre = entries@.subrange(0, i as int);
            let ghost cur = entries@.subrange(0, i + 1);
            proof {
                assert(cur.drop_last() =~= pre);
                assert(cur.last() == entries@[i as int]);
                reveal_with_fuel(Seq::filter, 2);
            }
            if entries[i].vault_id == vault_id {
                c = c + 1;
            }
            i = i + 1;
        }
        proof {
            assert(entries@.subrange(0, n as int) =~= entries@);
        }
        c
    }

    /// Decides an entry update: a replacement title must be non-empty after
    /// trimming; only the members present in the partial update change, and
    /// the update timestamp is refreshed.
    pub fn update(id: i32, entry: Option<EntryDto>, dto: UpdateEntryDto, now: String) -> (r:
        Result<EntryDto, AppError>)
        ensures
            ({
                match entry {
                    None => r matches Err(AppError::EntryNotFound(v)) && v == id,
                    Some(e) => {
                        let retitled = dto.title is Some;
                        let trimmed = trim_spec(dto.title->Some_0@);
                        if retitled && trimmed.len() == 0 {
                            r matches Err(AppError::Validation(m)) && m@
                                == "Title cannot be empty"@
                        } else {
                            r matches Ok(g) && g.id == e.id && g.vault_id == e.vault_id && g.title@
                                == (if retitled {
                                trimmed
                            } else {
                                e.title@
                            }) && g.description == (match dto.description {
                                Some(d) => Some(d),
                                None => e.description,
                            }) && g.metadata == (match dto.metadata {
                                Some(m) => Some(m),
                                None => e.metadata,
                            }) && g.cover_image_path == e.cover_image_path && g.created_at@
                                == e.created_at@ && g.updated_at@ == now@
                        }
                    },
                }
            }),
    {
        let mut e = match entry {
            Some(e) => e,
            None => {
                return Err(AppError::EntryNotFound(id));
            },
        };
        if let Some(title) = dto.title {
            let trimmed = trim_str(title.as_str());
            if trimmed.unicode_len() == 0 {
                return Err(AppError::Validation(String::from_str("Title cannot be empty")));
            }
            e.title = trimmed;
        }
        if let Some(description) = dto.description {
            e.description = Some(description);
        }
        if let Some(metadata) = dto.metadata {
            e.metadata = Some(metadata);
        }
        e.updated_at = now;
        Ok(e)
    }

    /// Decides an entry deletion: a missing record is an `EntryNotFound`
    /// error.
    pub fn delete(id: i32, entry: Option<&EntryDto>) -> (r: Result<(), AppError>)
        ensures
            match entry {
                Some(_) => r is Ok,
                None => r matches Err(AppError::EntryNotFound(v)) && v == id,
            },
    {
        match entry {
            Some(_) => Ok(()),
            None => Err(AppError::EntryNotFound(id)),
        }
    }
}

} // verus!
