//! Cross-vault relation resolution: references between entries are stored
//! as weak id pairs and resolved lazily at read time. A reference whose
//! target is gone, or now belongs to a different vault than stated, resolves
//! to a normal, displayable deleted state, never an error.

use vstd::prelude::*;
use crate::entries::EntryDto;
use crate::errors::AppError;
use crate::text::contains_seq;
use crate::text::i64_dec_spec;
use crate::text::i32_to_string;
use crate::text::trim_spec;
use crate::text::trim_str;
use crate::text::str_contains;
use crate::vaults::VaultDto;

verus! {

/// What lower-casing a string returns: the result depends on the characters
/// alone.
pub uninterp spec fn lower_of(s: Seq<char>) -> Seq<char>;

/// Relies on `str::to_lowercase` to fold a string's case.
#[verifier::external_body]
fn to_lowercase_str(s: &str) -> (r: String)
    ensures
        r@ == lower_of(s@),
{
    s.to_lowercase()
}

/// Value stored in entry metadata for a relation field: the referenced
/// entry id and vault id.
#[derive(Debug, Clone, Copy, PartialEq, Eq, Structural)]
pub struct RelationValue {
    pub entry_id: i32,
    pub vault_id: i32,
}

/// Reference to a relation for batch resolution requests.
#[derive(Debug, Clone, Copy)]
pub struct RelationRef {
    pub entry_id: i32,
    pub vault_id: i32,
}

/// The map key of a reference: `<entry_id>:<vault_id>`.
pub open spec fn relation_key_spec(entry_id: int, vault_id: int) -> Seq<char> {
    i64_dec_spec(entry_id) + seq![':'] + i64_dec_spec(vault_id)
}

impl RelationRef {
    /// The map key of this reference.
    pub fn to_key(&self) -> (r: String)
        ensures
            r@ == relation_key_spec(self.entry_id as int, self.vault_id as int),
    {
        proof {
            reveal_strlit(":");
        }
        let mut k = i32_to_string(self.entry_id);
        k.append(":");
        let v = i32_to_string(self.vault_id);
        k.append(v.as_str());
        k
    }
}

/// Resolved relation data for display: the original reference plus the
/// resolved entry information, or a deleted state.
#[derive(Debug)]
pub struct ResolvedRelation {
    pub entry_id: i32,
    pub vault_id: i32,
    pub title: String,
    pub exists: bool,
    pub vault_name: Option<String>,
    pub cover_image_path: Option<String>,
}

/// Entry summary for the relation picker.
#[derive(Debug)]
pub struct EntryPickerItem {
    pub id: i32,
    pub vault_id: i32,
    pub title: String,
    pub subtitle: Option<String>,
    pub thumbnail: Option<String>,
}

/// The first entry record bearing an id.
pub open spec fn find_entry(entries: Seq<EntryDto>, id: i32) -> Option<EntryDto>
    decreases entries.len(),
{
    if entries.len() == 0 {
        None
    } else if entries[0].id == id {
        Some(entries[0])
    } else {
        find_entry(entries.drop_first(), id)
    }
}

/// The name of the first vault record bearing an id.
pub open spec fn vault_name_spec(vaults: Seq<VaultDto>, id: i32) -> Option<Seq<char>>
    decreases vaults.len(),
{
    if vaults.len() == 0 {
        None
    } else if vaults[0].id == id {
        Some(vaults[0].name@)
    } else {
        vault_name_spec(vaults.drop_first(), id)
    }
}

/// True of a resolved record in the deleted state.
pub open spec fn deleted_relation(r: ResolvedRelation) -> bool {
    &&& !r.exists
    &&& r.title@ == "[Deleted]"@
    &&& r.vault_name is None
    &&& r.cover_image_path is None
}

/// True when `r` is the correct resolution of the reference
/// `(entry_id, vault_id)` against the given records: the target must exist
/// and still belong to the stated vault, otherwise the record is deleted.
/// A vault mismatch is treated identically to not-found.
pub open spec fn resolves_to(
    entries: Seq<EntryDto>,
    vaults: Seq<VaultDto>,
    entry_id: i32,
    vault_id: i32,
    r: ResolvedRelation,
) -> bool {
    &&& r.entry_id == entry_id
    &&& r.vault_id == vault_id
    &&& match find_entry(entries, entry_id) {
        Some(e) => if e.vault_id == vault_id {
            &&& r.exists
            &&& r.title@ == e.title@
            &&& (match vault_name_spec(vaults, vault_id) {
                Some(nm) => r.vault_name matches Some(x) && x@ == nm,
                None => r.vault_name is None,
            })
            &&& r.cover_image_path == e.cover_image_path
        } else {
            deleted_relation(r)
        },
        None => deleted_relation(r),
    }
}

/// The id pair of a reference.
pub open spec fn ref_pair(r: RelationRef) -> (i32, i32) {
    (r.entry_id, r.vault_id)
}

/// The distinct id pairs of the references, in first-occurrence order.
pub open spec fn distinct_refs(rs: Seq<RelationRef>) -> Seq<(i32, i32)>
    decreases rs.len(),
{
    if rs.len() == 0 {
        Seq::empty()
    } else {
        let rest = distinct_refs(rs.drop_last());
        if rest.contains(ref_pair(rs.last())) {
            rest
        } else {
            rest.push(ref_pair(rs.last()))
        }
    }
}

proof fn lemma_find_entry_from(entries: Seq<EntryDto>, id: i32, i: int)
    requires
        0 <= i <= entries.len(),
        forall|j: int| 0 <= j < i ==> entries[j].id != id,
    ensures
        find_entry(entries, id) == find_entry(entries.subrange(i, entries.len() as int), id),
    decreases i,
{
    if i > 0 {
        lemma_find_entry_from(entries.drop_first(), id, i - 1);
        assert(entries.drop_first().subrange(i - 1, entries.drop_first().len() as int)
            =~= entries.subrange(i, entries.len() as int));
    } else {
        assert(entries.subrange(0, entries.len() as int) =~= entries);
    }
}

proof fn lemma_vault_name_from(vaults: Seq<VaultDto>, id: i32, i: int)
    requires
        0 <= i <= vaults.len(),
        forall|j: int| 0 <= j < i ==> vaults[j].id != id,
    ensures
        vault_name_spec(vaults, id) == vault_name_spec(
            vaults.subrange(i, vaults.len() as int),
            id,
        ),
    decreases i,
{
    if i > 0 {
        lemma_vault_name_from(vaults.drop_first(), id, i - 1);
        assert(vaults.drop_first().subrange(i - 1, vaults.drop_first().len() as int)
            =~= vaults.subrange(i, vaults.len() as int));
    } else {
        assert(vaults.subrange(0, vaults.len() as int) =~= vaults);
    }
}

#[verifier::loop_isolation(false)]
fn find_entry_ref<'a>(entries: &'a Vec<EntryDto>, id: i32) -> (r: Option<&'a EntryDto>)
    ensures
        match find_entry(entries@, id) {
            None => r is None,
            Some(e) => r matches Some(re) && *re == e,
        },
{
    let n = entries.len();
    let mut i: usize = 0;
    while i < n
        invariant
            0 <= i <= n,
            forall|j: int| 0 <= j < i ==> entries@[j].id != id,
        decreases n - i,
    {
        if entries[i].id == id {
            proof {
                lemma_find_entry_from(entries@, id, i as int);
                assert(entries@.subrange(i as int, entries@.len() as int)[0]
                    == entries@[i as int]);
            }
            return Some(&entries[i]);
        }
        i = i + 1;
    }
    proof {
        lemma_find_entry_from(entries@, id, n as int);
    }
    None
}

#[verifier::loop_isolation(false)]
fn vault_name_lookup(vaults: &Vec<VaultDto>, id: i32) -> (r: Option<String>)
    ensures
        match vault_name_spec(vaults@, id) {
            None => r is None,
            Some(nm) => r matches Some(x) && x@ == nm,
        },
{
    let n = vaults.len();
    let mut i: usize = 0;
    while i < n
        invariant
            0 <= i <= n,
            forall|j: int| 0 <= j < i ==> vaults@[j].id != id,
        decreases n - i,
    {
        if vaults[i].id == id {
            proof {
                lemma_vault_name_from(vaults@, id, i as int);
                assert(vaults@.subrange(i as int, vaults@.len() as int)[0] == vaults@[i as int]);
            }
            return Some(vaults[i].name.clone());
        }
        i = i + 1;
    }
    proof {
        lemma_vault_name_from(vaults@, id, n as int);
    }
    None
}

/// Service for relation field operations; the caller performs the store
/// reads around it and hands in the records the resolution consults.
pub struct RelationService;

impl RelationService {
    /// Resolves a single reference against the given records. Resolution
    /// never fails for a missing target: a reference whose entry is gone,
    /// or whose entry now belongs to a different vault than stated, yields
    /// the deleted state.
    pub fn resolve_single(
        entries: &Vec<EntryDto>,
        vaults: &Vec<VaultDto>,
        entry_id: i32,
        vault_id: i32,
    ) -> (r: ResolvedRelation)
        ensures
            resolves_to(entries@, vaults@, entry_id, vault_id, r),
    {
        match find_entry_ref(entries, entry_id) {
            Some(e) if e.vault_id == vault_id => {
                let vault_name = vault_name_lookup(vaults, vault_id);
                ResolvedRelation {
                    entry_id,
                    vault_id,
                    title: e.title.clone(),
                    exists: true,
                    vault_name,
                    cover_image_path: e.cover_image_path.clone(),
                }
            },
            _ => ResolvedRelation {
                entry_id,
                vault_id,
                title: String::from_str("[Deleted]"),
                exists: false,
                vault_name: None,
                cover_image_path: None,
            },
        }
    }

    /// Resolves many references at once against one bulk read of the
    /// referenced entries and vaults. Duplicate references collapse onto
    /// one key; the result holds one record per distinct reference, in
    /// first-occurrence order, each keyed `<entry_id>:<vault_id>` and
    /// resolved by the same rule as a single resolve.
    #[verifier::loop_isolation(false)]
    pub fn resolve_batch(
        relations: &Vec<RelationRef>,
        entries: &Vec<EntryDto>,
        vaults: &Vec<VaultDto>,
    ) -> (r: Vec<(String, ResolvedRelation)>)
        ensures
            r@.len() == distinct_refs(relations@).len(),
            forall|k: int|
                0 <= k < r@.len() ==> {
                    let p = distinct_refs(relations@)[k];
                    &&& (#[trigger] r@[k]).0@ == relation_key_spec(p.0 as int, p.1 as int)
                    &&& resolves_to(entries@, vaults@, p.0, p.1, r@[k].1)
                },
    {
        let n = relations.len();
        let mut out: Vec<(String, ResolvedRelation)> = Vec::new();
        let mut i: usize = 0;
        proof {
            assert(distinct_refs(relations@.subrange(0, 0)) =~= Seq::<(i32, i32)>::empty());
        }
        while i < n
            invariant
                0 <= i <= n,
                out@.len() == distinct_refs(relations@.subrange(0, i as int)).len(),
                forall|k: int|
                    0 <= k < out@.len() ==> {
                        let p = distinct_refs(relations@.subrange(0, i as int))[k];
                        &&& ((#[trigger] out@[k]).1.entry_id, out@[k].1.vault_id) == p
                        &&& out@[k].0@ == relation_key_spec(p.0 as int, p.1 as int)
                        &&& resolves_to(entries@, vaults@, p.0, p.1, out@[k].1)
                    },
            decreases n - i,
    {
            let ghost pre = relations@.subrange(0, i as int);
            let ghost cur = relations@.subrange(0, i + 1);
            proof {
                assert(cur.drop_last() =~= pre);
                assert(cur.last() == relations@[i as int]);
            }
            let rel = &relations[i];
            let mut seen = false;
            let m = out.len();
            let mut k: usize = 0;
            while k < m
                invariant
                    0 <= k <= m,
                    m == out@.len(),
                    seen == exists|j: int|
                        0 <= j < k && ((#[trigger] out@[j]).1.entry_id, out@[j].1.vault_id) == (
                            rel.entry_id,
                            rel.vault_id,
                        ),
                decreases m - k,
            {
                if !seen && out[k].1.entry_id == rel.entry_id && out[k].1.vault_id
                    == rel.vault_id {
                    seen = true;
                }
                k = k + 1;
            }
            proof {
                if seen {
                    let j = choose|j: int|
                        0 <= j < out@.len() && ((#[trigger] out@[j]).1.entry_id,
                        out@[j].1.vault_id) == (rel.entry_id, rel.vault_id);
                    assert(distinct_refs(pre)[j] == ref_pair(relations@[i as int]));
                    assert(distinct_refs(pre).contains(ref_pair(relations@[i as int])));
                } else {
                    if distinct_refs(pre).contains(ref_pair(relations@[i as int])) {
                        let j = choose|j: int|
                            0 <= j < distinct_refs(pre).len() && distinct_refs(pre)[j] == ref_pair(
                                relations@[i as int],
                            );
                        assert(((out@[j]).1.entry_id, out@[j].1.vault_id) == ref_pair(
                            relations@[i as int],
                        ));
                    }
                }
            }
            if !seen {
                let key = rel.to_key();
                let resolved = Self::resolve_single(entries, vaults, rel.entry_id, rel.vault_id);
                out.push((key, resolved));
            }
            i = i + 1;
        }
        proof {
            assert(relations@.subrange(0, n as int) =~= relations@);
        }
        out
    }
}

/// True when an entry matches the picker query: an empty query matches
/// everything; otherwise the case-folded title must contain the case-folded
/// query.
pub open spec fn picker_matches(e: EntryDto, q: Seq<char>) -> bool {
    q.len() == 0 || contains_seq(lower_of(e.title@), lower_of(q))
}

/// The first at most `k` entries matching the query, in order.
pub open spec fn picked(es: Seq<EntryDto>, q: Seq<char>, k: int) -> Seq<EntryDto>
    decreases es.len(),
{
    if es.len() == 0 || k <= 0 {
        Seq::empty()
    } else if picker_matches(es[0], q) {
        seq![es[0]] + picked(es.drop_first(), q, k - 1)
    } else {
        picked(es.drop_first(), q, k)
    }
}

/// The subtitle derived from a description: trimmed; empty becomes absent;
/// longer than 100 characters is cut to 100 with a trailing ellipsis.
pub open spec fn subtitle_spec(d: Option<String>) -> Option<Seq<char>> {
    match d {
        None => None,
        Some(s) => {
            let t = trim_spec(s@);
            if t.len() == 0 {
                None
            } else if t.len() > 100 {
                Some(t.subrange(0, 100) + "..."@)
            } else {
                Some(t)
            }
        },
    }
}

/// True when a picker item presents an entry.
pub open spec fn item_for(e: EntryDto, it: EntryPickerItem) -> bool {
    &&& it.id == e.id
    &&& it.vault_id == e.vault_id
    &&& it.title@ == e.title@
    &&& (match subtitle_spec(e.description) {
        None => it.subtitle is None,
        Some(ss) => it.subtitle matches Some(x) && x@ == ss,
    })
    &&& it.thumbnail == e.cover_image_path
}

fn subtitle_of(description: &Option<String>) -> (r: Option<String>)
    ensures
        match subtitle_spec(*description) {
            None => r is None,
            Some(ss) => r matches Some(x) && x@ == ss,
        },
{
    match description {
        None => None,
        Some(d) => {
            let t = trim_str(d.as_str());
            let tn = t.unicode_len();
            if tn == 0 {
                None
            } else if tn > 100 {
                let mut s = String::from_str(t.substring_char(0, 100));
                s.append("...");
                Some(s)
            } else {
                Some(t)
            }
        },
    }
}

impl RelationService {
    /// Searches a vault's entries for the relation picker. `entries` holds
    /// the vault's entries in listing order (most recently updated first,
    /// as the store provides them). The limit is clamped to 1 through 100;
    /// an empty query yields the first entries up to the limit, and a
    /// non-empty query those whose title contains it case-insensitively.
    #[verifier::loop_isolation(false)]
    pub fn search_entries_for_picker(
        vault_exists: bool,
        vault_id: i32,
        entries: &Vec<EntryDto>,
        query: &str,
        limit: i32,
    ) -> (r: Result<Vec<EntryPickerItem>, AppError>)
        ensures
            !vault_exists ==> (r matches Err(AppError::VaultNotFound(v)) && v == vault_id),
            vault_exists ==> (r matches Ok(items) && {
                let q = trim_spec(query@);
                let clamped = if limit < 1 {
                    1int
                } else if limit > 100 {
                    100int
                } else {
                    limit as int
                };
                let sel = picked(entries@, q, clamped);
                items@.len() == sel.len() && forall|j: int|
                    0 <= j < sel.len() ==> item_for(sel[j], #[trigger] items@[j])
            }),
    {
        if !vault_exists {
            return Err(AppError::VaultNotFound(vault_id));
        }
        let trimmed = trim_str(query);
        let clamped: usize = if limit < 1 {
            1
        } else if limit > 100 {
            100
        } else {
            limit as usize
        };
        let ghost q = trim_spec(query@);
        let qn = trimmed.unicode_len();
        let lq = to_lowercase_str(trimmed.as_str());
        let n = entries.len();
        let mut out: Vec<EntryPickerItem> = Vec::new();
        let ghost mut taken: Seq<EntryDto> = Seq::empty();
        let mut i: usize = 0;
        proof {
            assert(entries@.subrange(0, n as int) =~= entries@);
            assert(taken + picked(entries@.subrange(0, n as int), q, clamped - taken.len())
                =~= picked(entries@, q, clamped as int));
        }
        while i < n && out.len() < clamped
            invariant
                0 <= i <= n,
                out@.len() == taken.len(),
                out@.len() <= clamped,
                forall|j: int| 0 <= j < taken.len() ==> item_for(taken[j], #[trigger] out@[j]),
                taken + picked(entries@.subrange(i as int, n as int), q, clamped - taken.len())
                    == picked(entries@, q, clamped as int),
            decreases n - i,
        {
            let ghost rest = entries@.subrange(i as int, n as int);
            proof {
                assert(rest[0] == entries@[i as int]);
                assert(rest.drop_first() =~= entries@.subrange(i + 1, n as int));
            }
            let e = &entries[i];
            let matched: bool = if qn == 0 {
                true
            } else {
                let lt = to_lowercase_str(e.title.as_str());
                str_contains(lt.as_str(), lq.as_str())
            };
            if matched {
                let subtitle = subtitle_of(&e.description);
                out.push(
                    EntryPickerItem {
                        id: e.id,
                        vault_id: e.vault_id,
                        title: e.title.clone(),
                        subtitle,
                        thumbnail: e.cover_image_path.clone(),
                    },
                );
                proof {
                    let b = clamped - taken.len();
                    assert(picked(rest, q, b) == seq![rest[0]] + picked(
                        rest.drop_first(),
                        q,
                        b - 1,
                    ));
                    taken = taken.push(entries@[i as int]);
                    assert(taken + picked(entries@.subrange(i + 1, n as int), q, clamped
                        - taken.len()) =~= picked(entries@, q, clamped as int));
                }
            } else {
                proof {
                    let b = clamped - taken.len();
                    assert(picked(rest, q, b) == picked(rest.drop_first(), q, b));
                }
            }
            i = i + 1;
        }
        proof {
            if i < n {
                assert(out@.len() == clamped);
                assert(picked(entries@.subrange(i as int, n as int), q, 0) =~= Seq::<
                    EntryDto,
                >::empty());
            } else {
                assert(entries@.subrange(n as int, n as int).len() == 0);
            }
            assert(taken =~= picked(entries@, q, clamped as int));
        }
        Ok(out)
    }
}

/// Law: batch resolution collapses duplicates. The distinct id pairs hold
/// no pair twice, cover every reference of the input, and hold nothing
/// else; with `resolve_batch`'s contract, the result maps each distinct
/// reference exactly once.
pub proof fn lemma_distinct_refs_exact(rs: Seq<RelationRef>)
    ensures
        forall|k1: int, k2: int|
            0 <= k1 < k2 < distinct_refs(rs).len() ==> distinct_refs(rs)[k1] != distinct_refs(
                rs,
            )[k2],
        forall|j: int| 0 <= j < rs.len() ==> distinct_refs(rs).contains(ref_pair(#[trigger] rs[j])),
        forall|k: int|
            0 <= k < distinct_refs(rs).len() ==> exists|j: int|
                0 <= j < rs.len() && ref_pair(rs[j]) == #[trigger] distinct_refs(rs)[k],
    decreases rs.len(),
{
    if rs.len() > 0 {
        lemma_distinct_refs_exact(rs.drop_last());
        let rest = distinct_refs(rs.drop_last());
        let cur = distinct_refs(rs);
        let last_pair = ref_pair(rs.last());
        assert forall|j: int| 0 <= j < rs.len() implies cur.contains(
            ref_pair(#[trigger] rs[j]),
        ) by {
            if j < rs.len() - 1 {
                assert(rs.drop_last()[j] == rs[j]);
                assert(rest.contains(ref_pair(rs[j])));
                let k = choose|k: int| 0 <= k < rest.len() && rest[k] == ref_pair(rs[j]);
                assert(cur[k] == ref_pair(rs[j]));
            } else {
                if rest.contains(last_pair) {
                } else {
                    assert(cur[rest.len() as int] == last_pair);
                }
            }
        }
        assert forall|k: int| 0 <= k < cur.len() implies exists|j: int|
            0 <= j < rs.len() && ref_pair(rs[j]) == #[trigger] cur[k] by {
            if k < rest.len() {
                let j = choose|j: int|
                    0 <= j < rs.drop_last().len() && ref_pair(rs.drop_last()[j]) == rest[k];
                assert(ref_pair(rs[j]) == cur[k]);
            } else {
                assert(cur[k] == last_pair);
                assert(ref_pair(rs[rs.len() - 1]) == cur[k]);
            }
        }
        assert forall|k1: int, k2: int| 0 <= k1 < k2 < cur.len() implies cur[k1] != cur[k2] by {
            if k2 < rest.len() {
            } else if k2 == rest.len() && cur.len() > rest.len() {
                assert(!rest.contains(last_pair));
                assert(cur[k1] == rest[k1]);
                if cur[k1] == last_pair {
                    assert(rest.contains(last_pair));
                }
            }
        }
    }
}

} // verus!
