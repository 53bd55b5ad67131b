//! Tests of the search query construction, pagination, and the relation
//! resolver.

use vaultrs::entries::EntryDto;
use vaultrs::entries::EntryService;
use vaultrs::errors::AppError;
use vaultrs::relations::RelationRef;
use vaultrs::relations::RelationService;
use vaultrs::search::EntrySearchService;
use vaultrs::search::SearchPlan;
use vaultrs::vaults::VaultDto;

fn entry(id: i32, vault_id: i32, title: &str) -> EntryDto {
    EntryDto {
        id,
        vault_id,
        title: title.to_string(),
        description: None,
        metadata: None,
        cover_image_path: None,
        created_at: "2024-01-01 00:00:00".to_string(),
        updated_at: "2024-01-01 00:00:00".to_string(),
    }
}

fn vault(id: i32, name: &str) -> VaultDto {
    VaultDto {
        id,
        name: name.to_string(),
        description: None,
        icon: None,
        color: None,
        created_at: "2024-01-01 00:00:00".to_string(),
        updated_at: "2024-01-01 00:00:00".to_string(),
    }
}

#[test]
fn test_build_fts_query_single_word() {
    let result = EntrySearchService::build_fts_query("test");
    assert_eq!(result, "\"test\"*");
}

#[test]
fn test_build_fts_query_multiple_words() {
    let result = EntrySearchService::build_fts_query("hello world");
    assert_eq!(result, "\"hello\"* \"world\"*");
}

#[test]
fn test_build_fts_query_with_quotes() {
    let result = EntrySearchService::build_fts_query("test\"query");
    assert_eq!(result, "\"test\"\"query\"*");
}

#[test]
fn test_build_fts_query_empty() {
    let result = EntrySearchService::build_fts_query("");
    assert_eq!(result, "");
}

#[test]
fn test_build_fts_query_prefix_term() {
    assert_eq!(EntrySearchService::build_fts_query("app"), "\"app\"*");
    assert_eq!(EntrySearchService::build_fts_query("  app  "), "\"app\"*");
}

#[test]
fn test_search_entries_empty_query() {
    let plan = EntrySearchService::plan_search(true, 1, "", 0, 10).unwrap();
    match plan {
        SearchPlan::Done(res) => {
            assert_eq!(res.total, 0);
            assert_eq!(res.entries.len(), 0);
            assert_eq!(res.query, "");
            assert!(!res.has_more);
        }
        SearchPlan::RunIndex { .. } => panic!("empty query must not consult the index"),
    }

    let blank = EntrySearchService::plan_search(true, 1, "   ", 2, 5).unwrap();
    assert!(matches!(blank, SearchPlan::Done(_)));
}

#[test]
fn test_search_plan_vault_missing() {
    let r = EntrySearchService::plan_search(false, 9, "x", 0, 10);
    assert!(matches!(r, Err(AppError::VaultNotFound(9))));
}

#[test]
fn test_search_plan_builds_expression() {
    let plan = EntrySearchService::plan_search(true, 1, "  hello world ", 3, 20).unwrap();
    match plan {
        SearchPlan::RunIndex { match_expr, offset } => {
            assert_eq!(match_expr, "\"hello\"* \"world\"*");
            assert_eq!(offset, 60);
        }
        SearchPlan::Done(_) => panic!("non-empty query must consult the index"),
    }
}

#[test]
fn test_search_finish_has_more() {
    let first = EntrySearchService::search_finish("q".to_string(), 0, 10, 25, vec![]);
    assert!(first.has_more);
    assert_eq!(first.total, 25);

    let last = EntrySearchService::search_finish("q".to_string(), 2, 10, 25, vec![]);
    assert!(!last.has_more);
}

#[test]
fn test_list_entries_pagination() {
    let mut entries = Vec::new();
    for i in 0..25 {
        entries.push(entry(i + 1, 1, &format!("Entry {}", i)));
    }

    let page1 = EntryService::list(true, 1, &entries, 0, 10).unwrap();
    assert_eq!(page1.entries.len(), 10);
    assert_eq!(page1.total, 25);
    assert!(page1.has_more);

    let page3 = EntryService::list(true, 1, &entries, 2, 10).unwrap();
    assert_eq!(page3.entries.len(), 5);
    assert!(!page3.has_more);
}

#[test]
fn test_relation_ref_to_key() {
    let rel = RelationRef {
        entry_id: 42,
        vault_id: 5,
    };
    assert_eq!(rel.to_key(), "42:5");
}

#[test]
fn test_resolve_single_found() {
    let entries = vec![entry(1, 1, "First Entry")];
    let vaults = vec![vault(1, "Movies")];

    let r = RelationService::resolve_single(&entries, &vaults, 1, 1);
    assert!(r.exists);
    assert_eq!(r.title, "First Entry");
    assert_eq!(r.vault_name, Some("Movies".to_string()));
}

#[test]
fn test_resolve_single_missing() {
    let entries = vec![entry(1, 1, "First Entry")];
    let vaults = vec![vault(1, "Movies")];

    let r = RelationService::resolve_single(&entries, &vaults, 999, 1);
    assert!(!r.exists);
    assert_eq!(r.title, "[Deleted]");
    assert_eq!(r.vault_name, None);
    assert_eq!(r.cover_image_path, None);
}

#[test]
fn test_vault_mismatch_resolves_deleted() {
    let entries = vec![entry(1, 2, "Moved Entry")];
    let vaults = vec![vault(1, "Movies"), vault(2, "Books")];

    let r = RelationService::resolve_single(&entries, &vaults, 1, 1);
    assert!(!r.exists);
    assert_eq!(r.title, "[Deleted]");
    assert_eq!(r.vault_name, None);
}

#[test]
fn test_resolve_batch_dedup() {
    let entries = vec![entry(1, 1, "First Entry")];
    let vaults = vec![vault(1, "Movies")];
    let relations = vec![
        RelationRef { entry_id: 1, vault_id: 1 },
        RelationRef { entry_id: 1, vault_id: 1 },
        RelationRef { entry_id: 999, vault_id: 1 },
    ];

    let r = RelationService::resolve_batch(&relations, &entries, &vaults);
    assert_eq!(r.len(), 2);

    let found = r.iter().find(|(k, _)| k == "1:1").map(|(_, v)| v).unwrap();
    assert!(found.exists);
    assert_eq!(found.title, "First Entry");

    let gone = r.iter().find(|(k, _)| k == "999:1").map(|(_, v)| v).unwrap();
    assert!(!gone.exists);
    assert_eq!(gone.title, "[Deleted]");
}

#[test]
fn test_resolve_batch_empty() {
    let r = RelationService::resolve_batch(&vec![], &vec![], &vec![]);
    assert!(r.is_empty());
}

#[test]
fn test_picker_case_insensitive() {
    let entries = vec![
        entry(1, 1, "JavaScript Tutorial"),
        entry(2, 1, "Cooking Notes"),
    ];

    let items =
        RelationService::search_entries_for_picker(true, 1, &entries, "javascript", 20).unwrap();
    assert_eq!(items.len(), 1);
    assert_eq!(items[0].title, "JavaScript Tutorial");
}

#[test]
fn test_picker_empty_query_recent() {
    let entries = vec![entry(1, 1, "A"), entry(2, 1, "B"), entry(3, 1, "C")];

    let items = RelationService::search_entries_for_picker(true, 1, &entries, "  ", 2).unwrap();
    assert_eq!(items.len(), 2);
    assert_eq!(items[0].title, "A");
    assert_eq!(items[1].title, "B");
}

#[test]
fn test_picker_vault_missing() {
    let r = RelationService::search_entries_for_picker(false, 4, &vec![], "x", 10);
    assert!(matches!(r, Err(AppError::VaultNotFound(4))));
}

#[test]
fn test_picker_subtitle_truncated() {
    let mut e = entry(1, 1, "Long One");
    e.description = Some(format!("  {}  ", "d".repeat(150)));
    let short = {
        let mut s = entry(2, 1, "Short One");
        s.description = Some("  brief  ".to_string());
        s
    };
    let blank = {
        let mut s = entry(3, 1, "Blank One");
        s.description = Some("   ".to_string());
        s
    };
    let entries = vec![e, short, blank];

    let items = RelationService::search_entries_for_picker(true, 1, &entries, "", 10).unwrap();
    assert_eq!(items.len(), 3);
    let long_subtitle = items[0].subtitle.as_ref().unwrap();
    assert_eq!(long_subtitle.len(), 103);
    assert!(long_subtitle.ends_with("..."));
    assert_eq!(items[1].subtitle, Some("brief".to_string()));
    assert_eq!(items[2].subtitle, None);
}

#[test]
fn test_picker_limit_clamped() {
    let mut entries = Vec::new();
    for i in 0..150 {
        entries.push(entry(i + 1, 1, &format!("Entry {}", i)));
    }

    let capped = RelationService::search_entries_for_picker(true, 1, &entries, "", 500).unwrap();
    assert_eq!(capped.len(), 100);

    let floor = RelationService::search_entries_for_picker(true, 1, &entries, "", 0).unwrap();
    assert_eq!(floor.len(), 1);
}
