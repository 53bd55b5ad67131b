//! Tests of the search layer against a real SQLite full-text index: the
//! library builds the match expression and assembles the result, and the
//! index executes the conjunctive prefix match.

use sea_orm::{ConnectionTrait, Database, DatabaseBackend, DatabaseConnection, Statement};
use vaultrs::entries::{EntryDto, SearchResult};
use vaultrs::search::{EntrySearchService, SearchPlan};

fn runtime() -> tokio::runtime::Runtime {
    tokio::runtime::Builder::new_current_thread()
        .enable_all()
        .build()
        .unwrap()
}

async fn setup_test_db_with_fts() -> DatabaseConnection {
    let conn = Database::connect("sqlite::memory:").await.unwrap();

    conn.execute_unprepared(
        r#"
        CREATE TABLE vaults (
            id INTEGER PRIMARY KEY AUTOINCREMENT,
            name TEXT NOT NULL,
            created_at TEXT NOT NULL DEFAULT (datetime('now')),
            updated_at TEXT NOT NULL DEFAULT (datetime('now'))
        );

        CREATE TABLE entries (
            id INTEGER PRIMARY KEY AUTOINCREMENT,
            vault_id INTEGER NOT NULL REFERENCES vaults(id) ON DELETE CASCADE,
            title TEXT NOT NULL,
            description TEXT,
            metadata TEXT,
            cover_image_path TEXT,
            created_at TEXT NOT NULL DEFAULT (datetime('now')),
            updated_at TEXT NOT NULL DEFAULT (datetime('now'))
        );

        CREATE VIRTUAL TABLE entries_fts USING fts5(
            title,
            description,
            content='entries',
            content_rowid='id'
        );

        CREATE TRIGGER entries_fts_insert AFTER INSERT ON entries BEGIN
            INSERT INTO entries_fts(rowid, title, description)
            VALUES (new.id, new.title, COALESCE(new.description, ''));
        END;

        CREATE TRIGGER entries_fts_delete AFTER DELETE ON entries BEGIN
            INSERT INTO entries_fts(entries_fts, rowid, title, description)
            VALUES ('delete', old.id, old.title, COALESCE(old.description, ''));
        END;

        CREATE TRIGGER entries_fts_update AFTER UPDATE ON entries BEGIN
            INSERT INTO entries_fts(entries_fts, rowid, title, description)
            VALUES ('delete', old.id, old.title, COALESCE(old.description, ''));
            INSERT INTO entries_fts(rowid, title, description)
            VALUES (new.id, new.title, COALESCE(new.description, ''));
        END;

        INSERT INTO vaults (name) VALUES ('Test Vault');
        "#,
    )
    .await
    .unwrap();

    conn
}

async fn insert_entry(conn: &DatabaseConnection, title: &str, description: Option<&str>) {
    conn.execute(Statement::from_sql_and_values(
        DatabaseBackend::Sqlite,
        "INSERT INTO entries (vault_id, title, description) VALUES (1, $1, $2)",
        [title.into(), description.into()],
    ))
    .await
    .unwrap();
}

/// Runs one search the way the surrounding application does: the library
/// plans it, the index executes the plan, the library assembles the result.
async fn run_search(
    conn: &DatabaseConnection,
    vault_id: i32,
    query: &str,
    page: u64,
    limit: u64,
) -> SearchResult {
    let plan = EntrySearchService::plan_search(true, vault_id, query, page, limit).unwrap();
    let (match_expr, offset) = match plan {
        SearchPlan::Done(result) => return result,
        SearchPlan::RunIndex { match_expr, offset } => (match_expr, offset),
    };

    let count_row = conn
        .query_one(Statement::from_sql_and_values(
            DatabaseBackend::Sqlite,
            r#"
            SELECT COUNT(*) AS count FROM entries e
            INNER JOIN entries_fts fts ON e.id = fts.rowid
            WHERE e.vault_id = $1 AND entries_fts MATCH $2
            "#,
            [vault_id.into(), match_expr.clone().into()],
        ))
        .await
        .unwrap();
    let total: i64 = count_row
        .and_then(|row| row.try_get_by_index::<i32>(0).ok())
        .unwrap_or(0) as i64;

    let rows = conn
        .query_all(Statement::from_sql_and_values(
            DatabaseBackend::Sqlite,
            r#"
            SELECT e.id, e.vault_id, e.title, e.description, e.metadata,
                   e.cover_image_path, e.created_at, e.updated_at
            FROM entries e
            INNER JOIN entries_fts fts ON e.id = fts.rowid
            WHERE e.vault_id = $1 AND entries_fts MATCH $2
            ORDER BY e.created_at DESC
            LIMIT $3 OFFSET $4
            "#,
            [
                vault_id.into(),
                match_expr.into(),
                (limit as i64).into(),
                (offset as i64).into(),
            ],
        ))
        .await
        .unwrap();

    let entries: Vec<EntryDto> = rows
        .into_iter()
        .filter_map(|row| {
            Some(EntryDto {
                id: row.try_get_by_index::<i32>(0).ok()?,
                vault_id: row.try_get_by_index::<i32>(1).ok()?,
                title: row.try_get_by_index::<String>(2).ok()?,
                description: row.try_get_by_index::<Option<String>>(3).ok()?,
                metadata: row.try_get_by_index::<Option<String>>(4).ok()?,
                cover_image_path: row.try_get_by_index::<Option<String>>(5).ok()?,
                created_at: row.try_get_by_index::<String>(6).ok()?,
                updated_at: row.try_get_by_index::<String>(7).ok()?,
            })
        })
        .collect();

    EntrySearchService::search_finish(query.trim().to_string(), page, limit, total, entries)
}

#[test]
fn test_search_entries_finds_matching() {
    runtime().block_on(async {
        let conn = setup_test_db_with_fts().await;

        insert_entry(&conn, "My Movie Collection", Some("All my favorite films")).await;
        insert_entry(&conn, "Book Notes", Some("Notes from reading")).await;
        insert_entry(&conn, "Travel Photos", Some("Photos from trips")).await;

        let result = run_search(&conn, 1, "movie", 0, 10).await;

        assert_eq!(result.total, 1);
        assert_eq!(result.entries.len(), 1);
        assert_eq!(result.entries[0].title, "My Movie Collection");
        assert_eq!(result.query, "movie");
    });
}

#[test]
fn test_search_entries_no_results() {
    runtime().block_on(async {
        let conn = setup_test_db_with_fts().await;

        insert_entry(&conn, "Test Entry", None).await;

        let result = run_search(&conn, 1, "xyz123nonexistent", 0, 10).await;

        assert_eq!(result.total, 0);
        assert_eq!(result.entries.len(), 0);
    });
}

#[test]
fn test_search_entries_prefix_matching() {
    runtime().block_on(async {
        let conn = setup_test_db_with_fts().await;

        insert_entry(&conn, "Application Settings", None).await;
        insert_entry(&conn, "Apple Products", None).await;
        insert_entry(&conn, "Banana Recipes", None).await;

        let result = run_search(&conn, 1, "app", 0, 10).await;

        assert_eq!(result.total, 2);
        assert!(result
            .entries
            .iter()
            .any(|e| e.title == "Application Settings"));
        assert!(result.entries.iter().any(|e| e.title == "Apple Products"));
    });
}

#[test]
fn test_search_entries_case_insensitive() {
    runtime().block_on(async {
        let conn = setup_test_db_with_fts().await;

        insert_entry(&conn, "JavaScript Tutorial", None).await;

        let result = run_search(&conn, 1, "javascript", 0, 10).await;

        assert_eq!(result.total, 1);
        assert_eq!(result.entries[0].title, "JavaScript Tutorial");
    });
}

#[test]
fn test_search_entries_searches_description() {
    runtime().block_on(async {
        let conn = setup_test_db_with_fts().await;

        insert_entry(&conn, "Random Title", Some("Contains special keyword here")).await;

        let result = run_search(&conn, 1, "keyword", 0, 10).await;

        assert_eq!(result.total, 1);
        assert_eq!(result.entries[0].title, "Random Title");
    });
}

#[test]
fn test_search_entries_quoted_query_is_safe() {
    runtime().block_on(async {
        let conn = setup_test_db_with_fts().await;

        insert_entry(&conn, "Plain Entry", None).await;

        let result = run_search(&conn, 1, "plain\" OR \"entry", 0, 10).await;

        assert_eq!(result.total, 0);
    });
}
