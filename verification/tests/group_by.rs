use index_sync::ast_builder::{col, table, Statement};

#[test]
fn group_by() {
    let actual = table("Bar")
        .select()
        .filter(col("id").is_null())
        .group_by("id, (a + name)")
        .build();
    let Statement::Select(data) = actual.unwrap();
    // SELECT * FROM Bar WHERE id IS NULL GROUP BY id, (a + name)
    assert_eq!(data.table_name, b"Bar".to_vec());
    assert!(data.projection.is_none());
    assert_eq!(data.selection, Some(b"id IS NULL".to_vec()));
    assert_eq!(data.group_by, vec![b"id".to_vec(), b" (a + name)".to_vec()]);
    assert!(data.having.is_none());
    assert!(data.offset.is_none());
    assert!(data.limit.is_none());
}

#[test]
fn group_by_having_build() {
    let group = table("Bar").select().group_by("id");
    let Statement::Select(data) = group.having(col("id").is_null()).build().unwrap();
    assert_eq!(data.group_by, vec![b"id".to_vec()]);
    assert_eq!(data.having, Some(b"id IS NULL".to_vec()));
    assert!(data.selection.is_none());
}

#[test]
fn group_by_limit_offset_build() {
    let Statement::Select(data) = table("Bar")
        .select()
        .group_by("id")
        .limit(col("3"))
        .build()
        .unwrap();
    assert_eq!(data.limit, Some(b"3".to_vec()));
    let Statement::Select(data) = table("Bar")
        .select()
        .group_by("id")
        .offset(col("7"))
        .build()
        .unwrap();
    assert_eq!(data.offset, Some(b"7".to_vec()));
}

#[test]
fn group_by_project_build() {
    let Statement::Select(data) = table("Bar")
        .select()
        .group_by("id")
        .project(index_sync::ast_builder::SelectItemList::from_text("id, name"))
        .build()
        .unwrap();
    assert_eq!(data.projection, Some(b"id, name".to_vec()));
}

#[test]
fn split_expr_list_top_level_commas() {
    let split = index_sync::ast_builder::split_expr_list(&b"a, f(b, c), (d, e)".to_vec());
    assert_eq!(
        split,
        vec![b"a".to_vec(), b" f(b, c)".to_vec(), b" (d, e)".to_vec()]
    );
    let empty = index_sync::ast_builder::split_expr_list(&Vec::new());
    assert!(empty.is_empty());
    let single = index_sync::ast_builder::split_expr_list(&b"id".to_vec());
    assert_eq!(single, vec![b"id".to_vec()]);
}
