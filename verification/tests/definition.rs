use streaming_meta::catalog::definition::{build_cdc_table_id, extract_external_table_name_from_definition};

#[test]
fn test_extract_cdc_table_name() {
    let ddl1 = "CREATE TABLE t1 () FROM pg_source TABLE 'public.t1'";
    let ddl2 = "CREATE TABLE t2 (v1 int) FROM pg_source TABLE 'mydb.t2'";
    assert_eq!(
        extract_external_table_name_from_definition(ddl1),
        Some("public.t1".into())
    );
    assert_eq!(
        extract_external_table_name_from_definition(ddl2),
        Some("mydb.t2".into())
    );
}

#[test]
fn definitions_without_an_external_table() {
    assert_eq!(extract_external_table_name_from_definition("CREATE TABLE t (v int)"), None);
    assert_eq!(extract_external_table_name_from_definition("CREATE TABLE t () FROM pg_source"), None);
    assert_eq!(extract_external_table_name_from_definition(""), None);
}

#[test]
fn comments_are_read_as_space() {
    let name = extract_external_table_name_from_definition;
    let t1 = Some("public.t1".to_string());
    assert_eq!(name("CREATE/* it's */TABLE t1 () -- don't (\nFROM pg_source/**/TABLE 'public.t1' -- end"), t1);
    assert_eq!(name("-- CREATE TABLE t () FROM a TABLE 'b'\nCREATE TABLE t1 () FROM pg_source TABLE 'public.t1'"), t1);
    assert_eq!(name("CREATE TABLE t1 () /* FROM a TABLE 'b' */ FROM pg_source TABLE 'public.t1'"), t1);
    // marks in a quoted text are no comment, and half a mark is a sign
    assert_eq!(name("CREATE TABLE t1 () FROM pg_source TABLE 'a--b/*c'"), Some("a--b/*c".to_string()));
    assert_eq!(name("CREATE TABLE t1 (v int DEFAULT 4 / 2 - 1 * 3) FROM pg_source TABLE 'public.t1'"), t1);
    // a comment that is not closed; its opening mark does not close it
    assert_eq!(name("CREATE TABLE t1 () FROM pg_source TABLE 'public.t1' /* more"), None);
    assert_eq!(name("CREATE TABLE t1 () FROM pg_source TABLE 'public.t1' /*/"), None);
}

#[test]
fn cdc_table_ids() {
    assert_eq!(build_cdc_table_id(7, &"public.t1".to_string()), "7.public.t1");
}
