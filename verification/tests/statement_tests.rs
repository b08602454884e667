use yehorbolt_sql_parser::parse_create_table;
use yehorbolt_sql_parser::parse_sql;
use yehorbolt_sql_parser::unwrap_column_info;
use yehorbolt_sql_parser::ColumnInfoOption;
use yehorbolt_sql_parser::ParseTree;
use yehorbolt_sql_parser::Parsed;
use yehorbolt_sql_parser::Rule;
use yehorbolt_sql_parser::SQLParser;
use yehorbolt_sql_parser::SqlParseError;
use yehorbolt_sql_parser::SqlType;
use yehorbolt_sql_parser::TreeNode;

#[test]
fn reformatted_statement_gives_identical_result() {
    let compact = "CREATE TABLE financial_report { id INT, currency_name TEXT, is_usable BOOL }";
    let spread =
        "\n  CREATE\tTABLE\n financial_report\n{\n\tid\n INT ,\n currency_name\r\n TEXT,\n is_usable    BOOL\n}\n";
    let a = parse_sql(compact).unwrap();
    let b = parse_sql(spread).unwrap();
    assert_eq!(a, b);
}

#[test]
fn columns_come_out_in_source_order() {
    let stmt = "CREATE TABLE t { d TEXT, c BOOL, b INT, a TEXT }";
    let Parsed::CreateTable(res) = parse_sql(stmt).unwrap();
    assert_eq!(res.column_info.len(), 4);
    assert_eq!(res.column_info[0].column_name, "d");
    assert_eq!(res.column_info[0].column_type, SqlType::Text);
    assert_eq!(res.column_info[1].column_name, "c");
    assert_eq!(res.column_info[1].column_type, SqlType::Bool);
    assert_eq!(res.column_info[2].column_name, "b");
    assert_eq!(res.column_info[2].column_type, SqlType::Int);
    assert_eq!(res.column_info[3].column_name, "a");
    assert_eq!(res.column_info[3].column_type, SqlType::Text);
}

#[test]
fn minimum_viable_statement() {
    let Parsed::CreateTable(res) = parse_sql("CREATE TABLE t { a INT }").unwrap();
    assert_eq!(res.table_name, "t");
    assert_eq!(res.column_info.len(), 1);
    assert_eq!(res.column_info[0].column_name, "a");
    assert_eq!(res.column_info[0].column_type, SqlType::Int);
}

#[test]
fn trailing_comma_is_permitted() {
    let Parsed::CreateTable(res) = parse_sql("CREATE TABLE t { a INT, b TEXT, }").unwrap();
    assert_eq!(res.column_info.len(), 2);
    let Parsed::CreateTable(res2) = parse_sql("CREATE TABLE t { a INT , }").unwrap();
    assert_eq!(res2.column_info.len(), 1);
}

#[test]
fn empty_column_list_is_rejected() {
    assert!(matches!(
        parse_sql("CREATE TABLE t { }"),
        Err(SqlParseError::InvalidData)
    ));
    assert!(matches!(
        parse_sql("CREATE TABLE t {}"),
        Err(SqlParseError::InvalidData)
    ));
}

#[test]
fn keywords_are_case_sensitive() {
    assert!(matches!(
        parse_sql("create table t { a INT }"),
        Err(SqlParseError::InvalidData)
    ));
    assert!(matches!(
        parse_sql("CREATE TABLE t { a int }"),
        Err(SqlParseError::InvalidData)
    ));
}

#[test]
fn malformed_identifiers_are_rejected() {
    // an identifier may not start with a digit
    assert!(matches!(
        parse_sql("CREATE TABLE 1t { a INT }"),
        Err(SqlParseError::InvalidData)
    ));
    // a character outside the grammar's alphabet is rejected
    assert!(matches!(
        parse_sql("CREATE TABLE t { a INT };"),
        Err(SqlParseError::InvalidData)
    ));
}

#[test]
fn identifiers_may_hold_underscores_and_digits() {
    let Parsed::CreateTable(res) = parse_sql("CREATE TABLE _t2 { a_1 INT, B9 BOOL }").unwrap();
    assert_eq!(res.table_name, "_t2");
    assert_eq!(res.column_info[0].column_name, "a_1");
    assert_eq!(res.column_info[1].column_name, "B9");
}

#[test]
fn trailing_input_is_rejected() {
    assert!(matches!(
        parse_sql("CREATE TABLE t { a INT } extra"),
        Err(SqlParseError::InvalidData)
    ));
    assert!(matches!(
        parse_sql("CREATE TABLE t { a INT } }"),
        Err(SqlParseError::InvalidData)
    ));
}

#[test]
fn failure_is_idempotent() {
    let bad = "ABOBA TABLE t { a INT }";
    let first = parse_sql(bad);
    let second = parse_sql(bad);
    assert!(matches!(first, Err(SqlParseError::InvalidData)));
    assert_eq!(first, second);
    let good = "CREATE TABLE t { a INT }";
    assert_eq!(parse_sql(good), parse_sql(good));
}

#[test]
fn sql_type_from_str_recognizes_the_three_keywords() {
    assert!(matches!(SqlType::from_str("INT"), Ok(SqlType::Int)));
    assert!(matches!(SqlType::from_str("TEXT"), Ok(SqlType::Text)));
    assert!(matches!(SqlType::from_str("BOOL"), Ok(SqlType::Bool)));
    assert!(matches!(
        SqlType::from_str("ABOBA"),
        Err(SqlParseError::InvalidData)
    ));
    assert!(matches!(
        SqlType::from_str("int"),
        Err(SqlParseError::InvalidData)
    ));
    assert!(matches!(
        SqlType::from_str(""),
        Err(SqlParseError::InvalidData)
    ));
    // the FromStr impl goes through the same recognition
    assert!(matches!("BOOL".parse::<SqlType>(), Ok(SqlType::Bool)));
    assert!(matches!(
        "bool".parse::<SqlType>(),
        Err(SqlParseError::InvalidData)
    ));
}

#[test]
fn grammar_engine_produces_nodes_in_document_order() {
    let tree = SQLParser::parse("CREATE TABLE t { a INT, b BOOL }").unwrap();
    let tags: Vec<(Rule, &str)> = tree
        .nodes
        .iter()
        .map(|n| (n.rule, n.text.as_str()))
        .collect();
    assert_eq!(
        tags,
        vec![
            (Rule::TableName, "t"),
            (Rule::ColumnName, "a"),
            (Rule::ColumnType, "INT"),
            (Rule::ColumnName, "b"),
            (Rule::ColumnType, "BOOL"),
        ]
    );
}

#[test]
fn reducer_rejects_incomplete_trees() {
    // no table name node
    let tree = ParseTree {
        nodes: vec![
            TreeNode { rule: Rule::ColumnName, text: String::from("a") },
            TreeNode { rule: Rule::ColumnType, text: String::from("INT") },
        ],
    };
    assert!(matches!(
        parse_create_table(&tree),
        Err(SqlParseError::InvalidData)
    ));
    // a column type with no pending column name
    let tree = ParseTree {
        nodes: vec![
            TreeNode { rule: Rule::TableName, text: String::from("t") },
            TreeNode { rule: Rule::ColumnType, text: String::from("INT") },
        ],
    };
    assert!(matches!(
        parse_create_table(&tree),
        Err(SqlParseError::InvalidData)
    ));
    // a dangling column name with no type
    let tree = ParseTree {
        nodes: vec![
            TreeNode { rule: Rule::TableName, text: String::from("t") },
            TreeNode { rule: Rule::ColumnName, text: String::from("a") },
            TreeNode { rule: Rule::ColumnType, text: String::from("INT") },
            TreeNode { rule: Rule::ColumnName, text: String::from("b") },
        ],
    };
    assert!(matches!(
        parse_create_table(&tree),
        Err(SqlParseError::InvalidData)
    ));
    // an unrecognized type token
    let tree = ParseTree {
        nodes: vec![
            TreeNode { rule: Rule::TableName, text: String::from("t") },
            TreeNode { rule: Rule::ColumnName, text: String::from("a") },
            TreeNode { rule: Rule::ColumnType, text: String::from("ABOBA") },
        ],
    };
    assert!(matches!(
        parse_create_table(&tree),
        Err(SqlParseError::InvalidData)
    ));
    // no columns at all
    let tree = ParseTree {
        nodes: vec![TreeNode { rule: Rule::TableName, text: String::from("t") }],
    };
    assert!(matches!(
        parse_create_table(&tree),
        Err(SqlParseError::InvalidData)
    ));
}

#[test]
fn reducer_accepts_a_complete_tree() {
    let tree = ParseTree {
        nodes: vec![
            TreeNode { rule: Rule::TableName, text: String::from("t") },
            TreeNode { rule: Rule::ColumnName, text: String::from("a") },
            TreeNode { rule: Rule::ColumnType, text: String::from("TEXT") },
        ],
    };
    let ct = parse_create_table(&tree).unwrap();
    assert_eq!(ct.table_name, "t");
    assert_eq!(ct.column_info.len(), 1);
    assert_eq!(ct.column_info[0].column_name, "a");
    assert_eq!(ct.column_info[0].column_type, SqlType::Text);
}

#[test]
fn unwrap_column_info_keeps_order() {
    let mut options = vec![
        Some(ColumnInfoOption {
            column_name: Some(String::from("first")),
            column_type: Some(SqlType::Int),
        }),
        Some(ColumnInfoOption {
            column_name: Some(String::from("second")),
            column_type: Some(SqlType::Bool),
        }),
    ];
    let infos = unwrap_column_info(&mut options);
    assert_eq!(infos.len(), 2);
    assert_eq!(infos[0].column_name, "first");
    assert_eq!(infos[0].column_type, SqlType::Int);
    assert_eq!(infos[1].column_name, "second");
    assert_eq!(infos[1].column_type, SqlType::Bool);
    // the forward pass leaves the accumulator untouched
    assert_eq!(options.len(), 2);
}
