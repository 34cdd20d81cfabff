use db_copier::model::{ColumnInfo, TableInfo};
use db_copier::schema::{
    assemble_table_info, column_info, reads_yes, sync_statements, CatalogColumn, SchemaCache,
    CATALOG_READS,
};

fn users() -> TableInfo {
    TableInfo {
        name: "users".into(),
        columns: vec![
            ColumnInfo {
                name: "id".into(),
                data_type: "integer".into(),
                is_nullable: false,
                column_default: Some("nextval('users_id_seq'::regclass)".into()),
                character_maximum_length: None,
            },
            ColumnInfo {
                name: "email".into(),
                data_type: "character varying".into(),
                is_nullable: true,
                column_default: None,
                character_maximum_length: Some(255),
            },
            ColumnInfo {
                name: "active".into(),
                data_type: "boolean".into(),
                is_nullable: false,
                column_default: None,
                character_maximum_length: None,
            },
        ],
        indexes: vec![
            "CREATE UNIQUE INDEX users_pkey ON public.users USING btree (id)".into(),
            "CREATE INDEX users_email ON public.users USING btree (email)".into(),
        ],
        constraints: vec![
            "PRIMARY KEY (id)".into(),
            "FOREIGN KEY (org_id) REFERENCES orgs(id)".into(),
            "CHECK ((id > 0))".into(),
        ],
    }
}

#[test]
fn sync_plan_has_one_drop_one_create_and_the_rest_in_order() {
    let plan = sync_statements(&users(), false);
    assert_eq!(plan.drop, "DROP TABLE IF EXISTS \"users\" CASCADE");
    assert_eq!(
        plan.create,
        "CREATE TABLE \"users\" (\n    \"id\" integer NOT NULL DEFAULT nextval('users_id_seq'::regclass),\n    \"email\" character varying,\n    \"active\" boolean NOT NULL\n)"
    );
    assert_eq!(
        plan.constraints,
        vec![
            "ALTER TABLE \"users\" ADD PRIMARY KEY (id)",
            "ALTER TABLE \"users\" ADD CHECK ((id > 0))",
        ]
    );
    assert_eq!(plan.indexes, users().indexes);
    let all = plan.statements();
    assert_eq!(all.len(), 6);
    assert_eq!(all[0], plan.drop);
    assert_eq!(all[1], plan.create);
    assert_eq!(all[2..4], plan.constraints[..]);
    assert_eq!(all[4..], plan.indexes[..]);
}

#[test]
fn ignoring_foreign_keys_applies_no_constraint() {
    let plan = sync_statements(&users(), true);
    assert!(plan.constraints.is_empty());
    assert_eq!(plan.indexes.len(), 2);
    assert_eq!(plan.statements().len(), 4);
}

#[test]
fn foreign_key_is_found_anywhere_in_the_definition() {
    let mut info = users();
    info.constraints = vec![
        "FOREIGN KEY".into(),
        "x FOREIGN KEY".into(),
        "FOREIGN KEY y".into(),
        "foreign key (a)".into(),
        "FOREIGN  KEY (a)".into(),
        "FOREIGN KE".into(),
        "".into(),
    ];
    let plan = sync_statements(&info, false);
    assert_eq!(
        plan.constraints,
        vec![
            "ALTER TABLE \"users\" ADD foreign key (a)",
            "ALTER TABLE \"users\" ADD FOREIGN  KEY (a)",
            "ALTER TABLE \"users\" ADD FOREIGN KE",
            "ALTER TABLE \"users\" ADD ",
        ]
    );
}

#[test]
fn table_without_columns_still_gets_its_statements() {
    let info = TableInfo { name: "t".into(), columns: vec![], indexes: vec![], constraints: vec![] };
    let plan = sync_statements(&info, false);
    assert_eq!(plan.create, "CREATE TABLE \"t\" (\n\n)");
    assert_eq!(plan.statements(), vec!["DROP TABLE IF EXISTS \"t\" CASCADE", "CREATE TABLE \"t\" (\n\n)"]);
}

#[test]
fn quotes_inside_identifiers_are_doubled() {
    let info = TableInfo {
        name: "we\"ird".into(),
        columns: vec![ColumnInfo {
            name: "a\"b".into(),
            data_type: "text".into(),
            is_nullable: true,
            column_default: None,
            character_maximum_length: None,
        }],
        indexes: vec![],
        constraints: vec!["UNIQUE (x)".into()],
    };
    let plan = sync_statements(&info, false);
    assert_eq!(plan.drop, "DROP TABLE IF EXISTS \"we\"\"ird\" CASCADE");
    assert_eq!(plan.create, "CREATE TABLE \"we\"\"ird\" (\n    \"a\"\"b\" text\n)");
    assert_eq!(plan.constraints, vec!["ALTER TABLE \"we\"\"ird\" ADD UNIQUE (x)"]);
}

#[test]
fn nullable_is_yes_in_any_case() {
    for yes in ["YES", "yes", "Yes", "yEs"] {
        assert!(reads_yes(yes));
    }
    for no in ["NO", "", "Y", "YESS", " YES", "YE5"] {
        assert!(!reads_yes(no));
    }
}

#[test]
fn catalog_rows_become_the_table_definition() {
    let rows = vec![
        CatalogColumn {
            column_name: "id".into(),
            data_type: "integer".into(),
            is_nullable: "NO".into(),
            column_default: Some("0".into()),
            character_maximum_length: None,
        },
        CatalogColumn {
            column_name: "name".into(),
            data_type: "text".into(),
            is_nullable: "YES".into(),
            column_default: None,
            character_maximum_length: Some(40),
        },
    ];
    let info = assemble_table_info("t", &rows, &vec!["CREATE INDEX i ON t (id)".into()], &vec!["PRIMARY KEY (id)".into()]);
    assert_eq!(
        info,
        TableInfo {
            name: "t".into(),
            columns: vec![
                ColumnInfo {
                    name: "id".into(),
                    data_type: "integer".into(),
                    is_nullable: false,
                    column_default: Some("0".into()),
                    character_maximum_length: None,
                },
                ColumnInfo {
                    name: "name".into(),
                    data_type: "text".into(),
                    is_nullable: true,
                    column_default: None,
                    character_maximum_length: Some(40),
                },
            ],
            indexes: vec!["CREATE INDEX i ON t (id)".into()],
            constraints: vec!["PRIMARY KEY (id)".into()],
        }
    );
    assert_eq!(column_info(&rows[1]), info.columns[1]);
}

#[test]
fn second_inspection_reads_nothing() {
    let mut cache = SchemaCache::new();
    assert_eq!(CATALOG_READS, 3);
    assert_eq!(cache.catalog_reads("users"), 3);
    assert_eq!(cache.get("users"), None);
    cache.store(users());
    assert_eq!(cache.catalog_reads("users"), 0);
    assert_eq!(cache.get("users"), Some(users()));
    assert_eq!(cache.catalog_reads("orders"), 3);
}

#[test]
fn cache_entry_is_never_overwritten() {
    let mut cache = SchemaCache::new();
    cache.store(users());
    let mut changed = users();
    changed.columns.clear();
    cache.store(changed);
    assert_eq!(cache.get("users"), Some(users()));
}
