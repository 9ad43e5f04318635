use dbml_entity::refs::{RefBlock, RefId, RefSettings, RefAction, Relation};
use dbml_entity::schema::{
    ColSettings, ColType, DefaultValue, EnumBlock, IndexDef, SchemaBlock, TableBlock, TableColumn,
    TableIdent, Target,
};
use dbml_entity::transpiler::{transpile, TranspileError};

fn col(name: &str, ty: ColType) -> TableColumn {
    TableColumn {
        name: name.to_string(),
        col_type: ty,
        settings: ColSettings {
            is_pk: false,
            is_incremental: false,
            is_nullable: false,
            is_unique: false,
            default: None,
        },
    }
}

fn pk_col(name: &str, ty: ColType) -> TableColumn {
    let mut c = col(name, ty);
    c.settings.is_pk = true;
    c.settings.is_incremental = true;
    c
}

fn table(name: &str, cols: Vec<TableColumn>) -> TableBlock {
    TableBlock {
        ident: TableIdent { name: name.to_string(), schema: None },
        cols,
        indexes: vec![],
    }
}

fn ref_id(tbl: &str, c: &str) -> RefId {
    RefId { schema: None, table: tbl.to_string(), compositions: vec![c.to_string()] }
}

fn many2one(from_tbl: &str, from_col: &str, to_tbl: &str, to_col: &str) -> RefBlock {
    RefBlock {
        rel: Relation::Many2One,
        lhs: Some(ref_id(from_tbl, from_col)),
        rhs: ref_id(to_tbl, to_col),
        settings: None,
    }
}

fn schema(tables: Vec<TableBlock>, enums: Vec<EnumBlock>, refs: Vec<RefBlock>) -> SchemaBlock {
    SchemaBlock { tables, enums, refs }
}

fn run(s: &SchemaBlock) -> Result<String, TranspileError> {
    transpile(s, &Target::Postgres, "tool", "1.0")
}

#[test]
fn self_relation_full_module() {
    let users = table(
        "users",
        vec![pk_col("id", ColType::Integer), col("parent_id", ColType::Integer)],
    );
    let s = schema(vec![users], vec![], vec![many2one("users", "parent_id", "users", "id")]);
    let out = run(&s).unwrap();
    let expected = [
        "//! Generated by tool 1.0",
        "",
        "use sea_orm::entity::prelude::*;",
        "",
        "pub mod users {",
        "  use sea_orm::entity::prelude::*;",
        "",
        "  #[derive(Clone, Debug, PartialEq, DeriveEntityModel)]",
        "  #[sea_orm(table_name = \"users\", schema_name = \"public\")]",
        "  pub struct Model {",
        "    #[sea_orm(primary_key)]",
        "    pub id: i32,",
        "    pub parent_id: i32,",
        "  }",
        "",
        "  #[derive(Copy, Clone, Debug, EnumIter, DeriveRelation)]",
        "  pub enum Relation {",
        "    #[sea_orm(belongs_to = \"Entity\", from = \"Column::ParentId\", to = \"Column::Id\")]",
        "    SelfReferencing,",
        "  }",
        "  pub struct SelfReferencingLink {",
        "  }",
        "  impl Linked for SelfReferencingLink {",
        "    type FromEntity = Entity;",
        "    type ToEntity = Entity;",
        "",
        "    fn link(&self) -> Vec<RelationDef> {",
        "      vec![Relation::SelfReferencing.def()]",
        "    }",
        "  }",
        "",
        "  impl ActiveModelBehavior for ActiveModel {}",
        "}",
        "",
    ]
    .join("\n");
    assert_eq!(out, expected);
    // exactly one self-relation variant and one link block
    assert_eq!(out.matches("SelfReferencing,").count(), 1);
    assert_eq!(out.matches("pub struct SelfReferencingLink").count(), 1);
}

#[test]
fn forward_and_reverse_relation() {
    let a = table("a", vec![pk_col("id", ColType::Integer), col("b_id", ColType::Integer)]);
    let b = table("b", vec![pk_col("id", ColType::Integer)]);
    let s = schema(vec![a, b], vec![], vec![many2one("a", "b_id", "b", "id")]);
    let out = run(&s).unwrap();
    // forward view in a's module: a belongs-to variant named after B
    assert!(out.contains(
        "#[sea_orm(belongs_to = \"super::b::Entity\", from = \"Column::BId\", to = \"super::b::Column::Id\")]\n    B,"
    ));
    assert!(out.contains("impl Related<super::b::Entity> for Entity"));
    assert!(out.contains("Relation::B.def()"));
    // reverse view in b's module: a has-many variant named after A
    assert!(out.contains("#[sea_orm(has_many = \"super::a::Entity\")]\n    A,"));
    assert!(out.contains("impl Related<super::a::Entity> for Entity"));
    assert!(out.contains("Relation::A.def()"));
}

#[test]
fn one_to_one_reverse_is_has_one() {
    let a = table("a", vec![pk_col("id", ColType::Integer), col("b_id", ColType::Integer)]);
    let b = table("b", vec![pk_col("id", ColType::Integer)]);
    let mut r = many2one("a", "b_id", "b", "id");
    r.rel = Relation::One2One;
    let s = schema(vec![a, b], vec![], vec![r]);
    let out = run(&s).unwrap();
    assert!(out.contains("#[sea_orm(has_one = \"super::a::Entity\")]"));
}

#[test]
fn pk_with_auto_increment_disabled_order() {
    let mut c = col("code", ColType::Integer);
    c.settings.is_pk = true;
    c.settings.is_incremental = false;
    let s = schema(vec![table("items", vec![c])], vec![], vec![]);
    let out = run(&s).unwrap();
    assert!(out.contains("#[sea_orm(primary_key, auto_increment = false)]"));
}

#[test]
fn index_derived_pk_never_emits_marker() {
    let t = TableBlock {
        ident: TableIdent { name: "items".to_string(), schema: None },
        cols: vec![col("code", ColType::Integer)],
        indexes: vec![IndexDef { cols: vec!["code".to_string()], is_pk: true, is_unique: false }],
    };
    let s = schema(vec![t], vec![], vec![]);
    let out = run(&s).unwrap();
    assert!(out.contains("#[sea_orm(primary_key)]"));
    assert!(!out.contains("auto_increment"));
}

#[test]
fn index_derived_unique_emitted_once() {
    let t = TableBlock {
        ident: TableIdent { name: "users".to_string(), schema: None },
        cols: vec![col("email", ColType::VarChar)],
        indexes: vec![IndexDef {
            cols: vec!["email".to_string()],
            is_pk: false,
            is_unique: true,
        }],
    };
    let s = schema(vec![t], vec![], vec![]);
    let out = run(&s).unwrap();
    assert_eq!(out.matches("unique").count(), 1);
    assert!(out.contains("#[sea_orm(unique)]"));
}

#[test]
fn doubly_qualified_unique_emitted_once() {
    let mut c = col("email", ColType::VarChar);
    c.settings.is_unique = true;
    let t = TableBlock {
        ident: TableIdent { name: "users".to_string(), schema: None },
        cols: vec![c],
        indexes: vec![IndexDef {
            cols: vec!["email".to_string()],
            is_pk: false,
            is_unique: true,
        }],
    };
    let s = schema(vec![t], vec![], vec![]);
    let out = run(&s).unwrap();
    assert_eq!(out.matches("unique").count(), 1);
}

#[test]
fn one_to_many_fails_without_output() {
    let a = table("a", vec![pk_col("id", ColType::Integer)]);
    let b = table("b", vec![pk_col("id", ColType::Integer)]);
    let mut r = many2one("a", "b_id", "b", "id");
    r.rel = Relation::One2Many;
    let s = schema(vec![a, b], vec![], vec![r]);
    match run(&s) {
        Err(TranspileError::UnsupportedRelationKind { rel, table }) => {
            assert_eq!(rel, Relation::One2Many);
            assert_eq!(table, "b");
        },
        other => panic!("expected an unsupported-relation-kind error, got {:?}", other),
    }
}

#[test]
fn many_to_many_fails_without_output() {
    let a = table("a", vec![pk_col("id", ColType::Integer)]);
    let b = table("b", vec![pk_col("id", ColType::Integer)]);
    let mut r = many2one("a", "id", "b", "id");
    r.rel = Relation::Many2Many;
    let s = schema(vec![a, b], vec![], vec![r]);
    match run(&s) {
        Err(TranspileError::UnsupportedRelationKind { rel, .. }) => {
            assert_eq!(rel, Relation::Many2Many);
        },
        other => panic!("expected an unsupported-relation-kind error, got {:?}", other),
    }
}

#[test]
fn undefined_kind_fails() {
    let a = table("a", vec![pk_col("id", ColType::Integer)]);
    let mut r = many2one("a", "id", "a", "id");
    r.rel = Relation::Undef;
    let s = schema(vec![a], vec![], vec![r]);
    assert!(matches!(run(&s), Err(TranspileError::UnsupportedRelationKind { .. })));
}

#[test]
fn missing_source_endpoint_fails() {
    let a = table("a", vec![pk_col("id", ColType::Integer)]);
    let r = RefBlock {
        rel: Relation::Many2One,
        lhs: None,
        rhs: ref_id("a", "id"),
        settings: None,
    };
    let s = schema(vec![a], vec![], vec![r]);
    match run(&s) {
        Err(TranspileError::MissingCompositionColumn { table }) => assert_eq!(table, "a"),
        other => panic!("expected a missing-composition error, got {:?}", other),
    }
}

#[test]
fn empty_composition_fails() {
    let a = table("a", vec![pk_col("id", ColType::Integer)]);
    let r = RefBlock {
        rel: Relation::Many2One,
        lhs: Some(RefId { schema: None, table: "a".to_string(), compositions: vec![] }),
        rhs: ref_id("a", "id"),
        settings: None,
    };
    let s = schema(vec![a], vec![], vec![r]);
    assert!(matches!(run(&s), Err(TranspileError::MissingCompositionColumn { .. })));
}

#[test]
fn kind_error_wins_over_composition_error() {
    let a = table("a", vec![pk_col("id", ColType::Integer)]);
    let broken = RefBlock {
        rel: Relation::Many2One,
        lhs: None,
        rhs: ref_id("a", "id"),
        settings: None,
    };
    let mut bad_kind = many2one("a", "id", "a", "id");
    bad_kind.rel = Relation::Many2Many;
    let s = schema(vec![a], vec![], vec![broken, bad_kind]);
    assert!(matches!(run(&s), Err(TranspileError::UnsupportedRelationKind { .. })));
}

#[test]
fn enum_values_case_converted_with_raw_annotation() {
    let e = EnumBlock {
        name: "status".to_string(),
        schema: None,
        values: vec!["active".to_string(), "inactive".to_string()],
    };
    let s = schema(vec![], vec![e], vec![]);
    let out = run(&s).unwrap();
    let expected = [
        "//! Generated by tool 1.0",
        "",
        "use sea_orm::entity::prelude::*;",
        "",
        "#[derive(Clone, Debug, PartialEq, EnumIter, DeriveActiveEnum)]",
        "#[sea_orm(rs_type = \"String\", db_type = \"Enum\", enum_name = \"status\", schema_name = \"public\")]",
        "pub enum Status {",
        "  #[sea_orm(string_value = \"active\")]",
        "  Active,",
        "  #[sea_orm(string_value = \"inactive\")]",
        "  Inactive,",
        "}",
        "",
    ]
    .join("\n");
    assert_eq!(out, expected);
}

#[test]
fn transpile_twice_is_byte_identical() {
    let users = table(
        "users",
        vec![pk_col("id", ColType::Integer), col("parent_id", ColType::Integer)],
    );
    let e = EnumBlock {
        name: "status".to_string(),
        schema: None,
        values: vec!["active".to_string()],
    };
    let s = schema(vec![users], vec![e], vec![many2one("users", "parent_id", "users", "id")]);
    let first = run(&s).unwrap();
    let second = run(&s).unwrap();
    assert_eq!(first, second);
}

#[test]
fn rendered_output_has_balanced_delimiters() {
    let a = table("a", vec![pk_col("id", ColType::Integer), col("b_id", ColType::Integer)]);
    let b = table("b", vec![pk_col("id", ColType::Integer)]);
    let e = EnumBlock {
        name: "status".to_string(),
        schema: None,
        values: vec!["active".to_string(), "inactive".to_string()],
    };
    let s = schema(vec![a, b], vec![e], vec![many2one("a", "b_id", "b", "id")]);
    let out = run(&s).unwrap();
    let opens = out.chars().filter(|c| *c == '{').count();
    let closes = out.chars().filter(|c| *c == '}').count();
    assert_eq!(opens, closes);
}

#[test]
fn default_values_rendered_canonically() {
    let mut c1 = col("count", ColType::BigInt);
    c1.settings.default = Some(DefaultValue::Int(-42));
    let mut c2 = col("label", ColType::VarChar);
    c2.settings.default = Some(DefaultValue::Str("none".to_string()));
    let mut c3 = col("active", ColType::Bool);
    c3.settings.default = Some(DefaultValue::Bool(true));
    let s = schema(vec![table("things", vec![c1, c2, c3])], vec![], vec![]);
    let out = run(&s).unwrap();
    assert!(out.contains("#[sea_orm(default_value = -42)]"));
    assert!(out.contains("#[sea_orm(default_value = \"none\")]"));
    assert!(out.contains("#[sea_orm(default_value = true)]"));
}

#[test]
fn referential_actions_rendered_pascal_cased() {
    let a = table("a", vec![pk_col("id", ColType::Integer), col("b_id", ColType::Integer)]);
    let b = table("b", vec![pk_col("id", ColType::Integer)]);
    let mut r = many2one("a", "b_id", "b", "id");
    r.settings = Some(RefSettings {
        on_delete: Some(RefAction::Cascade),
        on_update: Some(RefAction::SetNull),
    });
    let s = schema(vec![a, b], vec![], vec![r]);
    let out = run(&s).unwrap();
    assert!(out.contains("on_delete = \"Cascade\", on_update = \"SetNull\""));
}

#[test]
fn mixed_case_table_name_converted() {
    let t = table("OrderItems", vec![pk_col("id", ColType::Integer)]);
    let other = table("warehouses", vec![pk_col("id", ColType::Integer), col("item_id", ColType::Integer)]);
    let s = schema(
        vec![t, other],
        vec![],
        vec![many2one("warehouses", "item_id", "OrderItems", "id")],
    );
    let out = run(&s).unwrap();
    assert!(out.contains("pub mod order_items {"));
    assert!(out.contains("belongs_to = \"super::order_items::Entity\""));
    assert!(out.contains("    OrderItems,"));
    assert!(out.contains("#[sea_orm(has_many = \"super::warehouses::Entity\")]"));
}

#[test]
fn nullable_wraps_type_and_emits_attribute() {
    let mut c = col("note", ColType::Text);
    c.settings.is_nullable = true;
    let s = schema(vec![table("things", vec![c])], vec![], vec![]);
    let out = run(&s).unwrap();
    assert!(out.contains("#[sea_orm(column_type = \"Text\", nullable)]"));
    assert!(out.contains("pub note: Option<String>,"));
}

#[test]
fn named_schema_is_kept() {
    let t = TableBlock {
        ident: TableIdent { name: "users".to_string(), schema: Some("auth".to_string()) },
        cols: vec![pk_col("id", ColType::Integer)],
        indexes: vec![],
    };
    let s = schema(vec![t], vec![], vec![]);
    let out = run(&s).unwrap();
    assert!(out.contains("#[sea_orm(table_name = \"users\", schema_name = \"auth\")]"));
}

#[test]
fn empty_schema_renders_header_only() {
    let s = schema(vec![], vec![], vec![]);
    let out = run(&s).unwrap();
    assert_eq!(out, "//! Generated by tool 1.0\n\nuse sea_orm::entity::prelude::*;\n");
}

#[test]
fn enum_typed_column_uses_pascal_type() {
    let c = col("state", ColType::Enum("order_state".to_string()));
    let s = schema(vec![table("orders", vec![c])], vec![], vec![]);
    let out = run(&s).unwrap();
    assert!(out.contains("pub state: OrderState,"));
}
