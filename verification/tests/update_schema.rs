use iceberg_transaction::error::ErrorKind;
use iceberg_transaction::schema::{NestedField, PrimitiveType, Schema, Type};
use iceberg_transaction::table::{TableMetadata, TableRequirement, TableUpdate};
use iceberg_transaction::transaction::{Action, ApplyTransactionAction, Transaction};
use iceberg_transaction::update_schema::UpdateSchemaAction;
use uuid::Uuid;

const TABLE_UUID: u128 = 0x9c12d441_03fe_4693_9a96_a0705ddf69c1;

fn make_v2_table() -> TableMetadata {
    TableMetadata {
        uuid: Uuid::from_u128(TABLE_UUID),
        current_schema_id: 1,
        last_column_id: 3,
        current_snapshot_id: Some(3055729675574597004),
    }
}

fn schema_with_one_int_column() -> Schema {
    Schema {
        schema_id: 1,
        fields: vec![NestedField::required(
            1,
            "id",
            Type::Primitive(PrimitiveType::Int),
        )],
        identifier_field_ids: vec![],
    }
}

#[test]
fn applies_action_to_transaction() {
    let table = make_v2_table();
    let tx = Transaction::new(&table);
    let tx = UpdateSchemaAction::new()
        .set_schema(schema_with_one_int_column())
        .apply(tx)
        .unwrap();

    assert_eq!(tx.actions.len(), 1);

    let action = match &tx.actions[0] {
        Action::UpdateSchema(action) => action,
        _ => panic!("UpdateSchemaAction was not applied to Transaction!"),
    };

    assert!(action.target_schema.is_some());
}

#[test]
fn commit_without_schema_set_errors() {
    let table = make_v2_table();
    let action = UpdateSchemaAction::new();
    let result = action.commit(&table);
    assert!(result.is_err());
    let err = result.err().unwrap();
    assert!(err.message().contains("Schema is not set"));
    assert_eq!(err.kind, ErrorKind::DataInvalid);
    assert_eq!(err.message(), "Schema is not set for UpdateSchemaAction!");
}

#[test]
fn commit_emits_add_schema_and_set_current_schema_updates() {
    let table = make_v2_table();
    let action = UpdateSchemaAction::new().set_schema(schema_with_one_int_column());
    let commit = action.commit(&table).unwrap();
    let updates = commit.updates;
    let requirements = commit.requirements;

    assert_eq!(updates.len(), 2);
    assert!(matches!(updates[0], TableUpdate::AddSchema { .. }));
    assert!(matches!(
        updates[1],
        TableUpdate::SetCurrentSchema { schema_id: -1 }
    ));

    // Three requirements, in a fixed order.
    assert_eq!(requirements.len(), 3);
    assert!(matches!(
        requirements[0],
        TableRequirement::UuidMatch { .. }
    ));
    assert!(matches!(
        requirements[1],
        TableRequirement::CurrentSchemaIdMatch { .. }
    ));
    assert!(matches!(
        requirements[2],
        TableRequirement::LastAssignedFieldIdMatch { .. }
    ));
}

#[test]
fn commit_carries_schema_and_table_state() {
    let table = make_v2_table();
    let mut other = schema_with_one_int_column();
    other.schema_id = 9;
    let commit = UpdateSchemaAction::default()
        .set_schema(other)
        .set_schema(schema_with_one_int_column())
        .commit(&table)
        .unwrap();
    assert!(matches!(
        &commit.updates[0],
        TableUpdate::AddSchema { schema } if *schema == schema_with_one_int_column()
    ));
    assert_eq!(
        commit.requirements,
        vec![
            TableRequirement::UuidMatch {
                uuid: Uuid::from_u128(TABLE_UUID)
            },
            TableRequirement::CurrentSchemaIdMatch {
                current_schema_id: 1
            },
            TableRequirement::LastAssignedFieldIdMatch {
                last_assigned_field_id: 3
            },
        ]
    );
}
