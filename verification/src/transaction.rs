//! Transactions: the actions to be committed to a table, in order.

use vstd::prelude::*;

use crate::append::FastAppendAction;
use crate::error::Error;
#[allow(unused_imports)]
use crate::manifest::DataFile;
use crate::rewrite::RewriteFilesAction;
use crate::table::TableMetadata;
use crate::update_schema::UpdateSchemaAction;

verus! {

/// An action of a transaction.
pub enum Action {
    FastAppend(FastAppendAction),
    RewriteFiles(RewriteFilesAction),
    UpdateSchema(UpdateSchemaAction),
}

/// The actions to be committed to a table, in order.
pub struct Transaction {
    pub table: TableMetadata,
    pub actions: Vec<Action>,
}

impl Transaction {
    /// A transaction on `table` with no action.
    pub fn new(table: &TableMetadata) -> (tx: Transaction)
        ensures
            tx.table == *table,
            tx.actions@ == Seq::<Action>::empty(),
    {
        Transaction { table: *table, actions: Vec::new() }
    }

    /// An action that appends files. It appends nothing yet, and checks for duplicates.
    pub fn fast_append(&self) -> (action: FastAppendAction)
        ensures
            action.check_duplicate,
            action.commit_uuid is None,
            action.key_metadata is None,
            action.snapshot_properties@ == Map::<String, String>::empty(),
            action.added_data_files@ == Seq::<DataFile>::empty(),
            action.added_delete_files@ == Seq::<DataFile>::empty(),
            action.is_routed(),
    {
        FastAppendAction::new()
    }

    /// An action that swaps files. It removes nothing and adds nothing yet.
    pub fn rewrite_files(&self) -> (action: RewriteFilesAction)
        ensures
            action.commit_uuid is None,
            action.key_metadata is None,
            action.snapshot_properties@ == Map::<String, String>::empty(),
            action.added_data_files@ == Seq::<DataFile>::empty(),
            action.added_delete_files@ == Seq::<DataFile>::empty(),
            action.removed_paths@ == Set::<Seq<char>>::empty(),
            action.is_routed(),
    {
        RewriteFilesAction::new()
    }
}

/// Actions that can become part of a transaction.
pub trait ApplyTransactionAction: Sized {
    /// The action as a part of a transaction.
    spec fn as_action(self) -> Action;

    /// Puts the action at the end of `tx`.
    fn apply(self, tx: Transaction) -> (result: Result<Transaction, Error>)
        ensures
            result matches Ok(applied) && applied.table == tx.table && applied.actions@
                == tx.actions@.push(self.as_action()),
    ;
}

impl ApplyTransactionAction for FastAppendAction {
    open spec fn as_action(self) -> Action {
        Action::FastAppend(self)
    }

    fn apply(self, tx: Transaction) -> (result: Result<Transaction, Error>)
        ensures
            result matches Ok(applied) && applied.actions@ == tx.actions@.push(
                Action::FastAppend(self),
            ),
    {
        let mut tx = tx;
        tx.actions.push(Action::FastAppend(self));
        Ok(tx)
    }
}

impl ApplyTransactionAction for RewriteFilesAction {
    open spec fn as_action(self) -> Action {
        Action::RewriteFiles(self)
    }

    fn apply(self, tx: Transaction) -> (result: Result<Transaction, Error>)
        ensures
            result matches Ok(applied) && applied.actions@ == tx.actions@.push(
                Action::RewriteFiles(self),
            ),
    {
        let mut tx = tx;
        tx.actions.push(Action::RewriteFiles(self));
        Ok(tx)
    }
}

impl ApplyTransactionAction for UpdateSchemaAction {
    open spec fn as_action(self) -> Action {
        Action::UpdateSchema(self)
    }

    fn apply(self, tx: Transaction) -> (result: Result<Transaction, Error>)
        ensures
            result matches Ok(applied) && applied.actions@ == tx.actions@.push(
                Action::UpdateSchema(self),
            ),
    {
        let mut tx = tx;
        tx.actions.push(Action::UpdateSchema(self));
        Ok(tx)
    }
}

} // verus!
