//! What the commands of the terminal say about a mutation: the event tag
//! under which it is published, and the answer to the caller.

use crate::rows::StoreTable;
use crate::services::websocket_service::mutation_kind_of;
use crate::sync_queue::Operation;
use crate::text::{decimal, decimal_of, join2, join3, lemma_missing_character, occurs_at};
use vstd::prelude::*;
use vstd::string::*;

verus! {

/// What a command mutates.
#[derive(Clone, Copy, Debug, PartialEq, Eq, Structural)]
pub enum Entity {
    Guest,
    FoodItem,
    Table,
    Order,
    OrderItem,
}

impl Entity {
    /// The table that holds the rows of this entity.
    pub open spec fn table_of(self) -> StoreTable {
        match self {
            Entity::Guest => StoreTable::Guests,
            Entity::FoodItem => StoreTable::FoodItems,
            Entity::Table => StoreTable::Tables,
            Entity::Order => StoreTable::Orders,
            Entity::OrderItem => StoreTable::OrderItems,
        }
    }

    /// The event tag under which a mutation of this entity is published.
    pub open spec fn tag_of(self, operation: Operation) -> Seq<char> {
        match (self, operation) {
            (Entity::Guest, Operation::Insert) => "guest-created"@,
            (Entity::Guest, Operation::Update) => "guest-updated"@,
            (Entity::Guest, Operation::Delete) => "guest-deleted"@,
            (Entity::FoodItem, Operation::Insert) => "food-item-created"@,
            (Entity::FoodItem, Operation::Update) => "food-item-updated"@,
            (Entity::FoodItem, Operation::Delete) => "food-item-deleted"@,
            (Entity::Table, Operation::Insert) => "table-created"@,
            (Entity::Table, Operation::Update) => "table-updated"@,
            (Entity::Table, Operation::Delete) => "table-deleted"@,
            (Entity::Order, Operation::Insert) => "order-created"@,
            (Entity::Order, Operation::Update) => "order-updated"@,
            (Entity::Order, Operation::Delete) => "order-deleted"@,
            (Entity::OrderItem, Operation::Insert) => "order-item-created"@,
            (Entity::OrderItem, Operation::Update) => "order-item-updated"@,
            (Entity::OrderItem, Operation::Delete) => "order-item-deleted"@,
        }
    }

    /// The name of this entity as answers spell it.
    pub open spec fn label_of(self) -> Seq<char> {
        match self {
            Entity::Guest => "Guest"@,
            Entity::FoodItem => "Food item"@,
            Entity::Table => "Table"@,
            Entity::Order => "Order"@,
            Entity::OrderItem => "Order item"@,
        }
    }

    /// The answer to the caller of a command. Only the creation of an order
    /// line is answered without the id of the row.
    pub open spec fn answer_of(self, operation: Operation, id: int) -> Seq<char> {
        match operation {
            Operation::Insert => if self == Entity::OrderItem {
                self.label_of() + " created successfully"@
            } else {
                self.label_of() + " created successfully with ID "@ + decimal_of(id)
            },
            Operation::Update => self.label_of() + " update queued successfully"@,
            Operation::Delete => self.label_of() + " deletion queued successfully"@,
        }
    }

    /// The table that holds the rows of this entity.
    pub fn table(self) -> (table: StoreTable)
        ensures
            table == self.table_of(),
    {
        match self {
            Entity::Guest => StoreTable::Guests,
            Entity::FoodItem => StoreTable::FoodItems,
            Entity::Table => StoreTable::Tables,
            Entity::Order => StoreTable::Orders,
            Entity::OrderItem => StoreTable::OrderItems,
        }
    }

    /// The event tag under which a mutation of this entity is published.
    pub fn event_tag(self, operation: Operation) -> (tag: &'static str)
        ensures
            tag@ == self.tag_of(operation),
    {
        match (self, operation) {
            (Entity::Guest, Operation::Insert) => "guest-created",
            (Entity::Guest, Operation::Update) => "guest-updated",
            (Entity::Guest, Operation::Delete) => "guest-deleted",
            (Entity::FoodItem, Operation::Insert) => "food-item-created",
            (Entity::FoodItem, Operation::Update) => "food-item-updated",
            (Entity::FoodItem, Operation::Delete) => "food-item-deleted",
            (Entity::Table, Operation::Insert) => "table-created",
            (Entity::Table, Operation::Update) => "table-updated",
            (Entity::Table, Operation::Delete) => "table-deleted",
            (Entity::Order, Operation::Insert) => "order-created",
            (Entity::Order, Operation::Update) => "order-updated",
            (Entity::Order, Operation::Delete) => "order-deleted",
            (Entity::OrderItem, Operation::Insert) => "order-item-created",
            (Entity::OrderItem, Operation::Update) => "order-item-updated",
            (Entity::OrderItem, Operation::Delete) => "order-item-deleted",
        }
    }

    /// The name of this entity as answers spell it.
    pub fn label(self) -> (label: &'static str)
        ensures
            label@ == self.label_of(),
    {
        match self {
            Entity::Guest => "Guest",
            Entity::FoodItem => "Food item",
            Entity::Table => "Table",
            Entity::Order => "Order",
            Entity::OrderItem => "Order item",
        }
    }

    /// The answer to the caller of a command on the row `id`.
    pub fn answer(self, operation: Operation, id: i64) -> (answer: String)
        ensures
            answer@ == self.answer_of(operation, id as int),
    {
        match operation {
            Operation::Insert => match self {
                Entity::OrderItem => join2(self.label(), " created successfully"),
                _ => {
                    let digits = decimal(id);
                    join3(self.label(), " created successfully with ID ", digits.as_str())
                },
            },
            Operation::Update => join2(self.label(), " update queued successfully"),
            Operation::Delete => join2(self.label(), " deletion queued successfully"),
        }
    }
}

/// The hub reads from the tag of every command the kind of mutation that the
/// command made: what a terminal publishes, its peers queue as what it was.
pub proof fn lemma_tags_denote_their_operation(entity: Entity, operation: Operation)
    ensures
        mutation_kind_of(entity.tag_of(operation)) == Some(operation),
{
    reveal_strlit("create");
    reveal_strlit("update");
    reveal_strlit("delete");
    match (entity, operation) {
        (Entity::Guest, Operation::Insert) => {
            reveal_strlit("guest-created");
            assert(occurs_at("guest-created"@, "create"@, 6)) by {
                assert("guest-created"@.subrange(6, 12) =~= "create"@);
            }
        },
        (Entity::Guest, Operation::Update) => {
            reveal_strlit("guest-updated");
            lemma_missing_character("guest-updated"@, "create"@, 0);
            assert(occurs_at("guest-updated"@, "update"@, 6)) by {
                assert("guest-updated"@.subrange(6, 12) =~= "update"@);
            }
        },
        (Entity::Guest, Operation::Delete) => {
            reveal_strlit("guest-deleted");
            lemma_missing_character("guest-deleted"@, "create"@, 0);
            lemma_missing_character("guest-deleted"@, "update"@, 1);
            assert(occurs_at("guest-deleted"@, "delete"@, 6)) by {
                assert("guest-deleted"@.subrange(6, 12) =~= "delete"@);
            }
        },
        (Entity::FoodItem, Operation::Insert) => {
            reveal_strlit("food-item-created");
            assert(occurs_at("food-item-created"@, "create"@, 10)) by {
                assert("food-item-created"@.subrange(10, 16) =~= "create"@);
            }
        },
        (Entity::FoodItem, Operation::Update) => {
            reveal_strlit("food-item-updated");
            lemma_missing_character("food-item-updated"@, "create"@, 0);
            assert(occurs_at("food-item-updated"@, "update"@, 10)) by {
                assert("food-item-updated"@.subrange(10, 16) =~= "update"@);
            }
        },
        (Entity::FoodItem, Operation::Delete) => {
            reveal_strlit("food-item-deleted");
            lemma_missing_character("food-item-deleted"@, "create"@, 0);
            lemma_missing_character("food-item-deleted"@, "update"@, 1);
            assert(occurs_at("food-item-deleted"@, "delete"@, 10)) by {
                assert("food-item-deleted"@.subrange(10, 16) =~= "delete"@);
            }
        },
        (Entity::Table, Operation::Insert) => {
            reveal_strlit("table-created");
            assert(occurs_at("table-created"@, "create"@, 6)) by {
                assert("table-created"@.subrange(6, 12) =~= "create"@);
            }
        },
        (Entity::Table, Operation::Update) => {
            reveal_strlit("table-updated");
            lemma_missing_character("table-updated"@, "create"@, 0);
            assert(occurs_at("table-updated"@, "update"@, 6)) by {
                assert("table-updated"@.subrange(6, 12) =~= "update"@);
            }
        },
        (Entity::Table, Operation::Delete) => {
            reveal_strlit("table-deleted");
            lemma_missing_character("table-deleted"@, "create"@, 0);
            lemma_missing_character("table-deleted"@, "update"@, 1);
            assert(occurs_at("table-deleted"@, "delete"@, 6)) by {
                assert("table-deleted"@.subrange(6, 12) =~= "delete"@);
            }
        },
        (Entity::Order, Operation::Insert) => {
            reveal_strlit("order-created");
            assert(occurs_at("order-created"@, "create"@, 6)) by {
                assert("order-created"@.subrange(6, 12) =~= "create"@);
            }
        },
        (Entity::Order, Operation::Update) => {
            reveal_strlit("order-updated");
            lemma_missing_character("order-updated"@, "create"@, 0);
            assert(occurs_at("order-updated"@, "update"@, 6)) by {
                assert("order-updated"@.subrange(6, 12) =~= "update"@);
            }
        },
        (Entity::Order, Operation::Delete) => {
            reveal_strlit("order-deleted");
            lemma_missing_character("order-deleted"@, "create"@, 0);
            lemma_missing_character("order-deleted"@, "update"@, 1);
            assert(occurs_at("order-deleted"@, "delete"@, 6)) by {
                assert("order-deleted"@.subrange(6, 12) =~= "delete"@);
            }
        },
        (Entity::OrderItem, Operation::Insert) => {
            reveal_strlit("order-item-created");
            assert(occurs_at("order-item-created"@, "create"@, 11)) by {
                assert("order-item-created"@.subrange(11, 17) =~= "create"@);
            }
        },
        (Entity::OrderItem, Operation::Update) => {
            reveal_strlit("order-item-updated");
            lemma_missing_character("order-item-updated"@, "create"@, 0);
            assert(occurs_at("order-item-updated"@, "update"@, 11)) by {
                assert("order-item-updated"@.subrange(11, 17) =~= "update"@);
            }
        },
        (Entity::OrderItem, Operation::Delete) => {
            reveal_strlit("order-item-deleted");
            lemma_missing_character("order-item-deleted"@, "create"@, 0);
            lemma_missing_character("order-item-deleted"@, "update"@, 1);
            assert(occurs_at("order-item-deleted"@, "delete"@, 11)) by {
                assert("order-item-deleted"@.subrange(11, 17) =~= "delete"@);
            }
        },
    }
}

} // verus!
