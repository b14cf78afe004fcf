//! From a queue entry to what the remote store is sent: the payload is
//! parsed, the row of the entry's table is read out of it, and the plan says
//! whether to send the row, to acknowledge the entry without sending, or to
//! reject it.

use crate::json::{
    flag_member, integer_member, json_document, json_flags, json_integers, json_numbers,
    json_texts, lookup, number_member, parse_document, text_member,
};
use crate::models::amount::Amount;
use crate::models::order::OrderCreate;
use crate::models::staff::StaffCreate;
use crate::rows::{
    order_row, order_row_of, staff_row, staff_row_of, BindValue, BindView, RowInsert, RowView,
    StoreTable,
};
use crate::sync_queue::{Operation, QueueItem, QueueItemView};
use vstd::prelude::*;

verus! {

/// Why a payload cannot be forwarded.
#[derive(Clone, Copy, Debug, PartialEq, Eq, Structural)]
pub enum ForwardError {
    /// The payload is no JSON document.
    Malformed,
    /// The document lacks a member that a row of the table must have, or
    /// holds it in another kind or out of range.
    Incomplete,
}

/// The integer under `key`, where `doc` holds one that fits 32 bits.
pub open spec fn small_integer(doc: serde_json::Value, key: Seq<char>) -> Option<i32> {
    match lookup(json_integers(doc), key) {
        Some(v) if i32::MIN <= v <= i32::MAX => Some(v as i32),
        _ => None,
    }
}

/// The number under `key`, where `doc` holds one.
pub open spec fn amount(doc: serde_json::Value, key: Seq<char>) -> Option<Amount> {
    match lookup(json_numbers(doc), key) {
        Some(bits) => Some(Amount { bits }),
        None => None,
    }
}

fn small_integer_member(doc: &serde_json::Value, key: &str) -> (member: Option<i32>)
    ensures
        member == small_integer(*doc, key@),
{
    match integer_member(doc, key) {
        Some(v) => if -2147483648 <= v && v <= 2147483647 {
            Some(v as i32)
        } else {
            None
        },
        None => None,
    }
}

fn amount_member(doc: &serde_json::Value, key: &str) -> (member: Option<Amount>)
    ensures
        member == amount(*doc, key@),
{
    match number_member(doc, key) {
        Some(bits) => Some(Amount { bits }),
        None => None,
    }
}

fn integer_bind(doc: &serde_json::Value, key: &str) -> (bound: BindValue)
    ensures
        bound@ == BindView::Integer(lookup(json_integers(*doc), key@)),
{
    BindValue::Integer(integer_member(doc, key))
}

fn text_bind(doc: &serde_json::Value, key: &str) -> (bound: BindValue)
    ensures
        bound@ == BindView::Text(lookup(json_texts(*doc), key@)),
{
    BindValue::Text(text_member(doc, key))
}

fn flag_bind(doc: &serde_json::Value, key: &str) -> (bound: BindValue)
    ensures
        bound@ == BindView::Flag(lookup(json_flags(*doc), key@)),
{
    BindValue::Flag(flag_member(doc, key))
}

fn number_bind(doc: &serde_json::Value, key: &str) -> (bound: BindValue)
    ensures
        bound@ == BindView::Number(amount(*doc, key@)),
{
    BindValue::Number(amount_member(doc, key))
}

/// The staff member that `doc` describes: every member of the record present,
/// integers within 32 bits.
pub open spec fn staff_in(doc: serde_json::Value) -> Option<RowView> {
    if small_integer(doc, "business_id"@) is Some && small_integer(doc, "role_id"@) is Some
        && small_integer(doc, "shift_id"@) is Some && small_integer(doc, "status_id"@) is Some
        && lookup(json_texts(doc), "name"@) is Some && lookup(json_texts(doc), "phone"@) is Some
        && lookup(json_texts(doc), "password"@) is Some {
        Some(
            RowView {
                table: StoreTable::Staff,
                values: seq![
                    BindView::Integer(Some(small_integer(doc, "business_id"@)->0 as i64)),
                    BindView::Integer(Some(small_integer(doc, "role_id"@)->0 as i64)),
                    BindView::Integer(Some(small_integer(doc, "shift_id"@)->0 as i64)),
                    BindView::Integer(Some(small_integer(doc, "status_id"@)->0 as i64)),
                    BindView::Text(lookup(json_texts(doc), "name"@)),
                    BindView::Text(lookup(json_texts(doc), "phone"@)),
                    BindView::Text(lookup(json_texts(doc), "password"@)),
                ],
            },
        )
    } else {
        None
    }
}

/// Reads a staff member out of a document; `None` where a member is missing,
/// of another kind, or an integer beyond 32 bits.
pub fn decode_staff(doc: &serde_json::Value) -> (staff: Option<StaffCreate>)
    ensures
        match staff {
            Some(s) => staff_in(*doc) == Some(staff_row_of(s)),
            None => staff_in(*doc) is None,
        },
{
    let business_id = small_integer_member(doc, "business_id");
    let role_id = small_integer_member(doc, "role_id");
    let shift_id = small_integer_member(doc, "shift_id");
    let status_id = small_integer_member(doc, "status_id");
    let name = text_member(doc, "name");
    let phone = text_member(doc, "phone");
    let password = text_member(doc, "password");
    match (business_id, role_id, shift_id, status_id, name, phone, password) {
        (
            Some(business_id),
            Some(role_id),
            Some(shift_id),
            Some(status_id),
            Some(name),
            Some(phone),
            Some(password),
        ) => {
            let s = StaffCreate { business_id, role_id, shift_id, status_id, name, phone, password };
            assert(staff_in(*doc)->0.values =~= staff_row_of(s).values);
            Some(s)
        },
        _ => None,
    }
}

/// The order that `doc` describes: every member of the record present,
/// integers within 32 bits. The table of the order must be there, though no
/// row carries it.
pub open spec fn order_in(doc: serde_json::Value) -> Option<RowView> {
    if small_integer(doc, "business_id"@) is Some && lookup(json_texts(doc), "order_number"@) is Some
        && small_integer(doc, "table_id"@) is Some && small_integer(doc, "guest_id"@) is Some
        && small_integer(doc, "order_type_id"@) is Some && small_integer(doc, "status_id"@) is Some
        && amount(doc, "subtotal"@) is Some && amount(doc, "tax"@) is Some && amount(
        doc,
        "discount"@,
    ) is Some && amount(doc, "total_amount"@) is Some && lookup(json_texts(doc), "notes"@) is Some
        && small_integer(doc, "served_by"@) is Some {
        Some(
            RowView {
                table: StoreTable::Orders,
                values: seq![
                    BindView::Integer(Some(small_integer(doc, "business_id"@)->0 as i64)),
                    BindView::Text(lookup(json_texts(doc), "order_number"@)),
                    BindView::Integer(Some(small_integer(doc, "guest_id"@)->0 as i64)),
                    BindView::Integer(Some(small_integer(doc, "order_type_id"@)->0 as i64)),
                    BindView::Integer(Some(small_integer(doc, "status_id"@)->0 as i64)),
                    BindView::Number(amount(doc, "subtotal"@)),
                    BindView::Number(amount(doc, "tax"@)),
                    BindView::Number(amount(doc, "discount"@)),
                    BindView::Number(amount(doc, "total_amount"@)),
                    BindView::Text(lookup(json_texts(doc), "notes"@)),
                    BindView::Integer(Some(small_integer(doc, "served_by"@)->0 as i64)),
                ],
            },
        )
    } else {
        None
    }
}

/// Reads an order out of a document; `None` where a member is missing, of
/// another kind, or an integer beyond 32 bits.
pub fn decode_order(doc: &serde_json::Value) -> (order: Option<OrderCreate>)
    ensures
        match order {
            Some(o) => order_in(*doc) == Some(order_row_of(o)) && small_integer(
                *doc,
                "table_id"@,
            ) == Some(o.table_id),
            None => order_in(*doc) is None,
        },
{
    let business_id = small_integer_member(doc, "business_id");
    let order_number = text_member(doc, "order_number");
    let table_id = small_integer_member(doc, "table_id");
    let guest_id = small_integer_member(doc, "guest_id");
    let order_type_id = small_integer_member(doc, "order_type_id");
    let status_id = small_integer_member(doc, "status_id");
    let subtotal = amount_member(doc, "subtotal");
    let tax = amount_member(doc, "tax");
    let discount = amount_member(doc, "discount");
    let total_amount = amount_member(doc, "total_amount");
    let notes = text_member(doc, "notes");
    let served_by = small_integer_member(doc, "served_by");
    match (business_id, order_number, table_id, guest_id, order_type_id, status_id) {
        (
            Some(business_id),
            Some(order_number),
            Some(table_id),
            Some(guest_id),
            Some(order_type_id),
            Some(status_id),
        ) => match (subtotal, tax, discount, total_amount, notes, served_by) {
            (
                Some(subtotal),
                Some(tax),
                Some(discount),
                Some(total_amount),
                Some(notes),
                Some(served_by),
            ) => {
                let o = OrderCreate {
                    business_id,
                    order_number,
                    table_id,
                    guest_id,
                    order_type_id,
                    status_id,
                    subtotal,
                    tax,
                    discount,
                    total_amount,
                    notes,
                    served_by,
                };
                assert(order_in(*doc)->0.values =~= order_row_of(o).values);
                Some(o)
            },
            _ => None,
        },
        _ => None,
    }
}

/// The guest row in `doc`: each value is the member of that name, or `NULL`
/// where `doc` has none of the right kind.
pub open spec fn guest_in(doc: serde_json::Value) -> RowView {
    RowView {
        table: StoreTable::Guests,
        values: seq![
            BindView::Integer(lookup(json_integers(doc), "business_id"@)),
            BindView::Text(lookup(json_texts(doc), "name"@)),
            BindView::Text(lookup(json_texts(doc), "phone"@)),
            BindView::Integer(lookup(json_integers(doc), "verify_id"@)),
            BindView::Integer(lookup(json_integers(doc), "status_id"@)),
        ],
    }
}

/// Reads a guest row out of a document.
pub fn guest_row_in(doc: &serde_json::Value) -> (row: RowInsert)
    ensures
        row@ == guest_in(*doc),
        row@.fills_statement(),
{
    let mut values: Vec<BindValue> = Vec::new();
    values.push(integer_bind(doc, "business_id"));
    values.push(text_bind(doc, "name"));
    values.push(text_bind(doc, "phone"));
    values.push(integer_bind(doc, "verify_id"));
    values.push(integer_bind(doc, "status_id"));
    let row = RowInsert { table: StoreTable::Guests, values };
    assert(row@.values =~= guest_in(*doc).values);
    row
}

/// The menu row in `doc`: each value is the member of that name, or `NULL`
/// where `doc` has none of the right kind.
pub open spec fn food_item_in(doc: serde_json::Value) -> RowView {
    RowView {
        table: StoreTable::FoodItems,
        values: seq![
            BindView::Integer(lookup(json_integers(doc), "business_id"@)),
            BindView::Integer(lookup(json_integers(doc), "category_id"@)),
            BindView::Text(lookup(json_texts(doc), "name"@)),
            BindView::Text(lookup(json_texts(doc), "description"@)),
            BindView::Number(amount(doc, "price"@)),
            BindView::Integer(lookup(json_integers(doc), "preparation_time"@)),
            BindView::Integer(lookup(json_integers(doc), "spice_level_id"@)),
            BindView::Flag(lookup(json_flags(doc), "is_available"@)),
            BindView::Text(lookup(json_texts(doc), "image_url"@)),
        ],
    }
}

/// Reads a menu row out of a document.
pub fn food_item_row_in(doc: &serde_json::Value) -> (row: RowInsert)
    ensures
        row@ == food_item_in(*doc),
        row@.fills_statement(),
{
    let mut values: Vec<BindValue> = Vec::new();
    values.push(integer_bind(doc, "business_id"));
    values.push(integer_bind(doc, "category_id"));
    values.push(text_bind(doc, "name"));
    values.push(text_bind(doc, "description"));
    values.push(number_bind(doc, "price"));
    values.push(integer_bind(doc, "preparation_time"));
    values.push(integer_bind(doc, "spice_level_id"));
    values.push(flag_bind(doc, "is_available"));
    values.push(text_bind(doc, "image_url"));
    let row = RowInsert { table: StoreTable::FoodItems, values };
    assert(row@.values =~= food_item_in(*doc).values);
    row
}

/// The row of a table of the house in `doc`: each value is the member of that
/// name, or `NULL` where `doc` has none of the right kind.
pub open spec fn table_in(doc: serde_json::Value) -> RowView {
    RowView {
        table: StoreTable::Tables,
        values: seq![
            BindView::Integer(lookup(json_integers(doc), "business_id"@)),
            BindView::Text(lookup(json_texts(doc), "table_number"@)),
            BindView::Integer(lookup(json_integers(doc), "capacity"@)),
            BindView::Text(lookup(json_texts(doc), "location"@)),
            BindView::Integer(lookup(json_integers(doc), "status_id"@)),
            BindView::Integer(lookup(json_integers(doc), "reserved_by"@)),
            BindView::Text(lookup(json_texts(doc), "qr_code"@)),
        ],
    }
}

/// Reads the row of a table of the house out of a document.
pub fn table_row_in(doc: &serde_json::Value) -> (row: RowInsert)
    ensures
        row@ == table_in(*doc),
        row@.fills_statement(),
{
    let mut values: Vec<BindValue> = Vec::new();
    values.push(integer_bind(doc, "business_id"));
    values.push(text_bind(doc, "table_number"));
    values.push(integer_bind(doc, "capacity"));
    values.push(text_bind(doc, "location"));
    values.push(integer_bind(doc, "status_id"));
    values.push(integer_bind(doc, "reserved_by"));
    values.push(text_bind(doc, "qr_code"));
    let row = RowInsert { table: StoreTable::Tables, values };
    assert(row@.values =~= table_in(*doc).values);
    row
}

/// The order line in `doc`: each value is the member of that name, or `NULL`
/// where `doc` has none of the right kind.
pub open spec fn order_item_in(doc: serde_json::Value) -> RowView {
    RowView {
        table: StoreTable::OrderItems,
        values: seq![
            BindView::Integer(lookup(json_integers(doc), "order_id"@)),
            BindView::Integer(lookup(json_integers(doc), "food_item_id"@)),
            BindView::Integer(lookup(json_integers(doc), "quantity"@)),
            BindView::Number(amount(doc, "unit_price"@)),
            BindView::Number(amount(doc, "total_price"@)),
            BindView::Integer(lookup(json_integers(doc), "status_id"@)),
            BindView::Text(lookup(json_texts(doc), "special_instructions"@)),
        ],
    }
}

/// Reads an order line out of a document.
pub fn order_item_row_in(doc: &serde_json::Value) -> (row: RowInsert)
    ensures
        row@ == order_item_in(*doc),
        row@.fills_statement(),
{
    let mut values: Vec<BindValue> = Vec::new();
    values.push(integer_bind(doc, "order_id"));
    values.push(integer_bind(doc, "food_item_id"));
    values.push(integer_bind(doc, "quantity"));
    values.push(number_bind(doc, "unit_price"));
    values.push(number_bind(doc, "total_price"));
    values.push(integer_bind(doc, "status_id"));
    values.push(text_bind(doc, "special_instructions"));
    let row = RowInsert { table: StoreTable::OrderItems, values };
    assert(row@.values =~= order_item_in(*doc).values);
    row
}

/// What to do about one queue entry.
#[derive(Debug, PartialEq, Eq)]
pub enum ForwardPlan {
    /// Nothing goes to the remote store; the entry counts as forwarded.
    Acknowledge,
    /// This row goes to the remote store.
    Insert(RowInsert),
    /// The entry cannot be forwarded and stays at the head of the queue.
    Reject(ForwardError),
}

/// Mathematical value of a [`ForwardPlan`].
pub enum PlanView {
    Acknowledge,
    Insert(RowView),
    Reject(ForwardError),
}

impl View for ForwardPlan {
    type V = PlanView;

    open spec fn view(&self) -> PlanView {
        match *self {
            ForwardPlan::Acknowledge => PlanView::Acknowledge,
            ForwardPlan::Insert(row) => PlanView::Insert(row@),
            ForwardPlan::Reject(error) => PlanView::Reject(error),
        }
    }
}

/// The row of `table` that `doc` describes, `None` where it describes none.
/// Staff and orders need every member of their record; the other tables take
/// whatever members there are.
pub open spec fn row_in(table: StoreTable, doc: serde_json::Value) -> Option<RowView> {
    match table {
        StoreTable::Staff => staff_in(doc),
        StoreTable::Orders => order_in(doc),
        StoreTable::Guests => Some(guest_in(doc)),
        StoreTable::FoodItems => Some(food_item_in(doc)),
        StoreTable::Tables => Some(table_in(doc)),
        StoreTable::OrderItems => Some(order_item_in(doc)),
    }
}

/// The plan for a document bound for `table`: a document that describes no
/// row is rejected whatever the operation; of the others an insert is sent,
/// and an update or a deletion is acknowledged without a word to the remote
/// store.
pub open spec fn plan_for_document(
    table: StoreTable,
    operation: Operation,
    doc: serde_json::Value,
) -> PlanView {
    match row_in(table, doc) {
        None => PlanView::Reject(ForwardError::Incomplete),
        Some(row) => if operation == Operation::Insert {
            PlanView::Insert(row)
        } else {
            PlanView::Acknowledge
        },
    }
}

/// The plan for an entry once its payload was parsed, `None` standing for a
/// payload that did not parse.
pub open spec fn plan_for_parsed(
    table: StoreTable,
    operation: Operation,
    parsed: Option<serde_json::Value>,
) -> PlanView {
    match parsed {
        None => PlanView::Reject(ForwardError::Malformed),
        Some(doc) => plan_for_document(table, operation, doc),
    }
}

/// The plan for a queue entry. An entry for a table that the remote store
/// does not know is acknowledged unread.
pub open spec fn plan_for(item: QueueItemView) -> PlanView {
    match StoreTable::named(item.table_name) {
        None => PlanView::Acknowledge,
        Some(table) => plan_for_parsed(table, item.operation, json_document(item.payload)),
    }
}

/// Plans the forwarding of a parsed payload bound for `table`.
pub fn plan_document(table: StoreTable, operation: Operation, doc: &serde_json::Value) -> (plan:
    ForwardPlan)
    ensures
        plan@ == plan_for_document(table, operation, *doc),
        plan matches ForwardPlan::Insert(row) ==> row@.fills_statement(),
{
    let row = match table {
        StoreTable::Staff => match decode_staff(doc) {
            Some(staff) => Some(staff_row(&staff)),
            None => None,
        },
        StoreTable::Orders => match decode_order(doc) {
            Some(order) => Some(order_row(&order)),
            None => None,
        },
        StoreTable::Guests => Some(guest_row_in(doc)),
        StoreTable::FoodItems => Some(food_item_row_in(doc)),
        StoreTable::Tables => Some(table_row_in(doc)),
        StoreTable::OrderItems => Some(order_item_row_in(doc)),
    };
    match row {
        None => ForwardPlan::Reject(ForwardError::Incomplete),
        Some(row) => match operation {
            Operation::Insert => ForwardPlan::Insert(row),
            _ => ForwardPlan::Acknowledge,
        },
    }
}

/// Plans the forwarding of one queue entry.
pub fn plan_forward(item: &QueueItem) -> (plan: ForwardPlan)
    ensures
        plan@ == plan_for(item@),
        plan matches ForwardPlan::Insert(row) ==> row@.fills_statement(),
{
    match StoreTable::from_name(item.table_name.as_str()) {
        None => ForwardPlan::Acknowledge,
        Some(table) => match parse_document(item.payload.as_str()) {
            Err(_) => ForwardPlan::Reject(ForwardError::Malformed),
            Ok(doc) => plan_document(table, item.operation, &doc),
        },
    }
}

} // verus!
