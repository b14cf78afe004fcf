//! Rows as the stores take them: the table, and the values to bind to the
//! placeholders of its insert statement, in order.

use crate::models::amount::Amount;
use crate::models::food_item::FoodItemCreate;
use crate::models::guest::GuestCreate;
use crate::models::order::{OrderCreate, OrderItemCreate};
use crate::models::staff::StaffCreate;
use crate::models::table::TableCreate;
use crate::text::str_eq;
use vstd::prelude::*;

verus! {

/// A table that both the local and the remote store hold.
#[derive(Clone, Copy, Debug, PartialEq, Eq, Structural)]
pub enum StoreTable {
    Staff,
    Orders,
    Guests,
    FoodItems,
    Tables,
    OrderItems,
}

impl StoreTable {
    /// The name under which queue entries refer to this table.
    pub open spec fn name_of(self) -> Seq<char> {
        match self {
            StoreTable::Staff => "staff"@,
            StoreTable::Orders => "orders"@,
            StoreTable::Guests => "guests"@,
            StoreTable::FoodItems => "food_items"@,
            StoreTable::Tables => "tables"@,
            StoreTable::OrderItems => "order_items"@,
        }
    }

    /// The table that `name` refers to, if any.
    pub open spec fn named(name: Seq<char>) -> Option<StoreTable> {
        if name == "staff"@ {
            Some(StoreTable::Staff)
        } else if name == "orders"@ {
            Some(StoreTable::Orders)
        } else if name == "guests"@ {
            Some(StoreTable::Guests)
        } else if name == "food_items"@ {
            Some(StoreTable::FoodItems)
        } else if name == "tables"@ {
            Some(StoreTable::Tables)
        } else if name == "order_items"@ {
            Some(StoreTable::OrderItems)
        } else {
            None
        }
    }

    /// Number of values that a row of this table binds.
    pub open spec fn width(self) -> nat {
        match self {
            StoreTable::Staff => 7,
            StoreTable::Orders => 11,
            StoreTable::Guests => 5,
            StoreTable::FoodItems => 9,
            StoreTable::Tables => 7,
            StoreTable::OrderItems => 7,
        }
    }

    /// The insert statement of this table, one placeholder per bound value.
    pub open spec fn insert_statement(self) -> Seq<char> {
        match self {
            StoreTable::Staff => "INSERT INTO staff (business_id, role_id, shift_id, status_id, name, phone, password) VALUES (?, ?, ?, ?, ?, ?, ?)"@,
            StoreTable::Orders => "INSERT INTO orders (business_id, order_number, guest_id, order_type_id, status_id, subtotal, tax, discount, total_amount, notes, served_by) VALUES (?, ?, ?, ?, ?, ?, ?, ?, ?, ?, ?)"@,
            StoreTable::Guests => "INSERT INTO guests (business_id, name, phone, verify_id, status_id) VALUES (?, ?, ?, ?, ?)"@,
            StoreTable::FoodItems => "INSERT INTO food_items (business_id, category_id, name, description, price, preparation_time, spice_level_id, is_available, image_url) VALUES (?, ?, ?, ?, ?, ?, ?, ?, ?)"@,
            StoreTable::Tables => "INSERT INTO tables (business_id, table_number, capacity, location, status_id, reserved_by, qr_code) VALUES (?, ?, ?, ?, ?, ?, ?)"@,
            StoreTable::OrderItems => "INSERT INTO order_items (order_id, food_item_id, quantity, unit_price, total_price, status_id, special_instructions) VALUES (?, ?, ?, ?, ?, ?, ?)"@,
        }
    }

    /// The name under which queue entries refer to this table.
    pub fn name(self) -> (name: &'static str)
        ensures
            name@ == self.name_of(),
    {
        match self {
            StoreTable::Staff => "staff",
            StoreTable::Orders => "orders",
            StoreTable::Guests => "guests",
            StoreTable::FoodItems => "food_items",
            StoreTable::Tables => "tables",
            StoreTable::OrderItems => "order_items",
        }
    }

    /// The table that `name` refers to; `None` for any other name.
    pub fn from_name(name: &str) -> (table: Option<StoreTable>)
        ensures
            table == StoreTable::named(name@),
    {
        if str_eq(name, "staff") {
            Some(StoreTable::Staff)
        } else if str_eq(name, "orders") {
            Some(StoreTable::Orders)
        } else if str_eq(name, "guests") {
            Some(StoreTable::Guests)
        } else if str_eq(name, "food_items") {
            Some(StoreTable::FoodItems)
        } else if str_eq(name, "tables") {
            Some(StoreTable::Tables)
        } else if str_eq(name, "order_items") {
            Some(StoreTable::OrderItems)
        } else {
            None
        }
    }

    /// Number of values that a row of this table binds.
    pub fn columns(self) -> (count: usize)
        ensures
            count == self.width(),
    {
        match self {
            StoreTable::Staff => 7,
            StoreTable::Orders => 11,
            StoreTable::Guests => 5,
            StoreTable::FoodItems => 9,
            StoreTable::Tables => 7,
            StoreTable::OrderItems => 7,
        }
    }

    /// The insert statement of this table, the same for both stores.
    pub fn insert_sql(self) -> (sql: &'static str)
        ensures
            sql@ == self.insert_statement(),
    {
        match self {
            StoreTable::Staff => "INSERT INTO staff (business_id, role_id, shift_id, status_id, name, phone, password) VALUES (?, ?, ?, ?, ?, ?, ?)",
            StoreTable::Orders => "INSERT INTO orders (business_id, order_number, guest_id, order_type_id, status_id, subtotal, tax, discount, total_amount, notes, served_by) VALUES (?, ?, ?, ?, ?, ?, ?, ?, ?, ?, ?)",
            StoreTable::Guests => "INSERT INTO guests (business_id, name, phone, verify_id, status_id) VALUES (?, ?, ?, ?, ?)",
            StoreTable::FoodItems => "INSERT INTO food_items (business_id, category_id, name, description, price, preparation_time, spice_level_id, is_available, image_url) VALUES (?, ?, ?, ?, ?, ?, ?, ?, ?)",
            StoreTable::Tables => "INSERT INTO tables (business_id, table_number, capacity, location, status_id, reserved_by, qr_code) VALUES (?, ?, ?, ?, ?, ?, ?)",
            StoreTable::OrderItems => "INSERT INTO order_items (order_id, food_item_id, quantity, unit_price, total_price, status_id, special_instructions) VALUES (?, ?, ?, ?, ?, ?, ?)",
        }
    }
}

/// Every table is found again under its own name.
pub proof fn lemma_table_names_are_distinct(table: StoreTable)
    ensures
        StoreTable::named(table.name_of()) == Some(table),
{
    reveal_strlit("staff");
    reveal_strlit("orders");
    reveal_strlit("guests");
    reveal_strlit("food_items");
    reveal_strlit("tables");
    reveal_strlit("order_items");
    assert("staff"@.len() == 5);
    assert("orders"@.len() == 6 && "orders"@[0] == 'o');
    assert("guests"@.len() == 6 && "guests"@[0] == 'g');
    assert("food_items"@.len() == 10);
    assert("tables"@.len() == 6 && "tables"@[0] == 't');
    assert("order_items"@.len() == 11);
}

/// One value bound to a placeholder; `None` binds SQL `NULL`.
#[derive(Debug, PartialEq, Eq)]
pub enum BindValue {
    Integer(Option<i64>),
    Text(Option<String>),
    Flag(Option<bool>),
    Number(Option<Amount>),
}

/// Mathematical value of a [`BindValue`].
pub enum BindView {
    Integer(Option<i64>),
    Text(Option<Seq<char>>),
    Flag(Option<bool>),
    Number(Option<Amount>),
}

/// The text that an optional string holds, if any.
pub open spec fn text_of(text: Option<String>) -> Option<Seq<char>> {
    match text {
        Some(t) => Some(t@),
        None => None,
    }
}

/// An optional 32-bit integer, widened.
pub open spec fn widened(value: Option<i32>) -> Option<i64> {
    match value {
        Some(v) => Some(v as i64),
        None => None,
    }
}

impl View for BindValue {
    type V = BindView;

    open spec fn view(&self) -> BindView {
        match *self {
            BindValue::Integer(v) => BindView::Integer(v),
            BindValue::Text(v) => BindView::Text(text_of(v)),
            BindValue::Flag(v) => BindView::Flag(v),
            BindValue::Number(v) => BindView::Number(v),
        }
    }
}

/// The values of a run of bound values, in the same order.
pub open spec fn bind_views(values: Seq<BindValue>) -> Seq<BindView> {
    Seq::new(values.len(), |i: int| values[i]@)
}

/// A row to insert: the table and the values for its placeholders, in order.
#[derive(Debug, PartialEq, Eq)]
pub struct RowInsert {
    pub table: StoreTable,
    pub values: Vec<BindValue>,
}

/// Mathematical value of a [`RowInsert`].
pub struct RowView {
    pub table: StoreTable,
    pub values: Seq<BindView>,
}

impl View for RowInsert {
    type V = RowView;

    open spec fn view(&self) -> RowView {
        RowView { table: self.table, values: bind_views(self.values@) }
    }
}

impl RowView {
    /// The row binds one value to each placeholder of its table's statement.
    pub open spec fn fills_statement(self) -> bool {
        self.values.len() == self.table.width()
    }
}

fn integer(value: i32) -> (bound: BindValue)
    ensures
        bound@ == BindView::Integer(Some(value as i64)),
{
    BindValue::Integer(Some(value as i64))
}

fn optional_integer(value: Option<i32>) -> (bound: BindValue)
    ensures
        bound@ == BindView::Integer(widened(value)),
{
    match value {
        Some(v) => BindValue::Integer(Some(v as i64)),
        None => BindValue::Integer(None),
    }
}

fn text(value: &String) -> (bound: BindValue)
    ensures
        bound@ == BindView::Text(Some(value@)),
{
    BindValue::Text(Some(value.clone()))
}

fn optional_text(value: &Option<String>) -> (bound: BindValue)
    ensures
        bound@ == BindView::Text(text_of(*value)),
{
    match value {
        Some(t) => BindValue::Text(Some(t.clone())),
        None => BindValue::Text(None),
    }
}

/// The row of a staff member.
pub open spec fn staff_row_of(staff: StaffCreate) -> RowView {
    RowView {
        table: StoreTable::Staff,
        values: seq![
            BindView::Integer(Some(staff.business_id as i64)),
            BindView::Integer(Some(staff.role_id as i64)),
            BindView::Integer(Some(staff.shift_id as i64)),
            BindView::Integer(Some(staff.status_id as i64)),
            BindView::Text(Some(staff.name@)),
            BindView::Text(Some(staff.phone@)),
            BindView::Text(Some(staff.password@)),
        ],
    }
}

/// The row of a staff member, for either store.
pub fn staff_row(staff: &StaffCreate) -> (row: RowInsert)
    ensures
        row@ == staff_row_of(*staff),
        row@.fills_statement(),
{
    let mut values: Vec<BindValue> = Vec::new();
    values.push(integer(staff.business_id));
    values.push(integer(staff.role_id));
    values.push(integer(staff.shift_id));
    values.push(integer(staff.status_id));
    values.push(text(&staff.name));
    values.push(text(&staff.phone));
    values.push(text(&staff.password));
    let row = RowInsert { table: StoreTable::Staff, values };
    assert(row@.values =~= staff_row_of(*staff).values);
    row
}

/// The row of an order. The table of the order is not part of the row.
pub open spec fn order_row_of(order: OrderCreate) -> RowView {
    RowView {
        table: StoreTable::Orders,
        values: seq![
            BindView::Integer(Some(order.business_id as i64)),
            BindView::Text(Some(order.order_number@)),
            BindView::Integer(Some(order.guest_id as i64)),
            BindView::Integer(Some(order.order_type_id as i64)),
            BindView::Integer(Some(order.status_id as i64)),
            BindView::Number(Some(order.subtotal)),
            BindView::Number(Some(order.tax)),
            BindView::Number(Some(order.discount)),
            BindView::Number(Some(order.total_amount)),
            BindView::Text(Some(order.notes@)),
            BindView::Integer(Some(order.served_by as i64)),
        ],
    }
}

/// The row of an order, for either store.
pub fn order_row(order: &OrderCreate) -> (row: RowInsert)
    ensures
        row@ == order_row_of(*order),
        row@.fills_statement(),
{
    let mut values: Vec<BindValue> = Vec::new();
    values.push(integer(order.business_id));
    values.push(text(&order.order_number));
    values.push(integer(order.guest_id));
    values.push(integer(order.order_type_id));
    values.push(integer(order.status_id));
    values.push(BindValue::Number(Some(order.subtotal)));
    values.push(BindValue::Number(Some(order.tax)));
    values.push(BindValue::Number(Some(order.discount)));
    values.push(BindValue::Number(Some(order.total_amount)));
    values.push(text(&order.notes));
    values.push(integer(order.served_by));
    let row = RowInsert { table: StoreTable::Orders, values };
    assert(row@.values =~= order_row_of(*order).values);
    row
}

/// The row of a guest.
pub open spec fn guest_row_of(guest: GuestCreate) -> RowView {
    RowView {
        table: StoreTable::Guests,
        values: seq![
            BindView::Integer(Some(guest.business_id as i64)),
            BindView::Text(Some(guest.name@)),
            BindView::Text(Some(guest.phone@)),
            BindView::Integer(Some(guest.verify_id as i64)),
            BindView::Integer(Some(guest.status_id as i64)),
        ],
    }
}

/// The row of a guest, for the local store.
pub fn guest_row(guest: &GuestCreate) -> (row: RowInsert)
    ensures
        row@ == guest_row_of(*guest),
        row@.fills_statement(),
{
    let mut values: Vec<BindValue> = Vec::new();
    values.push(integer(guest.business_id));
    values.push(text(&guest.name));
    values.push(text(&guest.phone));
    values.push(integer(guest.verify_id));
    values.push(integer(guest.status_id));
    let row = RowInsert { table: StoreTable::Guests, values };
    assert(row@.values =~= guest_row_of(*guest).values);
    row
}

/// The row of a menu item.
pub open spec fn food_item_row_of(item: FoodItemCreate) -> RowView {
    RowView {
        table: StoreTable::FoodItems,
        values: seq![
            BindView::Integer(Some(item.business_id as i64)),
            BindView::Integer(Some(item.category_id as i64)),
            BindView::Text(Some(item.name@)),
            BindView::Text(text_of(item.description)),
            BindView::Number(Some(item.price)),
            BindView::Integer(Some(item.preparation_time as i64)),
            BindView::Integer(widened(item.spice_level_id)),
            BindView::Flag(Some(item.is_available)),
            BindView::Text(text_of(item.image_url)),
        ],
    }
}

/// The row of a menu item, for the local store.
pub fn food_item_row(item: &FoodItemCreate) -> (row: RowInsert)
    ensures
        row@ == food_item_row_of(*item),
        row@.fills_statement(),
{
    let mut values: Vec<BindValue> = Vec::new();
    values.push(integer(item.business_id));
    values.push(integer(item.category_id));
    values.push(text(&item.name));
    values.push(optional_text(&item.description));
    values.push(BindValue::Number(Some(item.price)));
    values.push(integer(item.preparation_time));
    values.push(optional_integer(item.spice_level_id));
    values.push(BindValue::Flag(Some(item.is_available)));
    values.push(optional_text(&item.image_url));
    let row = RowInsert { table: StoreTable::FoodItems, values };
    assert(row@.values =~= food_item_row_of(*item).values);
    row
}

/// The row of a table of the house.
pub open spec fn table_row_of(table: TableCreate) -> RowView {
    RowView {
        table: StoreTable::Tables,
        values: seq![
            BindView::Integer(Some(table.business_id as i64)),
            BindView::Text(Some(table.table_number@)),
            BindView::Integer(widened(table.capacity)),
            BindView::Text(text_of(table.location)),
            BindView::Integer(Some(table.status_id as i64)),
            BindView::Integer(widened(table.reserved_by)),
            BindView::Text(text_of(table.qr_code)),
        ],
    }
}

/// The row of a table of the house, for the local store.
pub fn table_row(table: &TableCreate) -> (row: RowInsert)
    ensures
        row@ == table_row_of(*table),
        row@.fills_statement(),
{
    let mut values: Vec<BindValue> = Vec::new();
    values.push(integer(table.business_id));
    values.push(text(&table.table_number));
    values.push(optional_integer(table.capacity));
    values.push(optional_text(&table.location));
    values.push(integer(table.status_id));
    values.push(optional_integer(table.reserved_by));
    values.push(optional_text(&table.qr_code));
    let row = RowInsert { table: StoreTable::Tables, values };
    assert(row@.values =~= table_row_of(*table).values);
    row
}

/// The row of an order line.
pub open spec fn order_item_row_of(item: OrderItemCreate) -> RowView {
    RowView {
        table: StoreTable::OrderItems,
        values: seq![
            BindView::Integer(Some(item.order_id as i64)),
            BindView::Integer(Some(item.food_item_id as i64)),
            BindView::Integer(Some(item.quantity as i64)),
            BindView::Number(Some(item.unit_price)),
            BindView::Number(Some(item.total_price)),
            BindView::Integer(Some(item.status_id as i64)),
            BindView::Text(text_of(item.special_instructions)),
        ],
    }
}

/// The row of an order line, for the local store.
pub fn order_item_row(item: &OrderItemCreate) -> (row: RowInsert)
    ensures
        row@ == order_item_row_of(*item),
        row@.fills_statement(),
{
    let mut values: Vec<BindValue> = Vec::new();
    values.push(integer(item.order_id));
    values.push(integer(item.food_item_id));
    values.push(integer(item.quantity));
    values.push(BindValue::Number(Some(item.unit_price)));
    values.push(BindValue::Number(Some(item.total_price)));
    values.push(integer(item.status_id));
    values.push(optional_text(&item.special_instructions));
    let row = RowInsert { table: StoreTable::OrderItems, values };
    assert(row@.values =~= order_item_row_of(*item).values);
    row
}

} // verus!
