//! The records that the query layer reads and keeps.

use vstd::prelude::*;

verus! {

/// The most units that one key may consume between two reset sweeps.
pub const MAX_CHECK_LIMIT: u64 = 500;

/// The query string of a quota-gated route: the caller's API key.
#[derive(Debug, PartialEq, Eq)]
pub struct ApiKeyQuery {
    pub key: String,
}

impl View for ApiKeyQuery {
    type V = Seq<char>;

    open spec fn view(&self) -> Seq<char> {
        self.key@
    }
}

/// One of the named numbers of a quick status.
#[derive(Clone, Copy, Debug, PartialEq, Eq, Structural)]
pub enum Field {
    SellPrice,
    BuyPrice,
    SellVolume,
    BuyVolume,
    SellOrders,
    BuyOrders,
    SellMovingWeek,
    BuyMovingWeek,
}

impl Field {
    /// The name under which a caller asks for the field.
    pub open spec fn spec_name(self) -> Seq<char> {
        match self {
            Field::SellPrice => "sellPrice"@,
            Field::BuyPrice => "buyPrice"@,
            Field::SellVolume => "sellVolume"@,
            Field::BuyVolume => "buyVolume"@,
            Field::SellOrders => "sellOrders"@,
            Field::BuyOrders => "buyOrders"@,
            Field::SellMovingWeek => "sellMovingWeek"@,
            Field::BuyMovingWeek => "buyMovingWeek"@,
        }
    }

    /// The name under which a caller asks for the field.
    pub fn name(self) -> (name: &'static str)
        ensures
            name@ == self.spec_name(),
    {
        match self {
            Field::SellPrice => "sellPrice",
            Field::BuyPrice => "buyPrice",
            Field::SellVolume => "sellVolume",
            Field::BuyVolume => "buyVolume",
            Field::SellOrders => "sellOrders",
            Field::BuyOrders => "buyOrders",
            Field::SellMovingWeek => "sellMovingWeek",
            Field::BuyMovingWeek => "buyMovingWeek",
        }
    }
}

/// A number of a quick status. A count is an integer. A price is a binary64
/// number; it is held as its IEEE 754 bit pattern, so that it passes through
/// unchanged.
#[derive(Clone, Copy, Debug, PartialEq, Eq, Structural)]
pub enum FieldValue {
    Integer(i64),
    Real(u64),
}

/// The trading numbers of one snapshot. A number that the source did not
/// carry is `None`.
#[derive(Clone, Copy, Debug, PartialEq, Eq, Structural)]
pub struct QuickStatus {
    pub sell_price: Option<FieldValue>,
    pub buy_price: Option<FieldValue>,
    pub sell_volume: Option<FieldValue>,
    pub buy_volume: Option<FieldValue>,
    pub sell_orders: Option<FieldValue>,
    pub buy_orders: Option<FieldValue>,
    pub sell_moving_week: Option<FieldValue>,
    pub buy_moving_week: Option<FieldValue>,
}

impl QuickStatus {
    /// The number stored under `field`, if there is one.
    pub open spec fn spec_get(self, field: Field) -> Option<FieldValue> {
        match field {
            Field::SellPrice => self.sell_price,
            Field::BuyPrice => self.buy_price,
            Field::SellVolume => self.sell_volume,
            Field::BuyVolume => self.buy_volume,
            Field::SellOrders => self.sell_orders,
            Field::BuyOrders => self.buy_orders,
            Field::SellMovingWeek => self.sell_moving_week,
            Field::BuyMovingWeek => self.buy_moving_week,
        }
    }

    /// A quick status that carries no number at all.
    pub open spec fn spec_empty() -> QuickStatus {
        QuickStatus {
            sell_price: None,
            buy_price: None,
            sell_volume: None,
            buy_volume: None,
            sell_orders: None,
            buy_orders: None,
            sell_moving_week: None,
            buy_moving_week: None,
        }
    }

    /// A quick status that carries no number at all.
    pub fn empty() -> (status: QuickStatus)
        ensures
            status == QuickStatus::spec_empty(),
            forall|field: Field| status.spec_get(field) is None,
    {
        QuickStatus {
            sell_price: None,
            buy_price: None,
            sell_volume: None,
            buy_volume: None,
            sell_orders: None,
            buy_orders: None,
            sell_moving_week: None,
            buy_moving_week: None,
        }
    }

    /// The number stored under `field`, if there is one.
    pub fn get(&self, field: Field) -> (value: Option<FieldValue>)
        ensures
            value == self.spec_get(field),
    {
        match field {
            Field::SellPrice => self.sell_price,
            Field::BuyPrice => self.buy_price,
            Field::SellVolume => self.sell_volume,
            Field::BuyVolume => self.buy_volume,
            Field::SellOrders => self.sell_orders,
            Field::BuyOrders => self.buy_orders,
            Field::SellMovingWeek => self.sell_moving_week,
            Field::BuyMovingWeek => self.buy_moving_week,
        }
    }

    /// Stores `value` under `field` and leaves the other numbers alone.
    pub fn set(&mut self, field: Field, value: Option<FieldValue>)
        ensures
            final(self).spec_get(field) == value,
            forall|other: Field|
                other != field ==> final(self).spec_get(other) == old(self).spec_get(other),
    {
        match field {
            Field::SellPrice => {
                self.sell_price = value;
            },
            Field::BuyPrice => {
                self.buy_price = value;
            },
            Field::SellVolume => {
                self.sell_volume = value;
            },
            Field::BuyVolume => {
                self.buy_volume = value;
            },
            Field::SellOrders => {
                self.sell_orders = value;
            },
            Field::BuyOrders => {
                self.buy_orders = value;
            },
            Field::SellMovingWeek => {
                self.sell_moving_week = value;
            },
            Field::BuyMovingWeek => {
                self.buy_moving_week = value;
            },
        }
    }
}

/// One observation of a product at one point in time.
#[derive(Debug, PartialEq, Eq)]
pub struct ProductSnapshot {
    pub product_id: String,
    pub timestamp: i64,
    pub quick_status: QuickStatus,
}

/// What a snapshot says, with its identifier as a sequence of characters.
pub struct SnapshotView {
    pub product_id: Seq<char>,
    pub timestamp: i64,
    pub quick_status: QuickStatus,
}

impl View for ProductSnapshot {
    type V = SnapshotView;

    open spec fn view(&self) -> SnapshotView {
        SnapshotView {
            product_id: self.product_id@,
            timestamp: self.timestamp,
            quick_status: self.quick_status,
        }
    }
}

impl Clone for ProductSnapshot {
    fn clone(&self) -> (copy: Self)
        ensures
            copy == *self,
    {
        ProductSnapshot {
            product_id: self.product_id.clone(),
            timestamp: self.timestamp,
            quick_status: self.quick_status,
        }
    }
}

/// The counters and the switch of one API key.
#[derive(Clone, Copy, Debug, PartialEq, Eq, Structural)]
pub struct KeyState {
    /// Units consumed since the last reset sweep.
    pub usage_count: u64,
    /// Units consumed since the key was issued.
    pub lifetime_count: u64,
    /// A key that is switched off is known and refused.
    pub enabled: bool,
}

impl KeyState {
    /// The usage counter lies within the ceiling.
    pub open spec fn within_ceiling(self) -> bool {
        self.usage_count <= MAX_CHECK_LIMIT
    }
}

/// The record of one issued API key.
#[derive(Debug, PartialEq, Eq)]
pub struct ApiKeyRecord {
    pub key: String,
    pub state: KeyState,
}

/// What a key record says, with its key as a sequence of characters.
pub struct ApiKeyRecordView {
    pub key: Seq<char>,
    pub state: KeyState,
}

impl View for ApiKeyRecord {
    type V = ApiKeyRecordView;

    open spec fn view(&self) -> ApiKeyRecordView {
        ApiKeyRecordView { key: self.key@, state: self.state }
    }
}

impl Clone for ApiKeyRecord {
    fn clone(&self) -> (copy: Self)
        ensures
            copy == *self,
    {
        ApiKeyRecord { key: self.key.clone(), state: self.state }
    }
}

} // verus!
