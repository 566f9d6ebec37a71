//! Plain payload types for the calls that cross the storage boundary:
//! what the callers hand in, and the time frames they select by.
//! Dates are carried as Unix timestamps; only the frame boundaries of
//! a calendar month come from the clock library.

use vstd::prelude::*;

use chrono::Datelike;

use crate::codec::render_value;
use crate::ledger::TransactionType;
use crate::value_store::{store_repr, ValueStore};

verus! {

/// A year and a month, numbered from one.
#[derive(Debug, Clone, Copy)]
pub struct YearMonth(pub i32, pub u32);

/// A page: everything up to an identifier, limited in count.
#[derive(Debug, Clone, Copy)]
pub struct Pagination {
    pub get_until_id: i64,
    pub quantity: u32,
}

impl Pagination {
    /// The identifier the page runs up to.
    pub fn get_until_id(&self) -> (r: i64)
        ensures
            r == self.get_until_id,
    {
        self.get_until_id
    }

    /// The page size.
    pub fn quantity(&self) -> (r: u32)
        ensures
            r == self.quantity,
    {
        self.quantity
    }
}

/// An inclusive frame of Unix timestamps.
#[derive(Debug, Clone, Copy)]
pub struct Timeframe {
    pub start: i64,
    pub end: i64,
}

/// Relies on chrono (`NaiveDate::from_ymd_opt`, `NaiveTime::from_hms_opt`,
/// `and_local_timezone`): the Unix timestamp of a local calendar time,
/// absent when the date is invalid or the local mapping is not single.
/// The value depends on the machine's time zone; nothing more is
/// assumed of it.
#[verifier::external_body]
fn local_timestamp(year: i32, month: u32, day: u32, hour: u32, min: u32, sec: u32) -> (r: Option<
    i64,
>)
    ensures
        r is Some ==> 1 <= month <= 12 && 1 <= day <= 31,
{
    let date = chrono::NaiveDate::from_ymd_opt(year, month, day)?;
    let time = chrono::NaiveTime::from_hms_opt(hour, min, sec)?;
    let dt = chrono::NaiveDateTime::new(date, time);
    dt.and_local_timezone(chrono::Local).single().map(|d| d.timestamp())
}

/// Relies on chrono's `NaiveDate::pred_opt`: the calendar day before a
/// date, absent when the date is invalid or has no predecessor.
#[verifier::external_body]
fn prev_day(year: i32, month: u32, day: u32) -> (r: Option<(i32, u32, u32)>)
    ensures
        r matches Some(p) ==> 1 <= p.1 <= 12 && 1 <= p.2 <= 31,
{
    let date = chrono::NaiveDate::from_ymd_opt(year, month, day)?;
    let prev = date.pred_opt()?;
    Some((prev.year(), prev.month(), prev.day()))
}

impl Timeframe {
    /// The frame's first second.
    pub fn start_timestamp(&self) -> (r: i64)
        ensures
            r == self.start,
    {
        self.start
    }

    /// The frame's last second.
    pub fn end_timestamp(&self) -> (r: i64)
        ensures
            r == self.end,
    {
        self.end
    }

    /// The frame of one calendar month in local time: from the first
    /// day at midnight to the last day at a second before midnight.
    /// The timestamps come from the machine's clock library and time
    /// zone; a month of zero, an invalid date or an ambiguous local
    /// time gives no frame.
    pub fn for_month(year_month: YearMonth) -> (r: Option<Timeframe>)
        ensures
            year_month.1 == 0 ==> r is None,
    {
        let year = year_month.0;
        let month = year_month.1;
        if month == 0 {
            return None;
        }
        let start = match local_timestamp(year, month, 1, 0, 0, 0) {
            Some(t) => t,
            None => {
                return None;
            },
        };
        let next: (i32, u32);
        if month == 12 {
            if year == i32::MAX {
                return None;
            }
            next = (year + 1, 1);
        } else {
            next = (year, month + 1);
        }
        let last = match prev_day(next.0, next.1, 1) {
            Some(p) => p,
            None => {
                return None;
            },
        };
        let end = match local_timestamp(last.0, last.1, last.2, 23, 59, 59) {
            Some(t) => t,
            None => {
                return None;
            },
        };
        Some(Timeframe { start, end })
    }
}

/// The image a new item carries: fresh bytes, or an already stored
/// image's identifier.
#[derive(Debug)]
pub enum ItemImagePayload {
    Existing(i64),
    New(Vec<u8>),
}

impl Clone for ItemImagePayload {
    /// Copy; the copy carries the same identifier or the same bytes.
    fn clone(&self) -> (r: Self)
        ensures
            match self {
                ItemImagePayload::Existing(id) => r matches ItemImagePayload::Existing(id2) && id2
                    == id,
                ItemImagePayload::New(d) => r matches ItemImagePayload::New(d2) && d2@ == d@,
            },
    {
        match self {
            ItemImagePayload::Existing(id) => ItemImagePayload::Existing(*id),
            ItemImagePayload::New(d) => ItemImagePayload::New(d.clone()),
        }
    }
}

/// The location a new item is stored at: an existing location row, or
/// a new one under a named location group.
#[derive(Debug)]
pub enum LocationRegisterPayload {
    Existing(i64),
    New { location_metadata: i64, rack: Option<String>, bin: Option<String> },
}

impl Clone for LocationRegisterPayload {
    /// Copy; the copy carries the same fields.
    fn clone(&self) -> (r: Self)
        ensures
            match self {
                LocationRegisterPayload::Existing(id) => r
                    matches LocationRegisterPayload::Existing(id2) && id2 == id,
                LocationRegisterPayload::New { location_metadata, rack, bin } => r
                    matches LocationRegisterPayload::New {
                    location_metadata: l2,
                    rack: r2,
                    bin: b2,
                } && l2 == location_metadata && opt_str_eq(r2, *rack) && opt_str_eq(b2, *bin),
            },
    {
        match self {
            LocationRegisterPayload::Existing(id) => LocationRegisterPayload::Existing(*id),
            LocationRegisterPayload::New { location_metadata, rack, bin } => {
                LocationRegisterPayload::New {
                    location_metadata: *location_metadata,
                    rack: clone_opt_string(rack),
                    bin: clone_opt_string(bin),
                }
            },
        }
    }
}

/// Two optional names spell the same text.
pub open spec fn opt_str_eq(a: Option<String>, b: Option<String>) -> bool {
    match (a, b) {
        (Some(x), Some(y)) => x@ == y@,
        (None, None) => true,
        _ => false,
    }
}

/// Copy an optional name.
pub fn clone_opt_string(o: &Option<String>) -> (r: Option<String>)
    ensures
        opt_str_eq(r, *o),
{
    match o {
        Some(s) => Some(s.clone()),
        None => None,
    }
}

/// Payload for registering an item with its metadata, image and
/// location.
#[derive(Debug)]
pub struct ItemRegisterPayload {
    pub name: String,
    pub metadata: ValueStore,
    pub image_data: ItemImagePayload,
    pub location: LocationRegisterPayload,
}

impl ItemRegisterPayload {
    /// Bundle the parts of a new item.
    pub fn new(
        name: String,
        metadata: ValueStore,
        image_data: ItemImagePayload,
        location: LocationRegisterPayload,
    ) -> (r: Self)
        ensures
            r.name@ == name@,
            r.metadata@ == metadata@,
            r.image_data == image_data,
            r.location == location,
    {
        ItemRegisterPayload { name, metadata, image_data, location }
    }

    /// The image part.
    pub fn image_data(&self) -> (r: ItemImagePayload)
        ensures
            match self.image_data {
                ItemImagePayload::Existing(id) => r matches ItemImagePayload::Existing(id2) && id2
                    == id,
                ItemImagePayload::New(d) => r matches ItemImagePayload::New(d2) && d2@ == d@,
            },
    {
        self.image_data.clone()
    }

    /// The item's name.
    pub fn name(&self) -> (r: &str)
        ensures
            r@ == self.name@,
    {
        self.name.as_str()
    }

    /// The location part.
    pub fn location(&self) -> (r: LocationRegisterPayload)
        ensures
            match self.location {
                LocationRegisterPayload::Existing(id) => r
                    matches LocationRegisterPayload::Existing(id2) && id2 == id,
                LocationRegisterPayload::New { location_metadata, rack, bin } => r
                    matches LocationRegisterPayload::New {
                    location_metadata: l2,
                    rack: r2,
                    bin: b2,
                } && l2 == location_metadata && opt_str_eq(r2, rack) && opt_str_eq(b2, bin),
            },
    {
        self.location.clone()
    }

    /// The metadata, rendered for the text column.
    pub fn metadata(&self) -> (r: String)
        ensures
            r@ == render_value(store_repr(self.metadata@)),
    {
        self.metadata.to_text()
    }
}

/// Payload for listing items.
#[derive(Debug)]
pub struct ItemGetPayload {
    pub with_image: bool,
    pub pagination: Option<Pagination>,
}

impl ItemGetPayload {
    /// The requested page, if any.
    pub fn pagination(&self) -> (r: &Option<Pagination>)
        ensures
            r == &self.pagination,
    {
        &self.pagination
    }

    /// Whether image bytes are wanted.
    pub fn with_image(&self) -> (r: bool)
        ensures
            r == self.with_image,
    {
        self.with_image
    }
}

/// Payload for listing an item's records.
#[derive(Debug, Clone, Copy)]
pub struct ItemRecordGetPayload {
    pub id: i64,
    pub timeframe: Option<Timeframe>,
}

impl ItemRecordGetPayload {
    /// The item.
    pub fn id(&self) -> (r: i64)
        ensures
            r == self.id,
    {
        self.id
    }

    /// The frame to select by, if any.
    pub fn timeframe(&self) -> (r: &Option<Timeframe>)
        ensures
            r == &self.timeframe,
    {
        &self.timeframe
    }
}

/// Payload for recording one stock movement.
#[derive(Debug, Clone, Copy)]
pub struct ItemRecordRegisterPayload {
    pub item_id: i64,
    pub date: i64,
    pub transaction_type: TransactionType,
    pub quantity: u32,
    pub adjustment_remarks: Option<i64>,
}

impl ItemRecordRegisterPayload {
    /// Bundle the parts of a new record.
    pub fn new(
        item_id: i64,
        date: i64,
        transaction_type: TransactionType,
        quantity: u32,
        adjustment_remarks: Option<i64>,
    ) -> (r: Self)
        ensures
            r == (ItemRecordRegisterPayload {
                item_id,
                date,
                transaction_type,
                quantity,
                adjustment_remarks,
            }),
    {
        ItemRecordRegisterPayload { item_id, date, transaction_type, quantity, adjustment_remarks }
    }

    /// The item moved.
    pub fn item_id(&self) -> (r: i64)
        ensures
            r == self.item_id,
    {
        self.item_id
    }

    /// The movement's timestamp.
    pub fn date(&self) -> (r: i64)
        ensures
            r == self.date,
    {
        self.date
    }

    /// The movement kind.
    pub fn transaction_type(&self) -> (r: TransactionType)
        ensures
            r == self.transaction_type,
    {
        self.transaction_type
    }

    /// The moved quantity.
    pub fn quantity(&self) -> (r: u32)
        ensures
            r == self.quantity,
    {
        self.quantity
    }

    /// For an adjustment: the record corrected.
    pub fn adjustment_remarks(&self) -> (r: Option<i64>)
        ensures
            r == self.adjustment_remarks,
    {
        self.adjustment_remarks
    }
}

/// Payload for editing a record's quantity.
#[derive(Debug, Clone, Copy)]
pub struct ItemRecordUpdatePayload {
    pub item_id: i64,
    pub record_id: i64,
    pub quantity: u32,
}

impl ItemRecordUpdatePayload {
    /// The item the record belongs to.
    pub fn item_id(&self) -> (r: i64)
        ensures
            r == self.item_id,
    {
        self.item_id
    }

    /// The record to edit.
    pub fn record_id(&self) -> (r: i64)
        ensures
            r == self.record_id,
    {
        self.record_id
    }

    /// The requested quantity.
    pub fn quantity(&self) -> (r: u32)
        ensures
            r == self.quantity,
    {
        self.quantity
    }
}

/// Payload for logically deleting a record.
#[derive(Debug, Clone, Copy)]
pub struct ItemRecordDeletePayload {
    pub id: i64,
    pub item_id: i64,
}

impl ItemRecordDeletePayload {
    /// The record to delete.
    pub fn id(&self) -> (r: i64)
        ensures
            r == self.id,
    {
        self.id
    }

    /// The item the record belongs to.
    pub fn item_id(&self) -> (r: i64)
        ensures
            r == self.item_id,
    {
        self.item_id
    }
}

/// Payload for listing every record.
#[derive(Debug, Clone, Copy)]
pub struct GetAllRecordPayload {
    pub timeframe: Option<Timeframe>,
}

impl GetAllRecordPayload {
    /// The frame to select by, if any.
    pub fn timeframe(&self) -> (r: &Option<Timeframe>)
        ensures
            r == &self.timeframe,
    {
        &self.timeframe
    }
}

/// Payload for editing an item's location: each part optional, and an
/// inner absence clears the stored value.
#[derive(Debug)]
pub struct ItemLocationEditPayload {
    pub rack: Option<Option<String>>,
    pub bin: Option<Option<String>>,
}

impl ItemLocationEditPayload {
    /// The rack change, if any.
    pub fn rack(&self) -> (r: &Option<Option<String>>)
        ensures
            r == &self.rack,
    {
        &self.rack
    }

    /// The bin change, if any.
    pub fn bin(&self) -> (r: &Option<Option<String>>)
        ensures
            r == &self.bin,
    {
        &self.bin
    }
}

/// Payload for editing an item: each part optional.
#[derive(Debug)]
pub struct ItemEditPayload {
    pub id: i64,
    pub name: Option<String>,
    pub metadata: Option<ValueStore>,
    pub image: Option<ItemImagePayload>,
    pub location: Option<ItemLocationEditPayload>,
}

impl ItemEditPayload {
    /// The item to edit.
    pub fn id(&self) -> (r: i64)
        ensures
            r == self.id,
    {
        self.id
    }

    /// The metadata change, if any.
    pub fn metadata(&self) -> (r: &Option<ValueStore>)
        ensures
            r == &self.metadata,
    {
        &self.metadata
    }

    /// The image change, if any.
    pub fn image(&self) -> (r: &Option<ItemImagePayload>)
        ensures
            r == &self.image,
    {
        &self.image
    }

    /// The location change, if any.
    pub fn location(&self) -> (r: &Option<ItemLocationEditPayload>)
        ensures
            r == &self.location,
    {
        &self.location
    }

    /// The name change, if any.
    pub fn name(&self) -> (r: &Option<String>)
        ensures
            r == &self.name,
    {
        &self.name
    }
}

/// Payload for deleting an item.
#[derive(Debug, Clone, Copy)]
pub struct ItemDeletePayload {
    pub id: i64,
}

impl ItemDeletePayload {
    /// The item to delete.
    pub fn id(&self) -> (r: i64)
        ensures
            r == self.id,
    {
        self.id
    }
}

/// Payload for registering a named location group.
#[derive(Debug)]
pub struct LocationMetadateRegisterPayload {
    pub name: String,
    pub metadata: Option<ValueStore>,
}

impl LocationMetadateRegisterPayload {
    /// The group's name.
    pub fn name(&self) -> (r: &str)
        ensures
            r@ == self.name@,
    {
        self.name.as_str()
    }

    /// The metadata, rendered for the text column, if any.
    pub fn metadata_as_str(&self) -> (r: Option<String>)
        ensures
            match r {
                Some(t) => self.metadata matches Some(m) && t@ == render_value(store_repr(m@)),
                None => self.metadata is None,
            },
    {
        match &self.metadata {
            Some(m) => Some(m.to_text()),
            None => None,
        }
    }
}

/// Payload for fetching a location group.
#[derive(Debug, Clone, Copy)]
pub struct LocationMetadataGetPayload {
    pub id: i64,
}

impl LocationMetadataGetPayload {
    /// The group to fetch.
    pub fn id(&self) -> (r: i64)
        ensures
            r == self.id,
    {
        self.id
    }
}

/// Payload for editing a location group; an inner absent metadata
/// clears the stored value.
#[derive(Debug)]
pub struct LocationMetadataUpdatePayload {
    pub id: i64,
    pub name: Option<String>,
    pub metadata: Option<Option<ValueStore>>,
}

impl LocationMetadataUpdatePayload {
    /// The group to edit.
    pub fn id(&self) -> (r: i64)
        ensures
            r == self.id,
    {
        self.id
    }

    /// The new name, if the name changes.
    pub fn name(&self) -> (r: Option<&str>)
        ensures
            match r {
                Some(n) => self.name matches Some(m) && n@ == m@,
                None => self.name is None,
            },
    {
        match &self.name {
            Some(n) => Some(n.as_str()),
            None => None,
        }
    }

    /// The metadata change, rendered for the text column, if any.
    pub fn metadata(&self) -> (r: Option<Option<String>>)
        ensures
            match r {
                Some(Some(t)) => (self.metadata matches Some(i) && i matches Some(m) && t@
                    == render_value(store_repr(m@))),
                Some(None) => self.metadata == Some(None::<ValueStore>),
                None => self.metadata is None,
            },
    {
        match &self.metadata {
            Some(Some(m)) => Some(Some(m.to_text())),
            Some(None) => Some(None),
            None => None,
        }
    }
}

/// Payload for deleting a location group.
#[derive(Debug, Clone, Copy)]
pub struct LocationMetadataDeletePayload {
    pub id: i64,
}

impl LocationMetadataDeletePayload {
    /// The group to delete.
    pub fn id(&self) -> (r: i64)
        ensures
            r == self.id,
    {
        self.id
    }
}

/// A location group read back for callers: its identifier, name and
/// optional metadata store.
#[derive(Debug)]
pub struct Location {
    pub id: i64,
    pub name: String,
    pub metadata: Option<ValueStore>,
}

impl Location {
    /// The group's identifier.
    pub fn id(&self) -> (r: i64)
        ensures
            r == self.id,
    {
        self.id
    }

    /// The group's name.
    pub fn name(&self) -> (r: &str)
        ensures
            r@ == self.name@,
    {
        self.name.as_str()
    }

    /// The group's metadata store, if any.
    pub fn metadata(&self) -> (r: &Option<ValueStore>)
        ensures
            r == &self.metadata,
    {
        &self.metadata
    }
}

} // verus!
