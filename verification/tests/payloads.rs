use stockledger::ledger::{ItemRecord, ItemRecords, Record, TransactionType};
use stockledger::locations::{ImageKey, LocationMetadata, StoredLocation};
use stockledger::params::{
    GetAllRecordPayload, ItemDeletePayload, ItemEditPayload, ItemGetPayload, ItemImagePayload,
    ItemLocationEditPayload, ItemRecordDeletePayload, ItemRecordGetPayload,
    ItemRecordRegisterPayload, ItemRecordUpdatePayload, ItemRegisterPayload, Location,
    LocationMetadataDeletePayload, LocationMetadataGetPayload, LocationMetadataUpdatePayload,
    LocationMetadateRegisterPayload, LocationRegisterPayload, Pagination, Timeframe,
};
use stockledger::value_store::ValueStore;

#[test]
fn record_and_item_record_getters() {
    let record = Record {
        id: 4,
        item_id: 2,
        date: 1685577600,
        transaction_type: TransactionType::In,
        quantity: 10,
        total: 23,
        adjustment_remarks: None,
    };
    assert_eq!(record.id(), 4);
    assert_eq!(record.item_id(), 2);
    assert_eq!(record.date(), 1685577600);
    assert_eq!(record.transaction_type(), TransactionType::In);
    assert_eq!(record.quantity(), 10);
    assert_eq!(record.total(), 23);
    assert_eq!(record.adjustment_remarks(), None);

    let row = ItemRecord {
        id: 4,
        date: 7,
        transaction_type: TransactionType::Out,
        quantity: 3,
        adjustment_remarks: Some(2),
    };
    assert_eq!(row.id(), 4);
    assert_eq!(row.date(), 7);
    assert_eq!(row.transaction_type(), TransactionType::Out);
    assert_eq!(row.quantity(), 3);
    assert_eq!(row.adjustment_remarks(), Some(2));

    let bundle = ItemRecords::new(2, vec![row]);
    assert_eq!(bundle.item_id(), 2);
    assert_eq!(bundle.records().len(), 1);
}

#[test]
fn item_register_payload_carries_its_parts() {
    let metadata = ValueStore::builder()
        .with_schema("Item")
        .string("h", "Hello")
        .number("i", 124)
        .build();
    let rendered = metadata.to_text();
    let payload = ItemRegisterPayload::new(
        "Hello".to_string(),
        metadata,
        ItemImagePayload::New(b"bjkd".to_vec()),
        LocationRegisterPayload::Existing(1),
    );

    assert_eq!(payload.name(), "Hello");
    assert_eq!(payload.metadata(), rendered);
    assert!(matches!(payload.image_data(), ItemImagePayload::New(d) if d == b"bjkd"));
    assert!(matches!(
        payload.location(),
        LocationRegisterPayload::Existing(1)
    ));

    let relocated = LocationRegisterPayload::New {
        location_metadata: 3,
        rack: Some("R1".to_string()),
        bin: None,
    };
    assert!(matches!(
        relocated.clone(),
        LocationRegisterPayload::New { location_metadata: 3, rack: Some(r), bin: None } if r == "R1"
    ));
}

#[test]
fn record_payload_getters() {
    let register = ItemRecordRegisterPayload::new(8, 99, TransactionType::In, 5, Some(1));
    assert_eq!(register.item_id(), 8);
    assert_eq!(register.date(), 99);
    assert_eq!(register.transaction_type(), TransactionType::In);
    assert_eq!(register.quantity(), 5);
    assert_eq!(register.adjustment_remarks(), Some(1));

    let update = ItemRecordUpdatePayload { item_id: 1, record_id: 2, quantity: 6 };
    assert_eq!(update.item_id(), 1);
    assert_eq!(update.record_id(), 2);
    assert_eq!(update.quantity(), 6);

    let delete = ItemRecordDeletePayload { id: 2, item_id: 1 };
    assert_eq!(delete.id(), 2);
    assert_eq!(delete.item_id(), 1);

    let frame = Timeframe { start: 10, end: 20 };
    let all = GetAllRecordPayload { timeframe: Some(frame) };
    assert_eq!(all.timeframe().unwrap().start_timestamp(), 10);

    let get = ItemRecordGetPayload { id: 5, timeframe: None };
    assert_eq!(get.id(), 5);
    assert!(get.timeframe().is_none());
}

#[test]
fn item_payload_getters() {
    let page = Pagination { get_until_id: 30, quantity: 10 };
    assert_eq!(page.get_until_id(), 30);
    assert_eq!(page.quantity(), 10);

    let get = ItemGetPayload { with_image: true, pagination: Some(page) };
    assert!(get.with_image());
    assert_eq!(get.pagination().unwrap().quantity(), 10);

    let edit = ItemEditPayload {
        id: 11,
        name: Some("renamed".to_string()),
        metadata: None,
        image: Some(ItemImagePayload::Existing(2)),
        location: Some(ItemLocationEditPayload { rack: Some(None), bin: None }),
    };
    assert_eq!(edit.id(), 11);
    assert_eq!(edit.name().as_deref(), Some("renamed"));
    assert!(edit.metadata().is_none());
    assert!(matches!(edit.image(), Some(ItemImagePayload::Existing(2))));
    let location = edit.location().as_ref().unwrap();
    assert_eq!(location.rack(), &Some(None));
    assert!(location.bin().is_none());

    assert_eq!(ItemDeletePayload { id: 3 }.id(), 3);
}

#[test]
fn location_payload_getters() {
    let store = ValueStore::builder().string("floor", "2").build();
    let rendered = store.to_text();

    let register = LocationMetadateRegisterPayload {
        name: "Warehouse".to_string(),
        metadata: Some(store),
    };
    assert_eq!(register.name(), "Warehouse");
    assert_eq!(register.metadata_as_str(), Some(rendered.clone()));
    let bare = LocationMetadateRegisterPayload { name: "Bare".to_string(), metadata: None };
    assert!(bare.metadata_as_str().is_none());

    assert_eq!(LocationMetadataGetPayload { id: 4 }.id(), 4);
    assert_eq!(LocationMetadataDeletePayload { id: 4 }.id(), 4);

    let update = LocationMetadataUpdatePayload {
        id: 4,
        name: Some("Depot".to_string()),
        metadata: Some(None),
    };
    assert_eq!(update.id(), 4);
    assert_eq!(update.name(), Some("Depot"));
    assert_eq!(update.metadata(), Some(None));

    let location = Location {
        id: 4,
        name: "Depot".to_string(),
        metadata: None,
    };
    assert_eq!(location.id(), 4);
    assert_eq!(location.name(), "Depot");
    assert!(location.metadata().is_none());
}

#[test]
fn stored_location_rows_and_image_keys() {
    let row = StoredLocation {
        id: 1,
        location: "north".to_string(),
        rack: Some("R2".to_string()),
        bin: None,
    };
    assert_eq!(row.id(), 1);
    assert_eq!(row.location(), "north");
    assert_eq!(row.rack().as_deref(), Some("R2"));
    assert!(row.bin().is_none());

    let group = LocationMetadata { id: 2, name: "cold".to_string(), metadata: None };
    assert_eq!(group.id(), 2);
    assert_eq!(group.name(), "cold");
    assert!(group.metadata().is_none());

    let key = ImageKey("0190-abcd".to_string());
    assert_eq!(key.key(), "0190-abcd");
}
