use fwlog::region_db::{RegionDatabase, RegionLookupError, XDB_INDEX_END};

/// A database with one segment, 1.2.3.0 to 1.2.3.255, holding `record`.
fn database_with(record: &str) -> Vec<u8> {
    let mut data = vec![0_u8; XDB_INDEX_END];
    let segment = XDB_INDEX_END as u32;
    let index = 256 + (1 * 256 * 8 + 2 * 8);
    data[index..index + 4].copy_from_slice(&segment.to_le_bytes());
    data[index + 4..index + 8].copy_from_slice(&(segment + 14).to_le_bytes());
    let record_ptr = segment + 14;
    data.extend_from_slice(&0x0102_0300_u32.to_le_bytes());
    data.extend_from_slice(&0x0102_03FF_u32.to_le_bytes());
    data.extend_from_slice(&(record.len() as u16).to_le_bytes());
    data.extend_from_slice(&record_ptr.to_le_bytes());
    data.extend_from_slice(record.as_bytes());
    data
}

#[test]
fn lookup_splits_the_record_of_the_segment_holding_the_address() {
    let db = RegionDatabase::open(database_with("China|0|Shanghai|Shanghai|Telecom")).unwrap();
    let response = db.lookup("1.2.3.4").unwrap();
    assert_eq!(response.ip, "1.2.3.4");
    assert_eq!(response.region.as_deref(), Some("China Shanghai Shanghai Telecom"));
    assert_eq!(response.country.as_deref(), Some("China"));
    assert_eq!(response.province.as_deref(), Some("Shanghai"));
    assert_eq!(response.city.as_deref(), Some("Shanghai"));
    assert_eq!(response.isp.as_deref(), Some("Telecom"));
    assert_eq!(response.raw.as_deref(), Some("China|0|Shanghai|Shanghai|Telecom"));
}

#[test]
fn lookup_outside_every_segment_gives_an_empty_record() {
    let db = RegionDatabase::open(database_with("China|0|Shanghai|Shanghai|Telecom")).unwrap();
    let response = db.lookup("1.2.4.4").unwrap();
    assert_eq!(response.region, None);
    assert_eq!(response.raw.as_deref(), Some(""));
}

#[test]
fn open_refuses_short_and_corrupt_databases() {
    assert!(matches!(RegionDatabase::open(vec![0_u8; 16]), Err(RegionLookupError::MalformedDatabase)));
    let mut data = database_with("China");
    // the record pointer of the only block now points past the end of the data
    let block = XDB_INDEX_END;
    data[block + 10..block + 14].copy_from_slice(&u32::MAX.to_le_bytes());
    assert!(matches!(RegionDatabase::open(data), Err(RegionLookupError::MalformedDatabase)));
    let mut swapped = database_with("China");
    let index = 256 + (256 * 8 + 2 * 8);
    swapped[index..index + 4].copy_from_slice(&(XDB_INDEX_END as u32 + 28).to_le_bytes());
    assert!(matches!(RegionDatabase::open(swapped), Err(RegionLookupError::MalformedDatabase)));
}

#[test]
fn lookup_refuses_an_address_that_is_not_ipv4() {
    let db = RegionDatabase::open(database_with("China")).unwrap();
    assert_eq!(db.lookup("not an address").unwrap_err(), RegionLookupError::NotIpv4);
    assert_eq!(db.lookup("::1").unwrap_err(), RegionLookupError::NotIpv4);
}
