use emirates_id_reader::{
    DataGroupStatus, EmiratesIdData, Error, ErrorKind, ModifiableData, NonModifiableData,
    ReadOptions,
};

fn snapshot() -> EmiratesIdData {
    let mut identity = NonModifiableData::default();
    identity.full_name_english = Some("SYNTHETIC,, HOLDER".into());
    identity.date_of_birth = Some("2000-02-29".into());
    identity.gender = Some("m".into());
    let mut extended = ModifiableData::default();
    extended.passport_number = Some("TEST-PASSPORT".into());
    EmiratesIdData::builder("784200000000001", "123456789")
        .reader_name("SYNTHETIC-READER")
        .identity(identity)
        .extended(extended)
        .photo(vec![0xFF, 0xD8, 0xFF, 1])
        .signature(b"TEST-SIGNATURE".to_vec())
        .build()
        .unwrap()
}

fn expect_err<T>(result: Result<T, Error>) -> Error {
    match result {
        Err(error) => error,
        Ok(_) => panic!("expected an error"),
    }
}

#[test]
fn defaults_do_not_request_optional_groups() {
    assert_eq!(ReadOptions::default(), ReadOptions::identity_only());
    assert_ne!(ReadOptions::default(), ReadOptions::all());
}

#[test]
fn public_builder_preserves_raw_values_and_borrowed_access() {
    let card = snapshot();
    assert_eq!(card.name(), Some("SYNTHETIC,, HOLDER"));
    assert_eq!(card.formatted_name().as_deref(), Some("SYNTHETIC HOLDER"));
    assert_eq!(card.gender_code(), Some("m"));
    assert_eq!(card.id_number(), "784200000000001");
    assert_eq!(card.formatted_id_number(), "784-2000-0000000-1");
    assert_eq!(card.read_status().modifiable, DataGroupStatus::Read);
    assert_eq!(
        card.extended().passport_number.as_deref(),
        Some("TEST-PASSPORT")
    );
}

#[test]
fn debug_redacts_nested_records_and_payloads() {
    let card = snapshot();
    for text in [
        card.redacted_debug(),
        card.identity().redacted_debug(),
        card.extended().redacted_debug(),
    ] {
        assert!(text.contains("REDACTED"));
        for secret in [
            "SYNTHETIC",
            "HOLDER",
            "784200000000001",
            "123456789",
            "TEST-PASSPORT",
            "TEST-SIGNATURE",
            "2000-02-29",
            "255",
        ] {
            assert!(!text.contains(secret), "debug exposed a synthetic secret");
        }
    }
    assert!(
        !EmiratesIdData::builder("784200000000001", "123456789")
            .redacted_debug()
            .contains("784200000000001")
    );
}

#[test]
fn public_builder_rejects_invalid_identifiers_dates_and_photos() {
    for (id, serial) in [
        ("invalid", "123456789"),
        ("784200000000001", "123"),
        ("٧84200000000001", "123456789"),
    ] {
        assert_eq!(
            expect_err(EmiratesIdData::builder(id, serial).build()).kind,
            ErrorKind::InvalidArgument
        );
    }
    for date in [
        "1900-02-29",
        "2000-04-31",
        "0000-01-01",
        "2000-13-01",
        "2000-02-00",
        "2000-2-29",
        "💥2000-01",
    ] {
        let mut identity = NonModifiableData::default();
        identity.issue_date = Some(date.into());
        assert!(
            EmiratesIdData::builder("784200000000001", "123456789")
                .identity(identity)
                .build()
                .is_err()
        );
        let mut extended = ModifiableData::default();
        extended.passport_expiry_date = Some(date.into());
        assert!(
            EmiratesIdData::builder("784200000000001", "123456789")
                .extended(extended)
                .build()
                .is_err()
        );
    }
    assert!(
        EmiratesIdData::builder("784200000000001", "123456789")
            .photo(vec![1, 2, 3])
            .build()
            .is_err()
    );
}

#[test]
fn disabled_builder_groups_cannot_retain_supplied_payloads() {
    let mut extended = ModifiableData::default();
    extended.passport_number = Some("TEST-PASSPORT".into());
    let card = EmiratesIdData::builder("784200000000001", "123456789")
        .photo(vec![1])
        .signature(vec![2])
        .extended(extended)
        .optional_statuses(
            DataGroupStatus::Protected,
            DataGroupStatus::NotRequested,
            DataGroupStatus::NotAvailable,
        )
        .build()
        .unwrap();
    assert_eq!(card.photo(), None);
    assert_eq!(card.signature(), None);
    assert_eq!(card.extended().passport_number, None);
    assert_eq!(card.read_status().photo, DataGroupStatus::Protected);
}

#[test]
fn snapshot_and_error_types_are_send_and_sync() {
    fn send_sync<T: Send + Sync>() {}
    fn debug<T: std::fmt::Debug>() {}
    send_sync::<EmiratesIdData>();
    send_sync::<Error>();
    debug::<Error>();
}
