use emirates_id_reader::apdu::{split_status_word, ApduExchange, ApduStep};
use emirates_id_reader::data::valid_iso_date;
use emirates_id_reader::decode::{date, field, required_ascii_digits, text};
use emirates_id_reader::report::read_report;
use emirates_id_reader::session::{
    check_readers_listed, connect_first_error, keep_first_failure, presence_after_error,
    reader_list_failure, transaction_result,
};
use emirates_id_reader::strings::spaced_hex_string;
use emirates_id_reader::{
    CardGeneration, CardRead, DataGroupStatus, EmiratesIdData, Error, ErrorKind, Gender, Language,
    NonModifiableData, ReadOptions, ReadStep,
};
use std::collections::BTreeMap;

fn container(fields: &[(u16, &[u8])]) -> Vec<u8> {
    let mut data = vec![0x70, 0, 0, 0];
    for (tag, value) in fields {
        data.extend_from_slice(&tag.to_be_bytes());
        data.extend_from_slice(&(value.len() as u16).to_be_bytes());
        data.extend_from_slice(value);
    }
    let length = (data.len() - 4) as u16;
    data[2..4].copy_from_slice(&length.to_be_bytes());
    data
}

fn expect_err<T>(result: Result<T, Error>) -> Error {
    match result {
        Err(error) => error,
        Ok(_) => panic!("expected an error"),
    }
}

/// Feeds the scripted replies to one exchange and records the commands it sends.
fn run_exchange(
    request: &[u8],
    replies: Vec<Result<(Vec<u8>, u16), Error>>,
) -> (Vec<Vec<u8>>, Result<Vec<u8>, Error>) {
    let mut exchange = ApduExchange::new(request);
    let mut sent = vec![exchange.command().to_vec()];
    for reply in replies {
        match exchange.on_reply(reply) {
            ApduStep::Transmit(next, command) => {
                exchange = next;
                sent.push(command);
            }
            ApduStep::Finished(result) => return (sent, result),
        }
    }
    panic!("the exchange asked for more replies than scripted");
}

/// A synthetic card with a file per identifier; selecting an unknown file
/// answers `6A82`.
struct Card {
    files: BTreeMap<u16, Vec<u8>>,
    selected: u16,
    commands: Vec<Vec<u8>>,
    denied: BTreeMap<u16, u16>,
}

impl Card {
    fn new(files: &[(u16, Vec<u8>)]) -> Self {
        Card {
            files: files.iter().cloned().collect(),
            selected: 0,
            commands: vec![],
            denied: BTreeMap::new(),
        }
    }

    fn exchange(&mut self, command: &[u8]) -> Result<Vec<u8>, Error> {
        self.commands.push(command.to_vec());
        match command[1] {
            0xA4 if command[2] == 4 => Ok(vec![]),
            0xA4 => {
                let file = u16::from_be_bytes([command[5], command[6]]);
                if file == 0x0200 {
                    return Ok(vec![]);
                }
                if let Some(sw) = self.denied.get(&file) {
                    return Err(Error::apdu(*sw));
                }
                if self.files.contains_key(&file) {
                    self.selected = file;
                    Ok(vec![])
                } else {
                    Err(Error::apdu(0x6A82))
                }
            }
            0xB0 => {
                let offset = u16::from_be_bytes([command[2], command[3]]) as usize;
                let file = &self.files[&self.selected];
                let end = (offset + command[4] as usize).min(file.len());
                Ok(file[offset..end].to_vec())
            }
            _ => panic!("unexpected command"),
        }
    }

    fn read(&mut self, options: ReadOptions) -> Result<EmiratesIdData, Error> {
        self.read_as(options, CardGeneration::V2)
    }

    fn read_as(
        &mut self,
        options: ReadOptions,
        generation: CardGeneration,
    ) -> Result<EmiratesIdData, Error> {
        let mut step = CardRead::start("Synthetic reader", generation, options);
        loop {
            match step {
                ReadStep::Send(read, command) => {
                    let reply = self.exchange(&command);
                    step = read.on_reply(reply);
                }
                ReadStep::Done(result) => return result,
            }
        }
    }
}

fn identity_file() -> Vec<u8> {
    container(&[(0xE101, b"784199000000007"), (0xE102, b"012345678")])
}

fn core_file() -> Vec<u8> {
    container(&[
        (0xE30B, b" SYNTHETIC , TEST,,HOLDER "),
        (0xA309, "اسم,تجريبي".as_bytes()),
        (0xE30C, b"f"),
        (0x4306, &[0x20, 0x21, 0x03, 0x15]),
        (0x430F, &[0x19, 0x90, 0x12, 0x31]),
    ])
}

fn full_card() -> Card {
    let photo: Vec<u8> = [0xFF, 0xD8, 0xFF].iter().copied().chain(0..=250u8).collect();
    Card::new(&[
        (0x0201, identity_file()),
        (0x0203, core_file()),
        (0x0202, container(&[(0x6203, &photo)])),
        (0x0205, container(&[(0x451D, &[0x20, 0x30, 0x01, 0x31]), (0xE526, b"SYNTHETIC")])),
        (0x0207, container(&[(0x6732, &[7, 7, 7])])),
    ])
}

/// Every value of a snapshot, for comparing two snapshots field by field.
fn values(card: &EmiratesIdData) -> Vec<String> {
    let identity = card.identity();
    let extended = card.extended();
    let mut out = vec![
        card.reader_name().to_string(),
        format!("{:?}", card.card_generation()),
        card.id_number().to_string(),
        card.card_number().to_string(),
        format!("{:?}", card.photo()),
        format!("{:?}", card.signature()),
        format!("{:?}", card.read_status()),
    ];
    for value in [
        &identity.id_type,
        &identity.issue_date,
        &identity.expiry_date,
        &identity.title_arabic,
        &identity.full_name_arabic,
        &identity.title_english,
        &identity.full_name_english,
        &identity.gender,
        &identity.nationality_arabic,
        &identity.nationality_english,
        &identity.nationality_code,
        &identity.date_of_birth,
        &identity.place_of_birth_arabic,
        &identity.place_of_birth_english,
        &extended.occupation_code,
        &extended.occupation_arabic,
        &extended.occupation_english,
        &extended.family_id,
        &extended.occupation_type_arabic,
        &extended.occupation_type_english,
        &extended.occupation_field_code,
        &extended.company_name_arabic,
        &extended.company_name_english,
        &extended.marital_status_code,
        &extended.husband_id_number,
        &extended.sponsor_type_code,
        &extended.sponsor_unified_number,
        &extended.sponsor_name,
        &extended.residency_type_code,
        &extended.residency_number,
        &extended.residency_expiry_date,
        &extended.passport_number,
        &extended.passport_type_code,
        &extended.passport_country_code,
        &extended.passport_country_arabic,
        &extended.passport_country_english,
        &extended.passport_issue_date,
        &extended.passport_expiry_date,
        &extended.qualification_level_code,
        &extended.qualification_level_arabic,
        &extended.qualification_level_english,
        &extended.degree_description_arabic,
        &extended.degree_description_english,
        &extended.field_of_study_code,
        &extended.field_of_study_arabic,
        &extended.field_of_study_english,
        &extended.place_of_study_arabic,
        &extended.place_of_study_english,
        &extended.date_of_graduation,
        &extended.mother_full_name_arabic,
        &extended.mother_full_name_english,
    ] {
        out.push(format!("{:?}", value));
    }
    out
}

#[test]
fn eof_warning_completes_read_binary_only() {
    let (_, result) = run_exchange(&[0x00, 0xB0, 0, 0, 0x10], vec![Ok((vec![1, 2], 0x6282))]);
    assert_eq!(result.unwrap(), vec![1, 2]);
    let (_, result) = run_exchange(
        &[0x00, 0xA4, 0, 0, 2, 0x02, 0x01, 0],
        vec![Ok((vec![1, 2], 0x6282))],
    );
    let error = expect_err(result);
    assert_eq!(error.kind, ErrorKind::Protocol);
    assert_eq!(error.status_word, Some(0x6282));
    assert_eq!(error.message, "Card APDU failed with status word 6282");
}

#[test]
fn get_response_keeps_earlier_data_and_clears_the_chaining_bit() {
    let (sent, result) = run_exchange(
        &[0x10, 0xB0, 0, 0, 0],
        vec![
            Ok((vec![1], 0x6103)),
            Ok((vec![2, 3], 0x6100)),
            Ok((vec![4], 0x9000)),
        ],
    );
    assert_eq!(sent[1], vec![0x00, 0xC0, 0x00, 0x00, 0x03]);
    assert_eq!(sent[2], vec![0x00, 0xC0, 0x00, 0x00, 0x00]);
    assert_eq!(result.unwrap(), vec![1, 2, 3, 4]);
}

#[test]
fn length_correction_changes_only_the_expected_length_once() {
    let request = [0x00, 0xA4, 0x04, 0x00, 0x02, 0xAA, 0xBB, 0x00];
    let (sent, result) = run_exchange(
        &request,
        vec![Ok((vec![9, 9], 0x6C10)), Ok((vec![5], 0x9000))],
    );
    assert_eq!(sent[1], vec![0x00, 0xA4, 0x04, 0x00, 0x02, 0xAA, 0xBB, 0x10]);
    assert_eq!(result.unwrap(), vec![5]);
    let (_, result) = run_exchange(
        &request,
        vec![Ok((vec![], 0x6C10)), Ok((vec![], 0x6C20))],
    );
    assert_eq!(expect_err(result).status_word, Some(0x6C20));
    // A command whose length byte cannot be located is not corrected.
    let (sent, result) = run_exchange(&[0x00, 0xA4, 0x04, 0x00, 0x05, 0xAA], vec![Ok((vec![], 0x6C10))]);
    assert_eq!(sent.len(), 1);
    assert_eq!(expect_err(result).status_word, Some(0x6C10));
}

#[test]
fn an_exchange_ends_by_its_thirty_second_reply() {
    let replies: Vec<_> = (0..40).map(|_| Ok((vec![0], 0x6101))).collect();
    let (sent, result) = run_exchange(&[0x00, 0xB0, 0, 0, 1], replies);
    assert_eq!(sent.len(), 32);
    let error = expect_err(result);
    assert_eq!(error.kind, ErrorKind::Protocol);
    assert_eq!(error.message, "Card APDU exceeded the response-chaining limit");
}

#[test]
fn transport_failures_and_unknown_status_words_end_the_exchange() {
    let (_, result) = run_exchange(&[0x00, 0xB0, 0, 0, 1], vec![Err(Error::pcsc("SCardTransmit", 0x8010_0069))]);
    let error = expect_err(result);
    assert_eq!(error.kind, ErrorKind::CardRemoved);
    assert_eq!(error.pcsc_code(), Some(0x8010_0069));
    let (_, result) = run_exchange(&[0x00, 0xB0, 0, 0, 1], vec![Ok((vec![], 0x6982))]);
    assert_eq!(expect_err(result).status_word, Some(0x6982));
}

#[test]
fn status_words_are_split_from_raw_responses() {
    let (data, sw) = split_status_word(&[1, 2, 0x90, 0x00]).unwrap();
    assert_eq!(data, vec![1, 2]);
    assert_eq!(sw, 0x9000);
    let (data, sw) = split_status_word(&[0x61, 0x10]).unwrap();
    assert!(data.is_empty());
    assert_eq!(sw, 0x6110);
    let error = expect_err(split_status_word(&[0x90]));
    assert_eq!(error.kind, ErrorKind::Protocol);
    assert_eq!(error.message, "Card response has no status word");
}

#[test]
fn a_read_snapshot_is_accepted_unchanged_by_the_builder() {
    let card = full_card().read(ReadOptions::all()).unwrap();
    assert_eq!(card.issue_date(), Some("2021-03-15"));
    assert_eq!(card.date_of_birth(), Some("1990-12-31"));
    assert_eq!(card.extended().residency_expiry_date.as_deref(), Some("2030-01-31"));
    for value in [card.issue_date(), card.date_of_birth()] {
        assert!(valid_iso_date(value.unwrap()));
    }
    let status = card.read_status();
    let rebuilt = EmiratesIdData::builder(card.id_number(), card.card_number())
        .reader_name(card.reader_name())
        .card_generation(card.card_generation())
        .identity(card.identity().clone())
        .extended(card.extended().clone())
        .photo(card.photo().unwrap().to_vec())
        .signature(card.signature().unwrap().to_vec())
        .optional_statuses(status.photo, status.modifiable, status.holder_signature_image)
        .build()
        .unwrap();
    assert_eq!(values(&rebuilt), values(&card));
}

#[test]
fn unrequested_groups_are_never_selected_and_stay_not_requested() {
    let mut card = full_card();
    let data = card.read(ReadOptions::identity_only().with_modifiable_data(true)).unwrap();
    let selected: Vec<u16> = card
        .commands
        .iter()
        .filter(|c| c[1] == 0xA4 && c[2] == 0)
        .map(|c| u16::from_be_bytes([c[5], c[6]]))
        .collect();
    assert_eq!(selected, vec![0x0200, 0x0201, 0x0203, 0x0205]);
    let status = data.read_status();
    assert_eq!(status.identity, DataGroupStatus::Read);
    assert_eq!(status.non_modifiable, DataGroupStatus::Read);
    assert_eq!(status.photo, DataGroupStatus::NotRequested);
    assert_eq!(status.modifiable, DataGroupStatus::Read);
    assert_eq!(status.holder_signature_image, DataGroupStatus::NotRequested);
    assert!(data.photo().is_none());
    assert!(data.signature().is_none());
}

#[test]
fn read_binary_asks_for_at_most_253_bytes_inside_the_file() {
    let mut card = full_card();
    card.read(ReadOptions::all()).unwrap();
    let photo_len = card.files[&0x0202].len();
    let reads: Vec<(usize, usize)> = card
        .commands
        .iter()
        .filter(|c| c[1] == 0xB0)
        .map(|c| (u16::from_be_bytes([c[2], c[3]]) as usize, c[4] as usize))
        .collect();
    assert!(reads.iter().all(|(_, length)| (1..=0xFD).contains(length)));
    assert!(reads.contains(&(0xFD, photo_len - 0xFD)));
}

#[test]
fn optional_failures_are_recorded_and_required_ones_end_the_read() {
    let mut card = full_card();
    card.denied.insert(0x0202, 0x6985);
    card.files.remove(&0x0207);
    let data = card.read(ReadOptions::all()).unwrap();
    assert_eq!(data.read_status().photo, DataGroupStatus::Protected);
    assert_eq!(data.read_status().holder_signature_image, DataGroupStatus::NotAvailable);
    assert_eq!(data.read_status().modifiable, DataGroupStatus::Read);

    let mut card = full_card();
    card.denied.insert(0x0205, 0x6A80);
    let error = expect_err(card.read(ReadOptions::all()));
    assert_eq!(error.status_word, Some(0x6A80));

    let mut card = full_card();
    card.denied.insert(0x0203, 0x6A82);
    let error = expect_err(card.read(ReadOptions::all()));
    assert_eq!(error.status_word, Some(0x6A82));
}

#[test]
fn field_values_follow_their_own_header() {
    let data = container(&[(0x0101, b"AB"), (0xE101, b"XYZ")]);
    assert_eq!(field(&data, 0xE101).unwrap(), Some(&b"XYZ"[..]));
    assert_eq!(field(&data, 0x0101).unwrap(), Some(&b"AB"[..]));
    assert_eq!(field(&data, 0x4242).unwrap(), None);
}

#[test]
fn structural_faults_are_errors_whatever_tag_is_asked() {
    let mut data = container(&[(0xE101, b"XYZ"), (0xE102, b"12")]);
    // Declare the last field longer than the container.
    let last = data.len() - 3;
    data[last] = 9;
    for tag in [0xE101, 0xE102, 0x1234] {
        let error = expect_err(field(&data, tag));
        assert_eq!(error.kind, ErrorKind::InvalidData);
        assert_eq!(error.message, "Field E102 is truncated");
    }
    let duplicated = container(&[(0xE101, b"1"), (0xE101, b"2")]);
    assert_eq!(expect_err(field(&duplicated, 0xE101)).message, "Duplicate field E101");
    assert_eq!(field(&duplicated, 0xE102).unwrap(), None);
}

#[test]
fn identifier_errors_name_the_field_not_the_value() {
    let data = container(&[(0xE101, b"78419SECRET0007")]);
    let error = expect_err(required_ascii_digits(&data, 0xE101, "ID number", 15));
    assert_eq!(error.message, "ID number field E101 has an invalid format");
    assert!(!error.message.contains("SECRET"));
    let error = expect_err(required_ascii_digits(&data, 0xE102, "card number", 9));
    assert_eq!(error.message, "Required card number field E102 is missing");
}

#[test]
fn text_fields_drop_padding_and_blank_values() {
    let data = container(&[(1, b"\0\0 AHMED \0"), (2, b"  \0\0"), (3, &[0xC3, 0x28])]);
    assert_eq!(text(&data, 1).unwrap().as_deref(), Some("AHMED"));
    assert_eq!(text(&data, 2).unwrap(), None);
    assert_eq!(expect_err(text(&data, 3)).message, "Field 0003 is not valid UTF-8");
    let arabic = container(&[(4, "أحمد".as_bytes())]);
    assert_eq!(text(&arabic, 4).unwrap().as_deref(), Some("أحمد"));
}

#[test]
fn decoded_dates_are_iso_calendar_dates() {
    let data = container(&[
        (1, &[0x20, 0x00, 0x02, 0x29]),
        (2, &[0x19, 0x00, 0x02, 0x29]),
        (3, &[0xFF, 0xFF, 0xFF, 0xFF]),
    ]);
    let leap = date(&data, 1).unwrap().unwrap();
    assert_eq!(leap, "2000-02-29");
    assert!(valid_iso_date(&leap));
    assert_eq!(
        expect_err(date(&data, 2)).message,
        "Date 0002 is not a calendar date"
    );
    assert_eq!(date(&data, 3).unwrap(), None);
}

fn named(english: Option<&str>, arabic: Option<&str>) -> EmiratesIdData {
    let mut identity = NonModifiableData::default();
    identity.full_name_english = english.map(str::to_string);
    identity.full_name_arabic = arabic.map(str::to_string);
    EmiratesIdData::builder("784199000000007", "012345678")
        .identity(identity)
        .build()
        .unwrap()
}

#[test]
fn a_display_name_is_its_own_display_form() {
    let card = named(Some("  AHMED , ALI  BIN,,ALKAABI ,"), None);
    let display = card.formatted_name().unwrap();
    assert_eq!(display, "AHMED ALI  BIN ALKAABI");
    assert!(!display.contains(','));
    let again = named(Some(&display), None);
    assert_eq!(again.formatted_name().as_deref(), Some(display.as_str()));
    assert_eq!(
        again.name_components_in(Language::English),
        vec![display.clone()]
    );
}

#[test]
fn names_fall_back_only_when_no_language_has_a_value() {
    let card = named(Some(" , ,"), Some("اسم"));
    assert_eq!(card.name(), Some(" , ,"));
    assert_eq!(card.formatted_name().as_deref(), Some("اسم"));
    let card = named(None, None);
    assert_eq!(card.name(), None);
    assert_eq!(card.formatted_name(), None);
    assert!(card.name_components_in(Language::Arabic).is_empty());
}

#[test]
fn gender_codes_print_back_in_canonical_form() {
    for (code, canonical) in [("m", "M"), ("M", "M"), ("f", "F"), ("F", "F"), ("X", "X"), ("mm", "mm")] {
        let gender = Gender::from_code(code);
        assert_eq!(gender.code(), canonical);
        assert_eq!(Gender::from_code(gender.code()), gender);
    }
    assert_eq!(Gender::from_code(""), Gender::Unrecognized(String::new()));
}

#[test]
fn grouped_id_numbers_are_not_grouped_again() {
    let mut card = named(None, None);
    let grouped = card.formatted_id_number();
    assert_eq!(grouped, "784-1990-0000000-7");
    assert_eq!(grouped.replace('-', ""), card.id_number());
    card.id_number = grouped.clone();
    assert_eq!(card.formatted_id_number(), grouped);
}

#[test]
fn building_a_built_snapshot_changes_nothing() {
    let card = EmiratesIdData::builder("784199000000007", "012345678")
        .photo(vec![0xFF, 0xD8, 0xFF, 0])
        .signature(vec![1, 2])
        .optional_statuses(
            DataGroupStatus::Read,
            DataGroupStatus::Protected,
            DataGroupStatus::NotAvailable,
        )
        .build()
        .unwrap();
    assert!(card.signature().is_none());
    assert_eq!(card.photo(), Some(&[0xFF, 0xD8, 0xFF, 0][..]));
    let status = card.read_status();
    let again = EmiratesIdData::builder(card.id_number(), card.card_number())
        .photo(card.photo().unwrap().to_vec())
        .optional_statuses(status.photo, status.modifiable, status.holder_signature_image)
        .build()
        .unwrap();
    assert_eq!(values(&again), values(&card));
}

#[test]
fn builder_errors_are_invalid_arguments() {
    let error = expect_err(EmiratesIdData::builder("78419900000000", "012345678").build());
    assert_eq!(error.kind, ErrorKind::InvalidArgument);
    assert_eq!(error.message, "invalid identifier format");
    let mut identity = NonModifiableData::default();
    identity.expiry_date = Some("2023-02-29".into());
    let error = expect_err(
        EmiratesIdData::builder("784199000000007", "012345678")
            .identity(identity)
            .build(),
    );
    assert_eq!(error.message, "invalid ISO calendar date");
    let error = expect_err(
        EmiratesIdData::builder("784199000000007", "012345678")
            .photo(vec![0x89, b'P', b'N', b'G'])
            .build(),
    );
    assert_eq!(error.message, "photograph payload is not JPEG");
}

#[test]
fn diagnostic_text_depends_only_on_sizes_and_statuses() {
    let a = named(Some("AHMED"), None);
    let b = named(Some("SALEM"), None);
    assert_eq!(a.redacted_debug(), b.redacted_debug());
    assert_eq!(
        a.redacted_debug(),
        "EmiratesIdData { card_generation: Unknown, read_status: ReadStatus { identity: Read, \
         photo: NotRequested, non_modifiable: Read, modifiable: NotRequested, \
         holder_signature_image: NotRequested }, personal_data: \"[REDACTED]\", photo_bytes: \
         None, signature_bytes: None }"
    );
}

#[test]
fn redacted_report_lists_presence_counts_and_statuses() {
    let card = full_card().read(ReadOptions::all()).unwrap();
    let lines = read_report(&card, false);
    assert_eq!(lines.len(), 2 + 2 + 14 + 37 + 3);
    assert_eq!(lines[0], "Toolkit-free direct card read: successful");
    assert_eq!(lines[1], "Card generation: V2");
    assert_eq!(lines[2], "ID number: read successfully (15 characters)");
    assert_eq!(lines[3], "Card number: read successfully (9 characters)");
    assert_eq!(lines[4], "ID type: absent");
    assert_eq!(lines[5], "Issue date: present (10 characters)");
    assert_eq!(lines[8], "Arabic full name: present (10 characters)");
    assert_eq!(lines[10], "English full name: present (24 characters)");
    assert_eq!(lines[lines.len() - 3], "Photo: 254 bytes");
    assert_eq!(lines[lines.len() - 2], "Holder signature image: 3 bytes");
    assert_eq!(
        lines[lines.len() - 1],
        "Group status: ReadStatus { identity: Read, photo: Read, non_modifiable: Read, \
         modifiable: Read, holder_signature_image: Read }"
    );
    for line in &lines {
        assert!(!line.contains("Synthetic reader"));
        assert!(!line.contains("SYNTHETIC"));
        assert!(!line.contains("784199"));
    }
}

#[test]
fn redacted_reports_of_same_shaped_snapshots_are_equal() {
    let a = named(Some("AHMED"), Some("اسم"));
    let b = EmiratesIdData::builder("784200000000001", "987654321")
        .reader_name("Another reader")
        .identity({
            let mut identity = NonModifiableData::default();
            identity.full_name_english = Some("SALEM".into());
            identity.full_name_arabic = Some("علي".into());
            identity
        })
        .build()
        .unwrap();
    assert_eq!(read_report(&a, false), read_report(&b, false));
    assert_ne!(read_report(&a, true), read_report(&b, true));
}

#[test]
fn personal_report_shows_identifiers_and_names() {
    let card = named(Some("AHMED,ALI"), None);
    let lines = read_report(&card, true);
    assert_eq!(
        lines,
        vec![
            "Reader: ",
            "Toolkit-free direct card read: successful",
            "Card generation: Unknown",
            "ID number: 784199000000007",
            "Card number: 012345678",
            "English full name: AHMED,ALI",
            "Arabic full name: ",
        ]
    );
}

#[test]
fn connection_failures_report_the_earliest_that_is_not_an_empty_reader() {
    let failures = vec![
        Error::pcsc("SCardConnect", 0x8010_000C),
        Error::pcsc("SCardConnect", 0x8010_000B),
        Error::pcsc("SCardConnect", 0x8010_0069),
    ];
    let mut kept = None;
    for failure in failures {
        kept = keep_first_failure(kept, failure);
    }
    let error = connect_first_error(kept);
    assert_eq!(error.kind, ErrorKind::Pcsc);
    assert_eq!(error.pcsc_code(), Some(0x8010_000B));
    assert_eq!(
        error.message,
        "SCardConnect failed with PC/SC error 0x8010000B"
    );
    let only_empty = keep_first_failure(None, Error::pcsc("SCardConnect", 0x8010_000C));
    let error = connect_first_error(only_empty);
    assert_eq!(error.kind, ErrorKind::NoCard);
    assert_eq!(error.message, "No inserted smart card was found");
}

#[test]
fn presence_and_transactions_keep_the_right_failure() {
    assert_eq!(presence_after_error(Error::pcsc("SCardStatus", 0x8010_0069)).unwrap(), false);
    assert_eq!(presence_after_error(Error::pcsc("SCardStatus", 0x8010_002E)).unwrap(), false);
    let error = expect_err(presence_after_error(Error::pcsc("SCardStatus", 0x8010_0001)));
    assert_eq!(error.kind, ErrorKind::Pcsc);

    let read_error = Error::apdu(0x6A82);
    let end_error = Error::pcsc("SCardEndTransaction", 0x8010_0017);
    let result: Result<u8, Error> = transaction_result(Err(read_error), Err(end_error.clone()));
    assert_eq!(expect_err(result).status_word, Some(0x6A82));
    let result = transaction_result(Ok(1u8), Err(end_error));
    assert_eq!(expect_err(result).kind, ErrorKind::CardRemoved);
    assert_eq!(transaction_result(Ok(1u8), Ok(())).unwrap(), 1);
}

#[test]
fn atr_bytes_print_as_spaced_uppercase_hex() {
    assert_eq!(spaced_hex_string(&[0x3B, 0x6A, 0x00, 0xFF]), "3B 6A 00 FF");
    assert_eq!(spaced_hex_string(&[]), "");
}

#[test]
fn a_build_reflects_every_setter_whatever_their_order() {
    let mut identity = NonModifiableData::default();
    identity.full_name_english = Some("AHMED".into());
    let mut extended = emirates_id_reader::ModifiableData::default();
    extended.passport_number = Some("P1".into());
    let card = EmiratesIdData::builder("784199000000007", "012345678")
        .optional_statuses(
            DataGroupStatus::NotAvailable,
            DataGroupStatus::Protected,
            DataGroupStatus::Protected,
        )
        .photo(vec![0xFF, 0xD8, 0xFF, 7])
        .card_generation(CardGeneration::V1)
        .extended(extended)
        .identity(identity)
        .reader_name("R")
        .build()
        .unwrap();
    let status = card.read_status();
    assert_eq!(status.identity, DataGroupStatus::Read);
    assert_eq!(status.non_modifiable, DataGroupStatus::Read);
    assert_eq!(status.photo, DataGroupStatus::Read);
    assert_eq!(status.modifiable, DataGroupStatus::Read);
    assert_eq!(status.holder_signature_image, DataGroupStatus::Protected);
    assert_eq!(card.reader_name(), "R");
    assert_eq!(card.card_generation(), CardGeneration::V1);
    assert_eq!(card.name(), Some("AHMED"));
    assert_eq!(card.photo(), Some(&[0xFF, 0xD8, 0xFF, 7][..]));
    assert_eq!(card.extended().passport_number.as_deref(), Some("P1"));
    assert_eq!(card.signature(), None);
}

#[test]
fn final_statuses_decide_which_payloads_a_build_keeps() {
    let mut extended = emirates_id_reader::ModifiableData::default();
    extended.passport_number = Some("P1".into());
    let card = EmiratesIdData::builder("784199000000007", "012345678")
        .extended(extended)
        .photo(vec![0xFF, 0xD8, 0xFF])
        .signature(vec![1])
        .optional_statuses(
            DataGroupStatus::Protected,
            DataGroupStatus::NotRequested,
            DataGroupStatus::Read,
        )
        .build()
        .unwrap();
    let status = card.read_status();
    assert_eq!(status.identity, DataGroupStatus::Read);
    assert_eq!(status.non_modifiable, DataGroupStatus::Read);
    assert_eq!(status.photo, DataGroupStatus::Protected);
    assert_eq!(status.modifiable, DataGroupStatus::NotRequested);
    assert_eq!(card.photo(), None);
    assert_eq!(card.extended().passport_number, None);
    assert_eq!(card.signature(), Some(&[1u8][..]));
}

#[test]
fn the_generation_changes_nothing_but_the_generation_field() {
    let mut v1 = full_card();
    let mut unknown = full_card();
    let a = v1.read_as(ReadOptions::all(), CardGeneration::V1).unwrap();
    let b = unknown.read_as(ReadOptions::all(), CardGeneration::Unknown).unwrap();
    assert_eq!(v1.commands, unknown.commands);
    assert_eq!(a.card_generation(), CardGeneration::V1);
    assert_eq!(b.card_generation(), CardGeneration::Unknown);
    let mut va = values(&a);
    let mut vb = values(&b);
    va.remove(1);
    vb.remove(1);
    assert_eq!(va, vb);
}

#[test]
fn an_empty_reader_list_is_a_no_reader_error() {
    let error = expect_err(check_readers_listed(0));
    assert_eq!(error.kind, ErrorKind::NoReader);
    assert_eq!(error.message, "No PC/SC reader is available");
    assert!(check_readers_listed(2).is_ok());
    assert!(reader_list_failure(Error::pcsc("SCardListReaders", 0x8010_002E)).is_none());
    let kept = reader_list_failure(Error::pcsc("SCardListReaders", 0x8010_001D)).unwrap();
    assert_eq!(kept.kind, ErrorKind::Pcsc);
}
