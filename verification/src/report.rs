//! The lines of the diagnostic read report.
//!
//! By default a report shows no personal value: for each text field only
//! whether it is present and how many characters it holds, for each image its
//! size, and the group statuses. Basic identity values are shown only when
//! asked for.
use crate::data::{
    generation_name, generation_name_str, push_read_status_text, read_status_text, EmiratesIdData,
    EmiratesIdView, ModifiableView, NonModifiableView,
};
use crate::strings::{chars_of, decimal, push_decimal, push_str, string_from_chars};
use vstd::prelude::*;

verus! {

/// A report line saying whether a text field is present and how many
/// characters it holds.
pub open spec fn presence_line(label: Seq<char>, value: Option<Seq<char>>) -> Seq<char> {
    match text_length(value) {
        Some(n) => label + ": present ("@ + decimal(n) + " characters)"@,
        None => label + ": absent"@,
    }
}

/// The number of characters of a text field, or `None` when it is absent.
pub open spec fn text_length(value: Option<Seq<char>>) -> Option<nat> {
    match value {
        Some(v) => Some(v.len()),
        None => None,
    }
}

/// A report line giving the size of an image payload; an absent one has 0 bytes.
pub open spec fn payload_line(label: Seq<char>, payload: Option<Seq<u8>>) -> Seq<char> {
    label + ": "@ + decimal(
        match payload {
            Some(b) => b.len(),
            None => 0,
        },
    ) + " bytes"@
}

/// A report line giving how many characters an identifier has.
pub open spec fn identifier_line(label: Seq<char>, value: Seq<char>) -> Seq<char> {
    label + ": read successfully ("@ + decimal(value.len()) + " characters)"@
}

/// A stored text, or nothing when absent.
pub open spec fn text_or_empty(value: Option<Seq<char>>) -> Seq<char> {
    match value {
        Some(v) => v,
        None => Seq::empty(),
    }
}

/// The presence lines of the identity fields.
pub open spec fn identity_presence_lines(nm: NonModifiableView) -> Seq<Seq<char>> {
    seq![
        presence_line("ID type"@, nm.id_type),
        presence_line("Issue date"@, nm.issue_date),
        presence_line("Expiry date"@, nm.expiry_date),
        presence_line("Arabic title"@, nm.title_arabic),
        presence_line("Arabic full name"@, nm.full_name_arabic),
        presence_line("English title"@, nm.title_english),
        presence_line("English full name"@, nm.full_name_english),
        presence_line("Gender"@, nm.gender),
        presence_line("Arabic nationality"@, nm.nationality_arabic),
        presence_line("English nationality"@, nm.nationality_english),
        presence_line("Nationality code"@, nm.nationality_code),
        presence_line("Date of birth"@, nm.date_of_birth),
        presence_line("Arabic place of birth"@, nm.place_of_birth_arabic),
        presence_line("English place of birth"@, nm.place_of_birth_english),
    ]
}

/// The presence lines of the extended fields.
pub open spec fn extended_presence_lines(m: ModifiableView) -> Seq<Seq<char>> {
    seq![
        presence_line("Occupation code"@, m.occupation_code),
        presence_line("Arabic occupation"@, m.occupation_arabic),
        presence_line("English occupation"@, m.occupation_english),
        presence_line("Family ID"@, m.family_id),
        presence_line("Arabic occupation type"@, m.occupation_type_arabic),
        presence_line("English occupation type"@, m.occupation_type_english),
        presence_line("Occupation field code"@, m.occupation_field_code),
        presence_line("Arabic company name"@, m.company_name_arabic),
        presence_line("English company name"@, m.company_name_english),
        presence_line("Marital status code"@, m.marital_status_code),
        presence_line("Husband ID number"@, m.husband_id_number),
        presence_line("Sponsor type code"@, m.sponsor_type_code),
        presence_line("Sponsor unified number"@, m.sponsor_unified_number),
        presence_line("Sponsor name"@, m.sponsor_name),
        presence_line("Residency type code"@, m.residency_type_code),
        presence_line("Residency number"@, m.residency_number),
        presence_line("Residency expiry date"@, m.residency_expiry_date),
        presence_line("Passport number"@, m.passport_number),
        presence_line("Passport type code"@, m.passport_type_code),
        presence_line("Passport country code"@, m.passport_country_code),
        presence_line("Arabic passport country"@, m.passport_country_arabic),
        presence_line("English passport country"@, m.passport_country_english),
        presence_line("Passport issue date"@, m.passport_issue_date),
        presence_line("Passport expiry date"@, m.passport_expiry_date),
        presence_line("Qualification level code"@, m.qualification_level_code),
        presence_line("Arabic qualification level"@, m.qualification_level_arabic),
        presence_line("English qualification level"@, m.qualification_level_english),
        presence_line("Arabic degree description"@, m.degree_description_arabic),
        presence_line("English degree description"@, m.degree_description_english),
        presence_line("Field of study code"@, m.field_of_study_code),
        presence_line("Arabic field of study"@, m.field_of_study_arabic),
        presence_line("English field of study"@, m.field_of_study_english),
        presence_line("Arabic place of study"@, m.place_of_study_arabic),
        presence_line("English place of study"@, m.place_of_study_english),
        presence_line("Date of graduation"@, m.date_of_graduation),
        presence_line("Arabic mother name"@, m.mother_full_name_arabic),
        presence_line("English mother name"@, m.mother_full_name_english),
    ]
}

/// Every identity field has the same length in `a` as in `b`.
pub open spec fn same_identity_lengths(a: NonModifiableView, b: NonModifiableView) -> bool {
    &&& text_length(a.id_type) == text_length(b.id_type)
    &&& text_length(a.issue_date) == text_length(b.issue_date)
    &&& text_length(a.expiry_date) == text_length(b.expiry_date)
    &&& text_length(a.title_arabic) == text_length(b.title_arabic)
    &&& text_length(a.full_name_arabic) == text_length(b.full_name_arabic)
    &&& text_length(a.title_english) == text_length(b.title_english)
    &&& text_length(a.full_name_english) == text_length(b.full_name_english)
    &&& text_length(a.gender) == text_length(b.gender)
    &&& text_length(a.nationality_arabic) == text_length(b.nationality_arabic)
    &&& text_length(a.nationality_english) == text_length(b.nationality_english)
    &&& text_length(a.nationality_code) == text_length(b.nationality_code)
    &&& text_length(a.date_of_birth) == text_length(b.date_of_birth)
    &&& text_length(a.place_of_birth_arabic) == text_length(b.place_of_birth_arabic)
    &&& text_length(a.place_of_birth_english) == text_length(b.place_of_birth_english)
}

/// Every extended field has the same length in `a` as in `b`.
pub open spec fn same_extended_lengths(a: ModifiableView, b: ModifiableView) -> bool {
    &&& text_length(a.occupation_code) == text_length(b.occupation_code)
    &&& text_length(a.occupation_arabic) == text_length(b.occupation_arabic)
    &&& text_length(a.occupation_english) == text_length(b.occupation_english)
    &&& text_length(a.family_id) == text_length(b.family_id)
    &&& text_length(a.occupation_type_arabic) == text_length(b.occupation_type_arabic)
    &&& text_length(a.occupation_type_english) == text_length(b.occupation_type_english)
    &&& text_length(a.occupation_field_code) == text_length(b.occupation_field_code)
    &&& text_length(a.company_name_arabic) == text_length(b.company_name_arabic)
    &&& text_length(a.company_name_english) == text_length(b.company_name_english)
    &&& text_length(a.marital_status_code) == text_length(b.marital_status_code)
    &&& text_length(a.husband_id_number) == text_length(b.husband_id_number)
    &&& text_length(a.sponsor_type_code) == text_length(b.sponsor_type_code)
    &&& text_length(a.sponsor_unified_number) == text_length(b.sponsor_unified_number)
    &&& text_length(a.sponsor_name) == text_length(b.sponsor_name)
    &&& text_length(a.residency_type_code) == text_length(b.residency_type_code)
    &&& text_length(a.residency_number) == text_length(b.residency_number)
    &&& text_length(a.residency_expiry_date) == text_length(b.residency_expiry_date)
    &&& text_length(a.passport_number) == text_length(b.passport_number)
    &&& text_length(a.passport_type_code) == text_length(b.passport_type_code)
    &&& text_length(a.passport_country_code) == text_length(b.passport_country_code)
    &&& text_length(a.passport_country_arabic) == text_length(b.passport_country_arabic)
    &&& text_length(a.passport_country_english) == text_length(b.passport_country_english)
    &&& text_length(a.passport_issue_date) == text_length(b.passport_issue_date)
    &&& text_length(a.passport_expiry_date) == text_length(b.passport_expiry_date)
    &&& text_length(a.qualification_level_code) == text_length(b.qualification_level_code)
    &&& text_length(a.qualification_level_arabic) == text_length(b.qualification_level_arabic)
    &&& text_length(a.qualification_level_english) == text_length(b.qualification_level_english)
    &&& text_length(a.degree_description_arabic) == text_length(b.degree_description_arabic)
    &&& text_length(a.degree_description_english) == text_length(b.degree_description_english)
    &&& text_length(a.field_of_study_code) == text_length(b.field_of_study_code)
    &&& text_length(a.field_of_study_arabic) == text_length(b.field_of_study_arabic)
    &&& text_length(a.field_of_study_english) == text_length(b.field_of_study_english)
    &&& text_length(a.place_of_study_arabic) == text_length(b.place_of_study_arabic)
    &&& text_length(a.place_of_study_english) == text_length(b.place_of_study_english)
    &&& text_length(a.date_of_graduation) == text_length(b.date_of_graduation)
    &&& text_length(a.mother_full_name_arabic) == text_length(b.mother_full_name_arabic)
    &&& text_length(a.mother_full_name_english) == text_length(b.mother_full_name_english)
}

/// The lines printed after a successful read: with `show_personal_data`, the
/// reader, the identifiers and both full names; otherwise only the generation,
/// field presence and character counts, image sizes and group statuses.
pub open spec fn read_report_spec(d: EmiratesIdView, show_personal_data: bool) -> Seq<Seq<char>> {
    let status = seq![
        "Toolkit-free direct card read: successful"@,
        "Card generation: "@ + generation_name(d.card_generation),
    ];
    if show_personal_data {
        seq!["Reader: "@ + d.reader_name] + status + seq![
            "ID number: "@ + d.id_number,
            "Card number: "@ + d.card_number,
            "English full name: "@ + text_or_empty(d.non_modifiable.full_name_english),
            "Arabic full name: "@ + text_or_empty(d.non_modifiable.full_name_arabic),
        ]
    } else {
        status + seq![
            identifier_line("ID number"@, d.id_number),
            identifier_line("Card number"@, d.card_number),
        ] + identity_presence_lines(d.non_modifiable) + extended_presence_lines(d.modifiable)
            + seq![
            payload_line("Photo"@, d.photo_jpeg),
            payload_line("Holder signature image"@, d.holder_signature_image),
            "Group status: "@ + read_status_text(d.read_status),
        ]
    }
}

fn push_line(lines: &mut Vec<String>, line: Vec<char>)
    ensures
        final(lines).deep_view() == old(lines).deep_view().push(line@),
{
    let ghost before = lines.deep_view();
    lines.push(string_from_chars(line.as_slice()));
    assert(lines.deep_view() =~= before.push(line@));
}

fn optional_str(value: &Option<String>) -> (r: Option<&str>)
    ensures
        r.deep_view() == value.deep_view(),
{
    match value {
        Some(v) => Some(v.as_str()),
        None => None,
    }
}

/// The report line saying whether `value` is present and how many characters it holds.
fn presence_report_line(label: &str, value: Option<&str>) -> (r: Vec<char>)
    ensures
        r@ == presence_line(label@, value.deep_view()),
{
    let mut line = chars_of(label);
    match value {
        Some(v) => {
            let n = chars_of(v).len();
            push_str(&mut line, ": present (");
            push_decimal(&mut line, n as u64);
            push_str(&mut line, " characters)");
        },
        None => push_str(&mut line, ": absent"),
    }
    line
}

fn push_presence(lines: &mut Vec<String>, label: &str, value: &Option<String>)
    ensures
        final(lines).deep_view() == old(lines).deep_view().push(
            presence_line(label@, value.deep_view()),
        ),
{
    let line = presence_report_line(label, optional_str(value));
    push_line(lines, line);
}

fn payload_report_line(label: &str, payload: &Option<Vec<u8>>) -> (r: Vec<char>)
    ensures
        r@ == payload_line(label@, crate::data::bytes_view(*payload)),
{
    let mut line = chars_of(label);
    push_str(&mut line, ": ");
    let n: usize = match payload {
        Some(b) => b.len(),
        None => 0,
    };
    push_decimal(&mut line, n as u64);
    push_str(&mut line, " bytes");
    line
}

fn identifier_report_line(label: &str, value: &String) -> (r: Vec<char>)
    ensures
        r@ == identifier_line(label@, value@),
{
    let mut line = chars_of(label);
    push_str(&mut line, ": read successfully (");
    push_decimal(&mut line, chars_of(value.as_str()).len() as u64);
    push_str(&mut line, " characters)");
    line
}

fn value_line(label: &str, value: &str) -> (r: Vec<char>)
    ensures
        r@ == label@ + value@,
{
    let mut line = chars_of(label);
    push_str(&mut line, value);
    line
}

fn text_or_empty_str(value: &Option<String>) -> (r: &str)
    ensures
        r@ == text_or_empty(value.deep_view()),
{
    match value {
        Some(v) => v.as_str(),
        None => {
            proof {
                reveal_strlit("");
            }
            ""
        },
    }
}

fn push_identity_presence(lines: &mut Vec<String>, d: &crate::data::NonModifiableData)
    ensures
        final(lines).deep_view() == old(lines).deep_view() + identity_presence_lines(d@),
{
    let ghost start = lines.deep_view();
    push_presence(lines, "ID type", &d.id_type);
    push_presence(lines, "Issue date", &d.issue_date);
    push_presence(lines, "Expiry date", &d.expiry_date);
    push_presence(lines, "Arabic title", &d.title_arabic);
    push_presence(lines, "Arabic full name", &d.full_name_arabic);
    push_presence(lines, "English title", &d.title_english);
    push_presence(lines, "English full name", &d.full_name_english);
    push_presence(lines, "Gender", &d.gender);
    push_presence(lines, "Arabic nationality", &d.nationality_arabic);
    push_presence(lines, "English nationality", &d.nationality_english);
    push_presence(lines, "Nationality code", &d.nationality_code);
    push_presence(lines, "Date of birth", &d.date_of_birth);
    push_presence(lines, "Arabic place of birth", &d.place_of_birth_arabic);
    push_presence(lines, "English place of birth", &d.place_of_birth_english);
    assert(lines.deep_view() =~= start + identity_presence_lines(d@));
}

fn push_extended_presence(lines: &mut Vec<String>, d: &crate::data::ModifiableData)
    ensures
        final(lines).deep_view() == old(lines).deep_view() + extended_presence_lines(d@),
{
    let ghost start = lines.deep_view();
    push_presence(lines, "Occupation code", &d.occupation_code);
    push_presence(lines, "Arabic occupation", &d.occupation_arabic);
    push_presence(lines, "English occupation", &d.occupation_english);
    push_presence(lines, "Family ID", &d.family_id);
    push_presence(lines, "Arabic occupation type", &d.occupation_type_arabic);
    push_presence(lines, "English occupation type", &d.occupation_type_english);
    push_presence(lines, "Occupation field code", &d.occupation_field_code);
    push_presence(lines, "Arabic company name", &d.company_name_arabic);
    push_presence(lines, "English company name", &d.company_name_english);
    push_presence(lines, "Marital status code", &d.marital_status_code);
    push_presence(lines, "Husband ID number", &d.husband_id_number);
    push_presence(lines, "Sponsor type code", &d.sponsor_type_code);
    push_presence(lines, "Sponsor unified number", &d.sponsor_unified_number);
    push_presence(lines, "Sponsor name", &d.sponsor_name);
    push_presence(lines, "Residency type code", &d.residency_type_code);
    push_presence(lines, "Residency number", &d.residency_number);
    push_presence(lines, "Residency expiry date", &d.residency_expiry_date);
    push_presence(lines, "Passport number", &d.passport_number);
    push_presence(lines, "Passport type code", &d.passport_type_code);
    push_presence(lines, "Passport country code", &d.passport_country_code);
    push_presence(lines, "Arabic passport country", &d.passport_country_arabic);
    push_presence(lines, "English passport country", &d.passport_country_english);
    push_presence(lines, "Passport issue date", &d.passport_issue_date);
    push_presence(lines, "Passport expiry date", &d.passport_expiry_date);
    push_presence(lines, "Qualification level code", &d.qualification_level_code);
    push_presence(lines, "Arabic qualification level", &d.qualification_level_arabic);
    push_presence(lines, "English qualification level", &d.qualification_level_english);
    push_presence(lines, "Arabic degree description", &d.degree_description_arabic);
    push_presence(lines, "English degree description", &d.degree_description_english);
    push_presence(lines, "Field of study code", &d.field_of_study_code);
    push_presence(lines, "Arabic field of study", &d.field_of_study_arabic);
    push_presence(lines, "English field of study", &d.field_of_study_english);
    push_presence(lines, "Arabic place of study", &d.place_of_study_arabic);
    push_presence(lines, "English place of study", &d.place_of_study_english);
    push_presence(lines, "Date of graduation", &d.date_of_graduation);
    push_presence(lines, "Arabic mother name", &d.mother_full_name_arabic);
    push_presence(lines, "English mother name", &d.mother_full_name_english);
    assert(lines.deep_view() =~= start + extended_presence_lines(d@));
}

/// The lines to print after a successful read of `card`.
pub fn read_report(card: &EmiratesIdData, show_personal_data: bool) -> (r: Vec<String>)
    ensures
        r.deep_view() == read_report_spec(card@, show_personal_data),
{
    let mut lines: Vec<String> = Vec::new();
    if show_personal_data {
        push_line(&mut lines, value_line("Reader: ", card.reader_name.as_str()));
    }
    push_line(&mut lines, chars_of("Toolkit-free direct card read: successful"));
    push_line(&mut lines, value_line("Card generation: ", generation_name_str(card.card_generation)));
    if show_personal_data {
        push_line(&mut lines, value_line("ID number: ", card.id_number.as_str()));
        push_line(&mut lines, value_line("Card number: ", card.card_number.as_str()));
        push_line(
            &mut lines,
            value_line(
                "English full name: ",
                text_or_empty_str(&card.non_modifiable.full_name_english),
            ),
        );
        push_line(
            &mut lines,
            value_line("Arabic full name: ", text_or_empty_str(&card.non_modifiable.full_name_arabic)),
        );
    } else {
        push_line(&mut lines, identifier_report_line("ID number", &card.id_number));
        push_line(&mut lines, identifier_report_line("Card number", &card.card_number));
        push_identity_presence(&mut lines, &card.non_modifiable);
        push_extended_presence(&mut lines, &card.modifiable);
        push_line(&mut lines, payload_report_line("Photo", &card.photo_jpeg));
        push_line(&mut lines, payload_report_line("Holder signature image", &card.holder_signature_image));
        let mut status = chars_of("Group status: ");
        push_read_status_text(&mut status, card.read_status);
        push_line(&mut lines, status);
    }
    assert(lines.deep_view() =~= read_report_spec(card@, show_personal_data));
    lines
}


proof fn lemma_same_identity_lines(a: NonModifiableView, b: NonModifiableView)
    requires
        same_identity_lengths(a, b),
    ensures
        identity_presence_lines(a) == identity_presence_lines(b),
{
    assert(presence_line("ID type"@, a.id_type) == presence_line("ID type"@, b.id_type));
    assert(presence_line("Issue date"@, a.issue_date) == presence_line("Issue date"@, b.issue_date));
    assert(presence_line("Expiry date"@, a.expiry_date) == presence_line("Expiry date"@, b.expiry_date));
    assert(presence_line("Arabic title"@, a.title_arabic) == presence_line("Arabic title"@, b.title_arabic));
    assert(presence_line("Arabic full name"@, a.full_name_arabic) == presence_line("Arabic full name"@, b.full_name_arabic));
    assert(presence_line("English title"@, a.title_english) == presence_line("English title"@, b.title_english));
    assert(presence_line("English full name"@, a.full_name_english) == presence_line("English full name"@, b.full_name_english));
    assert(presence_line("Gender"@, a.gender) == presence_line("Gender"@, b.gender));
    assert(presence_line("Arabic nationality"@, a.nationality_arabic) == presence_line("Arabic nationality"@, b.nationality_arabic));
    assert(presence_line("English nationality"@, a.nationality_english) == presence_line("English nationality"@, b.nationality_english));
    assert(presence_line("Nationality code"@, a.nationality_code) == presence_line("Nationality code"@, b.nationality_code));
    assert(presence_line("Date of birth"@, a.date_of_birth) == presence_line("Date of birth"@, b.date_of_birth));
    assert(presence_line("Arabic place of birth"@, a.place_of_birth_arabic) == presence_line("Arabic place of birth"@, b.place_of_birth_arabic));
    assert(presence_line("English place of birth"@, a.place_of_birth_english) == presence_line("English place of birth"@, b.place_of_birth_english));
}

proof fn lemma_same_extended_lines(a: ModifiableView, b: ModifiableView)
    requires
        same_extended_lengths(a, b),
    ensures
        extended_presence_lines(a) == extended_presence_lines(b),
{
    assert(presence_line("Occupation code"@, a.occupation_code) == presence_line("Occupation code"@, b.occupation_code));
    assert(presence_line("Arabic occupation"@, a.occupation_arabic) == presence_line("Arabic occupation"@, b.occupation_arabic));
    assert(presence_line("English occupation"@, a.occupation_english) == presence_line("English occupation"@, b.occupation_english));
    assert(presence_line("Family ID"@, a.family_id) == presence_line("Family ID"@, b.family_id));
    assert(presence_line("Arabic occupation type"@, a.occupation_type_arabic) == presence_line("Arabic occupation type"@, b.occupation_type_arabic));
    assert(presence_line("English occupation type"@, a.occupation_type_english) == presence_line("English occupation type"@, b.occupation_type_english));
    assert(presence_line("Occupation field code"@, a.occupation_field_code) == presence_line("Occupation field code"@, b.occupation_field_code));
    assert(presence_line("Arabic company name"@, a.company_name_arabic) == presence_line("Arabic company name"@, b.company_name_arabic));
    assert(presence_line("English company name"@, a.company_name_english) == presence_line("English company name"@, b.company_name_english));
    assert(presence_line("Marital status code"@, a.marital_status_code) == presence_line("Marital status code"@, b.marital_status_code));
    assert(presence_line("Husband ID number"@, a.husband_id_number) == presence_line("Husband ID number"@, b.husband_id_number));
    assert(presence_line("Sponsor type code"@, a.sponsor_type_code) == presence_line("Sponsor type code"@, b.sponsor_type_code));
    assert(presence_line("Sponsor unified number"@, a.sponsor_unified_number) == presence_line("Sponsor unified number"@, b.sponsor_unified_number));
    assert(presence_line("Sponsor name"@, a.sponsor_name) == presence_line("Sponsor name"@, b.sponsor_name));
    assert(presence_line("Residency type code"@, a.residency_type_code) == presence_line("Residency type code"@, b.residency_type_code));
    assert(presence_line("Residency number"@, a.residency_number) == presence_line("Residency number"@, b.residency_number));
    assert(presence_line("Residency expiry date"@, a.residency_expiry_date) == presence_line("Residency expiry date"@, b.residency_expiry_date));
    assert(presence_line("Passport number"@, a.passport_number) == presence_line("Passport number"@, b.passport_number));
    assert(presence_line("Passport type code"@, a.passport_type_code) == presence_line("Passport type code"@, b.passport_type_code));
    assert(presence_line("Passport country code"@, a.passport_country_code) == presence_line("Passport country code"@, b.passport_country_code));
    assert(presence_line("Arabic passport country"@, a.passport_country_arabic) == presence_line("Arabic passport country"@, b.passport_country_arabic));
    assert(presence_line("English passport country"@, a.passport_country_english) == presence_line("English passport country"@, b.passport_country_english));
    assert(presence_line("Passport issue date"@, a.passport_issue_date) == presence_line("Passport issue date"@, b.passport_issue_date));
    assert(presence_line("Passport expiry date"@, a.passport_expiry_date) == presence_line("Passport expiry date"@, b.passport_expiry_date));
    assert(presence_line("Qualification level code"@, a.qualification_level_code) == presence_line("Qualification level code"@, b.qualification_level_code));
    assert(presence_line("Arabic qualification level"@, a.qualification_level_arabic) == presence_line("Arabic qualification level"@, b.qualification_level_arabic));
    assert(presence_line("English qualification level"@, a.qualification_level_english) == presence_line("English qualification level"@, b.qualification_level_english));
    assert(presence_line("Arabic degree description"@, a.degree_description_arabic) == presence_line("Arabic degree description"@, b.degree_description_arabic));
    assert(presence_line("English degree description"@, a.degree_description_english) == presence_line("English degree description"@, b.degree_description_english));
    assert(presence_line("Field of study code"@, a.field_of_study_code) == presence_line("Field of study code"@, b.field_of_study_code));
    assert(presence_line("Arabic field of study"@, a.field_of_study_arabic) == presence_line("Arabic field of study"@, b.field_of_study_arabic));
    assert(presence_line("English field of study"@, a.field_of_study_english) == presence_line("English field of study"@, b.field_of_study_english));
    assert(presence_line("Arabic place of study"@, a.place_of_study_arabic) == presence_line("Arabic place of study"@, b.place_of_study_arabic));
    assert(presence_line("English place of study"@, a.place_of_study_english) == presence_line("English place of study"@, b.place_of_study_english));
    assert(presence_line("Date of graduation"@, a.date_of_graduation) == presence_line("Date of graduation"@, b.date_of_graduation));
    assert(presence_line("Arabic mother name"@, a.mother_full_name_arabic) == presence_line("Arabic mother name"@, b.mother_full_name_arabic));
    assert(presence_line("English mother name"@, a.mother_full_name_english) == presence_line("English mother name"@, b.mother_full_name_english));
}

/// The redacted report shows only the generation, field presence and
/// character counts, image sizes and group statuses: two snapshots that agree
/// on these give the same report, whatever their reader, identifiers, names,
/// dates, codes and image bytes.
pub proof fn lemma_redacted_report_shows_lengths_only(a: EmiratesIdView, b: EmiratesIdView)
    requires
        a.card_generation == b.card_generation,
        a.read_status == b.read_status,
        a.id_number.len() == b.id_number.len(),
        a.card_number.len() == b.card_number.len(),
        same_identity_lengths(a.non_modifiable, b.non_modifiable),
        same_extended_lengths(a.modifiable, b.modifiable),
        crate::data::payload_length(a.photo_jpeg) == crate::data::payload_length(b.photo_jpeg),
        crate::data::payload_length(a.holder_signature_image) == crate::data::payload_length(
            b.holder_signature_image,
        ),
    ensures
        read_report_spec(a, false) == read_report_spec(b, false),
{
    lemma_same_identity_lines(a.non_modifiable, b.non_modifiable);
    lemma_same_extended_lines(a.modifiable, b.modifiable);
    assert(payload_line("Photo"@, a.photo_jpeg) == payload_line("Photo"@, b.photo_jpeg));
    assert(payload_line("Holder signature image"@, a.holder_signature_image) == payload_line(
        "Holder signature image"@,
        b.holder_signature_image,
    ));
}

} // verus!
