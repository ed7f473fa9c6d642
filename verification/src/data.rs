//! Card generations, read options, and decoded public data.
use crate::decode::{days_in_month, days_in_month_of, is_calendar_date};
use crate::error::{plain_error, Error, ErrorKind, ErrorView};
use crate::strings::{
    all_ascii_digits, chars_of, decimal, is_ascii_digit, is_ascii_digits_of_len, is_clean_piece,
    join_nonempty, join_nonempty_chars, lemma_join_clean, lemma_split_on_pieces, lemma_trim_clean,
    push_decimal, push_str, split_on, split_trimmed, string_from_chars, trim, trim_back,
    trim_front, Padding,
};
use vstd::prelude::*;

verus! {

/// Emirates ID chip generation as defined by the official ICP SDK guides.
#[derive(Clone, Copy, Debug, PartialEq, Eq, Structural)]
#[non_exhaustive]
pub enum CardGeneration {
    /// First-generation Emirates ID chip.
    V1,
    /// Second-generation Emirates ID chip.
    V2,
    /// The ATR is not recognized. Application selection and reading may still
    /// succeed, but this classification alone does not identify an Emirates ID.
    Unknown,
}

/// The V1 ATRs published by ICP; they differ in one historical-byte value.
pub open spec fn v1_atr(variant: u8) -> Seq<u8> {
    seq![0x3Bu8, 0x6A, 0x00, 0x00, 0x80, 0x65, 0xA2, 0x01, variant, 0x01, 0x3D, 0x72, 0xD6, 0x41]
}

/// The V2 ATRs published by ICP; they differ in one historical-byte value.
pub open spec fn v2_atr(variant: u8) -> Seq<u8> {
    seq![0x3Bu8, 0x7A, 0x95, 0x00, 0x00, 0x80, 0x65, 0xA2, 0x01, variant, 0x01, 0x3D, 0x72, 0xD6, 0x41]
}

/// The generation that the published ATR list assigns to `atr`.
pub open spec fn generation_of(atr: Seq<u8>) -> CardGeneration {
    if atr == v1_atr(0x30) || atr == v1_atr(0x31) {
        CardGeneration::V1
    } else if atr == v2_atr(0x30) || atr == v2_atr(0x31) {
        CardGeneration::V2
    } else {
        CardGeneration::Unknown
    }
}

/// `a` and `b` hold the same bytes.
pub fn same_bytes(a: &[u8], b: &[u8]) -> (r: bool)
    ensures
        r == (a@ == b@),
{
    if a.len() != b.len() {
        return false;
    }
    let mut i: usize = 0;
    while i < a.len()
        invariant
            a@.len() == b@.len(),
            i <= a@.len(),
            forall|j: int| 0 <= j < i ==> a@[j] == b@[j],
        decreases a@.len() - i,
    {
        if a[i] != b[i] {
            return false;
        }
        i = i + 1;
    }
    assert(a@ =~= b@);
    true
}

impl CardGeneration {
    /// Classifies an ATR using the V1/V2 values published by ICP.
    pub fn from_atr(atr: &[u8]) -> (g: Self)
        ensures
            g == generation_of(atr@),
    {
        let v1a: [u8; 14] = [0x3B, 0x6A, 0x00, 0x00, 0x80, 0x65, 0xA2, 0x01, 0x30, 0x01, 0x3D, 0x72, 0xD6, 0x41];
        let v1b: [u8; 14] = [0x3B, 0x6A, 0x00, 0x00, 0x80, 0x65, 0xA2, 0x01, 0x31, 0x01, 0x3D, 0x72, 0xD6, 0x41];
        let v2a: [u8; 15] = [0x3B, 0x7A, 0x95, 0x00, 0x00, 0x80, 0x65, 0xA2, 0x01, 0x30, 0x01, 0x3D, 0x72, 0xD6, 0x41];
        let v2b: [u8; 15] = [0x3B, 0x7A, 0x95, 0x00, 0x00, 0x80, 0x65, 0xA2, 0x01, 0x31, 0x01, 0x3D, 0x72, 0xD6, 0x41];
        assert(v1a@ =~= v1_atr(0x30));
        assert(v1b@ =~= v1_atr(0x31));
        assert(v2a@ =~= v2_atr(0x30));
        assert(v2b@ =~= v2_atr(0x31));
        if same_bytes(atr, v1a.as_slice()) || same_bytes(atr, v1b.as_slice()) {
            CardGeneration::V1
        } else if same_bytes(atr, v2a.as_slice()) || same_bytes(atr, v2b.as_slice()) {
            CardGeneration::V2
        } else {
            CardGeneration::Unknown
        }
    }
}

/// Controls optional reads. The default requests identifiers and core identity only.
#[derive(Clone, Copy, Debug, PartialEq, Eq, Structural)]
#[must_use]
#[non_exhaustive]
pub struct ReadOptions {
    /// Read the photograph elementary file.
    pub photo: bool,
    /// Read occupation, residency, passport, and education data.
    pub modifiable_data: bool,
    /// Read the holder-signature image file when available.
    pub holder_signature_image: bool,
}

impl ReadOptions {
    /// Requests every supported public data group.
    pub fn all() -> (r: Self)
        ensures
            r.photo && r.modifiable_data && r.holder_signature_image,
    {
        Self { photo: true, modifiable_data: true, holder_signature_image: true }
    }

    /// Fast path for matching/check-in workflows: identifiers and core identity
    /// fields only, without large binary images or extended data.
    pub fn identity_only() -> (r: Self)
        ensures
            !r.photo && !r.modifiable_data && !r.holder_signature_image,
    {
        Self { photo: false, modifiable_data: false, holder_signature_image: false }
    }

    /// Enables or disables photograph transfer.
    pub fn with_photo(self, enabled: bool) -> (r: Self)
        ensures
            r == (Self { photo: enabled, ..self }),
    {
        Self { photo: enabled, ..self }
    }

    /// Enables or disables occupation, residency, passport, and education transfer.
    pub fn with_modifiable_data(self, enabled: bool) -> (r: Self)
        ensures
            r == (Self { modifiable_data: enabled, ..self }),
    {
        Self { modifiable_data: enabled, ..self }
    }

    /// Enables or disables holder-signature image transfer.
    pub fn with_holder_signature_image(self, enabled: bool) -> (r: Self)
        ensures
            r == (Self { holder_signature_image: enabled, ..self }),
    {
        Self { holder_signature_image: enabled, ..self }
    }
}

impl Default for ReadOptions {
    fn default() -> (r: Self)
        ensures
            !r.photo && !r.modifiable_data && !r.holder_signature_image,
    {
        Self::identity_only()
    }
}

/// Result of reading one optional card data group.
#[derive(Clone, Copy, Debug, PartialEq, Eq, Structural)]
#[non_exhaustive]
pub enum DataGroupStatus {
    /// The file was available and read.
    Read,
    /// The caller disabled the group through [`ReadOptions`].
    NotRequested,
    /// The card reports that the file is absent.
    NotAvailable,
    /// The card requires authentication or secure messaging for the file.
    Protected,
}

/// Access outcome for every elementary-file group used by a read.
#[derive(Clone, Copy, Debug, PartialEq, Eq, Structural)]
#[non_exhaustive]
pub struct ReadStatus {
    /// Required identifiers file.
    pub identity: DataGroupStatus,
    /// Optional photograph file.
    pub photo: DataGroupStatus,
    /// Required core identity file.
    pub non_modifiable: DataGroupStatus,
    /// Optional occupation/residency/passport/education file.
    pub modifiable: DataGroupStatus,
    /// Optional signature-image file.
    pub holder_signature_image: DataGroupStatus,
}

/// Core identity values which are not normally changed after card issuance.
#[derive(Clone)]
#[non_exhaustive]
pub struct NonModifiableData {
    /// Card/document type code.
    pub id_type: Option<String>,
    /// Issue date as `YYYY-MM-DD`.
    pub issue_date: Option<String>,
    /// Expiry date as `YYYY-MM-DD`.
    pub expiry_date: Option<String>,
    /// Arabic honorific/title.
    pub title_arabic: Option<String>,
    /// Full Arabic name.
    pub full_name_arabic: Option<String>,
    /// English honorific/title.
    pub title_english: Option<String>,
    /// Full English name.
    pub full_name_english: Option<String>,
    /// Gender/sex code stored by the card.
    pub gender: Option<String>,
    /// Arabic nationality description.
    pub nationality_arabic: Option<String>,
    /// English nationality description when supplied by the card generation.
    pub nationality_english: Option<String>,
    /// Three-character nationality code.
    pub nationality_code: Option<String>,
    /// Date of birth as `YYYY-MM-DD`.
    pub date_of_birth: Option<String>,
    /// Arabic place of birth; a V2 extension.
    pub place_of_birth_arabic: Option<String>,
    /// English place of birth; a V2 extension.
    pub place_of_birth_english: Option<String>,
}

/// The decoded values of a [`NonModifiableData`].
pub struct NonModifiableView {
    pub id_type: Option<Seq<char>>,
    pub issue_date: Option<Seq<char>>,
    pub expiry_date: Option<Seq<char>>,
    pub title_arabic: Option<Seq<char>>,
    pub full_name_arabic: Option<Seq<char>>,
    pub title_english: Option<Seq<char>>,
    pub full_name_english: Option<Seq<char>>,
    pub gender: Option<Seq<char>>,
    pub nationality_arabic: Option<Seq<char>>,
    pub nationality_english: Option<Seq<char>>,
    pub nationality_code: Option<Seq<char>>,
    pub date_of_birth: Option<Seq<char>>,
    pub place_of_birth_arabic: Option<Seq<char>>,
    pub place_of_birth_english: Option<Seq<char>>,
}

impl View for NonModifiableData {
    type V = NonModifiableView;

    open spec fn view(&self) -> NonModifiableView {
        NonModifiableView {
            id_type: self.id_type.deep_view(),
            issue_date: self.issue_date.deep_view(),
            expiry_date: self.expiry_date.deep_view(),
            title_arabic: self.title_arabic.deep_view(),
            full_name_arabic: self.full_name_arabic.deep_view(),
            title_english: self.title_english.deep_view(),
            full_name_english: self.full_name_english.deep_view(),
            gender: self.gender.deep_view(),
            nationality_arabic: self.nationality_arabic.deep_view(),
            nationality_english: self.nationality_english.deep_view(),
            nationality_code: self.nationality_code.deep_view(),
            date_of_birth: self.date_of_birth.deep_view(),
            place_of_birth_arabic: self.place_of_birth_arabic.deep_view(),
            place_of_birth_english: self.place_of_birth_english.deep_view(),
        }
    }
}

impl NonModifiableView {
    /// Every field absent.
    pub open spec fn empty() -> Self {
        NonModifiableView {
            id_type: None,
            issue_date: None,
            expiry_date: None,
            title_arabic: None,
            full_name_arabic: None,
            title_english: None,
            full_name_english: None,
            gender: None,
            nationality_arabic: None,
            nationality_english: None,
            nationality_code: None,
            date_of_birth: None,
            place_of_birth_arabic: None,
            place_of_birth_english: None,
        }
    }


    /// The fields from `values`, in card layout order.
    pub open spec fn from_values(values: Seq<Option<Seq<char>>>) -> Self {
        NonModifiableView {
            id_type: values[0],
            issue_date: values[1],
            expiry_date: values[2],
            title_arabic: values[3],
            full_name_arabic: values[4],
            title_english: values[5],
            full_name_english: values[6],
            gender: values[7],
            nationality_arabic: values[8],
            nationality_english: values[9],
            nationality_code: values[10],
            date_of_birth: values[11],
            place_of_birth_arabic: values[12],
            place_of_birth_english: values[13],
        }
    }
}

impl Default for NonModifiableData {
    fn default() -> (r: Self)
        ensures
            r@ == NonModifiableView::empty(),
    {
        NonModifiableData {
            id_type: None,
            issue_date: None,
            expiry_date: None,
            title_arabic: None,
            full_name_arabic: None,
            title_english: None,
            full_name_english: None,
            gender: None,
            nationality_arabic: None,
            nationality_english: None,
            nationality_code: None,
            date_of_birth: None,
            place_of_birth_arabic: None,
            place_of_birth_english: None,
        }
    }
}

/// Changeable and extended public fields. Many are V2-only or holder-dependent.
#[derive(Clone)]
#[non_exhaustive]
pub struct ModifiableData {
    /// Occupation code, preserving leading zeroes.
    pub occupation_code: Option<String>,
    /// Arabic occupation description.
    pub occupation_arabic: Option<String>,
    /// English occupation description.
    pub occupation_english: Option<String>,
    /// Family identifier.
    pub family_id: Option<String>,
    /// Arabic occupation type.
    pub occupation_type_arabic: Option<String>,
    /// English occupation type.
    pub occupation_type_english: Option<String>,
    /// Occupation-field code.
    pub occupation_field_code: Option<String>,
    /// Arabic employer/company name.
    pub company_name_arabic: Option<String>,
    /// English employer/company name.
    pub company_name_english: Option<String>,
    /// Marital-status code.
    pub marital_status_code: Option<String>,
    /// Husband's Emirates ID number when populated.
    pub husband_id_number: Option<String>,
    /// Sponsor-type code.
    pub sponsor_type_code: Option<String>,
    /// Sponsor unified number.
    pub sponsor_unified_number: Option<String>,
    /// Sponsor name.
    pub sponsor_name: Option<String>,
    /// Residency-type code.
    pub residency_type_code: Option<String>,
    /// Residency number.
    pub residency_number: Option<String>,
    /// Residency expiry date as `YYYY-MM-DD`.
    pub residency_expiry_date: Option<String>,
    /// Passport number.
    pub passport_number: Option<String>,
    /// Passport-type code.
    pub passport_type_code: Option<String>,
    /// Passport-country code.
    pub passport_country_code: Option<String>,
    /// Arabic passport-country description.
    pub passport_country_arabic: Option<String>,
    /// English passport-country description.
    pub passport_country_english: Option<String>,
    /// Passport issue date as `YYYY-MM-DD`.
    pub passport_issue_date: Option<String>,
    /// Passport expiry date as `YYYY-MM-DD`.
    pub passport_expiry_date: Option<String>,
    /// Qualification-level code.
    pub qualification_level_code: Option<String>,
    /// Arabic qualification-level description.
    pub qualification_level_arabic: Option<String>,
    /// English qualification-level description.
    pub qualification_level_english: Option<String>,
    /// Arabic degree description.
    pub degree_description_arabic: Option<String>,
    /// English degree description.
    pub degree_description_english: Option<String>,
    /// Field-of-study code.
    pub field_of_study_code: Option<String>,
    /// Arabic field-of-study description.
    pub field_of_study_arabic: Option<String>,
    /// English field-of-study description.
    pub field_of_study_english: Option<String>,
    /// Arabic place-of-study description.
    pub place_of_study_arabic: Option<String>,
    /// English place-of-study description.
    pub place_of_study_english: Option<String>,
    /// Graduation date as `YYYY-MM-DD`.
    pub date_of_graduation: Option<String>,
    /// Mother's Arabic name (V1 stores the first name; V2 may store the full name).
    pub mother_full_name_arabic: Option<String>,
    /// Mother's English name (V1 stores the first name; V2 may store the full name).
    pub mother_full_name_english: Option<String>,
}

/// The decoded values of a [`ModifiableData`].
pub struct ModifiableView {
    pub occupation_code: Option<Seq<char>>,
    pub occupation_arabic: Option<Seq<char>>,
    pub occupation_english: Option<Seq<char>>,
    pub family_id: Option<Seq<char>>,
    pub occupation_type_arabic: Option<Seq<char>>,
    pub occupation_type_english: Option<Seq<char>>,
    pub occupation_field_code: Option<Seq<char>>,
    pub company_name_arabic: Option<Seq<char>>,
    pub company_name_english: Option<Seq<char>>,
    pub marital_status_code: Option<Seq<char>>,
    pub husband_id_number: Option<Seq<char>>,
    pub sponsor_type_code: Option<Seq<char>>,
    pub sponsor_unified_number: Option<Seq<char>>,
    pub sponsor_name: Option<Seq<char>>,
    pub residency_type_code: Option<Seq<char>>,
    pub residency_number: Option<Seq<char>>,
    pub residency_expiry_date: Option<Seq<char>>,
    pub passport_number: Option<Seq<char>>,
    pub passport_type_code: Option<Seq<char>>,
    pub passport_country_code: Option<Seq<char>>,
    pub passport_country_arabic: Option<Seq<char>>,
    pub passport_country_english: Option<Seq<char>>,
    pub passport_issue_date: Option<Seq<char>>,
    pub passport_expiry_date: Option<Seq<char>>,
    pub qualification_level_code: Option<Seq<char>>,
    pub qualification_level_arabic: Option<Seq<char>>,
    pub qualification_level_english: Option<Seq<char>>,
    pub degree_description_arabic: Option<Seq<char>>,
    pub degree_description_english: Option<Seq<char>>,
    pub field_of_study_code: Option<Seq<char>>,
    pub field_of_study_arabic: Option<Seq<char>>,
    pub field_of_study_english: Option<Seq<char>>,
    pub place_of_study_arabic: Option<Seq<char>>,
    pub place_of_study_english: Option<Seq<char>>,
    pub date_of_graduation: Option<Seq<char>>,
    pub mother_full_name_arabic: Option<Seq<char>>,
    pub mother_full_name_english: Option<Seq<char>>,
}

impl View for ModifiableData {
    type V = ModifiableView;

    open spec fn view(&self) -> ModifiableView {
        ModifiableView {
            occupation_code: self.occupation_code.deep_view(),
            occupation_arabic: self.occupation_arabic.deep_view(),
            occupation_english: self.occupation_english.deep_view(),
            family_id: self.family_id.deep_view(),
            occupation_type_arabic: self.occupation_type_arabic.deep_view(),
            occupation_type_english: self.occupation_type_english.deep_view(),
            occupation_field_code: self.occupation_field_code.deep_view(),
            company_name_arabic: self.company_name_arabic.deep_view(),
            company_name_english: self.company_name_english.deep_view(),
            marital_status_code: self.marital_status_code.deep_view(),
            husband_id_number: self.husband_id_number.deep_view(),
            sponsor_type_code: self.sponsor_type_code.deep_view(),
            sponsor_unified_number: self.sponsor_unified_number.deep_view(),
            sponsor_name: self.sponsor_name.deep_view(),
            residency_type_code: self.residency_type_code.deep_view(),
            residency_number: self.residency_number.deep_view(),
            residency_expiry_date: self.residency_expiry_date.deep_view(),
            passport_number: self.passport_number.deep_view(),
            passport_type_code: self.passport_type_code.deep_view(),
            passport_country_code: self.passport_country_code.deep_view(),
            passport_country_arabic: self.passport_country_arabic.deep_view(),
            passport_country_english: self.passport_country_english.deep_view(),
            passport_issue_date: self.passport_issue_date.deep_view(),
            passport_expiry_date: self.passport_expiry_date.deep_view(),
            qualification_level_code: self.qualification_level_code.deep_view(),
            qualification_level_arabic: self.qualification_level_arabic.deep_view(),
            qualification_level_english: self.qualification_level_english.deep_view(),
            degree_description_arabic: self.degree_description_arabic.deep_view(),
            degree_description_english: self.degree_description_english.deep_view(),
            field_of_study_code: self.field_of_study_code.deep_view(),
            field_of_study_arabic: self.field_of_study_arabic.deep_view(),
            field_of_study_english: self.field_of_study_english.deep_view(),
            place_of_study_arabic: self.place_of_study_arabic.deep_view(),
            place_of_study_english: self.place_of_study_english.deep_view(),
            date_of_graduation: self.date_of_graduation.deep_view(),
            mother_full_name_arabic: self.mother_full_name_arabic.deep_view(),
            mother_full_name_english: self.mother_full_name_english.deep_view(),
        }
    }
}

impl ModifiableView {
    /// Every field absent.
    pub open spec fn empty() -> Self {
        ModifiableView {
            occupation_code: None,
            occupation_arabic: None,
            occupation_english: None,
            family_id: None,
            occupation_type_arabic: None,
            occupation_type_english: None,
            occupation_field_code: None,
            company_name_arabic: None,
            company_name_english: None,
            marital_status_code: None,
            husband_id_number: None,
            sponsor_type_code: None,
            sponsor_unified_number: None,
            sponsor_name: None,
            residency_type_code: None,
            residency_number: None,
            residency_expiry_date: None,
            passport_number: None,
            passport_type_code: None,
            passport_country_code: None,
            passport_country_arabic: None,
            passport_country_english: None,
            passport_issue_date: None,
            passport_expiry_date: None,
            qualification_level_code: None,
            qualification_level_arabic: None,
            qualification_level_english: None,
            degree_description_arabic: None,
            degree_description_english: None,
            field_of_study_code: None,
            field_of_study_arabic: None,
            field_of_study_english: None,
            place_of_study_arabic: None,
            place_of_study_english: None,
            date_of_graduation: None,
            mother_full_name_arabic: None,
            mother_full_name_english: None,
        }
    }


    /// The fields from `values`, in card layout order.
    pub open spec fn from_values(values: Seq<Option<Seq<char>>>) -> Self {
        ModifiableView {
            occupation_code: values[0],
            occupation_arabic: values[1],
            occupation_english: values[2],
            family_id: values[3],
            occupation_type_arabic: values[4],
            occupation_type_english: values[5],
            occupation_field_code: values[6],
            company_name_arabic: values[7],
            company_name_english: values[8],
            marital_status_code: values[9],
            husband_id_number: values[10],
            sponsor_type_code: values[11],
            sponsor_unified_number: values[12],
            sponsor_name: values[13],
            residency_type_code: values[14],
            residency_number: values[15],
            residency_expiry_date: values[16],
            passport_number: values[17],
            passport_type_code: values[18],
            passport_country_code: values[19],
            passport_country_arabic: values[20],
            passport_country_english: values[21],
            passport_issue_date: values[22],
            passport_expiry_date: values[23],
            qualification_level_code: values[24],
            qualification_level_arabic: values[25],
            qualification_level_english: values[26],
            degree_description_arabic: values[27],
            degree_description_english: values[28],
            field_of_study_code: values[29],
            field_of_study_arabic: values[30],
            field_of_study_english: values[31],
            place_of_study_arabic: values[32],
            place_of_study_english: values[33],
            date_of_graduation: values[34],
            mother_full_name_arabic: values[35],
            mother_full_name_english: values[36],
        }
    }
}

impl Default for ModifiableData {
    fn default() -> (r: Self)
        ensures
            r@ == ModifiableView::empty(),
    {
        ModifiableData {
            occupation_code: None,
            occupation_arabic: None,
            occupation_english: None,
            family_id: None,
            occupation_type_arabic: None,
            occupation_type_english: None,
            occupation_field_code: None,
            company_name_arabic: None,
            company_name_english: None,
            marital_status_code: None,
            husband_id_number: None,
            sponsor_type_code: None,
            sponsor_unified_number: None,
            sponsor_name: None,
            residency_type_code: None,
            residency_number: None,
            residency_expiry_date: None,
            passport_number: None,
            passport_type_code: None,
            passport_country_code: None,
            passport_country_arabic: None,
            passport_country_english: None,
            passport_issue_date: None,
            passport_expiry_date: None,
            qualification_level_code: None,
            qualification_level_arabic: None,
            qualification_level_english: None,
            degree_description_arabic: None,
            degree_description_english: None,
            field_of_study_code: None,
            field_of_study_arabic: None,
            field_of_study_english: None,
            place_of_study_arabic: None,
            place_of_study_english: None,
            date_of_graduation: None,
            mother_full_name_arabic: None,
            mother_full_name_english: None,
        }
    }
}


/// Complete in-memory result of one public-data read.
#[non_exhaustive]
pub struct EmiratesIdData {
    /// Name of the native PC/SC reader.
    pub reader_name: String,
    /// Chip generation classified from the ATR.
    pub card_generation: CardGeneration,
    /// Required 15-character Emirates ID number.
    pub id_number: String,
    /// Required card number/serial stored by the ID application.
    pub card_number: String,
    /// JPEG photograph bytes, when requested and accessible.
    pub photo_jpeg: Option<Vec<u8>>,
    /// Holder-signature image payload, when requested and available.
    pub holder_signature_image: Option<Vec<u8>>,
    /// Core identity data.
    pub non_modifiable: NonModifiableData,
    /// Optional changeable and V2 extension data.
    pub modifiable: ModifiableData,
    /// Per-group access outcome for this read.
    pub read_status: ReadStatus,
}

/// The values held by an [`EmiratesIdData`] snapshot.
pub struct EmiratesIdView {
    pub reader_name: Seq<char>,
    pub card_generation: CardGeneration,
    pub id_number: Seq<char>,
    pub card_number: Seq<char>,
    pub photo_jpeg: Option<Seq<u8>>,
    pub holder_signature_image: Option<Seq<u8>>,
    pub non_modifiable: NonModifiableView,
    pub modifiable: ModifiableView,
    pub read_status: ReadStatus,
}

impl View for EmiratesIdData {
    type V = EmiratesIdView;

    open spec fn view(&self) -> EmiratesIdView {
        EmiratesIdView {
            reader_name: self.reader_name@,
            card_generation: self.card_generation,
            id_number: self.id_number@,
            card_number: self.card_number@,
            photo_jpeg: bytes_view(self.photo_jpeg),
            holder_signature_image: bytes_view(self.holder_signature_image),
            non_modifiable: self.non_modifiable@,
            modifiable: self.modifiable@,
            read_status: self.read_status,
        }
    }
}

/// Address and contact fields excluded from reads and from the data model.
/// Access to these files was refused (status 6982) in earlier use; the library
/// offers no authentication or secure messaging.
pub const PROTECTED_AND_SKIPPED_FIELDS: [&'static str; 5] = [
    "home address details",
    "work address details",
    "resident phone number",
    "mobile phone number",
    "email address",
];

/// Language selection for bilingual identity accessors.
#[derive(Clone, Copy, Debug, PartialEq, Eq, Structural)]
pub enum Language {
    /// English card field.
    English,
    /// Arabic card field.
    Arabic,
}

/// The stored full name in `language`, without fallback.
pub open spec fn name_in_spec(d: NonModifiableView, language: Language) -> Option<Seq<char>> {
    match language {
        Language::English => d.full_name_english,
        Language::Arabic => d.full_name_arabic,
    }
}

/// The stored English full name, or the Arabic one when English is absent.
pub open spec fn name_spec(d: NonModifiableView) -> Option<Seq<char>> {
    if name_in_spec(d, Language::English) is Some {
        name_in_spec(d, Language::English)
    } else {
        name_in_spec(d, Language::Arabic)
    }
}

/// The stored nationality description in `language`, without fallback.
pub open spec fn nationality_in_spec(d: NonModifiableView, language: Language) -> Option<Seq<char>> {
    match language {
        Language::English => d.nationality_english,
        Language::Arabic => d.nationality_arabic,
    }
}

/// The comma-separated components of a stored name, in card order, each without
/// surrounding whitespace and with empty positions kept. An absent name has none.
pub open spec fn name_components(name: Option<Seq<char>>) -> Seq<Seq<char>> {
    match name {
        None => Seq::empty(),
        Some(n) => split_on(n, ',').map_values(|p: Seq<char>| trim(p, Padding::Whitespace)),
    }
}

/// A stored name for display: its non-empty components joined by single spaces,
/// or `None` when no component has content.
pub open spec fn formatted_name_of(name: Option<Seq<char>>) -> Option<Seq<char>> {
    let joined = join_nonempty(name_components(name));
    if joined.len() == 0 {
        None
    } else {
        Some(joined)
    }
}

/// The display name in English, or in Arabic when English has no display value.
pub open spec fn formatted_name_spec(d: NonModifiableView) -> Option<Seq<char>> {
    if formatted_name_of(name_in_spec(d, Language::English)) is Some {
        formatted_name_of(name_in_spec(d, Language::English))
    } else {
        formatted_name_of(name_in_spec(d, Language::Arabic))
    }
}

/// An identifier of exactly fifteen ASCII digits grouped `3-4-7-1`, as printed
/// on the card; any other value unchanged.
pub open spec fn grouped_id_number(d: Seq<char>) -> Seq<char> {
    if d.len() == 15 && all_ascii_digits(d) {
        d.subrange(0, 3) + seq!['-'] + d.subrange(3, 7) + seq!['-'] + d.subrange(7, 14) + seq!['-']
            + d.subrange(14, 15)
    } else {
        d
    }
}

fn optional_str(o: &Option<String>) -> (r: Option<&str>)
    ensures
        r.deep_view() == o.deep_view(),
{
    match o {
        Some(s) => Some(s.as_str()),
        None => None,
    }
}

/// The bytes held by an optional payload.
pub open spec fn bytes_view(o: Option<Vec<u8>>) -> Option<Seq<u8>> {
    match o {
        Some(v) => Some(v@),
        None => None,
    }
}

/// The bytes of an optional borrowed payload.
pub open spec fn slice_view(o: Option<&[u8]>) -> Option<Seq<u8>> {
    match o {
        Some(v) => Some(v@),
        None => None,
    }
}

fn optional_bytes(o: &Option<Vec<u8>>) -> (r: Option<&[u8]>)
    ensures
        slice_view(r) == bytes_view(*o),
{
    match o {
        Some(v) => Some(v.as_slice()),
        None => None,
    }
}

/// Gender interpreted from the code stored by the card.
///
/// Only the `M` and `F` codes are interpreted. Display labels are left to the
/// application: they are translations rather than card data.
#[derive(Clone, Debug, PartialEq, Eq)]
#[non_exhaustive]
pub enum Gender {
    /// The card stores the `M` code.
    Male,
    /// The card stores the `F` code.
    Female,
    /// The card stores a code this library does not interpret, preserved as read.
    Unrecognized(String),
}

/// The value of a [`Gender`].
pub enum GenderView {
    Male,
    Female,
    Unrecognized(Seq<char>),
}

impl View for Gender {
    type V = GenderView;

    open spec fn view(&self) -> GenderView {
        match self {
            Gender::Male => GenderView::Male,
            Gender::Female => GenderView::Female,
            Gender::Unrecognized(c) => GenderView::Unrecognized(c@),
        }
    }
}

/// `M`/`m` is male and `F`/`f` female; any other code is kept unrecognized.
pub open spec fn gender_of(code: Seq<char>) -> GenderView {
    if code == seq!['M'] || code == seq!['m'] {
        GenderView::Male
    } else if code == seq!['F'] || code == seq!['f'] {
        GenderView::Female
    } else {
        GenderView::Unrecognized(code)
    }
}

/// The canonical code of a gender: uppercase for the interpreted ones.
pub open spec fn gender_code_of(g: GenderView) -> Seq<char> {
    match g {
        GenderView::Male => seq!['M'],
        GenderView::Female => seq!['F'],
        GenderView::Unrecognized(c) => c,
    }
}

impl Gender {
    /// Interprets a stored gender code. Matching is ASCII case-insensitive, so
    /// both `m` and `M` yield [`Gender::Male`].
    pub fn from_code(code: &str) -> (g: Self)
        ensures
            g@ == gender_of(code@),
    {
        let cs = chars_of(code);
        if cs.len() == 1 && (cs[0] == 'M' || cs[0] == 'm') {
            assert(code@ =~= seq![cs@[0]]);
            Gender::Male
        } else if cs.len() == 1 && (cs[0] == 'F' || cs[0] == 'f') {
            assert(code@ =~= seq![cs@[0]]);
            Gender::Female
        } else {
            Gender::Unrecognized(String::from_str(code))
        }
    }

    /// Returns the canonical uppercase code, matching the `Sex` field printed on
    /// the card. An unrecognized value is returned exactly as the card stored it.
    pub fn code(&self) -> (r: &str)
        ensures
            r@ == gender_code_of(self@),
    {
        match self {
            Gender::Male => {
                proof {
                    reveal_strlit("M");
                }
                "M"
            },
            Gender::Female => {
                proof {
                    reveal_strlit("F");
                }
                "F"
            },
            Gender::Unrecognized(code) => code.as_str(),
        }
    }
}

impl EmiratesIdData {
    /// Returns the reader name recorded for this snapshot.
    pub fn reader_name(&self) -> (r: &str)
        ensures
            r@ == self@.reader_name,
    {
        self.reader_name.as_str()
    }

    /// Returns the chip generation recorded for this snapshot.
    pub fn card_generation(&self) -> (r: CardGeneration)
        ensures
            r == self@.card_generation,
    {
        self.card_generation
    }

    /// Borrows the access outcome of each group.
    pub fn read_status(&self) -> (r: &ReadStatus)
        ensures
            *r == self@.read_status,
    {
        &self.read_status
    }

    /// Starts building a snapshot from caller-supplied data, useful for tests.
    /// No reader is contacted and the values are not authenticated.
    /// Call [`EmiratesIdDataBuilder::build`] to validate identifiers and dates.
    pub fn builder(id_number: &str, card_number: &str) -> (b: EmiratesIdDataBuilder)
        ensures
            b@ == builder_start(id_number@, card_number@),
            required_groups_read(b@),
    {
        EmiratesIdDataBuilder {
            data: EmiratesIdData {
                reader_name: String::new(),
                card_generation: CardGeneration::Unknown,
                id_number: String::from_str(id_number),
                card_number: String::from_str(card_number),
                photo_jpeg: None,
                holder_signature_image: None,
                non_modifiable: NonModifiableData::default(),
                modifiable: ModifiableData::default(),
                read_status: ReadStatus {
                    identity: DataGroupStatus::Read,
                    non_modifiable: DataGroupStatus::Read,
                    photo: DataGroupStatus::NotRequested,
                    modifiable: DataGroupStatus::NotRequested,
                    holder_signature_image: DataGroupStatus::NotRequested,
                },
            },
        }
    }

    /// Returns the English full name exactly as the card stores it, falling back
    /// to Arabic if English is absent. Name components stay comma-separated; use
    /// [`Self::formatted_name`] for display.
    pub fn name(&self) -> (r: Option<&str>)
        ensures
            r.deep_view() == name_spec(self@.non_modifiable),
    {
        match self.name_in(Language::English) {
            Some(n) => Some(n),
            None => self.name_in(Language::Arabic),
        }
    }

    /// Returns the full name in the requested language exactly as stored, without fallback.
    pub fn name_in(&self, language: Language) -> (r: Option<&str>)
        ensures
            r.deep_view() == name_in_spec(self@.non_modifiable, language),
    {
        match language {
            Language::English => optional_str(&self.non_modifiable.full_name_english),
            Language::Arabic => optional_str(&self.non_modifiable.full_name_arabic),
        }
    }

    /// Borrows JPEG bytes. `None` means absent, empty, inaccessible, or not requested;
    /// inspect [`Self::read_status`] for the group outcome.
    pub fn photo(&self) -> (r: Option<&[u8]>)
        ensures
            slice_view(r) == self@.photo_jpeg,
    {
        optional_bytes(&self.photo_jpeg)
    }

    /// Borrows the signature payload. Its image format is card-dependent.
    pub fn signature(&self) -> (r: Option<&[u8]>)
        ensures
            slice_view(r) == self@.holder_signature_image,
    {
        optional_bytes(&self.holder_signature_image)
    }

    /// Returns the 15-digit Emirates ID number, preserving leading zeroes.
    pub fn id_number(&self) -> (r: &str)
        ensures
            r@ == self@.id_number,
    {
        self.id_number.as_str()
    }

    /// Returns the card serial/number.
    pub fn card_number(&self) -> (r: &str)
        ensures
            r@ == self@.card_number,
    {
        self.card_number.as_str()
    }

    /// Borrows all core identity fields.
    pub fn identity(&self) -> (r: &NonModifiableData)
        ensures
            r@ == self@.non_modifiable,
    {
        &self.non_modifiable
    }

    /// Borrows occupation, residency, passport, education, and family fields.
    pub fn extended(&self) -> (r: &ModifiableData)
        ensures
            r@ == self@.modifiable,
    {
        &self.modifiable
    }

    /// Returns the date of birth as `YYYY-MM-DD`, when populated.
    pub fn date_of_birth(&self) -> (r: Option<&str>)
        ensures
            r.deep_view() == self@.non_modifiable.date_of_birth,
    {
        optional_str(&self.non_modifiable.date_of_birth)
    }

    /// Returns the issue date as `YYYY-MM-DD`, when populated.
    pub fn issue_date(&self) -> (r: Option<&str>)
        ensures
            r.deep_view() == self@.non_modifiable.issue_date,
    {
        optional_str(&self.non_modifiable.issue_date)
    }

    /// Returns the expiry date as `YYYY-MM-DD`, when populated.
    pub fn expiry_date(&self) -> (r: Option<&str>)
        ensures
            r.deep_view() == self@.non_modifiable.expiry_date,
    {
        optional_str(&self.non_modifiable.expiry_date)
    }

    /// Returns the gender code exactly as stored, when populated.
    pub fn gender_code(&self) -> (r: Option<&str>)
        ensures
            r.deep_view() == self@.non_modifiable.gender,
    {
        optional_str(&self.non_modifiable.gender)
    }

    /// Returns the nationality code, when populated.
    pub fn nationality_code(&self) -> (r: Option<&str>)
        ensures
            r.deep_view() == self@.non_modifiable.nationality_code,
    {
        optional_str(&self.non_modifiable.nationality_code)
    }

    /// Returns the nationality description in the requested language, without fallback.
    pub fn nationality_in(&self, language: Language) -> (r: Option<&str>)
        ensures
            r.deep_view() == nationality_in_spec(self@.non_modifiable, language),
    {
        match language {
            Language::English => optional_str(&self.non_modifiable.nationality_english),
            Language::Arabic => optional_str(&self.non_modifiable.nationality_arabic),
        }
    }

    /// Interprets the stored gender code. An unrecognized code yields
    /// [`Gender::Unrecognized`] rather than `None`, so an unknown value stays
    /// distinguishable from an absent one.
    pub fn gender(&self) -> (r: Option<Gender>)
        ensures
            match r {
                Some(g) => self@.non_modifiable.gender matches Some(c) && g@ == gender_of(c),
                None => self@.non_modifiable.gender is None,
            },
    {
        match self.gender_code() {
            Some(code) => Some(Gender::from_code(code)),
            None => None,
        }
    }

    /// The stored name components for `language`, in card order, each trimmed of
    /// surrounding whitespace. Empty positions are kept; an absent name has no
    /// components, and a value without separators has exactly one.
    pub fn name_components_in(&self, language: Language) -> (r: Vec<String>)
        ensures
            r.deep_view() == name_components(name_in_spec(self@.non_modifiable, language)),
    {
        let mut out: Vec<String> = Vec::new();
        match self.name_in(language) {
            None => {
                assert(out.deep_view() =~= Seq::<Seq<char>>::empty());
                out
            },
            Some(name) => {
                let cs = chars_of(name);
                let parts = split_trimmed(cs.as_slice(), ',');
                let ghost target = name_components(name_in_spec(self@.non_modifiable, language));
                proof {
                    assert(name_in_spec(self@.non_modifiable, language) == Some(name@));
                    assert forall|k: int| 0 <= k < parts@.len() implies #[trigger] parts@[k]@
                        == target[k] by {
                        assert(target[k] == trim(split_on(name@, ',')[k], Padding::Whitespace));
                    }
                }
                let mut i: usize = 0;
                while i < parts.len()
                    invariant
                        i <= parts@.len(),
                        out@.len() == i,
                        parts@.len() == target.len(),
                        forall|k: int| 0 <= k < parts@.len() ==> #[trigger] parts@[k]@ == target[k],
                        out.deep_view() == target.take(i as int),
                    decreases parts@.len() - i,
                {
                    let ghost before = out@;
                    let piece = string_from_chars(parts[i].as_slice());
                    out.push(piece);
                    proof {
                        assert forall|k: int| 0 <= k < i + 1 implies #[trigger] out.deep_view()[k]
                            == target.take(i + 1)[k] by {
                            if k < i {
                                assert(out@[k] == before[k]);
                                assert(out.deep_view()[k] == out@[k]@);
                            }
                        }
                    }
                    i = i + 1;
                    assert(out.deep_view() =~= target.take(i as int));
                }
                assert(target.take(i as int) =~= target);
                out
            },
        }
    }

    /// Returns the name in `language` formatted for display, without fallback:
    /// comma separators become single spaces and empty positions are dropped.
    /// An absent field, or one holding only separators and whitespace, gives `None`.
    pub fn formatted_name_in(&self, language: Language) -> (r: Option<String>)
        ensures
            r.deep_view() == formatted_name_of(name_in_spec(self@.non_modifiable, language)),
    {
        match self.name_in(language) {
            None => {
                proof {
                    assert(name_components(None) =~= Seq::<Seq<char>>::empty());
                }
                None
            },
            Some(name) => {
                let cs = chars_of(name);
                let parts = split_trimmed(cs.as_slice(), ',');
                proof {
                    let target = name_components(name_in_spec(self@.non_modifiable, language));
                    assert(name_in_spec(self@.non_modifiable, language) == Some(name@));
                    assert forall|k: int| 0 <= k < parts@.len() implies #[trigger] parts.deep_view()[k]
                        == target[k] by {
                        assert(target[k] == trim(split_on(name@, ',')[k], Padding::Whitespace));
                    }
                    assert(parts.deep_view() =~= target);
                }
                let joined = join_nonempty_chars(&parts);
                if joined.len() == 0 {
                    None
                } else {
                    Some(string_from_chars(joined.as_slice()))
                }
            },
        }
    }

    /// Returns the formatted English name, falling back to Arabic when English
    /// has no display value. An English field holding only separators therefore
    /// falls back, whereas [`Self::name`] would return the stored separators.
    pub fn formatted_name(&self) -> (r: Option<String>)
        ensures
            r.deep_view() == formatted_name_spec(self@.non_modifiable),
    {
        match self.formatted_name_in(Language::English) {
            Some(n) => Some(n),
            None => self.formatted_name_in(Language::Arabic),
        }
    }

    /// Returns the Emirates ID number grouped as `784-YYYY-NNNNNNN-C`, the form
    /// printed on the card. A value that is not exactly fifteen ASCII digits is
    /// returned unchanged.
    pub fn formatted_id_number(&self) -> (r: String)
        ensures
            r@ == grouped_id_number(self@.id_number),
    {
        let d = chars_of(self.id_number.as_str());
        if !is_ascii_digits_of_len(d.as_slice(), 15) {
            return string_from_chars(d.as_slice());
        }
        let mut out: Vec<char> = Vec::new();
        out.push(d[0]);
        out.push(d[1]);
        out.push(d[2]);
        out.push('-');
        out.push(d[3]);
        out.push(d[4]);
        out.push(d[5]);
        out.push(d[6]);
        out.push('-');
        out.push(d[7]);
        out.push(d[8]);
        out.push(d[9]);
        out.push(d[10]);
        out.push(d[11]);
        out.push(d[12]);
        out.push(d[13]);
        out.push('-');
        out.push(d[14]);
        assert(out@ =~= grouped_id_number(d@));
        string_from_chars(out.as_slice())
    }
}

/// The snapshot a new builder starts from: the identifiers as supplied, every
/// other value absent, required groups `Read` and optional ones `NotRequested`.
pub open spec fn builder_start(id_number: Seq<char>, card_number: Seq<char>) -> EmiratesIdView {
    EmiratesIdView {
        reader_name: Seq::empty(),
        card_generation: CardGeneration::Unknown,
        id_number,
        card_number,
        photo_jpeg: None,
        holder_signature_image: None,
        non_modifiable: NonModifiableView::empty(),
        modifiable: ModifiableView::empty(),
        read_status: ReadStatus {
            identity: DataGroupStatus::Read,
            photo: DataGroupStatus::NotRequested,
            non_modifiable: DataGroupStatus::Read,
            modifiable: DataGroupStatus::NotRequested,
            holder_signature_image: DataGroupStatus::NotRequested,
        },
    }
}

/// The numeric value of an ASCII digit.
pub open spec fn digit_value(c: char) -> int {
    c as int - '0' as int
}

/// `s` is an ISO `YYYY-MM-DD` calendar date with a year other than 0.
pub open spec fn is_iso_date(s: Seq<char>) -> bool {
    &&& s.len() == 10
    &&& s[4] == '-' && s[7] == '-'
    &&& forall|j: int| 0 <= j < 10 && j != 4 && j != 7 ==> is_ascii_digit(#[trigger] s[j])
    &&& is_calendar_date(
        digit_value(s[0]) * 1000 + digit_value(s[1]) * 100 + digit_value(s[2]) * 10 + digit_value(s[3]),
        digit_value(s[5]) * 10 + digit_value(s[6]),
        digit_value(s[8]) * 10 + digit_value(s[9]),
    )
}

/// `value` is absent or an ISO calendar date.
pub open spec fn optional_iso_date(value: Option<Seq<char>>) -> bool {
    value matches Some(s) ==> is_iso_date(s)
}

/// `bytes` begin with the JPEG start-of-image marker and a segment marker.
pub open spec fn has_jpeg_prefix(bytes: Seq<u8>) -> bool {
    bytes.len() >= 3 && bytes[0] == 0xFF && bytes[1] == 0xD8 && bytes[2] == 0xFF
}

/// The snapshot with the payload of every optional group that is not `Read` removed.
pub open spec fn without_unread_groups(d: EmiratesIdView) -> EmiratesIdView {
    EmiratesIdView {
        photo_jpeg: if d.read_status.photo != DataGroupStatus::Read {
            None
        } else {
            d.photo_jpeg
        },
        modifiable: if d.read_status.modifiable != DataGroupStatus::Read {
            ModifiableView::empty()
        } else {
            d.modifiable
        },
        holder_signature_image: if d.read_status.holder_signature_image != DataGroupStatus::Read {
            None
        } else {
            d.holder_signature_image
        },
        ..d
    }
}

/// Every date of the snapshot is absent or an ISO calendar date.
pub open spec fn dates_valid(d: EmiratesIdView) -> bool {
    &&& optional_iso_date(d.non_modifiable.date_of_birth)
    &&& optional_iso_date(d.non_modifiable.issue_date)
    &&& optional_iso_date(d.non_modifiable.expiry_date)
    &&& optional_iso_date(d.modifiable.residency_expiry_date)
    &&& optional_iso_date(d.modifiable.passport_issue_date)
    &&& optional_iso_date(d.modifiable.passport_expiry_date)
    &&& optional_iso_date(d.modifiable.date_of_graduation)
}

/// The outcome of validating a caller-supplied snapshot.
pub open spec fn build_spec(d: EmiratesIdView) -> Result<EmiratesIdView, ErrorView> {
    if !(d.id_number.len() == 15 && all_ascii_digits(d.id_number)) || !(d.card_number.len() == 9
        && all_ascii_digits(d.card_number)) {
        Err(plain_error(ErrorKind::InvalidArgument, "invalid identifier format"@))
    } else {
        let s = without_unread_groups(d);
        if !dates_valid(s) {
            Err(plain_error(ErrorKind::InvalidArgument, "invalid ISO calendar date"@))
        } else if s.photo_jpeg matches Some(p) && !has_jpeg_prefix(p) {
            Err(plain_error(ErrorKind::InvalidArgument, "photograph payload is not JPEG"@))
        } else {
            Ok(s)
        }
    }
}

/// `s` is an ISO `YYYY-MM-DD` calendar date.
pub fn valid_iso_date(s: &str) -> (b: bool)
    ensures
        b == is_iso_date(s@),
{
    let c = chars_of(s);
    if c.len() != 10 || c[4] != '-' || c[7] != '-' {
        return false;
    }
    let mut i: usize = 0;
    while i < 10
        invariant
            c@ == s@,
            c@.len() == 10,
            i <= 10,
            forall|j: int| 0 <= j < i && j != 4 && j != 7 ==> is_ascii_digit(#[trigger] c@[j]),
        decreases 10 - i,
    {
        if i != 4 && i != 7 && !('0' <= c[i] && c[i] <= '9') {
            assert(!is_ascii_digit(c@[i as int]));
            return false;
        }
        i = i + 1;
    }
    assert(is_ascii_digit(c@[0]) && is_ascii_digit(c@[1]) && is_ascii_digit(c@[2]) && is_ascii_digit(c@[3]));
    assert(is_ascii_digit(c@[5]) && is_ascii_digit(c@[6]) && is_ascii_digit(c@[8]) && is_ascii_digit(c@[9]));
    let year: u16 = (c[0] as u32 - 48) as u16 * 1000 + (c[1] as u32 - 48) as u16 * 100 + (c[2] as u32 - 48) as u16 * 10
        + (c[3] as u32 - 48) as u16;
    let month: u8 = (c[5] as u32 - 48) as u8 * 10 + (c[6] as u32 - 48) as u8;
    let day: u8 = (c[8] as u32 - 48) as u8 * 10 + (c[9] as u32 - 48) as u8;
    year != 0 && day != 0 && day <= days_in_month_of(year, month)
}

fn optional_date_ok(value: &Option<String>) -> (b: bool)
    ensures
        b == optional_iso_date(value.deep_view()),
{
    match value {
        Some(s) => valid_iso_date(s.as_str()),
        None => true,
    }
}

fn jpeg_prefix(bytes: &Vec<u8>) -> (b: bool)
    ensures
        b == has_jpeg_prefix(bytes@),
{
    bytes.len() >= 3 && bytes[0] == 0xFF && bytes[1] == 0xD8 && bytes[2] == 0xFF
}

/// One setter call on a builder, with its argument.
pub enum BuilderSetter {
    ReaderName(Seq<char>),
    Generation(CardGeneration),
    Identity(NonModifiableView),
    /// Supplies extended fields and marks their group `Read`.
    Extended(ModifiableView),
    /// Supplies the photograph and marks its group `Read`.
    Photo(Seq<u8>),
    /// Supplies the signature image and marks its group `Read`.
    Signature(Seq<u8>),
    /// Sets the statuses of the photograph, extended and signature groups.
    OptionalStatuses(DataGroupStatus, DataGroupStatus, DataGroupStatus),
}

/// The snapshot a builder holds after the setter `s`.
pub open spec fn apply_setter(v: EmiratesIdView, s: BuilderSetter) -> EmiratesIdView {
    match s {
        BuilderSetter::ReaderName(r) => EmiratesIdView { reader_name: r, ..v },
        BuilderSetter::Generation(g) => EmiratesIdView { card_generation: g, ..v },
        BuilderSetter::Identity(n) => EmiratesIdView { non_modifiable: n, ..v },
        BuilderSetter::Extended(m) => EmiratesIdView {
            modifiable: m,
            read_status: ReadStatus { modifiable: DataGroupStatus::Read, ..v.read_status },
            ..v
        },
        BuilderSetter::Photo(p) => EmiratesIdView {
            photo_jpeg: Some(p),
            read_status: ReadStatus { photo: DataGroupStatus::Read, ..v.read_status },
            ..v
        },
        BuilderSetter::Signature(sig) => EmiratesIdView {
            holder_signature_image: Some(sig),
            read_status: ReadStatus {
                holder_signature_image: DataGroupStatus::Read,
                ..v.read_status
            },
            ..v
        },
        BuilderSetter::OptionalStatuses(p, e, sig) => EmiratesIdView {
            read_status: ReadStatus {
                photo: p,
                modifiable: e,
                holder_signature_image: sig,
                ..v.read_status
            },
            ..v
        },
    }
}

/// Builds caller-supplied snapshots without accessing hardware.
/// Optional groups begin as `NotRequested`; setters mark populated groups as `Read`.
/// These statuses describe supplied data, not evidence of a hardware read.
#[must_use]
pub struct EmiratesIdDataBuilder {
    data: EmiratesIdData,
}

impl EmiratesIdDataBuilder {
    /// The identifiers and core identity groups of a builder are always `Read`.
    #[verifier::type_invariant]
    spec fn required_read(&self) -> bool {
        required_groups_read(self.data@)
    }
}

/// Both required groups, identifiers and core identity, are `Read`.
pub open spec fn required_groups_read(d: EmiratesIdView) -> bool {
    d.read_status.identity == DataGroupStatus::Read && d.read_status.non_modifiable
        == DataGroupStatus::Read
}

impl View for EmiratesIdDataBuilder {
    type V = EmiratesIdView;

    closed spec fn view(&self) -> EmiratesIdView {
        self.data@
    }
}

impl EmiratesIdDataBuilder {
    /// Records a reader name without connecting to it.
    pub fn reader_name(self, value: &str) -> (r: Self)
        ensures
            r@ == apply_setter(self@, BuilderSetter::ReaderName(value@)),
            required_groups_read(r@),
    {
        proof {
            use_type_invariant(&self);
        }
        let mut b = self;
        b.data.reader_name = String::from_str(value);
        b
    }

    /// Records a chip generation without detecting hardware.
    pub fn card_generation(self, value: CardGeneration) -> (r: Self)
        ensures
            r@ == apply_setter(self@, BuilderSetter::Generation(value)),
            required_groups_read(r@),
    {
        proof {
            use_type_invariant(&self);
        }
        let mut b = self;
        b.data.card_generation = value;
        b
    }

    /// Supplies core identity fields.
    pub fn identity(self, value: NonModifiableData) -> (r: Self)
        ensures
            r@ == apply_setter(self@, BuilderSetter::Identity(value@)),
            required_groups_read(r@),
    {
        proof {
            use_type_invariant(&self);
        }
        let mut b = self;
        b.data.non_modifiable = value;
        b
    }

    /// Supplies extended fields and marks their group as read.
    pub fn extended(self, value: ModifiableData) -> (r: Self)
        ensures
            r@ == apply_setter(self@, BuilderSetter::Extended(value@)),
            required_groups_read(r@),
    {
        proof {
            use_type_invariant(&self);
        }
        let mut b = self;
        b.data.modifiable = value;
        b.data.read_status.modifiable = DataGroupStatus::Read;
        b
    }

    /// Supplies JPEG bytes and marks the photo group as read.
    pub fn photo(self, value: Vec<u8>) -> (r: Self)
        ensures
            r@ == apply_setter(self@, BuilderSetter::Photo(value@)),
            required_groups_read(r@),
    {
        proof {
            use_type_invariant(&self);
        }
        let mut b = self;
        b.data.photo_jpeg = Some(value);
        b.data.read_status.photo = DataGroupStatus::Read;
        b
    }

    /// Supplies opaque signature bytes and marks the signature group as read.
    pub fn signature(self, value: Vec<u8>) -> (r: Self)
        ensures
            r@ == apply_setter(self@, BuilderSetter::Signature(value@)),
            required_groups_read(r@),
    {
        proof {
            use_type_invariant(&self);
        }
        let mut b = self;
        b.data.holder_signature_image = Some(value);
        b.data.read_status.holder_signature_image = DataGroupStatus::Read;
        b
    }

    /// Records the result of a supported optional group. Required identity groups stay `Read`.
    /// Payloads for groups not marked `Read` are removed during `build`.
    pub fn optional_statuses(
        self,
        photo: DataGroupStatus,
        extended: DataGroupStatus,
        signature: DataGroupStatus,
    ) -> (r: Self)
        ensures
            r@ == apply_setter(
                self@,
                BuilderSetter::OptionalStatuses(photo, extended, signature),
            ),
            required_groups_read(r@),
    {
        proof {
            use_type_invariant(&self);
        }
        let mut b = self;
        b.data.read_status.photo = photo;
        b.data.read_status.modifiable = extended;
        b.data.read_status.holder_signature_image = signature;
        b
    }

    /// Validates caller-supplied data and returns an immutable snapshot.
    ///
    /// # Errors
    /// Returns `InvalidArgument` for identifiers of the wrong length or containing
    /// non-ASCII digits, invalid ISO calendar dates, or non-JPEG photo bytes.
    /// Other text and opaque signature bytes are preserved without normalization.
    pub fn build(self) -> (r: Result<EmiratesIdData, Error>)
        ensures
            match r {
                Ok(d) => build_spec(self@) == Ok::<EmiratesIdView, ErrorView>(d@),
                Err(e) => build_spec(self@) == Err::<EmiratesIdView, ErrorView>(e@),
            },
            r matches Ok(d) ==> required_groups_read(d@),
    {
        proof {
            use_type_invariant(&self);
        }
        let mut data = self.data;
        let id = chars_of(data.id_number.as_str());
        let card = chars_of(data.card_number.as_str());
        if !is_ascii_digits_of_len(id.as_slice(), 15) || !is_ascii_digits_of_len(
            card.as_slice(),
            9,
        ) {
            return Err(Error::from_str(ErrorKind::InvalidArgument, "invalid identifier format"));
        }
        if data.read_status.photo != DataGroupStatus::Read {
            data.photo_jpeg = None;
        }
        if data.read_status.modifiable != DataGroupStatus::Read {
            data.modifiable = ModifiableData::default();
        }
        if data.read_status.holder_signature_image != DataGroupStatus::Read {
            data.holder_signature_image = None;
        }
        assert(data@ == without_unread_groups(self@));
        if !optional_date_ok(&data.non_modifiable.date_of_birth) || !optional_date_ok(
            &data.non_modifiable.issue_date,
        ) || !optional_date_ok(&data.non_modifiable.expiry_date) || !optional_date_ok(
            &data.modifiable.residency_expiry_date,
        ) || !optional_date_ok(&data.modifiable.passport_issue_date) || !optional_date_ok(
            &data.modifiable.passport_expiry_date,
        ) || !optional_date_ok(&data.modifiable.date_of_graduation) {
            return Err(Error::from_str(ErrorKind::InvalidArgument, "invalid ISO calendar date"));
        }
        let bad_photo = match &data.photo_jpeg {
            Some(bytes) => !jpeg_prefix(bytes),
            None => false,
        };
        if bad_photo {
            return Err(
                Error::from_str(ErrorKind::InvalidArgument, "photograph payload is not JPEG"),
            );
        }
        Ok(data)
    }
}

/// The variant name of a generation, as derived `Debug` prints it.
pub open spec fn generation_name(g: CardGeneration) -> Seq<char> {
    match g {
        CardGeneration::V1 => "V1"@,
        CardGeneration::V2 => "V2"@,
        CardGeneration::Unknown => "Unknown"@,
    }
}

/// The variant name of a group status, as derived `Debug` prints it.
pub open spec fn status_name(s: DataGroupStatus) -> Seq<char> {
    match s {
        DataGroupStatus::Read => "Read"@,
        DataGroupStatus::NotRequested => "NotRequested"@,
        DataGroupStatus::NotAvailable => "NotAvailable"@,
        DataGroupStatus::Protected => "Protected"@,
    }
}

/// A read status as derived `Debug` prints it.
pub open spec fn read_status_text(r: ReadStatus) -> Seq<char> {
    "ReadStatus { identity: "@ + status_name(r.identity) + ", photo: "@ + status_name(r.photo)
        + ", non_modifiable: "@ + status_name(r.non_modifiable) + ", modifiable: "@ + status_name(
        r.modifiable,
    ) + ", holder_signature_image: "@ + status_name(r.holder_signature_image) + " }"@
}

/// The length of an optional payload, as `Debug` prints an `Option<usize>`.
pub open spec fn payload_length_text(o: Option<Seq<u8>>) -> Seq<char> {
    match o {
        None => "None"@,
        Some(b) => "Some("@ + decimal(b.len()) + ")"@,
    }
}

/// The redacted diagnostic text of a snapshot: generation, group statuses and
/// payload sizes only.
pub open spec fn snapshot_text(
    generation: CardGeneration,
    status: ReadStatus,
    photo: Option<Seq<u8>>,
    signature: Option<Seq<u8>>,
) -> Seq<char> {
    "EmiratesIdData { card_generation: "@ + generation_name(generation) + ", read_status: "@
        + read_status_text(status) + ", personal_data: \"[REDACTED]\", photo_bytes: "@
        + payload_length_text(photo) + ", signature_bytes: "@ + payload_length_text(signature)
        + " }"@
}

pub(crate) fn generation_name_str(g: CardGeneration) -> (r: &'static str)
    ensures
        r@ == generation_name(g),
{
    match g {
        CardGeneration::V1 => "V1",
        CardGeneration::V2 => "V2",
        CardGeneration::Unknown => "Unknown",
    }
}

fn status_name_str(s: DataGroupStatus) -> (r: &'static str)
    ensures
        r@ == status_name(s),
{
    match s {
        DataGroupStatus::Read => "Read",
        DataGroupStatus::NotRequested => "NotRequested",
        DataGroupStatus::NotAvailable => "NotAvailable",
        DataGroupStatus::Protected => "Protected",
    }
}

fn push_payload_length(out: &mut Vec<char>, o: &Option<Vec<u8>>)
    ensures
        final(out)@ == old(out)@ + payload_length_text(bytes_view(*o)),
{
    match o {
        None => push_str(out, "None"),
        Some(b) => {
            push_str(out, "Some(");
            push_decimal(out, b.len() as u64);
            push_str(out, ")");
        },
    }
}

pub(crate) fn push_read_status_text(out: &mut Vec<char>, r: ReadStatus)
    ensures
        final(out)@ == old(out)@ + read_status_text(r),
{
    let ghost start = out@;
    push_str(out, "ReadStatus { identity: ");
    push_str(out, status_name_str(r.identity));
    let ghost a = out@;
    push_str(out, ", photo: ");
    push_str(out, status_name_str(r.photo));
    let ghost b = out@;
    push_str(out, ", non_modifiable: ");
    push_str(out, status_name_str(r.non_modifiable));
    let ghost c = out@;
    push_str(out, ", modifiable: ");
    push_str(out, status_name_str(r.modifiable));
    let ghost d = out@;
    push_str(out, ", holder_signature_image: ");
    push_str(out, status_name_str(r.holder_signature_image));
    push_str(out, " }");
    assert(a =~= start + ("ReadStatus { identity: "@ + status_name(r.identity)));
    assert(b =~= start + ("ReadStatus { identity: "@ + status_name(r.identity) + ", photo: "@
        + status_name(r.photo)));
    assert(c =~= start + ("ReadStatus { identity: "@ + status_name(r.identity) + ", photo: "@
        + status_name(r.photo) + ", non_modifiable: "@ + status_name(r.non_modifiable)));
    assert(d =~= start + ("ReadStatus { identity: "@ + status_name(r.identity) + ", photo: "@
        + status_name(r.photo) + ", non_modifiable: "@ + status_name(r.non_modifiable)
        + ", modifiable: "@ + status_name(r.modifiable)));
    assert(out@ =~= start + read_status_text(r));
}

fn push_snapshot_text(out: &mut Vec<char>, d: &EmiratesIdData)
    ensures
        final(out)@ == old(out)@ + snapshot_text(
            d.card_generation,
            d.read_status,
            bytes_view(d.photo_jpeg),
            bytes_view(d.holder_signature_image),
        ),
{
    let ghost start = out@;
    push_str(out, "EmiratesIdData { card_generation: ");
    push_str(out, generation_name_str(d.card_generation));
    push_str(out, ", read_status: ");
    let ghost a = out@;
    push_read_status_text(out, d.read_status);
    let ghost b = out@;
    push_str(out, ", personal_data: \"[REDACTED]\", photo_bytes: ");
    push_payload_length(out, &d.photo_jpeg);
    let ghost c = out@;
    push_str(out, ", signature_bytes: ");
    push_payload_length(out, &d.holder_signature_image);
    push_str(out, " }");
    assert(a =~= start + ("EmiratesIdData { card_generation: "@ + generation_name(
        d.card_generation,
    ) + ", read_status: "@));
    assert(b =~= start + ("EmiratesIdData { card_generation: "@ + generation_name(
        d.card_generation,
    ) + ", read_status: "@ + read_status_text(d.read_status)));
    assert(c =~= start + ("EmiratesIdData { card_generation: "@ + generation_name(
        d.card_generation,
    ) + ", read_status: "@ + read_status_text(d.read_status)
        + ", personal_data: \"[REDACTED]\", photo_bytes: "@ + payload_length_text(
        bytes_view(d.photo_jpeg),
    )));
    assert(out@ =~= start + snapshot_text(
        d.card_generation,
        d.read_status,
        bytes_view(d.photo_jpeg),
        bytes_view(d.holder_signature_image),
    ));
}

impl NonModifiableData {
    /// Diagnostic text for logs, with every field value redacted.
    pub fn redacted_debug(&self) -> (r: String)
        ensures
            r@ == "NonModifiableData { fields: \"[REDACTED]\" }"@,
    {
        String::from_str("NonModifiableData { fields: \"[REDACTED]\" }")
    }
}

impl ModifiableData {
    /// Diagnostic text for logs, with every field value redacted.
    pub fn redacted_debug(&self) -> (r: String)
        ensures
            r@ == "ModifiableData { fields: \"[REDACTED]\" }"@,
    {
        String::from_str("ModifiableData { fields: \"[REDACTED]\" }")
    }
}

impl EmiratesIdData {
    /// Diagnostic text for logs: generation, group statuses and payload sizes;
    /// personal values are redacted.
    pub fn redacted_debug(&self) -> (r: String)
        ensures
            r@ == snapshot_text(
                self@.card_generation,
                self@.read_status,
                self@.photo_jpeg,
                self@.holder_signature_image,
            ),
    {
        let mut out: Vec<char> = Vec::new();
        push_snapshot_text(&mut out, self);
        string_from_chars(out.as_slice())
    }
}

impl EmiratesIdDataBuilder {
    /// Diagnostic text for logs about the snapshot being built, with personal
    /// values redacted.
    pub fn redacted_debug(&self) -> (r: String)
        ensures
            r@ == "EmiratesIdDataBuilder { data: "@ + snapshot_text(
                self@.card_generation,
                self@.read_status,
                self@.photo_jpeg,
                self@.holder_signature_image,
            ) + " }"@,
    {
        let mut out = chars_of("EmiratesIdDataBuilder { data: ");
        push_snapshot_text(&mut out, &self.data);
        push_str(&mut out, " }");
        string_from_chars(out.as_slice())
    }
}

/// A stored name without commas is exactly one component, trimmed; an absent
/// name has no component.
pub proof fn lemma_name_components_single(name: Seq<char>)
    ensures
        !name.contains(',') ==> name_components(Some(name)) == seq![
            trim(name, Padding::Whitespace),
        ],
        name_components(None) == Seq::<Seq<char>>::empty(),
{
    lemma_split_on_pieces(name, ',');
    if !name.contains(',') {
        assert(name_components(Some(name)) =~= seq![trim(name, Padding::Whitespace)]);
    }
}

/// A display name is non-empty, holds no comma, neither starts nor ends with
/// whitespace, and is its own display form: formatting it again changes nothing.
pub proof fn lemma_formatted_name_is_display_form(name: Option<Seq<char>>)
    ensures
        formatted_name_of(name) matches Some(f) ==> (f.len() > 0 && is_clean_piece(f, ',')
            && formatted_name_of(Some(f)) == Some(f)),
{
    if let Some(n) = name {
        lemma_split_on_pieces(n, ',');
        let pieces = split_on(n, ',');
        let parts = name_components(name);
        assert forall|k: int| 0 <= k < parts.len() implies is_clean_piece(#[trigger] parts[k], ',') by {
            assert(!pieces[k].contains(','));
            lemma_trim_clean(pieces[k], ',');
        }
        lemma_join_clean(parts, ',');
    }
    if let Some(f) = formatted_name_of(name) {
        lemma_split_on_pieces(f, ',');
        assert(trim_front(f, Padding::Whitespace) == f);
        assert(trim_back(f, Padding::Whitespace) == f);
        assert(name_components(Some(f)) =~= seq![f]);
        assert(seq![f].drop_last() =~= Seq::<Seq<char>>::empty());
        assert(join_nonempty(Seq::<Seq<char>>::empty()) == Seq::<char>::empty());
        assert(join_nonempty(seq![f]) == f);
    }
}

/// The display name is absent exactly when neither language has one, and the
/// stored name exactly when neither language stores one.
pub proof fn lemma_name_fallback(d: NonModifiableView)
    ensures
        formatted_name_spec(d) is None <==> (formatted_name_of(d.full_name_english) is None
            && formatted_name_of(d.full_name_arabic) is None),
        name_spec(d) is None <==> (d.full_name_english is None && d.full_name_arabic is None),
{
}

/// Interpreting a stored code and printing it back gives its canonical form,
/// which interprets to the same gender; an unrecognized code is printed back
/// exactly as stored.
pub proof fn lemma_gender_canonical(code: Seq<char>)
    ensures
        gender_of(gender_code_of(gender_of(code))) == gender_of(code),
        gender_of(code) is Unrecognized ==> gender_code_of(gender_of(code)) == code,
{
    assert(gender_of(seq!['M']) == GenderView::Male);
    assert(gender_of(seq!['F']) == GenderView::Female) by {
        assert(seq!['F'] != seq!['M']) by {
            assert(seq!['F'][0] != seq!['M'][0]);
        }
        assert(seq!['F'] != seq!['m']) by {
            assert(seq!['F'][0] != seq!['m'][0]);
        }
    }
}

/// Grouping keeps the digits of a valid number in order around dashes at
/// positions 3, 8 and 16, and a grouped number is not grouped again.
pub proof fn lemma_grouped_id_number(d: Seq<char>)
    ensures
        grouped_id_number(grouped_id_number(d)) == grouped_id_number(d),
        (d.len() == 15 && all_ascii_digits(d)) ==> ({
            let g = grouped_id_number(d);
            &&& g.len() == 18
            &&& g[3] == '-' && g[8] == '-' && g[16] == '-'
            &&& forall|i: int| 0 <= i < 3 ==> #[trigger] g[i] == d[i]
            &&& forall|i: int| 3 <= i < 7 ==> #[trigger] g[i + 1] == d[i]
            &&& forall|i: int| 7 <= i < 14 ==> #[trigger] g[i + 2] == d[i]
            &&& g[17] == d[14]
        }),
{
    let g = grouped_id_number(d);
    if d.len() == 15 && all_ascii_digits(d) {
        assert(g[3] == '-');
        assert(!is_ascii_digit(g[3]));
    }
}

/// A built snapshot holds no payload for a group that is not `Read`, and the
/// builder accepts it again unchanged.
pub proof fn lemma_build_idempotent(d: EmiratesIdView)
    ensures
        build_spec(d) matches Ok(s) ==> (without_unread_groups(s) == s && build_spec(s) == Ok::<
            EmiratesIdView,
            ErrorView,
        >(s)),
{
}

/// The length of an optional payload.
pub open spec fn payload_length(o: Option<Seq<u8>>) -> Option<nat> {
    match o {
        Some(b) => Some(b.len()),
        None => None,
    }
}

/// The diagnostic text of a snapshot reveals no personal value: snapshots
/// with the same generation, group statuses and payload sizes print the same.
pub proof fn lemma_snapshot_text_redacted(
    generation: CardGeneration,
    status: ReadStatus,
    photo_a: Option<Seq<u8>>,
    photo_b: Option<Seq<u8>>,
    signature_a: Option<Seq<u8>>,
    signature_b: Option<Seq<u8>>,
)
    requires
        payload_length(photo_a) == payload_length(photo_b),
        payload_length(signature_a) == payload_length(signature_b),
    ensures
        snapshot_text(generation, status, photo_a, signature_a) == snapshot_text(
            generation,
            status,
            photo_b,
            signature_b,
        ),
{
    assert(payload_length_text(photo_a) == payload_length_text(photo_b));
    assert(payload_length_text(signature_a) == payload_length_text(signature_b));
}

/// What a successful build keeps of the snapshot it was given, whatever
/// setters made it: reader, generation, identifiers, core identity and every
/// group status unchanged, both required groups `Read`, and each optional
/// payload kept exactly when its group is `Read` (otherwise absent, or all
/// extended fields absent).
pub proof fn lemma_build_keeps_supplied_values(v: EmiratesIdView)
    requires
        required_groups_read(v),
    ensures
        build_spec(v) matches Ok(d) ==> {
            &&& d.reader_name == v.reader_name
            &&& d.card_generation == v.card_generation
            &&& d.id_number == v.id_number
            &&& d.card_number == v.card_number
            &&& d.non_modifiable == v.non_modifiable
            &&& d.read_status == v.read_status
            &&& required_groups_read(d)
            &&& d.photo_jpeg == if v.read_status.photo == DataGroupStatus::Read {
                v.photo_jpeg
            } else {
                None
            }
            &&& d.holder_signature_image == if v.read_status.holder_signature_image
                == DataGroupStatus::Read {
                v.holder_signature_image
            } else {
                None
            }
            &&& d.modifiable == if v.read_status.modifiable == DataGroupStatus::Read {
                v.modifiable
            } else {
                ModifiableView::empty()
            }
        },
{
}

/// The snapshot a builder holds after the setters `setters`, in order.
pub open spec fn apply_setters(v: EmiratesIdView, setters: Seq<BuilderSetter>) -> EmiratesIdView
    decreases setters.len(),
{
    if setters.len() == 0 {
        v
    } else {
        apply_setter(apply_setters(v, setters.drop_last()), setters.last())
    }
}

/// The reader name of the last `ReaderName` setter, or empty.
pub open spec fn final_reader(ss: Seq<BuilderSetter>) -> Seq<char>
    decreases ss.len(),
{
    if ss.len() == 0 {
        Seq::empty()
    } else if let BuilderSetter::ReaderName(r) = ss.last() {
        r
    } else {
        final_reader(ss.drop_last())
    }
}

/// The generation of the last `Generation` setter, or `Unknown`.
pub open spec fn final_generation(ss: Seq<BuilderSetter>) -> CardGeneration
    decreases ss.len(),
{
    if ss.len() == 0 {
        CardGeneration::Unknown
    } else if let BuilderSetter::Generation(g) = ss.last() {
        g
    } else {
        final_generation(ss.drop_last())
    }
}

/// The core identity of the last `Identity` setter, or all fields absent.
pub open spec fn final_identity(ss: Seq<BuilderSetter>) -> NonModifiableView
    decreases ss.len(),
{
    if ss.len() == 0 {
        NonModifiableView::empty()
    } else if let BuilderSetter::Identity(n) = ss.last() {
        n
    } else {
        final_identity(ss.drop_last())
    }
}

/// The extended data of the last `Extended` setter, or all fields absent.
pub open spec fn final_extended(ss: Seq<BuilderSetter>) -> ModifiableView
    decreases ss.len(),
{
    if ss.len() == 0 {
        ModifiableView::empty()
    } else if let BuilderSetter::Extended(m) = ss.last() {
        m
    } else {
        final_extended(ss.drop_last())
    }
}

/// The photograph of the last `Photo` setter, if any.
pub open spec fn final_photo(ss: Seq<BuilderSetter>) -> Option<Seq<u8>>
    decreases ss.len(),
{
    if ss.len() == 0 {
        None
    } else if let BuilderSetter::Photo(p) = ss.last() {
        Some(p)
    } else {
        final_photo(ss.drop_last())
    }
}

/// The signature image of the last `Signature` setter, if any.
pub open spec fn final_signature(ss: Seq<BuilderSetter>) -> Option<Seq<u8>>
    decreases ss.len(),
{
    if ss.len() == 0 {
        None
    } else if let BuilderSetter::Signature(sig) = ss.last() {
        Some(sig)
    } else {
        final_signature(ss.drop_last())
    }
}

/// The photograph status set last: `Read` by `Photo`, or the first value of
/// `OptionalStatuses`; `NotRequested` when neither was called.
pub open spec fn final_photo_status(ss: Seq<BuilderSetter>) -> DataGroupStatus
    decreases ss.len(),
{
    if ss.len() == 0 {
        DataGroupStatus::NotRequested
    } else {
        match ss.last() {
            BuilderSetter::Photo(_) => DataGroupStatus::Read,
            BuilderSetter::OptionalStatuses(p, _, _) => p,
            _ => final_photo_status(ss.drop_last()),
        }
    }
}

/// The extended-data status set last: `Read` by `Extended`, or the second
/// value of `OptionalStatuses`; `NotRequested` when neither was called.
pub open spec fn final_extended_status(ss: Seq<BuilderSetter>) -> DataGroupStatus
    decreases ss.len(),
{
    if ss.len() == 0 {
        DataGroupStatus::NotRequested
    } else {
        match ss.last() {
            BuilderSetter::Extended(_) => DataGroupStatus::Read,
            BuilderSetter::OptionalStatuses(_, e, _) => e,
            _ => final_extended_status(ss.drop_last()),
        }
    }
}

/// The signature status set last: `Read` by `Signature`, or the third value
/// of `OptionalStatuses`; `NotRequested` when neither was called.
pub open spec fn final_signature_status(ss: Seq<BuilderSetter>) -> DataGroupStatus
    decreases ss.len(),
{
    if ss.len() == 0 {
        DataGroupStatus::NotRequested
    } else {
        match ss.last() {
            BuilderSetter::Signature(_) => DataGroupStatus::Read,
            BuilderSetter::OptionalStatuses(_, _, sig) => sig,
            _ => final_signature_status(ss.drop_last()),
        }
    }
}

/// A builder started with `id_number` and `card_number` holds, after any
/// sequence of setters, the last value each setter supplied and the last
/// status each group was given, with both required groups `Read`.
pub proof fn lemma_apply_setters(id_number: Seq<char>, card_number: Seq<char>, ss: Seq<BuilderSetter>)
    ensures
        ({
            let v = apply_setters(builder_start(id_number, card_number), ss);
            &&& v.reader_name == final_reader(ss)
            &&& v.card_generation == final_generation(ss)
            &&& v.id_number == id_number
            &&& v.card_number == card_number
            &&& v.non_modifiable == final_identity(ss)
            &&& v.modifiable == final_extended(ss)
            &&& v.photo_jpeg == final_photo(ss)
            &&& v.holder_signature_image == final_signature(ss)
            &&& v.read_status == ReadStatus {
                identity: DataGroupStatus::Read,
                photo: final_photo_status(ss),
                non_modifiable: DataGroupStatus::Read,
                modifiable: final_extended_status(ss),
                holder_signature_image: final_signature_status(ss),
            }
        }),
    decreases ss.len(),
{
    if ss.len() > 0 {
        lemma_apply_setters(id_number, card_number, ss.drop_last());
    }
}

/// A build reflects every setter, in whatever order they were called: the
/// last reader, generation and core identity supplied and the identifiers;
/// the last status given to each optional group, with both required groups
/// `Read`; and the last photograph, signature and extended data supplied
/// exactly when their group's final status is `Read`.
pub proof fn lemma_build_reflects_setters(
    id_number: Seq<char>,
    card_number: Seq<char>,
    ss: Seq<BuilderSetter>,
)
    ensures
        build_spec(apply_setters(builder_start(id_number, card_number), ss)) matches Ok(d) ==> {
            &&& d.reader_name == final_reader(ss)
            &&& d.card_generation == final_generation(ss)
            &&& d.id_number == id_number
            &&& d.card_number == card_number
            &&& d.non_modifiable == final_identity(ss)
            &&& d.read_status == ReadStatus {
                identity: DataGroupStatus::Read,
                photo: final_photo_status(ss),
                non_modifiable: DataGroupStatus::Read,
                modifiable: final_extended_status(ss),
                holder_signature_image: final_signature_status(ss),
            }
            &&& d.photo_jpeg == if final_photo_status(ss) == DataGroupStatus::Read {
                final_photo(ss)
            } else {
                None
            }
            &&& d.holder_signature_image == if final_signature_status(ss)
                == DataGroupStatus::Read {
                final_signature(ss)
            } else {
                None
            }
            &&& d.modifiable == if final_extended_status(ss) == DataGroupStatus::Read {
                final_extended(ss)
            } else {
                ModifiableView::empty()
            }
        },
{
    lemma_apply_setters(id_number, card_number, ss);
    lemma_build_keeps_supplied_values(apply_setters(builder_start(id_number, card_number), ss));
}

/// A built snapshot holds only ISO calendar dates: date of birth, issue and
/// expiry dates, and (when the extended group is `Read`) residency expiry,
/// passport issue and expiry, and graduation dates are each absent or an ISO
/// calendar date; a snapshot holding any other such date is refused.
pub proof fn lemma_build_checks_every_date(v: EmiratesIdView)
    ensures
        build_spec(v) matches Ok(d) ==> {
            &&& optional_iso_date(d.non_modifiable.date_of_birth)
            &&& optional_iso_date(d.non_modifiable.issue_date)
            &&& optional_iso_date(d.non_modifiable.expiry_date)
            &&& optional_iso_date(d.modifiable.residency_expiry_date)
            &&& optional_iso_date(d.modifiable.passport_issue_date)
            &&& optional_iso_date(d.modifiable.passport_expiry_date)
            &&& optional_iso_date(d.modifiable.date_of_graduation)
        },
        (v.non_modifiable.date_of_birth matches Some(s) && !is_iso_date(s)) ==> build_spec(v) is Err,
        (v.non_modifiable.issue_date matches Some(s) && !is_iso_date(s)) ==> build_spec(v) is Err,
        (v.non_modifiable.expiry_date matches Some(s) && !is_iso_date(s)) ==> build_spec(v) is Err,
        (v.read_status.modifiable == DataGroupStatus::Read && (v.modifiable.residency_expiry_date matches Some(s) && !is_iso_date(s))) ==> build_spec(v) is Err,
        (v.read_status.modifiable == DataGroupStatus::Read && (v.modifiable.passport_issue_date matches Some(s) && !is_iso_date(s))) ==> build_spec(v) is Err,
        (v.read_status.modifiable == DataGroupStatus::Read && (v.modifiable.passport_expiry_date matches Some(s) && !is_iso_date(s))) ==> build_spec(v) is Err,
        (v.read_status.modifiable == DataGroupStatus::Read && (v.modifiable.date_of_graduation matches Some(s) && !is_iso_date(s))) ==> build_spec(v) is Err,
{
}

} // verus!
