//! Application selection and public-file reading, as a sequence of decisions.
//!
//! [`CardRead`] decides each command of a read: it names the next command,
//! and the caller exchanges it with the card (see [`crate::apdu`]) and hands
//! back the response data or the error. The read ends with a complete
//! snapshot or an error; no partial snapshot is ever produced.
use crate::data::{
    build_spec, has_jpeg_prefix, optional_iso_date, without_unread_groups, CardGeneration, DataGroupStatus, EmiratesIdData, EmiratesIdView,
    ModifiableData, ModifiableView, NonModifiableData, NonModifiableView, ReadOptions, ReadStatus,
};
use crate::decode::{
    be16, bytes_outcome, decode_modifiable, decode_modifiable_spec, decode_non_modifiable,
    decode_non_modifiable_spec, field, field_spec, lemma_modifiable_dates_iso,
    lemma_non_modifiable_dates_iso, required_ascii_digits, required_digits_spec, text_spec,
};
use crate::apdu::{append_bytes, copy_bytes};
use crate::error::{plain_error, Error, ErrorKind, ErrorView};
use crate::strings::{all_ascii_digits, chars_of, decimal, push_decimal, string_from_chars};
use vstd::prelude::*;

verus! {

/// Directory holding the public files on cards that have one.
pub const PUBLIC_DATA_DIRECTORY: u16 = 0x0200;

/// Largest public file accepted, header included.
pub const MAX_FILE_LENGTH: usize = 16384;

/// Largest READ BINARY length requested at once.
pub const CHUNK_LENGTH: usize = 0xFD;

/// The card files that a read uses.
#[derive(Clone, Copy, Debug, PartialEq, Eq, Structural)]
pub enum FileGroup {
    /// Required identifiers file.
    Identity,
    /// Required core identity file.
    NonModifiable,
    /// Optional photograph file.
    Photo,
    /// Optional occupation/residency/passport/education file.
    Modifiable,
    /// Optional holder-signature image file.
    Signature,
}

/// The elementary file identifier of each group.
pub open spec fn file_id(g: FileGroup) -> u16 {
    match g {
        FileGroup::Identity => 0x0201,
        FileGroup::NonModifiable => 0x0203,
        FileGroup::Photo => 0x0202,
        FileGroup::Modifiable => 0x0205,
        FileGroup::Signature => 0x0207,
    }
}

/// Groups whose absence or protection the read reports instead of failing.
pub open spec fn is_optional(g: FileGroup) -> bool {
    g == FileGroup::Photo || g == FileGroup::Modifiable || g == FileGroup::Signature
}

/// The caller asked for the optional group `g`.
pub open spec fn requested(options: ReadOptions, g: FileGroup) -> bool {
    match g {
        FileGroup::Photo => options.photo,
        FileGroup::Modifiable => options.modifiable_data,
        FileGroup::Signature => options.holder_signature_image,
        _ => true,
    }
}

/// Which command of the read the card's next reply answers.
#[derive(Clone, Copy, Debug, PartialEq, Eq, Structural)]
pub enum ReadPhase {
    /// SELECT of the Emirates ID application.
    SelectApplication,
    /// SELECT of the public data directory.
    SelectDirectory,
    /// SELECT of the application again, on cards without the directory.
    ReselectApplication,
    /// SELECT of the file of a group.
    SelectFile(FileGroup),
    /// First READ BINARY of a file, which carries its header.
    ReadHeader(FileGroup),
    /// Further READ BINARY of a file.
    ReadChunk(FileGroup),
}

/// Everything a read has decided and gathered so far.
pub struct ReadState {
    pub options: ReadOptions,
    pub reader_name: Seq<char>,
    pub generation: CardGeneration,
    pub phase: ReadPhase,
    /// Bytes of the file being read.
    pub file: Seq<u8>,
    /// Length of the file being read, header included.
    pub total: nat,
    pub id_number: Seq<char>,
    pub card_number: Seq<char>,
    pub non_modifiable: NonModifiableView,
    pub photo_file: Option<Seq<u8>>,
    pub photo_status: DataGroupStatus,
    pub modifiable_file: Option<Seq<u8>>,
    pub modifiable_status: DataGroupStatus,
    pub signature_file: Option<Seq<u8>>,
    pub signature_status: DataGroupStatus,
}

/// What a read asks for next.
pub enum ReadOutcome {
    /// Exchange this command with the card and report the reply in this state.
    Send(ReadState, Seq<u8>),
    /// The read is over.
    Done(Result<EmiratesIdView, ErrorView>),
}

/// SELECT of the Emirates ID application by its AID.
pub open spec fn select_application_command() -> Seq<u8> {
    seq![
        0x00u8, 0xA4, 0x04, 0x00, 0x0C, 0xA0, 0x00, 0x00, 0x02, 0x43, 0x00, 0x13, 0x00, 0x00, 0x00,
        0x01, 0x01, 0x00,
    ]
}

/// SELECT of the file `id` inside the current directory.
pub open spec fn select_file_command(id: u16) -> Seq<u8> {
    seq![0x00u8, 0xA4, 0x00, 0x00, 0x02, (id / 256) as u8, (id % 256) as u8, 0x00]
}

/// READ BINARY of `length` bytes at `offset`.
pub open spec fn read_binary_command(offset: nat, length: nat) -> Seq<u8> {
    seq![0x00u8, 0xB0, (offset / 256 % 128) as u8, (offset % 256) as u8, length as u8]
}

/// The error for a file whose first chunk cannot hold the header.
pub open spec fn header_truncated_error() -> ErrorView {
    plain_error(ErrorKind::InvalidData, "Emirates ID file header is truncated"@)
}

/// The error for a file announcing more than [`MAX_FILE_LENGTH`] bytes.
pub open spec fn file_too_long_error(total: nat) -> ErrorView {
    plain_error(ErrorKind::InvalidData, "Unreasonable card file length: "@ + decimal(total))
}

/// The error for a READ BINARY returning nothing before the file's end.
pub open spec fn empty_chunk_error() -> ErrorView {
    plain_error(ErrorKind::InvalidData, "Empty READ BINARY chunk"@)
}

/// The error for a photograph without the JPEG prefix.
pub open spec fn not_jpeg_error() -> ErrorView {
    plain_error(ErrorKind::InvalidData, "Photograph payload is not JPEG"@)
}

/// The state in which a read starts; every optional group is `NotRequested`
/// until its file is tried.
pub open spec fn initial_read_state(
    options: ReadOptions,
    reader_name: Seq<char>,
    generation: CardGeneration,
) -> ReadState {
    ReadState {
        options,
        reader_name,
        generation,
        phase: ReadPhase::SelectApplication,
        file: Seq::empty(),
        total: 0,
        id_number: Seq::empty(),
        card_number: Seq::empty(),
        non_modifiable: NonModifiableView::empty(),
        photo_file: None,
        photo_status: DataGroupStatus::NotRequested,
        modifiable_file: None,
        modifiable_status: DataGroupStatus::NotRequested,
        signature_file: None,
        signature_status: DataGroupStatus::NotRequested,
    }
}

/// A read starts by selecting the application.
pub open spec fn read_start(
    options: ReadOptions,
    reader_name: Seq<char>,
    generation: CardGeneration,
) -> ReadOutcome {
    ReadOutcome::Send(initial_read_state(options, reader_name, generation), select_application_command())
}

/// Selecting the file of `g` starts reading it.
pub open spec fn start_group(s: ReadState, g: FileGroup) -> ReadOutcome {
    ReadOutcome::Send(
        ReadState { phase: ReadPhase::SelectFile(g), file: Seq::empty(), total: 0, ..s },
        select_file_command(file_id(g)),
    )
}

/// The state with the outcome of the optional group `g` recorded.
pub open spec fn record_group(
    s: ReadState,
    g: FileGroup,
    status: DataGroupStatus,
    file: Option<Seq<u8>>,
) -> ReadState {
    match g {
        FileGroup::Photo => ReadState { photo_status: status, photo_file: file, ..s },
        FileGroup::Modifiable => ReadState { modifiable_status: status, modifiable_file: file, ..s },
        FileGroup::Signature => ReadState { signature_status: status, signature_file: file, ..s },
        _ => s,
    }
}

/// The image stored under `tag` in an optional file: absent when the file was
/// not read or the field is missing or empty; a photograph must carry the
/// JPEG prefix.
#[verifier::opaque]
pub open spec fn image_field_spec(file: Option<Seq<u8>>, tag: u16, jpeg: bool) -> Result<
    Option<Seq<u8>>,
    ErrorView,
> {
    match file {
        None => Ok(None),
        Some(data) => match field_spec(data, tag) {
            Err(e) => Err(e),
            Ok(None) => Ok(None),
            Ok(Some(bytes)) => if bytes.len() == 0 {
                Ok(None)
            } else if jpeg && !has_jpeg_prefix(bytes) {
                Err(not_jpeg_error())
            } else {
                Ok(Some(bytes))
            },
        },
    }
}

/// The extended fields: decoded when the file was read, otherwise all absent.
pub open spec fn modifiable_of(file: Option<Seq<u8>>) -> Result<ModifiableView, ErrorView> {
    match file {
        Some(data) => decode_modifiable_spec(data),
        None => Ok(ModifiableView::empty()),
    }
}

/// The end of a read once every file is in: the photograph, the signature
/// image and the extended fields are decoded, in this order.
#[verifier::opaque]
pub open spec fn finish_read(s: ReadState) -> ReadOutcome {
    match image_field_spec(s.photo_file, 0x6203, true) {
        Err(e) => ReadOutcome::Done(Err(e)),
        Ok(photo) => match image_field_spec(s.signature_file, 0x6732, false) {
            Err(e) => ReadOutcome::Done(Err(e)),
            Ok(signature) => match modifiable_of(s.modifiable_file) {
                Err(e) => ReadOutcome::Done(Err(e)),
                Ok(modifiable) => ReadOutcome::Done(
                    Ok(
                        EmiratesIdView {
                            reader_name: s.reader_name,
                            card_generation: s.generation,
                            id_number: s.id_number,
                            card_number: s.card_number,
                            photo_jpeg: photo,
                            holder_signature_image: signature,
                            non_modifiable: s.non_modifiable,
                            modifiable,
                            read_status: ReadStatus {
                                identity: DataGroupStatus::Read,
                                photo: s.photo_status,
                                non_modifiable: DataGroupStatus::Read,
                                modifiable: s.modifiable_status,
                                holder_signature_image: s.signature_status,
                            },
                        },
                    ),
                ),
            },
        },
    }
}

/// After the signature group, the read ends.
pub open spec fn after_modifiable(s: ReadState) -> ReadOutcome {
    if s.options.holder_signature_image {
        start_group(s, FileGroup::Signature)
    } else {
        finish_read(s)
    }
}

/// After the photograph group comes the extended data group, if asked for.
pub open spec fn after_photo(s: ReadState) -> ReadOutcome {
    if s.options.modifiable_data {
        start_group(s, FileGroup::Modifiable)
    } else {
        after_modifiable(s)
    }
}

/// After the core identity group comes the photograph group, if asked for.
pub open spec fn after_non_modifiable(s: ReadState) -> ReadOutcome {
    if s.options.photo {
        start_group(s, FileGroup::Photo)
    } else {
        after_photo(s)
    }
}

/// Groups are read in the order identity, core identity, photograph,
/// extended data, signature image; unrequested optional groups are skipped.
#[verifier::opaque]
pub open spec fn after_group(s: ReadState, g: FileGroup) -> ReadOutcome {
    match g {
        FileGroup::Identity => start_group(s, FileGroup::NonModifiable),
        FileGroup::NonModifiable => after_non_modifiable(s),
        FileGroup::Photo => after_photo(s),
        FileGroup::Modifiable => after_modifiable(s),
        FileGroup::Signature => finish_read(s),
    }
}

/// Reading `g` failed with `e`. A protected (`6982`, `6985`) or absent
/// (`6A82`, `6A83`) optional file is recorded as such; every other failure,
/// and any failure of a required file, ends the read with `e`.
#[verifier::opaque]
pub open spec fn group_failed(s: ReadState, g: FileGroup, e: ErrorView) -> ReadOutcome {
    if is_optional(g) && (e.status_word == Some(0x6982u16) || e.status_word == Some(0x6985u16)) {
        after_group(record_group(s, g, DataGroupStatus::Protected, None), g)
    } else if is_optional(g) && (e.status_word == Some(0x6A82u16) || e.status_word == Some(
        0x6A83u16,
    )) {
        after_group(record_group(s, g, DataGroupStatus::NotAvailable, None), g)
    } else {
        ReadOutcome::Done(Err(e))
    }
}

/// The file of `g` is complete: required files are decoded at once, optional
/// ones are kept for the end of the read.
#[verifier::opaque]
pub open spec fn file_complete(s: ReadState, g: FileGroup, f: Seq<u8>) -> ReadOutcome {
    match g {
        FileGroup::Identity => match required_digits_spec(f, 0xE101, "ID number"@, 15) {
            Err(e) => ReadOutcome::Done(Err(e)),
            Ok(id) => match required_digits_spec(f, 0xE102, "card number"@, 9) {
                Err(e) => ReadOutcome::Done(Err(e)),
                Ok(card) => start_group(
                    ReadState { id_number: id, card_number: card, ..s },
                    FileGroup::NonModifiable,
                ),
            },
        },
        FileGroup::NonModifiable => match decode_non_modifiable_spec(f) {
            Err(e) => ReadOutcome::Done(Err(e)),
            Ok(nm) => after_group(ReadState { non_modifiable: nm, ..s }, FileGroup::NonModifiable),
        },
        _ => after_group(record_group(s, g, DataGroupStatus::Read, Some(f)), g),
    }
}

/// The smaller of `a` and `b`.
pub open spec fn min_nat(a: nat, b: nat) -> nat {
    if a <= b {
        a
    } else {
        b
    }
}

/// With `data` of a `total`-byte file in hand, either the file is complete
/// (trailing bytes beyond `total` dropped) or the next chunk is requested.
#[verifier::opaque]
pub open spec fn file_progress(s: ReadState, g: FileGroup, data: Seq<u8>, total: nat) -> ReadOutcome {
    if data.len() >= total {
        file_complete(s, g, data.take(total as int))
    } else {
        ReadOutcome::Send(
            ReadState { phase: ReadPhase::ReadChunk(g), file: data, total, ..s },
            read_binary_command(data.len(), min_nat((total - data.len()) as nat, CHUNK_LENGTH as nat)),
        )
    }
}

/// The decision taken on the reply to the command of `s.phase`.
#[verifier::opaque]
pub open spec fn read_step(s: ReadState, reply: Result<Seq<u8>, ErrorView>) -> ReadOutcome {
    match s.phase {
        ReadPhase::SelectApplication => match reply {
            Err(e) => ReadOutcome::Done(Err(e)),
            Ok(_) => ReadOutcome::Send(
                ReadState { phase: ReadPhase::SelectDirectory, ..s },
                select_file_command(PUBLIC_DATA_DIRECTORY),
            ),
        },
        ReadPhase::SelectDirectory => match reply {
            Ok(_) => start_group(s, FileGroup::Identity),
            Err(e) => if e.status_word == Some(0x6A82u16) || e.status_word == Some(0x6A83u16) {
                ReadOutcome::Send(
                    ReadState { phase: ReadPhase::ReselectApplication, ..s },
                    select_application_command(),
                )
            } else {
                ReadOutcome::Done(Err(e))
            },
        },
        ReadPhase::ReselectApplication => match reply {
            Err(e) => ReadOutcome::Done(Err(e)),
            Ok(_) => start_group(s, FileGroup::Identity),
        },
        ReadPhase::SelectFile(g) => match reply {
            Err(e) => group_failed(s, g, e),
            Ok(_) => ReadOutcome::Send(
                ReadState { phase: ReadPhase::ReadHeader(g), ..s },
                read_binary_command(0, CHUNK_LENGTH as nat),
            ),
        },
        ReadPhase::ReadHeader(g) => match reply {
            Err(e) => group_failed(s, g, e),
            Ok(data) => if data.len() < 4 {
                group_failed(s, g, header_truncated_error())
            } else if 4 + be16(data[2], data[3]) > MAX_FILE_LENGTH {
                group_failed(s, g, file_too_long_error((4 + be16(data[2], data[3])) as nat))
            } else {
                file_progress(s, g, data, (4 + be16(data[2], data[3])) as nat)
            },
        },
        ReadPhase::ReadChunk(g) => match reply {
            Err(e) => group_failed(s, g, e),
            Ok(chunk) => if chunk.len() == 0 {
                group_failed(s, g, empty_chunk_error())
            } else {
                file_progress(s, g, s.file + chunk, s.total)
            },
        },
    }
}

/// A read in progress.
pub struct CardRead {
    options: ReadOptions,
    reader_name: String,
    generation: CardGeneration,
    phase: ReadPhase,
    file: Vec<u8>,
    total: usize,
    id_number: String,
    card_number: String,
    non_modifiable: NonModifiableData,
    photo_file: Option<Vec<u8>>,
    photo_status: DataGroupStatus,
    modifiable_file: Option<Vec<u8>>,
    modifiable_status: DataGroupStatus,
    signature_file: Option<Vec<u8>>,
    signature_status: DataGroupStatus,
}

/// The bytes of an optional file.
pub open spec fn opt_bytes(o: Option<Vec<u8>>) -> Option<Seq<u8>> {
    match o {
        Some(v) => Some(v@),
        None => None,
    }
}

impl CardRead {
    /// The length of a file being read never exceeds the accepted maximum.
    #[verifier::type_invariant]
    spec fn total_bounded(&self) -> bool {
        self.total <= MAX_FILE_LENGTH
    }
}

impl View for CardRead {
    type V = ReadState;

    closed spec fn view(&self) -> ReadState {
        ReadState {
            options: self.options,
            reader_name: self.reader_name@,
            generation: self.generation,
            phase: self.phase,
            file: self.file@,
            total: self.total as nat,
            id_number: self.id_number@,
            card_number: self.card_number@,
            non_modifiable: self.non_modifiable@,
            photo_file: opt_bytes(self.photo_file),
            photo_status: self.photo_status,
            modifiable_file: opt_bytes(self.modifiable_file),
            modifiable_status: self.modifiable_status,
            signature_file: opt_bytes(self.signature_file),
            signature_status: self.signature_status,
        }
    }
}

/// The next move of a read.
pub enum ReadStep {
    /// Exchange the command with the card, then hand the reply to
    /// [`CardRead::on_reply`] of the read.
    Send(CardRead, Vec<u8>),
    /// The read is over.
    Done(Result<EmiratesIdData, Error>),
}

impl View for ReadStep {
    type V = ReadOutcome;

    open spec fn view(&self) -> ReadOutcome {
        match self {
            ReadStep::Send(s, c) => ReadOutcome::Send(s@, c@),
            ReadStep::Done(Ok(d)) => ReadOutcome::Done(Ok(d@)),
            ReadStep::Done(Err(e)) => ReadOutcome::Done(Err(e@)),
        }
    }
}

/// The model of a reply to a command.
pub open spec fn response_view(reply: Result<Vec<u8>, Error>) -> Result<Seq<u8>, ErrorView> {
    match reply {
        Ok(d) => Ok(d@),
        Err(e) => Err(e@),
    }
}

fn select_application_bytes() -> (r: Vec<u8>)
    ensures
        r@ == select_application_command(),
{
    let r = vec![
        0x00u8, 0xA4, 0x04, 0x00, 0x0C, 0xA0, 0x00, 0x00, 0x02, 0x43, 0x00, 0x13, 0x00, 0x00, 0x00,
        0x01, 0x01, 0x00,
    ];
    assert(r@ =~= select_application_command());
    r
}

fn select_file_bytes(id: u16) -> (r: Vec<u8>)
    ensures
        r@ == select_file_command(id),
{
    let r = vec![0x00u8, 0xA4, 0x00, 0x00, 0x02, (id / 256) as u8, (id % 256) as u8, 0x00];
    assert(r@ =~= select_file_command(id));
    r
}

fn read_binary_bytes(offset: usize, length: usize) -> (r: Vec<u8>)
    requires
        length < 256,
    ensures
        r@ == read_binary_command(offset as nat, length as nat),
{
    let r = vec![0x00u8, 0xB0, (offset / 256 % 128) as u8, (offset % 256) as u8, length as u8];
    assert(r@ =~= read_binary_command(offset as nat, length as nat));
    r
}

fn file_id_of(g: FileGroup) -> (r: u16)
    ensures
        r == file_id(g),
{
    match g {
        FileGroup::Identity => 0x0201,
        FileGroup::NonModifiable => 0x0203,
        FileGroup::Photo => 0x0202,
        FileGroup::Modifiable => 0x0205,
        FileGroup::Signature => 0x0207,
    }
}

/// The image stored under `tag` in an optional file.
pub fn image_field(file: &Option<Vec<u8>>, tag: u16, jpeg: bool) -> (r: Result<
    Option<Vec<u8>>,
    Error,
>)
    ensures
        match r {
            Ok(v) => image_field_spec(opt_bytes(*file), tag, jpeg) == Ok::<
                Option<Seq<u8>>,
                ErrorView,
            >(opt_bytes(v)),
            Err(e) => image_field_spec(opt_bytes(*file), tag, jpeg) == Err::<
                Option<Seq<u8>>,
                ErrorView,
            >(e@),
        },
{
    reveal(image_field_spec);
    let data = match file {
        None => return Ok(None),
        Some(d) => d,
    };
    let bytes = match field(data.as_slice(), tag) {
        Err(e) => return Err(e),
        Ok(None) => return Ok(None),
        Ok(Some(b)) => b,
    };
    if bytes.len() == 0 {
        return Ok(None);
    }
    if jpeg && !(bytes.len() >= 3 && bytes[0] == 0xFF && bytes[1] == 0xD8 && bytes[2] == 0xFF) {
        return Err(Error::from_str(ErrorKind::InvalidData, "Photograph payload is not JPEG"));
    }
    let mut out: Vec<u8> = Vec::new();
    let mut i: usize = 0;
    while i < bytes.len()
        invariant
            i <= bytes@.len(),
            out@ == bytes@.take(i as int),
        decreases bytes@.len() - i,
    {
        out.push(bytes[i]);
        i = i + 1;
        assert(out@ =~= bytes@.take(i as int));
    }
    assert(bytes@.take(bytes@.len() as int) =~= bytes@);
    Ok(Some(out))
}

impl CardRead {
    /// Starts a read of the groups `options` asks for; the first command
    /// selects the Emirates ID application.
    pub fn start(reader_name: &str, generation: CardGeneration, options: ReadOptions) -> (r:
        ReadStep)
        ensures
            r@ == read_start(options, reader_name@, generation),
    {
        let s = CardRead {
            options,
            reader_name: String::from_str(reader_name),
            generation,
            phase: ReadPhase::SelectApplication,
            file: Vec::new(),
            total: 0,
            id_number: String::new(),
            card_number: String::new(),
            non_modifiable: NonModifiableData::default(),
            photo_file: None,
            photo_status: DataGroupStatus::NotRequested,
            modifiable_file: None,
            modifiable_status: DataGroupStatus::NotRequested,
            signature_file: None,
            signature_status: DataGroupStatus::NotRequested,
        };
        ReadStep::Send(s, select_application_bytes())
    }

    fn start_group(self, g: FileGroup) -> (r: ReadStep)
        ensures
            r@ == start_group(self@, g),
    {
        proof {
            use_type_invariant(&self);
        }
        let mut s = self;
        s.phase = ReadPhase::SelectFile(g);
        s.file = Vec::new();
        s.total = 0;
        let cmd = select_file_bytes(file_id_of(g));
        ReadStep::Send(s, cmd)
    }

    fn record_group(self, g: FileGroup, status: DataGroupStatus, file: Option<Vec<u8>>) -> (r:
        Self)
        ensures
            r@ == record_group(self@, g, status, opt_bytes(file)),
    {
        proof {
            use_type_invariant(&self);
        }
        let mut s = self;
        match g {
            FileGroup::Photo => {
                s.photo_status = status;
                s.photo_file = file;
            },
            FileGroup::Modifiable => {
                s.modifiable_status = status;
                s.modifiable_file = file;
            },
            FileGroup::Signature => {
                s.signature_status = status;
                s.signature_file = file;
            },
            _ => {},
        }
        s
    }

    fn finish(self) -> (r: ReadStep)
        ensures
            r@ == finish_read(self@),
    {
        proof {
            use_type_invariant(&self);
            reveal(finish_read);
        }
        let photo = match image_field(&self.photo_file, 0x6203, true) {
            Err(e) => return ReadStep::Done(Err(e)),
            Ok(p) => p,
        };
        let signature = match image_field(&self.signature_file, 0x6732, false) {
            Err(e) => return ReadStep::Done(Err(e)),
            Ok(p) => p,
        };
        let modifiable = match &self.modifiable_file {
            Some(data) => match decode_modifiable(data.as_slice()) {
                Err(e) => return ReadStep::Done(Err(e)),
                Ok(m) => m,
            },
            None => ModifiableData::default(),
        };
        let data = EmiratesIdData {
            reader_name: self.reader_name,
            card_generation: self.generation,
            id_number: self.id_number,
            card_number: self.card_number,
            photo_jpeg: photo,
            holder_signature_image: signature,
            non_modifiable: self.non_modifiable,
            modifiable,
            read_status: ReadStatus {
                identity: DataGroupStatus::Read,
                photo: self.photo_status,
                non_modifiable: DataGroupStatus::Read,
                modifiable: self.modifiable_status,
                holder_signature_image: self.signature_status,
            },
        };
        ReadStep::Done(Ok(data))
    }

    fn after_group(self, g: FileGroup) -> (r: ReadStep)
        ensures
            r@ == after_group(self@, g),
    {
        proof {
            use_type_invariant(&self);
            reveal(after_group);
        }
        let next = match g {
            FileGroup::Identity => Some(FileGroup::NonModifiable),
            FileGroup::NonModifiable => if self.options.photo {
                Some(FileGroup::Photo)
            } else if self.options.modifiable_data {
                Some(FileGroup::Modifiable)
            } else if self.options.holder_signature_image {
                Some(FileGroup::Signature)
            } else {
                None
            },
            FileGroup::Photo => if self.options.modifiable_data {
                Some(FileGroup::Modifiable)
            } else if self.options.holder_signature_image {
                Some(FileGroup::Signature)
            } else {
                None
            },
            FileGroup::Modifiable => if self.options.holder_signature_image {
                Some(FileGroup::Signature)
            } else {
                None
            },
            FileGroup::Signature => None,
        };
        match next {
            Some(n) => self.start_group(n),
            None => self.finish(),
        }
    }

    fn group_failed(self, g: FileGroup, e: Error) -> (r: ReadStep)
        ensures
            r@ == group_failed(self@, g, e@),
    {
        proof {
            use_type_invariant(&self);
            reveal(group_failed);
        }
        let optional = g == FileGroup::Photo || g == FileGroup::Modifiable || g
            == FileGroup::Signature;
        let protected = match e.status_word {
            Some(sw) => sw == 0x6982 || sw == 0x6985,
            None => false,
        };
        let absent = match e.status_word {
            Some(sw) => sw == 0x6A82 || sw == 0x6A83,
            None => false,
        };
        if optional && protected {
            self.record_group(g, DataGroupStatus::Protected, None).after_group(g)
        } else if optional && absent {
            self.record_group(g, DataGroupStatus::NotAvailable, None).after_group(g)
        } else {
            ReadStep::Done(Err(e))
        }
    }

    fn file_complete(self, g: FileGroup, f: Vec<u8>) -> (r: ReadStep)
        ensures
            r@ == file_complete(self@, g, f@),
    {
        proof {
            use_type_invariant(&self);
            reveal(file_complete);
        }
        match g {
            FileGroup::Identity => {
                let id = match required_ascii_digits(f.as_slice(), 0xE101, "ID number", 15) {
                    Err(e) => return ReadStep::Done(Err(e)),
                    Ok(v) => v,
                };
                let card = match required_ascii_digits(f.as_slice(), 0xE102, "card number", 9) {
                    Err(e) => return ReadStep::Done(Err(e)),
                    Ok(v) => v,
                };
                let mut s = self;
                s.id_number = id;
                s.card_number = card;
                s.start_group(FileGroup::NonModifiable)
            },
            FileGroup::NonModifiable => {
                let nm = match decode_non_modifiable(f.as_slice()) {
                    Err(e) => return ReadStep::Done(Err(e)),
                    Ok(v) => v,
                };
                let mut s = self;
                s.non_modifiable = nm;
                s.after_group(FileGroup::NonModifiable)
            },
            _ => self.record_group(g, DataGroupStatus::Read, Some(f)).after_group(g),
        }
    }

    fn file_progress(self, g: FileGroup, data: Vec<u8>, total: usize) -> (r: ReadStep)
        requires
            total <= MAX_FILE_LENGTH,
        ensures
            r@ == file_progress(self@, g, data@, total as nat),
    {
        proof {
            use_type_invariant(&self);
            reveal(file_progress);
        }
        if data.len() >= total {
            let mut f = data;
            f.truncate(total);
            assert(f@ =~= data@.take(total as int));
            self.file_complete(g, f)
        } else {
            let remaining = total - data.len();
            let length = if remaining < CHUNK_LENGTH {
                remaining
            } else {
                CHUNK_LENGTH
            };
            let cmd = read_binary_bytes(data.len(), length);
            let mut s = self;
            s.phase = ReadPhase::ReadChunk(g);
            s.file = data;
            s.total = total;
            ReadStep::Send(s, cmd)
        }
    }

    fn on_header(self, g: FileGroup, reply: Result<Vec<u8>, Error>) -> (r: ReadStep)
        requires
            self@.phase == ReadPhase::ReadHeader(g),
        ensures
            r@ == read_step(self@, response_view(reply)),
    {
        proof {
            use_type_invariant(&self);
            reveal(read_step);
        }
        match reply {
            Err(e) => self.group_failed(g, e),
            Ok(data) => {
                if data.len() < 4 {
                    return self.group_failed(
                        g,
                        Error::from_str(ErrorKind::InvalidData, "Emirates ID file header is truncated"),
                    );
                }
                let total: usize = 4 + (data[2] as usize * 256 + data[3] as usize);
                assert(total == 4 + be16(data@[2], data@[3]));
                if total > MAX_FILE_LENGTH {
                    let mut m = chars_of("Unreasonable card file length: ");
                    push_decimal(&mut m, total as u64);
                    let e = Error::new(ErrorKind::InvalidData, string_from_chars(m.as_slice()));
                    return self.group_failed(g, e);
                }
                self.file_progress(g, data, total)
            },
        }
    }

    fn on_chunk(self, g: FileGroup, reply: Result<Vec<u8>, Error>) -> (r: ReadStep)
        requires
            self@.phase == ReadPhase::ReadChunk(g),
            self@.total <= MAX_FILE_LENGTH,
        ensures
            r@ == read_step(self@, response_view(reply)),
    {
        proof {
            use_type_invariant(&self);
            reveal(read_step);
        }
        match reply {
            Err(e) => self.group_failed(g, e),
            Ok(chunk) => {
                if chunk.len() == 0 {
                    return self.group_failed(
                        g,
                        Error::from_str(ErrorKind::InvalidData, "Empty READ BINARY chunk"),
                    );
                }
                let total = self.total;
                let mut data = copy_bytes(self.file.as_slice());
                append_bytes(&mut data, chunk.as_slice());
                self.file_progress(g, data, total)
            },
        }
    }

    fn on_select_file(self, g: FileGroup, reply: Result<Vec<u8>, Error>) -> (r: ReadStep)
        requires
            self@.phase == ReadPhase::SelectFile(g),
        ensures
            r@ == read_step(self@, response_view(reply)),
    {
        proof {
            use_type_invariant(&self);
            reveal(read_step);
        }
        match reply {
            Err(e) => self.group_failed(g, e),
            Ok(_) => {
                let mut s = self;
                s.phase = ReadPhase::ReadHeader(g);
                ReadStep::Send(s, read_binary_bytes(0, CHUNK_LENGTH))
            },
        }
    }

    fn on_select_directory(self, reply: Result<Vec<u8>, Error>) -> (r: ReadStep)
        requires
            self@.phase == ReadPhase::SelectDirectory,
        ensures
            r@ == read_step(self@, response_view(reply)),
    {
        proof {
            use_type_invariant(&self);
            reveal(read_step);
        }
        match reply {
            Ok(_) => self.start_group(FileGroup::Identity),
            Err(e) => {
                let absent = match e.status_word {
                    Some(sw) => sw == 0x6A82 || sw == 0x6A83,
                    None => false,
                };
                if absent {
                    let mut s = self;
                    s.phase = ReadPhase::ReselectApplication;
                    ReadStep::Send(s, select_application_bytes())
                } else {
                    ReadStep::Done(Err(e))
                }
            },
        }
    }

    /// Takes the decision on the card's `reply` to the last command.
    pub fn on_reply(self, reply: Result<Vec<u8>, Error>) -> (r: ReadStep)
        ensures
            r@ == read_step(self@, response_view(reply)),
    {
        proof {
            use_type_invariant(&self);
            reveal(read_step);
        }
        match self.phase {
            ReadPhase::SelectApplication => match reply {
                Err(e) => ReadStep::Done(Err(e)),
                Ok(_) => {
                    let mut s = self;
                    s.phase = ReadPhase::SelectDirectory;
                    ReadStep::Send(s, select_file_bytes(0x0200))
                },
            },
            ReadPhase::SelectDirectory => self.on_select_directory(reply),
            ReadPhase::ReselectApplication => match reply {
                Err(e) => ReadStep::Done(Err(e)),
                Ok(_) => self.start_group(FileGroup::Identity),
            },
            ReadPhase::SelectFile(g) => self.on_select_file(g, reply),
            ReadPhase::ReadHeader(g) => self.on_header(g, reply),
            ReadPhase::ReadChunk(g) => self.on_chunk(g, reply),
        }
    }
}

/// Position of each group in the order in which a read visits them.
pub open spec fn group_rank(g: FileGroup) -> int {
    match g {
        FileGroup::Identity => 0,
        FileGroup::NonModifiable => 1,
        FileGroup::Photo => 2,
        FileGroup::Modifiable => 3,
        FileGroup::Signature => 4,
    }
}

/// The group whose file the command of `phase` concerns, if any.
pub open spec fn phase_group(phase: ReadPhase) -> Option<FileGroup> {
    match phase {
        ReadPhase::SelectFile(g) => Some(g),
        ReadPhase::ReadHeader(g) => Some(g),
        ReadPhase::ReadChunk(g) => Some(g),
        _ => None,
    }
}

/// The number of groups a read in `phase` is done with.
pub open spec fn phase_rank(phase: ReadPhase) -> int {
    match phase_group(phase) {
        Some(g) => group_rank(g),
        None => 0,
    }
}

/// The recorded status of the optional group `g`.
pub open spec fn group_status(s: ReadState, g: FileGroup) -> DataGroupStatus {
    match g {
        FileGroup::Photo => s.photo_status,
        FileGroup::Modifiable => s.modifiable_status,
        FileGroup::Signature => s.signature_status,
        _ => DataGroupStatus::Read,
    }
}

/// The kept file of the optional group `g`.
pub open spec fn group_file(s: ReadState, g: FileGroup) -> Option<Seq<u8>> {
    match g {
        FileGroup::Photo => s.photo_file,
        FileGroup::Modifiable => s.modifiable_file,
        FileGroup::Signature => s.signature_file,
        _ => None,
    }
}

/// What the read records of the optional group `g` once it is past it: the
/// group is `NotRequested` exactly when the caller did not ask for it, and a
/// file is kept exactly when the group was `Read`.
pub open spec fn group_settled(s: ReadState, g: FileGroup) -> bool {
    &&& (group_status(s, g) == DataGroupStatus::NotRequested <==> !requested(s.options, g))
    &&& (group_file(s, g) is Some <==> group_status(s, g) == DataGroupStatus::Read)
}

/// The record of an optional group the read has not reached yet.
pub open spec fn group_pending(s: ReadState, g: FileGroup) -> bool {
    group_status(s, g) == DataGroupStatus::NotRequested && group_file(s, g) is None
}

/// The identifiers have the formats the card defines.
pub open spec fn identifiers_valid(s: ReadState) -> bool {
    &&& s.id_number.len() == 15 && all_ascii_digits(s.id_number)
    &&& s.card_number.len() == 9 && all_ascii_digits(s.card_number)
}

/// The core identity dates are absent or ISO calendar dates.
pub open spec fn core_dates_valid(nm: NonModifiableView) -> bool {
    optional_iso_date(nm.issue_date) && optional_iso_date(nm.expiry_date) && optional_iso_date(
        nm.date_of_birth,
    )
}

/// The record of a read that is done with the groups of rank below `rank`.
pub open spec fn done_below(s: ReadState, rank: int) -> bool {
    &&& forall|g: FileGroup| #[trigger]
        is_optional(g) ==> if group_rank(g) < rank {
            group_settled(s, g)
        } else {
            group_pending(s, g)
        }
    &&& rank > 0 ==> identifiers_valid(s)
    &&& rank > 1 ==> core_dates_valid(s.non_modifiable)
}

/// What holds of every state a read passes through.
pub open spec fn read_invariant(s: ReadState) -> bool {
    &&& s.total <= MAX_FILE_LENGTH
    &&& (s.phase is ReadChunk ==> s.file.len() < s.total)
    &&& (phase_group(s.phase) matches Some(g) ==> requested(s.options, g))
    &&& done_below(s, phase_rank(s.phase))
}

/// The command that the read sends in state `s`: the application and the
/// public directory are selected by their fixed commands, a group's file by
/// its identifier, and a file is read from its start, then from where the
/// data in hand ends, at most [`CHUNK_LENGTH`] bytes at a time.
pub open spec fn read_command(s: ReadState) -> Seq<u8> {
    match s.phase {
        ReadPhase::SelectApplication => select_application_command(),
        ReadPhase::ReselectApplication => select_application_command(),
        ReadPhase::SelectDirectory => select_file_command(PUBLIC_DATA_DIRECTORY),
        ReadPhase::SelectFile(g) => select_file_command(file_id(g)),
        ReadPhase::ReadHeader(_) => read_binary_command(0, CHUNK_LENGTH as nat),
        ReadPhase::ReadChunk(_) => read_binary_command(
            s.file.len(),
            min_nat((s.total - s.file.len()) as nat, CHUNK_LENGTH as nat),
        ),
    }
}

/// What holds of a snapshot that a read with `options` produces.
pub open spec fn read_result_valid(options: ReadOptions, d: EmiratesIdView) -> bool {
    &&& build_spec(d) == Ok::<EmiratesIdView, ErrorView>(d)
    &&& d.read_status.identity == DataGroupStatus::Read
    &&& d.read_status.non_modifiable == DataGroupStatus::Read
    &&& (d.read_status.photo == DataGroupStatus::NotRequested <==> !options.photo)
    &&& (d.read_status.modifiable == DataGroupStatus::NotRequested <==> !options.modifiable_data)
    &&& (d.read_status.holder_signature_image == DataGroupStatus::NotRequested
        <==> !options.holder_signature_image)
}

/// Position of each phase in the order of a read.
pub open spec fn phase_position(phase: ReadPhase) -> int {
    match phase {
        ReadPhase::SelectApplication => 0,
        ReadPhase::SelectDirectory => 1,
        ReadPhase::ReselectApplication => 2,
        ReadPhase::SelectFile(g) => 3 + 3 * group_rank(g),
        ReadPhase::ReadHeader(g) => 4 + 3 * group_rank(g),
        ReadPhase::ReadChunk(g) => 5 + 3 * group_rank(g),
    }
}

/// A bound on the commands a read in state `s` still sends.
pub open spec fn read_measure(s: ReadState) -> int {
    (20 - phase_position(s.phase)) * 32768 + if s.phase is ReadChunk {
        MAX_FILE_LENGTH - s.file.len()
    } else {
        0
    }
}

/// `next` is a correct continuation of a read that was in state `s`.
pub open spec fn step_valid(s: ReadState, next: ReadOutcome) -> bool {
    match next {
        ReadOutcome::Send(t, c) => {
            &&& read_invariant(t)
            &&& c == read_command(t)
            &&& 0 <= read_measure(t) < read_measure(s)
            &&& t.options == s.options
            &&& t.reader_name == s.reader_name
            &&& t.generation == s.generation
        },
        ReadOutcome::Done(Ok(d)) => {
            &&& read_result_valid(s.options, d)
            &&& d.reader_name == s.reader_name
            &&& d.card_generation == s.generation
        },
        ReadOutcome::Done(Err(_)) => true,
    }
}

proof fn lemma_finish_read(s: ReadState)
    requires
        s.total <= MAX_FILE_LENGTH,
        done_below(s, 5),
    ensures
        step_valid(s, finish_read(s)),
{
    reveal(finish_read);
    reveal(image_field_spec);
    assert(is_optional(FileGroup::Photo) && is_optional(FileGroup::Modifiable) && is_optional(
        FileGroup::Signature,
    ));
    assert(group_settled(s, FileGroup::Photo) && group_settled(s, FileGroup::Modifiable)
        && group_settled(s, FileGroup::Signature));
    if let ReadOutcome::Done(Ok(d)) = finish_read(s) {
        if let Some(data) = s.modifiable_file {
            lemma_modifiable_dates_iso(data);
        }
        assert(without_unread_groups(d) == d);
    }
}

proof fn lemma_start_group(s: ReadState, g: FileGroup)
    requires
        s.phase is ReadChunk ==> s.file.len() < s.total,
        phase_position(s.phase) < 3 + 3 * group_rank(g),
        s.total <= MAX_FILE_LENGTH,
        requested(s.options, g),
        done_below(s, group_rank(g)),
    ensures
        step_valid(s, start_group(s, g)),
{
    if let ReadOutcome::Send(t, c) = start_group(s, g) {
        assert forall|h: FileGroup| #[trigger] is_optional(h) implies if group_rank(h)
            < phase_rank(t.phase) {
            group_settled(t, h)
        } else {
            group_pending(t, h)
        } by {
            assert(is_optional(h));
        }
    }
}

/// Moves past the group `g`; the groups that are skipped are the ones the
/// caller did not ask for, and they stay `NotRequested`.
proof fn lemma_after_group(s: ReadState, g: FileGroup)
    requires
        s.phase is ReadChunk ==> s.file.len() < s.total,
        phase_position(s.phase) <= 5 + 3 * group_rank(g),
        s.total <= MAX_FILE_LENGTH,
        done_below(s, group_rank(g) + 1),
    ensures
        step_valid(s, after_group(s, g)),
{
    reveal(after_group);
    assert(is_optional(FileGroup::Photo) && is_optional(FileGroup::Modifiable) && is_optional(
        FileGroup::Signature,
    ));
    match g {
        FileGroup::Identity => lemma_start_group(s, FileGroup::NonModifiable),
        FileGroup::NonModifiable => {
            if s.options.photo {
                lemma_start_group(s, FileGroup::Photo);
            } else if s.options.modifiable_data {
                lemma_start_group(s, FileGroup::Modifiable);
            } else if s.options.holder_signature_image {
                lemma_start_group(s, FileGroup::Signature);
            } else {
                lemma_finish_read(s);
            }
        },
        FileGroup::Photo => {
            if s.options.modifiable_data {
                lemma_start_group(s, FileGroup::Modifiable);
            } else if s.options.holder_signature_image {
                lemma_start_group(s, FileGroup::Signature);
            } else {
                lemma_finish_read(s);
            }
        },
        FileGroup::Modifiable => {
            if s.options.holder_signature_image {
                lemma_start_group(s, FileGroup::Signature);
            } else {
                lemma_finish_read(s);
            }
        },
        FileGroup::Signature => lemma_finish_read(s),
    }
}

proof fn lemma_record_group(s: ReadState, g: FileGroup, status: DataGroupStatus, file: Option<Seq<u8>>)
    requires
        is_optional(g),
        requested(s.options, g),
        done_below(s, group_rank(g)),
        status != DataGroupStatus::NotRequested,
        file is Some <==> status == DataGroupStatus::Read,
    ensures
        done_below(record_group(s, g, status, file), group_rank(g) + 1),
        record_group(s, g, status, file).total == s.total,
        record_group(s, g, status, file).options == s.options,
        record_group(s, g, status, file).reader_name == s.reader_name,
        record_group(s, g, status, file).generation == s.generation,
{
    let t = record_group(s, g, status, file);
    assert forall|h: FileGroup| #[trigger] is_optional(h) implies if group_rank(h) < group_rank(g)
        + 1 {
        group_settled(t, h)
    } else {
        group_pending(t, h)
    } by {
        assert(is_optional(h));
    }
}

proof fn lemma_group_failed(s: ReadState, g: FileGroup, e: ErrorView)
    requires
        s.phase is ReadChunk ==> s.file.len() < s.total,
        phase_position(s.phase) <= 5 + 3 * group_rank(g),
        s.total <= MAX_FILE_LENGTH,
        requested(s.options, g),
        done_below(s, group_rank(g)),
    ensures
        step_valid(s, group_failed(s, g, e)),
{
    reveal(group_failed);
    if is_optional(g) && (e.status_word == Some(0x6982u16) || e.status_word == Some(0x6985u16)) {
        lemma_record_group(s, g, DataGroupStatus::Protected, None);
        lemma_after_group(record_group(s, g, DataGroupStatus::Protected, None), g);
    } else if is_optional(g) && (e.status_word == Some(0x6A82u16) || e.status_word == Some(
        0x6A83u16,
    )) {
        lemma_record_group(s, g, DataGroupStatus::NotAvailable, None);
        lemma_after_group(record_group(s, g, DataGroupStatus::NotAvailable, None), g);
    }
}

proof fn lemma_file_complete(s: ReadState, g: FileGroup, f: Seq<u8>)
    requires
        s.phase is ReadChunk ==> s.file.len() < s.total,
        phase_position(s.phase) <= 5 + 3 * group_rank(g),
        s.total <= MAX_FILE_LENGTH,
        requested(s.options, g),
        done_below(s, group_rank(g)),
    ensures
        step_valid(s, file_complete(s, g, f)),
{
    reveal(file_complete);
    match g {
        FileGroup::Identity => {
            if let Ok(id) = required_digits_spec(f, 0xE101, "ID number"@, 15) {
                if let Ok(card) = required_digits_spec(f, 0xE102, "card number"@, 9) {
                    let t = ReadState { id_number: id, card_number: card, ..s };
                    assert(forall|h: FileGroup| #[trigger]
                        is_optional(h) ==> group_status(t, h) == group_status(s, h)
                            && group_file(t, h) == group_file(s, h));
                    lemma_start_group(t, FileGroup::NonModifiable);
                }
            }
        },
        FileGroup::NonModifiable => {
            lemma_non_modifiable_dates_iso(f);
            if let Ok(nm) = decode_non_modifiable_spec(f) {
                let t = ReadState { non_modifiable: nm, ..s };
                assert(forall|h: FileGroup| #[trigger]
                    is_optional(h) ==> group_status(t, h) == group_status(s, h) && group_file(t, h)
                        == group_file(s, h));
                lemma_after_group(t, FileGroup::NonModifiable);
            }
        },
        _ => {
            lemma_record_group(s, g, DataGroupStatus::Read, Some(f));
            lemma_after_group(record_group(s, g, DataGroupStatus::Read, Some(f)), g);
        },
    }
}

proof fn lemma_file_progress(s: ReadState, g: FileGroup, data: Seq<u8>, total: nat)
    requires
        s.phase is ReadChunk ==> s.file.len() < s.total,
        s.phase == ReadPhase::ReadHeader(g) || (s.phase == ReadPhase::ReadChunk(g) && data.len()
            > s.file.len()),
        s.total <= MAX_FILE_LENGTH,
        total <= MAX_FILE_LENGTH,
        requested(s.options, g),
        done_below(s, group_rank(g)),
    ensures
        step_valid(s, file_progress(s, g, data, total)),
{
    reveal(file_progress);
    if data.len() >= total {
        lemma_file_complete(s, g, data.take(total as int));
    } else {
        let t = ReadState { phase: ReadPhase::ReadChunk(g), file: data, total, ..s };
        assert(forall|h: FileGroup| #[trigger]
            is_optional(h) ==> group_status(t, h) == group_status(s, h) && group_file(t, h)
                == group_file(s, h));
    }
}

/// The start of a read: the first command selects the application, and the
/// read invariant holds of the first state.
pub proof fn lemma_read_start(options: ReadOptions, reader_name: Seq<char>, generation: CardGeneration)
    ensures
        read_start(options, reader_name, generation) matches ReadOutcome::Send(t, c) && read_invariant(
            t,
        ) && c == read_command(t) && t.options == options && t.reader_name == reader_name
            && t.generation == generation,
{
    let t = initial_read_state(options, reader_name, generation);
    assert forall|h: FileGroup| #[trigger] is_optional(h) implies group_pending(t, h) by {
        assert(is_optional(h));
    }
}

/// Every decision of a read keeps the read invariant. So, whatever the card
/// replies: each command sent is the one its state names, and only the files
/// of required groups and of the optional groups the caller asked for are
/// ever selected; READ BINARY asks for 1 to [`CHUNK_LENGTH`] bytes at an
/// offset inside the announced file; and a read that succeeds yields a
/// snapshot that the builder accepts unchanged (identifiers of 15 and 9
/// digits, ISO dates, a JPEG photograph, no payload for groups not `Read`),
/// with both required groups `Read` and each optional group `NotRequested`
/// exactly when the caller did not ask for it. Each decision that asks for
/// another command lowers [`read_measure`], which stays positive, so every
/// read ends.
pub proof fn lemma_read_step(s: ReadState, reply: Result<Seq<u8>, ErrorView>)
    requires
        read_invariant(s),
    ensures
        read_measure(s) > 0,
        step_valid(s, read_step(s, reply)),
{
    reveal(read_step);
    match s.phase {
        ReadPhase::SelectApplication => {
            if reply is Ok {
                let t = ReadState { phase: ReadPhase::SelectDirectory, ..s };
                assert(forall|h: FileGroup| #[trigger]
                    is_optional(h) ==> group_status(t, h) == group_status(s, h) && group_file(t, h)
                        == group_file(s, h));
            }
        },
        ReadPhase::SelectDirectory => {
            if reply is Ok {
                lemma_start_group(s, FileGroup::Identity);
            } else {
                let t = ReadState { phase: ReadPhase::ReselectApplication, ..s };
                assert(forall|h: FileGroup| #[trigger]
                    is_optional(h) ==> group_status(t, h) == group_status(s, h) && group_file(t, h)
                        == group_file(s, h));
            }
        },
        ReadPhase::ReselectApplication => {
            if reply is Ok {
                lemma_start_group(s, FileGroup::Identity);
            }
        },
        ReadPhase::SelectFile(g) => {
            match reply {
                Err(e) => lemma_group_failed(s, g, e),
                Ok(_) => {
                    let t = ReadState { phase: ReadPhase::ReadHeader(g), ..s };
                    assert(forall|h: FileGroup| #[trigger]
                        is_optional(h) ==> group_status(t, h) == group_status(s, h) && group_file(
                            t,
                            h,
                        ) == group_file(s, h));
                },
            }
        },
        ReadPhase::ReadHeader(g) => {
            match reply {
                Err(e) => lemma_group_failed(s, g, e),
                Ok(data) => {
                    if data.len() < 4 {
                        lemma_group_failed(s, g, header_truncated_error());
                    } else if 4 + be16(data[2], data[3]) > MAX_FILE_LENGTH {
                        lemma_group_failed(
                            s,
                            g,
                            file_too_long_error((4 + be16(data[2], data[3])) as nat),
                        );
                    } else {
                        lemma_file_progress(s, g, data, (4 + be16(data[2], data[3])) as nat);
                    }
                },
            }
        },
        ReadPhase::ReadChunk(g) => {
            match reply {
                Err(e) => lemma_group_failed(s, g, e),
                Ok(chunk) => {
                    if chunk.len() == 0 {
                        lemma_group_failed(s, g, empty_chunk_error());
                    } else {
                        lemma_file_progress(s, g, s.file + chunk, s.total);
                    }
                },
            }
        },
    }
}

/// The card requires authentication or secure messaging: `6982` or `6985`.
pub open spec fn is_protected_error(e: ErrorView) -> bool {
    e.status_word == Some(0x6982u16) || e.status_word == Some(0x6985u16)
}

/// The card reports the file or application absent: `6A82` or `6A83`.
pub open spec fn is_absent_error(e: ErrorView) -> bool {
    e.status_word == Some(0x6A82u16) || e.status_word == Some(0x6A83u16)
}

/// How a read answers a failed command. Selecting or reading a file of a
/// required group never degrades: the read ends with that very error. For an
/// optional group, a protected file is recorded as `Protected` and an absent
/// one as `NotAvailable`, and the read goes on past the group; any other
/// failure ends the read with it. A failure to select the application ends
/// the read, and the public directory falls back to selecting the
/// application again only when the card reports it absent.
pub proof fn lemma_read_failure(s: ReadState, e: ErrorView)
    ensures
        (s.phase is SelectApplication || s.phase is ReselectApplication) ==> read_step(
            s,
            Err(e),
        ) == ReadOutcome::Done(Err(e)),
        s.phase is SelectDirectory ==> read_step(s, Err(e)) == if is_absent_error(e) {
            ReadOutcome::Send(
                ReadState { phase: ReadPhase::ReselectApplication, ..s },
                select_application_command(),
            )
        } else {
            ReadOutcome::Done(Err(e))
        },
        phase_group(s.phase) matches Some(g) ==> read_step(s, Err(e)) == if is_optional(g)
            && is_protected_error(e) {
            after_group(record_group(s, g, DataGroupStatus::Protected, None), g)
        } else if is_optional(g) && is_absent_error(e) {
            after_group(record_group(s, g, DataGroupStatus::NotAvailable, None), g)
        } else {
            ReadOutcome::Done(Err(e))
        },
{
    reveal(read_step);
    reveal(group_failed);
}

/// The read state `s` with the card generation `g` in place of its own.
pub open spec fn with_generation(s: ReadState, g: CardGeneration) -> ReadState {
    ReadState { generation: g, ..s }
}

/// The outcome `o` with the card generation `g` in place of its own: in the
/// next state of a read, or in the snapshot a read yields.
pub open spec fn outcome_with_generation(o: ReadOutcome, g: CardGeneration) -> ReadOutcome {
    match o {
        ReadOutcome::Send(t, c) => ReadOutcome::Send(with_generation(t, g), c),
        ReadOutcome::Done(Ok(d)) => ReadOutcome::Done(Ok(EmiratesIdView { card_generation: g, ..d })),
        ReadOutcome::Done(Err(e)) => ReadOutcome::Done(Err(e)),
    }
}

proof fn lemma_finish_read_generation(s: ReadState, g: CardGeneration)
    ensures
        finish_read(with_generation(s, g)) == outcome_with_generation(finish_read(s), g),
{
    reveal(finish_read);
}

proof fn lemma_after_group_generation(s: ReadState, group: FileGroup, g: CardGeneration)
    ensures
        after_group(with_generation(s, g), group) == outcome_with_generation(after_group(s, group), g),
{
    reveal(after_group);
    lemma_finish_read_generation(s, g);
}

proof fn lemma_group_failed_generation(s: ReadState, group: FileGroup, e: ErrorView, g: CardGeneration)
    ensures
        group_failed(with_generation(s, g), group, e) == outcome_with_generation(
            group_failed(s, group, e),
            g,
        ),
{
    reveal(group_failed);
    let protected = record_group(s, group, DataGroupStatus::Protected, None);
    let absent = record_group(s, group, DataGroupStatus::NotAvailable, None);
    assert(record_group(with_generation(s, g), group, DataGroupStatus::Protected, None)
        == with_generation(protected, g));
    assert(record_group(with_generation(s, g), group, DataGroupStatus::NotAvailable, None)
        == with_generation(absent, g));
    lemma_after_group_generation(protected, group, g);
    lemma_after_group_generation(absent, group, g);
}

proof fn lemma_file_complete_generation(s: ReadState, group: FileGroup, f: Seq<u8>, g: CardGeneration)
    ensures
        file_complete(with_generation(s, g), group, f) == outcome_with_generation(
            file_complete(s, group, f),
            g,
        ),
{
    reveal(file_complete);
    match group {
        FileGroup::Identity => {},
        FileGroup::NonModifiable => {
            if let Ok(nm) = decode_non_modifiable_spec(f) {
                let t = ReadState { non_modifiable: nm, ..s };
                assert(ReadState { non_modifiable: nm, ..with_generation(s, g) } == with_generation(
                    t,
                    g,
                ));
                lemma_after_group_generation(t, FileGroup::NonModifiable, g);
            }
        },
        _ => {
            let t = record_group(s, group, DataGroupStatus::Read, Some(f));
            assert(record_group(with_generation(s, g), group, DataGroupStatus::Read, Some(f))
                == with_generation(t, g));
            lemma_after_group_generation(t, group, g);
        },
    }
}

proof fn lemma_file_progress_generation(
    s: ReadState,
    group: FileGroup,
    data: Seq<u8>,
    total: nat,
    g: CardGeneration,
)
    ensures
        file_progress(with_generation(s, g), group, data, total) == outcome_with_generation(
            file_progress(s, group, data, total),
            g,
        ),
{
    reveal(file_progress);
    lemma_file_complete_generation(s, group, data.take(total as int), g);
}

/// The card generation plays no part in a read's decisions: a read started
/// with another generation sends the same commands, fails with the same
/// errors, and yields the same snapshot but for its generation.
pub proof fn lemma_read_generation_independent(
    s: ReadState,
    reply: Result<Seq<u8>, ErrorView>,
    g: CardGeneration,
)
    ensures
        read_step(with_generation(s, g), reply) == outcome_with_generation(read_step(s, reply), g),
        read_start(s.options, s.reader_name, g) == outcome_with_generation(
            read_start(s.options, s.reader_name, s.generation),
            g,
        ),
{
    reveal(read_step);
    match s.phase {
        ReadPhase::SelectFile(group) => {
            if let Err(e) = reply {
                lemma_group_failed_generation(s, group, e, g);
            }
        },
        ReadPhase::ReadHeader(group) => {
            match reply {
                Err(e) => lemma_group_failed_generation(s, group, e, g),
                Ok(data) => {
                    lemma_group_failed_generation(s, group, header_truncated_error(), g);
                    if data.len() >= 4 {
                        lemma_group_failed_generation(
                            s,
                            group,
                            file_too_long_error((4 + be16(data[2], data[3])) as nat),
                            g,
                        );
                        lemma_file_progress_generation(
                            s,
                            group,
                            data,
                            (4 + be16(data[2], data[3])) as nat,
                            g,
                        );
                    }
                },
            }
        },
        ReadPhase::ReadChunk(group) => {
            match reply {
                Err(e) => lemma_group_failed_generation(s, group, e, g),
                Ok(chunk) => {
                    lemma_group_failed_generation(s, group, empty_chunk_error(), g);
                    lemma_file_progress_generation(s, group, s.file + chunk, s.total, g);
                },
            }
        },
        _ => {},
    }
}

/// The first READ BINARY reply of a file carries its header: the file is
/// `4 + (data[2] * 256 + data[3])` bytes long, and the reply's bytes are the
/// start of the file. A file already complete is passed on cut to its
/// length; otherwise the rest is asked for from where the reply ends.
pub proof fn lemma_header_reply(s: ReadState, g: FileGroup, data: Seq<u8>)
    requires
        s.phase == ReadPhase::ReadHeader(g),
        data.len() >= 4,
        4 + data[2] as int * 256 + data[3] as int <= MAX_FILE_LENGTH,
    ensures
        ({
            let total = 4 + data[2] as int * 256 + data[3] as int;
            read_step(s, Ok(data)) == if data.len() >= total {
                file_complete(s, g, data.take(total))
            } else {
                ReadOutcome::Send(
                    ReadState { phase: ReadPhase::ReadChunk(g), file: data, total: total as nat, ..s },
                    read_binary_command(
                        data.len(),
                        if total - data.len() < 0xFD {
                            (total - data.len()) as nat
                        } else {
                            0xFD
                        },
                    ),
                )
            }
        }),
{
    reveal(read_step);
    reveal(file_progress);
}

/// Each further READ BINARY reply is appended once to the bytes in hand: the
/// next chunk is asked for at the offset where they end, and a file that is
/// now complete is passed on as exactly the bytes read, in order, cut to the
/// announced length.
pub proof fn lemma_chunk_reply(s: ReadState, g: FileGroup, chunk: Seq<u8>)
    requires
        s.phase == ReadPhase::ReadChunk(g),
        s.total <= MAX_FILE_LENGTH,
        chunk.len() > 0,
    ensures
        s.file.len() + chunk.len() >= s.total ==> read_step(s, Ok(chunk)) == file_complete(
            s,
            g,
            (s.file + chunk).take(s.total as int),
        ),
        s.file.len() + chunk.len() < s.total ==> read_step(s, Ok(chunk)) == ReadOutcome::Send(
            ReadState { file: s.file + chunk, ..s },
            read_binary_command(
                s.file.len() + chunk.len(),
                if s.total - (s.file.len() + chunk.len()) < 0xFD {
                    (s.total - (s.file.len() + chunk.len())) as nat
                } else {
                    0xFD
                },
            ),
        ),
{
    reveal(read_step);
    reveal(file_progress);
    assert((s.file + chunk).len() == s.file.len() + chunk.len());
}

/// A complete file of an optional group is kept, byte for byte, as the
/// group's file, and the group is recorded as `Read`.
pub proof fn lemma_optional_file_kept(s: ReadState, g: FileGroup, f: Seq<u8>)
    requires
        is_optional(g),
    ensures
        file_complete(s, g, f) == after_group(
            record_group(s, g, DataGroupStatus::Read, Some(f)),
            g,
        ),
        group_file(record_group(s, g, DataGroupStatus::Read, Some(f)), g) == Some(f),
        group_status(record_group(s, g, DataGroupStatus::Read, Some(f)), g) == DataGroupStatus::Read,
{
    reveal(file_complete);
}

/// The identifiers come from the identity file: the ID number is the text of
/// tag `E101` and the card number that of tag `E102`.
pub proof fn lemma_identifiers_from_file(s: ReadState, f: Seq<u8>)
    ensures
        file_complete(s, FileGroup::Identity, f) matches ReadOutcome::Send(t, _) ==> (text_spec(
            f,
            0xE101,
        ) == Ok::<Option<Seq<char>>, ErrorView>(Some(t.id_number)) && text_spec(f, 0xE102) == Ok::<
            Option<Seq<char>>,
            ErrorView,
        >(Some(t.card_number)) && t.id_number.len() == 15 && t.card_number.len() == 9),
{
    reveal(file_complete);
}

/// A snapshot's photograph is the non-empty value of tag `6203` in the
/// photograph file read from the card, and its signature image the non-empty
/// value of tag `6732` in the signature file; each is present exactly when
/// such a value was read.
pub proof fn lemma_images_from_files(s: ReadState)
    ensures
        finish_read(s) matches ReadOutcome::Done(Ok(d)) ==> ({
            &&& (d.photo_jpeg matches Some(p) ==> (s.photo_file matches Some(f) && field_spec(
                f,
                0x6203,
            ) == Ok::<Option<Seq<u8>>, ErrorView>(Some(p)) && p.len() > 0))
            &&& (s.photo_file matches Some(f) ==> (field_spec(f, 0x6203) matches Ok(Some(p))
                ==> (p.len() > 0 ==> d.photo_jpeg == Some(p))))
            &&& (d.holder_signature_image matches Some(p) ==> (s.signature_file matches Some(f)
                && field_spec(f, 0x6732) == Ok::<Option<Seq<u8>>, ErrorView>(Some(p)) && p.len()
                > 0))
            &&& (s.signature_file matches Some(f) ==> (field_spec(f, 0x6732) matches Ok(Some(p))
                ==> (p.len() > 0 ==> d.holder_signature_image == Some(p))))
        }),
{
    reveal(finish_read);
    reveal(image_field_spec);
}

/// READ BINARY names its offset big-endian in its third and fourth bytes and
/// its length in its fifth; SELECT names the file big-endian in its sixth and
/// seventh bytes.
pub proof fn lemma_command_encoding(offset: nat, length: nat, id: u16)
    requires
        offset < 0x8000,
        length < 256,
    ensures
        read_binary_command(offset, length).len() == 5,
        read_binary_command(offset, length)[0] == 0x00 && read_binary_command(offset, length)[1]
            == 0xB0,
        read_binary_command(offset, length)[2] as int * 256 + read_binary_command(offset, length)[3]
            as int == offset,
        read_binary_command(offset, length)[4] as int == length,
        select_file_command(id).len() == 8,
        select_file_command(id)[1] == 0xA4 && select_file_command(id)[2] == 0x00,
        select_file_command(id)[5] as int * 256 + select_file_command(id)[6] as int == id as int,
{
}

/// The files of the groups: identity `0201`, photograph `0202`, core identity
/// `0203`, extended data `0205`, signature image `0207`; the public directory
/// is `0200`.
pub proof fn lemma_group_files()
    ensures
        file_id(FileGroup::Identity) == 0x0201,
        file_id(FileGroup::Photo) == 0x0202,
        file_id(FileGroup::NonModifiable) == 0x0203,
        file_id(FileGroup::Modifiable) == 0x0205,
        file_id(FileGroup::Signature) == 0x0207,
        PUBLIC_DATA_DIRECTORY == 0x0200,
        MAX_FILE_LENGTH == 16384,
        CHUNK_LENGTH == 253,
{
}

/// A header announcing a file longer than 16 KiB is refused as invalid data,
/// and a first reply too short to hold the header is refused too.
pub proof fn lemma_header_limits(s: ReadState, g: FileGroup, data: Seq<u8>)
    requires
        s.phase == ReadPhase::ReadHeader(g),
    ensures
        data.len() < 4 ==> read_step(s, Ok(data)) == group_failed(s, g, header_truncated_error()),
        data.len() >= 4 && 4 + data[2] as int * 256 + data[3] as int > 16384 ==> read_step(
            s,
            Ok(data),
        ) == group_failed(s, g, file_too_long_error((4 + data[2] as int * 256 + data[3] as int) as nat)),
        !is_optional(g) ==> group_failed(s, g, header_truncated_error()) == ReadOutcome::Done(
            Err(header_truncated_error()),
        ),
{
    reveal(read_step);
    reveal(group_failed);
}

} // verus!
