//! The calls into other crates and into parts of `std` that carry a contract
//! Verus believes: what each one returns is stated here and proved nowhere.
use vstd::prelude::*;
use vstd::string::*;
use vstd::utf8::decode_utf8;
use vstd::utf8::valid_utf8;

verus! {

/// What stands under a key in a JSON value.
#[derive(Debug)]
pub enum JsonMember {
    /// Nothing: the value is no object, or has no such member.
    Absent,
    /// A string.
    Text(String),
    /// Something that is no string.
    Other,
}

/// A [`JsonMember`] with its text as characters.
pub enum JsonMemberView {
    Absent,
    Text(Seq<char>),
    Other,
}

impl View for JsonMember {
    type V = JsonMemberView;

    open spec fn view(&self) -> JsonMemberView {
        match self {
            JsonMember::Absent => JsonMemberView::Absent,
            JsonMember::Text(text) => JsonMemberView::Text(text@),
            JsonMember::Other => JsonMemberView::Other,
        }
    }
}

/// What `serde_json` finds under `key` in the JSON `text`, or what it says of a
/// text that is not JSON.
pub uninterp spec fn json_member(text: Seq<char>, key: Seq<char>) -> Result<
    JsonMemberView,
    Seq<char>,
>;

/// Parses `text` with `serde_json::from_str` and looks under `key` with
/// `Value::get`.
///
/// Trusted: the outcome depends on `text` and `key` alone, and [`json_member`]
/// names it, the message of a failed parse as well. What JSON is, and what a text
/// holds, is left to `serde_json`.
#[verifier::external_body]
pub(crate) fn find_json_member(text: &str, key: &str) -> (r: Result<JsonMember, String>)
    ensures
        match r {
            Ok(member) => json_member(text@, key@) == Ok::<JsonMemberView, Seq<char>>(member@),
            Err(cause) => json_member(text@, key@) == Err::<JsonMemberView, Seq<char>>(cause@),
        },
{
    match serde_json::from_str::<serde_json::Value>(text) {
        Ok(value) => Ok(match value.get(key) {
            None => JsonMember::Absent,
            Some(serde_json::Value::String(found)) => JsonMember::Text(found.clone()),
            Some(_) => JsonMember::Other,
        }),
        Err(error) => Err(error.to_string()),
    }
}

/// The SHA-256 digest of `bytes`, as `sha2` computes it.
pub uninterp spec fn sha256(bytes: Seq<u8>) -> Seq<u8>;

/// Hashes `bytes` with `sha2::Sha256::digest`.
///
/// Trusted: the digest depends on `bytes` alone, [`sha256`] names it, and it
/// is 32 bytes long. Inputs whose length in bits does not fit the hash's own
/// 64-bit counter are left out.
#[verifier::external_body]
pub(crate) fn sha256_digest(bytes: &[u8]) -> (r: Vec<u8>)
    requires
        bytes@.len() < 0x2000_0000_0000_0000,
    ensures
        r@ == sha256(bytes@),
        r@.len() == 32,
{
    <sha2::Sha256 as sha2::Digest>::digest(bytes).to_vec()
}

/// The lower-case hexadecimal digit for `d`.
pub open spec fn hex_digit(d: int) -> char {
    if d == 0 {
        '0'
    } else if d == 1 {
        '1'
    } else if d == 2 {
        '2'
    } else if d == 3 {
        '3'
    } else if d == 4 {
        '4'
    } else if d == 5 {
        '5'
    } else if d == 6 {
        '6'
    } else if d == 7 {
        '7'
    } else if d == 8 {
        '8'
    } else if d == 9 {
        '9'
    } else if d == 10 {
        'a'
    } else if d == 11 {
        'b'
    } else if d == 12 {
        'c'
    } else if d == 13 {
        'd'
    } else if d == 14 {
        'e'
    } else {
        'f'
    }
}

/// `bytes` in hexadecimal: two lower-case digits for each byte, the high one
/// first.
pub open spec fn hex_text(bytes: Seq<u8>) -> Seq<char> {
    Seq::new(
        2 * bytes.len(),
        |i: int|
            if i % 2 == 0 {
                hex_digit(bytes[i / 2] as int / 16)
            } else {
                hex_digit(bytes[i / 2] as int % 16)
            },
    )
}

/// Writes `bytes` in hexadecimal with `hex::encode`.
///
/// Trusted: the text is two lower-case digits for each byte, the high one
/// first.
#[verifier::external_body]
pub(crate) fn hex_encode(bytes: &[u8]) -> (r: String)
    requires
        2 * bytes@.len() <= isize::MAX,
    ensures
        r@ == hex_text(bytes@),
{
    hex::encode(bytes)
}

/// The path that `std::path::Path::with_file_name` gives for `path` and `name`.
pub uninterp spec fn path_with_file_name(path: Seq<char>, name: Seq<char>) -> Seq<char>;

/// Whether `name` is the name of a file: not empty, without a separator, and
/// neither of the two names that stand for directories.
pub open spec fn is_file_name(name: Seq<char>) -> bool {
    &&& name.len() > 0
    &&& !name.contains('/')
    &&& name != seq!['.']
    &&& name != seq!['.', '.']
}

/// Whether `directory` is an absolute path below the root that is written
/// without a separator at its end, without doubled separators, and without a
/// component `.`.
pub open spec fn is_plain_directory(directory: Seq<char>) -> bool {
    &&& directory.len() > 1
    &&& directory[0] == '/'
    &&& directory.last() != '/'
    &&& forall|i: int|
        #![trigger directory[i]]
        0 <= i < directory.len() - 1 && directory[i] == '/' ==> {
            &&& directory[i + 1] != '/'
            &&& directory[i + 1] == '.' ==> i + 2 < directory.len() && directory[i + 2] != '/'
        }
}

/// Replaces the file name of `path` by `name`, with
/// `std::path::Path::with_file_name`.
///
/// Trusted: the path depends on `path` and `name` alone and
/// [`path_with_file_name`] names it; and where `path` is a file name in a
/// plainly written absolute directory, the result is `name` in that directory.
#[verifier::external_body]
pub(crate) fn with_file_name(path: &str, name: &str) -> (r: String)
    ensures
        r@ == path_with_file_name(path@, name@),
        forall|directory: Seq<char>, file: Seq<char>|
            is_plain_directory(directory) && is_file_name(file) && is_file_name(name@) && path@
                == #[trigger] (directory + (seq!['/'] + file)) ==> r@ == directory + (seq!['/'] + name@),
{
    std::path::Path::new(path).with_file_name(name).to_string_lossy().into_owned()
}

/// The text that `String::from_utf8_lossy` makes of `bytes` that are not valid
/// UTF-8.
pub uninterp spec fn replaced_text(bytes: Seq<u8>) -> Seq<char>;

/// The text that `bytes` are shown as, whatever they are.
pub open spec fn lossy_text(bytes: Seq<u8>) -> Seq<char> {
    if valid_utf8(bytes) {
        decode_utf8(bytes)
    } else {
        replaced_text(bytes)
    }
}

/// Decodes `bytes` with `String::from_utf8_lossy`.
///
/// Trusted: valid UTF-8 is decoded as it stands; other input is decoded to a
/// text that depends on `bytes` alone, where [`replaced_text`] names it. Where
/// replacement characters go is left to `std`.
#[verifier::external_body]
pub(crate) fn decode_lossy(bytes: &[u8]) -> (r: String)
    ensures
        valid_utf8(bytes@) ==> r@ == decode_utf8(bytes@),
        !valid_utf8(bytes@) ==> r@ == replaced_text(bytes@),
{
    String::from_utf8_lossy(bytes).into_owned()
}

/// What `std` says of `bytes` that are not valid UTF-8.
pub uninterp spec fn utf8_fault(bytes: Seq<u8>) -> Seq<char>;

/// Decodes `bytes` with `String::from_utf8`.
///
/// Trusted: it succeeds exactly on valid UTF-8, with the text that the bytes
/// encode; and the error's message depends on the bytes alone, where
/// [`utf8_fault`] names it.
#[verifier::external_body]
pub(crate) fn decode_strict(bytes: Vec<u8>) -> (r: Result<String, String>)
    ensures
        r is Ok <==> valid_utf8(bytes@),
        r is Ok ==> r->Ok_0@ == decode_utf8(bytes@),
        r is Err ==> r->Err_0@ == utf8_fault(bytes@),
{
    match String::from_utf8(bytes) {
        Ok(text) => Ok(text),
        Err(error) => Err(error.to_string()),
    }
}

/// The error that `base64` reports for text that is not Base64.
#[verifier::external_type_specification]
#[verifier::external_body]
pub struct ExBase64Error(base64::DecodeError);

/// The Base64 text of `bytes`, as `base64` writes it with the standard
/// alphabet and padding.
pub uninterp spec fn base64_text(bytes: Seq<u8>) -> Seq<char>;

/// The bytes that `base64` reads from `text`, where it is Base64 with the
/// standard alphabet and padding.
pub uninterp spec fn base64_bytes(text: Seq<char>) -> Option<Seq<u8>>;

/// Whether the Base64 text of `count` bytes fits an allocation: four characters
/// for every three bytes, or for what is left of three.
pub open spec fn is_encodable(count: nat) -> bool {
    4 * ((count + 2) / 3) <= isize::MAX
}

/// Writes `bytes` in Base64 with `base64`'s `STANDARD` engine.
///
/// Trusted: the text depends on `bytes` alone, [`base64_text`] names it, and
/// decoding it gives `bytes` back. Inputs whose text would not fit an
/// allocation are left out.
#[verifier::external_body]
pub(crate) fn base64_encode(bytes: &[u8]) -> (r: String)
    requires
        is_encodable(bytes@.len()),
    ensures
        r@ == base64_text(bytes@),
        base64_bytes(r@) == Some(bytes@),
{
    base64::Engine::encode(&base64::engine::general_purpose::STANDARD, bytes)
}

/// Reads Base64 with `base64`'s `STANDARD` engine.
///
/// Trusted: the outcome depends on `text` alone, [`base64_bytes`] names it, and
/// the text of any bytes decodes to them.
#[verifier::external_body]
pub(crate) fn base64_decode(text: &str) -> (r: Result<Vec<u8>, base64::DecodeError>)
    ensures
        r is Ok <==> base64_bytes(text@) is Some,
        r is Ok ==> base64_bytes(text@) == Some(r->Ok_0@),
        forall|bytes: Seq<u8>|
            is_encodable(bytes.len()) && text@ == #[trigger] base64_text(bytes) ==> r is Ok
                && r->Ok_0@ == bytes,
{
    base64::Engine::decode(&base64::engine::general_purpose::STANDARD, text)
}

/// A gzip stream that `flate2::write::GzEncoder` makes in memory.
///
/// Trusted: nothing by itself. It is opaque here, and what the calls below do to
/// it is stated over [`gzip_input`] and [`gzip_output`].
#[verifier::external_body]
#[derive(Debug)]
pub struct GzipStream {
    encoder: flate2::write::GzEncoder<Vec<u8>>,
}

/// The bytes that were written to `stream` so far.
pub uninterp spec fn gzip_input(stream: GzipStream) -> Seq<u8>;

/// The compressed bytes that were taken out of `stream` so far.
pub uninterp spec fn gzip_output(stream: GzipStream) -> Seq<u8>;

/// What `flate2` says against writing `bytes` to `stream`: `None` where it takes
/// them.
pub uninterp spec fn gzip_write_fault(stream: GzipStream, bytes: Seq<u8>) -> Option<Seq<char>>;

/// What `flate2` says against ending `stream`: `None` where it ends it.
pub uninterp spec fn gzip_finish_fault(stream: GzipStream) -> Option<Seq<char>>;

/// The bytes that `flate2` reads from the gzip stream at the start of `bytes`,
/// where that is a complete one.
pub uninterp spec fn gunzipped(bytes: Seq<u8>) -> Option<Seq<u8>>;

/// Starts a stream with `flate2::write::GzEncoder::new`, at the fastest level.
///
/// Trusted: nothing has been written to the stream or taken out of it.
#[verifier::external_body]
pub(crate) fn gzip_new() -> (r: GzipStream)
    ensures
        gzip_input(r) == Seq::<u8>::empty(),
        gzip_output(r) == Seq::<u8>::empty(),
{
    let encoder = flate2::write::GzEncoder::new(Vec::new(), flate2::Compression::fast());
    GzipStream { encoder }
}

/// Writes `bytes` to the stream with the encoder's `write_all`, and takes the
/// compressed bytes that are there out of it through `get_mut`.
///
/// Trusted: whether it succeeds, and with which message it fails, depends on the
/// stream and on `bytes` alone, where [`gzip_write_fault`] names it. Where it
/// succeeds, the stream has the bytes behind those it had, and what is returned
/// has been taken out of it. How much is returned for which bytes is left to
/// `flate2`.
#[verifier::external_body]
pub(crate) fn gzip_write(stream: &mut GzipStream, bytes: &[u8]) -> (r: Result<Vec<u8>, String>)
    ensures
        r is Ok <==> gzip_write_fault(*old(stream), bytes@) is None,
        r is Err ==> gzip_write_fault(*old(stream), bytes@) == Some(r->Err_0@),
        r is Ok ==> gzip_input(*final(stream)) == gzip_input(*old(stream)) + bytes@,
        r is Ok ==> gzip_output(*final(stream)) == gzip_output(*old(stream)) + r->Ok_0@,
{
    match std::io::Write::write_all(&mut stream.encoder, bytes) {
        Ok(()) => Ok(std::mem::take(stream.encoder.get_mut())),
        Err(error) => Err(error.to_string()),
    }
}

/// Ends the stream with `flate2::write::GzEncoder::finish`.
///
/// Trusted: whether it succeeds, and with which message it fails, depends on the
/// stream alone, where [`gzip_finish_fault`] names it. Where it succeeds, what
/// was taken out of the stream, with what is returned behind it, is a complete
/// gzip stream from which `flate2` reads what was written.
#[verifier::external_body]
pub(crate) fn gzip_finish(stream: GzipStream) -> (r: Result<Vec<u8>, String>)
    ensures
        r is Ok <==> gzip_finish_fault(stream) is None,
        r is Err ==> gzip_finish_fault(stream) == Some(r->Err_0@),
        r is Ok ==> gunzipped(gzip_output(stream) + r->Ok_0@) == Some(gzip_input(stream)),
{
    match stream.encoder.finish() {
        Ok(rest) => Ok(rest),
        Err(error) => Err(error.to_string()),
    }
}

/// Reads the gzip stream at the start of `bytes` with
/// `flate2::read::GzDecoder`.
///
/// Trusted: the outcome depends on `bytes` alone, and [`gunzipped`] names it. Why
/// a stream cannot be read is left out.
#[verifier::external_body]
pub(crate) fn gunzip(bytes: &[u8]) -> (r: Option<Vec<u8>>)
    ensures
        r is Some <==> gunzipped(bytes@) is Some,
        r is Some ==> gunzipped(bytes@) == Some(r->0@),
{
    let mut contents = Vec::new();
    match std::io::Read::read_to_end(&mut flate2::read::GzDecoder::new(bytes), &mut contents) {
        Ok(_) => Some(contents),
        Err(_) => None,
    }
}

/// Bytes that are text are shown as that text, whatever they are; others are shown
/// as what stands for them.
pub proof fn law_text_is_shown_as_it_is(bytes: Seq<u8>)
    ensures
        valid_utf8(bytes) ==> lossy_text(bytes) == decode_utf8(bytes),
        !valid_utf8(bytes) ==> lossy_text(bytes) == replaced_text(bytes),
{
}

} // verus!
