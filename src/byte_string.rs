//! Raw text fields and the policy that turns them into strings.
use vstd::prelude::*;

use crate::error::Error;
use crate::io::{get_bytes, push_all, read_bytes, ByteReader};

verus! {

/// What `String::from_utf8` gives for these bytes: the characters when the
/// bytes are well-formed UTF-8, nothing otherwise.
pub uninterp spec fn utf8_text(b: Seq<u8>) -> Option<Seq<char>>;

/// What the Windows-1252 decoder of `encoding_rs` gives for these bytes.
pub uninterp spec fn windows_1252_text(b: Seq<u8>) -> Seq<char>;

/// The text of a field: its UTF-8 reading where the bytes are UTF-8, its
/// Windows-1252 reading otherwise.
pub open spec fn text_of(b: Seq<u8>) -> Seq<char> {
    match utf8_text(b) {
        Some(s) => s,
        None => windows_1252_text(b),
    }
}

/// What the `Debug` format of `str` gives for this text: the text quoted,
/// with escapes.
pub uninterp spec fn debug_quoted(s: Seq<char>) -> Seq<char>;

/// Relies on `String::from_utf8`: it accepts exactly the well-formed UTF-8
/// byte sequences; ASCII bytes are each their own character.
#[verifier::external_body]
fn utf8_decode(b: &[u8]) -> (r: Option<String>)
    ensures
        match r {
            Some(s) => utf8_text(b@) == Some(s@),
            None => utf8_text(b@) is None,
        },
        (forall|i: int| 0 <= i < b@.len() ==> b@[i] < 0x80) ==> r is Some && r->Some_0@ == b@.map_values(
            |c: u8| c as char,
        ),
{
    String::from_utf8(b.to_vec()).ok()
}

/// Relies on the `Debug` format of `str` (`format!("{:?}", s)`), which
/// depends on the text alone.
#[verifier::external_body]
fn debug_str(s: &String) -> (r: String)
    ensures
        r@ == debug_quoted(s@),
{
    format!("{:?}", s.as_str())
}

/// The lowercase hexadecimal digit of `v`.
pub open spec fn hex_digit(v: u8) -> u8 {
    if v < 10 {
        (0x30 + v) as u8
    } else {
        (0x57 + v) as u8
    }
}

/// How the debug text shows one byte of a field that is not UTF-8: graphic
/// ASCII and space as themselves, anything else as `\xNN`.
pub open spec fn escape_byte(c: u8) -> Seq<u8> {
    if 0x20 <= c <= 0x7e {
        seq![c]
    } else {
        seq![0x5cu8, 0x78u8, hex_digit(c / 16), hex_digit(c % 16)]
    }
}

/// The escapes of all bytes, in order.
pub open spec fn escape_all(b: Seq<u8>) -> Seq<u8>
    decreases b.len(),
{
    if b.len() == 0 {
        Seq::empty()
    } else {
        escape_all(b.drop_last()) + escape_byte(b.last())
    }
}

/// The debug text of a field: the quoted text where it is UTF-8, else
/// `b"..."` with escapes.
pub open spec fn debug_text(b: Seq<u8>) -> Seq<char> {
    match utf8_text(b) {
        Some(s) => debug_quoted(s),
        None => (seq![0x62u8, 0x22u8] + escape_all(b) + seq![0x22u8]).map_values(|c: u8| c as char),
    }
}

/// Relies on `encoding_rs::WINDOWS_1252.decode`: the decoded text depends on
/// the bytes alone, and no bytes give no text.
#[verifier::external_body]
fn windows_1252_decode(b: &[u8]) -> (r: String)
    ensures
        r@ == windows_1252_text(b@),
        b@.len() == 0 ==> r@.len() == 0,
{
    encoding_rs::WINDOWS_1252.decode(b).0.into_owned()
}

/// The raw bytes of a text field, in whatever encoding the file used.
#[derive(Debug, Clone, PartialEq, Eq)]
pub struct ByteString(pub Vec<u8>);

impl View for ByteString {
    type V = Seq<u8>;

    open spec fn view(&self) -> Seq<u8> {
        self.0@
    }
}

impl ByteString {
    /// Wraps a byte vector.
    pub fn new(bytes: Vec<u8>) -> (r: ByteString)
        ensures
            r@ == bytes@,
    {
        ByteString(bytes)
    }

    /// Reads `len` bytes.
    pub fn read(reader: &mut ByteReader, len: usize) -> (r: Result<ByteString, Error>)
        ensures
            final(reader).bytes() == old(reader).bytes(),
            match r {
                Ok(s) => old(reader).has(len as int) && s@ == old(reader).ahead(len as int)
                    && final(reader).pos() == old(reader).pos() + len,
                Err(e) => !old(reader).has(len as int) && e == Error::UnexpectedEof
                    && final(reader).pos() == old(reader).pos(),
            },
    {
        let bytes = read_bytes(reader, len)?;
        Ok(ByteString(bytes))
    }

    /// Appends the bytes to `out` and returns how many there were.
    pub fn write(&self, out: &mut Vec<u8>) -> (r: Result<usize, Error>)
        ensures
            final(out)@ == old(out)@ + self@,
            r == Ok::<usize, Error>(self@.len() as usize),
    {
        push_all(out, &self.0);
        Ok(self.0.len())
    }

    /// A copy with the same bytes.
    pub fn duplicate(&self) -> (r: ByteString)
        ensures
            r@ == self@,
    {
        ByteString(get_bytes(&self.0, 0, self.0.len()))
    }

    /// The bytes.
    pub fn as_bytes(&self) -> (r: &[u8])
        ensures
            r@ == self@,
    {
        self.0.as_slice()
    }

    /// The number of bytes.
    pub fn len(&self) -> (r: usize)
        ensures
            r == self@.len(),
    {
        self.0.len()
    }

    /// Gives the byte vector back.
    pub fn into_bytes(self) -> (r: Vec<u8>)
        ensures
            r@ == self@,
    {
        self.0
    }

    /// The text of the field: UTF-8 where the bytes are valid UTF-8, else
    /// Windows-1252. Never fails.
    pub fn decode(&self) -> (r: String)
        ensures
            r@ == text_of(self@),
            self@.len() == 0 ==> r@.len() == 0,
    {
        decode_string(self.0.as_slice())
    }

    /// A readable rendering of the bytes: the quoted text where they are
    /// UTF-8, else `b"..."` with non-printable bytes as `\xNN`.
    pub fn debug_string(&self) -> (r: String)
        ensures
            r@ == debug_text(self@),
    {
        match utf8_decode(self.0.as_slice()) {
            Some(s) => debug_str(&s),
            None => {
                let mut out: Vec<u8> = Vec::new();
                out.push(0x62);
                out.push(0x22);
                let mut i: usize = 0;
                while i < self.0.len()
                    invariant
                        i <= self@.len(),
                        out@ == seq![0x62u8, 0x22u8] + escape_all(self@.subrange(0, i as int)),
                        forall|k: int| 0 <= k < out@.len() ==> out@[k] < 0x80,
                    decreases self@.len() - i,
                {
                    let c = self.0[i];
                    let ghost before = out@;
                    if 0x20 <= c && c <= 0x7e {
                        out.push(c);
                    } else {
                        out.push(0x5c);
                        out.push(0x78);
                        out.push(hex(c / 16));
                        out.push(hex(c % 16));
                    }
                    i += 1;
                    assert(self@.subrange(0, i as int).drop_last() =~= self@.subrange(0, i - 1));
                    assert(out@ =~= seq![0x62u8, 0x22u8] + escape_all(self@.subrange(0, i as int)));
                }
                out.push(0x22);
                assert(self@.subrange(0, i as int) =~= self@);
                assert(out@ =~= seq![0x62u8, 0x22u8] + escape_all(self@) + seq![0x22u8]);
                match utf8_decode(out.as_slice()) {
                    Some(text) => text,
                    None => String::new(),
                }
            },
        }
    }
}

/// The lowercase hexadecimal digit of `v`.
fn hex(v: u8) -> (r: u8)
    requires
        v < 16,
    ensures
        r == hex_digit(v),
        r < 0x80,
{
    if v < 10 {
        0x30 + v
    } else {
        0x57 + v
    }
}

/// The text of a field: its UTF-8 reading where the bytes are UTF-8, else
/// its Windows-1252 reading. Never fails.
pub fn decode_string(bytes: &[u8]) -> (r: String)
    ensures
        r@ == text_of(bytes@),
        bytes@.len() == 0 ==> r@.len() == 0,
{
    match utf8_decode(bytes) {
        Some(s) => s,
        None => windows_1252_decode(bytes),
    }
}

/// Reads `len` bytes and decodes them as text (UTF-8, else Windows-1252).
pub fn read_string(reader: &mut ByteReader, len: usize) -> (r: Result<String, Error>)
    ensures
        final(reader).bytes() == old(reader).bytes(),
        match r {
            Ok(t) => old(reader).has(len as int) && t@ == text_of(old(reader).ahead(len as int))
                && final(reader).pos() == old(reader).pos() + len,
            Err(e) => !old(reader).has(len as int) && e == Error::UnexpectedEof,
        },
{
    match ByteString::read(reader, len) {
        Ok(b) => Ok(b.decode()),
        Err(e) => Err(e),
    }
}

impl From<Vec<u8>> for ByteString {
    fn from(bytes: Vec<u8>) -> (r: ByteString)
        ensures
            r@ == bytes@,
    {
        ByteString(bytes)
    }
}

impl vstd::std_specs::convert::FromSpecImpl<Vec<u8>> for ByteString {
    open spec fn obeys_from_spec() -> bool {
        true
    }

    open spec fn from_spec(v: Vec<u8>) -> ByteString {
        ByteString(v)
    }
}

} // verus!
