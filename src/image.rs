//! The decoded image of a microcode dump.
use vstd::prelude::*;
use vstd::string::StringSliceAdditionalSpecFns;
use crate::cursor::ByteCursor;
use crate::decode::{
    decode_ab_section, decode_c_section, decode_comment, decode_header, decode_pico_or_eof,
    decode_type_map, decode_version, spec_ab_section, spec_c_section, spec_comment, spec_header,
    spec_pico_or_eof, spec_type_map, spec_version,
};
use crate::format::{AddressedWord, ControlWord, FormatError, PicoStoreEntry, TAG_A_MEM, TAG_B_MEM};

verus! {

/// What a decoded image holds, as mathematical sequences.
pub struct ImageModel {
    pub version: u16,
    pub comment: Seq<u8>,
    pub a_mem: Seq<AddressedWord>,
    pub b_mem: Seq<AddressedWord>,
    pub c_mem: Seq<ControlWord>,
    pub type_map: Seq<u8>,
    pub pico_store: Seq<PicoStoreEntry>,
}

/// The sections of a whole dump, in their fixed order.
pub open spec fn spec_image(s: Seq<u8>) -> Result<ImageModel, FormatError> {
    match spec_header(s, 0) {
        Err(e) => Err(e),
        Ok(p1) => match spec_version(s, p1) {
            Err(e) => Err(e),
            Ok((version, p2)) => match spec_comment(s, p2) {
                Err(e) => Err(e),
                Ok((comment, p3)) => match spec_ab_section(s, p3, TAG_A_MEM) {
                    Err(e) => Err(e),
                    Ok((a_mem, p4)) => match spec_ab_section(s, p4, TAG_B_MEM) {
                        Err(e) => Err(e),
                        Ok((b_mem, p5)) => match spec_c_section(s, p5) {
                            Err(e) => Err(e),
                            Ok((c_mem, p6)) => match spec_type_map(s, p6) {
                                Err(e) => Err(e),
                                Ok((type_map, p7)) => match spec_pico_or_eof(s, p7) {
                                    Err(e) => Err(e),
                                    Ok((pico_store, _)) => Ok(
                                        ImageModel {
                                            version,
                                            comment,
                                            a_mem,
                                            b_mem,
                                            c_mem,
                                            type_map,
                                            pico_store,
                                        },
                                    ),
                                },
                            },
                        },
                    },
                },
            },
        },
    }
}

/// A decoded microcode image. It is only built by `decode`, and read-only
/// afterwards.
pub struct Microcode {
    source_path: String,
    version: u16,
    comment: Vec<u8>,
    a_mem: Vec<AddressedWord>,
    b_mem: Vec<AddressedWord>,
    c_mem: Vec<ControlWord>,
    type_map: Vec<u8>,
    pico_store: Vec<PicoStoreEntry>,
}

impl View for Microcode {
    type V = ImageModel;

    closed spec fn view(&self) -> ImageModel {
        ImageModel {
            version: self.version,
            comment: self.comment@,
            a_mem: self.a_mem@,
            b_mem: self.b_mem@,
            c_mem: self.c_mem@,
            type_map: self.type_map@,
            pico_store: self.pico_store@,
        }
    }
}

impl Microcode {
    /// Where the image was read from.
    pub closed spec fn spec_source_path(&self) -> Seq<char> {
        self.source_path@
    }

    /// Decodes a whole dump read from `source_path`. The first section that
    /// breaks its framing decides the error.
    pub fn decode(source_path: &str, data: &[u8]) -> (r: Result<Microcode, FormatError>)
        ensures
            match spec_image(data@) {
                Ok(m) => r matches Ok(image) && image@ == m && image.spec_source_path() == source_path@,
                Err(e) => r == Err::<Microcode, FormatError>(e),
            },
    {
        let mut cur = ByteCursor::new(data);
        decode_header(&mut cur)?;
        let version = decode_version(&mut cur)?;
        let comment = decode_comment(&mut cur)?;
        let a_mem = decode_ab_section(&mut cur, TAG_A_MEM)?;
        let b_mem = decode_ab_section(&mut cur, TAG_B_MEM)?;
        let c_mem = decode_c_section(&mut cur)?;
        let type_map = decode_type_map(&mut cur)?;
        let pico_store = decode_pico_or_eof(&mut cur)?;
        Ok(Microcode { source_path: source_path.to_owned(), version, comment, a_mem, b_mem, c_mem, type_map, pico_store })
    }

    /// The bytes of the path the image was read from.
    pub closed spec fn spec_source_path_bytes(&self) -> Seq<u8> {
        vstd::utf8::encode_utf8(self.source_path@)
    }

    pub fn source_path(&self) -> (r: &str)
        ensures
            r@ == self.spec_source_path(),
            r.spec_bytes() == self.spec_source_path_bytes(),
    {
        self.source_path.as_str()
    }

    pub fn version(&self) -> (r: u16)
        ensures
            r == self@.version,
    {
        self.version
    }

    /// The comment bytes, ASCII text in a well-formed dump.
    pub fn comment(&self) -> (r: &Vec<u8>)
        ensures
            r@ == self@.comment,
    {
        &self.comment
    }

    pub fn a_mem(&self) -> (r: &Vec<AddressedWord>)
        ensures
            r@ == self@.a_mem,
    {
        &self.a_mem
    }

    pub fn b_mem(&self) -> (r: &Vec<AddressedWord>)
        ensures
            r@ == self@.b_mem,
    {
        &self.b_mem
    }

    pub fn c_mem(&self) -> (r: &Vec<ControlWord>)
        ensures
            r@ == self@.c_mem,
    {
        &self.c_mem
    }

    pub fn type_map(&self) -> (r: &Vec<u8>)
        ensures
            r@ == self@.type_map,
    {
        &self.type_map
    }

    pub fn pico_store(&self) -> (r: &Vec<PicoStoreEntry>)
        ensures
            r@ == self@.pico_store,
    {
        &self.pico_store
    }
}

} // verus!
