//! Properties of the file format that hold for every input.
use vstd::prelude::*;
use crate::decode::{
    spec_ab_run, spec_ab_runs, spec_c_run, spec_c_runs, spec_ab_section, spec_c_section, spec_comment, spec_header,
    spec_pico_entries, spec_pico_or_eof, spec_tag, spec_type_map, spec_version, run_address,
    lemma_ab_run_end,
};
use crate::format::{
    AddressedWord, ControlWord, FormatError, PicoStoreEntry, le_value, read_le, lemma_le_value_two, PICO_STORE_ENTRIES, PICO_STORE_SENTINEL,
    TAG_A_MEM, TAG_B_MEM, TAG_COMMENT, TAG_C_MEM, TAG_EOF, TAG_HEADER, TAG_PICO_STORE, TAG_TYPE_MAP,
    TAG_VERSION, HEADER_MAGIC,
};
use crate::image::{ImageModel, spec_image};

verus! {

/// The smallest well-formed dump: header, `version`, an empty comment, three
/// memory sections that each end at once, an empty type map, and end of file.
pub open spec fn minimal_file(version: u16) -> Seq<u8> {
    seq![
        1u8, 5, 2, (version % 256) as u8, (version / 256) as u8, 3, 0,
        4, 0, 0, 5, 0, 0, 6, 0, 0,
        7, 0, 0, 0, 0, 0, 0,
        8,
    ]
}

/// Every minimal dump decodes, whatever its version, to an image with that
/// version and nothing in any section.
pub proof fn lemma_minimal_file_decodes(version: u16)
    ensures
        spec_image(minimal_file(version)) == Ok::<ImageModel, FormatError>(
            ImageModel {
                version,
                comment: Seq::empty(),
                a_mem: Seq::empty(),
                b_mem: Seq::empty(),
                c_mem: Seq::empty(),
                type_map: Seq::empty(),
                pico_store: Seq::empty(),
            },
        ),
{
    let s = minimal_file(version);
    assert(s.len() == 24);
    lemma_le_value_two(s.subrange(3, 5));
    lemma_le_value_two(s.subrange(8, 10));
    lemma_le_value_two(s.subrange(11, 13));
    lemma_le_value_two(s.subrange(14, 16));
    lemma_le_value_two(s.subrange(17, 19));
    lemma_le_value_two(s.subrange(19, 21));
    lemma_le_value_two(s.subrange(21, 23));
    assert(spec_header(s, 0) == Ok::<int, FormatError>(2));
    assert(spec_version(s, 2) == Ok::<(u16, int), FormatError>((version, 5)));
    assert(s.subrange(7, 7) =~= Seq::<u8>::empty());
    assert(spec_comment(s, 5) == Ok::<(Seq<u8>, int), FormatError>((Seq::empty(), 7)));
    assert(spec_ab_section(s, 7, 4) == Ok::<(Seq<AddressedWord>, int), FormatError>((Seq::empty(), 10)));
    assert(spec_ab_section(s, 10, 5) == Ok::<(Seq<AddressedWord>, int), FormatError>((Seq::empty(), 13)));
    assert(spec_c_section(s, 13) == Ok::<(Seq<ControlWord>, int), FormatError>((Seq::empty(), 16)));
    assert(s.subrange(21, 21) =~= Seq::<u8>::empty());
    assert(spec_type_map(s, 16) == Ok::<(Seq<u8>, int), FormatError>((Seq::empty(), 23)));
    assert(spec_pico_or_eof(s, 23) == Ok::<(Seq<PicoStoreEntry>, int), FormatError>((Seq::empty(), 24)));
}

/// A memory section whose first run length is zero ends right there, with
/// no words.
pub proof fn lemma_zero_run_ends_section(s: Seq<u8>, p: int, tag: u8)
    requires
        0 <= p,
        p + 3 <= s.len(),
        s[p] == tag,
        s[p + 1] == 0,
        s[p + 2] == 0,
    ensures
        spec_ab_section(s, p, tag) == Ok::<(Seq<AddressedWord>, int), FormatError>((Seq::empty(), p + 3)),
        tag == TAG_C_MEM ==> spec_c_section(s, p) == Ok::<(Seq<ControlWord>, int), FormatError>(
            (Seq::empty(), p + 3),
        ),
{
    lemma_le_value_two(s.subrange(p + 1, p + 3));
}

/// A wrong tag byte at the start of a section fails the load with the error
/// named for that section.
pub proof fn lemma_wrong_tag(s: Seq<u8>, p: int)
    requires
        0 <= p < s.len(),
    ensures
        s[p] != TAG_HEADER ==> spec_header(s, p) == Err::<int, FormatError>(FormatError::InvalidHeader),
        s[p] == TAG_HEADER && p + 1 < s.len() && s[p + 1] != HEADER_MAGIC ==> spec_header(s, p) == Err::<
            int,
            FormatError,
        >(FormatError::InvalidHeader),
        s[p] != TAG_VERSION ==> spec_version(s, p) == Err::<(u16, int), FormatError>(
            FormatError::InvalidVersion,
        ),
        s[p] != TAG_COMMENT ==> spec_comment(s, p) == Err::<(Seq<u8>, int), FormatError>(
            FormatError::InvalidComment,
        ),
        s[p] != TAG_A_MEM ==> spec_ab_section(s, p, TAG_A_MEM) == Err::<(Seq<AddressedWord>, int), FormatError>(
            FormatError::InvalidMemorySection,
        ),
        s[p] != TAG_B_MEM ==> spec_ab_section(s, p, TAG_B_MEM) == Err::<(Seq<AddressedWord>, int), FormatError>(
            FormatError::InvalidMemorySection,
        ),
        s[p] != TAG_C_MEM ==> spec_c_section(s, p) == Err::<(Seq<ControlWord>, int), FormatError>(
            FormatError::InvalidControlMemory,
        ),
        s[p] != TAG_TYPE_MAP ==> spec_type_map(s, p) == Err::<(Seq<u8>, int), FormatError>(
            FormatError::InvalidTypeMap,
        ),
        s[p] != TAG_EOF && s[p] != TAG_PICO_STORE ==> spec_pico_or_eof(s, p) == Err::<
            (Seq<PicoStoreEntry>, int),
            FormatError,
        >(FormatError::InvalidPicoStore),
{
}

/// A dump whose first byte is not the header tag fails with the header error.
pub proof fn lemma_wrong_header_fails_load(s: Seq<u8>)
    requires
        s.len() > 0,
        s[0] != TAG_HEADER,
    ensures
        spec_image(s) == Err::<ImageModel, FormatError>(FormatError::InvalidHeader),
{
}

/// A pico-store section fails with a pico-store error when its 255 entries
/// are not followed by the sentinel, when it holds a 256th entry (whose
/// address then stands where the sentinel belongs), or when the sentinel is
/// not followed by the end-of-file tag.
pub proof fn lemma_pico_store_framing(s: Seq<u8>, p: int)
    requires
        0 <= p < s.len(),
        s[p] == TAG_PICO_STORE,
    ensures
        spec_pico_entries(s, p + 1, PICO_STORE_ENTRIES as nat) matches Ok((es, q)) ==> (read_le(
            s,
            q,
            2,
        ) matches Ok((v, r)) ==> v != PICO_STORE_SENTINEL as nat ==> spec_pico_or_eof(s, p) == Err::<
            (Seq<PicoStoreEntry>, int),
            FormatError,
        >(FormatError::InvalidPicoStoreTerminator)),
        spec_pico_entries(s, p + 1, PICO_STORE_ENTRIES as nat + 1) matches Ok((es, q)) ==> (
        es.last().address != PICO_STORE_SENTINEL ==> spec_pico_or_eof(s, p) == Err::<
            (Seq<PicoStoreEntry>, int),
            FormatError,
        >(FormatError::InvalidPicoStoreTerminator)),
        spec_pico_entries(s, p + 1, PICO_STORE_ENTRIES as nat) matches Ok((es, q)) ==> (read_le(
            s,
            q,
            2,
        ) matches Ok((v, r)) ==> v == PICO_STORE_SENTINEL as nat ==> 0 <= r < s.len() ==> s[r]
            != TAG_EOF ==> spec_pico_or_eof(s, p) == Err::<(Seq<PicoStoreEntry>, int), FormatError>(
            FormatError::InvalidPicoStoreEof,
        )),
{
    let k = PICO_STORE_ENTRIES as nat;
    if let Ok((es, q)) = spec_pico_entries(s, p + 1, k + 1) {
        let q0 = spec_pico_entries(s, p + 1, k)->Ok_0.1;
        lemma_le_value_two(s.subrange(q0, q0 + 2));
    }
}

/// Pico-store entries take six bytes each, and can only fail by running out
/// of input.
pub proof fn lemma_pico_entries_size(s: Seq<u8>, p: int, k: nat)
    ensures
        spec_pico_entries(s, p, k) matches Ok((es, q)) ==> q == p + 6 * k && (k > 0 ==> q <= s.len()),
        spec_pico_entries(s, p, k) is Err ==> spec_pico_entries(s, p, k) == Err::<
            (Seq<PicoStoreEntry>, int),
            FormatError,
        >(FormatError::UnexpectedEndOfInput),
    decreases k,
{
    if k > 0 {
        lemma_pico_entries_size(s, p, (k - 1) as nat);
    }
}

/// A pico-store section whose input ends before 255 entries, the sentinel
/// and the end-of-file tag fit (as when it holds fewer entries) fails: the
/// missing entries are read from the sentinel and beyond, and the input runs
/// out.
pub proof fn lemma_pico_store_too_short(s: Seq<u8>, p: int)
    requires
        0 <= p < s.len(),
        s[p] == TAG_PICO_STORE,
        s.len() < p + 1 + 6 * 255,
    ensures
        spec_pico_or_eof(s, p) == Err::<(Seq<PicoStoreEntry>, int), FormatError>(
            FormatError::UnexpectedEndOfInput,
        ),
{
    lemma_pico_entries_size(s, p + 1, PICO_STORE_ENTRIES as nat);
}

/// Each run of a memory section contributes its words at consecutive
/// addresses from its start, one five-byte payload after another.
pub proof fn lemma_run_words(s: Seq<u8>, p: int, start: nat, k: nat)
    ensures
        spec_ab_run(s, p, start, k) matches Ok((ws, q)) ==> ws.len() == k && forall|i: int|
            0 <= i < k ==> #[trigger] ws[i] == (AddressedWord {
                address: run_address(start, i as nat),
                payload: le_value(s.subrange(p + 5 * i, p + 5 * i + 5)) as u64,
            }),
    decreases k,
{
    if k > 0 {
        lemma_run_words(s, p, start, (k - 1) as nat);
        lemma_ab_run_end(s, p, start, (k - 1) as nat);
    }
}

/// The runs of a memory section concatenate in the order they appear,
/// whatever their addresses: overlapping or descending runs are all kept.
pub proof fn lemma_runs_concatenate(s: Seq<u8>, p: int)
    ensures
        read_le(s, p, 2) matches Ok((count, q)) ==> count != 0 ==> (read_le(s, q, 2) matches Ok((
            start,
            r,
        )) ==> (spec_ab_run(s, r, start, count) matches Ok((ws, t)) ==> (spec_ab_runs(s, t) matches Ok(
            (rest, u),
        ) ==> spec_ab_runs(s, p) == Ok::<(Seq<AddressedWord>, int), FormatError>((ws + rest, u))))),
{
}

/// The runs of the control-memory section concatenate in the same way.
pub proof fn lemma_c_runs_concatenate(s: Seq<u8>, p: int)
    ensures
        read_le(s, p, 2) matches Ok((count, q)) ==> count != 0 ==> (read_le(s, q, 2) matches Ok((
            start,
            r,
        )) ==> (spec_c_run(s, r, start, count) matches Ok((ws, t)) ==> (spec_c_runs(s, t) matches Ok(
            (rest, u),
        ) ==> spec_c_runs(s, p) == Ok::<(Seq<ControlWord>, int), FormatError>((ws + rest, u))))),
{
}

} // verus!
