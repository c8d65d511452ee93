//! Section-by-section decoding of a microcode dump.
use vstd::prelude::*;
use crate::cursor::ByteCursor;
use crate::format::{
    AddressedWord, ControlWord, FormatError, PicoStoreEntry, read_le, HEADER_MAGIC,
    PICO_STORE_ENTRIES, PICO_STORE_SENTINEL, TAG_A_MEM, TAG_B_MEM, TAG_COMMENT, TAG_C_MEM,
    TAG_EOF, TAG_HEADER, TAG_PICO_STORE, TAG_TYPE_MAP, TAG_VERSION,
};

verus! {

/// A tag byte at `p` that must equal `tag`; `err` when it does not.
pub open spec fn spec_tag(s: Seq<u8>, p: int, tag: u8, err: FormatError) -> Result<int, FormatError> {
    if 0 <= p < s.len() {
        if s[p] == tag {
            Ok(p + 1)
        } else {
            Err(err)
        }
    } else {
        Err(FormatError::UnexpectedEndOfInput)
    }
}

/// The header: its tag and the magic byte.
pub open spec fn spec_header(s: Seq<u8>, p: int) -> Result<int, FormatError> {
    match spec_tag(s, p, TAG_HEADER, FormatError::InvalidHeader) {
        Ok(q) => spec_tag(s, q, HEADER_MAGIC, FormatError::InvalidHeader),
        Err(e) => Err(e),
    }
}

/// The version section: its tag and a 16-bit version.
pub open spec fn spec_version(s: Seq<u8>, p: int) -> Result<(u16, int), FormatError> {
    match spec_tag(s, p, TAG_VERSION, FormatError::InvalidVersion) {
        Ok(q) => match read_le(s, q, 2) {
            Ok((v, r)) => Ok((v as u16, r)),
            Err(e) => Err(e),
        },
        Err(e) => Err(e),
    }
}

/// The comment section: its tag, a length byte and that many bytes of text.
pub open spec fn spec_comment(s: Seq<u8>, p: int) -> Result<(Seq<u8>, int), FormatError> {
    match spec_tag(s, p, TAG_COMMENT, FormatError::InvalidComment) {
        Ok(q) => if q < s.len() && q + 1 + s[q] <= s.len() {
            Ok((s.subrange(q + 1, q + 1 + s[q]), q + 1 + s[q]))
        } else {
            Err(FormatError::UnexpectedEndOfInput)
        },
        Err(e) => Err(e),
    }
}

/// The address of the `i`-th word of a run that starts at `start`, in
/// sixteen bits.
pub open spec fn run_address(start: nat, i: nat) -> u16 {
    ((start + i) % 0x1_0000) as u16
}

/// The first `k` words of an A- or B-memory run that starts at address
/// `start` and whose first word is at `p`.
pub open spec fn spec_ab_run(s: Seq<u8>, p: int, start: nat, k: nat) -> Result<
    (Seq<AddressedWord>, int),
    FormatError,
>
    decreases k,
{
    if k == 0 {
        Ok((Seq::empty(), p))
    } else {
        match spec_ab_run(s, p, start, (k - 1) as nat) {
            Ok((ws, q)) => match read_le(s, q, 5) {
                Ok((v, r)) => Ok(
                    (
                        ws.push(AddressedWord { address: run_address(start, (k - 1) as nat), payload: v as u64 }),
                        r,
                    ),
                ),
                Err(e) => Err(e),
            },
            Err(e) => Err(e),
        }
    }
}

/// A run of `k` words ends `5 * k` bytes after it starts.
pub proof fn lemma_ab_run_end(s: Seq<u8>, p: int, start: nat, k: nat)
    ensures
        spec_ab_run(s, p, start, k) matches Ok((ws, q)) ==> q == p + 5 * k && ws.len() == k,
    decreases k,
{
    if k > 0 {
        lemma_ab_run_end(s, p, start, (k - 1) as nat);
    }
}

/// Once the first `k` words of a run fail, every longer prefix fails the same way.
pub proof fn lemma_ab_run_err(s: Seq<u8>, p: int, start: nat, k: nat, k2: nat)
    requires
        k <= k2,
        spec_ab_run(s, p, start, k) is Err,
    ensures
        spec_ab_run(s, p, start, k2) == spec_ab_run(s, p, start, k),
    decreases k2,
{
    if k < k2 {
        lemma_ab_run_err(s, p, start, k, (k2 - 1) as nat);
    }
}

/// The first `k` control words of a C-memory run: see `spec_ab_run`.
pub open spec fn spec_c_run(s: Seq<u8>, p: int, start: nat, k: nat) -> Result<
    (Seq<ControlWord>, int),
    FormatError,
>
    decreases k,
{
    if k == 0 {
        Ok((Seq::empty(), p))
    } else {
        match spec_c_run(s, p, start, (k - 1) as nat) {
            Ok((ws, q)) => match spec_control_word(s, q, run_address(start, (k - 1) as nat)) {
                Ok((w, r)) => Ok((ws.push(w), r)),
                Err(e) => Err(e),
            },
            Err(e) => Err(e),
        }
    }
}

/// The bytes after a control word, up to and including the first zero byte.
pub open spec fn spec_trailer(s: Seq<u8>, p: int) -> Result<int, FormatError>
    decreases s.len() - p,
{
    if 0 <= p < s.len() {
        if s[p] == 0 {
            Ok(p + 1)
        } else {
            spec_trailer(s, p + 1)
        }
    } else {
        Err(FormatError::UnexpectedEndOfInput)
    }
}

/// A control word at `p`: eight bytes of low half, six of high half, then
/// its trailer, which is skipped.
pub open spec fn spec_control_word(s: Seq<u8>, p: int, address: u16) -> Result<
    (ControlWord, int),
    FormatError,
> {
    match read_le(s, p, 8) {
        Ok((low, q)) => match read_le(s, q, 6) {
            Ok((high, r)) => match spec_trailer(s, r) {
                Ok(t) => Ok((ControlWord { address, low: low as u64, high: high as u64 }, t)),
                Err(e) => Err(e),
            },
            Err(e) => Err(e),
        },
        Err(e) => Err(e),
    }
}

/// A trailer ends after it starts.
pub proof fn lemma_trailer_end(s: Seq<u8>, p: int)
    ensures
        spec_trailer(s, p) matches Ok(t) ==> p < t <= s.len(),
    decreases s.len() - p,
{
    if 0 <= p < s.len() && s[p] != 0 {
        lemma_trailer_end(s, p + 1);
    }
}

/// A run of `k` control words ends at least `k` bytes after it starts.
pub proof fn lemma_c_run_end(s: Seq<u8>, p: int, start: nat, k: nat)
    ensures
        spec_c_run(s, p, start, k) matches Ok((ws, q)) ==> p + k <= q && (k > 0 ==> q <= s.len()) && ws.len() == k,
    decreases k,
{
    if k > 0 {
        lemma_c_run_end(s, p, start, (k - 1) as nat);
        if let Ok((ws, q)) = spec_c_run(s, p, start, (k - 1) as nat) {
            if let Ok((l, r)) = read_le(s, q, 8) {
                if let Ok((h, u)) = read_le(s, r, 6) {
                    lemma_trailer_end(s, u);
                }
            }
        }
    }
}

/// Once the first `k` words of a run fail, every longer prefix fails the same way.
pub proof fn lemma_c_run_err(s: Seq<u8>, p: int, start: nat, k: nat, k2: nat)
    requires
        k <= k2,
        spec_c_run(s, p, start, k) is Err,
    ensures
        spec_c_run(s, p, start, k2) == spec_c_run(s, p, start, k),
    decreases k2,
{
    if k < k2 {
        lemma_c_run_err(s, p, start, k, (k2 - 1) as nat);
    }
}

/// The runs of a C-memory section from `p` on: see `spec_ab_runs`.
pub open spec fn spec_c_runs(s: Seq<u8>, p: int) -> Result<(Seq<ControlWord>, int), FormatError>
    decreases s.len() - p,
{
    match read_le(s, p, 2) {
        Ok((count, q)) => if count == 0 {
            Ok((Seq::empty(), q))
        } else {
            match read_le(s, q, 2) {
                Ok((start, r)) => match spec_c_run(s, r, start, count) {
                    Ok((ws, t)) => {
                        proof {
                            lemma_c_run_end(s, r, start, count);
                        }
                        match spec_c_runs(s, t) {
                            Ok((rest, u)) => Ok((ws + rest, u)),
                            Err(e) => Err(e),
                        }
                    },
                    Err(e) => Err(e),
                },
                Err(e) => Err(e),
            }
        },
        Err(e) => Err(e),
    }
}

/// The C-memory section: its tag, then its runs.
pub open spec fn spec_c_section(s: Seq<u8>, p: int) -> Result<(Seq<ControlWord>, int), FormatError> {
    match spec_tag(s, p, TAG_C_MEM, FormatError::InvalidControlMemory) {
        Ok(q) => spec_c_runs(s, q),
        Err(e) => Err(e),
    }
}

/// The runs of an A- or B-memory section from `p` on, up to and including
/// the zero run length that ends it.
pub open spec fn spec_ab_runs(s: Seq<u8>, p: int) -> Result<(Seq<AddressedWord>, int), FormatError>
    decreases s.len() - p,
{
    match read_le(s, p, 2) {
        Ok((count, q)) => if count == 0 {
            Ok((Seq::empty(), q))
        } else {
            match read_le(s, q, 2) {
                Ok((start, r)) => match spec_ab_run(s, r, start, count) {
                    Ok((ws, t)) => {
                        proof {
                            lemma_ab_run_end(s, r, start, count);
                        }
                        match spec_ab_runs(s, t) {
                            Ok((rest, u)) => Ok((ws + rest, u)),
                            Err(e) => Err(e),
                        }
                    },
                    Err(e) => Err(e),
                },
                Err(e) => Err(e),
            }
        },
        Err(e) => Err(e),
    }
}

/// An A- or B-memory section: its tag, then its runs.
pub open spec fn spec_ab_section(s: Seq<u8>, p: int, tag: u8) -> Result<
    (Seq<AddressedWord>, int),
    FormatError,
> {
    match spec_tag(s, p, tag, FormatError::InvalidMemorySection) {
        Ok(q) => spec_ab_runs(s, q),
        Err(e) => Err(e),
    }
}

/// Reads a tag byte that must equal `tag`.
fn expect_tag(cur: &mut ByteCursor, tag: u8, err: FormatError) -> (r: Result<(), FormatError>)
    requires
        old(cur).wf(),
    ensures
        final(cur).wf(),
        final(cur).bytes() == old(cur).bytes(),
        match spec_tag(old(cur).bytes(), old(cur).position(), tag, err) {
            Ok(q) => r is Ok && final(cur).position() == q,
            Err(e) => r == Err::<(), FormatError>(e),
        },
{
    let b = cur.read_u8()?;
    if b == tag {
        Ok(())
    } else {
        Err(err)
    }
}

/// Decodes the header.
pub fn decode_header(cur: &mut ByteCursor) -> (r: Result<(), FormatError>)
    requires
        old(cur).wf(),
    ensures
        final(cur).wf(),
        final(cur).bytes() == old(cur).bytes(),
        match spec_header(old(cur).bytes(), old(cur).position()) {
            Ok(q) => r is Ok && final(cur).position() == q,
            Err(e) => r == Err::<(), FormatError>(e),
        },
{
    expect_tag(cur, TAG_HEADER, FormatError::InvalidHeader)?;
    expect_tag(cur, HEADER_MAGIC, FormatError::InvalidHeader)
}

/// Decodes the version section.
pub fn decode_version(cur: &mut ByteCursor) -> (r: Result<u16, FormatError>)
    requires
        old(cur).wf(),
    ensures
        final(cur).wf(),
        final(cur).bytes() == old(cur).bytes(),
        match spec_version(old(cur).bytes(), old(cur).position()) {
            Ok((v, q)) => r == Ok::<u16, FormatError>(v) && final(cur).position() == q,
            Err(e) => r == Err::<u16, FormatError>(e),
        },
{
    expect_tag(cur, TAG_VERSION, FormatError::InvalidVersion)?;
    cur.read_u16_le()
}

/// Decodes the comment section.
pub fn decode_comment(cur: &mut ByteCursor) -> (r: Result<Vec<u8>, FormatError>)
    requires
        old(cur).wf(),
    ensures
        final(cur).wf(),
        final(cur).bytes() == old(cur).bytes(),
        match spec_comment(old(cur).bytes(), old(cur).position()) {
            Ok((c, q)) => r is Ok && r->Ok_0@ == c && final(cur).position() == q,
            Err(e) => r == Err::<Vec<u8>, FormatError>(e),
        },
{
    expect_tag(cur, TAG_COMMENT, FormatError::InvalidComment)?;
    let n = cur.read_u8()?;
    let ghost s = cur.bytes();
    let ghost r0 = cur.position();
    if n as usize > cur.remaining() {
        return Err(FormatError::UnexpectedEndOfInput);
    }
    let mut text: Vec<u8> = Vec::new();
    let mut i: u8 = 0;
    while i < n
        invariant
            cur.wf(),
            1 <= r0,
            r0 + n <= s.len(),
            cur.bytes() == s,
            cur.position() == r0 + i,
            i <= n,
            text@ == s.subrange(r0, r0 + i),
        decreases n - i,
    {
        let b = cur.read_u8()?;
        text.push(b);
        assert(text@ =~= s.subrange(r0, r0 + i + 1));
        i = i + 1;
    }
    Ok(text)
}

/// The address of word `i` of a run that starts at `start`.
fn word_address(start: u16, i: u16) -> (r: u16)
    ensures
        r == run_address(start as nat, i as nat),
{
    ((start as u32 + i as u32) % 0x1_0000) as u16
}

/// Decodes `count` words of an A- or B-memory run and appends them to `words`.
fn decode_ab_run(cur: &mut ByteCursor, start: u16, count: u16, words: &mut Vec<AddressedWord>) -> (r:
    Result<(), FormatError>)
    requires
        old(cur).wf(),
    ensures
        final(cur).wf(),
        final(cur).bytes() == old(cur).bytes(),
        match spec_ab_run(old(cur).bytes(), old(cur).position(), start as nat, count as nat) {
            Ok((ws, q)) => r is Ok && final(words)@ == old(words)@ + ws && final(cur).position() == q,
            Err(e) => r == Err::<(), FormatError>(e),
        },
{
    let ghost s = cur.bytes();
    let ghost p = cur.position();
    let ghost w0 = words@;
    let mut i: u16 = 0;
    while i < count
        invariant
            cur.wf(),
            cur.bytes() == s,
            s == old(cur).bytes(),
            p == old(cur).position(),
            w0 == old(words)@,
            i <= count,
            spec_ab_run(s, p, start as nat, i as nat) matches Ok((ws, q)) && words@ == w0 + ws
                && cur.position() == q,
        decreases count - i,
    {
        let payload = match cur.read_u64_le(5) {
            Ok(v) => v,
            Err(e) => {
                proof {
                    lemma_ab_run_err(s, p, start as nat, i as nat + 1, count as nat);
                }
                return Err(e);
            },
        };
        let w = AddressedWord { address: word_address(start, i), payload };
        words.push(w);
        proof {
            let ws = spec_ab_run(s, p, start as nat, i as nat)->Ok_0.0;
            assert(words@ =~= w0 + ws.push(w));
        }
        i = i + 1;
    }
    Ok(())
}

/// Decodes an A- or B-memory section whose tag is `tag`.
pub fn decode_ab_section(cur: &mut ByteCursor, tag: u8) -> (r: Result<Vec<AddressedWord>, FormatError>)
    requires
        old(cur).wf(),
    ensures
        final(cur).wf(),
        final(cur).bytes() == old(cur).bytes(),
        match spec_ab_section(old(cur).bytes(), old(cur).position(), tag) {
            Ok((ws, q)) => r is Ok && r->Ok_0@ == ws && final(cur).position() == q,
            Err(e) => r == Err::<Vec<AddressedWord>, FormatError>(e),
        },
{
    let ghost s = cur.bytes();
    let ghost p = cur.position();
    expect_tag(cur, tag, FormatError::InvalidMemorySection)?;
    let mut words: Vec<AddressedWord> = Vec::new();
    loop
        invariant
            cur.wf(),
            cur.bytes() == s,
            s == old(cur).bytes(),
            p == old(cur).position(),
            spec_ab_section(s, p, tag) == match spec_ab_runs(s, cur.position()) {
                Ok((rest, u)) => Ok::<(Seq<AddressedWord>, int), FormatError>((words@ + rest, u)),
                Err(e) => Err(e),
            },
        decreases s.len() - cur.position(),
    {
        let ghost here = cur.position();
        let count = cur.read_u16_le()?;
        if count == 0 {
            assert(words@ + Seq::<AddressedWord>::empty() =~= words@);
            return Ok(words);
        }
        let start = cur.read_u16_le()?;
        let ghost w1 = words@;
        let ghost r0 = cur.position();
        decode_ab_run(cur, start, count, &mut words)?;
        proof {
            lemma_ab_run_end(s, r0, start as nat, count as nat);
            let ws = spec_ab_run(s, r0, start as nat, count as nat)->Ok_0.0;
            match spec_ab_runs(s, cur.position()) {
                Ok((rest, u)) => assert(w1 + (ws + rest) =~= words@ + rest),
                Err(e) => {},
            }
        }
    }
}

/// Skips the trailer of a control word, up to and including its zero byte.
fn skip_trailer(cur: &mut ByteCursor) -> (r: Result<(), FormatError>)
    requires
        old(cur).wf(),
    ensures
        final(cur).wf(),
        final(cur).bytes() == old(cur).bytes(),
        match spec_trailer(old(cur).bytes(), old(cur).position()) {
            Ok(q) => r is Ok && final(cur).position() == q,
            Err(e) => r == Err::<(), FormatError>(e),
        },
{
    let ghost s = cur.bytes();
    let ghost p = cur.position();
    loop
        invariant
            cur.wf(),
            cur.bytes() == s,
            s == old(cur).bytes(),
            p == old(cur).position(),
            spec_trailer(s, p) == spec_trailer(s, cur.position()),
        decreases s.len() - cur.position(),
    {
        let b = cur.read_u8()?;
        if b == 0 {
            return Ok(());
        }
    }
}

/// Decodes one control word at `address`, with its trailer.
fn decode_control_word(cur: &mut ByteCursor, address: u16) -> (r: Result<ControlWord, FormatError>)
    requires
        old(cur).wf(),
    ensures
        final(cur).wf(),
        final(cur).bytes() == old(cur).bytes(),
        match spec_control_word(old(cur).bytes(), old(cur).position(), address) {
            Ok((w, q)) => r == Ok::<ControlWord, FormatError>(w) && final(cur).position() == q,
            Err(e) => r == Err::<ControlWord, FormatError>(e),
        },
{
    let low = cur.read_u64_le(8)?;
    let high = cur.read_u64_le(6)?;
    skip_trailer(cur)?;
    Ok(ControlWord { address, low, high })
}

/// Decodes `count` words of a C-memory run and appends them to `words`.
fn decode_c_run(cur: &mut ByteCursor, start: u16, count: u16, words: &mut Vec<ControlWord>) -> (r:
    Result<(), FormatError>)
    requires
        old(cur).wf(),
    ensures
        final(cur).wf(),
        final(cur).bytes() == old(cur).bytes(),
        match spec_c_run(old(cur).bytes(), old(cur).position(), start as nat, count as nat) {
            Ok((ws, q)) => r is Ok && final(words)@ == old(words)@ + ws && final(cur).position() == q,
            Err(e) => r == Err::<(), FormatError>(e),
        },
{
    let ghost s = cur.bytes();
    let ghost p = cur.position();
    let ghost w0 = words@;
    let mut i: u16 = 0;
    while i < count
        invariant
            cur.wf(),
            cur.bytes() == s,
            s == old(cur).bytes(),
            p == old(cur).position(),
            w0 == old(words)@,
            i <= count,
            spec_c_run(s, p, start as nat, i as nat) matches Ok((ws, q)) && words@ == w0 + ws
                && cur.position() == q,
        decreases count - i,
    {
        let w = match decode_control_word(cur, word_address(start, i)) {
            Ok(w) => w,
            Err(e) => {
                proof {
                    lemma_c_run_err(s, p, start as nat, i as nat + 1, count as nat);
                }
                return Err(e);
            },
        };
        words.push(w);
        proof {
            let ws = spec_c_run(s, p, start as nat, i as nat)->Ok_0.0;
            assert(words@ =~= w0 + ws.push(w));
        }
        i = i + 1;
    }
    Ok(())
}

/// Decodes the C-memory section.
pub fn decode_c_section(cur: &mut ByteCursor) -> (r: Result<Vec<ControlWord>, FormatError>)
    requires
        old(cur).wf(),
    ensures
        final(cur).wf(),
        final(cur).bytes() == old(cur).bytes(),
        match spec_c_section(old(cur).bytes(), old(cur).position()) {
            Ok((ws, q)) => r is Ok && r->Ok_0@ == ws && final(cur).position() == q,
            Err(e) => r == Err::<Vec<ControlWord>, FormatError>(e),
        },
{
    let ghost s = cur.bytes();
    let ghost p = cur.position();
    expect_tag(cur, TAG_C_MEM, FormatError::InvalidControlMemory)?;
    let mut words: Vec<ControlWord> = Vec::new();
    loop
        invariant
            cur.wf(),
            cur.bytes() == s,
            s == old(cur).bytes(),
            p == old(cur).position(),
            spec_c_section(s, p) == match spec_c_runs(s, cur.position()) {
                Ok((rest, u)) => Ok::<(Seq<ControlWord>, int), FormatError>((words@ + rest, u)),
                Err(e) => Err(e),
            },
        decreases s.len() - cur.position(),
    {
        let count = cur.read_u16_le()?;
        if count == 0 {
            assert(words@ + Seq::<ControlWord>::empty() =~= words@);
            return Ok(words);
        }
        let start = cur.read_u16_le()?;
        let ghost w1 = words@;
        let ghost r0 = cur.position();
        decode_c_run(cur, start, count, &mut words)?;
        proof {
            lemma_c_run_end(s, r0, start as nat, count as nat);
            let ws = spec_c_run(s, r0, start as nat, count as nat)->Ok_0.0;
            match spec_c_runs(s, cur.position()) {
                Ok((rest, u)) => assert(w1 + (ws + rest) =~= words@ + rest),
                Err(e) => {},
            }
        }
    }
}

/// The type-map section: its tag, a 16-bit count, a zero word, that many
/// entry bytes, and a closing zero word.
pub open spec fn spec_type_map(s: Seq<u8>, p: int) -> Result<(Seq<u8>, int), FormatError> {
    match spec_tag(s, p, TAG_TYPE_MAP, FormatError::InvalidTypeMap) {
        Ok(q) => match read_le(s, q, 2) {
            Ok((count, r)) => match read_le(s, r, 2) {
                Ok((pad, t)) => if pad != 0 {
                    Err(FormatError::InvalidTypeMap)
                } else if t + count > s.len() {
                    Err(FormatError::UnexpectedEndOfInput)
                } else {
                    match read_le(s, t + count, 2) {
                        Ok((end, u)) => if end != 0 {
                            Err(FormatError::InvalidTypeMap)
                        } else {
                            Ok((s.subrange(t, t + count), u))
                        },
                        Err(e) => Err(e),
                    }
                },
                Err(e) => Err(e),
            },
            Err(e) => Err(e),
        },
        Err(e) => Err(e),
    }
}

/// One pico-store entry at `p`: a 16-bit address and 32 bits of data.
pub open spec fn spec_pico_entry(s: Seq<u8>, p: int) -> Result<(PicoStoreEntry, int), FormatError> {
    match read_le(s, p, 2) {
        Ok((address, q)) => match read_le(s, q, 4) {
            Ok((data, r)) => Ok((PicoStoreEntry { address: address as u16, data: data as u32 }, r)),
            Err(e) => Err(e),
        },
        Err(e) => Err(e),
    }
}

/// The first `k` pico-store entries from `p` on.
pub open spec fn spec_pico_entries(s: Seq<u8>, p: int, k: nat) -> Result<
    (Seq<PicoStoreEntry>, int),
    FormatError,
>
    decreases k,
{
    if k == 0 {
        Ok((Seq::empty(), p))
    } else {
        match spec_pico_entries(s, p, (k - 1) as nat) {
            Ok((es, q)) => match spec_pico_entry(s, q) {
                Ok((e, r)) => Ok((es.push(e), r)),
                Err(e) => Err(e),
            },
            Err(e) => Err(e),
        }
    }
}

/// Once the first `k` entries fail, every longer prefix fails the same way.
pub proof fn lemma_pico_entries_err(s: Seq<u8>, p: int, k: nat, k2: nat)
    requires
        k <= k2,
        spec_pico_entries(s, p, k) is Err,
    ensures
        spec_pico_entries(s, p, k2) == spec_pico_entries(s, p, k),
    decreases k2,
{
    if k < k2 {
        lemma_pico_entries_err(s, p, k, (k2 - 1) as nat);
    }
}

/// The last section: either the end-of-file tag alone, or the pico-store
/// tag, its 255 entries, the sentinel and the end-of-file tag.
pub open spec fn spec_pico_or_eof(s: Seq<u8>, p: int) -> Result<(Seq<PicoStoreEntry>, int), FormatError> {
    if 0 <= p < s.len() {
        if s[p] == TAG_EOF {
            Ok((Seq::empty(), p + 1))
        } else if s[p] == TAG_PICO_STORE {
            match spec_pico_entries(s, p + 1, PICO_STORE_ENTRIES as nat) {
                Ok((es, q)) => match read_le(s, q, 2) {
                    Ok((sentinel, r)) => if sentinel != PICO_STORE_SENTINEL as nat {
                        Err(FormatError::InvalidPicoStoreTerminator)
                    } else {
                        match spec_tag(s, r, TAG_EOF, FormatError::InvalidPicoStoreEof) {
                            Ok(u) => Ok((es, u)),
                            Err(e) => Err(e),
                        }
                    },
                    Err(e) => Err(e),
                },
                Err(e) => Err(e),
            }
        } else {
            Err(FormatError::InvalidPicoStore)
        }
    } else {
        Err(FormatError::UnexpectedEndOfInput)
    }
}

/// Decodes the type-map section.
pub fn decode_type_map(cur: &mut ByteCursor) -> (r: Result<Vec<u8>, FormatError>)
    requires
        old(cur).wf(),
    ensures
        final(cur).wf(),
        final(cur).bytes() == old(cur).bytes(),
        match spec_type_map(old(cur).bytes(), old(cur).position()) {
            Ok((m, q)) => r is Ok && r->Ok_0@ == m && final(cur).position() == q,
            Err(e) => r == Err::<Vec<u8>, FormatError>(e),
        },
{
    expect_tag(cur, TAG_TYPE_MAP, FormatError::InvalidTypeMap)?;
    let count = cur.read_u16_le()?;
    let pad = cur.read_u16_le()?;
    if pad != 0 {
        return Err(FormatError::InvalidTypeMap);
    }
    if count as usize > cur.remaining() {
        return Err(FormatError::UnexpectedEndOfInput);
    }
    let ghost s = cur.bytes();
    let ghost t0 = cur.position();
    let mut entries: Vec<u8> = Vec::new();
    let mut i: u16 = 0;
    while i < count
        invariant
            cur.wf(),
            cur.bytes() == s,
            s == old(cur).bytes(),
            0 <= t0,
            t0 + count <= s.len(),
            i <= count,
            cur.position() == t0 + i,
            entries@ == s.subrange(t0, t0 + i),
        decreases count - i,
    {
        let b = cur.read_u8()?;
        entries.push(b);
        assert(entries@ =~= s.subrange(t0, t0 + i + 1));
        i = i + 1;
    }
    let end = cur.read_u16_le()?;
    if end != 0 {
        return Err(FormatError::InvalidTypeMap);
    }
    Ok(entries)
}

/// Decodes the last section: the end-of-file tag, or a pico-store section.
pub fn decode_pico_or_eof(cur: &mut ByteCursor) -> (r: Result<Vec<PicoStoreEntry>, FormatError>)
    requires
        old(cur).wf(),
    ensures
        final(cur).wf(),
        final(cur).bytes() == old(cur).bytes(),
        match spec_pico_or_eof(old(cur).bytes(), old(cur).position()) {
            Ok((es, q)) => r is Ok && r->Ok_0@ == es && final(cur).position() == q,
            Err(e) => r == Err::<Vec<PicoStoreEntry>, FormatError>(e),
        },
{
    let tag = cur.read_u8()?;
    let mut entries: Vec<PicoStoreEntry> = Vec::new();
    if tag == TAG_EOF {
        return Ok(entries);
    }
    if tag != TAG_PICO_STORE {
        return Err(FormatError::InvalidPicoStore);
    }
    let ghost s = cur.bytes();
    let ghost p = cur.position();
    let mut i: u16 = 0;
    while i < PICO_STORE_ENTRIES
        invariant
            cur.wf(),
            cur.bytes() == s,
            s == old(cur).bytes(),
            p == old(cur).position() + 1,
            0 <= old(cur).position() < s.len(),
            s[old(cur).position()] == TAG_PICO_STORE,
            i <= PICO_STORE_ENTRIES,
            spec_pico_entries(s, p, i as nat) == Ok::<(Seq<PicoStoreEntry>, int), FormatError>(
                (entries@, cur.position()),
            ),
        decreases PICO_STORE_ENTRIES - i,
    {
        let address = match cur.read_u16_le() {
            Ok(a) => a,
            Err(e) => {
                proof {
                    lemma_pico_entries_err(s, p, i as nat + 1, PICO_STORE_ENTRIES as nat);
                }
                return Err(e);
            },
        };
        let data = match cur.read_u32_le() {
            Ok(d) => d,
            Err(e) => {
                proof {
                    lemma_pico_entries_err(s, p, i as nat + 1, PICO_STORE_ENTRIES as nat);
                }
                return Err(e);
            },
        };
        entries.push(PicoStoreEntry { address, data });
        i = i + 1;
    }
    let sentinel = cur.read_u16_le()?;
    if sentinel != PICO_STORE_SENTINEL {
        return Err(FormatError::InvalidPicoStoreTerminator);
    }
    expect_tag(cur, TAG_EOF, FormatError::InvalidPicoStoreEof)?;
    Ok(entries)
}

} // verus!
