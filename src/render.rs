//! Text views of a decoded image, as ASCII bytes.
use vstd::prelude::*;
use vstd::string::StringSliceAdditionalSpecFns;
use vstd::arithmetic::div_mod::{lemma_div_decreases, lemma_div_pos_is_pos, lemma_small_mod};
use crate::format::ControlWord;
use crate::image::{ImageModel, Microcode};
use crate::project::{MicroInstruction, project, spec_fields, spec_project};

verus! {

/// The ASCII digit for `d`: `0`-`9`, then `a`-`f`.
pub open spec fn digit_char(d: nat) -> u8 {
    if d < 10 {
        (48 + d) as u8
    } else {
        (87 + d) as u8
    }
}

/// The digits of `v` in base `radix`, most significant first, without
/// leading zeros (zero is one digit).
pub open spec fn digits(v: nat, radix: nat) -> Seq<u8>
    decreases v,
{
    if radix < 2 || v < radix {
        seq![digit_char(v)]
    } else {
        proof {
            lemma_div_decreases(v as int, radix as int);
            lemma_div_pos_is_pos(v as int, radix as int);
        }
        digits(v / radix, radix).push(digit_char(v % radix))
    }
}

/// Appends the digits of `v` in base `radix`.
pub fn push_digits(out: &mut Vec<u8>, v: u64, radix: u64)
    requires
        2 <= radix <= 16,
    ensures
        final(out)@ == old(out)@ + digits(v as nat, radix as nat),
    decreases v,
{
    let ghost before = out@;
    if v >= radix {
        proof {
            lemma_div_decreases(v as int, radix as int);
        }
        push_digits(out, v / radix, radix);
    }
    let d = v % radix;
    let c: u8 = if d < 10 {
        48 + d as u8
    } else {
        87 + d as u8
    };
    proof {
        if v < radix {
            lemma_small_mod(v as nat, radix as nat);
        }
    }
    assert(c == digit_char(d as nat));
    out.push(c);
    assert(out@ =~= before + digits(v as nat, radix as nat));
}

/// Appends the bytes of `s`.
pub fn push_str(out: &mut Vec<u8>, s: &str)
    ensures
        final(out)@ == old(out)@ + s.spec_bytes(),
{
    push_bytes(out, s.as_bytes());
}

/// Appends `b`.
pub fn push_bytes(out: &mut Vec<u8>, b: &[u8])
    ensures
        final(out)@ == old(out)@ + b@,
{
    let mut i: usize = 0;
    while i < b.len()
        invariant
            i <= b@.len(),
            out@ == old(out)@ + b@.take(i as int),
        decreases b@.len() - i,
    {
        out.push(b[i]);
        assert(b@.take(i + 1) =~= b@.take(i as int).push(b[i as int]));
        i = i + 1;
    }
    assert(b@.take(i as int) =~= b@);
}

/// One line of the overview: a label, a value and a line break.
pub open spec fn summary_line(label: &str, value: Seq<u8>) -> Seq<u8> {
    label.spec_bytes() + value + seq![10u8]
}

/// One size line of the overview: a label, a count in decimal and `words`.
pub open spec fn size_line(label: &str, n: nat) -> Seq<u8> {
    summary_line(label, digits(n, 10) + " words".spec_bytes())
}

/// The overview of an image: where it came from, its version in hexadecimal,
/// its comment, and the number of entries of each section.
pub open spec fn summary_text(path: Seq<u8>, m: ImageModel) -> Seq<u8> {
    summary_line("Loaded From:     ", path)
        + summary_line("Version:         ", digits(m.version as nat, 16))
        + summary_line("Comment:         ", m.comment)
        + size_line("A-Mem Size:      ", m.a_mem.len())
        + size_line("B-Mem Size:      ", m.b_mem.len())
        + size_line("C-Mem Size:      ", m.c_mem.len())
        + size_line("Type Map Size:   ", m.type_map.len())
        + size_line("Pico Store Size: ", m.pico_store.len())
}

fn push_size_line(out: &mut Vec<u8>, label: &str, n: usize)
    ensures
        final(out)@ == old(out)@ + size_line(label, n as nat),
{
    push_str(out, label);
    push_digits(out, n as u64, 10);
    push_str(out, " words");
    out.push(10);
    assert(out@ =~= old(out)@ + size_line(label, n as nat));
}

fn push_summary_line(out: &mut Vec<u8>, label: &str, value: &[u8])
    ensures
        final(out)@ == old(out)@ + summary_line(label, value@),
{
    push_str(out, label);
    push_bytes(out, value);
    out.push(10);
    assert(out@ =~= old(out)@ + summary_line(label, value@));
}

/// The overview of `image`.
pub fn render_summary(image: &Microcode) -> (r: Vec<u8>)
    ensures
        r@ == summary_text(image.spec_source_path_bytes(), image@),
{
    let mut out: Vec<u8> = Vec::new();
    push_summary_line(&mut out, "Loaded From:     ", image.source_path().as_bytes());
    let mut version: Vec<u8> = Vec::new();
    push_digits(&mut version, image.version() as u64, 16);
    push_summary_line(&mut out, "Version:         ", version.as_slice());
    push_summary_line(&mut out, "Comment:         ", image.comment().as_slice());
    push_size_line(&mut out, "A-Mem Size:      ", image.a_mem().len());
    push_size_line(&mut out, "B-Mem Size:      ", image.b_mem().len());
    push_size_line(&mut out, "C-Mem Size:      ", image.c_mem().len());
    push_size_line(&mut out, "Type Map Size:   ", image.type_map().len());
    push_size_line(&mut out, "Pico Store Size: ", image.pico_store().len());
    assert(out@ =~= summary_text(image.spec_source_path_bytes(), image@));
    out
}

/// The fields of an instruction as ` name=value` pieces, values in octal.
pub open spec fn fields_text(fs: Seq<(&'static str, u16)>) -> Seq<u8>
    decreases fs.len(),
{
    if fs.len() == 0 {
        Seq::empty()
    } else {
        fields_text(fs.drop_last()) + seq![32u8] + fs.last().0.spec_bytes() + seq![61u8] + digits(
            fs.last().1 as nat,
            8,
        )
    }
}

/// One line of the disassembly: the word's address in octal, a colon, and
/// its fields.
pub open spec fn word_line(w: ControlWord) -> Seq<u8> {
    digits(w.address as nat, 8) + seq![58u8] + fields_text(spec_fields(spec_project(w))) + seq![10u8]
}

/// The disassembly of a sequence of control words, one line each.
pub open spec fn disassembly_text(ws: Seq<ControlWord>) -> Seq<u8>
    decreases ws.len(),
{
    if ws.len() == 0 {
        Seq::empty()
    } else {
        disassembly_text(ws.drop_last()) + word_line(ws.last())
    }
}

fn push_word_line(out: &mut Vec<u8>, w: &ControlWord)
    ensures
        final(out)@ == old(out)@ + word_line(*w),
{
    push_digits(out, w.address as u64, 8);
    out.push(58);
    let m: MicroInstruction = project(w);
    let fs = m.fields();
    let ghost start = out@;
    let mut i: usize = 0;
    while i < fs.len()
        invariant
            i <= fs@.len(),
            out@ == start + fields_text(fs@.take(i as int)),
        decreases fs@.len() - i,
    {
        let (name, value) = fs[i];
        out.push(32);
        push_str(out, name);
        out.push(61);
        push_digits(out, value as u64, 8);
        assert(fs@.take(i + 1).drop_last() =~= fs@.take(i as int));
        assert(out@ =~= start + fields_text(fs@.take(i + 1)));
        i = i + 1;
    }
    assert(fs@.take(i as int) =~= fs@);
    out.push(10);
    assert(out@ =~= old(out)@ + word_line(*w));
}

/// The disassembly of every control word of `image`, in order.
pub fn render_disassembly(image: &Microcode) -> (r: Vec<u8>)
    ensures
        r@ == disassembly_text(image@.c_mem),
{
    let ws = image.c_mem();
    let mut out: Vec<u8> = Vec::new();
    let mut i: usize = 0;
    while i < ws.len()
        invariant
            i <= ws@.len(),
            ws@ == image@.c_mem,
            out@ == disassembly_text(ws@.take(i as int)),
        decreases ws@.len() - i,
    {
        push_word_line(&mut out, &ws[i]);
        assert(ws@.take(i + 1).drop_last() =~= ws@.take(i as int));
        i = i + 1;
    }
    assert(ws@.take(i as int) =~= ws@);
    out
}

} // verus!
