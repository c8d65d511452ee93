use uc_explorer::render::{push_digits, render_disassembly, render_summary};
use uc_explorer::Microcode;

fn sample() -> Microcode {
    let mut f = vec![1, 5, 2, 0x2a, 0x01, 3, 2, b'h', b'i'];
    f.extend([4, 1, 0, 0, 0, 1, 2, 3, 4, 5, 0, 0]);
    f.extend([5, 0, 0]);
    f.extend([6, 1, 0, 8, 0]);
    f.extend([0xff, 0x0f, 0, 0, 0, 0, 0, 0, 3, 0, 0, 0, 0, 0, 0, 0, 0]);
    f.extend([7, 1, 0, 0, 0, 4, 0, 0, 8]);
    Microcode::decode("a.mic", &f).unwrap()
}

#[test]
fn digits_in_each_radix() {
    let mut v = Vec::new();
    push_digits(&mut v, 255, 16);
    assert_eq!(v, b"ff".to_vec());
    let mut o = Vec::new();
    push_digits(&mut o, 8, 8);
    assert_eq!(o, b"10".to_vec());
    let mut d = Vec::new();
    push_digits(&mut d, 0, 10);
    assert_eq!(d, b"0".to_vec());
}

#[test]
fn summary_lists_metadata_and_sizes() {
    let text = String::from_utf8(render_summary(&sample())).unwrap();
    assert_eq!(
        text,
        "Loaded From:     a.mic\n\
         Version:         12a\n\
         Comment:         hi\n\
         A-Mem Size:      1 words\n\
         B-Mem Size:      0 words\n\
         C-Mem Size:      1 words\n\
         Type Map Size:   1 words\n\
         Pico Store Size: 0 words\n"
    );
}

#[test]
fn disassembly_is_octal() {
    let text = String::from_utf8(render_disassembly(&sample())).unwrap();
    assert!(text.starts_with("10: A-Mem-Read-Address=7777 A-Mem-R-Base=3 A-Mem-Write-Select=0"));
    assert!(text.contains(" ALU-Function=3 "));
    assert!(text.ends_with(" Parity-Bit=0\n"));
    assert_eq!(text.lines().count(), 1);
}
