use beehive::osc52::{base64_decode, Osc52Detector};

#[test]
fn base64_decodes_with_padding_and_whitespace() {
    assert_eq!(base64_decode(b"SGVsbG8="), Some(b"Hello".to_vec()));
    assert_eq!(base64_decode(b"SGVs\nbG8"), Some(b"Hello".to_vec()));
    assert_eq!(base64_decode(b""), Some(vec![]));
    assert_eq!(base64_decode(b"SGV*"), None);
}

#[test]
fn osc52_clipboard_requests_are_extracted() {
    let mut d = Osc52Detector::new();
    let out = d.process(b"text\x1b]52;c;SGVsbG8=\x07more");
    assert_eq!(out, vec![b"Hello".to_vec()]);
    // ST terminator, and a query that is ignored.
    let out = d.process(b"\x1b]52;c;aGk=\x1b\\\x1b]52;c;?\x07");
    assert_eq!(out, vec![b"hi".to_vec()]);
}

#[test]
fn osc52_split_across_reads_matches_one_read() {
    let whole = b"ab\x1b]52;c;SGVsbG8=\x07cd".to_vec();
    for cut in 0..whole.len() {
        let mut d = Osc52Detector::new();
        let mut got = d.process(&whole[..cut]);
        got.extend(d.process(&whole[cut..]));
        assert_eq!(got, vec![b"Hello".to_vec()], "cut at {}", cut);
    }
}
