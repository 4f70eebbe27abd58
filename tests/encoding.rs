use include_base64::codec::{encode_contents, CharacterSet};
use include_base64::error::IncludeError;
use include_base64::file::{check_file_len, expansion_of, Expansion};

fn enc(bytes: &[u8], cs: CharacterSet) -> String {
    encode_contents(bytes, cs).unwrap()
}

#[test]
fn man_encodes_alike_in_both_alphabets() {
    assert_eq!(enc(b"Man", CharacterSet::Standard), "TWFu");
    assert_eq!(enc(b"Man", CharacterSet::UrlSafe), "TWFu");
}

#[test]
fn empty_contents_give_empty_text() {
    assert_eq!(enc(b"", CharacterSet::Standard), "");
    assert_eq!(enc(b"", CharacterSet::UrlSafe), "");
}

#[test]
fn short_groups_are_padded() {
    assert_eq!(enc(b"M", CharacterSet::Standard), "TQ==");
    assert_eq!(enc(b"Ma", CharacterSet::Standard), "TWE=");
    assert_eq!(enc(b"Many", CharacterSet::Standard), "TWFueQ==");
    assert_eq!(enc(b"foobar", CharacterSet::UrlSafe), "Zm9vYmFy");
}

#[test]
fn length_is_four_per_started_group() {
    let data: Vec<u8> = (0..40u8).collect();
    for n in 0..data.len() {
        let s = enc(&data[..n], CharacterSet::Standard);
        assert_eq!(s.len(), (n + 2) / 3 * 4);
        assert_eq!(s.len() % 4, 0);
    }
}

#[test]
fn alphabets_differ_only_in_two_symbols() {
    let data: Vec<u8> = (0..=255u8).rev().chain(0..=255u8).collect();
    let std_text = enc(&data, CharacterSet::Standard);
    let url_text = enc(&data, CharacterSet::UrlSafe);
    assert_eq!(std_text.len(), url_text.len());
    assert!(std_text.contains('+') && std_text.contains('/'));
    assert_eq!(std_text.replace('+', "-").replace('/', "_"), url_text);
}

#[test]
fn text_decodes_to_the_contents() {
    let data: Vec<u8> = (0..=255u8).chain([7u8, 200u8]).collect();
    for n in [0usize, 1, 2, 3, 4, 5, 100, 257, 258] {
        let s = enc(&data[..n], CharacterSet::Standard);
        assert_eq!(base64::decode_config(&s, base64::STANDARD).unwrap(), &data[..n]);
        let u = enc(&data[..n], CharacterSet::UrlSafe);
        assert_eq!(base64::decode_config(&u, base64::URL_SAFE).unwrap(), &data[..n]);
    }
}

#[test]
fn size_guard_accepts_addressable_lengths() {
    assert_eq!(check_file_len(0), Ok(()));
    assert_eq!(check_file_len(1 << 40), Ok(()));
    if usize::BITS >= 61 {
        assert_eq!(check_file_len(u64::MAX), Ok(()));
    } else {
        // Exact here: `usize` is narrower than 61 bits.
        let limit = (usize::MAX as u64).wrapping_mul(8);
        assert_eq!(check_file_len(limit), Ok(()));
        assert_eq!(
            check_file_len(limit + 1),
            Err(IncludeError::FileTooLarge { max: usize::MAX })
        );
        assert_eq!(
            check_file_len(u64::MAX),
            Err(IncludeError::FileTooLarge { max: usize::MAX })
        );
    }
}

#[test]
fn too_large_message_states_the_limit() {
    let e = IncludeError::FileTooLarge { max: usize::MAX };
    assert_eq!(e.message(), format!("File too big (max: {})", usize::MAX));
    let small = IncludeError::FileTooLarge { max: 1024 };
    assert_eq!(small.message(), "File too big (max: 1024)");
}

#[test]
fn io_message_is_the_system_text() {
    let e = IncludeError::Io(String::from("No such file or directory (os error 2)"));
    assert_eq!(e.message(), "No such file or directory (os error 2)");
}

#[test]
fn expansion_is_literal_on_success() {
    let x = expansion_of(Ok(String::from("TWFu")));
    assert_eq!(x, Expansion::Literal(String::from("TWFu")));
}

#[test]
fn expansion_is_diagnostic_on_failure() {
    let x = expansion_of(Err(IncludeError::FileTooLarge { max: 7 }));
    assert_eq!(x, Expansion::CompileError(String::from("File too big (max: 7)")));
    let y = expansion_of(Err(IncludeError::Io(String::from("permission denied"))));
    assert_eq!(y, Expansion::CompileError(String::from("permission denied")));
}
