use media_gate::cookie::{find_cookie, read_session_cookie, write_session_cookie};
use media_gate::session::SessionToken;

const NAME: &[u8] = b"session";

#[test]
fn find_cookie_reads_a_single_pair() {
    assert_eq!(find_cookie(b"session=abc", NAME), Some(&b"abc"[..]));
    assert_eq!(find_cookie(b"session=", NAME), Some(&b""[..]));
    assert_eq!(find_cookie(b"session=a=b", NAME), Some(&b"a=b"[..]));
}

#[test]
fn find_cookie_reads_among_other_pairs() {
    assert_eq!(find_cookie(b"theme=dark; session=abc; lang=en", NAME), Some(&b"abc"[..]));
    assert_eq!(find_cookie(b"theme=dark;session=abc", NAME), Some(&b"abc"[..]));
    assert_eq!(find_cookie(b"session=abc; theme=dark", NAME), Some(&b"abc"[..]));
    assert_eq!(find_cookie(b";;session=abc;;", NAME), Some(&b"abc"[..]));
    assert_eq!(find_cookie(b"theme=dark; lang=en", b"lang"), Some(&b"en"[..]));
}

#[test]
fn find_cookie_ignores_whitespace_around_a_pair() {
    assert_eq!(find_cookie(b"  session=abc  ", NAME), Some(&b"abc"[..]));
    assert_eq!(find_cookie(b"a=b ;\t session=abc \t; c=d", NAME), Some(&b"abc"[..]));
    assert_eq!(find_cookie(b"session=a b ", NAME), Some(&b"a b"[..]));
}

#[test]
fn find_cookie_takes_the_first_pair_of_the_name() {
    assert_eq!(find_cookie(b"session=first; session=second", NAME), Some(&b"first"[..]));
    assert_eq!(find_cookie(b"session=; session=second", NAME), Some(&b""[..]));
}

#[test]
fn find_cookie_wants_the_whole_name_and_the_separator() {
    assert_eq!(find_cookie(b"", NAME), None);
    assert_eq!(find_cookie(b"session", NAME), None);
    assert_eq!(find_cookie(b"sessio=abc", NAME), None);
    assert_eq!(find_cookie(b"sessions=abc", NAME), None);
    assert_eq!(find_cookie(b"xsession=abc", NAME), None);
    assert_eq!(find_cookie(b"Session=abc", NAME), None);
    assert_eq!(find_cookie(b"session =abc", NAME), None);
    assert_eq!(find_cookie(b"theme=session=abc", NAME), None);
    assert_eq!(find_cookie(b"theme=dark; lang=en", NAME), None);
    assert_eq!(find_cookie(b"sessions=abc; session=def", NAME), Some(&b"def"[..]));
}

#[test]
fn read_session_cookie_wants_a_well_formed_token() {
    assert_eq!(
        read_session_cookie(b"session=0123456789abcdeffedcba9876543210", NAME),
        Some(SessionToken { value: 0x0123456789abcdef_fedcba9876543210 })
    );
    assert_eq!(
        read_session_cookie(b"a=b; session=00000000000000000000000000000001; c=d", NAME),
        Some(SessionToken { value: 1 })
    );
    assert_eq!(read_session_cookie(b"session=0123", NAME), None);
    assert_eq!(read_session_cookie(b"session=", NAME), None);
    assert_eq!(read_session_cookie(b"session=0123456789ABCDEFFEDCBA9876543210", NAME), None);
    assert_eq!(read_session_cookie(b"session=\"0123456789abcdeffedcba987654321\"", NAME), None);
    assert_eq!(read_session_cookie(b"other=0123456789abcdeffedcba9876543210", NAME), None);
    assert_eq!(read_session_cookie(b"", NAME), None);
}

#[test]
fn read_session_cookie_goes_by_the_first_pair_of_the_name() {
    assert_eq!(
        read_session_cookie(b"session=bad; session=0123456789abcdeffedcba9876543210", NAME),
        None
    );
}

#[test]
fn write_session_cookie_writes_name_and_token_text() {
    assert_eq!(
        write_session_cookie(NAME, SessionToken { value: 0x0123456789abcdef_fedcba9876543210 }),
        b"session=0123456789abcdeffedcba9876543210".to_vec()
    );
    assert_eq!(
        write_session_cookie(b"sid", SessionToken { value: 0 }),
        b"sid=00000000000000000000000000000000".to_vec()
    );
    assert_eq!(
        write_session_cookie(b"", SessionToken { value: u128::MAX }),
        b"=ffffffffffffffffffffffffffffffff".to_vec()
    );
}

#[test]
fn a_written_cookie_reads_back() {
    let tokens: [u128; 4] = [0, 1, 0xdead_beef_0000_0000_0000_0000_cafe_f00d, u128::MAX];
    for value in tokens {
        let token = SessionToken { value };
        let pair = write_session_cookie(NAME, token);
        assert_eq!(read_session_cookie(&pair, NAME), Some(token));
        let mut header = b"theme=dark; ".to_vec();
        header.extend_from_slice(&pair);
        header.extend_from_slice(b"; lang=en");
        assert_eq!(read_session_cookie(&header, NAME), Some(token));
    }
}
