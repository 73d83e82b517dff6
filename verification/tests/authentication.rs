use media_gate::auth::{authenticate, timing_safe_eq, Comparison, Credentials};
use media_gate::directory::{Identity, UserDirectory};
use media_gate::secret::{adopt_secret, obtain_secret, Secret};

const USER: u64 = 1;

fn directory_with(secret: &[u8]) -> UserDirectory {
    UserDirectory::with_identity(USER, &Secret { bytes: secret.to_vec() })
}

fn credentials(user_id: u64, token: &[u8]) -> Credentials {
    Credentials { user_id, token: token.to_vec() }
}

#[test]
fn comparison_tells_equal_from_different() {
    assert!(timing_safe_eq(b"abc", b"abc").equal);
    assert!(timing_safe_eq(b"", b"").equal);
    assert!(!timing_safe_eq(b"abc", b"abd").equal);
    assert!(!timing_safe_eq(b"abc", b"xbc").equal);
    assert!(!timing_safe_eq(b"abc", b"ab").equal);
    assert!(!timing_safe_eq(b"ab", b"abc").equal);
    assert!(!timing_safe_eq(b"", b"a").equal);
    assert!(!timing_safe_eq(b"abc", b"ABC").equal);
}

#[test]
fn comparison_is_not_fooled_by_zero_padding() {
    assert!(!timing_safe_eq(b"abc", b"abc\x00").equal);
    assert!(!timing_safe_eq(b"abc\x00\x00", b"abc").equal);
    assert!(!timing_safe_eq(b"", b"\x00").equal);
    assert!(timing_safe_eq(b"\x00", b"\x00").equal);
}

#[test]
fn comparison_reports_exact_verdicts() {
    assert_eq!(timing_safe_eq(b"abcd", b"abcd"), Comparison { equal: true, steps: 4 });
    assert_eq!(timing_safe_eq(b"abcd", b"abcx"), Comparison { equal: false, steps: 4 });
    assert_eq!(timing_safe_eq(b"abcd", b"ab"), Comparison { equal: false, steps: 4 });
    assert_eq!(timing_safe_eq(b"ab", b"abcdef"), Comparison { equal: false, steps: 6 });
    assert_eq!(timing_safe_eq(b"", b""), Comparison { equal: true, steps: 0 });
}

#[test]
fn comparison_takes_as_many_steps_wherever_the_inputs_differ() {
    let secret = b"3f9a2b7c5d1e4c0a9b1f2a6d8e0c7f31";
    let right = timing_safe_eq(secret, secret);
    let wrong_first = timing_safe_eq(secret, b"Xf9a2b7c5d1e4c0a9b1f2a6d8e0c7f31");
    let wrong_middle = timing_safe_eq(secret, b"3f9a2b7c5d1e4c0aXb1f2a6d8e0c7f31");
    let wrong_last = timing_safe_eq(secret, b"3f9a2b7c5d1e4c0a9b1f2a6d8e0c7f3X");
    let all_wrong = timing_safe_eq(secret, b"XXXXXXXXXXXXXXXXXXXXXXXXXXXXXXXX");
    assert_eq!(right.steps, 32);
    assert_eq!(wrong_first.steps, 32);
    assert_eq!(wrong_middle.steps, 32);
    assert_eq!(wrong_last.steps, 32);
    assert_eq!(all_wrong.steps, 32);
    assert!(right.equal);
    assert!(!wrong_first.equal && !wrong_middle.equal && !wrong_last.equal && !all_wrong.equal);
}

#[test]
fn comparison_of_unequal_lengths_examines_the_longer_length() {
    let secret = b"0123456789";
    assert_eq!(timing_safe_eq(secret, b"").steps, 10);
    assert_eq!(timing_safe_eq(secret, b"0").steps, 10);
    assert_eq!(timing_safe_eq(secret, b"012345678").steps, 10);
    assert_eq!(timing_safe_eq(secret, b"0123456789a").steps, 11);
    assert_eq!(timing_safe_eq(secret, b"X123456789a").steps, 11);
}

#[test]
fn lookup_finds_only_the_provisioned_identity() {
    let directory = directory_with(b"s3cret");
    assert_eq!(directory.lookup(USER), Some(Identity { id: USER, verifier: b"s3cret" }));
    assert_eq!(directory.lookup(0), None);
    assert_eq!(directory.lookup(2), None);
    assert_eq!(directory.lookup(u64::MAX), None);
}

#[test]
fn empty_directory_knows_nobody() {
    let directory = UserDirectory::new();
    assert_eq!(directory.lookup(USER), None);
    assert_eq!(authenticate(&directory, &credentials(USER, b"")), None);
}

#[test]
fn provisioning_adds_and_replaces() {
    let mut directory = directory_with(b"first");
    directory.provision(2, &Secret { bytes: b"second".to_vec() });
    assert_eq!(directory.lookup(USER), Some(Identity { id: USER, verifier: b"first" }));
    assert_eq!(directory.lookup(2), Some(Identity { id: 2, verifier: b"second" }));
    directory.provision(USER, &Secret { bytes: b"changed".to_vec() });
    assert_eq!(directory.lookup(USER), Some(Identity { id: USER, verifier: b"changed" }));
    assert_eq!(authenticate(&directory, &credentials(USER, b"first")), None);
    assert!(authenticate(&directory, &credentials(USER, b"changed")).is_some());
    assert!(authenticate(&directory, &credentials(2, b"second")).is_some());
    assert_eq!(authenticate(&directory, &credentials(2, b"changed")), None);
}

#[test]
fn right_credentials_are_accepted() {
    let directory = directory_with(b"3f9a2b7c5d1e4c0a9b1f2a6d8e0c7f31");
    let outcome = authenticate(&directory, &credentials(USER, b"3f9a2b7c5d1e4c0a9b1f2a6d8e0c7f31"));
    assert_eq!(
        outcome,
        Some(Identity { id: USER, verifier: b"3f9a2b7c5d1e4c0a9b1f2a6d8e0c7f31" })
    );
}

#[test]
fn the_bootstrapped_secret_is_accepted_as_token() {
    let bootstrap = obtain_secret(None).expect("the system generator works here");
    let directory = UserDirectory::with_identity(USER, &bootstrap.secret);
    let outcome = authenticate(&directory, &credentials(USER, &bootstrap.secret.bytes));
    assert_eq!(outcome.map(|identity| identity.id), Some(USER));
    let adopted = adopt_secret(b" from a file \n");
    let directory = UserDirectory::with_identity(USER, &adopted);
    assert!(authenticate(&directory, &credentials(USER, b"from a file")).is_some());
    assert!(authenticate(&directory, &credentials(USER, b" from a file \n")).is_none());
}

#[test]
fn a_token_differing_in_one_byte_is_rejected() {
    let secret = b"3f9a2b7c5d1e4c0a9b1f2a6d8e0c7f31";
    let directory = directory_with(secret);
    for position in 0..secret.len() {
        let mut token = secret.to_vec();
        token[position] ^= 0x01;
        assert_eq!(authenticate(&directory, &credentials(USER, &token)), None);
        token[position] ^= 0x01;
        assert!(authenticate(&directory, &credentials(USER, &token)).is_some());
    }
}

#[test]
fn a_token_of_another_length_is_rejected() {
    let directory = directory_with(b"secret");
    assert_eq!(authenticate(&directory, &credentials(USER, b"")), None);
    assert_eq!(authenticate(&directory, &credentials(USER, b"secre")), None);
    assert_eq!(authenticate(&directory, &credentials(USER, b"secret ")), None);
    assert_eq!(authenticate(&directory, &credentials(USER, b"secret\x00")), None);
}

#[test]
fn an_unknown_identifier_is_rejected_even_with_the_secret() {
    let directory = directory_with(b"secret");
    assert_eq!(authenticate(&directory, &credentials(0, b"secret")), None);
    assert_eq!(authenticate(&directory, &credentials(2, b"secret")), None);
    assert_eq!(authenticate(&directory, &credentials(u64::MAX, b"secret")), None);
}

#[test]
fn an_empty_secret_is_matched_by_the_empty_token_only() {
    let directory = directory_with(b"");
    assert!(authenticate(&directory, &credentials(USER, b"")).is_some());
    assert_eq!(authenticate(&directory, &credentials(USER, b"x")), None);
}
