use pow_solver::hashes::LenHash;
use pow_solver::hashes::Sha256Hash;
use pow_solver::hashes::SuffixHash;
use pow_solver::progress::NullSink;
use pow_solver::progress::VecSink;
use pow_solver::solver::solve_challenge;
use pow_solver::solver::solve_with;
use pow_solver::solver::SolveError;

fn all_ff_target() -> String {
    "ff".repeat(32)
}

fn all_zero_target() -> String {
    "00".repeat(32)
}

#[test]
fn invalid_hex_is_rejected() {
    assert_eq!(
        solve_challenge("abc", "zz"),
        Err(SolveError::InvalidTargetEncoding)
    );
}

#[test]
fn odd_length_hex_is_rejected() {
    let mut odd = "ff".repeat(31);
    odd.push('f');
    assert_eq!(
        solve_challenge("abc", &odd),
        Err(SolveError::InvalidTargetEncoding)
    );
}

#[test]
fn short_target_is_rejected() {
    assert_eq!(
        solve_challenge("abc", "ff"),
        Err(SolveError::TargetLengthMismatch)
    );
}

#[test]
fn long_target_is_rejected() {
    assert_eq!(
        solve_challenge("abc", &"ff".repeat(33)),
        Err(SolveError::TargetLengthMismatch)
    );
}

#[test]
fn empty_target_is_rejected() {
    assert_eq!(
        solve_challenge("abc", ""),
        Err(SolveError::TargetLengthMismatch)
    );
}

#[test]
fn maximal_target_accepts_nonce_zero() {
    assert_eq!(
        solve_challenge("any prefix at all", &all_ff_target()),
        Ok(String::from("0"))
    );
    assert_eq!(solve_challenge("", &all_ff_target()), Ok(String::from("0")));
}

#[test]
fn equal_digest_qualifies() {
    // SHA-256 of "0", the candidate for the empty prefix and nonce 0:
    // equality with the target qualifies.
    let target = "5feceb66ffc86f38d952786c6d696c79c2dbc239dd4e91b46729d73a27fb57e9";
    assert_eq!(solve_challenge("", target), Ok(String::from("0")));
}

#[test]
fn sha256_search_finds_first_nonce() {
    // SHA-256("test0") begins with 0x59 and fails against 0x3f; SHA-256
    // of "test1" begins with 0x1b and qualifies.
    let mut target = String::from("3f");
    target.push_str(&"ff".repeat(31));
    assert_eq!(solve_challenge("test", &target), Ok(String::from("1")));
}

#[test]
fn sha256_search_is_exhaustive_from_zero() {
    // The first 26 candidates "abc0" .. "abc25" all hash above 0x0fff…,
    // and "abc26" hashes to 0x0d… which qualifies.
    let mut target = String::from("0f");
    target.push_str(&"ff".repeat(31));
    assert_eq!(solve_challenge("abc", &target), Ok(String::from("26")));
}

#[test]
fn repeated_calls_return_the_same_nonce() {
    let mut target = String::from("0f");
    target.push_str(&"ff".repeat(31));
    let first = solve_challenge("abc", &target);
    let second = solve_challenge("abc", &target);
    assert_eq!(first, second);
    assert_eq!(first, Ok(String::from("26")));
}

#[test]
fn zero_target_needs_exact_zero_digest() {
    // Under LenHash the digest bytes are the candidate length mod 256.
    // With a 253-byte prefix the lengths run 254, 255, 256, … so the
    // digest is exactly zero first at nonce 100 — the search must not
    // stop on any nearly-zero digest before that.
    let prefix = "x".repeat(253);
    let mut sink = NullSink::new();
    let r = solve_with(&LenHash {}, &prefix, &all_zero_target(), &mut sink);
    assert_eq!(r, Ok(String::from("100")));
}

#[test]
fn first_qualifying_nonce_is_three() {
    // The suffix hash digests to all-zero exactly on candidates ending
    // with the marker, so "abc3" is the first qualifying candidate.
    let h = SuffixHash { mark: vec![b'3'] };
    let mut sink = NullSink::new();
    let r = solve_with(&h, "abc", &all_zero_target(), &mut sink);
    assert_eq!(r, Ok(String::from("3")));
}

#[test]
fn progress_reports_every_ten_thousand() {
    let h = SuffixHash {
        mark: b"25000".to_vec(),
    };
    let mut sink = VecSink::new();
    let r = solve_with(&h, "ab", &all_zero_target(), &mut sink);
    assert_eq!(r, Ok(String::from("25000")));
    assert_eq!(sink.reports, vec![0, 10000, 20000]);
}

#[test]
fn progress_starts_at_nonce_zero() {
    let mut sink = VecSink::new();
    let r = solve_with(&Sha256Hash {}, "abc", &all_ff_target(), &mut sink);
    assert_eq!(r, Ok(String::from("0")));
    assert_eq!(sink.reports, vec![0]);
}

#[test]
fn no_report_on_rejected_target() {
    let mut sink = VecSink::new();
    let r = solve_with(&Sha256Hash {}, "abc", "zz", &mut sink);
    assert_eq!(r, Err(SolveError::InvalidTargetEncoding));
    assert_eq!(sink.reports, Vec::<u64>::new());

    let r = solve_with(&Sha256Hash {}, "abc", "ff", &mut sink);
    assert_eq!(r, Err(SolveError::TargetLengthMismatch));
    assert_eq!(sink.reports, Vec::<u64>::new());
}
