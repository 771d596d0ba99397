use obol_dvt_blueprint::{find_line, CeremonyError, IdentityScanner};

#[test]
fn find_line_takes_the_first_matching_line() {
    let chunk = b"hello\nenr:-one\nenr:-two\n".to_vec();
    assert_eq!(find_line(&chunk, &b"enr:-".to_vec()), Some(b"enr:-one".to_vec()));
}

#[test]
fn find_line_needs_the_prefix_at_a_line_start() {
    let chunk = b"xenr:-no\nstill no enr:-\n".to_vec();
    assert_eq!(find_line(&chunk, &b"enr:-".to_vec()), None);
    assert_eq!(find_line(&b"enr:-last".to_vec(), &b"enr:-".to_vec()), Some(b"enr:-last".to_vec()));
    assert_eq!(find_line(&vec![], &b"enr:-".to_vec()), None);
    assert_eq!(find_line(&b"enr\n:-x\n".to_vec(), &b"enr:-".to_vec()), None);
}

#[test]
fn scanner_reads_every_chunk_and_keeps_the_first_match() {
    let mut s = IdentityScanner::for_enr();
    s.feed(&b"Created ENR private key\nenr:-first\n".to_vec());
    assert!(s.is_done());
    s.feed(&b"enr:-second\n".to_vec());
    assert_eq!(s.identity(), Some("enr:-first".to_string()));
    assert_eq!(s.finish(), Ok("enr:-first".to_string()));
}

#[test]
fn scanner_joins_a_line_split_across_chunks() {
    let mut s = IdentityScanner::for_enr();
    s.feed(&b"log line\nen".to_vec());
    assert!(!s.is_done());
    s.feed(&b"r:-x".to_vec());
    assert!(!s.is_done());
    s.feed(&b"yz\nmore\n".to_vec());
    assert_eq!(s.finish(), Ok("enr:-xyz".to_string()));
}

#[test]
fn scanner_takes_an_unterminated_last_line_at_the_end() {
    let mut s = IdentityScanner::for_enr();
    s.feed(&b"log\nenr:-tail".to_vec());
    assert!(!s.is_done());
    s.end();
    assert!(s.is_done());
    s.feed(&b"ignored\n".to_vec());
    assert_eq!(s.finish(), Ok("enr:-tail".to_string()));
}

#[test]
fn scanner_without_match_fails() {
    let mut s = IdentityScanner::for_enr();
    s.feed(&b"nothing here\n".to_vec());
    s.feed(&b"still nothing".to_vec());
    s.end();
    assert_eq!(s.finish(), Err(CeremonyError::IdentityGenerationFailed));
}

#[test]
fn scanner_replaces_invalid_bytes() {
    let mut s = IdentityScanner::new(b"id:".to_vec());
    s.feed(&vec![b'i', b'd', b':', 0xFF, b'z', b'\n']);
    assert_eq!(s.finish(), Ok("id:\u{FFFD}z".to_string()));
}
