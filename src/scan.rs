//! Extraction of a generated identity from a process's output.
//!
//! The output is one byte stream, handed over in chunks that may cut a line
//! anywhere. It is cut into lines at `\n`, and the first line that starts
//! with the identity prefix is the identity. While the stream goes on only
//! finished lines count; once it has ended, so does its last, unterminated
//! line.

use vstd::prelude::*;
use vstd::utf8::*;

verus! {

pub const NEWLINE: u8 = 10;

/// The index at which the line that holds index `i` ends: the next newline at
/// or after `i`, or the end of `b`.
pub open spec fn line_end(b: Seq<u8>, i: int) -> int
    decreases b.len() - i,
{
    if i >= b.len() || i < 0 || b[i] == NEWLINE {
        i
    } else {
        line_end(b, i + 1)
    }
}

/// The line that starts at index `i`, without its newline.
pub open spec fn line_at(b: Seq<u8>, i: int) -> Seq<u8> {
    b.subrange(i, line_end(b, i))
}

/// Whether `line` starts with `pre`.
pub open spec fn starts_with(line: Seq<u8>, pre: Seq<u8>) -> bool {
    pre.len() <= line.len() && line.subrange(0, pre.len() as int) == pre
}

/// The first line of `b`, from the line that starts at `i` on, that starts
/// with `pre`.
pub open spec fn first_line_from(b: Seq<u8>, pre: Seq<u8>, i: int) -> Option<Seq<u8>>
    decreases b.len() + 1 - i,
    via first_line_from_decreases
{
    if i < 0 || i > b.len() {
        None
    } else if starts_with(line_at(b, i), pre) {
        Some(line_at(b, i))
    } else if line_end(b, i) >= b.len() {
        None
    } else {
        first_line_from(b, pre, line_end(b, i) + 1)
    }
}

/// The first finished line of `b` (one followed by a newline), from the line
/// that starts at `i` on, that starts with `pre`.
pub open spec fn first_finished_from(b: Seq<u8>, pre: Seq<u8>, i: int) -> Option<Seq<u8>>
    decreases b.len() + 1 - i,
    via first_finished_from_decreases
{
    if i < 0 || i > b.len() || line_end(b, i) >= b.len() {
        None
    } else if starts_with(line_at(b, i), pre) {
        Some(line_at(b, i))
    } else {
        first_finished_from(b, pre, line_end(b, i) + 1)
    }
}

/// The first line of `b` that starts with `pre`.
pub open spec fn first_line_with(b: Seq<u8>, pre: Seq<u8>) -> Option<Seq<u8>> {
    first_line_from(b, pre, 0)
}

/// The first finished line of `b` that starts with `pre`.
pub open spec fn first_finished_line_with(b: Seq<u8>, pre: Seq<u8>) -> Option<Seq<u8>> {
    first_finished_from(b, pre, 0)
}

proof fn lemma_line_end_bounds(b: Seq<u8>, i: int)
    requires
        0 <= i <= b.len(),
    ensures
        i <= line_end(b, i) <= b.len(),
    decreases b.len() - i,
{
    if i < b.len() && b[i] != NEWLINE {
        lemma_line_end_bounds(b, i + 1);
    }
}

#[via_fn]
proof fn first_line_from_decreases(b: Seq<u8>, pre: Seq<u8>, i: int) {
    if 0 <= i <= b.len() {
        lemma_line_end_bounds(b, i);
    }
}

#[via_fn]
proof fn first_finished_from_decreases(b: Seq<u8>, pre: Seq<u8>, i: int) {
    if 0 <= i <= b.len() {
        lemma_line_end_bounds(b, i);
    }
}

/// A finished line stays the same whatever output follows.
proof fn lemma_finished_line_stays(b: Seq<u8>, c: Seq<u8>, i: int)
    requires
        0 <= i <= b.len(),
        line_end(b, i) < b.len(),
    ensures
        line_end(b + c, i) == line_end(b, i),
        line_at(b + c, i) == line_at(b, i),
    decreases b.len() - i,
{
    lemma_line_end_bounds(b, i);
    if b[i] != NEWLINE {
        lemma_finished_line_stays(b, c, i + 1);
    }
    assert((b + c)[i] == b[i]);
    assert((b + c).subrange(i, line_end(b, i)) =~= b.subrange(i, line_end(b, i)));
}

/// Once a finished line has matched, more output changes nothing: it is
/// still the first finished match, and the first match of all.
pub proof fn lemma_match_stays(b: Seq<u8>, c: Seq<u8>, pre: Seq<u8>, i: int)
    requires
        0 <= i <= b.len(),
        first_finished_from(b, pre, i) is Some,
    ensures
        first_finished_from(b + c, pre, i) == first_finished_from(b, pre, i),
        first_line_from(b + c, pre, i) == first_finished_from(b, pre, i),
    decreases b.len() + 1 - i,
{
    lemma_line_end_bounds(b, i);
    lemma_finished_line_stays(b, c, i);
    if !starts_with(line_at(b, i), pre) {
        lemma_match_stays(b, c, pre, line_end(b, i) + 1);
    }
}

fn line_end_exec(b: &Vec<u8>, i: usize) -> (r: usize)
    requires
        i <= b@.len(),
    ensures
        r == line_end(b@, i as int),
{
    let mut j: usize = i;
    while j < b.len() && b[j] != NEWLINE
        invariant
            i <= j <= b@.len(),
            line_end(b@, i as int) == line_end(b@, j as int),
        decreases b@.len() - j,
    {
        j = j + 1;
    }
    j
}

fn line_starts_with(b: &Vec<u8>, i: usize, e: usize, pre: &Vec<u8>) -> (r: bool)
    requires
        i <= e <= b@.len(),
    ensures
        r == starts_with(b@.subrange(i as int, e as int), pre@),
{
    let ghost line = b@.subrange(i as int, e as int);
    if pre.len() > e - i {
        return false;
    }
    let mut k: usize = 0;
    while k < pre.len()
        invariant
            k <= pre@.len(),
            i + pre@.len() <= e <= b@.len(),
            line == b@.subrange(i as int, e as int),
            forall|m: int| 0 <= m < k ==> line[m] == pre@[m],
        decreases pre@.len() - k,
    {
        if b[i + k] != pre[k] {
            assert(line.subrange(0, pre@.len() as int)[k as int] != pre@[k as int]);
            return false;
        }
        k = k + 1;
    }
    assert(line.subrange(0, pre@.len() as int) =~= pre@);
    true
}

fn copy_range(b: &Vec<u8>, from: usize, to: usize) -> (r: Vec<u8>)
    requires
        from <= to <= b@.len(),
    ensures
        r@ == b@.subrange(from as int, to as int),
{
    let mut r: Vec<u8> = Vec::new();
    let mut k: usize = from;
    while k < to
        invariant
            from <= k <= to <= b@.len(),
            r@ == b@.subrange(from as int, k as int),
        decreases to - k,
    {
        r.push(b[k]);
        assert(r@ =~= b@.subrange(from as int, k + 1));
        k = k + 1;
    }
    r
}

pub open spec fn opt_bytes(o: Option<Vec<u8>>) -> Option<Seq<u8>> {
    match o {
        Some(l) => Some(l@),
        None => None,
    }
}

/// The first line of `b` that starts with `prefix`, without its newline;
/// with `finished_only`, the first such line that a newline ends.
fn scan_lines(b: &Vec<u8>, prefix: &Vec<u8>, finished_only: bool) -> (r: Option<Vec<u8>>)
    ensures
        finished_only ==> opt_bytes(r) == first_finished_line_with(b@, prefix@),
        !finished_only ==> opt_bytes(r) == first_line_with(b@, prefix@),
{
    let mut i: usize = 0;
    loop
        invariant
            i <= b@.len(),
            first_finished_line_with(b@, prefix@) == first_finished_from(b@, prefix@, i as int),
            first_line_with(b@, prefix@) == first_line_from(b@, prefix@, i as int),
        decreases b@.len() - i,
    {
        let e = line_end_exec(b, i);
        proof {
            lemma_line_end_bounds(b@, i as int);
        }
        if finished_only && e >= b.len() {
            return None;
        }
        if line_starts_with(b, i, e, prefix) {
            return Some(copy_range(b, i, e));
        }
        if e >= b.len() {
            return None;
        }
        i = e + 1;
    }
}

/// The first line of `output` that starts with `prefix`, without its newline.
pub fn find_line(output: &Vec<u8>, prefix: &Vec<u8>) -> (r: Option<Vec<u8>>)
    ensures
        r is None <==> first_line_with(output@, prefix@) is None,
        r matches Some(l) ==> first_line_with(output@, prefix@) == Some(l@),
{
    scan_lines(output, prefix, false)
}

/// Relies on `String::from_utf8_lossy`: the text depends on the bytes alone.
pub uninterp spec fn lossy_text(b: Seq<u8>) -> Seq<char>;

/// Relies on `String::from_utf8_lossy`: it returns the decoded text, with each
/// invalid sequence replaced; valid UTF-8 comes back unchanged.
#[verifier::external_body]
fn text_from_utf8_lossy(b: &Vec<u8>) -> (r: String)
    ensures
        r@ == lossy_text(b@),
        valid_utf8(b@) ==> r@ == decode_utf8(b@),
{
    String::from_utf8_lossy(b).into_owned()
}

/// Watches a run's output for the first line that starts with a prefix.
pub struct IdentityScanner {
    prefix: Vec<u8>,
    seen: Vec<u8>,
    ended: bool,
    found: Option<Vec<u8>>,
}

pub struct ScannerView {
    pub prefix: Seq<u8>,
    /// All output so far.
    pub seen: Seq<u8>,
    /// Whether the output has ended.
    pub ended: bool,
    pub found: Option<Seq<u8>>,
}

impl View for IdentityScanner {
    type V = ScannerView;

    closed spec fn view(&self) -> ScannerView {
        ScannerView {
            prefix: self.prefix@,
            seen: self.seen@,
            ended: self.ended,
            found: opt_bytes(self.found),
        }
    }
}

/// The line that has matched, given the output so far and whether it ended.
pub open spec fn match_so_far(seen: Seq<u8>, pre: Seq<u8>, ended: bool) -> Option<Seq<u8>> {
    if ended {
        first_line_with(seen, pre)
    } else {
        first_finished_line_with(seen, pre)
    }
}

/// A scanner's match is always the one its output so far gives.
pub open spec fn scanner_wf(s: ScannerView) -> bool {
    s.found == match_so_far(s.seen, s.prefix, s.ended)
}

/// A scanner after a chunk of output; output after the end is not taken.
pub open spec fn scanner_fed(s: ScannerView, chunk: Seq<u8>) -> ScannerView {
    if s.ended {
        s
    } else {
        ScannerView {
            seen: s.seen + chunk,
            found: first_finished_line_with(s.seen + chunk, s.prefix),
            ..s
        }
    }
}

/// A scanner once the output has ended.
pub open spec fn scanner_ended(s: ScannerView) -> ScannerView {
    ScannerView { ended: true, found: first_line_with(s.seen, s.prefix), ..s }
}

/// The text of the matched line, empty while none has matched.
pub open spec fn identity_text(s: ScannerView) -> Seq<char> {
    match s.found {
        Some(l) => lossy_text(l),
        None => seq![],
    }
}

/// The prefix of a generated identity line, `enr:-`.
pub open spec fn enr_prefix() -> Seq<u8> {
    seq![101u8, 110u8, 114u8, 58u8, 45u8]
}

impl IdentityScanner {
    pub open spec fn wf(&self) -> bool {
        scanner_wf(self@)
    }

    /// A scanner for lines that start with `prefix`, before any output.
    pub fn new(prefix: Vec<u8>) -> (r: IdentityScanner)
        ensures
            r.wf(),
            r@ == (ScannerView { prefix: prefix@, seen: seq![], ended: false, found: None }),
    {
        IdentityScanner { prefix, seen: Vec::new(), ended: false, found: None }
    }

    /// A scanner for identity lines, which start with `enr:-`.
    pub fn for_enr() -> (r: IdentityScanner)
        ensures
            r.wf(),
            r@ == (ScannerView { prefix: enr_prefix(), seen: seq![], ended: false, found: None }),
    {
        let prefix: Vec<u8> = vec![101u8, 110u8, 114u8, 58u8, 45u8];
        assert(prefix@ =~= enr_prefix());
        IdentityScanner::new(prefix)
    }

    /// Takes the next chunk of output, from standard output or standard error.
    pub fn feed(&mut self, chunk: &Vec<u8>)
        requires
            old(self).wf(),
        ensures
            final(self).wf(),
            final(self)@ == scanner_fed(old(self)@, chunk@),
    {
        if self.ended {
            return;
        }
        let ghost before = self.seen@;
        let mut more = chunk.clone();
        self.seen.append(&mut more);
        if self.found.is_some() {
            proof {
                lemma_match_stays(before, chunk@, self.prefix@, 0);
            }
        } else {
            self.found = scan_lines(&self.seen, &self.prefix, true);
        }
    }

    /// Marks the end of the output: an unterminated last line may now match.
    pub fn end(&mut self)
        requires
            old(self).wf(),
        ensures
            final(self).wf(),
            final(self)@ == scanner_ended(old(self)@),
    {
        if self.found.is_some() && !self.ended {
            proof {
                lemma_match_stays(self.seen@, seq![], self.prefix@, 0);
                assert(self.seen@ + seq![] =~= self.seen@);
            }
        } else if self.found.is_none() {
            self.found = scan_lines(&self.seen, &self.prefix, false);
        }
        self.ended = true;
    }

    /// Whether a line has matched: the output need not be read further.
    pub fn is_done(&self) -> (r: bool)
        ensures
            r == self@.found is Some,
    {
        self.found.is_some()
    }

    /// The matched line as text, once a line has matched.
    pub fn identity(&self) -> (r: Option<String>)
        ensures
            r is Some <==> self@.found is Some,
            r matches Some(t) ==> t@ == identity_text(self@),
    {
        match &self.found {
            Some(l) => Some(text_from_utf8_lossy(l)),
            None => None,
        }
    }

    /// The matched line as text, or `IdentityGenerationFailed` if none has
    /// matched.
    pub fn finish(self) -> (r: Result<String, crate::CeremonyError>)
        ensures
            r is Ok <==> self@.found is Some,
            r matches Ok(t) ==> t@ == identity_text(self@),
            r matches Err(e) ==> e == crate::CeremonyError::IdentityGenerationFailed,
    {
        match self.identity() {
            Some(t) => Ok(t),
            None => Err(crate::CeremonyError::IdentityGenerationFailed),
        }
    }
}

} // verus!
