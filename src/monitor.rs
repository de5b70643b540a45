//! One site's check results, its state between checks, and the log lines
//! that each check produces.
use vstd::prelude::*;
use vstd::string::{StrSliceExecFns, StringExecFns, StringSliceAdditionalSpecFns};
use crate::fingerprint::{fingerprint, is_lower_hex_digit, md5_hex};
use crate::text::{decimal, push_decimal};

verus! {

/// What one successful check observed.
pub struct CheckResult {
    /// The response status was in the success class.
    pub is_up: bool,
    /// Hex digest of the response body.
    pub hash: String,
    /// Byte length of the response body.
    pub content_size: usize,
    /// Milliseconds from the request's start to the end of the body.
    pub load_time: u128,
}

/// Why a check produced no result.
pub enum CheckFailure {
    /// The request itself failed (resolution, connection, timeout, ...).
    Request(String),
    /// The response arrived but its body could not be read.
    BodyRead(String),
}

/// What a site's task remembers between checks.
pub struct SiteState {
    pub last_hash: Option<String>,
    pub last_size: Option<usize>,
    pub is_up: bool,
}

/// A status code of the success class (2xx).
pub open spec fn is_success_status(code: u16) -> bool {
    200 <= code && code < 300
}

/// Whether `code` is of the success class.
pub fn status_is_success(code: u16) -> (r: bool)
    ensures
        r == is_success_status(code),
{
    200 <= code && code < 300
}

impl CheckResult {
    /// The result of a check whose response had status `status` and body
    /// `body`, read completely after `load_time` milliseconds.
    pub fn from_response(status: u16, body: &str, load_time: u128) -> (r: CheckResult)
        ensures
            r.is_up == is_success_status(status),
            r.hash@ == md5_hex(body.spec_bytes()),
            r.hash@.len() == 32,
            forall|i: int| 0 <= i < r.hash@.len() ==> is_lower_hex_digit(#[trigger] r.hash@[i]),
            r.content_size == body.spec_bytes().len(),
            r.load_time == load_time,
    {
        let fp = fingerprint(body);
        CheckResult {
            is_up: status_is_success(status),
            hash: fp.hash,
            content_size: fp.size,
            load_time,
        }
    }
}

/// The message that a failed check reports.
pub open spec fn failure_message(f: CheckFailure) -> Seq<char> {
    match f {
        CheckFailure::Request(e) => "Request failed: "@ + e@,
        CheckFailure::BodyRead(e) => "Failed to read response body: "@ + e@,
    }
}

impl CheckFailure {
    /// The human-readable cause of the failure.
    pub fn message(&self) -> (r: String)
        ensures
            r@ == failure_message(*self),
    {
        match self {
            CheckFailure::Request(e) => {
                let mut s = String::from_str("Request failed: ");
                s.append(e.as_str());
                s
            },
            CheckFailure::BodyRead(e) => {
                let mut s = String::from_str("Failed to read response body: ");
                s.append(e.as_str());
                s
            },
        }
    }
}

/// The first five characters of a digest, or all of it when shorter.
pub open spec fn hash_prefix(hash: Seq<char>) -> Seq<char> {
    if hash.len() < 5 { hash } else { hash.take(5) }
}

/// `"up"` or `"down"`.
pub open spec fn status_word(is_up: bool) -> Seq<char> {
    if is_up { "up"@ } else { "down"@ }
}

/// The line written for every successful check.
pub open spec fn status_line(url: Seq<char>, r: CheckResult) -> Seq<char> {
    "website: "@ + url + " | load_time: "@ + decimal(r.load_time as nat) + "ms | status: "@
        + status_word(r.is_up) + " | size: "@ + decimal(r.content_size as nat)
        + "bytes | content_hash: "@ + hash_prefix(r.hash@)
}

/// The line written when a site comes up or goes down.
pub open spec fn transition_line(now_up: bool) -> Seq<char> {
    if now_up { "  status changed: down -> up"@ } else { "  status changed: up -> down"@ }
}

/// The line written when a site's content differs from the previous check.
pub open spec fn content_changed_line() -> Seq<char> {
    "  content changed"@
}

/// The line written for every failed check.
pub open spec fn error_line(url: Seq<char>) -> Seq<char> {
    "website: "@ + url + " | load_time: n/a | status: error"@
}

/// The line that carries a failed check's cause.
pub open spec fn error_detail_line(message: Seq<char>) -> Seq<char> {
    "  error: "@ + message
}

/// A check's up/down status differs from the one remembered.
pub open spec fn status_changes(s: SiteState, r: CheckResult) -> bool {
    s.is_up != r.is_up
}

/// A digest was remembered and the check's digest differs from it.
pub open spec fn content_changes(s: SiteState, r: CheckResult) -> bool {
    match s.last_hash {
        Some(h) => h@ != r.hash@,
        None => false,
    }
}

/// The lines that a successful check writes, in order.
pub open spec fn success_lines(url: Seq<char>, s: SiteState, r: CheckResult) -> Seq<Seq<char>> {
    seq![status_line(url, r)]
        + (if status_changes(s, r) { seq![transition_line(r.is_up)] } else { Seq::empty() })
        + (if content_changes(s, r) { seq![content_changed_line()] } else { Seq::empty() })
}

/// The lines that a failed check writes, in order.
pub open spec fn failure_lines(url: Seq<char>, f: CheckFailure) -> Seq<Seq<char>> {
    seq![error_line(url), error_detail_line(failure_message(f))]
}

/// The views of a sequence of strings.
pub open spec fn views(lines: Seq<String>) -> Seq<Seq<char>> {
    lines.map_values(|l: String| l@)
}

/// The state remembered after a successful check.
pub open spec fn after_success(s: SiteState, r: CheckResult) -> SiteState {
    SiteState { last_hash: Some(r.hash), last_size: Some(r.content_size), is_up: r.is_up }
}

/// The state a site's task starts from: up, with nothing remembered.
pub open spec fn is_initial(s: SiteState) -> bool {
    s.is_up && s.last_hash is None && s.last_size is None
}

/// The state remembered after a check with outcome `o`: a failure marks the
/// site down and keeps the digest and size of the last success.
pub open spec fn after_outcome(s: SiteState, o: Result<CheckResult, CheckFailure>) -> SiteState {
    match o {
        Ok(r) => after_success(s, r),
        Err(_) => SiteState { last_hash: s.last_hash, last_size: s.last_size, is_up: false },
    }
}

/// The state after checks with outcomes `os`, in order, starting from `s`.
pub open spec fn state_after(s: SiteState, os: Seq<Result<CheckResult, CheckFailure>>) -> SiteState
    decreases os.len(),
{
    if os.len() == 0 {
        s
    } else {
        after_outcome(state_after(s, os.drop_last()), os.last())
    }
}

/// The digest that the next check is compared with, if any.
pub open spec fn baseline(s: SiteState) -> Option<Seq<char>> {
    match s.last_hash {
        Some(h) => Some(h@),
        None => None,
    }
}

/// The digest of the latest success among `os`, or, when none succeeded,
/// the digest that `s` remembers.
pub open spec fn latest_digest(s: SiteState, os: Seq<Result<CheckResult, CheckFailure>>) -> Option<Seq<char>>
    decreases os.len(),
{
    if os.len() == 0 {
        baseline(s)
    } else {
        match os.last() {
            Ok(r) => Some(r.hash@),
            Err(_) => latest_digest(s, os.drop_last()),
        }
    }
}

proof fn lemma_baseline_is_latest_digest(s: SiteState, os: Seq<Result<CheckResult, CheckFailure>>)
    ensures
        baseline(state_after(s, os)) == latest_digest(s, os),
    decreases os.len(),
{
    if os.len() > 0 {
        lemma_baseline_is_latest_digest(s, os.drop_last());
    }
}

proof fn lemma_prefix_step(os: Seq<Result<CheckResult, CheckFailure>>, i: int)
    requires
        0 < i <= os.len(),
    ensures
        os.take(i).drop_last() == os.take(i - 1),
        os.take(i).last() == os[i - 1],
{
    assert(os.take(i).drop_last() =~= os.take(i - 1));
}

/// A successful check reports changed content exactly when a digest is
/// known from an earlier success (or from the starting state) and the
/// check's digest differs from the latest such digest; failed checks in
/// between leave that digest as it was.
pub proof fn lemma_content_change_iff_digest_differs(
    s: SiteState,
    os: Seq<Result<CheckResult, CheckFailure>>,
    i: int,
)
    requires
        0 <= i < os.len(),
        os[i] is Ok,
    ensures
        content_changes(state_after(s, os.take(i)), os[i]->Ok_0) <==> (
            latest_digest(s, os.take(i)) is Some
                && latest_digest(s, os.take(i))->Some_0 != os[i]->Ok_0.hash@),
{
    lemma_baseline_is_latest_digest(s, os.take(i));
}

proof fn lemma_no_digest_before_success(s: SiteState, os: Seq<Result<CheckResult, CheckFailure>>)
    requires
        s.last_hash is None,
        forall|j: int| 0 <= j < os.len() ==> #[trigger] os[j] is Err,
    ensures
        latest_digest(s, os) is None,
    decreases os.len(),
{
    if os.len() > 0 {
        assert(os.last() is Err);
        lemma_no_digest_before_success(s, os.drop_last());
    }
}

/// From the initial state, the first successful check never reports changed
/// content, whatever failed checks came before it: there is no digest yet
/// to compare with.
pub proof fn lemma_first_success_no_content_change(
    s: SiteState,
    os: Seq<Result<CheckResult, CheckFailure>>,
    i: int,
)
    requires
        is_initial(s),
        0 <= i < os.len(),
        os[i] is Ok,
        forall|j: int| 0 <= j < i ==> #[trigger] os[j] is Err,
    ensures
        !content_changes(state_after(s, os.take(i)), os[i]->Ok_0),
{
    let p = os.take(i);
    assert forall|j: int| 0 <= j < p.len() implies #[trigger] p[j] is Err by {
        assert(p[j] == os[j]);
    }
    lemma_no_digest_before_success(s, p);
    lemma_content_change_iff_digest_differs(s, os, i);
}

proof fn lemma_latest_digest_is(s: SiteState, os: Seq<Result<CheckResult, CheckFailure>>, h: Seq<char>)
    requires
        s.last_hash is None,
        forall|j: int| 0 <= j < os.len() && (#[trigger] os[j]) is Ok ==> os[j]->Ok_0.hash@ == h,
    ensures
        latest_digest(s, os) is None || latest_digest(s, os) == Some(h),
    decreases os.len(),
{
    if os.len() > 0 {
        let q = os.drop_last();
        assert forall|j: int| 0 <= j < q.len() && (#[trigger] q[j]) is Ok implies q[j]->Ok_0.hash@ == h by {
            assert(q[j] == os[j]);
        }
        lemma_latest_digest_is(s, q, h);
        assert(os.last() == os[os.len() - 1]);
    }
}

/// From the initial state, when every successful check sees a body with the
/// same digest `h`, no check reports changed content, whatever checks fail
/// in between.
pub proof fn lemma_same_content_never_changes(
    s: SiteState,
    os: Seq<Result<CheckResult, CheckFailure>>,
    h: Seq<char>,
)
    requires
        is_initial(s),
        forall|j: int| 0 <= j < os.len() && (#[trigger] os[j]) is Ok ==> os[j]->Ok_0.hash@ == h,
    ensures
        forall|i: int| 0 <= i < os.len() && (#[trigger] os[i]) is Ok ==>
            !content_changes(state_after(s, os.take(i)), os[i]->Ok_0),
{
    assert forall|i: int| 0 <= i < os.len() && (#[trigger] os[i]) is Ok implies
        !content_changes(state_after(s, os.take(i)), os[i]->Ok_0) by {
        let p = os.take(i);
        assert forall|j: int| 0 <= j < p.len() && (#[trigger] p[j]) is Ok implies p[j]->Ok_0.hash@ == h by {
            assert(p[j] == os[j]);
        }
        lemma_latest_digest_is(s, p, h);
        lemma_content_change_iff_digest_differs(s, os, i);
    }
}

/// Along a run of successful checks from the initial state (which counts as
/// up), a check writes a transition line exactly when its up/down status
/// differs from that of the check just before it, or, for the first check,
/// when it is down; the line then follows the status line and names the
/// new status.
pub proof fn lemma_transition_iff_status_differs(
    url: Seq<char>,
    s: SiteState,
    os: Seq<Result<CheckResult, CheckFailure>>,
    i: int,
)
    requires
        is_initial(s),
        0 <= i < os.len(),
        forall|j: int| 0 <= j < os.len() ==> #[trigger] os[j] is Ok,
    ensures
        ({
            let st = state_after(s, os.take(i));
            let r = os[i]->Ok_0;
            &&& i == 0 ==> (status_changes(st, r) <==> !r.is_up)
            &&& i > 0 ==> (status_changes(st, r) <==> os[i - 1]->Ok_0.is_up != r.is_up)
            &&& success_lines(url, st, r).len() == 1 + (if status_changes(st, r) { 1int } else { 0int })
                + (if content_changes(st, r) { 1int } else { 0int })
            &&& status_changes(st, r) ==> success_lines(url, st, r)[1] == transition_line(r.is_up)
        }),
{
    if i > 0 {
        lemma_prefix_step(os, i);
        assert(os[i - 1] is Ok);
    } else {
        assert(os.take(i) =~= Seq::<Result<CheckResult, CheckFailure>>::empty());
    }
}

fn status_line_of(url: &str, r: &CheckResult) -> (line: String)
    ensures
        line@ == status_line(url@, *r),
{
    let mut line = String::from_str("website: ");
    line.append(url);
    line.append(" | load_time: ");
    push_decimal(&mut line, r.load_time);
    line.append("ms | status: ");
    if r.is_up {
        line.append("up");
    } else {
        line.append("down");
    }
    line.append(" | size: ");
    push_decimal(&mut line, r.content_size as u128);
    line.append("bytes | content_hash: ");
    let n = r.hash.as_str().unicode_len();
    let k: usize = if n < 5 { n } else { 5 };
    let prefix = r.hash.as_str().substring_char(0, k);
    line.append(prefix);
    proof {
        if n < 5 {
            assert(r.hash@.subrange(0, k as int) =~= r.hash@);
        }
    }
    line
}

fn text_line(s: &str) -> (line: String)
    ensures
        line@ == s@,
{
    String::from_str(s)
}

impl SiteState {
    /// The state of a site that has not been checked yet.
    pub fn new() -> (s: SiteState)
        ensures
            is_initial(s),
    {
        SiteState { last_hash: None, last_size: None, is_up: true }
    }

    /// Takes in a successful check of `url` and returns the lines to log.
    pub fn record_success(&mut self, url: &str, r: CheckResult) -> (lines: Vec<String>)
        ensures
            views(lines@) == success_lines(url@, *old(self), r),
            *final(self) == after_success(*old(self), r),
    {
        let ghost s0 = *self;
        let mut lines: Vec<String> = Vec::new();
        lines.push(status_line_of(url, &r));
        assert(views(lines@) =~= seq![status_line(url@, r)]);
        if self.is_up != r.is_up {
            if r.is_up {
                lines.push(text_line("  status changed: down -> up"));
            } else {
                lines.push(text_line("  status changed: up -> down"));
            }
            self.is_up = r.is_up;
        }
        let changed = match &self.last_hash {
            Some(last) => !last.eq(&r.hash),
            None => false,
        };
        assert(changed == content_changes(s0, r));
        let ghost before = views(lines@);
        assert(before =~= seq![status_line(url@, r)]
            + (if status_changes(s0, r) { seq![transition_line(r.is_up)] } else { Seq::empty() }));
        if changed {
            lines.push(text_line("  content changed"));
            assert(views(lines@) =~= before.push(content_changed_line()));
        }
        assert(views(lines@) =~= success_lines(url@, s0, r));
        self.last_hash = Some(r.hash);
        self.last_size = Some(r.content_size);
        self.is_up = r.is_up;
        lines
    }

    /// Takes in a failed check of `url` and returns the lines to log. The
    /// site counts as down afterwards; no transition line is written.
    pub fn record_failure(&mut self, url: &str, f: &CheckFailure) -> (lines: Vec<String>)
        ensures
            views(lines@) == failure_lines(url@, *f),
            final(self).is_up == false,
            final(self).last_hash == old(self).last_hash,
            final(self).last_size == old(self).last_size,
    {
        let mut first = String::from_str("website: ");
        first.append(url);
        first.append(" | load_time: n/a | status: error");
        let mut second = String::from_str("  error: ");
        let msg = f.message();
        second.append(msg.as_str());
        let mut lines: Vec<String> = Vec::new();
        lines.push(first);
        lines.push(second);
        assert(views(lines@) =~= failure_lines(url@, *f));
        if self.is_up {
            self.is_up = false;
        }
        lines
    }

    /// Takes in the outcome of one check of `url` and returns the lines to log.
    pub fn record(&mut self, url: &str, outcome: Result<CheckResult, CheckFailure>) -> (lines: Vec<String>)
        ensures
            match outcome {
                Ok(r) => views(lines@) == success_lines(url@, *old(self), r)
                    && *final(self) == after_success(*old(self), r),
                Err(f) => views(lines@) == failure_lines(url@, f),
            },
            *final(self) == after_outcome(*old(self), outcome),
    {
        match outcome {
            Ok(r) => self.record_success(url, r),
            Err(f) => self.record_failure(url, &f),
        }
    }
}

} // verus!
