use vstd::prelude::*;
use crate::bytes::{bytes_eq, str_bytes, views};
use crate::common_utils::opt_view;
use base64::engine::general_purpose::STANDARD;
use base64::Engine;

verus! {

/// Whether `needle` occurs as a contiguous run of bytes in `hay`.
pub open spec fn has_window(hay: Seq<u8>, needle: Seq<u8>) -> bool {
    exists|i: int| 0 <= i && i + needle.len() <= hay.len() && #[trigger] hay.subrange(i, i + needle.len()) == needle
}

/// Whether `needle` occurs in `hay` starting at `start`.
fn matches_at(hay: &Vec<u8>, needle: &Vec<u8>, start: usize) -> (r: bool)
    requires
        start + needle.len() <= hay.len(),
    ensures
        r == (hay@.subrange(start as int, start + needle.len()) == needle@),
{
    let mut j: usize = 0;
    while j < needle.len()
        invariant
            start + needle.len() <= hay.len(),
            j <= needle.len(),
            forall|k: int| 0 <= k < j ==> hay@[start + k] == needle@[k],
        decreases needle.len() - j,
    {
        if hay[start + j] != needle[j] {
            assert(hay@.subrange(start as int, start + needle.len())[j as int] != needle@[j as int]);
            return false;
        }
        j = j + 1;
    }
    assert(hay@.subrange(start as int, start + needle.len()) =~= needle@);
    true
}

/// Whether `needle` occurs in `hay`, as the windows of `hay` of the needle's
/// length show it. The needle is not empty: a window of length zero is refused.
pub fn contains_window(hay: &Vec<u8>, needle: &Vec<u8>) -> (r: bool)
    requires
        needle.len() > 0,
    ensures
        r == has_window(hay@, needle@),
{
    if needle.len() > hay.len() {
        return false;
    }
    let n = needle.len();
    let last = hay.len() - n;
    let mut i: usize = 0;
    while i <= last
        invariant
            n == needle.len(),
            n > 0,
            last + n == hay.len(),
            i <= last + 1,
            forall|k: int| 0 <= k < i ==> #[trigger] hay@.subrange(k, k + n) != needle@,
        decreases last + 1 - i,
    {
        if matches_at(hay, needle, i) {
            return true;
        }
        i = i + 1;
    }
    assert forall|k: int| 0 <= k && k + needle.len() <= hay.len() implies #[trigger] hay@.subrange(k, k + needle.len()) != needle@ by {
        assert(k < i);
    }
    false
}

/// What decoding `input` as standard base64 gives, `None` where it is not valid.
pub uninterp spec fn base64_decoded(input: Seq<u8>) -> Option<Seq<u8>>;

/// Standard base64 decoding (`base64::engine::general_purpose::STANDARD.decode`).
/// The contract names its result; an input it rejects gives `None`.
#[verifier::external_body]
pub(crate) fn base64_decode(input: &Vec<u8>) -> (r: Option<Vec<u8>>)
    ensures
        opt_view(r) == base64_decoded(input@),
{
    STANDARD.decode(input).ok()
}

/// A topic matches an expected one when it is that topic, raw or base64-encoded.
pub open spec fn spec_topic_matches(topic: Seq<u8>, expected: Seq<u8>) -> bool {
    topic == expected || base64_decoded(topic) == Some(expected)
}

pub fn topic_matches(log_topic: &Vec<u8>, expected_topic: &Vec<u8>) -> (r: bool)
    ensures
        r == spec_topic_matches(log_topic@, expected_topic@),
{
    if bytes_eq(log_topic, expected_topic) {
        return true;
    }
    match base64_decode(log_topic) {
        Some(decoded) => bytes_eq(&decoded, expected_topic),
        None => false,
    }
}

/// A data item matches expected data when the data occurs in it, raw or after
/// base64 decoding.
pub open spec fn spec_data_matches(data: Seq<u8>, expected: Seq<u8>) -> bool {
    has_window(data, expected) || (base64_decoded(data) matches Some(d) && has_window(d, expected))
}

pub fn data_matches(log_data: &Vec<u8>, expected_data: &Vec<u8>) -> (r: bool)
    requires
        expected_data.len() > 0,
    ensures
        r == spec_data_matches(log_data@, expected_data@),
{
    if contains_window(log_data, expected_data) {
        return true;
    }
    match base64_decode(log_data) {
        Some(decoded) => contains_window(&decoded, expected_data),
        None => false,
    }
}

/// One event log of a transaction, as far as the checks read it: the endpoint
/// or event identifier, the topics and the data items.
pub struct Log {
    pub endpoint: Vec<u8>,
    pub topics: Vec<Vec<u8>>,
    pub data: Vec<Vec<u8>>,
}

/// A log that a test expects: its identifier, and optionally topics that one
/// log of that identifier must all carry and data one of those logs must hold.
pub struct ExpectedLogs {
    pub identifier: Vec<u8>,
    pub topics: Option<Vec<Vec<u8>>>,
    pub data: Option<Vec<u8>>,
}

/// Why a check of transaction logs failed. `expected` is the position of the
/// expected log that failed.
#[derive(PartialEq, Eq, Structural)]
pub enum LogCheckError {
    /// Logs were found where none were expected.
    UnexpectedLogs,
    /// An error was to be looked for where no log was expected.
    UnexpectedErrorCheck,
    /// No log with the expected identifier or topic.
    LogNotFound { expected: usize },
    /// The expected error does not occur in the logs' data.
    ErrorNotFound,
    /// No log of the identifier carries all the expected topics.
    TopicsNotFound { expected: usize },
    /// None of the matching logs holds the expected data.
    DataNotFound { expected: usize },
    /// An executed-operation event was expected exactly once.
    NotExactlyOneLog { expected: usize, found: usize },
    /// The virtual machine reported internal errors.
    InternalVmError { expected: usize },
    /// The executed-operation event carries data.
    UnexpectedData { expected: usize },
}

pub open spec fn ascii_bytes(s: Seq<char>) -> Seq<u8> {
    s.map_values(|c: char| c as u8)
}

/// The event that closes an executed bridge operation.
pub open spec fn executed_bridge_op_event() -> Seq<u8> {
    ascii_bytes("executedBridgeOp"@)
}

/// The endpoint that executes bridge operations.
pub open spec fn execute_bridge_ops_endpoint() -> Seq<u8> {
    ascii_bytes("executeBridgeOps"@)
}

/// The endpoint that executes a single operation.
pub open spec fn execute_operation_endpoint() -> Seq<u8> {
    ascii_bytes("executeOperation"@)
}

/// The identifier of the log in which the virtual machine reports internal errors.
pub open spec fn internal_vm_errors() -> Seq<u8> {
    ascii_bytes("internalVMErrors"@)
}

fn executed_bridge_op_event_bytes() -> (r: Vec<u8>)
    ensures
        r@ == executed_bridge_op_event(),
{
    proof {
        reveal_strlit("executedBridgeOp");
    }
    str_bytes("executedBridgeOp")
}

fn execute_bridge_ops_endpoint_bytes() -> (r: Vec<u8>)
    ensures
        r@ == execute_bridge_ops_endpoint(),
{
    proof {
        reveal_strlit("executeBridgeOps");
    }
    str_bytes("executeBridgeOps")
}

fn execute_operation_endpoint_bytes() -> (r: Vec<u8>)
    ensures
        r@ == execute_operation_endpoint(),
{
    proof {
        reveal_strlit("executeOperation");
    }
    str_bytes("executeOperation")
}

fn internal_vm_errors_bytes() -> (r: Vec<u8>)
    ensures
        r@ == internal_vm_errors(),
{
    proof {
        reveal_strlit("internalVMErrors");
    }
    str_bytes("internalVMErrors")
}

/// Whether one of the log's topics matches `expected`.
pub open spec fn log_has_topic(log: Log, expected: Seq<u8>) -> bool {
    exists|k: int| 0 <= k < log.topics.len() && spec_topic_matches(#[trigger] log.topics@[k]@, expected)
}

/// Whether the log carries every expected topic.
pub open spec fn spec_log_contains_all_topics(log: Log, expected: Seq<Seq<u8>>) -> bool {
    forall|j: int| 0 <= j < expected.len() ==> log_has_topic(log, #[trigger] expected[j])
}

/// Whether one of the log's data items matches `expected`.
pub open spec fn spec_log_contains_data(log: Log, expected: Seq<u8>) -> bool {
    exists|k: int| 0 <= k < log.data.len() && spec_data_matches(#[trigger] log.data@[k]@, expected)
}

fn log_has_topic_exec(log: &Log, expected: &Vec<u8>) -> (r: bool)
    ensures
        r == log_has_topic(*log, expected@),
{
    let mut k: usize = 0;
    while k < log.topics.len()
        invariant
            k <= log.topics.len(),
            forall|x: int| 0 <= x < k ==> !spec_topic_matches(#[trigger] log.topics@[x]@, expected@),
        decreases log.topics.len() - k,
    {
        if topic_matches(&log.topics[k], expected) {
            return true;
        }
        k = k + 1;
    }
    false
}

pub fn log_contains_all_topics(log: &Log, expected_topics: &Vec<Vec<u8>>) -> (r: bool)
    ensures
        r == spec_log_contains_all_topics(*log, views(expected_topics@)),
{
    let ghost ev = views(expected_topics@);
    let mut j: usize = 0;
    while j < expected_topics.len()
        invariant
            j <= expected_topics.len(),
            ev == views(expected_topics@),
            forall|x: int| 0 <= x < j ==> log_has_topic(*log, #[trigger] ev[x]),
        decreases expected_topics.len() - j,
    {
        if !log_has_topic_exec(log, &expected_topics[j]) {
            assert(ev[j as int] == expected_topics@[j as int]@);
            return false;
        }
        assert(ev[j as int] == expected_topics@[j as int]@);
        j = j + 1;
    }
    true
}

pub fn log_contains_data(log: &Log, expected: &Vec<u8>) -> (r: bool)
    requires
        expected.len() > 0,
    ensures
        r == spec_log_contains_data(*log, expected@),
{
    let mut k: usize = 0;
    while k < log.data.len()
        invariant
            expected.len() > 0,
            k <= log.data.len(),
            forall|x: int| 0 <= x < k ==> !spec_data_matches(#[trigger] log.data@[x]@, expected@),
        decreases log.data.len() - k,
    {
        if data_matches(&log.data[k], expected) {
            return true;
        }
        k = k + 1;
    }
    false
}


/// Whether a log answers an expected log: it has the identifier and, where
/// topics are expected, all of them.
pub open spec fn selected(log: Log, e: ExpectedLogs) -> bool {
    &&& log.endpoint@ == e.identifier@
    &&& (e.topics matches Some(ts) ==> spec_log_contains_all_topics(log, views(ts@)))
}

/// The positions, in order, of the first `n` logs that answer `e`.
pub open spec fn selected_indices(logs: Seq<Log>, e: ExpectedLogs, n: int) -> Seq<usize>
    decreases n,
{
    if n <= 0 {
        Seq::empty()
    } else {
        let prev = selected_indices(logs, e, n - 1);
        if selected(logs[n - 1], e) {
            prev.push((n - 1) as usize)
        } else {
            prev
        }
    }
}

proof fn lemma_selected_indices(logs: Seq<Log>, e: ExpectedLogs, n: int)
    requires
        0 <= n <= logs.len(),
        logs.len() <= usize::MAX,
    ensures
        forall|j: int| 0 <= j < selected_indices(logs, e, n).len() ==>
            #[trigger] selected_indices(logs, e, n)[j] < n
                && selected(logs[selected_indices(logs, e, n)[j] as int], e),
        forall|i: int| 0 <= i < n && selected(logs[i], e) ==> selected_indices(logs, e, n).contains(i as usize),
    decreases n,
{
    if n > 0 {
        lemma_selected_indices(logs, e, n - 1);
        let prev = selected_indices(logs, e, n - 1);
        if selected(logs[n - 1], e) {
            let cur = prev.push((n - 1) as usize);
            assert(cur[prev.len() as int] == (n - 1) as usize);
            assert forall|j: int| 0 <= j < cur.len() implies #[trigger] cur[j] < n && selected(logs[cur[j] as int], e) by {
                if j < prev.len() {
                    assert(cur[j] == prev[j]);
                }
            }
            assert forall|i: int| 0 <= i < n && selected(logs[i], e) implies selected_indices(logs, e, n).contains(i as usize) by {
                if i < n - 1 {
                    let j = choose|j: int| 0 <= j < prev.len() && prev[j] == i as usize;
                    assert(selected_indices(logs, e, n)[j] == i as usize);
                }
            }
        }
    }
}

/// Whether some log has the expected identifier.
pub open spec fn identifier_found(logs: Seq<Log>, e: ExpectedLogs) -> bool {
    exists|i: int| 0 <= i < logs.len() && (#[trigger] logs[i]).endpoint@ == e.identifier@
}

/// Whether the identifier is one of the two endpoints that execute operations.
pub open spec fn is_execute_endpoint(id: Seq<u8>) -> bool {
    id == execute_bridge_ops_endpoint() || id == execute_operation_endpoint()
}

/// How the check of one expected log fails, if it does; `idx` is its position.
pub open spec fn expected_log_failure(logs: Seq<Log>, e: ExpectedLogs, idx: usize) -> Option<LogCheckError> {
    let sel = selected_indices(logs, e, logs.len() as int);
    if !identifier_found(logs, e) {
        Some(LogCheckError::LogNotFound { expected: idx })
    } else if e.topics is Some && sel.len() == 0 {
        Some(LogCheckError::TopicsNotFound { expected: idx })
    } else {
        match e.data {
            Some(d) => if exists|j: int| 0 <= j < sel.len() && spec_log_contains_data(logs[#[trigger] sel[j] as int], d@) {
                None
            } else {
                Some(LogCheckError::DataNotFound { expected: idx })
            },
            None => if !is_execute_endpoint(e.identifier@)
                || !(e.topics matches Some(ts) && ts@[0]@ == executed_bridge_op_event()) {
                None
            } else if sel.len() != 1 {
                Some(LogCheckError::NotExactlyOneLog { expected: idx, found: sel.len() as usize })
            } else if exists|i: int| 0 <= i < logs.len() && (#[trigger] logs[i]).endpoint@ == internal_vm_errors() {
                Some(LogCheckError::InternalVmError { expected: idx })
            } else if exists|k: int| 0 <= k < logs[sel[0] as int].data.len() && (#[trigger] logs[sel[0] as int].data@[k]).len() > 0 {
                Some(LogCheckError::UnexpectedData { expected: idx })
            } else {
                None
            },
        }
    }
}

/// The first failure among the expected logs from position `from` on.
pub open spec fn first_log_failure(logs: Seq<Log>, es: Seq<ExpectedLogs>, from: int) -> Option<LogCheckError>
    decreases es.len() - from,
{
    if from < 0 || from >= es.len() {
        None
    } else {
        match expected_log_failure(logs, es[from], from as usize) {
            Some(err) => Some(err),
            None => first_log_failure(logs, es, from + 1),
        }
    }
}

/// What the check needs of an expected log to run: expected data is not empty,
/// and the topics of an execution event to look at are not empty.
pub open spec fn expected_log_checkable(e: ExpectedLogs) -> bool {
    &&& (e.data matches Some(d) ==> d.len() > 0)
    &&& (e.data is None && is_execute_endpoint(e.identifier@) ==> (e.topics matches Some(ts) ==> ts.len() > 0))
}

#[verifier::loop_isolation(false)]
fn check_expected_log(logs: &Vec<Log>, e: &ExpectedLogs, idx: usize) -> (r: Option<LogCheckError>)
    requires
        expected_log_checkable(*e),
    ensures
        r == expected_log_failure(logs@, *e, idx),
{
    let mut sel: Vec<usize> = Vec::new();
    let mut found = false;
    let mut i: usize = 0;
    while i < logs.len()
        invariant
            i <= logs.len(),
            sel@ == selected_indices(logs@, *e, i as int),
            found == exists|x: int| 0 <= x < i && (#[trigger] logs@[x]).endpoint@ == e.identifier@,
        decreases logs.len() - i,
    {
        if bytes_eq(&logs[i].endpoint, &e.identifier) {
            found = true;
            let keep = match &e.topics {
                Some(ts) => log_contains_all_topics(&logs[i], ts),
                None => true,
            };
            if keep {
                sel.push(i);
            }
        }
        i = i + 1;
    }
    proof {
        lemma_selected_indices(logs@, *e, logs@.len() as int);
    }
    if !found {
        return Some(LogCheckError::LogNotFound { expected: idx });
    }
    if e.topics.is_some() && sel.len() == 0 {
        return Some(LogCheckError::TopicsNotFound { expected: idx });
    }
    match &e.data {
        Some(d) => {
            let mut j: usize = 0;
            while j < sel.len()
                invariant
                    d.len() > 0,
                    j <= sel.len(),
                    forall|x: int| 0 <= x < sel.len() ==> #[trigger] sel@[x] < logs.len(),
                    forall|x: int| 0 <= x < j ==> !spec_log_contains_data(logs@[#[trigger] sel@[x] as int], d@),
                decreases sel.len() - j,
            {
                if log_contains_data(&logs[sel[j]], d) {
                    assert(spec_log_contains_data(logs@[selected_indices(logs@, *e, logs@.len() as int)[j as int] as int], d@));
                    return None;
                }
                j = j + 1;
            }
            Some(LogCheckError::DataNotFound { expected: idx })
        },
        None => {
            let ex1 = execute_bridge_ops_endpoint_bytes();
            let ex2 = execute_operation_endpoint_bytes();
            if !bytes_eq(&e.identifier, &ex1) && !bytes_eq(&e.identifier, &ex2) {
                return None;
            }
            let event = executed_bridge_op_event_bytes();
            let is_event = match &e.topics {
                Some(ts) => bytes_eq(&ts[0], &event),
                None => false,
            };
            if !is_event {
                return None;
            }
            if sel.len() != 1 {
                return Some(LogCheckError::NotExactlyOneLog { expected: idx, found: sel.len() });
            }
            let vm = internal_vm_errors_bytes();
            let mut i: usize = 0;
            while i < logs.len()
                invariant
                    i <= logs.len(),
                    vm@ == internal_vm_errors(),
                    forall|x: int| 0 <= x < i ==> (#[trigger] logs@[x]).endpoint@ != internal_vm_errors(),
                decreases logs.len() - i,
            {
                if bytes_eq(&logs[i].endpoint, &vm) {
                    assert(logs@[i as int].endpoint@ == internal_vm_errors());
                    return Some(LogCheckError::InternalVmError { expected: idx });
                }
                i = i + 1;
            }
            let first = &logs[sel[0]];
            let mut k: usize = 0;
            while k < first.data.len()
                invariant
                    k <= first.data.len(),
                    forall|x: int| 0 <= x < k ==> (#[trigger] first.data@[x]).len() == 0,
                decreases first.data.len() - k,
            {
                if first.data[k].len() > 0 {
                    assert(logs@[selected_indices(logs@, *e, logs@.len() as int)[0] as int].data@[k as int].len() > 0);
                    return Some(LogCheckError::UnexpectedData { expected: idx });
                }
                k = k + 1;
            }
            None
        },
    }
}

/// Checks transaction logs against a list of expected logs, in order, and
/// reports the first expectation that fails.
pub fn assert_expected_logs(logs: &Vec<Log>, expected_logs: &Vec<ExpectedLogs>) -> (r: Result<(), LogCheckError>)
    requires
        forall|j: int| 0 <= j < expected_logs.len() ==> expected_log_checkable(#[trigger] expected_logs@[j]),
    ensures
        match first_log_failure(logs@, expected_logs@, 0) {
            Some(err) => r == Err::<(), LogCheckError>(err),
            None => r is Ok,
        },
{
    let mut i: usize = 0;
    while i < expected_logs.len()
        invariant
            i <= expected_logs.len(),
            forall|j: int| 0 <= j < expected_logs.len() ==> expected_log_checkable(#[trigger] expected_logs@[j]),
            first_log_failure(logs@, expected_logs@, 0) == first_log_failure(logs@, expected_logs@, i as int),
        decreases expected_logs.len() - i,
    {
        match check_expected_log(logs, &expected_logs[i], i) {
            Some(err) => {
                return Err(err);
            },
            None => {},
        }
        i = i + 1;
    }
    Ok(())
}

/// Whether the expected text occurs in one of the log's topics or data items.
pub open spec fn log_mentions(log: Log, expected: Seq<u8>) -> bool {
    ||| exists|k: int| 0 <= k < log.topics.len() && has_window(#[trigger] log.topics@[k]@, expected)
    ||| exists|k: int| 0 <= k < log.data.len() && has_window(#[trigger] log.data@[k]@, expected)
}

/// Whether the expected text occurs in one of the log's data items.
pub open spec fn data_mentions(log: Log, expected: Seq<u8>) -> bool {
    exists|k: int| 0 <= k < log.data.len() && has_window(#[trigger] log.data@[k]@, expected)
}

/// The verdict on a transaction's logs when a log mentioning `expected_log`
/// is expected (none at all when it is `None`; anything when it is empty),
/// and, among the logs that mention it, one whose data holds `expected_error`.
pub open spec fn expected_log_verdict(logs: Seq<Log>, expected_log: Option<Seq<u8>>, expected_error: Option<Seq<u8>>) -> Result<(), LogCheckError> {
    match expected_log {
        None => if logs.len() > 0 {
            Err(LogCheckError::UnexpectedLogs)
        } else if expected_error is Some {
            Err(LogCheckError::UnexpectedErrorCheck)
        } else {
            Ok(())
        },
        Some(text) => if text.len() == 0 {
            Ok(())
        } else if !(exists|i: int| 0 <= i < logs.len() && log_mentions(#[trigger] logs[i], text)) {
            Err(LogCheckError::LogNotFound { expected: 0 })
        } else {
            match expected_error {
                Some(err) => if exists|i: int| 0 <= i < logs.len() && log_mentions(#[trigger] logs[i], text) && data_mentions(logs[i], err) {
                    Ok(())
                } else {
                    Err(LogCheckError::ErrorNotFound)
                },
                None => Ok(()),
            }
        },
    }
}

fn any_window(items: &Vec<Vec<u8>>, expected: &Vec<u8>) -> (r: bool)
    requires
        expected.len() > 0,
    ensures
        r == exists|k: int| 0 <= k < items.len() && has_window(#[trigger] items@[k]@, expected@),
{
    let mut k: usize = 0;
    while k < items.len()
        invariant
            expected.len() > 0,
            k <= items.len(),
            forall|x: int| 0 <= x < k ==> !has_window(#[trigger] items@[x]@, expected@),
        decreases items.len() - k,
    {
        if contains_window(&items[k], expected) {
            return true;
        }
        k = k + 1;
    }
    false
}

/// Checks that the logs mention the expected text in a topic or a data item,
/// and, when an error is expected, that one of those logs carries it in its
/// data. With no expected log, there must be no logs and no expected error.
pub fn assert_expected_log(logs: &Vec<Log>, expected_log: &Option<Vec<u8>>, expected_log_error: &Option<Vec<u8>>) -> (r: Result<(), LogCheckError>)
    requires
        expected_log matches Some(text) && text.len() > 0 ==> (expected_log_error matches Some(err) ==> err.len() > 0),
    ensures
        r == expected_log_verdict(logs@, opt_view(*expected_log), opt_view(*expected_log_error)),
{
    match expected_log {
        None => {
            if logs.len() > 0 {
                return Err(LogCheckError::UnexpectedLogs);
            }
            if expected_log_error.is_some() {
                return Err(LogCheckError::UnexpectedErrorCheck);
            }
            Ok(())
        },
        Some(text) => {
            if text.len() == 0 {
                return Ok(());
            }
            let mut found = false;
            let mut found_error = false;
            let mut i: usize = 0;
            while i < logs.len()
                invariant
                    text.len() > 0,
                    expected_log_error matches Some(err) ==> err.len() > 0,
                    i <= logs.len(),
                    found == exists|x: int| 0 <= x < i && log_mentions(#[trigger] logs@[x], text@),
                    found_error == exists|x: int| 0 <= x < i && log_mentions(#[trigger] logs@[x], text@)
                        && (expected_log_error matches Some(err) && data_mentions(logs@[x], err@)),
                decreases logs.len() - i,
            {
                let log = &logs[i];
                if any_window(&log.topics, text) || any_window(&log.data, text) {
                    found = true;
                    match expected_log_error {
                        Some(err) => {
                            if any_window(&log.data, err) {
                                found_error = true;
                            }
                        },
                        None => {},
                    }
                }
                i = i + 1;
            }
            if !found {
                return Err(LogCheckError::LogNotFound { expected: 0 });
            }
            if expected_log_error.is_some() && !found_error {
                return Err(LogCheckError::ErrorNotFound);
            }
            Ok(())
        },
    }
}

/// Checks that some log carries exactly `expected_log` as one of its topics.
pub fn assert_expected_topic_log(logs: &Vec<Log>, expected_log: &Vec<u8>) -> (r: Result<(), LogCheckError>)
    ensures
        r is Ok <==> exists|i: int, k: int| 0 <= i < logs.len() && 0 <= k < logs@[i].topics.len()
            && (#[trigger] logs@[i].topics@[k])@ == expected_log@,
        r is Err ==> r == Err::<(), LogCheckError>(LogCheckError::LogNotFound { expected: 0 }),
{
    let mut i: usize = 0;
    while i < logs.len()
        invariant
            i <= logs.len(),
            forall|x: int, k: int| 0 <= x < i && 0 <= k < logs@[x].topics.len() ==> (#[trigger] logs@[x].topics@[k])@ != expected_log@,
        decreases logs.len() - i,
    {
        let log = &logs[i];
        let mut k: usize = 0;
        while k < log.topics.len()
            invariant
                i < logs.len(),
                *log == logs@[i as int],
                k <= log.topics.len(),
                forall|x: int, y: int| 0 <= x < i && 0 <= y < logs@[x].topics.len() ==> (#[trigger] logs@[x].topics@[y])@ != expected_log@,
                forall|y: int| 0 <= y < k ==> (#[trigger] log.topics@[y])@ != expected_log@,
            decreases log.topics.len() - k,
        {
            if bytes_eq(&log.topics[k], expected_log) {
                assert(logs@[i as int].topics@[k as int]@ == expected_log@);
                return Ok(());
            }
            k = k + 1;
        }
        i = i + 1;
    }
    Err(LogCheckError::LogNotFound { expected: 0 })
}

/// Whether some log carries exactly `expected_data` as one of its data items.
pub fn assert_expected_data(logs: &Vec<Log>, expected_data: &Vec<u8>) -> (r: bool)
    ensures
        r <==> exists|i: int, k: int| 0 <= i < logs.len() && 0 <= k < logs@[i].data.len()
            && (#[trigger] logs@[i].data@[k])@ == expected_data@,
{
    let mut i: usize = 0;
    while i < logs.len()
        invariant
            i <= logs.len(),
            forall|x: int, k: int| 0 <= x < i && 0 <= k < logs@[x].data.len() ==> (#[trigger] logs@[x].data@[k])@ != expected_data@,
        decreases logs.len() - i,
    {
        let log = &logs[i];
        let mut k: usize = 0;
        while k < log.data.len()
            invariant
                i < logs.len(),
                *log == logs@[i as int],
                k <= log.data.len(),
                forall|x: int, y: int| 0 <= x < i && 0 <= y < logs@[x].data.len() ==> (#[trigger] logs@[x].data@[y])@ != expected_data@,
                forall|y: int| 0 <= y < k ==> (#[trigger] log.data@[y])@ != expected_data@,
            decreases log.data.len() - k,
        {
            if bytes_eq(&log.data[k], expected_data) {
                assert(logs@[i as int].data@[k as int]@ == expected_data@);
                return true;
            }
            k = k + 1;
        }
        i = i + 1;
    }
    false
}

} // verus!
