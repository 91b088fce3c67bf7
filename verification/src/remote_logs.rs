//! Service logs sent to another device: cut to a byte budget from the front,
//! at a character boundary, with a notice when anything was cut.

use vstd::prelude::*;

use crate::model::copy_opt;
use crate::service_control::{ServiceControlResponse, ServiceControlServiceRef};
use crate::text::{chars_of, push_str, slice_chars, string_from};

verus! {

/// The largest service-control frame, in bytes.
pub const MAX_CONTROL_FRAME_LEN: usize = 2097152;

/// The number of log lines a remote log request asks for by default.
pub const DEFAULT_REMOTE_SERVICE_LOG_TAIL: usize = 200;

/// The most log lines a remote log request may ask for.
pub const MAX_REMOTE_SERVICE_LOG_TAIL: usize = 2000;

/// The most bytes of log text sent to another device.
pub const MAX_REMOTE_SERVICE_LOG_BYTES: usize = 524288;

/// The bytes of the truncation notice.
pub const TRUNCATION_NOTICE_LEN: usize = 36;

/// The line put before log text whose front was cut.
pub open spec fn truncation_notice() -> Seq<char> {
    "[fungi] remote log output truncated\n"@
}

/// The truncation notice.
pub fn remote_log_truncation_notice() -> (r: &'static str)
    ensures
        r@ == truncation_notice(),
{
    "[fungi] remote log output truncated\n"
}

/// The number of bytes UTF-8 uses for a character.
pub open spec fn utf8_width(c: char) -> nat {
    if c <= '\u{7f}' {
        1
    } else if c <= '\u{7ff}' {
        2
    } else if c <= '\u{ffff}' {
        3
    } else {
        4
    }
}

/// The number of bytes of a text in UTF-8: what `str::len` gives.
pub open spec fn utf8_len(s: Seq<char>) -> nat
    decreases s.len(),
{
    if s.len() == 0 {
        0
    } else {
        utf8_width(s[0]) + utf8_len(s.drop_first())
    }
}

/// The bytes a character takes in UTF-8.
pub fn char_utf8_width(c: char) -> (r: usize)
    ensures
        r == utf8_width(c),
{
    if c <= '\u{7f}' {
        1
    } else if c <= '\u{7ff}' {
        2
    } else if c <= '\u{ffff}' {
        3
    } else {
        4
    }
}

/// Text of ASCII characters takes one byte per character.
pub proof fn lemma_ascii_utf8_len(s: Seq<char>)
    requires
        forall|i: int| 0 <= i < s.len() ==> #[trigger] s[i] <= '\u{7f}',
    ensures
        utf8_len(s) == s.len(),
    decreases s.len(),
{
    if s.len() > 0 {
        assert(s[0] <= '\u{7f}');
        assert forall|i: int| 0 <= i < s.drop_first().len() implies #[trigger] s.drop_first()[i] <= '\u{7f}' by {
            assert(s.drop_first()[i] == s[i + 1]);
        }
        lemma_ascii_utf8_len(s.drop_first());
    }
}

/// The notice takes as many bytes as `TRUNCATION_NOTICE_LEN` says.
pub proof fn lemma_notice_len()
    ensures
        utf8_len(truncation_notice()) == TRUNCATION_NOTICE_LEN,
        truncation_notice().len() == TRUNCATION_NOTICE_LEN,
{
    reveal_strlit("[fungi] remote log output truncated\n");
    lemma_ascii_utf8_len(truncation_notice());
}

/// Dropping one more character from the front drops its bytes.
proof fn lemma_utf8_len_skip_step(s: Seq<char>, k: int)
    requires
        0 < k <= s.len(),
    ensures
        utf8_len(s.skip(k - 1)) == utf8_width(s[k - 1]) + utf8_len(s.skip(k)),
{
    let t = s.skip(k - 1);
    assert(t[0] == s[k - 1]);
    assert(t.drop_first() =~= s.skip(k));
}

/// Each character takes at least one byte, so a longer suffix takes more
/// bytes.
proof fn lemma_utf8_len_skip_decreasing(s: Seq<char>, i: int, j: int)
    requires
        0 <= i < j <= s.len(),
    ensures
        utf8_len(s.skip(i)) > utf8_len(s.skip(j)),
    decreases j - i,
{
    lemma_utf8_len_skip_step(s, i + 1);
    if i + 1 < j {
        lemma_utf8_len_skip_decreasing(s, i + 1, j);
    }
}

/// `k` starts the longest suffix of `s` that fits in `budget` bytes.
pub open spec fn starts_longest_fitting_suffix(s: Seq<char>, budget: nat, k: int) -> bool {
    &&& 0 <= k <= s.len()
    &&& utf8_len(s.skip(k)) <= budget
    &&& k > 0 ==> utf8_len(s.skip(k - 1)) > budget
}

/// Where the longest suffix of `s` that fits in `budget` bytes starts.
pub open spec fn fitting_suffix_start(s: Seq<char>, budget: nat) -> int {
    choose|k: int| starts_longest_fitting_suffix(s, budget, k)
}

/// Only one position starts the longest fitting suffix.
pub proof fn lemma_fitting_suffix_unique(s: Seq<char>, budget: nat, k: int)
    requires
        starts_longest_fitting_suffix(s, budget, k),
    ensures
        fitting_suffix_start(s, budget) == k,
{
    let c = fitting_suffix_start(s, budget);
    assert(starts_longest_fitting_suffix(s, budget, c));
    if c < k {
        if c < k - 1 {
            lemma_utf8_len_skip_decreasing(s, c, k - 1);
        }
        lemma_utf8_len_skip_decreasing(s, c, k);
    } else if k < c {
        if k < c - 1 {
            lemma_utf8_len_skip_decreasing(s, k, c - 1);
        }
        lemma_utf8_len_skip_decreasing(s, k, c);
    }
}

/// The start of the longest suffix of `cs` that fits in `budget` bytes.
pub fn fitting_suffix_start_of(cs: &Vec<char>, budget: usize) -> (k: usize)
    ensures
        starts_longest_fitting_suffix(cs@, budget as nat, k as int),
{
    let mut k: usize = cs.len();
    let mut used: usize = 0;
    proof {
        assert(cs@.skip(k as int) =~= Seq::<char>::empty());
    }
    while k > 0
        invariant
            k <= cs.len(),
            used <= budget,
            used == utf8_len(cs@.skip(k as int)),
        ensures
            k > 0 ==> utf8_len(cs@.skip(k - 1)) > budget,
        decreases k,
    {
        let w = char_utf8_width(cs[k - 1]);
        proof {
            lemma_utf8_len_skip_step(cs@, k as int);
        }
        if budget - used < w {
            break;
        }
        used = used + w;
        k = k - 1;
    }
    k
}

/// The log text as limited for sending, and whether its front was cut: text
/// over the budget (which leaves room for the notice when the text was
/// already cut) keeps its longest suffix that fits the budget less the
/// notice.
pub open spec fn limited_log_text(text: Seq<char>, truncated: bool) -> (Seq<char>, bool) {
    let budget = MAX_REMOTE_SERVICE_LOG_BYTES - (if truncated { TRUNCATION_NOTICE_LEN } else { 0usize });
    if utf8_len(text) <= budget {
        (text, truncated)
    } else {
        (
            text.skip(fitting_suffix_start(text, (MAX_REMOTE_SERVICE_LOG_BYTES - TRUNCATION_NOTICE_LEN) as nat)),
            true,
        )
    }
}

/// Cuts log text to the remote budget; see `limited_log_text`.
pub fn limit_remote_log_content(text: String, truncated: bool) -> (r: (String, bool))
    ensures
        (r.0@, r.1) == limited_log_text(text@, truncated),
{
    let budget: usize = if truncated {
        MAX_REMOTE_SERVICE_LOG_BYTES - TRUNCATION_NOTICE_LEN
    } else {
        MAX_REMOTE_SERVICE_LOG_BYTES
    };
    let cs = chars_of(text.as_str());
    let whole = fitting_suffix_start_of(&cs, budget);
    if whole == 0 {
        proof {
            assert(cs@.skip(0) =~= cs@);
        }
        return (text, truncated);
    }
    proof {
        if utf8_len(text@) <= budget {
            assert(cs@.skip(0) =~= cs@);
            lemma_utf8_len_skip_decreasing(cs@, 0, whole - 1);
        }
    }
    let content_budget: usize = MAX_REMOTE_SERVICE_LOG_BYTES - TRUNCATION_NOTICE_LEN;
    let start = fitting_suffix_start_of(&cs, content_budget);
    proof {
        lemma_fitting_suffix_unique(cs@, content_budget as nat, start as int);
        assert(cs@.subrange(start as int, cs@.len() as int) =~= cs@.skip(start as int));
    }
    let kept = slice_chars(&cs, start, cs.len());
    (string_from(kept.as_slice()), true)
}

/// The log text as sent: after the truncation notice when its front was cut.
pub open spec fn rendered_log_text(content: Seq<char>, truncated: bool) -> Seq<char> {
    if truncated {
        truncation_notice() + content
    } else {
        content
    }
}

/// Renders log text for sending; see `rendered_log_text`.
pub fn render_remote_log_text(content: &str, truncated: bool) -> (r: String)
    ensures
        r@ == rendered_log_text(content@, truncated),
{
    if truncated {
        let mut out = remote_log_truncation_notice().to_owned();
        push_str(&mut out, content);
        out
    } else {
        content.to_owned()
    }
}

/// The bytes of two texts together are the bytes of each.
pub proof fn lemma_utf8_len_concat(a: Seq<char>, b: Seq<char>)
    ensures
        utf8_len(a + b) == utf8_len(a) + utf8_len(b),
    decreases a.len(),
{
    if a.len() > 0 {
        assert((a + b).drop_first() =~= a.drop_first() + b);
        assert((a + b)[0] == a[0]);
        lemma_utf8_len_concat(a.drop_first(), b);
    } else {
        assert(a + b =~= b);
    }
}

/// The log text sent to another device never takes more than
/// `MAX_REMOTE_SERVICE_LOG_BYTES` bytes, the truncation notice included,
/// and what it keeps of the log is the log's end.
pub proof fn law_remote_log_within_budget(text: Seq<char>, truncated: bool)
    ensures
        ({
            let (content, cut) = limited_log_text(text, truncated);
            &&& utf8_len(rendered_log_text(content, cut)) <= MAX_REMOTE_SERVICE_LOG_BYTES
            &&& exists|k: int| 0 <= k <= text.len() && content == #[trigger] text.skip(k)
        }),
{
    let (content, cut) = limited_log_text(text, truncated);
    lemma_notice_len();
    lemma_utf8_len_concat(truncation_notice(), content);
    let budget = (MAX_REMOTE_SERVICE_LOG_BYTES - TRUNCATION_NOTICE_LEN) as nat;
    if utf8_len(text) > MAX_REMOTE_SERVICE_LOG_BYTES - (if truncated { TRUNCATION_NOTICE_LEN } else { 0usize }) {
        // Some suffix fits the budget: the empty one does.
        assert(text.skip(text.len() as int) =~= Seq::<char>::empty());
        // The longest fitting suffix starts at the least start whose
        // suffix fits.
        let k = least_fitting_start(text, budget, text.len() as int);
        assert(starts_longest_fitting_suffix(text, budget, k));
        lemma_fitting_suffix_unique(text, budget, k);
        assert(content == text.skip(k));
    } else {
        assert(text.skip(0) =~= text);
    }
}

/// The least start, at or before `hi`, of a suffix that fits in `budget`
/// bytes, when the suffix from `hi` fits.
proof fn least_fitting_start(s: Seq<char>, budget: nat, hi: int) -> (k: int)
    requires
        0 <= hi <= s.len(),
        utf8_len(s.skip(hi)) <= budget,
    ensures
        starts_longest_fitting_suffix(s, budget, k),
    decreases hi,
{
    if hi > 0 && utf8_len(s.skip(hi - 1)) <= budget {
        least_fitting_start(s, budget, hi - 1)
    } else {
        hi
    }
}

/// The length a frame prefix announces: its bytes read big-endian.
pub open spec fn prefix_value(b: [u8; 4]) -> int {
    b[0] as int * 16777216 + b[1] as int * 65536 + b[2] as int * 256 + b[3] as int
}

/// The length prefix of a service-control frame whose payload has `len`
/// bytes: its big-endian bytes; an error naming the size when the payload is
/// over `MAX_CONTROL_FRAME_LEN`.
pub fn frame_length_prefix(len: usize) -> (r: Result<[u8; 4], String>)
    ensures
        match r {
            Ok(b) => len <= MAX_CONTROL_FRAME_LEN && prefix_value(b) == len,
            Err(e) => len > MAX_CONTROL_FRAME_LEN && e@ == "Service-control frame too large: "@ + crate::text::decimal(
                len as nat,
            ) + " bytes (max 2097152)"@,
        },
{
    if len > MAX_CONTROL_FRAME_LEN {
        let mut msg = "Service-control frame too large: ".to_owned();
        crate::text::push_str(&mut msg, crate::text::u64_string(len as u64).as_str());
        crate::text::push_str(&mut msg, " bytes (max 2097152)");
        return Err(msg);
    }
    let n = len as u32;
    let b0 = (n / 16777216) as u8;
    let b1 = ((n / 65536) % 256) as u8;
    let b2 = ((n / 256) % 256) as u8;
    let b3 = (n % 256) as u8;
    Ok([b0, b1, b2, b3])
}

/// The payload length a frame's prefix announces; an error when it is over
/// `MAX_CONTROL_FRAME_LEN`.
pub fn frame_payload_len(prefix: [u8; 4]) -> (r: Result<usize, String>)
    ensures
        match r {
            Ok(len) => prefix_value(prefix) <= MAX_CONTROL_FRAME_LEN && len == prefix_value(prefix),
            Err(_) => prefix_value(prefix) > MAX_CONTROL_FRAME_LEN,
        },
{
    let n: u64 = prefix[0] as u64 * 16777216 + prefix[1] as u64 * 65536 + prefix[2] as u64 * 256 + prefix[3] as u64;
    if n > MAX_CONTROL_FRAME_LEN as u64 {
        let mut msg = "Service-control frame too large: ".to_owned();
        crate::text::push_str(&mut msg, crate::text::u64_string(n).as_str());
        crate::text::push_str(&mut msg, " bytes (max 2097152)");
        return Err(msg);
    }
    Ok(n as usize)
}

/// Log text read from a runtime, and whether its front was already cut.
#[derive(Debug, Clone)]
pub struct BoundedLogText {
    pub text: String,
    pub truncated: bool,
}

/// `c` is the successful logs response for `request_id` and `service_name`
/// whose log text is `text`.
pub open spec fn is_log_response(
    c: ServiceControlResponse,
    request_id: Option<String>,
    service_name: String,
    text: Seq<char>,
) -> bool {
    &&& c.request_id == request_id
    &&& c.ok
    &&& !c.forgotten_locally
    &&& c.service == Some(ServiceControlServiceRef { name: service_name })
    &&& c.services_json is None
    &&& c.logs_text matches Some(t) && t@ == text
    &&& c.apply_outcome is None
    &&& c.error is None
}

/// `frame_len` was seen to measure the logs response with text `text` as
/// too large for a frame.
pub open spec fn measured_overflow<F: Fn(&ServiceControlResponse) -> Result<usize, String>>(
    frame_len: F,
    request_id: Option<String>,
    service_name: String,
    text: Seq<char>,
) -> bool {
    exists|c: ServiceControlResponse, n: usize|
        is_log_response(c, request_id, service_name, text) && #[trigger] frame_len.ensures((&c,), Ok::<usize, String>(n))
            && n > MAX_CONTROL_FRAME_LEN
}

/// `resp` is a logs response for `logs` that `frame_len` measured as
/// fitting: with the limited text as it is, or, that having been measured
/// too large, with the notice and a suffix of the limited text whose one
/// character longer version was measured too large.
pub open spec fn is_bounded_log_response<F: Fn(&ServiceControlResponse) -> Result<usize, String>>(
    resp: ServiceControlResponse,
    frame_len: F,
    request_id: Option<String>,
    service_name: String,
    logs: BoundedLogText,
) -> bool {
    let (content, truncated) = limited_log_text(logs.text@, logs.truncated);
    exists|text: Seq<char>, n: usize|
        #![trigger is_log_response(resp, request_id, service_name, text), frame_len.ensures((&resp,), Ok::<usize, String>(n))]
        is_log_response(resp, request_id, service_name, text) && frame_len.ensures((&resp,), Ok::<usize, String>(n))
            && n <= MAX_CONTROL_FRAME_LEN && (text == rendered_log_text(content, truncated) || (measured_overflow(
            frame_len,
            request_id,
            service_name,
            rendered_log_text(content, truncated),
        ) && exists|k: int|
            0 <= k <= content.len() && text == rendered_log_text(#[trigger] content.skip(k), true) && (k > 0
                ==> measured_overflow(frame_len, request_id, service_name, rendered_log_text(content.skip(k - 1), true)))))
}

/// `e` is an error bounding `logs` can end with: one `frame_len` reported,
/// or, the limited text having been measured too large, the refusal of a
/// response that cannot fit even with an empty suffix.
pub open spec fn log_bounding_error<F: Fn(&ServiceControlResponse) -> Result<usize, String>>(
    frame_len: F,
    request_id: Option<String>,
    service_name: String,
    logs: BoundedLogText,
    e: String,
) -> bool {
    ||| exists|c: ServiceControlResponse| #[trigger] frame_len.ensures((&c,), Err::<usize, String>(e))
    ||| (e@ == "Service-control log response cannot fit within the frame limit"@ && measured_overflow(
        frame_len,
        request_id,
        service_name,
        rendered_log_text(
            limited_log_text(logs.text@, logs.truncated).0,
            limited_log_text(logs.text@, logs.truncated).1,
        ),
    ))
}

/// The logs response to send for `logs`: the limited text as it is when its
/// frame fits; otherwise, found by bisection over the character positions,
/// the notice and a suffix of it whose frame fits, the suffix one character
/// longer having been measured too large. `frame_len` gives the encoded
/// length of a response; its errors, and a suffix that cannot fit even when
/// empty, are errors.
pub fn bounded_service_log_response<F: Fn(&ServiceControlResponse) -> Result<usize, String>>(
    request_id: Option<String>,
    service_name: String,
    logs: BoundedLogText,
    frame_len: F,
) -> (r: Result<ServiceControlResponse, String>)
    requires
        forall|c: &ServiceControlResponse| #[trigger] frame_len.requires((c,)),
    ensures
        r matches Ok(resp) ==> is_bounded_log_response(resp, frame_len, request_id, service_name, logs),
        r matches Err(e) ==> log_bounding_error(frame_len, request_id, service_name, logs, e),
{
    let (content, truncated) = limit_remote_log_content(logs.text, logs.truncated);
    let first_text = render_remote_log_text(content.as_str(), truncated);
    let response = ServiceControlResponse::success_logs(copy_opt(&request_id), service_name.clone(), first_text);
    let measured = frame_len(&response);
    let first_len = match measured {
        Ok(n) => n,
        Err(e) => {
            proof {
                assert(frame_len.ensures((&response,), Err::<usize, String>(e)));
            }
            return Err(e);
        },
    };
    proof {
        assert(is_log_response(response, request_id, service_name, rendered_log_text(content@, truncated)));
        assert(frame_len.ensures((&response,), Ok::<usize, String>(first_len)));
    }
    if first_len <= MAX_CONTROL_FRAME_LEN {
        return Ok(response);
    }
    proof {
        assert(measured_overflow(frame_len, request_id, service_name, rendered_log_text(content@, truncated)));
    }
    let cs = chars_of(content.as_str());
    let mut low: usize = 0;
    let mut high: usize = cs.len();
    while low < high
        invariant
            low <= high <= cs.len(),
            cs@ == content@,
            forall|c: &ServiceControlResponse| #[trigger] frame_len.requires((c,)),
            low > 0 ==> measured_overflow(frame_len, request_id, service_name, rendered_log_text(cs@.skip(low - 1), true)),
            measured_overflow(frame_len, request_id, service_name, rendered_log_text(content@, truncated)),
        decreases high - low,
    {
        let middle = low + (high - low) / 2;
        let tail = slice_chars(&cs, middle, cs.len());
        let tail_text = string_from(tail.as_slice());
        let candidate = ServiceControlResponse::success_logs(
            copy_opt(&request_id),
            service_name.clone(),
            render_remote_log_text(tail_text.as_str(), true),
        );
        let fits = match frame_len(&candidate) {
            Ok(n) => {
                proof {
                    assert(cs@.subrange(middle as int, cs@.len() as int) =~= cs@.skip(middle as int));
                    assert(is_log_response(candidate, request_id, service_name, rendered_log_text(cs@.skip(middle as int), true)));
                }
                n <= MAX_CONTROL_FRAME_LEN
            },
            Err(e) => {
                proof {
                    assert(frame_len.ensures((&candidate,), Err::<usize, String>(e)));
                }
                return Err(e);
            },
        };
        if fits {
            high = middle;
        } else {
            low = middle + 1;
        }
    }
    let tail = slice_chars(&cs, low, cs.len());
    let tail_text = string_from(tail.as_slice());
    let last = ServiceControlResponse::success_logs(
        request_id,
        service_name,
        render_remote_log_text(tail_text.as_str(), true),
    );
    let last_len = match frame_len(&last) {
        Ok(n) => n,
        Err(e) => {
            proof {
                assert(frame_len.ensures((&last,), Err::<usize, String>(e)));
            }
            return Err(e);
        },
    };
    if last_len > MAX_CONTROL_FRAME_LEN {
        let e = "Service-control log response cannot fit within the frame limit".to_owned();
        proof {
            reveal_strlit("Service-control log response cannot fit within the frame limit");
        }
        return Err(e);
    }
    proof {
        assert(cs@.subrange(low as int, cs@.len() as int) =~= cs@.skip(low as int));
        let text = rendered_log_text(cs@.skip(low as int), true);
        assert(is_log_response(last, request_id, service_name, text));
        assert(frame_len.ensures((&last,), Ok::<usize, String>(last_len)));
        assert(0 <= low <= cs@.len() && text == rendered_log_text(cs@.skip(low as int), true));
    }
    Ok(last)
}

} // verus!
