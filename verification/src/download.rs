//! Resumable downloads: the URL of a model file, the range to ask for, and
//! what the server's answer means for the partial file. (The transfer runs
//! in the front end.)

use vstd::prelude::*;
use crate::text::{chars_of, decimal, decimal_exec, push_all, push_str, string_of};

verus! {

/// Standard Hugging Face resolve URL for a repo file on `main`.
pub fn hf_url(repo: &str, file: &str) -> (r: String)
    ensures
        r@ == "https://huggingface.co/"@ + repo@ + "/resolve/main/"@ + file@,
{
    let mut t = chars_of("https://huggingface.co/");
    push_str(&mut t, repo);
    push_str(&mut t, "/resolve/main/");
    push_str(&mut t, file);
    string_of(&t)
}

/// The `Range` header that resumes after `downloaded` bytes (none for a
/// fresh start).
pub fn range_header(downloaded: u64) -> (r: Option<String>)
    ensures
        downloaded == 0 ==> r is None,
        downloaded > 0 ==> (r matches Some(h) && h@ == "bytes="@ + decimal(downloaded as nat) + "-"@),
{
    if downloaded == 0 {
        return None;
    }
    let mut t = chars_of("bytes=");
    push_all(&mut t, &decimal_exec(downloaded as u128));
    push_str(&mut t, "-");
    Some(string_of(&t))
}

/// How to continue after the response headers.
#[derive(Debug, PartialEq, Eq, Structural)]
pub struct ResumePlan {
    /// Append to the partial file (the server honoured the range).
    pub resuming: bool,
    /// Bytes already in place.
    pub start: u64,
    /// The full size, when the server gave a length.
    pub total: Option<u64>,
}

/// What the response means: a failure unless 2xx; with 206 the partial
/// file is continued, otherwise (the range was ignored) it starts over.
pub open spec fn plan_for(downloaded: u64, status: u16, content_length: Option<u64>) -> Option<ResumePlan> {
    if !(200 <= status <= 299) {
        None
    } else {
        let resuming = status == 206;
        let start: u64 = if downloaded > 0 && !resuming { 0 } else { downloaded };
        Some(ResumePlan {
            resuming,
            start,
            total: match content_length {
                Some(c) => Some((c + start) as u64),
                None => None,
            },
        })
    }
}

/// The plan for a response with `status` and `content_length`, after
/// `downloaded` bytes were already on disk.
pub fn resume_plan(downloaded: u64, status: u16, content_length: Option<u64>) -> (r: Option<ResumePlan>)
    requires
        content_length matches Some(c) ==> c + downloaded <= u64::MAX,
    ensures
        r == plan_for(downloaded, status, content_length),
{
    if !(200 <= status && status <= 299) {
        return None;
    }
    let resuming = status == 206;
    let start = if downloaded > 0 && !resuming { 0 } else { downloaded };
    let total = match content_length {
        Some(c) => Some(c + start),
        None => None,
    };
    Some(ResumePlan { resuming, start, total })
}

/// Law: a download resumes only where the server honoured the range, and
/// otherwise starts from nothing; it never claims more bytes in place than
/// were on disk.
pub proof fn law_resume_only_on_partial_content(downloaded: u64, status: u16, content_length: Option<u64>)
    ensures
        plan_for(downloaded, status, content_length) matches Some(p) ==> {
            &&& p.start <= downloaded
            &&& (p.resuming <==> status == 206)
            &&& (!p.resuming && downloaded > 0 ==> p.start == 0)
        },
{
}

} // verus!
