//! What the form service is asked for and what its reply yields.
use super::raw_submission::{RawSubmission, is_conversion_of};
use crate::models::Jotform;
use vstd::prelude::*;

verus! {

/// The service's reply to a request for submissions.
#[derive(Clone, Debug, PartialEq, Eq)]
pub struct JotFormApiResponse {
    pub response_code: u16,
    pub message: String,
    pub content: Vec<RawSubmission>,
    /// How many requests the API key has left.
    pub limit_left: u32,
}

/// Where the latest 25 submissions of form `form_id` are fetched.
pub open spec fn submissions_url_of(base_url: Seq<char>, form_id: Seq<char>, api_key: Seq<char>) -> Seq<
    char,
> {
    base_url + "/form/"@ + form_id + "/submissions?apiKey="@ + api_key + "&limit=25"@
}

/// Where the latest 25 submissions of form `form_id` are fetched:
/// "{base_url}/form/{form_id}/submissions?apiKey={api_key}&limit=25".
pub fn submissions_url(base_url: &str, form_id: &str, api_key: &str) -> (r: String)
    ensures
        r@ == submissions_url_of(base_url@, form_id@, api_key@),
{
    let mut u = String::from_str(base_url);
    u.append("/form/");
    u.append(form_id);
    u.append("/submissions?apiKey=");
    u.append(api_key);
    u.append("&limit=25");
    u
}

impl JotFormApiResponse {
    /// Every submission in the reply can be converted.
    pub open spec fn all_complete(&self) -> bool {
        forall|i: int| 0 <= i < self.content@.len() ==> (#[trigger] self.content@[i]).is_complete()
    }

    /// Whether every submission in the reply can be converted.
    pub fn all_have_required_answers(&self) -> (r: bool)
        ensures
            r == self.all_complete(),
    {
        let n = self.content.len();
        let mut i: usize = 0;
        while i < n
            invariant
                n == self.content@.len(),
                i <= n,
                forall|k: int| 0 <= k < i ==> (#[trigger] self.content@[k]).is_complete(),
            decreases n - i,
        {
            if !self.content[i].has_required_answers() {
                return false;
            }
            i = i + 1;
        }
        true
    }

    /// The maintenance requests the reply describes, in the reply's order.
    pub fn to_jotforms(&self) -> (r: Vec<Jotform>)
        requires
            self.all_complete(),
        ensures
            r@.len() == self.content@.len(),
            forall|i: int| 0 <= i < r@.len() ==> is_conversion_of(#[trigger] r@[i], self.content@[i]),
    {
        let n = self.content.len();
        let mut r: Vec<Jotform> = Vec::new();
        let mut i: usize = 0;
        while i < n
            invariant
                n == self.content@.len(),
                i <= n,
                self.all_complete(),
                r@.len() == i,
                forall|k: int| 0 <= k < i ==> is_conversion_of(#[trigger] r@[k], self.content@[k]),
            decreases n - i,
        {
            r.push(self.content[i].to_jotform());
            i = i + 1;
        }
        r
    }
}

} // verus!
