//! Listing the tags of an image in a registry: when to retry a rate-limited
//! request, and how the pages of tags are walked.

use vstd::prelude::*;
use crate::models::opt_str;

verus! {

/// Error codes of the OCI distribution specification.
#[derive(Clone, Copy, Debug, PartialEq, Eq, Structural)]
pub enum RegistryErrorCode {
    BlobUnknown,
    BlobUploadInvalid,
    BlobUploadUnknown,
    DigestInvalid,
    ManifestBlobUnknown,
    ManifestInvalid,
    ManifestUnknown,
    ManifestUnverified,
    NameInvalid,
    NameUnknown,
    SizeInvalid,
    TagInvalid,
    Unauthorized,
    Denied,
    Unsupported,
    Toomanyrequests,
}

/// What a failed registry request reports: the error codes of an error
/// envelope of the registry, the status of a server error, or another error.
#[derive(Clone, Debug)]
pub enum FetchFailure {
    Registry { codes: Vec<RegistryErrorCode> },
    Server { status: u16 },
    Other,
}

/// The registry asked the client to slow down: one of its error codes is
/// "too many requests", or the server answered with status 429.
pub open spec fn rate_limited(f: FetchFailure) -> bool {
    match f {
        FetchFailure::Registry { codes } => exists|i: int|
            0 <= i < codes@.len() && #[trigger] codes@[i] == RegistryErrorCode::Toomanyrequests,
        FetchFailure::Server { status } => status == 429,
        FetchFailure::Other => false,
    }
}

/// A registry error is rate limited whenever one of its codes, wherever it
/// stands, is TOOMANYREQUESTS.
pub proof fn lemma_too_many_requests_is_rate_limited(codes: Vec<RegistryErrorCode>, i: int)
    requires
        0 <= i < codes@.len(),
        codes@[i] == RegistryErrorCode::Toomanyrequests,
    ensures
        rate_limited(FetchFailure::Registry { codes }),
{
}

/// A registry error none of whose codes is TOOMANYREQUESTS is not rate
/// limited; a server error is rate limited exactly when its status is 429;
/// any other failure is not.
pub proof fn lemma_other_failures_are_not_rate_limited(codes: Vec<RegistryErrorCode>, status: u16)
    ensures
        (forall|k: int| 0 <= k < codes@.len() ==> #[trigger] codes@[k] != RegistryErrorCode::Toomanyrequests)
            ==> !rate_limited(FetchFailure::Registry { codes }),
        rate_limited(FetchFailure::Server { status }) <==> status == 429,
        !rate_limited(FetchFailure::Other),
{
}

/// Whether a failed request was rate limited.
pub fn is_rate_limited(err: &FetchFailure) -> (b: bool)
    ensures
        b == rate_limited(*err),
{
    match err {
        FetchFailure::Registry { codes } => {
            let mut i: usize = 0;
            #[verifier::loop_isolation(false)]
            while i < codes.len()
                invariant
                    i <= codes@.len(),
                    forall|k: int| 0 <= k < i ==> codes@[k] != RegistryErrorCode::Toomanyrequests,
                decreases codes@.len() - i,
            {
                if codes[i] == RegistryErrorCode::Toomanyrequests {
                    assert(codes@[i as int] == RegistryErrorCode::Toomanyrequests);
                    return true;
                }
                i = i + 1;
            }
            false
        },
        FetchFailure::Server { status } => *status == 429,
        FetchFailure::Other => false,
    }
}

/// Most requests made for one page of tags.
pub const MAX_RETRIES: usize = 5;

/// The wait before retry number `k + 1` (from 0), in seconds: 2, then
/// doubling.
pub open spec fn backoff_secs(k: nat) -> nat
    decreases k,
{
    if k == 0 {
        2
    } else {
        2 * backoff_secs((k - 1) as nat)
    }
}

/// The retries of one page request.
pub struct PageRetry {
    attempt: usize,
    delay_secs: u64,
}

/// What to do after a failed page request.
pub enum RetryDecision {
    /// Wait this many seconds, then request again.
    RetryAfter(u64),
    /// Give up and report the error.
    GiveUp,
}

impl PageRetry {
    /// How many requests have failed so far.
    pub closed spec fn attempt(&self) -> nat {
        self.attempt as nat
    }

    /// The retries are within their bounds.
    pub closed spec fn wf(&self) -> bool {
        &&& self.attempt < MAX_RETRIES
        &&& self.delay_secs == backoff_secs(self.attempt as nat)
    }

    /// Before the first request.
    pub fn new() -> (r: PageRetry)
        ensures
            r.wf(),
            r.attempt() == 0,
    {
        PageRetry { attempt: 0, delay_secs: 2 }
    }

    /// Decides what follows a failed request: an error that is no rate
    /// limit is reported at once; a rate limit is waited out, with waits of
    /// 2, 4, 8 and 16 seconds, until the fifth request fails too.
    pub fn on_error(&mut self, rate_limited: bool) -> (d: RetryDecision)
        requires
            old(self).wf(),
        ensures
            final(self).wf(),
            if rate_limited && old(self).attempt() + 1 < MAX_RETRIES {
                &&& d == RetryDecision::RetryAfter(backoff_secs(old(self).attempt()) as u64)
                &&& final(self).attempt() == old(self).attempt() + 1
            } else {
                &&& d == RetryDecision::GiveUp
                &&& final(self).attempt() == old(self).attempt()
            },
    {
        if !rate_limited || self.attempt + 1 >= MAX_RETRIES {
            return RetryDecision::GiveUp;
        }
        let d = self.delay_secs;
        assert(backoff_secs((self.attempt + 1) as nat) == 2 * backoff_secs(self.attempt as nat));
        assert(backoff_secs(self.attempt as nat) <= 16) by {
            reveal_with_fuel(backoff_secs, 5);
        }
        self.attempt = self.attempt + 1;
        self.delay_secs = d * 2;
        RetryDecision::RetryAfter(d)
    }
}

/// A page with at least this many tags may be followed by another.
pub const FULL_PAGE: usize = 100;

/// Most tags asked for in one request.
pub const PAGE_LIMIT: usize = 1500;

/// Most pages requested for one image.
pub const MAX_ATTEMPTS: usize = 20;

/// `a` sorts strictly before `b`: the order of `String`, which compares the
/// UTF-8 bytes and so the code points, from the first.
pub open spec fn str_lt(a: Seq<char>, b: Seq<char>) -> bool
    decreases a.len(),
{
    if a.len() == 0 {
        b.len() > 0
    } else if b.len() == 0 {
        false
    } else if a[0] != b[0] {
        (a[0] as int) < (b[0] as int)
    } else {
        str_lt(a.drop_first(), b.drop_first())
    }
}

/// `a` sorts before `b` or equals it.
pub open spec fn str_le(a: Seq<char>, b: Seq<char>) -> bool {
    a == b || str_lt(a, b)
}

proof fn lemma_str_lt_total(a: Seq<char>, b: Seq<char>)
    ensures
        a == b || str_lt(a, b) || str_lt(b, a),
        !(str_lt(a, b) && str_lt(b, a)),
    decreases a.len(),
{
    if a.len() > 0 && b.len() > 0 {
        if a[0] == b[0] {
            lemma_str_lt_total(a.drop_first(), b.drop_first());
            if a.drop_first() == b.drop_first() {
                assert(a =~= seq![a[0]] + a.drop_first());
                assert(b =~= seq![b[0]] + b.drop_first());
            }
        } else {
            assert((a[0] as int) != (b[0] as int));
        }
    } else if a.len() == 0 && b.len() == 0 {
        assert(a =~= b);
    }
}

proof fn lemma_str_lt_trans(a: Seq<char>, b: Seq<char>, c: Seq<char>)
    requires
        str_lt(a, b),
        str_lt(b, c),
    ensures
        str_lt(a, c),
    decreases a.len(),
{
    if a.len() > 0 && b.len() > 0 && c.len() > 0 {
        if a[0] == b[0] && b[0] == c[0] {
            lemma_str_lt_trans(a.drop_first(), b.drop_first(), c.drop_first());
        }
    }
}

/// Whether `a` sorts strictly before `b`.
pub fn str_less(a: &str, b: &str) -> (r: bool)
    ensures
        r == str_lt(a@, b@),
{
    let an = a.unicode_len();
    let bn = b.unicode_len();
    let mut i: usize = 0;
    assert(a@.skip(0) =~= a@);
    assert(b@.skip(0) =~= b@);
    while i < an && i < bn && a.get_char(i) == b.get_char(i)
        invariant
            i <= an,
            i <= bn,
            an == a@.len(),
            bn == b@.len(),
            str_lt(a@, b@) == str_lt(a@.skip(i as int), b@.skip(i as int)),
        decreases an - i,
    {
        assert(a@.skip(i as int).drop_first() =~= a@.skip(i + 1));
        assert(b@.skip(i as int).drop_first() =~= b@.skip(i + 1));
        i = i + 1;
    }
    if i == an {
        i < bn
    } else if i == bn {
        false
    } else {
        let ac = a.get_char(i);
        let bc = b.get_char(i);
        assert(a@.skip(i as int)[0] == ac);
        assert(b@.skip(i as int)[0] == bc);
        (ac as u32) < (bc as u32)
    }
}

/// `m` is a greatest element of `tags`.
pub open spec fn is_max_tag(tags: Seq<Seq<char>>, m: Seq<char>) -> bool {
    &&& tags.contains(m)
    &&& forall|i: int| 0 <= i < tags.len() ==> str_le(#[trigger] tags[i], m)
}

/// The views of strings.
pub open spec fn strs(v: Seq<String>) -> Seq<Seq<char>> {
    v.map_values(|s: String| s@)
}

/// The greatest of `tags` (`Iterator::max`).
pub fn max_tag(tags: &Vec<String>) -> (m: String)
    requires
        tags@.len() > 0,
    ensures
        is_max_tag(strs(tags@), m@),
{
    let mut best: usize = 0;
    let mut i: usize = 1;
    while i < tags.len()
        invariant
            1 <= i <= tags@.len(),
            best < i,
            forall|k: int| 0 <= k < i ==> str_le(#[trigger] tags@[k]@, tags@[best as int]@),
        decreases tags@.len() - i,
    {
        let ghost old_best = best;
        if str_less(tags[best].as_str(), tags[i].as_str()) {
            best = i;
            proof {
                assert forall|k: int| 0 <= k < i + 1 implies str_le(#[trigger] tags@[k]@, tags@[best as int]@) by {
                    if k < i {
                        assert(str_le(tags@[k]@, tags@[old_best as int]@));
                        if tags@[k]@ != tags@[old_best as int]@ {
                            lemma_str_lt_trans(tags@[k]@, tags@[old_best as int]@, tags@[i as int]@);
                        }
                    } else {
                        assert(k == i);
                    }
                }
            }
        } else {
            proof {
                lemma_str_lt_total(tags@[best as int]@, tags@[i as int]@);
            }
        }
        i = i + 1;
    }
    let m = String::from_str(tags[best].as_str());
    assert(strs(tags@)[best as int] == m@);
    m
}

/// The listing of the tags of one image, page by page.
pub struct TagListing {
    all_tags: Vec<String>,
    attempts: usize,
}

/// What to do next while listing tags.
pub enum TagStep {
    /// Request up to `max_tags` tags that sort after `last_tag`.
    Fetch { last_tag: Option<String>, max_tags: usize },
    /// All tags are collected; `exhausted` tells that the page limit cut
    /// the listing short.
    Done { tags: Vec<String>, exhausted: bool },
}

impl TagListing {
    /// The tags collected so far, in the order of the pages.
    pub closed spec fn tags(&self) -> Seq<Seq<char>> {
        strs(self.all_tags@)
    }

    /// The number of pages requested so far.
    pub closed spec fn attempts(&self) -> nat {
        self.attempts as nat
    }

    /// The page count is within its bound.
    pub closed spec fn wf(&self) -> bool {
        1 <= self.attempts <= MAX_ATTEMPTS
    }

    /// Starts listing: the first page starts after the image's own tag.
    pub fn start(initial_tag: Option<String>) -> (r: (TagListing, TagStep))
        ensures
            r.0.wf(),
            r.0.tags() == Seq::<Seq<char>>::empty(),
            r.0.attempts() == 1,
            (r.1 matches TagStep::Fetch { last_tag, max_tags } && last_tag == initial_tag && max_tags == PAGE_LIMIT),
    {
        let listing = TagListing { all_tags: Vec::new(), attempts: 1 };
        assert(listing.tags() =~= Seq::<Seq<char>>::empty());
        (listing, TagStep::Fetch { last_tag: initial_tag, max_tags: PAGE_LIMIT })
    }

    /// Takes one page of tags. A full page (at least [`FULL_PAGE`] tags) is
    /// followed by a request for the tags after its greatest one, unless
    /// [`MAX_ATTEMPTS`] pages were requested already, in which case the
    /// listing ends as exhausted; a shorter page ends the listing.
    pub fn on_page(&mut self, page: Vec<String>) -> (r: TagStep)
        requires
            old(self).wf(),
        ensures
            if page@.len() >= FULL_PAGE {
                if old(self).attempts() + 1 > MAX_ATTEMPTS {
                    (r matches TagStep::Done { tags, exhausted } && strs(tags@) == old(self).tags() + strs(page@)
                        && exhausted)
                } else {
                    &&& final(self).wf()
                    &&& final(self).attempts() == old(self).attempts() + 1
                    &&& final(self).tags() == old(self).tags() + strs(page@)
                    &&& (r matches TagStep::Fetch { last_tag, max_tags } && max_tags == PAGE_LIMIT
                        && (last_tag matches Some(t) && is_max_tag(strs(page@), t@)))
                }
            } else {
                (r matches TagStep::Done { tags, exhausted } && strs(tags@) == old(self).tags() + strs(page@)
                    && !exhausted)
            },
    {
        let ghost before = self.tags();
        let n = page.len();
        let next = if n >= FULL_PAGE { Some(max_tag(&page)) } else { None };
        let mut page = page;
        let ghost pv = strs(page@);
        self.all_tags.append(&mut page);
        assert(self.tags() =~= before + pv);
        match next {
            Some(t) => {
                if self.attempts + 1 > MAX_ATTEMPTS {
                    let mut tags: Vec<String> = Vec::new();
                    std::mem::swap(&mut tags, &mut self.all_tags);
                    TagStep::Done { tags, exhausted: true }
                } else {
                    self.attempts = self.attempts + 1;
                    TagStep::Fetch { last_tag: Some(t), max_tags: PAGE_LIMIT }
                }
            },
            None => {
                let mut tags: Vec<String> = Vec::new();
                std::mem::swap(&mut tags, &mut self.all_tags);
                TagStep::Done { tags, exhausted: false }
            },
        }
    }
}

/// The tag of the image reference `image` as `oci_distribution` reads it:
/// `None` where `image` is no valid reference, else the reference's tag
/// (`latest` where it names neither tag nor digest), if it has one.
pub uninterp spec fn reference_tag(image: Seq<char>) -> Option<Option<Seq<char>>>;

/// `oci_distribution::Reference::try_from` of `image`, and `tag()` of the
/// reference: the contract names the outcome [`reference_tag`] of `image`
/// and says nothing of how references are read.
#[verifier::external_body]
fn parse_reference_tag(image: &str) -> (r: Option<Option<String>>)
    ensures
        match r {
            Some(t) => reference_tag(image@) == Some(opt_str(t)),
            None => reference_tag(image@) is None,
        },
{
    match oci_distribution::Reference::try_from(image) {
        Ok(reference) => Some(reference.tag().map(String::from)),
        Err(_) => None,
    }
}

/// Starts listing the tags of `image` from the image's own tag; `None`
/// where `image` is no valid image reference.
pub fn start_tag_listing(image: &str) -> (r: Option<(TagListing, TagStep)>)
    ensures
        r is None <==> reference_tag(image@) is None,
        r matches Some((listing, step)) ==> {
            &&& listing.wf()
            &&& listing.tags() == Seq::<Seq<char>>::empty()
            &&& listing.attempts() == 1
            &&& step matches TagStep::Fetch { last_tag, max_tags }
            &&& reference_tag(image@) == Some(opt_str(last_tag))
            &&& max_tags == PAGE_LIMIT
        },
{
    match parse_reference_tag(image) {
        Some(tag) => Some(TagListing::start(tag)),
        None => None,
    }
}

} // verus!
