use vstd::prelude::*;
use crate::json::{decode, json_of, Json};
use crate::quotes::{parse_quotes, parsed, ParseError, QuoteCollection, YearsView};

verus! {

/// No snapshot has ever been loaded.
#[derive(Debug, PartialEq, Eq)]
pub struct CacheError;

impl CacheError {
    /// A message for the operator.
    pub fn message(&self) -> (r: String)
        ensures
            r@ == "Cache miss!"@,
    {
        String::from_str("Cache miss!")
    }
}

/// Why a refresh left the snapshot as it was.
#[derive(Debug, PartialEq, Eq)]
pub enum CacheRetrievalError {
    /// The document could not be fetched; the fetcher's message.
    Fetch(String),
    /// The fetched text is not JSON; the decoder's message.
    Decode(String),
    /// The document is not an object at its top level.
    MalformedDocument,
}

impl CacheRetrievalError {
    /// What went wrong, for the operator.
    pub open spec fn detail(&self) -> Seq<char> {
        match self {
            CacheRetrievalError::Fetch(msg) => msg@,
            CacheRetrievalError::Decode(msg) => msg@,
            CacheRetrievalError::MalformedDocument => "the document is not a JSON object"@,
        }
    }

    /// A message for the operator.
    pub fn message(&self) -> (r: String)
        ensures
            r@ == "Cache retrieval failed: "@ + self.detail(),
    {
        let detail = match self {
            CacheRetrievalError::Fetch(msg) => msg.as_str(),
            CacheRetrievalError::Decode(msg) => msg.as_str(),
            CacheRetrievalError::MalformedDocument => "the document is not a JSON object",
        };
        String::from_str("Cache retrieval failed: ").concat(detail)
    }
}

/// The default time-to-live, in milliseconds: thirty minutes.
pub const DEFAULT_REQ_DELAY: u64 = 1800000;

/// A cached quote collection, refreshed from its source once its
/// time-to-live has run out. Times are milliseconds since the epoch.
pub struct QuoteCache {
    pub last_request_time: u64,
    pub cache: Option<QuoteCollection>,
    pub request_url: String,
    pub delay: u64,
}

impl QuoteCache {
    /// A snapshot, when there is one, counts its quotes rightly.
    pub open spec fn wf(&self) -> bool {
        match self.cache {
            Some(c) => c.wf(),
            None => true,
        }
    }

    /// The snapshot as the contracts see it.
    pub open spec fn snapshot(&self) -> Option<YearsView> {
        match self.cache {
            Some(c) => Some(c@),
            None => None,
        }
    }

    /// A refresh is due once at least the time-to-live has passed since the
    /// last attempt; never while the clock reads earlier than that attempt.
    pub open spec fn is_due(&self, now: u64) -> bool {
        now >= self.last_request_time && now - self.last_request_time >= self.delay
    }

    /// The state after the staleness check at `now`: when a refresh is due,
    /// the attempt is stamped before anything is fetched.
    pub open spec fn after_check(self, now: u64) -> QuoteCache {
        if self.is_due(now) {
            QuoteCache { last_request_time: now, ..self }
        } else {
            self
        }
    }

    /// A cache with no snapshot, whose first check always finds a refresh due.
    pub fn new(request_url: String, delay: u64) -> (r: QuoteCache)
        ensures
            r.last_request_time == 0,
            r.cache is None,
            r.request_url == request_url,
            r.delay == delay,
            r.wf(),
    {
        QuoteCache { last_request_time: 0, cache: None, request_url, delay }
    }

    /// Whether a refresh is due at `now`.
    pub fn refresh_due(&self, now: u64) -> (r: bool)
        ensures
            r == self.is_due(now),
    {
        now >= self.last_request_time && now - self.last_request_time >= self.delay
    }

    /// Checks staleness at `now`. When a refresh is due, stamps the attempt
    /// and answers true: the caller then fetches the document and hands the
    /// outcome to `complete_refresh`.
    pub fn begin_refresh(&mut self, now: u64) -> (r: bool)
        ensures
            r == old(self).is_due(now),
            *final(self) == old(self).after_check(now),
    {
        if self.refresh_due(now) {
            self.last_request_time = now;
            true
        } else {
            false
        }
    }

    /// Replaces the snapshot by the parse of `doc`; a malformed document
    /// leaves it as it was.
    pub fn apply_document(&mut self, doc: &Json) -> (r: Result<(), CacheRetrievalError>)
        requires
            old(self).wf(),
        ensures
            final(self).wf(),
            final(self).last_request_time == old(self).last_request_time,
            final(self).request_url == old(self).request_url,
            final(self).delay == old(self).delay,
            match parsed(*doc) {
                Some(v) => r is Ok && final(self).snapshot() == Some(v),
                None => r is Err && r->Err_0 == CacheRetrievalError::MalformedDocument
                    && final(self).cache == old(self).cache,
            },
    {
        match parse_quotes(doc) {
            Ok(c) => {
                self.cache = Some(c);
                Ok(())
            },
            Err(ParseError::MalformedDocument) => Err(CacheRetrievalError::MalformedDocument),
        }
    }

    /// Takes the outcome of a fetch: the document's text, or the fetcher's
    /// message. The snapshot is replaced only by a document that decodes and
    /// parses; on any failure it stays as it was.
    pub fn complete_refresh(&mut self, fetched: Result<String, String>) -> (r: Result<(), CacheRetrievalError>)
        requires
            old(self).wf(),
        ensures
            final(self).wf(),
            final(self).last_request_time == old(self).last_request_time,
            final(self).request_url == old(self).request_url,
            final(self).delay == old(self).delay,
            r is Err ==> final(self).cache == old(self).cache,
            match fetched {
                Err(msg) => r is Err && r->Err_0 == CacheRetrievalError::Fetch(msg),
                Ok(text) => match json_of(text@) {
                    None => r is Err && r->Err_0 is Decode,
                    Some(doc) => match parsed(doc) {
                        Some(v) => r is Ok && final(self).snapshot() == Some(v),
                        None => r is Err && r->Err_0 == CacheRetrievalError::MalformedDocument,
                    },
                },
            },
    {
        match fetched {
            Err(msg) => Err(CacheRetrievalError::Fetch(msg)),
            Ok(text) => match decode(&text) {
                Err(msg) => Err(CacheRetrievalError::Decode(msg)),
                Ok(doc) => self.apply_document(&doc),
            },
        }
    }

    /// The current snapshot, or `CacheError` while none has been loaded.
    pub fn get_quotes(&self) -> (r: Result<&QuoteCollection, CacheError>)
        ensures
            match self.cache {
                Some(c) => r is Ok && *r->Ok_0 == c,
                None => r is Err,
            },
    {
        match &self.cache {
            Some(c) => Ok(c),
            None => Err(CacheError),
        }
    }
}

/// One second before the time-to-live runs out a check changes nothing and
/// nothing is fetched; one second after it a refresh is due and the attempt
/// is stamped.
pub proof fn ttl_gating(c: QuoteCache, now: u64)
    requires
        c.delay >= 1000,
    ensures
        now as int == c.last_request_time + c.delay - 1000 ==> !c.is_due(now) && c.after_check(now) == c,
        now as int == c.last_request_time + c.delay + 1000 ==> c.is_due(now)
            && c.after_check(now).last_request_time == now,
{
}

/// A due check stamps the attempt and keeps the snapshot, which a failed
/// fetch then leaves as it was (see `complete_refresh`); with a positive
/// time-to-live no second attempt is due at the same moment.
pub proof fn stale_on_failure(c: QuoteCache, now: u64)
    requires
        c.is_due(now),
    ensures
        c.after_check(now).cache == c.cache,
        c.after_check(now).snapshot() == c.snapshot(),
        c.after_check(now).last_request_time == now,
        c.delay > 0 ==> !c.after_check(now).is_due(now),
{
}

} // verus!
