//! The fetching capability.
//!
//! Retrieving markup for a URL is abstracted as a trait with a single
//! operation, injected into the tools at construction time.  The
//! production implementation performs network reads and lives outside
//! the verified library; the deterministic [`TestHtmlFetcher`] maps
//! URLs to fixture markup and is verified here.

use vstd::prelude::*;
use crate::text::str_to_chars;
use crate::text::chars_eq;

verus! {

/// A failed retrieval: the URL attempted and a human-readable cause.
#[derive(Debug)]
pub struct FetchError {
    pub url: String,
    pub cause: String,
}

/// Capability to retrieve the markup behind a URL.
///
/// One call performs one independent read; callers assume nothing
/// about the returned text and must tolerate any outcome.
pub trait HtmlFetcher {
    /// Returns the document text behind `url`, or a fetch failure.
    fn fetch_html(&self, url: &str) -> Result<String, FetchError>;
}

/// The content stored for `url`, if any: the first pair whose key
/// equals `url` wins.
pub open spec fn spec_lookup(pages: Seq<(Seq<char>, Seq<char>)>, url: Seq<char>) -> Option<
    Seq<char>,
>
    decreases pages.len(),
{
    if pages.len() == 0 {
        None
    } else if pages.first().0 == url {
        Some(pages.first().1)
    } else {
        spec_lookup(pages.drop_first(), url)
    }
}

/// A deterministic fetcher for tests: maps URLs to fixture markup.
pub struct TestHtmlFetcher {
    pub pages: Vec<(String, String)>,
}

impl TestHtmlFetcher {
    /// A fetcher with no fixture pages.
    pub fn new() -> (r: Self)
        ensures
            r.pages@.len() == 0,
    {
        TestHtmlFetcher { pages: Vec::new() }
    }

    /// Registers fixture markup for a URL.
    pub fn add_page(&mut self, url: String, content: String)
        ensures
            final(self).pages@ == old(self).pages@.push((url, content)),
    {
        self.pages.push((url, content));
    }

    /// The fixture content stored for `url`, if any.
    pub fn lookup(&self, url: &str) -> (r: Option<String>)
        ensures
            match r {
                Some(c) => spec_lookup(self.pages.deep_view(), url@) == Some(c@),
                None => spec_lookup(self.pages.deep_view(), url@) is None,
            },
    {
        let target = str_to_chars(url);
        let ghost pv = self.pages.deep_view();
        proof {
            assert(pv.subrange(0, pv.len() as int) =~= pv);
        }
        let mut i: usize = 0;
        while i < self.pages.len()
            invariant
                pv == self.pages.deep_view(),
                pv.len() == self.pages@.len(),
                i <= pv.len(),
                target@ == url@,
                spec_lookup(pv, url@) == spec_lookup(pv.subrange(i as int, pv.len() as int), url@),
            decreases pv.len() - i,
        {
            let ghost rest = pv.subrange(i as int, pv.len() as int);
            let key = str_to_chars(self.pages[i].0.as_str());
            proof {
                assert(rest.first() == pv[i as int]);
                assert(pv[i as int].0 == self.pages@[i as int].0@);
                assert(pv[i as int].1 == self.pages@[i as int].1@);
            }
            if chars_eq(&key, &target) {
                return Some(self.pages[i].1.clone());
            }
            proof {
                assert(rest.drop_first() =~= pv.subrange(i + 1, pv.len() as int));
            }
            i += 1;
        }
        proof {
            assert(pv.subrange(pv.len() as int, pv.len() as int) =~= Seq::<
                (Seq<char>, Seq<char>),
            >::empty());
        }
        None
    }
}

impl HtmlFetcher for TestHtmlFetcher {
    /// Serves the stored fixture for `url`, or fails naming the URL.
    fn fetch_html(&self, url: &str) -> Result<String, FetchError> {
        match self.lookup(url) {
            Some(content) => Ok(content),
            None => Err(
                FetchError { url: url.to_owned(), cause: "no fixture for this URL".to_owned() },
            ),
        }
    }
}

} // verus!
