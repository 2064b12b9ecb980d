use vstd::prelude::*;

use crate::free::DuckDuckRequester;
use crate::premium::SerpApiProvider;
use crate::record::{SearchError, SearchResponse};
use crate::token::ContinuationToken;

verus! {

/// The two providers behind the engine.
#[derive(Clone, Copy, Debug, PartialEq, Eq, Structural)]
pub enum Provider {
    Free,
    Premium,
}

pub open spec fn other(p: Provider) -> Provider {
    match p {
        Provider::Free => Provider::Premium,
        Provider::Premium => Provider::Free,
    }
}

/// What every provider states of itself: which of the two it is, so that the
/// engine can route a token back to the provider that made it.
pub trait SearchProvider {
    spec fn spec_kind(&self) -> Provider;

    fn kind(&self) -> (r: Provider)
        ensures
            r == self.spec_kind(),
    ;
}

impl SearchProvider for DuckDuckRequester {
    open spec fn spec_kind(&self) -> Provider {
        Provider::Free
    }

    fn kind(&self) -> (r: Provider) {
        Provider::Free
    }
}

impl SearchProvider for SerpApiProvider {
    open spec fn spec_kind(&self) -> Provider {
        Provider::Premium
    }

    fn kind(&self) -> (r: Provider) {
        Provider::Premium
    }
}

pub open spec fn words_view(words: Seq<String>) -> Seq<Seq<char>> {
    words.map_values(|w: String| w@)
}

/// Whether the content policy made of the standard and sex word lists and
/// `words` rejects `query`.
pub uninterp spec fn denied(words: Seq<Seq<char>>, query: Seq<char>) -> bool;

/// Relies on `censor::Censor::check` over `Censor::Sex + Censor::Standard`
/// and `Censor::custom(words)`: whether `query` holds a censored word.
#[verifier::external_body]
fn policy_rejects(words: &Vec<String>, query: &str) -> (r: bool)
    ensures
        r == denied(words_view(words@), query@),
{
    let censor = censor::Censor::Sex + censor::Censor::Standard + censor::Censor::custom(words.iter().cloned());
    censor.check(query)
}

/// A first search in progress: the provider tried first, and whether the
/// single fallback to the other one has been taken.
#[derive(Clone, Copy, Debug, PartialEq, Eq, Structural)]
pub struct FirstSearch {
    pub primary: Provider,
    pub fell_back: bool,
}

/// What to do after a provider has answered.
#[derive(Debug)]
pub enum SearchStep {
    /// Call the provider that `FirstSearch::provider` names.
    Call(FirstSearch),
    /// The search is over with this result.
    Done(Result<SearchResponse, SearchError>),
}

/// The step after the provider that `plan` names has answered `outcome`.
pub open spec fn settle_step(plan: FirstSearch, outcome: Result<SearchResponse, SearchError>) -> SearchStep {
    match outcome {
        Ok(_) => SearchStep::Done(outcome),
        Err(_) => if plan.fell_back {
            SearchStep::Done(outcome)
        } else {
            SearchStep::Call(FirstSearch { primary: plan.primary, fell_back: true })
        },
    }
}

impl FirstSearch {
    pub open spec fn spec_provider(&self) -> Provider {
        if self.fell_back {
            other(self.primary)
        } else {
            self.primary
        }
    }

    /// The provider to call now.
    pub fn provider(&self) -> (r: Provider)
        ensures
            r == self.spec_provider(),
    {
        if self.fell_back {
            match self.primary {
                Provider::Free => Provider::Premium,
                Provider::Premium => Provider::Free,
            }
        } else {
            self.primary
        }
    }

    /// Takes the answer of the provider called last: a success is the result;
    /// a failure of the first provider moves on to the other one; a failure
    /// of the other one is the result.
    pub fn settle(self, outcome: Result<SearchResponse, SearchError>) -> (r: SearchStep)
        ensures
            outcome is Ok ==> r == SearchStep::Done(outcome),
            outcome is Err && !self.fell_back ==> r == SearchStep::Call(
                FirstSearch { primary: self.primary, fell_back: true },
            ),
            outcome is Err && self.fell_back ==> r == SearchStep::Done(outcome),
            r == settle_step(self, outcome),
    {
        match outcome {
            Ok(resp) => SearchStep::Done(Ok(resp)),
            Err(e) => {
                if self.fell_back {
                    SearchStep::Done(Err(e))
                } else {
                    SearchStep::Call(FirstSearch { primary: self.primary, fell_back: true })
                }
            },
        }
    }
}

/// Both providers, and the words that the content policy adds to its
/// standard lists.
#[derive(Clone, Debug)]
pub struct SearchEngine {
    pub free: DuckDuckRequester,
    pub premium: SerpApiProvider,
    pub censor_words: Vec<String>,
}

impl SearchEngine {
    pub fn new(free: DuckDuckRequester, premium: SerpApiProvider, censor_words: Vec<String>) -> (r: SearchEngine)
        ensures
            r.free == free,
            r.premium == premium,
            r.censor_words@ == censor_words@,
    {
        SearchEngine { free, premium, censor_words }
    }

    pub open spec fn rejects(&self, query: Seq<char>) -> bool {
        denied(words_view(self.censor_words@), query)
    }

    /// Starts a first search: rejected by the content policy before any
    /// provider is called, or to be tried on the preferred provider first.
    pub fn first_search(&self, query: &String, use_premium: bool) -> (r: Result<FirstSearch, SearchError>)
        ensures
            self.rejects(query@) ==> r == Err::<FirstSearch, SearchError>(SearchError::PolicyRejected),
            !self.rejects(query@) ==> r == Ok::<FirstSearch, SearchError>(
                FirstSearch {
                    primary: if use_premium { Provider::Premium } else { Provider::Free },
                    fell_back: false,
                },
            ),
    {
        if policy_rejects(&self.censor_words, query.as_str()) {
            return Err(SearchError::PolicyRejected);
        }
        let primary = if use_premium {
            Provider::Premium
        } else {
            Provider::Free
        };
        Ok(FirstSearch { primary, fell_back: false })
    }

    /// The provider that made `token`: the premium one where the token carries
    /// its marker, the free one otherwise. An empty token fails.
    pub fn next_page(&self, token: &ContinuationToken) -> (r: Result<Provider, SearchError>)
        ensures
            token@.len() == 0 ==> r == Err::<Provider, SearchError>(SearchError::InvalidToken),
            token@.len() > 0 && token.spec_get("premium"@) is Some ==> r == Ok::<Provider, SearchError>(
                Provider::Premium,
            ),
            token@.len() > 0 && token.spec_get("premium"@) is None ==> r == Ok::<Provider, SearchError>(
                Provider::Free,
            ),
    {
        if token.is_empty() {
            return Err(SearchError::InvalidToken);
        }
        if token.contains_key(&String::from_str("premium")) {
            Ok(Provider::Premium)
        } else {
            Ok(Provider::Free)
        }
    }
}

/// A first search that the policy lets through asks the preferred provider;
/// its answer, where it succeeds, is the result unchanged and the other
/// provider is not asked. Where it fails, the other provider is asked once,
/// and its answer, success or failure, is the result.
pub proof fn lemma_single_fallback(
    use_premium: bool,
    first: Result<SearchResponse, SearchError>,
    second: Result<SearchResponse, SearchError>,
)
    ensures
        ({
            let plan = FirstSearch {
                primary: if use_premium { Provider::Premium } else { Provider::Free },
                fell_back: false,
            };
            let next = FirstSearch { primary: plan.primary, fell_back: true };
            &&& plan.spec_provider() == (if use_premium { Provider::Premium } else { Provider::Free })
            &&& first is Ok ==> settle_step(plan, first) == SearchStep::Done(first)
            &&& first is Err ==> settle_step(plan, first) == SearchStep::Call(next)
            &&& next.spec_provider() == other(plan.spec_provider())
            &&& settle_step(next, second) == SearchStep::Done(second)
        }),
{
}

} // verus!
