//! The read-only table of configured upstream services.
//!
//! Each entry carries a stable identifier, a display string, and an optional
//! secret key.  The table is built once at startup and only read afterwards;
//! the listing operation projects every entry down to its non-secret fields.

use vstd::prelude::*;

verus! {

/// One configured upstream service: its identifier (the lookup key), a
/// display string, and an optional secret key to inject into forwarded
/// requests.
pub struct API {
    pub identifier: String,
    pub metadata: String,
    pub api_key: Option<String>,
}

/// The mathematical image of an [`API`] entry.
pub struct ApiView {
    pub identifier: Seq<char>,
    pub metadata: Seq<char>,
    pub api_key: Option<Seq<char>>,
}

impl View for API {
    type V = ApiView;

    open spec fn view(&self) -> ApiView {
        ApiView {
            identifier: self.identifier@,
            metadata: self.metadata@,
            api_key: match self.api_key {
                Option::Some(k) => Option::Some(k@),
                Option::None => Option::None,
            },
        }
    }
}

/// An upstream entry as shown to callers: the secret is not part of the
/// type, so no listing can carry it.
pub struct SanitizedAPI {
    pub identifier: String,
    pub metadata: String,
}

/// The mathematical image of a [`SanitizedAPI`] entry.
pub struct SanitizedView {
    pub identifier: Seq<char>,
    pub metadata: Seq<char>,
}

impl View for SanitizedAPI {
    type V = SanitizedView;

    open spec fn view(&self) -> SanitizedView {
        SanitizedView { identifier: self.identifier@, metadata: self.metadata@ }
    }
}

/// The non-secret projection of one upstream entry.
pub open spec fn sanitized_of(a: ApiView) -> SanitizedView {
    SanitizedView { identifier: a.identifier, metadata: a.metadata }
}

/// The listing of a whole table: every entry sanitized, in table order.
pub open spec fn spec_list(s: Seq<ApiView>) -> Seq<SanitizedView> {
    s.map_values(|a: ApiView| sanitized_of(a))
}

/// The first entry of `s` whose identifier is `id`, if any.
pub open spec fn lookup_in(s: Seq<ApiView>, id: Seq<char>) -> Option<ApiView>
    decreases s.len(),
{
    if s.len() == 0 {
        Option::None
    } else if s[0].identifier == id {
        Option::Some(s[0])
    } else {
        lookup_in(s.skip(1), id)
    }
}

/// The immutable registry of configured upstreams, keyed by identifier.
pub struct Registry {
    entries: Vec<API>,
}

impl View for Registry {
    type V = Seq<ApiView>;

    closed spec fn view(&self) -> Seq<ApiView> {
        self.entries@.map_values(|a: API| a@)
    }
}

impl Registry {
    /// Builds the registry from the configured entries, in the given order.
    pub fn new(entries: Vec<API>) -> (r: Registry)
        ensures
            r@ == entries@.map_values(|a: API| a@),
    {
        Registry { entries }
    }

    /// Resolves an identifier to its upstream entry, if one is configured.
    pub fn lookup(&self, identifier: &String) -> (r: Option<&API>)
        ensures
            match r {
                Option::Some(a) => lookup_in(self@, identifier@) == Option::Some(a@),
                Option::None => lookup_in(self@, identifier@) is None,
            },
    {
        let n = self.entries.len();
        let mut i: usize = 0;
        proof {
            assert(self@.skip(0) =~= self@);
        }
        while i < n
            invariant
                i <= n,
                n == self.entries@.len(),
                self@ == self.entries@.map_values(|a: API| a@),
                self@.len() == n,
                lookup_in(self@, identifier@) == lookup_in(self@.skip(i as int), identifier@),
            decreases n - i,
        {
            let e: &API = &self.entries[i];
            proof {
                assert(self@[i as int] == e@);
                assert(self@.skip(i as int)[0] == self@[i as int]);
            }
            if e.identifier == *identifier {
                return Some(e);
            }
            proof {
                assert(self@.skip(i as int).skip(1) =~= self@.skip(i + 1));
            }
            i += 1;
        }
        proof {
            assert(self@.skip(n as int) =~= Seq::<ApiView>::empty());
        }
        None
    }

    /// Lists every configured upstream with its secret stripped.
    pub fn list(&self) -> (r: Vec<SanitizedAPI>)
        ensures
            r@.map_values(|x: SanitizedAPI| x@) == spec_list(self@),
            r@.len() == self@.len(),
            forall|i: int| 0 <= i < r@.len() ==> #[trigger] r@[i]@ == sanitized_of(self@[i]),
    {
        let n = self.entries.len();
        let mut out: Vec<SanitizedAPI> = Vec::new();
        let mut i: usize = 0;
        while i < n
            invariant
                i <= n,
                n == self.entries@.len(),
                self@ == self.entries@.map_values(|a: API| a@),
                self@.len() == n,
                out@.len() == i,
                forall|k: int| 0 <= k < i ==> #[trigger] out@[k]@ == sanitized_of(self@[k]),
            decreases n - i,
        {
            let e: &API = &self.entries[i];
            proof {
                assert(self@[i as int] == e@);
            }
            out.push(
                SanitizedAPI { identifier: e.identifier.clone(), metadata: e.metadata.clone() },
            );
            i += 1;
        }
        proof {
            assert(out@.map_values(|x: SanitizedAPI| x@) =~= spec_list(self@));
        }
        out
    }
}

/// Listing reveals only identifiers and display strings: two tables that
/// agree on those, entry by entry, list identically, whatever secrets either
/// one holds.
pub proof fn lemma_listing_hides_secrets(r1: Seq<ApiView>, r2: Seq<ApiView>)
    requires
        r1.len() == r2.len(),
        forall|i: int|
            0 <= i < r1.len() ==> (#[trigger] r1[i]).identifier == r2[i].identifier
                && r1[i].metadata == r2[i].metadata,
    ensures
        spec_list(r1) == spec_list(r2),
{
    assert(spec_list(r1) =~= spec_list(r2));
}

} // verus!
