//! The backend's context size: where to ask for it, how to read it from the answers, and
//! the cache that keeps it per backend.
use vstd::prelude::*;
use vstd::string::*;
use crate::json::{Json, JsonV, jget, oarr, oget, ou64};
use crate::proxy::request_log::concat2;
use crate::text::{after_prefix, str_eq, strip_prefix};

verus! {

/// An endpoint's path once the configured prefix is stripped from it (the endpoint as it
/// is when it does not start with the prefix).
pub open spec fn spec_endpoint_path(endpoint: Seq<char>, strip: Option<Seq<char>>) -> Seq<char> {
    match strip {
        Some(p) => match after_prefix(endpoint, p) {
            Some(t) => t,
            None => endpoint,
        },
        None => endpoint,
    }
}

/// The path under which an endpoint is asked for.
pub fn endpoint_path(endpoint: &str, strip_path_prefix: Option<&str>) -> (r: String)
    ensures
        r@ == spec_endpoint_path(
            endpoint@,
            match strip_path_prefix {
                Some(p) => Some(p@),
                None => None,
            },
        ),
{
    match strip_path_prefix {
        Some(p) => match strip_prefix(endpoint, p) {
            Some(t) => t,
            None => String::from_str(endpoint),
        },
        None => String::from_str(endpoint),
    }
}

/// The URL of an endpoint of a backend.
pub fn endpoint_url(backend_url: &str, endpoint: &str, strip_path_prefix: Option<&str>) -> (r: String)
    ensures
        r@ == backend_url@ + spec_endpoint_path(
            endpoint@,
            match strip_path_prefix {
                Some(p) => Some(p@),
                None => None,
            },
        ),
{
    let path = endpoint_path(endpoint, strip_path_prefix);
    concat2(backend_url, path.as_str())
}

pub open spec fn spec_n_ctx(props: JsonV) -> Option<u64> {
    ou64(oget(jget(props, "default_generation_settings"@), "n_ctx"@))
}

/// The context size in a llama.cpp `/props` answer: `default_generation_settings.n_ctx`.
pub fn n_ctx_from_props(props: &Json) -> (r: Option<u64>)
    ensures
        r == spec_n_ctx(props@),
{
    match props.get("default_generation_settings") {
        Some(s) => match s.get("n_ctx") {
            Some(n) => n.as_u64(),
            None => None,
        },
        None => None,
    }
}

pub open spec fn spec_max_model_len(models: JsonV) -> Option<u64> {
    match oarr(jget(models, "data"@)) {
        Some(a) => if a.len() > 0 {
            ou64(jget(a[0], "max_model_len"@))
        } else {
            None
        },
        None => None,
    }
}

/// The context size in a `/v1/models` answer: `data[0].max_model_len`.
pub fn max_model_len_from_models(models: &Json) -> (r: Option<u64>)
    ensures
        r == spec_max_model_len(models@),
{
    match models.get("data") {
        Some(d) => match d.as_array() {
            Some(a) => {
                proof {
                    Json::lemma_items_view(a@);
                }
                if a.len() > 0 {
                    match a[0].get("max_model_len") {
                        Some(m) => m.as_u64(),
                        None => None,
                    }
                } else {
                    None
                }
            },
            None => None,
        },
        None => None,
    }
}

/// Which kind of backend a context size came from.
#[derive(Debug, Clone, Copy, PartialEq, Eq, Structural)]
pub enum BackendType {
    LlamaCpp,
    Vllm,
}

/// Context sizes per backend URL; a size once learned is kept for good.
#[derive(Debug)]
pub struct ContextCache {
    entries: Vec<(String, u64, BackendType)>,
}

impl ContextCache {
    pub closed spec fn keys(&self) -> Seq<Seq<char>> {
        self.entries@.map_values(|e: (String, u64, BackendType)| e.0@)
    }

    /// No backend URL occurs twice.
    pub closed spec fn wf(&self) -> bool {
        forall|i: int, j: int|
            0 <= i < j < self.entries@.len() ==> #[trigger] self.entries@[i].0@ != #[trigger] self.entries@[j].0@
    }

    /// The sizes known, by backend URL.
    pub closed spec fn view_map(&self) -> Map<Seq<char>, (u64, BackendType)> {
        Map::new(
            |k: Seq<char>| exists|i: int| 0 <= i < self.entries@.len() && self.entries@[i].0@ == k,
            |k: Seq<char>| {
                let i = choose|i: int| 0 <= i < self.entries@.len() && self.entries@[i].0@ == k;
                (self.entries@[i].1, self.entries@[i].2)
            },
        )
    }

    pub fn new() -> (r: Self)
        ensures
            r.wf(),
            r.view_map() == Map::<Seq<char>, (u64, BackendType)>::empty(),
    {
        let r = ContextCache { entries: Vec::new() };
        assert(r.view_map() =~= Map::<Seq<char>, (u64, BackendType)>::empty());
        r
    }

    fn find(&self, url: &str) -> (r: Option<usize>)
        requires
            self.wf(),
        ensures
            match r {
                Some(i) => i < self.entries.len() && self.entries@[i as int].0@ == url@,
                None => forall|i: int| 0 <= i < self.entries@.len() ==> self.entries@[i].0@ != url@,
            },
    {
        let mut i: usize = 0;
        while i < self.entries.len()
            invariant
                i <= self.entries.len(),
                forall|k: int| 0 <= k < i ==> self.entries@[k].0@ != url@,
            decreases self.entries.len() - i,
        {
            if str_eq(self.entries[i].0.as_str(), url) {
                return Some(i);
            }
            i = i + 1;
        }
        None
    }

    /// The context size known for a backend.
    pub fn lookup(&self, url: &str) -> (r: Option<u64>)
        requires
            self.wf(),
        ensures
            r == (if self.view_map().dom().contains(url@) {
                Some(self.view_map()[url@].0)
            } else {
                None
            }),
    {
        match self.find(url) {
            Some(i) => {
                proof {
                    assert(self.view_map().dom().contains(url@));
                    let j = choose|j: int| 0 <= j < self.entries@.len() && self.entries@[j].0@ == url@;
                    if j != i as int {
                        if j < i as int {
                            assert(self.entries@[j].0@ != self.entries@[i as int].0@);
                        } else {
                            assert(self.entries@[i as int].0@ != self.entries@[j].0@);
                        }
                    }
                }
                Some(self.entries[i].1)
            },
            None => None,
        }
    }

    /// Records the context size of a backend (replacing what was known of it).
    pub fn insert(&mut self, url: &str, ctx: u64, kind: BackendType)
        requires
            old(self).wf(),
        ensures
            final(self).wf(),
            final(self).view_map() == old(self).view_map().insert(url@, (ctx, kind)),
    {
        let ghost m0 = self.view_map();
        match self.find(url) {
            Some(i) => {
                self.entries.set(i, (String::from_str(url), ctx, kind));
                proof {
                    assert forall|a: int, b: int|
                        0 <= a < b < self.entries@.len() implies #[trigger] self.entries@[a].0@ != #[trigger] self.entries@[b].0@ by {
                        assert(old(self).entries@[a].0@ != old(self).entries@[b].0@);
                    }
                    assert forall|k: Seq<char>| #[trigger] self.view_map().dom().contains(k) <==> m0.insert(url@, (ctx, kind)).dom().contains(k) by {
                        if k == url@ {
                            assert(self.entries@[i as int].0@ == k);
                        }
                        if k != url@ && self.view_map().dom().contains(k) {
                            let j = choose|j: int| 0 <= j < self.entries@.len() && self.entries@[j].0@ == k;
                            assert(old(self).entries@[j].0@ == k);
                        }
                        if k != url@ && m0.dom().contains(k) {
                            let j = choose|j: int| 0 <= j < old(self).entries@.len() && old(self).entries@[j].0@ == k;
                            assert(self.entries@[j].0@ == k);
                        }
                    }
                    assert forall|k: Seq<char>| #[trigger] self.view_map().dom().contains(k) implies self.view_map()[k] == m0.insert(url@, (ctx, kind))[k] by {
                        let j = choose|j: int| 0 <= j < self.entries@.len() && self.entries@[j].0@ == k;
                        if k == url@ {
                            if j != i as int {
                                if j < i as int {
                                    assert(self.entries@[j].0@ != self.entries@[i as int].0@);
                                } else {
                                    assert(self.entries@[i as int].0@ != self.entries@[j].0@);
                                }
                            }
                        } else {
                            assert(old(self).entries@[j].0@ == k);
                            let j0 = choose|j0: int| 0 <= j0 < old(self).entries@.len() && old(self).entries@[j0].0@ == k;
                            if j0 != j {
                                if j0 < j {
                                    assert(old(self).entries@[j0].0@ != old(self).entries@[j].0@);
                                } else {
                                    assert(old(self).entries@[j].0@ != old(self).entries@[j0].0@);
                                }
                            }
                        }
                    }
                    assert(self.view_map() =~= m0.insert(url@, (ctx, kind)));
                }
            },
            None => {
                self.entries.push((String::from_str(url), ctx, kind));
                proof {
                    let n = self.entries@.len() - 1;
                    assert forall|a: int, b: int|
                        0 <= a < b < self.entries@.len() implies #[trigger] self.entries@[a].0@ != #[trigger] self.entries@[b].0@ by {
                        if b < n {
                            assert(old(self).entries@[a].0@ != old(self).entries@[b].0@);
                        } else {
                            assert(old(self).entries@[a].0@ != url@);
                        }
                    }
                    assert forall|k: Seq<char>| #[trigger] self.view_map().dom().contains(k) <==> m0.insert(url@, (ctx, kind)).dom().contains(k) by {
                        if k == url@ {
                            assert(self.entries@[n].0@ == k);
                        } else {
                            if self.view_map().dom().contains(k) {
                                let j = choose|j: int| 0 <= j < self.entries@.len() && self.entries@[j].0@ == k;
                                assert(j < n);
                                assert(old(self).entries@[j].0@ == k);
                            }
                            if m0.dom().contains(k) {
                                let j = choose|j: int| 0 <= j < old(self).entries@.len() && old(self).entries@[j].0@ == k;
                                assert(self.entries@[j].0@ == k);
                            }
                        }
                    }
                    assert forall|k: Seq<char>| #[trigger] self.view_map().dom().contains(k) implies self.view_map()[k] == m0.insert(url@, (ctx, kind))[k] by {
                        let j = choose|j: int| 0 <= j < self.entries@.len() && self.entries@[j].0@ == k;
                        if k == url@ {
                            if j != n {
                                assert(old(self).entries@[j].0@ != url@);
                            }
                        } else {
                            assert(j < n);
                            assert(old(self).entries@[j].0@ == k);
                            let j0 = choose|j0: int| 0 <= j0 < old(self).entries@.len() && old(self).entries@[j0].0@ == k;
                            if j0 != j {
                                if j0 < j {
                                    assert(old(self).entries@[j0].0@ != old(self).entries@[j].0@);
                                } else {
                                    assert(old(self).entries@[j].0@ != old(self).entries@[j0].0@);
                                }
                            }
                        }
                    }
                    assert(self.view_map() =~= m0.insert(url@, (ctx, kind)));
                }
            },
        }
    }
}

/// Once a backend's context size is recorded, looking that backend up gives the size just
/// recorded, and every other backend keeps what was known of it (or stays unknown).
pub proof fn law_cache_lookup_after_insert(
    cache: ContextCache,
    url: Seq<char>,
    ctx: u64,
    kind: BackendType,
    other: Seq<char>,
)
    requires
        cache.wf(),
    ensures
        cache.view_map().insert(url, (ctx, kind)).dom().contains(url),
        cache.view_map().insert(url, (ctx, kind))[url] == (ctx, kind),
        other != url ==> (cache.view_map().insert(url, (ctx, kind)).dom().contains(other)
            == cache.view_map().dom().contains(other)),
        other != url && cache.view_map().dom().contains(other) ==> cache.view_map().insert(
            url,
            (ctx, kind),
        )[other] == cache.view_map()[other],
{
}

} // verus!
