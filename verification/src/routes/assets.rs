//! The asset operations: get, put, list, single and batch info.
//!
//! Each handler is a single-shot decision from plain values to an outcome
//! the response edge maps one-to-one onto HTTP shapes. The store-facing
//! variants take the store's reply as an argument; the variants over
//! [`MemoryStore`] compose the same decisions with the store model.

use vstd::prelude::*;
use vstd::string::*;
use vstd::utf8::encode_utf8;
use crate::errors::{ErrorKind, StoreFault, translate_fault, translate_spec};
use crate::store::{MemoryStore, StatData};
use crate::validate::{is_valid_asset_type, is_valid_asset_type_spec};

verus! {

/// The asset operations, against the assets bucket.
pub struct AssetsApi;

/// Metadata of one asset as the gateway reports it; the timestamp is
/// empty when the store reports none.
pub struct AssetInfo {
    pub name: String,
    pub size: u64,
    pub last_modified: String,
}

/// The listing of a whole bucket with its trustworthy count.
pub struct ListAssetsResponse {
    pub assets: Vec<String>,
    pub total_count: usize,
}

/// A batch metadata request: asset names, duplicates processed
/// independently.
pub struct BatchAssetInfoRequest {
    pub asset_names: Vec<String>,
}

/// The best-effort answer to a batch metadata request.
pub struct BatchAssetInfoResponse {
    pub assets: Vec<AssetInfo>,
}

/// Outcome of a get: the bytes, not-found, or a fault.
pub enum GetAssetOutcome {
    Content(Vec<u8>),
    NotFound,
    Internal,
}

/// Outcome of a put: the resulting path on success, else a refusal.
pub enum PutAssetOutcome {
    Stored(String),
    Forbidden,
    BadRequest,
    UnsupportedMediaType,
    Internal,
}

/// Outcome of a single info lookup.
pub enum InfoOutcome {
    Found(AssetInfo),
    NotFound,
    Internal,
}

/// Outcome of a listing: complete, or failed as a whole.
pub enum ListOutcome {
    Listed(ListAssetsResponse),
    Failed(ErrorKind),
}

/// Gate decision for a put, taken before any store call; only `Proceed`
/// authorizes one.
pub enum PutGate {
    Forbidden,
    BadRequest,
    UnsupportedMediaType,
    Proceed,
}

impl GetAssetOutcome {
    /// The HTTP status this outcome maps to at the response edge.
    pub fn status(&self) -> (s: u16)
        ensures
            self is Content ==> s == 200,
            self is NotFound ==> s == 404,
            self is Internal ==> s == 500,
    {
        match self {
            GetAssetOutcome::Content(_) => 200,
            GetAssetOutcome::NotFound => 404,
            GetAssetOutcome::Internal => 500,
        }
    }
}

impl PutAssetOutcome {
    /// The HTTP status this outcome maps to at the response edge.
    pub fn status(&self) -> (s: u16)
        ensures
            self is Stored ==> s == 200,
            self is Forbidden ==> s == 403,
            self is BadRequest ==> s == 400,
            self is UnsupportedMediaType ==> s == 415,
            self is Internal ==> s == 500,
    {
        match self {
            PutAssetOutcome::Stored(_) => 200,
            PutAssetOutcome::Forbidden => 403,
            PutAssetOutcome::BadRequest => 400,
            PutAssetOutcome::UnsupportedMediaType => 415,
            PutAssetOutcome::Internal => 500,
        }
    }
}

impl InfoOutcome {
    /// The HTTP status this outcome maps to at the response edge.
    pub fn status(&self) -> (s: u16)
        ensures
            self is Found ==> s == 200,
            self is NotFound ==> s == 404,
            self is Internal ==> s == 500,
    {
        match self {
            InfoOutcome::Found(_) => 200,
            InfoOutcome::NotFound => 404,
            InfoOutcome::Internal => 500,
        }
    }
}

impl ListOutcome {
    /// The HTTP status this outcome maps to at the response edge: any page
    /// failure, whatever its translated kind, answers as an internal fault.
    pub fn status(&self) -> (s: u16)
        ensures
            self is Listed ==> s == 200,
            self is Failed ==> s == 500,
    {
        match self {
            ListOutcome::Listed(_) => 200,
            ListOutcome::Failed(_) => 500,
        }
    }
}

/// The capability a caller must hold to add assets.
pub open spec fn add_asset_cap() -> Seq<char> {
    "add asset"@
}

/// Whether a claim set carries a capability.
pub open spec fn has_capability(claims: Seq<Seq<char>>, cap: Seq<char>) -> bool {
    exists|i: int| 0 <= i < claims.len() && claims[i] == cap
}

/// Whether the claim set carries the given capability.
fn claims_contain(claims: &Vec<String>, cap: &String) -> (r: bool)
    ensures
        r == has_capability(claims.deep_view(), cap@),
{
    let n = claims.len();
    let mut i: usize = 0;
    while i < n
        invariant
            n == claims@.len(),
            i <= n,
            forall|j: int| 0 <= j < i ==> claims.deep_view()[j] != cap@,
        decreases n - i,
    {
        if claims[i] == *cap {
            proof {
                assert(claims.deep_view()[i as int] == cap@);
            }
            return true;
        }
        i += 1;
    }
    false
}

/// What a conforming get outcome looks like for a given store reply: the
/// bytes on success, not-found exactly when the translated failure is
/// NotFound, and Internal for every other failure.
pub open spec fn get_post(fetched: Result<Vec<u8>, StoreFault>, r: GetAssetOutcome) -> bool {
    &&& (fetched matches Ok(c) ==> (r matches GetAssetOutcome::Content(b) && b@ == c@))
    &&& (fetched matches Err(f) ==> ((r is NotFound) <==> translate_spec(f)
        == ErrorKind::NotFound))
    &&& (fetched matches Err(f) ==> ((r is Internal) <==> translate_spec(f)
        != ErrorKind::NotFound))
}

/// What the put gate decides for a claim set and a derivable filename:
/// authorization first, then filename presence, then type validation;
/// each gate short-circuits the next.
pub open spec fn put_gate_post(
    claims: Seq<Seq<char>>,
    filename: Option<String>,
    g: PutGate,
) -> bool {
    &&& ((g is Forbidden) <==> !has_capability(claims, add_asset_cap()))
    &&& ((g is BadRequest) <==> has_capability(claims, add_asset_cap()) && filename is None)
    &&& ((g is UnsupportedMediaType) <==> has_capability(claims, add_asset_cap()) && (
    filename matches Some(n) && !is_valid_asset_type_spec(encode_utf8(n@))))
    &&& ((g is Proceed) <==> has_capability(claims, add_asset_cap()) && (filename matches Some(n)
        && is_valid_asset_type_spec(encode_utf8(n@))))
}

/// What a conforming info outcome looks like for a given stat reply: the
/// metadata on success with an absent timestamp reported empty, not-found
/// exactly when the translated failure is NotFound, and Internal for every
/// other failure.
pub open spec fn info_post(statted: Result<StatData, StoreFault>, r: InfoOutcome) -> bool {
    &&& (statted matches Ok(d) ==> (r matches InfoOutcome::Found(a) && a.name@ == d.object@
        && a.size == d.size && (d.last_modified matches Some(t) ==> a.last_modified@ == t@) && (
    d.last_modified is None ==> a.last_modified@ == Seq::<char>::empty())))
    &&& (statted matches Err(f) ==> ((r is NotFound) <==> translate_spec(f)
        == ErrorKind::NotFound))
    &&& (statted matches Err(f) ==> ((r is Internal) <==> translate_spec(f)
        != ErrorKind::NotFound))
}

/// How a batch answer mirrors the store: exactly the requested names the
/// store holds, in request order, with their sizes and no timestamp.
pub open spec fn batch_info_post(
    m: Map<Seq<char>, Seq<u8>>,
    names: Seq<Seq<char>>,
    assets: Seq<AssetInfo>,
) -> bool {
    &&& assets.len() == batch_kept(m, names).len()
    &&& forall|i: int|
        0 <= i < assets.len() ==> {
            &&& (#[trigger] assets[i]).name@ == batch_kept(m, names)[i]
            &&& m.contains_key(batch_kept(m, names)[i])
            &&& assets[i].size as nat == m[batch_kept(m, names)[i]].len()
            &&& assets[i].last_modified@ == Seq::<char>::empty()
        }
}

/// The names one listing page contributes: its keys on success, nothing on
/// failure.
pub open spec fn page_names(p: Result<Vec<String>, StoreFault>) -> Seq<Seq<char>> {
    match p {
        Ok(v) => v.deep_view(),
        Err(_) => Seq::empty(),
    }
}

/// The names a run of listing pages contributes, in page order.
pub open spec fn pages_names(pages: Seq<Result<Vec<String>, StoreFault>>) -> Seq<Seq<char>>
    decreases pages.len(),
{
    if pages.len() == 0 {
        Seq::empty()
    } else {
        pages_names(pages.drop_last()) + page_names(pages.last())
    }
}

/// Whether every listing page arrived.
pub open spec fn all_pages_ok(pages: Seq<Result<Vec<String>, StoreFault>>) -> bool {
    forall|i: int| 0 <= i < pages.len() ==> pages[i] is Ok
}

/// What draining the listing yields: every key of every page in order when
/// all pages arrive, or the first failure translated — complete or nothing.
pub open spec fn aggregate_pages(pages: Seq<Result<Vec<String>, StoreFault>>) -> Result<
    Seq<Seq<char>>,
    ErrorKind,
>
    decreases pages.len(),
{
    if pages.len() == 0 {
        Ok(Seq::empty())
    } else {
        match pages.first() {
            Err(f) => Err(translate_spec(f)),
            Ok(v) => match aggregate_pages(pages.drop_first()) {
                Ok(rest) => Ok(v.deep_view() + rest),
                Err(k) => Err(k),
            },
        }
    }
}

/// The metadata entries a run of stat replies keeps: the successes, in
/// reply order, failures silently dropped.
pub open spec fn kept_stats(results: Seq<Result<StatData, StoreFault>>) -> Seq<StatData>
    decreases results.len(),
{
    if results.len() == 0 {
        Seq::empty()
    } else {
        let rest = kept_stats(results.drop_last());
        match results.last() {
            Ok(d) => rest.push(d),
            Err(_) => rest,
        }
    }
}

/// The requested names the store holds, in request order; duplicates are
/// processed independently.
pub open spec fn batch_kept(m: Map<Seq<char>, Seq<u8>>, names: Seq<Seq<char>>) -> Seq<Seq<char>>
    decreases names.len(),
{
    if names.len() == 0 {
        Seq::empty()
    } else {
        let rest = batch_kept(m, names.drop_last());
        if m.contains_key(names.last()) {
            rest.push(names.last())
        } else {
            rest
        }
    }
}

/// How reported metadata mirrors the kept stat replies: same length and
/// order, fields carried over, an absent timestamp reported empty.
pub open spec fn infos_match(kept: Seq<StatData>, assets: Seq<AssetInfo>) -> bool {
    &&& assets.len() == kept.len()
    &&& forall|i: int|
        0 <= i < kept.len() ==> {
            &&& (#[trigger] assets[i]).name@ == kept[i].object@
            &&& assets[i].size == kept[i].size
            &&& (kept[i].last_modified matches Some(t) ==> assets[i].last_modified@ == t@)
            &&& (kept[i].last_modified is None ==> assets[i].last_modified@ == Seq::<char>::empty())
        }
}

/// Report one stat reply: the timestamp is carried over, or empty when the
/// store reports none.
fn asset_info_of(d: StatData) -> (a: AssetInfo)
    ensures
        a.name@ == d.object@,
        a.size == d.size,
        d.last_modified matches Some(t) ==> a.last_modified@ == t@,
        d.last_modified is None ==> a.last_modified@ == Seq::<char>::empty(),
{
    let last_modified = match d.last_modified {
        Some(t) => t,
        None => String::new(),
    };
    AssetInfo { name: d.object, size: d.size, last_modified }
}

impl AssetsApi {
    /// Decide the get outcome from the store's reply.
    pub fn get_asset_outcome(&self, fetched: Result<Vec<u8>, StoreFault>) -> (r: GetAssetOutcome)
        ensures
            get_post(fetched, r),
    {
        match fetched {
            Ok(content) => GetAssetOutcome::Content(content),
            Err(f) => match translate_fault(&f) {
                ErrorKind::NotFound => GetAssetOutcome::NotFound,
                ErrorKind::Upstream => GetAssetOutcome::Internal,
                ErrorKind::Internal => GetAssetOutcome::Internal,
            },
        }
    }

    /// Get an asset from the store model: its bytes when present,
    /// not-found when absent, never an internal fault.
    pub fn get_asset(&self, store: &MemoryStore, name: &String) -> (r: GetAssetOutcome)
        requires
            store.wf(),
        ensures
            store.contents().contains_key(name@) ==> (r matches GetAssetOutcome::Content(b) && b@
                == store.contents()[name@]),
            !store.contents().contains_key(name@) ==> r is NotFound,
    {
        let fetched = store.fetch(name);
        self.get_asset_outcome(fetched)
    }

    /// Decide the put gates from the claim set and the derivable filename;
    /// no store call is authorized unless the result is `Proceed`.
    pub fn put_asset_gate(&self, claims: &Vec<String>, filename: &Option<String>) -> (g: PutGate)
        ensures
            put_gate_post(claims.deep_view(), *filename, g),
    {
        let cap = String::from_str("add asset");
        if !claims_contain(claims, &cap) {
            return PutGate::Forbidden;
        }
        match filename {
            None => PutGate::BadRequest,
            Some(n) => {
                if is_valid_asset_type(n.as_str()) {
                    PutGate::Proceed
                } else {
                    PutGate::UnsupportedMediaType
                }
            },
        }
    }

    /// Turn the store's reply to an authorized upload into the put
    /// outcome: the served path on success, an internal fault otherwise.
    pub fn put_asset_complete(&self, name: &String, stored: Result<(), StoreFault>) -> (r:
        PutAssetOutcome)
        ensures
            stored is Ok ==> (r matches PutAssetOutcome::Stored(p) && p@ == "/assets/"@ + name@),
            stored is Err ==> r is Internal,
    {
        match stored {
            Ok(_) => {
                let path = String::from_str("/assets/").concat(name.as_str());
                PutAssetOutcome::Stored(path)
            },
            Err(_) => PutAssetOutcome::Internal,
        }
    }

    /// Put an asset into the store model: the gates run in order —
    /// authorization, filename, type — and only when all pass is the
    /// object stored (overwriting a namesake) and the path served. A
    /// refused request leaves the store untouched.
    pub fn put_asset(
        &self,
        store: &mut MemoryStore,
        claims: &Vec<String>,
        filename: &Option<String>,
        content: Vec<u8>,
    ) -> (r: PutAssetOutcome)
        requires
            old(store).wf(),
        ensures
            final(store).wf(),
            !has_capability(claims.deep_view(), add_asset_cap()) ==> r is Forbidden && *final(store)
                == *old(store),
            has_capability(claims.deep_view(), add_asset_cap()) && filename is None ==> r
                is BadRequest && *final(store) == *old(store),
            filename matches Some(n) ==> (has_capability(claims.deep_view(), add_asset_cap())
                && !is_valid_asset_type_spec(encode_utf8(n@)) ==> r is UnsupportedMediaType
                && *final(store) == *old(store)),
            filename matches Some(n) ==> (has_capability(claims.deep_view(), add_asset_cap())
                && is_valid_asset_type_spec(encode_utf8(n@)) ==> final(store).contents() == old(
                store,
            ).contents().insert(n@, content@) && (r matches PutAssetOutcome::Stored(p) && p@
                == "/assets/"@ + n@)),
    {
        let gate = self.put_asset_gate(claims, filename);
        match gate {
            PutGate::Forbidden => PutAssetOutcome::Forbidden,
            PutGate::BadRequest => PutAssetOutcome::BadRequest,
            PutGate::UnsupportedMediaType => PutAssetOutcome::UnsupportedMediaType,
            PutGate::Proceed => {
                match filename {
                    Some(name) => {
                        store.put(name, content);
                        self.put_asset_complete(name, Ok(()))
                    },
                    None => PutAssetOutcome::BadRequest,
                }
            },
        }
    }

    /// Drain a paginated listing into one complete name list with its
    /// trustworthy count, or fail as a whole on the first failing page —
    /// never a partial list.
    pub fn list_assets(&self, pages: &Vec<Result<Vec<String>, StoreFault>>) -> (r: ListOutcome)
        ensures
            aggregate_pages(pages@) matches Ok(names) ==> (r matches ListOutcome::Listed(resp)
                && resp.assets@.len() == names.len() && (forall|i: int|
                0 <= i < names.len() ==> resp.assets@[i]@ == names[i]) && resp.total_count
                == names.len()),
            aggregate_pages(pages@) matches Err(k) ==> r == ListOutcome::Failed(k),
    {
        let n = pages.len();
        let mut assets: Vec<String> = Vec::new();
        let mut i: usize = 0;
        while i < n
            invariant
                n == pages@.len(),
                i <= n,
                forall|j: int| 0 <= j < i ==> pages@[j] is Ok,
                assets.deep_view() =~= pages_names(pages@.take(i as int)),
            decreases n - i,
        {
            match &pages[i] {
                Err(f) => {
                    let k = translate_fault(f);
                    proof {
                        lemma_aggregate_first_err(pages@, i as int, *f);
                    }
                    return ListOutcome::Failed(k);
                },
                Ok(v) => {
                    let m = v.len();
                    let mut j: usize = 0;
                    while j < m
                        invariant
                            m == v@.len(),
                            j <= m,
                            i < n == pages@.len(),
                            pages@[i as int] == Ok::<Vec<String>, StoreFault>(*v),
                            assets.deep_view() =~= pages_names(pages@.take(i as int))
                                + v.deep_view().take(j as int),
                        decreases m - j,
                    {
                        let ghost pre_vec = assets@;
                        let ghost pre_deep = assets.deep_view();
                        assets.push(v[j].clone());
                        proof {
                            assert(assets@ == pre_vec.push(v@[j as int]));
                            assert(assets.deep_view() =~= pre_deep.push(v@[j as int]@));
                            assert(v.deep_view().take((j + 1) as int) =~= v.deep_view().take(
                                j as int,
                            ).push(v@[j as int]@));
                            assert(assets.deep_view() =~= pages_names(pages@.take(i as int))
                                + v.deep_view().take((j + 1) as int));
                        }
                        j += 1;
                    }
                    proof {
                        assert(v.deep_view().take(m as int) =~= v.deep_view());
                        assert(pages@.take(i + 1 as int).drop_last() =~= pages@.take(i as int));
                        assert(pages@.take(i + 1 as int).last() == pages@[i as int]);
                        assert(assets.deep_view() =~= pages_names(pages@.take(i + 1 as int)));
                    }
                },
            }
            i += 1;
        }
        proof {
            assert(pages@.take(n as int) =~= pages@);
            lemma_aggregate_all_ok(pages@);
        }
        let total_count = assets.len();
        ListOutcome::Listed(ListAssetsResponse { assets, total_count })
    }

    /// Decide the info outcome from the store's stat reply.
    pub fn get_asset_info_outcome(&self, statted: Result<StatData, StoreFault>) -> (r: InfoOutcome)
        ensures
            info_post(statted, r),
    {
        match statted {
            Ok(d) => InfoOutcome::Found(asset_info_of(d)),
            Err(f) => match translate_fault(&f) {
                ErrorKind::NotFound => InfoOutcome::NotFound,
                ErrorKind::Upstream => InfoOutcome::Internal,
                ErrorKind::Internal => InfoOutcome::Internal,
            },
        }
    }

    /// Stat one asset against the store model: its metadata when present,
    /// not-found when absent, never an internal fault.
    pub fn get_asset_info(&self, store: &MemoryStore, name: &String) -> (r: InfoOutcome)
        requires
            store.wf(),
        ensures
            store.contents().contains_key(name@) ==> (r matches InfoOutcome::Found(a) && a.name@
                == name@ && a.size as nat == store.contents()[name@].len() && a.last_modified@
                == Seq::<char>::empty()),
            !store.contents().contains_key(name@) ==> r is NotFound,
    {
        let statted = store.stat(name);
        self.get_asset_info_outcome(statted)
    }

    /// Aggregate independent stat replies best-effort: the successes are
    /// reported in reply order and every failure, not-found included, is
    /// silently dropped; the batch as a whole never fails.
    pub fn batch_asset_info(&self, results: Vec<Result<StatData, StoreFault>>) -> (r:
        BatchAssetInfoResponse)
        ensures
            infos_match(kept_stats(results@), r.assets@),
    {
        let ghost orig = results@;
        let mut rest = results;
        let mut assets: Vec<AssetInfo> = Vec::new();
        while rest.len() > 0
            invariant
                rest@.len() <= orig.len(),
                rest@ =~= orig.skip(orig.len() - rest@.len()),
                infos_match(kept_stats(orig.take(orig.len() - rest@.len())), assets@),
            decreases rest@.len(),
        {
            let ghost k = orig.len() - rest@.len();
            let item = rest.remove(0);
            proof {
                assert(item == orig[k]);
                assert(orig.take(k + 1).drop_last() =~= orig.take(k));
                assert(orig.take(k + 1).last() == orig[k]);
                assert(rest@ =~= orig.skip(orig.len() - rest@.len()));
            }
            match item {
                Ok(d) => {
                    let a = asset_info_of(d);
                    assets.push(a);
                    proof {
                        assert(infos_match(kept_stats(orig.take(k + 1)), assets@));
                    }
                },
                Err(_) => {
                    proof {
                        assert(kept_stats(orig.take(k + 1)) =~= kept_stats(orig.take(k)));
                    }
                },
            }
        }
        proof {
            assert(orig.take(orig.len() as int) =~= orig);
        }
        BatchAssetInfoResponse { assets }
    }

    /// Stat a batch of names against the store model, best-effort: exactly
    /// the names the store holds are reported, in request order, and the
    /// batch as a whole never fails.
    pub fn get_batch_asset_info(&self, store: &MemoryStore, request: &BatchAssetInfoRequest) -> (r:
        BatchAssetInfoResponse)
        requires
            store.wf(),
        ensures
            batch_info_post(store.contents(), request.asset_names.deep_view(), r.assets@),
    {
        let names = &request.asset_names;
        let n = names.len();
        let mut assets: Vec<AssetInfo> = Vec::new();
        let mut i: usize = 0;
        while i < n
            invariant
                n == names@.len(),
                i <= n,
                store.wf(),
                batch_info_post(
                    store.contents(),
                    names.deep_view().take(i as int),
                    assets@,
                ),
            decreases n - i,
        {
            let ghost dv = names.deep_view();
            proof {
                assert(dv.take(i + 1 as int).drop_last() =~= dv.take(i as int));
                assert(dv.take(i + 1 as int).last() == dv[i as int]);
            }
            match store.stat(&names[i]) {
                Ok(d) => {
                    let a = asset_info_of(d);
                    assets.push(a);
                    proof {
                        assert(batch_info_post(store.contents(), dv.take(i + 1 as int), assets@));
                    }
                },
                Err(_) => {
                    proof {
                        assert(batch_kept(store.contents(), dv.take(i + 1 as int)) =~= batch_kept(
                            store.contents(),
                            dv.take(i as int),
                        ));
                        assert(batch_kept(store.contents(), dv.take(i + 1 as int))
                            == batch_kept(store.contents(), dv.take(i as int)));
                        lemma_batch_post_congruence(
                            store.contents(),
                            dv.take(i as int),
                            dv.take(i + 1 as int),
                            assets@,
                        );
                    }
                },
            }
            i += 1;
        }
        proof {
            assert(names.deep_view().take(n as int) =~= names.deep_view());
        }
        BatchAssetInfoResponse { assets }
    }
}

/// A batch answer for one name run is one for another whose kept names
/// coincide.
proof fn lemma_batch_post_congruence(
    m: Map<Seq<char>, Seq<u8>>,
    names1: Seq<Seq<char>>,
    names2: Seq<Seq<char>>,
    assets: Seq<AssetInfo>,
)
    requires
        batch_info_post(m, names1, assets),
        batch_kept(m, names2) == batch_kept(m, names1),
    ensures
        batch_info_post(m, names2, assets),
{
    assert forall|q: int| 0 <= q < assets.len() implies {
        &&& (#[trigger] assets[q]).name@ == batch_kept(m, names2)[q]
        &&& m.contains_key(batch_kept(m, names2)[q])
        &&& assets[q].size as nat == m[batch_kept(m, names2)[q]].len()
        &&& assets[q].last_modified@ == Seq::<char>::empty()
    } by {
        assert(assets[q].name@ == batch_kept(m, names1)[q]);
        assert(m.contains_key(batch_kept(m, names1)[q]));
        assert(assets[q].size as nat == m[batch_kept(m, names1)[q]].len());
    }
}

/// The page names decompose from the front as well as from the back.
proof fn lemma_pages_names_first(pages: Seq<Result<Vec<String>, StoreFault>>)
    requires
        pages.len() > 0,
    ensures
        pages_names(pages) =~= page_names(pages.first()) + pages_names(pages.drop_first()),
    decreases pages.len(),
{
    if pages.len() == 1 {
        assert(pages.drop_last() =~= Seq::<Result<Vec<String>, StoreFault>>::empty());
        assert(pages.drop_first() =~= Seq::<Result<Vec<String>, StoreFault>>::empty());
        assert(pages.first() == pages.last());
        assert(Seq::<Seq<char>>::empty() + page_names(pages.last()) =~= page_names(pages.last()));
        assert(page_names(pages.first()) + Seq::<Seq<char>>::empty() =~= page_names(
            pages.first(),
        ));
    } else {
        let dl = pages.drop_last();
        lemma_pages_names_first(dl);
        assert(dl.first() == pages.first());
        assert(dl.drop_first() =~= pages.drop_first().drop_last());
        assert(pages.drop_first().last() == pages.last());
        assert((page_names(pages.first()) + pages_names(dl.drop_first())) + page_names(
            pages.last(),
        ) =~= page_names(pages.first()) + (pages_names(pages.drop_first().drop_last())
            + page_names(pages.drop_first().last())));
    }
}

/// When every page arrives, the aggregate is every page's names in order.
proof fn lemma_aggregate_all_ok(pages: Seq<Result<Vec<String>, StoreFault>>)
    requires
        all_pages_ok(pages),
    ensures
        aggregate_pages(pages) == Ok::<Seq<Seq<char>>, ErrorKind>(pages_names(pages)),
    decreases pages.len(),
{
    if pages.len() == 0 {
        assert(pages_names(pages) =~= Seq::<Seq<char>>::empty());
    } else {
        assert forall|i: int| 0 <= i < pages.drop_first().len() implies pages.drop_first()[i]
            is Ok by {
            assert(pages.drop_first()[i] == pages[i + 1]);
        }
        lemma_aggregate_all_ok(pages.drop_first());
        lemma_pages_names_first(pages);
        assert(pages[0] is Ok);
    }
}

/// Pages before the first failure contribute nothing: the aggregate is
/// that failure, translated.
proof fn lemma_aggregate_first_err(
    pages: Seq<Result<Vec<String>, StoreFault>>,
    i: int,
    f: StoreFault,
)
    requires
        0 <= i < pages.len(),
        forall|j: int| 0 <= j < i ==> pages[j] is Ok,
        pages[i] == Err::<Vec<String>, StoreFault>(f),
    ensures
        aggregate_pages(pages) == Err::<Seq<Seq<char>>, ErrorKind>(translate_spec(f)),
    decreases i,
{
    if i == 0 {
    } else {
        assert(pages[0] is Ok);
        let dp = pages.drop_first();
        assert forall|j: int| 0 <= j < i - 1 implies dp[j] is Ok by {
            assert(dp[j] == pages[j + 1]);
        }
        assert(dp[i - 1] == pages[i]);
        lemma_aggregate_first_err(dp, i - 1, f);
    }
}

/// A run of pages that is not all successes has a first failure.
#[verifier::rlimit(50)]
proof fn lemma_first_err_exists(pages: Seq<Result<Vec<String>, StoreFault>>)
    requires
        !all_pages_ok(pages),
    ensures
        exists|i: int|
            0 <= i < pages.len() && (#[trigger] pages[i]) is Err && (forall|j: int|
                0 <= j < i ==> pages[j] is Ok),
    decreases pages.len(),
{
    if pages.len() > 0 {
        if pages[0] is Err {
            assert(0 <= 0 < pages.len() && pages[0] is Err && (forall|j: int|
                0 <= j < 0 ==> pages[j] is Ok));
        } else {
            let dp = pages.drop_first();
            let k = choose|k: int| 0 <= k < pages.len() && !((#[trigger] pages[k]) is Ok);
            assert(dp[k - 1] == pages[k]);
            assert(!all_pages_ok(dp));
            lemma_first_err_exists(dp);
            let i = choose|i: int|
                0 <= i < dp.len() && (#[trigger] dp[i]) is Err && (forall|j: int|
                    0 <= j < i ==> dp[j] is Ok);
            assert forall|j: int| 0 <= j < i + 1 implies pages[j] is Ok by {
                if j > 0 {
                    assert(dp[j - 1] == pages[j]);
                }
            }
            assert(pages[i + 1] == dp[i]);
        }
    }
}

/// Law: listing is complete or nothing — when every page arrives the
/// aggregate holds every listed name in page order (so each bucket key
/// exactly once when the pages list each key once), and one failing page
/// fails the whole listing with no partial result.
pub proof fn lemma_listing_complete_or_nothing(pages: Seq<Result<Vec<String>, StoreFault>>)
    ensures
        all_pages_ok(pages) ==> aggregate_pages(pages) == Ok::<Seq<Seq<char>>, ErrorKind>(
            pages_names(pages),
        ),
        !all_pages_ok(pages) ==> aggregate_pages(pages) is Err,
{
    if all_pages_ok(pages) {
        lemma_aggregate_all_ok(pages);
    } else {
        lemma_first_err_exists(pages);
        let i = choose|i: int|
            0 <= i < pages.len() && (#[trigger] pages[i]) is Err && (forall|j: int|
                0 <= j < i ==> pages[j] is Ok);
        match pages[i] {
            Err(f) => {
                lemma_aggregate_first_err(pages, i, f);
            },
            Ok(_) => {
                assert(false);
            },
        }
    }
}

/// Law: batch info is best-effort — it never reports more entries than
/// names were asked for, a batch whose names are all present loses
/// nothing, and one whose names are all absent reports nothing (and in
/// neither case does the batch fail as a whole).
pub proof fn lemma_batch_best_effort(m: Map<Seq<char>, Seq<u8>>, names: Seq<Seq<char>>)
    ensures
        batch_kept(m, names).len() <= names.len(),
        (forall|i: int| 0 <= i < names.len() ==> m.contains_key(#[trigger] names[i]))
            ==> batch_kept(m, names) =~= names,
        (forall|i: int| 0 <= i < names.len() ==> !m.contains_key(#[trigger] names[i]))
            ==> batch_kept(m, names) =~= Seq::<Seq<char>>::empty(),
    decreases names.len(),
{
    if names.len() > 0 {
        lemma_batch_best_effort(m, names.drop_last());
    }
}

/// Law: without the "add asset" capability the put gate refuses with
/// Forbidden and authorizes no store call.
pub proof fn lemma_put_forbidden_without_capability(
    claims: Seq<Seq<char>>,
    filename: Option<String>,
    g: PutGate,
)
    requires
        !has_capability(claims, add_asset_cap()),
        put_gate_post(claims, filename, g),
    ensures
        g is Forbidden,
        !(g is Proceed),
{
}

/// Law: a filename outside the media allow-lists is refused as an
/// unsupported media type and authorizes no store call.
pub proof fn lemma_put_rejects_invalid_type(
    claims: Seq<Seq<char>>,
    filename: Option<String>,
    g: PutGate,
)
    requires
        has_capability(claims, add_asset_cap()),
        filename matches Some(n) && !is_valid_asset_type_spec(encode_utf8(n@)),
        put_gate_post(claims, filename, g),
    ensures
        g is UnsupportedMediaType,
        !(g is Proceed),
{
}

/// Law: when the store reports an HTTP not-found for a fetch, every
/// conforming get outcome is NotFound — never Internal.
pub proof fn lemma_get_missing_never_internal(r: GetAssetOutcome)
    requires
        get_post(Err(StoreFault::Http(404)), r),
    ensures
        r is NotFound,
        !(r is Internal),
{
}

/// Law: storing bytes under a name and then getting that name returns
/// exactly those bytes.
pub proof fn lemma_put_get_round_trip(
    pre: MemoryStore,
    post: MemoryStore,
    name: Seq<char>,
    content: Seq<u8>,
    r: GetAssetOutcome,
)
    requires
        post.contents() == pre.contents().insert(name, content),
        post.contents().contains_key(name) ==> (r matches GetAssetOutcome::Content(b) && b@
            == post.contents()[name]),
    ensures
        r matches GetAssetOutcome::Content(b) && b@ == content,
{
}

} // verus!
