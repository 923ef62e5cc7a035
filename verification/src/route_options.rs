//! The curator routes offered to the user: every available model route once (routes that
//! differ only in ASCII case count as one, the first kept), ordered by model, then provider,
//! ignoring ASCII case, then by route.

use vstd::prelude::*;

use crate::provider::ModelRoute;
use crate::text::{
    ascii_lower_seq, chars_eq, chars_lt, chars_of, lemma_lt_irreflexive, lemma_lt_total,
    lemma_lt_transitive, lower_chars, seq_lt, str_eq, views,
};

verus! {

/// A curator route the user may pick, with the reasoning efforts it accepts.
#[derive(Clone, Debug)]
pub struct ContextCuratorRouteOption {
    pub provider: String,
    pub route: String,
    pub model: String,
    pub detail: String,
    pub efforts: Vec<String>,
}

/// The identity of a route ignoring ASCII case: (provider, route, model).
pub open spec fn route_identity(r: ModelRoute) -> (Seq<char>, Seq<char>, Seq<char>) {
    (ascii_lower_seq(r.provider@), ascii_lower_seq(r.api_method@), ascii_lower_seq(r.model@))
}

/// Whether route `i` is offered: it is available and no available route before it has the
/// same identity.
pub open spec fn offered(routes: Seq<ModelRoute>, i: int) -> bool {
    &&& 0 <= i < routes.len()
    &&& routes[i].available
    &&& forall|j: int|
        0 <= j < i && #[trigger] routes[j].available ==> route_identity(routes[j])
            != route_identity(routes[i])
}

/// The order of offered routes, given as (model, provider, route): by model, then provider,
/// ignoring ASCII case, then by route.
pub open spec fn ordered_before(
    a: (Seq<char>, Seq<char>, Seq<char>),
    b: (Seq<char>, Seq<char>, Seq<char>),
) -> bool {
    let am = ascii_lower_seq(a.0);
    let bm = ascii_lower_seq(b.0);
    let ap = ascii_lower_seq(a.1);
    let bp = ascii_lower_seq(b.1);
    ||| seq_lt(am, bm)
    ||| am == bm && seq_lt(ap, bp)
    ||| am == bm && ap == bp && seq_lt(a.2, b.2)
}

pub open spec fn offered_before(a: ModelRoute, b: ModelRoute) -> bool {
    ordered_before((a.model@, a.provider@, a.api_method@), (b.model@, b.provider@, b.api_method@))
}

/// Whether option `a` is listed before option `b`.
pub open spec fn listed_before(a: ContextCuratorRouteOption, b: ContextCuratorRouteOption) -> bool {
    ordered_before((a.model@, a.provider@, a.route@), (b.model@, b.provider@, b.route@))
}

proof fn lemma_before_irreflexive(a: ModelRoute)
    ensures
        !offered_before(a, a),
{
    lemma_lt_irreflexive(ascii_lower_seq(a.model@));
    lemma_lt_irreflexive(ascii_lower_seq(a.provider@));
    lemma_lt_irreflexive(a.api_method@);
}

proof fn lemma_before_transitive(a: ModelRoute, b: ModelRoute, c: ModelRoute)
    requires
        offered_before(a, b),
        offered_before(b, c),
    ensures
        offered_before(a, c),
{
    let (am, bm, cm) = (
        ascii_lower_seq(a.model@),
        ascii_lower_seq(b.model@),
        ascii_lower_seq(c.model@),
    );
    let (ap, bp, cp) = (
        ascii_lower_seq(a.provider@),
        ascii_lower_seq(b.provider@),
        ascii_lower_seq(c.provider@),
    );
    if seq_lt(am, bm) {
        if seq_lt(bm, cm) {
            lemma_lt_transitive(am, bm, cm);
        }
    } else if seq_lt(bm, cm) {
    } else if seq_lt(ap, bp) {
        if seq_lt(bp, cp) {
            lemma_lt_transitive(ap, bp, cp);
        }
    } else if seq_lt(bp, cp) {
    } else {
        lemma_lt_transitive(a.api_method@, b.api_method@, c.api_method@);
    }
}

proof fn lemma_before_total(a: ModelRoute, b: ModelRoute)
    requires
        route_identity(a) != route_identity(b),
    ensures
        offered_before(a, b) || offered_before(b, a),
{
    let (am, bm) = (ascii_lower_seq(a.model@), ascii_lower_seq(b.model@));
    let (ap, bp) = (ascii_lower_seq(a.provider@), ascii_lower_seq(b.provider@));
    if am != bm {
        lemma_lt_total(am, bm);
    } else if ap != bp {
        lemma_lt_total(ap, bp);
    } else {
        lemma_lt_total(a.api_method@, b.api_method@);
    }
}

/// The efforts offered for a route: those inferred, without the swarm modes.
pub open spec fn offered_efforts(efforts: Seq<Seq<char>>) -> Seq<Seq<char>>
    decreases efforts.len(),
{
    if efforts.len() == 0 {
        Seq::empty()
    } else {
        let rest = offered_efforts(efforts.drop_last());
        let e = efforts.last();
        if e == "swarm"@ || e == "swarm-deep"@ {
            rest
        } else {
            rest.push(e)
        }
    }
}

/// The efforts offered for a route are exactly its inferred efforts, in order, with only the
/// swarm modes removed: every offered effort is inferred and not a swarm mode, and every
/// inferred effort that is not a swarm mode is offered.
pub proof fn law_offered_efforts_drop_only_swarm_modes(efforts: Seq<Seq<char>>)
    ensures
        offered_efforts(efforts) == efforts.filter(|e: Seq<char>| !(e == "swarm"@ || e == "swarm-deep"@)),
        forall|i: int|
            0 <= i < efforts.len() && !(efforts[i] == "swarm"@ || efforts[i] == "swarm-deep"@) ==> #[trigger] offered_efforts(
                efforts,
            ).contains(efforts[i]),
        forall|x: Seq<char>|
            #[trigger] offered_efforts(efforts).contains(x) ==> efforts.contains(x)
                && !(x == "swarm"@ || x == "swarm-deep"@),
        offered_efforts(efforts).len() <= efforts.len(),
    decreases efforts.len(),
{
    let f = |e: Seq<char>| !(e == "swarm"@ || e == "swarm-deep"@);
    if efforts.len() > 0 {
        law_offered_efforts_drop_only_swarm_modes(efforts.drop_last());
        reveal(Seq::filter);
        assert(efforts.filter(f) == {
            let rest = efforts.drop_last().filter(f);
            if f(efforts.last()) {
                rest.push(efforts.last())
            } else {
                rest
            }
        });
        assert forall|i: int|
            0 <= i < efforts.len() && !(efforts[i] == "swarm"@ || efforts[i] == "swarm-deep"@) implies #[trigger] offered_efforts(
            efforts,
        ).contains(efforts[i]) by {
            if i < efforts.len() - 1 {
                assert(efforts.drop_last()[i] == efforts[i]);
                assert(offered_efforts(efforts.drop_last()).contains(efforts[i]));
                let k = choose|k: int|
                    0 <= k < offered_efforts(efforts.drop_last()).len()
                        && offered_efforts(efforts.drop_last())[k] == efforts[i];
                assert(offered_efforts(efforts)[k] == efforts[i]);
            } else {
                let o = offered_efforts(efforts);
                assert(o[o.len() - 1] == efforts[i]);
            }
        }
        assert forall|x: Seq<char>| #[trigger] offered_efforts(efforts).contains(x) implies efforts.contains(
            x,
        ) && !(x == "swarm"@ || x == "swarm-deep"@) by {
            let o = offered_efforts(efforts);
            let k = choose|k: int| 0 <= k < o.len() && o[k] == x;
            let rest = offered_efforts(efforts.drop_last());
            if k < rest.len() {
                assert(rest[k] == x);
                assert(rest.contains(x));
                let j = choose|j: int| 0 <= j < efforts.drop_last().len() && efforts.drop_last()[j] == x;
                assert(efforts[j] == x);
            } else {
                assert(x == efforts.last());
                assert(efforts[efforts.len() - 1] == x);
            }
        }
    } else {
        assert(efforts.filter(f) =~= Seq::<Seq<char>>::empty()) by {
            reveal(Seq::filter);
        }
    }
}

/// Whether `o` offers route `r`, whose inferred efforts are `efforts`.
pub open spec fn option_offers(o: ContextCuratorRouteOption, r: ModelRoute, efforts: Seq<String>) -> bool {
    &&& o.provider@ == r.provider@
    &&& o.route@ == r.api_method@
    &&& o.model@ == r.model@
    &&& o.detail@ == r.detail@
    &&& views(o.efforts@) == offered_efforts(views(efforts))
}

/// An option offering a route lists exactly the route's inferred efforts, in order, without
/// the swarm modes, under the route's own provider, method, model and detail.
pub proof fn law_option_lists_the_non_swarm_efforts(
    o: ContextCuratorRouteOption,
    r: ModelRoute,
    efforts: Seq<String>,
)
    requires
        option_offers(o, r, efforts),
    ensures
        views(o.efforts@) == views(efforts).filter(|e: Seq<char>| !(e == "swarm"@ || e == "swarm-deep"@)),
        o.provider@ == r.provider@ && o.route@ == r.api_method@ && o.model@ == r.model@,
{
    law_offered_efforts_drop_only_swarm_modes(views(efforts));
}

pub open spec fn routes_of(model_routes: Seq<(ModelRoute, Vec<String>)>) -> Seq<ModelRoute> {
    model_routes.map_values(|p: (ModelRoute, Vec<String>)| p.0)
}

fn keep_offered_efforts(efforts: &Vec<String>) -> (r: Vec<String>)
    ensures
        views(r@) == offered_efforts(views(efforts@)),
{
    let mut out: Vec<String> = Vec::new();
    let mut i: usize = 0;
    while i < efforts.len()
        invariant
            i <= efforts@.len(),
            views(out@) == offered_efforts(views(efforts@.take(i as int))),
        decreases efforts.len() - i,
    {
        let ghost prev = out@;
        proof {
            assert(views(efforts@.take(i + 1)).drop_last() =~= views(efforts@.take(i as int)));
            assert(views(efforts@.take(i + 1)).last() == efforts@[i as int]@);
        }
        let e = &efforts[i];
        if !str_eq(e.as_str(), "swarm") && !str_eq(e.as_str(), "swarm-deep") {
            out.push(e.clone());
            proof {
                assert(views(out@) =~= views(prev).push(e@));
            }
        }
        i += 1;
    }
    proof {
        assert(efforts@.take(efforts@.len() as int) =~= efforts@);
    }
    out
}

/// A route's case-folded model, provider and route identity, and its route as written.
struct RouteKeys {
    model: Vec<char>,
    provider: Vec<char>,
    api: Vec<char>,
    api_raw: Vec<char>,
}

spec fn keys_of(k: RouteKeys, r: ModelRoute) -> bool {
    &&& k.model@ == ascii_lower_seq(r.model@)
    &&& k.provider@ == ascii_lower_seq(r.provider@)
    &&& k.api@ == ascii_lower_seq(r.api_method@)
    &&& k.api_raw@ == r.api_method@
}

fn route_keys(r: &ModelRoute) -> (k: RouteKeys)
    ensures
        keys_of(k, *r),
{
    let api_raw = chars_of(r.api_method.as_str());
    RouteKeys {
        model: lower_chars(&chars_of(r.model.as_str())),
        provider: lower_chars(&chars_of(r.provider.as_str())),
        api: lower_chars(&api_raw),
        api_raw,
    }
}

fn same_identity(a: &RouteKeys, b: &RouteKeys) -> (r: bool)
    ensures
        r == (a.provider@ == b.provider@ && a.api@ == b.api@ && a.model@ == b.model@),
{
    chars_eq(&a.provider, &b.provider) && chars_eq(&a.api, &b.api) && chars_eq(&a.model, &b.model)
}

fn keys_before(a: &RouteKeys, b: &RouteKeys) -> (r: bool)
    ensures
        r == ({
            ||| seq_lt(a.model@, b.model@)
            ||| a.model@ == b.model@ && seq_lt(a.provider@, b.provider@)
            ||| a.model@ == b.model@ && a.provider@ == b.provider@ && seq_lt(
                a.api_raw@,
                b.api_raw@,
            )
        }),
{
    if chars_lt(&a.model, &b.model) {
        return true;
    }
    if !chars_eq(&a.model, &b.model) {
        return false;
    }
    if chars_lt(&a.provider, &b.provider) {
        return true;
    }
    if !chars_eq(&a.provider, &b.provider) {
        return false;
    }
    chars_lt(&a.api_raw, &b.api_raw)
}

fn all_route_keys(model_routes: &[(ModelRoute, Vec<String>)]) -> (keys: Vec<RouteKeys>)
    ensures
        keys@.len() == model_routes@.len(),
        forall|k: int|
            0 <= k < keys@.len() ==> keys_of(#[trigger] keys@[k], routes_of(model_routes@)[k]),
{
    let n = model_routes.len();
    let mut keys: Vec<RouteKeys> = Vec::new();
    let mut i: usize = 0;
    while i < n
        invariant
            i <= n,
            n == model_routes@.len(),
            keys@.len() == i,
            forall|k: int| 0 <= k < i ==> keys_of(#[trigger] keys@[k], routes_of(model_routes@)[k]),
        decreases n - i,
    {
        keys.push(route_keys(&model_routes[i].0));
        i += 1;
    }
    keys
}

fn is_offered(model_routes: &[(ModelRoute, Vec<String>)], keys: &Vec<RouteKeys>, i: usize) -> (r:
    bool)
    requires
        i < model_routes@.len(),
        keys@.len() == model_routes@.len(),
        forall|k: int|
            0 <= k < keys@.len() ==> keys_of(#[trigger] keys@[k], routes_of(model_routes@)[k]),
    ensures
        r == offered(routes_of(model_routes@), i as int),
{
    let ghost routes = routes_of(model_routes@);
    assert(routes[i as int] == model_routes@[i as int].0);
    if !model_routes[i].0.available {
        return false;
    }
    let mut j: usize = 0;
    while j < i
        invariant
            j <= i,
            i < model_routes@.len(),
            routes == routes_of(model_routes@),
            keys@.len() == model_routes@.len(),
            forall|k: int| 0 <= k < keys@.len() ==> keys_of(#[trigger] keys@[k], routes[k]),
            forall|m: int|
                0 <= m < j && #[trigger] routes[m].available ==> route_identity(routes[m])
                    != route_identity(routes[i as int]),
        decreases i - j,
    {
        assert(routes[j as int] == model_routes@[j as int].0);
        if model_routes[j].0.available && same_identity(&keys[j], &keys[i]) {
            return false;
        }
        j += 1;
    }
    true
}

fn insert_in_order(sorted: &mut Vec<usize>, i: usize, keys: &Vec<RouteKeys>, Ghost(routes): Ghost<
    Seq<ModelRoute>,
>)
    requires
        keys@.len() == routes.len(),
        forall|k: int| 0 <= k < keys@.len() ==> keys_of(#[trigger] keys@[k], routes[k]),
        offered(routes, i as int),
        forall|q: int|
            0 <= q < old(sorted)@.len() ==> offered(routes, #[trigger] old(sorted)@[q] as int)
                && old(sorted)@[q] < i,
        forall|p: int, q: int|
            0 <= p < q < old(sorted)@.len() ==> offered_before(
                routes[#[trigger] old(sorted)@[p] as int],
                routes[#[trigger] old(sorted)@[q] as int],
            ),
    ensures
        final(sorted)@.contains(i),
        forall|m: usize| old(sorted)@.contains(m) ==> final(sorted)@.contains(m),
        forall|q: int|
            0 <= q < final(sorted)@.len() ==> offered(routes, #[trigger] final(sorted)@[q] as int)
                && final(sorted)@[q] <= i,
        forall|p: int, q: int|
            0 <= p < q < final(sorted)@.len() ==> offered_before(
                routes[#[trigger] final(sorted)@[p] as int],
                routes[#[trigger] final(sorted)@[q] as int],
            ),
{
    let mut p: usize = 0;
    while p < sorted.len() && !keys_before(&keys[i], &keys[sorted[p]])
        invariant
            p <= sorted@.len(),
            sorted@ == old(sorted)@,
            keys@.len() == routes.len(),
            offered(routes, i as int),
            forall|k: int| 0 <= k < keys@.len() ==> keys_of(#[trigger] keys@[k], routes[k]),
            forall|q: int|
                0 <= q < sorted@.len() ==> offered(routes, #[trigger] sorted@[q] as int)
                    && sorted@[q] < i,
            forall|q: int|
                0 <= q < p ==> offered_before(routes[#[trigger] sorted@[q] as int], routes[i as int]),
        decreases sorted.len() - p,
    {
        proof {
            let s = sorted@[p as int] as int;
            assert(route_identity(routes[s]) != route_identity(routes[i as int]));
            lemma_before_total(routes[s], routes[i as int]);
        }
        p += 1;
    }
    let ghost before = sorted@;
    sorted.insert(p, i);
    proof {
        assert forall|a: int, b: int| 0 <= a < b < sorted@.len() implies offered_before(
            routes[#[trigger] sorted@[a] as int],
            routes[#[trigger] sorted@[b] as int],
        ) by {
            if p < before.len() {
                assert(offered_before(routes[i as int], routes[before[p as int] as int]));
            }
            if a == p && b > p + 1 {
                lemma_before_transitive(
                    routes[i as int],
                    routes[before[p as int] as int],
                    routes[before[b - 1] as int],
                );
            }
        }
        assert(sorted@[p as int] == i);
        assert forall|m: usize| before.contains(m) implies sorted@.contains(m) by {
            let q = choose|q: int| 0 <= q < before.len() && before[q] == m;
            if q < p {
                assert(sorted@[q] == m);
            } else {
                assert(sorted@[q + 1] == m);
            }
        }
    }
}

fn offered_in_order(model_routes: &[(ModelRoute, Vec<String>)]) -> (sorted: Vec<usize>)
    ensures
        forall|q: int|
            0 <= q < sorted@.len() ==> offered(routes_of(model_routes@), #[trigger] sorted@[q] as int),
        forall|m: int| offered(routes_of(model_routes@), m) ==> sorted@.contains(m as usize),
        forall|p: int, q: int|
            0 <= p < q < sorted@.len() ==> offered_before(
                routes_of(model_routes@)[#[trigger] sorted@[p] as int],
                routes_of(model_routes@)[#[trigger] sorted@[q] as int],
            ),
{
    let ghost routes = routes_of(model_routes@);
    let keys = all_route_keys(model_routes);
    let n = model_routes.len();
    let mut sorted: Vec<usize> = Vec::new();
    let mut i: usize = 0;
    while i < n
        invariant
            i <= n,
            n == model_routes@.len(),
            routes == routes_of(model_routes@),
            routes.len() == n,
            keys@.len() == n,
            forall|k: int| 0 <= k < n ==> keys_of(#[trigger] keys@[k], routes[k]),
            forall|q: int|
                0 <= q < sorted@.len() ==> offered(routes, #[trigger] sorted@[q] as int)
                    && sorted@[q] < i,
            forall|m: int| 0 <= m < i && offered(routes, m) ==> sorted@.contains(m as usize),
            forall|p: int, q: int|
                0 <= p < q < sorted@.len() ==> offered_before(
                    routes[#[trigger] sorted@[p] as int],
                    routes[#[trigger] sorted@[q] as int],
                ),
        decreases n - i,
    {
        if is_offered(model_routes, &keys, i) {
            let ghost before = sorted@;
            insert_in_order(&mut sorted, i, &keys, Ghost(routes));
            proof {
                assert forall|m: int| 0 <= m < i + 1 && offered(routes, m) implies sorted@.contains(
                    m as usize,
                ) by {
                    if m < i {
                        assert(before.contains(m as usize));
                    }
                }
            }
        }
        i += 1;
    }
    sorted
}

/// Whether option `o` offers one of the offered routes.
pub open spec fn from_offered_route(
    model_routes: Seq<(ModelRoute, Vec<String>)>,
    o: ContextCuratorRouteOption,
) -> bool {
    exists|i: int|
        offered(routes_of(model_routes), i) && #[trigger] option_offers(
            o,
            routes_of(model_routes)[i],
            model_routes[i].1@,
        )
}

/// Whether offered route `i` has an option among `options`.
pub open spec fn has_option(
    model_routes: Seq<(ModelRoute, Vec<String>)>,
    options: Seq<ContextCuratorRouteOption>,
    i: int,
) -> bool {
    exists|k: int|
        0 <= k < options.len() && #[trigger] option_offers(
            options[k],
            routes_of(model_routes)[i],
            model_routes[i].1@,
        )
}

proof fn lemma_options_offered(
    model_routes: Seq<(ModelRoute, Vec<String>)>,
    sorted: Seq<usize>,
    out: Seq<ContextCuratorRouteOption>,
)
    requires
        model_routes.len() <= usize::MAX,
        out.len() == sorted.len(),
        forall|s: int| 0 <= s < sorted.len() ==> offered(routes_of(model_routes), #[trigger] sorted[s] as int),
        forall|s: int|
            0 <= s < out.len() ==> option_offers(
                #[trigger] out[s],
                routes_of(model_routes)[sorted[s] as int],
                model_routes[sorted[s] as int].1@,
            ),
        forall|m: int| offered(routes_of(model_routes), m) ==> sorted.contains(m as usize),
    ensures
        forall|k: int| 0 <= k < out.len() ==> from_offered_route(model_routes, #[trigger] out[k]),
        forall|i: int| offered(routes_of(model_routes), i) ==> #[trigger] has_option(model_routes, out, i),
{
    assert forall|k: int| 0 <= k < out.len() implies from_offered_route(model_routes, #[trigger] out[k]) by {
        let m = sorted[k] as int;
        assert(offered(routes_of(model_routes), m));
        assert(option_offers(out[k], routes_of(model_routes)[m], model_routes[m].1@));
    }
    assert forall|m: int| offered(routes_of(model_routes), m) implies #[trigger] has_option(
        model_routes,
        out,
        m,
    ) by {
        assert(sorted.contains(m as usize));
        let k = choose|k: int| 0 <= k < sorted.len() && sorted[k] == m as usize;
        assert(sorted[k] as int == m);
        assert(option_offers(out[k], routes_of(model_routes)[sorted[k] as int], model_routes[sorted[k] as int].1@));
    }
}

proof fn lemma_options_ordered(
    model_routes: Seq<(ModelRoute, Vec<String>)>,
    sorted: Seq<usize>,
    out: Seq<ContextCuratorRouteOption>,
)
    requires
        model_routes.len() <= usize::MAX,
        out.len() == sorted.len(),
        forall|s: int| 0 <= s < sorted.len() ==> offered(routes_of(model_routes), #[trigger] sorted[s] as int),
        forall|s: int|
            0 <= s < out.len() ==> option_offers(
                #[trigger] out[s],
                routes_of(model_routes)[sorted[s] as int],
                model_routes[sorted[s] as int].1@,
            ),
        forall|p: int, q: int|
            0 <= p < q < sorted.len() ==> offered_before(
                routes_of(model_routes)[#[trigger] sorted[p] as int],
                routes_of(model_routes)[#[trigger] sorted[q] as int],
            ),
    ensures
        forall|j: int, k: int|
            0 <= j < k < out.len() ==> listed_before(#[trigger] out[j], #[trigger] out[k]),
{
    let routes = routes_of(model_routes);
    assert forall|j: int, k: int| 0 <= j < k < out.len() implies listed_before(
        #[trigger] out[j],
        #[trigger] out[k],
    ) by {
        let a = sorted[j] as int;
        let b = sorted[k] as int;
        assert(offered_before(routes[a], routes[b]));
        assert(option_offers(out[j], routes[a], model_routes[a].1@));
        assert(option_offers(out[k], routes[b], model_routes[b].1@));
    }
}

/// The options offered for the given model routes, each with the reasoning efforts inferred
/// for it: every available route once, the first of those that differ only in ASCII case,
/// ordered by model, then provider, ignoring ASCII case, then by route.
pub fn curator_route_options(model_routes: &[(ModelRoute, Vec<String>)]) -> (r: Vec<
    ContextCuratorRouteOption,
>)
    ensures
        forall|k: int| 0 <= k < r@.len() ==> from_offered_route(model_routes@, #[trigger] r@[k]),
        forall|i: int|
            offered(routes_of(model_routes@), i) ==> #[trigger] has_option(model_routes@, r@, i),
        forall|j: int, k: int|
            0 <= j < k < r@.len() ==> listed_before(#[trigger] r@[j], #[trigger] r@[k]),
{
    let ghost routes = routes_of(model_routes@);
    let n: usize = model_routes.len();
    let sorted = offered_in_order(model_routes);
    let mut out: Vec<ContextCuratorRouteOption> = Vec::new();
    let mut q: usize = 0;
    while q < sorted.len()
        invariant
            q <= sorted@.len(),
            routes == routes_of(model_routes@),
            routes.len() == model_routes@.len(),
            n == model_routes@.len(),
            out@.len() == q,
            forall|s: int| 0 <= s < sorted@.len() ==> offered(routes, #[trigger] sorted@[s] as int),
            forall|s: int|
                0 <= s < q ==> option_offers(
                    #[trigger] out@[s],
                    routes[sorted@[s] as int],
                    model_routes@[sorted@[s] as int].1@,
                ),
        decreases sorted.len() - q,
    {
        let (route, efforts) = &model_routes[sorted[q]];
        proof {
            assert(routes[sorted@[q as int] as int] == *route);
        }
        out.push(
            ContextCuratorRouteOption {
                provider: route.provider.clone(),
                route: route.api_method.clone(),
                model: route.model.clone(),
                detail: route.detail.clone(),
                efforts: keep_offered_efforts(efforts),
            },
        );
        q += 1;
    }
    proof {
        lemma_options_offered(model_routes@, sorted@, out@);
        lemma_options_ordered(model_routes@, sorted@, out@);
    }
    out
}

/// The identity of an option ignoring ASCII case: (provider, route, model).
pub open spec fn option_identity(o: ContextCuratorRouteOption) -> (Seq<char>, Seq<char>, Seq<char>) {
    (ascii_lower_seq(o.provider@), ascii_lower_seq(o.route@), ascii_lower_seq(o.model@))
}

/// No two offered options name the same route, ignoring ASCII case.
pub proof fn law_route_options_are_distinct(
    model_routes: Seq<(ModelRoute, Vec<String>)>,
    options: Seq<ContextCuratorRouteOption>,
    j: int,
    k: int,
)
    requires
        forall|m: int| 0 <= m < options.len() ==> from_offered_route(model_routes, #[trigger] options[m]),
        forall|a: int, b: int|
            0 <= a < b < options.len() ==> listed_before(#[trigger] options[a], #[trigger] options[b]),
        0 <= j < k < options.len(),
    ensures
        option_identity(options[j]) != option_identity(options[k]),
{
    let routes = routes_of(model_routes);
    assert(from_offered_route(model_routes, options[j]));
    assert(from_offered_route(model_routes, options[k]));
    let a = choose|i: int|
        offered(routes, i) && #[trigger] option_offers(options[j], routes[i], model_routes[i].1@);
    let b = choose|i: int|
        offered(routes, i) && #[trigger] option_offers(options[k], routes[i], model_routes[i].1@);
    assert(listed_before(options[j], options[k]));
    if a == b {
        lemma_before_irreflexive(routes[a]);
    } else if a < b {
        assert(routes[a].available);
        assert(route_identity(routes[a]) != route_identity(routes[b]));
    } else {
        assert(routes[b].available);
        assert(route_identity(routes[b]) != route_identity(routes[a]));
    }
}

} // verus!
