//! The network interceptor: the filter lists loaded into an `adblock`
//! engine, and the decision taken on each request before it leaves: block
//! what the filters match, upgrade the rest of plain HTTP to HTTPS, allow
//! what remains.
use vstd::prelude::*;
use crate::crypto::{hex_encode, hex_lower, sha256, sha256_digest};
use crate::text::{
    has_prefix, has_substring, lines, lines_of, replace_all, replace_str, str_equal, string_views,
};
use crate::weburl::{url_parse, WebUrl};
use vstd::utf8::encode_utf8;

verus! {

/// The `adblock` filter engine, opaque to the proofs.
#[verifier::external_type_specification]
#[verifier::external_body]
pub struct ExEngine(adblock::Engine);

/// The `adblock` filter set an engine is built from, opaque to the proofs.
#[verifier::external_type_specification]
#[verifier::external_body]
pub struct ExFilterSet(adblock::lists::FilterSet);

/// Whether a filter set holds the filters of `rules`: it is the set that
/// results from adding those lines, in order, to an empty set without debug
/// information. Lines that do not parse as filters (comments, blank lines)
/// leave no trace, so one set is built from many line sequences.
pub uninterp spec fn set_built_from(set: adblock::lists::FilterSet, rules: Seq<Seq<char>>) -> bool;

/// Whether an engine holds the filters of `rules`: it is the optimized
/// engine made from a set built from them.
pub uninterp spec fn engine_built_from(engine: adblock::Engine, rules: Seq<Seq<char>>) -> bool;

/// Whether `adblock::request::Request::new` accepts a request URL: its own
/// URL parser must find a scheme and a host in it.
pub uninterp spec fn request_url_parses(url: Seq<char>) -> bool;

/// Whether `adblock::Engine::check_network_request`, on an engine built
/// from `rules` (without debug information, optimized), matches a blocking
/// rule for a request of `url` from `source_url` of `request_type`.
pub uninterp spec fn engine_blocks(
    rules: Seq<Seq<char>>,
    url: Seq<char>,
    source_url: Seq<char>,
    request_type: Seq<char>,
) -> bool;

/// An empty filter set, `adblock::lists::FilterSet::new(false)` (no debug
/// information kept): the set built from no lines.
#[verifier::external_body]
fn new_filter_set() -> (set: adblock::lists::FilterSet)
    ensures
        set_built_from(set, Seq::<Seq<char>>::empty()),
{
    adblock::lists::FilterSet::new(false)
}

/// `FilterSet::add_filters` with the default parse options: the lines are
/// parsed and the filters among them appended, in order, to the set's
/// network and cosmetic filters; the others are dropped. A set built from
/// `rs` becomes the set built from `rs` followed by the lines.
#[verifier::external_body]
fn add_filter_lines(set: &mut adblock::lists::FilterSet, rules: &Vec<String>)
    ensures
        forall|rs: Seq<Seq<char>>|
            set_built_from(*old(set), rs) ==> set_built_from(*final(set), rs + string_views(rules@)),
{
    set.add_filters(rules, adblock::lists::ParseOptions::default());
}

/// `adblock::Engine::from_filter_set(set, true)`: an optimized engine
/// holding the set's filters.
#[verifier::external_body]
fn engine_from_filter_set(set: adblock::lists::FilterSet) -> (engine: adblock::Engine)
    ensures
        forall|rs: Seq<Seq<char>>| set_built_from(set, rs) ==> engine_built_from(engine, rs),
{
    adblock::Engine::from_filter_set(set, true)
}

/// Builds `adblock::request::Request::new(url, source_url, request_type)`
/// and returns the `matched` flag of `Engine::check_network_request` on it;
/// `None` where `Request::new` fails. Its source fails only where its URL
/// parser finds no scheme and host in `url`, which is always so of the
/// empty URL; a source URL that does not parse is not an error.
#[verifier::external_body]
fn check_request(engine: &adblock::Engine, url: &str, source_url: &str, request_type: &str) -> (r:
    Option<bool>)
    ensures
        r is Some <==> request_url_parses(url@),
        url@.len() == 0 ==> r is None,
        forall|rs: Seq<Seq<char>>|
            engine_built_from(*engine, rs) ==> (r matches Some(m) ==> m == engine_blocks(
                rs,
                url@,
                source_url@,
                request_type@,
            )),
{
    match adblock::request::Request::new(url, source_url, request_type) {
        Ok(request) => Some(engine.check_network_request(&request).matched),
        Err(_) => None,
    }
}

/// The filter lines of a sequence of filter lists, list after list.
pub open spec fn all_rules(lists: Seq<Seq<char>>) -> Seq<Seq<char>>
    decreases lists.len(),
{
    if lists.len() == 0 {
        Seq::empty()
    } else {
        all_rules(lists.drop_last()) + lines(lists.last())
    }
}

/// The rules of one list are its lines.
pub proof fn all_rules_of_one_list(list: Seq<char>)
    ensures
        all_rules(seq![list]) == lines(list),
{
    let one = seq![list];
    assert(one.drop_last() =~= Seq::<Seq<char>>::empty());
    assert(one.last() == list);
    assert(all_rules(one.drop_last()) == Seq::<Seq<char>>::empty());
    assert(Seq::<Seq<char>>::empty() + lines(list) =~= lines(list));
}

/// Every line of every list is loaded, list after list: the rules of two
/// runs of lists are the rules of the first followed by those of the
/// second.
pub proof fn all_rules_of_concat(a: Seq<Seq<char>>, b: Seq<Seq<char>>)
    ensures
        all_rules(a + b) == all_rules(a) + all_rules(b),
    decreases b.len(),
{
    if b.len() == 0 {
        assert(a + b =~= a);
        assert(all_rules(a) + Seq::<Seq<char>>::empty() =~= all_rules(a));
    } else {
        all_rules_of_concat(a, b.drop_last());
        assert((a + b).drop_last() =~= a + b.drop_last());
        assert((a + b).last() == b.last());
        assert(all_rules(a) + all_rules(b.drop_last()) + lines(b.last()) =~= all_rules(a) + (
        all_rules(b.drop_last()) + lines(b.last())));
    }
}

/// The interceptor's state: the adblock engine loaded with the filter
/// lists.
pub struct NetState {
    engine: adblock::Engine,
    rules: Ghost<Seq<Seq<char>>>,
}

impl NetState {
    /// The filter lines the engine was loaded with.
    pub closed spec fn rules(&self) -> Seq<Seq<char>> {
        self.rules@
    }

    /// The engine holds the filters of the lines it was loaded with.
    #[verifier::type_invariant]
    spec fn engine_matches_rules(self) -> bool {
        engine_built_from(self.engine, self.rules@)
    }

    /// An engine loaded with the lines of each filter list, in order.
    pub fn from_lists(lists: &Vec<String>) -> (s: NetState)
        ensures
            s.rules() == all_rules(string_views(lists@)),
    {
        let mut set = new_filter_set();
        let n = lists.len();
        for i in 0..n
            invariant
                n == lists.len(),
                set_built_from(set, all_rules(string_views(lists@).take(i as int))),
        {
            let ghost all = string_views(lists@);
            assert(all.take(i + 1).drop_last() == all.take(i as int));
            let ls = lines_of(lists[i].as_str());
            add_filter_lines(&mut set, &ls);
        }
        assert(string_views(lists@).take(n as int) == string_views(lists@));
        let engine = engine_from_filter_set(set);
        NetState { engine, rules: Ghost(all_rules(string_views(lists@))) }
    }
}

/// How long a cached filter list stays fresh, in seconds.
pub const CACHE_TTL_SECS: u64 = 86400;

/// Whether a cached filter list whose age is `age_secs` (`None` where the
/// age could not be read) is used instead of fetching the list again.
pub fn cache_is_fresh(age_secs: Option<u64>) -> (b: bool)
    ensures
        b == (age_secs matches Some(a) && a < CACHE_TTL_SECS),
{
    match age_secs {
        Some(a) => a < CACHE_TTL_SECS,
        None => false,
    }
}

/// The name of the cache file of a filter list: the lowercase hex SHA-256
/// of its URL's UTF-8 bytes.
pub fn cache_file_name(list_url: &str) -> (name: String)
    ensures
        name@ == hex_lower(sha256_digest(encode_utf8(list_url@))),
{
    let digest = sha256(list_url.as_bytes());
    hex_encode(digest.as_slice())
}

/// What the interceptor does with a request.
#[derive(Debug)]
pub enum InterceptDecision {
    Allow(WebUrl),
    Block { reason: &'static str },
    Redirect(WebUrl),
}

/// Why a blocked request was blocked.
pub const BLOCK_REASON: &'static str = "adblock_matched";

/// The serialization of a URL with every `http://` made `https://`.
pub open spec fn https_upgrade(href: Seq<char>) -> Seq<char> {
    replace_all(href, "http://"@, "https://"@)
}

/// A prefix without the letter `h` in the upgraded text was already there
/// before the upgrade: every replacement starts with an `h`.
proof fn upgrade_keeps_h_free_prefix(s: Seq<char>, p: Seq<char>)
    requires
        p.len() > 0,
        forall|k: int| 0 <= k < p.len() ==> p[k] != 'h',
        has_prefix(https_upgrade(s), p),
    ensures
        has_prefix(s, p),
    decreases s.len(),
{
    reveal_strlit("http://");
    reveal_strlit("https://");
    let r = https_upgrade(s);
    if s.len() < 7 {
        assert(r == s);
    } else if s.take(7) == "http://"@ {
        assert(r == "https://"@ + https_upgrade(s.skip(7)));
        assert(r[0] == 'h');
        assert(r.take(p.len() as int)[0] == p[0]);
    } else {
        let rest = s.drop_first();
        assert(r == seq![s[0]] + https_upgrade(rest));
        assert(r.take(p.len() as int)[0] == p[0]);
        if p.len() > 1 {
            let q = p.skip(1);
            assert(https_upgrade(rest).take(q.len() as int) =~= r.take(p.len() as int).skip(1));
            upgrade_keeps_h_free_prefix(rest, q);
            assert(s.take(p.len() as int) =~= seq![s[0]] + rest.take(q.len() as int));
            assert(p =~= seq![p[0]] + q);
        } else {
            assert(s.take(p.len() as int) =~= p);
        }
    }
}

/// The upgrade leaves no plain `http://` behind: wherever the serialization
/// of a request had one, the text handed on has `https://`, and no new
/// `http://` is formed where the pieces meet.
pub proof fn https_upgrade_leaves_no_plain_http(href: Seq<char>)
    ensures
        !has_substring(https_upgrade(href), "http://"@),
    decreases href.len(),
{
    reveal_strlit("http://");
    reveal_strlit("https://");
    let h = "http://"@;
    let t = "https://"@;
    let r = https_upgrade(href);
    if href.len() < 7 {
        assert(r == href);
    } else if href.take(7) == h {
        let x = https_upgrade(href.skip(7));
        https_upgrade_leaves_no_plain_http(href.skip(7));
        assert(r == t + x);
        assert forall|i: int| 0 <= i && i + 7 <= r.len() implies #[trigger] r.subrange(i, i + 7) != h by {
            if i >= 8 {
                assert(r.subrange(i, i + 7) =~= x.subrange(i - 8, i - 8 + 7));
            } else if i == 0 {
                assert(r.subrange(0, 7)[4] == 's');
            } else {
                assert(r.subrange(i, i + 7)[0] == t[i]);
            }
        }
    } else {
        let rest = href.drop_first();
        let x = https_upgrade(rest);
        https_upgrade_leaves_no_plain_http(rest);
        assert(r == seq![href[0]] + x);
        assert forall|i: int| 0 <= i && i + 7 <= r.len() implies #[trigger] r.subrange(i, i + 7) != h by {
            if i >= 1 {
                assert(r.subrange(i, i + 7) =~= x.subrange(i - 1, i - 1 + 7));
            } else if r.subrange(0, 7) == h {
                let p = "ttp://"@;
                reveal_strlit("ttp://");
                assert(x.take(6) =~= r.subrange(1, 7));
                assert(r.subrange(1, 7) =~= h.skip(1));
                assert(h.skip(1) =~= p);
                upgrade_keeps_h_free_prefix(rest, p);
                assert(href.take(7) =~= seq![href[0]] + rest.take(6));
                assert(href[0] == r[0]);
                assert(href.take(7) =~= h);
            }
        }
    }
}

/// The HTTPS form of a plain-HTTP request, where it parses.
pub open spec fn upgrade_target(request: (Seq<char>, Seq<char>)) -> Option<(Seq<char>, Seq<char>)> {
    if request.1 == "http"@ {
        url_parse(https_upgrade(request.0))
    } else {
        None
    }
}

/// The decision on a request that no filter blocks: a plain-HTTP request
/// whose HTTPS form parses is redirected there; any other is allowed as it
/// is.
pub open spec fn passed(request: (Seq<char>, Seq<char>), d: InterceptDecision) -> bool {
    match upgrade_target(request) {
        Some(t) => d matches InterceptDecision::Redirect(u) && u.parts() == t,
        None => d matches InterceptDecision::Allow(u) && u.parts() == request,
    }
}

/// Whether the interceptor's decision on a request is the one the rules
/// give: with filters loaded, a request they match is blocked, before any
/// upgrade; a request that is not blocked is upgraded to HTTPS where it is
/// plain HTTP and the HTTPS form parses, and allowed as it is otherwise.
pub open spec fn decided(
    rules: Option<Seq<Seq<char>>>,
    request: (Seq<char>, Seq<char>),
    source: Seq<char>,
    request_type: Seq<char>,
    d: InterceptDecision,
) -> bool {
    match rules {
        Some(rs) => if engine_blocks(rs, request.0, source, request_type) {
            d matches InterceptDecision::Block { reason } && reason@ == BLOCK_REASON@
        } else {
            passed(request, d)
        },
        None => passed(request, d),
    }
}

/// No filter match, no block: whatever the resource type, a plain-HTTP
/// request that the filters (if any are loaded) do not match, and whose
/// serialization with every `http://` made `https://` parses, is
/// redirected to that HTTPS form.
pub proof fn unblocked_http_request_is_upgraded(
    rules: Option<Seq<Seq<char>>>,
    request: (Seq<char>, Seq<char>),
    source: Seq<char>,
    request_type: Seq<char>,
    d: InterceptDecision,
    target: (Seq<char>, Seq<char>),
)
    requires
        decided(rules, request, source, request_type, d),
        rules matches Some(rs) ==> !engine_blocks(rs, request.0, source, request_type),
        request.1 == "http"@,
        url_parse(replace_all(request.0, "http://"@, "https://"@)) == Some(target),
    ensures
        d matches InterceptDecision::Redirect(u) && u.parts() == target,
{
}

/// A request that is not plain HTTP and that the filters do not match is
/// allowed unchanged, whatever its resource type.
pub proof fn unblocked_other_request_is_allowed(
    rules: Option<Seq<Seq<char>>>,
    request: (Seq<char>, Seq<char>),
    source: Seq<char>,
    request_type: Seq<char>,
    d: InterceptDecision,
)
    requires
        decided(rules, request, source, request_type, d),
        rules matches Some(rs) ==> !engine_blocks(rs, request.0, source, request_type),
        request.1 != "http"@,
    ensures
        d matches InterceptDecision::Allow(u) && u.parts() == request,
{
}

/// A plain-HTTP request that the filters do not match and whose HTTPS form
/// does not parse is allowed unchanged, whatever its resource type.
pub proof fn unparsable_upgrade_is_allowed(
    rules: Option<Seq<Seq<char>>>,
    request: (Seq<char>, Seq<char>),
    source: Seq<char>,
    request_type: Seq<char>,
    d: InterceptDecision,
)
    requires
        decided(rules, request, source, request_type, d),
        rules matches Some(rs) ==> !engine_blocks(rs, request.0, source, request_type),
        request.1 == "http"@,
        url_parse(replace_all(request.0, "http://"@, "https://"@)) is None,
    ensures
        d matches InterceptDecision::Allow(u) && u.parts() == request,
{
}

/// Without filters every request is decided; with filters, exactly those
/// whose URL the filter engine's request parser accepts.
pub proof fn which_requests_are_decided(state: Option<&NetState>, request: (Seq<char>, Seq<char>))
    ensures
        state is None ==> decidable(state, request),
        state is Some ==> (decidable(state, request) <==> request_url_parses(request.0)),
{
}

/// A request that the loaded filters match is blocked as an adblock match,
/// whatever its scheme: it is never redirected.
pub proof fn matched_request_is_blocked(
    rs: Seq<Seq<char>>,
    request: (Seq<char>, Seq<char>),
    source: Seq<char>,
    request_type: Seq<char>,
    d: InterceptDecision,
)
    requires
        decided(Some(rs), request, source, request_type, d),
        engine_blocks(rs, request.0, source, request_type),
    ensures
        d matches InterceptDecision::Block { reason } && reason@ == "adblock_matched"@,
{
}

/// The rules an optional interceptor state holds.
pub open spec fn state_rules(state: Option<&NetState>) -> Option<Seq<Seq<char>>> {
    match state {
        Some(s) => Some(s.rules()),
        None => None,
    }
}

/// Whether a decision can be taken on a request: with filters loaded, the
/// filter engine must accept the request's URL.
pub open spec fn decidable(state: Option<&NetState>, request: (Seq<char>, Seq<char>)) -> bool {
    state is Some ==> request_url_parses(request.0)
}

/// The decision on a request that no filter blocks: the HTTPS form of a
/// plain-HTTP request where it parses, else the request as it is.
fn pass(request_url: &WebUrl) -> (d: InterceptDecision)
    ensures
        passed(request_url.parts(), d),
{
    proof {
        reveal_strlit("http");
        reveal_strlit("http://");
    }
    if str_equal(request_url.scheme(), "http") {
        let upgraded = replace_str(request_url.as_str(), "http://", "https://");
        match WebUrl::parse(upgraded.as_str()) {
            Some(target) => {
                return InterceptDecision::Redirect(target);
            },
            None => {},
        }
    }
    InterceptDecision::Allow(request_url.duplicate())
}

/// The interceptor's decision on a request, or `None` where the filter
/// engine cannot take the request's URL.
pub fn intercept_checked(
    state: Option<&NetState>,
    request_url: &WebUrl,
    source_url: &WebUrl,
    resource_type: &str,
) -> (r: Option<InterceptDecision>)
    ensures
        r is Some <==> decidable(state, request_url.parts()),
        r matches Some(d) ==> decided(
            state_rules(state),
            request_url.parts(),
            source_url.spec_href(),
            resource_type@,
            d,
        ),
{
    match state {
        Some(s) => {
            proof {
                use_type_invariant(s);
            }
            match check_request(&s.engine, request_url.as_str(), source_url.as_str(), resource_type) {
                Some(true) => Some(InterceptDecision::Block { reason: BLOCK_REASON }),
                Some(false) => Some(pass(request_url)),
                None => None,
            }
        },
        None => Some(pass(request_url)),
    }
}

/// The interceptor's decision on a request: once the filters are loaded, a
/// request they match is blocked; a request that is not blocked is
/// redirected to its HTTPS form where it is plain HTTP and that form
/// parses, and allowed unchanged otherwise. This is the unchecked form: the
/// caller must know that the filter engine takes the request's URL; a
/// caller that cannot know it uses `intercept_checked`, which answers
/// `None` on exactly those requests.
pub fn intercept(
    state: Option<&NetState>,
    request_url: &WebUrl,
    source_url: &WebUrl,
    resource_type: &str,
) -> (d: InterceptDecision)
    requires
        decidable(state, request_url.parts()),
    ensures
        decided(state_rules(state), request_url.parts(), source_url.spec_href(), resource_type@, d),
{
    match intercept_checked(state, request_url, source_url, resource_type) {
        Some(d) => d,
        None => {
            proof {
                assert(false);
            }
            InterceptDecision::Block { reason: BLOCK_REASON }
        },
    }
}

} // verus!
