//! Web addresses as plain parts, their canonical form, and the identities
//! derived from them.

use crate::address::{is_prohibited_ip, prohibited, v4_literal, v4_literal_of};
use crate::order::{key_seqs, order_of, stable_order};
use crate::text::{ascii_lowercase, begins, chars_of, equals, lower_ascii, starts_with};
use crate::types::FailureCode;
use vstd::prelude::*;

verus! {

/// The parts of a parsed address that the rules read.
#[derive(Debug, PartialEq, Eq)]
pub struct WebUrl {
    /// The serialised address.
    pub text: String,
    pub scheme: String,
    pub username: String,
    pub has_password: bool,
    pub host: Option<String>,
    /// The port written in the address, where it is not the default one.
    pub port: Option<u16>,
    /// The port of the address, or the default one of its scheme.
    pub known_port: Option<u16>,
    pub path: String,
}

/// What `url::Url::parse` makes of a text, as parts.
pub uninterp spec fn parsed_url(text: Seq<char>) -> Option<WebUrl>;

/// What `url::Url::join` makes of a reference against a base address, serialised.
pub uninterp spec fn joined_url(base: Seq<char>, reference: Seq<char>) -> Option<Seq<char>>;

/// An address after `url::Url::set_fragment(None)`, serialised.
pub uninterp spec fn url_without_fragment(text: Seq<char>) -> Seq<char>;

/// An address after `url::Url::set_port(None)`, serialised.
pub uninterp spec fn url_without_port(text: Seq<char>) -> Seq<char>;

/// An address after `url::Url::set_query(None)`, serialised.
pub uninterp spec fn url_without_query(text: Seq<char>) -> Seq<char>;

/// The decoded pairs that `url::Url::query_pairs` yields.
pub uninterp spec fn url_query_pairs(text: Seq<char>) -> Seq<(Seq<char>, Seq<char>)>;

/// An address after `query_pairs_mut().extend_pairs(..)`, serialised.
pub uninterp spec fn url_with_pairs(text: Seq<char>, pairs: Seq<(Seq<char>, Seq<char>)>) -> Seq<char>;

/// The texts of a sequence of string pairs.
pub open spec fn pair_texts(v: Seq<(String, String)>) -> Seq<(Seq<char>, Seq<char>)> {
    Seq::new(v.len(), |i: int| (v[i].0@, v[i].1@))
}

/// `url::Url::parse`, with the accessors of the result read out one by one.
#[verifier::external_body]
fn url_parse(text: &str) -> (r: Option<WebUrl>)
    ensures
        r == parsed_url(text@),
{
    let u = url::Url::parse(text).ok()?;
    Some(WebUrl {
        text: u.as_str().to_owned(),
        scheme: u.scheme().to_owned(),
        username: u.username().to_owned(),
        has_password: u.password().is_some(),
        host: u.host_str().map(str::to_owned),
        port: u.port(),
        known_port: u.port_or_known_default(),
        path: u.path().to_owned(),
    })
}

/// `url::Url::join` on a serialised base address.
#[verifier::external_body]
fn url_join(base: &str, reference: &str) -> (r: Option<String>)
    ensures
        match r {
            Some(t) => joined_url(base@, reference@) == Some(t@),
            None => joined_url(base@, reference@) is None,
        },
{
    url::Url::parse(base).ok()?.join(reference).ok().map(String::from)
}

/// `url::Url::set_fragment` with no fragment, on a serialised address.
#[verifier::external_body]
fn url_drop_fragment(text: &str) -> (r: String)
    ensures
        r@ == url_without_fragment(text@),
{
    match url::Url::parse(text) {
        Ok(mut u) => {
            u.set_fragment(None);
            String::from(u)
        },
        Err(_) => text.to_owned(),
    }
}

/// `url::Url::set_port` with no port, on a serialised address.
#[verifier::external_body]
fn url_drop_port(text: &str) -> (r: String)
    ensures
        r@ == url_without_port(text@),
{
    match url::Url::parse(text) {
        Ok(mut u) => {
            let _ = u.set_port(None);
            String::from(u)
        },
        Err(_) => text.to_owned(),
    }
}

/// `url::Url::set_query` with no query, on a serialised address.
#[verifier::external_body]
fn url_drop_query(text: &str) -> (r: String)
    ensures
        r@ == url_without_query(text@),
{
    match url::Url::parse(text) {
        Ok(mut u) => {
            u.set_query(None);
            String::from(u)
        },
        Err(_) => text.to_owned(),
    }
}

/// `url::Url::query_pairs` of a serialised address.
#[verifier::external_body]
fn url_pairs(text: &str) -> (r: Vec<(String, String)>)
    ensures
        pair_texts(r@) == url_query_pairs(text@),
{
    match url::Url::parse(text) {
        Ok(u) => u.query_pairs().into_owned().collect(),
        Err(_) => Vec::new(),
    }
}

/// `query_pairs_mut().extend_pairs(..)` on a serialised address.
#[verifier::external_body]
pub(crate) fn url_extend_pairs(text: &str, pairs: &Vec<(String, String)>) -> (r: String)
    ensures
        r@ == url_with_pairs(text@, pair_texts(pairs@)),
{
    match url::Url::parse(text) {
        Ok(mut u) => {
            u.query_pairs_mut().extend_pairs(pairs);
            String::from(u)
        },
        Err(_) => text.to_owned(),
    }
}

pub fn clone_option(value: &Option<String>) -> (r: Option<String>)
    ensures
        r == *value,
{
    match value {
        Some(text) => Some(text.clone()),
        None => None,
    }
}

impl Clone for WebUrl {
    fn clone(&self) -> (r: Self)
        ensures
            r == *self,
    {
        WebUrl {
            text: self.text.clone(),
            scheme: self.scheme.clone(),
            username: self.username.clone(),
            has_password: self.has_password,
            host: clone_option(&self.host),
            port: self.port,
            known_port: self.known_port,
            path: self.path.clone(),
        }
    }
}

impl WebUrl {
    pub fn parse(text: &str) -> (r: Option<WebUrl>)
        ensures
            r == parsed_url(text@),
    {
        url_parse(text)
    }

    /// The address that a reference denotes on a page with this address.
    pub fn join(&self, reference: &str) -> (r: Option<WebUrl>)
        ensures
            r == resolved(self.text@, reference@),
    {
        match url_join(self.text.as_str(), reference) {
            Some(text) => url_parse(text.as_str()),
            None => None,
        }
    }

    /// Two addresses are the same where their serialisations are.
    pub fn same(&self, other: &WebUrl) -> (r: bool)
        ensures
            r == (self.text@ == other.text@),
    {
        self.text == other.text
    }
}

pub open spec fn resolved(base: Seq<char>, reference: Seq<char>) -> Option<WebUrl> {
    match joined_url(base, reference) {
        Some(text) => parsed_url(text),
        None => None,
    }
}

/// The host, empty where there is none.
pub open spec fn host_text(url: WebUrl) -> Seq<char> {
    match url.host {
        Some(h) => h@,
        None => Seq::empty(),
    }
}

pub fn host_chars(url: &WebUrl) -> (r: Vec<char>)
    ensures
        r@ == host_text(*url),
{
    match &url.host {
        Some(h) => chars_of(h.as_str()),
        None => Vec::new(),
    }
}

/// A web address with a host and without credentials.
pub open spec fn shape_is_valid(url: WebUrl) -> bool {
    &&& (url.scheme@ == "http"@ || url.scheme@ == "https"@)
    &&& url.host is Some
    &&& url.username@.len() == 0
    &&& !url.has_password
}

pub fn validate_url_shape(url: &WebUrl) -> (r: Result<(), FailureCode>)
    ensures
        r == (if shape_is_valid(*url) {
            Ok(())
        } else {
            Err::<(), FailureCode>(FailureCode::InvalidInput)
        }),
{
    let scheme = chars_of(url.scheme.as_str());
    let username = chars_of(url.username.as_str());
    if !(equals(&scheme, "http") || equals(&scheme, "https")) || url.host.is_none() || username.len()
        != 0 || url.has_password {
        return Err(FailureCode::InvalidInput);
    }
    Ok(())
}

/// The host is a version 4 address in a prohibited range. The brackets of a
/// version 6 host keep it from being one.
pub open spec fn host_is_prohibited(url: WebUrl) -> bool {
    match url.host {
        Some(h) => match v4_literal(h@) {
            Some(ip) => prohibited(ip),
            None => false,
        },
        None => false,
    }
}

pub fn has_prohibited_host(url: &WebUrl) -> (r: bool)
    ensures
        r == host_is_prohibited(*url),
{
    match &url.host {
        Some(h) => {
            let host = chars_of(h.as_str());
            match v4_literal_of(&host) {
                Some(ip) => is_prohibited_ip(ip),
                None => false,
            }
        },
        None => false,
    }
}

/// An address that may stand among the candidates.
pub open spec fn candidate_url_valid(url: WebUrl) -> bool {
    shape_is_valid(url) && !host_is_prohibited(url)
}

pub fn candidate_url_is_valid(url: &WebUrl) -> (r: bool)
    ensures
        r == candidate_url_valid(*url),
{
    validate_url_shape(url).is_ok() && !has_prohibited_host(url)
}

/// A query parameter that only tracks where a visitor came from.
pub open spec fn tracking_key(key: Seq<char>) -> bool {
    let lowered = ascii_lowercase(key);
    starts_with(lowered, "utm_"@) || lowered == "fbclid"@ || lowered == "gclid"@
}

/// The pairs that carry meaning, in their given order.
pub open spec fn meaningful_pairs(pairs: Seq<(Seq<char>, Seq<char>)>) -> Seq<(Seq<char>, Seq<char>)>
    decreases pairs.len(),
{
    if pairs.len() == 0 {
        pairs
    } else {
        let rest = meaningful_pairs(pairs.drop_last());
        if tracking_key(pairs.last().0) {
            rest
        } else {
            rest.push(pairs.last())
        }
    }
}

/// Orders pairs by key and then by value.
pub open spec fn pair_key(pair: (Seq<char>, Seq<char>)) -> Seq<u64> {
    shifted_key(pair.0).push(0) + shifted_key(pair.1)
}

pub open spec fn shifted_key(s: Seq<char>) -> Seq<u64> {
    Seq::new(s.len(), |i: int| (s[i] as u32 + 1) as u64)
}

pub open spec fn pair_keys(pairs: Seq<(Seq<char>, Seq<char>)>) -> Seq<Seq<u64>> {
    Seq::new(pairs.len(), |i: int| pair_key(pairs[i]))
}

pub open spec fn sorted_pairs(pairs: Seq<(Seq<char>, Seq<char>)>) -> Seq<(Seq<char>, Seq<char>)> {
    let order = stable_order(pair_keys(pairs), pairs.len() as int);
    Seq::new(pairs.len(), |i: int| pairs[order[i]])
}

/// The canonical form of an address: no fragment, no default port, no
/// tracking parameter, and the other parameters in order.
pub open spec fn normalized_text(url: WebUrl) -> Seq<char> {
    let plain = url_without_fragment(url.text@);
    let default_port = (url.scheme@ == "http"@ && url.port == Some(80u16)) || (url.scheme@
        == "https"@ && url.port == Some(443u16));
    let portless = if default_port {
        url_without_port(plain)
    } else {
        plain
    };
    let pairs = sorted_pairs(meaningful_pairs(url_query_pairs(portless)));
    let bare = url_without_query(portless);
    if pairs.len() == 0 {
        bare
    } else {
        url_with_pairs(bare, pairs)
    }
}

/// The address in canonical form; none where it has not the shape of a web address.
pub open spec fn normalized(url: WebUrl) -> Option<WebUrl> {
    if shape_is_valid(url) {
        parsed_url(normalized_text(url))
    } else {
        None
    }
}

fn is_tracking_key(key: &String) -> (r: bool)
    ensures
        r == tracking_key(key@),
{
    let chars = chars_of(key.as_str());
    let lowered = lower_ascii(&chars);
    begins(&lowered, "utm_") || equals(&lowered, "fbclid") || equals(&lowered, "gclid")
}

fn push_shifted(key: &mut Vec<u64>, text: &String)
    ensures
        final(key)@ == old(key)@ + shifted_key(text@),
{
    let ghost start = key@;
    let s = chars_of(text.as_str());
    let mut i: usize = 0;
    while i < s.len()
        invariant
            i <= s@.len(),
            s@ == text@,
            key@.len() == start.len() + i,
            forall|k: int| 0 <= k < start.len() ==> key@[k] == start[k],
            forall|k: int| 0 <= k < i ==> key@[start.len() + k] == #[trigger] shifted_key(s@)[k],
        decreases s@.len() - i,
    {
        key.push(s[i] as u32 as u64 + 1);
        proof {
            assert(shifted_key(s@)[i as int] == s@[i as int] as u32 + 1);
        }
        i = i + 1;
    }
    proof {
        assert(key@ =~= start + shifted_key(s@));
    }
}

fn sort_pairs(pairs: &Vec<(String, String)>) -> (r: Vec<(String, String)>)
    ensures
        pair_texts(r@) == sorted_pairs(pair_texts(pairs@)),
{
    let ghost model = pair_texts(pairs@);
    let mut keys: Vec<Vec<u64>> = Vec::new();
    let mut i: usize = 0;
    while i < pairs.len()
        invariant
            i <= pairs@.len(),
            model == pair_texts(pairs@),
            keys@.len() == i,
            forall|k: int| 0 <= k < i ==> (#[trigger] keys@[k])@ == pair_key(model[k]),
        decreases pairs@.len() - i,
    {
        let mut key: Vec<u64> = Vec::new();
        push_shifted(&mut key, &pairs[i].0);
        key.push(0);
        push_shifted(&mut key, &pairs[i].1);
        proof {
            assert(key@ =~= pair_key(model[i as int]));
        }
        keys.push(key);
        i = i + 1;
    }
    let order = order_of(&keys);
    proof {
        assert(key_seqs(keys@) =~= pair_keys(model));
    }
    let mut r: Vec<(String, String)> = Vec::new();
    let mut j: usize = 0;
    while j < order.len()
        invariant
            j <= order@.len(),
            order@.len() == pairs@.len(),
            forall|q: int| 0 <= q < order@.len() ==> #[trigger] order@[q] < pairs@.len(),
            r@.len() == j,
            forall|k: int| 0 <= k < j ==> #[trigger] r@[k] == pairs@[order@[k] as int],
        decreases order@.len() - j,
    {
        let pair = &pairs[order[j]];
        r.push((pair.0.clone(), pair.1.clone()));
        j = j + 1;
    }
    proof {
        assert forall|k: int| 0 <= k < r@.len() implies pair_texts(r@)[k] == sorted_pairs(model)[k] by {
            assert(crate::order::indices(order@)[k] == order@[k] as int);
            assert(r@[k] == pairs@[order@[k] as int]);
        }
        assert(pair_texts(r@) =~= sorted_pairs(model));
    }
    r
}

fn keep_meaningful(pairs: &Vec<(String, String)>) -> (r: Vec<(String, String)>)
    ensures
        pair_texts(r@) == meaningful_pairs(pair_texts(pairs@)),
{
    let ghost model = pair_texts(pairs@);
    let mut r: Vec<(String, String)> = Vec::new();
    let mut i: usize = 0;
    proof {
        assert(pair_texts(r@) =~= meaningful_pairs(model.take(0)));
    }
    while i < pairs.len()
        invariant
            i <= pairs@.len(),
            model == pair_texts(pairs@),
            pair_texts(r@) == meaningful_pairs(model.take(i as int)),
        decreases pairs@.len() - i,
    {
        let ghost before = r@;
        proof {
            let next = model.take(i as int + 1);
            assert(next.drop_last() =~= model.take(i as int));
            assert(next.last() == model[i as int]);
        }
        if !is_tracking_key(&pairs[i].0) {
            r.push((pairs[i].0.clone(), pairs[i].1.clone()));
            proof {
                assert(pair_texts(r@) =~= pair_texts(before).push(model[i as int]));
            }
        }
        i = i + 1;
    }
    proof {
        assert(model.take(pairs@.len() as int) =~= model);
    }
    r
}

fn normalize_text(url: &WebUrl) -> (r: String)
    ensures
        r@ == normalized_text(*url),
{
    let plain = url_drop_fragment(url.text.as_str());
    let scheme = chars_of(url.scheme.as_str());
    let default_port = (equals(&scheme, "http") && url.port == Some(80u16)) || (equals(
        &scheme,
        "https",
    ) && url.port == Some(443u16));
    let portless = if default_port {
        url_drop_port(plain.as_str())
    } else {
        plain
    };
    let all = url_pairs(portless.as_str());
    let kept = keep_meaningful(&all);
    let pairs = sort_pairs(&kept);
    let bare = url_drop_query(portless.as_str());
    proof {
        assert(pair_texts(pairs@).len() == pairs@.len());
    }
    if pairs.len() == 0 {
        bare
    } else {
        url_extend_pairs(bare.as_str(), &pairs)
    }
}

/// The address in canonical form.
pub fn normalize_url(url: &WebUrl) -> (r: Result<WebUrl, FailureCode>)
    ensures
        r == (match normalized(*url) {
            Some(u) => Ok::<WebUrl, FailureCode>(u),
            None => Err::<WebUrl, FailureCode>(FailureCode::InvalidInput),
        }),
{
    if validate_url_shape(url).is_err() {
        return Err(FailureCode::InvalidInput);
    }
    let text = normalize_text(url);
    match url_parse(text.as_str()) {
        Some(u) => Ok(u),
        None => Err(FailureCode::InvalidInput),
    }
}

/// The serialised canonical form, the address itself where it has none.
pub open spec fn normalized_url_text(url: WebUrl) -> Seq<char> {
    match normalized(url) {
        Some(u) => u.text@,
        None => url.text@,
    }
}

pub fn normalized_url_string(url: &WebUrl) -> (r: String)
    ensures
        r@ == normalized_url_text(*url),
{
    match normalize_url(url) {
        Ok(u) => u.text,
        Err(_) => url.text.clone(),
    }
}

} // verus!
