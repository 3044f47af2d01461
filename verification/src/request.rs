use vstd::prelude::*;
use vstd::string::*;

verus! {

/// The fixed set of request types a plan may name.
#[derive(Clone, Copy, Debug, PartialEq, Eq, Structural)]
pub enum RequestType {
    Get,
    Put,
    Post,
    Patch,
    Delete,
}

impl RequestType {
    /// The lower-case token of this request type.
    pub open spec fn token_view(self) -> Seq<char> {
        match self {
            RequestType::Get => "get"@,
            RequestType::Put => "put"@,
            RequestType::Post => "post"@,
            RequestType::Patch => "patch"@,
            RequestType::Delete => "delete"@,
        }
    }

    /// The lower-case token of this request type.
    pub fn token(&self) -> (r: &'static str)
        ensures
            r@ == self.token_view(),
    {
        match self {
            RequestType::Get => "get",
            RequestType::Put => "put",
            RequestType::Post => "post",
            RequestType::Patch => "patch",
            RequestType::Delete => "delete",
        }
    }
}

/// `c` is `lower` in either ASCII case.
pub open spec fn char_ci(c: char, lower: char, upper: char) -> bool {
    c == lower || c == upper
}

pub open spec fn spells_get(s: Seq<char>) -> bool {
    s.len() == 3 && char_ci(s[0], 'g', 'G') && char_ci(s[1], 'e', 'E') && char_ci(s[2], 't', 'T')
}

pub open spec fn spells_put(s: Seq<char>) -> bool {
    s.len() == 3 && char_ci(s[0], 'p', 'P') && char_ci(s[1], 'u', 'U') && char_ci(s[2], 't', 'T')
}

pub open spec fn spells_post(s: Seq<char>) -> bool {
    s.len() == 4 && char_ci(s[0], 'p', 'P') && char_ci(s[1], 'o', 'O') && char_ci(s[2], 's', 'S')
        && char_ci(s[3], 't', 'T')
}

pub open spec fn spells_patch(s: Seq<char>) -> bool {
    s.len() == 5 && char_ci(s[0], 'p', 'P') && char_ci(s[1], 'a', 'A') && char_ci(s[2], 't', 'T')
        && char_ci(s[3], 'c', 'C') && char_ci(s[4], 'h', 'H')
}

pub open spec fn spells_delete(s: Seq<char>) -> bool {
    s.len() == 6 && char_ci(s[0], 'd', 'D') && char_ci(s[1], 'e', 'E') && char_ci(s[2], 'l', 'L')
        && char_ci(s[3], 'e', 'E') && char_ci(s[4], 't', 'T') && char_ci(s[5], 'e', 'E')
}

/// The request type named by `s`, matched case-insensitively against the
/// fixed set; `None` for every other string.
pub open spec fn req_type_of(s: Seq<char>) -> Option<RequestType> {
    if spells_get(s) {
        Some(RequestType::Get)
    } else if spells_put(s) {
        Some(RequestType::Put)
    } else if spells_post(s) {
        Some(RequestType::Post)
    } else if spells_patch(s) {
        Some(RequestType::Patch)
    } else if spells_delete(s) {
        Some(RequestType::Delete)
    } else {
        None
    }
}

/// Matches `s` case-insensitively against the fixed request-type set.
pub fn parse_request_type(s: &str) -> (r: Option<RequestType>)
    ensures
        r == req_type_of(s@),
{
    let n = s.unicode_len();
    if n == 3 {
        let c0 = s.get_char(0);
        let c1 = s.get_char(1);
        let c2 = s.get_char(2);
        if (c0 == 'g' || c0 == 'G') && (c1 == 'e' || c1 == 'E') && (c2 == 't' || c2 == 'T') {
            Some(RequestType::Get)
        } else if (c0 == 'p' || c0 == 'P') && (c1 == 'u' || c1 == 'U') && (c2 == 't' || c2 == 'T') {
            Some(RequestType::Put)
        } else {
            None
        }
    } else if n == 4 {
        let c0 = s.get_char(0);
        let c1 = s.get_char(1);
        let c2 = s.get_char(2);
        let c3 = s.get_char(3);
        if (c0 == 'p' || c0 == 'P') && (c1 == 'o' || c1 == 'O') && (c2 == 's' || c2 == 'S') && (c3
            == 't' || c3 == 'T') {
            Some(RequestType::Post)
        } else {
            None
        }
    } else if n == 5 {
        let c0 = s.get_char(0);
        let c1 = s.get_char(1);
        let c2 = s.get_char(2);
        let c3 = s.get_char(3);
        let c4 = s.get_char(4);
        if (c0 == 'p' || c0 == 'P') && (c1 == 'a' || c1 == 'A') && (c2 == 't' || c2 == 'T') && (c3
            == 'c' || c3 == 'C') && (c4 == 'h' || c4 == 'H') {
            Some(RequestType::Patch)
        } else {
            None
        }
    } else if n == 6 {
        let c0 = s.get_char(0);
        let c1 = s.get_char(1);
        let c2 = s.get_char(2);
        let c3 = s.get_char(3);
        let c4 = s.get_char(4);
        let c5 = s.get_char(5);
        if (c0 == 'd' || c0 == 'D') && (c1 == 'e' || c1 == 'E') && (c2 == 'l' || c2 == 'L') && (c3
            == 'e' || c3 == 'E') && (c4 == 't' || c4 == 'T') && (c5 == 'e' || c5 == 'E') {
            Some(RequestType::Delete)
        } else {
            None
        }
    } else {
        None
    }
}

/// One key/value string pair of a call descriptor's header or query state.
#[derive(Debug, PartialEq, Eq)]
pub struct KvPair {
    pub key: String,
    pub value: String,
}

/// The mathematical image of one key/value pair.
#[verifier::ext_equal]
pub struct PairView {
    pub key: Seq<char>,
    pub value: Seq<char>,
}

impl View for KvPair {
    type V = PairView;

    open spec fn view(&self) -> PairView {
        PairView { key: self.key@, value: self.value@ }
    }
}

/// The images of a sequence of pairs.
pub open spec fn pairs_view(pairs: Seq<KvPair>) -> Seq<PairView> {
    pairs.map_values(|p: KvPair| p@)
}

/// The marker pair this tool writes into every call descriptor.
pub open spec fn marker_view() -> PairView {
    PairView { key: "reqev"@, value: "true"@ }
}

/// Writing one pair: the first pair holding `key` is overwritten; a fresh key
/// is appended.
pub open spec fn set_pair_spec(pairs: Seq<PairView>, key: Seq<char>, value: Seq<char>) -> Seq<
    PairView,
>
    decreases pairs.len(),
{
    if pairs.len() == 0 {
        seq![PairView { key, value }]
    } else if pairs[0].key == key {
        seq![PairView { key, value }] + pairs.drop_first()
    } else {
        seq![pairs[0]] + set_pair_spec(pairs.drop_first(), key, value)
    }
}

/// Writing a sequence of pairs in order on top of `init`.
pub open spec fn apply_pairs(init: Seq<PairView>, upds: Seq<PairView>) -> Seq<PairView>
    decreases upds.len(),
{
    if upds.len() == 0 {
        init
    } else {
        apply_pairs(set_pair_spec(init, upds[0].key, upds[0].value), upds.drop_first())
    }
}

/// The value under `key`, taking the first pair whose key matches.
pub open spec fn lookup_pair(pairs: Seq<PairView>, key: Seq<char>) -> Option<Seq<char>>
    decreases pairs.len(),
{
    if pairs.len() == 0 {
        None
    } else if pairs[0].key == key {
        Some(pairs[0].value)
    } else {
        lookup_pair(pairs.drop_first(), key)
    }
}

/// The value of the last pair holding `key`, if any.
pub open spec fn last_with_key(pairs: Seq<PairView>, key: Seq<char>) -> Option<Seq<char>>
    decreases pairs.len(),
{
    if pairs.len() == 0 {
        None
    } else {
        match last_with_key(pairs.drop_first(), key) {
            Some(v) => Some(v),
            None => if pairs[0].key == key {
                Some(pairs[0].value)
            } else {
                None
            },
        }
    }
}

/// The fully resolved method, URL, header and query state of a single HTTP
/// call, built from one endpoint group and one of its paths. No network I/O
/// happens here; a descriptor is handed out for dispatch.
#[derive(Debug, PartialEq, Eq)]
pub struct CallDescriptor {
    pub method: RequestType,
    pub url: String,
    pub headers: Vec<KvPair>,
    pub query: Vec<KvPair>,
}

/// The mathematical image of a call descriptor.
#[verifier::ext_equal]
pub struct DescView {
    pub method: RequestType,
    pub url: Seq<char>,
    pub headers: Seq<PairView>,
    pub query: Seq<PairView>,
}

impl View for CallDescriptor {
    type V = DescView;

    open spec fn view(&self) -> DescView {
        DescView {
            method: self.method,
            url: self.url@,
            headers: pairs_view(self.headers@),
            query: pairs_view(self.query@),
        }
    }
}

/// The fixed scheme prefix of every outbound URL.
pub open spec fn scheme_view() -> Seq<char> {
    "https://"@
}

/// What building a descriptor returns: the URL is the literal concatenation
/// scheme + domain + path; the headers are the marker pair and then every
/// configured header, written in order; the query pairs are kept verbatim, in
/// order, duplicates included.
pub open spec fn desc_spec(
    method: RequestType,
    domain: Seq<char>,
    path: Seq<char>,
    headers: Seq<PairView>,
    query: Seq<PairView>,
) -> DescView {
    DescView {
        method,
        url: scheme_view() + domain + path,
        headers: apply_pairs(seq![marker_view()], headers),
        query,
    }
}

/// Concatenates a URL prefix and a further part, literally: no normalization
/// and no slash handling.
pub fn build_domain(fqdn: &str, domain: &str) -> (r: String)
    ensures
        r@ == fqdn@ + domain@,
{
    let mut s = fqdn.to_owned();
    s.append(domain);
    s
}

/// The index of the first pair holding `key`, if any.
#[verifier::loop_isolation(false)]
fn find_key(pairs: &Vec<KvPair>, key: &String) -> (r: Option<usize>)
    ensures
        match r {
            Some(i) => i < pairs@.len() && pairs@[i as int]@.key == key@ && (forall|j: int|
                0 <= j < i ==> pairs@[j]@.key != key@),
            None => forall|j: int| 0 <= j < pairs@.len() ==> pairs@[j]@.key != key@,
        },
{
    let n = pairs.len();
    let mut i: usize = 0;
    while i < n
        invariant
            i <= n,
            forall|j: int| 0 <= j < i ==> pairs@[j]@.key != key@,
        decreases n - i,
    {
        if pairs[i].key == *key {
            return Some(i);
        }
        i = i + 1;
    }
    None
}

proof fn lemma_set_pair_at(pairs: Seq<PairView>, key: Seq<char>, value: Seq<char>, i: int)
    requires
        0 <= i < pairs.len(),
        pairs[i].key == key,
        forall|j: int| 0 <= j < i ==> pairs[j].key != key,
    ensures
        set_pair_spec(pairs, key, value) =~= pairs.update(i, PairView { key, value }),
    decreases i,
{
    if i == 0 {
        assert(set_pair_spec(pairs, key, value) =~= pairs.update(0, PairView { key, value }));
    } else {
        assert(pairs.drop_first()[i - 1].key == key);
        lemma_set_pair_at(pairs.drop_first(), key, value, i - 1);
        assert(pairs.drop_first().update(i - 1, PairView { key, value }) =~= pairs.update(
            i,
            PairView { key, value },
        ).drop_first());
        assert(set_pair_spec(pairs, key, value) =~= pairs.update(i, PairView { key, value }));
    }
}

proof fn lemma_set_pair_fresh(pairs: Seq<PairView>, key: Seq<char>, value: Seq<char>)
    requires
        forall|j: int| 0 <= j < pairs.len() ==> pairs[j].key != key,
    ensures
        set_pair_spec(pairs, key, value) =~= pairs.push(PairView { key, value }),
    decreases pairs.len(),
{
    if pairs.len() == 0 {
    } else {
        lemma_set_pair_fresh(pairs.drop_first(), key, value);
    }
}

/// Writes one pair into `pairs` as `set_pair_spec` describes: last write wins
/// on an existing key, a fresh key is appended.
fn set_pair(pairs: &mut Vec<KvPair>, key: &String, value: &String)
    ensures
        pairs_view(final (pairs)@) == set_pair_spec(pairs_view(old(pairs)@), key@, value@),
{
    let entry = KvPair { key: key.clone(), value: value.clone() };
    match find_key(pairs, key) {
        Some(i) => {
            pairs[i] = entry;
            proof {
                lemma_set_pair_at(pairs_view(old(pairs)@), key@, value@, i as int);
                assert(pairs_view(final (pairs)@) =~= pairs_view(old(pairs)@).update(
                    i as int,
                    PairView { key: key@, value: value@ },
                ));
            }
        },
        None => {
            pairs.push(entry);
            proof {
                lemma_set_pair_fresh(pairs_view(old(pairs)@), key@, value@);
                assert(pairs_view(final (pairs)@) =~= pairs_view(old(pairs)@).push(
                    PairView { key: key@, value: value@ },
                ));
            }
        },
    }
}

proof fn lemma_apply_pairs_snoc(init: Seq<PairView>, upds: Seq<PairView>, last: PairView)
    ensures
        apply_pairs(init, upds.push(last)) == set_pair_spec(
            apply_pairs(init, upds),
            last.key,
            last.value,
        ),
    decreases upds.len(),
{
    let snoc = upds.push(last);
    assert(snoc.len() == upds.len() + 1);
    if upds.len() == 0 {
        assert(snoc[0] == last);
        assert(snoc.drop_first() =~= Seq::<PairView>::empty());
        let written = set_pair_spec(init, last.key, last.value);
        assert(apply_pairs(init, snoc) == apply_pairs(written, snoc.drop_first()));
        assert(apply_pairs(written, snoc.drop_first()) == written);
        assert(apply_pairs(init, upds) == init);
    } else {
        assert(snoc[0] == upds[0]);
        assert(snoc.drop_first() =~= upds.drop_first().push(last));
        let written = set_pair_spec(init, upds[0].key, upds[0].value);
        assert(apply_pairs(init, snoc) == apply_pairs(written, snoc.drop_first()));
        lemma_apply_pairs_snoc(written, upds.drop_first(), last);
        assert(apply_pairs(written, upds.drop_first().push(last)) == set_pair_spec(
            apply_pairs(written, upds.drop_first()),
            last.key,
            last.value,
        ));
        assert(apply_pairs(init, upds) == apply_pairs(written, upds.drop_first()));
    }
}

/// Builds the call descriptor of one (endpoint group, path) pair: method as
/// given, URL by literal concatenation, the marker header written first and
/// every configured header after it in order, the query pairs kept in order.
#[verifier::loop_isolation(false)]
pub fn build_descriptor(
    method: RequestType,
    domain: &str,
    path: &str,
    headers: &Vec<KvPair>,
    query: &Vec<KvPair>,
) -> (d: CallDescriptor)
    ensures
        d@ == desc_spec(method, domain@, path@, pairs_view(headers@), pairs_view(query@)),
{
    let mut url = build_domain("https://", domain);
    url.append(path);
    let mut hs: Vec<KvPair> = Vec::new();
    let marker = KvPair { key: "reqev".to_owned(), value: "true".to_owned() };
    hs.push(marker);
    proof {
        assert(pairs_view(hs@) =~= seq![marker_view()]);
        assert(pairs_view(headers@).take(0) =~= Seq::<PairView>::empty());
    }
    let n = headers.len();
    let mut i: usize = 0;
    while i < n
        invariant
            i <= n,
            pairs_view(hs@) == apply_pairs(seq![marker_view()], pairs_view(headers@).take(i as int)),
        decreases n - i,
    {
        let entry = &headers[i];
        set_pair(&mut hs, &entry.key, &entry.value);
        proof {
            lemma_apply_pairs_snoc(
                seq![marker_view()],
                pairs_view(headers@).take(i as int),
                headers@[i as int]@,
            );
            assert(pairs_view(headers@).take(i as int).push(headers@[i as int]@) =~= pairs_view(
                headers@,
            ).take(i as int + 1));
        }
        i = i + 1;
    }
    proof {
        assert(pairs_view(headers@).take(n as int) =~= pairs_view(headers@));
    }
    let m = query.len();
    let mut qs: Vec<KvPair> = Vec::new();
    let mut j: usize = 0;
    while j < m
        invariant
            j <= m,
            pairs_view(qs@) =~= pairs_view(query@).take(j as int),
        decreases m - j,
    {
        let entry = &query[j];
        qs.push(KvPair { key: entry.key.clone(), value: entry.value.clone() });
        proof {
            assert(pairs_view(qs@) =~= pairs_view(query@).take(j as int + 1));
        }
        j = j + 1;
    }
    proof {
        assert(pairs_view(query@).take(m as int) =~= pairs_view(query@));
    }
    let d = CallDescriptor { method, url, headers: hs, query: qs };
    proof {
        assert(d@ =~= desc_spec(method, domain@, path@, pairs_view(headers@), pairs_view(query@)));
    }
    d
}

impl CallDescriptor {
    /// The value of the first header holding `key`, if any.
    #[verifier::loop_isolation(false)]
    pub fn header_value<'a>(&'a self, key: &str) -> (r: Option<&'a String>)
        ensures
            match lookup_pair(self@.headers, key@) {
                Some(v) => r matches Some(s) && s@ == v,
                None => r is None,
            },
    {
        let wanted = key.to_owned();
        let n = self.headers.len();
        let mut i: usize = 0;
        assert(pairs_view(self.headers@).skip(0) =~= pairs_view(self.headers@));
        while i < n
            invariant
                i <= n,
                lookup_pair(pairs_view(self.headers@).skip(i as int), key@) == lookup_pair(
                    pairs_view(self.headers@),
                    key@,
                ),
            decreases n - i,
        {
            assert(pairs_view(self.headers@).skip(i as int)[0] == self.headers@[i as int]@);
            if self.headers[i].key == wanted {
                return Some(&self.headers[i].value);
            }
            assert(pairs_view(self.headers@).skip(i as int).drop_first() =~= pairs_view(
                self.headers@,
            ).skip(i as int + 1));
            i = i + 1;
        }
        assert(pairs_view(self.headers@).skip(n as int) =~= Seq::<PairView>::empty());
        None
    }
}

proof fn lemma_lookup_set(pairs: Seq<PairView>, key: Seq<char>, value: Seq<char>, probe: Seq<char>)
    ensures
        lookup_pair(set_pair_spec(pairs, key, value), probe) == if probe == key {
            Some(value)
        } else {
            lookup_pair(pairs, probe)
        },
    decreases pairs.len(),
{
    let written = set_pair_spec(pairs, key, value);
    if pairs.len() == 0 {
        assert(written == seq![PairView { key, value }]);
        assert(written.len() == 1);
        assert(written[0] == (PairView { key, value }));
        assert(written.drop_first() =~= Seq::<PairView>::empty());
        assert(lookup_pair(written.drop_first(), probe) is None);
        assert(lookup_pair(pairs, probe) is None);
    } else if pairs[0].key == key {
        assert(written == seq![PairView { key, value }] + pairs.drop_first());
        assert(written[0] == (PairView { key, value }));
        assert(written.drop_first() =~= pairs.drop_first());
    } else {
        let rest = set_pair_spec(pairs.drop_first(), key, value);
        assert(written == seq![pairs[0]] + rest);
        assert(written[0] == pairs[0]);
        assert(written.len() == rest.len() + 1);
        assert(written.drop_first() =~= rest);
        lemma_lookup_set(pairs.drop_first(), key, value, probe);
        assert(lookup_pair(rest, probe) == if probe == key {
            Some(value)
        } else {
            lookup_pair(pairs.drop_first(), probe)
        });
    }
}

proof fn lemma_last_none(pairs: Seq<PairView>, key: Seq<char>)
    requires
        forall|i: int| 0 <= i < pairs.len() ==> pairs[i].key != key,
    ensures
        last_with_key(pairs, key) is None,
    decreases pairs.len(),
{
    if pairs.len() > 0 {
        lemma_last_none(pairs.drop_first(), key);
    }
}

/// Header and query application is order-preserving and last-write-wins:
/// after writing `upds` in order on top of `init`, a key resolves to the last
/// value `upds` gives it, and to its value in `init` only when `upds` never
/// writes it.
pub proof fn lemma_last_write_wins(init: Seq<PairView>, upds: Seq<PairView>, key: Seq<char>)
    ensures
        lookup_pair(apply_pairs(init, upds), key) == match last_with_key(upds, key) {
            Some(v) => Some(v),
            None => lookup_pair(init, key),
        },
    decreases upds.len(),
{
    if upds.len() > 0 {
        let written = set_pair_spec(init, upds[0].key, upds[0].value);
        lemma_last_write_wins(written, upds.drop_first(), key);
        lemma_lookup_set(init, upds[0].key, upds[0].value, key);
    }
}

/// The fixed marker header `reqev: true` is present on every built call
/// descriptor whose configured headers do not themselves write the marker
/// key.
pub proof fn lemma_marker_header(headers: Seq<PairView>)
    requires
        forall|i: int| 0 <= i < headers.len() ==> headers[i].key != "reqev"@,
    ensures
        lookup_pair(apply_pairs(seq![marker_view()], headers), "reqev"@) == Some("true"@),
{
    lemma_last_none(headers, "reqev"@);
    lemma_last_write_wins(seq![marker_view()], headers, "reqev"@);
}

/// Descriptor building is deterministic: two descriptors built from the same
/// method, domain, path, header and query inputs have the same image.
pub proof fn lemma_build_deterministic(
    d1: DescView,
    d2: DescView,
    method: RequestType,
    domain: Seq<char>,
    path: Seq<char>,
    headers: Seq<PairView>,
    query: Seq<PairView>,
)
    requires
        d1 == desc_spec(method, domain, path, headers, query),
        d2 == desc_spec(method, domain, path, headers, query),
    ensures
        d1 == d2,
{
}

} // verus!
