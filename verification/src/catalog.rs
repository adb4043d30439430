//! The server catalog of a host: resolving each registered OPC DA class to a ProgID,
//! and the catalog's order (by ProgID, each ProgID once).

use vstd::prelude::*;
use crate::error::{E_FAIL, OpcErrorOf, OpcErrorView, OpcResult};
use crate::text::{chars_of, spec_trim, str_eq, str_trim};
use crate::types::{OpcServerInfo, catalog_host, duplicate_opt_string, opt_view, spec_catalog_host};

verus! {

/// Length of the longest common prefix of two character sequences.
pub open spec fn common_prefix_len(a: Seq<char>, b: Seq<char>) -> nat
    decreases a.len(),
{
    if a.len() == 0 || b.len() == 0 || a[0] != b[0] {
        0
    } else {
        1 + common_prefix_len(a.drop_first(), b.drop_first())
    }
}

/// String order (`Ord` for `str`): the first differing character decides, by code
/// point, and a proper prefix comes first.
pub open spec fn str_lt(a: Seq<char>, b: Seq<char>) -> bool {
    let k = common_prefix_len(a, b);
    ||| (k == a.len() && k < b.len())
    ||| (k < a.len() && k < b.len() && (a[k as int] as u32) < (b[k as int] as u32))
}

/// The common prefix is shared, and ends where the sequences differ or one ends.
pub proof fn lemma_common_prefix(a: Seq<char>, b: Seq<char>)
    ensures
        common_prefix_len(a, b) <= a.len(),
        common_prefix_len(a, b) <= b.len(),
        forall|i: int| 0 <= i < common_prefix_len(a, b) ==> a[i] == b[i],
        common_prefix_len(a, b) < a.len() && common_prefix_len(a, b) < b.len() ==> a[common_prefix_len(a, b) as int]
            != b[common_prefix_len(a, b) as int],
        common_prefix_len(a, b) == common_prefix_len(b, a),
    decreases a.len(),
{
    if a.len() == 0 || b.len() == 0 || a[0] != b[0] {
    } else {
        lemma_common_prefix(a.drop_first(), b.drop_first());
        let k = common_prefix_len(a, b);
        assert forall|i: int| 0 <= i < k implies a[i] == b[i] by {
            if i > 0 {
                assert(a.drop_first()[i - 1] == b.drop_first()[i - 1]);
            }
        }
    }
}

/// A prefix shared up to `k`, ending where the sequences differ or one ends, is the
/// longest common prefix.
pub proof fn lemma_common_prefix_is(a: Seq<char>, b: Seq<char>, k: nat)
    requires
        k <= a.len(),
        k <= b.len(),
        forall|i: int| 0 <= i < k ==> a[i] == b[i],
        k < a.len() && k < b.len() ==> a[k as int] != b[k as int],
    ensures
        common_prefix_len(a, b) == k,
    decreases a.len(),
{
    if a.len() == 0 || b.len() == 0 || a[0] != b[0] {
        if k > 0 {
            assert(a[0] == b[0]);
        }
    } else {
        assert(k > 0) by {
            if k == 0 {
                assert(a[0] != b[0]);
            }
        }
        assert forall|i: int| 0 <= i < k - 1 implies a.drop_first()[i] == b.drop_first()[i] by {
            assert(a[i + 1] == b[i + 1]);
        }
        lemma_common_prefix_is(a.drop_first(), b.drop_first(), (k - 1) as nat);
    }
}

/// The order is irreflexive, asymmetric and total on distinct sequences.
pub proof fn lemma_str_lt_strict_total(a: Seq<char>, b: Seq<char>)
    ensures
        !str_lt(a, a),
        str_lt(a, b) ==> !str_lt(b, a),
        a != b ==> str_lt(a, b) || str_lt(b, a),
{
    lemma_common_prefix(a, b);
    lemma_common_prefix(a, a);
    lemma_common_prefix_is(a, a, a.len());
    let k = common_prefix_len(a, b);
    if a != b {
        if k == a.len() && k == b.len() {
            assert(a =~= b);
        } else if k < a.len() && k < b.len() {
            let x = a[k as int];
            let y = b[k as int];
            assert(x != y);
            vstd::utf8::char_u32_cast(x, x as u32);
            vstd::utf8::char_u32_cast(y, y as u32);
            assert((x as u32) != (y as u32));
        }
    }
}

/// The order is transitive.
pub proof fn lemma_str_lt_transitive(a: Seq<char>, b: Seq<char>, c: Seq<char>)
    requires
        str_lt(a, b),
        str_lt(b, c),
    ensures
        str_lt(a, c),
{
    lemma_common_prefix(a, b);
    lemma_common_prefix(b, c);
    lemma_common_prefix(a, c);
    let k1 = common_prefix_len(a, b);
    let k2 = common_prefix_len(b, c);
    let m = if k1 < k2 { k1 } else { k2 };
    assert forall|i: int| 0 <= i < m implies a[i] == c[i] by {
        assert(a[i] == b[i]);
        assert(b[i] == c[i]);
    }
    if k1 < k2 {
        if k1 == a.len() {
            lemma_common_prefix_is(a, c, k1);
        } else {
            assert(c[k1 as int] == b[k1 as int]);
            lemma_common_prefix_is(a, c, k1);
        }
    } else if k2 < k1 {
        assert(a[k2 as int] == b[k2 as int]);
        lemma_common_prefix_is(a, c, k2);
    } else {
        lemma_common_prefix_is(a, c, k1);
    }
}

/// Whether `a` comes before `b` in string order.
pub fn str_less(a: &str, b: &str) -> (r: bool)
    ensures
        r == str_lt(a@, b@),
{
    let x = chars_of(a);
    let y = chars_of(b);
    let n = if x.len() < y.len() { x.len() } else { y.len() };
    let mut i: usize = 0;
    while i < n && x[i] == y[i]
        invariant
            n <= x@.len(),
            n <= y@.len(),
            n == x@.len() || n == y@.len(),
            i <= n,
            forall|j: int| 0 <= j < i ==> x@[j] == y@[j],
        decreases n - i,
    {
        i = i + 1;
    }
    proof {
        lemma_common_prefix_is(x@, y@, i as nat);
    }
    if i == x.len() {
        i < y.len()
    } else if i == y.len() {
        false
    } else {
        (x[i] as u32) < (y[i] as u32)
    }
}

/// No element comes before an earlier one, and none occurs twice.
pub open spec fn strictly_sorted(s: Seq<Seq<char>>) -> bool {
    forall|i: int, j: int| 0 <= i < j < s.len() ==> str_lt(#[trigger] s[i], #[trigger] s[j])
}

/// The ProgIDs of catalog entries, in order.
pub open spec fn info_keys(s: Seq<OpcServerInfo>) -> Seq<Seq<char>> {
    s.map_values(|x: OpcServerInfo| x.prog_id@)
}

/// The characters of each string.
pub open spec fn name_views(s: Seq<String>) -> Seq<Seq<char>> {
    s.map_values(|x: String| x@)
}

/// Position `j` of `s` holds the first entry with its ProgID.
pub open spec fn first_of_key(s: Seq<OpcServerInfo>, j: int) -> bool {
    &&& 0 <= j < s.len()
    &&& forall|k: int| 0 <= k < j ==> (#[trigger] s[k]).prog_id@ != s[j].prog_id@
}

/// The characters of each borrowed string.
pub open spec fn str_views(s: Seq<&str>) -> Seq<Seq<char>> {
    s.map_values(|x: &str| x@)
}

/// `x` is the first entry of `s` with its ProgID.
pub open spec fn is_first_entry(s: Seq<OpcServerInfo>, x: OpcServerInfo) -> bool {
    exists|j: int| first_of_key(s, j) && s[j] == x
}

/// Where `key` goes among sorted `keys`: after every key before it.  Returns the
/// position and whether the key found there equals `key`.
fn sorted_position(keys: &Vec<&str>, key: &str) -> (r: (usize, bool))
    requires
        strictly_sorted(str_views(keys@)),
    ensures
        r.0 <= keys@.len(),
        forall|q: int| 0 <= q < r.0 ==> str_lt(#[trigger] keys@[q]@, key@),
        r.1 <==> (r.0 < keys@.len() && keys@[r.0 as int]@ == key@),
        r.0 < keys@.len() && !r.1 ==> str_lt(key@, keys@[r.0 as int]@),
        r.1 <==> exists|q: int| 0 <= q < keys@.len() && #[trigger] keys@[q]@ == key@,
{
    let ghost ks = str_views(keys@);
    let mut p: usize = 0;
    while p < keys.len() && str_less(keys[p], key)
        invariant
            ks == str_views(keys@),
            strictly_sorted(ks),
            p <= keys@.len(),
            forall|q: int| 0 <= q < p ==> str_lt(#[trigger] keys@[q]@, key@),
        decreases keys@.len() - p,
    {
        assert(ks[p as int] == keys@[p as int]@);
        p = p + 1;
    }
    let found = p < keys.len() && str_eq(keys[p], key);
    proof {
        if p < keys@.len() && !found {
            lemma_str_lt_strict_total(keys@[p as int]@, key@);
        }
        if found {
            assert(keys@[p as int]@ == key@);
        } else {
            assert forall|q: int| 0 <= q < keys@.len() implies #[trigger] keys@[q]@ != key@ by {
                if q < p {
                    lemma_str_lt_strict_total(keys@[q]@, key@);
                } else {
                    assert(str_lt(key@, keys@[p as int]@));
                    if q > p {
                        assert(ks[p as int] == keys@[p as int]@);
                        assert(ks[q] == keys@[q]@);
                        assert(str_lt(ks[p as int], ks[q]));
                        lemma_str_lt_transitive(key@, keys@[p as int]@, keys@[q]@);
                    }
                    lemma_str_lt_strict_total(key@, keys@[q]@);
                }
            }
        }
    }
    (p, found)
}

/// The ProgIDs of `entries`, borrowed.
fn entry_keys(entries: &Vec<OpcServerInfo>) -> (r: Vec<&str>)
    ensures
        str_views(r@) == info_keys(entries@),
{
    let mut r: Vec<&str> = Vec::new();
    let mut i: usize = 0;
    while i < entries.len()
        invariant
            i <= entries@.len(),
            r@.len() == i,
            str_views(r@) == info_keys(entries@).subrange(0, i as int),
        decreases entries@.len() - i,
    {
        let ghost before = r@;
        r.push(entries[i].prog_id.as_str());
        assert(str_views(r@) =~= info_keys(entries@).subrange(0, i + 1)) by {
            assert(str_views(r@)[i as int] == entries@[i as int].prog_id@);
            assert forall|q: int| 0 <= q < i implies str_views(r@)[q] == str_views(before)[q] by {}
        }
        i = i + 1;
    }
    assert(info_keys(entries@).subrange(0, i as int) =~= info_keys(entries@));
    r
}

/// Inserting `k` at position `p` of strictly sorted `s`, after every smaller key and
/// before a greater one, keeps it strictly sorted.
proof fn lemma_insert_sorted(s: Seq<Seq<char>>, p: int, k: Seq<char>)
    requires
        strictly_sorted(s),
        0 <= p <= s.len(),
        forall|q: int| 0 <= q < p ==> str_lt(#[trigger] s[q], k),
        p < s.len() ==> str_lt(k, s[p]),
    ensures
        strictly_sorted(s.insert(p, k)),
{
    let t = s.insert(p, k);
    assert forall|i: int, j: int| 0 <= i < j < t.len() implies str_lt(#[trigger] t[i], #[trigger] t[j]) by {
        if j < p {
            assert(t[i] == s[i] && t[j] == s[j]);
        } else if j == p {
            assert(t[i] == s[i]);
        } else if i == p {
            assert(t[j] == s[j - 1]);
            if j - 1 > p {
                assert(str_lt(s[p], s[j - 1]));
                lemma_str_lt_transitive(k, s[p], s[j - 1]);
            }
        } else if i < p {
            assert(t[i] == s[i] && t[j] == s[j - 1]);
        } else {
            assert(t[i] == s[i - 1] && t[j] == s[j - 1]);
        }
    }
}

/// The catalog in ProgID order with each ProgID once: of the entries sharing a ProgID,
/// the first one is kept (a stable sort by ProgID followed by removing adjacent
/// duplicates).
pub fn catalog_order(entries: Vec<OpcServerInfo>) -> (r: Vec<OpcServerInfo>)
    ensures
        strictly_sorted(info_keys(r@)),
        forall|i: int| 0 <= i < entries@.len() ==> info_keys(r@).contains(#[trigger] entries@[i].prog_id@),
        forall|k: int| 0 <= k < r@.len() ==> is_first_entry(entries@, #[trigger] r@[k]),
{
    let ghost orig = entries@;
    let total = entries.len();
    let mut rest = entries;
    let mut out: Vec<OpcServerInfo> = Vec::new();
    let mut i: usize = 0;
    while rest.len() > 0
        invariant
            i <= orig.len(),
            total == orig.len(),
            rest@ == orig.subrange(i as int, orig.len() as int),
            strictly_sorted(info_keys(out@)),
            forall|m: int| 0 <= m < i ==> info_keys(out@).contains(#[trigger] orig[m].prog_id@),
            forall|k: int| 0 <= k < out@.len() ==> exists|j: int| 0 <= j < i && first_of_key(orig, j) && #[trigger] out@[k] == orig[j],
        decreases rest@.len(),
    {
        assert(i < orig.len());
        let item = rest.remove(0);
        assert(item == orig[i as int]);
        let keys = entry_keys(&out);
        let (p, found) = sorted_position(&keys, item.prog_id.as_str());
        proof {
            assert(str_views(keys@) == info_keys(out@));
            assert forall|q: int| 0 <= q < keys@.len() implies #[trigger] keys@[q]@ == info_keys(out@)[q] by {
                assert(str_views(keys@)[q] == keys@[q]@);
            }
        }
        if found {
            proof {
                assert(info_keys(out@)[p as int] == orig[i as int].prog_id@);
                assert forall|m: int| 0 <= m < i + 1 implies info_keys(out@).contains(#[trigger] orig[m].prog_id@) by {
                    if m == i {
                        assert(info_keys(out@)[p as int] == orig[m].prog_id@);
                    }
                }
                assert forall|k: int| 0 <= k < out@.len() implies exists|j: int|
                    0 <= j < i + 1 && first_of_key(orig, j) && #[trigger] out@[k] == orig[j] by {
                    let j = choose|j: int| 0 <= j < i && first_of_key(orig, j) && out@[k] == orig[j];
                    assert(0 <= j < i + 1 && first_of_key(orig, j) && out@[k] == orig[j]);
                }
            }
        } else {
            let ghost before = out@;
            proof {
                assert forall|m: int| 0 <= m < i implies orig[m].prog_id@ != orig[i as int].prog_id@ by {
                    assert(info_keys(before).contains(orig[m].prog_id@));
                    let q = choose|q: int| 0 <= q < info_keys(before).len() && info_keys(before)[q] == orig[m].prog_id@;
                    assert(keys@[q]@ == info_keys(before)[q]);
                }
                assert(first_of_key(orig, i as int));
                assert forall|q: int| 0 <= q < p implies str_lt(#[trigger] info_keys(before)[q], item.prog_id@) by {
                    assert(keys@[q]@ == info_keys(before)[q]);
                }
                if p < before.len() {
                    assert(keys@[p as int]@ == info_keys(before)[p as int]);
                }
                lemma_insert_sorted(info_keys(before), p as int, item.prog_id@);
            }
            out.insert(p, item);
            proof {
                assert(info_keys(out@) =~= info_keys(before).insert(p as int, orig[i as int].prog_id@));
                assert forall|m: int| 0 <= m < i + 1 implies info_keys(out@).contains(#[trigger] orig[m].prog_id@) by {
                    if m == i {
                        assert(info_keys(out@)[p as int] == orig[m].prog_id@);
                    } else {
                        let q = choose|q: int| 0 <= q < info_keys(before).len() && info_keys(before)[q] == orig[m].prog_id@;
                        if q < p {
                            assert(info_keys(out@)[q] == orig[m].prog_id@);
                        } else {
                            assert(info_keys(out@)[q + 1] == orig[m].prog_id@);
                        }
                    }
                }
                assert forall|k: int| 0 <= k < out@.len() implies exists|j: int|
                    0 <= j < i + 1 && first_of_key(orig, j) && #[trigger] out@[k] == orig[j] by {
                    if k == p {
                        assert(0 <= i < i + 1 && first_of_key(orig, i as int) && out@[k] == orig[i as int]);
                    } else {
                        let k0 = if k < p { k } else { k - 1 };
                        assert(out@[k] == before[k0]);
                        let j = choose|j: int| 0 <= j < i && first_of_key(orig, j) && before[k0] == orig[j];
                        assert(0 <= j < i + 1 && first_of_key(orig, j) && out@[k] == orig[j]);
                    }
                }
            }
        }
        i = i + 1;
    }
    proof {
        assert forall|k: int| 0 <= k < out@.len() implies is_first_entry(orig, #[trigger] out@[k]) by {
            let j = choose|j: int| 0 <= j < i && first_of_key(orig, j) && out@[k] == orig[j];
            assert(first_of_key(orig, j) && out@[k] == orig[j]);
        }
    }
    out
}

/// The ProgIDs of a host's catalog in order, each once.
pub fn catalog_prog_ids(details: Vec<OpcServerInfo>) -> (r: Vec<String>)
    ensures
        strictly_sorted(name_views(r@)),
        forall|i: int| 0 <= i < details@.len() ==> name_views(r@).contains(#[trigger] details@[i].prog_id@),
        forall|k: int| 0 <= k < r@.len() ==> info_keys(details@).contains(#[trigger] r@[k]@),
{
    let ordered = catalog_order(details);
    let mut r: Vec<String> = Vec::new();
    let mut i: usize = 0;
    while i < ordered.len()
        invariant
            i <= ordered@.len(),
            r@.len() == i,
            forall|k: int| 0 <= k < i ==> (#[trigger] r@[k])@ == ordered@[k].prog_id@,
        decreases ordered@.len() - i,
    {
        r.push(ordered[i].prog_id.clone());
        i = i + 1;
    }
    proof {
        assert(name_views(r@) =~= info_keys(ordered@));
        assert forall|k: int| 0 <= k < r@.len() implies info_keys(details@).contains(#[trigger] r@[k]@) by {
            assert(is_first_entry(details@, ordered@[k]));
            let j = choose|j: int| first_of_key(details@, j) && details@[j] == ordered@[k];
            assert(info_keys(details@)[j] == r@[k]@);
        }
    }
    r
}

/// A name that is empty or white space only.
pub open spec fn is_blank(s: Seq<char>) -> bool {
    spec_trim(s).len() == 0
}

/// Whether a name is empty or white space only.
pub fn blank(s: &str) -> (r: bool)
    ensures
        r == is_blank(s@),
{
    let t = str_trim(s);
    t.unicode_len() == 0
}

/// What a class lookup that answered `details` contributes: the ProgID, when it is not
/// blank, with the user type, when that is not blank either.
pub open spec fn spec_accept_details(details: OpcResult<(String, Option<String>)>) -> Option<(Seq<char>, Option<Seq<char>>)> {
    accept_view(details_view(details))
}

/// The view of an accepted lookup.
pub open spec fn accepted_view(r: Option<(String, Option<String>)>) -> Option<(Seq<char>, Option<Seq<char>>)> {
    match r {
        Some((p, u)) => Some((p@, opt_view(u))),
        None => None,
    }
}

/// Keeps a class lookup's answer when it names a ProgID.
pub fn accept_details(details: OpcResult<(String, Option<String>)>) -> (r: Option<(String, Option<String>)>)
    ensures
        accepted_view(r) == spec_accept_details(details),
{
    match details {
        Ok((p, u)) => {
            if blank(p.as_str()) {
                None
            } else {
                let user = match u {
                    Some(t) => if blank(t.as_str()) { None } else { Some(t) },
                    None => None,
                };
                Some((p, user))
            }
        },
        Err(_) => None,
    }
}

/// A class lookup's answer as plain values: ProgID and user type, or the error.
pub type DetailsView = Result<(Seq<char>, Option<Seq<char>>), OpcErrorView>;

/// The plain values of a class lookup's answer.
pub open spec fn details_view(d: OpcResult<(String, Option<String>)>) -> DetailsView {
    match d {
        Ok((p, u)) => Ok((p@, opt_view(u))),
        Err(e) => Err(e@),
    }
}

/// A lookup's answer is taken when it names a ProgID (not blank); a blank user type is
/// dropped.
pub open spec fn accept_view(d: DetailsView) -> Option<(Seq<char>, Option<Seq<char>>)> {
    match d {
        Ok((p, u)) => if is_blank(p) {
            None
        } else {
            Some((p, match u { Some(t) => if is_blank(t) { None } else { Some(t) }, None => None }))
        },
        Err(_) => None,
    }
}

/// What a registered ProgID lookup is taken as, over plain values.
pub open spec fn accept_registered_view(r: Result<Seq<char>, OpcErrorView>) -> Option<(Seq<char>, Option<Seq<char>>)> {
    match r {
        Ok(p) => if is_blank(p) { None } else { Some((p, None)) },
        Err(_) => None,
    }
}

/// How a class resolves in `lookup`: the extended catalog details when offered and
/// naming a ProgID, else the basic details when naming one, else the registered ProgID
/// when not blank (without a user type); `None` when none names one.
pub open spec fn spec_resolve<L: ClassLookup>(lookup: L, clsid: u128) -> Option<(Seq<char>, Option<Seq<char>>)> {
    let ext = match lookup.extended(clsid) {
        Some(d) => accept_view(d),
        None => None,
    };
    if ext is Some {
        ext
    } else if accept_view(lookup.basic(clsid)) is Some {
        accept_view(lookup.basic(clsid))
    } else {
        accept_registered_view(lookup.registered(clsid))
    }
}

/// Two states of a catalog give the same answers.
pub open spec fn same_answers<L: ClassLookup>(a: L, b: L) -> bool {
    &&& a.listed() == b.listed()
    &&& forall|c: u128| #[trigger] a.extended(c) == b.extended(c)
    &&& forall|c: u128| #[trigger] a.basic(c) == b.basic(c)
    &&& forall|c: u128| #[trigger] a.registered(c) == b.registered(c)
}

/// The lookups a host's server catalog answers for the classes of OPC DA servers.  The
/// catalog is modelled by its answers, which its lookups do not change.
pub trait ClassLookup: Sized {
    /// The class IDs listed, or why they cannot be.
    spec fn listed(&self) -> Result<Seq<u128>, OpcErrorView>;

    /// The extended catalog's answer for a class, or `None` when it is not offered.
    spec fn extended(&self, clsid: u128) -> Option<DetailsView>;

    /// The basic catalog's answer for a class.
    spec fn basic(&self, clsid: u128) -> DetailsView;

    /// The registered ProgID of a class.
    spec fn registered(&self, clsid: u128) -> Result<Seq<char>, OpcErrorView>;

    /// Class IDs of the registered OPC DA 2.0 servers (entries that cannot be read are
    /// left out).
    fn class_ids(&mut self) -> (r: OpcResult<Vec<u128>>)
        ensures
            final(self).listed() == old(self).listed(),
            forall|c: u128| #[trigger] final(self).extended(c) == old(self).extended(c),
            forall|c: u128| #[trigger] final(self).basic(c) == old(self).basic(c),
            forall|c: u128| #[trigger] final(self).registered(c) == old(self).registered(c),
            match r {
                Ok(v) => old(self).listed() == Ok::<Seq<u128>, OpcErrorView>(v@),
                Err(e) => old(self).listed() == Err::<Seq<u128>, OpcErrorView>(e@),
            },
    ;

    /// ProgID and user type from the extended catalog interface, or `None` when the
    /// catalog does not offer that interface.
    fn extended_details(&mut self, clsid: u128) -> (r: Option<OpcResult<(String, Option<String>)>>)
        ensures
            final(self).listed() == old(self).listed(),
            forall|c: u128| #[trigger] final(self).extended(c) == old(self).extended(c),
            forall|c: u128| #[trigger] final(self).basic(c) == old(self).basic(c),
            forall|c: u128| #[trigger] final(self).registered(c) == old(self).registered(c),
            match r {
                Some(d) => old(self).extended(clsid) == Some(details_view(d)),
                None => old(self).extended(clsid) is None,
            },
    ;

    /// ProgID and user type from the basic catalog interface.
    fn basic_details(&mut self, clsid: u128) -> (r: OpcResult<(String, Option<String>)>)
        ensures
            final(self).listed() == old(self).listed(),
            forall|c: u128| #[trigger] final(self).extended(c) == old(self).extended(c),
            forall|c: u128| #[trigger] final(self).basic(c) == old(self).basic(c),
            forall|c: u128| #[trigger] final(self).registered(c) == old(self).registered(c),
            details_view(r) == old(self).basic(clsid),
    ;

    /// ProgID registered for a class.
    fn registered_prog_id(&mut self, clsid: u128) -> (r: OpcResult<String>)
        ensures
            final(self).listed() == old(self).listed(),
            forall|c: u128| #[trigger] final(self).extended(c) == old(self).extended(c),
            forall|c: u128| #[trigger] final(self).basic(c) == old(self).basic(c),
            forall|c: u128| #[trigger] final(self).registered(c) == old(self).registered(c),
            match r {
                Ok(p) => old(self).registered(clsid) == Ok::<Seq<char>, OpcErrorView>(p@),
                Err(e) => old(self).registered(clsid) == Err::<Seq<char>, OpcErrorView>(e@),
            },
    ;
}

/// Resolves one class: the extended catalog details when offered and naming a ProgID,
/// else the basic details when naming one, else the registered ProgID when not blank
/// (without a user type); `None` when none names one.
pub fn resolve_class<L: ClassLookup>(lookup: &mut L, clsid: u128) -> (r: Option<(String, Option<String>)>)
    ensures
        same_answers(*old(lookup), *final(lookup)),
        accepted_view(r) == spec_resolve(*old(lookup), clsid),
        r matches Some((p, u)) ==> !is_blank(p@) && (u matches Some(t) ==> !is_blank(t@)),
{
    let mut found: Option<(String, Option<String>)> = None;
    match lookup.extended_details(clsid) {
        Some(d) => {
            found = accept_details(d);
        },
        None => {},
    }
    if found.is_none() {
        found = accept_details(lookup.basic_details(clsid));
    }
    if found.is_none() {
        found = accept_prog_id(lookup.registered_prog_id(clsid));
    }
    found
}

/// What a registered ProgID lookup is taken as: the ProgID, without a user type, when it
/// was found and is not blank.
pub open spec fn spec_accept_prog_id(found: OpcResult<String>) -> Option<(Seq<char>, Option<Seq<char>>)> {
    accept_registered_view(match found {
        Ok(p) => Ok(p@),
        Err(e) => Err(e@),
    })
}

/// Keeps a registered ProgID when it was found and is not blank.
pub fn accept_prog_id(found: OpcResult<String>) -> (r: Option<(String, Option<String>)>)
    ensures
        accepted_view(r) == spec_accept_prog_id(found),
{
    match found {
        Ok(p) => if blank(p.as_str()) { None } else { Some((p, None)) },
        Err(_) => None,
    }
}

/// The plain values of class resolutions.
pub open spec fn resolutions_view(s: Seq<Option<(String, Option<String>)>>) -> Seq<Option<(Seq<char>, Option<Seq<char>>)>> {
    s.map_values(|x: Option<(String, Option<String>)>| accepted_view(x))
}

/// How the classes `ids` resolve in `lookup` (zero class IDs are not looked up).
pub open spec fn model_resolutions<L: ClassLookup>(lookup: L, ids: Seq<u128>) -> Seq<Option<(Seq<char>, Option<Seq<char>>)>> {
    Seq::new(ids.len(), |i: int| if ids[i] != 0 { spec_resolve(lookup, ids[i]) } else { None })
}

/// A catalog entry as plain values: ProgID, class ID, user type.
pub type EntryView = (Seq<char>, u128, Option<Seq<char>>);

/// The entries found for the classes `ids` given what each class resolved to: in class
/// order, every non-zero class ID that resolved to a ProgID.
pub open spec fn catalog_candidates(ids: Seq<u128>, resolved: Seq<Option<(Seq<char>, Option<Seq<char>>)>>, n: int) -> Seq<EntryView>
    decreases n,
{
    if n <= 0 {
        Seq::empty()
    } else {
        let before = catalog_candidates(ids, resolved, n - 1);
        match resolved[n - 1] {
            Some((p, u)) => if ids[n - 1] != 0 {
                before.push((p, ids[n - 1], u))
            } else {
                before
            },
            None => before,
        }
    }
}

/// The view of a catalog entry.
pub open spec fn entry_view(x: OpcServerInfo) -> EntryView {
    (x.prog_id@, x.clsid, opt_view(x.user_type))
}

/// Position `j` of `c` holds the first entry with its ProgID.
pub open spec fn first_candidate(c: Seq<EntryView>, j: int) -> bool {
    &&& 0 <= j < c.len()
    &&& forall|k: int| 0 <= k < j ==> (#[trigger] c[k]).0 != c[j].0
}

/// `x` is the first candidate with its ProgID.
pub open spec fn first_with_key(c: Seq<EntryView>, x: OpcServerInfo) -> bool {
    exists|j: int| first_candidate(c, j) && c[j] == entry_view(x)
}

/// The catalog made of the candidate entries `c` for `host`: in strict ProgID order,
/// holding every candidate ProgID, each entry being the first candidate with its
/// ProgID, recorded with the host (none for the local machine).
pub open spec fn catalog_of(r: Seq<OpcServerInfo>, c: Seq<EntryView>, host: Seq<char>) -> bool {
    &&& strictly_sorted(info_keys(r))
    &&& forall|i: int| 0 <= i < c.len() ==> info_keys(r).contains(#[trigger] c[i].0)
    &&& forall|k: int| 0 <= k < r.len() ==> first_with_key(c, #[trigger] r[k])
    &&& forall|k: int| 0 <= k < r.len() ==> opt_view((#[trigger] r[k]).host) == spec_catalog_host(host)
}

/// The catalog of `host` from the class IDs listed and what each class resolved to
/// (`resolved[i]` for `ids[i]`; ignored for a zero class ID).
pub fn catalog_from_resolutions(ids: &Vec<u128>, resolved: Vec<Option<(String, Option<String>)>>, host: &str) -> (r: Vec<
    OpcServerInfo,
>)
    requires
        resolved@.len() == ids@.len(),
    ensures
        catalog_of(r@, catalog_candidates(ids@, resolutions_view(resolved@), ids@.len() as int), host@),
{
    let ghost res0 = resolved@;
    let mut rest = resolved;
    let mut servers: Vec<OpcServerInfo> = Vec::new();
    let mut i: usize = 0;
    while i < ids.len()
        invariant
            i <= ids@.len(),
            res0.len() == ids@.len(),
            rest@ == res0.subrange(i as int, res0.len() as int),
            servers@.map_values(|x: OpcServerInfo| entry_view(x)) == catalog_candidates(ids@, resolutions_view(res0), i as int),
            forall|k: int| 0 <= k < servers@.len() ==> opt_view((#[trigger] servers@[k]).host) == spec_catalog_host(host@),
        decreases ids@.len() - i,
    {
        let ghost before = servers@;
        let entry = rest.remove(0);
        assert(entry == res0[i as int]);
        assert(rest@ =~= res0.subrange(i + 1, res0.len() as int));
        let clsid = ids[i];
        match entry {
            Some((prog_id, user_type)) => {
                if clsid != 0 {
                    servers.push(OpcServerInfo { prog_id, clsid, user_type, host: catalog_host(host) });
                    assert(servers@.map_values(|x: OpcServerInfo| entry_view(x)) =~= before.map_values(
                        |x: OpcServerInfo| entry_view(x),
                    ).push(entry_view(servers@[servers@.len() - 1])));
                }
            },
            None => {},
        }
        i = i + 1;
    }
    let ghost c = catalog_candidates(ids@, resolutions_view(res0), ids@.len() as int);
    let ghost sv = servers@;
    assert(sv.len() == c.len());
    let ordered = catalog_order(servers);
    proof {
        assert forall|i: int| 0 <= i < c.len() implies info_keys(ordered@).contains(#[trigger] c[i].0) by {
            assert(c[i] == entry_view(sv[i]));
            assert(info_keys(ordered@).contains(sv[i].prog_id@));
        }
        assert forall|k: int| 0 <= k < ordered@.len() implies first_with_key(c, #[trigger] ordered@[k]) by {
            assert(is_first_entry(sv, ordered@[k]));
            let j = choose|j: int| first_of_key(sv, j) && sv[j] == ordered@[k];
            assert(c[j] == entry_view(sv[j]));
            assert forall|m: int| 0 <= m < j implies (#[trigger] c[m]).0 != c[j].0 by {
                assert(c[m] == entry_view(sv[m]));
                assert(sv[m].prog_id@ != sv[j].prog_id@);
            }
            assert(first_candidate(c, j));
            assert(first_candidate(c, j) && c[j] == entry_view(ordered@[k]));
        }
        assert forall|k: int| 0 <= k < ordered@.len() implies opt_view((#[trigger] ordered@[k]).host) == spec_catalog_host(
            host@,
        ) by {
            assert(is_first_entry(sv, ordered@[k]));
            let j = choose|j: int| first_of_key(sv, j) && sv[j] == ordered@[k];
            assert(opt_view(sv[j].host) == spec_catalog_host(host@));
        }
        assert(catalog_of(ordered@, c, host@));
    }
    ordered
}

/// The catalog entries of `host`: every registered class with a non-zero class ID that
/// resolves to a ProgID, recorded with the host (none for the local machine), in ProgID
/// order and each ProgID once (the first class naming it is kept); the resolution of each
/// class goes through [`resolve_class`], and [`catalog_from_resolutions`] states the
/// result for every outcome.  Fails only when the classes cannot be listed.
pub fn enumerate_catalog<L: ClassLookup>(lookup: &mut L, host: &str) -> (r: OpcResult<Vec<OpcServerInfo>>)
    ensures
        old(lookup).listed() matches Err(e) ==> (r matches Err(x) && x@ == e),
        old(lookup).listed() matches Ok(ids) ==> (r matches Ok(v) && catalog_of(
            v@,
            catalog_candidates(ids, model_resolutions(*old(lookup), ids), ids.len() as int),
            host@,
        )),
        r matches Ok(v) ==> {
            &&& strictly_sorted(info_keys(v@))
            &&& forall|k: int|
                0 <= k < v@.len() ==> {
                    &&& (#[trigger] v@[k]).clsid != 0
                    &&& !is_blank(v@[k].prog_id@)
                    &&& (v@[k].user_type matches Some(t) ==> !is_blank(t@))
                    &&& opt_view(v@[k].host) == spec_catalog_host(host@)
                }
        },
{
    let ghost l0 = *lookup;
    let ids = match lookup.class_ids() {
        Ok(ids) => ids,
        Err(e) => return Err(e),
    };
    let mut resolved: Vec<Option<(String, Option<String>)>> = Vec::new();
    let mut i: usize = 0;
    while i < ids.len()
        invariant
            i <= ids@.len(),
            resolved@.len() == i,
            lookup.listed() == l0.listed(),
            forall|c: u128| #[trigger] lookup.extended(c) == l0.extended(c),
            forall|c: u128| #[trigger] lookup.basic(c) == l0.basic(c),
            forall|c: u128| #[trigger] lookup.registered(c) == l0.registered(c),
            forall|k: int| 0 <= k < i ==> #[trigger] accepted_view(resolved@[k]) == (if ids@[k] != 0 {
                spec_resolve(l0, ids@[k])
            } else {
                None
            }),
            forall|k: int|
                0 <= k < i ==> (#[trigger] resolved@[k] matches Some((p, u)) ==> !is_blank(p@) && (u matches Some(t)
                    ==> !is_blank(t@))),
        decreases ids@.len() - i,
    {
        if ids[i] != 0 {
            let ghost lb = *lookup;
            let res = resolve_class(lookup, ids[i]);
            proof {
                assert(spec_resolve(lb, ids@[i as int]) == spec_resolve(l0, ids@[i as int]));
                assert forall|c: u128| #[trigger] lookup.extended(c) == l0.extended(c) by {
                    assert(lb.extended(c) == lookup.extended(c));
                }
                assert forall|c: u128| #[trigger] lookup.basic(c) == l0.basic(c) by {
                    assert(lb.basic(c) == lookup.basic(c));
                }
                assert forall|c: u128| #[trigger] lookup.registered(c) == l0.registered(c) by {
                    assert(lb.registered(c) == lookup.registered(c));
                }
            }
            resolved.push(res);
        } else {
            resolved.push(None);
        }
        i = i + 1;
    }
    let ghost rv = resolved@;
    proof {
        assert(resolutions_view(rv) =~= model_resolutions(l0, ids@));
    }
    let out = catalog_from_resolutions(&ids, resolved, host);
    proof {
        let c = catalog_candidates(ids@, resolutions_view(rv), ids@.len() as int);
        lemma_candidates_valid(ids@, resolutions_view(rv), ids@.len() as int);
        assert forall|k: int| 0 <= k < out@.len() implies {
            &&& (#[trigger] out@[k]).clsid != 0
            &&& !is_blank(out@[k].prog_id@)
            &&& (out@[k].user_type matches Some(t) ==> !is_blank(t@))
        } by {
            assert(first_with_key(c, out@[k]));
            let j = choose|j: int| first_candidate(c, j) && c[j] == entry_view(out@[k]);
            match out@[k].user_type {
                Some(t) => {
                    assert(opt_view(out@[k].user_type) == Some(t@));
                },
                None => {},
            }
        }
    }
    Ok(out)
}

/// Every candidate has a non-zero class ID, a non-blank ProgID and a non-blank user
/// type when it has one, given resolutions that hold no blank name.
pub proof fn lemma_candidates_valid(ids: Seq<u128>, resolved: Seq<Option<(Seq<char>, Option<Seq<char>>)>>, n: int)
    requires
        0 <= n <= resolved.len(),
        n <= ids.len(),
        forall|k: int|
            0 <= k < resolved.len() ==> (#[trigger] resolved[k] matches Some((p, u)) ==> !is_blank(p) && (u matches Some(t)
                ==> !is_blank(t))),
    ensures
        forall|j: int|
            0 <= j < catalog_candidates(ids, resolved, n).len() ==> {
                let e = #[trigger] catalog_candidates(ids, resolved, n)[j];
                &&& e.1 != 0
                &&& !is_blank(e.0)
                &&& (e.2 matches Some(t) ==> !is_blank(t))
            },
    decreases n,
{
    if n > 0 {
        lemma_candidates_valid(ids, resolved, n - 1);
        let _ = resolved[n - 1];
    }
}

/// A strictly sorted sequence is determined by its elements: two that hold the same
/// names are equal.  So the catalog's ProgID list is the unique sorted list, without
/// repetitions, of the ProgIDs found.
pub proof fn lemma_sorted_lists_equal(a: Seq<Seq<char>>, b: Seq<Seq<char>>)
    requires
        strictly_sorted(a),
        strictly_sorted(b),
        forall|x: Seq<char>| a.contains(x) <==> b.contains(x),
    ensures
        a == b,
    decreases a.len(),
{
    if a.len() == 0 {
        if b.len() > 0 {
            assert(b.contains(b[0]));
        }
        assert(a =~= b);
    } else {
        assert(a.contains(a[0]));
        assert(b.len() > 0);
        assert(b.contains(b[0]));
        if a[0] != b[0] {
            let j = choose|j: int| 0 <= j < b.len() && b[j] == a[0];
            let i = choose|i: int| 0 <= i < a.len() && a[i] == b[0];
            assert(j > 0 && i > 0);
            assert(str_lt(b[0], b[j]));
            assert(str_lt(a[0], a[i]));
            lemma_str_lt_strict_total(a[0], b[0]);
        }
        let a1 = a.drop_first();
        let b1 = b.drop_first();
        assert forall|i: int, j: int| 0 <= i < j < a1.len() implies str_lt(#[trigger] a1[i], #[trigger] a1[j]) by {
            assert(a1[i] == a[i + 1] && a1[j] == a[j + 1]);
        }
        assert forall|i: int, j: int| 0 <= i < j < b1.len() implies str_lt(#[trigger] b1[i], #[trigger] b1[j]) by {
            assert(b1[i] == b[i + 1] && b1[j] == b[j + 1]);
        }
        assert forall|x: Seq<char>| a1.contains(x) <==> b1.contains(x) by {
            if a1.contains(x) {
                let i = choose|i: int| 0 <= i < a1.len() && a1[i] == x;
                assert(a[i + 1] == x);
                assert(str_lt(a[0], a[i + 1]));
                lemma_str_lt_strict_total(a[0], x);
                assert(b.contains(x));
                let j = choose|j: int| 0 <= j < b.len() && b[j] == x;
                assert(j != 0);
                assert(b1[j - 1] == x);
            }
            if b1.contains(x) {
                let j = choose|j: int| 0 <= j < b1.len() && b1[j] == x;
                assert(b[j + 1] == x);
                assert(str_lt(b[0], b[j + 1]));
                lemma_str_lt_strict_total(b[0], x);
                assert(a.contains(x));
                let i = choose|i: int| 0 <= i < a.len() && a[i] == x;
                assert(i != 0);
                assert(a1[i - 1] == x);
            }
        }
        lemma_sorted_lists_equal(a1, b1);
        assert(a =~= seq![a[0]] + a1);
        assert(b =~= seq![b[0]] + b1);
    }
}


/// Which lookup a catalog answered.
#[derive(Debug, Clone, Copy, PartialEq, Eq, Structural)]
pub enum CatalogLookupKind {
    /// The extended catalog interface.
    Extended,
    /// The basic catalog interface.
    Basic,
    /// The registered ProgID.
    Registry,
}

/// The value of the last entry of `s` with key `c`.
pub open spec fn last_entry<T>(s: Seq<(u128, T)>, c: u128) -> Option<T>
    decreases s.len(),
{
    if s.len() == 0 {
        None
    } else if s.last().0 == c {
        Some(s.last().1)
    } else {
        last_entry(s.drop_last(), c)
    }
}

/// Position of the last entry of `v` with key `c`.
fn find_last<T>(v: &Vec<(u128, T)>, c: u128) -> (r: Option<usize>)
    ensures
        match r {
            Some(i) => i < v@.len() && last_entry(v@, c) == Some(v@[i as int].1),
            None => last_entry(v@, c) is None,
        },
{
    let mut found: Option<usize> = None;
    let mut i: usize = 0;
    while i < v.len()
        invariant
            i <= v@.len(),
            match found {
                Some(j) => j < i && last_entry(v@.take(i as int), c) == Some(v@[j as int].1),
                None => last_entry(v@.take(i as int), c) is None,
            },
        decreases v@.len() - i,
    {
        assert(v@.take(i + 1).drop_last() =~= v@.take(i as int));
        if v[i].0 == c {
            found = Some(i);
        }
        i = i + 1;
    }
    assert(v@.take(v@.len() as int) =~= v@);
    found
}

/// The failure an in-memory catalog answers for what it does not hold.
pub open spec fn missing_view() -> OpcErrorView {
    OpcErrorOf::Com { hresult: E_FAIL }
}

/// A catalog held in memory: the class IDs listed (none when listing fails), the answers
/// of each lookup by class ID (the last entry for a class wins; a class without one is
/// answered with `E_FAIL`), and the lookups made, in order.
pub struct MemoryCatalog {
    /// Class IDs listed, or `None` when listing fails.
    pub ids: Option<Vec<u128>>,
    /// Extended catalog answers, or `None` when that interface is not offered.
    pub extended: Option<Vec<(u128, (String, Option<String>))>>,
    /// Basic catalog answers.
    pub basic: Vec<(u128, (String, Option<String>))>,
    /// Registered ProgIDs.
    pub registry: Vec<(u128, String)>,
    /// The lookups made, in order.
    pub calls: Vec<(CatalogLookupKind, u128)>,
}

impl MemoryCatalog {
    /// A catalog that lists nothing and answers nothing.
    pub fn new() -> (r: Self)
        ensures
            r.ids is None,
            r.extended is None,
            r.basic@.len() == 0,
            r.registry@.len() == 0,
            r.calls@.len() == 0,
    {
        MemoryCatalog { ids: None, extended: None, basic: Vec::new(), registry: Vec::new(), calls: Vec::new() }
    }
}

/// The plain values of a stored answer of an in-memory catalog.
pub open spec fn stored_details(e: Option<(String, Option<String>)>) -> DetailsView {
    match e {
        Some((p, u)) => Ok((p@, opt_view(u))),
        None => Err(missing_view()),
    }
}

/// A copy of a stored answer.
fn copy_details(v: &Vec<(u128, (String, Option<String>))>, c: u128) -> (r: OpcResult<(String, Option<String>)>)
    ensures
        details_view(r) == stored_details(last_entry(v@, c)),
{
    match find_last(v, c) {
        Some(i) => Ok((v[i].1.0.clone(), duplicate_opt_string(&v[i].1.1))),
        None => Err(OpcErrorOf::Com { hresult: E_FAIL }),
    }
}

impl ClassLookup for MemoryCatalog {
    open spec fn listed(&self) -> Result<Seq<u128>, OpcErrorView> {
        match self.ids {
            Some(v) => Ok(v@),
            None => Err(missing_view()),
        }
    }

    open spec fn extended(&self, clsid: u128) -> Option<DetailsView> {
        match self.extended {
            Some(v) => Some(stored_details(last_entry(v@, clsid))),
            None => None,
        }
    }

    open spec fn basic(&self, clsid: u128) -> DetailsView {
        stored_details(last_entry(self.basic@, clsid))
    }

    open spec fn registered(&self, clsid: u128) -> Result<Seq<char>, OpcErrorView> {
        match last_entry(self.registry@, clsid) {
            Some(p) => Ok(p@),
            None => Err(missing_view()),
        }
    }

    fn class_ids(&mut self) -> (r: OpcResult<Vec<u128>>) {
        match &self.ids {
            Some(v) => Ok(v.clone()),
            None => Err(OpcErrorOf::Com { hresult: E_FAIL }),
        }
    }

    fn extended_details(&mut self, clsid: u128) -> (r: Option<OpcResult<(String, Option<String>)>>) {
        self.calls.push((CatalogLookupKind::Extended, clsid));
        match &self.extended {
            Some(v) => Some(copy_details(v, clsid)),
            None => None,
        }
    }

    fn basic_details(&mut self, clsid: u128) -> (r: OpcResult<(String, Option<String>)>) {
        self.calls.push((CatalogLookupKind::Basic, clsid));
        copy_details(&self.basic, clsid)
    }

    fn registered_prog_id(&mut self, clsid: u128) -> (r: OpcResult<String>) {
        self.calls.push((CatalogLookupKind::Registry, clsid));
        match find_last(&self.registry, clsid) {
            Some(i) => Ok(self.registry[i].1.clone()),
            None => Err(OpcErrorOf::Com { hresult: E_FAIL }),
        }
    }
}

} // verus!
