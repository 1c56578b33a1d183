use vstd::prelude::*;

use crate::errors::Error;

verus! {

/// The advertised properties of a peripheral, as the discovery logic reads
/// them: at most a human-readable local name, kept as its bytes.
#[derive(Debug)]
pub struct Properties {
    pub local_name: Option<Vec<u8>>,
}

/// Mathematical model of [`Properties`].
pub struct PropertiesModel {
    pub local_name: Option<Seq<u8>>,
}

/// A discovered peripheral, as the discovery logic sees it: a caller-chosen
/// identity (typically the peripheral's position in the adapter's
/// enumeration, by which the caller maps a match back to its own handle)
/// and the advertised properties, absent when the peripheral has not yet
/// broadcast any.
#[derive(Debug)]
pub struct Peripheral {
    pub id: u64,
    pub properties: Option<Properties>,
}

/// Mathematical model of [`Peripheral`].
pub struct PeripheralModel {
    pub id: u64,
    pub properties: Option<PropertiesModel>,
}

impl View for Properties {
    type V = PropertiesModel;

    open spec fn view(&self) -> PropertiesModel {
        PropertiesModel {
            local_name: match self.local_name {
                Some(name) => Some(name@),
                None => None,
            },
        }
    }
}

impl View for Peripheral {
    type V = PeripheralModel;

    open spec fn view(&self) -> PeripheralModel {
        PeripheralModel {
            id: self.id,
            properties: match self.properties {
                Some(props) => Some(props@),
                None => None,
            },
        }
    }
}

fn clone_bytes(v: &Vec<u8>) -> (r: Vec<u8>)
    ensures
        r@ == v@,
{
    let mut r: Vec<u8> = Vec::new();
    let mut i: usize = 0;
    while i < v.len()
        invariant
            i <= v@.len(),
            r@ == v@.take(i as int),
        decreases v@.len() - i,
    {
        r.push(v[i]);
        proof {
            assert(r@ =~= v@.take(i + 1));
        }
        i = i + 1;
    }
    proof {
        assert(v@.take(v@.len() as int) =~= v@);
    }
    r
}

impl Clone for Properties {
    /// A clone observes as the same model.
    fn clone(&self) -> (r: Self)
        ensures
            r@ == self@,
    {
        Properties {
            local_name: match &self.local_name {
                Some(name) => Some(clone_bytes(name)),
                None => None,
            },
        }
    }
}

impl Clone for Peripheral {
    /// A clone observes as the same model.
    fn clone(&self) -> (r: Self)
        ensures
            r@ == self@,
    {
        Peripheral {
            id: self.id,
            properties: match &self.properties {
                Some(props) => Some(props.clone()),
                None => None,
            },
        }
    }
}

/// `needle` occurs contiguously somewhere in `hay`. The empty sequence
/// occurs in everything.
pub open spec fn is_substring_of(needle: Seq<u8>, hay: Seq<u8>) -> bool {
    exists|i: int|
        0 <= i && i + needle.len() <= hay.len() && #[trigger] hay.subrange(i, i + needle.len())
            == needle
}

/// Whether `needle` matches `hay` exactly at offset `i`.
fn matches_at(hay: &Vec<u8>, needle: &Vec<u8>, i: usize) -> (r: bool)
    requires
        i + needle@.len() <= hay@.len(),
    ensures
        r == (hay@.subrange(i as int, i + needle@.len()) == needle@),
{
    let hlen = hay.len();
    let mut j: usize = 0;
    while j < needle.len()
        invariant
            j <= needle@.len(),
            i + needle@.len() <= hay@.len(),
            hlen == hay@.len(),
            forall|t: int| 0 <= t < j ==> hay@[i + t] == needle@[t],
        decreases needle@.len() - j,
    {
        if hay[i + j] != needle[j] {
            proof {
                assert(hay@.subrange(i as int, i + needle@.len())[j as int] == hay@[i + j]);
            }
            return false;
        }
        j = j + 1;
    }
    proof {
        assert(hay@.subrange(i as int, i + needle@.len()) =~= needle@);
    }
    true
}

/// Exact, case-sensitive substring test on bytes, with no normalization.
pub fn contains_bytes(hay: &Vec<u8>, needle: &Vec<u8>) -> (r: bool)
    ensures
        r == is_substring_of(needle@, hay@),
{
    if needle.len() > hay.len() {
        return false;
    }
    if needle.len() == 0 {
        proof {
            assert(hay@.subrange(0, 0 + needle@.len() as int) =~= needle@);
        }
        return true;
    }
    let bound = hay.len() - needle.len();
    let mut i: usize = 0;
    while i <= bound
        invariant
            1 <= needle@.len() <= hay@.len(),
            hay@.len() <= usize::MAX,
            bound == hay@.len() - needle@.len(),
            i <= bound + 1,
            forall|k: int|
                0 <= k < i ==> #[trigger] hay@.subrange(k, k + needle@.len()) != needle@,
        decreases bound + 1 - i,
    {
        if matches_at(hay, needle, i) {
            return true;
        }
        i = i + 1;
    }
    proof {
        if is_substring_of(needle@, hay@) {
            let k = choose|k: int|
                0 <= k && k + needle@.len() <= hay@.len() && #[trigger] hay@.subrange(
                    k,
                    k + needle@.len(),
                ) == needle@;
            assert(hay@.subrange(k, k + needle@.len()) != needle@);
        }
    }
    false
}

/// Whether a peripheral matches a name fragment: it has advertised
/// properties, those carry a local name, and the fragment occurs in that
/// name. A peripheral with no properties or no name never matches.
pub open spec fn model_matches(p: PeripheralModel, fragment: Seq<u8>) -> bool {
    match p.properties {
        Some(props) => match props.local_name {
            Some(name) => is_substring_of(fragment, name),
            None => false,
        },
        None => false,
    }
}

/// The models of a list of peripherals, in order.
pub open spec fn views_of(ps: Seq<Peripheral>) -> Seq<PeripheralModel> {
    ps.map_values(|p: Peripheral| p@)
}

/// The subsequence of `ps` that matches `fragment`, in the original order.
pub open spec fn matching(ps: Seq<PeripheralModel>, fragment: Seq<u8>) -> Seq<PeripheralModel> {
    ps.filter(|p: PeripheralModel| model_matches(p, fragment))
}

/// Extending the scanned prefix by one peripheral extends its matches by
/// that peripheral exactly when it matches.
proof fn lemma_matching_push(ps: Seq<PeripheralModel>, fragment: Seq<u8>, x: PeripheralModel)
    ensures
        matching(ps.push(x), fragment) == if model_matches(x, fragment) {
            matching(ps, fragment).push(x)
        } else {
            matching(ps, fragment)
        },
{
    reveal(Seq::filter);
    assert(ps.push(x).drop_last() =~= ps);
    assert(ps.push(x).last() == x);
}

/// Exec test of [`model_matches`].
fn matches_fragment(p: &Peripheral, fragment: &Vec<u8>) -> (r: bool)
    ensures
        r == model_matches(p@, fragment@),
{
    match &p.properties {
        Some(props) => match &props.local_name {
            Some(name) => contains_bytes(name, fragment),
            None => false,
        },
        None => false,
    }
}

/// Scan the given peripheral list once and collect every peripheral whose
/// advertised local name contains `device_name` as a substring, in the
/// list's original order. An empty result is not an error.
///
/// The caller performs the adapter's enumeration and property lookups and
/// hands their results in as plain values; any adapter failure is its to
/// propagate unchanged, before this scan runs.
pub fn find_peripherals(peripherals: &Vec<Peripheral>, device_name: &Vec<u8>) -> (r: Vec<
    Peripheral,
>)
    ensures
        views_of(r@) == matching(views_of(peripherals@), device_name@),
{
    let ghost vs = views_of(peripherals@);
    let mut r: Vec<Peripheral> = Vec::new();
    let mut i: usize = 0;
    while i < peripherals.len()
        invariant
            i <= peripherals@.len(),
            vs == views_of(peripherals@),
            views_of(r@) == matching(vs.take(i as int), device_name@),
        decreases peripherals@.len() - i,
    {
        let p = &peripherals[i];
        proof {
            assert(vs[i as int] == p@);
            assert(vs.take(i + 1) =~= vs.take(i as int).push(vs[i as int]));
            lemma_matching_push(vs.take(i as int), device_name@, vs[i as int]);
        }
        if matches_fragment(p, device_name) {
            let ghost old_r = r@;
            r.push(p.clone());
            proof {
                assert(views_of(r@) =~= views_of(old_r).push(p@));
            }
        }
        i = i + 1;
    }
    proof {
        assert(vs.take(vs.len() as int) =~= vs);
    }
    r
}

/// Scan the given peripheral list once and return the first peripheral
/// whose advertised local name contains `device_name` as a substring — the
/// first element of the very subsequence [`find_peripherals`] returns.
/// Fails with [`Error::DeviceNotFound`] exactly when that subsequence is
/// empty.
///
/// As with [`find_peripherals`], the caller performs the adapter calls and
/// propagates their failures unchanged before this scan runs.
pub fn find_peripheral(peripherals: &Vec<Peripheral>, device_name: &Vec<u8>) -> (r: Result<
    Peripheral,
    Error,
>)
    ensures
        match r {
            Ok(p) => matching(views_of(peripherals@), device_name@).len() > 0 && p@ == matching(
                views_of(peripherals@),
                device_name@,
            )[0],
            Err(e) => matching(views_of(peripherals@), device_name@).len() == 0 && e
                == Error::DeviceNotFound,
        },
{
    let ghost vs = views_of(peripherals@);
    let mut i: usize = 0;
    while i < peripherals.len()
        invariant
            i <= peripherals@.len(),
            vs == views_of(peripherals@),
            matching(vs.take(i as int), device_name@).len() == 0,
        decreases peripherals@.len() - i,
    {
        let p = &peripherals[i];
        proof {
            assert(vs[i as int] == p@);
            assert(vs.take(i + 1) =~= vs.take(i as int).push(vs[i as int]));
            lemma_matching_push(vs.take(i as int), device_name@, vs[i as int]);
        }
        if matches_fragment(p, device_name) {
            proof {
                assert(vs =~= vs.take(i + 1) + vs.skip(i + 1));
                Seq::<PeripheralModel>::filter_distributes_over_add(
                    vs.take(i + 1),
                    vs.skip(i + 1),
                    |q: PeripheralModel| model_matches(q, device_name@),
                );
                assert(matching(vs.take(i + 1), device_name@) == matching(
                    vs.take(i as int),
                    device_name@,
                ).push(p@));
                assert(matching(vs, device_name@)[0] == p@);
            }
            return Ok(p.clone());
        }
        i = i + 1;
    }
    proof {
        assert(vs.take(vs.len() as int) =~= vs);
    }
    Err(Error::DeviceNotFound)
}

} // verus!
