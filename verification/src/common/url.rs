//! What every site's address type provides.

use vstd::prelude::*;
use std::fmt::Debug;
use std::hash::Hash;
use crate::error::Error;

verus! {

/// A validated address of one site: a canonical path below a fixed base.
///
/// A value exists only if the site's rule accepted its path, and two values
/// are the same address exactly when their paths are equal.
pub trait UrlTrait: Hash + Debug + Sized {
    /// The canonical path. It is the identity of the address.
    spec fn path(&self) -> Seq<char>;

    /// The base of the site, which every full address begins with.
    spec fn base() -> Seq<char>;

    /// The path that validation examines for the raw text `raw`.
    spec fn canonical(raw: Seq<char>) -> Seq<char>;

    /// The site's rule: whether `path` may become an address.
    spec fn accepts(path: Seq<char>) -> bool;

    /// Whether `other` is the same address: whether the canonical paths are
    /// equal.
    fn same_address(&self, other: &Self) -> (r: bool)
        ensures
            r == (self.path() == other.path()),
    ;

    /// Validates `url` and makes an address of it.
    fn parse(url: &str) -> (r: Result<Self, Error>)
        ensures
            r is Ok <==> Self::accepts(Self::canonical(url@)),
            r matches Ok(u) ==> u.path() == Self::canonical(url@),
            r matches Err(e) ==> e.is_invalid_url(),
    ;

    /// The base of the site.
    fn base_url() -> (r: &'static str)
        ensures
            r@ == Self::base(),
    ;

    /// The canonical path, which the site's rule accepts.
    fn to_string(&self) -> (r: String)
        ensures
            r@ == self.path(),
            Self::accepts(r@),
    ;

    /// The address to fetch: the base followed by the canonical path.
    fn full_url(&self) -> (r: String)
        ensures
            r@ == Self::base() + self.path(),
    {
        let mut full = String::from_str(Self::base_url());
        let path = self.to_string();
        full.append(path.as_str());
        full
    }

    /// Validates `url` and returns the canonical path.
    fn parse_url(url: &str) -> (r: Result<String, Error>)
        ensures
            r is Ok <==> Self::accepts(Self::canonical(url@)),
            r matches Ok(p) ==> p@ == Self::canonical(url@),
            r matches Err(e) ==> e.is_invalid_url(),
    ;

    /// The addresses of those of `urls` that pass validation, in order.
    fn from_collection(urls: Vec<String>) -> (r: Vec<Self>)
        ensures
            Seq::new(r.len() as nat, |i: int| r[i].path()) == Seq::new(
                urls.len() as nat,
                |i: int| urls[i]@,
            ).filter(|raw: Seq<char>| Self::accepts(Self::canonical(raw))).map_values(
                |raw: Seq<char>| Self::canonical(raw),
            ),
    {
        let ghost raws = Seq::new(urls.len() as nat, |i: int| urls[i]@);
        let ghost keep = |raw: Seq<char>| Self::accepts(Self::canonical(raw));
        let ghost canon = |raw: Seq<char>| Self::canonical(raw);
        let mut out: Vec<Self> = Vec::new();
        let mut i: usize = 0;
        proof {
            reveal(Seq::filter);
            assert(raws.take(0) =~= Seq::<Seq<char>>::empty());
            assert(Seq::new(out.len() as nat, |k: int| out[k].path()) =~= raws.take(0).filter(
                keep,
            ).map_values(canon));
        }
        while i < urls.len()
            invariant
                i <= urls.len(),
                raws == Seq::new(urls.len() as nat, |k: int| urls[k]@),
                keep == |raw: Seq<char>| Self::accepts(Self::canonical(raw)),
                canon == |raw: Seq<char>| Self::canonical(raw),
                Seq::new(out.len() as nat, |k: int| out[k].path()) == raws.take(i as int).filter(
                    keep,
                ).map_values(canon),
            decreases urls.len() - i,
        {
            let ghost before = raws.take(i as int);
            let ghost raw = urls[i as int]@;
            let ghost old_out = Seq::new(out.len() as nat, |k: int| out[k].path());
            proof {
                assert(raws.take(i + 1) =~= before.push(raw));
                Seq::lemma_filter_push(before, raw, keep);
                assert(before.filter(keep).push(raw).map_values(canon) =~= before.filter(
                    keep,
                ).map_values(canon).push(canon(raw)));
            }
            match Self::parse(urls[i].as_str()) {
                Ok(u) => {
                    out.push(u);
                    assert(Seq::new(out.len() as nat, |k: int| out[k].path()) =~= old_out.push(
                        canon(raw),
                    ));
                },
                Err(_) => {},
            }
            i += 1;
        }
        assert(raws.take(i as int) =~= raws);
        out
    }
}

} // verus!
