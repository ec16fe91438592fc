//! Absolute slash-separated paths.

use vstd::prelude::*;
use vstd::string::StringSliceAdditionalSpecFns;

verus! {

/// The path separator, as a byte.
pub const PATH_SEPARATOR: u8 = 0x2f;

/// The non-empty components of `bytes`, split at `/`, scanning from
/// position `i` with `cur` the partial component read so far.
pub open spec fn spec_components(bytes: Seq<u8>, i: int, cur: Seq<u8>) -> Seq<Seq<u8>>
    decreases bytes.len() - i,
{
    if i < 0 || i >= bytes.len() {
        if cur.len() == 0 {
            Seq::empty()
        } else {
            seq![cur]
        }
    } else if bytes[i] == PATH_SEPARATOR {
        if cur.len() == 0 {
            spec_components(bytes, i + 1, Seq::empty())
        } else {
            seq![cur] + spec_components(bytes, i + 1, Seq::empty())
        }
    } else {
        spec_components(bytes, i + 1, cur.push(bytes[i]))
    }
}

/// The byte views of a component list.
pub open spec fn component_views(vs: Seq<Vec<u8>>) -> Seq<Seq<u8>> {
    vs.map_values(|c: Vec<u8>| c@)
}

/// An absolute path, held as its list of components.
pub struct Path {
    pub components: Vec<Vec<u8>>,
}

impl Path {
    /// Accepts only absolute paths, splitting them into components.
    pub fn new(path: &str) -> (r: Option<Path>)
        ensures
            match r {
                Some(p) => path.spec_bytes().len() > 0 && path.spec_bytes()[0] == PATH_SEPARATOR
                    && component_views(p.components@) == spec_components(
                    path.spec_bytes(),
                    0,
                    Seq::empty(),
                ),
                None => path.spec_bytes().len() == 0 || path.spec_bytes()[0] != PATH_SEPARATOR,
            },
    {
        let bytes = path.as_bytes();
        let n = bytes.len();
        if n == 0 || bytes[0] != PATH_SEPARATOR {
            return None;
        }
        let ghost pb = path.spec_bytes();
        let mut components: Vec<Vec<u8>> = Vec::new();
        let mut cur: Vec<u8> = Vec::new();
        let mut i: usize = 0;
        while i < n
            invariant
                0 <= i <= n,
                n == pb.len(),
                bytes@ == pb,
                spec_components(pb, 0, Seq::empty()) == component_views(components@)
                    + spec_components(pb, i as int, cur@),
            decreases n - i,
        {
            let ghost cur0 = cur@;
            let b = bytes[i];
            if b == PATH_SEPARATOR {
                if cur.len() > 0 {
                    let ghost prev = component_views(components@);
                    let done = cur;
                    cur = Vec::new();
                    components.push(done);
                    proof {
                        assert(spec_components(pb, i as int, cur0) == seq![cur0]
                            + spec_components(pb, i + 1, Seq::empty()));
                        assert(component_views(components@) =~= prev.push(done@));
                        assert(component_views(components@) + spec_components(
                            pb,
                            i + 1,
                            Seq::empty(),
                        ) =~= prev + (seq![done@] + spec_components(pb, i + 1, Seq::empty())));
                        assert(cur@ =~= Seq::<u8>::empty());
                    }
                } else {
                    proof {
                        assert(cur0 =~= Seq::<u8>::empty());
                        assert(spec_components(pb, i as int, cur0) == spec_components(
                            pb,
                            i + 1,
                            Seq::empty(),
                        ));
                    }
                }
            } else {
                cur.push(b);
                proof {
                    assert(spec_components(pb, i as int, cur0) == spec_components(
                        pb,
                        i + 1,
                        cur0.push(b),
                    ));
                    assert(cur@ == cur0.push(b));
                }
            }
            i = i + 1;
        }
        if cur.len() > 0 {
            let ghost prev = component_views(components@);
            let done = cur;
            components.push(done);
            proof {
                assert(component_views(components@) =~= prev.push(done@));
                assert(prev + seq![done@] =~= component_views(components@));
            }
        }
        proof {
            assert(component_views(components@) =~= component_views(components@) + spec_components(
                pb,
                n as int,
                Seq::empty(),
            ));
        }
        Some(Path { components })
    }

    /// The path's components, outermost directory first.
    pub fn iter(&self) -> (r: &Vec<Vec<u8>>)
        ensures
            r == &self.components,
    {
        &self.components
    }
}

} // verus!
