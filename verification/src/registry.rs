//! The registry of package backends and the merged list of what they report
//! as installed.

use crate::catalog::Package;
use crate::ranking::{keeps_ties, ranked, rearranged, sort_ranked, Ranked};
use vstd::prelude::*;

verus! {

/// The names of the active backends, each at the place where the backend
/// itself is kept. No name occurs twice.
pub struct Backends {
    names: Vec<String>,
}

/// A package with the name of the backend that reported it.
pub struct Installed {
    pub backend_name: String,
    pub package: Package,
}

/// What one backend answered when asked for its installed packages: the
/// packages, or why it could not list them.
pub struct Listing {
    pub backend_name: String,
    pub outcome: Result<Vec<Package>, String>,
}

/// Whether no name occurs twice in `names`.
pub open spec fn distinct_names(names: Seq<String>) -> bool {
    forall|i: int, j: int|
        0 <= i < j < names.len() ==> (#[trigger] names[i])@ != (#[trigger] names[j])@
}

/// Whether `name` is one of `names`.
pub open spec fn has_name(names: Seq<String>, name: Seq<char>) -> bool {
    exists|i: int| 0 <= i < names.len() && (#[trigger] names[i])@ == name
}

/// The packages of `packages`, each tagged with `backend_name`.
pub open spec fn tagged(backend_name: String, packages: Seq<Package>) -> Seq<Installed> {
    Seq::new(
        packages.len(),
        |i: int| (Installed { backend_name: backend_name, package: packages[i] }),
    )
}

/// What one listing adds to the merged list: its packages, tagged, or
/// nothing where the backend failed.
pub open spec fn listed(listing: Listing) -> Seq<Installed> {
    match listing.outcome {
        Ok(packages) => tagged(listing.backend_name, packages@),
        Err(_) => Seq::empty(),
    }
}

/// The merged list before it is sorted: what each listing adds, in order.
pub open spec fn merged_of(listings: Seq<Listing>) -> Seq<Installed>
    decreases listings.len(),
{
    if listings.len() == 0 {
        Seq::empty()
    } else {
        merged_of(listings.drop_last()) + listed(listings.last())
    }
}

impl View for Backends {
    type V = Seq<String>;

    closed spec fn view(&self) -> Seq<String> {
        self.names@
    }
}

impl Backends {
    /// Whether the registry is valid: no name occurs twice.
    pub open spec fn wf(&self) -> bool {
        distinct_names(self@)
    }

    /// A registry without backends.
    pub fn new() -> (r: Self)
        ensures
            r@.len() == 0,
            r.wf(),
    {
        Backends { names: Vec::new() }
    }

    /// The number of registered backends.
    pub fn len(&self) -> (n: usize)
        ensures
            n == self@.len(),
    {
        self.names.len()
    }

    /// The name of the `i`-th backend.
    pub fn name(&self, i: usize) -> (r: &str)
        requires
            i < self@.len(),
        ensures
            r@ == self@[i as int]@,
    {
        self.names[i].as_str()
    }

    /// The place of the backend called `name`; `None` where no backend of
    /// that name is registered.
    pub fn get(&self, name: &str) -> (r: Option<usize>)
        ensures
            r is Some <==> has_name(self@, name@),
            r matches Some(i) ==> i < self@.len() && self@[i as int]@ == name@,
    {
        let wanted = name.to_owned();
        let mut i: usize = 0;
        while i < self.names.len()
            invariant
                i <= self.names.len(),
                wanted@ == name@,
                forall|k: int| 0 <= k < i ==> (#[trigger] self.names@[k])@ != name@,
            decreases self.names.len() - i,
        {
            if self.names[i] == wanted {
                return Some(i);
            }
            i = i + 1;
        }
        None
    }

    /// Registers a backend called `name` and returns its place. A name that
    /// is registered already keeps its place, and nothing changes.
    pub fn register(&mut self, name: &str) -> (place: usize)
        requires
            old(self).wf(),
        ensures
            final(self).wf(),
            place < final(self)@.len(),
            final(self)@[place as int]@ == name@,
            has_name(old(self)@, name@) ==> final(self)@ == old(self)@,
            !has_name(old(self)@, name@) ==> final(self)@.drop_last() == old(self)@
                && place == old(self)@.len(),
    {
        match self.get(name) {
            Some(i) => i,
            None => {
                let ghost before = self.names@;
                self.names.push(name.to_owned());
                proof {
                    assert(self.names@.drop_last() =~= before);
                }
                self.names.len() - 1
            },
        }
    }
}

impl Ranked for Installed {
    open spec fn rank_weight(&self) -> nat {
        0
    }

    open spec fn rank_name(&self) -> Seq<char> {
        self.package.name@
    }

    fn weight(&self) -> (w: usize) {
        0
    }

    fn name(&self) -> (n: &str) {
        self.package.name.as_str()
    }
}

/// The packages of all listings, each tagged with its backend's name, in the
/// order of the listings. A listing that failed adds nothing.
pub fn merge_listings(listings: &Vec<Listing>) -> (merged: Vec<Installed>)
    ensures
        merged@ == merged_of(listings@),
{
    let mut merged: Vec<Installed> = Vec::new();
    let mut i: usize = 0;
    while i < listings.len()
        invariant
            i <= listings.len(),
            merged@ == merged_of(listings@.take(i as int)),
        decreases listings.len() - i,
    {
        let ghost before = merged@;
        match &listings[i].outcome {
            Ok(packages) => {
                let mut k: usize = 0;
                while k < packages.len()
                    invariant
                        i < listings.len(),
                        listings[i as int].outcome == Ok::<Vec<Package>, String>(*packages),
                        k <= packages.len(),
                        merged@ == before + tagged(
                            listings[i as int].backend_name,
                            packages@.take(k as int),
                        ),
                    decreases packages.len() - k,
                {
                    let ghost sofar = merged@;
                    merged.push(
                        Installed {
                            backend_name: listings[i].backend_name.clone(),
                            package: packages[k].duplicate(),
                        },
                    );
                    proof {
                        assert(packages@.take(k as int + 1) =~= packages@.take(k as int).push(
                            packages@[k as int],
                        ));
                        assert(merged@ =~= before + tagged(
                            listings[i as int].backend_name,
                            packages@.take(k as int + 1),
                        ));
                    }
                    k = k + 1;
                }
                proof {
                    assert(packages@.take(packages@.len() as int) =~= packages@);
                }
            },
            Err(_) => {
                proof {
                    assert(merged@ =~= before + Seq::<Installed>::empty());
                }
            },
        }
        proof {
            assert(listings@.take(i as int + 1).drop_last() =~= listings@.take(i as int));
            assert(listings@.take(i as int + 1).last() == listings@[i as int]);
        }
        i = i + 1;
    }
    proof {
        assert(listings@.take(listings@.len() as int) =~= listings@);
    }
    merged
}

/// The list of installed packages: what the backends listed, sorted by name
/// in natural lexical order, packages whose names tie staying in the order
/// of the listings. A backend that failed adds nothing and stops no other.
pub fn merge_installed(listings: &Vec<Listing>) -> (installed: Vec<Installed>)
    ensures
        ranked(installed@),
        installed@.to_multiset() == merged_of(listings@).to_multiset(),
        installed@.len() == merged_of(listings@).len(),
        (forall|i: int| 0 <= i < listings@.len() ==> (#[trigger] listings@[i]).outcome is Err)
            ==> installed@.len() == 0,
        exists|origin: Seq<int>|
            #![trigger keeps_ties(installed@, origin)]
            rearranged(merged_of(listings@), installed@, origin) && keeps_ties(
                installed@,
                origin,
            ),
{
    let mut installed = merge_listings(listings);
    sort_ranked(&mut installed);
    proof {
        if forall|i: int| 0 <= i < listings@.len() ==> (#[trigger] listings@[i]).outcome is Err {
            lemma_all_failed_merges_nothing(listings@);
        }
    }
    installed
}

/// Where every backend failed, the merged list is empty.
pub proof fn lemma_all_failed_merges_nothing(listings: Seq<Listing>)
    requires
        forall|i: int| 0 <= i < listings.len() ==> (#[trigger] listings[i]).outcome is Err,
    ensures
        merged_of(listings).len() == 0,
    decreases listings.len(),
{
    if listings.len() > 0 {
        assert(listings.last() == listings[listings.len() - 1]);
        lemma_all_failed_merges_nothing(listings.drop_last());
    }
}

} // verus!
