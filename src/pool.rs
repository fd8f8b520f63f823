use vstd::prelude::*;
use crate::entries::KeyedEntries;

verus! {

/// The pool after `install` of `handle` under `name`: a handle already cached
/// under that name stays, otherwise the new one is kept.
pub open spec fn installed<H>(m: Map<Seq<char>, H>, name: Seq<char>, handle: H) -> Map<Seq<char>, H> {
    if m.contains_key(name) {
        m
    } else {
        m.insert(name, handle)
    }
}

/// The pool after installing each of `handles` under `name`, in order.
pub open spec fn installed_all<H>(m: Map<Seq<char>, H>, name: Seq<char>, handles: Seq<H>) -> Map<
    Seq<char>,
    H,
>
    decreases handles.len(),
{
    if handles.len() == 0 {
        m
    } else {
        installed(installed_all(m, name, handles.drop_last()), name, handles.last())
    }
}

/// Cache of bucket handles, keyed by bucket name. A handle, once cached, is
/// never replaced, so every caller that installs a handle for a name and then
/// looks the name up sees the same one.
pub struct BucketPool<H> {
    entries: KeyedEntries<H>,
}

impl<H> View for BucketPool<H> {
    type V = Map<Seq<char>, H>;

    closed spec fn view(&self) -> Map<Seq<char>, H> {
        self.entries@
    }
}

impl<H> BucketPool<H> {
    pub closed spec fn wf(&self) -> bool {
        self.entries.wf()
    }

    pub fn new() -> (r: Self)
        ensures
            r.wf(),
            r@ == Map::<Seq<char>, H>::empty(),
    {
        BucketPool { entries: KeyedEntries::new() }
    }

    /// The handle cached for `name`, if any.
    pub fn cached(&self, name: &String) -> (r: Option<&H>)
        requires
            self.wf(),
        ensures
            match r {
                Some(h) => self@.contains_key(name@) && *h == self@[name@],
                None => !self@.contains_key(name@),
            },
    {
        self.entries.get(name)
    }

    /// Caches `handle` under `name` unless a handle is cached there already;
    /// returns whether the new handle was kept.
    pub fn install(&mut self, name: String, handle: H) -> (kept: bool)
        requires
            old(self).wf(),
        ensures
            final(self).wf(),
            final(self)@ == installed(old(self)@, name@, handle),
            kept == !old(self)@.contains_key(name@),
    {
        if self.entries.contains_key(&name) {
            false
        } else {
            self.entries.insert(name, handle);
            true
        }
    }
}

/// However many handles are installed for one name, and in whatever order, the
/// name ends up with a single handle: the one cached before, or else the first
/// installed. Each caller, once its own install is done, sees that same handle.
pub proof fn lemma_pool_converges<H>(m: Map<Seq<char>, H>, name: Seq<char>, handles: Seq<H>)
    requires
        handles.len() > 0,
    ensures
        installed_all(m, name, handles).contains_key(name),
        installed_all(m, name, handles)[name] == (if m.contains_key(name) {
            m[name]
        } else {
            handles[0]
        }),
        forall|i: int|
            0 <= i < handles.len() ==> #[trigger] installed_all(m, name, handles.take(i + 1))[name]
                == installed_all(m, name, handles)[name],
    decreases handles.len(),
{
    let n = handles.len();
    if n == 1 {
        assert(handles.drop_last() =~= Seq::<H>::empty());
        assert(installed_all(m, name, handles.drop_last()) == m);
        assert(handles.last() == handles[0]);
        assert forall|i: int| 0 <= i < handles.len() implies #[trigger] installed_all(
            m,
            name,
            handles.take(i + 1),
        )[name] == installed_all(m, name, handles)[name] by {
            assert(handles.take(i + 1) =~= handles);
        }
    } else {
        let prev = handles.drop_last();
        lemma_pool_converges(m, name, prev);
        assert(prev.len() == n - 1 && n >= 2);
        assert(prev[0] == handles[0]);
        assert(installed_all(m, name, handles) == installed(installed_all(m, name, prev), name, handles.last()));
        assert forall|i: int| 0 <= i < handles.len() implies #[trigger] installed_all(
            m,
            name,
            handles.take(i + 1),
        )[name] == installed_all(m, name, handles)[name] by {
            if i + 1 == n {
                assert(handles.take(i + 1) =~= handles);
            } else {
                assert(handles.take(i + 1) =~= prev.take(i + 1));
            }
        }
    }
}

} // verus!
